use vstd::prelude::*;

verus! {

/// One typed segment of a multi-protocol address. `Node` and `Project` are
/// abstract aliases that resolution replaces; the remaining kinds are
/// concrete network primitives or opaque pass-through values.
#[derive(Debug, Clone, PartialEq, Eq)]
pub enum Segment {
    /// A local node alias, resolved through the address lookup.
    Node(String),
    /// A remotely hosted project alias, resolved through the cached
    /// project directory.
    Project(String),
    /// A DNS host name.
    Dns(String),
    /// An IPv4 address, four octets in network order.
    Ip4([u8; 4]),
    /// An IPv6 address, sixteen octets in network order.
    Ip6([u8; 16]),
    /// A TCP port.
    Tcp(u16),
    /// An unrecognized segment, kept verbatim: its protocol code and its
    /// raw payload.
    Other(u64, Vec<u8>),
}

/// The mathematical value of a `Segment`: strings and byte payloads as
/// sequences.
pub enum SegmentView {
    Node(Seq<char>),
    Project(Seq<char>),
    Dns(Seq<char>),
    Ip4(Seq<u8>),
    Ip6(Seq<u8>),
    Tcp(u16),
    Other(u64, Seq<u8>),
}

impl View for Segment {
    type V = SegmentView;

    open spec fn view(&self) -> SegmentView {
        match self {
            Segment::Node(a) => SegmentView::Node(a@),
            Segment::Project(a) => SegmentView::Project(a@),
            Segment::Dns(h) => SegmentView::Dns(h@),
            Segment::Ip4(o) => SegmentView::Ip4(o@),
            Segment::Ip6(o) => SegmentView::Ip6(o@),
            Segment::Tcp(p) => SegmentView::Tcp(*p),
            Segment::Other(c, d) => SegmentView::Other(*c, d@),
        }
    }
}

/// True of a segment that names nothing abstract: resolution passes it
/// through and may leave it in its output.
pub open spec fn is_concrete_segment(s: SegmentView) -> bool {
    !(s is Node || s is Project)
}

/// True of a route in which no abstract alias remains.
pub open spec fn is_concrete_route(r: Seq<SegmentView>) -> bool {
    forall|i: int| 0 <= i < r.len() ==> is_concrete_segment(#[trigger] r[i])
}

fn copy_bytes(v: &Vec<u8>) -> (r: Vec<u8>)
    ensures
        r@ == v@,
{
    let mut r: Vec<u8> = Vec::new();
    let mut i: usize = 0;
    while i < v.len()
        invariant
            i <= v.len(),
            r@ == v@.subrange(0, i as int),
        decreases v.len() - i,
    {
        r.push(v[i]);
        i = i + 1;
        proof {
            assert(r@ =~= v@.subrange(0, i as int));
        }
    }
    proof {
        assert(r@ =~= v@);
    }
    r
}

impl Segment {
    /// An owned copy with the same mathematical value.
    pub fn dup(&self) -> (r: Segment)
        ensures
            r@ == self@,
    {
        match self {
            Segment::Node(a) => Segment::Node(a.clone()),
            Segment::Project(a) => Segment::Project(a.clone()),
            Segment::Dns(h) => Segment::Dns(h.clone()),
            Segment::Ip4(o) => Segment::Ip4(*o),
            Segment::Ip6(o) => Segment::Ip6(*o),
            Segment::Tcp(p) => Segment::Tcp(*p),
            Segment::Other(c, d) => Segment::Other(*c, copy_bytes(d)),
        }
    }
}

/// An ordered, typed multi-protocol address. Immutable once built by its
/// producer; segment order defines route traversal order, and resolution
/// preserves it.
#[derive(Debug, Clone, PartialEq, Eq)]
pub struct Address {
    pub segments: Vec<Segment>,
}

impl View for Address {
    type V = Seq<SegmentView>;

    open spec fn view(&self) -> Seq<SegmentView> {
        self.segments@.map_values(|s: Segment| s@)
    }
}

impl Address {
    /// The empty address, which denotes the local node itself.
    pub fn new() -> (r: Address)
        ensures
            r@ == Seq::<SegmentView>::empty(),
    {
        let r = Address { segments: Vec::new() };
        proof {
            assert(r@ =~= Seq::<SegmentView>::empty());
        }
        r
    }

    /// Wraps an already ordered sequence of segments.
    pub fn from_segments(segments: Vec<Segment>) -> (r: Address)
        ensures
            r@ == segments@.map_values(|s: Segment| s@),
    {
        Address { segments }
    }

    pub fn len(&self) -> (r: usize)
        ensures
            r == self@.len(),
    {
        self.segments.len()
    }

    pub fn is_empty(&self) -> (r: bool)
        ensures
            r == (self@.len() == 0),
    {
        self.segments.len() == 0
    }

    pub fn segment(&self, i: usize) -> (r: &Segment)
        requires
            i < self@.len(),
        ensures
            r@ == self@[i as int],
    {
        &self.segments[i]
    }

    /// Appends one segment.
    pub fn push(&mut self, s: Segment)
        ensures
            final(self)@ == old(self)@.push(s@),
    {
        self.segments.push(s);
        proof {
            assert(self@ =~= old(self)@.push(self.segments@.last()@));
        }
    }

    /// Appends a copy of every segment of `other`, in order.
    pub fn extend_from(&mut self, other: &Address)
        ensures
            final(self)@ == old(self)@ + other@,
    {
        let mut i: usize = 0;
        while i < other.segments.len()
            invariant
                i <= other.segments.len(),
                self.segments@.len() == old(self).segments@.len() + i,
                forall|j: int|
                    0 <= j < old(self).segments@.len() ==> #[trigger] self.segments@[j]
                        == old(self).segments@[j],
                forall|k: int|
                    old(self).segments@.len() <= k < old(self).segments@.len() + i
                        ==> #[trigger] self.segments@[k]@ == other.segments@[k - old(
                        self,
                    ).segments@.len()]@,
            decreases other.segments.len() - i,
        {
            self.segments.push(other.segments[i].dup());
            i = i + 1;
        }
        proof {
            assert(self@ =~= old(self)@ + other@);
        }
    }

    /// An owned copy with the same mathematical value.
    pub fn dup(&self) -> (r: Address)
        ensures
            r@ == self@,
    {
        let mut segments: Vec<Segment> = Vec::new();
        let mut i: usize = 0;
        while i < self.segments.len()
            invariant
                i <= self.segments.len(),
                segments@.len() == i,
                forall|j: int| 0 <= j < i as int ==> #[trigger] segments@[j]@ == self.segments@[j]@,
            decreases self.segments.len() - i,
        {
            segments.push(self.segments[i].dup());
            i = i + 1;
        }
        let r = Address { segments };
        proof {
            assert(r@ =~= self@);
        }
        r
    }
}

} // verus!
