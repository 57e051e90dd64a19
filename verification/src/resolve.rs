use vstd::prelude::*;

use crate::addr::{Address, Segment, SegmentView};
use crate::error::{Error, ErrorView};
use crate::lookup::{AddressLookup, NodeRecord, NodeRecordView};

verus! {

/// One identity requirement of a resolved route: messages on `route` (the
/// sub-route a project contributed) must present `identity_id`.
#[derive(Debug, Clone, PartialEq, Eq)]
pub struct IdentityEntry {
    pub route: Address,
    pub identity_id: String,
}

/// The mathematical value of an `IdentityEntry`.
pub struct IdentityEntryView {
    pub route: Seq<SegmentView>,
    pub identity_id: Seq<char>,
}

impl View for IdentityEntry {
    type V = IdentityEntryView;

    open spec fn view(&self) -> IdentityEntryView {
        IdentityEntryView { route: self.route@, identity_id: self.identity_id@ }
    }
}

/// The mathematical values of a sequence of identity entries.
pub open spec fn ids_view(entries: Seq<IdentityEntry>) -> Seq<IdentityEntryView> {
    entries.map_values(|e: IdentityEntry| e@)
}

/// The output of resolution: a route with no abstract alias left, and one
/// identity requirement per project segment that was encountered, in
/// encounter order (the order carries no meaning; duplicates are kept).
#[derive(Debug, Clone, PartialEq, Eq)]
pub struct ResolvedRoute {
    pub route: Address,
    pub identities: Vec<IdentityEntry>,
}

/// The concrete segments a node record contributes: the host segment chosen
/// by the record's tag, then the TCP port segment.
pub open spec fn node_segments(record: NodeRecordView) -> Seq<SegmentView> {
    match record {
        NodeRecordView::Dns(host, port) => seq![SegmentView::Dns(host), SegmentView::Tcp(port)],
        NodeRecordView::Ip4(octets, port) => seq![
            SegmentView::Ip4(octets),
            SegmentView::Tcp(port),
        ],
        NodeRecordView::Ip6(octets, port) => seq![
            SegmentView::Ip6(octets),
            SegmentView::Tcp(port),
        ],
    }
}

/// What resolving a suffix of an address yields under one fixed lookup:
/// completion, a pause asking for a project-cache refresh, or failure.
/// Route and identity contributions are those of the suffix alone.
pub enum RunOutcome {
    Done { route: Seq<SegmentView>, identities: Seq<IdentityEntryView> },
    Refresh {
        alias: Seq<char>,
        at: int,
        route: Seq<SegmentView>,
        identities: Seq<IdentityEntryView>,
    },
    Failed { err: ErrorView },
}

/// Prepends contributions to an outcome's accumulators; failure absorbs
/// everything.
pub open spec fn with_prefix(
    route: Seq<SegmentView>,
    identities: Seq<IdentityEntryView>,
    rest: RunOutcome,
) -> RunOutcome {
    match rest {
        RunOutcome::Done { route: r, identities: ids } => (RunOutcome::Done {
            route: route + r,
            identities: identities + ids,
        }),
        RunOutcome::Refresh { alias, at, route: r, identities: ids } => (RunOutcome::Refresh {
            alias,
            at,
            route: route + r,
            identities: identities + ids,
        }),
        RunOutcome::Failed { err } => (RunOutcome::Failed { err }),
    }
}

/// Resolution of `segs[i..]` under `lookup`. `refreshed` says whether the
/// single permitted cache refresh for the project segment at `i` has already
/// been asked for. Segment order is preserved; node aliases contribute their
/// endpoint's host-then-port pair; project aliases contribute their stored
/// route, in full, plus one identity requirement; anything else passes
/// through verbatim. A project miss pauses once and fails when it repeats.
pub open spec fn run(
    segs: Seq<SegmentView>,
    i: int,
    lookup: AddressLookup,
    refreshed: bool,
) -> RunOutcome
    decreases segs.len() - i,
{
    if i < 0 || i >= segs.len() {
        RunOutcome::Done {
            route: Seq::<SegmentView>::empty(),
            identities: Seq::<IdentityEntryView>::empty(),
        }
    } else {
        match segs[i] {
            SegmentView::Node(alias) => match lookup.spec_node(alias) {
                Some(record) => with_prefix(
                    node_segments(record),
                    Seq::<IdentityEntryView>::empty(),
                    run(segs, i + 1, lookup, false),
                ),
                None => RunOutcome::Failed { err: ErrorView::UnknownNode(alias) },
            },
            SegmentView::Project(alias) => match lookup.spec_project(alias) {
                Some(p) => with_prefix(
                    p.route,
                    seq![IdentityEntryView { route: p.route, identity_id: p.identity_id }],
                    run(segs, i + 1, lookup, false),
                ),
                None => if refreshed {
                    RunOutcome::Failed { err: ErrorView::UnknownProject(alias) }
                } else {
                    RunOutcome::Refresh {
                        alias,
                        at: i,
                        route: Seq::<SegmentView>::empty(),
                        identities: Seq::<IdentityEntryView>::empty(),
                    }
                },
            },
            other => with_prefix(
                seq![other],
                Seq::<IdentityEntryView>::empty(),
                run(segs, i + 1, lookup, false),
            ),
        }
    }
}

proof fn lemma_with_prefix_assoc(
    r1: Seq<SegmentView>,
    d1: Seq<IdentityEntryView>,
    r2: Seq<SegmentView>,
    d2: Seq<IdentityEntryView>,
    o: RunOutcome,
)
    ensures
        with_prefix(r1, d1, with_prefix(r2, d2, o)) == with_prefix(r1 + r2, d1 + d2, o),
{
    match o {
        RunOutcome::Done { route, identities } => {
            assert(r1 + (r2 + route) =~= (r1 + r2) + route);
            assert(d1 + (d2 + identities) =~= (d1 + d2) + identities);
        },
        RunOutcome::Refresh { alias, at, route, identities } => {
            assert(r1 + (r2 + route) =~= (r1 + r2) + route);
            assert(d1 + (d2 + identities) =~= (d1 + d2) + identities);
        },
        RunOutcome::Failed { err } => {},
    }
}

/// What one call of `Resolver::advance` reports: completion with the
/// resolved route, a pause naming the project alias whose cache entry needs
/// a refresh, or failure.
#[derive(Debug, PartialEq, Eq)]
pub enum Advance {
    Done(ResolvedRoute),
    NeedRefresh(String),
    Failed(Error),
}

/// The resolution of one address, advanced step by step so its owner can
/// perform the remote cache refresh between steps. The resolver never asks
/// for a refresh twice for the same project segment.
#[derive(Debug)]
pub struct Resolver {
    /// The address being resolved; never changed.
    pub address: Address,
    /// The next segment to resolve.
    pub pos: usize,
    /// Whether the refresh for the project segment at `pos` was already
    /// requested.
    pub refreshed: bool,
    /// Concrete segments accumulated so far.
    pub route: Address,
    /// Identity requirements accumulated so far.
    pub identities: Vec<IdentityEntry>,
    /// Set once the resolution has returned its final outcome.
    pub finished: bool,
}

impl Resolver {
    /// Basic well-formedness: the cursor stays inside the address, and a
    /// pending refresh only ever points at a project segment.
    pub open spec fn wf(&self) -> bool {
        &&& self.pos <= self.address@.len()
        &&& (self.refreshed ==> self.pos < self.address@.len() && self.address@[
            self.pos as int
        ] is Project)
    }

    /// Starts resolving `address` from its first segment.
    pub fn new(address: Address) -> (r: Resolver)
        ensures
            r.wf(),
            r.address == address,
            r.pos == 0,
            !r.refreshed,
            !r.finished,
            r.route@.len() == 0,
            r.identities@.len() == 0,
    {
        Resolver {
            address,
            pos: 0,
            refreshed: false,
            route: Address::new(),
            identities: Vec::new(),
            finished: false,
        }
    }

    /// Resolves segments under `lookup` until the address is exhausted, a
    /// project alias needs its single cache refresh, or an alias is unknown.
    /// The outcome, and the new state, are exactly what `run` assigns to the
    /// remaining segments; in particular, after a pause the resolver resumes
    /// at the same project segment and never pauses for it again.
    pub fn advance(&mut self, lookup: &AddressLookup) -> (r: Advance)
        requires
            old(self).wf(),
            !old(self).finished,
        ensures
            final(self).wf(),
            final(self).address == old(self).address,
            match run(
                old(self).address@,
                old(self).pos as int,
                *lookup,
                old(self).refreshed,
            ) {
                RunOutcome::Done { route, identities } => {
                    &&& r matches Advance::Done(res)
                    &&& (r matches Advance::Done(res) ==> res.route@ == old(self).route@ + route
                        && ids_view(res.identities@) == ids_view(old(self).identities@)
                        + identities)
                    &&& final(self).finished
                },
                RunOutcome::Refresh { alias, at, route, identities } => {
                    &&& r matches Advance::NeedRefresh(a)
                    &&& (r matches Advance::NeedRefresh(a) ==> a@ == alias)
                    &&& !final(self).finished
                    &&& final(self).pos == at
                    &&& final(self).refreshed
                    &&& final(self).route@ == old(self).route@ + route
                    &&& ids_view(final(self).identities@) == ids_view(old(self).identities@)
                        + identities
                },
                RunOutcome::Failed { err } => {
                    &&& r matches Advance::Failed(e)
                    &&& (r matches Advance::Failed(e) ==> e@ == err)
                    &&& final(self).finished
                },
            },
    {
        let ghost segs = self.address@;
        let ghost pos0 = self.pos as int;
        let ghost refreshed0 = self.refreshed;
        let ghost route0 = self.route@;
        let ghost ids0 = ids_view(self.identities@);
        while self.pos < self.address.len()
            invariant
                self.wf(),
                !self.finished,
                self.address == old(self).address,
                self.address@ == segs,
                old(self).route@ == route0,
                ids_view(old(self).identities@) == ids0,
                old(self).pos as int == pos0,
                old(self).refreshed == refreshed0,
                with_prefix(
                    self.route@,
                    ids_view(self.identities@),
                    run(segs, self.pos as int, *lookup, self.refreshed),
                ) == with_prefix(route0, ids0, run(segs, pos0, *lookup, refreshed0)),
            decreases self.address@.len() - self.pos,
        {
            let ghost route_in = self.route@;
            let ghost ids_in = ids_view(self.identities@);
            let ghost pos_in = self.pos as int;
            let ghost refreshed_in = self.refreshed;
            let kind = self.address.segment(self.pos).dup();
            proof {
                assert(kind@ == segs[pos_in]);
            }
            match &kind {
                Segment::Node(alias) => {
                    match lookup.get_node(alias) {
                        Some(record) => {
                            match record {
                                NodeRecord::Dns(host, port) => {
                                    self.route.push(Segment::Dns(host.clone()));
                                    self.route.push(Segment::Tcp(*port));
                                },
                                NodeRecord::Ip4(octets, port) => {
                                    self.route.push(Segment::Ip4(*octets));
                                    self.route.push(Segment::Tcp(*port));
                                },
                                NodeRecord::Ip6(octets, port) => {
                                    self.route.push(Segment::Ip6(*octets));
                                    self.route.push(Segment::Tcp(*port));
                                },
                            }
                            proof {
                                assert(self.route@ =~= route_in + node_segments(record@));
                                assert(ids_view(self.identities@) =~= ids_in + Seq::<
                                    IdentityEntryView,
                                >::empty());
                            }
                            self.pos = self.pos + 1;
                            self.refreshed = false;
                            proof {
                                lemma_with_prefix_assoc(
                                    route_in,
                                    ids_in,
                                    node_segments(record@),
                                    Seq::<IdentityEntryView>::empty(),
                                    run(segs, self.pos as int, *lookup, false),
                                );
                                assert(run(segs, pos_in, *lookup, refreshed_in) == with_prefix(
                                    node_segments(record@),
                                    Seq::<IdentityEntryView>::empty(),
                                    run(segs, self.pos as int, *lookup, false),
                                ));
                            }
                        },
                        None => {
                            self.finished = true;
                            return Advance::Failed(Error::UnknownNode(alias.clone()));
                        },
                    }
                },
                Segment::Project(alias) => {
                    match lookup.get_project(alias) {
                        Some(project) => {
                            self.route.extend_from(&project.route);
                            let entry = IdentityEntry {
                                route: project.route.dup(),
                                identity_id: project.identity_id.clone(),
                            };
                            proof {
                                assert(entry@ == (IdentityEntryView {
                                    route: project.route@,
                                    identity_id: project.identity_id@,
                                }));
                            }
                            self.identities.push(entry);
                            proof {
                                assert(ids_view(self.identities@) =~= ids_in + seq![
                                    IdentityEntryView {
                                        route: project.route@,
                                        identity_id: project.identity_id@,
                                    },
                                ]);
                            }
                            self.pos = self.pos + 1;
                            self.refreshed = false;
                            proof {
                                lemma_with_prefix_assoc(
                                    route_in,
                                    ids_in,
                                    project.route@,
                                    seq![
                                        IdentityEntryView {
                                            route: project.route@,
                                            identity_id: project.identity_id@,
                                        },
                                    ],
                                    run(segs, self.pos as int, *lookup, false),
                                );
                                assert(run(segs, pos_in, *lookup, refreshed_in) == with_prefix(
                                    project.route@,
                                    seq![
                                        IdentityEntryView {
                                            route: project.route@,
                                            identity_id: project.identity_id@,
                                        },
                                    ],
                                    run(segs, self.pos as int, *lookup, false),
                                ));
                            }
                        },
                        None => {
                            if self.refreshed {
                                self.finished = true;
                                return Advance::Failed(Error::UnknownProject(alias.clone()));
                            } else {
                                proof {
                                    assert(self.route@ + Seq::<SegmentView>::empty()
                                        =~= self.route@);
                                    assert(ids_view(self.identities@) + Seq::<
                                        IdentityEntryView,
                                    >::empty() =~= ids_view(self.identities@));
                                }
                                self.refreshed = true;
                                return Advance::NeedRefresh(alias.clone());
                            }
                        },
                    }
                },
                _ => {
                    self.route.push(kind.dup());
                    proof {
                        assert(self.route@ =~= route_in + seq![segs[pos_in]]);
                        assert(ids_view(self.identities@) =~= ids_in + Seq::<
                            IdentityEntryView,
                        >::empty());
                    }
                    self.pos = self.pos + 1;
                    self.refreshed = false;
                    proof {
                        lemma_with_prefix_assoc(
                            route_in,
                            ids_in,
                            seq![segs[pos_in]],
                            Seq::<IdentityEntryView>::empty(),
                            run(segs, self.pos as int, *lookup, false),
                        );
                        assert(run(segs, pos_in, *lookup, refreshed_in) == with_prefix(
                            seq![segs[pos_in]],
                            Seq::<IdentityEntryView>::empty(),
                            run(segs, self.pos as int, *lookup, false),
                        ));
                    }
                },
            }
        }
        proof {
            assert(self.route@ + Seq::<SegmentView>::empty() =~= self.route@);
            assert(ids_view(self.identities@) + Seq::<IdentityEntryView>::empty() =~= ids_view(
                self.identities@,
            ));
        }
        let mut out_route = Address::new();
        core::mem::swap(&mut out_route, &mut self.route);
        let mut out_ids: Vec<IdentityEntry> = Vec::new();
        core::mem::swap(&mut out_ids, &mut self.identities);
        self.finished = true;
        Advance::Done(ResolvedRoute { route: out_route, identities: out_ids })
    }
}

/// Pass-through: resolving a stretch of address with no node or project
/// segment returns those segments unchanged, with no identity requirement.
pub proof fn lemma_passthrough(
    segs: Seq<SegmentView>,
    i: int,
    lookup: AddressLookup,
    refreshed: bool,
)
    requires
        0 <= i <= segs.len(),
        forall|j: int|
            i <= j < segs.len() ==> crate::addr::is_concrete_segment(#[trigger] segs[j]),
    ensures
        run(segs, i, lookup, refreshed) == (RunOutcome::Done {
            route: segs.subrange(i, segs.len() as int),
            identities: Seq::<IdentityEntryView>::empty(),
        }),
    decreases segs.len() - i,
{
    if i == segs.len() {
        assert(segs.subrange(i, segs.len() as int) =~= Seq::<SegmentView>::empty());
    } else {
        lemma_passthrough(segs, i + 1, lookup, false);
        assert(seq![segs[i]] + segs.subrange(i + 1, segs.len() as int) =~= segs.subrange(
            i,
            segs.len() as int,
        ));
        assert(Seq::<IdentityEntryView>::empty() + Seq::<IdentityEntryView>::empty() =~= Seq::<
            IdentityEntryView,
        >::empty());
    }
}

/// A node alias bound to a DNS record contributes exactly two segments —
/// the host, then the port, in that order — before the rest of the address.
pub proof fn lemma_node_dns(
    segs: Seq<SegmentView>,
    i: int,
    lookup: AddressLookup,
    refreshed: bool,
    alias: Seq<char>,
    host: Seq<char>,
    port: u16,
)
    requires
        0 <= i < segs.len(),
        segs[i] == SegmentView::Node(alias),
        lookup.spec_node(alias) == Some(NodeRecordView::Dns(host, port)),
    ensures
        run(segs, i, lookup, refreshed) == with_prefix(
            seq![SegmentView::Dns(host), SegmentView::Tcp(port)],
            Seq::<IdentityEntryView>::empty(),
            run(segs, i + 1, lookup, false),
        ),
{
}

/// Refresh happens exactly once per project segment: the first miss pauses
/// resolution asking for a refresh of that alias; after resumption a second
/// miss fails with `UnknownProject` (no further pause), while a hit
/// contributes the project's stored route and identity requirement.
pub proof fn lemma_refresh_once(
    segs: Seq<SegmentView>,
    i: int,
    alias: Seq<char>,
    before: AddressLookup,
    after: AddressLookup,
)
    requires
        0 <= i < segs.len(),
        segs[i] == SegmentView::Project(alias),
        before.spec_project(alias) is None,
    ensures
        run(segs, i, before, false) == (RunOutcome::Refresh {
            alias,
            at: i,
            route: Seq::<SegmentView>::empty(),
            identities: Seq::<IdentityEntryView>::empty(),
        }),
        after.spec_project(alias) is None ==> run(segs, i, after, true) == (RunOutcome::Failed {
            err: ErrorView::UnknownProject(alias),
        }),
        after.spec_project(alias) matches Some(p) ==> run(segs, i, after, true) == with_prefix(
            p.route,
            seq![(IdentityEntryView { route: p.route, identity_id: p.identity_id })],
            run(segs, i + 1, after, false),
        ),
{
}

} // verus!
