use vstd::prelude::*;

use crate::error::Error;

verus! {

/// The unit of delivery the runtime asks authorization for: an envelope
/// carrying the traversal path the message has taken so far, its intended
/// onward path, and its payload. Access control reads it at most; it never
/// changes it.
#[derive(Debug, Clone, PartialEq, Eq)]
pub struct LocalMessage {
    /// The remaining path the message intends to take.
    pub onward_route: Vec<String>,
    /// The path the message has traversed so far.
    pub return_route: Vec<String>,
    /// The opaque payload.
    pub payload: Vec<u8>,
}

/// The interface for message-flow authorization: the worker runtime asks an
/// implementation for a verdict on every inbound message before delivery. A
/// `false` or error verdict means the message is dropped, never delivered.
pub trait AccessControl {
    /// The verdict this policy assigns to `msg`: `Ok(true)` to pass,
    /// `Ok(false)` to deny, `Err` when the check itself fails.
    spec fn verdict(&self, msg: &LocalMessage) -> Result<bool, Error>;

    /// Returns true if the message is allowed to pass, and false if not.
    /// Evaluation never mutates the policy or the message.
    fn is_authorized(&self, msg: &LocalMessage) -> (r: Result<bool, Error>)
        ensures
            r == self.verdict(msg),
    ;
}

/// A composable authorization policy: the two constant leaves, conjunction
/// and disjunction over an ordered child sequence, and a leaf with a
/// predetermined outcome — the seam through which externally computed
/// verdicts (or their failures) enter a composition.
#[derive(Debug, PartialEq, Eq)]
pub enum Policy {
    /// Permits every message; inspects nothing.
    AllowAll,
    /// Denies every message; inspects nothing.
    DenyAll,
    /// Conjunction: authorizes only if every child authorizes, evaluated
    /// left to right with short-circuit on the first denial or error.
    All(Vec<Policy>),
    /// Disjunction: authorizes if some child authorizes, evaluated left to
    /// right with short-circuit on the first approval or error.
    Any(Vec<Policy>),
    /// A predetermined verdict, message-independent.
    Fixed(Result<bool, Error>),
}

/// The verdict of a policy on a message, by structural recursion.
pub open spec fn eval(p: Policy, msg: LocalMessage) -> Result<bool, Error>
    decreases p,
{
    match p {
        Policy::AllowAll => Ok(true),
        Policy::DenyAll => Ok(false),
        Policy::Fixed(v) => v,
        Policy::All(children) => eval_all(children@, msg),
        Policy::Any(children) => eval_any(children@, msg),
    }
}

/// Left-to-right conjunction: `Ok(true)` when the sequence is exhausted,
/// short-circuiting on the first `Ok(false)` or error.
pub open spec fn eval_all(children: Seq<Policy>, msg: LocalMessage) -> Result<bool, Error>
    decreases children,
{
    if children.len() == 0 {
        Ok(true)
    } else {
        match eval(children[0], msg) {
            Ok(true) => eval_all(children.subrange(1, children.len() as int), msg),
            Ok(false) => Ok(false),
            Err(e) => Err(e),
        }
    }
}

/// Left-to-right disjunction: `Ok(false)` when the sequence is exhausted,
/// short-circuiting on the first `Ok(true)` or error.
pub open spec fn eval_any(children: Seq<Policy>, msg: LocalMessage) -> Result<bool, Error>
    decreases children,
{
    if children.len() == 0 {
        Ok(false)
    } else {
        match eval(children[0], msg) {
            Ok(true) => Ok(true),
            Ok(false) => eval_any(children.subrange(1, children.len() as int), msg),
            Err(e) => Err(e),
        }
    }
}

fn dup_verdict(v: &Result<bool, Error>) -> (r: Result<bool, Error>)
    ensures
        r == *v,
{
    match v {
        Ok(b) => Ok(*b),
        Err(e) => Err(e.dup()),
    }
}

impl Policy {
    /// Evaluates this policy on `msg`, left to right with short-circuiting,
    /// returning exactly the verdict `eval` assigns.
    pub fn check(&self, msg: &LocalMessage) -> (r: Result<bool, Error>)
        ensures
            r == eval(*self, *msg),
        decreases *self,
    {
        match self {
            Policy::AllowAll => Ok(true),
            Policy::DenyAll => Ok(false),
            Policy::Fixed(v) => dup_verdict(v),
            Policy::All(children) => {
                let mut i: usize = 0;
                proof {
                    assert(*self == Policy::All(*children));
                    assert(eval(*self, *msg) == eval_all(children@, *msg));
                    assert(children@.subrange(0, children@.len() as int) =~= children@);
                }
                while i < children.len()
                    invariant
                        *self == Policy::All(*children),
                        i <= children.len(),
                        eval_all(children@, *msg) == eval_all(
                            children@.subrange(i as int, children@.len() as int),
                            *msg,
                        ),
                    decreases children.len() - i,
                {
                    proof {
                        assert(decreases_to!(*self => self->All_0));
                        assert(self->All_0 == *children);
                        assert(decreases_to!(*children => children@[i as int]));
                        assert(decreases_to!(*self => children@[i as int]));
                        assert(children@.subrange(i as int, children@.len() as int)[0]
                            == children@[i as int]);
                        assert(children@.subrange(i as int, children@.len() as int).subrange(
                            1,
                            children@.len() - i as int,
                        ) =~= children@.subrange(i as int + 1, children@.len() as int));
                    }
                    match children[i].check(msg) {
                        Ok(true) => {
                            i = i + 1;
                        },
                        Ok(false) => {
                            return Ok(false);
                        },
                        Err(e) => {
                            return Err(e);
                        },
                    }
                }
                proof {
                    assert(children@.subrange(
                        children@.len() as int,
                        children@.len() as int,
                    ) =~= Seq::<Policy>::empty());
                }
                Ok(true)
            },
            Policy::Any(children) => {
                let mut i: usize = 0;
                proof {
                    assert(*self == Policy::Any(*children));
                    assert(eval(*self, *msg) == eval_any(children@, *msg));
                    assert(children@.subrange(0, children@.len() as int) =~= children@);
                }
                while i < children.len()
                    invariant
                        *self == Policy::Any(*children),
                        i <= children.len(),
                        eval_any(children@, *msg) == eval_any(
                            children@.subrange(i as int, children@.len() as int),
                            *msg,
                        ),
                    decreases children.len() - i,
                {
                    proof {
                        assert(decreases_to!(*self => self->Any_0));
                        assert(self->Any_0 == *children);
                        assert(decreases_to!(*children => children@[i as int]));
                        assert(decreases_to!(*self => children@[i as int]));
                        assert(children@.subrange(i as int, children@.len() as int)[0]
                            == children@[i as int]);
                        assert(children@.subrange(i as int, children@.len() as int).subrange(
                            1,
                            children@.len() - i as int,
                        ) =~= children@.subrange(i as int + 1, children@.len() as int));
                    }
                    match children[i].check(msg) {
                        Ok(true) => {
                            return Ok(true);
                        },
                        Ok(false) => {
                            i = i + 1;
                        },
                        Err(e) => {
                            return Err(e);
                        },
                    }
                }
                proof {
                    assert(children@.subrange(
                        children@.len() as int,
                        children@.len() as int,
                    ) =~= Seq::<Policy>::empty());
                }
                Ok(false)
            },
        }
    }
}

impl AccessControl for Policy {
    open spec fn verdict(&self, msg: &LocalMessage) -> Result<bool, Error> {
        eval(*self, *msg)
    }

    fn is_authorized(&self, msg: &LocalMessage) -> (r: Result<bool, Error>) {
        self.check(msg)
    }
}

/// A conjunction with no children authorizes every message.
pub proof fn lemma_all_empty(children: Vec<Policy>, msg: LocalMessage)
    requires
        children@.len() == 0,
    ensures
        eval(Policy::All(children), msg) == Ok::<bool, Error>(true),
{
}

/// A disjunction with no children never authorizes a message.
pub proof fn lemma_any_empty(children: Vec<Policy>, msg: LocalMessage)
    requires
        children@.len() == 0,
    ensures
        eval(Policy::Any(children), msg) == Ok::<bool, Error>(false),
{
}

/// Short-circuit of conjunction: once the children before `i` all approve
/// and the child at `i` denies, the conjunction denies — and whatever stands
/// after the deciding child, even a different suffix, cannot change that.
pub proof fn lemma_all_short_circuit(
    children: Seq<Policy>,
    i: int,
    rest: Seq<Policy>,
    msg: LocalMessage,
)
    requires
        0 <= i < children.len(),
        eval(children[i], msg) == Ok::<bool, Error>(false),
        forall|j: int| 0 <= j < i ==> eval(#[trigger] children[j], msg) == Ok::<bool, Error>(true),
    ensures
        eval_all(children, msg) == Ok::<bool, Error>(false),
        eval_all(children.take(i + 1) + rest, msg) == Ok::<bool, Error>(false),
    decreases i,
{
    let cut = children.take(i + 1) + rest;
    assert(cut[0] == children[0]);
    if i == 0 {
        assert(eval_all(children, msg) == Ok::<bool, Error>(false));
        assert(eval_all(cut, msg) == Ok::<bool, Error>(false));
    } else {
        let tail = children.subrange(1, children.len() as int);
        assert(eval(children[0], msg) == Ok::<bool, Error>(true));
        assert(forall|j: int| 0 <= j < i - 1 ==> eval(#[trigger] tail[j], msg) == Ok::<
            bool,
            Error,
        >(true));
        assert(tail[i - 1] == children[i]);
        lemma_all_short_circuit(tail, i - 1, rest, msg);
        assert(cut.subrange(1, cut.len() as int) =~= tail.take(i) + rest);
    }
}

/// Short-circuit of disjunction: once the children before `i` all deny and
/// the child at `i` approves, the disjunction approves — and whatever stands
/// after the deciding child, even a different suffix, cannot change that.
pub proof fn lemma_any_short_circuit(
    children: Seq<Policy>,
    i: int,
    rest: Seq<Policy>,
    msg: LocalMessage,
)
    requires
        0 <= i < children.len(),
        eval(children[i], msg) == Ok::<bool, Error>(true),
        forall|j: int| 0 <= j < i ==> eval(#[trigger] children[j], msg) == Ok::<bool, Error>(false),
    ensures
        eval_any(children, msg) == Ok::<bool, Error>(true),
        eval_any(children.take(i + 1) + rest, msg) == Ok::<bool, Error>(true),
    decreases i,
{
    let cut = children.take(i + 1) + rest;
    assert(cut[0] == children[0]);
    if i == 0 {
        assert(eval_any(children, msg) == Ok::<bool, Error>(true));
        assert(eval_any(cut, msg) == Ok::<bool, Error>(true));
    } else {
        let tail = children.subrange(1, children.len() as int);
        assert(eval(children[0], msg) == Ok::<bool, Error>(false));
        assert(forall|j: int| 0 <= j < i - 1 ==> eval(#[trigger] tail[j], msg) == Ok::<
            bool,
            Error,
        >(false));
        assert(tail[i - 1] == children[i]);
        lemma_any_short_circuit(tail, i - 1, rest, msg);
        assert(cut.subrange(1, cut.len() as int) =~= tail.take(i) + rest);
    }
}

/// When no child fails, a conjunction is exactly the conjunction of the
/// child verdicts: evaluation order affects only when short-circuiting
/// stops, never the final boolean.
pub proof fn lemma_all_is_conjunction(children: Seq<Policy>, msg: LocalMessage)
    requires
        forall|j: int| 0 <= j < children.len() ==> eval(#[trigger] children[j], msg) is Ok,
    ensures
        eval_all(children, msg) == Ok::<bool, Error>(forall|j: int|
            0 <= j < children.len() ==> eval(#[trigger] children[j], msg) == Ok::<bool, Error>(
                true,
            )),
    decreases children.len(),
{
    let all_true = forall|j: int|
        0 <= j < children.len() ==> eval(#[trigger] children[j], msg) == Ok::<bool, Error>(true);
    if children.len() == 0 {
        assert(all_true);
    } else {
        let tail = children.subrange(1, children.len() as int);
        assert(forall|j: int| 0 <= j < tail.len() ==> #[trigger] tail[j] == children[j + 1]);
        if eval(children[0], msg) == Ok::<bool, Error>(true) {
            lemma_all_is_conjunction(tail, msg);
            let tail_true = forall|j: int|
                0 <= j < tail.len() ==> eval(#[trigger] tail[j], msg) == Ok::<bool, Error>(true);
            if tail_true {
                assert forall|j: int| 0 <= j < children.len() implies eval(
                    #[trigger] children[j],
                    msg,
                ) == Ok::<bool, Error>(true) by {
                    if j > 0 {
                        assert(tail[j - 1] == children[j]);
                    }
                }
            } else {
                let j = choose|j: int|
                    0 <= j < tail.len() && eval(#[trigger] tail[j], msg) != Ok::<bool, Error>(
                        true,
                    );
                assert(eval(children[j + 1], msg) != Ok::<bool, Error>(true));
                assert(!all_true);
            }
        } else {
            assert(eval(children[0], msg) == Ok::<bool, Error>(false));
            assert(!all_true);
        }
    }
}

/// When no child fails, a disjunction is exactly the disjunction of the
/// child verdicts: evaluation order affects only when short-circuiting
/// stops, never the final boolean.
pub proof fn lemma_any_is_disjunction(children: Seq<Policy>, msg: LocalMessage)
    requires
        forall|j: int| 0 <= j < children.len() ==> eval(#[trigger] children[j], msg) is Ok,
    ensures
        eval_any(children, msg) == Ok::<bool, Error>(exists|j: int|
            0 <= j < children.len() && eval(#[trigger] children[j], msg) == Ok::<bool, Error>(
                true,
            )),
    decreases children.len(),
{
    let some_true = exists|j: int|
        0 <= j < children.len() && eval(#[trigger] children[j], msg) == Ok::<bool, Error>(true);
    if children.len() == 0 {
        assert(!some_true);
    } else {
        let tail = children.subrange(1, children.len() as int);
        assert(forall|j: int| 0 <= j < tail.len() ==> #[trigger] tail[j] == children[j + 1]);
        if eval(children[0], msg) == Ok::<bool, Error>(true) {
            assert(some_true);
        } else {
            assert(eval(children[0], msg) == Ok::<bool, Error>(false));
            lemma_any_is_disjunction(tail, msg);
            let tail_some = exists|j: int|
                0 <= j < tail.len() && eval(#[trigger] tail[j], msg) == Ok::<bool, Error>(true);
            if tail_some {
                let j = choose|j: int|
                    0 <= j < tail.len() && eval(#[trigger] tail[j], msg) == Ok::<bool, Error>(
                        true,
                    );
                assert(eval(children[j + 1], msg) == Ok::<bool, Error>(true));
                assert(some_true);
            } else {
                if some_true {
                    let j = choose|j: int|
                        0 <= j < children.len() && eval(#[trigger] children[j], msg) == Ok::<
                            bool,
                            Error,
                        >(true);
                    assert(j > 0);
                    assert(tail[j - 1] == children[j]);
                    assert(tail_some);
                }
                assert(!some_true);
            }
        }
    }
}

/// An error met by a conjunction before any child has denied propagates
/// unchanged: the verdict is that very error, not a silent decision.
pub proof fn lemma_all_error_propagates(children: Seq<Policy>, i: int, e: Error, msg: LocalMessage)
    requires
        0 <= i < children.len(),
        eval(children[i], msg) == Err::<bool, Error>(e),
        forall|j: int| 0 <= j < i ==> eval(#[trigger] children[j], msg) == Ok::<bool, Error>(true),
    ensures
        eval_all(children, msg) == Err::<bool, Error>(e),
    decreases i,
{
    if i == 0 {
    } else {
        let tail = children.subrange(1, children.len() as int);
        assert(eval(children[0], msg) == Ok::<bool, Error>(true));
        assert(forall|j: int| 0 <= j < i - 1 ==> eval(#[trigger] tail[j], msg) == Ok::<
            bool,
            Error,
        >(true));
        assert(tail[i - 1] == children[i]);
        lemma_all_error_propagates(tail, i - 1, e, msg);
    }
}

/// An error met by a disjunction before any child has approved propagates
/// unchanged: the verdict is that very error, not a silent decision.
pub proof fn lemma_any_error_propagates(children: Seq<Policy>, i: int, e: Error, msg: LocalMessage)
    requires
        0 <= i < children.len(),
        eval(children[i], msg) == Err::<bool, Error>(e),
        forall|j: int| 0 <= j < i ==> eval(#[trigger] children[j], msg) == Ok::<bool, Error>(false),
    ensures
        eval_any(children, msg) == Err::<bool, Error>(e),
    decreases i,
{
    if i == 0 {
    } else {
        let tail = children.subrange(1, children.len() as int);
        assert(eval(children[0], msg) == Ok::<bool, Error>(false));
        assert(forall|j: int| 0 <= j < i - 1 ==> eval(#[trigger] tail[j], msg) == Ok::<
            bool,
            Error,
        >(false));
        assert(tail[i - 1] == children[i]);
        lemma_any_error_propagates(tail, i - 1, e, msg);
    }
}

} // verus!
