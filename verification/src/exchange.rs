//! Pairing each request sent to a device with the reply that answers it.
//!
//! Many callers share one connection, and replies come back in whatever order
//! the device finishes them. A [`Correlator`] is the connection's table of
//! requests that still await a reply. Each request is entered with the slot
//! its caller waits on and gets an identifier that goes out on the wire with
//! it; the reply carries the identifier back. A slot leaves the table exactly
//! once: with its reply, or when the connection is closed.

use crate::error::{ExchangeError, Unreachable};
use crate::message::{RequestKind, Response};
use crate::ordered::{lower_bound, ranked_ascending, Ranked};
use vstd::prelude::*;

verus! {

/// A request that awaits its reply. `S` is the slot its caller waits on.
pub struct Outstanding<S> {
    pub id: u64,
    pub kind: RequestKind,
    pub slot: S,
}

impl<S> Ranked for Outstanding<S> {
    type Key = u64;

    open spec fn rank(&self) -> int {
        self.id as int
    }

    open spec fn key_rank(key: &u64) -> int {
        *key as int
    }

    fn is_below(&self, key: &u64) -> (b: bool) {
        self.id < *key
    }
}

/// A slot that leaves the table, and what its caller is to be told.
pub struct Delivery<S> {
    pub slot: S,
    pub result: Result<Response, ExchangeError>,
}

/// What a [`Correlator`] is to a contract.
pub struct CorrelatorView<S> {
    /// Is the connection still up?
    pub open: bool,
    /// How many identifiers have been given out. They are given out in
    /// order, starting at zero.
    pub issued: u64,
    /// The requests that await a reply, oldest first.
    pub pending: Seq<Outstanding<S>>,
}

/// Does a request with this identifier await a reply?
pub open spec fn awaits<S>(pending: Seq<Outstanding<S>>, id: u64) -> bool {
    exists|i: int| 0 <= i < pending.len() && (#[trigger] pending[i]).id == id
}

/// Where in the table a request with this identifier stands, where there is
/// one.
pub open spec fn position<S>(pending: Seq<Outstanding<S>>, id: u64) -> int {
    choose|i: int| 0 <= i < pending.len() && (#[trigger] pending[i]).id == id
}

/// The slots of these requests, in the same order.
pub open spec fn slots<S>(pending: Seq<Outstanding<S>>) -> Seq<S> {
    Seq::new(pending.len(), |i: int| pending[i].slot)
}

/// What a caller is told when this reply arrives for a request of this kind:
/// the reply, where it is of that kind, and that the protocol was violated
/// where it is not.
pub open spec fn pair_spec(kind: RequestKind, response: Response) -> Result<
    Response,
    ExchangeError,
> {
    if response.kind_spec() == kind {
        Ok(response)
    } else {
        Err(ExchangeError::ProtocolViolation)
    }
}

impl<S> CorrelatorView<S> {
    /// Identifiers in the table ascend, and each has been given out.
    pub open spec fn wf(self) -> bool {
        &&& forall|i: int, j: int|
            0 <= i < j < self.pending.len() ==> self.pending[i].id < self.pending[j].id
        &&& forall|i: int| 0 <= i < self.pending.len() ==> (#[trigger] self.pending[i]).id < self.issued
    }

    /// Can another request be entered? Not once the connection is closed, and
    /// not when every identifier has been given out.
    pub open spec fn accepts(self) -> bool {
        self.open && self.issued < u64::MAX
    }

    /// Entering a request: it gets the next identifier and goes last in the
    /// table. Where the table accepts nothing the slot comes back.
    pub open spec fn issue(self, kind: RequestKind, slot: S) -> (CorrelatorView<S>, Result<u64, S>) {
        if self.accepts() {
            (
                CorrelatorView {
                    open: true,
                    issued: (self.issued + 1) as u64,
                    pending: self.pending.push(Outstanding { id: self.issued, kind, slot }),
                },
                Ok(self.issued),
            )
        } else {
            (self, Err(slot))
        }
    }

    /// A reply arriving: the request with its identifier leaves the table, and
    /// its caller is told what [`pair_spec`] says. A reply that no request
    /// awaits changes nothing.
    pub open spec fn settle(self, id: u64, response: Response) -> (
        CorrelatorView<S>,
        Option<Delivery<S>>,
    ) {
        if awaits(self.pending, id) {
            let i = position(self.pending, id);
            (
                CorrelatorView {
                    open: self.open,
                    issued: self.issued,
                    pending: self.pending.remove(i),
                },
                Some(
                    Delivery {
                        slot: self.pending[i].slot,
                        result: pair_spec(self.pending[i].kind, response),
                    },
                ),
            )
        } else {
            (self, None)
        }
    }

    /// The connection ending: every slot leaves the table, oldest first, and
    /// nothing is accepted any more.
    pub open spec fn close(self) -> (CorrelatorView<S>, Seq<S>) {
        (
            CorrelatorView { open: false, issued: self.issued, pending: Seq::empty() },
            slots(self.pending),
        )
    }
}

/// What the caller of a request is told when `response` arrives for it.
pub fn pair(kind: RequestKind, response: Response) -> (r: Result<Response, ExchangeError>)
    ensures
        r == pair_spec(kind, response),
{
    if response.kind() == kind {
        Ok(response)
    } else {
        Err(ExchangeError::ProtocolViolation)
    }
}

/// What the sender of an action is told: that the action was handed to the
/// connection, or, where it could not be, that the device is unreachable.
/// Nothing is said of what the device made of it.
pub fn action_outcome(handed_over: bool) -> (r: Result<(), Unreachable>)
    ensures
        r is Ok == handed_over,
{
    if handed_over {
        Ok(())
    } else {
        Err(Unreachable)
    }
}

/// What the sender of a request is told. Where the request could not be
/// handed to the connection, or the slot it waited on was let go of without
/// a word, the device is unreachable; else what the slot was resolved with.
pub fn request_outcome(handed_over: bool, resolved: Option<Result<Response, ExchangeError>>) -> (r:
    Result<Response, ExchangeError>)
    ensures
        r == (if handed_over && resolved is Some {
            resolved->0
        } else {
            Err(ExchangeError::Unreachable)
        }),
{
    if !handed_over {
        return Err(ExchangeError::Unreachable);
    }
    match resolved {
        Some(result) => result,
        None => Err(ExchangeError::Unreachable),
    }
}

/// In a well-formed table the request at index `i` is the only one with its
/// identifier.
pub proof fn lemma_position_is_exact<S>(v: CorrelatorView<S>, i: int)
    requires
        v.wf(),
        0 <= i < v.pending.len(),
    ensures
        awaits(v.pending, v.pending[i].id),
        position(v.pending, v.pending[i].id) == i,
{
    let id = v.pending[i].id;
    let j = position(v.pending, id);
    assert(0 <= j < v.pending.len() && v.pending[j].id == id);
    if j < i {
        assert(v.pending[j].id < v.pending[i].id);
    } else if i < j {
        assert(v.pending[i].id < v.pending[j].id);
    }
}

/// A connection's table of requests that await a reply.
pub struct Correlator<S> {
    open: bool,
    issued: u64,
    pending: Vec<Outstanding<S>>,
}

impl<S> View for Correlator<S> {
    type V = CorrelatorView<S>;

    closed spec fn view(&self) -> CorrelatorView<S> {
        CorrelatorView { open: self.open, issued: self.issued, pending: self.pending@ }
    }
}

impl<S> Correlator<S> {
    #[verifier::type_invariant]
    pub open spec fn wf(&self) -> bool {
        self@.wf()
    }

    /// The table of a connection that has just come up.
    pub fn new() -> (c: Correlator<S>)
        ensures
            c@ == (CorrelatorView::<S> { open: true, issued: 0, pending: Seq::empty() }),
            c.wf(),
    {
        Correlator { open: true, issued: 0, pending: Vec::new() }
    }

    /// Is the connection still up?
    pub fn is_open(&self) -> (b: bool)
        ensures
            b == self@.open,
    {
        self.open
    }

    /// How many requests await a reply.
    pub fn outstanding(&self) -> (n: usize)
        ensures
            n == self@.pending.len(),
    {
        self.pending.len()
    }

    /// Enters a request of this kind, whose caller waits on `slot`, and gives
    /// the identifier to send with it. Where the connection is closed, or
    /// every identifier has been given out, nothing changes and the slot
    /// comes back, for its caller to be told that the device is unreachable.
    pub fn issue(&mut self, kind: RequestKind, slot: S) -> (r: Result<u64, S>)
        ensures
            final(self).wf(),
            (final(self)@, r) == old(self)@.issue(kind, slot),
    {
        proof {
            use_type_invariant(&*self);
        }
        if !self.open || self.issued == u64::MAX {
            return Err(slot);
        }
        let id = self.issued;
        let mut pending: Vec<Outstanding<S>> = Vec::new();
        core::mem::swap(&mut self.pending, &mut pending);
        pending.push(Outstanding { id, kind, slot });
        let next = Correlator { open: true, issued: id + 1, pending };
        *self = next;
        Ok(id)
    }

    /// The index of the request with this identifier, if one awaits a reply.
    fn locate(&self, id: u64) -> (r: Option<usize>)
        ensures
            self.wf(),
            r is Some == awaits(self@.pending, id),
            r matches Some(i) ==> i as int == position(self@.pending, id) && i < self@.pending.len(),
    {
        proof {
            use_type_invariant(self);
            assert(ranked_ascending(self.pending@));
        }
        let lo = lower_bound(&self.pending, &id);
        if lo < self.pending.len() && self.pending[lo].id == id {
            proof {
                lemma_position_is_exact(self@, lo as int);
            }
            Some(lo)
        } else {
            proof {
                if awaits(self@.pending, id) {
                    let j = position(self@.pending, id);
                    assert(self@.pending[j].id == id);
                    if j > lo {
                        assert(self@.pending[lo as int].id < self@.pending[j].id);
                    }
                }
            }
            None
        }
    }

    /// Takes in the reply that came with identifier `id`. The request it
    /// answers leaves the table; the result says which slot to resolve and
    /// with what. A reply that no request awaits, because it came twice or
    /// after the connection was closed, changes nothing and resolves nothing.
    pub fn settle(&mut self, id: u64, response: Response) -> (r: Option<Delivery<S>>)
        ensures
            final(self).wf(),
            (final(self)@, r) == old(self)@.settle(id, response),
    {
        let ghost before = self@;
        match self.locate(id) {
            None => None,
            Some(i) => {
                proof {
                    lemma_settle_removes_one(before, id, response);
                }
                let mut pending: Vec<Outstanding<S>> = Vec::new();
                core::mem::swap(&mut self.pending, &mut pending);
                let gone = pending.remove(i);
                core::mem::swap(&mut self.pending, &mut pending);
                Some(Delivery { slot: gone.slot, result: pair(gone.kind, response) })
            },
        }
    }

    /// Ends the connection. Every slot leaves the table and is handed back,
    /// oldest first, for its caller to be told that the device is
    /// unreachable. From now on nothing is accepted and no reply resolves
    /// anything.
    pub fn close(&mut self) -> (failed: Vec<S>)
        ensures
            final(self).wf(),
            (final(self)@, failed@) == old(self)@.close(),
    {
        let ghost before = self@;
        let mut pending: Vec<Outstanding<S>> = Vec::new();
        core::mem::swap(&mut self.pending, &mut pending);
        self.open = false;
        let mut failed: Vec<S> = Vec::new();
        for o in it: pending
            invariant
                failed@.len() == it.index(),
                it.seq() == before.pending,
                forall|k: int| 0 <= k < failed@.len() ==> failed@[k] == before.pending[k].slot,
        {
            failed.push(o.slot);
        }
        assert(failed@ =~= slots(before.pending));
        failed
    }
}

/// The request with this identifier, where one awaits a reply.
pub open spec fn entry<S>(pending: Seq<Outstanding<S>>, id: u64) -> Outstanding<S> {
    pending[position(pending, id)]
}

/// A reply as it comes off the wire: the identifier it carries, and what it
/// holds.
#[derive(Clone, Debug, PartialEq, Eq)]
pub struct Reply {
    pub id: u64,
    pub response: Response,
}

/// What a run of replies does to a table: the table after the last of them,
/// and for each reply, in order, what it resolved.
pub open spec fn settle_all<S>(v: CorrelatorView<S>, replies: Seq<Reply>) -> (
    CorrelatorView<S>,
    Seq<Option<Delivery<S>>>,
)
    decreases replies.len(),
{
    if replies.len() == 0 {
        (v, Seq::empty())
    } else {
        let before = settle_all(v, replies.drop_last());
        let last = before.0.settle(replies.last().id, replies.last().response);
        (last.0, before.1.push(last.1))
    }
}

/// What entering a run of requests does to a table that accepts them all.
pub open spec fn issue_all<S>(v: CorrelatorView<S>, kinds: Seq<RequestKind>, slots: Seq<S>)
    -> CorrelatorView<S>
    decreases kinds.len(),
{
    if kinds.len() == 0 {
        v
    } else {
        issue_all(v, kinds.drop_last(), slots.drop_last()).issue(kinds.last(), slots.last()).0
    }
}

/// Does a reply with this identifier occur in `replies`?
pub open spec fn answered(replies: Seq<Reply>, id: u64) -> bool {
    exists|p: int| 0 <= p < replies.len() && (#[trigger] replies[p]).id == id
}

/// Entering a request keeps the table well formed. The request then awaits a
/// reply, under an identifier that no other request in the table has; every
/// request that awaited a reply before still does.
pub proof fn lemma_issue_enters<S>(v: CorrelatorView<S>, kind: RequestKind, slot: S)
    requires
        v.wf(),
        v.accepts(),
    ensures
        v.issue(kind, slot).0.wf(),
        v.issue(kind, slot).1 == Ok::<u64, S>(v.issued),
        !awaits(v.pending, v.issued),
        awaits(v.issue(kind, slot).0.pending, v.issued),
        entry(v.issue(kind, slot).0.pending, v.issued) == (Outstanding {
            id: v.issued,
            kind,
            slot,
        }),
        forall|id: u64|
            awaits(v.pending, id) ==> #[trigger] awaits(v.issue(kind, slot).0.pending, id) && entry(
                v.issue(kind, slot).0.pending,
                id,
            ) == entry(v.pending, id),
{
    let after = v.issue(kind, slot).0;
    let n = v.pending.len() as int;
    assert(after.pending[n].id == v.issued);
    lemma_position_is_exact(after, n);
    if awaits(v.pending, v.issued) {
        let j = position(v.pending, v.issued);
        assert(v.pending[j].id < v.issued);
    }
    assert forall|id: u64| awaits(v.pending, id) implies #[trigger] awaits(after.pending, id)
        && entry(after.pending, id) == entry(v.pending, id) by {
        let j = position(v.pending, id);
        assert(after.pending[j] == v.pending[j]);
        lemma_position_is_exact(after, j);
    }
}

/// A reply resolves the request it answers and no other: that request leaves
/// the table, and every other request stays as it was.
pub proof fn lemma_settle_removes_one<S>(v: CorrelatorView<S>, id: u64, response: Response)
    requires
        v.wf(),
    ensures
        v.settle(id, response).0.wf(),
        !awaits(v.settle(id, response).0.pending, id),
        forall|other: u64|
            other != id ==> (#[trigger] awaits(v.settle(id, response).0.pending, other) == awaits(
                v.pending,
                other,
            )),
        forall|other: u64|
            other != id && awaits(v.pending, other) ==> #[trigger] entry(
                v.settle(id, response).0.pending,
                other,
            ) == entry(v.pending, other),
{
    let after = v.settle(id, response).0;
    if awaits(v.pending, id) {
        let i = position(v.pending, id);
        assert(v.pending[i].id == id);
        assert forall|x: int, y: int| 0 <= x < y < after.pending.len() implies after.pending[x].id
            < after.pending[y].id by {
            let bx = if x < i { x } else { x + 1 };
            let by_ = if y < i { y } else { y + 1 };
            assert(after.pending[x] == v.pending[bx]);
            assert(after.pending[y] == v.pending[by_]);
        }
        assert forall|x: int| 0 <= x < after.pending.len() implies (#[trigger] after.pending[x]).id
            < after.issued by {
            let bx = if x < i { x } else { x + 1 };
            assert(after.pending[x] == v.pending[bx]);
        }
        if awaits(after.pending, id) {
            let x = position(after.pending, id);
            let bx = if x < i { x } else { x + 1 };
            assert(after.pending[x] == v.pending[bx]);
            lemma_position_is_exact(v, bx);
        }
        assert forall|other: u64| other != id implies (#[trigger] awaits(after.pending, other)
            == awaits(v.pending, other)) by {
            if awaits(after.pending, other) {
                let x = position(after.pending, other);
                let bx = if x < i { x } else { x + 1 };
                assert(after.pending[x] == v.pending[bx]);
            }
            if awaits(v.pending, other) {
                let x = position(v.pending, other);
                let ax = if x < i { x } else { x - 1 };
                assert(v.pending[x] == after.pending[ax]);
            }
        }
        assert forall|other: u64| other != id && awaits(v.pending, other) implies #[trigger] entry(
            after.pending,
            other,
        ) == entry(v.pending, other) by {
            let x = position(v.pending, other);
            let ax = if x < i { x } else { x - 1 };
            assert(v.pending[x] == after.pending[ax]);
            lemma_position_is_exact(after, ax);
        }
    }
}

/// Replies reach the requests they answer, in whatever order they come.
///
/// Take a table and a run of replies in which no identifier occurs twice,
/// each reply answering a request that awaits one and being of that request's
/// kind. Then each reply resolves the slot of its own request, with that
/// reply as the result. Afterwards exactly the requests that no reply came
/// for still await one, unchanged.
pub proof fn lemma_replies_reach_their_requests<S>(v: CorrelatorView<S>, replies: Seq<Reply>)
    requires
        v.wf(),
        forall|p: int|
            0 <= p < replies.len() ==> awaits(v.pending, (#[trigger] replies[p]).id)
                && replies[p].response.kind_spec() == entry(v.pending, replies[p].id).kind,
        forall|p: int, q: int| 0 <= p < q < replies.len() ==> replies[p].id != replies[q].id,
    ensures
        settle_all(v, replies).0.wf(),
        settle_all(v, replies).0.open == v.open,
        settle_all(v, replies).0.issued == v.issued,
        settle_all(v, replies).1.len() == replies.len(),
        forall|p: int|
            0 <= p < replies.len() ==> (#[trigger] settle_all(v, replies).1[p]) == Some(
                Delivery {
                    slot: entry(v.pending, replies[p].id).slot,
                    result: Ok::<Response, ExchangeError>(replies[p].response),
                },
            ),
        forall|id: u64|
            (#[trigger] awaits(settle_all(v, replies).0.pending, id)) == (awaits(v.pending, id)
                && !answered(replies, id)),
        forall|id: u64|
            awaits(v.pending, id) && !answered(replies, id) ==> #[trigger] entry(
                settle_all(v, replies).0.pending,
                id,
            ) == entry(v.pending, id),
    decreases replies.len(),
{
    if replies.len() > 0 {
        let front = replies.drop_last();
        let last = replies.last();
        lemma_replies_reach_their_requests(v, front);
        let before = settle_all(v, front);
        let after = settle_all(v, replies);
        assert(forall|p: int| 0 <= p < front.len() ==> front[p] == replies[p]);
        assert(!answered(front, last.id)) by {
            if answered(front, last.id) {
                let p = choose|p: int| 0 <= p < front.len() && (#[trigger] front[p]).id == last.id;
                assert(replies[p].id != replies[replies.len() - 1].id);
            }
        }
        assert(awaits(before.0.pending, last.id));
        assert(entry(before.0.pending, last.id) == entry(v.pending, last.id));
        lemma_settle_removes_one(before.0, last.id, last.response);
        assert forall|id: u64| (#[trigger] awaits(after.0.pending, id)) == (awaits(v.pending, id)
            && !answered(replies, id)) by {
            if id == last.id {
                assert(replies[replies.len() - 1].id == id);
            } else {
                assert(awaits(after.0.pending, id) == awaits(before.0.pending, id));
                if answered(replies, id) {
                    let p = choose|p: int| 0 <= p < replies.len() && (#[trigger] replies[p]).id == id;
                    assert(front[p].id == id);
                }
                if answered(front, id) {
                    let p = choose|p: int| 0 <= p < front.len() && (#[trigger] front[p]).id == id;
                    assert(replies[p].id == id);
                }
            }
        }
        assert forall|id: u64| awaits(v.pending, id) && !answered(replies, id) implies #[trigger] entry(
            after.0.pending,
            id,
        ) == entry(v.pending, id) by {
            assert(id != last.id) by {
                if id == last.id {
                    assert(replies[replies.len() - 1].id == id);
                }
            }
            if answered(front, id) {
                let p = choose|p: int| 0 <= p < front.len() && (#[trigger] front[p]).id == id;
                assert(replies[p].id == id);
            }
            assert(awaits(before.0.pending, id));
        }
        assert forall|p: int| 0 <= p < replies.len() implies (#[trigger] after.1[p]) == Some(
            Delivery {
                slot: entry(v.pending, replies[p].id).slot,
                result: Ok::<Response, ExchangeError>(replies[p].response),
            },
        ) by {
            if p < front.len() {
                assert(after.1[p] == before.1[p]);
            }
        }
    }
}

/// The requests that entering `kinds` with `slots` adds to a table that has
/// given out `issued` identifiers.
pub open spec fn entered<S>(issued: u64, kinds: Seq<RequestKind>, slots: Seq<S>) -> Seq<
    Outstanding<S>,
> {
    Seq::new(
        kinds.len(),
        |j: int| Outstanding { id: (issued + j) as u64, kind: kinds[j], slot: slots[j] },
    )
}

/// Requests entered one after another get consecutive identifiers and stand
/// in the table in the order in which they were entered, behind those that
/// were there before.
pub proof fn lemma_issue_all_enters<S>(v: CorrelatorView<S>, kinds: Seq<RequestKind>, slots: Seq<S>)
    requires
        v.wf(),
        v.open,
        v.issued + kinds.len() <= u64::MAX,
        slots.len() == kinds.len(),
    ensures
        issue_all(v, kinds, slots).wf(),
        issue_all(v, kinds, slots).open,
        issue_all(v, kinds, slots).issued == v.issued + kinds.len(),
        issue_all(v, kinds, slots).pending == v.pending + entered(v.issued, kinds, slots),
    decreases kinds.len(),
{
    if kinds.len() == 0 {
        assert(v.pending + entered(v.issued, kinds, slots) =~= v.pending);
    } else {
        lemma_issue_all_enters(v, kinds.drop_last(), slots.drop_last());
        let before = issue_all(v, kinds.drop_last(), slots.drop_last());
        lemma_issue_enters(before, kinds.last(), slots.last());
        assert(issue_all(v, kinds, slots).pending =~= v.pending + entered(v.issued, kinds, slots));
    }
}

/// Each of several requests entered together is resolved with its own reply,
/// whatever the order in which the replies arrive.
///
/// Enter requests of `kinds`, waited for on `slots`, into a table that
/// accepts them all; the request at index `j` gets the identifier
/// `v.issued + j`. Let `replies` hold one reply for each of them, each of its
/// request's kind, in any order. Then every reply resolves the slot of the
/// request it answers, with that reply as the result, and afterwards the
/// table awaits what it awaited before the requests were entered.
pub proof fn lemma_each_request_gets_its_reply<S>(
    v: CorrelatorView<S>,
    kinds: Seq<RequestKind>,
    slots: Seq<S>,
    replies: Seq<Reply>,
)
    requires
        v.wf(),
        v.open,
        v.issued + kinds.len() <= u64::MAX,
        slots.len() == kinds.len(),
        replies.len() == kinds.len(),
        forall|p: int|
            0 <= p < replies.len() ==> v.issued <= (#[trigger] replies[p]).id < v.issued
                + kinds.len() && replies[p].response.kind_spec() == kinds[replies[p].id - v.issued],
        forall|p: int, q: int| 0 <= p < q < replies.len() ==> replies[p].id != replies[q].id,
        forall|j: int| 0 <= j < kinds.len() ==> answered(replies, #[trigger] ((v.issued + j) as u64)),
    ensures
        settle_all(issue_all(v, kinds, slots), replies).0.wf(),
        settle_all(issue_all(v, kinds, slots), replies).1.len() == replies.len(),
        forall|p: int|
            0 <= p < replies.len() ==> (#[trigger] settle_all(
                issue_all(v, kinds, slots),
                replies,
            ).1[p]) == Some(
                Delivery {
                    slot: slots[replies[p].id - v.issued],
                    result: Ok::<Response, ExchangeError>(replies[p].response),
                },
            ),
        forall|id: u64|
            (#[trigger] awaits(settle_all(issue_all(v, kinds, slots), replies).0.pending, id))
                == awaits(v.pending, id),
{
    let full = issue_all(v, kinds, slots);
    let n0 = v.pending.len() as int;
    lemma_issue_all_enters(v, kinds, slots);
    assert forall|j: int| 0 <= j < kinds.len() implies awaits(
        full.pending,
        #[trigger] ((v.issued + j) as u64),
    ) && entry(full.pending, (v.issued + j) as u64) == (Outstanding {
        id: (v.issued + j) as u64,
        kind: kinds[j],
        slot: slots[j],
    }) by {
        assert(full.pending[n0 + j] == entered(v.issued, kinds, slots)[j]);
        lemma_position_is_exact(full, n0 + j);
    }
    assert forall|p: int| 0 <= p < replies.len() implies awaits(
        full.pending,
        (#[trigger] replies[p]).id,
    ) && replies[p].response.kind_spec() == entry(full.pending, replies[p].id).kind && entry(
        full.pending,
        replies[p].id,
    ).slot == slots[replies[p].id - v.issued] by {
        let j = replies[p].id - v.issued;
        assert(replies[p].id == (v.issued + j) as u64);
    }
    lemma_replies_reach_their_requests(full, replies);
    let after = settle_all(full, replies).0;
    assert forall|id: u64| (#[trigger] awaits(after.pending, id)) == awaits(v.pending, id) by {
        if awaits(v.pending, id) {
            let x = position(v.pending, id);
            assert(v.pending[x].id < v.issued);
            assert(full.pending[x] == v.pending[x]);
            if answered(replies, id) {
                let p = choose|p: int| 0 <= p < replies.len() && (#[trigger] replies[p]).id == id;
                assert(v.issued <= replies[p].id);
            }
        }
        if awaits(after.pending, id) {
            let x = position(full.pending, id);
            assert(full.pending[x].id == id);
            if x >= n0 {
                let j = x - n0;
                assert(full.pending[x] == entered(v.issued, kinds, slots)[j]);
                assert(answered(replies, (v.issued + j) as u64));
            } else {
                assert(full.pending[x] == v.pending[x]);
            }
        }
    }
}

/// When a connection ends, every request that awaits a reply is failed, and
/// failed once: the slots handed back are those of the table, one for one.
/// Nothing is left behind, so no reply that still arrives resolves anything,
/// no request is accepted any more, and ending the connection again hands
/// back nothing.
pub proof fn lemma_close_fails_each_once<S>(v: CorrelatorView<S>)
    requires
        v.wf(),
    ensures
        v.close().0.wf(),
        !v.close().0.open,
        v.close().0.pending.len() == 0,
        v.close().1.len() == v.pending.len(),
        forall|i: int| 0 <= i < v.pending.len() ==> (#[trigger] v.close().1[i]) == v.pending[i].slot,
        forall|id: u64, response: Response| #[trigger]
            v.close().0.settle(id, response) == (v.close().0, None::<Delivery<S>>),
        forall|kind: RequestKind, slot: S| #[trigger]
            v.close().0.issue(kind, slot) == (v.close().0, Err::<u64, S>(slot)),
        v.close().0.close() == (v.close().0, Seq::<S>::empty()),
{
    let after = v.close().0;
    assert(slots(after.pending) =~= Seq::<S>::empty());
    assert forall|id: u64, response: Response| #[trigger]
        after.settle(id, response) == (after, None::<Delivery<S>>) by {
        assert(!awaits(after.pending, id));
    }
}

} // verus!
