//! The connection to one device, as what it decides.
//!
//! A connection stands between the handles that callers hold and the
//! transport to the device. Whoever runs it tells it what happened: a caller
//! handed in a request or an action, a reply arrived, or the transport is
//! gone. [`Correlator::react`] answers with what is to be done: messages to
//! put on the transport, and slots to resolve. A slot that was handed in is
//! resolved exactly once, whatever happens.

use crate::error::ExchangeError;
use crate::exchange::{slots, Correlator, CorrelatorView, Delivery, Reply};
use crate::message::{Action, Request};
use vstd::multiset::Multiset;
use vstd::prelude::*;

verus! {

broadcast use vstd::multiset::group_multiset_axioms;

/// A message on its way to the device.
#[derive(Clone, Debug, PartialEq, Eq)]
pub enum Outbound {
    /// A request, with the identifier that its reply will carry.
    Request { id: u64, request: Request },
    /// An action. It is not answered.
    Action(Action),
}

/// Something that happened to a connection.
pub enum Input<S> {
    /// A caller handed in a request and waits on `S` for what comes of it.
    Request(Request, S),
    /// A caller handed in an action.
    Action(Action),
    /// A reply arrived from the device.
    Reply(Reply),
    /// The transport is gone, or a message could not be put on it.
    Lost,
}

/// Something that a connection wants done.
pub enum Output<S> {
    /// Put this message on the transport.
    Transmit(Outbound),
    /// Resolve this slot with this result.
    Resolve(Delivery<S>),
}

/// What is to be done with slots that can no longer get a reply: each is
/// resolved as unreachable, in order.
pub open spec fn failures<S>(failed: Seq<S>) -> Seq<Output<S>> {
    Seq::new(
        failed.len(),
        |i: int| Output::Resolve(Delivery { slot: failed[i], result: Err(ExchangeError::Unreachable) }),
    )
}

impl<S> CorrelatorView<S> {
    /// The connection after `input`, and what `input` calls for.
    ///
    /// A request that is accepted goes out with its identifier; one that is
    /// not is resolved as unreachable at once. An action goes out as long as
    /// the connection is up. A reply resolves the request it answers, if one
    /// awaits it. When the transport is lost, every request that awaits a
    /// reply is resolved as unreachable and the connection is closed.
    pub open spec fn react(self, input: Input<S>) -> (CorrelatorView<S>, Seq<Output<S>>) {
        match input {
            Input::Request(request, slot) => match self.issue(request.kind_spec(), slot).1 {
                Ok(id) => (
                    self.issue(request.kind_spec(), slot).0,
                    seq![Output::Transmit(Outbound::Request { id, request })],
                ),
                Err(slot) => (
                    self,
                    seq![
                        Output::Resolve(
                            Delivery { slot, result: Err(ExchangeError::Unreachable) },
                        ),
                    ],
                ),
            },
            Input::Action(action) => if self.open {
                (self, seq![Output::Transmit(Outbound::Action(action))])
            } else {
                (self, Seq::empty())
            },
            Input::Reply(reply) => match self.settle(reply.id, reply.response).1 {
                Some(delivery) => (
                    self.settle(reply.id, reply.response).0,
                    seq![Output::Resolve(delivery)],
                ),
                None => (self, Seq::empty()),
            },
            Input::Lost => (self.close().0, failures(self.close().1)),
        }
    }

    /// What a run of inputs does: the connection after the last of them, and
    /// everything they called for, in order.
    pub open spec fn react_all(self, inputs: Seq<Input<S>>) -> (CorrelatorView<S>, Seq<Output<S>>)
        decreases inputs.len(),
    {
        if inputs.len() == 0 {
            (self, Seq::empty())
        } else {
            let before = self.react_all(inputs.drop_last());
            let last = before.0.react(inputs.last());
            (last.0, before.1 + last.1)
        }
    }
}

impl<S> Correlator<S> {
    /// Takes in what happened and says what is to be done, in order.
    pub fn react(&mut self, input: Input<S>) -> (outputs: Vec<Output<S>>)
        ensures
            final(self).wf(),
            (final(self)@, outputs@) == old(self)@.react(input),
    {
        proof {
            use_type_invariant(&*self);
        }
        let mut outputs: Vec<Output<S>> = Vec::new();
        match input {
            Input::Request(request, slot) => {
                match self.issue(request.kind(), slot) {
                    Ok(id) => {
                        outputs.push(Output::Transmit(Outbound::Request { id, request }));
                    },
                    Err(slot) => {
                        outputs.push(
                            Output::Resolve(
                                Delivery { slot, result: Err(ExchangeError::Unreachable) },
                            ),
                        );
                    },
                }
                assert(outputs@ =~= old(self)@.react(input).1);
            },
            Input::Action(action) => {
                if self.is_open() {
                    outputs.push(Output::Transmit(Outbound::Action(action)));
                }
                assert(outputs@ =~= old(self)@.react(input).1);
            },
            Input::Reply(reply) => {
                match self.settle(reply.id, reply.response) {
                    Some(delivery) => {
                        outputs.push(Output::Resolve(delivery));
                    },
                    None => {},
                }
                assert(outputs@ =~= old(self)@.react(input).1);
            },
            Input::Lost => {
                let failed = self.close();
                let ghost all = failed@;
                for slot in it: failed
                    invariant
                        it.seq() == all,
                        outputs@ == failures(all.take(it.index() as int)),
                {
                    let ghost before = outputs@;
                    outputs.push(
                        Output::Resolve(Delivery { slot, result: Err(ExchangeError::Unreachable) }),
                    );
                    assert(outputs@ =~= failures(all.take(it.index() + 1)));
                }
                assert(all.take(all.len() as int) =~= all);
            },
        }
        outputs
    }
}

/// What a caller hands in for the device: a request or an action.
pub enum Submission {
    Request(Request),
    Action(Action),
}

/// What these inputs hand in for the device, in order.
pub open spec fn submissions<S>(inputs: Seq<Input<S>>) -> Seq<Submission>
    decreases inputs.len(),
{
    if inputs.len() == 0 {
        Seq::empty()
    } else {
        let front = submissions(inputs.drop_last());
        match inputs.last() {
            Input::Request(request, _) => front.push(Submission::Request(request)),
            Input::Action(action) => front.push(Submission::Action(action)),
            _ => front,
        }
    }
}

/// What these outputs put on the transport, in order, without the
/// identifiers.
pub open spec fn transmitted<S>(outputs: Seq<Output<S>>) -> Seq<Submission>
    decreases outputs.len(),
{
    if outputs.len() == 0 {
        Seq::empty()
    } else {
        let front = transmitted(outputs.drop_last());
        match outputs.last() {
            Output::Transmit(Outbound::Request { id, request }) => front.push(
                Submission::Request(request),
            ),
            Output::Transmit(Outbound::Action(action)) => front.push(Submission::Action(action)),
            Output::Resolve(_) => front,
        }
    }
}

proof fn lemma_transmitted_concat<S>(a: Seq<Output<S>>, b: Seq<Output<S>>)
    ensures
        transmitted(a + b) =~= transmitted(a) + transmitted(b),
    decreases b.len(),
{
    if b.len() == 0 {
        assert(a + b =~= a);
    } else {
        lemma_transmitted_concat(a, b.drop_last());
        assert((a + b).drop_last() =~= a + b.drop_last());
        assert((a + b).last() == b.last());
    }
}

/// What callers hand in reaches the transport in the order in which they
/// handed it in, as long as the transport is there and there are identifiers
/// left: nothing is held back, nothing overtakes, nothing goes out twice.
pub proof fn lemma_messages_go_out_in_order<S>(v: CorrelatorView<S>, inputs: Seq<Input<S>>)
    requires
        v.wf(),
        v.open,
        v.issued + inputs.len() <= u64::MAX,
        forall|i: int| 0 <= i < inputs.len() ==> !((#[trigger] inputs[i]) is Lost),
    ensures
        v.react_all(inputs).0.wf(),
        v.react_all(inputs).0.open,
        v.react_all(inputs).0.issued <= v.issued + inputs.len(),
        transmitted(v.react_all(inputs).1) == submissions(inputs),
    decreases inputs.len(),
{
    if inputs.len() > 0 {
        let front = inputs.drop_last();
        assert forall|i: int| 0 <= i < front.len() implies !((#[trigger] front[i]) is Lost) by {
            assert(front[i] == inputs[i]);
        }
        lemma_messages_go_out_in_order(v, front);
        let before = v.react_all(front);
        let last = before.0.react(inputs.last());
        lemma_react_conserves_slots(before.0, inputs.last());
        lemma_transmitted_concat(before.1, last.1);
        assert(!(inputs[inputs.len() - 1] is Lost));
        reveal_with_fuel(transmitted, 2);
        match inputs.last() {
            Input::Request(request, slot) => {
                assert(before.0.accepts());
                assert(last.1.drop_last() =~= Seq::<Output<S>>::empty());
                assert(transmitted(last.1) =~= seq![Submission::Request(request)]);
            },
            Input::Action(action) => {
                assert(last.1.drop_last() =~= Seq::<Output<S>>::empty());
                assert(transmitted(last.1) =~= seq![Submission::Action(action)]);
            },
            Input::Reply(reply) => {
                if last.1.len() > 0 {
                    assert(last.1.drop_last() =~= Seq::<Output<S>>::empty());
                }
                assert(transmitted(last.1) =~= Seq::<Submission>::empty());
            },
            Input::Lost => {},
        }
        assert(transmitted(v.react_all(inputs).1) =~= submissions(inputs));
    }
}

/// The slots that an input hands in.
pub open spec fn offered<S>(input: Input<S>) -> Multiset<S> {
    match input {
        Input::Request(_, slot) => Multiset::singleton(slot),
        _ => Multiset::empty(),
    }
}

/// The slots that a run of inputs hands in, each as often as it is handed
/// in.
pub open spec fn offered_all<S>(inputs: Seq<Input<S>>) -> Multiset<S>
    decreases inputs.len(),
{
    if inputs.len() == 0 {
        Multiset::empty()
    } else {
        offered_all(inputs.drop_last()).add(offered(inputs.last()))
    }
}

/// The slots that these outputs resolve, each as often as it is resolved.
pub open spec fn resolved<S>(outputs: Seq<Output<S>>) -> Multiset<S>
    decreases outputs.len(),
{
    if outputs.len() == 0 {
        Multiset::empty()
    } else {
        resolved(outputs.drop_last()).add(
            match outputs.last() {
                Output::Resolve(delivery) => Multiset::singleton(delivery.slot),
                Output::Transmit(_) => Multiset::empty(),
            },
        )
    }
}

/// The slots of the requests that await a reply, each as often as it waits.
pub open spec fn waiting<S>(v: CorrelatorView<S>) -> Multiset<S> {
    slots(v.pending).to_multiset()
}

proof fn lemma_resolved_concat<S>(a: Seq<Output<S>>, b: Seq<Output<S>>)
    ensures
        resolved(a + b) =~= resolved(a).add(resolved(b)),
    decreases b.len(),
{
    if b.len() == 0 {
        assert(a + b =~= a);
    } else {
        lemma_resolved_concat(a, b.drop_last());
        assert((a + b).drop_last() =~= a + b.drop_last());
        assert((a + b).last() == b.last());
    }
}

proof fn lemma_resolved_one<S>(output: Output<S>)
    ensures
        resolved(seq![output]) =~= (match output {
            Output::Resolve(delivery) => Multiset::singleton(delivery.slot),
            Output::Transmit(_) => Multiset::empty(),
        }),
{
    reveal_with_fuel(resolved, 2);
    assert(seq![output].drop_last() =~= Seq::<Output<S>>::empty());
    assert(seq![output].last() == output);
}

proof fn lemma_failures_resolve_all<S>(failed: Seq<S>)
    ensures
        resolved(failures(failed)) =~= failed.to_multiset(),
    decreases failed.len(),
{
    failed.to_multiset_ensures();
    if failed.len() == 0 {
    } else {
        let front = failed.drop_last();
        lemma_failures_resolve_all(front);
        front.to_multiset_ensures();
        assert(failures(failed).drop_last() =~= failures(front));
        assert(front.push(failed.last()) =~= failed);
    }
}

/// One input neither loses a slot nor resolves one twice: the slots that
/// waited before, together with the one that the input hands in, are the
/// slots that wait afterwards together with those that the input had
/// resolved.
pub proof fn lemma_react_conserves_slots<S>(v: CorrelatorView<S>, input: Input<S>)
    requires
        v.wf(),
    ensures
        v.react(input).0.wf(),
        waiting(v).add(offered(input)) =~= waiting(v.react(input).0).add(
            resolved(v.react(input).1),
        ),
{
    let next = v.react(input).0;
    let outputs = v.react(input).1;
    let before = slots(v.pending);
    before.to_multiset_ensures();
    match input {
        Input::Request(request, slot) => {
            lemma_resolved_one(outputs[0]);
            assert(outputs =~= seq![outputs[0]]);
            if v.accepts() {
                crate::exchange::lemma_issue_enters(v, request.kind_spec(), slot);
                assert(slots(next.pending) =~= before.push(slot));
                assert(before.push(slot).to_multiset() =~= before.to_multiset().insert(slot));
                assert(resolved(outputs) =~= Multiset::<S>::empty());
                assert(waiting(next) =~= waiting(v).add(offered(input)));
            } else {
                assert(resolved(outputs) =~= Multiset::singleton(slot));
            }
        },
        Input::Action(action) => {
            if v.open {
                lemma_resolved_one(outputs[0]);
                assert(outputs =~= seq![outputs[0]]);
            }
            assert(resolved(outputs) =~= Multiset::<S>::empty());
        },
        Input::Reply(reply) => {
            crate::exchange::lemma_settle_removes_one(v, reply.id, reply.response);
            if crate::exchange::awaits(v.pending, reply.id) {
                let i = crate::exchange::position(v.pending, reply.id);
                assert(0 <= i < v.pending.len());
                assert(slots(next.pending) =~= before.remove(i));
                vstd::seq_lib::to_multiset_remove(before, i);
                lemma_resolved_one(outputs[0]);
                assert(outputs =~= seq![outputs[0]]);
                assert(resolved(outputs) =~= Multiset::singleton(before[i]));
                assert(before.to_multiset().count(before[i]) > 0) by {
                    assert(before.contains(before[i]));
                }
                assert(waiting(next) =~= waiting(v).remove(before[i]));
                assert(waiting(v) =~= waiting(next).add(Multiset::singleton(before[i])));
            } else {
                assert(resolved(outputs) =~= Multiset::<S>::empty());
            }
        },
        Input::Lost => {
            crate::exchange::lemma_close_fails_each_once(v);
            lemma_failures_resolve_all(before);
            assert(slots(next.pending) =~= Seq::<S>::empty());
            Seq::<S>::empty().to_multiset_ensures();
            assert(waiting(next).len() == 0);
            assert(waiting(next) =~= Multiset::<S>::empty());
            assert(resolved(outputs) =~= waiting(v));
        },
    }
}

/// Over any run of inputs, no slot is lost and none is resolved twice: the
/// slots that waited at the start, together with those that were handed in,
/// are the slots that wait at the end together with those that were
/// resolved.
pub proof fn lemma_slots_are_conserved<S>(v: CorrelatorView<S>, inputs: Seq<Input<S>>)
    requires
        v.wf(),
    ensures
        v.react_all(inputs).0.wf(),
        waiting(v).add(offered_all(inputs)) =~= waiting(v.react_all(inputs).0).add(
            resolved(v.react_all(inputs).1),
        ),
    decreases inputs.len(),
{
    if inputs.len() > 0 {
        let before = v.react_all(inputs.drop_last());
        let last = before.0.react(inputs.last());
        lemma_slots_are_conserved(v, inputs.drop_last());
        lemma_react_conserves_slots(before.0, inputs.last());
        lemma_resolved_concat(before.1, last.1);
        let w0 = waiting(v);
        let o1 = offered_all(inputs.drop_last());
        let o2 = offered(inputs.last());
        let w1 = waiting(before.0);
        let r1 = resolved(before.1);
        let w2 = waiting(last.0);
        let r2 = resolved(last.1);
        assert(w0.add(o1) =~= w1.add(r1));
        assert(w1.add(o2) =~= w2.add(r2));
        assert(w0.add(o1.add(o2)) =~= w0.add(o1).add(o2));
        assert(w1.add(r1).add(o2) =~= w1.add(o2).add(r1));
        assert(w2.add(r2).add(r1) =~= w2.add(r1.add(r2)));
    } else {
        assert(resolved(v.react_all(inputs).1) =~= Multiset::<S>::empty());
        assert(offered_all(inputs) =~= Multiset::<S>::empty());
    }
}

/// Once the transport is lost, nothing waits any more: every slot that ever
/// waited or was handed in has been resolved, and resolved once.
pub proof fn lemma_loss_resolves_everything<S>(v: CorrelatorView<S>, inputs: Seq<Input<S>>)
    requires
        v.wf(),
        inputs.len() > 0,
        inputs.last() is Lost,
    ensures
        v.react_all(inputs).0.pending.len() == 0,
        !v.react_all(inputs).0.open,
        resolved(v.react_all(inputs).1) =~= waiting(v).add(offered_all(inputs)),
{
    lemma_slots_are_conserved(v, inputs);
    let after = v.react_all(inputs).0;
    assert(slots(after.pending) =~= Seq::<S>::empty());
    Seq::<S>::empty().to_multiset_ensures();
    assert(waiting(after).len() == 0);
    assert(waiting(after) =~= Multiset::<S>::empty());
}

} // verus!
