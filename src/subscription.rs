use vstd::prelude::*;

use crate::key::Key;

verus! {

/// What a subscription follows: the index's status, or the events of one key.
#[derive(Clone, Copy, Debug, PartialEq, Eq)]
pub enum Target {
    Status,
    Events(Key),
}

/// The lifecycle of one subscription.
#[derive(Clone, Copy, Debug, PartialEq, Eq, Structural)]
pub enum Phase {
    Idle,
    Subscribing,
    Streaming,
    Cancelling,
    Unsubscribing,
    Closed,
    ClosedError,
}

/// What the driver observed and hands to the controller.
#[derive(Debug, PartialEq, Eq)]
pub enum Event<B, E> {
    /// The command was started.
    Start,
    /// The outcome of the subscribe call.
    Subscribed(Result<(), E>),
    /// The next batch of the stream, or the fault it carried.
    Batch(Result<B, E>),
    /// The stream ended on its own.
    StreamEnded,
    /// The user asked to stop.
    Cancelled,
    /// The stream handle has been dropped.
    StreamDropped,
    /// The outcome of the unsubscribe call.
    Unsubscribed(Result<(), E>),
}

/// Why a subscription command failed.
#[derive(Debug, PartialEq, Eq)]
pub enum Failure<E> {
    /// The subscribe call failed; there was nothing to tear down.
    Subscribe(E),
    /// A batch of the stream carried a fault, and the unsubscribe call then succeeded.
    Stream(E),
    /// The unsubscribe call failed.
    Unsubscribe(E),
}

/// What the driver must do next.
#[derive(Debug, PartialEq, Eq)]
pub enum Action<B, E> {
    /// Call subscribe for the target.
    Subscribe(Target),
    /// Wait for a cancellation or the next batch, cancellation first.
    Listen,
    /// Print the batch, then listen again.
    Render(B),
    /// Drop the stream handle without reading more from it.
    DropStream,
    /// Call unsubscribe for the target.
    Unsubscribe(Target),
    /// The command is over, with this outcome.
    Finish(Result<(), Failure<E>>),
    /// The event does not belong to the current phase; nothing to do.
    Ignore,
}

/// The state of one subscription: what it follows, where it stands, whether the
/// unsubscribe call has been issued, and the stream fault that ended it, if one did.
pub struct Controller<E> {
    pub target: Target,
    pub phase: Phase,
    pub released: bool,
    pub fault: Option<E>,
}

impl<E> Controller<E> {
    /// A controller that has issued no unsubscribe call is in one of the phases
    /// before teardown.
    pub open spec fn wf(&self) -> bool {
        match self.phase {
            Phase::Idle | Phase::Subscribing | Phase::Streaming | Phase::Cancelling => !self.released,
            _ => true,
        }
    }

    pub open spec fn with_phase(self, phase: Phase) -> Self {
        Controller { phase, ..self }
    }

    pub open spec fn initial(target: Target) -> Self {
        Controller { target, phase: Phase::Idle, released: false, fault: None }
    }

    /// The controller for a new subscription to `target`.
    pub fn new(target: Target) -> (c: Self)
        ensures
            c == Self::initial(target),
            c.wf(),
    {
        Controller { target, phase: Phase::Idle, released: false, fault: None }
    }

    pub fn phase(&self) -> (p: Phase)
        ensures
            p == self.phase,
    {
        self.phase
    }

    /// Where the controller goes on `event`, and what the driver must do.
    pub open spec fn next<B>(self, event: Event<B, E>) -> (Self, Action<B, E>) {
        let t = self.target;
        let released = Controller { phase: Phase::Unsubscribing, released: true, ..self };
        match event {
            Event::Start => if self.phase == Phase::Idle {
                (self.with_phase(Phase::Subscribing), Action::Subscribe(t))
            } else {
                (self, Action::Ignore)
            },
            Event::Subscribed(outcome) => if self.phase == Phase::Subscribing {
                match outcome {
                    Ok(()) => (self.with_phase(Phase::Streaming), Action::Listen),
                    Err(e) => (
                        self.with_phase(Phase::ClosedError),
                        Action::Finish(Err(Failure::Subscribe(e))),
                    ),
                }
            } else {
                (self, Action::Ignore)
            },
            Event::Batch(batch) => if self.phase == Phase::Streaming {
                match batch {
                    Ok(b) => (self, Action::Render(b)),
                    Err(e) => (Controller { fault: Some(e), ..released }, Action::Unsubscribe(t)),
                }
            } else {
                (self, Action::Ignore)
            },
            Event::StreamEnded => if self.phase == Phase::Streaming {
                (released, Action::Unsubscribe(t))
            } else {
                (self, Action::Ignore)
            },
            Event::Cancelled => if self.phase == Phase::Streaming {
                (self.with_phase(Phase::Cancelling), Action::DropStream)
            } else {
                (self, Action::Ignore)
            },
            Event::StreamDropped => if self.phase == Phase::Cancelling {
                (released, Action::Unsubscribe(t))
            } else {
                (self, Action::Ignore)
            },
            Event::Unsubscribed(outcome) => if self.phase == Phase::Unsubscribing {
                match outcome {
                    Err(e) => (
                        Controller { phase: Phase::ClosedError, fault: None, ..self },
                        Action::Finish(Err(Failure::Unsubscribe(e))),
                    ),
                    Ok(()) => match self.fault {
                        Some(e) => (
                            Controller { phase: Phase::ClosedError, fault: None, ..self },
                            Action::Finish(Err(Failure::Stream(e))),
                        ),
                        None => (self.with_phase(Phase::Closed), Action::Finish(Ok(()))),
                    },
                }
            } else {
                (self, Action::Ignore)
            },
        }
    }

    /// Takes one event: returns the next state and the action for the driver.
    pub fn step<B>(self, event: Event<B, E>) -> (r: (Self, Action<B, E>))
        ensures
            r == self.next(event),
            self.wf() ==> r.0.wf(),
    {
        let Controller { target, phase, released, fault } = self;
        match event {
            Event::Start => {
                if phase == Phase::Idle {
                    (Controller { target, phase: Phase::Subscribing, released, fault }, Action::Subscribe(target))
                } else {
                    (Controller { target, phase, released, fault }, Action::Ignore)
                }
            },
            Event::Subscribed(outcome) => {
                if phase == Phase::Subscribing {
                    match outcome {
                        Ok(()) => (Controller { target, phase: Phase::Streaming, released, fault }, Action::Listen),
                        Err(e) => (
                            Controller { target, phase: Phase::ClosedError, released, fault },
                            Action::Finish(Err(Failure::Subscribe(e))),
                        ),
                    }
                } else {
                    (Controller { target, phase, released, fault }, Action::Ignore)
                }
            },
            Event::Batch(batch) => {
                if phase == Phase::Streaming {
                    match batch {
                        Ok(b) => (Controller { target, phase, released, fault }, Action::Render(b)),
                        Err(e) => (
                            Controller { target, phase: Phase::Unsubscribing, released: true, fault: Some(e) },
                            Action::Unsubscribe(target),
                        ),
                    }
                } else {
                    (Controller { target, phase, released, fault }, Action::Ignore)
                }
            },
            Event::StreamEnded => {
                if phase == Phase::Streaming {
                    (Controller { target, phase: Phase::Unsubscribing, released: true, fault }, Action::Unsubscribe(target))
                } else {
                    (Controller { target, phase, released, fault }, Action::Ignore)
                }
            },
            Event::Cancelled => {
                if phase == Phase::Streaming {
                    (Controller { target, phase: Phase::Cancelling, released, fault }, Action::DropStream)
                } else {
                    (Controller { target, phase, released, fault }, Action::Ignore)
                }
            },
            Event::StreamDropped => {
                if phase == Phase::Cancelling {
                    (Controller { target, phase: Phase::Unsubscribing, released: true, fault }, Action::Unsubscribe(target))
                } else {
                    (Controller { target, phase, released, fault }, Action::Ignore)
                }
            },
            Event::Unsubscribed(outcome) => {
                if phase == Phase::Unsubscribing {
                    match outcome {
                        Err(e) => (
                            Controller { target, phase: Phase::ClosedError, released, fault: None },
                            Action::Finish(Err(Failure::Unsubscribe(e))),
                        ),
                        Ok(()) => match fault {
                            Some(e) => (
                                Controller { target, phase: Phase::ClosedError, released, fault: None },
                                Action::Finish(Err(Failure::Stream(e))),
                            ),
                            None => (
                                Controller { target, phase: Phase::Closed, released, fault: None },
                                Action::Finish(Ok(())),
                            ),
                        },
                    }
                } else {
                    (Controller { target, phase, released, fault }, Action::Ignore)
                }
            },
        }
    }
}

/// The controller after a sequence of events, and the actions it asked for, in order.
pub open spec fn run<B, E>(c: Controller<E>, events: Seq<Event<B, E>>) -> (Controller<E>, Seq<Action<B, E>>)
    decreases events.len(),
{
    if events.len() == 0 {
        (c, Seq::empty())
    } else {
        let first = c.next(events[0]);
        let rest = run(first.0, events.drop_first());
        (rest.0, seq![first.1] + rest.1)
    }
}

/// Each batch delivered without fault, in order.
pub open spec fn batch_events<B, E>(bs: Seq<B>) -> Seq<Event<B, E>> {
    Seq::new(bs.len(), |i: int| Event::Batch(Ok(bs[i])))
}

/// Each batch rendered, in order.
pub open spec fn renders<B, E>(bs: Seq<B>) -> Seq<Action<B, E>> {
    Seq::new(bs.len(), |i: int| Action::Render(bs[i]))
}

/// The number of unsubscribe calls among the actions.
pub open spec fn unsubscribe_count<B, E>(acts: Seq<Action<B, E>>) -> nat
    decreases acts.len(),
{
    if acts.len() == 0 {
        0
    } else {
        (if acts[0] is Unsubscribe {
            1nat
        } else {
            0nat
        }) + unsubscribe_count(acts.drop_first())
    }
}

proof fn lemma_run_append<B, E>(c: Controller<E>, e1: Seq<Event<B, E>>, e2: Seq<Event<B, E>>)
    ensures
        run(c, e1 + e2) == (run(run(c, e1).0, e2).0, run(c, e1).1 + run(run(c, e1).0, e2).1),
    decreases e1.len(),
{
    if e1.len() == 0 {
        assert(e1 + e2 =~= e2);
        assert(run(c, e1).1 + run(c, e2).1 =~= run(c, e2).1);
    } else {
        let first = c.next(e1[0]);
        assert((e1 + e2).drop_first() =~= e1.drop_first() + e2);
        assert((e1 + e2)[0] == e1[0]);
        lemma_run_append(first.0, e1.drop_first(), e2);
        let r1 = run(first.0, e1.drop_first());
        let r2 = run(r1.0, e2);
        assert(seq![first.1] + (r1.1 + r2.1) =~= (seq![first.1] + r1.1) + r2.1);
    }
}

proof fn lemma_run_batches<B, E>(c: Controller<E>, bs: Seq<B>)
    requires
        c.phase == Phase::Streaming,
    ensures
        run(c, batch_events::<B, E>(bs)) == (c, renders::<B, E>(bs)),
    decreases bs.len(),
{
    let evs = batch_events::<B, E>(bs);
    if bs.len() == 0 {
        assert(renders::<B, E>(bs) =~= Seq::<Action<B, E>>::empty());
    } else {
        let tail = bs.drop_first();
        assert(evs.drop_first() =~= batch_events::<B, E>(tail));
        lemma_run_batches::<B, E>(c, tail);
        assert(renders::<B, E>(bs) =~= seq![Action::Render(bs[0])] + renders::<B, E>(tail));
    }
}

proof fn lemma_run_singleton<B, E>(c: Controller<E>, e: Event<B, E>)
    ensures
        run(c, seq![e]) == (c.next(e).0, seq![c.next(e).1]),
{
    assert(seq![e].drop_first() =~= Seq::<Event<B, E>>::empty());
    assert(run(c.next(e).0, Seq::<Event<B, E>>::empty()) == (c.next(e).0, Seq::<Action<B, E>>::empty()));
    assert(seq![c.next(e).1] + Seq::<Action<B, E>>::empty() =~= seq![c.next(e).1]);
}

proof fn lemma_run_cons<B, E>(c: Controller<E>, e: Event<B, E>, rest: Seq<Event<B, E>>)
    ensures
        run(c, seq![e] + rest) == (run(c.next(e).0, rest).0, seq![c.next(e).1] + run(c.next(e).0, rest).1),
{
    assert((seq![e] + rest).drop_first() =~= rest);
    assert((seq![e] + rest)[0] == e);
}

/// When the user cancels after some batches, whatever their number, the controller
/// asks to render exactly those batches in order, then to drop the stream, then
/// exactly one unsubscribe call for the target it was opened with; the command's
/// outcome is that of the unsubscribe call.
pub proof fn lemma_cancel_after_batches<B, E>(target: Target, bs: Seq<B>, outcome: Result<(), E>)
    ensures
        ({
            let events = seq![Event::Start, Event::Subscribed(Ok(()))] + batch_events::<B, E>(bs) + seq![
                Event::Cancelled,
                Event::StreamDropped,
                Event::Unsubscribed(outcome),
            ];
            let result = run(Controller::initial(target), events);
            &&& result.1 == seq![Action::Subscribe(target), Action::Listen] + renders::<B, E>(bs)
                + seq![
                Action::DropStream,
                Action::Unsubscribe(target),
                Action::Finish(
                    match outcome {
                        Ok(()) => Ok(()),
                        Err(e) => Err(Failure::Unsubscribe(e)),
                    },
                ),
            ]
            &&& unsubscribe_count(result.1) == 1
            &&& result.0.phase == (if outcome is Ok {
                Phase::Closed
            } else {
                Phase::ClosedError
            })
        }),
{
    let c0 = Controller::<E>::initial(target);
    let head = seq![Event::<B, E>::Start, Event::Subscribed(Ok(()))];
    let mid = batch_events::<B, E>(bs);
    let tail = seq![Event::<B, E>::Cancelled, Event::StreamDropped, Event::Unsubscribed(outcome)];
    let c1 = c0.next(Event::<B, E>::Start).0;
    let c2 = c1.next(Event::<B, E>::Subscribed(Ok(()))).0;
    assert(head.drop_first() =~= seq![Event::<B, E>::Subscribed(Ok(()))]);
    lemma_run_singleton(c1, Event::<B, E>::Subscribed(Ok(())));
    assert(run(c0, head).1 =~= seq![Action::<B, E>::Subscribe(target), Action::Listen]);
    lemma_run_batches::<B, E>(c2, bs);
    let c3 = c2.next(Event::<B, E>::Cancelled).0;
    let c4 = c3.next(Event::<B, E>::StreamDropped).0;
    let last = seq![Event::<B, E>::Unsubscribed(outcome)];
    let pair = seq![Event::<B, E>::StreamDropped] + last;
    assert(tail =~= seq![Event::<B, E>::Cancelled] + pair);
    lemma_run_singleton(c4, Event::<B, E>::Unsubscribed(outcome));
    lemma_run_cons(c3, Event::<B, E>::StreamDropped, last);
    lemma_run_cons(c2, Event::<B, E>::Cancelled, pair);
    let fin = c4.next(Event::<B, E>::Unsubscribed(outcome));
    assert(run(c2, tail).0 == fin.0);
    assert(run(c2, tail).1 =~= seq![Action::<B, E>::DropStream, Action::Unsubscribe(target), fin.1]);
    lemma_run_append(c0, head, mid);
    lemma_run_append(c0, head + mid, tail);
    let acts = run(c0, head + mid + tail).1;
    assert(acts =~= seq![Action::Subscribe(target), Action::Listen] + renders::<B, E>(bs) + seq![
        Action::DropStream,
        Action::Unsubscribe(target),
        fin.1,
    ]);
    lemma_count_layout(acts, 2 + bs.len() as int + 1);
}

proof fn lemma_count_layout<B, E>(acts: Seq<Action<B, E>>, k: int)
    requires
        0 <= k < acts.len(),
        acts[k] is Unsubscribe,
        forall|i: int| 0 <= i < acts.len() && i != k ==> !(#[trigger] acts[i] is Unsubscribe),
    ensures
        unsubscribe_count(acts) == 1,
    decreases acts.len(),
{
    if k == 0 {
        lemma_count_none(acts.drop_first());
    } else {
        lemma_count_layout(acts.drop_first(), k - 1);
    }
}

proof fn lemma_count_none<B, E>(acts: Seq<Action<B, E>>)
    requires
        forall|i: int| 0 <= i < acts.len() ==> !(#[trigger] acts[i] is Unsubscribe),
    ensures
        unsubscribe_count(acts) == 0,
    decreases acts.len(),
{
    if acts.len() > 0 {
        lemma_count_none(acts.drop_first());
    }
}

/// When a batch carries a fault after some good batches, the controller asks to
/// render exactly the good batches in order, then exactly one unsubscribe call for
/// the target it was opened with. The command fails with the unsubscribe call's
/// error if that call fails, and with the stream fault otherwise.
pub proof fn lemma_fault_after_batches<B, E>(
    target: Target,
    bs: Seq<B>,
    fault: E,
    outcome: Result<(), E>,
)
    ensures
        ({
            let events = seq![Event::Start, Event::Subscribed(Ok(()))] + batch_events::<B, E>(bs) + seq![
                Event::Batch(Err(fault)),
                Event::Unsubscribed(outcome),
            ];
            let result = run(Controller::initial(target), events);
            &&& result.1 == seq![Action::Subscribe(target), Action::Listen] + renders::<B, E>(bs)
                + seq![
                Action::Unsubscribe(target),
                Action::Finish(
                    Err(
                        match outcome {
                            Ok(()) => Failure::Stream(fault),
                            Err(e) => Failure::Unsubscribe(e),
                        },
                    ),
                ),
            ]
            &&& unsubscribe_count(result.1) == 1
            &&& result.0.phase == Phase::ClosedError
        }),
{
    let c0 = Controller::<E>::initial(target);
    let head = seq![Event::<B, E>::Start, Event::Subscribed(Ok(()))];
    let mid = batch_events::<B, E>(bs);
    let last = seq![Event::<B, E>::Unsubscribed(outcome)];
    let tail = seq![Event::<B, E>::Batch(Err(fault))] + last;
    assert(tail =~= seq![Event::<B, E>::Batch(Err(fault)), Event::Unsubscribed(outcome)]);
    let c1 = c0.next(Event::<B, E>::Start).0;
    let c2 = c1.next(Event::<B, E>::Subscribed(Ok(()))).0;
    assert(head.drop_first() =~= seq![Event::<B, E>::Subscribed(Ok(()))]);
    lemma_run_singleton(c1, Event::<B, E>::Subscribed(Ok(())));
    assert(run(c0, head).1 =~= seq![Action::<B, E>::Subscribe(target), Action::Listen]);
    lemma_run_batches::<B, E>(c2, bs);
    let c3 = c2.next(Event::<B, E>::Batch(Err(fault))).0;
    lemma_run_singleton(c3, Event::<B, E>::Unsubscribed(outcome));
    lemma_run_cons(c2, Event::<B, E>::Batch(Err(fault)), last);
    let fin = c3.next(Event::<B, E>::Unsubscribed(outcome));
    assert(run(c2, tail).0 == fin.0);
    assert(run(c2, tail).1 =~= seq![Action::<B, E>::Unsubscribe(target), fin.1]);
    lemma_run_append(c0, head, mid);
    lemma_run_append(c0, head + mid, tail);
    let acts = run(c0, head + mid + tail).1;
    assert(acts =~= seq![Action::Subscribe(target), Action::Listen] + renders::<B, E>(bs) + seq![
        Action::Unsubscribe(target),
        fin.1,
    ]);
    lemma_count_layout(acts, 2 + bs.len() as int);
}

/// Whatever events arrive, in whatever order, a controller asks for at most one
/// unsubscribe call over its whole life, none once it has asked for one, and only
/// for the target it was opened with.
pub proof fn lemma_unsubscribe_at_most_once<B, E>(c: Controller<E>, events: Seq<Event<B, E>>)
    requires
        c.wf(),
    ensures
        unsubscribe_count(run(c, events).1) <= (if c.released {
            0nat
        } else {
            1nat
        }),
        forall|i: int|
            0 <= i < run(c, events).1.len() && (#[trigger] run(c, events).1[i]) is Unsubscribe
                ==> run(c, events).1[i] == Action::<B, E>::Unsubscribe(c.target),
    decreases events.len(),
{
    if events.len() > 0 {
        let first = c.next(events[0]);
        let rest = events.drop_first();
        lemma_unsubscribe_at_most_once(first.0, rest);
        let acts = run(c, events).1;
        let tail = run(first.0, rest).1;
        assert(acts == seq![first.1] + tail);
        assert(acts.drop_first() =~= tail);
        assert(first.0.target == c.target);
        assert(first.0.wf());
        assert forall|i: int| 0 <= i < acts.len() && (#[trigger] acts[i]) is Unsubscribe implies acts[i]
            == Action::<B, E>::Unsubscribe(c.target) by {
            if i > 0 {
                assert(acts[i] == tail[i - 1]);
            }
        }
    }
}

} // verus!
