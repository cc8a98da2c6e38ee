use acuity_index_cli::{Action, Controller, Event, Failure, Key, Phase, SubstrateKey, Target};

type Batch = Vec<u32>;

/// A stand-in for the index service: scripted outcomes, and a record of the calls.
struct Script {
    subscribe: Result<(), String>,
    batches: Vec<Result<Batch, String>>,
    cancel_after: Option<usize>,
    unsubscribe: Result<(), String>,
}

struct Record {
    subscribes: Vec<Target>,
    unsubscribes: Vec<Target>,
    rendered: Vec<Batch>,
    phases: Vec<Phase>,
    outcome: Result<(), Failure<String>>,
}

fn drive(target: Target, script: Script) -> Record {
    let mut record = Record {
        subscribes: vec![],
        unsubscribes: vec![],
        rendered: vec![],
        phases: vec![],
        outcome: Ok(()),
    };
    let mut batches = script.batches.into_iter();
    let mut delivered = 0usize;
    let mut controller: Controller<String> = Controller::new(target);
    record.phases.push(controller.phase());
    let mut event: Event<Batch, String> = Event::Start;
    loop {
        let (next, action) = controller.step(event);
        controller = next;
        if record.phases.last() != Some(&controller.phase()) {
            record.phases.push(controller.phase());
        }
        event = match action {
            Action::Subscribe(t) => {
                record.subscribes.push(t);
                Event::Subscribed(script.subscribe.clone())
            }
            Action::Listen | Action::Render(_) => {
                if let Action::Render(b) = action {
                    record.rendered.push(b);
                }
                if script.cancel_after == Some(delivered) {
                    Event::Cancelled
                } else {
                    delivered += 1;
                    match batches.next() {
                        Some(b) => Event::Batch(b),
                        None => Event::StreamEnded,
                    }
                }
            }
            Action::DropStream => Event::StreamDropped,
            Action::Unsubscribe(t) => {
                record.unsubscribes.push(t);
                Event::Unsubscribed(script.unsubscribe.clone())
            }
            Action::Finish(outcome) => {
                record.outcome = outcome;
                return record;
            }
            Action::Ignore => panic!("the driver sent an event out of turn"),
        };
    }
}

fn key() -> Key {
    Key::Substrate(SubstrateKey::TipHash([5u8; 32]))
}

#[test]
fn cancel_after_two_batches_renders_both_and_unsubscribes_once() {
    let target = Target::Events(key());
    let record = drive(
        target,
        Script {
            subscribe: Ok(()),
            batches: vec![Ok(vec![1]), Ok(vec![2, 3]), Ok(vec![4])],
            cancel_after: Some(2),
            unsubscribe: Ok(()),
        },
    );
    assert_eq!(record.rendered, vec![vec![1], vec![2, 3]]);
    assert_eq!(record.subscribes, vec![target]);
    assert_eq!(record.unsubscribes, vec![target]);
    assert_eq!(record.outcome, Ok(()));
}

#[test]
fn stream_fault_still_unsubscribes_and_reports_fault() {
    let target = Target::Events(key());
    let record = drive(
        target,
        Script {
            subscribe: Ok(()),
            batches: vec![Ok(vec![1]), Err("decode".to_string()), Ok(vec![9])],
            cancel_after: None,
            unsubscribe: Ok(()),
        },
    );
    assert_eq!(record.rendered, vec![vec![1]]);
    assert_eq!(record.unsubscribes, vec![target]);
    assert_eq!(record.outcome, Err(Failure::Stream("decode".to_string())));
    assert_eq!(record.phases.last(), Some(&Phase::ClosedError));
}

#[test]
fn unsubscribe_failure_after_stream_fault_is_reported_last() {
    let record = drive(
        Target::Status,
        Script {
            subscribe: Ok(()),
            batches: vec![Ok(vec![1]), Err("decode".to_string())],
            cancel_after: None,
            unsubscribe: Err("gone".to_string()),
        },
    );
    assert_eq!(record.rendered, vec![vec![1]]);
    assert_eq!(record.unsubscribes, vec![Target::Status]);
    assert_eq!(record.outcome, Err(Failure::Unsubscribe("gone".to_string())));
}

#[test]
fn immediate_cancel_walks_every_phase_and_unsubscribes() {
    let record = drive(
        Target::Status,
        Script {
            subscribe: Ok(()),
            batches: vec![Ok(vec![1])],
            cancel_after: Some(0),
            unsubscribe: Ok(()),
        },
    );
    assert!(record.rendered.is_empty());
    assert_eq!(record.unsubscribes, vec![Target::Status]);
    assert_eq!(
        record.phases,
        vec![
            Phase::Idle,
            Phase::Subscribing,
            Phase::Streaming,
            Phase::Cancelling,
            Phase::Unsubscribing,
            Phase::Closed
        ]
    );
    assert_eq!(record.outcome, Ok(()));
}

#[test]
fn subscribe_failure_aborts_without_unsubscribe() {
    let record = drive(
        Target::Status,
        Script {
            subscribe: Err("refused".to_string()),
            batches: vec![],
            cancel_after: None,
            unsubscribe: Ok(()),
        },
    );
    assert!(record.unsubscribes.is_empty());
    assert_eq!(record.outcome, Err(Failure::Subscribe("refused".to_string())));
    assert_eq!(record.phases.last(), Some(&Phase::ClosedError));
}

#[test]
fn stream_end_unsubscribes_once() {
    let record = drive(
        Target::Status,
        Script {
            subscribe: Ok(()),
            batches: vec![Ok(vec![]), Ok(vec![7])],
            cancel_after: None,
            unsubscribe: Ok(()),
        },
    );
    assert_eq!(record.rendered, vec![vec![], vec![7]]);
    assert_eq!(record.unsubscribes, vec![Target::Status]);
    assert_eq!(record.outcome, Ok(()));
}

#[test]
fn events_out_of_turn_are_ignored() {
    let c: Controller<String> = Controller::new(Target::Status);
    let (c, action) = c.step(Event::<Batch, String>::Unsubscribed(Ok(())));
    assert_eq!(action, Action::Ignore);
    assert_eq!(c.phase(), Phase::Idle);
    let (c, _) = c.step(Event::<Batch, String>::Start);
    let (c, action) = c.step(Event::<Batch, String>::Batch(Ok(vec![1])));
    assert_eq!(action, Action::Ignore);
    assert_eq!(c.phase(), Phase::Subscribing);
}
