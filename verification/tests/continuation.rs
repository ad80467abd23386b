use sophia_x_authority::ordered_continuation::{
    PrivateHandoverFence, PrivateOrderedContinuation, PrivateOrderedEvidence, PrivateOrderedQueue,
    PrivateOrderedSetupCustody, PrivateOrderedWorkerExit, PrivateReceived, PrivateRetainedEnding,
    PrivateServingClose, PrivateServingReading, PrivateShutdown, PrivateCloseTermination, PrivateServingClosing,
    serving_disposition,
};

struct Queue {
    capacity: usize,
    incoming: std::cell::RefCell<Vec<u32>>,
    producers: bool,
    shutdown: PrivateShutdown<u8>,
    shutdowns: usize,
}

impl PrivateOrderedQueue<u32, u8> for Queue {
    fn capacity(&self) -> usize {
        self.capacity
    }

    fn try_recv(&self) -> PrivateReceived<u32> {
        let mut incoming = self.incoming.borrow_mut();
        if !incoming.is_empty() {
            PrivateReceived::Capsule(incoming.remove(0))
        } else if self.producers {
            PrivateReceived::Empty
        } else {
            PrivateReceived::Disconnected
        }
    }

    fn shutdown(&mut self) -> PrivateShutdown<u8> {
        self.shutdowns += 1;
        self.shutdown
    }
}

struct Owner {
    refusals: usize,
    steps: usize,
    closed_out_after: usize,
}

impl PrivateServingClose<u8> for Owner {
    fn begin_close(&mut self) -> bool {
        if self.refusals > 0 {
            self.refusals -= 1;
            false
        } else {
            true
        }
    }

    fn advance_close(&mut self) {
        self.steps += 1;
    }

    fn reading(&self) -> PrivateServingReading<u8> {
        let done = self.steps >= self.closed_out_after;
        PrivateServingReading {
            ending_ended: done,
            closing: Some(PrivateServingClosing {
                termination: if done { PrivateCloseTermination::Established } else { PrivateCloseTermination::Pending },
                drained: done,
                attempts_spent: false,
            }),
            shutdown_refused: None,
            unterminated: !done,
            retained_unanswered: if done { 0 } else { 1 },
            retained_foreign: 0,
            in_flight: false,
            refused: false,
        }
    }
}

type Continuation = PrivateOrderedContinuation<Queue, Owner, u32, &'static str, u8>;

fn fenced(fence: Option<PrivateHandoverFence>) -> PrivateOrderedEvidence {
    let mut evidence = PrivateOrderedEvidence::unstarted();
    evidence.fence = fence;
    evidence
}

fn setup(accepted: PrivateOrderedSetupCustody<Queue>, fence: Option<PrivateHandoverFence>) -> Continuation {
    PrivateOrderedContinuation::Setup {
        accepted,
        refusal: "refused",
        evidence: fenced(fence),
        retained: Vec::new(),
        drained: false,
        ended: false,
        ending_refused: None,
    }
}

fn queue(incoming: Vec<u32>, shutdown: PrivateShutdown<u8>) -> Queue {
    Queue { capacity: 4, incoming: std::cell::RefCell::new(incoming), producers: false, shutdown, shutdowns: 0 }
}

#[test]
fn unstarted_evidence_records_nothing() {
    let evidence = PrivateOrderedEvidence::unstarted();
    assert_eq!(evidence.fence, None);
    assert_eq!(evidence.worker, PrivateOrderedWorkerExit::NeverStarted);
    assert!(!evidence.source_poisoned);
}

#[test]
fn a_bound_setup_ends_its_wire_and_drains_into_custody() {
    let mut c = setup(
        PrivateOrderedSetupCustody::Transport(queue(vec![7, 8], PrivateShutdown::Ended)),
        Some(PrivateHandoverFence::Established),
    );
    assert_eq!(c.disposition().ending, PrivateRetainedEnding::Unattempted);
    c.visit_once();
    assert_eq!(c.queue().unwrap().shutdowns, 1);
    let d = c.disposition();
    assert_eq!((d.ending, d.retained, d.drained, d.settled), (PrivateRetainedEnding::Ended, 1, false, false));
    c.visit_once();
    c.visit_once();
    // Ended once: no second shutdown.
    assert_eq!(c.queue().unwrap().shutdowns, 1);
    let d = c.disposition();
    assert_eq!((d.retained, d.drained), (2, true));
    // Capsules still held keep it unsettled.
    assert!(!c.settled_now());
    assert!(!d.settled);
}

#[test]
fn a_receiver_alone_has_nothing_to_end_its_wire() {
    let mut c = setup(
        PrivateOrderedSetupCustody::Receiver(queue(Vec::new(), PrivateShutdown::Ended)),
        Some(PrivateHandoverFence::AlreadyEstablished),
    );
    c.visit_once();
    assert_eq!(c.queue().unwrap().shutdowns, 0);
    let d = c.disposition();
    assert_eq!((d.ending, d.drained, d.settled), (PrivateRetainedEnding::NoCapability, true, false));
    assert_eq!(d.closure, Some(PrivateHandoverFence::AlreadyEstablished));
}

#[test]
fn a_refused_ending_is_recorded_and_retried() {
    let mut c = setup(
        PrivateOrderedSetupCustody::Transport(queue(Vec::new(), PrivateShutdown::Refused(5))),
        Some(PrivateHandoverFence::Established),
    );
    c.visit_once();
    assert_eq!(c.disposition().ending, PrivateRetainedEnding::Refused(5));
    c.visit_once();
    assert_eq!(c.queue().unwrap().shutdowns, 2);
}

#[test]
fn an_empty_ended_drained_setup_with_closure_is_settled() {
    let mut c = setup(
        PrivateOrderedSetupCustody::Transport(queue(Vec::new(), PrivateShutdown::NotConnected)),
        Some(PrivateHandoverFence::Established),
    );
    c.visit_once();
    assert!(c.settled_now());
    assert!(c.disposition().settled);
    let mut unfenced = setup(
        PrivateOrderedSetupCustody::Transport(queue(Vec::new(), PrivateShutdown::Ended)),
        Some(PrivateHandoverFence::Unreadable),
    );
    unfenced.visit_once();
    assert!(!unfenced.settled_now());
}

#[test]
fn a_full_custody_receives_nothing_more() {
    let mut q = queue(vec![1, 2, 3], PrivateShutdown::Ended);
    q.capacity = 1;
    let mut c = setup(PrivateOrderedSetupCustody::Transport(q), Some(PrivateHandoverFence::Established));
    c.visit_once();
    c.visit_once();
    assert_eq!(c.disposition().retained, 1);
    assert_eq!(*c.queue().unwrap().incoming.borrow(), vec![2, 3]);
}

#[test]
fn a_serving_owner_retries_its_close() {
    let mut c: Continuation = PrivateOrderedContinuation::Serving {
        owner: Owner { refusals: 1, steps: 0, closed_out_after: 2 },
        evidence: fenced(Some(PrivateHandoverFence::Established)),
    };
    assert!(c.queue().is_none());
    c.visit_once();
    assert!(!c.settled_now());
    c.visit_once();
    assert!(!c.settled_now());
    c.visit_once();
    assert!(c.settled_now());
    let d = c.disposition();
    assert_eq!((d.ending, d.retained, d.settled), (PrivateRetainedEnding::Ended, 0, true));
}

#[test]
fn a_serving_owner_without_closure_is_never_settled() {
    let mut c: Continuation = PrivateOrderedContinuation::Serving {
        owner: Owner { refusals: 0, steps: 0, closed_out_after: 0 },
        evidence: fenced(None),
    };
    c.visit_once();
    assert!(!c.settled_now());
    assert_eq!(c.disposition().closure, None);
}

fn quiet_reading() -> PrivateServingReading<u8> {
    PrivateServingReading {
        ending_ended: false,
        closing: None,
        shutdown_refused: None,
        unterminated: true,
        retained_unanswered: 0,
        retained_foreign: 0,
        in_flight: false,
        refused: false,
    }
}

#[test]
fn a_serving_owner_counts_every_slot_it_holds() {
    let reading = PrivateServingReading {
        retained_unanswered: 2,
        retained_foreign: 3,
        in_flight: true,
        refused: true,
        ..quiet_reading()
    };
    let d = serving_disposition(Some(PrivateHandoverFence::Established), &reading);
    assert_eq!(d.retained, 7);
    assert_eq!(d.ending, PrivateRetainedEnding::Unattempted);
    assert!(!d.drained);
    assert!(!d.retries_exhausted);
    assert!(!d.settled);
    let full = PrivateServingReading { retained_unanswered: usize::MAX, refused: true, ..quiet_reading() };
    assert_eq!(serving_disposition::<u8>(None, &full).retained, usize::MAX);
}

#[test]
fn an_established_ending_outranks_a_refused_close() {
    let refused_close = PrivateServingClosing {
        termination: PrivateCloseTermination::Refused(4),
        drained: false,
        attempts_spent: true,
    };
    let reading = PrivateServingReading { closing: Some(refused_close), shutdown_refused: Some(9), ..quiet_reading() };
    let d = serving_disposition(None, &reading);
    assert_eq!(d.ending, PrivateRetainedEnding::Refused(4));
    assert!(d.retries_exhausted);
    let shutdown_only = PrivateServingReading { shutdown_refused: Some(9), ..quiet_reading() };
    assert_eq!(serving_disposition(None, &shutdown_only).ending, PrivateRetainedEnding::Refused(9));
    let ended = PrivateServingReading { ending_ended: true, ..reading };
    assert_eq!(serving_disposition(None, &ended).ending, PrivateRetainedEnding::Ended);
}

#[test]
fn a_serving_owner_settles_only_closed_out_and_fenced() {
    let closed = PrivateServingReading {
        closing: Some(PrivateServingClosing {
            termination: PrivateCloseTermination::Established,
            drained: true,
            attempts_spent: true,
        }),
        unterminated: false,
        ..quiet_reading()
    };
    let d = serving_disposition(Some(PrivateHandoverFence::AlreadyEstablished), &closed);
    assert!(d.settled && d.drained && !d.retries_exhausted);
    assert!(!serving_disposition(None, &closed).settled);
    let holding = PrivateServingReading { in_flight: true, ..closed };
    assert!(!serving_disposition(Some(PrivateHandoverFence::Established), &holding).settled);
    let live = PrivateServingReading { unterminated: true, ..closed };
    assert!(!serving_disposition(Some(PrivateHandoverFence::Established), &live).settled);
}

use sophia_x_authority::ordered_continuation::{keep_received, may_receive};

#[test]
fn a_receive_keeps_every_capsule_and_drains_only_on_disconnect() {
    let mut retained = vec![1u32];
    let mut drained = false;
    keep_received(&mut retained, &mut drained, PrivateReceived::Capsule(2));
    assert_eq!((retained.clone(), drained), (vec![1, 2], false));
    keep_received(&mut retained, &mut drained, PrivateReceived::Empty);
    assert_eq!((retained.clone(), drained), (vec![1, 2], false));
    keep_received(&mut retained, &mut drained, PrivateReceived::Disconnected);
    assert_eq!((retained, drained), (vec![1, 2], true));
}

#[test]
fn a_visit_receives_only_below_the_queue_capacity() {
    assert!(may_receive(0, 1));
    assert!(!may_receive(1, 1));
    assert!(!may_receive(3, 2));
    assert!(!may_receive(0, 0));
}
