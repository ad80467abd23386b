use std::collections::VecDeque;

use sophia_x_authority::ordered_turn::{
    turn_decision, PrivateOrderError, PrivateOrderGate, PrivateOrderedEffects, PrivateOrderedItem,
    PrivateOrderedStep, PrivateRoutingPoint,
};
use sophia_x_authority::producer_port::{
    answered, ask_gate, handoff_refusal, readiness_step, PrivatePortStanding, PrivatePortState,
    PrivateProducerRefusal, PrivateRequestHandoff, PrivateServiceRefusal,
};
use sophia_x_authority::admission::PrivateAdmissionRefusal;
use sophia_x_authority::runner::{keyboard_refusal, preparation_refusal, PrivateKeyboardsRefusal, PrivateRunnerRefusal};
use sophia_x_authority::settlement::{PrivateControlCommand, PrivateIdentity, PrivateOperation};

struct Effects {
    queue: VecDeque<(u64, PrivateOperation, Option<&'static str>)>,
    start_refusal: Option<u32>,
    watch: bool,
    finish: bool,
    run_refusal: Option<u32>,
    ran: Vec<PrivateOperation>,
    executed: Vec<u64>,
}

impl Effects {
    fn new(queue: Vec<(u64, PrivateOperation, Option<&'static str>)>) -> Self {
        Effects {
            queue: queue.into_iter().collect(),
            start_refusal: None,
            watch: true,
            finish: true,
            run_refusal: None,
            ran: Vec::new(),
            executed: Vec::new(),
        }
    }
}

impl PrivateOrderedEffects<&'static str, u32> for Effects {
    fn frozen_first(&mut self) -> bool {
        false
    }

    fn resume_frozen(&mut self) -> Result<PrivateOrderedStep, u32> {
        Ok(PrivateOrderedStep::Idle)
    }

    fn take_next(&mut self) -> Result<Option<(u64, PrivateOperation, Option<&'static str>)>, ()> {
        Ok(self.queue.pop_front())
    }

    fn start(&self, _sequence: u64) -> Result<(), u32> {
        match self.start_refusal {
            Some(code) => Err(code),
            None => Ok(()),
        }
    }

    fn begin_watch(&mut self) -> bool {
        self.watch
    }

    fn run_one(&mut self, operation: PrivateOperation) -> Result<(), u32> {
        self.ran.push(operation);
        match self.run_refusal {
            Some(code) => Err(code),
            None => Ok(()),
        }
    }

    fn finish_watch(&mut self) -> bool {
        self.finish
    }

    fn execute_current(
        &mut self,
        current: &mut Option<PrivateOrderedItem<&'static str>>,
        turn: &mut Vec<PrivateOrderedItem<&'static str>>,
        sequence: u64,
    ) -> Result<PrivateOrderedStep, u32> {
        self.executed.push(sequence);
        if let Some(PrivateOrderedItem::Refused { sequence, work }) = current.take() {
            turn.push(PrivateOrderedItem::Ran { sequence, work });
        }
        Ok(PrivateOrderedStep::Decided(sequence))
    }
}

fn input(delivery: u64) -> PrivateOperation {
    PrivateOperation::RoutedInput { target_surface: 1, delivery: Some(delivery) }
}

fn lease(lease: u64) -> PrivateOperation {
    PrivateOperation::LeaseRelease { lease }
}

fn control(transaction: u64) -> PrivateOperation {
    PrivateOperation::Control {
        command: PrivateControlCommand { client: 4, kind: 1, transaction, surface: 2 },
        completion: Some(transaction + 100),
    }
}

#[test]
fn every_item_kind_has_its_sequence() {
    assert_eq!(PrivateOrderedItem::Ran { sequence: 3, work: "a" }.sequence(), 3);
    assert_eq!(PrivateOrderedItem::Refused { sequence: 4, work: "b" }.sequence(), 4);
    assert_eq!(PrivateOrderedItem::<&str>::Parked { sequence: 5 }.sequence(), 5);
    assert_ne!(PrivateRoutingPoint::AfterAdmitted, PrivateRoutingPoint::AfterEffect);
}

#[test]
fn reserved_input_is_executed() {
    let mut order: PrivateOrderGate<&'static str> = PrivateOrderGate::new();
    let mut effects = Effects::new(vec![(1, input(9), Some("work"))]);
    assert_eq!(order.step_once_accounted(&mut effects), Ok(PrivateOrderedStep::Decided(1)));
    assert_eq!(effects.executed, vec![1]);
    assert_eq!(order.blocked(), None);
    let turn = order.take_interrupted_turn();
    assert_eq!(turn.len(), 1);
    assert_eq!(turn[0].sequence(), 1);
}

#[test]
fn unreserved_input_is_parked_and_blocks_the_order() {
    let mut order: PrivateOrderGate<&'static str> = PrivateOrderGate::new();
    let mut effects = Effects::new(vec![(1, input(9), None), (2, input(10), Some("later"))]);
    assert_eq!(order.step_once_accounted(&mut effects), Ok(PrivateOrderedStep::Parked(1)));
    assert_eq!(order.parked(), Some(1));
    assert_eq!(order.blocked(), Some(1));
    // Nothing behind it runs.
    assert_eq!(order.step_once_accounted(&mut effects), Ok(PrivateOrderedStep::Blocked(1)));
    assert_eq!(effects.queue.len(), 1);
    // Handing it over does not lift the barrier.
    assert_eq!(order.take_parked(), Some((1, input(9))));
    assert_eq!(order.parked(), None);
    assert_eq!(order.step_once_accounted(&mut effects), Ok(PrivateOrderedStep::Blocked(1)));
}

#[test]
fn a_lease_release_is_routed_with_its_identity_outstanding() {
    let mut order: PrivateOrderGate<&'static str> = PrivateOrderGate::new();
    let mut effects = Effects::new(vec![(4, lease(77), None)]);
    assert_eq!(order.step_once_accounted(&mut effects), Ok(PrivateOrderedStep::Routed(4)));
    assert_eq!(effects.ran, vec![lease(77)]);
    assert_eq!(order.outstanding(), &vec![PrivateIdentity::Lease(77)]);
    assert_eq!(order.blocked(), None);
    assert_eq!(order.routing_attempt(), None);
}

#[test]
fn a_routed_control_unwatched_at_its_finish_is_still_routed() {
    let mut order: PrivateOrderGate<&'static str> = PrivateOrderGate::new();
    let mut effects = Effects::new(vec![(6, control(5), None)]);
    effects.finish = false;
    assert_eq!(order.step_once_accounted(&mut effects), Ok(PrivateOrderedStep::RoutedUnwatched(6)));
    assert_eq!(order.outstanding(), &vec![PrivateIdentity::Control { transaction: 5, completion: Some(105) }]);
}

#[test]
fn an_unwatched_control_stays_parked_unattempted() {
    let mut order: PrivateOrderGate<&'static str> = PrivateOrderGate::new();
    let mut effects = Effects::new(vec![(6, control(5), None)]);
    effects.watch = false;
    assert_eq!(order.step_once_accounted(&mut effects), Ok(PrivateOrderedStep::Unwatched(6)));
    assert!(effects.ran.is_empty());
    assert!(order.outstanding().is_empty());
    assert_eq!(order.parked(), Some(6));
    assert_eq!(order.blocked(), Some(6));
}

#[test]
fn a_failed_effect_still_owes_its_credit_once() {
    let mut order: PrivateOrderGate<&'static str> = PrivateOrderGate::new();
    let mut effects = Effects::new(vec![(6, lease(3), None)]);
    effects.run_refusal = Some(12);
    assert_eq!(order.step_once_accounted(&mut effects), Err(PrivateOrderError::Effect(12)));
    assert_eq!(order.outstanding(), &vec![PrivateIdentity::Lease(3)]);
    assert_eq!(order.blocked(), None);
}

#[test]
fn a_refused_start_keeps_the_work_owned() {
    let mut order: PrivateOrderGate<&'static str> = PrivateOrderGate::new();
    let mut effects = Effects::new(vec![(2, lease(3), None)]);
    effects.start_refusal = Some(1);
    assert_eq!(order.step_once_accounted(&mut effects), Err(PrivateOrderError::Effect(1)));
    assert_eq!(order.parked(), Some(2));
    assert_eq!(order.blocked(), Some(2));
    assert!(effects.ran.is_empty());
}

#[test]
fn an_item_left_current_refuses_the_next_step() {
    let mut order: PrivateOrderGate<&'static str> = PrivateOrderGate::new();
    order.store_current(PrivateOrderedItem::Refused { sequence: 1, work: "w" });
    let mut effects = Effects::new(vec![(2, lease(3), None)]);
    assert_eq!(order.step_once_accounted(&mut effects), Err(PrivateOrderError::OrderedItemUnresolved));
    assert_eq!(effects.queue.len(), 1);
    assert!(order.take_current().is_some());
}

#[test]
fn a_pending_turn_reports_the_parked_head_and_stops() {
    let mut order: PrivateOrderGate<&'static str> = PrivateOrderGate::new();
    let mut effects = Effects::new(vec![(1, input(1), Some("a")), (2, input(2), None), (3, input(3), Some("c"))]);
    let turn = order.route_pending_ordered(8, &mut effects).unwrap();
    let sequences: Vec<u64> = turn.iter().map(|item| item.sequence()).collect();
    assert_eq!(sequences, vec![1, 2]);
    assert!(matches!(turn[1], PrivateOrderedItem::Parked { sequence: 2 }));
    assert_eq!(effects.queue.len(), 1);
    let again = order.route_pending_ordered(8, &mut effects).unwrap();
    assert_eq!(again.len(), 1);
    assert!(matches!(again[0], PrivateOrderedItem::Parked { sequence: 2 }));
}

#[test]
fn turn_decisions() {
    assert_eq!(turn_decision(PrivateOrderedStep::Idle), (None, true));
    assert_eq!(turn_decision(PrivateOrderedStep::Blocked(3)), (Some(3), true));
    assert_eq!(turn_decision(PrivateOrderedStep::Unwatched(4)), (Some(4), true));
    assert_eq!(turn_decision(PrivateOrderedStep::Routed(5)), (None, false));
    assert_eq!(turn_decision(PrivateOrderedStep::Resumed { sequence: 1, deferred: true, watched: false }), (None, true));
    assert_eq!(turn_decision(PrivateOrderedStep::Deferred { sequence: 1, watched: true }), (None, false));
}

#[test]
fn a_port_refuses_before_readiness_and_after_closing() {
    let mut port = PrivatePortState::for_service();
    assert_eq!(port.standing(), PrivatePortStanding::NotReady);
    assert_eq!(ask_gate(port.standing()), Err(PrivateProducerRefusal::NotReady));
    port.publish_ready();
    assert_eq!(ask_gate(port.standing()), Ok(()));
    port.close();
    port.close();
    assert_eq!(port.standing(), PrivatePortStanding::Ended);
    assert_eq!(ask_gate(port.standing()), Err(PrivateProducerRefusal::Ended));
    port.set(PrivatePortStanding::Ready);
    assert_eq!(port.standing(), PrivatePortStanding::Ready);
}

#[test]
fn waiting_for_readiness() {
    assert_eq!(readiness_step(PrivatePortStanding::Ready, true), Some(Ok(())));
    assert_eq!(readiness_step(PrivatePortStanding::Ended, false), Some(Err(PrivateProducerRefusal::Ended)));
    assert_eq!(
        readiness_step(PrivatePortStanding::NotReady, true),
        Some(Err(PrivateProducerRefusal::ReadinessTimedOut))
    );
    assert_eq!(readiness_step(PrivatePortStanding::NotReady, false), None);
}

#[test]
fn handing_a_request_over() {
    assert_eq!(handoff_refusal(PrivateRequestHandoff::Queued), None);
    assert_eq!(handoff_refusal(PrivateRequestHandoff::Full), Some(PrivateProducerRefusal::Backlogged));
    assert_eq!(handoff_refusal(PrivateRequestHandoff::Disconnected), Some(PrivateProducerRefusal::Ended));
    assert_eq!(answered::<u8>(None), Err(PrivateProducerRefusal::Unanswered));
    assert_eq!(answered(Some(Ok(5u8))), Ok(5));
    let refused = PrivateProducerRefusal::Runner(PrivateServiceRefusal::Admission(PrivateAdmissionRefusal::NotAdmitted));
    assert_eq!(answered::<u8>(Some(Err(refused))), Err(refused));
    assert_ne!(PrivateProducerRefusal::ForeignServiceOwner, PrivateProducerRefusal::Runner(PrivateServiceRefusal::ForeignServiceOwner));
}

#[test]
fn preparation_refusals_come_in_order() {
    assert_eq!(preparation_refusal(true, false, true), Some(PrivateRunnerRefusal::ProducerAlreadyExposed));
    assert_eq!(preparation_refusal(false, false, true), Some(PrivateRunnerRefusal::ForeignServiceOwner));
    assert_eq!(preparation_refusal(false, true, true), Some(PrivateRunnerRefusal::AlreadyPrepared));
    assert_eq!(preparation_refusal(false, true, false), None);
}

#[test]
fn keyboard_preparation_refusals() {
    assert_eq!(
        keyboard_refusal(Err(PrivateKeyboardsRefusal::KeymapUnavailable), true),
        Some(PrivateRunnerRefusal::Keyboard(PrivateKeyboardsRefusal::KeymapUnavailable))
    );
    assert_eq!(
        keyboard_refusal(Ok(()), false),
        Some(PrivateRunnerRefusal::Keyboard(PrivateKeyboardsRefusal::KeymapUnavailable))
    );
    assert_eq!(keyboard_refusal(Ok(()), true), None);
    assert_ne!(PrivateRunnerRefusal::StateUnavailable, PrivateRunnerRefusal::AlreadyPrepared);
}

#[test]
fn work_is_stored_before_its_start_is_offered() {
    let mut order: PrivateOrderGate<&'static str> = PrivateOrderGate::new();
    let mut effects = Effects::new(vec![(4, input(8), Some("reserved"))]);
    effects.start_refusal = Some(2);
    assert_eq!(order.take_and_start(&mut effects), Err(PrivateOrderError::Effect(2)));
    assert_eq!(order.parked(), None);
    assert!(order.step_once_accounted(&mut effects).is_err());
    let mut empty: PrivateOrderGate<&'static str> = PrivateOrderGate::new();
    let mut nothing = Effects::new(Vec::new());
    assert_eq!(empty.take_and_start(&mut nothing), Ok(None));
    let mut unreserved = Effects::new(vec![(6, input(1), None)]);
    assert_eq!(empty.take_and_start(&mut unreserved), Ok(Some((6, Some(PrivateOrderedStep::Parked(6))))));
    assert_eq!(empty.blocked(), Some(6));
}
