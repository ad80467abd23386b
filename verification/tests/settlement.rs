use std::cell::RefCell;
use std::rc::Rc;

use sophia_x_authority::settlement::{
    carried_work_ended, decide_ownership, ownership_of, settle_one, AdmissionRefusal, ControlRecordState,
    DriveProgress, PrivateControlCommand, PrivateControlRejection, PrivateIdentity, PrivateOperation,
    PrivateRouteRegistry, PrivateSettlementOwner, SettlementOwnership,
};
use sophia_x_authority::settlement::{settlement_effect, sweep_disposition, PrivateSettlementEffect, SweepDisposition};

#[derive(Clone)]
struct Registry {
    client: Option<u64>,
    accept: bool,
    ended: bool,
    control: Option<ControlRecordState>,
    discard: bool,
    log: Rc<RefCell<Vec<String>>>,
}

impl Registry {
    fn accepting() -> Self {
        Registry {
            client: Some(4),
            accept: true,
            ended: false,
            control: None,
            discard: false,
            log: Rc::new(RefCell::new(Vec::new())),
        }
    }
}

impl PrivateRouteRegistry for Registry {
    fn control_state(&self, _token: u64) -> Option<ControlRecordState> {
        self.control
    }

    fn discard_control(&self, token: u64) -> bool {
        self.log.borrow_mut().push(format!("discard {token}"));
        self.discard
    }

    fn surface_client(&self, _surface: u64) -> Option<u64> {
        self.client
    }

    fn send_route_rejected(&self, client: u64, delivery: Option<u64>) -> bool {
        self.log.borrow_mut().push(format!("rejected {client} {delivery:?}"));
        self.accept
    }

    fn send_control_rejection(&self, acknowledgement: PrivateControlRejection) -> bool {
        self.log.borrow_mut().push(format!(
            "control {} {} {} {}",
            acknowledgement.client, acknowledgement.kind, acknowledgement.transaction, acknowledgement.surface
        ));
        self.accept
    }

    fn release_route_lease(&self, lease: u64) -> bool {
        self.log.borrow_mut().push(format!("lease {lease}"));
        self.accept
    }

    fn delivery_ended(&self, _delivery: u64) -> bool {
        self.ended
    }

    fn reconcile_unstarted(&self) {}
}

fn control(completion: Option<u64>) -> PrivateOperation {
    PrivateOperation::Control {
        command: PrivateControlCommand { client: 4, kind: 2, transaction: 9, surface: 11 },
        completion,
    }
}

#[test]
fn progress_is_what_was_answered_or_reclaimed() {
    assert!(!DriveProgress { readable: true, answered: 0, reclaimed: 0 }.made_progress());
    assert!(DriveProgress { readable: true, answered: 1, reclaimed: 0 }.made_progress());
    assert!(DriveProgress { readable: true, answered: 0, reclaimed: 2 }.made_progress());
}

#[test]
fn only_a_control_record_can_be_owned_elsewhere() {
    let routed = PrivateOperation::RoutedInput { target_surface: 1, delivery: Some(2) };
    assert_eq!(decide_ownership(&routed, None, false), SettlementOwnership::Ours);
    assert_eq!(decide_ownership(&control(Some(5)), None, false), SettlementOwnership::Unprovable);
    assert_eq!(
        decide_ownership(&control(Some(5)), Some(ControlRecordState::Retired), false),
        SettlementOwnership::Ours
    );
    assert_eq!(
        decide_ownership(&control(Some(5)), Some(ControlRecordState::Outstanding), false),
        SettlementOwnership::Elsewhere
    );
    assert_eq!(
        decide_ownership(&control(Some(5)), Some(ControlRecordState::Outstanding), true),
        SettlementOwnership::Ours
    );
    assert_eq!(
        decide_ownership(&control(Some(5)), Some(ControlRecordState::Unanswerable), true),
        SettlementOwnership::Unprovable
    );
    assert_eq!(decide_ownership(&control(None), None, false), SettlementOwnership::Ours);
}

#[test]
fn an_outstanding_control_record_is_taken_before_answering() {
    let mut registry = Registry::accepting();
    registry.control = Some(ControlRecordState::Outstanding);
    registry.discard = true;
    assert_eq!(ownership_of(&registry, &control(Some(5))), SettlementOwnership::Ours);
    assert_eq!(registry.log.borrow().clone(), vec!["discard 5".to_string()]);
    assert_eq!(ownership_of(&registry, &PrivateOperation::LeaseRelease { lease: 3 }), SettlementOwnership::Ours);
}

#[test]
fn settling_answers_each_kind_through_its_registry() {
    let registry = Registry::accepting();
    assert!(settle_one(&registry, &PrivateOperation::RoutedInput { target_surface: 1, delivery: Some(2) }));
    assert!(settle_one(&registry, &control(Some(5))));
    assert!(settle_one(&registry, &PrivateOperation::LeaseRelease { lease: 3 }));
    assert_eq!(
        registry.log.borrow().clone(),
        vec!["rejected 4 Some(2)".to_string(), "control 4 2 9 11".to_string(), "lease 3".to_string()]
    );
}

#[test]
fn an_unresolved_surface_is_not_answered() {
    let mut registry = Registry::accepting();
    registry.client = None;
    assert!(!settle_one(&registry, &PrivateOperation::RoutedInput { target_surface: 1, delivery: Some(2) }));
    assert!(registry.log.borrow().is_empty());
}

#[test]
fn only_observable_work_can_be_seen_ended() {
    let mut registry = Registry::accepting();
    registry.ended = true;
    registry.control = Some(ControlRecordState::Retired);
    assert!(carried_work_ended(&registry, &PrivateIdentity::Delivery(Some(3))));
    assert!(!carried_work_ended(&registry, &PrivateIdentity::Delivery(None)));
    assert!(carried_work_ended(&registry, &PrivateIdentity::Control { transaction: 1, completion: Some(2) }));
    assert!(!carried_work_ended(&registry, &PrivateIdentity::Control { transaction: 1, completion: None }));
    assert!(!carried_work_ended(&registry, &PrivateIdentity::Lease(7)));
}

#[test]
fn credits_are_bounded_and_given_back() {
    let mut owner: PrivateSettlementOwner<Registry, u8> = PrivateSettlementOwner::with_capacity(2);
    assert_eq!(owner.reserve(), Ok(()));
    assert_eq!(owner.reserve(), Ok(()));
    assert_eq!(owner.reserve(), Err(AdmissionRefusal::Saturated));
    owner.release();
    assert_eq!(owner.reserved(), Some(1));
    assert_eq!(owner.reserve(), Ok(()));
}

#[test]
fn drive_answers_and_frees_only_what_it_discharged() {
    let mut owner: PrivateSettlementOwner<Registry, u8> = PrivateSettlementOwner::with_capacity(4);
    let accepting = Registry::accepting();
    let mut refusing = Registry::accepting();
    refusing.accept = false;
    owner.reserve().unwrap();
    owner.reserve().unwrap();
    owner.take_one(accepting.clone(), PrivateOperation::LeaseRelease { lease: 3 });
    owner.take_one(refusing, PrivateOperation::LeaseRelease { lease: 4 });
    let progress = owner.drive();
    assert_eq!(progress, DriveProgress { readable: true, answered: 1, reclaimed: 0 });
    assert_eq!(owner.owed(), Some(1));
    assert_eq!(owner.reserved(), Some(1));
}

#[test]
fn ended_work_is_reclaimed_not_answered() {
    let mut owner: PrivateSettlementOwner<Registry, u8> = PrivateSettlementOwner::with_capacity(4);
    let mut registry = Registry::accepting();
    registry.ended = true;
    owner.reserve().unwrap();
    owner.take_one_outstanding(registry, PrivateIdentity::Delivery(Some(8)));
    assert_eq!(owner.outstanding(), Some(1));
    assert_eq!(owner.drive(), DriveProgress { readable: true, answered: 0, reclaimed: 1 });
    assert_eq!(owner.outstanding(), Some(0));
    assert_eq!(owner.reserved(), Some(0));
}

#[test]
fn an_unreadable_owner_says_so() {
    let mut owner: PrivateSettlementOwner<Registry, u8> = PrivateSettlementOwner::with_capacity(2);
    owner.mark_poisoned();
    assert_eq!(owner.owed(), None);
    assert_eq!(owner.reserve(), Err(AdmissionRefusal::Unavailable));
    assert_eq!(owner.drive(), DriveProgress { readable: false, answered: 0, reclaimed: 0 });
    assert_eq!(owner.recover_failed(), None);
}

#[test]
fn restoring_twice_returns_nothing_the_second_time() {
    let mut owner: PrivateSettlementOwner<Registry, u8> = PrivateSettlementOwner::with_capacity(2);
    assert_eq!(owner.restore_interrupted(), 0);
    assert_eq!(owner.restore_interrupted(), 0);
}

#[test]
fn an_indeterminate_obligation_keeps_its_credit() {
    let mut owner: PrivateSettlementOwner<Registry, u8> = PrivateSettlementOwner::with_capacity(2);
    owner.reserve().unwrap();
    owner.take_indeterminate(Registry::accepting(), PrivateOperation::LeaseRelease { lease: 3 });
    assert_eq!(owner.drive(), DriveProgress { readable: true, answered: 0, reclaimed: 0 });
    assert_eq!(owner.indeterminate(), Some(1));
    assert_eq!(owner.reserved(), Some(1));
}

#[test]
fn failed_instances_are_recovered_once() {
    let mut owner: PrivateSettlementOwner<Registry, u8> = PrivateSettlementOwner::with_capacity(1);
    assert_eq!(owner.reserve_failure_slot(), Ok(()));
    assert_eq!(owner.reserve_failure_slot(), Err(AdmissionRefusal::Saturated));
    owner.take_failed_instance(Registry::accepting(), vec![PrivateOperation::LeaseRelease { lease: 3 }], vec![]);
    assert_eq!(owner.failed_instances(), Some(1));
    assert_eq!(owner.recover_failed(), Some(1));
    assert_eq!(owner.failed_instances(), Some(0));
    assert_eq!(owner.failure_slots_charged(), Some(0));
    assert_eq!(owner.recover_failed(), Some(0));
}

#[test]
fn an_instance_over_an_uncollected_worker_stands() {
    let mut owner: PrivateSettlementOwner<Registry, u8> = PrivateSettlementOwner::with_capacity(1);
    owner.reserve_failure_slot().unwrap();
    owner.take_failed_instance(Registry::accepting(), vec![PrivateOperation::LeaseRelease { lease: 3 }], vec![2]);
    assert_eq!(owner.recover_failed(), Some(0));
    assert_eq!(owner.failed_instances(), Some(1));
    assert_eq!(owner.failure_slots_charged(), Some(1));
    let uncollected: Vec<Vec<usize>> = owner.uncollected_instances().unwrap();
    assert_eq!(uncollected, vec![vec![2]]);
}

#[test]
fn continuation_places_follow_the_declared_bound() {
    let mut owner: PrivateSettlementOwner<Registry, u8> = PrivateSettlementOwner::with_capacities(2, 1);
    assert!(owner.reserve_ordered_continuation().is_ok());
    assert!(matches!(owner.reserve_ordered_continuation(), Err(AdmissionRefusal::Saturated)));
    assert_eq!(owner.continuations_reserved(), Some(1));
    assert_eq!(owner.continuations_abandoned(), Some(0));
    assert_eq!(owner.declare_connection_bound(5), Some(1));
}

#[test]
fn each_obligation_maps_to_its_one_effect() {
    let routed = PrivateOperation::RoutedInput { target_surface: 5, delivery: Some(11) };
    assert_eq!(
        settlement_effect(&routed, Some(3)),
        Some(PrivateSettlementEffect::RouteRejected { client: 3, delivery: Some(11) })
    );
    assert_eq!(settlement_effect(&routed, None), None);
    let command = PrivateControlCommand { client: 2, kind: 7, transaction: 40, surface: 6 };
    assert_eq!(
        settlement_effect(&PrivateOperation::Control { command, completion: Some(1) }, None),
        Some(PrivateSettlementEffect::ControlRejected(PrivateControlRejection {
            client: 2,
            kind: 7,
            transaction: 40,
            surface: 6
        }))
    );
    assert_eq!(
        settlement_effect(&PrivateOperation::LeaseRelease { lease: 9 }, Some(3)),
        Some(PrivateSettlementEffect::LeaseReleased(9))
    );
}

#[test]
fn each_obligation_is_disposed_of_by_its_answers() {
    assert_eq!(sweep_disposition(SettlementOwnership::Elsewhere, true), SweepDisposition::HandedOn);
    assert_eq!(sweep_disposition(SettlementOwnership::Unprovable, true), SweepDisposition::Kept);
    assert_eq!(sweep_disposition(SettlementOwnership::Ours, false), SweepDisposition::Kept);
    assert_eq!(sweep_disposition(SettlementOwnership::Ours, true), SweepDisposition::Answered);
}
