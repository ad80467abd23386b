use std::cell::RefCell;

use sophia_x_authority::settlement::{
    ControlRecordState, PrivateControlCommand, PrivateControlRejection, PrivateIdentity, PrivateOperation,
    PrivateRouteRegistry, PrivateSettlementOwner,
};
use sophia_x_authority::settlement_handle::PrivateSettlement;

#[derive(Clone, Copy)]
struct Registry<'a> {
    client: Option<u64>,
    accept: bool,
    ended: bool,
    control: Option<ControlRecordState>,
    discard: bool,
    log: &'a RefCell<Vec<String>>,
}

impl<'a> Registry<'a> {
    fn accepting(log: &'a RefCell<Vec<String>>) -> Self {
        Registry { client: Some(4), accept: true, ended: false, control: None, discard: false, log }
    }
}

impl<'a> PrivateRouteRegistry for Registry<'a> {
    fn control_state(&self, _token: u64) -> Option<ControlRecordState> {
        self.control
    }

    fn discard_control(&self, token: u64) -> bool {
        self.log.borrow_mut().push(format!("discard {token}"));
        self.discard
    }

    fn surface_client(&self, _surface: u64) -> Option<u64> {
        self.client
    }

    fn send_route_rejected(&self, client: u64, delivery: Option<u64>) -> bool {
        self.log.borrow_mut().push(format!("rejected {client} {delivery:?}"));
        self.accept
    }

    fn send_control_rejection(&self, acknowledgement: PrivateControlRejection) -> bool {
        self.log.borrow_mut().push(format!("control {}", acknowledgement.transaction));
        self.accept
    }

    fn release_route_lease(&self, lease: u64) -> bool {
        self.log.borrow_mut().push(format!("lease {lease}"));
        self.accept
    }

    fn delivery_ended(&self, _delivery: u64) -> bool {
        self.ended
    }

    fn reconcile_unstarted(&self) {}
}

fn control(completion: Option<u64>) -> PrivateOperation {
    PrivateOperation::Control {
        command: PrivateControlCommand { client: 4, kind: 2, transaction: 9, surface: 11 },
        completion,
    }
}

fn owner_with_credits<'a>(credits: usize) -> PrivateSettlementOwner<Registry<'a>, u64> {
    let mut owner = PrivateSettlementOwner::with_capacity(8);
    for _ in 0..credits {
        owner.reserve().unwrap();
    }
    owner
}

#[test]
fn retry_answers_pending_work_and_frees_its_credits() {
    let log = RefCell::new(Vec::new());
    let registry = Registry::accepting(&log);
    let mut durable = owner_with_credits(2);
    let pending = vec![
        PrivateOperation::RoutedInput { target_surface: 1, delivery: Some(3) },
        PrivateOperation::LeaseRelease { lease: 7 },
    ];
    let mut settlement = PrivateSettlement::new(registry, pending, Vec::new());
    assert!(!settlement.is_settled());
    assert_eq!(settlement.owed(), 2);
    assert_eq!(settlement.retry(&mut durable), 2);
    assert_eq!(settlement.owed(), 0);
    assert!(settlement.is_settled());
    assert_eq!(durable.reserved(), Some(0));
    // Worked from the end, in place.
    assert_eq!(*log.borrow(), vec!["lease 7".to_string(), "rejected 4 Some(3)".to_string()]);
}

#[test]
fn retry_keeps_what_it_could_not_answer_and_answers_nothing_twice() {
    let log = RefCell::new(Vec::new());
    let mut registry = Registry::accepting(&log);
    registry.accept = false;
    let mut durable = owner_with_credits(2);
    let pending = vec![PrivateOperation::LeaseRelease { lease: 1 }, PrivateOperation::LeaseRelease { lease: 2 }];
    let mut settlement = PrivateSettlement::new(registry, pending, Vec::new());
    assert_eq!(settlement.retry(&mut durable), 0);
    assert_eq!(settlement.owed(), 2);
    assert_eq!(settlement.retry(&mut durable), 0);
    assert_eq!(settlement.owed(), 2);
    assert_eq!(durable.reserved(), Some(2));
}

#[test]
fn work_another_record_answers_leaves_as_an_identity_with_its_credit() {
    let log = RefCell::new(Vec::new());
    let mut registry = Registry::accepting(&log);
    registry.control = Some(ControlRecordState::Outstanding);
    registry.discard = false;
    let mut durable = owner_with_credits(1);
    let mut settlement = PrivateSettlement::new(registry, vec![control(Some(5))], Vec::new());
    assert_eq!(settlement.retry(&mut durable), 0);
    assert_eq!(settlement.owed(), 0);
    assert_eq!(durable.outstanding(), Some(1));
    assert_eq!(durable.reserved(), Some(1));
    assert_eq!(*log.borrow(), vec!["discard 5".to_string()]);
}

#[test]
fn unprovable_ownership_keeps_the_obligation() {
    let log = RefCell::new(Vec::new());
    let mut registry = Registry::accepting(&log);
    registry.control = None;
    let mut durable = owner_with_credits(1);
    let mut settlement = PrivateSettlement::new(registry, vec![control(Some(5))], Vec::new());
    assert_eq!(settlement.retry(&mut durable), 0);
    assert_eq!(settlement.owed(), 1);
    assert!(log.borrow().is_empty());
}

#[test]
fn reclaim_releases_only_work_that_ended() {
    let log = RefCell::new(Vec::new());
    let mut registry = Registry::accepting(&log);
    registry.ended = true;
    let mut durable = owner_with_credits(3);
    let outstanding = vec![
        PrivateIdentity::Delivery(Some(3)),
        PrivateIdentity::Delivery(None),
        PrivateIdentity::Lease(2),
    ];
    let mut settlement = PrivateSettlement::new(registry, Vec::new(), outstanding);
    assert_eq!(settlement.outstanding(), 3);
    assert_eq!(settlement.reclaim_outstanding(&mut durable), 1);
    assert_eq!(settlement.outstanding(), 2);
    assert_eq!(durable.reserved(), Some(2));
    assert!(!settlement.is_settled());
}

#[test]
fn reclaim_keeps_live_work() {
    let log = RefCell::new(Vec::new());
    let registry = Registry::accepting(&log);
    let mut durable = owner_with_credits(1);
    let mut settlement = PrivateSettlement::new(registry, Vec::new(), vec![PrivateIdentity::Delivery(Some(3))]);
    assert_eq!(settlement.reclaim_outstanding(&mut durable), 0);
    assert_eq!(settlement.outstanding(), 1);
    assert_eq!(durable.reserved(), Some(1));
}

#[test]
fn abandoning_hands_everything_to_the_durable_owner() {
    let log = RefCell::new(Vec::new());
    let mut registry = Registry::accepting(&log);
    registry.accept = false;
    let mut durable = owner_with_credits(3);
    let settlement = PrivateSettlement::new(
        registry,
        vec![PrivateOperation::LeaseRelease { lease: 4 }],
        vec![PrivateIdentity::Delivery(Some(3)), PrivateIdentity::Lease(2)],
    );
    settlement.abandon(&mut durable);
    assert_eq!(durable.outstanding(), Some(2));
    assert_eq!(durable.owed(), Some(1));
    assert_eq!(durable.reserved(), Some(3));
    assert_eq!(*log.borrow(), vec!["lease 4".to_string()]);
}

#[test]
fn abandoning_answers_what_one_attempt_can() {
    let log = RefCell::new(Vec::new());
    let registry = Registry::accepting(&log);
    let mut durable = owner_with_credits(1);
    let settlement = PrivateSettlement::new(registry, vec![PrivateOperation::LeaseRelease { lease: 4 }], Vec::new());
    settlement.abandon(&mut durable);
    assert_eq!(durable.owed(), Some(0));
    assert_eq!(durable.reserved(), Some(0));
}

#[test]
fn an_unreadable_queue_is_handed_over_as_a_failed_instance() {
    let log = RefCell::new(Vec::new());
    let registry = Registry::accepting(&log);
    let mut durable = owner_with_credits(1);
    let settlement = PrivateSettlement::unreadable(
        registry,
        vec![PrivateOperation::LeaseRelease { lease: 4 }],
        vec![PrivateIdentity::Lease(9)],
    );
    assert!(settlement.queue_unreadable());
    assert!(!settlement.is_settled());
    assert_eq!(settlement.owed(), 0);
    settlement.abandon(&mut durable);
    assert_eq!(durable.failed_instances(), Some(1));
    assert_eq!(durable.outstanding(), Some(1));
    assert!(log.borrow().is_empty());
}

#[test]
fn a_settled_handle_hands_over_nothing() {
    let log = RefCell::new(Vec::new());
    let registry = Registry::accepting(&log);
    let mut durable = owner_with_credits(0);
    let settlement = PrivateSettlement::new(registry, Vec::new(), Vec::new());
    assert!(settlement.is_settled());
    settlement.abandon(&mut durable);
    assert_eq!(durable.owed(), Some(0));
    assert_eq!(durable.outstanding(), Some(0));
    assert_eq!(durable.failed_instances(), Some(0));
}
