use sophia_x_authority::settlement::{
    ControlRecordState, PrivateControlCommand, PrivateControlRejection, PrivateIdentity, PrivateOperation,
    PrivateRouteRegistry, PrivateSettlementOwner, SettlementOwnership,
};
use sophia_x_authority::shutdown_handover::{hand_over_cancelled, hand_over_parked, stranded_tokens};

#[derive(Clone)]
struct Records {
    state: Option<ControlRecordState>,
    discards: bool,
}

impl PrivateRouteRegistry for Records {
    fn control_state(&self, _token: u64) -> Option<ControlRecordState> {
        self.state
    }
    fn discard_control(&self, _token: u64) -> bool {
        self.discards
    }
    fn surface_client(&self, _surface: u64) -> Option<u64> {
        None
    }
    fn send_route_rejected(&self, _client: u64, _delivery: Option<u64>) -> bool {
        false
    }
    fn send_control_rejection(&self, _acknowledgement: PrivateControlRejection) -> bool {
        false
    }
    fn release_route_lease(&self, _lease: u64) -> bool {
        false
    }
    fn delivery_ended(&self, _delivery: u64) -> bool {
        false
    }
    fn reconcile_unstarted(&self) {}
}

fn command(transaction: u64) -> PrivateControlCommand {
    PrivateControlCommand { client: 1, kind: 2, transaction, surface: 3 }
}

#[test]
fn a_free_parked_control_is_carried_without_its_registration() {
    let mut durable: PrivateSettlementOwner<Records, u8> = PrivateSettlementOwner::with_capacity(2);
    let records = Records { state: Some(ControlRecordState::Outstanding), discards: true };
    let parked = PrivateOperation::Control { command: command(9), completion: Some(5) };
    assert_eq!(hand_over_parked(&mut durable, records, parked), SettlementOwnership::Ours);
    assert_eq!((durable.owed(), durable.outstanding()), (Some(1), Some(0)));
}

#[test]
fn a_parked_control_owned_elsewhere_leaves_only_its_identity() {
    let mut durable: PrivateSettlementOwner<Records, u8> = PrivateSettlementOwner::with_capacity(2);
    let records = Records { state: Some(ControlRecordState::Outstanding), discards: false };
    let parked = PrivateOperation::Control { command: command(9), completion: Some(5) };
    assert_eq!(hand_over_parked(&mut durable, records, parked), SettlementOwnership::Elsewhere);
    assert_eq!((durable.owed(), durable.outstanding()), (Some(0), Some(1)));
}

#[test]
fn an_unprovable_parked_control_is_kept_whole() {
    let mut durable: PrivateSettlementOwner<Records, u8> = PrivateSettlementOwner::with_capacity(2);
    let records = Records { state: None, discards: false };
    let parked = PrivateOperation::Control { command: command(9), completion: Some(5) };
    assert_eq!(hand_over_parked(&mut durable, records.clone(), parked), SettlementOwnership::Unprovable);
    assert_eq!(durable.owed(), Some(1));
    let routed = PrivateOperation::RoutedInput { target_surface: 1, delivery: None };
    assert_eq!(hand_over_parked(&mut durable, records, routed), SettlementOwnership::Ours);
    assert_eq!(durable.owed(), Some(2));
}

#[test]
fn stranded_registrations_are_given_up_in_queue_order() {
    let stranded = vec![
        PrivateOperation::Control { command: command(1), completion: Some(11) },
        PrivateOperation::LeaseRelease { lease: 4 },
        PrivateOperation::Control { command: command(2), completion: None },
        PrivateOperation::Control { command: command(3), completion: Some(13) },
    ];
    assert_eq!(stranded_tokens(&stranded), vec![11, 13]);
}

#[test]
fn cancelled_work_leaves_outstanding_as_it_enters_pending() {
    let mut outstanding = vec![
        PrivateIdentity::Control { transaction: 1, completion: Some(11) },
        PrivateIdentity::Delivery(Some(4)),
        PrivateIdentity::Control { transaction: 2, completion: Some(12) },
        PrivateIdentity::Control { transaction: 3, completion: None },
    ];
    let mut pending = vec![PrivateOperation::LeaseRelease { lease: 8 }];
    hand_over_cancelled(&mut outstanding, &mut pending, vec![(12, command(2)), (99, command(7))]);
    assert_eq!(
        outstanding,
        vec![
            PrivateIdentity::Control { transaction: 1, completion: Some(11) },
            PrivateIdentity::Delivery(Some(4)),
            PrivateIdentity::Control { transaction: 3, completion: None },
        ]
    );
    assert_eq!(
        pending,
        vec![
            PrivateOperation::LeaseRelease { lease: 8 },
            PrivateOperation::Control { command: command(2), completion: None },
            PrivateOperation::Control { command: command(7), completion: None },
        ]
    );
}
