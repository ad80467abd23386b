use std::collections::VecDeque;

use sophia_x_authority::ordered_turn::{PrivateOrderGate, PrivateRouteRefusal, PrivateUnorderedSource};
use sophia_x_authority::settlement::{PrivateControlCommand, PrivateIdentity, PrivateOperation};

struct Order {
    items: VecDeque<(u64, u8, PrivateOperation)>,
    poisoned: bool,
    fail_on: Option<u64>,
    ran: Vec<PrivateOperation>,
}

impl PrivateUnorderedSource<&'static str> for Order {
    fn take_next_classed(&mut self) -> Result<Option<(u64, u8, PrivateOperation)>, ()> {
        if self.poisoned {
            return Err(());
        }
        Ok(self.items.pop_front())
    }

    fn run_one(&mut self, operation: PrivateOperation) -> Result<(), &'static str> {
        self.ran.push(operation);
        match (operation, self.fail_on) {
            (PrivateOperation::LeaseRelease { lease }, Some(failing)) if lease == failing => Err("lease"),
            _ => Ok(()),
        }
    }
}

fn order(leases: &[u64]) -> Order {
    Order {
        items: leases.iter().enumerate().map(|(i, l)| (i as u64 + 1, 0, PrivateOperation::LeaseRelease { lease: *l })).collect(),
        poisoned: false,
        fail_on: None,
        ran: Vec::new(),
    }
}

#[test]
fn the_unprepared_route_needs_the_lease_and_no_ordered_runner() {
    let mut gate: PrivateOrderGate<u8> = PrivateOrderGate::new();
    let mut source = order(&[4]);
    assert!(matches!(gate.route_pending(&mut source, false, false, 8), Err(PrivateRouteRefusal::ForeignServiceOwner)));
    assert!(matches!(gate.route_pending(&mut source, true, true, 8), Err(PrivateRouteRefusal::OrderedRunnerEngaged)));
    assert!(source.ran.is_empty());
    assert!(gate.outstanding().is_empty());
}

#[test]
fn the_route_runs_at_most_its_budget_in_order() {
    let mut gate: PrivateOrderGate<u8> = PrivateOrderGate::new();
    let mut source = order(&[4, 5, 6]);
    let ran = match gate.route_pending(&mut source, true, false, 2) {
        Ok(ran) => ran,
        Err(_) => panic!("refused"),
    };
    assert_eq!(ran.iter().map(|r| r.sequence).collect::<Vec<_>>(), vec![1, 2]);
    assert_eq!(gate.outstanding(), &vec![PrivateIdentity::Lease(4), PrivateIdentity::Lease(5)]);
    assert_eq!(source.items.len(), 1);
}

#[test]
fn a_failed_effect_keeps_its_credit_outstanding() {
    let mut gate: PrivateOrderGate<u8> = PrivateOrderGate::new();
    let mut source = order(&[4, 5, 6]);
    source.fail_on = Some(5);
    assert!(matches!(gate.route_pending(&mut source, true, false, 8), Err(PrivateRouteRefusal::Route("lease"))));
    assert_eq!(gate.outstanding(), &vec![PrivateIdentity::Lease(4), PrivateIdentity::Lease(5)]);
    let mut poisoned = order(&[7]);
    poisoned.poisoned = true;
    assert!(matches!(gate.route_pending(&mut poisoned, true, false, 8), Err(PrivateRouteRefusal::RegistryPoisoned)));
}

#[test]
fn an_empty_order_ends_the_route() {
    let mut gate: PrivateOrderGate<u8> = PrivateOrderGate::new();
    let mut source = order(&[]);
    source.items.push_back((9, 1, PrivateOperation::Control {
        command: PrivateControlCommand { client: 1, kind: 2, transaction: 3, surface: 4 },
        completion: Some(5),
    }));
    let ran = match gate.route_pending(&mut source, true, false, 8) {
        Ok(ran) => ran,
        Err(_) => panic!("refused"),
    };
    assert_eq!((ran.len(), ran[0].class), (1, 1));
    assert_eq!(gate.outstanding(), &vec![PrivateIdentity::Control { transaction: 3, completion: Some(5) }]);
}
