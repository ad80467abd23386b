use sophia_x_authority::continuation_places::{
    PrivateContinuationCommit, PrivateContinuationPlaces, PrivateOrderedContinuationDuty,
};
use sophia_x_authority::number_custody::{
    PrivateNumberOccupancy, PrivateNumberRefusal, PrivateNumberRight, PrivateNumberStanding,
};
use sophia_x_authority::ordered_home::{PrivateHomeBinding, PrivateHomeStanding, PrivateOrderedHome};
use sophia_x_authority::request_barrier::{PrivateBarrierTicket, PrivateRequestBarrier};
use sophia_x_authority::settlement::AdmissionRefusal;

struct Output {
    visits: u32,
    settle_after: u32,
}

impl PrivateOrderedContinuationDuty for Output {
    fn visit(&mut self) {
        self.visits += 1;
    }

    fn settled(&self) -> bool {
        self.visits >= self.settle_after
    }
}

#[test]
fn a_held_number_excludes_everyone_else() {
    let mut occupancy = PrivateNumberOccupancy::new();
    let right = occupancy.claim(5, 1).unwrap();
    assert_eq!(right, PrivateNumberRight { client: 5, incarnation: 1 });
    assert_eq!(occupancy.claim(5, 2), Err(PrivateNumberRefusal::Excluded));
    assert_eq!(occupancy.state_of(5), Some(PrivateNumberStanding::Held));
    assert!(occupancy.claim(6, 1).is_ok());
}

#[test]
fn a_number_is_freed_only_by_its_completed_visit() {
    let mut occupancy = PrivateNumberOccupancy::new();
    let right = occupancy.claim(5, 1).unwrap();
    // No visit open yet: a report changes nothing.
    right.finish(&mut occupancy, true);
    assert_eq!(occupancy.state_of(5), Some(PrivateNumberStanding::Held));
    assert!(right.begin_clearing(&mut occupancy));
    // One visit per right.
    assert!(!right.begin_clearing(&mut occupancy));
    assert_eq!(occupancy.state_of(5), Some(PrivateNumberStanding::Visiting));
    right.finish(&mut occupancy, true);
    assert_eq!(occupancy.state_of(5), None);
    assert!(occupancy.claim(5, 2).is_ok());
}

#[test]
fn an_unestablished_visit_keeps_the_number() {
    let mut occupancy = PrivateNumberOccupancy::new();
    let right = occupancy.claim(5, 1).unwrap();
    assert!(right.begin_clearing(&mut occupancy));
    right.finish(&mut occupancy, false);
    assert_eq!(occupancy.state_of(5), Some(PrivateNumberStanding::Unestablished));
    assert_eq!(occupancy.claim(5, 2), Err(PrivateNumberRefusal::Excluded));
    // Nothing resolves it: no second visit.
    assert!(!right.begin_clearing(&mut occupancy));
}

#[test]
fn a_stale_right_acts_on_nothing() {
    let mut occupancy = PrivateNumberOccupancy::new();
    let first = occupancy.claim(5, 1).unwrap();
    first.relinquish_unpublished(&mut occupancy);
    assert_eq!(occupancy.state_of(5), None);
    let second = occupancy.claim(5, 2).unwrap();
    assert!(!first.begin_clearing(&mut occupancy));
    first.relinquish_unpublished(&mut occupancy);
    assert_eq!(occupancy.state_of(5), Some(PrivateNumberStanding::Held));
    assert!(second.begin_clearing(&mut occupancy));
    // An unpublished relinquish is refused once a visit is inside.
    second.relinquish_unpublished(&mut occupancy);
    assert_eq!(occupancy.state_of(5), Some(PrivateNumberStanding::Visiting));
}

#[test]
fn an_unreadable_occupancy_refuses_claims() {
    let mut occupancy = PrivateNumberOccupancy::new();
    occupancy.mark_poisoned();
    assert_eq!(occupancy.claim(5, 1), Err(PrivateNumberRefusal::Unreadable));
    assert_eq!(occupancy.state_of(5), None);
}

#[test]
fn a_home_binds_once_and_never_after_retention() {
    let mut home: PrivateOrderedHome<u8> = PrivateOrderedHome::empty();
    assert_eq!(home.standing(), PrivateHomeStanding::Live);
    assert!(!home.occupied());
    assert!(matches!(home.bind(1), PrivateHomeBinding::Bound));
    assert!(matches!(home.bind(2), PrivateHomeBinding::Occupied(2)));
    assert_eq!(home.retaining(), Some(false));
    assert!(home.retain());
    assert!(home.retain());
    assert_eq!(home.retaining(), Some(true));
    assert_eq!(home.standing(), PrivateHomeStanding::Retained);
    if let Some(payload) = home.borrow() {
        *payload = 7;
    }
    assert_eq!(home.peek(), Some(Some(&7)));
}

#[test]
fn an_ended_home_gives_the_offer_back() {
    let mut home: PrivateOrderedHome<u8> = PrivateOrderedHome::empty();
    assert!(!home.retain());
    assert!(matches!(home.bind(3), PrivateHomeBinding::Ended(3)));
    assert!(!home.occupied());
    assert_eq!(home.retaining(), Some(false));
}

#[test]
fn a_poisoned_home_cannot_be_read_but_can_be_retained() {
    let mut home: PrivateOrderedHome<u8> = PrivateOrderedHome::empty();
    home.mark_poisoned();
    assert!(home.unreadable());
    assert_eq!(home.retaining(), None);
    assert_eq!(home.peek(), None);
    assert!(!home.retain());
    assert_eq!(home.standing(), PrivateHomeStanding::Retained);
}

#[test]
fn the_first_report_wins_and_is_taken_once() {
    let mut barrier: PrivateRequestBarrier<u32> = PrivateRequestBarrier::over();
    assert!(!barrier.armed());
    let ticket = barrier.arm(4);
    assert_eq!(ticket, PrivateBarrierTicket { request: 4 });
    assert!(barrier.armed());
    assert_eq!(barrier.take(), None);
    assert!(ticket.report(&mut barrier, 10));
    assert!(!ticket.report(&mut barrier, 11));
    assert_eq!(barrier.take(), Some(10));
    assert!(!barrier.armed());
    assert_eq!(barrier.take(), None);
}

#[test]
fn a_stale_ticket_answers_nothing() {
    let mut barrier: PrivateRequestBarrier<u32> = PrivateRequestBarrier::over();
    let old_ticket = barrier.arm(4);
    let new_ticket = barrier.arm(5);
    assert!(!old_ticket.report(&mut barrier, 1));
    assert_eq!(barrier.take(), None);
    assert!(new_ticket.report(&mut barrier, 2));
    assert_eq!(barrier.take(), Some(2));
}

#[test]
fn places_are_bounded_by_connections() {
    let mut places: PrivateContinuationPlaces<Output> = PrivateContinuationPlaces::with_bound(1);
    let slot = places.reserve().unwrap();
    assert!(matches!(places.reserve(), Err(AdmissionRefusal::Saturated)));
    assert_eq!(places.reserved(), 1);
    assert!(slot.holds(&places));
    assert!(slot.finish(&mut places));
    assert_eq!(places.reserved(), 0);
    assert!(places.reserve().is_ok());
}

#[test]
fn a_declared_bound_stands() {
    let mut places: PrivateContinuationPlaces<Output> = PrivateContinuationPlaces::new();
    assert!(matches!(places.reserve(), Err(AdmissionRefusal::Saturated)));
    assert_eq!(places.declare_connection_bound(2), 2);
    assert_eq!(places.declare_connection_bound(5), 2);
    assert!(places.reserve().is_ok());
}

#[test]
fn committing_an_ended_connection_with_nothing_owed_counts_it_abandoned() {
    let mut places: PrivateContinuationPlaces<Output> = PrivateContinuationPlaces::with_bound(2);
    let slot = places.reserve().unwrap();
    assert_eq!(slot.commit(&mut places, false), PrivateContinuationCommit::NothingBound);
    assert_eq!(places.abandoned(), 1);
    assert_eq!(places.reserved(), 1);
    let owed = places.reserve().unwrap();
    assert_eq!(owed.commit(&mut places, true), PrivateContinuationCommit::Retained);
    assert_eq!(places.abandoned(), 1);
}

#[test]
fn a_successor_place_is_not_the_predecessors() {
    let mut places: PrivateContinuationPlaces<Output> = PrivateContinuationPlaces::with_bound(1);
    let first = places.reserve().unwrap();
    let first_identity = first.maintenance_identity();
    assert!(first.relinquish_unexposed(&mut places));
    let second = places.reserve().unwrap();
    let second_identity = second.maintenance_identity();
    assert_eq!(first_identity.place(), second_identity.place());
    assert!(!first_identity.same_as(&second_identity));
    assert!(first_identity.reaches(&places).reached().is_none());
    assert!(second_identity.reaches(&places).reached().is_some());
    assert_eq!(places.drive(4), 0);
    assert_eq!(places.retained(), Some(0));
}

#[test]
fn a_retained_continuation_is_driven_until_settled() {
    let mut places: PrivateContinuationPlaces<Output> = PrivateContinuationPlaces::with_bound(1);
    let slot = places.reserve().unwrap();
    let id = slot.maintenance_identity();
    assert!(matches!(
        places.bind_home(id.index, id.record, Output { visits: 0, settle_after: 2 }),
        Ok(PrivateHomeBinding::Bound)
    ));
    // A live home is not the drive's to touch.
    assert_eq!(places.drive(3), 0);
    assert_eq!(places.retain_home(id.index, id.record), Some(true));
    assert_eq!(places.retained(), Some(1));
    assert_eq!(places.drive(1), 1);
    assert_eq!(places.reserved(), 1);
    assert_eq!(places.drive(1), 1);
    assert_eq!(places.reserved(), 0);
    assert_eq!(places.retained(), Some(0));
    // The place went back; a stale record binds nothing.
    assert!(places.bind_home(id.index, id.record, Output { visits: 0, settle_after: 0 }).is_err());
    assert!(!places.return_ordered_continuation(id.index, id.record));
}
