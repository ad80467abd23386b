use sophia_x_authority::continuation_places::{PrivateContinuationPlaces, PrivateMaintenanceIdentity};
use sophia_x_authority::maintenance_commitment::{
    PrivateCommitmentContext, PrivateCommitted, PrivateCommittedSnapshot, PrivateEvidenceCustody,
    PrivateFenceRecord, PrivateHolderDestination, PrivateHolderStore,
};
use sophia_x_authority::ordered_continuation::PrivateHandoverFence;

const STORE: u64 = 7;
const JOIN: u64 = 40;

fn recorded() -> PrivateFenceRecord {
    PrivateFenceRecord { fence: Some(PrivateHandoverFence::Unreadable), join: JOIN, join_published: true }
}

struct Setup {
    places: PrivateContinuationPlaces<u8>,
    holders: PrivateHolderStore,
    identity: PrivateMaintenanceIdentity,
    context: PrivateCommitmentContext,
}

fn setup(fence: PrivateFenceRecord, custody_join: u64) -> Setup {
    let mut places: PrivateContinuationPlaces<u8> = PrivateContinuationPlaces::with_bound(2);
    let lease = places.reserve().unwrap();
    let identity = lease.maintenance_identity();
    let mut holders = PrivateHolderStore::new(STORE, 2);
    let destination = holders.promise(1, identity.index, identity.record).unwrap();
    let custody = PrivateEvidenceCustody { store: STORE, identity, join: custody_join };
    let context = PrivateCommitmentContext::bound_to(custody, fence, STORE, lease, destination);
    Setup { places, holders, identity, context }
}

#[test]
fn a_commitment_installs_the_obligation_once() {
    let mut s = setup(recorded(), JOIN);
    assert_eq!(s.context.commit(&mut s.holders, &s.places), PrivateCommitted::Committed);
    // Even an unreadable gate is recorded: something is still owed.
    assert_eq!(
        s.holders.committed_obligation(1),
        Some(PrivateCommittedSnapshot { identity: s.identity, closed: PrivateHandoverFence::Unreadable, join: JOIN })
    );
    assert_eq!(s.context.commit(&mut s.holders, &s.places), PrivateCommitted::AlreadyCommitted);
    assert!(s.context.into_parts().is_none());
}

#[test]
fn an_unrecorded_fence_consumes_nothing() {
    let fence = PrivateFenceRecord { fence: None, join: JOIN, join_published: true };
    let mut s = setup(fence, JOIN);
    assert_eq!(s.context.commit(&mut s.holders, &s.places), PrivateCommitted::NotYetEvidenced);
    assert_eq!(s.holders.committed_obligation(1), None);
    assert!(s.context.into_parts().is_some());
}

#[test]
fn an_unpublished_join_is_not_yet_evidence() {
    let fence = PrivateFenceRecord { fence: Some(PrivateHandoverFence::Established), join: JOIN, join_published: false };
    let mut s = setup(fence, JOIN);
    assert_eq!(s.context.commit(&mut s.holders, &s.places), PrivateCommitted::NotYetEvidenced);
}

#[test]
fn another_connections_join_is_foreign() {
    let mut s = setup(recorded(), JOIN + 1);
    assert_eq!(s.context.commit(&mut s.holders, &s.places), PrivateCommitted::Foreign);
    assert_eq!(s.holders.committed_obligation(1), None);
}

#[test]
fn a_destination_for_another_place_is_foreign() {
    let mut places: PrivateContinuationPlaces<u8> = PrivateContinuationPlaces::with_bound(2);
    let lease = places.reserve().unwrap();
    let identity = lease.maintenance_identity();
    let mut holders = PrivateHolderStore::new(STORE, 2);
    let destination = holders.promise(0, identity.index + 1, identity.record).unwrap();
    let custody = PrivateEvidenceCustody { store: STORE, identity, join: JOIN };
    let mut context = PrivateCommitmentContext::bound_to(custody, recorded(), STORE, lease, destination);
    assert_eq!(context.commit(&mut holders, &places), PrivateCommitted::Foreign);
}

#[test]
fn a_promise_that_moved_on_is_stale() {
    let mut places: PrivateContinuationPlaces<u8> = PrivateContinuationPlaces::with_bound(2);
    let lease = places.reserve().unwrap();
    let identity = lease.maintenance_identity();
    let mut holders = PrivateHolderStore::new(STORE, 2);
    // A destination naming a holder place that was never promised to it.
    let destination = PrivateHolderDestination {
        store: STORE,
        index: 0,
        for_place: identity.index,
        for_record: identity.record,
        armed: true,
    };
    let custody = PrivateEvidenceCustody { store: STORE, identity, join: JOIN };
    let mut context = PrivateCommitmentContext::bound_to(custody, recorded(), STORE, lease, destination);
    assert_eq!(context.commit(&mut holders, &places), PrivateCommitted::Stale);
    assert!(context.into_parts().is_some());
}

#[test]
fn a_holder_place_is_promised_only_while_free() {
    let mut holders = PrivateHolderStore::new(STORE, 1);
    assert!(holders.promise(0, 3, 9).is_some());
    assert!(holders.promise(0, 4, 9).is_none());
    assert!(holders.promise(1, 4, 9).is_none());
}
