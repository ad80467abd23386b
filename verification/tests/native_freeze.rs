use std::cell::Cell;

use sophia_x_authority::native_freeze::{
    check_freeze, PrivateEndpointIdentity, PrivateFreeze, PrivateFreezeCheck, PrivateFreezeContributor,
    PrivateFreezeObservation, PrivateFreezeProgress, PrivateFreezeReads, PrivateFreezeWitness,
};
use sophia_x_authority::native_hold::PrivateNativeRefusal;

struct Reads {
    observation: PrivateFreezeObservation,
    endpoints: Vec<(u64, PrivateFreezeContributor)>,
    progress: PrivateFreezeProgress,
    observed: Cell<usize>,
}

impl PrivateFreezeReads for Reads {
    fn observe(&self, _keyboard: bool) -> PrivateFreezeObservation {
        self.observed.set(self.observed.get() + 1);
        self.observation
    }

    fn contributor(&self, owner: u64) -> Option<PrivateFreezeContributor> {
        self.endpoints.iter().find(|(o, _)| *o == owner).map(|(_, c)| *c)
    }

    fn progress(&self, _source: PrivateFreezeWitness) -> PrivateFreezeProgress {
        self.progress
    }
}

fn endpoint(client: u64, generation: u64) -> PrivateEndpointIdentity {
    PrivateEndpointIdentity { client, admission: 1, generation }
}

fn witness() -> PrivateFreezeWitness {
    PrivateFreezeWitness { owners: [Some(7), None], stamp: 3 }
}

fn reads(progress: PrivateFreezeProgress) -> Reads {
    Reads {
        observation: PrivateFreezeObservation::Frozen(witness()),
        endpoints: vec![(7, PrivateFreezeContributor { endpoint: endpoint(7, 2), gate_open: true })],
        progress,
        observed: Cell::new(0),
    }
}

fn captured() -> PrivateFreeze {
    PrivateFreeze { origin: 1, keyboard: false, source: witness(), contributors: [Some(endpoint(7, 2)), None] }
}

#[test]
fn an_unfrozen_namespace_is_ready() {
    let mut r = reads(PrivateFreezeProgress::Frozen);
    r.observation = PrivateFreezeObservation::Ready;
    assert_eq!(check_freeze(&r, 1, None, false), Ok(PrivateFreezeCheck::Ready));
    r.observation = PrivateFreezeObservation::Unavailable;
    assert_eq!(check_freeze(&r, 1, None, false), Err(PrivateNativeRefusal::FreezeUnavailable));
}

#[test]
fn a_freeze_captures_the_registration_of_each_owner() {
    let r = reads(PrivateFreezeProgress::Frozen);
    assert_eq!(check_freeze(&r, 1, None, false), Ok(PrivateFreezeCheck::Frozen(captured())));
}

#[test]
fn a_recheck_keeps_its_witness_and_does_not_observe_again() {
    let mut r = reads(PrivateFreezeProgress::Frozen);
    r.observation = PrivateFreezeObservation::Ready;
    assert_eq!(check_freeze(&r, 1, Some(captured()), false), Ok(PrivateFreezeCheck::Frozen(captured())));
    assert_eq!(r.observed.get(), 0);
}

#[test]
fn a_recheck_for_another_origin_or_device_is_invalidated() {
    let r = reads(PrivateFreezeProgress::Frozen);
    assert_eq!(check_freeze(&r, 2, Some(captured()), false), Err(PrivateNativeRefusal::FreezeInvalidated));
    assert_eq!(check_freeze(&r, 1, Some(captured()), true), Err(PrivateNativeRefusal::FreezeInvalidated));
}

#[test]
fn a_reused_registration_invalidates_the_freeze() {
    let mut r = reads(PrivateFreezeProgress::Frozen);
    r.endpoints = vec![(7, PrivateFreezeContributor { endpoint: endpoint(7, 3), gate_open: true })];
    assert_eq!(check_freeze(&r, 1, Some(captured()), false), Err(PrivateNativeRefusal::FreezeInvalidated));
    r.endpoints.clear();
    assert_eq!(check_freeze(&r, 1, None, false), Err(PrivateNativeRefusal::FreezeInvalidated));
}

#[test]
fn a_closing_owner_makes_the_freeze_unavailable() {
    let mut r = reads(PrivateFreezeProgress::Frozen);
    r.endpoints = vec![(7, PrivateFreezeContributor { endpoint: endpoint(7, 2), gate_open: false })];
    assert_eq!(check_freeze(&r, 1, None, false), Err(PrivateNativeRefusal::FreezeUnavailable));
}

#[test]
fn a_thaw_releases_only_a_captured_freeze() {
    let r = reads(PrivateFreezeProgress::Thawed);
    assert_eq!(check_freeze(&r, 1, Some(captured()), false), Ok(PrivateFreezeCheck::Ready));
    assert_eq!(check_freeze(&r, 1, None, false), Err(PrivateNativeRefusal::FreezeInvalidated));
    let r = reads(PrivateFreezeProgress::Invalidated);
    assert_eq!(check_freeze(&r, 1, Some(captured()), false), Err(PrivateNativeRefusal::FreezeInvalidated));
}
