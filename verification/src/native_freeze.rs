// A frozen request depends on exact source activations and the registrations
// that owned them. It has no decided output and no replacement origin.
use vstd::prelude::*;
use crate::native_hold::PrivateNativeRefusal;

verus! {

/// One registration of a client endpoint: reused numbers name a different
/// registration.
#[derive(Debug, Clone, Copy, PartialEq, Eq, Structural)]
pub struct PrivateEndpointIdentity {
    pub client: u64,
    pub admission: u64,
    pub generation: u64,
}

/// The source activations a freeze was observed on, with the client that
/// owns each.
#[derive(Debug, Clone, Copy, PartialEq, Eq)]
pub struct PrivateFreezeWitness {
    pub owners: [Option<u64>; 2],
    pub stamp: u64,
}

/// What the authority says of a namespace's freeze.
#[derive(Debug, Clone, Copy, PartialEq, Eq)]
pub enum PrivateFreezeObservation {
    Ready,
    Frozen(PrivateFreezeWitness),
    Unavailable,
}

/// Whether a witnessed freeze still holds.
#[derive(Debug, Clone, Copy, PartialEq, Eq, Structural)]
pub enum PrivateFreezeProgress {
    Frozen,
    Thawed,
    Invalidated,
}

/// The endpoint a freeze owner is applied at now, and whether its lifecycle
/// gate is open.
#[derive(Debug, Clone, Copy, PartialEq, Eq, Structural)]
pub struct PrivateFreezeContributor {
    pub endpoint: PrivateEndpointIdentity,
    pub gate_open: bool,
}

/// A request held behind a freeze: the origin and device it was checked for,
/// the witness, and the registration of each owner.
#[derive(Debug, Clone, Copy, PartialEq, Eq)]
pub struct PrivateFreeze {
    pub origin: u64,
    pub keyboard: bool,
    pub source: PrivateFreezeWitness,
    pub contributors: [Option<PrivateEndpointIdentity>; 2],
}

/// Whether a request may go ahead or stays behind a freeze.
#[derive(Debug, Clone, Copy, PartialEq, Eq)]
pub enum PrivateFreezeCheck {
    Ready,
    Frozen(PrivateFreeze),
}

/// What a freeze check reads from the authority and the admission records.
///
/// Implemented over the authority state and the client table. Nothing here is
/// promised of what it answers; what the check decides holds for any answer.
pub trait PrivateFreezeReads {
    /// The namespace's keyboard or pointer freeze.
    fn observe(&self, keyboard: bool) -> PrivateFreezeObservation;

    /// Where a freeze owner is bound and applied now, if it is.
    fn contributor(&self, owner: u64) -> Option<PrivateFreezeContributor>;

    /// Whether a witnessed freeze still holds.
    fn progress(&self, source: PrivateFreezeWitness) -> PrivateFreezeProgress;
}

/// What a freeze captured is consistent with: it was checked for this origin
/// and device, it names a registration exactly for each owner of its witness,
/// and a rechecked freeze keeps the witness and registrations it had.
pub open spec fn captured(
    f: PrivateFreeze,
    origin: u64,
    keyboard: bool,
    previous: Option<PrivateFreeze>,
) -> bool {
    &&& f.origin == origin
    &&& f.keyboard == keyboard
    &&& forall|i: int| 0 <= i < 2 ==> (#[trigger] f.contributors@[i] is Some <==> f.source.owners@[i] is Some)
    &&& previous matches Some(p) ==> {
        &&& f.source == p.source
        &&& forall|i: int|
            0 <= i < 2 && #[trigger] f.source.owners@[i] is Some ==> f.contributors@[i] == p.contributors@[i]
    }
}

/// What admitting one owner makes of the registration the reads reported
/// for it: none bound and applied invalidates the freeze; one whose gate is
/// closing makes it unavailable; on a recheck it must be the very
/// registration captured before.
pub open spec fn contributor_admission(
    current: Option<PrivateFreezeContributor>,
    previous: Option<PrivateEndpointIdentity>,
    rechecking: bool,
) -> Result<Option<PrivateEndpointIdentity>, PrivateNativeRefusal> {
    match current {
        None => Err(PrivateNativeRefusal::FreezeInvalidated),
        Some(c) => if !c.gate_open {
            Err(PrivateNativeRefusal::FreezeUnavailable)
        } else if rechecking && previous != Some(c.endpoint) {
            Err(PrivateNativeRefusal::FreezeInvalidated)
        } else {
            Ok(Some(c.endpoint))
        },
    }
}

/// The registration of one freeze owner, which must be bound, applied, open,
/// and -- on a recheck -- the very registration captured before.
fn admit_contributor<Q: PrivateFreezeReads>(
    reads: &Q,
    owner: Option<u64>,
    previous: Option<PrivateEndpointIdentity>,
    rechecking: bool,
) -> (r: Result<Option<PrivateEndpointIdentity>, PrivateNativeRefusal>)
    ensures
        r matches Ok(c) ==> (c is Some <==> owner is Some),
        owner is Some && rechecking ==> (r matches Ok(c) ==> c == previous),
        r matches Err(e) ==> e == PrivateNativeRefusal::FreezeInvalidated || e
            == PrivateNativeRefusal::FreezeUnavailable,
        owner is None ==> r == Ok::<Option<PrivateEndpointIdentity>, PrivateNativeRefusal>(None),
        owner is Some ==> exists|current: Option<PrivateFreezeContributor>|
            #[trigger] call_ensures(Q::contributor, (reads, owner->0), current) && r == contributor_admission(
                current,
                previous,
                rechecking,
            ),
{
    let owner = match owner {
        None => {
            return Ok(None);
        },
        Some(owner) => owner,
    };
    let ask = Q::contributor;
    let answer = ask(reads, owner);
    assert(call_ensures(Q::contributor, (reads, owner), answer));
    let current = match answer {
        None => {
            return Err(PrivateNativeRefusal::FreezeInvalidated);
        },
        Some(current) => current,
    };
    // A closing registration still owes source cleanup, and only an open gate
    // makes the capture mean this registration when numbers are reused.
    if !current.gate_open {
        return Err(PrivateNativeRefusal::FreezeUnavailable);
    }
    if rechecking {
        match previous {
            None => {
                return Err(PrivateNativeRefusal::FreezeInvalidated);
            },
            Some(old) => {
                if old != current.endpoint {
                    return Err(PrivateNativeRefusal::FreezeInvalidated);
                }
            },
        }
    }
    Ok(Some(current.endpoint))
}

/// Whether a request may go ahead, or stays behind the namespace's freeze.
///
/// A recheck is only for the origin and device it was captured for, and
/// keeps the witness it captured. A freeze that thawed under a recheck lets
/// the request go; one that thawed before it was captured, or was
/// invalidated, refuses it.
pub fn check_freeze<Q: PrivateFreezeReads>(
    reads: &Q,
    origin: u64,
    previous: Option<PrivateFreeze>,
    keyboard: bool,
) -> (r: Result<PrivateFreezeCheck, PrivateNativeRefusal>)
    ensures
        previous matches Some(p) ==> ((p.origin != origin || p.keyboard != keyboard) ==> r == Err::<
            PrivateFreezeCheck,
            PrivateNativeRefusal,
        >(PrivateNativeRefusal::FreezeInvalidated)),
        r matches Ok(PrivateFreezeCheck::Frozen(f)) ==> captured(f, origin, keyboard, previous),
        r matches Err(e) ==> e == PrivateNativeRefusal::FreezeInvalidated || e
            == PrivateNativeRefusal::FreezeUnavailable,
        // A first check goes by what the namespace's freeze was observed to be.
        previous is None ==> exists|observed: PrivateFreezeObservation|
            #[trigger] call_ensures(Q::observe, (reads, keyboard), observed) && (observed
                == PrivateFreezeObservation::Ready ==> r == Ok::<PrivateFreezeCheck, PrivateNativeRefusal>(
                PrivateFreezeCheck::Ready,
            )) && (observed == PrivateFreezeObservation::Unavailable ==> r == Err::<
                PrivateFreezeCheck,
                PrivateNativeRefusal,
            >(PrivateNativeRefusal::FreezeUnavailable)) && (observed is Frozen ==> (r matches Ok(
                PrivateFreezeCheck::Frozen(f),
            ) ==> f.source == observed->Frozen_0)),
        // A freeze is reported only while its witness still holds, and a
        // recheck lets the request go only once it thawed.
        r matches Ok(PrivateFreezeCheck::Frozen(f)) ==> call_ensures(
            Q::progress,
            (reads, f.source),
            PrivateFreezeProgress::Frozen,
        ),
        (previous is Some && r == Ok::<PrivateFreezeCheck, PrivateNativeRefusal>(PrivateFreezeCheck::Ready))
            ==> call_ensures(Q::progress, (reads, previous->0.source), PrivateFreezeProgress::Thawed),
{
    let source = match previous {
        Some(p) => {
            if p.origin != origin || p.keyboard != keyboard {
                return Err(PrivateNativeRefusal::FreezeInvalidated);
            }
            p.source
        },
        None => match {
            let look = Q::observe;
            look(reads, keyboard)
        } {
            PrivateFreezeObservation::Ready => {
                return Ok(PrivateFreezeCheck::Ready);
            },
            PrivateFreezeObservation::Frozen(source) => source,
            PrivateFreezeObservation::Unavailable => {
                return Err(PrivateNativeRefusal::FreezeUnavailable);
            },
        },
    };
    let (previous0, previous1) = match previous {
        Some(p) => (p.contributors[0], p.contributors[1]),
        None => (None, None),
    };
    let rechecking = previous.is_some();
    let first = match admit_contributor(reads, source.owners[0], previous0, rechecking) {
        Ok(c) => c,
        Err(e) => {
            return Err(e);
        },
    };
    let second = match admit_contributor(reads, source.owners[1], previous1, rechecking) {
        Ok(c) => c,
        Err(e) => {
            return Err(e);
        },
    };
    let contributors = [first, second];
    let ask_progress = Q::progress;
    let progress = ask_progress(reads, source);
    match progress {
        PrivateFreezeProgress::Frozen => {
            let f = PrivateFreeze { origin, keyboard, source, contributors };
            proof {
                assert forall|i: int| 0 <= i < 2 implies (#[trigger] f.contributors@[i] is Some
                    <==> f.source.owners@[i] is Some) by {
                    if i == 0 {
                        assert(f.contributors@[0] == first);
                    } else {
                        assert(f.contributors@[1] == second);
                    }
                }
            }
            Ok(PrivateFreezeCheck::Frozen(f))
        },
        PrivateFreezeProgress::Thawed => {
            if rechecking {
                Ok(PrivateFreezeCheck::Ready)
            } else {
                Err(PrivateNativeRefusal::FreezeInvalidated)
            }
        },
        PrivateFreezeProgress::Invalidated => Err(PrivateNativeRefusal::FreezeInvalidated),
    }
}

} // verus!
