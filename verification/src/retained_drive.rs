// Advancing retained connections one place at a time, and what a stored
// frame forbids.
//
// A retained connection is driven only through the exact inventory place it
// was kept in, one place per visit and round-robin. A frame whose delivery is
// unknown, incomplete or unretired is preserved: nothing new is sent or
// drained behind it.
use vstd::prelude::*;
use crate::continuation_places::{
    holds_record, PrivateContinuationPlaces, PrivateMaintenanceIdentity, PrivateMaintenanceReach,
};
use crate::maintenance_commitment::{
    commit_outcome, committed_holder, CommitmentView, HolderStoreView, PrivateCommitted, PrivateHolderPlace,
    PrivateHolderStore,
};
use crate::ordered_continuation::PrivateHandoverFence;

verus! {

/// Which inventory place the next visit takes.
pub struct PrivateRetainedDriveCursor {
    next: usize,
}

impl View for PrivateRetainedDriveCursor {
    type V = nat;

    closed spec fn view(&self) -> nat {
        self.next as nat
    }
}

/// What one visit of the retained inventory found before any custody check.
#[derive(Debug, Clone, Copy, PartialEq, Eq, Structural)]
pub enum PrivateRetainedPick {
    /// The inventory has no places.
    EmptyInventory,
    /// The place visited holds nothing.
    EmptyPlace,
    /// The place visited holds a custody, at this index.
    Custody(usize),
}

impl PrivateRetainedDriveCursor {
    /// A cursor at the first place.
    pub fn new() -> (r: Self)
        ensures
            r@ == 0,
    {
        PrivateRetainedDriveCursor { next: 0 }
    }

    /// Take the place this visit drives among `len`, and move past it,
    /// wrapping. No place is skipped and none is taken twice in a row while
    /// there is more than one.
    pub fn advance(&mut self, len: usize) -> (r: Option<usize>)
        ensures
            len == 0 ==> r is None && final(self)@ == old(self)@,
            len > 0 ==> r == Some((old(self)@ % len as nat) as usize) && final(self)@ == ((old(
                self,
            )@ % len as nat) + 1) % len as nat,
    {
        if len == 0 {
            return None;
        }
        let index = self.next % len;
        self.next = (index + 1) % len;
        Some(index)
    }
}

/// Visit one place of a retained inventory, taking the place the cursor
/// names and moving the cursor past it.
pub fn pick_retained_place<C>(places: &Vec<Option<C>>, cursor: &mut PrivateRetainedDriveCursor) -> (r:
    PrivateRetainedPick)
    ensures
        places@.len() == 0 ==> r == PrivateRetainedPick::EmptyInventory && final(cursor)@ == old(
            cursor,
        )@,
        places@.len() > 0 ==> {
            let index = old(cursor)@ % places@.len();
            &&& final(cursor)@ == (index + 1) % places@.len()
            &&& r == if places@[index as int] is Some {
                PrivateRetainedPick::Custody(index as usize)
            } else {
                PrivateRetainedPick::EmptyPlace
            }
        },
{
    match cursor.advance(places.len()) {
        None => PrivateRetainedPick::EmptyInventory,
        Some(index) => if places[index].is_some() {
            PrivateRetainedPick::Custody(index)
        } else {
            PrivateRetainedPick::EmptyPlace
        },
    }
}

/// How far a stored frame's delivery is known to have got.
#[derive(Debug, Clone, Copy, PartialEq, Eq, Structural)]
pub enum PrivateSendProgress {
    /// A write was interrupted somewhere at or after `from`.
    Unknown { from: usize },
    /// This many bytes are known to have been written.
    Sent(usize),
}

/// A frame held for a connection's ordered output.
#[derive(Debug, Clone, Copy, PartialEq, Eq, Structural)]
pub struct PrivateHeldFrame {
    pub len: usize,
    pub progress: PrivateSendProgress,
}

/// Why a held frame stops a retained connection from being driven further.
#[derive(Debug, Clone, Copy, PartialEq, Eq, Structural)]
pub enum PrivateRetainedFrame {
    Incomplete { sent: usize, len: usize },
    Indeterminate { from: usize, len: usize },
    CompleteUnretired { len: usize },
}

/// What a held frame's delivery state is, where a frame is held.
pub open spec fn frame_state_spec(frame: Option<PrivateHeldFrame>) -> Option<PrivateRetainedFrame> {
    match frame {
        None => None,
        Some(f) => Some(
            match f.progress {
                PrivateSendProgress::Unknown { from } => PrivateRetainedFrame::Indeterminate {
                    from,
                    len: f.len,
                },
                PrivateSendProgress::Sent(sent) => if sent < f.len {
                    PrivateRetainedFrame::Incomplete { sent, len: f.len }
                } else {
                    PrivateRetainedFrame::CompleteUnretired { len: f.len }
                },
            },
        ),
    }
}

/// The delivery state of a held frame, if a frame is held.
pub fn frame_state(frame: Option<PrivateHeldFrame>) -> (r: Option<PrivateRetainedFrame>)
    ensures
        r == frame_state_spec(frame),
{
    let f = match frame {
        None => {
            return None;
        },
        Some(f) => f,
    };
    Some(
        match f.progress {
            PrivateSendProgress::Unknown { from } => PrivateRetainedFrame::Indeterminate {
                from,
                len: f.len,
            },
            PrivateSendProgress::Sent(sent) => if sent < f.len {
                PrivateRetainedFrame::Incomplete { sent, len: f.len }
            } else {
                PrivateRetainedFrame::CompleteUnretired { len: f.len }
            },
        },
    )
}

/// The first held frame of `retained`, where one is held.
pub open spec fn first_held(retained: Seq<Option<PrivateHeldFrame>>) -> Option<PrivateRetainedFrame>
    decreases retained.len(),
{
    if retained.len() == 0 {
        None
    } else if retained[0] is Some {
        frame_state_spec(retained[0])
    } else {
        first_held(retained.skip(1))
    }
}

/// What a serving connection's stored frames forbid: an in-flight frame,
/// unless an established close can adjudicate it, and otherwise the first
/// retained unanswered frame, whose cursor and origin the close cannot
/// adjudicate.
pub open spec fn preserved_spec(
    close_established: bool,
    in_flight: Option<PrivateHeldFrame>,
    retained: Seq<Option<PrivateHeldFrame>>,
) -> Option<PrivateRetainedFrame> {
    if !close_established && in_flight is Some {
        frame_state_spec(in_flight)
    } else {
        first_held(retained)
    }
}

/// Refuse to drive a serving connection further over a frame whose delivery
/// nothing can settle: one in flight with no established close, or one among
/// the retained unanswered slots.
pub fn preserve_unresolved_frame(
    close_established: bool,
    in_flight: Option<PrivateHeldFrame>,
    retained: &Vec<Option<PrivateHeldFrame>>,
) -> (r: Result<(), PrivateRetainedFrame>)
    ensures
        r == match preserved_spec(close_established, in_flight, retained@) {
            Some(frame) => Err::<(), PrivateRetainedFrame>(frame),
            None => Ok(()),
        },
{
    if !close_established {
        match frame_state(in_flight) {
            Some(frame) => {
                return Err(frame);
            },
            None => {},
        }
    }
    let mut i: usize = 0;
    proof {
        assert(retained@.skip(0) =~= retained@);
    }
    while i < retained.len()
        invariant
            i <= retained@.len(),
            first_held(retained@) == first_held(retained@.skip(i as int)),
            !close_established ==> in_flight is None,
        decreases retained@.len() - i,
    {
        proof {
            assert(retained@.skip(i as int).skip(1) =~= retained@.skip(i + 1));
            assert(retained@.skip(i as int)[0] == retained@[i as int]);
        }
        match frame_state(retained[i]) {
            Some(frame) => {
                return Err(frame);
            },
            None => {},
        }
        i = i + 1;
    }
    proof {
        assert(retained@.skip(i as int).len() == 0);
    }
    Ok(())
}

/// Why a retained connection may not be driven.
#[derive(Debug, Clone, Copy, PartialEq, Eq)]
pub enum PrivateRetainedDriveRefusal<D> {
    /// The custody's cleanup record, or the obligation over it, is not of
    /// this registry, this connection, this close or this join.
    ForeignCommitment,
    /// The custody's deferred cleanup is not yet possible.
    Prerequisite(D),
    /// The custody's deferred cleanup could not be read.
    CleanupUnreadable,
    /// A deferred cleanup was claimed and never finished.
    CleanupInterrupted,
    /// No readable close was established for the connection.
    FenceUnestablished,
    /// The place no longer holds this connection's home.
    Stale,
    /// No obligation has been committed for the place.
    Uncommitted,
    /// A held frame's delivery is unsettled.
    FramePreserved(PrivateRetainedFrame),
}

/// What a pinned custody says of itself, read where it is kept.
#[derive(Debug)]
pub struct PrivateDriveCustody<D> {
    /// Whose obligation it holds.
    pub identity: PrivateMaintenanceIdentity,
    /// The join its evidence rests on.
    pub join: u64,
    /// Whether its cleanup record was published by the registry driving it.
    pub published: bool,
    /// Whether its deferred cleanup's prerequisites hold, or why not.
    pub prerequisites: Result<(), D>,
    /// Whether its deferred cleanup is claimed; `None` where it could not be
    /// read.
    pub cleanup_claimed: Option<bool>,
    /// What closing the connection established, where anything was recorded.
    pub fence: Option<PrivateHandoverFence>,
}

/// A one-use permission to drive one retained connection: whose, and under
/// which established close.
#[derive(Debug, Clone, Copy, PartialEq, Eq, Structural)]
pub struct PrivateRetainedDriveAuthority {
    pub identity: PrivateMaintenanceIdentity,
    pub closed: PrivateHandoverFence,
}

/// Whether a holder is the committed, armed credit for `identity`, under
/// `closed` and `join`.
pub open spec fn commitment_matches(
    h: PrivateHolderPlace,
    identity: PrivateMaintenanceIdentity,
    closed: PrivateHandoverFence,
    join: u64,
) -> bool {
    match h {
        PrivateHolderPlace::Taken { index, record, armed, obligation: Some(o) } => {
            &&& o.identity == identity
            &&& armed
            &&& index == identity.index
            &&& record == identity.record
            &&& o.closed == closed
            &&& o.join == join
        },
        _ => false,
    }
}

/// What authorising a drive decides, in the order it is asked.
pub open spec fn authorize_spec<D>(
    c: PrivateDriveCustody<D>,
    places_hold: bool,
    holders: HolderStoreView,
) -> Result<PrivateRetainedDriveAuthority, PrivateRetainedDriveRefusal<D>> {
    let index = c.identity.index as int;
    if !c.published {
        Err(PrivateRetainedDriveRefusal::ForeignCommitment)
    } else if c.prerequisites is Err {
        Err(PrivateRetainedDriveRefusal::Prerequisite(c.prerequisites->Err_0))
    } else if c.cleanup_claimed is None {
        Err(PrivateRetainedDriveRefusal::CleanupUnreadable)
    } else if c.cleanup_claimed == Some(true) {
        Err(PrivateRetainedDriveRefusal::CleanupInterrupted)
    } else if c.fence is None || c.fence == Some(PrivateHandoverFence::Unreadable) {
        Err(PrivateRetainedDriveRefusal::FenceUnestablished)
    } else if !places_hold {
        Err(PrivateRetainedDriveRefusal::Stale)
    } else if !(0 <= index < holders.holders.len() && holders.holders[index] matches PrivateHolderPlace::Taken {
        obligation: Some(_),
        ..
    }) {
        Err(PrivateRetainedDriveRefusal::Uncommitted)
    } else if !commitment_matches(holders.holders[index], c.identity, c.fence->0, c.join) {
        Err(PrivateRetainedDriveRefusal::ForeignCommitment)
    } else {
        Ok(PrivateRetainedDriveAuthority { identity: c.identity, closed: c.fence->0 })
    }
}

/// Permit one drive of a retained connection, through the exact custody it
/// is kept under.
///
/// The custody must be this registry's, its deferred cleanup possible and
/// not part-way, its close established and readable; its place must still
/// hold its home; and the holder at that place must be the armed credit
/// carrying the obligation committed for exactly this connection, close and
/// join.
pub fn authorize<D: Copy, P>(
    custody: &PrivateDriveCustody<D>,
    places: &PrivateContinuationPlaces<P>,
    holders: &PrivateHolderStore,
) -> (r: Result<PrivateRetainedDriveAuthority, PrivateRetainedDriveRefusal<D>>)
    ensures
        r == authorize_spec(
            *custody,
            holds_record(places@.places, custody.identity.index as int, custody.identity.record),
            holders@,
        ),
{
    if !custody.published {
        return Err(PrivateRetainedDriveRefusal::ForeignCommitment);
    }
    match custody.prerequisites {
        Err(cause) => {
            return Err(PrivateRetainedDriveRefusal::Prerequisite(cause));
        },
        Ok(()) => {},
    }
    match custody.cleanup_claimed {
        None => {
            return Err(PrivateRetainedDriveRefusal::CleanupUnreadable);
        },
        Some(true) => {
            return Err(PrivateRetainedDriveRefusal::CleanupInterrupted);
        },
        Some(false) => {},
    }
    let closed = match custody.fence {
        None | Some(PrivateHandoverFence::Unreadable) => {
            return Err(PrivateRetainedDriveRefusal::FenceUnestablished);
        },
        Some(fence) => fence,
    };
    let identity = custody.identity;
    match identity.reaches(places) {
        PrivateMaintenanceReach::Reached(()) => {},
        _ => {
            return Err(PrivateRetainedDriveRefusal::Stale);
        },
    }
    match holders.holder(identity.index) {
        Some(PrivateHolderPlace::Taken { index, record, armed, obligation: Some(o) }) => {
            if !o.identity.same_as(&identity) || !armed || index != identity.index || record
                != identity.record || o.closed != closed || o.join != custody.join {
                return Err(PrivateRetainedDriveRefusal::ForeignCommitment);
            }
        },
        _ => {
            return Err(PrivateRetainedDriveRefusal::Uncommitted);
        },
    }
    Ok(PrivateRetainedDriveAuthority { identity, closed })
}

/// The obligation a commitment installs at a connection's own place
/// authorises driving exactly that connection, under the close it recorded
/// -- unless that close was unreadable, which authorises nothing.
pub proof fn law_committed_obligation_authorises_its_drive<D>(
    c: CommitmentView,
    holders: HolderStoreView,
    current: bool,
    custody: PrivateDriveCustody<D>,
)
    requires
        commit_outcome(c, holders, current) == PrivateCommitted::Committed,
        (c.held->0).1.index == (c.held->0).0.index,
        custody.identity == (c.held->0).0,
        custody.join == c.custody.join,
        custody.fence == c.fence.fence,
        custody.published,
        custody.prerequisites is Ok,
        custody.cleanup_claimed == Some(false),
    ensures
        ({
            let after = HolderStoreView {
                holders: holders.holders.update((c.held->0).1.index as int, committed_holder(c)),
                ..holders
            };
            &&& c.fence.fence != Some(PrivateHandoverFence::Unreadable) ==> authorize_spec(
                custody,
                true,
                after,
            ) == Ok::<PrivateRetainedDriveAuthority, PrivateRetainedDriveRefusal<D>>(
                PrivateRetainedDriveAuthority { identity: custody.identity, closed: c.fence.fence->0 },
            )
            &&& c.fence.fence == Some(PrivateHandoverFence::Unreadable) ==> authorize_spec(
                custody,
                true,
                after,
            ) == Err::<PrivateRetainedDriveAuthority, PrivateRetainedDriveRefusal<D>>(
                PrivateRetainedDriveRefusal::FenceUnestablished,
            )
        }),
{
}

} // verus!
