// Committing one connection's maintenance obligation into the destination its
// reservation set aside, and keeping the evidence that obligation rests on.
//
// Committed is not runnable: this states that a connection is owed
// maintenance, that its worker finished, and what closing its gate returned.
// It authorises nobody to drive the connection's home.
use vstd::prelude::*;
use crate::continuation_places::{
    holds_record, PrivateContinuationPlaces, PrivateMaintenanceIdentity, PrivateOrderedContinuationSlot,
};
use crate::ordered_continuation::PrivateHandoverFence;

verus! {

/// A place in the holder table, set aside for one connection's obligation.
#[derive(Debug, Clone, Copy, PartialEq, Eq, Structural)]
pub struct PrivateHolderDestination {
    /// The store whose holder table this place is in.
    pub store: u64,
    /// The holder place.
    pub index: usize,
    /// The continuation place it was promised to, and that place's record.
    pub for_place: usize,
    pub for_record: u64,
    /// Whether this destination still owes its holder place a disposal.
    pub armed: bool,
}

/// The custody that owns one connection's completed-join evidence.
#[derive(Debug, Clone, Copy, PartialEq, Eq, Structural)]
pub struct PrivateEvidenceCustody {
    /// The store the custody was taken from.
    pub store: u64,
    /// Whose evidence it owns.
    pub identity: PrivateMaintenanceIdentity,
    /// The join whose evidence it owns.
    pub join: u64,
}

/// What a fencing recorded of one connection's gate -- its answer to being
/// closed, where it was asked -- and the join beneath it.
#[derive(Debug, Clone, Copy, PartialEq, Eq, Structural)]
pub struct PrivateFenceRecord {
    pub fence: Option<PrivateHandoverFence>,
    /// The join the fencing rests on.
    pub join: u64,
    /// Whether that join has published its result.
    pub join_published: bool,
}

/// One connection's maintenance obligation, committed: whose it is, what its
/// gate said, and the join it rests on, named.
#[derive(Debug, Clone, Copy, PartialEq, Eq, Structural)]
pub struct PrivateCommittedObligation {
    pub identity: PrivateMaintenanceIdentity,
    pub closed: PrivateHandoverFence,
    pub join: u64,
}

/// One place in the holder table.
#[derive(Debug, Clone, Copy, PartialEq, Eq, Structural)]
pub enum PrivateHolderPlace {
    Free,
    /// Promised to the continuation place with this number.
    Promised(usize),
    /// Holding a credit for one continuation place, and the obligation
    /// committed over it.
    Taken { index: usize, record: u64, armed: bool, obligation: Option<PrivateCommittedObligation> },
}

/// The holder table of one store.
pub struct PrivateHolderStore {
    id: u64,
    holders: Vec<PrivateHolderPlace>,
}

/// What a holder table holds.
pub ghost struct HolderStoreView {
    pub id: u64,
    pub holders: Seq<PrivateHolderPlace>,
}

impl View for PrivateHolderStore {
    type V = HolderStoreView;

    closed spec fn view(&self) -> HolderStoreView {
        HolderStoreView { id: self.id, holders: self.holders@ }
    }
}

/// What a commitment did.
#[derive(Debug, Clone, Copy, PartialEq, Eq, Structural)]
pub enum PrivateCommitted {
    /// The obligation is in this connection's destination and the duty is the
    /// store's.
    Committed,
    /// The evidence this rests on is not complete yet. Nothing was consumed
    /// and nothing was changed.
    NotYetEvidenced,
    /// The place is not the lease's any more, or the destination is not the
    /// one prepared for it.
    Stale,
    /// The destination or the custody is not of this lease.
    Foreign,
    /// This context has already committed.
    AlreadyCommitted,
}

/// What a store says about one committed obligation.
#[derive(Debug, Clone, Copy, PartialEq, Eq, Structural)]
pub struct PrivateCommittedSnapshot {
    pub identity: PrivateMaintenanceIdentity,
    pub closed: PrivateHandoverFence,
    pub join: u64,
}

/// One connection's commitment, bound once to everything it acts on.
pub struct PrivateCommitmentContext {
    custody: PrivateEvidenceCustody,
    fence: PrivateFenceRecord,
    /// The store the lease was reserved from.
    lease_store: u64,
    /// This connection's lease and the destination prepared for it, until a
    /// commitment consumes them.
    held: Option<(PrivateOrderedContinuationSlot, PrivateHolderDestination)>,
}

/// What a commitment context holds, as its parts.
pub ghost struct CommitmentView {
    pub custody: PrivateEvidenceCustody,
    pub fence: PrivateFenceRecord,
    pub lease_store: u64,
    /// The lease's identity and its destination, while they are held.
    pub held: Option<(PrivateMaintenanceIdentity, PrivateHolderDestination)>,
}

impl View for PrivateCommitmentContext {
    type V = CommitmentView;

    closed spec fn view(&self) -> CommitmentView {
        CommitmentView {
            custody: self.custody,
            fence: self.fence,
            lease_store: self.lease_store,
            held: match self.held {
                Some((lease, destination)) => Some(
                    (
                        PrivateMaintenanceIdentity {
                            index: lease.index() as usize,
                            record: lease.record(),
                        },
                        destination,
                    ),
                ),
                None => None,
            },
        }
    }
}

/// What committing decides, in the order it is asked: consumed; parts of
/// another store or another place; a fence not yet recorded; a custody that
/// is not this connection's, by name or by join; a join not yet published;
/// a place or promise that moved on; and otherwise committed.
pub open spec fn commit_outcome(
    c: CommitmentView,
    holders: HolderStoreView,
    current: bool,
) -> PrivateCommitted {
    match c.held {
        None => PrivateCommitted::AlreadyCommitted,
        Some((lease, destination)) => if c.custody.store != c.lease_store || destination.store
            != c.lease_store || destination.for_place != lease.index || destination.for_record
            != lease.record {
            PrivateCommitted::Foreign
        } else if c.fence.fence is None {
            PrivateCommitted::NotYetEvidenced
        } else if c.custody.identity != lease {
            PrivateCommitted::Foreign
        } else if c.fence.join != c.custody.join {
            PrivateCommitted::Foreign
        } else if !c.fence.join_published {
            PrivateCommitted::NotYetEvidenced
        } else if !current || !(0 <= destination.index < holders.holders.len()
            && holders.holders[destination.index as int] == PrivateHolderPlace::Promised(
            destination.for_place,
        )) {
            PrivateCommitted::Stale
        } else {
            PrivateCommitted::Committed
        }
    }
}

/// The holder a committed obligation leaves in its destination: an armed
/// credit for the place, with the obligation named over it.
pub open spec fn committed_holder(c: CommitmentView) -> PrivateHolderPlace {
    let lease = (c.held->0).0;
    PrivateHolderPlace::Taken {
        index: lease.index,
        record: lease.record,
        armed: true,
        obligation: Some(
            PrivateCommittedObligation {
                identity: lease,
                closed: c.fence.fence->0,
                join: c.custody.join,
            },
        ),
    }
}

impl PrivateHolderStore {
    /// A holder table for store `id`, with `places` free places.
    pub fn new(id: u64, places: usize) -> (r: Self)
        ensures
            r@.id == id,
            r@.holders == Seq::new(places as nat, |i: int| PrivateHolderPlace::Free),
    {
        let mut holders: Vec<PrivateHolderPlace> = Vec::new();
        let mut i: usize = 0;
        while i < places
            invariant
                i <= places,
                holders@ == Seq::new(i as nat, |j: int| PrivateHolderPlace::Free),
            decreases places - i,
        {
            holders.push(PrivateHolderPlace::Free);
            proof {
                assert(holders@ =~= Seq::new((i + 1) as nat, |j: int| PrivateHolderPlace::Free));
            }
            i = i + 1;
        }
        PrivateHolderStore { id, holders }
    }

    /// Promise a free holder place to continuation place `place`, naming a
    /// destination for it; `None` where the holder place is not free.
    pub fn promise(&mut self, index: usize, place: usize, record: u64) -> (r: Option<
        PrivateHolderDestination,
    >)
        ensures
            (index < old(self)@.holders.len() && old(self)@.holders[index as int]
                == PrivateHolderPlace::Free) ==> r == Some(
                PrivateHolderDestination {
                    store: old(self)@.id,
                    index,
                    for_place: place,
                    for_record: record,
                    armed: true,
                },
            ) && final(self)@ == (HolderStoreView {
                holders: old(self)@.holders.update(index as int, PrivateHolderPlace::Promised(place)),
                ..old(self)@
            }),
            !(index < old(self)@.holders.len() && old(self)@.holders[index as int]
                == PrivateHolderPlace::Free) ==> r is None && final(self)@ == old(self)@,
    {
        if index >= self.holders.len() {
            return None;
        }
        match self.holders[index] {
            PrivateHolderPlace::Free => {},
            _ => {
                return None;
            },
        }
        self.holders.set(index, PrivateHolderPlace::Promised(place));
        Some(
            PrivateHolderDestination {
                store: self.id,
                index,
                for_place: place,
                for_record: record,
                armed: true,
            },
        )
    }

    /// The holder place at `index`, where there is one.
    pub fn holder(&self, index: usize) -> (r: Option<PrivateHolderPlace>)
        ensures
            r == if index < self@.holders.len() {
                Some(self@.holders[index as int])
            } else {
                None::<PrivateHolderPlace>
            },
    {
        if index < self.holders.len() {
            Some(self.holders[index])
        } else {
            None
        }
    }

    /// What this store says about the obligation committed at a holder place.
    pub fn committed_obligation(&self, index: usize) -> (r: Option<PrivateCommittedSnapshot>)
        ensures
            r == if 0 <= index < self@.holders.len() {
                match self@.holders[index as int] {
                    PrivateHolderPlace::Taken { obligation: Some(o), .. } => Some(
                        PrivateCommittedSnapshot {
                            identity: o.identity,
                            closed: o.closed,
                            join: o.join,
                        },
                    ),
                    _ => None,
                }
            } else {
                None::<PrivateCommittedSnapshot>
            },
    {
        if index >= self.holders.len() {
            return None;
        }
        match self.holders[index] {
            PrivateHolderPlace::Taken { obligation: Some(o), .. } => Some(
                PrivateCommittedSnapshot { identity: o.identity, closed: o.closed, join: o.join },
            ),
            _ => None,
        }
    }
}

impl PrivateCommitmentContext {
    /// Bind a commitment once to this connection's custody, fence, lease and
    /// prepared destination. That the parts belong to one connection is the
    /// caller's to establish; binding them stops them being changed.
    pub fn bound_to(
        custody: PrivateEvidenceCustody,
        fence: PrivateFenceRecord,
        lease_store: u64,
        lease: PrivateOrderedContinuationSlot,
        destination: PrivateHolderDestination,
    ) -> (r: Self)
        ensures
            r@ == (CommitmentView {
                custody,
                fence,
                lease_store,
                held: Some(
                    (
                        PrivateMaintenanceIdentity { index: lease.index() as usize, record: lease.record() },
                        destination,
                    ),
                ),
            }),
    {
        PrivateCommitmentContext { custody, fence, lease_store, held: Some((lease, destination)) }
    }

    /// Take back the lease and destination, if this context has not
    /// committed.
    pub fn into_parts(self) -> (r: Option<(PrivateOrderedContinuationSlot, PrivateHolderDestination)>)
        ensures
            r is Some <==> self@.held is Some,
            r matches Some((lease, destination)) ==> self@.held == Some(
                (
                    PrivateMaintenanceIdentity { index: lease.index() as usize, record: lease.record() },
                    destination,
                ),
            ),
    {
        self.held
    }

    /// Commit this connection's maintenance obligation into the destination
    /// reserved for it.
    ///
    /// Everything that can refuse is asked before anything is consumed, so a
    /// refused commitment leaves the context and the store as it found them,
    /// and the same context may ask again. Committing installs the obligation
    /// and hands the duty to the store in one step, and consumes the lease and
    /// destination: it cannot commit twice.
    pub fn commit<P>(&mut self, holders: &mut PrivateHolderStore, places: &PrivateContinuationPlaces<P>) -> (r:
        PrivateCommitted)
        requires
            old(holders)@.id == old(self)@.custody.store,
        ensures
            r == commit_outcome(
                old(self)@,
                old(holders)@,
                old(self)@.held matches Some((lease, _)) && holds_record(
                    places@.places,
                    lease.index as int,
                    lease.record,
                ),
            ),
            r == PrivateCommitted::Committed ==> {
                &&& final(self)@ == (CommitmentView { held: None, ..old(self)@ })
                &&& final(holders)@ == (HolderStoreView {
                    holders: old(holders)@.holders.update(
                        (old(self)@.held->0).1.index as int,
                        committed_holder(old(self)@),
                    ),
                    ..old(holders)@
                })
            },
            r != PrivateCommitted::Committed ==> final(self)@ == old(self)@ && final(holders)@ == old(
                holders,
            )@,
    {
        let (lease_identity, destination, current) = match &self.held {
            None => {
                return PrivateCommitted::AlreadyCommitted;
            },
            Some((lease, destination)) => {
                proof {
                    lease.lemma_index_fits();
                }
                (lease.maintenance_identity(), *destination, lease.holds(places))
            },
        };
        if self.custody.store != self.lease_store || destination.store != self.lease_store
            || destination.for_place != lease_identity.index || destination.for_record
            != lease_identity.record {
            return PrivateCommitted::Foreign;
        }
        // Asked before anything is consumed, so an early visit leaves this
        // context exactly as it found it.
        let closed = match self.fence.fence {
            None => {
                return PrivateCommitted::NotYetEvidenced;
            },
            Some(closed) => closed,
        };
        // The custody must be this connection's, by name and by join.
        if !self.custody.identity.same_as(&lease_identity) {
            return PrivateCommitted::Foreign;
        }
        if self.fence.join != self.custody.join {
            return PrivateCommitted::Foreign;
        }
        if !self.fence.join_published {
            return PrivateCommitted::NotYetEvidenced;
        }
        // Both halves are asked: a place whose work settled goes back, and a
        // successor's promise matches by number while its home does not.
        let promised = destination.index < holders.holders.len() && match holders.holders[destination.index] {
            PrivateHolderPlace::Promised(place) => place == destination.for_place,
            _ => false,
        };
        if !current || !promised {
            return PrivateCommitted::Stale;
        }
        let holder = PrivateHolderPlace::Taken {
            index: lease_identity.index,
            record: lease_identity.record,
            armed: true,
            obligation: Some(
                PrivateCommittedObligation { identity: lease_identity, closed, join: self.custody.join },
            ),
        };
        holders.holders.set(destination.index, holder);
        // Consumed: this context has committed and cannot do so again.
        self.held = None;
        PrivateCommitted::Committed
    }
}

/// A refused commitment changes nothing, and a context that committed once
/// answers every later commitment as already committed.
pub proof fn law_commitment_happens_once(
    c: CommitmentView,
    holders: HolderStoreView,
    current: bool,
    later: HolderStoreView,
    later_current: bool,
)
    requires
        commit_outcome(c, holders, current) == PrivateCommitted::Committed,
    ensures
        commit_outcome(CommitmentView { held: None, ..c }, later, later_current)
            == PrivateCommitted::AlreadyCommitted,
{
}

} // verus!
