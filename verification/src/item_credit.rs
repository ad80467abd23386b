// The storage charge an accepted ordered item carries.
//
// The charge was reserved before the item was published. Only the prepared
// dequeue transfers it into the outstanding request, and only the disposal of
// an item whose exact completion was observed gives it back -- once.
// Observation alone, a deadline, or dropping the request never return it.
use vstd::prelude::*;
use crate::settlement::{only_credits_changed, sat_sub, PrivateSettlementOwner};

verus! {

/// One accepted request still owed its terminal observation.
pub struct PrivateOutstandingRequest {
    /// Whether its exact completion has been observed.
    observed: bool,
    /// Whether it still holds the store credit its acceptance took.
    credit: bool,
}

impl PrivateOutstandingRequest {
    /// Whether the request's completion has been observed.
    pub closed spec fn is_observed(&self) -> bool {
        self.observed
    }

    /// Whether the request still holds a store credit.
    pub closed spec fn holds_credit(&self) -> bool {
        self.credit
    }

    /// A request accepted with the store credit already reserved for it
    /// transferred in, its completion not yet observed.
    pub fn accepted_in() -> (r: Self)
        ensures
            !r.is_observed(),
            r.holds_credit(),
    {
        PrivateOutstandingRequest { observed: false, credit: true }
    }

    /// A request accepted without a store credit.
    pub fn accepted() -> (r: Self)
        ensures
            !r.is_observed(),
            !r.holds_credit(),
    {
        PrivateOutstandingRequest { observed: false, credit: false }
    }

    /// Record that the request's exact completion was observed.
    pub fn settled(&mut self)
        ensures
            final(self).is_observed(),
            final(self).holds_credit() == old(self).holds_credit(),
    {
        self.observed = true;
    }

    /// Whether the request's completion has been observed.
    pub fn observed(&self) -> (r: bool)
        ensures
            r == self.is_observed(),
    {
        self.observed
    }

    /// Dispose of an item whose completion was observed, giving its store
    /// credit back to `store` once. `store` is `None` when the store has
    /// gone, which refuses: a credit owed to nobody is not a credit returned.
    ///
    /// The credit is cleared before the release, with nothing between them,
    /// so a completed disposal can never return capacity a second time.
    pub fn finish_item<R, P>(&mut self, store: &mut Option<PrivateSettlementOwner<R, P>>) -> (r: bool)
        ensures
            final(self).is_observed() == old(self).is_observed(),
            r == disposal_done(old(self).is_observed(), old(self).holds_credit(), old(store).is_some()),
            final(self).holds_credit() == (old(self).holds_credit() && !r),
            final(store).is_some() == old(store).is_some(),
            old(store).is_some() ==> if disposal_releases(
                old(self).is_observed(),
                old(self).holds_credit(),
                old(store).is_some(),
            ) {
                only_credits_changed(old(store).unwrap()@, final(store).unwrap()@)
                    && final(store).unwrap()@.reserved == sat_sub(old(store).unwrap()@.reserved, 1)
            } else {
                final(store).unwrap()@ == old(store).unwrap()@
            },
            old(store).is_some() && old(store).unwrap().wf() ==> final(store).unwrap().wf(),
    {
        if !self.observed {
            return false;
        }
        if self.credit {
            match store {
                None => {
                    return false;
                },
                Some(owner) => {
                    self.credit = false;
                    owner.release();
                },
            }
        }
        true
    }
}

/// Whether disposing of a request completes: its completion was observed,
/// and any credit it holds has a store to go back to.
pub open spec fn disposal_done(observed: bool, credit: bool, store_present: bool) -> bool {
    observed && (!credit || store_present)
}

/// Whether disposing of a request gives a credit back to the store.
pub open spec fn disposal_releases(observed: bool, credit: bool, store_present: bool) -> bool {
    observed && credit && store_present
}

/// A credit goes back at most once: after a disposal that returned it, the
/// request holds none, and no later disposal returns anything, whatever store
/// it finds.
pub proof fn law_credit_returned_once(observed: bool, credit: bool, first_store: bool, second_store: bool)
    requires
        disposal_releases(observed, credit, first_store),
    ensures
        !disposal_releases(observed, credit && !disposal_done(observed, credit, first_store), second_store),
        disposal_done(observed, credit && !disposal_done(observed, credit, first_store), second_store),
{
}

} // verus!
