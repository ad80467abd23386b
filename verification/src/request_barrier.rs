// One submitter's view of one request's internal-processing completion.
//
// Not a reply and not a delivery receipt: what lands here is the value the
// authority publishes after the effect. The slot is storage and the wake is
// only a wakeup, so a lost or coalesced wake costs a waiter nothing.
use vstd::prelude::*;

verus! {

/// What a barrier slot holds: the request it waits on, and that request's
/// outcome once published.
pub struct PrivateBarrierState<C> {
    /// The request this slot is currently waiting on. Carried so a ticket from
    /// an abandoned request cannot answer the one that replaced it.
    pub armed: Option<u64>,
    pub settled: Option<C>,
}

/// The waiter's half.
pub struct PrivateRequestBarrier<C> {
    state: PrivateBarrierState<C>,
}

/// The executor's half, carried with the work: whoever holds the request
/// holds the only way to answer it.
#[derive(Debug, Clone, Copy, PartialEq, Eq)]
pub struct PrivateBarrierTicket {
    pub request: u64,
}

pub ghost struct BarrierView<C> {
    pub armed: Option<u64>,
    pub settled: Option<C>,
}

impl<C> View for PrivateRequestBarrier<C> {
    type V = BarrierView<C>;

    closed spec fn view(&self) -> BarrierView<C> {
        BarrierView { armed: self.state.armed, settled: self.state.settled }
    }
}

/// What `report` does: the first outcome for the armed request is kept;
/// anything else is nobody's answer.
pub open spec fn report_spec<C>(v: BarrierView<C>, request: u64, completion: C) -> (bool, BarrierView<C>) {
    if v.armed == Some(request) && v.settled is None {
        (true, BarrierView { settled: Some(completion), ..v })
    } else {
        (false, v)
    }
}

/// What `take` does: an outcome, once published, is handed over once and
/// disarms the slot; before that nothing changes.
pub open spec fn take_spec<C>(v: BarrierView<C>) -> (Option<C>, BarrierView<C>) {
    if v.settled is Some {
        (v.settled, BarrierView { armed: None, settled: None })
    } else {
        (None, v)
    }
}

impl<C> PrivateRequestBarrier<C> {
    /// A barrier waiting on nothing.
    pub fn over() -> (r: Self)
        ensures
            r@ == (BarrierView::<C> { armed: None, settled: None }),
    {
        PrivateRequestBarrier { state: PrivateBarrierState { armed: None, settled: None } }
    }

    /// Claim the slot for one request and hand the executor its answer path.
    ///
    /// Arming replaces whatever the slot held: an outcome nobody took answers
    /// a request that is over, and is discarded rather than delivered to the
    /// wrong waiter.
    pub fn arm(&mut self, request: u64) -> (r: PrivateBarrierTicket)
        ensures
            r == (PrivateBarrierTicket { request }),
            final(self)@ == (BarrierView::<C> { armed: Some(request), settled: None }),
    {
        self.state.armed = Some(request);
        self.state.settled = None;
        PrivateBarrierTicket { request }
    }

    /// Take this request's outcome, disarming the slot.
    ///
    /// `None` means it has not been published yet, never that it was refused.
    pub fn take(&mut self) -> (r: Option<C>)
        ensures
            (r, final(self)@) == take_spec(old(self)@),
    {
        let settled = self.state.settled.take();
        if settled.is_some() {
            self.state.armed = None;
        }
        settled
    }

    /// Whether a request is outstanding on this slot.
    pub fn armed(&self) -> (r: bool)
        ensures
            r == self@.armed is Some,
    {
        self.state.armed.is_some()
    }
}

impl PrivateBarrierTicket {
    /// Store this request's outcome. First writer wins; a ticket whose slot
    /// has moved on to another request answers nothing.
    pub fn report<C>(&self, barrier: &mut PrivateRequestBarrier<C>, completion: C) -> (r: bool)
        ensures
            (r, final(barrier)@) == report_spec(old(barrier)@, self.request, completion),
    {
        let current = match barrier.state.armed {
            Some(armed) => armed == self.request,
            None => false,
        };
        if !current || barrier.state.settled.is_some() {
            return false;
        }
        barrier.state.settled = Some(completion);
        true
    }
}

/// A ticket from an abandoned request cannot answer the one that replaced it.
pub proof fn law_stale_ticket_answers_nothing<C>(v: BarrierView<C>, request: u64, completion: C)
    requires
        v.armed != Some(request),
    ensures
        report_spec(v, request, completion) == (false, v),
{
}

/// The first outcome published for a request is the one its waiter takes: a
/// later report for the same request changes nothing.
pub proof fn law_first_writer_wins<C>(v: BarrierView<C>, request: u64, first: C, second: C)
    requires
        v.armed == Some(request),
        v.settled is None,
    ensures
        ({
            let after_first = report_spec(v, request, first).1;
            &&& report_spec(v, request, first).0
            &&& report_spec(after_first, request, second) == (false, after_first)
            &&& take_spec(report_spec(after_first, request, second).1).0 == Some(first)
        }),
{
}

/// An outcome is taken once: taking again finds nothing until the slot is
/// armed and answered anew.
pub proof fn law_outcome_taken_once<C>(v: BarrierView<C>)
    requires
        v.settled is Some,
    ensures
        take_spec(take_spec(v).1).0 is None,
        take_spec(v).1.armed is None,
{
}

} // verus!
