// The producer handoff, as the caller's side sees it.
//
// The service publishes readiness once preparation and binding have
// succeeded, and closes its port as the first act of its exit. A request is
// refused where the caller is when the port is not ready or has ended, and
// is never queued past the backlog. What crosses the channel, and the wait
// for an answer, belong to whoever runs the threads; what each answer means
// is decided here.
use vstd::prelude::*;
use crate::admission::PrivateAdmissionRefusal;

verus! {

/// Where the service stands, as a caller of the access sees it.
#[derive(Debug, Clone, Copy, PartialEq, Eq, Structural)]
pub enum PrivatePortStanding {
    /// Preparation has not succeeded (or the service never began).
    NotReady,
    /// The runner is prepared and the listener bound: producers may be asked
    /// for.
    Ready,
    /// The service has begun its exit: nothing more is issued.
    Ended,
}

/// Why an act that continues a service was refused.
///
/// One kind is about this connection's admission and is the participant's
/// own answer; the other is about the service, and is decided before the
/// participant is asked at all.
#[derive(Debug, Clone, Copy, PartialEq, Eq)]
pub enum PrivateServiceRefusal {
    /// The owner offered is not this service's keeper. Nothing was reserved,
    /// taken or advanced.
    ForeignServiceOwner,
    /// The participant's own answer about this connection.
    Admission(PrivateAdmissionRefusal),
}

/// Why the access could not hand a producer back.
#[derive(Debug, Clone, Copy, PartialEq, Eq)]
pub enum PrivateProducerRefusal {
    /// Asked before readiness was published; nothing was queued.
    NotReady,
    /// Asked after the service closed its port.
    Ended,
    /// The bounded request backlog is full; nothing was queued.
    Backlogged,
    /// The request's lease is not on the owner the service is leased from.
    ForeignServiceOwner,
    /// The runner refused, with its own reason.
    Runner(PrivateServiceRefusal),
    /// The service's loop ended while the request was in flight.
    Unanswered,
    /// The bounded wait for readiness ran out.
    ReadinessTimedOut,
}

/// What became of handing a request to the port's bounded channel.
#[derive(Debug, Clone, Copy, PartialEq, Eq)]
pub enum PrivateRequestHandoff {
    Queued,
    /// The backlog is full.
    Full,
    /// The port's receiving end is gone.
    Disconnected,
}

/// The standing a port publishes, shared by the service and its callers.
pub struct PrivatePortState {
    standing: PrivatePortStanding,
}

/// The standing a port starts in.
pub open spec fn initial_standing() -> PrivatePortStanding {
    PrivatePortStanding::NotReady
}

/// What asking a port in this standing is answered with before anything is
/// queued: nothing, for a ready port, and the refusal otherwise.
pub open spec fn ask_refusal(standing: PrivatePortStanding) -> Option<PrivateProducerRefusal> {
    match standing {
        PrivatePortStanding::NotReady => Some(PrivateProducerRefusal::NotReady),
        PrivatePortStanding::Ended => Some(PrivateProducerRefusal::Ended),
        PrivatePortStanding::Ready => None,
    }
}

impl PrivatePortState {
    pub closed spec fn view(&self) -> PrivatePortStanding {
        self.standing
    }

    /// A port for one service invocation: not ready.
    pub fn for_service() -> (r: Self)
        ensures
            r.view() == initial_standing(),
    {
        PrivatePortState { standing: PrivatePortStanding::NotReady }
    }

    /// Where the service stands now.
    pub fn standing(&self) -> (r: PrivatePortStanding)
        ensures
            r == self.view(),
    {
        self.standing
    }

    /// Publish a new standing.
    pub fn set(&mut self, standing: PrivatePortStanding)
        ensures
            final(self).view() == standing,
    {
        self.standing = standing;
    }

    /// Publish readiness, once preparation and binding have succeeded.
    pub fn publish_ready(&mut self)
        ensures
            final(self).view() == PrivatePortStanding::Ready,
    {
        self.set(PrivatePortStanding::Ready);
    }

    /// Close: nothing more is issued. Closing again changes nothing.
    pub fn close(&mut self)
        ensures
            final(self).view() == PrivatePortStanding::Ended,
    {
        self.set(PrivatePortStanding::Ended);
    }
}

/// Refuse a request where the caller is, before anything is queued, unless
/// the port is ready.
pub fn ask_gate(standing: PrivatePortStanding) -> (r: Result<(), PrivateProducerRefusal>)
    ensures
        match ask_refusal(standing) {
            Some(refusal) => r == Err::<(), PrivateProducerRefusal>(refusal),
            None => r is Ok,
        },
{
    match standing {
        PrivatePortStanding::NotReady => Err(PrivateProducerRefusal::NotReady),
        PrivatePortStanding::Ended => Err(PrivateProducerRefusal::Ended),
        PrivatePortStanding::Ready => Ok(()),
    }
}

/// One look at the standing while waiting, bounded, for readiness: done
/// when ready, refused when the port ended first or the wait ran out, and
/// still waiting otherwise. Ended before ready is a refusal, not a wait.
pub fn readiness_step(standing: PrivatePortStanding, deadline_passed: bool) -> (r: Option<
    Result<(), PrivateProducerRefusal>,
>)
    ensures
        standing == PrivatePortStanding::Ready ==> r == Some(Ok::<(), PrivateProducerRefusal>(())),
        standing == PrivatePortStanding::Ended ==> r == Some(
            Err::<(), PrivateProducerRefusal>(PrivateProducerRefusal::Ended),
        ),
        standing == PrivatePortStanding::NotReady && deadline_passed ==> r == Some(
            Err::<(), PrivateProducerRefusal>(PrivateProducerRefusal::ReadinessTimedOut),
        ),
        standing == PrivatePortStanding::NotReady && !deadline_passed ==> r is None,
{
    match standing {
        PrivatePortStanding::Ready => Some(Ok(())),
        PrivatePortStanding::Ended => Some(Err(PrivateProducerRefusal::Ended)),
        PrivatePortStanding::NotReady => {
            if deadline_passed {
                Some(Err(PrivateProducerRefusal::ReadinessTimedOut))
            } else {
                None
            }
        },
    }
}

/// What handing a request over means for the caller: wait for the answer
/// when queued; refused as backlogged when the backlog is full, and as
/// ended when the port is gone.
pub fn handoff_refusal(handoff: PrivateRequestHandoff) -> (r: Option<PrivateProducerRefusal>)
    ensures
        handoff == PrivateRequestHandoff::Queued ==> r is None,
        handoff == PrivateRequestHandoff::Full ==> r == Some(PrivateProducerRefusal::Backlogged),
        handoff == PrivateRequestHandoff::Disconnected ==> r == Some(PrivateProducerRefusal::Ended),
{
    match handoff {
        PrivateRequestHandoff::Queued => None,
        PrivateRequestHandoff::Full => Some(PrivateProducerRefusal::Backlogged),
        PrivateRequestHandoff::Disconnected => Some(PrivateProducerRefusal::Ended),
    }
}

/// The answer a caller is left with: the loop's reply, or unanswered when
/// the loop ended without replying.
pub fn answered<T>(reply: Option<Result<T, PrivateProducerRefusal>>) -> (r: Result<T, PrivateProducerRefusal>)
    ensures
        match reply {
            Some(answer) => r == answer,
            None => r == Err::<T, PrivateProducerRefusal>(PrivateProducerRefusal::Unanswered),
        },
{
    match reply {
        Some(answer) => answer,
        None => Err(PrivateProducerRefusal::Unanswered),
    }
}

/// A closed port refuses every later ask as ended, however often it is
/// closed.
pub proof fn law_closed_port_refuses(standing: PrivatePortStanding)
    requires
        standing == PrivatePortStanding::Ended,
    ensures
        ask_refusal(standing) == Some(PrivateProducerRefusal::Ended),
{
}

} // verus!
