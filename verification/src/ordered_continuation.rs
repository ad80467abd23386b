// What one connection's ordered output still owes after that connection ends.
//
// A connection's output is retained whole: a serving owner, or -- for a
// connection whose setup refused before it could be served -- the queue it
// had already published and, if it got as far as binding, the transport that
// can still end its wire. Nothing here is unpacked or turned back into
// anything replayable. A visit takes one bounded step of what is owed; the
// settled predicate and the disposition only read facts those steps recorded,
// because asking a channel anything means receiving from it.
use vstd::prelude::*;
use crate::continuation_places::PrivateOrderedContinuationDuty;

verus! {

/// What became of the worker that was to serve a connection.
#[derive(Debug, Clone, Copy, PartialEq, Eq)]
pub enum PrivateOrderedWorkerExit {
    /// Nobody ever started one; nothing is joined to make the account look
    /// complete.
    NeverStarted,
}

/// What closing a connection's endpoint established.
#[derive(Debug, Clone, Copy, PartialEq, Eq, Structural)]
pub enum PrivateHandoverFence {
    /// This close established that the endpoint admits nothing further.
    Established,
    /// An earlier close had already established it.
    AlreadyEstablished,
    /// The endpoint could not be inspected, so nothing about closure is known.
    Unreadable,
}

/// What is known about a connection's ordered output when it is retained:
/// three separate facts, each established by a different thing.
#[derive(Debug, Clone, Copy, PartialEq, Eq)]
pub struct PrivateOrderedEvidence {
    /// What closing the endpoint established at teardown; `None` when no
    /// outcome was recorded, not that the endpoint is open.
    pub fence: Option<PrivateHandoverFence>,
    pub worker: PrivateOrderedWorkerExit,
    /// Whether the home was found poisoned when the connection ended.
    pub source_poisoned: bool,
}

impl PrivateOrderedEvidence {
    /// Nothing established yet: a connection being built.
    pub fn unstarted() -> (r: Self)
        ensures
            r.fence is None,
            r.worker == PrivateOrderedWorkerExit::NeverStarted,
            !r.source_poisoned,
    {
        PrivateOrderedEvidence { fence: None, worker: PrivateOrderedWorkerExit::NeverStarted, source_poisoned: false }
    }
}

/// What receiving once from a queue found.
pub enum PrivateReceived<D> {
    Capsule(D),
    /// Nothing waiting, producers still present.
    Empty,
    /// Every producer is gone: nothing can arrive any more.
    Disconnected,
}

/// What one receive does to a setup record's custody: a capsule is kept,
/// pushed after what is already retained; a finished channel is recorded
/// drained; an empty queue changes nothing.
pub open spec fn after_receive<D>(retained: Seq<D>, drained: bool, received: PrivateReceived<D>) -> (Seq<D>, bool) {
    match received {
        PrivateReceived::Capsule(c) => (retained.push(c), drained),
        PrivateReceived::Empty => (retained, drained),
        PrivateReceived::Disconnected => (retained, true),
    }
}

/// Whether a visit receives at all: only while fewer capsules are retained
/// than the queue itself could hold.
pub open spec fn receive_due(held: nat, capacity: usize) -> bool {
    held < capacity
}

/// Whether a visit holding `held` capsules receives from a queue of
/// `capacity`.
pub fn may_receive(held: usize, capacity: usize) -> (r: bool)
    ensures
        r == receive_due(held as nat, capacity),
{
    held < capacity
}

/// Keep what one receive returned.
pub fn keep_received<D>(retained: &mut Vec<D>, drained: &mut bool, received: PrivateReceived<D>)
    ensures
        (final(retained)@, *final(drained)) == after_receive(old(retained)@, *old(drained), received),
{
    match received {
        PrivateReceived::Capsule(capsule) => {
            retained.push(capsule);
        },
        PrivateReceived::Empty => {},
        PrivateReceived::Disconnected => {
            *drained = true;
        },
    }
}

/// What ending a wire came to.
#[derive(Debug, Clone, Copy, PartialEq, Eq)]
pub enum PrivateShutdown<K> {
    /// Ended.
    Ended,
    /// The peer had already gone: nothing left to end.
    NotConnected,
    /// Refused, with the kind that refused.
    Refused(K),
}

/// A connection's ordered queue, and the wire its transport can end.
///
/// Their answers are their own: nothing here states what a receive finds or
/// what a shutdown comes to.
pub trait PrivateOrderedQueue<D, K> {
    /// How many capsules the queue itself can hold.
    fn capacity(&self) -> usize;

    /// Receive once, without waiting.
    fn try_recv(&self) -> PrivateReceived<D>;

    /// End the connection's wire in both directions.
    fn shutdown(&mut self) -> PrivateShutdown<K>;
}

/// A serving owner's close, and what its records say.
///
/// Its answers are its own.
pub trait PrivateServingClose<K> {
    /// Begin (or retry) the close; false when it refused again or has no
    /// attempts left.
    fn begin_close(&mut self) -> bool;

    /// Advance a begun close by one bounded step.
    fn advance_close(&mut self);

    /// What the owner's records say, read without changing anything.
    fn reading(&self) -> PrivateServingReading<K>;
}

/// Why a retained connection's wire is where it is: four different facts.
#[derive(Debug, Clone, Copy, PartialEq, Eq)]
pub enum PrivateRetainedEnding<K> {
    /// Ended, and the ending established.
    Ended,
    /// Nothing here is able to end it.
    NoCapability,
    /// Ending it was tried and refused.
    Refused(K),
    /// It can be ended and has not been tried yet.
    Unattempted,
}

/// How a serving owner's close ended the wire, as its close record says.
#[derive(Debug, Clone, Copy, PartialEq, Eq)]
pub enum PrivateCloseTermination<K> {
    /// Termination was established.
    Established,
    /// Ending the wire was refused, for this reason.
    Refused(K),
    /// Neither, yet.
    Pending,
}

/// A serving owner's close record.
#[derive(Debug, Clone, Copy, PartialEq, Eq)]
pub struct PrivateServingClosing<K> {
    pub termination: PrivateCloseTermination<K>,
    /// Whether the close found the channel finished.
    pub drained: bool,
    /// Whether the close has made every attempt it may make.
    pub attempts_spent: bool,
}

/// What a serving owner's records hold about its connection, read without
/// changing anything.
#[derive(Debug, Clone, Copy, PartialEq, Eq)]
pub struct PrivateServingReading<K> {
    /// Whether an ending of the wire was established, by whatever path.
    pub ending_ended: bool,
    /// The close record, once a close was begun.
    pub closing: Option<PrivateServingClosing<K>>,
    /// Why a shutdown of the wire was refused, when one was.
    pub shutdown_refused: Option<K>,
    /// Whether the owner is still unterminated.
    pub unterminated: bool,
    /// Completions held and not yet answered.
    pub retained_unanswered: usize,
    /// Capsules held that belong to another endpoint.
    pub retained_foreign: usize,
    /// Whether a capsule is in flight in the writer.
    pub in_flight: bool,
    /// Whether a refused capsule is held.
    pub refused: bool,
}

/// Where a serving owner's wire stands. An established ending is the ending,
/// whatever else is recorded beside it; otherwise a refused close, then a
/// refused shutdown, says why; anything else is not yet attempted.
pub open spec fn serving_ending<K>(rd: PrivateServingReading<K>) -> PrivateRetainedEnding<K> {
    if rd.ending_ended {
        PrivateRetainedEnding::Ended
    } else if rd.closing is Some && rd.closing->0.termination is Refused {
        PrivateRetainedEnding::Refused(rd.closing->0.termination->Refused_0)
    } else if rd.shutdown_refused is Some {
        PrivateRetainedEnding::Refused(rd.shutdown_refused->0)
    } else {
        PrivateRetainedEnding::Unattempted
    }
}

/// Every slot of a serving owner that holds something, counted up to the
/// largest count there is.
pub open spec fn serving_retained<K>(rd: PrivateServingReading<K>) -> usize {
    let total = rd.retained_unanswered + rd.retained_foreign + (if rd.in_flight {
        1int
    } else {
        0int
    }) + (if rd.refused {
        1int
    } else {
        0int
    });
    if total > usize::MAX {
        usize::MAX
    } else {
        total as usize
    }
}

/// Whether a serving owner has answered for everything it held: nothing
/// retained, in flight or refused, terminated, and its close established
/// termination with the channel finished.
pub open spec fn serving_closed_out<K>(rd: PrivateServingReading<K>) -> bool {
    &&& rd.retained_unanswered == 0
    &&& rd.retained_foreign == 0
    &&& !rd.in_flight
    &&& !rd.refused
    &&& !rd.unterminated
    &&& rd.closing is Some
    &&& rd.closing->0.termination is Established
    &&& rd.closing->0.drained
}

/// A serving owner is reported settled only when nothing is held: no
/// completion is retained unanswered or for another instance, nothing is in
/// flight or refused, so its retained count is zero; its closure was
/// established, its close terminated and drained, and nothing is left
/// unterminated. Any completion still held unanswered keeps it unsettled.
pub proof fn law_settled_serving_holds_nothing<K>(fence: Option<PrivateHandoverFence>, rd: PrivateServingReading<K>)
    ensures
        serving_disposition_spec(fence, rd).settled ==> {
            &&& rd.retained_unanswered == 0
            &&& rd.retained_foreign == 0
            &&& !rd.in_flight
            &&& !rd.refused
            &&& !rd.unterminated
            &&& (fence == Some(PrivateHandoverFence::Established) || fence == Some(
                PrivateHandoverFence::AlreadyEstablished,
            ))
            &&& rd.closing is Some && rd.closing->0.termination is Established && rd.closing->0.drained
            &&& serving_disposition_spec(fence, rd).retained == 0
        },
        rd.retained_unanswered > 0 || rd.retained_foreign > 0 || rd.in_flight || rd.refused ==> !serving_disposition_spec(
            fence,
            rd,
        ).settled,
        // What is retained counts every completion held, each flight and
        // refusal once, up to what a count can hold.
        (serving_disposition_spec(fence, rd).retained == 0) <==> (rd.retained_unanswered == 0
            && rd.retained_foreign == 0 && !rd.in_flight && !rd.refused),
        serving_disposition_spec(fence, rd).retained >= rd.retained_unanswered,
        serving_disposition_spec(fence, rd).retained >= rd.retained_foreign,
        rd.retained_unanswered + rd.retained_foreign + 2 <= usize::MAX ==> serving_disposition_spec(
            fence,
            rd,
        ).retained == rd.retained_unanswered + rd.retained_foreign + (if rd.in_flight {
            1int
        } else {
            0int
        }) + (if rd.refused {
            1int
        } else {
            0int
        }),
        // The closure reported is the one recorded.
        serving_disposition_spec(fence, rd).closure == fence,
{
}

/// A serving owner's disposition, from its evidence and its records.
pub open spec fn serving_disposition_spec<K>(
    fence: Option<PrivateHandoverFence>,
    rd: PrivateServingReading<K>,
) -> PrivateRetainedDisposition<K> {
    PrivateRetainedDisposition {
        closure: fence,
        ending: serving_ending(rd),
        drained: rd.closing is Some && rd.closing->0.drained,
        retained: serving_retained(rd),
        retries_exhausted: rd.closing is Some && !(rd.closing->0.termination is Established)
            && rd.closing->0.attempts_spent,
        settled: closure_established(fence) && serving_closed_out(rd),
    }
}

/// What a connection had accepted when its setup refused: how far it got
/// decides what there is to keep.
pub enum PrivateOrderedSetupCustody<Q> {
    /// Published, never bound: the queue and nothing able to end the wire.
    Receiver(Q),
    /// Bound, never served: the queue and the transport that can end it.
    Transport(Q),
}

/// A connection's ordered output, retained whole.
pub enum PrivateOrderedContinuation<Q, S, D, R, K> {
    /// A receiver minted and published before a serving owner could be built.
    Setup {
        accepted: PrivateOrderedSetupCustody<Q>,
        refusal: R,
        evidence: PrivateOrderedEvidence,
        /// Capsules taken off the queue, still owed an answer.
        retained: Vec<D>,
        /// Whether the queue's producers are gone, as observed receiving.
        drained: bool,
        /// Whether the wire has been ended.
        ended: bool,
        /// Why ending it refused, when it did.
        ending_refused: Option<K>,
    },
    /// A serving owner, whole.
    Serving { owner: S, evidence: PrivateOrderedEvidence },
}

/// A retained connection, as far as anything can establish: a reading, not
/// a decision.
#[derive(Debug, Clone, Copy, PartialEq, Eq)]
pub struct PrivateRetainedDisposition<K> {
    pub closure: Option<PrivateHandoverFence>,
    pub ending: PrivateRetainedEnding<K>,
    pub drained: bool,
    pub retained: usize,
    pub retries_exhausted: bool,
    pub settled: bool,
}

/// Whether a recorded fence established closure.
pub open spec fn closure_established(fence: Option<PrivateHandoverFence>) -> bool {
    fence == Some(PrivateHandoverFence::Established) || fence == Some(PrivateHandoverFence::AlreadyEstablished)
}

/// Where a setup record's wire stands.
pub open spec fn setup_ending<Q, K>(
    accepted: PrivateOrderedSetupCustody<Q>,
    ended: bool,
    ending_refused: Option<K>,
) -> PrivateRetainedEnding<K> {
    if ended {
        PrivateRetainedEnding::Ended
    } else if ending_refused is Some {
        PrivateRetainedEnding::Refused(ending_refused->0)
    } else if accepted is Receiver {
        PrivateRetainedEnding::NoCapability
    } else {
        PrivateRetainedEnding::Unattempted
    }
}

/// What one bounded visit may do to a retained continuation.
///
/// It stays the same kind with the same evidence. A setup record keeps its
/// refusal and its custody kind; a wire already ended stays ended; an
/// unended wire with a transport is ended or its refusal recorded; the
/// drained mark is never taken back; at most one capsule is added; and a
/// visit that found the producers gone adds none.
pub open spec fn visited_once<Q, S, D, R, K>(
    pre: PrivateOrderedContinuation<Q, S, D, R, K>,
    post: PrivateOrderedContinuation<Q, S, D, R, K>,
) -> bool {
    &&& (pre is Setup <==> post is Setup)
    &&& post.evidence_of() == pre.evidence_of()
    &&& match pre {
        PrivateOrderedContinuation::Setup {
            accepted: a0,
            refusal: f0,
            retained: r0,
            drained: d0,
            ended: e0,
            ending_refused: x0,
            ..
        } => match post {
            PrivateOrderedContinuation::Setup {
                accepted: a1,
                refusal: f1,
                retained: r1,
                drained: d1,
                ended: e1,
                ending_refused: x1,
                ..
            } => {
                &&& f1 == f0
                &&& (a0 is Receiver <==> a1 is Receiver)
                &&& (e0 ==> e1 && x1 == x0)
                &&& (a0 is Receiver ==> e1 == e0 && x1 == x0)
                &&& (a0 is Transport && !e0 ==> e1 || x1 is Some)
                &&& (d0 ==> d1)
                &&& (r1@ == r0@ || exists|c: D| r1@ == r0@.push(c))
                &&& (d1 != d0 ==> r1@ == r0@)
            },
            PrivateOrderedContinuation::Serving { .. } => false,
        },
        PrivateOrderedContinuation::Serving { .. } => true,
    }
}

/// What a setup record's visit did with its queue `q`: it asked the queue's
/// capacity; below it, it received once and kept exactly what the receive
/// returned (a capsule pushed after what was retained, a finished channel
/// recorded drained); at or above it, it received nothing and its custody
/// stayed as it was.
pub open spec fn received_from<Q, D, K>(
    q: Q,
    retained: Seq<D>,
    drained: bool,
    retained_after: Seq<D>,
    drained_after: bool,
) -> bool where Q: PrivateOrderedQueue<D, K> {
    exists|capacity: usize| #[trigger] call_ensures(Q::capacity, (&q,), capacity) && if receive_due(retained.len(), capacity) {
        exists|received: PrivateReceived<D>| #[trigger] call_ensures(Q::try_recv, (&q,), received)
            && (retained_after, drained_after) == after_receive(retained, drained, received)
    } else {
        retained_after == retained && drained_after == drained
    }
}

/// A setup record's visit took what its custody holds only from its own
/// queue, by the rule `received_from` states; a serving owner's visit holds
/// no custody of capsules.
pub open spec fn visit_received<Q, S, D, R, K>(
    pre: PrivateOrderedContinuation<Q, S, D, R, K>,
    post: PrivateOrderedContinuation<Q, S, D, R, K>,
) -> bool where Q: PrivateOrderedQueue<D, K> {
    match (pre, post) {
        (
            PrivateOrderedContinuation::Setup { accepted: a0, retained: r0, drained: d0, .. },
            PrivateOrderedContinuation::Setup { accepted: a1, retained: r1, drained: d1, .. },
        ) => {
            let q0 = match a0 {
                PrivateOrderedSetupCustody::Receiver(q) => q,
                PrivateOrderedSetupCustody::Transport(q) => q,
            };
            let q1 = match a1 {
                PrivateOrderedSetupCustody::Receiver(q) => q,
                PrivateOrderedSetupCustody::Transport(q) => q,
            };
            received_from::<Q, D, K>(q1, r0@, d0, r1@, d1)
        },
        _ => true,
    }
}

/// What a settled reading says: a setup record is settled exactly when
/// closure was established, its producers are gone, its wire is ended and
/// it holds nothing; a serving owner only once closure was established.
pub open spec fn settled_reading<Q, S, D, R, K>(c: PrivateOrderedContinuation<Q, S, D, R, K>, r: bool) -> bool {
    match c {
        PrivateOrderedContinuation::Setup { evidence, retained, drained, ended, .. } => r == (
        closure_established(evidence.fence) && drained && ended && retained@.len() == 0),
        PrivateOrderedContinuation::Serving { evidence, .. } => {
            &&& r ==> closure_established(evidence.fence)
            &&& closure_established(evidence.fence) ==> exists|rd: PrivateServingReading<K>|
                #[trigger] serving_closed_out(rd) == r
        },
    }
}

impl<Q, S, D, R, K> PrivateOrderedContinuation<Q, S, D, R, K> {
    /// The evidence this continuation carries, whichever case it is.
    pub open spec fn evidence_of(&self) -> PrivateOrderedEvidence {
        match self {
            PrivateOrderedContinuation::Setup { evidence, .. } => *evidence,
            PrivateOrderedContinuation::Serving { evidence, .. } => *evidence,
        }
    }

    /// The queue this continuation still holds, for a setup record.
    pub fn queue(&self) -> (r: Option<&Q>)
        ensures
            match self {
                PrivateOrderedContinuation::Setup { accepted, .. } => r == Some(
                    match accepted {
                        PrivateOrderedSetupCustody::Receiver(q) => q,
                        PrivateOrderedSetupCustody::Transport(q) => q,
                    },
                ),
                PrivateOrderedContinuation::Serving { .. } => r is None,
            },
    {
        match self {
            PrivateOrderedContinuation::Setup { accepted, .. } => match accepted {
                PrivateOrderedSetupCustody::Receiver(queue) => Some(queue),
                PrivateOrderedSetupCustody::Transport(queue) => Some(queue),
            },
            PrivateOrderedContinuation::Serving { .. } => None,
        }
    }
}

impl<Q: PrivateOrderedQueue<D, K>, S: PrivateServingClose<K>, D, R, K: Copy> PrivateOrderedContinuation<Q, S, D, R, K> {
    /// Whether this continuation owes nothing more, read from what visits
    /// recorded.
    ///
    /// A setup record needs closure established, its producers gone, its
    /// wire ended and nothing held. A serving owner needs closure established
    /// and its own close to have answered for everything.
    pub fn settled_now(&self) -> (r: bool)
        ensures
            settled_reading(*self, r),
    {
        match self {
            PrivateOrderedContinuation::Setup { evidence, retained, drained, ended, .. } => {
                established(evidence.fence) && *drained && *ended && retained.len() == 0
            },
            PrivateOrderedContinuation::Serving { owner, evidence } => {
                let reading = owner.reading();
                let d = serving_disposition(evidence.fence, &reading);
                proof {
                    assert(closure_established(evidence.fence) ==> serving_closed_out(reading) == d.settled);
                }
                d.settled
            },
        }
    }

    /// One bounded step of whatever this continuation still owes.
    ///
    /// A setup record ends its wire if it holds a transport and has not
    /// ended it; a receiver alone has nothing to end it with, and having no
    /// handle is not having ended anything. Then, with room below what the
    /// queue itself could hold, it receives once: a capsule goes into
    /// retained custody, a finished channel is recorded drained. A serving
    /// owner retries its close and advances it once begun.
    pub fn visit_once(&mut self)
        ensures
            visited_once(*old(self), *final(self)),
            visit_received(*old(self), *final(self)),
    {
        match self {
            PrivateOrderedContinuation::Setup { accepted, retained, drained, ended, ending_refused, .. } => {
                if !*ended {
                    match accepted {
                        PrivateOrderedSetupCustody::Receiver(_) => {},
                        PrivateOrderedSetupCustody::Transport(transport) => {
                            match transport.shutdown() {
                                PrivateShutdown::Ended => {
                                    *ended = true;
                                },
                                PrivateShutdown::NotConnected => {
                                    *ended = true;
                                },
                                PrivateShutdown::Refused(kind) => {
                                    *ending_refused = Some(kind);
                                },
                            }
                        },
                    }
                }
                let queue = match accepted {
                    PrivateOrderedSetupCustody::Receiver(queue) => queue,
                    PrivateOrderedSetupCustody::Transport(queue) => queue,
                };
                let ask_capacity = Q::capacity;
                let capacity = ask_capacity(queue);
                if !may_receive(retained.len(), capacity) {
                    return;
                }
                let receive = Q::try_recv;
                let received = receive(queue);
                keep_received(retained, drained, received);
            },
            PrivateOrderedContinuation::Serving { owner, .. } => {
                if owner.begin_close() {
                    owner.advance_close();
                }
            },
        }
    }

    /// Read this record without changing or concluding anything: where its
    /// closure, its wire, its producers and its custody stand, side by side.
    pub fn disposition(&self) -> (r: PrivateRetainedDisposition<K>)
        ensures
            r.closure == self.evidence_of().fence,
            match self {
                PrivateOrderedContinuation::Setup { accepted, retained, drained, ended, ending_refused, evidence, .. } => {
                    &&& r.ending == setup_ending(*accepted, *ended, *ending_refused)
                    &&& r.drained == *drained
                    &&& r.retained == retained@.len()
                    &&& !r.retries_exhausted
                    &&& r.settled == (closure_established(evidence.fence) && *drained && *ended && retained@.len() == 0)
                },
                PrivateOrderedContinuation::Serving { evidence, .. } => exists|rd: PrivateServingReading<K>|
                    #[trigger] serving_disposition_spec(evidence.fence, rd) == r,
            },
    {
        match self {
            PrivateOrderedContinuation::Setup { accepted, evidence, retained, drained, ended, ending_refused, .. } => {
                let ending = if *ended {
                    PrivateRetainedEnding::Ended
                } else {
                    match ending_refused {
                        Some(kind) => PrivateRetainedEnding::Refused(*kind),
                        None => match accepted {
                            PrivateOrderedSetupCustody::Receiver(_) => PrivateRetainedEnding::NoCapability,
                            PrivateOrderedSetupCustody::Transport(_) => PrivateRetainedEnding::Unattempted,
                        },
                    }
                };
                PrivateRetainedDisposition {
                    closure: evidence.fence,
                    ending,
                    drained: *drained,
                    retained: retained.len(),
                    retries_exhausted: false,
                    settled: self.settled_now(),
                }
            },
            PrivateOrderedContinuation::Serving { owner, evidence } => {
                let reading = owner.reading();
                let d = serving_disposition(evidence.fence, &reading);
                d
            },
        }
    }
}

/// A serving owner's disposition, from its evidence and what its records
/// hold.
pub fn serving_disposition<K: Copy>(fence: Option<PrivateHandoverFence>, reading: &PrivateServingReading<K>) -> (r:
    PrivateRetainedDisposition<K>)
    ensures
        r == serving_disposition_spec(fence, *reading),
        r.settled ==> reading.retained_unanswered == 0 && reading.retained_foreign == 0 && !reading.in_flight
            && !reading.refused && r.retained == 0,
        reading.retained_unanswered > 0 ==> !r.settled,
{
    let ending = if reading.ending_ended {
        PrivateRetainedEnding::Ended
    } else {
        match (reading.closing, reading.shutdown_refused) {
            (Some(PrivateServingClosing { termination: PrivateCloseTermination::Refused(kind), .. }), _) => {
                PrivateRetainedEnding::Refused(kind)
            },
            (_, Some(kind)) => PrivateRetainedEnding::Refused(kind),
            _ => PrivateRetainedEnding::Unattempted,
        }
    };
    let (drained, retries_exhausted, closed) = match reading.closing {
        Some(closing) => {
            let established_close = match closing.termination {
                PrivateCloseTermination::Established => true,
                _ => false,
            };
            (closing.drained, !established_close && closing.attempts_spent, established_close && closing.drained)
        },
        None => (false, false, false),
    };
    let in_flight: usize = if reading.in_flight {
        1
    } else {
        0
    };
    let refused: usize = if reading.refused {
        1
    } else {
        0
    };
    let retained = reading.retained_unanswered.saturating_add(reading.retained_foreign).saturating_add(
        in_flight,
    ).saturating_add(refused);
    let closed_out = reading.retained_unanswered == 0 && reading.retained_foreign == 0 && !reading.in_flight
        && !reading.refused && !reading.unterminated && closed;
    PrivateRetainedDisposition {
        closure: fence,
        ending,
        drained,
        retained,
        retries_exhausted,
        settled: established(fence) && closed_out,
    }
}

/// Whether a recorded fence established closure.
fn established(fence: Option<PrivateHandoverFence>) -> (r: bool)
    ensures
        r == closure_established(fence),
{
    match fence {
        Some(PrivateHandoverFence::Established) => true,
        Some(PrivateHandoverFence::AlreadyEstablished) => true,
        _ => false,
    }
}

impl<Q: PrivateOrderedQueue<D, K>, S: PrivateServingClose<K>, D, R, K: Copy> PrivateOrderedContinuationDuty for PrivateOrderedContinuation<
    Q,
    S,
    D,
    R,
    K,
> {
    fn visit(&mut self)
        ensures
            visited_once(*old(self), *final(self)),
            visit_received(*old(self), *final(self)),
    {
        self.visit_once();
    }

    fn settled(&self) -> (r: bool)
        ensures
            settled_reading(*self, r),
    {
        self.settled_now()
    }
}

} // verus!
