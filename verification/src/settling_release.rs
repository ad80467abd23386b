// What an execution reached, and what it still owes for having reached it:
// the custody of one decided event on its way to a writer, and the release
// record that carries a hold's obligations after the hold ends.
use vstd::prelude::*;
use crate::native_custody::PrivateNativeHold;
use crate::native_hold::{HoldIncarnation, KeyReleaseDisposition, PrivateNativeProof};

verus! {

/// What a delivery is currently doing. Forward custody: once an emission
/// leaves its hold it never goes back, and the phase -- not whether the slot
/// happens to be full -- says whether a retry is safe.
#[derive(Debug, Clone, Copy, PartialEq, Eq, Structural)]
pub enum PrivateDispatchPhase {
    /// Nothing has been taken from the hold yet.
    Untaken,
    /// Held here and known not to be on the recipient's queue.
    Pending,
    /// Handed over, and the handover never reported. Not retried.
    Indeterminate,
    /// On the recipient's queue. What is owed from here is the receipt.
    Enqueued,
    /// The emission could not be wrapped, and is retained with its cause.
    Unwrappable,
    /// Handed over, answered, and never to be sent again.
    Unrepeatable,
}

/// A writer's own answer for one delivery.
#[derive(Debug, Clone, Copy, PartialEq, Eq, Structural)]
pub enum PrivateDeliveryOutcome {
    Flushed,
    ClientDisconnected,
    RouteRejected,
}

/// What the ledger will do with a release's event.
#[derive(Debug, Clone, Copy, PartialEq, Eq, Structural)]
pub enum PrivateReleaseBinding {
    /// Bound to the recipient its press reached. An event is owed.
    Reached,
    /// A terminal outcome is already recorded, or the recipient is revoked.
    Ended,
    /// The ledger could not be read.
    Unknown,
    /// The event will not be carried; the recipient's half is answered by its
    /// connection's established termination.
    RecipientTerminationRequired,
}

/// What one decided event carries on its way to a writer, and how far it got.
#[derive(Debug, Clone, Copy, PartialEq, Eq, Structural)]
pub struct PrivateDeliveryCustody {
    /// Where this event sits in the order its recipient must see.
    pub order: u64,
    /// Whether the capsule is held here.
    pub pending: bool,
    pub dispatch: PrivateDispatchPhase,
    /// The attempt this delivery is being made under.
    pub attempt: Option<u64>,
    /// Whether this custody holds the completion of the admission that
    /// created the debt.
    pub completion: bool,
    /// The writer's own answer, once there is one.
    pub outcome_seen: Option<PrivateDeliveryOutcome>,
    /// Whether the recipient's half is settled by its connection's
    /// established termination.
    pub recipient_termination: bool,
}

/// A writer's answer that settles the recipient's half.
pub open spec fn settling_outcome(o: Option<PrivateDeliveryOutcome>) -> bool {
    o == Some(PrivateDeliveryOutcome::Flushed) || o == Some(PrivateDeliveryOutcome::ClientDisconnected)
}

pub open spec fn writer_settled_spec(c: PrivateDeliveryCustody) -> bool {
    c.attempt is None && !c.pending && c.outcome_seen is Some && (c.recipient_termination
        || settling_outcome(c.outcome_seen))
}

pub open spec fn handover_unfinished_spec(c: PrivateDeliveryCustody) -> bool {
    c.completion && c.dispatch != PrivateDispatchPhase::Enqueued
}

impl PrivateDeliveryCustody {
    /// Begin custody for a debt, holding the completion it was created with.
    pub fn new(order: u64, completion: bool) -> (r: Self)
        ensures
            r == (PrivateDeliveryCustody {
                order,
                pending: false,
                dispatch: PrivateDispatchPhase::Untaken,
                attempt: None,
                completion,
                outcome_seen: None,
                recipient_termination: false,
            }),
    {
        PrivateDeliveryCustody {
            order,
            pending: false,
            dispatch: PrivateDispatchPhase::Untaken,
            attempt: None,
            completion,
            outcome_seen: None,
            recipient_termination: false,
        }
    }

    /// Whether this debt's event is still owed a handover, read from the
    /// phase, never from the slot.
    pub fn owes_handover(&self) -> (r: bool)
        ensures
            r == (self.completion && (self.dispatch == PrivateDispatchPhase::Untaken || self.dispatch
                == PrivateDispatchPhase::Pending)),
    {
        self.completion && match self.dispatch {
            PrivateDispatchPhase::Untaken | PrivateDispatchPhase::Pending => true,
            _ => false,
        }
    }

    /// Whether this custody's phase permits a handover to be attempted.
    pub fn handover_permitted(&self) -> (r: bool)
        ensures
            r == (self.dispatch == PrivateDispatchPhase::Untaken || self.dispatch
                == PrivateDispatchPhase::Pending),
    {
        match self.dispatch {
            PrivateDispatchPhase::Untaken | PrivateDispatchPhase::Pending => true,
            _ => false,
        }
    }

    /// Whether anything about this event's handover is still unresolved.
    pub fn handover_unfinished(&self) -> (r: bool)
        ensures
            r == handover_unfinished_spec(*self),
    {
        self.completion && match self.dispatch {
            PrivateDispatchPhase::Enqueued => false,
            _ => true,
        }
    }

    /// Whether the writer's half of this delivery is settled: no attempt and
    /// nothing held, and the writer answered with an outcome that settles the
    /// recipient -- or the recipient's termination does.
    pub fn writer_settled(&self) -> (r: bool)
        ensures
            r == writer_settled_spec(*self),
    {
        self.attempt.is_none() && !self.pending && match self.outcome_seen {
            Some(outcome) => self.recipient_termination || match outcome {
                PrivateDeliveryOutcome::Flushed | PrivateDeliveryOutcome::ClientDisconnected => true,
                PrivateDeliveryOutcome::RouteRejected => false,
            },
            None => false,
        }
    }

    /// Whether this custody still holds output a terminated recipient owes
    /// an answer for.
    pub fn owns_terminated_output(&self) -> (r: bool)
        ensures
            r == (self.pending || (self.completion && self.dispatch == PrivateDispatchPhase::Untaken)),
    {
        self.pending || (self.completion && match self.dispatch {
            PrivateDispatchPhase::Untaken => true,
            _ => false,
        })
    }
}

/// What one ordered input reached: decided once, by the resolver, and never
/// revised after the ledger recorded it.
#[derive(Debug, Clone, Copy, PartialEq, Eq, Structural)]
pub struct PrivateReachedResources {
    client: u64,
    window: u64,
    surface: u64,
    namespace: u64,
    /// The seat whose pointer state the hold moved, so its release moves the
    /// same mapper.
    seat: u64,
    /// The grant that authorised the press, so its release names the same
    /// participant.
    grant: u64,
}

/// The resources a resolution recorded, field by field.
pub closed spec fn reached_spec(r: PrivateReachedResources) -> (u64, u64, u64, u64, u64, u64) {
    (r.client, r.window, r.surface, r.namespace, r.seat, r.grant)
}

impl PrivateReachedResources {
    /// What a resolution decided an input reached.
    pub fn resolved(client: u64, window: u64, surface: u64, namespace: u64, seat: u64, grant: u64) -> (r:
        Self)
        ensures
            reached_spec(r) == (client, window, surface, namespace, seat, grant),
    {
        PrivateReachedResources { client, window, surface, namespace, seat, grant }
    }

    pub fn client(self) -> (r: u64)
        ensures
            r == reached_spec(self).0,
    {
        self.client
    }

    pub fn window(self) -> (r: u64)
        ensures
            r == reached_spec(self).1,
    {
        self.window
    }

    pub fn surface(self) -> (r: u64)
        ensures
            r == reached_spec(self).2,
    {
        self.surface
    }

    pub fn namespace(self) -> (r: u64)
        ensures
            r == reached_spec(self).3,
    {
        self.namespace
    }

    pub fn seat(self) -> (r: u64)
        ensures
            r == reached_spec(self).4,
    {
        self.seat
    }

    pub fn grant(self) -> (r: u64)
        ensures
            r == reached_spec(self).5,
    {
        self.grant
    }
}

/// How many refused recording attempts a release absorbs before visits stop
/// choosing it. Not a proof that another attempt would fail.
pub const PRIVATE_NATIVE_RECORDING_ATTEMPTS: u8 = 3;

/// A release whose delivery has been decided and not yet handed on. Not
/// Clone: it owns a source obligation.
pub struct PrivateSettlingRelease<E> {
    /// The identity a settlement is named against.
    pub incarnation: HoldIncarnation,
    /// What the ended press reached.
    pub reached: PrivateReachedResources,
    /// What this release is carrying towards a writer.
    pub custody: PrivateDeliveryCustody,
    /// The custody of the press this release ended, carried on.
    pub press_custody: Option<PrivateDeliveryCustody>,
    /// The source obligation this release is still answering for.
    pub native: Option<PrivateNativeHold<E>>,
    /// Whether the source's own native bit has been recorded.
    pub native_recorded: bool,
    /// How many recording attempts have been spent.
    pub native_attempts: u8,
    /// The delivery that carries this release's event.
    pub delivery: Option<u64>,
    pub binding: PrivateReleaseBinding,
}

/// Whether a release's native obligation is a key whose release mapping
/// returned and whose event requires its recipient's termination.
pub open spec fn key_requires_termination<E>(native: Option<PrivateNativeHold<E>>) -> bool {
    match native {
        Some(PrivateNativeHold::Key(key)) => key.xkb_applied() && key.disposition()
            == KeyReleaseDisposition::RecipientTerminationRequired,
        _ => false,
    }
}

/// Whether the recipient's half of a release's output is settled.
pub open spec fn recipient_output_settled_spec<E>(r: PrivateSettlingRelease<E>) -> bool {
    writer_settled_spec(r.custody) || (r.binding == PrivateReleaseBinding::RecipientTerminationRequired
        && r.delivery is None && !r.custody.completion && !r.custody.pending && r.custody.attempt is None
        && r.custody.recipient_termination && key_requires_termination(r.native))
}

impl<E> PrivateSettlingRelease<E> {
    /// The delivery whose receipt settles this debt, if it has one.
    pub fn delivery(&self) -> (r: Option<u64>)
        ensures
            r == self.delivery,
    {
        self.delivery
    }

    /// What the ended press reached.
    pub fn reached(&self) -> (r: PrivateReachedResources)
        ensures
            r == self.reached,
    {
        self.reached
    }

    /// The identity, not the number inside it.
    pub fn incarnation(&self) -> (r: HoldIncarnation)
        ensures
            r == self.incarnation,
    {
        self.incarnation
    }

    /// Whether this release's own press is still waiting to be handed over.
    pub fn press_handover_unfinished(&self) -> (r: bool)
        ensures
            r == (self.press_custody matches Some(c) && handover_unfinished_spec(c)),
    {
        match &self.press_custody {
            Some(custody) => custody.handover_unfinished(),
            None => false,
        }
    }

    /// Whether a delivery attempt may be made for this release now.
    ///
    /// Order first: a release is not handed over while the press it ends is
    /// still owed one. The native half has to be in, and one attempt at a time.
    pub fn owes_delivery_attempt(&self) -> (r: bool)
        ensures
            r == (!(self.press_custody matches Some(c) && handover_unfinished_spec(c))
                && self.native_recorded && self.custody.attempt is None && (self.custody.dispatch
                == PrivateDispatchPhase::Untaken || self.custody.dispatch
                == PrivateDispatchPhase::Pending)),
    {
        !self.press_handover_unfinished() && self.native_recorded && self.custody.attempt.is_none()
            && match self.custody.dispatch {
            PrivateDispatchPhase::Untaken | PrivateDispatchPhase::Pending => true,
            _ => false,
        }
    }

    /// Keep the writer's own answer, whatever it settled.
    pub fn record_outcome(&mut self, outcome: PrivateDeliveryOutcome)
        ensures
            final(self).custody == (PrivateDeliveryCustody {
                outcome_seen: Some(outcome),
                ..old(self).custody
            }),
            final(self).incarnation == old(self).incarnation,
            final(self).reached == old(self).reached,
            final(self).press_custody == old(self).press_custody,
            final(self).native == old(self).native,
            final(self).native_recorded == old(self).native_recorded,
            final(self).native_attempts == old(self).native_attempts,
            final(self).delivery == old(self).delivery,
            final(self).binding == old(self).binding,
    {
        self.custody.outcome_seen = Some(outcome);
    }

    /// Mark this release's event as one that must never be sent again.
    pub fn mark_unrepeatable(&mut self)
        ensures
            final(self).custody == (PrivateDeliveryCustody {
                pending: false,
                dispatch: PrivateDispatchPhase::Unrepeatable,
                ..old(self).custody
            }),
            final(self).incarnation == old(self).incarnation,
            final(self).reached == old(self).reached,
            final(self).press_custody == old(self).press_custody,
            final(self).native == old(self).native,
            final(self).native_recorded == old(self).native_recorded,
            final(self).native_attempts == old(self).native_attempts,
            final(self).delivery == old(self).delivery,
            final(self).binding == old(self).binding,
    {
        self.custody.pending = false;
        self.custody.dispatch = PrivateDispatchPhase::Unrepeatable;
    }

    /// Stop naming an attempt, once the ledger has confirmed it back.
    pub fn clear_attempt(&mut self)
        ensures
            final(self).custody == (PrivateDeliveryCustody { attempt: None, ..old(self).custody }),
            final(self).incarnation == old(self).incarnation,
            final(self).reached == old(self).reached,
            final(self).press_custody == old(self).press_custody,
            final(self).native == old(self).native,
            final(self).native_recorded == old(self).native_recorded,
            final(self).native_attempts == old(self).native_attempts,
            final(self).delivery == old(self).delivery,
            final(self).binding == old(self).binding,
    {
        self.custody.attempt = None;
    }

    /// Whether a visit should choose this release for recording: not yet
    /// recorded, under the attempt bound, and holding the source's proof.
    pub fn owes_native_recording(&self) -> (r: bool)
        ensures
            r == (!self.native_recorded && self.native_attempts < PRIVATE_NATIVE_RECORDING_ATTEMPTS
                && (self.native matches Some(n) && crate::native_custody::native_view(n).proof is Some)),
    {
        !self.native_recorded && self.native_attempts < PRIVATE_NATIVE_RECORDING_ATTEMPTS
            && match &self.native {
            Some(native) => native.native_proof().is_some(),
            None => false,
        }
    }

    /// Whether the recipient's half of this release's output is settled:
    /// by the writer's own answer, or -- for a key release the ledger bound
    /// to its recipient's termination -- by that termination alone, with
    /// nothing else outstanding.
    pub fn recipient_output_settled(&self) -> (r: bool)
        ensures
            r == recipient_output_settled_spec(*self),
    {
        if self.custody.writer_settled() {
            return true;
        }
        let ended = match self.binding {
            PrivateReleaseBinding::RecipientTerminationRequired => true,
            _ => false,
        };
        let key_owes_termination = match &self.native {
            Some(PrivateNativeHold::Key(key)) => key.release_xkb_applied() && match key.release_disposition() {
                KeyReleaseDisposition::RecipientTerminationRequired => true,
                _ => false,
            },
            _ => false,
        };
        ended && self.delivery.is_none() && !self.custody.completion && !self.custody.pending
            && self.custody.attempt.is_none() && self.custody.recipient_termination
            && key_owes_termination
    }
}


/// The proof a release records its native bit with, if it holds one.
pub open spec fn release_proof<E>(r: PrivateSettlingRelease<E>) -> Option<PrivateNativeProof> {
    match r.native {
        Some(n) => crate::native_custody::native_view(n).proof,
        None => None,
    }
}

/// Whether a release still owes a recording attempt.
pub open spec fn owes_recording_spec<E>(r: PrivateSettlingRelease<E>) -> bool {
    !r.native_recorded && r.native_attempts < PRIVATE_NATIVE_RECORDING_ATTEMPTS
        && release_proof(r) is Some
}

impl<E> PrivateSettlingRelease<E> {
    /// Spend one recording attempt, if one is owed, and hand out the proof to
    /// record with.
    ///
    /// Bounded: a recording that refuses is retried on later turns and then
    /// left owed. The recording is retried, never the release.
    pub fn begin_native_recording(&mut self) -> (r: Option<PrivateNativeProof>)
        ensures
            owes_recording_spec(*old(self)) ==> r == release_proof(*old(self)) && *final(self)
                == (PrivateSettlingRelease {
                native_attempts: (old(self).native_attempts + 1) as u8,
                ..*old(self)
            }),
            !owes_recording_spec(*old(self)) ==> r is None && *final(self) == *old(self),
    {
        if !self.owes_native_recording() {
            return None;
        }
        let proof = match &self.native {
            Some(native) => native.native_proof(),
            None => None,
        };
        self.native_attempts = self.native_attempts + 1;
        proof
    }

    /// Take the answer of one recording attempt, returning whether the
    /// native bit is in.
    ///
    /// Whether the bit went in, not whether a visit happened: a refusal
    /// leaves the debt exactly as owed as before. An acceptance that left the
    /// recipient's own obligation outstanding still records the native bit.
    pub fn native_recording_answered(&mut self, accepted: bool) -> (r: bool)
        ensures
            *final(self) == (PrivateSettlingRelease {
                native_recorded: old(self).native_recorded || accepted,
                ..*old(self)
            }),
            r == final(self).native_recorded,
    {
        if accepted {
            self.native_recorded = true;
        }
        self.native_recorded
    }
}

} // verus!
