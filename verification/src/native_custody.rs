// One source obligation, carried whole through held and settling storage,
// and the typed slot a source installs into before it applies.
//
// The variants share custody operations, never constructors for native
// proof. A populated slot can never change kind.
use vstd::prelude::*;
use crate::native_hold::{
    key_activation_matches, key_awaits_shared_activation, lemma_key_hold_ext, lemma_pointer_hold_ext,
    pointer_activation_matches, pointer_awaits_shared_activation, reconciled, HoldIncarnation, HoldView, PrivateKeyHold, PrivateNativeProof, PrivateNativeRefusal,
    PrivateNativeStatus, PrivatePointerHold, RetainedConnection,
};

verus! {

/// One native obligation, pointer or key.
pub enum PrivateNativeHold<E> {
    Pointer(PrivatePointerHold<E>),
    Key(PrivateKeyHold<E>),
}

pub open spec fn native_view<E>(h: PrivateNativeHold<E>) -> HoldView<E> {
    match h {
        PrivateNativeHold::Pointer(hold) => hold@,
        PrivateNativeHold::Key(hold) => hold@,
    }
}

impl<E> PrivateNativeHold<E> {
    pub fn input(&self) -> (r: u64)
        ensures
            r == native_view(*self).input,
    {
        match self {
            PrivateNativeHold::Pointer(hold) => hold.input(),
            PrivateNativeHold::Key(hold) => hold.input(),
        }
    }

    pub fn client(&self) -> (r: u64)
        ensures
            r == native_view(*self).client,
    {
        match self {
            PrivateNativeHold::Pointer(hold) => hold.client(),
            PrivateNativeHold::Key(hold) => hold.client(),
        }
    }

    pub fn connection(&self) -> (r: RetainedConnection)
        ensures
            r == (RetainedConnection {
                client: native_view(*self).client,
                generation: native_view(*self).generation,
            }),
    {
        match self {
            PrivateNativeHold::Pointer(hold) => hold.connection(),
            PrivateNativeHold::Key(hold) => hold.connection(),
        }
    }

    pub fn incarnation(&self) -> (r: Option<HoldIncarnation>)
        ensures
            r == native_view(*self).incarnation,
    {
        match self {
            PrivateNativeHold::Pointer(hold) => hold.incarnation(),
            PrivateNativeHold::Key(hold) => hold.incarnation(),
        }
    }

    pub fn grant(&self) -> (r: u64)
        ensures
            r == native_view(*self).grant,
    {
        match self {
            PrivateNativeHold::Pointer(hold) => hold.grant(),
            PrivateNativeHold::Key(hold) => hold.grant(),
        }
    }

    pub fn status(&self) -> (r: PrivateNativeStatus)
        ensures
            r == native_view(*self).status,
    {
        match self {
            PrivateNativeHold::Pointer(hold) => hold.status(),
            PrivateNativeHold::Key(hold) => hold.status(),
        }
    }

    pub fn native_proof(&self) -> (r: Option<PrivateNativeProof>)
        ensures
            r == native_view(*self).proof,
    {
        match self {
            PrivateNativeHold::Pointer(hold) => hold.native_proof(),
            PrivateNativeHold::Key(hold) => hold.native_proof(),
        }
    }

    pub fn take_press_emission(&mut self) -> (r: Option<E>)
        ensures
            r == native_view(*old(self)).press_emission,
            native_view(*final(self)) == (HoldView {
                press_emission: None,
                ..native_view(*old(self))
            }),
            (*old(self) is Pointer) == (*final(self) is Pointer),
    {
        match self {
            PrivateNativeHold::Pointer(hold) => hold.take_press_emission(),
            PrivateNativeHold::Key(hold) => hold.take_press_emission(),
        }
    }

    pub fn take_release_emission(&mut self) -> (r: Option<E>)
        ensures
            r == native_view(*old(self)).release_emission,
            native_view(*final(self)) == (HoldView {
                release_emission: None,
                ..native_view(*old(self))
            }),
            (*old(self) is Pointer) == (*final(self) is Pointer),
    {
        match self {
            PrivateNativeHold::Pointer(hold) => hold.take_release_emission(),
            PrivateNativeHold::Key(hold) => hold.take_release_emission(),
        }
    }

    pub fn pointer(&self) -> (r: Option<&PrivatePointerHold<E>>)
        ensures
            match *self {
                PrivateNativeHold::Pointer(hold) => r == Some(&hold),
                PrivateNativeHold::Key(_) => r is None,
            },
    {
        match self {
            PrivateNativeHold::Pointer(hold) => Some(hold),
            PrivateNativeHold::Key(_) => None,
        }
    }

    pub fn pointer_mut(&mut self) -> (r: Option<&mut PrivatePointerHold<E>>)
        ensures
            match *old(self) {
                PrivateNativeHold::Pointer(hold) => r is Some && *r.unwrap() == hold && *final(self)
                    == PrivateNativeHold::Pointer(*final(r.unwrap())),
                PrivateNativeHold::Key(_) => r is None && *final(self) == *old(self),
            },
    {
        match self {
            PrivateNativeHold::Pointer(hold) => Some(hold),
            PrivateNativeHold::Key(_) => None,
        }
    }

    pub fn key(&self) -> (r: Option<&PrivateKeyHold<E>>)
        ensures
            match *self {
                PrivateNativeHold::Key(hold) => r == Some(&hold),
                PrivateNativeHold::Pointer(_) => r is None,
            },
    {
        match self {
            PrivateNativeHold::Pointer(_) => None,
            PrivateNativeHold::Key(hold) => Some(hold),
        }
    }

    pub fn key_mut(&mut self) -> (r: Option<&mut PrivateKeyHold<E>>)
        ensures
            match *old(self) {
                PrivateNativeHold::Key(hold) => r is Some && *r.unwrap() == hold && *final(self)
                    == PrivateNativeHold::Key(*final(r.unwrap())),
                PrivateNativeHold::Pointer(_) => r is None && *final(self) == *old(self),
            },
    {
        match self {
            PrivateNativeHold::Pointer(_) => None,
            PrivateNativeHold::Key(hold) => Some(hold),
        }
    }
}

/// Whether a donor's retirement receipt discharges a target: both pointer or
/// both key holds, the donor holding a receipt, and the target waiting in the
/// shared-activation residual under the receipt's origin, for an activation
/// with the receipt's stamp, with its incarnation known.
pub open spec fn joinable<E>(target: PrivateNativeHold<E>, donor: PrivateNativeHold<E>) -> bool {
    match (target, donor) {
        (PrivateNativeHold::Pointer(t), PrivateNativeHold::Pointer(d)) => match d@.activation_retirement {
            Some(receipt) => pointer_awaits_shared_activation(t@.status) && t@.origin == receipt.origin
                && pointer_activation_matches(t.activation(), receipt.stamp) && t@.incarnation is Some,
            None => false,
        },
        (PrivateNativeHold::Key(t), PrivateNativeHold::Key(d)) => match d@.activation_retirement {
            Some(receipt) => key_awaits_shared_activation(t@.status) && t@.origin == receipt.origin
                && key_activation_matches(t.activation(), receipt.stamp) && t@.incarnation is Some,
            None => false,
        },
        _ => false,
    }
}

/// Combine a donor's source-produced retirement receipt with a target
/// waiting on the same shared activation. Pointer with pointer, key with key;
/// any other pairing joins nothing.
pub fn join_shared_activation<E>(target: &mut PrivateNativeHold<E>, donor: &PrivateNativeHold<E>) -> (r:
    bool)
    ensures
        r == joinable(*old(target), *donor),
        r ==> native_view(*final(target)) == reconciled(native_view(*old(target))),
        (*old(target) is Pointer) == (*final(target) is Pointer),
        !r ==> *final(target) == *old(target),
        r ==> (*old(target) is Pointer) == (*donor is Pointer) && native_view(
            *donor,
        ).activation_retirement is Some && native_view(*final(target)).status
            == PrivateNativeStatus::NativeReconciled && native_view(*final(target)).proof
            == Some(
            PrivateNativeProof {
                origin: native_view(*old(target)).origin,
                incarnation: native_view(*old(target)).incarnation.unwrap(),
                grant: native_view(*old(target)).grant,
            },
        ),
{
    match (target, donor) {
        (PrivateNativeHold::Pointer(target), PrivateNativeHold::Pointer(donor)) => {
            match donor.activation_retirement() {
                Some(receipt) => {
                    let ghost before = *target;
                    let joined = target.complete_shared_activation(&receipt).is_ok();
                    proof {
                        if !joined {
                            lemma_pointer_hold_ext(*target, before);
                        }
                    }
                    joined
                },
                None => false,
            }
        },
        (PrivateNativeHold::Key(target), PrivateNativeHold::Key(donor)) => {
            match donor.activation_retirement() {
                Some(receipt) => {
                    let ghost before = *target;
                    let joined = target.complete_shared_activation(&receipt).is_ok();
                    proof {
                        if !joined {
                            lemma_key_hold_ext(*target, before);
                        }
                    }
                    joined
                },
                None => false,
            }
        },
        _ => false,
    }
}

/// Source-owned installation slots already inside the terminal inventory. A
/// source borrows its typed slot before applying; an interruption leaves
/// whatever it installed here.
pub enum PrivateNativePending<E> {
    Pointer(Option<PrivatePointerHold<E>>),
    Key(Option<PrivateKeyHold<E>>),
}

impl<E> Default for PrivateNativePending<E> {
    fn default() -> (r: Self)
        ensures
            r == PrivateNativePending::<E>::Pointer(None),
    {
        PrivateNativePending::Pointer(None)
    }
}

/// Whether a slot is empty.
pub open spec fn pending_empty<E>(p: PrivateNativePending<E>) -> bool {
    match p {
        PrivateNativePending::Pointer(hold) => hold is None,
        PrivateNativePending::Key(hold) => hold is None,
    }
}

impl<E> PrivateNativePending<E> {
    pub fn is_none(&self) -> (r: bool)
        ensures
            r == pending_empty(*self),
    {
        match self {
            PrivateNativePending::Pointer(hold) => hold.is_none(),
            PrivateNativePending::Key(hold) => hold.is_none(),
        }
    }

    pub fn is_some(&self) -> (r: bool)
        ensures
            r == !pending_empty(*self),
    {
        !self.is_none()
    }

    /// The pointer slot, retyping an empty key slot. A populated key slot is
    /// refused: a slot never changes kind while it holds something.
    pub fn pointer_slot(&mut self) -> (r: Result<&mut Option<PrivatePointerHold<E>>, PrivateNativeRefusal>)
        ensures
            (*old(self) matches PrivateNativePending::Key(Some(_))) ==> r is Err && r->Err_0
                == PrivateNativeRefusal::WrongPhase && *final(self) == *old(self),
            !(*old(self) matches PrivateNativePending::Key(Some(_))) ==> r is Ok && *r->Ok_0 == (
            match *old(self) {
                PrivateNativePending::Pointer(hold) => hold,
                PrivateNativePending::Key(_) => None,
            }) && *final(self) == PrivateNativePending::Pointer(*final(r->Ok_0)),
    {
        match self {
            PrivateNativePending::Key(Some(_)) => {
                return Err(PrivateNativeRefusal::WrongPhase);
            },
            PrivateNativePending::Key(None) => {
                *self = PrivateNativePending::Pointer(None);
            },
            PrivateNativePending::Pointer(_) => {},
        }
        match self {
            PrivateNativePending::Pointer(slot) => Ok(slot),
            PrivateNativePending::Key(_) => Err(PrivateNativeRefusal::WrongPhase),
        }
    }

    /// The key slot, retyping an empty pointer slot. A populated pointer slot
    /// is refused.
    pub fn key_slot(&mut self) -> (r: Result<&mut Option<PrivateKeyHold<E>>, PrivateNativeRefusal>)
        ensures
            (*old(self) matches PrivateNativePending::Pointer(Some(_))) ==> r is Err && r->Err_0
                == PrivateNativeRefusal::WrongPhase && *final(self) == *old(self),
            !(*old(self) matches PrivateNativePending::Pointer(Some(_))) ==> r is Ok && *r->Ok_0
                == (match *old(self) {
                PrivateNativePending::Key(hold) => hold,
                PrivateNativePending::Pointer(_) => None,
            }) && *final(self) == PrivateNativePending::Key(*final(r->Ok_0)),
    {
        match self {
            PrivateNativePending::Pointer(Some(_)) => {
                return Err(PrivateNativeRefusal::WrongPhase);
            },
            PrivateNativePending::Pointer(None) => {
                *self = PrivateNativePending::Key(None);
            },
            PrivateNativePending::Key(_) => {},
        }
        match self {
            PrivateNativePending::Key(slot) => Ok(slot),
            PrivateNativePending::Pointer(_) => Err(PrivateNativeRefusal::WrongPhase),
        }
    }

    pub fn pointer(&self) -> (r: Option<&PrivatePointerHold<E>>)
        ensures
            match *self {
                PrivateNativePending::Pointer(Some(hold)) => r == Some(&hold),
                _ => r is None,
            },
    {
        match self {
            PrivateNativePending::Pointer(hold) => hold.as_ref(),
            PrivateNativePending::Key(_) => None,
        }
    }

    pub fn key(&self) -> (r: Option<&PrivateKeyHold<E>>)
        ensures
            match *self {
                PrivateNativePending::Key(Some(hold)) => r == Some(&hold),
                _ => r is None,
            },
    {
        match self {
            PrivateNativePending::Pointer(_) => None,
            PrivateNativePending::Key(hold) => hold.as_ref(),
        }
    }

    /// Move what the slot holds, keeping the slot's kind. Nothing is cloned.
    pub fn take(&mut self) -> (r: Option<PrivateNativeHold<E>>)
        ensures
            pending_empty(*final(self)),
            (*old(self) is Pointer) == (*final(self) is Pointer),
            match *old(self) {
                PrivateNativePending::Pointer(Some(hold)) => r == Some(PrivateNativeHold::Pointer(hold)),
                PrivateNativePending::Key(Some(hold)) => r == Some(PrivateNativeHold::Key(hold)),
                _ => r is None,
            },
    {
        match self {
            PrivateNativePending::Pointer(hold) => match hold.take() {
                Some(h) => Some(PrivateNativeHold::Pointer(h)),
                None => None,
            },
            PrivateNativePending::Key(hold) => match hold.take() {
                Some(h) => Some(PrivateNativeHold::Key(h)),
                None => None,
            },
        }
    }
}

/// A populated slot never changes kind: asking for the other kind's slot
/// refuses and leaves it untouched.
pub proof fn law_populated_slot_keeps_its_kind<E>(p: PrivateNativePending<E>)
    requires
        !pending_empty(p),
    ensures
        (p is Pointer) ==> (p matches PrivateNativePending::Pointer(Some(_))),
        (p is Key) ==> (p matches PrivateNativePending::Key(Some(_))),
{
}

} // verus!
