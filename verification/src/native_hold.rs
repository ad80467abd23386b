// Native pointer and key obligations, and the source-produced evidence that
// answers them.
//
// A hold is installed in caller-owned storage before the common press, so
// neither an unwind nor a refusal can erase its origin, its connection, or how
// far it progressed. Proof is made only by the source itself: callers may read
// a hold's status, never mark it repaired.
use vstd::prelude::*;

verus! {

/// The exact identity a native obligation is settled against.
#[derive(Debug, Clone, Copy, PartialEq, Eq, Structural)]
pub struct HoldIncarnation {
    pub input: u64,
    pub generation: u64,
}

/// Why a native act was refused.
#[derive(Debug, Clone, Copy, PartialEq, Eq, Structural)]
pub enum PrivateNativeRefusal {
    ForeignOrigin,
    WrongPhase,
    ActivationMismatch,
    /// The routed event is not the release of this hold's button.
    InvalidButton,
    /// The routed event is not the release of this hold's key.
    InvalidKey,
    /// The common authority answered for a different aggregate than this
    /// hold's.
    WrongRecipient,
    /// The seat's keyboard no longer holds this key down.
    KeyboardUnavailable,
    /// The owner's native cleanup receipt is not there to consult.
    Unavailable,
    /// The hold's query scope has not retired.
    MissingQueryScope,
    /// The seat's pointer mapper is gone.
    MissingMapper,
    /// The connection's selected pointer or applied revision is gone.
    SelectionUnavailable,
    /// The namespace's pointer is frozen by a synchronous grab.
    PointerFrozen,
    /// Neither half of a transient event was selected by its recipient.
    NotSelected,
    /// A freeze this request depended on changed under it.
    FreezeInvalidated,
    /// A freeze could not be observed, or one of its owners is closing.
    FreezeUnavailable,
}

/// What is still owed by a pointer activation this release did not retire.
#[derive(Debug, Clone, Copy, PartialEq, Eq, Structural)]
pub enum PointerActivationRetirement {
    /// Other buttons still hold the shared activation.
    StillRequiredByOtherButtons,
    /// The activation went with this release.
    Retired,
    /// The activation was an explicit grab, not this press's to retire.
    Explicit,
}

/// What is still owed by a keyboard activation this release did not retire.
#[derive(Debug, Clone, Copy, PartialEq, Eq, Structural)]
pub enum KeyboardActivationRetirement {
    StillRequiredByTrigger,
    AlreadyAbsent,
    Replaced,
    /// The activation went with this release.
    Retired,
}

/// Why a hold was retained rather than reconciled.
#[derive(Debug, Clone, Copy, PartialEq, Eq, Structural)]
pub enum PrivateNativeResidual {
    Interrupted,
    MissingMapper,
    MissingQueryScope,
    SelectionUnavailable,
    ExternalLease,
    Synchronous,
    Activation(PointerActivationRetirement),
    IncarnationMismatch,
    KeyboardUnavailable,
    KeyboardActivation(KeyboardActivationRetirement),
}

/// How far a native obligation progressed.
#[derive(Debug, Clone, Copy, PartialEq, Eq, Structural)]
pub enum PrivateNativeStatus {
    PressEntered,
    Held,
    ReleaseEntered,
    Retained(PrivateNativeResidual),
    NativeReconciled,
}

/// Evidence only for the native obligation of this exact incarnation. It
/// carries no transport receipt.
#[derive(Debug, Clone, Copy, PartialEq, Eq, Structural)]
pub struct PrivateNativeProof {
    pub origin: u64,
    pub incarnation: HoldIncarnation,
    pub grant: u64,
}

/// One automatic pointer activation a press made.
#[derive(Debug, Clone, Copy, PartialEq, Eq, Structural)]
pub struct PointerActivationCommit {
    pub automatic: bool,
    pub stamp: u64,
    /// Whether the activation's recipient froze the pointer or keyboard.
    pub synchronous: bool,
}

/// One keyboard activation a press made.
#[derive(Debug, Clone, Copy, PartialEq, Eq, Structural)]
pub struct KeyboardActivation {
    pub trigger: Option<u8>,
    pub stamp: u64,
    /// Whether the activation's recipient holds an application route lease.
    pub leased: bool,
    /// Whether the activation's recipient froze the pointer or keyboard.
    pub synchronous: bool,
}

/// Source evidence that one activation retired, kept by the hold whose
/// release retired it.
#[derive(Debug, Clone, Copy, PartialEq, Eq, Structural)]
pub struct ActivationRetirementReceipt {
    pub origin: u64,
    pub stamp: u64,
}

/// What a key release will do with its event.
#[derive(Debug, Clone, Copy, PartialEq, Eq, Structural)]
pub enum KeyReleaseDisposition {
    Unapplied,
    Deliver,
    RecipientTerminationRequired,
}

/// The exact retained connection a hold's events are owed to.
#[derive(Debug, Clone, Copy, PartialEq, Eq, Structural)]
pub struct RetainedConnection {
    pub client: u64,
    pub generation: u64,
}

/// What a pointer press recorded about itself when its hold was installed.
#[derive(Debug, Clone, Copy, PartialEq, Eq, Structural)]
pub struct PointerPressRecord {
    /// The device button that went down.
    pub evdev: u32,
    /// The application route lease the press was routed under.
    pub route_lease: Option<u64>,
    /// The lease of the grab the press activated or joined.
    pub grab_lease: Option<u64>,
}

/// What a key press recorded about itself when its hold was installed.
#[derive(Debug, Clone, Copy, PartialEq, Eq, Structural)]
pub struct KeyPressRecord {
    /// The device key that went down.
    pub evdev: u32,
    /// The X keycode it maps to.
    pub key: u8,
    /// The application route lease the press was routed under.
    pub route_lease: Option<u64>,
}

/// One native pointer obligation.
pub struct PrivatePointerHold<E> {
    origin: u64,
    client: u64,
    generation: u64,
    input: u64,
    incarnation: Option<HoldIncarnation>,
    grant: u64,
    activation: Option<PointerActivationCommit>,
    press: PointerPressRecord,
    status: PrivateNativeStatus,
    proof: Option<PrivateNativeProof>,
    activation_retirement: Option<ActivationRetirementReceipt>,
    press_emission: Option<E>,
    release_emission: Option<E>,
    /// Whether this release's mapper cleanup returned.
    release_mapper_applied: bool,
}

/// One native keyboard obligation.
pub struct PrivateKeyHold<E> {
    origin: u64,
    client: u64,
    generation: u64,
    input: u64,
    incarnation: Option<HoldIncarnation>,
    grant: u64,
    activation: Option<KeyboardActivation>,
    press: KeyPressRecord,
    status: PrivateNativeStatus,
    proof: Option<PrivateNativeProof>,
    activation_retirement: Option<ActivationRetirementReceipt>,
    press_emission: Option<E>,
    release_emission: Option<E>,
    release_xkb_applied: bool,
    release_disposition: KeyReleaseDisposition,
}

/// A hold as it can be read.
pub ghost struct HoldView<E> {
    pub origin: u64,
    pub client: u64,
    pub generation: u64,
    pub input: u64,
    pub incarnation: Option<HoldIncarnation>,
    pub grant: u64,
    pub status: PrivateNativeStatus,
    pub proof: Option<PrivateNativeProof>,
    pub activation_retirement: Option<ActivationRetirementReceipt>,
    pub press_emission: Option<E>,
    pub release_emission: Option<E>,
}

impl<E> View for PrivatePointerHold<E> {
    type V = HoldView<E>;

    closed spec fn view(&self) -> HoldView<E> {
        HoldView {
            origin: self.origin,
            client: self.client,
            generation: self.generation,
            input: self.input,
            incarnation: self.incarnation,
            grant: self.grant,
            status: self.status,
            proof: self.proof,
            activation_retirement: self.activation_retirement,
            press_emission: self.press_emission,
            release_emission: self.release_emission,
        }
    }
}

impl<E> View for PrivateKeyHold<E> {
    type V = HoldView<E>;

    closed spec fn view(&self) -> HoldView<E> {
        HoldView {
            origin: self.origin,
            client: self.client,
            generation: self.generation,
            input: self.input,
            incarnation: self.incarnation,
            grant: self.grant,
            status: self.status,
            proof: self.proof,
            activation_retirement: self.activation_retirement,
            press_emission: self.press_emission,
            release_emission: self.release_emission,
        }
    }
}

/// Whether a pointer hold's residual is exactly the shared activation other
/// buttons still hold.
pub open spec fn pointer_awaits_shared_activation(status: PrivateNativeStatus) -> bool {
    status == PrivateNativeStatus::Retained(
        PrivateNativeResidual::Activation(PointerActivationRetirement::StillRequiredByOtherButtons),
    )
}

/// Whether a key hold's residual is one a retirement receipt can discharge.
pub open spec fn key_awaits_shared_activation(status: PrivateNativeStatus) -> bool {
    status == PrivateNativeStatus::Retained(
        PrivateNativeResidual::KeyboardActivation(KeyboardActivationRetirement::StillRequiredByTrigger),
    ) || status == PrivateNativeStatus::Retained(
        PrivateNativeResidual::KeyboardActivation(KeyboardActivationRetirement::AlreadyAbsent),
    ) || status == PrivateNativeStatus::Retained(
        PrivateNativeResidual::KeyboardActivation(KeyboardActivationRetirement::Replaced),
    )
}

/// Whether a press's activation is the automatic one a receipt retired.
pub open spec fn pointer_activation_matches(a: Option<PointerActivationCommit>, stamp: u64) -> bool {
    match a {
        Some(a) => a.automatic && a.stamp == stamp,
        None => false,
    }
}

/// Whether a press's activation is the triggered one a receipt retired.
pub open spec fn key_activation_matches(a: Option<KeyboardActivation>, stamp: u64) -> bool {
    match a {
        Some(a) => a.trigger is Some && a.stamp == stamp,
        None => false,
    }
}

/// What completing a shared activation does to a hold whose checks passed.
pub open spec fn reconciled<E>(v: HoldView<E>) -> HoldView<E> {
    HoldView {
        proof: Some(
            PrivateNativeProof { origin: v.origin, incarnation: v.incarnation.unwrap(), grant: v.grant },
        ),
        status: PrivateNativeStatus::NativeReconciled,
        ..v
    }
}

impl<E> PrivatePointerHold<E> {
    /// A pointer hold as the guards recorded it.
    pub fn recorded(
        origin: u64,
        client: u64,
        generation: u64,
        input: u64,
        incarnation: Option<HoldIncarnation>,
        grant: u64,
        activation: Option<PointerActivationCommit>,
        press: PointerPressRecord,
        status: PrivateNativeStatus,
        activation_retirement: Option<ActivationRetirementReceipt>,
        press_emission: Option<E>,
        release_emission: Option<E>,
    ) -> (r: Self)
        ensures
            r@ == (HoldView {
                origin,
                client,
                generation,
                input,
                incarnation,
                grant,
                status,
                proof: None,
                activation_retirement,
                press_emission,
                release_emission,
            }),
            r.activation() == activation,
            r.press_record() == press,
            !r.mapper_applied(),
    {
        PrivatePointerHold {
            origin,
            client,
            generation,
            input,
            incarnation,
            grant,
            activation,
            press,
            status,
            proof: None,
            activation_retirement,
            press_emission,
            release_emission,
            release_mapper_applied: false,
        }
    }

    pub closed spec fn activation(&self) -> Option<PointerActivationCommit> {
        self.activation
    }

    pub closed spec fn press_record(&self) -> PointerPressRecord {
        self.press
    }

    /// Whether this hold's release mapper cleanup returned.
    pub closed spec fn mapper_applied(&self) -> bool {
        self.release_mapper_applied
    }

    /// The input this hold is named against.
    pub fn input(&self) -> (r: u64)
        ensures
            r == self@.input,
    {
        self.input
    }

    /// What the press recorded about itself.
    pub fn press(&self) -> (r: PointerPressRecord)
        ensures
            r == self.press_record(),
    {
        self.press
    }

    /// The activation the press committed, once it did.
    pub fn activation_commit(&self) -> (r: Option<PointerActivationCommit>)
        ensures
            r == self.activation(),
    {
        self.activation
    }

    /// The grant this hold's capability carried.
    pub fn grant(&self) -> (r: u64)
        ensures
            r == self@.grant,
    {
        self.grant
    }

    /// The recipient this hold's press actually reached.
    pub fn client(&self) -> (r: u64)
        ensures
            r == self@.client,
    {
        self.client
    }

    /// The exact connection this hold's events are owed to.
    pub fn connection(&self) -> (r: RetainedConnection)
        ensures
            r == (RetainedConnection { client: self@.client, generation: self@.generation }),
    {
        RetainedConnection { client: self.client, generation: self.generation }
    }

    pub fn status(&self) -> (r: PrivateNativeStatus)
        ensures
            r == self@.status,
    {
        self.status
    }

    pub fn incarnation(&self) -> (r: Option<HoldIncarnation>)
        ensures
            r == self@.incarnation,
    {
        self.incarnation
    }

    pub fn native_proof(&self) -> (r: Option<PrivateNativeProof>)
        ensures
            r == self@.proof,
    {
        self.proof
    }

    /// Evidence this hold's release retired its activation, if it did.
    pub fn activation_retirement(&self) -> (r: Option<ActivationRetirementReceipt>)
        ensures
            r == self@.activation_retirement,
    {
        self.activation_retirement
    }

    /// Move the actual source result once. A join creates no second emission.
    pub fn take_press_emission(&mut self) -> (r: Option<E>)
        ensures
            r == old(self)@.press_emission,
            final(self)@ == (HoldView { press_emission: None, ..old(self)@ }),
            final(self).activation() == old(self).activation(),
            final(self).press_record() == old(self).press_record(),
            final(self).mapper_applied() == old(self).mapper_applied(),
    {
        self.press_emission.take()
    }

    pub fn take_release_emission(&mut self) -> (r: Option<E>)
        ensures
            r == old(self)@.release_emission,
            final(self)@ == (HoldView { release_emission: None, ..old(self)@ }),
            final(self).activation() == old(self).activation(),
            final(self).press_record() == old(self).press_record(),
            final(self).mapper_applied() == old(self).mapper_applied(),
    {
        self.release_emission.take()
    }

    /// Discharge the shared-activation residual with the source's own
    /// retirement receipt for the exact activation this hold's press made.
    ///
    /// Only from that residual, only with a receipt of this origin, and only
    /// for an automatic activation with the receipt's stamp.
    pub fn complete_shared_activation(&mut self, retirement: &ActivationRetirementReceipt) -> (r:
        Result<PrivateNativeProof, PrivateNativeRefusal>)
        ensures
            final(self).activation() == old(self).activation(),
            final(self).press_record() == old(self).press_record(),
            final(self).mapper_applied() == old(self).mapper_applied(),
            r == if !pointer_awaits_shared_activation(old(self)@.status) {
                Err::<PrivateNativeProof, PrivateNativeRefusal>(PrivateNativeRefusal::WrongPhase)
            } else if old(self)@.origin != retirement.origin {
                Err(PrivateNativeRefusal::ForeignOrigin)
            } else if !pointer_activation_matches(old(self).activation(), retirement.stamp) {
                Err(PrivateNativeRefusal::ActivationMismatch)
            } else if old(self)@.incarnation is None {
                Err(PrivateNativeRefusal::WrongPhase)
            } else {
                Ok(reconciled(old(self)@).proof.unwrap())
            },
            final(self)@ == if r is Ok {
                reconciled(old(self)@)
            } else {
                old(self)@
            },
    {
        if self.status != PrivateNativeStatus::Retained(
            PrivateNativeResidual::Activation(PointerActivationRetirement::StillRequiredByOtherButtons),
        ) {
            return Err(PrivateNativeRefusal::WrongPhase);
        }
        if self.origin != retirement.origin {
            return Err(PrivateNativeRefusal::ForeignOrigin);
        }
        let matched = match self.activation {
            Some(activation) => activation.automatic && activation.stamp == retirement.stamp,
            None => false,
        };
        if !matched {
            return Err(PrivateNativeRefusal::ActivationMismatch);
        }
        let incarnation = match self.incarnation {
            Some(incarnation) => incarnation,
            None => return Err(PrivateNativeRefusal::WrongPhase),
        };
        let evidence = PrivateNativeProof { origin: self.origin, incarnation, grant: self.grant };
        self.proof = Some(evidence);
        self.status = PrivateNativeStatus::NativeReconciled;
        Ok(evidence)
    }
}

impl<E> PrivateKeyHold<E> {
    /// What the press recorded about itself.
    pub fn press(&self) -> (r: KeyPressRecord)
        ensures
            r == self.press_record(),
    {
        self.press
    }

    /// The keyboard activation the press made, if any.
    pub fn activation_commit(&self) -> (r: Option<KeyboardActivation>)
        ensures
            r == self.activation(),
    {
        self.activation
    }

    /// A key hold as the guards recorded it.
    pub fn recorded(
        origin: u64,
        client: u64,
        generation: u64,
        input: u64,
        incarnation: Option<HoldIncarnation>,
        grant: u64,
        activation: Option<KeyboardActivation>,
        press: KeyPressRecord,
        status: PrivateNativeStatus,
        activation_retirement: Option<ActivationRetirementReceipt>,
        press_emission: Option<E>,
        release_emission: Option<E>,
        release_xkb_applied: bool,
        release_disposition: KeyReleaseDisposition,
    ) -> (r: Self)
        ensures
            r@ == (HoldView {
                origin,
                client,
                generation,
                input,
                incarnation,
                grant,
                status,
                proof: None,
                activation_retirement,
                press_emission,
                release_emission,
            }),
            r.activation() == activation,
            r.press_record() == press,
            r.xkb_applied() == release_xkb_applied,
            r.disposition() == release_disposition,
    {
        PrivateKeyHold {
            origin,
            client,
            generation,
            input,
            incarnation,
            grant,
            activation,
            press,
            status,
            proof: None,
            activation_retirement,
            press_emission,
            release_emission,
            release_xkb_applied,
            release_disposition,
        }
    }

    pub closed spec fn activation(&self) -> Option<KeyboardActivation> {
        self.activation
    }

    pub closed spec fn press_record(&self) -> KeyPressRecord {
        self.press
    }

    pub closed spec fn xkb_applied(&self) -> bool {
        self.release_xkb_applied
    }

    pub closed spec fn disposition(&self) -> KeyReleaseDisposition {
        self.release_disposition
    }

    pub fn input(&self) -> (r: u64)
        ensures
            r == self@.input,
    {
        self.input
    }

    /// The grant this hold's capability carried.
    pub fn grant(&self) -> (r: u64)
        ensures
            r == self@.grant,
    {
        self.grant
    }

    pub fn client(&self) -> (r: u64)
        ensures
            r == self@.client,
    {
        self.client
    }

    pub fn connection(&self) -> (r: RetainedConnection)
        ensures
            r == (RetainedConnection { client: self@.client, generation: self@.generation }),
    {
        RetainedConnection { client: self.client, generation: self.generation }
    }

    pub fn status(&self) -> (r: PrivateNativeStatus)
        ensures
            r == self@.status,
    {
        self.status
    }

    pub fn incarnation(&self) -> (r: Option<HoldIncarnation>)
        ensures
            r == self@.incarnation,
    {
        self.incarnation
    }

    pub fn native_proof(&self) -> (r: Option<PrivateNativeProof>)
        ensures
            r == self@.proof,
    {
        self.proof
    }

    /// Positive evidence that this source's release mapping returned.
    pub fn release_xkb_applied(&self) -> (r: bool)
        ensures
            r == self.xkb_applied(),
    {
        self.release_xkb_applied
    }

    pub fn release_disposition(&self) -> (r: KeyReleaseDisposition)
        ensures
            r == self.disposition(),
    {
        self.release_disposition
    }

    pub fn activation_retirement(&self) -> (r: Option<ActivationRetirementReceipt>)
        ensures
            r == self@.activation_retirement,
    {
        self.activation_retirement
    }

    pub fn take_press_emission(&mut self) -> (r: Option<E>)
        ensures
            r == old(self)@.press_emission,
            final(self)@ == (HoldView { press_emission: None, ..old(self)@ }),
            final(self).activation() == old(self).activation(),
            final(self).press_record() == old(self).press_record(),
            final(self).xkb_applied() == old(self).xkb_applied(),
            final(self).disposition() == old(self).disposition(),
    {
        self.press_emission.take()
    }

    pub fn take_release_emission(&mut self) -> (r: Option<E>)
        ensures
            r == old(self)@.release_emission,
            final(self)@ == (HoldView { release_emission: None, ..old(self)@ }),
            final(self).activation() == old(self).activation(),
            final(self).press_record() == old(self).press_record(),
            final(self).xkb_applied() == old(self).xkb_applied(),
            final(self).disposition() == old(self).disposition(),
    {
        self.release_emission.take()
    }

    /// Discharge a keyboard-activation residual with the source's receipt
    /// that the old activation retired. Other residuals cannot be discharged
    /// by an activation receipt.
    pub fn complete_shared_activation(&mut self, receipt: &ActivationRetirementReceipt) -> (r:
        Result<PrivateNativeProof, PrivateNativeRefusal>)
        ensures
            final(self).activation() == old(self).activation(),
            final(self).press_record() == old(self).press_record(),
            final(self).xkb_applied() == old(self).xkb_applied(),
            final(self).disposition() == old(self).disposition(),
            r == if !key_awaits_shared_activation(old(self)@.status) {
                Err::<PrivateNativeProof, PrivateNativeRefusal>(PrivateNativeRefusal::WrongPhase)
            } else if old(self)@.origin != receipt.origin {
                Err(PrivateNativeRefusal::ForeignOrigin)
            } else if !key_activation_matches(old(self).activation(), receipt.stamp) {
                Err(PrivateNativeRefusal::ActivationMismatch)
            } else if old(self)@.incarnation is None {
                Err(PrivateNativeRefusal::WrongPhase)
            } else {
                Ok(reconciled(old(self)@).proof.unwrap())
            },
            final(self)@ == if r is Ok {
                reconciled(old(self)@)
            } else {
                old(self)@
            },
    {
        let awaiting = match self.status {
            PrivateNativeStatus::Retained(
                PrivateNativeResidual::KeyboardActivation(
                    KeyboardActivationRetirement::StillRequiredByTrigger,
                ),
            ) => true,
            PrivateNativeStatus::Retained(
                PrivateNativeResidual::KeyboardActivation(KeyboardActivationRetirement::AlreadyAbsent),
            ) => true,
            PrivateNativeStatus::Retained(
                PrivateNativeResidual::KeyboardActivation(KeyboardActivationRetirement::Replaced),
            ) => true,
            _ => false,
        };
        if !awaiting {
            return Err(PrivateNativeRefusal::WrongPhase);
        }
        if self.origin != receipt.origin {
            return Err(PrivateNativeRefusal::ForeignOrigin);
        }
        let matched = match self.activation {
            Some(activation) => activation.trigger.is_some() && activation.stamp == receipt.stamp,
            None => false,
        };
        if !matched {
            return Err(PrivateNativeRefusal::ActivationMismatch);
        }
        let incarnation = match self.incarnation {
            Some(incarnation) => incarnation,
            None => return Err(PrivateNativeRefusal::WrongPhase),
        };
        let evidence = PrivateNativeProof { origin: self.origin, incarnation, grant: self.grant };
        self.proof = Some(evidence);
        self.status = PrivateNativeStatus::NativeReconciled;
        Ok(evidence)
    }
}


/// What the common authority answered a hold's release.
#[derive(Debug, Clone, Copy, PartialEq, Eq, Structural)]
pub enum PrivateReleaseOutcome {
    /// The aggregate ended: deliver the release for this incarnation.
    DeliverTo(HoldIncarnation),
    /// Another contribution still holds the aggregate; nothing ended.
    StillHeld,
}

/// Where a release stands once the common authority has answered.
#[derive(Debug, Clone, Copy, PartialEq, Eq, Structural)]
pub enum PrivateReleaseStep {
    /// Nothing ended: the hold is held again.
    StillHeld,
    /// The authority ended a different incarnation: retained, no event.
    Interrupted,
    /// This hold's aggregate ended: its native cleanup is owed now.
    Cleanup,
}

/// What a pointer release's native cleanup found, in the interval in which
/// the common release and every native projection occur together.
#[derive(Debug, Clone, Copy, PartialEq, Eq, Structural)]
pub struct PointerReleaseCleanup {
    /// Whether the seat's pointer mapper was still there.
    pub mapper_present: bool,
    /// Whether the query scope recorded the button's release.
    pub query_cleared: bool,
    /// Whether the connection's selected pointer and its applied revision
    /// were both still there.
    pub selection_present: bool,
    /// What retiring the press's automatic activation answered. An explicit
    /// activation is not retired here, whatever this says.
    pub retirement: PointerActivationRetirement,
}

/// What a key release's native cleanup found.
#[derive(Debug, Clone, Copy, PartialEq, Eq, Structural)]
pub struct KeyReleaseCleanup {
    /// Whether the seat's keyboard still held this key down.
    pub keyboard_held: bool,
    /// Whether the keyboard's ordered state was readable after the release
    /// was mapped.
    pub state_known: bool,
    /// Whether the namespace's query scope was still there.
    pub query_present: bool,
    /// Whether the seat's pointer mapper was still there.
    pub mapper_present: bool,
    /// Whether the connection's applied selection revision was still there.
    pub selection_present: bool,
    /// What retiring the press's triggered activation answered. An
    /// activation without a trigger is not retired here.
    pub retirement: KeyboardActivationRetirement,
}

/// Whether a hold's proof, if any, is the source's own: made only on
/// reconciliation, naming this hold's origin, grant and exact incarnation.
pub open spec fn proof_sound<E>(v: HoldView<E>) -> bool {
    v.proof matches Some(p) ==> v.status == PrivateNativeStatus::NativeReconciled && v.incarnation == Some(
        p.incarnation,
    ) && p.origin == v.origin && p.grant == v.grant
}

/// A freshly installed hold: the press has been entered and nothing else.
pub open spec fn installed_view<E>(origin: u64, client: u64, generation: u64, input: u64, grant: u64) -> HoldView<E> {
    HoldView {
        origin,
        client,
        generation,
        input,
        incarnation: None,
        grant,
        status: PrivateNativeStatus::PressEntered,
        proof: None,
        activation_retirement: None,
        press_emission: None,
        release_emission: None,
    }
}

/// A hold whose release has been entered.
pub open spec fn release_entered<E>(v: HoldView<E>) -> HoldView<E> {
    HoldView { status: PrivateNativeStatus::ReleaseEntered, ..v }
}

/// The step a release takes on the authority's answer.
pub open spec fn release_step<E>(v: HoldView<E>, outcome: PrivateReleaseOutcome) -> PrivateReleaseStep {
    match outcome {
        PrivateReleaseOutcome::StillHeld => PrivateReleaseStep::StillHeld,
        PrivateReleaseOutcome::DeliverTo(incarnation) => if v.incarnation == Some(incarnation)
            && incarnation.input == v.input {
            PrivateReleaseStep::Cleanup
        } else {
            PrivateReleaseStep::Interrupted
        },
    }
}

/// A hold after the authority answered its entered release.
pub open spec fn release_answered<E>(v: HoldView<E>, outcome: PrivateReleaseOutcome) -> HoldView<E> {
    match release_step(v, outcome) {
        PrivateReleaseStep::StillHeld => HoldView { status: PrivateNativeStatus::Held, ..v },
        PrivateReleaseStep::Interrupted => HoldView {
            status: PrivateNativeStatus::Retained(PrivateNativeResidual::IncarnationMismatch),
            ..v
        },
        PrivateReleaseStep::Cleanup => v,
    }
}

/// What a pointer release still owes once its mapper cleanup returned, in
/// order of precedence; `None` when the native obligation is discharged.
pub open spec fn pointer_release_residual(
    cleanup: PointerReleaseCleanup,
    press: PointerPressRecord,
    activation: PointerActivationCommit,
) -> Option<PrivateNativeResidual> {
    let retirement = if activation.automatic {
        cleanup.retirement
    } else {
        PointerActivationRetirement::Explicit
    };
    if !cleanup.query_cleared {
        Some(PrivateNativeResidual::MissingQueryScope)
    } else if !cleanup.selection_present {
        Some(PrivateNativeResidual::SelectionUnavailable)
    } else if press.route_lease is Some || press.grab_lease is Some {
        Some(PrivateNativeResidual::ExternalLease)
    } else if activation.synchronous {
        Some(PrivateNativeResidual::Synchronous)
    } else if activation.automatic && retirement != PointerActivationRetirement::Retired {
        Some(PrivateNativeResidual::Activation(retirement))
    } else {
        None
    }
}

/// What a key release still owes once its keyboard answered, in order of
/// precedence; `None` when the native obligation is discharged.
pub open spec fn key_release_residual(
    cleanup: KeyReleaseCleanup,
    press: KeyPressRecord,
    activation: Option<KeyboardActivation>,
) -> Option<PrivateNativeResidual> {
    if !cleanup.query_present {
        Some(PrivateNativeResidual::MissingQueryScope)
    } else if !cleanup.mapper_present {
        Some(PrivateNativeResidual::MissingMapper)
    } else if !cleanup.selection_present {
        Some(PrivateNativeResidual::SelectionUnavailable)
    } else if press.route_lease is Some || (activation matches Some(a) && a.leased) {
        Some(PrivateNativeResidual::ExternalLease)
    } else if activation matches Some(a) && a.synchronous {
        Some(PrivateNativeResidual::Synchronous)
    } else if activation matches Some(a) && a.trigger is Some && cleanup.retirement
        != KeyboardActivationRetirement::Retired {
        Some(PrivateNativeResidual::KeyboardActivation(cleanup.retirement))
    } else {
        None
    }
}

/// A hold after its release's cleanup left `residual`: retained with it, or
/// reconciled with the source's proof for its own incarnation.
pub open spec fn release_settled<E>(v: HoldView<E>, residual: Option<PrivateNativeResidual>) -> HoldView<E> {
    match residual {
        Some(r) => HoldView { status: PrivateNativeStatus::Retained(r), ..v },
        None => reconciled(v),
    }
}

impl<E> PrivatePointerHold<E> {
    /// Install a pointer obligation in the caller's storage before the
    /// common press, so nothing that follows can erase how far it got.
    /// Occupied storage refuses and is left as it was.
    pub fn install(
        storage: &mut Option<Self>,
        origin: u64,
        client: u64,
        generation: u64,
        input: u64,
        grant: u64,
        press: PointerPressRecord,
    ) -> (r: Result<(), PrivateNativeRefusal>)
        ensures
            old(storage).is_some() ==> r == Err::<(), PrivateNativeRefusal>(PrivateNativeRefusal::WrongPhase)
                && *final(storage) == *old(storage),
            old(storage).is_none() ==> r is Ok && final(storage).is_some(),
            old(storage).is_none() ==> final(storage).unwrap()@ == installed_view::<E>(
                origin,
                client,
                generation,
                input,
                grant,
            ) && final(storage).unwrap().activation() is None && final(storage).unwrap().press_record() == press
                && !final(storage).unwrap().mapper_applied(),
    {
        if storage.is_some() {
            return Err(PrivateNativeRefusal::WrongPhase);
        }
        *storage = Some(PrivatePointerHold {
            origin,
            client,
            generation,
            input,
            incarnation: None,
            grant,
            activation: None,
            press,
            status: PrivateNativeStatus::PressEntered,
            proof: None,
            activation_retirement: None,
            press_emission: None,
            release_emission: None,
            release_mapper_applied: false,
        });
        Ok(())
    }

    /// Record what the common press answered. A press that was not the
    /// aggregate's first made no native change: it is retained as a mismatch
    /// with no event. The first press commits its activation and holds, with
    /// its ordered press event.
    pub fn press_applied(
        &mut self,
        incarnation: HoldIncarnation,
        first_press: bool,
        activation: PointerActivationCommit,
        emission: E,
    ) -> (r: bool)
        requires
            old(self)@.status == PrivateNativeStatus::PressEntered,
            proof_sound(old(self)@),
        ensures
            r == first_press,
            final(self).press_record() == old(self).press_record(),
            final(self).mapper_applied() == old(self).mapper_applied(),
            proof_sound(final(self)@),
            !first_press ==> final(self)@ == (HoldView {
                incarnation: Some(incarnation),
                status: PrivateNativeStatus::Retained(PrivateNativeResidual::IncarnationMismatch),
                ..old(self)@
            }) && final(self).activation() == old(self).activation(),
            first_press ==> final(self)@ == (HoldView {
                incarnation: Some(incarnation),
                status: PrivateNativeStatus::Held,
                press_emission: Some(emission),
                ..old(self)@
            }) && final(self).activation() == Some(activation),
    {
        self.incarnation = Some(incarnation);
        if !first_press {
            self.status = PrivateNativeStatus::Retained(PrivateNativeResidual::IncarnationMismatch);
            return false;
        }
        self.activation = Some(activation);
        self.status = PrivateNativeStatus::Held;
        self.press_emission = Some(emission);
        true
    }

    /// Record a common press that was not the aggregate's first: it made no
    /// native change, so the hold is retained as a mismatch with no event.
    pub fn press_retained(&mut self, incarnation: HoldIncarnation)
        requires
            old(self)@.status == PrivateNativeStatus::PressEntered,
            proof_sound(old(self)@),
        ensures
            final(self)@ == (HoldView {
                incarnation: Some(incarnation),
                status: PrivateNativeStatus::Retained(PrivateNativeResidual::IncarnationMismatch),
                ..old(self)@
            }),
            final(self).activation() == old(self).activation(),
            final(self).press_record() == old(self).press_record(),
            final(self).mapper_applied() == old(self).mapper_applied(),
            proof_sound(final(self)@),
    {
        self.incarnation = Some(incarnation);
        self.status = PrivateNativeStatus::Retained(PrivateNativeResidual::IncarnationMismatch);
    }

    /// Whether a later press may join this held aggregate. A join delivers
    /// where this press went; it never resolves a recipient again.
    pub fn admit_join(&self) -> (r: Result<(), PrivateNativeRefusal>)
        ensures
            r == if self@.status == PrivateNativeStatus::Held {
                Ok::<(), PrivateNativeRefusal>(())
            } else {
                Err(PrivateNativeRefusal::WrongPhase)
            },
    {
        if self.status != PrivateNativeStatus::Held {
            return Err(PrivateNativeRefusal::WrongPhase);
        }
        Ok(())
    }

    /// Check what the common authority answered a joining press: it must
    /// have joined this hold's own incarnation, not started a new aggregate.
    pub fn confirm_join(&self, incarnation: HoldIncarnation, first_press: bool) -> (r: Result<
        (),
        PrivateNativeRefusal,
    >)
        ensures
            r == if first_press || self@.incarnation != Some(incarnation) {
                Err::<(), PrivateNativeRefusal>(PrivateNativeRefusal::WrongRecipient)
            } else {
                Ok(())
            },
    {
        let same = match self.incarnation {
            Some(held) => held == incarnation,
            None => false,
        };
        if first_press || !same {
            return Err(PrivateNativeRefusal::WrongRecipient);
        }
        Ok(())
    }

    /// Enter this hold's release. Only a held hold can, and only for the
    /// release of the very button it pressed (`released` is the button a
    /// pointer-button release names, `None` for any other event).
    pub fn enter_release(&mut self, released: Option<u32>) -> (r: Result<(), PrivateNativeRefusal>)
        ensures
            r == if old(self)@.status != PrivateNativeStatus::Held {
                Err::<(), PrivateNativeRefusal>(PrivateNativeRefusal::WrongPhase)
            } else if released != Some(old(self).press_record().evdev) {
                Err(PrivateNativeRefusal::InvalidButton)
            } else {
                Ok(())
            },
            final(self)@ == if r is Ok {
                release_entered(old(self)@)
            } else {
                old(self)@
            },
            final(self).activation() == old(self).activation(),
            final(self).press_record() == old(self).press_record(),
            final(self).mapper_applied() == old(self).mapper_applied(),
            proof_sound(old(self)@) ==> proof_sound(final(self)@),
    {
        if self.status != PrivateNativeStatus::Held {
            return Err(PrivateNativeRefusal::WrongPhase);
        }
        let matches = match released {
            Some(button) => button == self.press.evdev,
            None => false,
        };
        if !matches {
            return Err(PrivateNativeRefusal::InvalidButton);
        }
        self.status = PrivateNativeStatus::ReleaseEntered;
        Ok(())
    }

    /// Take the common authority's answer to an entered release. An answer
    /// that ends nothing puts the hold back as it was; one that ends another
    /// incarnation retains it as a mismatch.
    pub fn release_answered(&mut self, outcome: PrivateReleaseOutcome) -> (r: PrivateReleaseStep)
        requires
            old(self)@.status == PrivateNativeStatus::ReleaseEntered,
        ensures
            r == release_step(old(self)@, outcome),
            final(self)@ == release_answered(old(self)@, outcome),
            final(self).activation() == old(self).activation(),
            final(self).press_record() == old(self).press_record(),
            final(self).mapper_applied() == old(self).mapper_applied(),
            proof_sound(old(self)@) ==> proof_sound(final(self)@),
    {
        match outcome {
            PrivateReleaseOutcome::StillHeld => {
                self.status = PrivateNativeStatus::Held;
                PrivateReleaseStep::StillHeld
            },
            PrivateReleaseOutcome::DeliverTo(incarnation) => {
                let same = match self.incarnation {
                    Some(held) => held == incarnation,
                    None => false,
                };
                if !same || incarnation.input != self.input {
                    self.status = PrivateNativeStatus::Retained(PrivateNativeResidual::IncarnationMismatch);
                    PrivateReleaseStep::Interrupted
                } else {
                    PrivateReleaseStep::Cleanup
                }
            },
        }
    }

    /// Finish the native cleanup of a release whose aggregate ended. Without
    /// a mapper nothing is cleaned and the hold is retained for it. Otherwise
    /// the mapper cleanup has returned; a retired automatic activation leaves
    /// its receipt for siblings; and the hold is retained with whatever is
    /// still owed, or reconciled with the source's proof. `emission` is the
    /// ordered release event, if one could be built.
    pub fn finish_release(&mut self, cleanup: PointerReleaseCleanup, emission: Option<E>)
        requires
            old(self)@.status == PrivateNativeStatus::ReleaseEntered,
            old(self)@.incarnation is Some,
            old(self).activation() is Some,
            proof_sound(old(self)@),
        ensures
            final(self).activation() == old(self).activation(),
            final(self).press_record() == old(self).press_record(),
            proof_sound(final(self)@),
            !cleanup.mapper_present ==> final(self)@ == (HoldView {
                status: PrivateNativeStatus::Retained(PrivateNativeResidual::MissingMapper),
                ..old(self)@
            }) && final(self).mapper_applied() == old(self).mapper_applied(),
            cleanup.mapper_present ==> ({
                let a = old(self).activation().unwrap();
                let retired = a.automatic && cleanup.retirement == PointerActivationRetirement::Retired;
                let noted = HoldView {
                    activation_retirement: if retired {
                        Some(ActivationRetirementReceipt { origin: old(self)@.origin, stamp: a.stamp })
                    } else {
                        old(self)@.activation_retirement
                    },
                    release_emission: emission,
                    ..old(self)@
                };
                &&& final(self).mapper_applied()
                &&& final(self)@ == release_settled(
                    noted,
                    pointer_release_residual(cleanup, old(self).press_record(), a),
                )
            }),
    {
        if !cleanup.mapper_present {
            self.status = PrivateNativeStatus::Retained(PrivateNativeResidual::MissingMapper);
            return;
        }
        self.release_mapper_applied = true;
        let activation = match self.activation {
            Some(a) => a,
            None => return,
        };
        let retirement = if activation.automatic {
            cleanup.retirement
        } else {
            PointerActivationRetirement::Explicit
        };
        if retirement == PointerActivationRetirement::Retired {
            self.activation_retirement = Some(
                ActivationRetirementReceipt { origin: self.origin, stamp: activation.stamp },
            );
        }
        self.release_emission = emission;
        let residual = if !cleanup.query_cleared {
            Some(PrivateNativeResidual::MissingQueryScope)
        } else if !cleanup.selection_present {
            Some(PrivateNativeResidual::SelectionUnavailable)
        } else if self.press.route_lease.is_some() || self.press.grab_lease.is_some() {
            Some(PrivateNativeResidual::ExternalLease)
        } else if activation.synchronous {
            Some(PrivateNativeResidual::Synchronous)
        } else if activation.automatic && retirement != PointerActivationRetirement::Retired {
            Some(PrivateNativeResidual::Activation(retirement))
        } else {
            None
        };
        match residual {
            Some(r) => {
                self.status = PrivateNativeStatus::Retained(r);
            },
            None => {
                let incarnation = match self.incarnation {
                    Some(i) => i,
                    None => return,
                };
                self.proof = Some(PrivateNativeProof { origin: self.origin, incarnation, grant: self.grant });
                self.status = PrivateNativeStatus::NativeReconciled;
            },
        }
    }
}


impl<E> PrivateKeyHold<E> {
    /// Install a key obligation in the caller's storage before the common
    /// press. Occupied storage refuses and is left as it was.
    pub fn install(
        storage: &mut Option<Self>,
        origin: u64,
        client: u64,
        generation: u64,
        input: u64,
        grant: u64,
        press: KeyPressRecord,
    ) -> (r: Result<(), PrivateNativeRefusal>)
        ensures
            old(storage).is_some() ==> r == Err::<(), PrivateNativeRefusal>(PrivateNativeRefusal::WrongPhase)
                && *final(storage) == *old(storage),
            old(storage).is_none() ==> r is Ok && final(storage).is_some(),
            old(storage).is_none() ==> final(storage).unwrap()@ == installed_view::<E>(
                origin,
                client,
                generation,
                input,
                grant,
            ) && final(storage).unwrap().activation() is None && final(storage).unwrap().press_record() == press
                && !final(storage).unwrap().xkb_applied() && final(storage).unwrap().disposition()
                == KeyReleaseDisposition::Unapplied,
    {
        if storage.is_some() {
            return Err(PrivateNativeRefusal::WrongPhase);
        }
        *storage = Some(PrivateKeyHold {
            origin,
            client,
            generation,
            input,
            incarnation: None,
            grant,
            activation: None,
            press,
            status: PrivateNativeStatus::PressEntered,
            proof: None,
            activation_retirement: None,
            press_emission: None,
            release_emission: None,
            release_xkb_applied: false,
            release_disposition: KeyReleaseDisposition::Unapplied,
        });
        Ok(())
    }

    /// Record what the common press answered. A press that was not the
    /// aggregate's first made no native change and is retained as a
    /// mismatch; the first commits the activation the press prepared, if it
    /// made one, and stays entered until its keyboard state is known.
    pub fn press_applied(
        &mut self,
        incarnation: HoldIncarnation,
        first_press: bool,
        activation: Option<KeyboardActivation>,
    ) -> (r: bool)
        requires
            old(self)@.status == PrivateNativeStatus::PressEntered,
            proof_sound(old(self)@),
        ensures
            r == first_press,
            final(self).press_record() == old(self).press_record(),
            final(self).xkb_applied() == old(self).xkb_applied(),
            final(self).disposition() == old(self).disposition(),
            proof_sound(final(self)@),
            !first_press ==> final(self)@ == (HoldView {
                incarnation: Some(incarnation),
                status: PrivateNativeStatus::Retained(PrivateNativeResidual::IncarnationMismatch),
                ..old(self)@
            }) && final(self).activation() == old(self).activation(),
            first_press ==> final(self)@ == (HoldView { incarnation: Some(incarnation), ..old(self)@ })
                && final(self).activation() == activation,
    {
        self.incarnation = Some(incarnation);
        if !first_press {
            self.status = PrivateNativeStatus::Retained(PrivateNativeResidual::IncarnationMismatch);
            return false;
        }
        self.activation = activation;
        true
    }

    /// The first press's keyboard state is known: the key is held, with its
    /// ordered press event if one could be built.
    pub fn press_held(&mut self, emission: Option<E>)
        requires
            old(self)@.status == PrivateNativeStatus::PressEntered,
            proof_sound(old(self)@),
        ensures
            final(self)@ == (HoldView {
                status: PrivateNativeStatus::Held,
                press_emission: emission,
                ..old(self)@
            }),
            final(self).activation() == old(self).activation(),
            final(self).press_record() == old(self).press_record(),
            final(self).xkb_applied() == old(self).xkb_applied(),
            final(self).disposition() == old(self).disposition(),
            proof_sound(final(self)@),
    {
        self.status = PrivateNativeStatus::Held;
        self.press_emission = emission;
    }

    /// Whether a later press of the same key may join this held aggregate:
    /// only while held, and only while the keyboard still holds the key.
    pub fn admit_join(&self, keyboard_held: bool) -> (r: Result<(), PrivateNativeRefusal>)
        ensures
            r == if self@.status != PrivateNativeStatus::Held {
                Err::<(), PrivateNativeRefusal>(PrivateNativeRefusal::WrongPhase)
            } else if !keyboard_held {
                Err(PrivateNativeRefusal::KeyboardUnavailable)
            } else {
                Ok(())
            },
    {
        if self.status != PrivateNativeStatus::Held {
            return Err(PrivateNativeRefusal::WrongPhase);
        }
        if !keyboard_held {
            return Err(PrivateNativeRefusal::KeyboardUnavailable);
        }
        Ok(())
    }

    /// Check what the common authority answered a joining press: it must
    /// have joined this hold's own incarnation.
    pub fn confirm_join(&self, incarnation: HoldIncarnation, first_press: bool) -> (r: Result<
        (),
        PrivateNativeRefusal,
    >)
        ensures
            r == if first_press || self@.incarnation != Some(incarnation) {
                Err::<(), PrivateNativeRefusal>(PrivateNativeRefusal::WrongRecipient)
            } else {
                Ok(())
            },
    {
        let same = match self.incarnation {
            Some(held) => held == incarnation,
            None => false,
        };
        if first_press || !same {
            return Err(PrivateNativeRefusal::WrongRecipient);
        }
        Ok(())
    }

    /// Enter this hold's release: only a held hold, only for a route of this
    /// origin's own seat and keyboards (`foreign_route` says it is not), and
    /// only for the release of the very key it pressed (`released` is the key
    /// a key release names, `None` for any other event).
    pub fn enter_release(&mut self, foreign_route: bool, released: Option<u32>) -> (r: Result<
        (),
        PrivateNativeRefusal,
    >)
        ensures
            r == if old(self)@.status != PrivateNativeStatus::Held {
                Err::<(), PrivateNativeRefusal>(PrivateNativeRefusal::WrongPhase)
            } else if foreign_route {
                Err(PrivateNativeRefusal::ForeignOrigin)
            } else if released != Some(old(self).press_record().evdev) {
                Err(PrivateNativeRefusal::InvalidKey)
            } else {
                Ok(())
            },
            final(self)@ == if r is Ok {
                release_entered(old(self)@)
            } else {
                old(self)@
            },
            final(self).activation() == old(self).activation(),
            final(self).press_record() == old(self).press_record(),
            final(self).xkb_applied() == old(self).xkb_applied(),
            final(self).disposition() == old(self).disposition(),
            proof_sound(old(self)@) ==> proof_sound(final(self)@),
    {
        if self.status != PrivateNativeStatus::Held {
            return Err(PrivateNativeRefusal::WrongPhase);
        }
        if foreign_route {
            return Err(PrivateNativeRefusal::ForeignOrigin);
        }
        let matches = match released {
            Some(key) => key == self.press.evdev,
            None => false,
        };
        if !matches {
            return Err(PrivateNativeRefusal::InvalidKey);
        }
        self.status = PrivateNativeStatus::ReleaseEntered;
        Ok(())
    }

    /// Take the common authority's answer to an entered release, as a
    /// pointer hold does.
    pub fn release_answered(&mut self, outcome: PrivateReleaseOutcome) -> (r: PrivateReleaseStep)
        requires
            old(self)@.status == PrivateNativeStatus::ReleaseEntered,
        ensures
            r == release_step(old(self)@, outcome),
            final(self)@ == release_answered(old(self)@, outcome),
            final(self).activation() == old(self).activation(),
            final(self).press_record() == old(self).press_record(),
            final(self).xkb_applied() == old(self).xkb_applied(),
            final(self).disposition() == old(self).disposition(),
            proof_sound(old(self)@) ==> proof_sound(final(self)@),
    {
        match outcome {
            PrivateReleaseOutcome::StillHeld => {
                self.status = PrivateNativeStatus::Held;
                PrivateReleaseStep::StillHeld
            },
            PrivateReleaseOutcome::DeliverTo(incarnation) => {
                let same = match self.incarnation {
                    Some(held) => held == incarnation,
                    None => false,
                };
                if !same || incarnation.input != self.input {
                    self.status = PrivateNativeStatus::Retained(PrivateNativeResidual::IncarnationMismatch);
                    PrivateReleaseStep::Interrupted
                } else {
                    PrivateReleaseStep::Cleanup
                }
            },
        }
    }

    /// Finish the native cleanup of a key release whose aggregate ended. A
    /// keyboard that no longer holds the key, or whose state is unreadable
    /// after mapping, retains the hold for it. Otherwise a retired triggered
    /// activation leaves its receipt, and the hold is retained with whatever
    /// is still owed or reconciled with the source's proof. `emission` is the
    /// ordered release event, if one could be built.
    pub fn finish_release(&mut self, cleanup: KeyReleaseCleanup, emission: Option<E>)
        requires
            old(self)@.status == PrivateNativeStatus::ReleaseEntered,
            old(self)@.incarnation is Some,
            proof_sound(old(self)@),
        ensures
            final(self).activation() == old(self).activation(),
            final(self).press_record() == old(self).press_record(),
            final(self).xkb_applied() == old(self).xkb_applied(),
            final(self).disposition() == old(self).disposition(),
            proof_sound(final(self)@),
            !(cleanup.keyboard_held && cleanup.state_known) ==> final(self)@ == (HoldView {
                status: PrivateNativeStatus::Retained(PrivateNativeResidual::KeyboardUnavailable),
                ..old(self)@
            }),
            cleanup.keyboard_held && cleanup.state_known ==> ({
                let a = old(self).activation();
                let retired = a matches Some(act) && act.trigger is Some && cleanup.retirement
                    == KeyboardActivationRetirement::Retired;
                let noted = HoldView {
                    activation_retirement: if retired {
                        Some(
                            ActivationRetirementReceipt { origin: old(self)@.origin, stamp: a.unwrap().stamp },
                        )
                    } else {
                        old(self)@.activation_retirement
                    },
                    release_emission: emission,
                    ..old(self)@
                };
                final(self)@ == release_settled(
                    noted,
                    key_release_residual(cleanup, old(self).press_record(), a),
                )
            }),
    {
        if !cleanup.keyboard_held || !cleanup.state_known {
            self.status = PrivateNativeStatus::Retained(PrivateNativeResidual::KeyboardUnavailable);
            return;
        }
        let triggered = match self.activation {
            Some(a) => a.trigger.is_some(),
            None => false,
        };
        if triggered && cleanup.retirement == KeyboardActivationRetirement::Retired {
            match self.activation {
                Some(a) => {
                    self.activation_retirement = Some(
                        ActivationRetirementReceipt { origin: self.origin, stamp: a.stamp },
                    );
                },
                None => {},
            }
        }
        self.release_emission = emission;
        let leased = match self.activation {
            Some(a) => a.leased,
            None => false,
        };
        let synchronous = match self.activation {
            Some(a) => a.synchronous,
            None => false,
        };
        let residual = if !cleanup.query_present {
            Some(PrivateNativeResidual::MissingQueryScope)
        } else if !cleanup.mapper_present {
            Some(PrivateNativeResidual::MissingMapper)
        } else if !cleanup.selection_present {
            Some(PrivateNativeResidual::SelectionUnavailable)
        } else if self.press.route_lease.is_some() || leased {
            Some(PrivateNativeResidual::ExternalLease)
        } else if synchronous {
            Some(PrivateNativeResidual::Synchronous)
        } else if triggered && cleanup.retirement != KeyboardActivationRetirement::Retired {
            Some(PrivateNativeResidual::KeyboardActivation(cleanup.retirement))
        } else {
            None
        };
        match residual {
            Some(r) => {
                self.status = PrivateNativeStatus::Retained(r);
            },
            None => {
                let incarnation = match self.incarnation {
                    Some(i) => i,
                    None => return,
                };
                self.proof = Some(PrivateNativeProof { origin: self.origin, incarnation, grant: self.grant });
                self.status = PrivateNativeStatus::NativeReconciled;
            },
        }
    }
}

/// The native reconciliation permit the authority issued after revoking a
/// hold's issuer: whom and what it lets be reconciled.
#[derive(Debug, Clone, Copy, PartialEq, Eq, Structural)]
pub struct PrivateReconciliationPermit {
    pub origin: u64,
    pub incarnation: HoldIncarnation,
    /// The grant that owned the reconciled obligation, if the authority knows.
    pub owner: Option<u64>,
    /// The connection the guards hold.
    pub client: u64,
    pub generation: u64,
}

/// The activations an owner's native teardown removed, by stamp.
pub struct PrivateOwnerCleanup {
    pub removed_pointer: Vec<u64>,
    pub removed_keyboard: Vec<u64>,
}

/// What reconciling a pointer hold found under the guards.
#[derive(Debug, Clone, Copy, PartialEq, Eq, Structural)]
pub struct PointerReconcileFacts {
    /// Whether the hold's query scope has retired.
    pub query_scope_retired: bool,
    pub mapper_present: bool,
    /// Whether the mapper still holds this hold's button down.
    pub button_pressed: bool,
    /// Whether the connection's selected pointer and applied revision are
    /// still there.
    pub selection_present: bool,
    /// Whether the mapper accepts this hold's button release.
    pub release_maps: bool,
}

/// What reconciling a key hold found under the guards.
#[derive(Debug, Clone, Copy, PartialEq, Eq, Structural)]
pub struct KeyReconcileFacts {
    pub query_scope_retired: bool,
    /// Whether the connection's applied selection revision is still there.
    pub selection_present: bool,
    /// Whether the keyboards answer for another origin.
    pub keyboards_foreign: bool,
    /// Whether the seat has a keyboard.
    pub keyboard_present: bool,
    /// Whether the keyboard holds this hold's key down.
    pub key_held: bool,
    /// Whether the keyboard accepts this hold's key release.
    pub release_maps: bool,
}

/// Whether a permit is for this very hold: its origin, its incarnation, its
/// grant and its connection.
pub open spec fn permit_matches<E>(v: HoldView<E>, permit: PrivateReconciliationPermit) -> bool {
    permit.origin == v.origin && Some(permit.incarnation) == v.incarnation && permit.owner == Some(v.grant)
        && permit.client == v.client && permit.generation == v.generation
}

/// A hold reconciled on a permit after revocation: the activation it made is
/// recorded as retired, and the proof names the permit's incarnation.
pub open spec fn revoked_reconciled<E>(v: HoldView<E>, permit: PrivateReconciliationPermit, stamp: Option<u64>) -> HoldView<E> {
    HoldView {
        activation_retirement: match stamp {
            Some(s) => Some(ActivationRetirementReceipt { origin: v.origin, stamp: s }),
            None => v.activation_retirement,
        },
        proof: Some(PrivateNativeProof { origin: v.origin, incarnation: permit.incarnation, grant: v.grant }),
        status: PrivateNativeStatus::NativeReconciled,
        ..v
    }
}

/// Whether a hold is still waiting on the retirement a donor's receipt
/// proves: it has no proof, and the donor retired this hold's own activation.
pub open spec fn awaits_retirement(
    proof: Option<PrivateNativeProof>,
    origin: u64,
    activation_stamp: Option<u64>,
    donor_receipt: Option<ActivationRetirementReceipt>,
) -> bool {
    &&& proof is None
    &&& donor_receipt matches Some(rc) && rc.origin == origin && activation_stamp == Some(rc.stamp)
}

fn vec_has(v: &Vec<u64>, x: u64) -> (r: bool)
    ensures
        r == v@.contains(x),
{
    let mut i: usize = 0;
    while i < v.len()
        invariant
            i <= v.len(),
            forall|j: int| 0 <= j < i ==> v@[j] != x,
        decreases v.len() - i,
    {
        if v[i] == x {
            return true;
        }
        i = i + 1;
    }
    false
}

impl<E> PrivatePointerHold<E> {
    /// The stamp of the activation this hold's press made, if any.
    pub open spec fn activation_stamp(&self) -> Option<u64> {
        match self.activation() {
            Some(a) => Some(a.stamp),
            None => None,
        }
    }

    /// Whether this hold still waits on the retirement `donor`'s receipt
    /// proves.
    pub fn needs_retirement_from(&self, donor: &Self) -> (r: bool)
        ensures
            r == awaits_retirement(self@.proof, self@.origin, self.activation_stamp(), donor@.activation_retirement),
    {
        if self.proof.is_some() {
            return false;
        }
        match (donor.activation_retirement, self.activation) {
            (Some(receipt), Some(activation)) => receipt.origin == self.origin && activation.stamp == receipt.stamp,
            _ => false,
        }
    }

    /// Reconcile this hold's native obligation after its issuer was revoked,
    /// on the authority's permit and the owner's cleanup receipt. Nothing is
    /// executed, routed or fabricated: the release mapping is applied at most
    /// once, written ahead so an interrupted effect is retained, never
    /// replayed. `Ok(false)` when already reconciled or when an external
    /// lease retains it.
    pub fn reconcile_revoked(
        &mut self,
        permit: PrivateReconciliationPermit,
        cleanup: Option<&PrivateOwnerCleanup>,
        facts: PointerReconcileFacts,
    ) -> (r: Result<bool, PrivateNativeRefusal>)
        ensures
            final(self).activation() == old(self).activation(),
            final(self).press_record() == old(self).press_record(),
            ({
                let v = old(self)@;
                let stamp = old(self).activation_stamp();
                let leased = old(self).press_record().route_lease is Some || old(self).press_record().grab_lease is Some;
                if !permit_matches(v, permit) {
                    r == Err::<bool, PrivateNativeRefusal>(PrivateNativeRefusal::ForeignOrigin) && final(self)@ == v
                } else if v.status == PrivateNativeStatus::NativeReconciled {
                    r == Ok::<bool, PrivateNativeRefusal>(false) && final(self)@ == v
                } else if v.status == PrivateNativeStatus::PressEntered || v.status
                    == PrivateNativeStatus::ReleaseEntered {
                    r == Err::<bool, PrivateNativeRefusal>(PrivateNativeRefusal::WrongPhase) && final(self)@ == v
                } else if !facts.query_scope_retired {
                    r == Err::<bool, PrivateNativeRefusal>(PrivateNativeRefusal::MissingQueryScope) && final(self)@
                        == v
                } else if cleanup is None {
                    r == Err::<bool, PrivateNativeRefusal>(PrivateNativeRefusal::Unavailable) && final(self)@ == v
                } else if stamp is None || !cleanup.unwrap().removed_pointer@.contains(stamp.unwrap()) {
                    r == Err::<bool, PrivateNativeRefusal>(PrivateNativeRefusal::ActivationMismatch) && final(self)@
                        == v
                } else if leased {
                    r == Ok::<bool, PrivateNativeRefusal>(false) && final(self)@ == (HoldView {
                        status: PrivateNativeStatus::Retained(PrivateNativeResidual::ExternalLease),
                        ..v
                    })
                } else if !facts.mapper_present {
                    r == Err::<bool, PrivateNativeRefusal>(PrivateNativeRefusal::MissingMapper) && final(self)@ == v
                } else if !old(self).mapper_applied() && !facts.button_pressed {
                    r == Err::<bool, PrivateNativeRefusal>(PrivateNativeRefusal::WrongPhase) && final(self)@ == v
                } else if !facts.selection_present {
                    r == Err::<bool, PrivateNativeRefusal>(PrivateNativeRefusal::SelectionUnavailable)
                        && final(self)@ == v
                } else if !old(self).mapper_applied() && !facts.release_maps {
                    r == Err::<bool, PrivateNativeRefusal>(PrivateNativeRefusal::InvalidButton) && final(self)@
                        == release_entered(v)
                } else {
                    &&& r == Ok::<bool, PrivateNativeRefusal>(true)
                    &&& final(self)@ == revoked_reconciled(v, permit, stamp)
                    &&& final(self).mapper_applied()
                }
            }),
            r is Err ==> final(self).mapper_applied() == old(self).mapper_applied(),
    {
        let matches = match self.incarnation {
            Some(held) => held == permit.incarnation,
            None => false,
        } && permit.origin == self.origin && permit.owner == Some(self.grant) && permit.client == self.client
            && permit.generation == self.generation;
        if !matches {
            return Err(PrivateNativeRefusal::ForeignOrigin);
        }
        if self.status == PrivateNativeStatus::NativeReconciled {
            return Ok(false);
        }
        if self.status == PrivateNativeStatus::PressEntered || self.status == PrivateNativeStatus::ReleaseEntered {
            return Err(PrivateNativeRefusal::WrongPhase);
        }
        if !facts.query_scope_retired {
            return Err(PrivateNativeRefusal::MissingQueryScope);
        }
        let removed = match cleanup {
            Some(c) => c,
            None => return Err(PrivateNativeRefusal::Unavailable),
        };
        let stamp = match self.activation {
            Some(a) => a.stamp,
            None => return Err(PrivateNativeRefusal::ActivationMismatch),
        };
        if !vec_has(&removed.removed_pointer, stamp) {
            return Err(PrivateNativeRefusal::ActivationMismatch);
        }
        if self.press.route_lease.is_some() || self.press.grab_lease.is_some() {
            self.status = PrivateNativeStatus::Retained(PrivateNativeResidual::ExternalLease);
            return Ok(false);
        }
        if !facts.mapper_present {
            return Err(PrivateNativeRefusal::MissingMapper);
        }
        if !self.release_mapper_applied && !facts.button_pressed {
            return Err(PrivateNativeRefusal::WrongPhase);
        }
        if !facts.selection_present {
            return Err(PrivateNativeRefusal::SelectionUnavailable);
        }
        self.status = PrivateNativeStatus::ReleaseEntered;
        if !self.release_mapper_applied {
            if !facts.release_maps {
                return Err(PrivateNativeRefusal::InvalidButton);
            }
            self.release_mapper_applied = true;
        }
        self.activation_retirement = Some(ActivationRetirementReceipt { origin: self.origin, stamp });
        self.proof = Some(PrivateNativeProof { origin: self.origin, incarnation: permit.incarnation, grant: self.grant });
        self.status = PrivateNativeStatus::NativeReconciled;
        Ok(true)
    }
}

impl<E> PrivateKeyHold<E> {
    /// The stamp of the activation this hold's press made, if any.
    pub open spec fn activation_stamp(&self) -> Option<u64> {
        match self.activation() {
            Some(a) => Some(a.stamp),
            None => None,
        }
    }

    /// Whether this hold still waits on the retirement `donor`'s receipt
    /// proves.
    pub fn needs_retirement_from(&self, donor: &Self) -> (r: bool)
        ensures
            r == awaits_retirement(self@.proof, self@.origin, self.activation_stamp(), donor@.activation_retirement),
    {
        if self.proof.is_some() {
            return false;
        }
        match (donor.activation_retirement, self.activation) {
            (Some(receipt), Some(activation)) => receipt.origin == self.origin && activation.stamp == receipt.stamp,
            _ => false,
        }
    }

    /// Reconcile this key hold's native obligation after its issuer was
    /// revoked, as a pointer hold is: the keyboard must be in the state the
    /// hold's recorded release left it (still held if the release was never
    /// mapped, released if it was), and the release is mapped at most once.
    pub fn reconcile_revoked(
        &mut self,
        permit: PrivateReconciliationPermit,
        cleanup: Option<&PrivateOwnerCleanup>,
        facts: KeyReconcileFacts,
    ) -> (r: Result<bool, PrivateNativeRefusal>)
        ensures
            final(self).activation() == old(self).activation(),
            final(self).press_record() == old(self).press_record(),
            final(self).disposition() == old(self).disposition(),
            ({
                let v = old(self)@;
                let stamp = old(self).activation_stamp();
                let leased = old(self).press_record().route_lease is Some || (old(self).activation() matches Some(
                    a,
                ) && a.leased);
                if !permit_matches(v, permit) {
                    r == Err::<bool, PrivateNativeRefusal>(PrivateNativeRefusal::ForeignOrigin) && final(self)@ == v
                } else if v.status == PrivateNativeStatus::NativeReconciled {
                    r == Ok::<bool, PrivateNativeRefusal>(false) && final(self)@ == v
                } else if v.status == PrivateNativeStatus::PressEntered || v.status
                    == PrivateNativeStatus::ReleaseEntered {
                    r == Err::<bool, PrivateNativeRefusal>(PrivateNativeRefusal::WrongPhase) && final(self)@ == v
                } else if !facts.query_scope_retired {
                    r == Err::<bool, PrivateNativeRefusal>(PrivateNativeRefusal::MissingQueryScope) && final(self)@
                        == v
                } else if cleanup is None {
                    r == Err::<bool, PrivateNativeRefusal>(PrivateNativeRefusal::Unavailable) && final(self)@ == v
                } else if stamp is Some && !cleanup.unwrap().removed_keyboard@.contains(stamp.unwrap()) {
                    r == Err::<bool, PrivateNativeRefusal>(PrivateNativeRefusal::ActivationMismatch) && final(self)@
                        == v
                } else if leased {
                    r == Ok::<bool, PrivateNativeRefusal>(false) && final(self)@ == (HoldView {
                        status: PrivateNativeStatus::Retained(PrivateNativeResidual::ExternalLease),
                        ..v
                    })
                } else if !facts.selection_present {
                    r == Err::<bool, PrivateNativeRefusal>(PrivateNativeRefusal::SelectionUnavailable)
                        && final(self)@ == v
                } else if facts.keyboards_foreign {
                    r == Err::<bool, PrivateNativeRefusal>(PrivateNativeRefusal::ForeignOrigin) && final(self)@ == v
                } else if !facts.keyboard_present || facts.key_held == old(self).xkb_applied() {
                    r == Err::<bool, PrivateNativeRefusal>(PrivateNativeRefusal::KeyboardUnavailable)
                        && final(self)@ == v
                } else if !old(self).xkb_applied() && !facts.release_maps {
                    r == Err::<bool, PrivateNativeRefusal>(PrivateNativeRefusal::KeyboardUnavailable)
                        && final(self)@ == release_entered(v)
                } else {
                    &&& r == Ok::<bool, PrivateNativeRefusal>(true)
                    &&& final(self)@ == revoked_reconciled(v, permit, stamp)
                    &&& final(self).xkb_applied()
                }
            }),
            r is Err ==> final(self).xkb_applied() == old(self).xkb_applied(),
    {
        let matches = match self.incarnation {
            Some(held) => held == permit.incarnation,
            None => false,
        } && permit.origin == self.origin && permit.owner == Some(self.grant) && permit.client == self.client
            && permit.generation == self.generation;
        if !matches {
            return Err(PrivateNativeRefusal::ForeignOrigin);
        }
        if self.status == PrivateNativeStatus::NativeReconciled {
            return Ok(false);
        }
        if self.status == PrivateNativeStatus::PressEntered || self.status == PrivateNativeStatus::ReleaseEntered {
            return Err(PrivateNativeRefusal::WrongPhase);
        }
        if !facts.query_scope_retired {
            return Err(PrivateNativeRefusal::MissingQueryScope);
        }
        let removed = match cleanup {
            Some(c) => c,
            None => return Err(PrivateNativeRefusal::Unavailable),
        };
        match self.activation {
            Some(a) => {
                if !vec_has(&removed.removed_keyboard, a.stamp) {
                    return Err(PrivateNativeRefusal::ActivationMismatch);
                }
            },
            None => {},
        }
        let leased = match self.activation {
            Some(a) => a.leased,
            None => false,
        };
        if self.press.route_lease.is_some() || leased {
            self.status = PrivateNativeStatus::Retained(PrivateNativeResidual::ExternalLease);
            return Ok(false);
        }
        if !facts.selection_present {
            return Err(PrivateNativeRefusal::SelectionUnavailable);
        }
        if facts.keyboards_foreign {
            return Err(PrivateNativeRefusal::ForeignOrigin);
        }
        if !facts.keyboard_present || facts.key_held == self.release_xkb_applied {
            return Err(PrivateNativeRefusal::KeyboardUnavailable);
        }
        self.status = PrivateNativeStatus::ReleaseEntered;
        if !self.release_xkb_applied {
            if !facts.release_maps {
                return Err(PrivateNativeRefusal::KeyboardUnavailable);
            }
            self.release_xkb_applied = true;
        }
        match self.activation {
            Some(a) => {
                self.activation_retirement = Some(ActivationRetirementReceipt { origin: self.origin, stamp: a.stamp });
            },
            None => {},
        }
        self.proof = Some(PrivateNativeProof { origin: self.origin, incarnation: permit.incarnation, grant: self.grant });
        self.status = PrivateNativeStatus::NativeReconciled;
        Ok(true)
    }
}


/// A release that ends nothing undoes its entry: the hold is exactly as it
/// was before the release began.
pub proof fn law_undelivered_release_restores_hold<E>(v: HoldView<E>)
    requires
        v.status == PrivateNativeStatus::Held,
    ensures
        release_answered(release_entered(v), PrivateReleaseOutcome::StillHeld) == v,
        release_step(release_entered(v), PrivateReleaseOutcome::StillHeld) == PrivateReleaseStep::StillHeld,
{
}

/// A release only ever cleans up the aggregate its own press began: an
/// answer naming any other incarnation is retained as a mismatch.
pub proof fn law_release_cleans_only_its_own_incarnation<E>(v: HoldView<E>, incarnation: HoldIncarnation)
    requires
        v.incarnation != Some(incarnation) || incarnation.input != v.input,
    ensures
        release_step(v, PrivateReleaseOutcome::DeliverTo(incarnation)) == PrivateReleaseStep::Interrupted,
        release_answered(v, PrivateReleaseOutcome::DeliverTo(incarnation)).status
            == PrivateNativeStatus::Retained(PrivateNativeResidual::IncarnationMismatch),
{
}

/// A settled release is reconciled exactly when nothing is owed, and its
/// proof then names the hold's own origin, grant and incarnation.
pub proof fn law_settled_release_proves_only_its_own_obligation<E>(
    v: HoldView<E>,
    residual: Option<PrivateNativeResidual>,
)
    requires
        v.incarnation is Some,
        v.proof is None,
    ensures
        (release_settled(v, residual).status == PrivateNativeStatus::NativeReconciled) <==> residual is None,
        proof_sound(release_settled(v, residual)),
        residual is None ==> release_settled(v, residual).proof == Some(
            PrivateNativeProof { origin: v.origin, incarnation: v.incarnation.unwrap(), grant: v.grant },
        ),
{
}


/// A pointer hold is what it reads as, with its activation.
pub proof fn lemma_pointer_hold_ext<E>(a: PrivatePointerHold<E>, b: PrivatePointerHold<E>)
    requires
        a@ == b@,
        a.activation() == b.activation(),
        a.press_record() == b.press_record(),
        a.mapper_applied() == b.mapper_applied(),
    ensures
        a == b,
{
}

/// A key hold is what it reads as, with its activation and release facts.
pub proof fn lemma_key_hold_ext<E>(a: PrivateKeyHold<E>, b: PrivateKeyHold<E>)
    requires
        a@ == b@,
        a.activation() == b.activation(),
        a.press_record() == b.press_record(),
        a.xkb_applied() == b.xkb_applied(),
        a.disposition() == b.disposition(),
    ensures
        a == b,
{
}

} // verus!
