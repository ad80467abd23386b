// The decisions a native press makes before anything is installed or
// applied, and the rollback of a press the common authority refused.
//
// A press is refused in a fixed order: whose permit and capability it is,
// whether the source's storage is free, which seat it came from, what it
// presses, and whether the seat's native state is there to move. Only then is
// a recipient chosen, and a key press goes only to the client the keyboard
// activation names.
use vstd::prelude::*;
use crate::native_hold::{
    proof_sound, release_answered, release_entered, release_step, HoldIncarnation, KeyPressRecord, KeyboardActivation, PointerActivationCommit, PointerPressRecord,
    PrivateKeyHold, PrivateNativeRefusal, PrivateNativeResidual, PrivateNativeStatus, PrivatePointerHold,
    PrivateReleaseOutcome, PrivateReleaseStep, PointerReleaseCleanup, PointerActivationRetirement,
    ActivationRetirementReceipt, HoldView, release_settled, pointer_release_residual, KeyReleaseCleanup,
    KeyboardActivationRetirement, key_release_residual,
};
use crate::key_emission::PrivateAppliedRefusal;
use crate::key_emission::XAuthorityKeyEvent;
use crate::pointer_emission::{XAuthorityPointerEvent, XAuthorityPointerEventKind};

verus! {

/// The refusal a pointer press meets before it resolves anything, in the
/// order it is asked.
pub open spec fn pointer_press_refusal_spec(
    identity_matches: bool,
    source_matches: bool,
    occupied: bool,
    seat_matches: bool,
    button: Option<u32>,
    mapped: bool,
    mapper_present: bool,
    query_present: bool,
) -> Option<PrivateNativeRefusal> {
    if !identity_matches || !source_matches {
        Some(PrivateNativeRefusal::ForeignOrigin)
    } else if occupied {
        Some(PrivateNativeRefusal::WrongPhase)
    } else if !seat_matches {
        Some(PrivateNativeRefusal::ForeignOrigin)
    } else if button is None || !mapped {
        Some(PrivateNativeRefusal::InvalidButton)
    } else if !mapper_present {
        Some(PrivateNativeRefusal::MissingMapper)
    } else if !query_present {
        Some(PrivateNativeRefusal::MissingQueryScope)
    } else {
        None
    }
}

/// Decide the refusals a pointer press meets before it resolves anything.
///
/// `button` is the evdev button of a routed button press, `None` for any
/// other routed event; `mapped` is whether that button maps to a core button
/// within the planned domain.
pub fn pointer_press_refusal(
    identity_matches: bool,
    source_matches: bool,
    occupied: bool,
    seat_matches: bool,
    button: Option<u32>,
    mapped: bool,
    mapper_present: bool,
    query_present: bool,
) -> (r: Option<PrivateNativeRefusal>)
    ensures
        r == pointer_press_refusal_spec(
            identity_matches,
            source_matches,
            occupied,
            seat_matches,
            button,
            mapped,
            mapper_present,
            query_present,
        ),
{
    if !identity_matches || !source_matches {
        Some(PrivateNativeRefusal::ForeignOrigin)
    } else if occupied {
        Some(PrivateNativeRefusal::WrongPhase)
    } else if !seat_matches {
        Some(PrivateNativeRefusal::ForeignOrigin)
    } else if button.is_none() || !mapped {
        Some(PrivateNativeRefusal::InvalidButton)
    } else if !mapper_present {
        Some(PrivateNativeRefusal::MissingMapper)
    } else if !query_present {
        Some(PrivateNativeRefusal::MissingQueryScope)
    } else {
        None
    }
}

/// The refusal a press meets once its recipient is chosen: the connection
/// selected must be that recipient's, of this authority and namespace; its
/// selections must have been applied for this origin; and its applied
/// revision must have room for one more application.
pub open spec fn press_recipient_refusal_spec(
    client_matches: bool,
    selection_origin_matches: bool,
    revision: Option<u64>,
) -> Option<PrivateNativeRefusal> {
    if !client_matches || !selection_origin_matches {
        Some(PrivateNativeRefusal::ForeignOrigin)
    } else if revision is None || revision->0 == u64::MAX {
        Some(PrivateNativeRefusal::SelectionUnavailable)
    } else {
        None
    }
}

/// Decide the refusal a press meets once its recipient is chosen.
pub fn press_recipient_refusal(client_matches: bool, selection_origin_matches: bool, revision: Option<u64>) -> (r:
    Option<PrivateNativeRefusal>)
    ensures
        r == press_recipient_refusal_spec(client_matches, selection_origin_matches, revision),
{
    if !client_matches || !selection_origin_matches {
        return Some(PrivateNativeRefusal::ForeignOrigin);
    }
    match revision {
        None => Some(PrivateNativeRefusal::SelectionUnavailable),
        Some(n) => if n == u64::MAX {
            Some(PrivateNativeRefusal::SelectionUnavailable)
        } else {
            None
        },
    }
}

/// What a key press decides before it resolves anything, in the order it is
/// asked: the X keycode it presses, or its refusal.
pub open spec fn key_press_spec(
    identity_matches: bool,
    source_matches: bool,
    seat_matches: bool,
    occupied: bool,
    key: Option<u32>,
    x_keycode: Option<u8>,
    keyboards_answer: bool,
    keyboard_present: bool,
    physical_released: bool,
) -> Result<u8, PrivateNativeRefusal> {
    if !identity_matches || !source_matches || !seat_matches {
        Err(PrivateNativeRefusal::ForeignOrigin)
    } else if occupied {
        Err(PrivateNativeRefusal::WrongPhase)
    } else if key is None || x_keycode is None {
        Err(PrivateNativeRefusal::InvalidKey)
    } else if !keyboards_answer {
        Err(PrivateNativeRefusal::ForeignOrigin)
    } else if !keyboard_present || !physical_released {
        Err(PrivateNativeRefusal::KeyboardUnavailable)
    } else {
        Ok(x_keycode->0)
    }
}

/// Decide a key press's refusals before it resolves anything.
///
/// `key` is the evdev keycode of a routed key press, `None` for any other
/// routed event; `x_keycode` is its X keycode, where it has one. The keyboard
/// history must answer for this origin, hold the seat's keyboard, and show
/// the key released: a key already down is not pressed again.
pub fn key_press_refusal(
    identity_matches: bool,
    source_matches: bool,
    seat_matches: bool,
    occupied: bool,
    key: Option<u32>,
    x_keycode: Option<u8>,
    keyboards_answer: bool,
    keyboard_present: bool,
    physical_released: bool,
) -> (r: Result<u8, PrivateNativeRefusal>)
    ensures
        r == key_press_spec(
            identity_matches,
            source_matches,
            seat_matches,
            occupied,
            key,
            x_keycode,
            keyboards_answer,
            keyboard_present,
            physical_released,
        ),
{
    if !identity_matches || !source_matches || !seat_matches {
        return Err(PrivateNativeRefusal::ForeignOrigin);
    }
    if occupied {
        return Err(PrivateNativeRefusal::WrongPhase);
    }
    if key.is_none() {
        return Err(PrivateNativeRefusal::InvalidKey);
    }
    let code = match x_keycode {
        None => {
            return Err(PrivateNativeRefusal::InvalidKey);
        },
        Some(code) => code,
    };
    if !keyboards_answer {
        return Err(PrivateNativeRefusal::ForeignOrigin);
    }
    if !keyboard_present || !physical_released {
        return Err(PrivateNativeRefusal::KeyboardUnavailable);
    }
    Ok(code)
}

/// Who a key press goes to: the owner of the keyboard grab the activation
/// names, otherwise the focus client.
pub fn key_recipient(focus_client: u64, grab_owner: Option<u64>) -> (r: u64)
    ensures
        r == match grab_owner {
            Some(o) => o,
            None => focus_client,
        },
{
    match grab_owner {
        Some(o) => o,
        None => focus_client,
    }
}

/// Whether the recipient a key press was resolved for is the one the
/// keyboard activation names; any other is refused as the wrong recipient.
pub fn key_recipient_refusal(focus_client: u64, grab_owner: Option<u64>, recipient: u64) -> (r: Option<
    PrivateNativeRefusal,
>)
    ensures
        r == if key_recipient_spec(focus_client, grab_owner) != recipient {
            Some(PrivateNativeRefusal::WrongRecipient)
        } else {
            None::<PrivateNativeRefusal>
        },
{
    if key_recipient(focus_client, grab_owner) != recipient {
        Some(PrivateNativeRefusal::WrongRecipient)
    } else {
        None
    }
}

/// Who a key press goes to, as a value.
pub open spec fn key_recipient_spec(focus_client: u64, grab_owner: Option<u64>) -> u64 {
    match grab_owner {
        Some(o) => o,
        None => focus_client,
    }
}

/// Undo the installation of a key press the common authority refused: it
/// applied no press, so the unused slot it was installed in is emptied and
/// the may-have-applied mark goes back to what it was before.
pub fn commit_key_refused<E>(storage: &mut Option<PrivateKeyHold<E>>, may_have_applied: &mut bool, prior: bool)
    ensures
        *final(storage) is None,
        *final(may_have_applied) == prior,
{
    *storage = None;
    *may_have_applied = prior;
}

/// Mark that a press may have applied, before its effect is asked for,
/// returning the mark it had so a refused effect can put it back.
pub fn mark_may_have_applied(may_have_applied: &mut bool) -> (prior: bool)
    ensures
        prior == *old(may_have_applied),
        *final(may_have_applied),
{
    let prior = *may_have_applied;
    *may_have_applied = true;
    prior
}


/// A routed event's time, in the 32 bits an event carries: a later time than
/// fits is carried as the largest.
pub open spec fn event_time(time_msec: u64) -> u32 {
    if time_msec > u32::MAX {
        u32::MAX
    } else {
        time_msec as u32
    }
}

/// The pointer button event a routed press or release describes.
pub open spec fn pointer_event_spec(
    surface: u64,
    root_x: i16,
    root_y: i16,
    event_x: i16,
    event_y: i16,
    button: u8,
    pressed: bool,
    state: u16,
    time_msec: u64,
) -> XAuthorityPointerEvent {
    XAuthorityPointerEvent {
        kind: XAuthorityPointerEventKind::Button { button, pressed },
        surface,
        root_x,
        root_y,
        event_x,
        event_y,
        state,
        time_msec: event_time(time_msec),
    }
}

/// Build the pointer button event a routed press or release describes, from
/// its coordinates already brought into range.
pub fn pointer_event(
    surface: u64,
    root_x: i16,
    root_y: i16,
    event_x: i16,
    event_y: i16,
    button: u8,
    pressed: bool,
    state: u16,
    time_msec: u64,
) -> (r: XAuthorityPointerEvent)
    ensures
        r == pointer_event_spec(surface, root_x, root_y, event_x, event_y, button, pressed, state, time_msec),
{
    let time: u32 = if time_msec > 0xffff_ffffu64 {
        0xffff_ffffu32
    } else {
        time_msec as u32
    };
    XAuthorityPointerEvent {
        kind: XAuthorityPointerEventKind::Button { button, pressed },
        surface,
        root_x,
        root_y,
        event_x,
        event_y,
        state,
        time_msec: time,
    }
}

/// The selected pointer's mask once a key press changed the modifiers: the
/// button bits stay, the modifier byte is replaced.
pub fn observed_pointer_mask(mask: u16, modifiers: u8) -> (r: u16)
    ensures
        r == (mask & 0xff00u16) | (modifiers as u16),
{
    (mask & 0xff00u16) | (modifiers as u16)
}

/// Record a key press's modifiers on the selected pointer's mask, held as a
/// plain value (`None` while no pointer is selected): a selected pointer
/// keeps its button bits and takes the new modifier byte; an absent one
/// stays absent.
pub fn observe_key_modifiers(pointer_mask: &mut Option<u16>, modifiers: u8)
    ensures
        old(pointer_mask).is_none() ==> final(pointer_mask).is_none(),
        old(pointer_mask).is_some() ==> *final(pointer_mask) == Some(
            (old(pointer_mask).unwrap() & 0xff00u16) | (modifiers as u16),
        ),
{
    match pointer_mask {
        Some(mask) => {
            *mask = observed_pointer_mask(*mask, modifiers);
        },
        None => {},
    }
}

/// Why a composed native step was refused.
#[derive(Debug, Clone, Copy, PartialEq, Eq)]
pub enum PrivateStepRefusal<F> {
    /// A check of this library refused it.
    Native(PrivateNativeRefusal),
    /// Recovery reports the delivery already ended.
    DeliveryEnded,
    /// Recovery could not be asked.
    RecoveryUnavailable,
    /// Preparing, selecting or resolving the press refused it.
    Effect(F),
    /// The common authority refused the press itself.
    Authority(F),
}

/// What a pointer press is checked against before anything is installed.
#[derive(Debug, Clone, Copy, PartialEq, Eq)]
pub struct PrivatePointerPressFacts {
    /// Whether the permit is this origin's.
    pub identity_matches: bool,
    /// Whether the capability came from the permit's source.
    pub source_matches: bool,
    /// Whether the route is for this origin's seat.
    pub seat_matches: bool,
    /// The device button, when the route is a pointer button going down.
    pub evdev: Option<u32>,
    /// The X button the seat's mapper gives it, with the authority's input
    /// for that button, when both exist.
    pub button: Option<(u8, u64)>,
    /// Whether the seat has a pointer mapper.
    pub mapper_present: bool,
    /// Whether the namespace has an ordered query scope.
    pub query_present: bool,
    /// The pointer query's modifier byte.
    pub modifiers: u16,
    pub origin: u64,
    pub grant: u64,
    pub route_lease: Option<u64>,
    pub surface: u64,
    pub root_x: i16,
    pub root_y: i16,
    pub time_msec: u64,
}

/// The recipient a prepared pointer press goes to, and what its connection
/// says of itself.
#[derive(Debug, Clone, Copy, PartialEq, Eq)]
pub struct PrivatePreparedPointerPress {
    pub recipient: u64,
    pub generation: u64,
    /// Whether the selected connection is the recipient, of this authority
    /// and namespace, in this origin's registry.
    pub client_matches: bool,
    /// Whether its selections were applied by this origin for it.
    pub selection_origin_matches: bool,
    pub revision: Option<u64>,
}

/// Where a resolved pointer press is delivered from the recipient's side.
#[derive(Debug, Clone, Copy, PartialEq, Eq)]
pub struct PrivateResolvedPointerPress {
    /// The press's coordinates in the recipient's selected basis.
    pub event_x: i16,
    pub event_y: i16,
    /// The lease of the grab the press activated or joined.
    pub grab_lease: Option<u64>,
}

/// The outside steps of a pointer press, each taken at most once: the
/// authority, the applied registry, recovery and the seat's mapper. What
/// they answer is theirs; what is handed to each, and what the press makes
/// of each answer, is stated by `press_pointer`.
pub struct PrivatePointerPressSteps<P, Rs, B, Pr, A, M, H> {
    /// Prepare the press with the authority and select its recipient's
    /// connection.
    pub prepare: P,
    /// Resolve the press's delivery plan and its selected coordinates.
    pub resolve: Rs,
    /// Bind the delivery to a recipient in recovery: `Ok(false)` when the
    /// delivery already ended, `Err` when recovery could not be asked.
    pub bind: B,
    /// The common press of an input for a recipient connection's
    /// generation: the incarnation, and whether it was the aggregate's first.
    pub press: Pr,
    /// Commit the activation the press prepared.
    pub activate: A,
    /// Apply the press to the seat's mapper: the button state before it.
    pub map_button: M,
    /// Record the held press with the query and the selections, and build
    /// its ordered emission.
    pub held: H,
}

/// What a pointer press returns, given its facts, whether its storage was
/// taken, and what each outside step answered: the checks in order, then
/// preparation and the recipient's checks, the resolution, recovery, the
/// authority's press, and, for the aggregate's first press, the event over
/// the mapper's button state before it.
pub open spec fn pointer_press_outcome<F>(
    facts: PrivatePointerPressFacts,
    occupied: bool,
    prepared: Result<PrivatePreparedPointerPress, F>,
    resolved: Result<PrivateResolvedPointerPress, F>,
    bound: Result<bool, ()>,
    pressed: Result<(HoldIncarnation, bool), F>,
    before: u16,
) -> Result<(HoldIncarnation, Option<XAuthorityPointerEvent>), PrivateStepRefusal<F>> {
    match pointer_facts_refusal(facts, occupied) {
        Some(x) => Err(PrivateStepRefusal::Native(x)),
        None => match prepared {
            Err(e) => Err(PrivateStepRefusal::Effect(e)),
            Ok(p) => match press_recipient_refusal_spec(p.client_matches, p.selection_origin_matches, p.revision) {
                Some(x) => Err(PrivateStepRefusal::Native(x)),
                None => match resolved {
                    Err(e) => Err(PrivateStepRefusal::Effect(e)),
                    Ok(res) => match bound {
                        Err(_) => Err(PrivateStepRefusal::RecoveryUnavailable),
                        Ok(false) => Err(PrivateStepRefusal::DeliveryEnded),
                        Ok(true) => match pressed {
                            Err(e) => Err(PrivateStepRefusal::Authority(e)),
                            Ok(answer) => if !answer.1 {
                                Ok((answer.0, None))
                            } else {
                                Ok(
                                    (
                                        answer.0,
                                        Some(
                                            pointer_event_spec(
                                                facts.surface,
                                                facts.root_x,
                                                facts.root_y,
                                                res.event_x,
                                                res.event_y,
                                                (facts.button->0).0,
                                                true,
                                                facts.modifiers | before,
                                                facts.time_msec,
                                            ),
                                        ),
                                    ),
                                )
                            },
                        },
                    },
                },
            },
        },
    }
}

/// The steps a pointer press asked, and with what, up to the answers it
/// got: preparation once the checks passed; resolution once the recipient
/// passed its own; recovery for the prepared recipient; the authority's
/// press of the button's input for that recipient's connection generation;
/// and the mapper for the device button, on the aggregate's first press.
pub open spec fn pointer_press_answers<F, P, Rs, B, Pr, A, M, H>(
    steps: PrivatePointerPressSteps<P, Rs, B, Pr, A, M, H>,
    facts: PrivatePointerPressFacts,
    occupied: bool,
    prepared: Result<PrivatePreparedPointerPress, F>,
    resolved: Result<PrivateResolvedPointerPress, F>,
    bound: Result<bool, ()>,
    pressed: Result<(HoldIncarnation, bool), F>,
    before: u16,
) -> bool where
    P: FnOnce() -> Result<PrivatePreparedPointerPress, F>,
    Rs: FnOnce() -> Result<PrivateResolvedPointerPress, F>,
    B: FnOnce(u64) -> Result<bool, ()>,
    Pr: FnOnce(u64, u64, u64) -> Result<(HoldIncarnation, bool), F>,
    M: FnOnce(u32) -> u16,
 {
    pointer_facts_refusal(facts, occupied) is None ==> {
        &&& call_ensures(steps.prepare, (), prepared)
        &&& (prepared is Ok && press_recipient_refusal_spec(
            prepared->Ok_0.client_matches,
            prepared->Ok_0.selection_origin_matches,
            prepared->Ok_0.revision,
        ) is None) ==> {
            &&& call_ensures(steps.resolve, (), resolved)
            &&& resolved is Ok ==> call_ensures(steps.bind, (prepared->Ok_0.recipient,), bound)
            &&& (resolved is Ok && bound == Ok::<bool, ()>(true)) ==> call_ensures(
                steps.press,
                ((facts.button->0).1, prepared->Ok_0.recipient, prepared->Ok_0.generation),
                pressed,
            )
            &&& (resolved is Ok && bound == Ok::<bool, ()>(true) && pressed is Ok && (pressed->Ok_0).1)
                ==> call_ensures(steps.map_button, (facts.evdev->0,), before)
        }
    }
}

/// A prepared pointer press whose recipient passed its checks, and its
/// resolution: the point at which recovery is asked.
pub open spec fn pointer_press_resolved<F, P, Rs>(
    prepare: P,
    resolve: Rs,
    prepared: PrivatePreparedPointerPress,
    resolved: PrivateResolvedPointerPress,
) -> bool where
    P: FnOnce() -> Result<PrivatePreparedPointerPress, F>,
    Rs: FnOnce() -> Result<PrivateResolvedPointerPress, F>,
 {
    &&& call_ensures(prepare, (), Ok::<PrivatePreparedPointerPress, F>(prepared))
    &&& press_recipient_refusal_spec(prepared.client_matches, prepared.selection_origin_matches, prepared.revision)
        is None
    &&& call_ensures(resolve, (), Ok::<PrivateResolvedPointerPress, F>(resolved))
}

/// The refusal a pointer press meets before anything is prepared.
pub open spec fn pointer_facts_refusal(f: PrivatePointerPressFacts, occupied: bool) -> Option<PrivateNativeRefusal> {
    pointer_press_refusal_spec(
        f.identity_matches,
        f.source_matches,
        occupied,
        f.seat_matches,
        f.evdev,
        f.button is Some,
        f.mapper_present,
        f.query_present,
    )
}

/// One pointer press, composed.
///
/// Every check comes first and refuses with nothing installed and nothing
/// marked. Then the obligation is installed for the recipient, marked as
/// possibly applied, and only then is the common press made: a refused press
/// leaves the installed obligation and the mark, since the press may have
/// reached the authority. A press that was not the aggregate's first is
/// retained as a mismatch with no event. The first commits its activation,
/// moves the mapper, and holds with its ordered emission and the button
/// event it returns.
pub fn press_pointer<E, F, P, Rs, B, Pr, A, M, H>(
    steps: PrivatePointerPressSteps<P, Rs, B, Pr, A, M, H>,
    storage: &mut Option<PrivatePointerHold<E>>,
    may_have_applied: &mut bool,
    facts: PrivatePointerPressFacts,
) -> (r: Result<(HoldIncarnation, Option<XAuthorityPointerEvent>), PrivateStepRefusal<F>>) where
    P: FnOnce() -> Result<PrivatePreparedPointerPress, F>,
    Rs: FnOnce() -> Result<PrivateResolvedPointerPress, F>,
    B: FnOnce(u64) -> Result<bool, ()>,
    Pr: FnOnce(u64, u64, u64) -> Result<(HoldIncarnation, bool), F>,
    A: FnOnce() -> PointerActivationCommit,
    M: FnOnce(u32) -> u16,
    H: FnOnce(XAuthorityPointerEvent) -> E,

    requires
        call_requires(steps.prepare, ()),
        call_requires(steps.resolve, ()),
        forall|client: u64| #[trigger] call_requires(steps.bind, (client,)),
        forall|input: u64, client: u64, generation: u64| #[trigger]
            call_requires(steps.press, (input, client, generation)),
        call_requires(steps.activate, ()),
        forall|evdev: u32| #[trigger] call_requires(steps.map_button, (evdev,)),
        forall|event: XAuthorityPointerEvent| #[trigger] call_requires(steps.held, (event,)),
    ensures
        // Exactly what the answers it got make of the press.
        exists|
            prepared: Result<PrivatePreparedPointerPress, F>,
            resolved: Result<PrivateResolvedPointerPress, F>,
            bound: Result<bool, ()>,
            pressed: Result<(HoldIncarnation, bool), F>,
            before: u16,
        |
            #[trigger] pointer_press_answers(
                steps,
                facts,
                old(storage).is_some(),
                prepared,
                resolved,
                bound,
                pressed,
                before,
            ) && r == pointer_press_outcome(facts, old(storage).is_some(), prepared, resolved, bound, pressed, before),
        pointer_facts_refusal(facts, old(storage).is_some()) is Some ==> r == Err::<
            (HoldIncarnation, Option<XAuthorityPointerEvent>),
            PrivateStepRefusal<F>,
        >(PrivateStepRefusal::Native(pointer_facts_refusal(facts, old(storage).is_some())->0)),
        (r is Err && !(r->Err_0 is Authority)) ==> *final(storage) == *old(storage) && *final(may_have_applied)
            == *old(may_have_applied),
        // A refusal of the outside work is the answer it gave.
        r matches Err(PrivateStepRefusal::Effect(e)) ==> call_ensures(
            steps.prepare,
            (),
            Err::<PrivatePreparedPointerPress, F>(e),
        ) || exists|prepared: PrivatePreparedPointerPress|
            #[trigger] call_ensures(steps.prepare, (), Ok::<PrivatePreparedPointerPress, F>(prepared))
                && press_recipient_refusal_spec(
                prepared.client_matches,
                prepared.selection_origin_matches,
                prepared.revision,
            ) is None && call_ensures(steps.resolve, (), Err::<PrivateResolvedPointerPress, F>(e)),
        (r is Err && r->Err_0 is Native && pointer_facts_refusal(facts, old(storage).is_some()) is None) ==> exists|
            prepared: PrivatePreparedPointerPress,
        |
            #[trigger] call_ensures(steps.prepare, (), Ok::<PrivatePreparedPointerPress, F>(prepared))
                && press_recipient_refusal_spec(
                prepared.client_matches,
                prepared.selection_origin_matches,
                prepared.revision,
            ) == Some(r->Err_0->Native_0),
        r == Err::<(HoldIncarnation, Option<XAuthorityPointerEvent>), PrivateStepRefusal<F>>(
            PrivateStepRefusal::DeliveryEnded,
        ) ==> exists|prepared: PrivatePreparedPointerPress, resolved: PrivateResolvedPointerPress|
            #[trigger] pointer_press_resolved(steps.prepare, steps.resolve, prepared, resolved) && call_ensures(
                steps.bind,
                (prepared.recipient,),
                Ok::<bool, ()>(false),
            ),
        r == Err::<(HoldIncarnation, Option<XAuthorityPointerEvent>), PrivateStepRefusal<F>>(
            PrivateStepRefusal::RecoveryUnavailable,
        ) ==> exists|prepared: PrivatePreparedPointerPress, resolved: PrivateResolvedPointerPress|
            #[trigger] pointer_press_resolved(steps.prepare, steps.resolve, prepared, resolved) && call_ensures(
                steps.bind,
                (prepared.recipient,),
                Err::<bool, ()>(()),
            ),
        r matches Err(PrivateStepRefusal::Authority(e)) ==> exists|
            prepared: PrivatePreparedPointerPress,
            resolved: PrivateResolvedPointerPress,
        |
            #[trigger] pointer_press_resolved(steps.prepare, steps.resolve, prepared, resolved) && call_ensures(
                steps.bind,
                (prepared.recipient,),
                Ok::<bool, ()>(true),
            ) && call_ensures(
                steps.press,
                ((facts.button->0).1, prepared.recipient, prepared.generation),
                Err::<(HoldIncarnation, bool), F>(e),
            ) && final(storage).unwrap()@.client == prepared.recipient && final(storage).unwrap()@.generation
                == prepared.generation,
        r matches Ok((incarnation, event)) ==> exists|
            prepared: PrivatePreparedPointerPress,
            resolved: PrivateResolvedPointerPress,
        |
            #[trigger] pointer_press_resolved(steps.prepare, steps.resolve, prepared, resolved) && call_ensures(
                steps.bind,
                (prepared.recipient,),
                Ok::<bool, ()>(true),
            ) && call_ensures(
                steps.press,
                ((facts.button->0).1, prepared.recipient, prepared.generation),
                Ok::<(HoldIncarnation, bool), F>((incarnation, event is Some)),
            ) && final(storage).unwrap()@.client == prepared.recipient && final(storage).unwrap()@.generation
                == prepared.generation && (event matches Some(e) ==> e.event_x == resolved.event_x && e.event_y
                == resolved.event_y),
        r is Ok || r->Err_0 is Authority ==> {
            &&& pointer_facts_refusal(facts, false) is None
            &&& old(storage).is_none()
            &&& *final(may_have_applied)
            &&& final(storage).is_some()
            &&& final(storage).unwrap()@.origin == facts.origin
            &&& final(storage).unwrap()@.grant == facts.grant
            &&& final(storage).unwrap()@.input == (facts.button->0).1
            &&& final(storage).unwrap().press_record().evdev == facts.evdev->0
            &&& final(storage).unwrap().press_record().route_lease == facts.route_lease
        },
        (r is Err && r->Err_0 is Authority) ==> final(storage).unwrap()@.status == PrivateNativeStatus::PressEntered
            && final(storage).unwrap()@.incarnation is None,
        r matches Ok((incarnation, event)) ==> {
            &&& final(storage).unwrap()@.incarnation == Some(incarnation)
            &&& (event is None <==> final(storage).unwrap()@.status == PrivateNativeStatus::Retained(
                PrivateNativeResidual::IncarnationMismatch,
            ))
            &&& event is None ==> final(storage).unwrap()@.press_emission is None
            &&& event is Some ==> final(storage).unwrap()@.status == PrivateNativeStatus::Held
                && final(storage).unwrap()@.press_emission is Some
                && call_ensures(steps.activate, (), final(storage).unwrap().activation()->0)
        },
        r matches Ok((_, Some(e))) ==> {
            &&& e.kind == (XAuthorityPointerEventKind::Button { button: (facts.button->0).0, pressed: true })
            &&& e.surface == facts.surface
            &&& e.root_x == facts.root_x
            &&& e.root_y == facts.root_y
            &&& e.time_msec == event_time(facts.time_msec)
            &&& exists|before: u16| #[trigger] call_ensures(steps.map_button, (facts.evdev->0,), before)
                && e.state == facts.modifiers | before
        },
{
    let ghost occ = storage.is_some();
    let ghost mut g_prepared: Result<PrivatePreparedPointerPress, F> = arbitrary();
    let ghost mut g_resolved: Result<PrivateResolvedPointerPress, F> = arbitrary();
    let ghost mut g_bound: Result<bool, ()> = arbitrary();
    let ghost mut g_pressed: Result<(HoldIncarnation, bool), F> = arbitrary();
    let ghost mut g_before: u16 = 0;
    let PrivatePointerPressSteps { prepare, resolve, bind, press, activate, map_button, held } = steps;
    match pointer_press_refusal(
        facts.identity_matches,
        facts.source_matches,
        storage.is_some(),
        facts.seat_matches,
        facts.evdev,
        facts.button.is_some(),
        facts.mapper_present,
        facts.query_present,
    ) {
        Some(refusal) => {
            assert(pointer_press_answers(steps, facts, occ, g_prepared, g_resolved, g_bound, g_pressed, g_before));
            return Err(PrivateStepRefusal::Native(refusal));
        },
        None => {},
    }
    let evdev = match facts.evdev {
        Some(evdev) => evdev,
        None => return Err(PrivateStepRefusal::Native(PrivateNativeRefusal::InvalidButton)),
    };
    let (button, input) = match facts.button {
        Some(pair) => pair,
        None => return Err(PrivateStepRefusal::Native(PrivateNativeRefusal::InvalidButton)),
    };
    let prepared_answer = prepare();
    proof {
        g_prepared = prepared_answer;
    }
    let prepared = match prepared_answer {
        Ok(prepared) => prepared,
        Err(e) => {
            assert(pointer_press_answers(steps, facts, occ, g_prepared, g_resolved, g_bound, g_pressed, g_before));
            return Err(PrivateStepRefusal::Effect(e));
        },
    };
    match press_recipient_refusal(prepared.client_matches, prepared.selection_origin_matches, prepared.revision) {
        Some(refusal) => {
            assert(pointer_press_answers(steps, facts, occ, g_prepared, g_resolved, g_bound, g_pressed, g_before));
            return Err(PrivateStepRefusal::Native(refusal));
        },
        None => {},
    }
    let resolved_answer = resolve();
    proof {
        g_resolved = resolved_answer;
    }
    let resolved = match resolved_answer {
        Ok(resolved) => resolved,
        Err(e) => {
            assert(pointer_press_answers(steps, facts, occ, g_prepared, g_resolved, g_bound, g_pressed, g_before));
            return Err(PrivateStepRefusal::Effect(e));
        },
    };
    proof {
        assert(pointer_press_resolved(prepare, resolve, prepared, resolved));
    }
    let bound = bind(prepared.recipient);
    proof {
        g_bound = bound;
    }
    match bound {
        Ok(true) => {},
        Ok(false) => {
            assert(pointer_press_answers(steps, facts, occ, g_prepared, g_resolved, g_bound, g_pressed, g_before));
            return Err(PrivateStepRefusal::DeliveryEnded);
        },
        Err(unit) => {
            proof {
                assert(unit == ());
                assert(bound == Err::<bool, ()>(()));
            }
            assert(pointer_press_answers(steps, facts, occ, g_prepared, g_resolved, g_bound, g_pressed, g_before));
            return Err(PrivateStepRefusal::RecoveryUnavailable);
        },
    }
    let record = PointerPressRecord { evdev, route_lease: facts.route_lease, grab_lease: resolved.grab_lease };
    let installed = PrivatePointerHold::install(
        storage,
        facts.origin,
        prepared.recipient,
        prepared.generation,
        input,
        facts.grant,
        record,
    );
    proof {
        assert(installed is Ok);
    }
    *may_have_applied = true;
    let pressed = press(input, prepared.recipient, prepared.generation);
    proof {
        g_pressed = pressed;
    }
    let (incarnation, first) = match pressed {
        Ok(applied) => applied,
        Err(e) => {
            assert(pointer_press_answers(steps, facts, occ, g_prepared, g_resolved, g_bound, g_pressed, g_before));
            return Err(PrivateStepRefusal::Authority(e));
        },
    };
    let mut hold = match storage.take() {
        Some(hold) => hold,
        None => return Err(PrivateStepRefusal::Native(PrivateNativeRefusal::WrongPhase)),
    };
    if !first {
        hold.press_retained(incarnation);
        *storage = Some(hold);
        assert(pointer_press_answers(steps, facts, occ, g_prepared, g_resolved, g_bound, g_pressed, g_before));
        return Ok((incarnation, None));
    }
    let activation = activate();
    let before = map_button(evdev);
    proof {
        g_before = before;
    }
    let event = pointer_event(
        facts.surface,
        facts.root_x,
        facts.root_y,
        resolved.event_x,
        resolved.event_y,
        button,
        true,
        facts.modifiers | before,
        facts.time_msec,
    );
    let emission = held(event);
    hold.press_applied(incarnation, true, activation, emission);
    *storage = Some(hold);
    assert(pointer_press_answers(steps, facts, occ, g_prepared, g_resolved, g_bound, g_pressed, g_before));
    Ok((incarnation, Some(event)))
}

/// What a key press is checked against before anything is prepared.
#[derive(Debug, Clone, Copy, PartialEq, Eq)]
pub struct PrivateKeyPressFacts {
    pub identity_matches: bool,
    pub source_matches: bool,
    pub seat_matches: bool,
    /// The device key, when the route is a key going down.
    pub evdev: Option<u32>,
    /// The X keycode it maps to, if any.
    pub x_keycode: Option<u8>,
    /// Whether the seat's keyboards could be asked.
    pub keyboards_answer: bool,
    /// Whether the seat has a keyboard.
    pub keyboard_present: bool,
    /// Whether that keyboard has the key physically released.
    pub physical_released: bool,
    pub origin: u64,
    pub grant: u64,
    pub route_lease: Option<u64>,
    pub time_msec: u64,
}

/// The focus and the recipient a key press was selected for, and what the
/// recipient's side says of itself.
#[derive(Debug, Clone, Copy, PartialEq, Eq)]
pub struct PrivatePreparedKeyPress {
    pub focus: u64,
    pub recipient: u64,
    pub generation: u64,
    /// Whether the pointer query knows a position.
    pub position_known: bool,
    /// Whether the seat has a pointer mapper.
    pub mapper_present: bool,
    /// The recipient's applied selection revision.
    pub revision: Option<u64>,
    /// The seat's pointer button state.
    pub buttons: u16,
}

/// The outside steps of a key press, each taken at most once: the applied
/// registry, the authority, recovery and the seat's keyboard. What they
/// answer is theirs; what is handed to each, and what the press makes of
/// each answer, is stated by `press_key`.
pub struct PrivateKeyPressSteps<P, K, Rs, B, I, Pr, A, M, H> {
    /// Select the focus and the recipient connections for a key.
    pub prepare: P,
    /// Prepare the press with the authority: the owner of the grab it goes
    /// to, if any.
    pub keyboard: K,
    /// Resolve the press's delivery plan.
    pub resolve: Rs,
    /// Bind the delivery to a recipient in recovery: `Ok(false)` when the
    /// delivery already ended, `Err` when recovery could not be asked.
    pub bind: B,
    /// The authority's input for a key, if it has one.
    pub input: I,
    /// The common press of an input for a recipient connection's
    /// generation: the incarnation, and whether it was the aggregate's first.
    pub press: Pr,
    /// Commit the activation the press prepared, if it made one.
    pub activate: A,
    /// Apply the press to the keyboard: the keycode and the modifier state,
    /// or `None` when the keyboard's ordered state cannot be read afterwards.
    pub map_key: M,
    /// Record the held key's modifiers with the query and the selections,
    /// and build its ordered emission.
    pub held: H,
}

/// The refusal a prepared key press meets before its recipient is checked.
pub open spec fn key_commit_refusal_spec(p: PrivatePreparedKeyPress) -> Option<PrivateNativeRefusal> {
    if !p.position_known {
        Some(PrivateNativeRefusal::MissingQueryScope)
    } else if !p.mapper_present {
        Some(PrivateNativeRefusal::MissingMapper)
    } else if p.revision is None || p.revision->0 == u64::MAX {
        Some(PrivateNativeRefusal::SelectionUnavailable)
    } else {
        None
    }
}

/// Check a prepared key press: the pointer's position, the seat's mapper and
/// a usable selection revision, in that order.
pub fn key_commit_refusal(p: &PrivatePreparedKeyPress) -> (r: Option<PrivateNativeRefusal>)
    ensures
        r == key_commit_refusal_spec(*p),
{
    if !p.position_known {
        return Some(PrivateNativeRefusal::MissingQueryScope);
    }
    if !p.mapper_present {
        return Some(PrivateNativeRefusal::MissingMapper);
    }
    match p.revision {
        None => Some(PrivateNativeRefusal::SelectionUnavailable),
        Some(n) => if n == u64::MAX {
            Some(PrivateNativeRefusal::SelectionUnavailable)
        } else {
            None
        },
    }
}

/// The refusal a key press meets before anything is prepared.
pub open spec fn key_facts_check(f: PrivateKeyPressFacts, occupied: bool) -> Result<u8, PrivateNativeRefusal> {
    key_press_spec(
        f.identity_matches,
        f.source_matches,
        f.seat_matches,
        occupied,
        f.evdev,
        f.x_keycode,
        f.keyboards_answer,
        f.keyboard_present,
        f.physical_released,
    )
}

/// What a key press returns, given its facts, whether its storage was
/// taken, and what each outside step answered, in the order it asks them.
pub open spec fn key_press_outcome<E, F>(
    facts: PrivateKeyPressFacts,
    occupied: bool,
    prepared: Result<PrivatePreparedKeyPress, F>,
    grab: Result<Option<u64>, F>,
    resolved: Result<(), F>,
    bound: Result<bool, ()>,
    given: Option<u64>,
    pressed: Result<(HoldIncarnation, bool), F>,
    mapped: Option<(u8, u16)>,
    emitted: Result<E, F>,
) -> Result<(HoldIncarnation, Option<XAuthorityKeyEvent>), PrivateStepRefusal<F>> {
    match key_facts_check(facts, occupied) {
        Err(x) => Err(PrivateStepRefusal::Native(x)),
        Ok(_) => match prepared {
            Err(e) => Err(PrivateStepRefusal::Effect(e)),
            Ok(p) => match key_commit_refusal_spec(p) {
                Some(x) => Err(PrivateStepRefusal::Native(x)),
                None => match grab {
                    Err(e) => Err(PrivateStepRefusal::Effect(e)),
                    Ok(g) => if key_recipient_spec(p.focus, g) != p.recipient {
                        Err(PrivateStepRefusal::Native(PrivateNativeRefusal::WrongRecipient))
                    } else {
                        match resolved {
                            Err(e) => Err(PrivateStepRefusal::Effect(e)),
                            Ok(_) => match bound {
                                Err(_) => Err(PrivateStepRefusal::RecoveryUnavailable),
                                Ok(false) => Err(PrivateStepRefusal::DeliveryEnded),
                                Ok(true) => match given {
                                    None => Err(PrivateStepRefusal::Native(PrivateNativeRefusal::InvalidKey)),
                                    Some(_) => match pressed {
                                        Err(e) => Err(PrivateStepRefusal::Authority(e)),
                                        Ok(answer) => if !answer.1 {
                                            Ok((answer.0, None))
                                        } else {
                                            match mapped {
                                                None => Err(
                                                    PrivateStepRefusal::Native(
                                                        PrivateNativeRefusal::KeyboardUnavailable,
                                                    ),
                                                ),
                                                Some(m) => match emitted {
                                                    Err(e) => Err(PrivateStepRefusal::Effect(e)),
                                                    Ok(_) => Ok(
                                                        (
                                                            answer.0,
                                                            Some(
                                                                XAuthorityKeyEvent {
                                                                    pressed: true,
                                                                    keycode: m.0,
                                                                    time_msec: event_time(facts.time_msec),
                                                                    state: m.1 | p.buttons,
                                                                },
                                                            ),
                                                        ),
                                                    ),
                                                },
                                            }
                                        },
                                    },
                                },
                            },
                        }
                    },
                },
            },
        },
    }
}

/// The steps a key press asked, and with what, up to the answers it got.
pub open spec fn key_press_answers<E, F, P, K, Rs, B, I, Pr, A, M, H>(
    steps: PrivateKeyPressSteps<P, K, Rs, B, I, Pr, A, M, H>,
    facts: PrivateKeyPressFacts,
    occupied: bool,
    prepared: Result<PrivatePreparedKeyPress, F>,
    grab: Result<Option<u64>, F>,
    resolved: Result<(), F>,
    bound: Result<bool, ()>,
    given: Option<u64>,
    pressed: Result<(HoldIncarnation, bool), F>,
    mapped: Option<(u8, u16)>,
    emitted: Result<E, F>,
) -> bool where
    P: FnOnce(u8) -> Result<PrivatePreparedKeyPress, F>,
    K: FnOnce(u8) -> Result<Option<u64>, F>,
    Rs: FnOnce() -> Result<(), F>,
    B: FnOnce(u64) -> Result<bool, ()>,
    I: FnOnce(u8) -> Option<u64>,
    Pr: FnOnce(u64, u64, u64) -> Result<(HoldIncarnation, bool), F>,
    M: FnOnce(u32) -> Option<(u8, u16)>,
    H: FnOnce(XAuthorityKeyEvent) -> Result<E, F>,
 {
    let key = key_facts_check(facts, occupied)->Ok_0;
    key_facts_check(facts, occupied) is Ok ==> {
        &&& call_ensures(steps.prepare, (key,), prepared)
        &&& (prepared is Ok && key_commit_refusal_spec(prepared->Ok_0) is None) ==> {
            let p = prepared->Ok_0;
            &&& call_ensures(steps.keyboard, (key,), grab)
            &&& (grab is Ok && key_recipient_spec(p.focus, grab->Ok_0) == p.recipient) ==> {
                &&& call_ensures(steps.resolve, (), resolved)
                &&& resolved is Ok ==> call_ensures(steps.bind, (p.recipient,), bound)
                &&& (resolved is Ok && bound == Ok::<bool, ()>(true)) ==> {
                    &&& call_ensures(steps.input, (key,), given)
                    &&& given is Some ==> call_ensures(steps.press, (given->0, p.recipient, p.generation), pressed)
                    &&& (given is Some && pressed is Ok && (pressed->Ok_0).1) ==> {
                        &&& call_ensures(steps.map_key, (facts.evdev->0,), mapped)
                        &&& mapped is Some ==> call_ensures(
                            steps.held,
                            (XAuthorityKeyEvent {
                                pressed: true,
                                keycode: (mapped->0).0,
                                time_msec: event_time(facts.time_msec),
                                state: (mapped->0).1 | p.buttons,
                            },),
                            emitted,
                        )
                    }
                }
            }
        }
    }
}

/// A key press prepared for `key` whose recipient passed its checks and
/// whose plan resolved: the point at which recovery is asked.
pub open spec fn key_press_resolved<F, P, K, Rs>(
    prepare: P,
    keyboard: K,
    resolve: Rs,
    key: u8,
    prepared: PrivatePreparedKeyPress,
    grab: Option<u64>,
) -> bool where
    P: FnOnce(u8) -> Result<PrivatePreparedKeyPress, F>,
    K: FnOnce(u8) -> Result<Option<u64>, F>,
    Rs: FnOnce() -> Result<(), F>,
 {
    &&& call_ensures(prepare, (key,), Ok::<PrivatePreparedKeyPress, F>(prepared))
    &&& key_commit_refusal_spec(prepared) is None
    &&& call_ensures(keyboard, (key,), Ok::<Option<u64>, F>(grab))
    &&& key_recipient_spec(prepared.focus, grab) == prepared.recipient
    &&& call_ensures(resolve, (), Ok::<(), F>(()))
}

/// A resolved key press that recovery bound and the authority has an input
/// for: the point at which the common press is made.
pub open spec fn key_press_ready<F, P, K, Rs, B, I>(
    prepare: P,
    keyboard: K,
    resolve: Rs,
    bind: B,
    input: I,
    key: u8,
    prepared: PrivatePreparedKeyPress,
    grab: Option<u64>,
    given: u64,
) -> bool where
    P: FnOnce(u8) -> Result<PrivatePreparedKeyPress, F>,
    K: FnOnce(u8) -> Result<Option<u64>, F>,
    Rs: FnOnce() -> Result<(), F>,
    B: FnOnce(u64) -> Result<bool, ()>,
    I: FnOnce(u8) -> Option<u64>,
 {
    &&& key_press_resolved(prepare, keyboard, resolve, key, prepared, grab)
    &&& call_ensures(bind, (prepared.recipient,), Ok::<bool, ()>(true))
    &&& call_ensures(input, (key,), Some(given))
}

/// One key press, composed.
///
/// Every check comes first and refuses with nothing installed and nothing
/// marked: the key itself, then the prepared recipient, then recovery. Then
/// the obligation is installed for the recipient and marked as possibly
/// applied, and only then is the common press made. A press the authority
/// refused applied nothing: the installed obligation is disposed of and the
/// mark restored. A press that was not the aggregate's first is retained as
/// a mismatch with no event. The first commits its activation and holds,
/// with its pressed key event; its ordered emission is kept when it could be
/// built.
pub fn press_key<E, F, P, K, Rs, B, I, Pr, A, M, H>(
    steps: PrivateKeyPressSteps<P, K, Rs, B, I, Pr, A, M, H>,
    storage: &mut Option<PrivateKeyHold<E>>,
    may_have_applied: &mut bool,
    facts: PrivateKeyPressFacts,
) -> (r: Result<(HoldIncarnation, Option<XAuthorityKeyEvent>), PrivateStepRefusal<F>>) where
    P: FnOnce(u8) -> Result<PrivatePreparedKeyPress, F>,
    K: FnOnce(u8) -> Result<Option<u64>, F>,
    Rs: FnOnce() -> Result<(), F>,
    B: FnOnce(u64) -> Result<bool, ()>,
    I: FnOnce(u8) -> Option<u64>,
    Pr: FnOnce(u64, u64, u64) -> Result<(HoldIncarnation, bool), F>,
    A: FnOnce() -> Option<KeyboardActivation>,
    M: FnOnce(u32) -> Option<(u8, u16)>,
    H: FnOnce(XAuthorityKeyEvent) -> Result<E, F>,

    requires
        forall|key: u8| #[trigger] call_requires(steps.prepare, (key,)),
        forall|key: u8| #[trigger] call_requires(steps.keyboard, (key,)),
        call_requires(steps.resolve, ()),
        forall|client: u64| #[trigger] call_requires(steps.bind, (client,)),
        forall|key: u8| #[trigger] call_requires(steps.input, (key,)),
        forall|input: u64, client: u64, generation: u64| #[trigger]
            call_requires(steps.press, (input, client, generation)),
        call_requires(steps.activate, ()),
        forall|evdev: u32| #[trigger] call_requires(steps.map_key, (evdev,)),
        forall|event: XAuthorityKeyEvent| #[trigger] call_requires(steps.held, (event,)),
    ensures
        // Exactly what the answers it got make of the press.
        exists|
            prepared: Result<PrivatePreparedKeyPress, F>,
            grab: Result<Option<u64>, F>,
            resolved: Result<(), F>,
            bound: Result<bool, ()>,
            given: Option<u64>,
            pressed: Result<(HoldIncarnation, bool), F>,
            mapped: Option<(u8, u16)>,
            emitted: Result<E, F>,
        |
            #[trigger] key_press_answers(
                steps,
                facts,
                old(storage).is_some(),
                prepared,
                grab,
                resolved,
                bound,
                given,
                pressed,
                mapped,
                emitted,
            ) && r == key_press_outcome(
                facts,
                old(storage).is_some(),
                prepared,
                grab,
                resolved,
                bound,
                given,
                pressed,
                mapped,
                emitted,
            ),
        key_facts_check(facts, old(storage).is_some()) is Err ==> r == Err::<
            (HoldIncarnation, Option<XAuthorityKeyEvent>),
            PrivateStepRefusal<F>,
        >(PrivateStepRefusal::Native(key_facts_check(facts, old(storage).is_some())->Err_0)),
        // Until the common press answered, nothing is installed and nothing
        // marked; a press the authority refused is rolled back.
        *final(storage) == *old(storage) ==> *final(may_have_applied) == *old(may_have_applied),
        // Its own refusals, and those of delivery and recovery, leave the
        // storage and the mark as they were.
        (key_facts_check(facts, old(storage).is_some()) is Err || r == Err::<
            (HoldIncarnation, Option<XAuthorityKeyEvent>),
            PrivateStepRefusal<F>,
        >(PrivateStepRefusal::DeliveryEnded) || r == Err::<
            (HoldIncarnation, Option<XAuthorityKeyEvent>),
            PrivateStepRefusal<F>,
        >(PrivateStepRefusal::RecoveryUnavailable)) ==> *final(storage) == *old(storage)
            && *final(may_have_applied) == *old(may_have_applied),
        *final(storage) != *old(storage) ==> exists|
            prepared: PrivatePreparedKeyPress,
            grab: Option<u64>,
            given: u64,
            answer: (HoldIncarnation, bool),
        |
            #[trigger] key_press_ready(
                steps.prepare,
                steps.keyboard,
                steps.resolve,
                steps.bind,
                steps.input,
                key_facts_check(facts, false)->Ok_0,
                prepared,
                grab,
                given,
            ) && #[trigger] call_ensures(
                steps.press,
                (given, prepared.recipient, prepared.generation),
                Ok::<(HoldIncarnation, bool), F>(answer),
            ),
        r == Err::<(HoldIncarnation, Option<XAuthorityKeyEvent>), PrivateStepRefusal<F>>(
            PrivateStepRefusal::DeliveryEnded,
        ) ==> exists|prepared: PrivatePreparedKeyPress, grab: Option<u64>|
            #[trigger] key_press_resolved(
                steps.prepare,
                steps.keyboard,
                steps.resolve,
                key_facts_check(facts, false)->Ok_0,
                prepared,
                grab,
            ) && call_ensures(steps.bind, (prepared.recipient,), Ok::<bool, ()>(false)),
        r == Err::<(HoldIncarnation, Option<XAuthorityKeyEvent>), PrivateStepRefusal<F>>(
            PrivateStepRefusal::RecoveryUnavailable,
        ) ==> exists|prepared: PrivatePreparedKeyPress, grab: Option<u64>|
            #[trigger] key_press_resolved(
                steps.prepare,
                steps.keyboard,
                steps.resolve,
                key_facts_check(facts, false)->Ok_0,
                prepared,
                grab,
            ) && call_ensures(steps.bind, (prepared.recipient,), Err::<bool, ()>(())),
        r matches Err(PrivateStepRefusal::Authority(e)) ==> final(storage).is_none() && exists|
            prepared: PrivatePreparedKeyPress,
            grab: Option<u64>,
            given: u64,
        |
            #[trigger] key_press_ready(
                steps.prepare,
                steps.keyboard,
                steps.resolve,
                steps.bind,
                steps.input,
                key_facts_check(facts, false)->Ok_0,
                prepared,
                grab,
                given,
            ) && call_ensures(
                steps.press,
                (given, prepared.recipient, prepared.generation),
                Err::<(HoldIncarnation, bool), F>(e),
            ),
        r matches Ok((incarnation, event)) ==> exists|
            prepared: PrivatePreparedKeyPress,
            grab: Option<u64>,
            given: u64,
        |
            #[trigger] key_press_ready(
                steps.prepare,
                steps.keyboard,
                steps.resolve,
                steps.bind,
                steps.input,
                key_facts_check(facts, false)->Ok_0,
                prepared,
                grab,
                given,
            ) && call_ensures(
                steps.press,
                (given, prepared.recipient, prepared.generation),
                Ok::<(HoldIncarnation, bool), F>((incarnation, event is Some)),
            ) && final(storage).unwrap()@.client == prepared.recipient && final(storage).unwrap()@.input == given
                && (event matches Some(e) ==> exists|mapped: (u8, u16)|
                #[trigger] call_ensures(steps.map_key, (facts.evdev->0,), Some(mapped)) && e.keycode == mapped.0
                && e.state == mapped.1 | prepared.buttons),
        // Each refusal is the answer that gave it.
        r matches Err(PrivateStepRefusal::Effect(e)) ==> {
            ||| call_ensures(steps.prepare, (key_facts_check(facts, false)->Ok_0,), Err::<PrivatePreparedKeyPress, F>(e))
            ||| call_ensures(steps.keyboard, (key_facts_check(facts, false)->Ok_0,), Err::<Option<u64>, F>(e))
            ||| call_ensures(steps.resolve, (), Err::<(), F>(e))
            ||| exists|event: XAuthorityKeyEvent| #[trigger] call_ensures(steps.held, (event,), Err::<E, F>(e))
        },
        (r is Err && r->Err_0 is Native && key_facts_check(facts, old(storage).is_some()) is Ok) ==> {
            ||| exists|prepared: PrivatePreparedKeyPress|
                #[trigger] call_ensures(
                    steps.prepare,
                    (key_facts_check(facts, false)->Ok_0,),
                    Ok::<PrivatePreparedKeyPress, F>(prepared),
                ) && (key_commit_refusal_spec(prepared) == Some(r->Err_0->Native_0) || (r->Err_0->Native_0
                    == PrivateNativeRefusal::WrongRecipient && exists|grab: Option<u64>|
                    #[trigger] call_ensures(
                        steps.keyboard,
                        (key_facts_check(facts, false)->Ok_0,),
                        Ok::<Option<u64>, F>(grab),
                    ) && key_recipient_spec(prepared.focus, grab) != prepared.recipient))
            ||| r->Err_0->Native_0 == PrivateNativeRefusal::InvalidKey && call_ensures(
                steps.input,
                (key_facts_check(facts, false)->Ok_0,),
                None::<u64>,
            )
            ||| r->Err_0->Native_0 == PrivateNativeRefusal::KeyboardUnavailable && call_ensures(
                steps.map_key,
                (facts.evdev->0,),
                None::<(u8, u16)>,
            )
        },
        r matches Ok((incarnation, event)) ==> {
            &&& old(storage).is_none()
            &&& *final(may_have_applied)
            &&& final(storage).is_some()
            &&& final(storage).unwrap()@.origin == facts.origin
            &&& final(storage).unwrap()@.grant == facts.grant
            &&& final(storage).unwrap()@.incarnation == Some(incarnation)
            &&& final(storage).unwrap().press_record() == (KeyPressRecord {
                evdev: facts.evdev->0,
                key: key_facts_check(facts, false)->Ok_0,
                route_lease: facts.route_lease,
            })
            &&& (event is None <==> final(storage).unwrap()@.status == PrivateNativeStatus::Retained(
                PrivateNativeResidual::IncarnationMismatch,
            ))
            &&& event is Some ==> final(storage).unwrap()@.status == PrivateNativeStatus::Held
                && final(storage).unwrap()@.press_emission is Some
                && call_ensures(steps.activate, (), final(storage).unwrap().activation())
        },
        r matches Ok((_, Some(e))) ==> e.pressed && e.time_msec == event_time(facts.time_msec),
{
    let ghost occ = storage.is_some();
    let ghost mut g_prepared: Result<PrivatePreparedKeyPress, F> = arbitrary();
    let ghost mut g_grab: Result<Option<u64>, F> = arbitrary();
    let ghost mut g_resolved: Result<(), F> = arbitrary();
    let ghost mut g_bound: Result<bool, ()> = arbitrary();
    let ghost mut g_given: Option<u64> = arbitrary();
    let ghost mut g_pressed: Result<(HoldIncarnation, bool), F> = arbitrary();
    let ghost mut g_mapped: Option<(u8, u16)> = arbitrary();
    let ghost mut g_emitted: Result<E, F> = arbitrary();
    let PrivateKeyPressSteps { prepare, keyboard, resolve, bind, input, press, activate, map_key, held } = steps;
    let key = match key_press_refusal(
        facts.identity_matches,
        facts.source_matches,
        facts.seat_matches,
        storage.is_some(),
        facts.evdev,
        facts.x_keycode,
        facts.keyboards_answer,
        facts.keyboard_present,
        facts.physical_released,
    ) {
        Ok(key) => key,
        Err(refusal) => {
            assert(key_press_answers(steps, facts, occ, g_prepared, g_grab, g_resolved, g_bound, g_given, g_pressed, g_mapped, g_emitted));
            return Err(PrivateStepRefusal::Native(refusal));
        },
    };
    let evdev = match facts.evdev {
        Some(evdev) => evdev,
        None => return Err(PrivateStepRefusal::Native(PrivateNativeRefusal::InvalidKey)),
    };
    let prepared_answer = prepare(key);
    proof {
        g_prepared = prepared_answer;
    }
    let prepared = match prepared_answer {
        Ok(prepared) => prepared,
        Err(e) => {
            assert(key_press_answers(steps, facts, occ, g_prepared, g_grab, g_resolved, g_bound, g_given, g_pressed, g_mapped, g_emitted));
            return Err(PrivateStepRefusal::Effect(e));
        },
    };
    match key_commit_refusal(&prepared) {
        Some(refusal) => {
            assert(key_press_answers(steps, facts, occ, g_prepared, g_grab, g_resolved, g_bound, g_given, g_pressed, g_mapped, g_emitted));
            return Err(PrivateStepRefusal::Native(refusal));
        },
        None => {},
    }
    let grab_answer = keyboard(key);
    proof {
        g_grab = grab_answer;
    }
    let grab = match grab_answer {
        Ok(owner) => owner,
        Err(e) => {
            assert(key_press_answers(steps, facts, occ, g_prepared, g_grab, g_resolved, g_bound, g_given, g_pressed, g_mapped, g_emitted));
            return Err(PrivateStepRefusal::Effect(e));
        },
    };
    match key_recipient_refusal(prepared.focus, grab, prepared.recipient) {
        Some(refusal) => {
            assert(key_press_answers(steps, facts, occ, g_prepared, g_grab, g_resolved, g_bound, g_given, g_pressed, g_mapped, g_emitted));
            return Err(PrivateStepRefusal::Native(refusal));
        },
        None => {},
    }
    let resolved = resolve();
    proof {
        g_resolved = resolved;
    }
    match resolved {
        Ok(unit) => {
            proof {
                assert(unit == ());
            }
        },
        Err(e) => {
            assert(key_press_answers(steps, facts, occ, g_prepared, g_grab, g_resolved, g_bound, g_given, g_pressed, g_mapped, g_emitted));
            return Err(PrivateStepRefusal::Effect(e));
        },
    }
    proof {
        assert(resolved == Ok::<(), F>(()));
        assert(key_press_resolved(prepare, keyboard, resolve, key, prepared, grab));
    }
    let bound = bind(prepared.recipient);
    proof {
        g_bound = bound;
    }
    match bound {
        Ok(true) => {},
        Ok(false) => {
            assert(key_press_answers(steps, facts, occ, g_prepared, g_grab, g_resolved, g_bound, g_given, g_pressed, g_mapped, g_emitted));
            return Err(PrivateStepRefusal::DeliveryEnded);
        },
        Err(unit) => {
            proof {
                assert(unit == ());
                assert(bound == Err::<bool, ()>(()));
            }
            assert(key_press_answers(steps, facts, occ, g_prepared, g_grab, g_resolved, g_bound, g_given, g_pressed, g_mapped, g_emitted));
            return Err(PrivateStepRefusal::RecoveryUnavailable);
        },
    }
    let given_answer = input(key);
    proof {
        g_given = given_answer;
    }
    let given = match given_answer {
        Some(given) => given,
        None => {
            assert(key_press_answers(steps, facts, occ, g_prepared, g_grab, g_resolved, g_bound, g_given, g_pressed, g_mapped, g_emitted));
            return Err(PrivateStepRefusal::Native(PrivateNativeRefusal::InvalidKey));
        },
    };
    proof {
        assert(key_press_ready(prepare, keyboard, resolve, bind, input, key, prepared, grab, given));
    }
    let record = KeyPressRecord { evdev, key, route_lease: facts.route_lease };
    let installed = PrivateKeyHold::install(
        storage,
        facts.origin,
        prepared.recipient,
        prepared.generation,
        given,
        facts.grant,
        record,
    );
    proof {
        assert(installed is Ok);
    }
    let prior = mark_may_have_applied(may_have_applied);
    let pressed = press(given, prepared.recipient, prepared.generation);
    proof {
        g_pressed = pressed;
    }
    let (incarnation, first) = match pressed {
        Ok(applied) => applied,
        Err(e) => {
            commit_key_refused(storage, may_have_applied, prior);
            assert(key_press_answers(steps, facts, occ, g_prepared, g_grab, g_resolved, g_bound, g_given, g_pressed, g_mapped, g_emitted));
            return Err(PrivateStepRefusal::Authority(e));
        },
    };
    let mut hold = match storage.take() {
        Some(hold) => hold,
        None => return Err(PrivateStepRefusal::Native(PrivateNativeRefusal::WrongPhase)),
    };
    if !first {
        hold.press_applied(incarnation, false, None);
        *storage = Some(hold);
        assert(key_press_answers(steps, facts, occ, g_prepared, g_grab, g_resolved, g_bound, g_given, g_pressed, g_mapped, g_emitted));
        return Ok((incarnation, None));
    }
    let activation = activate();
    hold.press_applied(incarnation, true, activation);
    let mapped_answer = map_key(evdev);
    proof {
        g_mapped = mapped_answer;
    }
    let (keycode, modifiers) = match mapped_answer {
        Some(mapped) => mapped,
        None => {
            *storage = Some(hold);
            assert(key_press_answers(steps, facts, occ, g_prepared, g_grab, g_resolved, g_bound, g_given, g_pressed, g_mapped, g_emitted));
            return Err(PrivateStepRefusal::Native(PrivateNativeRefusal::KeyboardUnavailable));
        },
    };
    let time: u32 = if facts.time_msec > 0xffff_ffffu64 {
        0xffff_ffffu32
    } else {
        facts.time_msec as u32
    };
    let event = XAuthorityKeyEvent { pressed: true, keycode, time_msec: time, state: modifiers | prepared.buttons };
    let emitted = held(event);
    proof {
        g_emitted = emitted;
    }
    assert(event == (XAuthorityKeyEvent {
        pressed: true,
        keycode,
        time_msec: event_time(facts.time_msec),
        state: modifiers | prepared.buttons,
    }));
    assert(key_press_answers(steps, facts, occ, g_prepared, g_grab, g_resolved, g_bound, g_given, g_pressed, g_mapped, g_emitted));
    match emitted {
        Ok(emission) => {
            hold.press_held(Some(emission));
            *storage = Some(hold);
            Ok((incarnation, Some(event)))
        },
        Err(e) => {
            hold.press_held(None);
            *storage = Some(hold);
            Err(PrivateStepRefusal::Effect(e))
        },
    }
}

/// The state a pointer release's event reports: the modifier byte of the
/// pointer query's mask (none where the namespace has no query scope) over
/// the button state the mapper had before the release.
pub fn release_event_state(query_mask: Option<u16>, before: u16) -> (r: u16)
    ensures
        query_mask.is_some() ==> r == (query_mask.unwrap() & 0xffu16) | before,
        query_mask.is_none() ==> r == before,
{
    match query_mask {
        Some(mask) => (mask & 0xffu16) | before,
        None => before,
    }
}

/// The selected pointer's mask once a button's release ends its
/// contribution: the bit of a core button (1 to 5) is cleared, every other
/// bit stays.
pub fn released_pointer_mask(mask: u16, button: u8) -> (r: u16)
    ensures
        1 <= button <= 5 ==> r == mask & !((1u16 << ((button + 7) as u16)) as u16),
        !(1 <= button <= 5) ==> r == mask,
{
    if 1 <= button && button <= 5 {
        let bit: u16 = 1u16 << ((button + 7) as u16);
        mask & !bit
    } else {
        mask
    }
}

/// What asking the authority to release an entered hold made of it: its
/// refusal leaves the hold entered; its answer is taken as
/// `release_answered` takes it.
pub open spec fn release_asked<E, F>(
    entered: crate::native_hold::HoldView<E>,
    answer: Result<PrivateReleaseOutcome, F>,
) -> (Result<PrivateReleaseStep, PrivateStepRefusal<F>>, crate::native_hold::HoldView<E>) {
    match answer {
        Err(e) => (Err(PrivateStepRefusal::Authority(e)), entered),
        Ok(outcome) => (Ok(release_step(entered, outcome)), release_answered(entered, outcome)),
    }
}

/// Enter a pointer hold's release and ask the common authority to release
/// its input. The release is entered and the may-have-applied mark set before
/// the authority is asked; a release this hold refuses asks nothing and
/// changes nothing.
pub fn begin_pointer_release<E, F, Rl>(
    hold: &mut PrivatePointerHold<E>,
    may_have_applied: &mut bool,
    released: Option<u32>,
    release: Rl,
) -> (r: Result<PrivateReleaseStep, PrivateStepRefusal<F>>) where Rl: FnOnce(u64) -> Result<PrivateReleaseOutcome, F>
    requires
        call_requires(release, (old(hold)@.input,)),
    ensures
        final(hold).activation() == old(hold).activation(),
        final(hold).press_record() == old(hold).press_record(),
        proof_sound(old(hold)@) ==> proof_sound(final(hold)@),
        old(hold)@.status != PrivateNativeStatus::Held ==> r == Err::<PrivateReleaseStep, PrivateStepRefusal<F>>(
            PrivateStepRefusal::Native(PrivateNativeRefusal::WrongPhase),
        ) && final(hold)@ == old(hold)@ && *final(may_have_applied) == *old(may_have_applied),
        old(hold)@.status == PrivateNativeStatus::Held && released != Some(old(hold).press_record().evdev) ==> r
            == Err::<PrivateReleaseStep, PrivateStepRefusal<F>>(
            PrivateStepRefusal::Native(PrivateNativeRefusal::InvalidButton),
        ) && final(hold)@ == old(hold)@ && *final(may_have_applied) == *old(may_have_applied),
        old(hold)@.status == PrivateNativeStatus::Held && released == Some(old(hold).press_record().evdev) ==> {
            &&& *final(may_have_applied)
            &&& exists|answer: Result<PrivateReleaseOutcome, F>|
                #[trigger] call_ensures(release, (old(hold)@.input,), answer) && release_asked(
                    release_entered(old(hold)@),
                    answer,
                ) == (r, final(hold)@)
        },
{
    match hold.enter_release(released) {
        Ok(()) => {},
        Err(refusal) => {
            return Err(PrivateStepRefusal::Native(refusal));
        },
    }
    mark_may_have_applied(may_have_applied);
    let answer = release(hold.input());
    match answer {
        Err(e) => Err(PrivateStepRefusal::Authority(e)),
        Ok(outcome) => Ok(hold.release_answered(outcome)),
    }
}

/// Enter a key hold's release and ask the common authority to release its
/// input, as `begin_pointer_release` does for a pointer: entered and marked
/// before the authority is asked; refused by the hold, nothing is asked or
/// changed.
pub fn begin_key_release<E, F, Rl>(
    hold: &mut PrivateKeyHold<E>,
    may_have_applied: &mut bool,
    foreign_route: bool,
    released: Option<u32>,
    release: Rl,
) -> (r: Result<PrivateReleaseStep, PrivateStepRefusal<F>>) where Rl: FnOnce(u64) -> Result<PrivateReleaseOutcome, F>
    requires
        call_requires(release, (old(hold)@.input,)),
    ensures
        final(hold).activation() == old(hold).activation(),
        final(hold).press_record() == old(hold).press_record(),
        proof_sound(old(hold)@) ==> proof_sound(final(hold)@),
        old(hold)@.status != PrivateNativeStatus::Held ==> r == Err::<PrivateReleaseStep, PrivateStepRefusal<F>>(
            PrivateStepRefusal::Native(PrivateNativeRefusal::WrongPhase),
        ) && final(hold)@ == old(hold)@ && *final(may_have_applied) == *old(may_have_applied),
        old(hold)@.status == PrivateNativeStatus::Held && foreign_route ==> r == Err::<
            PrivateReleaseStep,
            PrivateStepRefusal<F>,
        >(PrivateStepRefusal::Native(PrivateNativeRefusal::ForeignOrigin)) && final(hold)@ == old(hold)@
            && *final(may_have_applied) == *old(may_have_applied),
        old(hold)@.status == PrivateNativeStatus::Held && !foreign_route && released != Some(
            old(hold).press_record().evdev,
        ) ==> r == Err::<PrivateReleaseStep, PrivateStepRefusal<F>>(
            PrivateStepRefusal::Native(PrivateNativeRefusal::InvalidKey),
        ) && final(hold)@ == old(hold)@ && *final(may_have_applied) == *old(may_have_applied),
        old(hold)@.status == PrivateNativeStatus::Held && !foreign_route && released == Some(
            old(hold).press_record().evdev,
        ) ==> {
            &&& *final(may_have_applied)
            &&& exists|answer: Result<PrivateReleaseOutcome, F>|
                #[trigger] call_ensures(release, (old(hold)@.input,), answer) && release_asked(
                    release_entered(old(hold)@),
                    answer,
                ) == (r, final(hold)@)
        },
{
    match hold.enter_release(foreign_route, released) {
        Ok(()) => {},
        Err(refusal) => {
            return Err(PrivateStepRefusal::Native(refusal));
        },
    }
    mark_may_have_applied(may_have_applied);
    let answer = release(hold.input());
    match answer {
        Err(e) => Err(PrivateStepRefusal::Authority(e)),
        Ok(outcome) => Ok(hold.release_answered(outcome)),
    }
}

/// Where a pointer release's event is placed, as the route gave it.
#[derive(Debug, Clone, Copy, PartialEq, Eq)]
pub struct PrivatePointerReleaseFacts {
    /// The core button the hold pressed.
    pub button: u8,
    /// The surface the hold's press reached.
    pub surface: u64,
    /// The release's root coordinates, already in range.
    pub root_x: i16,
    pub root_y: i16,
    pub time_msec: u64,
}

/// The outside steps of a pointer release's native cleanup, each asked at
/// most once.
pub struct PrivatePointerReleaseSteps<Mp, Q, Co, Rt, Qr, Em> {
    /// Release the device button on the seat's mapper: the button state
    /// before it, `None` where the seat has no mapper.
    pub mapper: Mp,
    /// The pointer query's mask, `None` where the namespace has no query
    /// scope.
    pub query: Q,
    /// Convert the release's root coordinates under the retained
    /// connection's held geometry.
    pub coordinates: Co,
    /// Retire the press's automatic activation (its stamp, the button).
    pub retire: Rt,
    /// Record the button's release with the query scope: whether it did.
    pub query_release: Qr,
    /// Build the ordered emission of the release event.
    pub emission: Em,
}

/// The release event, once its coordinates were converted.
pub open spec fn release_event_spec(
    facts: PrivatePointerReleaseFacts,
    before: u16,
    query: Option<u16>,
    at: (i16, i16),
) -> XAuthorityPointerEvent {
    pointer_event_spec(
        facts.surface,
        facts.root_x,
        facts.root_y,
        at.0,
        at.1,
        facts.button,
        false,
        match query {
            Some(m) => (m & 0xffu16) | before,
            None => before,
        },
        facts.time_msec,
    )
}

/// The answers a pointer release's cleanup got, once the mapper answered
/// `before`: the query, the coordinates, the activation's retirement (asked
/// only of an automatic activation), the query scope's release, and the
/// emission (asked only for an event with a query scope and coordinates).
pub open spec fn pointer_release_answers<E, Mp, Q, Co, Rt, Qr, Em>(
    steps: PrivatePointerReleaseSteps<Mp, Q, Co, Rt, Qr, Em>,
    facts: PrivatePointerReleaseFacts,
    activation: PointerActivationCommit,
    before: u16,
    query: Option<u16>,
    at: Result<(i16, i16), PrivateAppliedRefusal>,
    retirement: PointerActivationRetirement,
    cleared: bool,
    built: Result<E, PrivateAppliedRefusal>,
) -> bool where
    Mp: FnOnce(u32) -> Option<u16>,
    Q: FnOnce() -> Option<u16>,
    Co: FnOnce(i16, i16) -> Result<(i16, i16), PrivateAppliedRefusal>,
    Rt: FnOnce(u64, u8) -> PointerActivationRetirement,
    Qr: FnOnce(u8) -> bool,
    Em: FnOnce(XAuthorityPointerEvent) -> Result<E, PrivateAppliedRefusal>,
 {
    &&& call_ensures(steps.query, (), query)
    &&& call_ensures(steps.coordinates, (facts.root_x, facts.root_y), at)
    &&& activation.automatic ==> call_ensures(steps.retire, (activation.stamp, facts.button), retirement)
    &&& !activation.automatic ==> retirement == PointerActivationRetirement::Explicit
    &&& call_ensures(steps.query_release, (facts.button,), cleared)
    &&& (query is Some && at is Ok) ==> call_ensures(
        steps.emission,
        (release_event_spec(facts, before, query, at->Ok_0),),
        built,
    )
}

/// What a pointer release's cleanup reports: the event, with the query
/// scope and coordinates it needs and an emission built for it.
pub open spec fn pointer_release_result<E>(
    facts: PrivatePointerReleaseFacts,
    before: u16,
    query: Option<u16>,
    at: Result<(i16, i16), PrivateAppliedRefusal>,
    built: Result<E, PrivateAppliedRefusal>,
) -> (Result<Option<XAuthorityPointerEvent>, PrivateAppliedRefusal>, Option<E>) {
    match query {
        None => (Err(PrivateAppliedRefusal::Interrupted), None),
        Some(_) => match at {
            Err(e) => (Err(e), None),
            Ok(xy) => match built {
                Err(e) => (Err(e), None),
                Ok(em) => (Ok(Some(release_event_spec(facts, before, query, xy))), Some(em)),
            },
        },
    }
}

/// The hold a release's cleanup leaves: the automatic activation's receipt
/// where it retired, the emission, and the residual or the source's proof.
pub open spec fn pointer_release_left<E>(
    v: HoldView<E>,
    press: PointerPressRecord,
    a: PointerActivationCommit,
    cleanup: PointerReleaseCleanup,
    emission: Option<E>,
) -> HoldView<E> {
    let retired = a.automatic && cleanup.retirement == PointerActivationRetirement::Retired;
    let noted = HoldView {
        activation_retirement: if retired {
            Some(ActivationRetirementReceipt { origin: v.origin, stamp: a.stamp })
        } else {
            v.activation_retirement
        },
        release_emission: emission,
        ..v
    };
    release_settled(noted, pointer_release_residual(cleanup, press, a))
}

/// The native cleanup of a pointer release the authority answered for this
/// hold's incarnation. Without a mapper nothing is cleaned and the hold is
/// retained for it. Otherwise the mapper releases the button; the event is
/// built over the query's modifiers and the mapper's button state before;
/// the automatic activation is retired; the query scope records the
/// release; the selected pointer loses this button's bit; and the hold is
/// retained with what is still owed, or reconciled. The emission is built
/// only for an event whose query scope and coordinates are there.
pub fn finish_pointer_release<E, Mp, Q, Co, Rt, Qr, Em>(
    steps: PrivatePointerReleaseSteps<Mp, Q, Co, Rt, Qr, Em>,
    hold: &mut PrivatePointerHold<E>,
    selected: &mut Option<u16>,
    selection_applied: bool,
    facts: PrivatePointerReleaseFacts,
) -> (r: Result<Option<XAuthorityPointerEvent>, PrivateAppliedRefusal>) where
    Mp: FnOnce(u32) -> Option<u16>,
    Q: FnOnce() -> Option<u16>,
    Co: FnOnce(i16, i16) -> Result<(i16, i16), PrivateAppliedRefusal>,
    Rt: FnOnce(u64, u8) -> PointerActivationRetirement,
    Qr: FnOnce(u8) -> bool,
    Em: FnOnce(XAuthorityPointerEvent) -> Result<E, PrivateAppliedRefusal>,

    requires
        old(hold)@.status == PrivateNativeStatus::ReleaseEntered,
        old(hold)@.incarnation is Some,
        old(hold).activation() is Some,
        proof_sound(old(hold)@),
        forall|evdev: u32| #[trigger] call_requires(steps.mapper, (evdev,)),
        call_requires(steps.query, ()),
        forall|x: i16, y: i16| #[trigger] call_requires(steps.coordinates, (x, y)),
        forall|stamp: u64, button: u8| #[trigger] call_requires(steps.retire, (stamp, button)),
        forall|button: u8| #[trigger] call_requires(steps.query_release, (button,)),
        forall|event: XAuthorityPointerEvent| #[trigger] call_requires(steps.emission, (event,)),
    ensures
        final(hold).activation() == old(hold).activation(),
        final(hold).press_record() == old(hold).press_record(),
        proof_sound(final(hold)@),
        exists|before: Option<u16>|
            #[trigger] call_ensures(steps.mapper, (old(hold).press_record().evdev,), before) && (before is None ==> (r
                == Err::<Option<XAuthorityPointerEvent>, PrivateAppliedRefusal>(PrivateAppliedRefusal::Interrupted)
                && *final(selected) == *old(selected) && final(hold)@ == (HoldView {
                status: PrivateNativeStatus::Retained(PrivateNativeResidual::MissingMapper),
                ..old(hold)@
            }))) && (before is Some ==> exists|
                query: Option<u16>,
                at: Result<(i16, i16), PrivateAppliedRefusal>,
                retirement: PointerActivationRetirement,
                cleared: bool,
                built: Result<E, PrivateAppliedRefusal>,
            |
                #[trigger] pointer_release_answers(
                    steps,
                    facts,
                    old(hold).activation()->0,
                    before->0,
                    query,
                    at,
                    retirement,
                    cleared,
                    built,
                ) && {
                    let cleanup = PointerReleaseCleanup {
                        mapper_present: true,
                        query_cleared: cleared,
                        selection_present: old(selected).is_some() && selection_applied,
                        retirement,
                    };
                    let outcome = pointer_release_result(facts, before->0, query, at, built);
                    &&& r == outcome.0
                    &&& final(hold).mapper_applied()
                    &&& final(hold)@ == pointer_release_left(
                        old(hold)@,
                        old(hold).press_record(),
                        old(hold).activation()->0,
                        cleanup,
                        outcome.1,
                    )
                    &&& old(selected).is_none() ==> final(selected).is_none()
                    &&& old(selected).is_some() ==> *final(selected) == Some(
                        if 1 <= facts.button <= 5 {
                            old(selected).unwrap() & !((1u16 << ((facts.button + 7) as u16)) as u16)
                        } else {
                            old(selected).unwrap()
                        },
                    )
                }),
{
    let PrivatePointerReleaseSteps { mapper, query, coordinates, retire, query_release, emission } = steps;
    let press = hold.press();
    let activation = match hold.activation_commit() {
        Some(a) => a,
        None => return Err(PrivateAppliedRefusal::Interrupted),
    };
    let mapped = mapper(press.evdev);
    let before = match mapped {
        Some(before) => before,
        None => {
            let missing = PointerReleaseCleanup {
                mapper_present: false,
                query_cleared: false,
                selection_present: false,
                retirement: PointerActivationRetirement::Explicit,
            };
            hold.finish_release(missing, None);
            return Err(PrivateAppliedRefusal::Interrupted);
        },
    };
    let mask = query();
    let state = release_event_state(mask, before);
    let at = coordinates(facts.root_x, facts.root_y);
    let retirement = if activation.automatic {
        retire(activation.stamp, facts.button)
    } else {
        PointerActivationRetirement::Explicit
    };
    let cleared = query_release(facts.button);
    let selection_present = selected.is_some() && selection_applied;
    match selected {
        Some(m) => {
            *m = released_pointer_mask(*m, facts.button);
        },
        None => {},
    }
    let cleanup = PointerReleaseCleanup {
        mapper_present: true,
        query_cleared: cleared,
        selection_present,
        retirement,
    };
    let ghost mut built_answer: Result<E, PrivateAppliedRefusal> = Err(PrivateAppliedRefusal::Interrupted);
    let (r, built) = match mask {
        None => (Err(PrivateAppliedRefusal::Interrupted), None),
        Some(_) => match at {
            Err(e) => (Err(e), None),
            Ok((x, y)) => {
                let event = pointer_event(facts.surface, facts.root_x, facts.root_y, x, y, facts.button, false, state, facts.time_msec);
                assert(event == release_event_spec(facts, before, mask, (x, y)));
                let answer = emission(event);
                proof {
                    built_answer = answer;
                }
                match answer {
                    Err(e) => (Err(e), None),
                    Ok(em) => (Ok(Some(event)), Some(em)),
                }
            },
        },
    };
    assert(pointer_release_answers(
        PrivatePointerReleaseSteps { mapper, query, coordinates, retire, query_release, emission },
        facts,
        activation,
        before,
        mask,
        at,
        retirement,
        cleared,
        built_answer,
    ));
    assert((r, built) == pointer_release_result(facts, before, mask, at, built_answer));
    hold.finish_release(cleanup, built);
    r
}

/// The outside steps of a key release's native cleanup, each asked at most
/// once.
pub struct PrivateKeyReleaseSteps<Kh, Mk, Q, Bt, Om, Rt, Em> {
    /// Whether the seat's keyboard still holds the key down.
    pub keyboard_held: Kh,
    /// Release the device key on the keyboard: the modifiers for the event
    /// and the modifier mask after it; `None` where the keyboard's state
    /// after the release is not known.
    pub map_key: Mk,
    /// Whether the namespace has an ordered query scope.
    pub query: Q,
    /// The seat's pointer mapper's button state, `None` without a mapper.
    pub buttons: Bt,
    /// Record the modifier mask after the release in the query scope.
    pub observe_modifiers: Om,
    /// Retire the press's triggered activation (its stamp, the key).
    pub retire: Rt,
    /// Build the ordered emission of the release event.
    pub emission: Em,
}

/// The key release event over the keyboard's modifiers and the pointer's
/// buttons.
pub open spec fn key_release_event(key: u8, modifiers: u16, buttons: Option<u16>, time_msec: u64) -> XAuthorityKeyEvent {
    XAuthorityKeyEvent {
        pressed: false,
        keycode: key,
        time_msec: event_time(time_msec),
        state: modifiers | match buttons {
            Some(b) => b,
            None => 0u16,
        },
    }
}

/// The answers a key release's cleanup got, once the keyboard held the key
/// and its state after was known: the query scope, the pointer's buttons,
/// the activation's retirement (asked only of a triggered activation), and
/// the emission (asked only with a query scope and a mapper).
pub open spec fn key_release_answers<E, Kh, Mk, Q, Bt, Om, Rt, Em>(
    steps: PrivateKeyReleaseSteps<Kh, Mk, Q, Bt, Om, Rt, Em>,
    press: KeyPressRecord,
    activation: Option<KeyboardActivation>,
    time_msec: u64,
    mapped: (u16, u8),
    query: bool,
    buttons: Option<u16>,
    retirement: KeyboardActivationRetirement,
    built: Result<E, PrivateAppliedRefusal>,
) -> bool where
    Kh: FnOnce(u8) -> bool,
    Mk: FnOnce(u32) -> Option<(u16, u8)>,
    Q: FnOnce() -> bool,
    Bt: FnOnce() -> Option<u16>,
    Om: FnOnce(u8),
    Rt: FnOnce(u64, u8) -> KeyboardActivationRetirement,
    Em: FnOnce(XAuthorityKeyEvent) -> Result<E, PrivateAppliedRefusal>,
 {
    &&& call_ensures(steps.query, (), query)
    &&& call_ensures(steps.buttons, (), buttons)
    &&& (activation matches Some(a) && a.trigger is Some) ==> call_ensures(
        steps.retire,
        (activation->0.stamp, press.key),
        retirement,
    )
    &&& (query && buttons is Some) ==> call_ensures(
        steps.emission,
        (key_release_event(press.key, mapped.0, buttons, time_msec),),
        built,
    )
}

/// What the keyboard answered of a key release: whether it still held the
/// key and, where it did, the modifiers and mask after releasing it.
pub open spec fn key_state_answers<Kh, Mk, Q, Bt, Om, Rt, Em>(
    steps: PrivateKeyReleaseSteps<Kh, Mk, Q, Bt, Om, Rt, Em>,
    press: KeyPressRecord,
    held: bool,
    mapped: Option<(u16, u8)>,
) -> bool where Kh: FnOnce(u8) -> bool, Mk: FnOnce(u32) -> Option<(u16, u8)> {
    &&& call_ensures(steps.keyboard_held, (press.key,), held)
    &&& held ==> call_ensures(steps.map_key, (press.evdev,), mapped)
}

/// The native cleanup of a key release the authority answered for this
/// hold's incarnation. A keyboard that no longer holds the key, or whose
/// state after the release is unknown, retains the hold for it. Otherwise
/// the event is built over the keyboard's modifiers and the pointer's
/// buttons; the query scope, where there is one, records the modifier mask
/// after the release, and so does the selected pointer; a triggered
/// activation is retired; and the hold is retained with what is still
/// owed, or reconciled. The emission is built only with a query scope and a
/// mapper.
pub fn finish_key_release<E, Kh, Mk, Q, Bt, Om, Rt, Em>(
    steps: PrivateKeyReleaseSteps<Kh, Mk, Q, Bt, Om, Rt, Em>,
    hold: &mut PrivateKeyHold<E>,
    selected: &mut Option<u16>,
    selection_applied: bool,
    time_msec: u64,
) -> (r: Result<Option<XAuthorityKeyEvent>, PrivateAppliedRefusal>) where
    Kh: FnOnce(u8) -> bool,
    Mk: FnOnce(u32) -> Option<(u16, u8)>,
    Q: FnOnce() -> bool,
    Bt: FnOnce() -> Option<u16>,
    Om: FnOnce(u8),
    Rt: FnOnce(u64, u8) -> KeyboardActivationRetirement,
    Em: FnOnce(XAuthorityKeyEvent) -> Result<E, PrivateAppliedRefusal>,

    requires
        old(hold)@.status == PrivateNativeStatus::ReleaseEntered,
        old(hold)@.incarnation is Some,
        proof_sound(old(hold)@),
        forall|key: u8| #[trigger] call_requires(steps.keyboard_held, (key,)),
        forall|evdev: u32| #[trigger] call_requires(steps.map_key, (evdev,)),
        call_requires(steps.query, ()),
        call_requires(steps.buttons, ()),
        forall|mask: u8| #[trigger] call_requires(steps.observe_modifiers, (mask,)),
        forall|stamp: u64, key: u8| #[trigger] call_requires(steps.retire, (stamp, key)),
        forall|event: XAuthorityKeyEvent| #[trigger] call_requires(steps.emission, (event,)),
    ensures
        final(hold).activation() == old(hold).activation(),
        final(hold).press_record() == old(hold).press_record(),
        proof_sound(final(hold)@),
        exists|held: bool, mapped: Option<(u16, u8)>|
            #[trigger] key_state_answers(steps, old(hold).press_record(), held, mapped) && (!(held
                && mapped is Some) ==> (r == Err::<Option<XAuthorityKeyEvent>, PrivateAppliedRefusal>(
                PrivateAppliedRefusal::Interrupted,
            ) && *final(selected) == *old(selected) && final(hold)@ == (HoldView {
                status: PrivateNativeStatus::Retained(PrivateNativeResidual::KeyboardUnavailable),
                ..old(hold)@
            }))) && ((held && mapped is Some) ==> exists|
                query: bool,
                buttons: Option<u16>,
                retirement: KeyboardActivationRetirement,
                built: Result<E, PrivateAppliedRefusal>,
            |
                #[trigger] key_release_answers(
                    steps,
                    old(hold).press_record(),
                    old(hold).activation(),
                    time_msec,
                    mapped->0,
                    query,
                    buttons,
                    retirement,
                    built,
                ) && {
                    let cleanup = KeyReleaseCleanup {
                        keyboard_held: true,
                        state_known: true,
                        query_present: query,
                        mapper_present: buttons is Some,
                        selection_present: selection_applied,
                        retirement,
                    };
                    let emission: Option<E> = if query && buttons is Some && built is Ok {
                        Some(built->Ok_0)
                    } else {
                        None
                    };
                    let a = old(hold).activation();
                    let retired = a matches Some(act) && act.trigger is Some && retirement
                        == KeyboardActivationRetirement::Retired;
                    let noted = HoldView {
                        activation_retirement: if retired {
                            Some(ActivationRetirementReceipt { origin: old(hold)@.origin, stamp: a.unwrap().stamp })
                        } else {
                            old(hold)@.activation_retirement
                        },
                        release_emission: emission,
                        ..old(hold)@
                    };
                    &&& r == if !(query && buttons is Some) {
                        Err(PrivateAppliedRefusal::Interrupted)
                    } else {
                        match built {
                            Err(e) => Err(e),
                            Ok(_) => Ok(
                                Some(key_release_event(old(hold).press_record().key, (mapped->0).0, buttons, time_msec)),
                            ),
                        }
                    }
                    &&& final(hold)@ == release_settled(noted, key_release_residual(cleanup, old(hold).press_record(), a))
                    &&& old(selected).is_none() ==> final(selected).is_none()
                    &&& old(selected).is_some() ==> *final(selected) == Some(
                        (old(selected).unwrap() & 0xff00u16) | ((mapped->0).1 as u16),
                    )
                }),
{
    let PrivateKeyReleaseSteps { keyboard_held, map_key, query, buttons, observe_modifiers, retire, emission } =
        steps;
    let press = hold.press();
    let activation = hold.activation_commit();
    let held = keyboard_held(press.key);
    let mapped = if held {
        map_key(press.evdev)
    } else {
        None
    };
    let (modifiers, after) = match mapped {
        Some(m) => m,
        None => {
            assert(key_state_answers(
                PrivateKeyReleaseSteps { keyboard_held, map_key, query, buttons, observe_modifiers, retire, emission },
                press,
                held,
                mapped,
            ));
            let unknown = KeyReleaseCleanup {
                keyboard_held: held,
                state_known: false,
                query_present: false,
                mapper_present: false,
                selection_present: false,
                retirement: KeyboardActivationRetirement::AlreadyAbsent,
            };
            hold.finish_release(unknown, None);
            return Err(PrivateAppliedRefusal::Interrupted);
        },
    };
    assert(key_state_answers(
        PrivateKeyReleaseSteps { keyboard_held, map_key, query, buttons, observe_modifiers, retire, emission },
        press,
        held,
        mapped,
    ));
    let query_present = query();
    let pointer_buttons = buttons();
    let state = modifiers | match pointer_buttons {
        Some(b) => b,
        None => 0u16,
    };
    let time: u32 = if time_msec > 0xffff_ffffu64 {
        0xffff_ffffu32
    } else {
        time_msec as u32
    };
    let event = XAuthorityKeyEvent { pressed: false, keycode: press.key, time_msec: time, state };
    if query_present {
        observe_modifiers(after);
    }
    observe_key_modifiers(selected, after);
    let retirement = match activation {
        Some(a) => match a.trigger {
            Some(_) => retire(a.stamp, press.key),
            None => KeyboardActivationRetirement::AlreadyAbsent,
        },
        None => KeyboardActivationRetirement::AlreadyAbsent,
    };
    let cleanup = KeyReleaseCleanup {
        keyboard_held: true,
        state_known: true,
        query_present,
        mapper_present: pointer_buttons.is_some(),
        selection_present: selection_applied,
        retirement,
    };
    let ghost mut built_answer: Result<E, PrivateAppliedRefusal> = Err(PrivateAppliedRefusal::Interrupted);
    let (r, built) = if query_present && pointer_buttons.is_some() {
        assert(event == key_release_event(press.key, modifiers, pointer_buttons, time_msec));
        let answer = emission(event);
        proof {
            built_answer = answer;
        }
        match answer {
            Err(e) => (Err(e), None),
            Ok(em) => (Ok(Some(event)), Some(em)),
        }
    } else {
        (Err(PrivateAppliedRefusal::Interrupted), None)
    };
    assert(key_release_answers(
        PrivateKeyReleaseSteps { keyboard_held, map_key, query, buttons, observe_modifiers, retire, emission },
        press,
        activation,
        time_msec,
        (modifiers, after),
        query_present,
        pointer_buttons,
        retirement,
        built_answer,
    ));
    hold.finish_release(cleanup, built);
    r
}

} // verus!
