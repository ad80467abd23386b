// A non-ledger pointer effect: motion, or a complete wheel-axis pair.
//
// Nothing here is held: the effect is frozen under the applied and native
// guards and committed once. Its output belongs to the request that began it and
// is installed in terminal-owned storage before the effect is applied, but
// it can be taken only once the effect has committed.
use vstd::prelude::*;
use crate::native_hold::PrivateNativeRefusal;
use crate::native_press::PrivateStepRefusal;

verus! {

/// The pointer grab in force for a namespace, as a transient reads it.
#[derive(Debug, Clone, Copy, PartialEq, Eq, Structural)]
pub struct PrivatePointerGrab {
    pub owner: u64,
    pub window: u64,
    pub owner_events: bool,
}

/// The refusal a transient meets before it resolves anything, if any, in
/// the order it is asked: a foreign origin, occupied storage, a frozen
/// pointer, a missing mapper, a missing query scope.
pub open spec fn transient_refusal_spec(
    foreign: bool,
    occupied: bool,
    frozen: bool,
    mapper_present: bool,
    query_present: bool,
) -> Option<PrivateNativeRefusal> {
    if foreign {
        Some(PrivateNativeRefusal::ForeignOrigin)
    } else if occupied {
        Some(PrivateNativeRefusal::WrongPhase)
    } else if frozen {
        Some(PrivateNativeRefusal::PointerFrozen)
    } else if !mapper_present {
        Some(PrivateNativeRefusal::MissingMapper)
    } else if !query_present {
        Some(PrivateNativeRefusal::MissingQueryScope)
    } else {
        None
    }
}

/// Decide the refusals a transient meets before it resolves anything.
pub fn transient_refusal(
    foreign: bool,
    occupied: bool,
    frozen: bool,
    mapper_present: bool,
    query_present: bool,
) -> (r: Option<PrivateNativeRefusal>)
    ensures
        r == transient_refusal_spec(foreign, occupied, frozen, mapper_present, query_present),
{
    if foreign {
        Some(PrivateNativeRefusal::ForeignOrigin)
    } else if occupied {
        Some(PrivateNativeRefusal::WrongPhase)
    } else if frozen {
        Some(PrivateNativeRefusal::PointerFrozen)
    } else if !mapper_present {
        Some(PrivateNativeRefusal::MissingMapper)
    } else if !query_present {
        Some(PrivateNativeRefusal::MissingQueryScope)
    } else {
        None
    }
}

/// What kind of routed event a transient is asked to carry.
#[derive(Debug, Clone, Copy, PartialEq, Eq, Structural)]
pub enum PrivateTransientKind {
    Motion,
    /// An axis event, and whether the seat's mapper maps it to a button.
    Axis { mapped: bool },
    /// Any other routed event.
    Other,
}

/// The refusal a transient's routed event meets: only motion and a mapped
/// axis are transients.
pub open spec fn transient_kind_refusal_spec(kind: PrivateTransientKind) -> Option<PrivateNativeRefusal> {
    match kind {
        PrivateTransientKind::Motion => None,
        PrivateTransientKind::Axis { mapped } => if mapped {
            None
        } else {
            Some(PrivateNativeRefusal::InvalidButton)
        },
        PrivateTransientKind::Other => Some(PrivateNativeRefusal::WrongPhase),
    }
}

/// Decide whether a routed event is a transient this path carries.
pub fn transient_kind_refusal(kind: PrivateTransientKind) -> (r: Option<PrivateNativeRefusal>)
    ensures
        r == transient_kind_refusal_spec(kind),
{
    match kind {
        PrivateTransientKind::Motion => None,
        PrivateTransientKind::Axis { mapped } => if mapped {
            None
        } else {
            Some(PrivateNativeRefusal::InvalidButton)
        },
        PrivateTransientKind::Other => Some(PrivateNativeRefusal::WrongPhase),
    }
}

/// Who receives a transient: the grab's owner while a grab is in force,
/// otherwise the client of the surface under the pointer.
pub fn transient_recipient(grab: Option<PrivatePointerGrab>, surface_client: u64) -> (r: u64)
    ensures
        r == match grab {
            Some(g) => g.owner,
            None => surface_client,
        },
{
    match grab {
        Some(g) => g.owner,
        None => surface_client,
    }
}

/// The window a transient targets: the grab window, unless the grab
/// reports owner events and the recipient owns the surface, in which case
/// the surface's own window.
pub fn transient_target(
    grab: Option<PrivatePointerGrab>,
    recipient: u64,
    surface_client: u64,
    surface_window: u64,
) -> (r: u64)
    ensures
        r == match grab {
            Some(g) => if !g.owner_events || recipient != surface_client {
                g.window
            } else {
                surface_window
            },
            None => surface_window,
        },
{
    match grab {
        Some(g) => if !g.owner_events || recipient != surface_client {
            g.window
        } else {
            surface_window
        },
        None => surface_window,
    }
}

/// The half of a transient pair that names what it reached: the first if
/// its recipient selected it, otherwise the second. An unselected half does
/// not erase the other; neither selected is a refusal.
pub fn selected_half<T>(first: Option<T>, second: Option<T>) -> (r: Result<T, PrivateNativeRefusal>)
    ensures
        r == match first {
            Some(f) => Ok::<T, PrivateNativeRefusal>(f),
            None => match second {
                Some(s) => Ok(s),
                None => Err(PrivateNativeRefusal::NotSelected),
            },
        },
{
    match first {
        Some(f) => Ok(f),
        None => match second {
            Some(s) => Ok(s),
            None => Err(PrivateNativeRefusal::NotSelected),
        },
    }
}

/// One installed transient: its output, whether the effect committed, and
/// the recipient, window and event it reached.
pub struct PrivateTransient<E, V> {
    emission: Option<E>,
    committed: bool,
    client: u64,
    window: u64,
    event: V,
}

/// A transient as it can be read.
pub ghost struct TransientView<E, V> {
    pub emission: Option<E>,
    pub committed: bool,
    pub client: u64,
    pub window: u64,
    pub event: V,
}

impl<E, V> View for PrivateTransient<E, V> {
    type V = TransientView<E, V>;

    closed spec fn view(&self) -> TransientView<E, V> {
        TransientView {
            emission: self.emission,
            committed: self.committed,
            client: self.client,
            window: self.window,
            event: self.event,
        }
    }
}

impl<E, V: Copy> PrivateTransient<E, V> {
    /// Install a transient's output in terminal-owned storage before its
    /// effect is applied, uncommitted. Occupied storage refuses and is left
    /// as it was.
    pub fn install(storage: &mut Option<Self>, emission: E, client: u64, window: u64, event: V) -> (r: Result<
        (),
        PrivateNativeRefusal,
    >)
        ensures
            old(storage).is_some() ==> r == Err::<(), PrivateNativeRefusal>(PrivateNativeRefusal::WrongPhase)
                && *final(storage) == *old(storage),
            old(storage).is_none() ==> r is Ok && final(storage).is_some() && final(storage).unwrap()@ == (
            TransientView { emission: Some(emission), committed: false, client, window, event }),
    {
        if storage.is_some() {
            return Err(PrivateNativeRefusal::WrongPhase);
        }
        *storage = Some(PrivateTransient { emission: Some(emission), committed: false, client, window, event });
        Ok(())
    }

    /// Install a transient's output and mark that its effect may have
    /// applied, as the last act before the effect is asked for. Occupied
    /// storage refuses, and leaves storage and mark as they were.
    pub fn install_applying(
        storage: &mut Option<Self>,
        may_have_applied: &mut bool,
        emission: E,
        client: u64,
        window: u64,
        event: V,
    ) -> (r: Result<(), PrivateNativeRefusal>)
        ensures
            old(storage).is_some() ==> r == Err::<(), PrivateNativeRefusal>(PrivateNativeRefusal::WrongPhase)
                && *final(storage) == *old(storage) && *final(may_have_applied) == *old(may_have_applied),
            old(storage).is_none() ==> r is Ok && *final(may_have_applied) && final(storage).is_some()
                && final(storage).unwrap()@ == (TransientView {
                emission: Some(emission),
                committed: false,
                client,
                window,
                event,
            }),
    {
        let installed = Self::install(storage, emission, client, window, event);
        if installed.is_ok() {
            *may_have_applied = true;
        }
        installed
    }

    /// The effect was applied as a whole: its output may now be taken.
    pub fn commit(&mut self)
        ensures
            final(self)@ == (TransientView { committed: true, ..old(self)@ }),
    {
        self.committed = true;
    }

    /// Take the output once, and only once the effect has committed.
    pub fn take_emission(&mut self) -> (r: Option<E>)
        ensures
            old(self)@.committed ==> r == old(self)@.emission && final(self)@ == (TransientView {
                emission: None,
                ..old(self)@
            }),
            !old(self)@.committed ==> r is None && final(self)@ == old(self)@,
    {
        if self.committed {
            self.emission.take()
        } else {
            None
        }
    }

    /// The recipient, window and event this transient reached.
    pub fn reached(&self) -> (r: (u64, u64, V))
        ensures
            r == (self@.client, self@.window, self@.event),
    {
        (self.client, self.window, self.event)
    }
}


/// What a transient is checked against before anything is selected.
#[derive(Debug, Clone, Copy, PartialEq, Eq)]
pub struct PrivateTransientFacts {
    /// Whether the permit or the surface's namespace is another origin's.
    pub foreign: bool,
    /// Whether the namespace's pointer is frozen.
    pub frozen: bool,
    pub mapper_present: bool,
    pub query_present: bool,
    /// The pointer grab in force, if any.
    pub grab: Option<PrivatePointerGrab>,
    /// The client and window of the surface under the pointer.
    pub surface_client: u64,
    pub surface_window: u64,
}

/// The outside steps of a transient, each taken at most once: the applied
/// registry, the seat's mapper (previewed, then committed), recovery and the
/// permit. What they answer is theirs; what is handed to each, and what the
/// transient makes of each answer, is stated by `carry_transient`.
pub struct PrivateTransientSteps<S, K, Rs, B, Em, Be, C> {
    /// Select a recipient's connection: whether it is that recipient, of
    /// this authority and namespace in this origin's registry, and its
    /// applied selection revision.
    pub select: S,
    /// What kind of routed event this is, against a preview of the mapper.
    pub kind: K,
    /// Resolve both halves at a target window: each, when its recipient
    /// selected it, with its event and the window it reached.
    pub resolve: Rs,
    /// Bind the delivery to a recipient in recovery: `Ok(false)` when the
    /// delivery already ended, `Err` when recovery could not be asked.
    pub bind: B,
    /// Build the ordered emission of the resolved pair for a recipient.
    pub emission: Em,
    /// Begin the permit's external effect.
    pub begin: Be,
    /// Commit the previewed mapper, and publish the query and selection
    /// state the reached half leaves.
    pub commit: C,
}

/// Who receives a transient, as `transient_recipient` decides it.
pub open spec fn transient_recipient_spec(grab: Option<PrivatePointerGrab>, surface_client: u64) -> u64 {
    match grab {
        Some(g) => g.owner,
        None => surface_client,
    }
}

/// The window a transient targets, as `transient_target` decides it.
pub open spec fn transient_target_spec(
    grab: Option<PrivatePointerGrab>,
    recipient: u64,
    surface_client: u64,
    surface_window: u64,
) -> u64 {
    match grab {
        Some(g) => if !g.owner_events || recipient != surface_client {
            g.window
        } else {
            surface_window
        },
        None => surface_window,
    }
}

/// The half of a resolved pair a transient reaches: the first selected one.
pub open spec fn reached_half<V>(halves: (Option<(V, u64)>, Option<(V, u64)>)) -> Option<(V, u64)> {
    match halves.0 {
        Some(f) => Some(f),
        None => halves.1,
    }
}

/// A transient whose recipient was selected with a usable revision, whose
/// event is one this path carries, and whose resolved pair reached a window:
/// the point at which recovery is asked.
pub open spec fn transient_resolved<F, V, S, K, Rs>(
    select: S,
    kind: K,
    resolve: Rs,
    facts: PrivateTransientFacts,
    revision: u64,
    seen: PrivateTransientKind,
    halves: (Option<(V, u64)>, Option<(V, u64)>),
) -> bool where
    S: FnOnce(u64) -> Result<(bool, Option<u64>), F>,
    K: FnOnce() -> PrivateTransientKind,
    Rs: FnOnce(u64) -> Result<(Option<(V, u64)>, Option<(V, u64)>), F>,
 {
    let recipient = transient_recipient_spec(facts.grab, facts.surface_client);
    &&& call_ensures(select, (recipient,), Ok::<(bool, Option<u64>), F>((true, Some(revision))))
    &&& revision < u64::MAX
    &&& call_ensures(kind, (), seen)
    &&& transient_kind_refusal_spec(seen) is None
    &&& call_ensures(
        resolve,
        (transient_target_spec(facts.grab, recipient, facts.surface_client, facts.surface_window),),
        Ok::<(Option<(V, u64)>, Option<(V, u64)>), F>(halves),
    )
    &&& reached_half(halves) is Some
}

/// What a transient returns, given its facts, whether its storage was
/// taken, and what each outside step answered, in the order it asks them.
pub open spec fn transient_outcome<F, V>(
    facts: PrivateTransientFacts,
    occupied: bool,
    selected: Result<(bool, Option<u64>), F>,
    seen: PrivateTransientKind,
    resolved: Result<(Option<(V, u64)>, Option<(V, u64)>), F>,
    bound: Result<bool, ()>,
    begun: Result<(), F>,
) -> Result<(), PrivateStepRefusal<F>> {
    match transient_refusal_spec(facts.foreign, occupied, facts.frozen, facts.mapper_present, facts.query_present) {
        Some(x) => Err(PrivateStepRefusal::Native(x)),
        None => match selected {
            Err(e) => Err(PrivateStepRefusal::Effect(e)),
            Ok(answer) => if !answer.0 {
                Err(PrivateStepRefusal::Native(PrivateNativeRefusal::ForeignOrigin))
            } else if !(answer.1 is Some && answer.1->0 < u64::MAX) {
                Err(PrivateStepRefusal::Native(PrivateNativeRefusal::SelectionUnavailable))
            } else {
                match transient_kind_refusal_spec(seen) {
                    Some(x) => Err(PrivateStepRefusal::Native(x)),
                    None => match resolved {
                        Err(e) => Err(PrivateStepRefusal::Effect(e)),
                        Ok(halves) => if reached_half(halves) is None {
                            Err(PrivateStepRefusal::Native(PrivateNativeRefusal::NotSelected))
                        } else {
                            match bound {
                                Err(_) => Err(PrivateStepRefusal::RecoveryUnavailable),
                                Ok(false) => Err(PrivateStepRefusal::DeliveryEnded),
                                Ok(true) => match begun {
                                    Err(e) => Err(PrivateStepRefusal::Authority(e)),
                                    Ok(_) => Ok(()),
                                },
                            }
                        },
                    },
                }
            },
        },
    }
}

/// The steps a transient asked, and with what, up to the answers it got:
/// the selection for the recipient the grab in force names; the event's
/// kind; the resolution at the target window; recovery for that recipient;
/// and the beginning of the effect once recovery bound it.
pub open spec fn transient_answers<F, V, S, K, Rs, B, Em, Be, C>(
    steps: PrivateTransientSteps<S, K, Rs, B, Em, Be, C>,
    facts: PrivateTransientFacts,
    occupied: bool,
    selected: Result<(bool, Option<u64>), F>,
    seen: PrivateTransientKind,
    resolved: Result<(Option<(V, u64)>, Option<(V, u64)>), F>,
    bound: Result<bool, ()>,
    begun: Result<(), F>,
) -> bool where
    S: FnOnce(u64) -> Result<(bool, Option<u64>), F>,
    K: FnOnce() -> PrivateTransientKind,
    Rs: FnOnce(u64) -> Result<(Option<(V, u64)>, Option<(V, u64)>), F>,
    B: FnOnce(u64) -> Result<bool, ()>,
    Be: FnOnce() -> Result<(), F>,
 {
    let recipient = transient_recipient_spec(facts.grab, facts.surface_client);
    transient_refusal_spec(facts.foreign, occupied, facts.frozen, facts.mapper_present, facts.query_present) is None
        ==> {
        &&& call_ensures(steps.select, (recipient,), selected)
        &&& (selected is Ok && (selected->Ok_0).0 && (selected->Ok_0).1 is Some && (selected->Ok_0).1->0 < u64::MAX)
            ==> {
            &&& call_ensures(steps.kind, (), seen)
            &&& transient_kind_refusal_spec(seen) is None ==> {
                &&& call_ensures(
                    steps.resolve,
                    (transient_target_spec(facts.grab, recipient, facts.surface_client, facts.surface_window),),
                    resolved,
                )
                &&& (resolved is Ok && reached_half(resolved->Ok_0) is Some) ==> {
                    &&& call_ensures(steps.bind, (recipient,), bound)
                    &&& bound == Ok::<bool, ()>(true) ==> call_ensures(steps.begin, (), begun)
                }
            }
        }
    }
}

/// One transient, composed.
///
/// The checks come first and refuse with nothing installed and nothing
/// marked; the recipient is chosen once, from the grab in force. Then the
/// output is installed for that recipient, uncommitted, and marked as
/// possibly applied, and the effect is begun: a refused effect leaves the
/// installed output and the mark. Once begun, the mapper and query state are
/// committed once and the output committed, so a later refusal of the queue
/// can neither map an axis again nor choose another recipient.
pub fn carry_transient<E, V: Copy, F, S, K, Rs, B, Em, Be, C>(
    steps: PrivateTransientSteps<S, K, Rs, B, Em, Be, C>,
    storage: &mut Option<PrivateTransient<E, V>>,
    may_have_applied: &mut bool,
    facts: PrivateTransientFacts,
) -> (r: Result<(), PrivateStepRefusal<F>>) where
    S: FnOnce(u64) -> Result<(bool, Option<u64>), F>,
    K: FnOnce() -> PrivateTransientKind,
    Rs: FnOnce(u64) -> Result<(Option<(V, u64)>, Option<(V, u64)>), F>,
    B: FnOnce(u64) -> Result<bool, ()>,
    Em: FnOnce(u64) -> E,
    Be: FnOnce() -> Result<(), F>,
    C: FnOnce(V),

    requires
        forall|client: u64| #[trigger] call_requires(steps.select, (client,)),
        call_requires(steps.kind, ()),
        forall|target: u64| #[trigger] call_requires(steps.resolve, (target,)),
        forall|client: u64| #[trigger] call_requires(steps.bind, (client,)),
        forall|client: u64| #[trigger] call_requires(steps.emission, (client,)),
        call_requires(steps.begin, ()),
        forall|reached: V| #[trigger] call_requires(steps.commit, (reached,)),
    ensures
        // Exactly what the answers it got make of the transient.
        exists|
            selected: Result<(bool, Option<u64>), F>,
            seen: PrivateTransientKind,
            resolved: Result<(Option<(V, u64)>, Option<(V, u64)>), F>,
            bound: Result<bool, ()>,
            begun: Result<(), F>,
        |
            #[trigger] transient_answers(steps, facts, old(storage).is_some(), selected, seen, resolved, bound, begun)
                && r == transient_outcome(facts, old(storage).is_some(), selected, seen, resolved, bound, begun),
        transient_refusal_spec(
            facts.foreign,
            old(storage).is_some(),
            facts.frozen,
            facts.mapper_present,
            facts.query_present,
        ) is Some ==> r == Err::<(), PrivateStepRefusal<F>>(
            PrivateStepRefusal::Native(
                transient_refusal_spec(
                    facts.foreign,
                    old(storage).is_some(),
                    facts.frozen,
                    facts.mapper_present,
                    facts.query_present,
                )->0,
            ),
        ),
        (r is Err && !(r->Err_0 is Authority)) ==> *final(storage) == *old(storage) && *final(may_have_applied)
            == *old(may_have_applied),
        // Each refusal after the checks is the answer that gave it.
        r matches Err(PrivateStepRefusal::Effect(e)) ==> call_ensures(
            steps.select,
            (transient_recipient_spec(facts.grab, facts.surface_client),),
            Err::<(bool, Option<u64>), F>(e),
        ) || exists|target: u64|
            #[trigger] call_ensures(
                steps.resolve,
                (target,),
                Err::<(Option<(V, u64)>, Option<(V, u64)>), F>(e),
            ),
        r == Err::<(), PrivateStepRefusal<F>>(PrivateStepRefusal::DeliveryEnded) ==> exists|
            revision: u64,
            seen: PrivateTransientKind,
            halves: (Option<(V, u64)>, Option<(V, u64)>),
        |
            #[trigger] transient_resolved(steps.select, steps.kind, steps.resolve, facts, revision, seen, halves)
                && call_ensures(
                steps.bind,
                (transient_recipient_spec(facts.grab, facts.surface_client),),
                Ok::<bool, ()>(false),
            ),
        r == Err::<(), PrivateStepRefusal<F>>(PrivateStepRefusal::RecoveryUnavailable) ==> exists|
            revision: u64,
            seen: PrivateTransientKind,
            halves: (Option<(V, u64)>, Option<(V, u64)>),
        |
            #[trigger] transient_resolved(steps.select, steps.kind, steps.resolve, facts, revision, seen, halves)
                && call_ensures(
                steps.bind,
                (transient_recipient_spec(facts.grab, facts.surface_client),),
                Err::<bool, ()>(()),
            ),
        r matches Err(PrivateStepRefusal::Authority(e)) ==> call_ensures(steps.begin, (), Err::<(), F>(e)),
        (r is Err && r->Err_0 is Native && transient_refusal_spec(
            facts.foreign,
            old(storage).is_some(),
            facts.frozen,
            facts.mapper_present,
            facts.query_present,
        ) is None) ==> exists|answer: (bool, Option<u64>)|
            #[trigger] call_ensures(
                steps.select,
                (transient_recipient_spec(facts.grab, facts.surface_client),),
                Ok::<(bool, Option<u64>), F>(answer),
            ) && {
                ||| !answer.0 && r->Err_0->Native_0 == PrivateNativeRefusal::ForeignOrigin
                ||| answer.0 && !(answer.1 is Some && answer.1->0 < u64::MAX) && r->Err_0->Native_0
                    == PrivateNativeRefusal::SelectionUnavailable
                ||| exists|seen: PrivateTransientKind|
                    #[trigger] call_ensures(steps.kind, (), seen) && transient_kind_refusal_spec(seen) == Some(
                        r->Err_0->Native_0,
                    )
                ||| r->Err_0->Native_0 == PrivateNativeRefusal::NotSelected && exists|
                    halves: (Option<(V, u64)>, Option<(V, u64)>),
                | #[trigger]
                    call_ensures(
                        steps.resolve,
                        (transient_target_spec(
                            facts.grab,
                            transient_recipient_spec(facts.grab, facts.surface_client),
                            facts.surface_client,
                            facts.surface_window,
                        ),),
                        Ok::<(Option<(V, u64)>, Option<(V, u64)>), F>(halves),
                    ) && reached_half(halves) is None
            },
        r is Ok || r->Err_0 is Authority ==> exists|
            revision: u64,
            seen: PrivateTransientKind,
            halves: (Option<(V, u64)>, Option<(V, u64)>),
        |
            #[trigger] transient_resolved(steps.select, steps.kind, steps.resolve, facts, revision, seen, halves)
                && call_ensures(
                steps.bind,
                (transient_recipient_spec(facts.grab, facts.surface_client),),
                Ok::<bool, ()>(true),
            ) && final(storage).is_some() && final(storage).unwrap()@.event == (reached_half(halves)->0).0
                && final(storage).unwrap()@.window == (reached_half(halves)->0).1,
        r is Ok || r->Err_0 is Authority ==> {
            &&& old(storage).is_none()
            &&& *final(may_have_applied)
            &&& final(storage).is_some()
            &&& final(storage).unwrap()@.emission is Some
            &&& final(storage).unwrap()@.client == transient_recipient_spec(facts.grab, facts.surface_client)
            &&& final(storage).unwrap()@.committed == r is Ok
        },
        r is Ok ==> call_ensures(steps.begin, (), Ok::<(), F>(())) && call_ensures(
            steps.commit,
            (final(storage).unwrap()@.event,),
            (),
        ),
{
    let ghost occ = storage.is_some();
    let ghost mut g_selected: Result<(bool, Option<u64>), F> = arbitrary();
    let ghost mut g_seen: PrivateTransientKind = arbitrary();
    let ghost mut g_resolved: Result<(Option<(V, u64)>, Option<(V, u64)>), F> = arbitrary();
    let ghost mut g_bound: Result<bool, ()> = arbitrary();
    let ghost mut g_begun: Result<(), F> = arbitrary();
    let PrivateTransientSteps { select, kind, resolve, bind, emission, begin, commit } = steps;
    match transient_refusal(
        facts.foreign,
        storage.is_some(),
        facts.frozen,
        facts.mapper_present,
        facts.query_present,
    ) {
        Some(refusal) => {
            assert(transient_answers(steps, facts, occ, g_selected, g_seen, g_resolved, g_bound, g_begun));
            return Err(PrivateStepRefusal::Native(refusal));
        },
        None => {},
    }
    let recipient = transient_recipient(facts.grab, facts.surface_client);
    let selected = select(recipient);
    proof {
        g_selected = selected;
    }
    let (is_recipient, revision) = match selected {
        Ok(answer) => answer,
        Err(e) => {
            assert(transient_answers(steps, facts, occ, g_selected, g_seen, g_resolved, g_bound, g_begun));
            return Err(PrivateStepRefusal::Effect(e));
        },
    };
    proof {
        assert(recipient == transient_recipient_spec(facts.grab, facts.surface_client));
        assert(call_ensures(
            select,
            (transient_recipient_spec(facts.grab, facts.surface_client),),
            Ok::<(bool, Option<u64>), F>((is_recipient, revision)),
        ));
    }
    if !is_recipient {
        assert(transient_answers(steps, facts, occ, g_selected, g_seen, g_resolved, g_bound, g_begun));
        return Err(PrivateStepRefusal::Native(PrivateNativeRefusal::ForeignOrigin));
    }
    let usable = match revision {
        Some(n) => n < u64::MAX,
        None => false,
    };
    if !usable {
        assert(transient_answers(steps, facts, occ, g_selected, g_seen, g_resolved, g_bound, g_begun));
        return Err(PrivateStepRefusal::Native(PrivateNativeRefusal::SelectionUnavailable));
    }
    let target = transient_target(facts.grab, recipient, facts.surface_client, facts.surface_window);
    let seen = kind();
    proof {
        g_seen = seen;
    }
    match transient_kind_refusal(seen) {
        Some(refusal) => {
            assert(transient_answers(steps, facts, occ, g_selected, g_seen, g_resolved, g_bound, g_begun));
            return Err(PrivateStepRefusal::Native(refusal));
        },
        None => {},
    }
    let resolved = resolve(target);
    proof {
        g_resolved = resolved;
    }
    let halves = match resolved {
        Ok(halves) => halves,
        Err(e) => {
            assert(transient_answers(steps, facts, occ, g_selected, g_seen, g_resolved, g_bound, g_begun));
            return Err(PrivateStepRefusal::Effect(e));
        },
    };
    proof {
        let spec_target = transient_target_spec(
            facts.grab,
            transient_recipient_spec(facts.grab, facts.surface_client),
            facts.surface_client,
            facts.surface_window,
        );
        assert(target == spec_target);
        assert(call_ensures(resolve, (spec_target,), Ok::<(Option<(V, u64)>, Option<(V, u64)>), F>(halves)));
    }
    let (event, window) = match selected_half(halves.0, halves.1) {
        Ok(reached) => reached,
        Err(refusal) => {
            assert(transient_answers(steps, facts, occ, g_selected, g_seen, g_resolved, g_bound, g_begun));
            return Err(PrivateStepRefusal::Native(refusal));
        },
    };
    proof {
        assert(transient_resolved(select, kind, resolve, facts, revision->0, seen, halves));
    }
    let bound = bind(recipient);
    proof {
        g_bound = bound;
    }
    match bound {
        Ok(true) => {},
        Ok(false) => {
            assert(transient_answers(steps, facts, occ, g_selected, g_seen, g_resolved, g_bound, g_begun));
            return Err(PrivateStepRefusal::DeliveryEnded);
        },
        Err(unit) => {
            proof {
                assert(unit == ());
                assert(bound == Err::<bool, ()>(()));
            }
            assert(transient_answers(steps, facts, occ, g_selected, g_seen, g_resolved, g_bound, g_begun));
            return Err(PrivateStepRefusal::RecoveryUnavailable);
        },
    }
    let output = emission(recipient);
    let installed = PrivateTransient::install_applying(storage, may_have_applied, output, recipient, window, event);
    proof {
        assert(installed is Ok);
    }
    let begun = begin();
    proof {
        g_begun = begun;
    }
    match begun {
        Ok(unit) => {
            proof {
                assert(unit == ());
                assert(begun == Ok::<(), F>(()));
            }
        },
        Err(e) => {
            assert(transient_answers(steps, facts, occ, g_selected, g_seen, g_resolved, g_bound, g_begun));
            return Err(PrivateStepRefusal::Authority(e));
        },
    }
    commit(event);
    let mut transient = match storage.take() {
        Some(transient) => transient,
        None => return Err(PrivateStepRefusal::Native(PrivateNativeRefusal::WrongPhase)),
    };
    transient.commit();
    *storage = Some(transient);
    assert(transient_answers(steps, facts, occ, g_selected, g_seen, g_resolved, g_bound, g_begun));
    Ok(())
}

} // verus!
