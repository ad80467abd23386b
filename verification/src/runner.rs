// Whether a frontend may become the execution runner.
//
// The refusals asked before anything is installed leave the frontend exactly
// as it arrived, so they are decided first, and in a fixed order: a frontend
// that already exposed its producer, an owner that is not the one keeping
// this frontend's connections' evidence, a native origin already prepared.
use vstd::prelude::*;

verus! {

/// Why the keyboards could not be prepared for a runner.
#[derive(Debug, Clone, Copy, PartialEq, Eq)]
pub enum PrivateKeyboardsRefusal {
    /// No keymap could be prepared for the seat.
    KeymapUnavailable,
}

/// Why a frontend could not become an execution runner. The frontend is
/// returned intact; no producer is exposed by a failed preparation.
#[derive(Debug, Clone, Copy, PartialEq, Eq)]
pub enum PrivateRunnerRefusal {
    ProducerAlreadyExposed,
    /// The owner offered is not the one this frontend's registry keeps its
    /// connections' evidence with. Nothing is wrong with the frontend or the
    /// thread: what is refused is the association.
    ForeignServiceOwner,
    /// A prepared native origin cannot be replaced, even before the first
    /// turn.
    AlreadyPrepared,
    Keyboard(PrivateKeyboardsRefusal),
    StateUnavailable,
}

/// The refusal a preparation meets before anything is installed, if any.
pub open spec fn preparation_refusal_spec(
    producer_exposed: bool,
    keeper_matches: bool,
    native_prepared: bool,
) -> Option<PrivateRunnerRefusal> {
    if producer_exposed {
        Some(PrivateRunnerRefusal::ProducerAlreadyExposed)
    } else if !keeper_matches {
        Some(PrivateRunnerRefusal::ForeignServiceOwner)
    } else if native_prepared {
        Some(PrivateRunnerRefusal::AlreadyPrepared)
    } else {
        None
    }
}

/// Decide the refusals asked before anything is installed: a producer
/// already exposed, a foreign owner, a native origin already prepared, in
/// that order.
pub fn preparation_refusal(producer_exposed: bool, keeper_matches: bool, native_prepared: bool) -> (r: Option<
    PrivateRunnerRefusal,
>)
    ensures
        r == preparation_refusal_spec(producer_exposed, keeper_matches, native_prepared),
{
    if producer_exposed {
        return Some(PrivateRunnerRefusal::ProducerAlreadyExposed);
    }
    if !keeper_matches {
        return Some(PrivateRunnerRefusal::ForeignServiceOwner);
    }
    if native_prepared {
        return Some(PrivateRunnerRefusal::AlreadyPrepared);
    }
    None
}

/// What the keyboards' preparation is answered with: their own refusal
/// when they could not be issued, an unavailable keymap when the seat could
/// not be prepared, nothing otherwise.
pub fn keyboard_refusal(issued: Result<(), PrivateKeyboardsRefusal>, seat_prepared: bool) -> (r: Option<
    PrivateRunnerRefusal,
>)
    ensures
        match issued {
            Err(refusal) => r == Some(PrivateRunnerRefusal::Keyboard(refusal)),
            Ok(()) => if seat_prepared {
                r is None
            } else {
                r == Some(PrivateRunnerRefusal::Keyboard(PrivateKeyboardsRefusal::KeymapUnavailable))
            },
        },
{
    match issued {
        Err(refusal) => Some(PrivateRunnerRefusal::Keyboard(refusal)),
        Ok(()) => {
            if seat_prepared {
                None
            } else {
                Some(PrivateRunnerRefusal::Keyboard(PrivateKeyboardsRefusal::KeymapUnavailable))
            }
        },
    }
}


/// The frontend as preparing a runner reads and changes it: its own
/// standing, and the rest of it carried through.
pub struct PrivateRunnerFrontend<F, O> {
    /// Everything else the frontend holds.
    pub inner: F,
    /// Whether its producer was already exposed.
    pub producer_exposed: bool,
    /// Its native owner, once one was prepared.
    pub native_owner: Option<O>,
    /// The seat it submits for.
    pub seat: u64,
}

/// The outside steps of preparing a runner, each taken at most once: the
/// registry, the authority, the keyboards and the supervisor. What they
/// answer is theirs; what is handed to each, and what preparation makes of
/// each answer, is stated by `prepare_runner`.
pub struct PrivateRunnerSetupSteps<Ia, Ps, Pn, Kb, Pk, Sw> {
    /// Install the applied projections for a namespace.
    pub install_applied: Ia,
    /// Initialize a namespace's pointer and grab state for a seat.
    pub prepare_state: Ps,
    /// Build the native owner for a namespace and seat.
    pub prepare_native: Pn,
    /// Issue the keyboards' history.
    pub keyboards: Kb,
    /// Prepare a seat's keymap in the issued keyboards; on failure the
    /// issued history is withdrawn.
    pub prepare_keyboards: Pk,
    /// Seal the supervisor's watch into the admission gate.
    pub seal_watch: Sw,
}

/// A frontend prepared as the execution runner, with what it runs against.
pub struct PrivatePreparedRunnerRecord<F, K> {
    frontend: F,
    keyboards: K,
    namespace: u64,
    seat: u64,
    prefer_cleanup: bool,
    reclaim_cursor: usize,
}

impl<F, K> PrivatePreparedRunnerRecord<F, K> {
    pub closed spec fn frontend_spec(&self) -> F {
        self.frontend
    }

    pub closed spec fn keyboards_spec(&self) -> K {
        self.keyboards
    }

    pub closed spec fn namespace_spec(&self) -> u64 {
        self.namespace
    }

    pub closed spec fn seat_spec(&self) -> u64 {
        self.seat
    }

    pub closed spec fn prefer_cleanup_spec(&self) -> bool {
        self.prefer_cleanup
    }

    /// The namespace the runner executes in.
    pub fn namespace(&self) -> (r: u64)
        ensures
            r == self.namespace_spec(),
    {
        self.namespace
    }

    /// The seat the runner executes for.
    pub fn seat(&self) -> (r: u64)
        ensures
            r == self.seat_spec(),
    {
        self.seat
    }

    /// Whether the next turn prefers cleanup.
    pub fn prefer_cleanup(&self) -> (r: bool)
        ensures
            r == self.prefer_cleanup_spec(),
    {
        self.prefer_cleanup
    }

    /// The frontend the runner drives.
    pub fn frontend(&self) -> (r: &F)
        ensures
            *r == self.frontend_spec(),
    {
        &self.frontend
    }

    /// The keyboards the runner was prepared with.
    pub fn keyboards(&self) -> (r: &K)
        ensures
            *r == self.keyboards_spec(),
    {
        &self.keyboards
    }
}

/// Which refusal preparing a runner meets, given what each setup step
/// answered, in the order they are asked; `None` when every step succeeded.
pub open spec fn runner_refusal_outcome<O, K>(
    producer_exposed: bool,
    keeper_matches: bool,
    native_prepared: bool,
    applied: bool,
    state: bool,
    native: Option<O>,
    issued: Result<K, PrivateKeyboardsRefusal>,
    keymap: bool,
    sealed: bool,
) -> Option<PrivateRunnerRefusal> {
    match preparation_refusal_spec(producer_exposed, keeper_matches, native_prepared) {
        Some(x) => Some(x),
        None => if !applied || !state || native is None {
            Some(PrivateRunnerRefusal::StateUnavailable)
        } else {
            match issued {
                Err(x) => Some(PrivateRunnerRefusal::Keyboard(x)),
                Ok(_) => if !keymap {
                    Some(PrivateRunnerRefusal::Keyboard(PrivateKeyboardsRefusal::KeymapUnavailable))
                } else if !sealed {
                    Some(PrivateRunnerRefusal::StateUnavailable)
                } else {
                    None
                },
            }
        },
    }
}

/// The setup steps preparing a runner asked, and with what, up to the
/// answers they gave: each only once every step before it succeeded.
pub open spec fn runner_setup_answers<O, K, Ia, Ps, Pn, Kb, Pk, Sw>(
    steps: PrivateRunnerSetupSteps<Ia, Ps, Pn, Kb, Pk, Sw>,
    namespace: u64,
    seat: u64,
    applied: bool,
    state: bool,
    native: Option<O>,
    issued: Result<K, PrivateKeyboardsRefusal>,
    prepared: (K, bool),
    sealed: bool,
) -> bool where
    Ia: FnOnce(u64) -> bool,
    Ps: FnOnce(u64, u64) -> bool,
    Pn: FnOnce(u64, u64) -> Option<O>,
    Kb: FnOnce() -> Result<K, PrivateKeyboardsRefusal>,
    Pk: FnOnce(K, u64) -> (K, bool),
    Sw: FnOnce() -> bool,
 {
    &&& call_ensures(steps.install_applied, (namespace,), applied)
    &&& applied ==> call_ensures(steps.prepare_state, (namespace, seat), state)
    &&& (applied && state) ==> call_ensures(steps.prepare_native, (namespace, seat), native)
    &&& (applied && state && native is Some) ==> call_ensures(steps.keyboards, (), issued)
    &&& (applied && state && native is Some && issued is Ok) ==> call_ensures(
        steps.prepare_keyboards,
        (issued->Ok_0, seat),
        prepared,
    )
    &&& (applied && state && native is Some && issued is Ok && prepared.1) ==> call_ensures(
        steps.seal_watch,
        (),
        sealed,
    )
}

/// Prepare a frontend as the execution runner for `namespace`.
///
/// The refusals asked before anything is installed -- a producer already
/// exposed, an owner that is not the registry's custody keeper, a native
/// origin already prepared -- come first, in that order. Then the applied
/// projections, the namespace's state, the native owner, the keyboards and
/// the sealed watch, each refused as the step that failed. Nothing is kept
/// in the frontend until every step has succeeded, so a refused frontend
/// comes back exactly as it arrived. A prepared runner keeps the namespace
/// it was prepared for and the seat the frontend submits for, holds the
/// native owner that was built, and prefers cleanup on its first turn.
pub fn prepare_runner<F, O, K, Ia, Ps, Pn, Kb, Pk, Sw>(
    frontend: PrivateRunnerFrontend<F, O>,
    namespace: u64,
    keeper_matches: bool,
    steps: PrivateRunnerSetupSteps<Ia, Ps, Pn, Kb, Pk, Sw>,
) -> (r: Result<
    PrivatePreparedRunnerRecord<PrivateRunnerFrontend<F, O>, K>,
    (PrivateRunnerRefusal, PrivateRunnerFrontend<F, O>),
>) where
    Ia: FnOnce(u64) -> bool,
    Ps: FnOnce(u64, u64) -> bool,
    Pn: FnOnce(u64, u64) -> Option<O>,
    Kb: FnOnce() -> Result<K, PrivateKeyboardsRefusal>,
    Pk: FnOnce(K, u64) -> (K, bool),
    Sw: FnOnce() -> bool,

    requires
        forall|ns: u64| #[trigger] call_requires(steps.install_applied, (ns,)),
        forall|ns: u64, seat: u64| #[trigger] call_requires(steps.prepare_state, (ns, seat)),
        forall|ns: u64, seat: u64| #[trigger] call_requires(steps.prepare_native, (ns, seat)),
        call_requires(steps.keyboards, ()),
        forall|k: K, seat: u64| #[trigger] call_requires(steps.prepare_keyboards, (k, seat)),
        call_requires(steps.seal_watch, ()),
    ensures
        preparation_refusal_spec(frontend.producer_exposed, keeper_matches, frontend.native_owner is Some) is Some
            ==> (r matches Err((refusal, _)) && refusal == preparation_refusal_spec(
            frontend.producer_exposed,
            keeper_matches,
            frontend.native_owner is Some,
        )->0),
        r matches Err((_, back)) ==> back == frontend,
        r matches Err((PrivateRunnerRefusal::StateUnavailable, _)) ==> {
            ||| call_ensures(steps.install_applied, (namespace,), false)
            ||| call_ensures(steps.prepare_state, (namespace, frontend.seat), false)
            ||| call_ensures(steps.prepare_native, (namespace, frontend.seat), None::<O>)
            ||| call_ensures(steps.seal_watch, (), false)
        },
        r matches Err((PrivateRunnerRefusal::Keyboard(refusal), _)) ==> {
            ||| call_ensures(steps.keyboards, (), Err::<K, PrivateKeyboardsRefusal>(refusal))
            ||| refusal == PrivateKeyboardsRefusal::KeymapUnavailable && exists|issued: K, answered: K|
                #[trigger] call_ensures(steps.keyboards, (), Ok::<K, PrivateKeyboardsRefusal>(issued))
                    && #[trigger] call_ensures(steps.prepare_keyboards, (issued, frontend.seat), (answered, false))
        },
        r matches Ok(p) ==> {
            &&& preparation_refusal_spec(frontend.producer_exposed, keeper_matches, frontend.native_owner is Some)
                is None
            &&& call_ensures(steps.install_applied, (namespace,), true)
            &&& call_ensures(steps.prepare_state, (namespace, frontend.seat), true)
            &&& call_ensures(steps.prepare_native, (namespace, frontend.seat), p.frontend_spec().native_owner)
            &&& p.frontend_spec().native_owner is Some
            &&& exists|issued: K|
                #[trigger] call_ensures(steps.keyboards, (), Ok::<K, PrivateKeyboardsRefusal>(issued))
                    && call_ensures(steps.prepare_keyboards, (issued, frontend.seat), (p.keyboards_spec(), true))
            &&& call_ensures(steps.seal_watch, (), true)
            &&& p.frontend_spec() == (PrivateRunnerFrontend { native_owner: p.frontend_spec().native_owner, ..frontend })
            &&& p.namespace_spec() == namespace
            &&& p.seat_spec() == frontend.seat
            &&& p.prefer_cleanup_spec()
        },
        // Exactly the refusal, if any, that the answers it got make.
        preparation_refusal_spec(frontend.producer_exposed, keeper_matches, frontend.native_owner is Some) is None
            ==> exists|
            applied: bool,
            state: bool,
            native: Option<O>,
            issued: Result<K, PrivateKeyboardsRefusal>,
            prepared: (K, bool),
            sealed: bool,
        |
            #[trigger] runner_setup_answers(
                steps,
                namespace,
                frontend.seat,
                applied,
                state,
                native,
                issued,
                prepared,
                sealed,
            ) && match r {
                Ok(_) => runner_refusal_outcome(
                    frontend.producer_exposed,
                    keeper_matches,
                    frontend.native_owner is Some,
                    applied,
                    state,
                    native,
                    issued,
                    prepared.1,
                    sealed,
                ) is None,
                Err((x, _)) => runner_refusal_outcome(
                    frontend.producer_exposed,
                    keeper_matches,
                    frontend.native_owner is Some,
                    applied,
                    state,
                    native,
                    issued,
                    prepared.1,
                    sealed,
                ) == Some(x),
            },
{
    let PrivateRunnerSetupSteps { install_applied, prepare_state, prepare_native, keyboards, prepare_keyboards, seal_watch } =
        steps;
    let ghost mut g_applied: bool = false;
    let ghost mut g_state: bool = false;
    let ghost mut g_native: Option<O> = None;
    let ghost mut g_issued: Result<K, PrivateKeyboardsRefusal> = arbitrary();
    let ghost mut g_prepared: (K, bool) = arbitrary();
    let ghost mut g_sealed: bool = false;
    match preparation_refusal(frontend.producer_exposed, keeper_matches, frontend.native_owner.is_some()) {
        Some(refusal) => return Err((refusal, frontend)),
        None => {},
    }
    let applied = install_applied(namespace);
    proof {
        g_applied = applied;
    }
    if !applied {
        assert(runner_setup_answers(steps, namespace, frontend.seat, g_applied, g_state, g_native, g_issued, g_prepared, g_sealed));
        return Err((PrivateRunnerRefusal::StateUnavailable, frontend));
    }
    let seat = frontend.seat;
    let state = prepare_state(namespace, seat);
    proof {
        g_state = state;
    }
    if !state {
        assert(runner_setup_answers(steps, namespace, frontend.seat, g_applied, g_state, g_native, g_issued, g_prepared, g_sealed));
        return Err((PrivateRunnerRefusal::StateUnavailable, frontend));
    }
    let built = prepare_native(namespace, seat);
    proof {
        g_native = built;
    }
    let native_owner = match built {
        Some(owner) => owner,
        None => {
            assert(runner_setup_answers(steps, namespace, frontend.seat, g_applied, g_state, g_native, g_issued, g_prepared, g_sealed));
            return Err((PrivateRunnerRefusal::StateUnavailable, frontend));
        },
    };
    let issued = keyboards();
    proof {
        g_issued = issued;
    }
    let issued_keyboards = match issued {
        Ok(keyboards) => keyboards,
        Err(refusal) => {
            assert(runner_setup_answers(steps, namespace, frontend.seat, g_applied, g_state, g_native, g_issued, g_prepared, g_sealed));
            return Err((PrivateRunnerRefusal::Keyboard(refusal), frontend));
        },
    };
    let prepared = prepare_keyboards(issued_keyboards, seat);
    proof {
        g_prepared = prepared;
    }
    let (keyboards, keymap) = prepared;
    if !keymap {
        assert(runner_setup_answers(steps, namespace, frontend.seat, g_applied, g_state, g_native, g_issued, g_prepared, g_sealed));
        return Err((PrivateRunnerRefusal::Keyboard(PrivateKeyboardsRefusal::KeymapUnavailable), frontend));
    }
    let sealed = seal_watch();
    proof {
        g_sealed = sealed;
    }
    if !sealed {
        assert(runner_setup_answers(steps, namespace, frontend.seat, g_applied, g_state, g_native, g_issued, g_prepared, g_sealed));
        return Err((PrivateRunnerRefusal::StateUnavailable, frontend));
    }
    assert(runner_setup_answers(steps, namespace, frontend.seat, g_applied, g_state, g_native, g_issued, g_prepared, g_sealed));
    let mut frontend = frontend;
    frontend.native_owner = Some(native_owner);
    Ok(PrivatePreparedRunnerRecord { frontend, keyboards, namespace, seat, prefer_cleanup: true, reclaim_cursor: 0 })
}

} // verus!
