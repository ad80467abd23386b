// The accounting of one owner-loop service turn.
//
// A turn alternates charged steps of two kinds: cleanup (terminal delivery
// and native work) and new work (one dequeue of the shared order). Which kind
// goes next, what each step counts, and when the turn stops are decided here
// from what each step reported. The steps themselves are taken by whoever
// holds the frontend and the service allowance; each handler below takes what
// one step reported and says which step comes next.
//
// Only confirmed facts are counted: an enqueue is not a flush, a recording is
// not a receipt, and an unanswered ledger changed nothing.
use vstd::prelude::*;
use crate::ordered_turn::PrivateOrderedStep;
use crate::runner::PrivateRunnerRefusal;
use crate::terminal_schedule::{PrivateDeliveryStep, PrivateReceiptStep};

verus! {

/// What finishing one charged service start measured, in nanoseconds.
#[derive(Debug, Clone, Copy, PartialEq, Eq, Structural)]
pub struct PrivateServiceCharge {
    pub elapsed: u64,
    pub allowance_overrun: u64,
    pub cleanup_reservation_overrun: u64,
    pub interval_boundary_overrun: u64,
}

/// What delivering one decided item established: its sequence, the
/// outcome the request recorded (taken exactly once), and whether a release
/// debt was closed by it.
#[derive(Debug, Clone, Copy, PartialEq, Eq)]
pub struct PrivateDelivered<Q> {
    pub sequence: u64,
    pub completion: Option<Q>,
    pub debt_settled: bool,
}

/// What one accounted cleanup step reported.
pub enum PrivateAccountedDelivery<C, Q> {
    /// The cleanup allowance refused; `taken` names an entry it stopped on.
    Yield { cause: C, taken: Option<u64> },
    /// One terminal step ran under its charge. `watch_failed` says that the
    /// supervisor failed, apart from which entry it was (`unwatched`).
    Step {
        step: PrivateDeliveryStep<PrivateDelivered<Q>>,
        charge: Option<PrivateServiceCharge>,
        watch_failed: bool,
        unwatched: Option<u64>,
    },
}

/// What one accounted new-work step reported.
pub enum PrivateAccountedStep<C> {
    /// The allowance refused the dequeue. `cleanup_reserved` says the refusal
    /// was a reservation held for cleanup (starts or time).
    Yield { cause: C, taken: Option<u64>, cleanup_reserved: bool },
    /// One ordered step ran under its charge.
    Step { step: PrivateOrderedStep, charge: Option<PrivateServiceCharge> },
}

/// What one accounted reclamation visit did.
pub enum PrivateAccountedReclaim<C> {
    /// Nothing outstanding: no start spent, nothing watched.
    Idle,
    /// The cleanup allowance refused the visit; nothing observed.
    Yield { cause: C },
    /// The visit ran under a charged cleanup start, which is always charged;
    /// `unwatched` when the supervisor would not take the visit or its
    /// finish.
    Visited { observed: usize, reclaimed: usize, charge: PrivateServiceCharge, unwatched: bool },
}

/// Which step the turn takes next.
#[derive(Debug, Clone, Copy, PartialEq, Eq, Structural)]
pub enum PrivateTurnAction {
    /// Begin another round: read whether production is open and call
    /// `begin_round`.
    Round,
    /// Take one accounted cleanup step and hand it to `delivered`.
    Deliver,
    /// Take one accounted new-work step and hand it to `executed`.
    Execute,
    /// Take one accounted reclamation visit and hand it to `reclaimed`.
    Reclaim,
    /// The turn is over: call `finish`.
    Finish,
}

/// What one turn did. Processing, enqueue and settlement are counted apart.
#[derive(Debug, Clone, Copy, PartialEq, Eq)]
pub struct PrivateRunnerProgress<C, F> {
    pub taken: usize,
    pub refused: usize,
    pub enqueued: usize,
    pub observed: usize,
    pub settled: usize,
    /// Proof-recording visits that put a native bit in.
    pub recorded: usize,
    pub activation_pairs_observed: usize,
    pub activations_joined: usize,
    pub transient_observed: usize,
    pub native_disposal_observed: usize,
    pub native_disposed: usize,
    pub transient_disposed: usize,
    /// Whether the supervisor failed during this turn.
    pub watch_failed: bool,
    /// Delivery capsules that reached a recipient's queue.
    pub dispatched: usize,
    /// Claimed attempts given back to the ledger.
    pub relinquished: usize,
    /// Recipient halves settled on established proof.
    pub recipient_settled: usize,
    pub blocked: Option<u64>,
    /// The service allowance stopped this turn.
    pub allowance: Option<C>,
    /// Nanoseconds charged, and the largest allowance overrun.
    pub charged: u64,
    pub overrun: u64,
    pub unwatched: Option<u64>,
    /// All charged starts.
    pub starts: usize,
    pub terminal_steps: usize,
    /// Control and lease-release operations handed on: routed, not answered.
    pub routed: usize,
    pub reclaimed: usize,
    pub reclaim_observed: usize,
    pub reclaim_refusal: Option<C>,
    pub reclaim_unwatched: bool,
    pub last_routed: Option<u64>,
    pub last_refusal: Option<F>,
}

/// One, for a fact that held; none otherwise.
pub open spec fn one_if(b: bool) -> int {
    if b {
        1
    } else {
        0
    }
}

/// A progress that has counted nothing.
pub open spec fn no_progress<C, F>() -> PrivateRunnerProgress<C, F> {
    PrivateRunnerProgress {
        taken: 0,
        refused: 0,
        enqueued: 0,
        observed: 0,
        settled: 0,
        recorded: 0,
        activation_pairs_observed: 0,
        activations_joined: 0,
        transient_observed: 0,
        native_disposal_observed: 0,
        native_disposed: 0,
        transient_disposed: 0,
        watch_failed: false,
        dispatched: 0,
        relinquished: 0,
        recipient_settled: 0,
        blocked: None,
        allowance: None,
        charged: 0,
        overrun: 0,
        unwatched: None,
        starts: 0,
        terminal_steps: 0,
        routed: 0,
        reclaimed: 0,
        reclaim_observed: 0,
        reclaim_refusal: None,
        reclaim_unwatched: false,
        last_routed: None,
        last_refusal: None,
    }
}

/// Whether a turn moved anything: a start, a terminal step, a take, a
/// route, a dispatch, a settlement or a reclamation.
pub open spec fn advanced_spec<C, F>(p: PrivateRunnerProgress<C, F>) -> bool {
    p.starts != 0 || p.terminal_steps != 0 || p.taken != 0 || p.routed != 0 || p.dispatched != 0
        || p.recipient_settled != 0 || p.reclaimed != 0
}

/// Whether a charge ran over any of its three allowances.
pub open spec fn overran_spec(charge: Option<PrivateServiceCharge>) -> bool {
    match charge {
        Some(c) => c.allowance_overrun != 0 || c.cleanup_reservation_overrun != 0 || c.interval_boundary_overrun
            != 0,
        None => false,
    }
}

/// A progress after recording a charge: one more start, its elapsed time
/// added (saturating), and the largest allowance overrun kept.
pub open spec fn charge_recorded<C, F>(
    p: PrivateRunnerProgress<C, F>,
    charge: Option<PrivateServiceCharge>,
) -> PrivateRunnerProgress<C, F> {
    match charge {
        Some(c) => PrivateRunnerProgress {
            starts: (p.starts + 1) as usize,
            charged: if p.charged + c.elapsed <= u64::MAX {
                (p.charged + c.elapsed) as u64
            } else {
                u64::MAX
            },
            overrun: if c.allowance_overrun > p.overrun {
                c.allowance_overrun
            } else {
                p.overrun
            },
            ..p
        },
        None => p,
    }
}

/// What a terminal step adds to a progress.
pub open spec fn delivery_counted<C, F, Q>(
    p: PrivateRunnerProgress<C, F>,
    step: PrivateDeliveryStep<PrivateDelivered<Q>>,
) -> PrivateRunnerProgress<C, F> {
    let steps = (p.terminal_steps + 1) as usize;
    match step {
        PrivateDeliveryStep::Idle => p,
        PrivateDeliveryStep::Receipt { step } => match step {
            PrivateReceiptStep::Settled { debt_settled } => PrivateRunnerProgress {
                terminal_steps: steps,
                recipient_settled: (p.recipient_settled + 1) as usize,
                settled: (p.settled + one_if(debt_settled)) as usize,
                ..p
            },
            PrivateReceiptStep::ReturnedUnsettled => PrivateRunnerProgress {
                terminal_steps: steps,
                relinquished: (p.relinquished + 1) as usize,
                ..p
            },
            PrivateReceiptStep::Unanswered => PrivateRunnerProgress { terminal_steps: steps, ..p },
        },
        PrivateDeliveryStep::Dispatched { enqueued, relinquished } => PrivateRunnerProgress {
            terminal_steps: steps,
            dispatched: (p.dispatched + one_if(enqueued)) as usize,
            enqueued: (p.enqueued + one_if(enqueued)) as usize,
            relinquished: (p.relinquished + one_if(relinquished)) as usize,
            ..p
        },
        PrivateDeliveryStep::SharedActivation { observed, joined } => PrivateRunnerProgress {
            terminal_steps: steps,
            activation_pairs_observed: (p.activation_pairs_observed + observed) as usize,
            activations_joined: (p.activations_joined + joined) as usize,
            ..p
        },
        PrivateDeliveryStep::TransientReceipt { disposed } => PrivateRunnerProgress {
            terminal_steps: steps,
            transient_observed: (p.transient_observed + 1) as usize,
            transient_disposed: (p.transient_disposed + one_if(disposed)) as usize,
            ..p
        },
        PrivateDeliveryStep::NativeDisposal { disposed } => PrivateRunnerProgress {
            terminal_steps: steps,
            native_disposal_observed: (p.native_disposal_observed + 1) as usize,
            native_disposed: (p.native_disposed + one_if(disposed)) as usize,
            ..p
        },
        PrivateDeliveryStep::Recorded { recorded } => PrivateRunnerProgress {
            terminal_steps: steps,
            recorded: (p.recorded + one_if(recorded)) as usize,
            ..p
        },
        PrivateDeliveryStep::Blocked(sequence) => PrivateRunnerProgress { blocked: Some(sequence), ..p },
        PrivateDeliveryStep::Advanced { report, .. } => match report {
            Some(d) => PrivateRunnerProgress {
                terminal_steps: steps,
                observed: (p.observed + one_if(d.completion is Some)) as usize,
                settled: (p.settled + one_if(d.debt_settled)) as usize,
                ..p
            },
            None => PrivateRunnerProgress { terminal_steps: steps, ..p },
        },
    }
}

/// Whether counting a terminal step fits every counter it adds to.
pub open spec fn delivery_fits<C, F, Q>(
    p: PrivateRunnerProgress<C, F>,
    step: PrivateDeliveryStep<PrivateDelivered<Q>>,
) -> bool {
    &&& p.terminal_steps < usize::MAX
    &&& p.recipient_settled < usize::MAX
    &&& p.settled < usize::MAX
    &&& p.relinquished < usize::MAX
    &&& p.dispatched < usize::MAX
    &&& p.enqueued < usize::MAX
    &&& p.transient_observed < usize::MAX
    &&& p.transient_disposed < usize::MAX
    &&& p.native_disposal_observed < usize::MAX
    &&& p.native_disposed < usize::MAX
    &&& p.recorded < usize::MAX
    &&& p.observed < usize::MAX
    &&& (step matches PrivateDeliveryStep::SharedActivation { observed, joined } ==> p.activation_pairs_observed
        + observed <= usize::MAX && p.activations_joined + joined <= usize::MAX)
}

/// What a turn is and has decided so far.
pub ghost struct TurnView<C, F> {
    pub progress: PrivateRunnerProgress<C, F>,
    pub turn_starts: usize,
    pub prefer_cleanup: bool,
    pub production_open: bool,
    pub cleanup_idle: bool,
}

/// The step after a turn stops: an idle turn gets one reclamation visit.
pub open spec fn ending<C, F>(p: PrivateRunnerProgress<C, F>) -> PrivateTurnAction {
    if advanced_spec(p) {
        PrivateTurnAction::Finish
    } else {
        PrivateTurnAction::Reclaim
    }
}

/// The accounting of one service turn in progress.
pub struct PrivateRunnerTurn<C, F> {
    progress: PrivateRunnerProgress<C, F>,
    turn_starts: usize,
    prefer_cleanup: bool,
    production_open: bool,
    cleanup_idle: bool,
}

impl<C, F> View for PrivateRunnerTurn<C, F> {
    type V = TurnView<C, F>;

    closed spec fn view(&self) -> TurnView<C, F> {
        TurnView {
            progress: self.progress,
            turn_starts: self.turn_starts,
            prefer_cleanup: self.prefer_cleanup,
            production_open: self.production_open,
            cleanup_idle: self.cleanup_idle,
        }
    }
}

/// Whether charged cleanup has anything to do, as the service admission is
/// told before a step.
#[derive(Debug, Clone, Copy, PartialEq, Eq, Structural)]
pub enum PrivateCleanupReadiness {
    Eligible,
    NoneEligible,
}

/// Whether an instance owes any cleanup: terminal cleanup still held,
/// routed work not yet at a terminal outcome, an item part-way through
/// routing, a parked item, or a parked barrier each make it eligible.
pub fn cleanup_readiness(
    terminal_cleanup_empty: bool,
    outstanding: usize,
    routing: bool,
    parked: bool,
    parked_barrier: bool,
) -> (r: PrivateCleanupReadiness)
    ensures
        r == if terminal_cleanup_empty && outstanding == 0 && !routing && !parked && !parked_barrier {
            PrivateCleanupReadiness::NoneEligible
        } else {
            PrivateCleanupReadiness::Eligible
        },
{
    if terminal_cleanup_empty && outstanding == 0 && !routing && !parked && !parked_barrier {
        PrivateCleanupReadiness::NoneEligible
    } else {
        PrivateCleanupReadiness::Eligible
    }
}

/// Whether a turn moved anything.
pub fn advanced<C, F>(progress: &PrivateRunnerProgress<C, F>) -> (r: bool)
    ensures
        r == advanced_spec(*progress),
{
    progress.starts != 0 || progress.terminal_steps != 0 || progress.taken != 0 || progress.routed != 0
        || progress.dispatched != 0 || progress.recipient_settled != 0 || progress.reclaimed != 0
}

impl<C, F> PrivateRunnerProgress<C, F> {
    /// Nothing counted.
    pub fn new() -> (r: Self)
        ensures
            r == no_progress::<C, F>(),
    {
        PrivateRunnerProgress {
            taken: 0,
            refused: 0,
            enqueued: 0,
            observed: 0,
            settled: 0,
            recorded: 0,
            activation_pairs_observed: 0,
            activations_joined: 0,
            transient_observed: 0,
            native_disposal_observed: 0,
            native_disposed: 0,
            transient_disposed: 0,
            watch_failed: false,
            dispatched: 0,
            relinquished: 0,
            recipient_settled: 0,
            blocked: None,
            allowance: None,
            charged: 0,
            overrun: 0,
            unwatched: None,
            starts: 0,
            terminal_steps: 0,
            routed: 0,
            reclaimed: 0,
            reclaim_observed: 0,
            reclaim_refusal: None,
            reclaim_unwatched: false,
            last_routed: None,
            last_refusal: None,
        }
    }

    /// Record one finished start's charge; whether it ran over any of its
    /// allowances. No charge counts nothing.
    pub fn record_charge(&mut self, charge: Option<PrivateServiceCharge>) -> (overran: bool)
        requires
            charge is Some ==> old(self).starts < usize::MAX,
        ensures
            *final(self) == charge_recorded(*old(self), charge),
            overran == overran_spec(charge),
    {
        match charge {
            None => false,
            Some(c) => {
                self.starts = self.starts + 1;
                self.charged = self.charged.saturating_add(c.elapsed);
                if c.allowance_overrun > self.overrun {
                    self.overrun = c.allowance_overrun;
                }
                c.allowance_overrun != 0 || c.cleanup_reservation_overrun != 0 || c.interval_boundary_overrun
                    != 0
            },
        }
    }

    /// Count what one terminal step did.
    pub fn count_delivery<Q>(&mut self, step: &PrivateDeliveryStep<PrivateDelivered<Q>>)
        requires
            delivery_fits(*old(self), *step),
        ensures
            *final(self) == delivery_counted(*old(self), *step),
    {
        match step {
            PrivateDeliveryStep::Idle => {},
            PrivateDeliveryStep::Receipt { step } => {
                self.terminal_steps = self.terminal_steps + 1;
                match step {
                    PrivateReceiptStep::Settled { debt_settled } => {
                        self.recipient_settled = self.recipient_settled + 1;
                        if *debt_settled {
                            self.settled = self.settled + 1;
                        }
                    },
                    PrivateReceiptStep::ReturnedUnsettled => {
                        self.relinquished = self.relinquished + 1;
                    },
                    PrivateReceiptStep::Unanswered => {},
                }
            },
            PrivateDeliveryStep::Dispatched { enqueued, relinquished } => {
                self.terminal_steps = self.terminal_steps + 1;
                if *enqueued {
                    self.dispatched = self.dispatched + 1;
                    self.enqueued = self.enqueued + 1;
                }
                if *relinquished {
                    self.relinquished = self.relinquished + 1;
                }
            },
            PrivateDeliveryStep::SharedActivation { observed, joined } => {
                self.terminal_steps = self.terminal_steps + 1;
                self.activation_pairs_observed = self.activation_pairs_observed + *observed;
                self.activations_joined = self.activations_joined + *joined;
            },
            PrivateDeliveryStep::TransientReceipt { disposed } => {
                self.terminal_steps = self.terminal_steps + 1;
                self.transient_observed = self.transient_observed + 1;
                if *disposed {
                    self.transient_disposed = self.transient_disposed + 1;
                }
            },
            PrivateDeliveryStep::NativeDisposal { disposed } => {
                self.terminal_steps = self.terminal_steps + 1;
                self.native_disposal_observed = self.native_disposal_observed + 1;
                if *disposed {
                    self.native_disposed = self.native_disposed + 1;
                }
            },
            PrivateDeliveryStep::Recorded { recorded } => {
                self.terminal_steps = self.terminal_steps + 1;
                if *recorded {
                    self.recorded = self.recorded + 1;
                }
            },
            PrivateDeliveryStep::Blocked(sequence) => {
                self.blocked = Some(*sequence);
            },
            PrivateDeliveryStep::Advanced { report, .. } => {
                self.terminal_steps = self.terminal_steps + 1;
                match report {
                    Some(delivered) => {
                        if delivered.completion.is_some() {
                            self.observed = self.observed + 1;
                        }
                        if delivered.debt_settled {
                            self.settled = self.settled + 1;
                        }
                    },
                    None => {},
                }
            },
        }
    }
}

/// A progress after a decided or resumed step named `sequence`: the turn's
/// last entry was refused for that very sequence, and that refusal counts.
pub open spec fn refusal_counted<C, F>(
    p: PrivateRunnerProgress<C, F>,
    last_refused: Option<(u64, F)>,
    sequence: u64,
) -> PrivateRunnerProgress<C, F> {
    match last_refused {
        Some((stored, refusal)) => if stored == sequence {
            PrivateRunnerProgress { refused: (p.refused + 1) as usize, last_refusal: Some(refusal), ..p }
        } else {
            p
        },
        None => p,
    }
}

/// What an ordered step adds to a progress, after the charge and the take
/// are counted; and whether the turn stops on it (`Some` of the step after).
pub open spec fn ordered_counted<C, F>(
    p: PrivateRunnerProgress<C, F>,
    step: PrivateOrderedStep,
    last_refused: Option<(u64, F)>,
) -> (PrivateRunnerProgress<C, F>, bool) {
    match step {
        PrivateOrderedStep::Deferred { sequence, watched } => if watched {
            (p, false)
        } else {
            (PrivateRunnerProgress { unwatched: Some(sequence), ..p }, true)
        },
        PrivateOrderedStep::Resumed { sequence, watched, deferred } => {
            let q = if deferred {
                p
            } else {
                refusal_counted(p, last_refused, sequence)
            };
            if watched {
                (q, false)
            } else {
                (PrivateRunnerProgress { unwatched: Some(sequence), ..q }, true)
            }
        },
        PrivateOrderedStep::Idle => (p, false),
        PrivateOrderedStep::Blocked(sequence) => (PrivateRunnerProgress { blocked: Some(sequence), ..p }, true),
        PrivateOrderedStep::Parked(sequence) => (PrivateRunnerProgress { blocked: Some(sequence), ..p }, true),
        PrivateOrderedStep::Unwatched(sequence) => (
            PrivateRunnerProgress { unwatched: Some(sequence), blocked: Some(sequence), ..p },
            true,
        ),
        PrivateOrderedStep::Routed(sequence) => (
            PrivateRunnerProgress { routed: (p.routed + 1) as usize, last_routed: Some(sequence), ..p },
            false,
        ),
        PrivateOrderedStep::RoutedUnwatched(sequence) => (
            PrivateRunnerProgress {
                routed: (p.routed + 1) as usize,
                last_routed: Some(sequence),
                unwatched: Some(sequence),
                ..p
            },
            true,
        ),
        PrivateOrderedStep::Decided(sequence) => (refusal_counted(p, last_refused, sequence), false),
        PrivateOrderedStep::DecidedUnwatched(sequence) => (
            PrivateRunnerProgress { unwatched: Some(sequence), ..refusal_counted(p, last_refused, sequence) },
            true,
        ),
    }
}

impl<C, F> PrivateRunnerTurn<C, F> {
    /// A turn of at most `turn_starts` charged starts, preferring cleanup
    /// first when `prefer_cleanup` (the runner's choice carried over from its
    /// last turn).
    pub fn begin(turn_starts: usize, prefer_cleanup: bool) -> (r: Self)
        ensures
            r@ == (TurnView {
                progress: no_progress::<C, F>(),
                turn_starts,
                prefer_cleanup,
                production_open: false,
                cleanup_idle: false,
            }),
    {
        PrivateRunnerTurn {
            progress: PrivateRunnerProgress::new(),
            turn_starts,
            prefer_cleanup,
            production_open: false,
            cleanup_idle: false,
        }
    }

    /// A turn for the service that holds the runner's lease; a lease held
    /// for another owner is refused before anything is reaped or taken.
    pub fn begin_leased(leased: bool, turn_starts: usize, prefer_cleanup: bool) -> (r: Result<
        Self,
        PrivateRunnerRefusal,
    >)
        ensures
            !leased ==> r == Err::<Self, PrivateRunnerRefusal>(PrivateRunnerRefusal::ForeignServiceOwner),
            leased ==> r is Ok && r->Ok_0@ == (TurnView {
                progress: no_progress::<C, F>(),
                turn_starts,
                prefer_cleanup,
                production_open: false,
                cleanup_idle: false,
            }),
    {
        if !leased {
            return Err(PrivateRunnerRefusal::ForeignServiceOwner);
        }
        Ok(Self::begin(turn_starts, prefer_cleanup))
    }

    /// What the turn has counted so far.
    pub fn progress(&self) -> (r: &PrivateRunnerProgress<C, F>)
        ensures
            *r == self@.progress,
    {
        &self.progress
    }

    /// Begin a round. A turn that has spent its starts stops. Otherwise a
    /// closed production side makes cleanup preferred, and the round begins
    /// with cleanup if it is preferred and with new work if not.
    pub fn begin_round(&mut self, production_open: bool) -> (r: PrivateTurnAction)
        ensures
            old(self)@.progress.starts >= old(self)@.turn_starts ==> r == ending(old(self)@.progress)
                && final(self)@ == old(self)@,
            old(self)@.progress.starts < old(self)@.turn_starts ==> ({
                let prefer = old(self)@.prefer_cleanup || !production_open;
                &&& final(self)@ == (TurnView {
                    prefer_cleanup: prefer,
                    production_open,
                    cleanup_idle: false,
                    ..old(self)@
                })
                &&& r == if prefer {
                    PrivateTurnAction::Deliver
                } else {
                    PrivateTurnAction::Execute
                }
            }),
    {
        if self.progress.starts >= self.turn_starts {
            return self.stop();
        }
        self.production_open = production_open;
        if !production_open {
            self.prefer_cleanup = true;
        }
        self.cleanup_idle = false;
        if self.prefer_cleanup {
            PrivateTurnAction::Deliver
        } else {
            PrivateTurnAction::Execute
        }
    }

    fn stop(&self) -> (r: PrivateTurnAction)
        ensures
            r == ending(self@.progress),
    {
        if advanced(&self.progress) {
            PrivateTurnAction::Finish
        } else {
            PrivateTurnAction::Reclaim
        }
    }

    /// Account one cleanup step. A refused allowance stops the turn. A
    /// charged step is accounted first and stopped on after: a supervisor
    /// that failed on the way out does not unmake the step that happened.
    /// An idle cleanup side moves the round on to new work while production
    /// is open; any other step that ran hands the next round back to new
    /// work, unless its supervisor failed, it ran over, or nothing watched it.
    pub fn delivered<Q>(&mut self, outcome: PrivateAccountedDelivery<C, Q>) -> (r: PrivateTurnAction)
        requires
            outcome matches PrivateAccountedDelivery::Step { step, charge, .. } ==> delivery_fits(
                old(self)@.progress,
                step,
            ) && (charge is Some ==> old(self)@.progress.starts < usize::MAX),
        ensures
            final(self)@.turn_starts == old(self)@.turn_starts,
            final(self)@.production_open == old(self)@.production_open,
            match outcome {
                PrivateAccountedDelivery::Yield { cause, taken } => {
                    let p = PrivateRunnerProgress { allowance: Some(cause), blocked: taken, ..old(self)@.progress };
                    &&& final(self)@ == (TurnView { progress: p, ..old(self)@ })
                    &&& r == ending(p)
                },
                PrivateAccountedDelivery::Step { step, charge, watch_failed, unwatched } => {
                    let charged = charge_recorded(old(self)@.progress, charge);
                    let noted = PrivateRunnerProgress {
                        unwatched,
                        watch_failed: charged.watch_failed || watch_failed,
                        ..charged
                    };
                    let p = delivery_counted(noted, step);
                    let overran = overran_spec(charge);
                    &&& final(self)@.progress == p
                    &&& match step {
                        PrivateDeliveryStep::Idle => if watch_failed {
                            r == ending(p) && final(self)@.cleanup_idle == old(self)@.cleanup_idle
                                && final(self)@.prefer_cleanup == old(self)@.prefer_cleanup
                        } else {
                            &&& final(self)@.cleanup_idle
                            &&& final(self)@.prefer_cleanup == old(self)@.prefer_cleanup
                            &&& r == if old(self)@.production_open {
                                PrivateTurnAction::Execute
                            } else {
                                ending(p)
                            }
                        },
                        PrivateDeliveryStep::Blocked(_) => r == ending(p) && final(self)@.cleanup_idle == old(
                            self,
                        )@.cleanup_idle && final(self)@.prefer_cleanup == old(self)@.prefer_cleanup,
                        PrivateDeliveryStep::Advanced { .. } => {
                            &&& !final(self)@.prefer_cleanup
                            &&& final(self)@.cleanup_idle == old(self)@.cleanup_idle
                            &&& r == if overran || watch_failed || unwatched is Some {
                                ending(p)
                            } else {
                                PrivateTurnAction::Round
                            }
                        },
                        _ => {
                            &&& final(self)@.cleanup_idle == old(self)@.cleanup_idle
                            &&& final(self)@.prefer_cleanup == (old(self)@.prefer_cleanup && watch_failed)
                            &&& r == if watch_failed || overran || unwatched is Some {
                                ending(p)
                            } else {
                                PrivateTurnAction::Round
                            }
                        },
                    }
                },
            },
    {
        match outcome {
            PrivateAccountedDelivery::Yield { cause, taken } => {
                self.progress.allowance = Some(cause);
                self.progress.blocked = taken;
                self.stop()
            },
            PrivateAccountedDelivery::Step { step, charge, watch_failed, unwatched } => {
                let overran = self.progress.record_charge(charge);
                self.progress.unwatched = unwatched;
                self.progress.watch_failed = self.progress.watch_failed || watch_failed;
                self.progress.count_delivery(&step);
                match step {
                    PrivateDeliveryStep::Idle => {
                        if watch_failed {
                            return self.stop();
                        }
                        self.cleanup_idle = true;
                        if !self.production_open {
                            return self.stop();
                        }
                        PrivateTurnAction::Execute
                    },
                    PrivateDeliveryStep::Blocked(_) => self.stop(),
                    PrivateDeliveryStep::Advanced { .. } => {
                        self.prefer_cleanup = false;
                        if overran || watch_failed || unwatched.is_some() {
                            return self.stop();
                        }
                        PrivateTurnAction::Round
                    },
                    _ => {
                        if watch_failed {
                            return self.stop();
                        }
                        self.prefer_cleanup = false;
                        if overran || unwatched.is_some() {
                            return self.stop();
                        }
                        PrivateTurnAction::Round
                    },
                }
            },
        }
    }

    /// Account one new-work step. A refusal that only reserved the allowance
    /// for cleanup, with nothing taken and cleanup not found idle this round,
    /// hands the next round to cleanup; any other refusal stops the turn. A
    /// step that ran is counted (a take only when it was charged and was not
    /// a resumption), makes cleanup preferred next, and stops the turn when it
    /// is blocked, parked or unwatched, or when it ran over. An idle order
    /// stops the turn only if cleanup was idle too. `last_refused` is the
    /// turn's last entry when it is a refusal: its sequence and why.
    pub fn executed(&mut self, outcome: PrivateAccountedStep<C>, last_refused: Option<(u64, F)>) -> (r:
        PrivateTurnAction)
        requires
            old(self)@.progress.taken < usize::MAX,
            old(self)@.progress.refused < usize::MAX,
            old(self)@.progress.routed < usize::MAX,
            old(self)@.progress.starts < usize::MAX,
        ensures
            final(self)@.turn_starts == old(self)@.turn_starts,
            final(self)@.production_open == old(self)@.production_open,
            final(self)@.cleanup_idle == old(self)@.cleanup_idle,
            match outcome {
                PrivateAccountedStep::Yield { cause, taken, cleanup_reserved } => if taken is None
                    && !old(self)@.cleanup_idle && cleanup_reserved {
                    &&& final(self)@ == (TurnView { prefer_cleanup: true, ..old(self)@ })
                    &&& r == PrivateTurnAction::Round
                } else {
                    let p = PrivateRunnerProgress {
                        allowance: Some(cause),
                        taken: (old(self)@.progress.taken + one_if(taken is Some)) as usize,
                        blocked: taken,
                        ..old(self)@.progress
                    };
                    &&& final(self)@ == (TurnView { progress: p, ..old(self)@ })
                    &&& r == ending(p)
                },
                PrivateAccountedStep::Step { step, charge } => {
                    let took = PrivateRunnerProgress {
                        taken: (old(self)@.progress.taken + one_if(charge is Some && !(step is Resumed))) as usize,
                        ..old(self)@.progress
                    };
                    let charged = charge_recorded(took, charge);
                    let (p, stops) = ordered_counted(charged, step, last_refused);
                    &&& final(self)@.progress == p
                    &&& final(self)@.prefer_cleanup
                    &&& r == if step is Idle {
                        if old(self)@.cleanup_idle {
                            ending(p)
                        } else {
                            PrivateTurnAction::Round
                        }
                    } else if stops || overran_spec(charge) {
                        ending(p)
                    } else {
                        PrivateTurnAction::Round
                    }
                },
            },
    {
        match outcome {
            PrivateAccountedStep::Yield { cause, taken, cleanup_reserved } => {
                if taken.is_none() && !self.cleanup_idle && cleanup_reserved {
                    self.prefer_cleanup = true;
                    return PrivateTurnAction::Round;
                }
                self.progress.allowance = Some(cause);
                if taken.is_some() {
                    self.progress.taken = self.progress.taken + 1;
                }
                self.progress.blocked = taken;
                self.stop()
            },
            PrivateAccountedStep::Step { step, charge } => {
                let resumed = match step {
                    PrivateOrderedStep::Resumed { .. } => true,
                    _ => false,
                };
                if charge.is_some() && !resumed {
                    self.progress.taken = self.progress.taken + 1;
                }
                let overran = self.progress.record_charge(charge);
                self.prefer_cleanup = true;
                let stops = match step {
                    PrivateOrderedStep::Deferred { sequence, watched } => {
                        if !watched {
                            self.progress.unwatched = Some(sequence);
                        }
                        !watched
                    },
                    PrivateOrderedStep::Resumed { sequence, watched, deferred } => {
                        if !deferred {
                            self.count_refusal(last_refused, sequence);
                        }
                        if !watched {
                            self.progress.unwatched = Some(sequence);
                        }
                        !watched
                    },
                    PrivateOrderedStep::Idle => {
                        if self.cleanup_idle {
                            return self.stop();
                        }
                        return PrivateTurnAction::Round;
                    },
                    PrivateOrderedStep::Blocked(sequence) => {
                        self.progress.blocked = Some(sequence);
                        true
                    },
                    PrivateOrderedStep::Parked(sequence) => {
                        self.progress.blocked = Some(sequence);
                        true
                    },
                    PrivateOrderedStep::Unwatched(sequence) => {
                        self.progress.unwatched = Some(sequence);
                        self.progress.blocked = Some(sequence);
                        true
                    },
                    PrivateOrderedStep::Routed(sequence) => {
                        self.progress.routed = self.progress.routed + 1;
                        self.progress.last_routed = Some(sequence);
                        false
                    },
                    PrivateOrderedStep::RoutedUnwatched(sequence) => {
                        self.progress.routed = self.progress.routed + 1;
                        self.progress.last_routed = Some(sequence);
                        self.progress.unwatched = Some(sequence);
                        true
                    },
                    PrivateOrderedStep::Decided(sequence) => {
                        self.count_refusal(last_refused, sequence);
                        false
                    },
                    PrivateOrderedStep::DecidedUnwatched(sequence) => {
                        self.count_refusal(last_refused, sequence);
                        self.progress.unwatched = Some(sequence);
                        true
                    },
                };
                if stops || overran {
                    return self.stop();
                }
                PrivateTurnAction::Round
            },
        }
    }

    fn count_refusal(&mut self, last_refused: Option<(u64, F)>, sequence: u64)
        requires
            old(self)@.progress.refused < usize::MAX,
        ensures
            final(self)@ == (TurnView {
                progress: refusal_counted(old(self)@.progress, last_refused, sequence),
                ..old(self)@
            }),
    {
        match last_refused {
            Some((stored, refusal)) => {
                if stored == sequence {
                    self.progress.refused = self.progress.refused + 1;
                    self.progress.last_refusal = Some(refusal);
                }
            },
            None => {},
        }
    }

    /// Account the reclamation visit an idle turn gets; the turn is then over.
    pub fn reclaimed(&mut self, outcome: PrivateAccountedReclaim<C>) -> (r: PrivateTurnAction)
        requires
            outcome is Visited ==> old(self)@.progress.starts < usize::MAX,
        ensures
            r == PrivateTurnAction::Finish,
            outcome is Visited ==> final(self)@.progress.starts == old(self)@.progress.starts + 1,
            outcome is Visited && !advanced_spec(old(self)@.progress) ==> final(self)@.progress.starts == 1,
            final(self)@ == (TurnView {
                progress: match outcome {
                    PrivateAccountedReclaim::Idle => old(self)@.progress,
                    PrivateAccountedReclaim::Yield { cause } => PrivateRunnerProgress {
                        reclaim_refusal: Some(cause),
                        ..old(self)@.progress
                    },
                    PrivateAccountedReclaim::Visited { observed, reclaimed, charge, unwatched } => charge_recorded(
                        PrivateRunnerProgress {
                            reclaim_observed: observed,
                            reclaimed,
                            reclaim_unwatched: unwatched,
                            ..old(self)@.progress
                        },
                        Some(charge),
                    ),
                },
                ..old(self)@
            }),
    {
        match outcome {
            PrivateAccountedReclaim::Idle => {},
            PrivateAccountedReclaim::Yield { cause } => {
                self.progress.reclaim_refusal = Some(cause);
            },
            PrivateAccountedReclaim::Visited { observed, reclaimed, charge, unwatched } => {
                self.progress.reclaim_observed = observed;
                self.progress.reclaimed = reclaimed;
                self.progress.reclaim_unwatched = unwatched;
                self.progress.record_charge(Some(charge));
            },
        }
        PrivateTurnAction::Finish
    }

    /// End the turn: its progress, naming the order's own blocking sequence
    /// when the turn stopped on nothing else, and whether the next turn
    /// prefers cleanup.
    pub fn finish(self, order_blocked: Option<u64>) -> (r: (PrivateRunnerProgress<C, F>, bool))
        ensures
            r.0 == (PrivateRunnerProgress {
                blocked: if self@.progress.blocked is Some {
                    self@.progress.blocked
                } else {
                    order_blocked
                },
                ..self@.progress
            }),
            r.1 == self@.prefer_cleanup,
    {
        let mut progress = self.progress;
        if progress.blocked.is_none() {
            progress.blocked = order_blocked;
        }
        (progress, self.prefer_cleanup)
    }
}

/// What one accounted cleanup step reports, once the terminal step, its
/// admission and its supervision have all answered. A charge that could not
/// be finished is an error before anything else. A refused admission is a
/// yield naming what was chosen. A step that ran is reported with its charge
/// and supervision; one that failed because its supervisor would not take it
/// is reported blocked on the entry it named, or idle when it named none (the
/// failure happened at admission, so nothing was taken).
pub fn accounted_delivery<C, Q, E>(
    charge: Result<Option<PrivateServiceCharge>, E>,
    refused: Option<C>,
    chosen: Option<u64>,
    result: Result<PrivateDeliveryStep<PrivateDelivered<Q>>, E>,
    watch_failed: bool,
    unwatched: Option<u64>,
) -> (r: Result<PrivateAccountedDelivery<C, Q>, E>)
    ensures
        charge is Err ==> r is Err,
        charge matches Ok(c) ==> match refused {
            Some(cause) => r matches Ok(PrivateAccountedDelivery::Yield { cause: y, taken }) && y == cause && taken
                == chosen,
            None => match result {
                Ok(step) => r matches Ok(PrivateAccountedDelivery::Step { step: s, charge: k, watch_failed: w, unwatched: u })
                    && s == step && k == c && w == watch_failed && u == unwatched,
                Err(_) => if unwatched is Some {
                    r matches Ok(PrivateAccountedDelivery::Step { step: s, charge: k, watch_failed: w, unwatched: u })
                        && s == PrivateDeliveryStep::<PrivateDelivered<Q>>::Blocked(unwatched.unwrap()) && k == c
                        && w == watch_failed && u == unwatched
                } else if watch_failed {
                    r matches Ok(PrivateAccountedDelivery::Step { step: s, charge: k, watch_failed: w, unwatched: u })
                        && s == PrivateDeliveryStep::<PrivateDelivered<Q>>::Idle && k == c && w && u is None
                } else {
                    r is Err
                },
            },
        },
{
    let charge = match charge {
        Ok(charge) => charge,
        Err(e) => return Err(e),
    };
    match refused {
        Some(cause) => return Ok(PrivateAccountedDelivery::Yield { cause, taken: chosen }),
        None => {},
    }
    let step = match result {
        Ok(step) => step,
        Err(e) => match unwatched {
            Some(sequence) => PrivateDeliveryStep::Blocked(sequence),
            None => if watch_failed {
                PrivateDeliveryStep::Idle
            } else {
                return Err(e);
            },
        },
    };
    Ok(PrivateAccountedDelivery::Step { step, charge, watch_failed, unwatched })
}

/// What one accounted new-work step reports, once the ordered step and its
/// admission have answered. A charge that could not be finished is an error
/// first. A refused admission is a yield naming what was taken, unless the
/// current item froze, which was never taken from this step's point of view.
/// Otherwise the ordered step's own answer stands, with its charge.
pub fn accounted_step<C, E>(
    charge: Result<Option<PrivateServiceCharge>, E>,
    refused: Option<C>,
    cleanup_reserved: bool,
    taken: Option<u64>,
    current_frozen: bool,
    result: Result<PrivateOrderedStep, E>,
) -> (r: Result<PrivateAccountedStep<C>, E>)
    ensures
        charge is Err ==> r is Err,
        charge matches Ok(c) ==> match refused {
            Some(cause) => r matches Ok(PrivateAccountedStep::Yield { cause: y, taken: t, cleanup_reserved: k })
                && y == cause && k == cleanup_reserved && t == (if current_frozen {
                None
            } else {
                taken
            }),
            None => match result {
                Ok(step) => r matches Ok(PrivateAccountedStep::Step { step: s, charge: k }) && s == step && k == c,
                Err(_) => r is Err,
            },
        },
{
    let charge = match charge {
        Ok(charge) => charge,
        Err(e) => return Err(e),
    };
    match refused {
        Some(cause) => {
            let taken = if current_frozen {
                None
            } else {
                taken
            };
            return Ok(PrivateAccountedStep::Yield { cause, taken, cleanup_reserved });
        },
        None => {},
    }
    match result {
        Ok(step) => Ok(PrivateAccountedStep::Step { step, charge }),
        Err(e) => Err(e),
    }
}

/// A turn stops on its start bound: once as many starts were charged as the
/// turn allows, no round begins, and an idle turn is given its reclamation.
pub proof fn law_turn_stops_at_its_start_bound<C, F>(v: TurnView<C, F>)
    requires
        v.progress.starts >= v.turn_starts,
    ensures
        ending(v.progress) == PrivateTurnAction::Finish || ending(v.progress) == PrivateTurnAction::Reclaim,
        v.progress.starts > 0 ==> ending(v.progress) == PrivateTurnAction::Finish,
{
}

/// Reclamation is given only to a turn that moved nothing, and a visit
/// spends exactly one cleanup start: after it the turn has taken, routed,
/// dispatched and settled nothing, and has charged one start.
pub proof fn law_reclamation_spends_one_start_on_an_idle_turn<C, F>(
    p: PrivateRunnerProgress<C, F>,
    charge: PrivateServiceCharge,
)
    requires
        ending(p) == PrivateTurnAction::Reclaim,
    ensures
        p.starts == 0 && p.taken == 0 && p.terminal_steps == 0 && p.routed == 0 && p.dispatched == 0
            && p.recipient_settled == 0,
        charge_recorded(p, Some(charge)).starts == 1,
{
}

} // verus!
