// One turn of the shared order, and what it still owes afterwards.
//
// The order hands out one item per step. An item taken is stored here before
// anything else may run, so work the order gave out is never only in a local.
// An operation this path does not execute is parked where it sits, and the
// order stays blocked behind it until its disposition is established: a step
// that merely stopped would let the next one overtake exactly the operation
// it stopped for.
//
// A control or lease release is executed from the order. Its identity goes to
// the outstanding list immediately before its effect runs and never after, so
// an interrupted effect still owes its credit exactly once.
use vstd::prelude::*;
use crate::settlement::{identity_spec, PrivateIdentity, PrivateOperation, PrivateRun};

verus! {

/// Where a control may interrupt a routing attempt, in test builds.
#[derive(Debug, Clone, Copy, PartialEq, Eq)]
pub enum PrivateRoutingPoint {
    /// Admitted and in custody, the watchdog begun, the effect not yet run.
    AfterAdmitted,
    /// The effect ran and answered; its summary is not yet recorded.
    AfterEffect,
}

/// The execution result and custody one ordered item exposes to its caller.
pub enum PrivateOrderedItem<W> {
    /// The work ran and decided; `work` is its custody and route.
    Ran { sequence: u64, work: W },
    /// The consumer refused, and the work it was accepted for comes back.
    Refused { sequence: u64, work: W },
    /// An earlier operation this path does not execute, parked where it
    /// sits. The report names it; it does not hand it over.
    Parked { sequence: u64 },
}

impl<W> PrivateOrderedItem<W> {
    /// The position the order gave an item.
    pub open spec fn sequence_of(&self) -> u64 {
        match self {
            PrivateOrderedItem::Ran { sequence, .. } => *sequence,
            PrivateOrderedItem::Refused { sequence, .. } => *sequence,
            PrivateOrderedItem::Parked { sequence } => *sequence,
        }
    }

    /// Where this item stood in the order. Every kind has one.
    pub fn sequence(&self) -> (r: u64)
        ensures
            r == self.sequence_of(),
    {
        match self {
            PrivateOrderedItem::Ran { sequence, .. } => *sequence,
            PrivateOrderedItem::Refused { sequence, .. } => *sequence,
            PrivateOrderedItem::Parked { sequence } => *sequence,
        }
    }
}

/// What one bounded step of the ordered path did. Carries a sequence and
/// never an item.
#[derive(Debug, Clone, Copy, PartialEq, Eq, Structural)]
pub enum PrivateOrderedStep {
    /// The item's own custody moved to the frozen owner without a completion.
    Deferred { sequence: u64, watched: bool },
    /// A bounded visit of an already accepted request, never a new dequeue.
    Resumed { sequence: u64, deferred: bool, watched: bool },
    /// The order had nothing waiting.
    Idle,
    /// The order is blocked behind an earlier operation whose disposition is
    /// not established. Nothing was taken.
    Blocked(u64),
    /// One item was taken, decided, and stored in the turn.
    Decided(u64),
    /// Decided, but the supervisor would not take the finish.
    DecidedUnwatched(u64),
    /// Taken but not run, because nothing would watch it. The work is owned,
    /// un-attempted, and the order is blocked on it.
    Unwatched(u64),
    /// Taken, not executed by this path, and parked. The order is blocked.
    Parked(u64),
    /// A control or lease release was taken, watched and its effect run.
    /// Routed is not answered: its credit stays outstanding.
    Routed(u64),
    /// Routed, but the supervisor would not take the finish.
    RoutedUnwatched(u64),
}

/// Why a step could not be taken.
#[derive(Debug, Clone, Copy, PartialEq, Eq)]
pub enum PrivateOrderError<E> {
    /// An item an interrupted turn left owned still blocks the order.
    OrderedItemUnresolved,
    /// The order's record could not be read.
    RegistryPoisoned,
    /// An effect refused, with its own reason.
    Effect(E),
}

/// The effects a step reaches outside the order's own state: the shared
/// queue, the accounting hook, the supervisor, the registry, and the
/// execution of the item held as current.
///
/// Their answers are their own; where a contract depends on one, it names
/// the answer the effect gave.
pub trait PrivateOrderedEffects<W, E> {
    /// Whether this step goes to deferred frozen work first.
    fn frozen_first(&mut self) -> bool;

    /// Resume deferred frozen work.
    fn resume_frozen(&mut self) -> Result<PrivateOrderedStep, E>;

    /// Take the next item from the shared order: its sequence, the
    /// operation, and for routed input the custody its reservation became.
    /// `Err` when the order's record is unreadable.
    fn take_next(&mut self) -> Result<Option<(u64, PrivateOperation, Option<W>)>, ()>;

    /// Offer the dequeue to the accounting hook, which may refuse it.
    fn start(&self, sequence: u64) -> Result<(), E>;

    /// Begin the supervisor's watch of a dequeued operation.
    fn begin_watch(&mut self) -> bool;

    /// Run a control or lease release's effect in the registry.
    fn run_one(&mut self, operation: PrivateOperation) -> Result<(), E>;

    /// Ask the supervisor to take the finish of a watched operation.
    fn finish_watch(&mut self) -> bool;

    /// Execute the item held as current, storing what it decided in the
    /// turn.
    fn execute_current(
        &mut self,
        current: &mut Option<PrivateOrderedItem<W>>,
        turn: &mut Vec<PrivateOrderedItem<W>>,
        sequence: u64,
    ) -> Result<PrivateOrderedStep, E>;
}

/// One control or lease-release operation being routed from the order.
#[derive(Clone, Copy)]
struct PrivateRoutingAttempt {
    sequence: u64,
    identity: PrivateIdentity,
    /// The operation until the effect takes it.
    operation: Option<PrivateOperation>,
    /// True from the moment the effect may have begun.
    attempted: bool,
}

/// What the order has given out and not yet seen answered.
pub struct PrivateOrderGate<W> {
    current: Option<PrivateOrderedItem<W>>,
    routing: Option<PrivateRoutingAttempt>,
    parked: Option<(u64, PrivateOperation)>,
    barrier: Option<u64>,
    outstanding: Vec<PrivateIdentity>,
    turn: Vec<PrivateOrderedItem<W>>,
}

/// A routing attempt as it can be read: sequence, identity, the operation
/// while still held, and whether the effect may have begun.
pub ghost struct PrivateRoutingView {
    pub sequence: u64,
    pub identity: PrivateIdentity,
    pub operation: Option<PrivateOperation>,
    pub attempted: bool,
}

/// The order's state as it can be read.
pub ghost struct PrivateOrderView<W> {
    pub current: Option<PrivateOrderedItem<W>>,
    pub routing: Option<PrivateRoutingView>,
    pub parked: Option<(u64, PrivateOperation)>,
    pub barrier: Option<u64>,
    pub outstanding: Seq<PrivateIdentity>,
    pub turn: Seq<PrivateOrderedItem<W>>,
}

/// The sequence a parked operation holds.
pub open spec fn parked_sequence(parked: Option<(u64, PrivateOperation)>) -> u64 {
    match parked {
        Some((sequence, _)) => sequence,
        None => 0,
    }
}

/// Whether an operation is one this path routes rather than parks.
pub open spec fn routed_kind(operation: PrivateOperation) -> bool {
    !(operation is RoutedInput)
}

impl<W> View for PrivateOrderGate<W> {
    type V = PrivateOrderView<W>;

    closed spec fn view(&self) -> PrivateOrderView<W> {
        PrivateOrderView {
            current: self.current,
            routing: match self.routing {
                Some(a) => Some(
                    PrivateRoutingView {
                        sequence: a.sequence,
                        identity: a.identity,
                        operation: a.operation,
                        attempted: a.attempted,
                    },
                ),
                None => None,
            },
            parked: self.parked,
            barrier: self.barrier,
            outstanding: self.outstanding@,
            turn: self.turn@,
        }
    }
}

/// The order as the unprepared route drains it: each item with the class
/// it was published in, and the effect that runs it.
///
/// The answers are the order's and the registry's own.
pub trait PrivateUnorderedSource<E> {
    /// Take the next item: its sequence, its class and the operation. `Err`
    /// when the order's record is unreadable.
    fn take_next_classed(&mut self) -> Result<Option<(u64, u8, PrivateOperation)>, ()>;

    /// Run one operation's effect, whichever order it came from.
    fn run_one(&mut self, operation: PrivateOperation) -> Result<(), E>;
}

/// Why the unprepared route would not drain the order.
#[derive(Debug, Clone, Copy, PartialEq, Eq)]
pub enum PrivateRouteRefusal<E> {
    /// The lease presented is not on this service's owner.
    ForeignServiceOwner,
    /// A reserving producer is exposed: the ordered consumer owns the order.
    OrderedRunnerEngaged,
    /// The order's record could not be read.
    RegistryPoisoned,
    /// An effect failed; its operation is consumed and its credit recorded
    /// as outstanding.
    Route(E),
}

/// The identities of a sequence of runs, in order.
pub open spec fn run_identities(ran: Seq<PrivateRun>) -> Seq<PrivateIdentity> {
    ran.map_values(|r: PrivateRun| r.identity)
}

/// What the accounting hook answered when offered the dequeue of
/// `sequence`.
pub open spec fn start_answered<W, E, T: PrivateOrderedEffects<W, E>>(
    effects: T,
    sequence: u64,
    answer: Result<(), E>,
) -> bool {
    call_ensures(T::start, (&effects, sequence), answer)
}

/// Operation `sequence`, taken out of the order, is stored in `post`, and
/// nothing else changed from `pre`: as current, with the reservation it
/// brought, or parked behind the barrier it raised.
pub open spec fn stored_here<W>(pre: PrivateOrderView<W>, post: PrivateOrderView<W>, sequence: u64) -> bool {
    ||| exists|work: W| post == (PrivateOrderView {
        current: Some(PrivateOrderedItem::Refused { sequence, work }),
        ..pre
    })
    ||| exists|operation: PrivateOperation| post == (PrivateOrderView {
        parked: Some((sequence, operation)),
        barrier: Some(sequence),
        ..pre
    })
}

impl<W> PrivateOrderGate<W> {
    /// An order that has given nothing out.
    pub fn new() -> (r: Self)
        ensures
            r@.current is None,
            r@.routing is None,
            r@.parked is None,
            r@.barrier is None,
            r@.outstanding == Seq::<PrivateIdentity>::empty(),
            r@.turn == Seq::<PrivateOrderedItem<W>>::empty(),
    {
        PrivateOrderGate {
            current: None,
            routing: None,
            parked: None,
            barrier: None,
            outstanding: Vec::new(),
            turn: Vec::new(),
        }
    }

    /// The routing attempt in custody, if any: its sequence, identity and
    /// whether its effect may have begun. Read, never taken.
    pub fn routing_attempt(&self) -> (r: Option<(u64, PrivateIdentity, bool)>)
        ensures
            match self@.routing {
                Some(a) => r == Some((a.sequence, a.identity, a.attempted)),
                None => r is None,
            },
    {
        match &self.routing {
            Some(attempt) => Some((attempt.sequence, attempt.identity, attempt.attempted)),
            None => None,
        }
    }

    /// What an earlier turn parked, if anything. Seeing it is not disposing
    /// of it.
    pub fn parked(&self) -> (r: Option<u64>)
        ensures
            match self@.parked {
                Some(p) => r == Some(p.0),
                None => r is None,
            },
    {
        match &self.parked {
            Some((sequence, _)) => Some(*sequence),
            None => None,
        }
    }

    /// Whether the order is still blocked on an earlier operation: true
    /// while its disposition is unestablished, whether or not the operation
    /// itself has been handed to an owner.
    pub fn blocked(&self) -> (r: Option<u64>)
        ensures
            r == self@.barrier,
    {
        self.barrier
    }

    /// Take the parked operation into an owner's hands.
    ///
    /// This moves the operation; it does not establish what becomes of it,
    /// and the order stays blocked.
    pub fn take_parked(&mut self) -> (r: Option<(u64, PrivateOperation)>)
        ensures
            r == old(self)@.parked,
            final(self)@ == (PrivateOrderView { parked: None, ..old(self)@ }),
    {
        let r = self.parked;
        self.parked = None;
        r
    }

    /// Recover the items of a turn that ended in an error. They are not
    /// re-run: what applied has applied, and they carry their custody.
    pub fn take_interrupted_turn(&mut self) -> (r: Vec<PrivateOrderedItem<W>>)
        ensures
            r@ == old(self)@.turn,
            final(self)@ == (PrivateOrderView { turn: Seq::empty(), ..old(self)@ }),
    {
        let mut taken: Vec<PrivateOrderedItem<W>> = Vec::new();
        std::mem::swap(&mut taken, &mut self.turn);
        taken
    }

    /// The identities routed from the order and not yet seen answered.
    /// Drain the order without the ordered consumer, running each item as
    /// it comes, at most `budget` of them: bounded by what the order may hand
    /// out in one turn, not by when producers stop. Only on this service's
    /// own lease (`leased`), and never while a reserving producer is exposed
    /// (`ordered_runner`).
    ///
    /// Each run's identity becomes outstanding whether its effect succeeded
    /// or not: routed or enqueued is not answered, and a failed effect has
    /// consumed its operation, so its credit must not look released.
    pub fn route_pending<E, S: PrivateUnorderedSource<E>>(
        &mut self,
        source: &mut S,
        leased: bool,
        ordered_runner: bool,
        budget: usize,
    ) -> (r: Result<Vec<PrivateRun>, PrivateRouteRefusal<E>>)
        ensures
            final(self)@.current == old(self)@.current,
            final(self)@.routing == old(self)@.routing,
            final(self)@.parked == old(self)@.parked,
            final(self)@.barrier == old(self)@.barrier,
            final(self)@.turn == old(self)@.turn,
            !leased ==> (r matches Err(PrivateRouteRefusal::ForeignServiceOwner)) && final(self)@ == old(self)@,
            leased && ordered_runner ==> (r matches Err(PrivateRouteRefusal::OrderedRunnerEngaged))
                && final(self)@ == old(self)@,
            r matches Ok(ran) ==> leased && !ordered_runner && ran@.len() <= budget
                && final(self)@.outstanding == old(self)@.outstanding + run_identities(ran@),
            r matches Err(PrivateRouteRefusal::Route(_)) ==> final(self)@.outstanding.len()
                > old(self)@.outstanding.len(),
            old(self)@.outstanding.is_prefix_of(final(self)@.outstanding),
    {
        if !leased {
            return Err(PrivateRouteRefusal::ForeignServiceOwner);
        }
        if ordered_runner {
            return Err(PrivateRouteRefusal::OrderedRunnerEngaged);
        }
        let ghost before = self.outstanding@;
        let mut ran: Vec<PrivateRun> = Vec::new();
        while ran.len() < budget
            invariant
                leased,
                !ordered_runner,
                ran@.len() <= budget,
                self.outstanding@ == before + run_identities(ran@),
                self.current == old(self).current,
                self.routing == old(self).routing,
                self.parked == old(self).parked,
                self.barrier == old(self).barrier,
                self.turn == old(self).turn,
                before == old(self).outstanding@,
            decreases budget - ran@.len(),
        {
            let next = match source.take_next_classed() {
                Ok(next) => next,
                Err(()) => {
                    proof {
                        assert(before.is_prefix_of(self.outstanding@));
                    }
                    return Err(PrivateRouteRefusal::RegistryPoisoned);
                },
            };
            let (sequence, class, operation) = match next {
                Some(item) => item,
                None => {
                    break;
                },
            };
            let identity = PrivateIdentity::of(&operation);
            match source.run_one(operation) {
                Ok(()) => {
                    self.outstanding.push(identity);
                },
                Err(error) => {
                    self.outstanding.push(identity);
                    proof {
                        assert(before.is_prefix_of(self.outstanding@));
                    }
                    return Err(PrivateRouteRefusal::Route(error));
                },
            }
            let ghost prior = ran@;
            ran.push(PrivateRun { sequence, class, identity });
            proof {
                assert(run_identities(ran@) =~= run_identities(prior).push(identity));
                assert(self.outstanding@ =~= before + run_identities(ran@));
            }
        }
        proof {
            assert(before.is_prefix_of(self.outstanding@));
        }
        Ok(ran)
    }

    pub fn outstanding(&self) -> (r: &Vec<PrivateIdentity>)
        ensures
            r@ == self@.outstanding,
    {
        &self.outstanding
    }

    /// Hold an item as the current one, for the execution that decides it.
    pub fn store_current(&mut self, item: PrivateOrderedItem<W>)
        ensures
            final(self)@ == (PrivateOrderView { current: Some(item), ..old(self)@ }),
    {
        self.current = Some(item);
    }

    /// Take the current item out, once it is decided.
    pub fn take_current(&mut self) -> (r: Option<PrivateOrderedItem<W>>)
        ensures
            r == old(self)@.current,
            final(self)@ == (PrivateOrderView { current: None, ..old(self)@ }),
    {
        let mut taken: Option<PrivateOrderedItem<W>> = None;
        std::mem::swap(&mut taken, &mut self.current);
        taken
    }

    /// Store a decided item in the turn.
    pub fn push_turn(&mut self, item: PrivateOrderedItem<W>)
        ensures
            final(self)@ == (PrivateOrderView { turn: old(self)@.turn.push(item), ..old(self)@ }),
    {
        self.turn.push(item);
    }

    /// Store what the order gave out, before anything else may run.
    ///
    /// Routed input with its reservation becomes the current item, refused
    /// as not yet attempted; routed input without one is parked and reported
    /// parked; a control or lease release is parked with the barrier up until
    /// the step admits and routes it.
    pub fn hold(&mut self, sequence: u64, operation: PrivateOperation, reservation: Option<W>) -> (r: Option<
        PrivateOrderedStep,
    >)
        requires
            old(self)@.current is None,
            old(self)@.routing is None,
        ensures
            final(self)@.outstanding == old(self)@.outstanding,
            final(self)@.turn == old(self)@.turn,
            final(self)@.routing is None,
            routed_kind(operation) ==> r is None && final(self)@ == (PrivateOrderView {
                parked: Some((sequence, operation)),
                barrier: Some(sequence),
                ..old(self)@
            }),
            !routed_kind(operation) && reservation is None ==> r == Some(PrivateOrderedStep::Parked(sequence))
                && final(self)@ == (PrivateOrderView {
                parked: Some((sequence, operation)),
                barrier: Some(sequence),
                ..old(self)@
            }),
            !routed_kind(operation) && reservation is Some ==> r is None && final(self)@ == (PrivateOrderView {
                current: Some(PrivateOrderedItem::Refused { sequence, work: reservation->0 }),
                ..old(self)@
            }),
    {
        if routed(&operation) {
            self.parked = Some((sequence, operation));
            self.barrier = Some(sequence);
            return None;
        }
        match reservation {
            Some(work) => {
                self.current = Some(PrivateOrderedItem::Refused { sequence, work });
                None
            },
            None => {
                self.parked = Some((sequence, operation));
                self.barrier = Some(sequence);
                Some(PrivateOrderedStep::Parked(sequence))
            },
        }
    }

    /// Move the parked operation into an owned routing attempt, not yet
    /// attempted. Returns its identity.
    fn admit_routing(&mut self) -> (identity: PrivateIdentity)
        requires
            old(self)@.parked is Some,
            old(self)@.routing is None,
        ensures
            ({
                let (sequence, operation) = old(self)@.parked->0;
                &&& identity == identity_spec(operation)
                &&& final(self)@ == (PrivateOrderView {
                    parked: None,
                    routing: Some(
                        PrivateRoutingView { sequence, identity, operation: Some(operation), attempted: false },
                    ),
                    ..old(self)@
                })
            }),
    {
        let (sequence, operation) = self.parked.unwrap();
        self.parked = None;
        let identity = PrivateIdentity::of(&operation);
        self.routing = Some(PrivateRoutingAttempt { sequence, identity, operation: Some(operation), attempted: false });
        identity
    }

    /// The effect may begin: mark the attempt attempted and its identity
    /// outstanding together, and hand the operation to the effect.
    fn attempt(&mut self) -> (operation: PrivateOperation)
        requires
            old(self)@.routing matches Some(a) && a.operation is Some && !a.attempted,
        ensures
            operation == old(self)@.routing->0.operation->0,
            final(self)@ == (PrivateOrderView {
                routing: Some(
                    PrivateRoutingView { operation: None, attempted: true, ..old(self)@.routing->0 },
                ),
                outstanding: old(self)@.outstanding.push(old(self)@.routing->0.identity),
                ..old(self)@
            }),
    {
        let attempt = self.routing.unwrap();
        let operation = attempt.operation.unwrap();
        self.routing = Some(
            PrivateRoutingAttempt { sequence: attempt.sequence, identity: attempt.identity, operation: None, attempted: true },
        );
        self.outstanding.push(attempt.identity);
        operation
    }

    /// The attempt is over either way: the operation was consumed. The
    /// barrier comes down with it.
    fn finish_routing(&mut self)
        ensures
            final(self)@ == (PrivateOrderView { routing: None, barrier: None, ..old(self)@ }),
    {
        self.routing = None;
        self.barrier = None;
    }

    /// Take the next operation out of the order and store it here before
    /// the accounting hook is offered it: current when it brings its own
    /// reservation, parked behind the barrier otherwise. `None` when the
    /// order had nothing. A hook that refuses leaves the operation stored.
    pub fn take_and_start<E, T: PrivateOrderedEffects<W, E>>(&mut self, effects: &mut T) -> (r: Result<
        Option<(u64, Option<PrivateOrderedStep>)>,
        PrivateOrderError<E>,
    >)
        requires
            old(self)@.current is None,
            old(self)@.routing is None,
        ensures
            final(self)@.outstanding == old(self)@.outstanding,
            final(self)@.turn == old(self)@.turn,
            final(self)@.routing is None,
            r == Err::<Option<(u64, Option<PrivateOrderedStep>)>, PrivateOrderError<E>>(
                PrivateOrderError::RegistryPoisoned,
            ) ==> final(self)@ == old(self)@,
            r == Ok::<Option<(u64, Option<PrivateOrderedStep>)>, PrivateOrderError<E>>(None) ==> final(self)@
                == old(self)@,
            r matches Err(PrivateOrderError::Effect(e)) ==> exists|sequence: u64|
                #[trigger] stored_here(old(self)@, final(self)@, sequence) && start_answered(
                    *final(effects),
                    sequence,
                    Err::<(), E>(e),
                ),
            r matches Ok(Some(taken)) ==> stored_here(old(self)@, final(self)@, taken.0) && start_answered(
                *final(effects),
                taken.0,
                Ok::<(), E>(()),
            ),
            (r is Ok && r->Ok_0 is Some && (r->Ok_0->0).1 is None && final(self)@.current is None) ==> (
            final(self)@.parked is Some && routed_kind((final(self)@.parked->0).1)),
            (r is Ok && r->Ok_0 is Some && (r->Ok_0->0).1 is Some) ==> (r->Ok_0->0).1 == Some(
                PrivateOrderedStep::Parked((r->Ok_0->0).0),
            ),
            r is Err ==> r == Err::<Option<(u64, Option<PrivateOrderedStep>)>, PrivateOrderError<E>>(
                PrivateOrderError::RegistryPoisoned,
            ) || r->Err_0 is Effect,
    {
        let next = match effects.take_next() {
            Ok(next) => next,
            Err(()) => {
                return Err(PrivateOrderError::RegistryPoisoned);
            },
        };
        let (sequence, operation, reservation) = match next {
            Some(taken) => taken,
            None => {
                return Ok(None);
            },
        };
        let ghost pre = self@;
        let parked_step = self.hold(sequence, operation, reservation);
        proof {
            if routed_kind(operation) || reservation is None {
                assert(self@ == (PrivateOrderView {
                    parked: Some((sequence, operation)),
                    barrier: Some(sequence),
                    ..pre
                }));
            } else {
                assert(self@ == (PrivateOrderView {
                    current: Some(PrivateOrderedItem::Refused { sequence, work: reservation->0 }),
                    ..pre
                }));
            }
            assert(stored_here(pre, self@, sequence));
        }
        let offer = T::start;
        let started = offer(&*effects, sequence);
        assert(start_answered(*effects, sequence, started));
        match started {
            Ok(unit) => {
                assert(unit == ());
            },
            Err(refused) => {
                return Err(PrivateOrderError::Effect(refused));
            },
        }
        Ok(Some((sequence, parked_step)))
    }

    /// Take one item from the order, account for it, and execute it.
    ///
    /// An item an interrupted turn left owned refuses the step; an earlier
    /// parked operation blocks it with nothing taken. The item taken is
    /// stored before the accounting hook may refuse, so a refusal there
    /// leaves it owned here. A control or lease release is watched while
    /// still parked, then routed: its identity goes outstanding immediately
    /// before its effect, and the barrier comes down once the effect
    /// returned.
    pub fn step_once_accounted<E, T: PrivateOrderedEffects<W, E>>(&mut self, effects: &mut T) -> (r: Result<
        PrivateOrderedStep,
        PrivateOrderError<E>,
    >)
        ensures
            old(self)@.current is Some || old(self)@.routing is Some ==> r == Err::<
                PrivateOrderedStep,
                PrivateOrderError<E>,
            >(PrivateOrderError::OrderedItemUnresolved) && final(self)@ == old(self)@,
            old(self)@.current is None && old(self)@.routing is None && old(self)@.barrier is Some ==> r
                == Ok::<PrivateOrderedStep, PrivateOrderError<E>>(
                PrivateOrderedStep::Blocked(old(self)@.barrier->0),
            ) && final(self)@ == old(self)@,
            final(self)@.outstanding == old(self)@.outstanding || exists|operation: PrivateOperation|
                #[trigger] routed_kind(operation) && final(self)@.outstanding == old(self)@.outstanding.push(
                    identity_spec(operation),
                ),
            final(self)@.outstanding != old(self)@.outstanding ==> final(self)@.barrier is None
                && final(self)@.routing is None && final(self)@.parked is None,
            old(self)@.barrier is None && final(self)@.barrier is Some ==> (final(self)@.parked matches Some(p)
                && p.0 == final(self)@.barrier->0),
            final(self)@.parked is Some && old(self)@.parked is None ==> final(self)@.barrier == Some(
                parked_sequence(final(self)@.parked),
            ),
    {
        if self.current.is_some() || self.routing.is_some() {
            return Err(PrivateOrderError::OrderedItemUnresolved);
        }
        match self.barrier {
            Some(sequence) => {
                return Ok(PrivateOrderedStep::Blocked(sequence));
            },
            None => {},
        }
        if effects.frozen_first() {
            return match effects.resume_frozen() {
                Ok(step) => Ok(step),
                Err(refused) => Err(PrivateOrderError::Effect(refused)),
            };
        }
        let (sequence, parked_step) = match self.take_and_start(effects) {
            Ok(Some(taken)) => taken,
            Ok(None) => {
                return match effects.resume_frozen() {
                    Ok(step) => Ok(step),
                    Err(refused) => Err(PrivateOrderError::Effect(refused)),
                };
            },
            Err(e) => {
                return Err(e);
            },
        };
        match parked_step {
            Some(step) => {
                return Ok(step);
            },
            None => {},
        }
        let parked_here = match &self.parked {
            Some((parked_sequence, _)) => *parked_sequence == sequence,
            None => false,
        };
        if self.current.is_none() && parked_here {
            if !effects.begin_watch() {
                return Ok(PrivateOrderedStep::Unwatched(sequence));
            }
            let ghost before = self@;
            self.admit_routing();
            let operation = self.attempt();
            let routed_result = effects.run_one(operation);
            self.finish_routing();
            proof {
                assert(routed_kind(operation));
                assert(self@.outstanding == before.outstanding.push(identity_spec(operation)));
            }
            return match routed_result {
                Ok(()) => {
                    if effects.finish_watch() {
                        Ok(PrivateOrderedStep::Routed(sequence))
                    } else {
                        Ok(PrivateOrderedStep::RoutedUnwatched(sequence))
                    }
                },
                Err(refused) => Err(PrivateOrderError::Effect(refused)),
            };
        }
        match effects.execute_current(&mut self.current, &mut self.turn, sequence) {
            Ok(step) => Ok(step),
            Err(refused) => Err(PrivateOrderError::Effect(refused)),
        }
    }

    /// Step until the budget is spent or the order stops offering work, and
    /// hand back what the turn decided.
    ///
    /// An order blocked, parked or unwatched ends the turn with that
    /// operation reported parked; an unwatched visit of deferred work ends
    /// it too. Bounded by the budget rather than by when producers stop.
    pub fn route_pending_ordered<E, T: PrivateOrderedEffects<W, E>>(&mut self, budget: usize, effects: &mut T) -> (r:
        Result<Vec<PrivateOrderedItem<W>>, PrivateOrderError<E>>)
        ensures
            r is Ok ==> final(self)@.turn == Seq::<PrivateOrderedItem<W>>::empty(),
            budget > 0 && (old(self)@.current is Some || old(self)@.routing is Some) ==> r == Err::<
                Vec<PrivateOrderedItem<W>>,
                PrivateOrderError<E>,
            >(PrivateOrderError::OrderedItemUnresolved) && final(self)@ == old(self)@,
            budget > 0 && old(self)@.current is None && old(self)@.routing is None && old(self)@.barrier is Some
                ==> r is Ok && r->Ok_0@ == old(self)@.turn.push(
                PrivateOrderedItem::Parked { sequence: old(self)@.barrier->0 },
            ),
    {
        let mut k: usize = 0;
        while k < budget
            invariant_except_break
                k <= budget,
                k == 0 ==> self@ == old(self)@,
                k > 0 ==> old(self)@.current is None && old(self)@.routing is None && old(self)@.barrier is None,
            ensures
                budget > 0 ==> old(self)@.current is None && old(self)@.routing is None,
                budget > 0 && old(self)@.current is None && old(self)@.routing is None && old(self)@.barrier is Some
                    ==> self@.turn == old(self)@.turn.push(
                    PrivateOrderedItem::Parked { sequence: old(self)@.barrier->0 },
                ),
            decreases budget - k,
        {
            let step = match self.step_once_accounted(effects) {
                Ok(step) => step,
                Err(refused) => {
                    return Err(refused);
                },
            };
            let (parked, stop) = turn_decision(step);
            match parked {
                Some(sequence) => {
                    self.turn.push(PrivateOrderedItem::Parked { sequence });
                },
                None => {},
            }
            if stop {
                break;
            }
            k = k + 1;
        }
        let mut taken: Vec<PrivateOrderedItem<W>> = Vec::new();
        std::mem::swap(&mut taken, &mut self.turn);
        Ok(taken)
    }
}

/// What a step means for an unaccounted turn: the sequence to report
/// parked, if any, and whether the turn ends.
pub open spec fn turn_decision_spec(step: PrivateOrderedStep) -> (Option<u64>, bool) {
    match step {
        PrivateOrderedStep::Idle => (None, true),
        PrivateOrderedStep::Blocked(s) => (Some(s), true),
        PrivateOrderedStep::Parked(s) => (Some(s), true),
        PrivateOrderedStep::Unwatched(s) => (Some(s), true),
        PrivateOrderedStep::Decided(_) => (None, false),
        PrivateOrderedStep::DecidedUnwatched(_) => (None, false),
        PrivateOrderedStep::Routed(_) => (None, false),
        PrivateOrderedStep::RoutedUnwatched(_) => (None, false),
        PrivateOrderedStep::Deferred { watched, .. } => (None, !watched),
        PrivateOrderedStep::Resumed { watched, .. } => (None, !watched),
    }
}

/// Decide what a step means for an unaccounted turn.
pub fn turn_decision(step: PrivateOrderedStep) -> (r: (Option<u64>, bool))
    ensures
        r == turn_decision_spec(step),
{
    match step {
        PrivateOrderedStep::Idle => (None, true),
        PrivateOrderedStep::Blocked(s) => (Some(s), true),
        PrivateOrderedStep::Parked(s) => (Some(s), true),
        PrivateOrderedStep::Unwatched(s) => (Some(s), true),
        PrivateOrderedStep::Decided(_) => (None, false),
        PrivateOrderedStep::DecidedUnwatched(_) => (None, false),
        PrivateOrderedStep::Routed(_) => (None, false),
        PrivateOrderedStep::RoutedUnwatched(_) => (None, false),
        PrivateOrderedStep::Deferred { watched, .. } => (None, !watched),
        PrivateOrderedStep::Resumed { watched, .. } => (None, !watched),
    }
}


/// Whether an operation is one this path routes.
fn routed(operation: &PrivateOperation) -> (r: bool)
    ensures
        r == routed_kind(*operation),
{
    match operation {
        PrivateOperation::RoutedInput { .. } => false,
        _ => true,
    }
}

} // verus!
