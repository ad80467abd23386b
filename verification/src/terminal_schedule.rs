// Which kind of terminal work one charged step goes to.
//
// Deliveries keep their order and their head; nothing here reorders them,
// replays one, or steps past the one in front. What is decided is only
// whether this step goes to a delivery or to native work, and among native
// work which class gets the visit. It is decided from retained counters: a
// chooser that looked only at the moment would give native work a turn
// exactly when the queues fell empty, which for a pointer in use is never.
use vstd::prelude::*;
use crate::terminal_inventory::PrivateTerminalBookkeeping;

verus! {

/// How many stalled press handovers pass before the visit goes to cleanup
/// instead: a press that cannot progress must not hold the only visit.
pub const PRIVATE_PRESS_STALL_ALLOWANCE: u8 = 2;

/// How many recording visits pass before dispatch is given a turn, when both
/// are owed.
pub const PRIVATE_NATIVE_CLASS_INTERVAL: u8 = 2;

/// How many delivery steps native work waits before it is given a turn of
/// its own while deliveries are still ready: a bound on waiting, not a share.
pub const PRIVATE_NATIVE_TURN_INTERVAL: u8 = 4;

/// Of every this many native turns, one may go to a terminated recipient.
pub const PRIVATE_TERMINATION_TURNS: u8 = 3;

/// What answering one receipt established: three different facts.
#[derive(Debug, Clone, Copy, PartialEq, Eq, Structural)]
pub enum PrivateReceiptStep {
    /// The recipient's half is settled; `debt_settled` is the ledger's own
    /// answer about the whole debt.
    Settled { debt_settled: bool },
    /// The attempt was returned with neither bit; the debt stays owed.
    ReturnedUnsettled,
    /// The ledger did not answer. Nothing changed.
    Unanswered,
}

/// What one terminal step did.
#[derive(Debug, Clone, Copy, PartialEq, Eq)]
pub enum PrivateDeliveryStep<D> {
    /// Nothing was waiting, and nothing owed a recording either.
    Idle,
    /// One delivery attempt was spent (or, `relinquished`, one given back).
    Dispatched { enqueued: bool, relinquished: bool },
    /// One receipt was answered against the debt it belongs to.
    Receipt { step: PrivateReceiptStep },
    /// One proof-recording visit was spent on one chosen release.
    Recorded { recorded: bool },
    /// Source receipt comparisons and exact joins.
    SharedActivation { observed: usize, joined: usize },
    /// One exact transient completion observed.
    TransientReceipt { disposed: bool },
    /// One completed native record or one of its dependencies visited.
    NativeDisposal { disposed: bool },
    /// The entry at the head cannot be described, so nothing may be done
    /// with it.
    Blocked(u64),
    /// Exactly one entry was disposed of, transferred or observed.
    Advanced { sequence: u64, report: Option<D> },
}

/// The terminal work a step can be given, and the charge that admits it.
///
/// Each answer is the work's own: nothing here states what a visit finds.
pub trait PrivateTerminalWork<D, E> {
    /// Charge and watch the step about to happen; a refusal leaves
    /// everything owned and untouched.
    fn start(&self, sequence: Option<u64>) -> Result<(), E>;

    /// Answer one waiting receipt, if one can be answered.
    fn settle_one_receipt(&self) -> Option<PrivateReceiptStep>;

    /// Give back one attempt whose give-back never landed: whether it was
    /// relinquished; `None` when none is owed.
    fn relinquish_one_attempt(&mut self) -> Option<bool>;

    /// Attempt one release delivery: whether it was enqueued; `None` when no
    /// release can be attempted.
    fn attempt_one_delivery(&mut self) -> Option<bool>;

    /// Hand over one press's own event: whether it was enqueued; `None`
    /// when no press is waiting.
    fn dispatch_one_press(&mut self) -> Option<bool>;

    /// One shared-activation visit: what it observed and joined; `None`
    /// when there was nothing to compare. `turn` is the recorded-proof turn
    /// flag, which the visit may spend.
    fn join_shared_activations(&mut self, turn: &mut bool) -> Option<(usize, usize)>;

    /// Record one release's native proof: whether its bit went in; `None`
    /// when no recording is owed.
    fn record_one_native(&mut self) -> Option<bool>;

    /// Observe one transient completion: whether it was disposed; `None`
    /// when none is waiting.
    fn observe_one_transient(&mut self) -> Option<bool>;

    /// With the turn and the delivering list both empty: revisit one
    /// retained request whose completion could not be observed.
    fn revisit_undelivered_request(&self) -> Result<PrivateDeliveryStep<D>, E>;

}

/// What retiring the entry at the head of delivery established.
#[derive(Debug, Clone, Copy, PartialEq, Eq)]
pub enum PrivateRetirement<C> {
    /// The entry's request was retired and the entry disposed of; it had no
    /// outcome of its own to report.
    Disposed,
    /// The outcome the entry's request recorded was taken, exactly once, and
    /// the entry finished: `None` when the request recorded none.
    Completed(Option<C>),
    /// Nothing could show the entry's outcome: it is kept, undelivered.
    Unproven,
}

/// How an entry's own request or custody answers for it once it reaches the
/// head of delivery. The answer is the entry's own.
pub trait PrivateEntryRetirement<C> {
    /// Retire, observe or finish the entry, saying what that established.
    fn retire(&mut self) -> PrivateRetirement<C>;
}

/// What delivering one entry established.
#[derive(Debug, Clone, Copy, PartialEq, Eq)]
pub struct PrivateDelivered<C> {
    /// The sequence of the entry delivered.
    pub sequence: u64,
    /// The outcome its request recorded, taken exactly once.
    pub completion: Option<C>,
    /// Whether a release debt was closed by this delivery. Delivery never
    /// closes one: that needs a receipt this step cannot obtain.
    pub debt_settled: bool,
}

/// One entry the order gave out, with the sequence it was given.
pub struct PrivateOrderedEntry<X> {
    pub sequence: u64,
    pub item: X,
}

/// The terminal's entries in order: those being delivered, then the turn
/// still to come, and the entries whose outcome nothing could show.
pub struct PrivateDeliveryLists<X> {
    delivering: Vec<PrivateOrderedEntry<X>>,
    turn: Vec<PrivateOrderedEntry<X>>,
    undelivered: Vec<PrivateOrderedEntry<X>>,
}

/// The entries of a terminal's lists.
pub ghost struct DeliveryView<X> {
    pub delivering: Seq<PrivateOrderedEntry<X>>,
    pub turn: Seq<PrivateOrderedEntry<X>>,
    pub undelivered: Seq<PrivateOrderedEntry<X>>,
}

impl<X> View for PrivateDeliveryLists<X> {
    type V = DeliveryView<X>;

    closed spec fn view(&self) -> DeliveryView<X> {
        DeliveryView { delivering: self.delivering@, turn: self.turn@, undelivered: self.undelivered@ }
    }
}

/// Every entry still to be delivered, head first: what is being delivered,
/// then the turn.
pub open spec fn pending<X>(v: DeliveryView<X>) -> Seq<PrivateOrderedEntry<X>> {
    v.delivering + v.turn
}

/// The sequences of a list of entries, in order.
pub open spec fn sequences<X>(s: Seq<PrivateOrderedEntry<X>>) -> Seq<u64> {
    s.map_values(|e: PrivateOrderedEntry<X>| e.sequence)
}

impl<X> PrivateDeliveryLists<X> {
    /// Nothing delivering, nothing in the turn, nothing undelivered.
    pub fn new() -> (r: Self)
        ensures
            r@.delivering.len() == 0,
            r@.turn.len() == 0,
            r@.undelivered.len() == 0,
    {
        PrivateDeliveryLists { delivering: Vec::new(), turn: Vec::new(), undelivered: Vec::new() }
    }

    /// Add an entry the order gave out at the end of the turn.
    pub fn enqueue(&mut self, entry: PrivateOrderedEntry<X>)
        ensures
            final(self)@ == (DeliveryView { turn: old(self)@.turn.push(entry), ..old(self)@ }),
    {
        self.turn.push(entry);
    }

    /// Whether nothing is waiting to be delivered.
    pub fn nothing_to_deliver(&self) -> (r: bool)
        ensures
            r == (pending(self@).len() == 0),
    {
        self.delivering.len() == 0 && self.turn.len() == 0
    }

    /// How many entries nothing could show an outcome for.
    pub fn undelivered(&self) -> (r: usize)
        ensures
            r == self@.undelivered.len(),
    {
        self.undelivered.len()
    }

    /// How many entries are still to be delivered.
    pub fn pending_len(&self) -> (r: usize)
        requires
            pending(self@).len() <= usize::MAX,
        ensures
            r == pending(self@).len(),
    {
        self.delivering.len() + self.turn.len()
    }

    /// The sequence of the entry at the head of delivery, moving the turn's
    /// first entry into delivery when nothing is delivering. The order of
    /// what is pending does not change.
    fn head_sequence(&mut self) -> (r: Option<u64>)
        requires
            pending(old(self)@).len() <= usize::MAX,
        ensures
            pending(final(self)@) == pending(old(self)@),
            final(self)@.undelivered == old(self)@.undelivered,
            pending(old(self)@).len() == 0 ==> r is None,
            pending(old(self)@).len() > 0 ==> r == Some(pending(old(self)@)[0].sequence),
            pending(old(self)@).len() > 0 ==> final(self)@.delivering.len() > 0,
    {
        if self.delivering.len() == 0 {
            if self.turn.len() == 0 {
                return None;
            }
            let first = self.turn.remove(0);
            self.delivering.push(first);
            proof {
                assert(pending(self@) =~= pending(old(self)@));
            }
        }
        Some(self.delivering[0].sequence)
    }
}

impl<X> PrivateDeliveryLists<X> {
    /// Retire the entry at the head of delivery: it leaves delivery either
    /// way, and is kept undelivered when its outcome is unproven.
    fn advance_head<C>(&mut self) -> (r: (u64, Option<PrivateDelivered<C>>))
        where X: PrivateEntryRetirement<C>,
        requires
            old(self)@.delivering.len() > 0,
        ensures
            r.0 == old(self)@.delivering[0].sequence,
            pending(final(self)@) == pending(old(self)@).drop_first(),
            final(self)@.undelivered == old(self)@.undelivered || (final(self)@.undelivered.len()
                == old(self)@.undelivered.len() + 1 && final(self)@.undelivered.drop_last()
                == old(self)@.undelivered && final(self)@.undelivered.last().sequence == r.0
                && r.1 is None),
            r.1 is Some ==> r.1->0.sequence == r.0 && !r.1->0.debt_settled,
    {
        let mut entry = self.delivering.remove(0);
        let sequence = entry.sequence;
        proof {
            assert(pending(self@) =~= pending(old(self)@).drop_first());
        }
        match entry.item.retire() {
            PrivateRetirement::Disposed => (sequence, None),
            PrivateRetirement::Completed(completion) => (
                sequence,
                Some(PrivateDelivered { sequence, completion, debt_settled: false }),
            ),
            PrivateRetirement::Unproven => {
                self.undelivered.push(entry);
                proof {
                    assert(self@.undelivered.drop_last() =~= old(self)@.undelivered);
                }
                (sequence, None)
            },
        }
    }
}

/// The counters the choice is made from.
#[derive(Debug, Clone, Copy, PartialEq, Eq, Structural)]
pub struct PrivateTerminalSchedule {
    /// Delivery steps taken since native work last had a turn.
    pub native_turn_debt: u8,
    /// Native visits since dispatch last had a turn.
    pub native_class_debt: u8,
    /// Consecutive press handovers that did not progress.
    pub press_stall: u8,
    /// Position in the terminated-recipient rotation.
    pub recipient_termination_turn: u8,
    /// Whether this native turn is live disposal's.
    pub live_disposal_due: bool,
    /// Whether a proof was just recorded, so joins come first.
    pub shared_activation_turn: bool,
}

/// A counter moved up by one, stopping at its largest value.
pub open spec fn bumped(n: u8) -> u8 {
    if n < u8::MAX {
        (n + 1) as u8
    } else {
        n
    }
}

/// Whether this step is native work's: native work is owed, and either
/// nothing is waiting for delivery or deliveries have postponed it long
/// enough.
pub open spec fn native_turn_due(native_owed: bool, nothing_to_deliver: bool, debt: u8) -> bool {
    native_owed && (nothing_to_deliver || debt >= PRIVATE_NATIVE_TURN_INTERVAL)
}

/// The postponement counter after `n` admitted delivery steps.
pub open spec fn after_deliveries(debt: u8, n: nat) -> u8
    decreases n,
{
    if n == 0 {
        debt
    } else {
        bumped(after_deliveries(debt, (n - 1) as nat))
    }
}

/// Whether the counters are where steps leave them.
pub open spec fn schedule_wf(s: PrivateTerminalSchedule) -> bool {
    s.press_stall <= PRIVATE_PRESS_STALL_ALLOWANCE && s.recipient_termination_turn < PRIVATE_TERMINATION_TURNS
}

/// The terminated-recipient rotation moved on by one native turn.
pub open spec fn next_termination_turn(t: u8) -> u8 {
    if t >= PRIVATE_TERMINATION_TURNS - 1 {
        0
    } else {
        (t + 1) as u8
    }
}

/// What one native visit leaves of the counters, given the step it reports.
///
/// A relinquished attempt touches nothing. Otherwise the termination
/// rotation moves on; a terminated recipient's receipt is answered only on
/// the rotation's first turn. Then live disposal's turn flips, and a
/// disposal is made only on its turn. A dispatch resets the class counter, a
/// press handover counts its stalls, and every later visit clears the stall
/// count; a recording marks joins next and counts against dispatch, as a
/// transient observation does.
pub open spec fn native_visited<D>(
    pre: PrivateTerminalSchedule,
    post: PrivateTerminalSchedule,
    r: PrivateDeliveryStep<D>,
) -> bool {
    let rotated = PrivateTerminalSchedule {
        recipient_termination_turn: next_termination_turn(pre.recipient_termination_turn),
        ..pre
    };
    let turned = PrivateTerminalSchedule { live_disposal_due: !pre.live_disposal_due, ..rotated };
    match r {
        PrivateDeliveryStep::Dispatched { enqueued, relinquished } => if relinquished {
            post == pre
        } else {
            ||| post == pre && !enqueued
            ||| pre.native_class_debt >= PRIVATE_NATIVE_CLASS_INTERVAL && post
                == PrivateTerminalSchedule { native_class_debt: 0, ..turned }
            ||| pre.press_stall < PRIVATE_PRESS_STALL_ALLOWANCE && post == PrivateTerminalSchedule {
                press_stall: if enqueued {
                    0
                } else {
                    (pre.press_stall + 1) as u8
                },
                ..turned
            }
            ||| post == PrivateTerminalSchedule {
                press_stall: 0,
                native_class_debt: 0,
                shared_activation_turn: post.shared_activation_turn,
                ..turned
            }
        },
        PrivateDeliveryStep::Receipt { .. } => post == rotated && rotated.recipient_termination_turn == 0,
        PrivateDeliveryStep::NativeDisposal { .. } => post == turned && turned.live_disposal_due,
        PrivateDeliveryStep::Recorded { .. } => post == PrivateTerminalSchedule {
            press_stall: 0,
            shared_activation_turn: true,
            native_class_debt: bumped(pre.native_class_debt),
            ..turned
        },
        PrivateDeliveryStep::TransientReceipt { .. } => post == PrivateTerminalSchedule {
            press_stall: 0,
            native_class_debt: bumped(pre.native_class_debt),
            shared_activation_turn: post.shared_activation_turn,
            ..turned
        },
        PrivateDeliveryStep::SharedActivation { .. } => post == PrivateTerminalSchedule {
            press_stall: 0,
            shared_activation_turn: post.shared_activation_turn,
            ..turned
        },
        PrivateDeliveryStep::Idle => post == PrivateTerminalSchedule {
            press_stall: 0,
            shared_activation_turn: post.shared_activation_turn,
            ..turned
        },
        PrivateDeliveryStep::Advanced { .. } => false,
        PrivateDeliveryStep::Blocked(_) => false,
    }
}

fn bump(n: u8) -> (r: u8)
    ensures
        r == bumped(n),
{
    if n < u8::MAX {
        n + 1
    } else {
        n
    }
}

/// What the work's charge answered when asked for `sequence`.
pub open spec fn charge_answered<D, E, W: PrivateTerminalWork<D, E>>(
    work: W,
    sequence: Option<u64>,
    answer: Result<(), E>,
) -> bool {
    call_ensures(W::start, (&work, sequence), answer)
}

/// What the work answered when asked to settle one waiting receipt.
pub open spec fn receipt_answered<D, E, W: PrivateTerminalWork<D, E>>(work: W, answer: Option<PrivateReceiptStep>) -> bool {
    call_ensures(W::settle_one_receipt, (&work,), answer)
}

/// What the work answered when asked to revisit an undelivered request.
pub open spec fn revisit_answered<D, E, W: PrivateTerminalWork<D, E>>(
    work: W,
    answer: Result<PrivateDeliveryStep<D>, E>,
) -> bool {
    call_ensures(W::revisit_undelivered_request, (&work,), answer)
}

impl PrivateTerminalSchedule {
    /// Nothing postponed, nothing stalled.
    pub fn new() -> (r: Self)
        ensures
            r == (PrivateTerminalSchedule {
                native_turn_debt: 0,
                native_class_debt: 0,
                press_stall: 0,
                recipient_termination_turn: 0,
                live_disposal_due: false,
                shared_activation_turn: false,
            }),
            schedule_wf(r),
    {
        PrivateTerminalSchedule {
            native_turn_debt: 0,
            native_class_debt: 0,
            press_stall: 0,
            recipient_termination_turn: 0,
            live_disposal_due: false,
            shared_activation_turn: false,
        }
    }

    /// One charged terminal step.
    ///
    /// A waiting receipt comes first: an answered receipt is the only thing
    /// that releases an attempt whose handover already happened. Then the
    /// step goes to native work if it is due (see `native_turn_due`), and
    /// otherwise to the delivery at the head, which is charged before it is
    /// touched and counted against native work only once admitted.
    ///
    /// `owes_receipt` and `native_owed` are what the terminal holds as the
    /// step begins; what is waiting for delivery is `lists`. The entry at the
    /// head is moved into delivery, charged, then retired: it leaves
    /// delivery, and stays undelivered when nothing could show its outcome.
    pub fn deliver_one<
        C,
        E,
        X: PrivateEntryRetirement<C>,
        W: PrivateTerminalWork<PrivateDelivered<C>, E>,
        B: PrivateTerminalBookkeeping,
    >(
        &mut self,
        work: &mut W,
        book: &mut B,
        lists: &mut PrivateDeliveryLists<X>,
        owes_receipt: bool,
        native_owed: bool,
    ) -> (r: Result<PrivateDeliveryStep<PrivateDelivered<C>>, E>)
        requires
            pending(old(lists)@).len() <= usize::MAX,
        ensures
            ({
                let nothing_to_deliver = pending(old(lists)@).len() == 0;
                let due = native_turn_due(native_owed, nothing_to_deliver, old(self).native_turn_debt);
                let before = pending(old(lists)@);
                &&& r is Err ==> pending(final(lists)@) == before
                &&& r is Err ==> final(lists)@.undelivered == old(lists)@.undelivered
                &&& r matches Ok(PrivateDeliveryStep::Advanced { sequence, report }) ==> before.len() > 0
                    ==> {
                    &&& !due
                    &&& sequence == before[0].sequence
                    &&& (report is Some ==> report->0.sequence == sequence && !report->0.debt_settled)
                    &&& pending(final(lists)@) == before.drop_first()
                    &&& (final(lists)@.undelivered == old(lists)@.undelivered || (
                    final(lists)@.undelivered.len() == old(lists)@.undelivered.len() + 1
                        && final(lists)@.undelivered.drop_last() == old(lists)@.undelivered
                        && final(lists)@.undelivered.last().sequence == sequence && report is None))
                }
                &&& (r is Ok && (!(r->Ok_0 is Advanced) || before.len() == 0)) ==> pending(final(lists)@) == before
                    && final(lists)@.undelivered == old(lists)@.undelivered
                &&& (!owes_receipt && !due && before.len() > 0 && r is Ok) ==> r->Ok_0 is Advanced
                &&& (r is Ok && r->Ok_0 is Receipt && !due && before.len() > 0) ==> owes_receipt && *final(self) == *old(self)
                &&& (r is Ok && !due && before.len() == 0) ==> *final(self) == *old(self)
                &&& (!owes_receipt && due && r is Ok) ==> native_visited(
                    PrivateTerminalSchedule { native_turn_debt: 0, ..*old(self) },
                    *final(self),
                    r->Ok_0,
                )
            }),
            schedule_wf(*old(self)) ==> schedule_wf(*final(self)),
            // What the work itself answered: the charge of the step taken,
            // asked for the very entry delivered; the receipt answered; the
            // revisit of an undelivered request.
            ({
                let nothing_to_deliver = pending(old(lists)@).len() == 0;
                let due = native_turn_due(native_owed, nothing_to_deliver, old(self).native_turn_debt);
                let w = *old(work);
                &&& r is Err ==> charge_answered(w, None::<u64>, Err::<(), E>(r->Err_0)) || (exists|sequence: u64|
                    #[trigger] charge_answered(w, Some(sequence), Err::<(), E>(r->Err_0))) || revisit_answered(w, r)
                &&& (r is Ok && r->Ok_0 is Advanced && !nothing_to_deliver) ==> charge_answered(
                    w,
                    Some(r->Ok_0->Advanced_sequence),
                    Ok::<(), E>(()),
                )
                &&& (r is Ok && r->Ok_0 is Receipt && !due) ==> (owes_receipt && charge_answered(
                    w,
                    None::<u64>,
                    Ok::<(), E>(()),
                ) && receipt_answered(w, Some(r->Ok_0->step))) || (nothing_to_deliver && revisit_answered(w, r))
                &&& (nothing_to_deliver && !due) ==> revisit_answered(w, r) || (owes_receipt && ((r is Err
                    && charge_answered(w, None::<u64>, Err::<(), E>(r->Err_0))) || (r is Ok && r->Ok_0 is Receipt
                    && receipt_answered(w, Some(r->Ok_0->step)))))
            }),
            ({
                let nothing_to_deliver = pending(old(lists)@).len() == 0;
                let due = native_turn_due(native_owed, nothing_to_deliver, old(self).native_turn_debt);
                let before = *old(self);
                let after = *final(self);
                &&& !due ==> after.native_class_debt == before.native_class_debt
                    && after.press_stall == before.press_stall
                    && after.recipient_termination_turn == before.recipient_termination_turn
                    && after.live_disposal_due == before.live_disposal_due
                    && after.shared_activation_turn == before.shared_activation_turn
                &&& !due ==> after.native_turn_debt == before.native_turn_debt
                    || after.native_turn_debt == bumped(before.native_turn_debt)
                &&& (r matches Ok(PrivateDeliveryStep::Advanced { .. }) && !nothing_to_deliver) ==> !due
                    && after.native_turn_debt == bumped(before.native_turn_debt)
                &&& due ==> after.native_turn_debt == 0 || after == before
                &&& (due && !owes_receipt && r is Ok) ==> after.native_turn_debt == 0
                &&& r is Err ==> after == before
            }),
    {
        let start = W::start;
        if owes_receipt {
            let charged = start(&*work, None);
            assert(charge_answered(*work, None::<u64>, charged));
            match charged {
                Ok(unit) => {
                    assert(unit == ());
                },
                Err(e) => return Err(e),
            }
            let settle = W::settle_one_receipt;
            let settled = settle(&*work);
            assert(receipt_answered(*work, settled));
            match settled {
                Some(step) => {
                    return Ok(PrivateDeliveryStep::Receipt { step });
                },
                None => {},
            }
        }
        let nothing_to_deliver = lists.nothing_to_deliver();
        let native_turn = native_owed && (nothing_to_deliver || self.native_turn_debt
            >= PRIVATE_NATIVE_TURN_INTERVAL);
        if native_turn {
            let charged = start(&*work, None);
            assert(charge_answered(*work, None::<u64>, charged));
            match charged {
                Ok(unit) => {
                    assert(unit == ());
                },
                Err(e) => return Err(e),
            }
            self.native_turn_debt = 0;
            return Ok(self.native_visit(work, book));
        }
        if nothing_to_deliver {
            let revisit = W::revisit_undelivered_request;
            let revisited = revisit(&*work);
            assert(revisit_answered(*work, revisited));
            return revisited;
        }
        let sequence = match lists.head_sequence() {
            Some(sequence) => sequence,
            None => return Ok(PrivateDeliveryStep::Idle),
        };
        let charged = start(&*work, Some(sequence));
        assert(charge_answered(*work, Some(sequence), charged));
        match charged {
            Ok(unit) => {
                assert(unit == ());
            },
            Err(e) => return Err(e),
        }
        self.native_turn_debt = bump(self.native_turn_debt);
        let ghost asked = sequence;
        let (sequence, report) = lists.advance_head();
        assert(sequence == asked);
        Ok(PrivateDeliveryStep::Advanced { sequence, report })
    }

    /// The visit a native turn makes, in order: an attempt whose give-back
    /// never landed; every third turn a terminated recipient; every other
    /// turn live disposal; dispatch once recording has had its run; a
    /// press's own event unless it has stalled too often; joins right after
    /// a recording; a recording; joins; a transient; and last a delivery
    /// attempt.
    pub fn native_visit<D, E, W: PrivateTerminalWork<D, E>, B: PrivateTerminalBookkeeping>(
        &mut self,
        work: &mut W,
        book: &mut B,
    ) -> (r: PrivateDeliveryStep<D>)
        ensures
            schedule_wf(*old(self)) ==> schedule_wf(*final(self)),
            final(self).native_turn_debt == old(self).native_turn_debt,
            old(self).recipient_termination_turn < PRIVATE_TERMINATION_TURNS ==> final(self).recipient_termination_turn
                == (old(self).recipient_termination_turn + 1) % (PRIVATE_TERMINATION_TURNS as int)
                || *final(self) == *old(self),
            r is Receipt ==> final(self).recipient_termination_turn == 0,
            r is NativeDisposal ==> final(self).live_disposal_due && !old(self).live_disposal_due,
            r is Recorded ==> final(self).shared_activation_turn && final(self).native_class_debt == bumped(
                old(self).native_class_debt,
            ) && final(self).press_stall == 0,
            r is TransientReceipt ==> final(self).native_class_debt == bumped(old(self).native_class_debt)
                && final(self).press_stall == 0,
            r is Idle ==> final(self).press_stall == 0,
            !(r is Advanced) && !(r is Blocked),
            native_visited(*old(self), *final(self), r),
    {
        match work.relinquish_one_attempt() {
            Some(relinquished) => return PrivateDeliveryStep::Dispatched { enqueued: false, relinquished },
            None => {},
        }
        self.recipient_termination_turn = if self.recipient_termination_turn >= PRIVATE_TERMINATION_TURNS - 1 {
            0
        } else {
            self.recipient_termination_turn + 1
        };
        if self.recipient_termination_turn == 0 && book.owes_terminated_recipient() {
            let step = book.settle_one_terminated_recipient();
            return PrivateDeliveryStep::Receipt { step };
        }
        self.live_disposal_due = !self.live_disposal_due;
        if self.live_disposal_due && book.owes_live_native_disposal() {
            let disposed = book.dispose_live_native_one();
            return PrivateDeliveryStep::NativeDisposal { disposed };
        }
        if self.native_class_debt >= PRIVATE_NATIVE_CLASS_INTERVAL {
            match work.attempt_one_delivery() {
                Some(enqueued) => {
                    self.native_class_debt = 0;
                    return PrivateDeliveryStep::Dispatched { enqueued, relinquished: false };
                },
                None => {},
            }
        }
        if self.press_stall < PRIVATE_PRESS_STALL_ALLOWANCE {
            match work.dispatch_one_press() {
                Some(enqueued) => {
                    self.press_stall = if enqueued {
                        0
                    } else {
                        self.press_stall + 1
                    };
                    return PrivateDeliveryStep::Dispatched { enqueued, relinquished: false };
                },
                None => {},
            }
        }
        self.press_stall = 0;
        if self.shared_activation_turn {
            let mut turn = self.shared_activation_turn;
            let joined = work.join_shared_activations(&mut turn);
            self.shared_activation_turn = turn;
            match joined {
                Some((observed, joined)) => return PrivateDeliveryStep::SharedActivation { observed, joined },
                None => {},
            }
        }
        match work.record_one_native() {
            Some(recorded) => {
                self.shared_activation_turn = true;
                self.native_class_debt = bump(self.native_class_debt);
                return PrivateDeliveryStep::Recorded { recorded };
            },
            None => {},
        }
        let mut turn = self.shared_activation_turn;
        let joined = work.join_shared_activations(&mut turn);
        self.shared_activation_turn = turn;
        match joined {
            Some((observed, joined)) => return PrivateDeliveryStep::SharedActivation { observed, joined },
            None => {},
        }
        match work.observe_one_transient() {
            Some(disposed) => {
                self.native_class_debt = bump(self.native_class_debt);
                return PrivateDeliveryStep::TransientReceipt { disposed };
            },
            None => {},
        }
        match work.attempt_one_delivery() {
            Some(enqueued) => {
                self.native_class_debt = 0;
                PrivateDeliveryStep::Dispatched { enqueued, relinquished: false }
            },
            None => PrivateDeliveryStep::Idle,
        }
    }
}

/// Native work is postponed by at most `PRIVATE_NATIVE_TURN_INTERVAL`
/// admitted delivery steps: from a fresh turn, that many deliveries make
/// native work's turn due whenever it is owed, however busy delivery is.
pub proof fn law_native_work_waits_boundedly(nothing_to_deliver: bool)
    ensures
        native_turn_due(true, nothing_to_deliver, after_deliveries(0, PRIVATE_NATIVE_TURN_INTERVAL as nat)),
        forall|n: nat| n < PRIVATE_NATIVE_TURN_INTERVAL ==> after_deliveries(0, n) == n,
{
    reveal_with_fuel(after_deliveries, 5);
    assert forall|n: nat| n < PRIVATE_NATIVE_TURN_INTERVAL implies after_deliveries(0, n) == n by {
        reveal_with_fuel(after_deliveries, 5);
    }
}

} // verus!
