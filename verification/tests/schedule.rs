use sophia_x_authority::terminal_inventory::PrivateTerminalBookkeeping;
use sophia_x_authority::terminal_schedule::{
    PrivateDelivered, PrivateDeliveryLists, PrivateDeliveryStep, PrivateEntryRetirement, PrivateOrderedEntry,
    PrivateReceiptStep,
    PrivateRetirement, PrivateTerminalSchedule, PrivateTerminalWork, PRIVATE_NATIVE_TURN_INTERVAL,
    PRIVATE_PRESS_STALL_ALLOWANCE,
};

/// An entry whose outcome either shows or does not.
struct Entry {
    proven: bool,
}

impl PrivateEntryRetirement<&'static str> for Entry {
    fn retire(&mut self) -> PrivateRetirement<&'static str> {
        if self.proven {
            PrivateRetirement::Completed(Some("delivered"))
        } else {
            PrivateRetirement::Unproven
        }
    }
}

fn delivered(sequence: u64) -> Option<PrivateDelivered<&'static str>> {
    Some(PrivateDelivered { sequence, completion: Some("delivered"), debt_settled: false })
}

fn lists_of(entries: &[(u64, bool)]) -> PrivateDeliveryLists<Entry> {
    let mut lists = PrivateDeliveryLists::new();
    for &(sequence, proven) in entries {
        lists.enqueue(PrivateOrderedEntry { sequence, item: Entry { proven } });
    }
    lists
}

#[derive(Default)]
struct Work {
    refuse_start: bool,
    started: std::cell::RefCell<Vec<Option<u64>>>,
    receipt: Option<PrivateReceiptStep>,
    relinquish: Option<bool>,
    delivery: Option<bool>,
    press: Option<bool>,
    joins: Option<(usize, usize)>,
    spend_join_turn: bool,
    record: Option<bool>,
    transient: Option<bool>,
    revisits: std::cell::Cell<usize>,
    visited: Vec<&'static str>,
}

impl PrivateTerminalWork<PrivateDelivered<&'static str>, &'static str> for Work {
    fn start(&self, sequence: Option<u64>) -> Result<(), &'static str> {
        if self.refuse_start {
            return Err("refused");
        }
        self.started.borrow_mut().push(sequence);
        Ok(())
    }
    fn settle_one_receipt(&self) -> Option<PrivateReceiptStep> {
        self.receipt
    }
    fn relinquish_one_attempt(&mut self) -> Option<bool> {
        self.relinquish
    }
    fn attempt_one_delivery(&mut self) -> Option<bool> {
        if self.delivery.is_some() {
            self.visited.push("delivery");
        }
        self.delivery
    }
    fn dispatch_one_press(&mut self) -> Option<bool> {
        if self.press.is_some() {
            self.visited.push("press");
        }
        self.press
    }
    fn join_shared_activations(&mut self, turn: &mut bool) -> Option<(usize, usize)> {
        if self.spend_join_turn {
            *turn = false;
        }
        self.joins
    }
    fn record_one_native(&mut self) -> Option<bool> {
        if self.record.is_some() {
            self.visited.push("record");
        }
        self.record
    }
    fn observe_one_transient(&mut self) -> Option<bool> {
        self.transient
    }
    fn revisit_undelivered_request(
        &self,
    ) -> Result<PrivateDeliveryStep<PrivateDelivered<&'static str>>, &'static str> {
        self.revisits.set(self.revisits.get() + 1);
        Ok(PrivateDeliveryStep::Idle)
    }
}

#[derive(Default)]
struct Book {
    terminated: bool,
    live: bool,
    visited: Vec<&'static str>,
}

impl PrivateTerminalBookkeeping for Book {
    fn owes_terminated_recipient(&mut self) -> bool {
        self.terminated
    }
    fn settle_one_terminated_recipient(&mut self) -> PrivateReceiptStep {
        self.visited.push("terminated");
        PrivateReceiptStep::Unanswered
    }
    fn owes_live_native_disposal(&self) -> bool {
        self.live
    }
    fn dispose_live_native_one(&mut self) -> bool {
        self.visited.push("disposal");
        true
    }
}

#[test]
fn a_waiting_receipt_comes_first() {
    let mut schedule = PrivateTerminalSchedule::new();
    let mut work = Work { receipt: Some(PrivateReceiptStep::Settled { debt_settled: true }), ..Work::default() };
    let mut book = Book::default();
    let mut lists = lists_of(&[(3, true)]);
    let step = schedule.deliver_one(&mut work, &mut book, &mut lists, true, true).unwrap();
    assert_eq!(step, PrivateDeliveryStep::Receipt { step: PrivateReceiptStep::Settled { debt_settled: true } });
    assert_eq!(*work.started.borrow(), vec![None]);
    assert_eq!(schedule, PrivateTerminalSchedule::new());
    assert_eq!(lists.pending_len(), 1);
}

#[test]
fn deliveries_postpone_native_work_a_bounded_number_of_steps() {
    let mut schedule = PrivateTerminalSchedule::new();
    let mut work = Work { record: Some(true), ..Work::default() };
    let mut book = Book::default();
    let mut lists = lists_of(&[(8, true), (9, true), (10, true), (11, true), (12, true), (13, true)]);
    for step in 1..=PRIVATE_NATIVE_TURN_INTERVAL {
        assert_eq!(
            schedule.deliver_one(&mut work, &mut book, &mut lists, false, true).unwrap(),
            PrivateDeliveryStep::Advanced { sequence: 7 + step as u64, report: delivered(7 + step as u64) }
        );
        assert_eq!(schedule.native_turn_debt, step);
    }
    assert_eq!(
        schedule.deliver_one(&mut work, &mut book, &mut lists, false, true).unwrap(),
        PrivateDeliveryStep::Recorded { recorded: true }
    );
    assert_eq!(schedule.native_turn_debt, 0);
    assert!(schedule.shared_activation_turn);
    assert_eq!(schedule.native_class_debt, 1);
    assert_eq!(lists.pending_len(), 2);
    assert_eq!(*work.started.borrow(), vec![Some(8), Some(9), Some(10), Some(11), None]);
}

#[test]
fn a_refused_charge_counts_nothing() {
    let mut schedule = PrivateTerminalSchedule::new();
    let mut work = Work { refuse_start: true, ..Work::default() };
    let mut book = Book::default();
    let mut lists = lists_of(&[(8, true)]);
    assert_eq!(schedule.deliver_one(&mut work, &mut book, &mut lists, false, true), Err("refused"));
    assert_eq!(schedule, PrivateTerminalSchedule::new());
    assert_eq!(lists.pending_len(), 1);
    assert_eq!(lists.undelivered(), 0);
}

#[test]
fn without_native_work_an_empty_terminal_revisits() {
    let mut schedule = PrivateTerminalSchedule::new();
    let mut work = Work::default();
    let mut book = Book::default();
    let mut lists = lists_of(&[]);
    assert!(lists.nothing_to_deliver());
    assert_eq!(schedule.deliver_one(&mut work, &mut book, &mut lists, false, false).unwrap(), PrivateDeliveryStep::Idle);
    assert_eq!(work.revisits.get(), 1);
    assert_eq!(schedule.deliver_one(&mut work, &mut book, &mut lists, false, false).unwrap(), PrivateDeliveryStep::Idle);
    assert_eq!(work.revisits.get(), 2);
    assert_eq!(schedule.native_turn_debt, 0);
}

#[test]
fn an_unproven_entry_leaves_delivery_and_stays_undelivered() {
    let mut schedule = PrivateTerminalSchedule::new();
    let mut work = Work::default();
    let mut book = Book::default();
    let mut lists = lists_of(&[(5, false), (6, true)]);
    assert_eq!(
        schedule.deliver_one(&mut work, &mut book, &mut lists, false, false).unwrap(),
        PrivateDeliveryStep::Advanced { sequence: 5, report: None }
    );
    assert_eq!(lists.pending_len(), 1);
    assert_eq!(lists.undelivered(), 1);
    assert_eq!(
        schedule.deliver_one(&mut work, &mut book, &mut lists, false, false).unwrap(),
        PrivateDeliveryStep::Advanced { sequence: 6, report: delivered(6) }
    );
    assert!(lists.nothing_to_deliver());
    assert_eq!(lists.undelivered(), 1);
    assert_eq!(*work.started.borrow(), vec![Some(5), Some(6)]);
    assert_eq!(schedule.native_turn_debt, 2);
}

#[test]
fn a_lost_give_back_is_answered_first() {
    let mut schedule = PrivateTerminalSchedule::new();
    let mut work = Work { relinquish: Some(true), ..Work::default() };
    let mut book = Book { terminated: true, ..Book::default() };
    let mut lists = lists_of(&[]);
    assert_eq!(
        schedule.deliver_one(&mut work, &mut book, &mut lists, false, true).unwrap(),
        PrivateDeliveryStep::Dispatched { enqueued: false, relinquished: true }
    );
    assert_eq!(schedule.recipient_termination_turn, 0);
}

#[test]
fn a_terminated_recipient_gets_every_third_native_turn() {
    let mut schedule = PrivateTerminalSchedule::new();
    let mut work = Work::default();
    let mut book = Book { terminated: true, ..Book::default() };
    let mut receipts = 0;
    for _ in 0..6 {
        if let PrivateDeliveryStep::Receipt { .. } = schedule.native_visit(&mut work, &mut book) {
            receipts += 1;
        }
        assert!(schedule.recipient_termination_turn < 3);
    }
    assert_eq!(receipts, 2);
}

#[test]
fn live_disposal_gets_every_other_native_turn() {
    let mut schedule = PrivateTerminalSchedule::new();
    let mut work = Work { delivery: Some(true), ..Work::default() };
    let mut book = Book { live: true, ..Book::default() };
    let first = schedule.native_visit(&mut work, &mut book);
    let second = schedule.native_visit(&mut work, &mut book);
    assert_eq!(first, PrivateDeliveryStep::NativeDisposal { disposed: true });
    assert_eq!(second, PrivateDeliveryStep::Dispatched { enqueued: true, relinquished: false });
}

#[test]
fn a_stalled_press_gives_the_visit_away() {
    let mut schedule = PrivateTerminalSchedule::new();
    let mut work = Work { press: Some(false), record: Some(false), ..Work::default() };
    let mut book = Book::default();
    for stall in 1..=PRIVATE_PRESS_STALL_ALLOWANCE {
        assert_eq!(
            schedule.native_visit(&mut work, &mut book),
            PrivateDeliveryStep::Dispatched { enqueued: false, relinquished: false }
        );
        assert_eq!(schedule.press_stall, stall);
    }
    assert_eq!(schedule.native_visit(&mut work, &mut book), PrivateDeliveryStep::Recorded { recorded: false });
    assert_eq!(schedule.press_stall, 0);
    assert_eq!(work.visited, vec!["press", "press", "record"]);
}

#[test]
fn dispatch_gets_its_turn_after_recordings() {
    let mut schedule = PrivateTerminalSchedule::new();
    schedule.native_class_debt = 2;
    schedule.live_disposal_due = true;
    let mut work = Work { delivery: Some(false), record: Some(true), ..Work::default() };
    let mut book = Book::default();
    assert_eq!(
        schedule.native_visit(&mut work, &mut book),
        PrivateDeliveryStep::Dispatched { enqueued: false, relinquished: false }
    );
    assert_eq!(schedule.native_class_debt, 0);
}

#[test]
fn joins_come_right_after_a_recording() {
    let mut schedule = PrivateTerminalSchedule::new();
    schedule.shared_activation_turn = true;
    schedule.live_disposal_due = true;
    let mut work = Work { joins: Some((3, 1)), spend_join_turn: true, record: Some(true), ..Work::default() };
    let mut book = Book::default();
    assert_eq!(schedule.native_visit(&mut work, &mut book), PrivateDeliveryStep::SharedActivation { observed: 3, joined: 1 });
    assert!(!schedule.shared_activation_turn);
    assert!(work.visited.is_empty());
}

#[test]
fn transients_then_deliveries_then_idle() {
    let mut schedule = PrivateTerminalSchedule::new();
    schedule.live_disposal_due = true;
    let mut work = Work { transient: Some(true), ..Work::default() };
    let mut book = Book::default();
    assert_eq!(schedule.native_visit(&mut work, &mut book), PrivateDeliveryStep::TransientReceipt { disposed: true });
    assert_eq!(schedule.native_class_debt, 1);
    work.transient = None;
    schedule.live_disposal_due = true;
    assert_eq!(schedule.native_visit(&mut work, &mut book), PrivateDeliveryStep::Idle);
}

/// An entry whose request is retired with no outcome of its own.
struct Disposable;

impl PrivateEntryRetirement<&'static str> for Disposable {
    fn retire(&mut self) -> PrivateRetirement<&'static str> {
        PrivateRetirement::Disposed
    }
}

#[test]
fn a_disposed_entry_advances_without_a_report() {
    let mut schedule = PrivateTerminalSchedule::new();
    let mut work = Work::default();
    let mut book = Book::default();
    let mut lists = PrivateDeliveryLists::new();
    lists.enqueue(PrivateOrderedEntry { sequence: 21, item: Disposable });
    assert_eq!(
        schedule.deliver_one(&mut work, &mut book, &mut lists, false, false).unwrap(),
        PrivateDeliveryStep::Advanced { sequence: 21, report: None }
    );
    assert!(lists.nothing_to_deliver());
    assert_eq!(lists.undelivered(), 0);
}
