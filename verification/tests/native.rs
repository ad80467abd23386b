use std::cell::RefCell;
use sophia_x_authority::native_custody::{join_shared_activation, PrivateNativeHold, PrivateNativePending};
use sophia_x_authority::native_hold::{
    ActivationRetirementReceipt, HoldIncarnation, KeyPressRecord, KeyReleaseDisposition, KeyboardActivation,
    KeyboardActivationRetirement, PointerActivationCommit, PointerActivationRetirement, PointerPressRecord,
    PrivateKeyHold,
    PrivateNativeProof, PrivateNativeRefusal, PrivateNativeResidual, PrivateNativeStatus, PrivatePointerHold,
    RetainedConnection,
};
use sophia_x_authority::settling_release::{
    PrivateDeliveryCustody, PrivateReachedResources, PrivateDeliveryOutcome, PrivateDispatchPhase, PrivateReleaseBinding,
    PrivateSettlingRelease, PRIVATE_NATIVE_RECORDING_ATTEMPTS,
};
use sophia_x_authority::terminal_inventory::{
    PrivateHoldRecord, PrivateNativeDisposalChecks, PrivateOutputStanding, PrivateTerminalBookkeeping,
    PrivateTerminalInventory, PrivateTerminalState, PrivateTerminationAnswers,
};
use sophia_x_authority::terminal_schedule::PrivateReceiptStep;
use sophia_x_authority::terminal_scan::{
    PrivateInvocationCompletionCursor, PrivateLiveNativeDisposal, PrivateSharedActivationScan, PrivateTerminalVisit,
    PAIRS_PER_VISIT,
};

const INCARNATION: HoldIncarnation = HoldIncarnation { input: 3, generation: 1 };
const POINTER_PRESS: PointerPressRecord = PointerPressRecord { evdev: 272, route_lease: None, grab_lease: None };
const KEY_PRESS: KeyPressRecord = KeyPressRecord { evdev: 30, key: 38, route_lease: None };

fn waiting_pointer(origin: u64, stamp: u64) -> PrivatePointerHold<u8> {
    PrivatePointerHold::recorded(
        origin,
        9,
        2,
        3,
        Some(INCARNATION),
        44,
        Some(PointerActivationCommit { automatic: true, stamp, synchronous: false }),
        POINTER_PRESS,
        PrivateNativeStatus::Retained(PrivateNativeResidual::Activation(
            PointerActivationRetirement::StillRequiredByOtherButtons,
        )),
        None,
        Some(1),
        Some(2),
    )
}

fn retired_pointer(origin: u64, stamp: u64) -> PrivatePointerHold<u8> {
    PrivatePointerHold::recorded(
        origin,
        9,
        2,
        4,
        Some(HoldIncarnation { input: 4, generation: 1 }),
        45,
        None,
        POINTER_PRESS,
        PrivateNativeStatus::NativeReconciled,
        Some(ActivationRetirementReceipt { origin, stamp }),
        None,
        None,
    )
}

fn waiting_key(origin: u64, stamp: u64) -> PrivateKeyHold<u8> {
    PrivateKeyHold::recorded(
        origin,
        9,
        2,
        5,
        Some(INCARNATION),
        46,
        Some(KeyboardActivation { trigger: Some(37), stamp, leased: false, synchronous: false }),
        KEY_PRESS,
        PrivateNativeStatus::Retained(PrivateNativeResidual::KeyboardActivation(
            KeyboardActivationRetirement::StillRequiredByTrigger,
        )),
        None,
        None,
        None,
        true,
        KeyReleaseDisposition::Deliver,
    )
}

fn release(native: Option<PrivateNativeHold<u8>>) -> PrivateSettlingRelease<u8> {
    PrivateSettlingRelease {
        incarnation: INCARNATION,
        reached: PrivateReachedResources::resolved(9, 30, 4, 1, 2, 44),
        custody: PrivateDeliveryCustody::new(1, true),
        press_custody: None,
        native,
        native_recorded: false,
        native_attempts: 0,
        delivery: Some(12),
        binding: PrivateReleaseBinding::Reached,
    }
}

#[test]
fn a_hold_reads_back_what_the_guards_recorded() {
    let mut hold = waiting_pointer(1, 7);
    assert_eq!(hold.input(), 3);
    assert_eq!(hold.client(), 9);
    assert_eq!(hold.connection(), RetainedConnection { client: 9, generation: 2 });
    assert_eq!(hold.incarnation(), Some(INCARNATION));
    assert_eq!(hold.native_proof(), None);
    assert_eq!(hold.take_press_emission(), Some(1));
    // Moved once: a second take finds nothing.
    assert_eq!(hold.take_press_emission(), None);
    assert_eq!(hold.take_release_emission(), Some(2));
}

#[test]
fn the_exact_retirement_reconciles_a_pointer_hold() {
    let mut hold = waiting_pointer(1, 7);
    assert_eq!(
        hold.complete_shared_activation(&ActivationRetirementReceipt { origin: 2, stamp: 7 }),
        Err(PrivateNativeRefusal::ForeignOrigin)
    );
    assert_eq!(
        hold.complete_shared_activation(&ActivationRetirementReceipt { origin: 1, stamp: 8 }),
        Err(PrivateNativeRefusal::ActivationMismatch)
    );
    let proof = PrivateNativeProof { origin: 1, incarnation: INCARNATION, grant: 44 };
    assert_eq!(hold.complete_shared_activation(&ActivationRetirementReceipt { origin: 1, stamp: 7 }), Ok(proof));
    assert_eq!(hold.status(), PrivateNativeStatus::NativeReconciled);
    assert_eq!(hold.native_proof(), Some(proof));
    // Only from the residual: a reconciled hold is not reconciled again.
    assert_eq!(
        hold.complete_shared_activation(&ActivationRetirementReceipt { origin: 1, stamp: 7 }),
        Err(PrivateNativeRefusal::WrongPhase)
    );
}

#[test]
fn the_exact_retirement_reconciles_a_key_hold() {
    let mut hold = waiting_key(1, 5);
    assert!(hold.release_xkb_applied());
    assert_eq!(hold.release_disposition(), KeyReleaseDisposition::Deliver);
    assert_eq!(
        hold.complete_shared_activation(&ActivationRetirementReceipt { origin: 1, stamp: 6 }),
        Err(PrivateNativeRefusal::ActivationMismatch)
    );
    assert_eq!(
        hold.complete_shared_activation(&ActivationRetirementReceipt { origin: 1, stamp: 5 }),
        Ok(PrivateNativeProof { origin: 1, incarnation: INCARNATION, grant: 46 })
    );
    assert_eq!(hold.status(), PrivateNativeStatus::NativeReconciled);
}

#[test]
fn joining_pairs_like_with_like() {
    let mut target = PrivateNativeHold::Pointer(waiting_pointer(1, 7));
    let key_donor = PrivateNativeHold::Key(waiting_key(1, 7));
    assert!(!join_shared_activation(&mut target, &key_donor));
    assert_eq!(target.status(), waiting_pointer(1, 7).status());
    let donor = PrivateNativeHold::Pointer(retired_pointer(1, 7));
    assert!(join_shared_activation(&mut target, &donor));
    assert_eq!(target.status(), PrivateNativeStatus::NativeReconciled);
    assert_eq!(target.native_proof(), Some(PrivateNativeProof { origin: 1, incarnation: INCARNATION, grant: 44 }));
    assert!(target.pointer().is_some());
    assert!(target.key().is_none());
}

#[test]
fn a_pending_slot_keeps_its_kind() {
    let mut pending: PrivateNativePending<u8> = PrivateNativePending::default();
    assert!(pending.is_none());
    *pending.key_slot().unwrap() = Some(waiting_key(1, 5));
    assert!(pending.is_some());
    assert!(pending.key().is_some());
    assert!(matches!(pending.pointer_slot(), Err(PrivateNativeRefusal::WrongPhase)));
    let taken = pending.take();
    assert!(matches!(taken, Some(PrivateNativeHold::Key(_))));
    assert!(pending.is_none());
    assert!(pending.pointer_slot().is_ok());
}

#[test]
fn delivery_custody_answers() {
    let mut custody = PrivateDeliveryCustody::new(4, true);
    assert!(custody.owes_handover());
    assert!(custody.handover_unfinished());
    assert!(!custody.writer_settled());
    custody.dispatch = PrivateDispatchPhase::Enqueued;
    custody.outcome_seen = Some(PrivateDeliveryOutcome::Flushed);
    assert!(!custody.handover_unfinished());
    assert!(custody.writer_settled());
    custody.outcome_seen = Some(PrivateDeliveryOutcome::RouteRejected);
    assert!(!custody.writer_settled());
}

#[test]
fn a_release_waits_for_its_press_and_its_native_bit() {
    let mut r = release(None);
    assert_eq!(r.delivery(), Some(12));
    assert_eq!(r.incarnation(), INCARNATION);
    assert!(!r.owes_delivery_attempt());
    r.native_recorded = true;
    assert!(r.owes_delivery_attempt());
    r.press_custody = Some(PrivateDeliveryCustody::new(0, true));
    assert!(r.press_handover_unfinished());
    assert!(!r.owes_delivery_attempt());
    r.mark_unrepeatable();
    assert_eq!(r.custody.dispatch, PrivateDispatchPhase::Unrepeatable);
    r.record_outcome(PrivateDeliveryOutcome::ClientDisconnected);
    r.clear_attempt();
    assert!(r.recipient_output_settled());
}

#[test]
fn recording_is_owed_only_with_proof_and_within_attempts() {
    let mut hold = waiting_pointer(1, 7);
    hold.complete_shared_activation(&ActivationRetirementReceipt { origin: 1, stamp: 7 }).unwrap();
    let mut r = release(Some(PrivateNativeHold::Pointer(hold)));
    assert!(r.owes_native_recording());
    r.native_attempts = PRIVATE_NATIVE_RECORDING_ATTEMPTS;
    assert!(!r.owes_native_recording());
    assert!(!release(Some(PrivateNativeHold::Pointer(waiting_pointer(1, 7)))).owes_native_recording());
}

#[test]
fn the_completion_cursor_scans_then_restarts_on_a_match() {
    let mut cursor = PrivateInvocationCompletionCursor::new();
    cursor.restart(Some(4));
    assert_eq!(cursor.observe(Some(false)), PrivateTerminalVisit::InvocationScanning);
    assert_eq!(cursor.row, 1);
    assert_eq!(cursor.observe(None), PrivateTerminalVisit::InvocationScanning);
    assert_eq!((cursor.class, cursor.row), (1, 0));
    assert_eq!(cursor.observe(Some(true)), PrivateTerminalVisit::InvocationOutstanding);
    assert_eq!((cursor.epoch, cursor.class, cursor.row), (Some(4), 0, 0));
}

#[test]
fn live_disposal_moves_on_and_stops_scanning() {
    let mut disposal = PrivateLiveNativeDisposal::new();
    disposal.scanning = true;
    disposal.next();
    assert_eq!(disposal, PrivateLiveNativeDisposal { index: 1, scan_recipient: 0, scanning: false, due: false });
    disposal.index = usize::MAX;
    disposal.next();
    assert_eq!(disposal.index, usize::MAX);
}

#[test]
fn a_shared_activation_visit_joins_one_target() {
    let mut scan = PrivateSharedActivationScan::new();
    let mut releases = vec![
        release(Some(PrivateNativeHold::Pointer(waiting_pointer(1, 7)))),
        release(Some(PrivateNativeHold::Pointer(retired_pointer(1, 7)))),
    ];
    assert_eq!(scan.visit(&mut releases), None);
    scan.invalidate();
    assert!(scan.pending());
    let (observed, joined) = scan.visit(&mut releases).unwrap();
    assert_eq!(joined, 1);
    assert!(observed >= 1 && observed <= PAIRS_PER_VISIT);
    assert_eq!(releases[0].native.as_ref().unwrap().status(), PrivateNativeStatus::NativeReconciled);
}

#[test]
fn a_single_release_has_no_pair() {
    let mut scan = PrivateSharedActivationScan::new();
    scan.invalidate();
    let mut releases = vec![release(None)];
    assert_eq!(scan.visit(&mut releases), None);
    assert!(!scan.pending());
}

#[test]
fn inventory_shape_and_disposal() {
    let mut inventory: PrivateTerminalInventory<u8> = PrivateTerminalInventory {
        holds: vec![PrivateHoldRecord { incarnation: INCARNATION, custody: PrivateDeliveryCustody::new(0, true), native: None }],
        settling: vec![release(None)],
        native_pending: PrivateNativePending::default(),
        live_disposal: PrivateLiveNativeDisposal::new(),
        shared_activation: PrivateSharedActivationScan::new(),
        attempt_custody: None,
        recipient_termination_cursor: 0,
    };
    assert!(inventory.holds[0].owes_press_handover());
    assert_eq!(inventory.native_shape(), (1, 1, false));
    assert!(!inventory.owes_live_native_disposal());
    inventory.settling[0].native_recorded = true;
    inventory.settling[0].custody.outcome_seen = Some(PrivateDeliveryOutcome::Flushed);
    assert!(inventory.owes_live_native_disposal());
    inventory.settling[0].custody.attempt = Some(2);
    assert!(!inventory.owes_live_native_disposal());
}

struct Checks {
    /// The recipient the scan lands on after each call, and its answer.
    scan: RefCell<Vec<(usize, bool)>>,
    record: Option<bool>,
    asked: RefCell<Vec<HoldIncarnation>>,
}

impl Checks {
    fn new(scan: Vec<(usize, bool)>, record: Option<bool>) -> Self {
        Checks { scan: RefCell::new(scan), record, asked: RefCell::new(Vec::new()) }
    }
}

impl PrivateNativeDisposalChecks for Checks {
    fn native_disposal_ready(&self, _recipient: usize) -> (usize, bool) {
        self.scan.borrow_mut().remove(0)
    }

    fn reconciliation_record_present(&self, incarnation: HoldIncarnation) -> Option<bool> {
        self.asked.borrow_mut().push(incarnation);
        self.record
    }
}

fn visit_disposal(inventory: &mut PrivateTerminalInventory<u8>, checks: &Checks) -> bool {
    inventory.visit_live_native_disposal(
        |recipient: usize| checks.native_disposal_ready(recipient),
        |incarnation: HoldIncarnation| checks.reconciliation_record_present(incarnation),
    )
}

fn dispose_one(inventory: &mut PrivateTerminalInventory<u8>, checks: &Checks) -> bool {
    inventory.dispose_live_native_one(
        |recipient: usize| checks.native_disposal_ready(recipient),
        |incarnation: HoldIncarnation| checks.reconciliation_record_present(incarnation),
    )
}

fn settled() -> PrivateDeliveryCustody {
    let mut custody = PrivateDeliveryCustody::new(0, true);
    custody.outcome_seen = Some(PrivateDeliveryOutcome::Flushed);
    custody
}

fn disposable_release() -> PrivateSettlingRelease<u8> {
    let mut hold = waiting_pointer(1, 7);
    hold.complete_shared_activation(&ActivationRetirementReceipt { origin: 1, stamp: 7 }).unwrap();
    let mut r = release(Some(PrivateNativeHold::Pointer(hold)));
    r.native_recorded = true;
    r.custody = settled();
    r.press_custody = Some(settled());
    r
}

fn inventory_of(settling: Vec<PrivateSettlingRelease<u8>>) -> PrivateTerminalInventory<u8> {
    PrivateTerminalInventory {
        holds: vec![PrivateHoldRecord { incarnation: INCARNATION, custody: PrivateDeliveryCustody::new(0, true), native: None }],
        settling,
        native_pending: PrivateNativePending::default(),
        live_disposal: PrivateLiveNativeDisposal::new(),
        shared_activation: PrivateSharedActivationScan::new(),
        attempt_custody: None,
        recipient_termination_cursor: 0,
    }
}

#[test]
fn a_disposable_release_goes_once_nothing_depends_on_it() {
    let mut inventory = inventory_of(vec![disposable_release()]);
    let checks = Checks::new(vec![(1, true)], Some(false));
    assert!(visit_disposal(&mut inventory, &checks));
    assert!(inventory.settling.is_empty());
    assert_eq!(*checks.asked.borrow(), vec![INCARNATION]);
    assert!(inventory.shared_activation.pending());
    assert!(!inventory.live_disposal.scanning);
}

#[test]
fn a_release_still_depended_on_keeps_the_scan_on_it() {
    let mut inventory = inventory_of(vec![disposable_release()]);
    // The scan is pointed at holds.len() + 0 == 1 and stays there.
    let checks = Checks::new(vec![(1, false)], Some(false));
    assert!(!visit_disposal(&mut inventory, &checks));
    assert_eq!(inventory.settling.len(), 1);
    assert!(inventory.live_disposal.scanning);
    assert_eq!(inventory.live_disposal.scan_recipient, 1);
    assert!(checks.asked.borrow().is_empty());
}

#[test]
fn a_remaining_reconciliation_record_keeps_the_release() {
    let mut inventory = inventory_of(vec![disposable_release()]);
    let checks = Checks::new(vec![(1, true)], Some(true));
    assert!(!dispose_one(&mut inventory, &checks));
    assert_eq!(inventory.settling.len(), 1);
    assert_eq!(inventory.live_disposal.index, 1);
    let unreadable = Checks::new(vec![(1, true)], None);
    assert!(!dispose_one(&mut inventory, &unreadable));
    assert_eq!(inventory.settling.len(), 1);
}

#[test]
fn an_unproved_release_moves_the_visit_on() {
    let mut inventory = inventory_of(vec![release(None), disposable_release()]);
    let checks = Checks::new(vec![(2, true)], Some(false));
    assert!(!visit_disposal(&mut inventory, &checks));
    assert_eq!(inventory.live_disposal.index, 1);
    assert_eq!(checks.scan.borrow().len(), 1);
    assert!(visit_disposal(&mut inventory, &checks));
    assert_eq!(inventory.settling.len(), 1);
    let mut empty = inventory_of(Vec::new());
    assert!(!visit_disposal(&mut empty, &checks));
}

#[test]
fn a_terminated_recipient_is_owed_until_answered() {
    let mut inventory = inventory_of(vec![release(None), disposable_release()]);
    // No native hold: nothing is owed for its recipient, terminated or not.
    assert!(!inventory.owes_terminated_recipient(&vec![true, false]));
    // Terminated, and its recipient's half not yet settled on it.
    assert!(inventory.owes_terminated_recipient(&vec![false, true]));
    inventory.settling[1].custody.recipient_termination = true;
    // Its own output, never taken, is still held for it, and so is its press's.
    assert!(inventory.owes_terminated_recipient(&vec![false, true]));
    inventory.settling[1].custody.dispatch = PrivateDispatchPhase::Unrepeatable;
    inventory.settling[1].press_custody = None;
    assert!(!inventory.owes_terminated_recipient(&vec![false, true]));
    // Output still held for it keeps it owed.
    inventory.settling[1].custody.pending = true;
    assert!(inventory.owes_terminated_recipient(&vec![false, true]));
    inventory.settling[1].custody.pending = false;
    let mut press = PrivateDeliveryCustody::new(0, true);
    press.dispatch = PrivateDispatchPhase::Untaken;
    inventory.settling[1].press_custody = Some(press);
    assert!(inventory.owes_terminated_recipient(&vec![false, true]));
}

#[test]
fn a_refused_recording_is_retried_within_its_bound_then_left_owed() {
    let mut hold = waiting_pointer(1, 7);
    hold.complete_shared_activation(&ActivationRetirementReceipt { origin: 1, stamp: 7 }).unwrap();
    let mut r = release(Some(PrivateNativeHold::Pointer(hold)));
    let proof = PrivateNativeProof { origin: 1, incarnation: INCARNATION, grant: 44 };
    for attempt in 1..=PRIVATE_NATIVE_RECORDING_ATTEMPTS {
        assert_eq!(r.begin_native_recording(), Some(proof));
        assert_eq!(r.native_attempts, attempt);
        assert!(!r.native_recording_answered(false));
    }
    // The bound is reached: the debt stays, no further attempt is handed out.
    assert_eq!(r.begin_native_recording(), None);
    assert_eq!(r.native_attempts, PRIVATE_NATIVE_RECORDING_ATTEMPTS);
    assert!(!r.native_recorded);
}

#[test]
fn an_accepted_recording_puts_the_native_bit_in_once() {
    let mut hold = waiting_pointer(1, 7);
    hold.complete_shared_activation(&ActivationRetirementReceipt { origin: 1, stamp: 7 }).unwrap();
    let mut r = release(Some(PrivateNativeHold::Pointer(hold)));
    assert!(r.begin_native_recording().is_some());
    assert!(r.native_recording_answered(true));
    assert!(r.native_recorded);
    assert_eq!(r.native_attempts, 1);
    // Recorded: nothing more is owed, and no attempt is spent.
    assert_eq!(r.begin_native_recording(), None);
    assert_eq!(r.native_attempts, 1);
}

#[test]
fn a_release_without_proof_spends_no_attempt() {
    let mut r = release(Some(PrivateNativeHold::Pointer(waiting_pointer(1, 7))));
    assert_eq!(r.begin_native_recording(), None);
    assert_eq!(r.native_attempts, 0);
}

#[test]
fn a_release_keeps_what_its_press_reached() {
    let r = release(None);
    let reached = r.reached();
    assert_eq!(reached, PrivateReachedResources::resolved(9, 30, 4, 1, 2, 44));
    assert_eq!(
        (reached.client(), reached.window(), reached.surface(), reached.namespace(), reached.seat(), reached.grant()),
        (9, 30, 4, 1, 2, 44)
    );
}

struct Termination {
    terminated: bool,
    settled: Option<bool>,
    asked: RefCell<Vec<(u64, HoldIncarnation, Option<u64>)>>,
    outputs: RefCell<Vec<(usize, bool, Option<u8>)>>,
}

impl PrivateTerminationAnswers<u8> for Termination {
    fn endpoint_terminated(&self, _index: usize) -> bool {
        self.terminated
    }

    fn settle_recipient(&self, grant: u64, incarnation: HoldIncarnation, attempt: Option<u64>) -> Option<bool> {
        self.asked.borrow_mut().push((grant, incarnation, attempt));
        self.settled
    }

    fn answer_output(
        &self,
        index: usize,
        press: bool,
        custody: PrivateDeliveryCustody,
        emission: Option<u8>,
    ) -> PrivateOutputStanding {
        self.outputs.borrow_mut().push((index, press, emission));
        PrivateOutputStanding { pending: false, dispatch: if custody.pending || emission.is_some() {
            PrivateDispatchPhase::Unrepeatable
        } else {
            custody.dispatch
        } }
    }
}

fn terminating(settled: Option<bool>) -> Termination {
    Termination { terminated: true, settled, asked: RefCell::new(Vec::new()), outputs: RefCell::new(Vec::new()) }
}

#[test]
fn a_terminated_recipient_is_settled_once_and_its_attempt_let_go() {
    let mut r = release(Some(PrivateNativeHold::Pointer(waiting_pointer(1, 7))));
    r.custody.attempt = Some(5);
    r.press_custody = Some(PrivateDeliveryCustody::new(0, true));
    let mut inventory = inventory_of(vec![release(None), r]);
    inventory.attempt_custody = Some(5);
    inventory.recipient_termination_cursor = 1;
    let answers = terminating(Some(true));
    assert_eq!(
        inventory.settle_one_terminated_recipient(&answers),
        PrivateReceiptStep::Settled { debt_settled: true }
    );
    assert_eq!(*answers.asked.borrow(), vec![(44, INCARNATION, Some(5))]);
    assert_eq!(inventory.recipient_termination_cursor, 0);
    assert_eq!(inventory.attempt_custody, None);
    let settled = &inventory.settling[1];
    assert!(settled.custody.recipient_termination);
    assert_eq!(settled.custody.attempt, None);
    assert!(settled.press_custody.unwrap().recipient_termination);
    // Untaken output was stowed from the hold and handed over for adjudication.
    assert_eq!(*answers.outputs.borrow(), vec![(1, false, Some(2)), (1, true, Some(1))]);
    assert_eq!(settled.custody.dispatch, PrivateDispatchPhase::Unrepeatable);

    // The next visit of the same release asks the authority nothing again.
    inventory.recipient_termination_cursor = 1;
    let again = terminating(Some(true));
    assert_eq!(inventory.settle_one_terminated_recipient(&again), PrivateReceiptStep::Unanswered);
    assert!(again.asked.borrow().is_empty());
}

#[test]
fn an_unanswered_or_unterminated_recipient_changes_nothing() {
    let r = release(Some(PrivateNativeHold::Pointer(waiting_pointer(1, 7))));
    let mut inventory = inventory_of(vec![r]);
    let unanswered = terminating(None);
    assert_eq!(inventory.settle_one_terminated_recipient(&unanswered), PrivateReceiptStep::Unanswered);
    assert!(!inventory.settling[0].custody.recipient_termination);
    assert!(unanswered.outputs.borrow().is_empty());
    let live = Termination { terminated: false, ..terminating(Some(true)) };
    assert_eq!(inventory.settle_one_terminated_recipient(&live), PrivateReceiptStep::Unanswered);
    assert!(live.asked.borrow().is_empty());
    let mut nothing = inventory_of(vec![release(None)]);
    assert_eq!(nothing.settle_one_terminated_recipient(&terminating(Some(true))), PrivateReceiptStep::Unanswered);
    let mut empty = inventory_of(Vec::new());
    assert_eq!(empty.settle_one_terminated_recipient(&terminating(Some(true))), PrivateReceiptStep::Unanswered);
}

#[test]
fn terminal_state_answers_a_terminated_recipient_through_its_inventory() {
    let r = release(Some(PrivateNativeHold::Pointer(waiting_pointer(1, 7))));
    let mut state = PrivateTerminalState {
        inventory: inventory_of(vec![r]),
        answers: terminating(Some(false)),
        checks: Checks::new(Vec::new(), None),
    };
    assert!(state.owes_terminated_recipient());
    assert_eq!(state.settle_one_terminated_recipient(), PrivateReceiptStep::Settled { debt_settled: false });
    assert!(state.inventory.settling[0].custody.recipient_termination);
    assert!(!state.owes_live_native_disposal());
    state.answers.terminated = false;
    assert!(!state.owes_terminated_recipient());
}
