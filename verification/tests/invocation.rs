use std::cell::RefCell;
use sophia_x_authority::invocation_completion::{
    custody_evidence_refusal, retire_completed_custody, visit_invocation_completion, PrivateCleanupReading,
    PrivateCleanupReport, PrivateContinuationFacts, PrivateCustodyEvidence, PrivateHomeReading,
    PrivateInvocationReads, PrivateKeptCustody, PrivateTerminalDriveRefusal, PRIVATE_CERTIFY_CLASS,
    PRIVATE_CUSTODY_CLASS,
};
use sophia_x_authority::ordered_continuation::PrivateHandoverFence;

/// Evidence on which a published custody may go.
fn releasable() -> PrivateCustodyEvidence {
    PrivateCustodyEvidence {
        prerequisites_met: true,
        join_returned: true,
        fence: Some(PrivateHandoverFence::Established),
        cleanup: PrivateCleanupReading::Done(PrivateCleanupReport {
            committed: true,
            closure: PrivateHandoverFence::Established,
            namespace_established: true,
        }),
        home_is_own: true,
        storage_returned: true,
        home: PrivateHomeReading::Read {
            retained: true,
            continuation: Some(PrivateContinuationFacts {
                source_poisoned: false,
                fence: Some(PrivateHandoverFence::Established),
                joined_same_worker: true,
                settled: true,
            }),
        },
    }
}
use sophia_x_authority::terminal_scan::{PrivateInvocationCompletionCursor, PrivateTerminalVisit};

struct Store {
    epoch: Result<Option<u64>, PrivateTerminalDriveRefusal>,
    queue_empty: bool,
    /// Rows per class; `true` rows belong to this invocation.
    classes: Vec<Vec<bool>>,
    evidence: PrivateCustodyEvidence,
    kept: Vec<PrivateKeptCustody>,
    still_there: bool,
    taken: Vec<usize>,
}

impl Store {
    fn empty(epoch: u64) -> Self {
        Store {
            epoch: Ok(Some(epoch)),
            queue_empty: true,
            classes: vec![Vec::new(); 12],
            evidence: releasable(),
            kept: Vec::new(),
            still_there: true,
            taken: Vec::new(),
        }
    }
}

type Refusal = PrivateTerminalDriveRefusal;

/// The store's steps, each reading or changing the one store.
fn reads(
    store: &RefCell<Store>,
) -> PrivateInvocationReads<
    impl FnOnce() -> Result<bool, Refusal> + '_,
    impl FnOnce() -> Result<Option<u64>, Refusal> + '_,
    impl FnOnce(u8, usize) -> Option<bool> + '_,
    impl FnOnce() -> Result<usize, Refusal> + '_,
    impl FnOnce(usize) -> Result<PrivateKeptCustody, Refusal> + '_,
    impl FnOnce(usize) -> PrivateCustodyEvidence + '_,
    impl FnOnce(usize) -> Result<bool, Refusal> + '_,
> {
    PrivateInvocationReads {
        queue_closed_empty: move || Ok(store.borrow().queue_empty),
        obligation_epoch: move || store.borrow().epoch,
        row_matches: move |class: u8, row: usize| store.borrow().classes[class as usize].get(row).copied(),
        kept_places: move || Ok(store.borrow().kept.len()),
        kept_custody: move |index: usize| Ok(store.borrow().kept[index]),
        custody_evidence: move |_index: usize| store.borrow().evidence,
        take_kept: move |index: usize| {
            let mut s = store.borrow_mut();
            if s.still_there {
                s.taken.push(index);
            }
            Ok(s.still_there)
        },
    }
}

fn visit_once(
    handed_off: bool,
    completed: &mut bool,
    store: &mut Store,
    cursor: &mut PrivateInvocationCompletionCursor,
) -> Result<PrivateTerminalVisit, Refusal> {
    let cell = RefCell::new(std::mem::replace(store, Store::empty(0)));
    let r = visit_invocation_completion(handed_off, completed, reads(&cell), cursor);
    *store = cell.into_inner();
    r
}

fn retire_once(
    completed: bool,
    store: &mut Store,
    cursor: &mut PrivateInvocationCompletionCursor,
) -> Result<PrivateTerminalVisit, Refusal> {
    let cell = RefCell::new(std::mem::replace(store, Store::empty(0)));
    let r = retire_completed_custody(completed, reads(&cell), cursor);
    *store = cell.into_inner();
    r
}

fn run_until_settled(
    store: &mut Store,
    completed: &mut bool,
    cursor: &mut PrivateInvocationCompletionCursor,
) -> (PrivateTerminalVisit, usize) {
    for visits in 1..200 {
        let visit = visit_once(true, completed, store, cursor).unwrap();
        if visit != PrivateTerminalVisit::InvocationScanning {
            return (visit, visits);
        }
    }
    panic!("the scan did not settle");
}

#[test]
fn nothing_is_scanned_while_the_executor_owns_the_settlement() {
    let mut store = Store::empty(4);
    let mut completed = false;
    let mut cursor = PrivateInvocationCompletionCursor { epoch: Some(4), class: 3, row: 2, custody: 1 };
    let visit = visit_once(false, &mut completed, &mut store, &mut cursor);
    assert_eq!(visit, Ok(PrivateTerminalVisit::SettlementStillOwned));
    assert_eq!(cursor, PrivateInvocationCompletionCursor { epoch: None, class: 0, row: 0, custody: 1 });
}

#[test]
fn a_whole_quiet_pass_certifies_completion() {
    let mut store = Store::empty(4);
    let mut completed = false;
    let mut cursor = PrivateInvocationCompletionCursor::new();
    // The first visit adopts the epoch; then each of twelve classes ends,
    // then certification.
    let (visit, visits) = run_until_settled(&mut store, &mut completed, &mut cursor);
    assert_eq!(visit, PrivateTerminalVisit::InvocationCompleted);
    assert_eq!(visits, 14);
    assert!(completed);
    assert_eq!(cursor.class, PRIVATE_CERTIFY_CLASS);
}

#[test]
fn a_row_of_this_invocation_restarts_the_scan() {
    let mut store = Store::empty(4);
    let mut completed = false;
    store.classes[2] = vec![false, true];
    let mut cursor = PrivateInvocationCompletionCursor::new();
    let (visit, _) = run_until_settled(&mut store, &mut completed, &mut cursor);
    assert_eq!(visit, PrivateTerminalVisit::InvocationOutstanding);
    assert_eq!((cursor.epoch, cursor.class, cursor.row), (Some(4), 0, 0));
    assert!(!completed);
}

#[test]
fn a_moved_store_or_a_live_queue_refuses_certification() {
    let mut store = Store::empty(4);
    let mut completed = false;
    let mut cursor = PrivateInvocationCompletionCursor { epoch: Some(4), class: PRIVATE_CERTIFY_CLASS, row: 0, custody: 0 };
    store.epoch = Ok(Some(5));
    let visit = visit_once(true, &mut completed, &mut store, &mut cursor);
    assert_eq!(visit, Ok(PrivateTerminalVisit::InvocationOutstanding));
    assert_eq!((cursor.epoch, cursor.class), (Some(5), 0));

    let mut cursor = PrivateInvocationCompletionCursor { epoch: Some(5), class: PRIVATE_CERTIFY_CLASS, row: 0, custody: 0 };
    store.queue_empty = false;
    let visit = visit_once(true, &mut completed, &mut store, &mut cursor);
    assert_eq!(visit, Ok(PrivateTerminalVisit::InvocationOutstanding));
    assert!(!completed);
}

#[test]
fn an_exhausted_or_unreadable_epoch_refuses() {
    let mut store = Store::empty(4);
    let mut completed = false;
    store.epoch = Ok(None);
    let mut cursor = PrivateInvocationCompletionCursor::new();
    let visit = visit_once(true, &mut completed, &mut store, &mut cursor);
    assert_eq!(visit, Err(PrivateTerminalDriveRefusal::CompletionEpochExhausted));
    store.epoch = Err(PrivateTerminalDriveRefusal::StoreUnreadable);
    let visit = visit_once(true, &mut completed, &mut store, &mut cursor);
    assert_eq!(visit, Err(PrivateTerminalDriveRefusal::StoreUnreadable));
}

#[test]
fn custody_rows_are_checked_and_passed() {
    let mut store = Store::empty(4);
    let mut completed = false;
    store.kept = vec![PrivateKeptCustody::Published, PrivateKeptCustody::Vacant];
    let mut cursor = PrivateInvocationCompletionCursor { epoch: Some(4), class: PRIVATE_CUSTODY_CLASS, row: 0, custody: 0 };
    for _ in 0..2 {
        assert_eq!(
            visit_once(true, &mut completed, &mut store, &mut cursor),
            Ok(PrivateTerminalVisit::InvocationScanning)
        );
    }
    assert_eq!((cursor.class, cursor.row), (PRIVATE_CUSTODY_CLASS, 2));
    visit_once(true, &mut completed, &mut store, &mut cursor).unwrap();
    assert_eq!((cursor.class, cursor.row), (PRIVATE_CERTIFY_CLASS, 0));

    let mut cursor = PrivateInvocationCompletionCursor { epoch: Some(4), class: PRIVATE_CUSTODY_CLASS, row: 0, custody: 0 };
    store.evidence = PrivateCustodyEvidence { join_returned: false, ..releasable() };
    assert_eq!(
        visit_once(true, &mut completed, &mut store, &mut cursor),
        Err(PrivateTerminalDriveRefusal::WorkerFailureRetained)
    );
}

#[test]
fn a_completed_invocation_retires_its_custody_in_rotation() {
    let mut store = Store::empty(4);
    store.kept = vec![PrivateKeptCustody::Vacant, PrivateKeptCustody::OtherInvocation, PrivateKeptCustody::Published];
    let mut cursor = PrivateInvocationCompletionCursor { epoch: Some(4), class: 5, row: 1, custody: 0 };
    assert_eq!(
        visit_once(true, &mut true, &mut store, &mut cursor),
        Ok(PrivateTerminalVisit::CustodyRetired { retired: false })
    );
    assert_eq!(
        visit_once(true, &mut true, &mut store, &mut cursor),
        Ok(PrivateTerminalVisit::OtherInvocation)
    );
    assert_eq!(
        visit_once(true, &mut true, &mut store, &mut cursor),
        Ok(PrivateTerminalVisit::CustodyRetired { retired: true })
    );
    assert_eq!(store.taken, vec![2]);
    assert_eq!(cursor.custody, 0);
    assert_eq!((cursor.class, cursor.row), (5, 1));
}

#[test]
fn retirement_needs_evidence_and_an_unchanged_place() {
    let mut store = Store::empty(4);
    store.kept = vec![PrivateKeptCustody::Published];
    store.still_there = false;
    let mut cursor = PrivateInvocationCompletionCursor::new();
    assert_eq!(
        retire_once(true, &mut store, &mut cursor),
        Err(PrivateTerminalDriveRefusal::RecipientUnavailable)
    );
    store.evidence = PrivateCustodyEvidence { prerequisites_met: false, ..releasable() };
    store.still_there = true;
    assert_eq!(
        retire_once(true, &mut store, &mut cursor),
        Err(PrivateTerminalDriveRefusal::RecipientUnavailable)
    );
    assert!(store.taken.is_empty());
    assert_eq!(
        retire_once(false, &mut store, &mut cursor),
        Ok(PrivateTerminalVisit::InvocationOutstanding)
    );
    let mut nothing = Store::empty(4);
    assert_eq!(
        retire_once(true, &mut nothing, &mut cursor),
        Ok(PrivateTerminalVisit::CustodyRetired { retired: false })
    );
}

#[test]
fn custody_evidence_is_checked_in_order() {
    assert_eq!(custody_evidence_refusal(&releasable()), Ok(()));
    let unavailable = Err(PrivateTerminalDriveRefusal::RecipientUnavailable);
    let unreadable = Err(PrivateTerminalDriveRefusal::StoreUnreadable);
    let e = PrivateCustodyEvidence { prerequisites_met: false, join_returned: false, ..releasable() };
    assert_eq!(custody_evidence_refusal(&e), unavailable);
    let e = PrivateCustodyEvidence { join_returned: false, fence: None, ..releasable() };
    assert_eq!(custody_evidence_refusal(&e), Err(PrivateTerminalDriveRefusal::WorkerFailureRetained));
    let e = PrivateCustodyEvidence { fence: Some(PrivateHandoverFence::Unreadable), ..releasable() };
    assert_eq!(custody_evidence_refusal(&e), unavailable);
    let e = PrivateCustodyEvidence { cleanup: PrivateCleanupReading::Unreadable, ..releasable() };
    assert_eq!(custody_evidence_refusal(&e), unreadable);
    let e = PrivateCustodyEvidence { cleanup: PrivateCleanupReading::Pending, ..releasable() };
    assert_eq!(custody_evidence_refusal(&e), unavailable);
    let other_closure = PrivateCleanupReport {
        committed: true,
        closure: PrivateHandoverFence::AlreadyEstablished,
        namespace_established: true,
    };
    let e = PrivateCustodyEvidence { cleanup: PrivateCleanupReading::Done(other_closure), ..releasable() };
    assert_eq!(custody_evidence_refusal(&e), unavailable);
    let e = PrivateCustodyEvidence { storage_returned: false, home: PrivateHomeReading::Unreadable, ..releasable() };
    assert_eq!(custody_evidence_refusal(&e), unavailable);
    let e = PrivateCustodyEvidence { home: PrivateHomeReading::Unreadable, ..releasable() };
    assert_eq!(custody_evidence_refusal(&e), unreadable);
    let e = PrivateCustodyEvidence { home: PrivateHomeReading::Read { retained: true, continuation: None }, ..releasable() };
    assert_eq!(custody_evidence_refusal(&e), unavailable);
    let unsettled = PrivateContinuationFacts {
        source_poisoned: false,
        fence: Some(PrivateHandoverFence::Established),
        joined_same_worker: true,
        settled: false,
    };
    let e = PrivateCustodyEvidence {
        home: PrivateHomeReading::Read { retained: true, continuation: Some(unsettled) },
        ..releasable()
    };
    assert_eq!(custody_evidence_refusal(&e), unavailable);
}

#[test]
fn a_custody_whose_evidence_fails_is_not_taken() {
    let mut store = Store::empty(4);
    store.kept = vec![PrivateKeptCustody::Published];
    store.evidence = PrivateCustodyEvidence { cleanup: PrivateCleanupReading::Unreadable, ..releasable() };
    let mut cursor = PrivateInvocationCompletionCursor::new();
    assert_eq!(
        retire_once(true, &mut store, &mut cursor),
        Err(PrivateTerminalDriveRefusal::StoreUnreadable)
    );
    assert!(store.taken.is_empty());
}
