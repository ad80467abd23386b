// Whether one executor invocation has completed, and the retirement of the
// custody it published once it has.
//
// One row of one obligation class is examined per charged visit, against the
// store's obligation epoch. Any move between the store's classes changes the
// epoch and restarts the scan, so completion is certified only by a whole
// pass, a closed empty queue, and an epoch that held still throughout.
use vstd::prelude::*;
use crate::ordered_continuation::PrivateHandoverFence;
use crate::terminal_scan::{PrivateInvocationCompletionCursor, PrivateTerminalVisit};

verus! {

/// The obligation classes a scan passes through before it may certify.
pub const PRIVATE_SCANNED_CLASSES: u8 = 12;

/// The class that examines the kept custody places.
pub const PRIVATE_CUSTODY_CLASS: u8 = 12;

/// The final class: certification.
pub const PRIVATE_CERTIFY_CLASS: u8 = 13;

/// Why a terminal drive step could not be taken.
#[derive(Debug, Clone, Copy, PartialEq, Eq, Structural)]
pub enum PrivateTerminalDriveRefusal {
    /// A store or a place list could not be read.
    StoreUnreadable,
    /// The store's obligation epoch can no longer count moves.
    CompletionEpochExhausted,
    /// The recipient's evidence is not (or no longer) what retirement needs.
    RecipientUnavailable,
    /// The worker's failure evidence is retained; nothing acknowledges it.
    WorkerFailureRetained,
}

/// What one kept custody place holds, as a retirement reads it.
#[derive(Debug, Clone, Copy, PartialEq, Eq, Structural)]
pub enum PrivateKeptCustody {
    /// Nothing is kept there.
    Vacant,
    /// Custody another invocation published.
    OtherInvocation,
    /// Custody this invocation published.
    Published,
}

/// The report a custody's deferred cleanup left, once it was done.
#[derive(Debug, Clone, Copy, PartialEq, Eq, Structural)]
pub struct PrivateCleanupReport {
    /// Whether the cleanup committed.
    pub committed: bool,
    /// The closure the cleanup recorded.
    pub closure: PrivateHandoverFence,
    /// Whether the namespace's clearance was established.
    pub namespace_established: bool,
}

/// Where a custody's deferred cleanup stands, as far as it could be read.
#[derive(Debug, Clone, Copy, PartialEq, Eq, Structural)]
pub enum PrivateCleanupReading {
    /// Its record could not be read.
    Unreadable,
    /// Not done yet.
    Pending,
    /// Done, with this report.
    Done(PrivateCleanupReport),
}

/// What the retained continuation in a custody's home says of itself.
#[derive(Debug, Clone, Copy, PartialEq, Eq, Structural)]
pub struct PrivateContinuationFacts {
    /// Whether its source was poisoned.
    pub source_poisoned: bool,
    /// The closure its evidence recorded.
    pub fence: Option<PrivateHandoverFence>,
    /// Whether its worker exit is the join this custody holds.
    pub joined_same_worker: bool,
    /// Whether it owes nothing more.
    pub settled: bool,
}

/// What a custody's ordered home holds, as far as it could be read.
#[derive(Debug, Clone, Copy, PartialEq, Eq, Structural)]
pub enum PrivateHomeReading {
    /// The home's state could not be read.
    Unreadable,
    /// Read: whether the home is retained, and its continuation, if any.
    Read { retained: bool, continuation: Option<PrivateContinuationFacts> },
}

/// Everything the release of one published custody is decided from.
#[derive(Debug, Clone, Copy, PartialEq, Eq, Structural)]
pub struct PrivateCustodyEvidence {
    /// Whether its deferred cleanup's prerequisites are met.
    pub prerequisites_met: bool,
    /// Whether its worker's join returned, rather than failed.
    pub join_returned: bool,
    /// The closure its fence evidence recorded.
    pub fence: Option<PrivateHandoverFence>,
    pub cleanup: PrivateCleanupReading,
    /// Whether the home its identity names is the home its record keeps.
    pub home_is_own: bool,
    /// Whether that home's storage was returned.
    pub storage_returned: bool,
    pub home: PrivateHomeReading,
}

/// Whether a published custody may be released, and why not: its cleanup's
/// prerequisites, a returned join, a readable closure, a committed cleanup
/// that recorded that closure with the namespace cleared, its own home with
/// storage returned, and a retained, settled continuation there whose
/// evidence is unpoisoned, names the same closure and the same worker.
/// Checked in that order; the first that fails decides.
pub open spec fn custody_evidence_spec(e: PrivateCustodyEvidence) -> Result<(), PrivateTerminalDriveRefusal> {
    if !e.prerequisites_met {
        Err(PrivateTerminalDriveRefusal::RecipientUnavailable)
    } else if !e.join_returned {
        Err(PrivateTerminalDriveRefusal::WorkerFailureRetained)
    } else if e.fence is None || e.fence == Some(PrivateHandoverFence::Unreadable) {
        Err(PrivateTerminalDriveRefusal::RecipientUnavailable)
    } else {
        match e.cleanup {
            PrivateCleanupReading::Unreadable => Err(PrivateTerminalDriveRefusal::StoreUnreadable),
            PrivateCleanupReading::Pending => Err(PrivateTerminalDriveRefusal::RecipientUnavailable),
            PrivateCleanupReading::Done(report) => if !(report.committed && Some(report.closure) == e.fence
                && report.namespace_established) {
                Err(PrivateTerminalDriveRefusal::RecipientUnavailable)
            } else if !e.home_is_own || !e.storage_returned {
                Err(PrivateTerminalDriveRefusal::RecipientUnavailable)
            } else {
                match e.home {
                    PrivateHomeReading::Unreadable => Err(PrivateTerminalDriveRefusal::StoreUnreadable),
                    PrivateHomeReading::Read { retained, continuation } => if !retained {
                        Err(PrivateTerminalDriveRefusal::RecipientUnavailable)
                    } else {
                        match continuation {
                            None => Err(PrivateTerminalDriveRefusal::RecipientUnavailable),
                            Some(c) => if c.source_poisoned || c.fence != e.fence || !c.joined_same_worker
                                || !c.settled {
                                Err(PrivateTerminalDriveRefusal::RecipientUnavailable)
                            } else {
                                Ok(())
                            },
                        }
                    },
                }
            },
        }
    }
}

/// Decide whether a published custody may be released.
pub fn custody_evidence_refusal(e: &PrivateCustodyEvidence) -> (r: Result<(), PrivateTerminalDriveRefusal>)
    ensures
        r == custody_evidence_spec(*e),
{
    if !e.prerequisites_met {
        return Err(PrivateTerminalDriveRefusal::RecipientUnavailable);
    }
    if !e.join_returned {
        return Err(PrivateTerminalDriveRefusal::WorkerFailureRetained);
    }
    let fence = match e.fence {
        None => return Err(PrivateTerminalDriveRefusal::RecipientUnavailable),
        Some(PrivateHandoverFence::Unreadable) => return Err(PrivateTerminalDriveRefusal::RecipientUnavailable),
        Some(f) => f,
    };
    let report = match e.cleanup {
        PrivateCleanupReading::Unreadable => return Err(PrivateTerminalDriveRefusal::StoreUnreadable),
        PrivateCleanupReading::Pending => return Err(PrivateTerminalDriveRefusal::RecipientUnavailable),
        PrivateCleanupReading::Done(report) => report,
    };
    if !(report.committed && report.closure == fence && report.namespace_established) {
        return Err(PrivateTerminalDriveRefusal::RecipientUnavailable);
    }
    if !e.home_is_own || !e.storage_returned {
        return Err(PrivateTerminalDriveRefusal::RecipientUnavailable);
    }
    match e.home {
        PrivateHomeReading::Unreadable => Err(PrivateTerminalDriveRefusal::StoreUnreadable),
        PrivateHomeReading::Read { retained, continuation } => {
            if !retained {
                return Err(PrivateTerminalDriveRefusal::RecipientUnavailable);
            }
            match continuation {
                None => Err(PrivateTerminalDriveRefusal::RecipientUnavailable),
                Some(c) => {
                    if c.source_poisoned || c.fence != e.fence || !c.joined_same_worker || !c.settled {
                        Err(PrivateTerminalDriveRefusal::RecipientUnavailable)
                    } else {
                        Ok(())
                    }
                },
            }
        },
    }
}

/// What a completion visit reads of the store, the queue and the kept
/// custody, and the two things it may change there: one step each, asked at
/// most once per visit.
///
/// The answers are the store's own, read under its locks; the contracts
/// below say which step is asked, with what, and what the visit makes of
/// whatever each step answered.
pub struct PrivateInvocationReads<Q, Ep, Rm, Kp, Kc, Ce, Tk> {
    /// Whether the invocation's own queue is closed and empty.
    pub queue_closed_empty: Q,
    /// The store's obligation epoch; `None` once it can no longer count.
    pub obligation_epoch: Ep,
    /// Whether a row of an obligation class (class, row) was registered by
    /// this invocation's own registry; `None` past the class's last row.
    pub row_matches: Rm,
    /// How many custody places are kept.
    pub kept_places: Kp,
    /// What a kept place holds.
    pub kept_custody: Kc,
    /// What releasing the custody at a kept place is decided from.
    pub custody_evidence: Ce,
    /// Take the custody at a kept place out of it; `false` when the place no
    /// longer holds the custody that was examined.
    pub take_kept: Tk,
}

/// Every step of `reads` may be asked, with any argument.
pub open spec fn reads_callable<Q, Ep, Rm, Kp, Kc, Ce, Tk>(reads: PrivateInvocationReads<Q, Ep, Rm, Kp, Kc, Ce, Tk>) -> bool where
    Q: FnOnce() -> Result<bool, PrivateTerminalDriveRefusal>,
    Ep: FnOnce() -> Result<Option<u64>, PrivateTerminalDriveRefusal>,
    Rm: FnOnce(u8, usize) -> Option<bool>,
    Kp: FnOnce() -> Result<usize, PrivateTerminalDriveRefusal>,
    Kc: FnOnce(usize) -> Result<PrivateKeptCustody, PrivateTerminalDriveRefusal>,
    Ce: FnOnce(usize) -> PrivateCustodyEvidence,
    Tk: FnOnce(usize) -> Result<bool, PrivateTerminalDriveRefusal>,
 {
    &&& call_requires(reads.queue_closed_empty, ())
    &&& call_requires(reads.obligation_epoch, ())
    &&& forall|class: u8, row: usize| #[trigger] call_requires(reads.row_matches, (class, row))
    &&& call_requires(reads.kept_places, ())
    &&& forall|i: usize| #[trigger] call_requires(reads.kept_custody, (i,))
    &&& forall|i: usize| #[trigger] call_requires(reads.custody_evidence, (i,))
    &&& forall|i: usize| #[trigger] call_requires(reads.take_kept, (i,))
}

/// A cursor whose scan starts over against `epoch`.
pub open spec fn restarted(c: PrivateInvocationCompletionCursor, epoch: Option<u64>) -> PrivateInvocationCompletionCursor {
    PrivateInvocationCompletionCursor { epoch, class: 0, row: 0, ..c }
}

/// A cursor brought up to the store's epoch `e`: kept where it was while the
/// epoch held still, restarted at `e` otherwise.
pub open spec fn synchronized(c: PrivateInvocationCompletionCursor, e: u64) -> PrivateInvocationCompletionCursor {
    if c.epoch == Some(e) {
        c
    } else {
        restarted(c, Some(e))
    }
}

/// What reading one row does to the scan: a row of this invocation means it
/// is outstanding and the scan starts over; another's row moves to the next
/// row; the end of a class moves to the first row of the next class.
pub open spec fn observed(c: PrivateInvocationCompletionCursor, matching: Option<bool>) -> (
    PrivateTerminalVisit,
    PrivateInvocationCompletionCursor,
) {
    match matching {
        Some(true) => (
            PrivateTerminalVisit::InvocationOutstanding,
            PrivateInvocationCompletionCursor { class: 0, row: 0, ..c },
        ),
        Some(false) => (
            PrivateTerminalVisit::InvocationScanning,
            PrivateInvocationCompletionCursor { row: (c.row + 1) as usize, ..c },
        ),
        None => (
            PrivateTerminalVisit::InvocationScanning,
            PrivateInvocationCompletionCursor { class: (c.class + 1) as u8, row: 0, ..c },
        ),
    }
}

/// What the certifying check decides, given whether the queue was closed
/// and empty and the store's epoch at that moment.
pub open spec fn certified(c: PrivateInvocationCompletionCursor, empty: bool, epoch: Option<u64>) -> (
    PrivateTerminalVisit,
    PrivateInvocationCompletionCursor,
) {
    if empty && c.epoch is Some && epoch == c.epoch {
        (PrivateTerminalVisit::InvocationCompleted, c)
    } else {
        (PrivateTerminalVisit::InvocationOutstanding, restarted(c, epoch))
    }
}

/// Whether a cursor is where a scan can be: at most at certification.
pub open spec fn cursor_wf(c: PrivateInvocationCompletionCursor) -> bool {
    c.class <= PRIVATE_CERTIFY_CLASS
}

impl PrivateInvocationCompletionCursor {
    /// Bring the scan up to the store's epoch before a row is read: a store
    /// that moved since the scan began restarts it, and an epoch that can no
    /// longer count refuses.
    pub fn synchronize(&mut self, epoch: Option<u64>) -> (r: Result<(), PrivateTerminalDriveRefusal>)
        ensures
            epoch is None ==> r == Err::<(), PrivateTerminalDriveRefusal>(
                PrivateTerminalDriveRefusal::CompletionEpochExhausted,
            ) && *final(self) == *old(self),
            epoch is Some ==> r is Ok && *final(self) == if old(self).epoch == epoch {
                *old(self)
            } else {
                restarted(*old(self), epoch)
            },
    {
        match epoch {
            None => Err(PrivateTerminalDriveRefusal::CompletionEpochExhausted),
            Some(e) => {
                let same = match self.epoch {
                    Some(held) => held == e,
                    None => false,
                };
                if !same {
                    self.restart(Some(e));
                }
                Ok(())
            },
        }
    }

    /// The final check of a whole pass: completion is certified only if the
    /// queue is closed and empty and the store's epoch is still the one the
    /// pass began at. Anything else restarts the scan at the current epoch.
    pub fn certify(&mut self, queue_closed_empty: bool, epoch: Option<u64>) -> (r: PrivateTerminalVisit)
        ensures
            (r == PrivateTerminalVisit::InvocationCompleted) <==> (queue_closed_empty && old(self).epoch is Some
                && epoch == old(self).epoch),
            r == PrivateTerminalVisit::InvocationCompleted ==> *final(self) == *old(self),
            r != PrivateTerminalVisit::InvocationCompleted ==> r == PrivateTerminalVisit::InvocationOutstanding
                && *final(self) == restarted(*old(self), epoch),
    {
        let stable = match (self.epoch, epoch) {
            (Some(held), Some(now)) => held == now,
            _ => false,
        };
        if !queue_closed_empty || !stable {
            self.restart(epoch);
            return PrivateTerminalVisit::InvocationOutstanding;
        }
        PrivateTerminalVisit::InvocationCompleted
    }

    /// The kept place a retirement visits next, out of `places`, moving the
    /// rotation on past it; `None` when nothing is kept.
    pub fn next_custody(&mut self, places: usize) -> (r: Option<usize>)
        ensures
            places == 0 ==> r is None && *final(self) == *old(self),
            places > 0 ==> r == Some((old(self).custody % places) as usize) && *final(self) == (
            PrivateInvocationCompletionCursor {
                custody: (((old(self).custody % places) + 1) % (places as int)) as usize,
                ..*old(self)
            }),
    {
        if places == 0 {
            return None;
        }
        let index = self.custody % places;
        self.custody = (index + 1) % places;
        Some(index)
    }
}

/// A visit's result and its cursor afterwards.
pub type PrivateCompletionStep = (Result<PrivateTerminalVisit, PrivateTerminalDriveRefusal>, PrivateInvocationCompletionCursor);

/// What a certifying visit makes of the queue's answer and, once the queue
/// answered, the epoch's: a refusal leaves the cursor as it was.
pub open spec fn certify_outcome(
    c: PrivateInvocationCompletionCursor,
    queue: Result<bool, PrivateTerminalDriveRefusal>,
    epoch: Result<Option<u64>, PrivateTerminalDriveRefusal>,
) -> PrivateCompletionStep {
    match queue {
        Err(e) => (Err(e), c),
        Ok(empty) => match epoch {
            Err(e) => (Err(e), c),
            Ok(now) => (Ok(certified(c, empty, now).0), certified(c, empty, now).1),
        },
    }
}

/// The steps a certifying visit asks: the queue, then the epoch once the
/// queue answered.
pub open spec fn certify_answers<Q, Ep, Rm, Kp, Kc, Ce, Tk>(
    reads: PrivateInvocationReads<Q, Ep, Rm, Kp, Kc, Ce, Tk>,
    queue: Result<bool, PrivateTerminalDriveRefusal>,
    epoch: Result<Option<u64>, PrivateTerminalDriveRefusal>,
) -> bool where
    Q: FnOnce() -> Result<bool, PrivateTerminalDriveRefusal>,
    Ep: FnOnce() -> Result<Option<u64>, PrivateTerminalDriveRefusal>,
    Rm: FnOnce(u8, usize) -> Option<bool>,
    Kp: FnOnce() -> Result<usize, PrivateTerminalDriveRefusal>,
    Kc: FnOnce(usize) -> Result<PrivateKeptCustody, PrivateTerminalDriveRefusal>,
    Ce: FnOnce(usize) -> PrivateCustodyEvidence,
    Tk: FnOnce(usize) -> Result<bool, PrivateTerminalDriveRefusal>,
 {
    &&& call_ensures(reads.queue_closed_empty, (), queue)
    &&& queue is Ok ==> call_ensures(reads.obligation_epoch, (), epoch)
}

/// A row visit with the observation `matching` made at the synchronized
/// cursor.
pub open spec fn observed_step(s: PrivateInvocationCompletionCursor, matching: Option<bool>) -> PrivateCompletionStep {
    (Ok(observed(s, matching).0), observed(s, matching).1)
}

/// What a row visit makes of the answers: the epoch first (a refusal or an
/// exhausted epoch leaves the cursor as it was); then, at the synchronized
/// cursor, either the row of the class it is at, or, in the custody class,
/// the kept place at its row: a published custody there must pass its
/// evidence, and the row moves on; past the last place the class ends.
pub open spec fn row_outcome(
    c: PrivateInvocationCompletionCursor,
    epoch: Result<Option<u64>, PrivateTerminalDriveRefusal>,
    places: Result<usize, PrivateTerminalDriveRefusal>,
    kept: Result<PrivateKeptCustody, PrivateTerminalDriveRefusal>,
    evidence: PrivateCustodyEvidence,
    matching: Option<bool>,
) -> PrivateCompletionStep {
    match epoch {
        Err(e) => (Err(e), c),
        Ok(None) => (Err(PrivateTerminalDriveRefusal::CompletionEpochExhausted), c),
        Ok(Some(e)) => {
            let s = synchronized(c, e);
            if s.class == PRIVATE_CUSTODY_CLASS {
                match places {
                    Err(x) => (Err(x), s),
                    Ok(n) => if s.row < n {
                        match kept {
                            Err(x) => (Err(x), s),
                            Ok(PrivateKeptCustody::Published) => match custody_evidence_spec(evidence) {
                                Err(x) => (Err(x), s),
                                Ok(_) => observed_step(s, Some(false)),
                            },
                            Ok(_) => observed_step(s, Some(false)),
                        }
                    } else {
                        observed_step(s, None)
                    },
                }
            } else {
                observed_step(s, matching)
            }
        },
    }
}

/// The steps a row visit asks, and with what: the epoch; at the
/// synchronized cursor, the row's registration outside the custody class;
/// in it, the number of kept places, the place at the cursor's row while
/// there is one, and that place's evidence when it holds published custody.
pub open spec fn row_answers<Q, Ep, Rm, Kp, Kc, Ce, Tk>(
    reads: PrivateInvocationReads<Q, Ep, Rm, Kp, Kc, Ce, Tk>,
    c: PrivateInvocationCompletionCursor,
    epoch: Result<Option<u64>, PrivateTerminalDriveRefusal>,
    places: Result<usize, PrivateTerminalDriveRefusal>,
    kept: Result<PrivateKeptCustody, PrivateTerminalDriveRefusal>,
    evidence: PrivateCustodyEvidence,
    matching: Option<bool>,
) -> bool where
    Q: FnOnce() -> Result<bool, PrivateTerminalDriveRefusal>,
    Ep: FnOnce() -> Result<Option<u64>, PrivateTerminalDriveRefusal>,
    Rm: FnOnce(u8, usize) -> Option<bool>,
    Kp: FnOnce() -> Result<usize, PrivateTerminalDriveRefusal>,
    Kc: FnOnce(usize) -> Result<PrivateKeptCustody, PrivateTerminalDriveRefusal>,
    Ce: FnOnce(usize) -> PrivateCustodyEvidence,
    Tk: FnOnce(usize) -> Result<bool, PrivateTerminalDriveRefusal>,
 {
    &&& call_ensures(reads.obligation_epoch, (), epoch)
    &&& (epoch is Ok && epoch->Ok_0 is Some) ==> {
        let s = synchronized(c, epoch->Ok_0->0);
        &&& s.class != PRIVATE_CUSTODY_CLASS ==> call_ensures(reads.row_matches, (s.class, s.row), matching)
        &&& s.class == PRIVATE_CUSTODY_CLASS ==> {
            &&& call_ensures(reads.kept_places, (), places)
            &&& (places is Ok && s.row < places->Ok_0) ==> {
                &&& call_ensures(reads.kept_custody, (s.row,), kept)
                &&& kept == Ok::<PrivateKeptCustody, PrivateTerminalDriveRefusal>(PrivateKeptCustody::Published)
                    ==> call_ensures(reads.custody_evidence, (s.row,), evidence)
            }
        }
    }
}

/// The kept place a retirement visits out of `n`, and the cursor moved past
/// it.
pub open spec fn custody_rotated(c: PrivateInvocationCompletionCursor, n: usize) -> PrivateInvocationCompletionCursor {
    PrivateInvocationCompletionCursor { custody: (((c.custody % n) + 1) % (n as int)) as usize, ..c }
}

/// What a retirement makes of the answers: the store must be readable and
/// its places counted; with none kept nothing is retired; otherwise the
/// rotation moves on past the place it visits. Vacant gives nothing, another
/// invocation's custody is left alone, and published custody is retired
/// exactly when its evidence passes and taking it out finds it still there.
pub open spec fn retire_outcome(
    c: PrivateInvocationCompletionCursor,
    epoch: Result<Option<u64>, PrivateTerminalDriveRefusal>,
    places: Result<usize, PrivateTerminalDriveRefusal>,
    kept: Result<PrivateKeptCustody, PrivateTerminalDriveRefusal>,
    evidence: PrivateCustodyEvidence,
    taken: Result<bool, PrivateTerminalDriveRefusal>,
) -> PrivateCompletionStep {
    match epoch {
        Err(e) => (Err(e), c),
        Ok(_) => match places {
            Err(x) => (Err(x), c),
            Ok(n) => if n == 0 {
                (Ok(PrivateTerminalVisit::CustodyRetired { retired: false }), c)
            } else {
                let moved = custody_rotated(c, n);
                match kept {
                    Err(x) => (Err(x), moved),
                    Ok(PrivateKeptCustody::Vacant) => (Ok(PrivateTerminalVisit::CustodyRetired { retired: false }), moved),
                    Ok(PrivateKeptCustody::OtherInvocation) => (Ok(PrivateTerminalVisit::OtherInvocation), moved),
                    Ok(PrivateKeptCustody::Published) => match custody_evidence_spec(evidence) {
                        Err(x) => (Err(x), moved),
                        Ok(_) => match taken {
                            Ok(true) => (Ok(PrivateTerminalVisit::CustodyRetired { retired: true }), moved),
                            Ok(false) => (Err(PrivateTerminalDriveRefusal::RecipientUnavailable), moved),
                            Err(x) => (Err(x), moved),
                        },
                    },
                }
            },
        },
    }
}

/// The steps a retirement asks, and with what: the epoch, the number of
/// kept places once the store is readable, the place the rotation visits,
/// its evidence when it holds published custody, and, once the evidence
/// passes, taking it out of that same place.
pub open spec fn retire_answers<Q, Ep, Rm, Kp, Kc, Ce, Tk>(
    reads: PrivateInvocationReads<Q, Ep, Rm, Kp, Kc, Ce, Tk>,
    c: PrivateInvocationCompletionCursor,
    epoch: Result<Option<u64>, PrivateTerminalDriveRefusal>,
    places: Result<usize, PrivateTerminalDriveRefusal>,
    kept: Result<PrivateKeptCustody, PrivateTerminalDriveRefusal>,
    evidence: PrivateCustodyEvidence,
    taken: Result<bool, PrivateTerminalDriveRefusal>,
) -> bool where
    Q: FnOnce() -> Result<bool, PrivateTerminalDriveRefusal>,
    Ep: FnOnce() -> Result<Option<u64>, PrivateTerminalDriveRefusal>,
    Rm: FnOnce(u8, usize) -> Option<bool>,
    Kp: FnOnce() -> Result<usize, PrivateTerminalDriveRefusal>,
    Kc: FnOnce(usize) -> Result<PrivateKeptCustody, PrivateTerminalDriveRefusal>,
    Ce: FnOnce(usize) -> PrivateCustodyEvidence,
    Tk: FnOnce(usize) -> Result<bool, PrivateTerminalDriveRefusal>,
 {
    &&& call_ensures(reads.obligation_epoch, (), epoch)
    &&& epoch is Ok ==> call_ensures(reads.kept_places, (), places)
    &&& (epoch is Ok && places is Ok && places->Ok_0 > 0) ==> {
        let i = (c.custody % places->Ok_0) as usize;
        &&& call_ensures(reads.kept_custody, (i,), kept)
        &&& kept == Ok::<PrivateKeptCustody, PrivateTerminalDriveRefusal>(PrivateKeptCustody::Published) ==> {
            &&& call_ensures(reads.custody_evidence, (i,), evidence)
            &&& custody_evidence_spec(evidence) is Ok ==> call_ensures(reads.take_kept, (i,), taken)
        }
    }
}

/// One charged visit of the completion scan.
///
/// Nothing is scanned while the settlement is still the executor's. A
/// completed invocation retires its published custody instead. Otherwise the
/// scan either certifies a finished pass or reads one row of the class it is
/// at, after bringing itself up to the store's epoch.
pub fn visit_invocation_completion<Q, Ep, Rm, Kp, Kc, Ce, Tk>(
    handed_off: bool,
    completed: &mut bool,
    reads: PrivateInvocationReads<Q, Ep, Rm, Kp, Kc, Ce, Tk>,
    cursor: &mut PrivateInvocationCompletionCursor,
) -> (r: Result<PrivateTerminalVisit, PrivateTerminalDriveRefusal>) where
    Q: FnOnce() -> Result<bool, PrivateTerminalDriveRefusal>,
    Ep: FnOnce() -> Result<Option<u64>, PrivateTerminalDriveRefusal>,
    Rm: FnOnce(u8, usize) -> Option<bool>,
    Kp: FnOnce() -> Result<usize, PrivateTerminalDriveRefusal>,
    Kc: FnOnce(usize) -> Result<PrivateKeptCustody, PrivateTerminalDriveRefusal>,
    Ce: FnOnce(usize) -> PrivateCustodyEvidence,
    Tk: FnOnce(usize) -> Result<bool, PrivateTerminalDriveRefusal>,

    requires
        cursor_wf(*old(cursor)),
        old(cursor).row < usize::MAX,
        reads_callable(reads),
    ensures
        cursor_wf(*final(cursor)),
        *final(completed) == (*old(completed) || r == Ok::<PrivateTerminalVisit, PrivateTerminalDriveRefusal>(
            PrivateTerminalVisit::InvocationCompleted,
        )),
        !handed_off ==> r == Ok::<PrivateTerminalVisit, PrivateTerminalDriveRefusal>(
            PrivateTerminalVisit::SettlementStillOwned,
        ) && *final(cursor) == restarted(*old(cursor), None),
        handed_off && *old(completed) ==> exists|epoch, places, kept, evidence, taken|
            #[trigger] retire_answers(reads, *old(cursor), epoch, places, kept, evidence, taken)
                && retire_outcome(*old(cursor), epoch, places, kept, evidence, taken) == (r, *final(cursor)),
        handed_off && !*old(completed) && old(cursor).class == PRIVATE_CERTIFY_CLASS ==> exists|queue, epoch|
            #[trigger] certify_answers(reads, queue, epoch) && certify_outcome(*old(cursor), queue, epoch) == (
                r,
                *final(cursor),
            ),
        handed_off && !*old(completed) && old(cursor).class != PRIVATE_CERTIFY_CLASS ==> exists|
            epoch,
            places,
            kept,
            evidence,
            matching,
        |
            #[trigger] row_answers(reads, *old(cursor), epoch, places, kept, evidence, matching) && row_outcome(
                *old(cursor),
                epoch,
                places,
                kept,
                evidence,
                matching,
            ) == (r, *final(cursor)),
{
    if !handed_off {
        cursor.restart(None);
        return Ok(PrivateTerminalVisit::SettlementStillOwned);
    }
    if *completed {
        return retire_completed_custody(true, reads, cursor);
    }
    let PrivateInvocationReads {
        queue_closed_empty,
        obligation_epoch,
        row_matches,
        kept_places,
        kept_custody,
        custody_evidence,
        take_kept,
    } = reads;
    let ghost pre = *cursor;
    if cursor.class == PRIVATE_CERTIFY_CLASS {
        let queue = queue_closed_empty();
        let empty = match queue {
            Ok(empty) => empty,
            Err(e) => {
                assert(certify_answers(reads, queue, Ok(None)));
                return Err(e);
            },
        };
        let now = obligation_epoch();
        let epoch = match now {
            Ok(epoch) => epoch,
            Err(e) => {
                assert(certify_answers(reads, queue, now));
                return Err(e);
            },
        };
        let visit = cursor.certify(empty, epoch);
        if visit == PrivateTerminalVisit::InvocationCompleted {
            *completed = true;
        }
        assert(certify_answers(reads, queue, now));
        assert(certify_outcome(pre, queue, now) == (Ok::<PrivateTerminalVisit, PrivateTerminalDriveRefusal>(visit), *cursor));
        return Ok(visit);
    }
    let ghost no_places: Result<usize, PrivateTerminalDriveRefusal> = Ok(0);
    let ghost no_kept: Result<PrivateKeptCustody, PrivateTerminalDriveRefusal> = Ok(PrivateKeptCustody::Vacant);
    let ghost no_evidence: PrivateCustodyEvidence = arbitrary();
    let now = obligation_epoch();
    let epoch = match now {
        Ok(epoch) => epoch,
        Err(e) => {
            assert(row_answers(reads, pre, now, no_places, no_kept, no_evidence, None));
            return Err(e);
        },
    };
    match cursor.synchronize(epoch) {
        Ok(()) => {},
        Err(e) => {
            assert(row_answers(reads, pre, now, no_places, no_kept, no_evidence, None));
            return Err(e);
        },
    }
    let ghost e = epoch->0;
    assert(*cursor == synchronized(pre, e));
    if cursor.class == PRIVATE_CUSTODY_CLASS {
        let counted = kept_places();
        let places = match counted {
            Ok(places) => places,
            Err(x) => {
                assert(row_answers(reads, pre, now, counted, no_kept, no_evidence, None));
                return Err(x);
            },
        };
        if cursor.row < places {
            let held = kept_custody(cursor.row);
            let kept = match held {
                Ok(kept) => kept,
                Err(x) => {
                    assert(row_answers(reads, pre, now, counted, held, no_evidence, None));
                    return Err(x);
                },
            };
            let ghost mut read_evidence = no_evidence;
            match kept {
                PrivateKeptCustody::Published => {
                    let evidence = custody_evidence(cursor.row);
                    proof {
                        read_evidence = evidence;
                    }
                    match custody_evidence_refusal(&evidence) {
                        Ok(()) => {},
                        Err(x) => {
                            assert(row_answers(reads, pre, now, counted, held, evidence, None));
                            return Err(x);
                        },
                    }
                },
                _ => {},
            }
            let visit = cursor.observe(Some(false));
            assert(row_answers(reads, pre, now, counted, held, read_evidence, None));
            assert(row_outcome(pre, now, counted, held, read_evidence, None) == (Ok::<PrivateTerminalVisit, PrivateTerminalDriveRefusal>(visit), *cursor));
            return Ok(visit);
        }
        let visit = cursor.observe(None);
        assert(row_answers(reads, pre, now, counted, no_kept, no_evidence, None));
        assert(row_outcome(pre, now, counted, no_kept, no_evidence, None) == (Ok::<PrivateTerminalVisit, PrivateTerminalDriveRefusal>(visit), *cursor));
        return Ok(visit);
    }
    let matching = row_matches(cursor.class, cursor.row);
    let visit = cursor.observe(matching);
    assert(row_answers(reads, pre, now, no_places, no_kept, no_evidence, matching));
    assert(row_outcome(pre, now, no_places, no_kept, no_evidence, matching) == (Ok::<PrivateTerminalVisit, PrivateTerminalDriveRefusal>(visit), *cursor));
    Ok(visit)
}

/// Release the custody this completed invocation published, one kept place
/// per visit in rotation: only custody it published, only once its evidence
/// shows the source output settled and its own places returned, and
/// only if the place still holds what was examined.
pub fn retire_completed_custody<Q, Ep, Rm, Kp, Kc, Ce, Tk>(
    completed: bool,
    reads: PrivateInvocationReads<Q, Ep, Rm, Kp, Kc, Ce, Tk>,
    cursor: &mut PrivateInvocationCompletionCursor,
) -> (r: Result<PrivateTerminalVisit, PrivateTerminalDriveRefusal>) where
    Q: FnOnce() -> Result<bool, PrivateTerminalDriveRefusal>,
    Ep: FnOnce() -> Result<Option<u64>, PrivateTerminalDriveRefusal>,
    Rm: FnOnce(u8, usize) -> Option<bool>,
    Kp: FnOnce() -> Result<usize, PrivateTerminalDriveRefusal>,
    Kc: FnOnce(usize) -> Result<PrivateKeptCustody, PrivateTerminalDriveRefusal>,
    Ce: FnOnce(usize) -> PrivateCustodyEvidence,
    Tk: FnOnce(usize) -> Result<bool, PrivateTerminalDriveRefusal>,

    requires
        reads_callable(reads),
    ensures
        !completed ==> r == Ok::<PrivateTerminalVisit, PrivateTerminalDriveRefusal>(
            PrivateTerminalVisit::InvocationOutstanding,
        ) && *final(cursor) == *old(cursor),
        completed ==> exists|epoch, places, kept, evidence, taken|
            #[trigger] retire_answers(reads, *old(cursor), epoch, places, kept, evidence, taken)
                && retire_outcome(*old(cursor), epoch, places, kept, evidence, taken) == (r, *final(cursor)),
{
    if !completed {
        return Ok(PrivateTerminalVisit::InvocationOutstanding);
    }
    let PrivateInvocationReads {
        queue_closed_empty,
        obligation_epoch,
        row_matches,
        kept_places,
        kept_custody,
        custody_evidence,
        take_kept,
    } = reads;
    let ghost pre = *cursor;
    let ghost no_places: Result<usize, PrivateTerminalDriveRefusal> = Ok(0);
    let ghost no_kept: Result<PrivateKeptCustody, PrivateTerminalDriveRefusal> = Ok(PrivateKeptCustody::Vacant);
    let ghost no_evidence: PrivateCustodyEvidence = arbitrary();
    let ghost no_taken: Result<bool, PrivateTerminalDriveRefusal> = Ok(false);
    let now = obligation_epoch();
    match now {
        Ok(_) => {},
        Err(e) => {
            assert(retire_answers(reads, pre, now, no_places, no_kept, no_evidence, no_taken));
            return Err(e);
        },
    }
    let counted = kept_places();
    let places = match counted {
        Ok(places) => places,
        Err(e) => {
            assert(retire_answers(reads, pre, now, counted, no_kept, no_evidence, no_taken));
            return Err(e);
        },
    };
    let index = match cursor.next_custody(places) {
        Some(index) => index,
        None => {
            assert(retire_answers(reads, pre, now, counted, no_kept, no_evidence, no_taken));
            return Ok(PrivateTerminalVisit::CustodyRetired { retired: false });
        },
    };
    assert(*cursor == custody_rotated(pre, places));
    let held = kept_custody(index);
    let kept = match held {
        Ok(kept) => kept,
        Err(e) => {
            assert(retire_answers(reads, pre, now, counted, held, no_evidence, no_taken));
            return Err(e);
        },
    };
    match kept {
        PrivateKeptCustody::Vacant => {
            assert(retire_answers(reads, pre, now, counted, held, no_evidence, no_taken));
            Ok(PrivateTerminalVisit::CustodyRetired { retired: false })
        },
        PrivateKeptCustody::OtherInvocation => {
            assert(retire_answers(reads, pre, now, counted, held, no_evidence, no_taken));
            Ok(PrivateTerminalVisit::OtherInvocation)
        },
        PrivateKeptCustody::Published => {
            let evidence = custody_evidence(index);
            match custody_evidence_refusal(&evidence) {
                Ok(()) => {},
                Err(e) => {
                    assert(retire_answers(reads, pre, now, counted, held, evidence, no_taken));
                    return Err(e);
                },
            }
            let taken = take_kept(index);
            assert(retire_answers(reads, pre, now, counted, held, evidence, taken));
            match taken {
                Ok(true) => Ok(PrivateTerminalVisit::CustodyRetired { retired: true }),
                Ok(false) => Err(PrivateTerminalDriveRefusal::RecipientUnavailable),
                Err(e) => Err(e),
            }
        },
    }
}

} // verus!
