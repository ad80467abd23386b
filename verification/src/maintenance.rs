// The bounded post-collection visits of the executor that first ran: which visit
// comes next, what one visit reports, and what committing a connection's
// maintenance obligation can answer.
//
// A visited or settled output home is not whole-invocation completion, and a
// report never turns a local visit into a claim that the invocation settled.
use vstd::prelude::*;

verus! {

/// Which bounded post-collection visit the first executor selected.
#[derive(Debug, Clone, Copy, PartialEq, Eq, Structural)]
pub enum PrivateMaintenancePhase {
    Output,
    Terminal,
}

impl Default for PrivateMaintenancePhase {
    fn default() -> (r: Self)
        ensures
            r == PrivateMaintenancePhase::Output,
    {
        PrivateMaintenancePhase::Output
    }
}

/// Status of one visit, never an aggregate settlement result.
#[derive(Debug, Clone, Copy, PartialEq, Eq, Structural)]
pub enum PrivateMaintenanceStatus {
    Unavailable,
    Refused,
    Yielded,
    Visited,
    SupervisionFailed,
    AccountingFailed,
}

/// What committing one connection's maintenance obligation did.
#[derive(Debug, Clone, Copy, PartialEq, Eq, Structural)]
pub enum PrivateCommitted {
    /// The obligation is in this connection's destination and the duty is the
    /// store's. Nothing is handed back.
    Committed,
    /// The evidence this rests on is not complete yet. Nothing was consumed.
    NotYetEvidenced,
    /// This connection's place is not the lease's any more.
    Stale,
    /// The destination or the outer holder is not of this lease's store.
    Foreign,
    /// This context has already committed.
    AlreadyCommitted,
}

/// What one drive step of either visit did.
///
/// `F` is the cause of a refusal before a charged visit; `Y` is why the
/// budget's allowance was not given.
#[derive(Debug, Clone, Copy, PartialEq, Eq)]
pub enum PrivateDriveStep<Y, F> {
    /// Refused before anything was charged.
    Refused(F),
    /// The allowance was not given; the visit yielded.
    Yield(Y),
    /// A charged visit: whether it visited, whether the charge was accounted
    /// and the finish supervised, and -- for an output visit that drove its
    /// home -- whether that home is settled.
    Charged { visited: bool, accounted: bool, supervised: bool, settled: Option<bool> },
}

/// What one maintenance visit came to.
#[derive(Debug, Clone, Copy, PartialEq, Eq)]
pub enum PrivateMaintenanceOutcome<Y, F> {
    Unavailable,
    Output(PrivateDriveStep<Y, F>),
    Terminal(PrivateDriveStep<Y, F>),
}

/// The report of one visit: which phase, and what it came to.
#[derive(Debug, Clone, Copy, PartialEq, Eq)]
pub struct PrivateMaintenanceReport<Y, F> {
    pub phase: PrivateMaintenancePhase,
    pub outcome: PrivateMaintenanceOutcome<Y, F>,
}

/// The status of a charged visit: accounting failures first, then
/// supervision, then whether the visit happened.
pub open spec fn charged_status_spec(visited: bool, accounted: bool, supervised: bool) -> PrivateMaintenanceStatus {
    if !accounted {
        PrivateMaintenanceStatus::AccountingFailed
    } else if !supervised {
        PrivateMaintenanceStatus::SupervisionFailed
    } else if visited {
        PrivateMaintenanceStatus::Visited
    } else {
        PrivateMaintenanceStatus::Refused
    }
}

/// A charged step's failures are never hidden: an unaccounted step reports
/// its accounting failure, an accounted but unsupervised one its supervision
/// failure, whatever the visit did; it reports a visit only when the visit
/// happened and was both accounted and supervised, and a refusal only when
/// the visit did not happen though it was. The visit alone never changes a
/// failed step's status.
pub proof fn law_charged_failures_come_first(visited: bool, accounted: bool, supervised: bool)
    ensures
        !accounted ==> charged_status_spec(visited, accounted, supervised) == PrivateMaintenanceStatus::AccountingFailed,
        accounted && !supervised ==> charged_status_spec(visited, accounted, supervised)
            == PrivateMaintenanceStatus::SupervisionFailed,
        (charged_status_spec(visited, accounted, supervised) == PrivateMaintenanceStatus::Visited) <==> (visited
            && accounted && supervised),
        (charged_status_spec(visited, accounted, supervised) == PrivateMaintenanceStatus::Refused) <==> (!visited
            && accounted && supervised),
        !(accounted && supervised) ==> charged_status_spec(true, accounted, supervised) == charged_status_spec(
            false,
            accounted,
            supervised,
        ),
{
}

pub open spec fn step_status<Y, F>(step: PrivateDriveStep<Y, F>) -> PrivateMaintenanceStatus {
    match step {
        PrivateDriveStep::Refused(_) => PrivateMaintenanceStatus::Refused,
        PrivateDriveStep::Yield(_) => PrivateMaintenanceStatus::Yielded,
        PrivateDriveStep::Charged { visited, accounted, supervised, .. } => charged_status_spec(
            visited,
            accounted,
            supervised,
        ),
    }
}

pub open spec fn status_spec<Y, F>(outcome: PrivateMaintenanceOutcome<Y, F>) -> PrivateMaintenanceStatus {
    match outcome {
        PrivateMaintenanceOutcome::Unavailable => PrivateMaintenanceStatus::Unavailable,
        PrivateMaintenanceOutcome::Output(step) => step_status(step),
        PrivateMaintenanceOutcome::Terminal(step) => step_status(step),
    }
}

/// A report's status says what the visit came to, the same for output and
/// terminal work: no resources, unavailable; refused before any charge,
/// refused; no allowance, yielded; a charged visit reports its accounting
/// failure first, then its supervision failure, and only then whether it
/// visited. A failed accounting or supervision is never reported as a plain
/// refusal or a visit.
pub proof fn law_report_status_says_what_happened<Y, F>(outcome: PrivateMaintenanceOutcome<Y, F>)
    ensures
        outcome is Unavailable ==> status_spec(outcome) == PrivateMaintenanceStatus::Unavailable,
        (outcome matches PrivateMaintenanceOutcome::Output(step) && step is Refused) ==> status_spec(outcome)
            == PrivateMaintenanceStatus::Refused,
        (outcome matches PrivateMaintenanceOutcome::Terminal(step) && step is Refused) ==> status_spec(outcome)
            == PrivateMaintenanceStatus::Refused,
        (outcome matches PrivateMaintenanceOutcome::Output(step) && step is Yield) ==> status_spec(outcome)
            == PrivateMaintenanceStatus::Yielded,
        (outcome matches PrivateMaintenanceOutcome::Terminal(step) && step is Yield) ==> status_spec(outcome)
            == PrivateMaintenanceStatus::Yielded,
        (outcome matches PrivateMaintenanceOutcome::Output(PrivateDriveStep::Charged { accounted, supervised, .. })
            && !(accounted && supervised)) ==> status_spec(outcome) != PrivateMaintenanceStatus::Refused
            && status_spec(outcome) != PrivateMaintenanceStatus::Visited,
        (outcome matches PrivateMaintenanceOutcome::Terminal(PrivateDriveStep::Charged { accounted, supervised, .. })
            && !(accounted && supervised)) ==> status_spec(outcome) != PrivateMaintenanceStatus::Refused
            && status_spec(outcome) != PrivateMaintenanceStatus::Visited,
        (outcome matches PrivateMaintenanceOutcome::Output(PrivateDriveStep::Charged { accounted, supervised, .. })
            && accounted && !supervised) ==> status_spec(outcome) == PrivateMaintenanceStatus::SupervisionFailed,
        (outcome matches PrivateMaintenanceOutcome::Terminal(PrivateDriveStep::Charged { accounted, supervised, .. })
            && accounted && !supervised) ==> status_spec(outcome) == PrivateMaintenanceStatus::SupervisionFailed,
{
}

impl<Y: Copy, F: Copy> PrivateMaintenanceReport<Y, F> {
    pub fn phase(&self) -> (r: PrivateMaintenancePhase)
        ensures
            r == self.phase,
    {
        self.phase
    }

    /// Why the allowance was not given, when the visit yielded.
    pub fn allowance_refusal(&self) -> (r: Option<Y>)
        ensures
            r == match self.outcome {
                PrivateMaintenanceOutcome::Output(PrivateDriveStep::Yield(cause)) => Some(cause),
                PrivateMaintenanceOutcome::Terminal(PrivateDriveStep::Yield(cause)) => Some(cause),
                _ => None,
            },
    {
        match self.outcome {
            PrivateMaintenanceOutcome::Output(PrivateDriveStep::Yield(cause)) => Some(cause),
            PrivateMaintenanceOutcome::Terminal(PrivateDriveStep::Yield(cause)) => Some(cause),
            _ => None,
        }
    }

    /// The cause of a refusal before a charged visit.
    pub fn entry_refusal(&self) -> (r: Option<F>)
        ensures
            r == match self.outcome {
                PrivateMaintenanceOutcome::Output(PrivateDriveStep::Refused(cause)) => Some(cause),
                PrivateMaintenanceOutcome::Terminal(PrivateDriveStep::Refused(cause)) => Some(cause),
                _ => None,
            },
    {
        match self.outcome {
            PrivateMaintenanceOutcome::Output(PrivateDriveStep::Refused(cause)) => Some(cause),
            PrivateMaintenanceOutcome::Terminal(PrivateDriveStep::Refused(cause)) => Some(cause),
            _ => None,
        }
    }

    pub fn status(&self) -> (r: PrivateMaintenanceStatus)
        ensures
            r == status_spec(self.outcome),
    {
        match self.outcome {
            PrivateMaintenanceOutcome::Unavailable => PrivateMaintenanceStatus::Unavailable,
            PrivateMaintenanceOutcome::Output(step) => Self::step_status(step),
            PrivateMaintenanceOutcome::Terminal(step) => Self::step_status(step),
        }
    }

    fn step_status(step: PrivateDriveStep<Y, F>) -> (r: PrivateMaintenanceStatus)
        ensures
            r == step_status(step),
    {
        match step {
            PrivateDriveStep::Refused(_) => PrivateMaintenanceStatus::Refused,
            PrivateDriveStep::Yield(_) => PrivateMaintenanceStatus::Yielded,
            PrivateDriveStep::Charged { visited, accounted, supervised, .. } => Self::charged_status(
                visited,
                accounted,
                supervised,
            ),
        }
    }

    pub fn charged_status(visited: bool, accounted: bool, supervised: bool) -> (r:
        PrivateMaintenanceStatus)
        ensures
            r == charged_status_spec(visited, accounted, supervised),
            !accounted ==> r == PrivateMaintenanceStatus::AccountingFailed,
            accounted && !supervised ==> r == PrivateMaintenanceStatus::SupervisionFailed,
            (r == PrivateMaintenanceStatus::Visited) <==> (visited && accounted && supervised),
            (r == PrivateMaintenanceStatus::Refused) <==> (!visited && accounted && supervised),
    {
        if !accounted {
            PrivateMaintenanceStatus::AccountingFailed
        } else if !supervised {
            PrivateMaintenanceStatus::SupervisionFailed
        } else if visited {
            PrivateMaintenanceStatus::Visited
        } else {
            PrivateMaintenanceStatus::Refused
        }
    }

    /// Only this selected ordered home, as its source's settled predicate
    /// established it. Readable even when the visit's finish reports a
    /// failure.
    pub fn output_settled(&self) -> (r: Option<bool>)
        ensures
            r == match self.outcome {
                PrivateMaintenanceOutcome::Output(PrivateDriveStep::Charged {
                    visited: true,
                    settled: Some(settled),
                    ..
                }) => Some(settled),
                _ => None,
            },
    {
        match self.outcome {
            PrivateMaintenanceOutcome::Output(
                PrivateDriveStep::Charged { visited: true, settled: Some(settled), .. },
            ) => Some(settled),
            _ => None,
        }
    }
}

/// The first executor's retained resources, as a maintenance visit drives
/// them. Implemented by the resources themselves; nothing is promised of what
/// a visit comes to.
pub trait PrivateMaintenanceResources<Y, F> {
    fn drive_retained_output_step(&mut self) -> PrivateDriveStep<Y, F>;

    fn drive_terminal_step(&mut self) -> PrivateDriveStep<Y, F>;
}

/// Runs one finite maintenance visit at a time, alternating output and
/// terminal visits, including after refusal.
pub struct PrivateServiceExecutionKeeper<T> {
    next: PrivateMaintenancePhase,
    resources: Option<T>,
}

/// The phase after `phase`.
pub open spec fn alternate(phase: PrivateMaintenancePhase) -> PrivateMaintenancePhase {
    match phase {
        PrivateMaintenancePhase::Output => PrivateMaintenancePhase::Terminal,
        PrivateMaintenancePhase::Terminal => PrivateMaintenancePhase::Output,
    }
}

impl<T> PrivateServiceExecutionKeeper<T> {
    /// A keeper for resources an executor left, starting with an output visit.
    pub fn new(resources: Option<T>) -> (r: Self)
        ensures
            r.next_phase() == PrivateMaintenancePhase::Output,
            r.has_resources() == resources is Some,
    {
        PrivateServiceExecutionKeeper { next: PrivateMaintenancePhase::Output, resources }
    }

    pub closed spec fn next_phase(&self) -> PrivateMaintenancePhase {
        self.next
    }

    pub closed spec fn has_resources(&self) -> bool {
        self.resources is Some
    }

    /// Perform one finite visit. The phase is advanced before the visit is
    /// entered, so an unwind cannot restart the selected operation; without
    /// resources nothing advances and the visit is unavailable.
    pub fn maintain_step<Y, F>(&mut self) -> (r: PrivateMaintenanceReport<Y, F>) where
        T: PrivateMaintenanceResources<Y, F>,

        ensures
            r.phase == old(self).next_phase(),
            final(self).has_resources() == old(self).has_resources(),
            !old(self).has_resources() ==> r.outcome == PrivateMaintenanceOutcome::<Y, F>::Unavailable
                && final(self).next_phase() == old(self).next_phase(),
            old(self).has_resources() ==> final(self).next_phase() == alternate(old(self).next_phase())
                && (r.phase == PrivateMaintenancePhase::Output ==> r.outcome is Output) && (r.phase
                == PrivateMaintenancePhase::Terminal ==> r.outcome is Terminal),
    {
        let phase = self.next;
        match self.resources.as_mut() {
            None => PrivateMaintenanceReport { phase, outcome: PrivateMaintenanceOutcome::Unavailable },
            Some(resources) => {
                self.next = match phase {
                    PrivateMaintenancePhase::Output => PrivateMaintenancePhase::Terminal,
                    PrivateMaintenancePhase::Terminal => PrivateMaintenancePhase::Output,
                };
                let outcome = match phase {
                    PrivateMaintenancePhase::Output => PrivateMaintenanceOutcome::Output(
                        resources.drive_retained_output_step(),
                    ),
                    PrivateMaintenancePhase::Terminal => PrivateMaintenanceOutcome::Terminal(
                        resources.drive_terminal_step(),
                    ),
                };
                PrivateMaintenanceReport { phase, outcome }
            },
        }
    }
}

/// Output and terminal visits alternate: of any two consecutive visits with
/// resources, one is an output visit and the other a terminal visit.
pub proof fn law_visits_alternate(phase: PrivateMaintenancePhase)
    ensures
        alternate(phase) != phase,
        alternate(alternate(phase)) == phase,
{
}

/// A charged visit reports `Visited` only when its charge was accounted, its
/// finish supervised and the visit itself happened; an accounting failure is
/// reported whatever else happened.
pub proof fn law_visited_needs_accounting_and_supervision(visited: bool, accounted: bool, supervised: bool)
    ensures
        charged_status_spec(visited, accounted, supervised) == PrivateMaintenanceStatus::Visited
            <==> (visited && accounted && supervised),
        !accounted ==> charged_status_spec(visited, accounted, supervised)
            == PrivateMaintenanceStatus::AccountingFailed,
{
}

} // verus!
