use sophia_x_authority::maintenance::{
    PrivateCommitted, PrivateDriveStep, PrivateMaintenanceOutcome, PrivateMaintenancePhase,
    PrivateMaintenanceReport, PrivateMaintenanceResources, PrivateMaintenanceStatus, PrivateServiceExecutionKeeper,
};

struct Resources {
    output: PrivateDriveStep<u8, u16>,
    terminal: PrivateDriveStep<u8, u16>,
    visits: Vec<&'static str>,
}

impl PrivateMaintenanceResources<u8, u16> for Resources {
    fn drive_retained_output_step(&mut self) -> PrivateDriveStep<u8, u16> {
        self.visits.push("output");
        self.output
    }

    fn drive_terminal_step(&mut self) -> PrivateDriveStep<u8, u16> {
        self.visits.push("terminal");
        self.terminal
    }
}

fn charged(visited: bool, accounted: bool, supervised: bool, settled: Option<bool>) -> PrivateDriveStep<u8, u16> {
    PrivateDriveStep::Charged { visited, accounted, supervised, settled }
}

#[test]
fn visits_alternate_even_after_refusal() {
    let resources = Resources {
        output: PrivateDriveStep::Refused(4),
        terminal: PrivateDriveStep::Yield(2),
        visits: Vec::new(),
    };
    let mut keeper = PrivateServiceExecutionKeeper::new(Some(resources));
    let first: PrivateMaintenanceReport<u8, u16> = keeper.maintain_step();
    assert_eq!(first.phase(), PrivateMaintenancePhase::Output);
    assert_eq!(first.status(), PrivateMaintenanceStatus::Refused);
    assert_eq!(first.entry_refusal(), Some(4));
    let second: PrivateMaintenanceReport<u8, u16> = keeper.maintain_step();
    assert_eq!(second.phase(), PrivateMaintenancePhase::Terminal);
    assert_eq!(second.status(), PrivateMaintenanceStatus::Yielded);
    assert_eq!(second.allowance_refusal(), Some(2));
    let third: PrivateMaintenanceReport<u8, u16> = keeper.maintain_step();
    assert_eq!(third.phase(), PrivateMaintenancePhase::Output);
}

#[test]
fn without_resources_nothing_advances() {
    let mut keeper: PrivateServiceExecutionKeeper<Resources> = PrivateServiceExecutionKeeper::new(None);
    let report: PrivateMaintenanceReport<u8, u16> = keeper.maintain_step();
    assert_eq!(report.status(), PrivateMaintenanceStatus::Unavailable);
    let again: PrivateMaintenanceReport<u8, u16> = keeper.maintain_step();
    assert_eq!(again.phase(), PrivateMaintenancePhase::Output);
}

#[test]
fn a_charged_visit_is_visited_only_when_accounted_and_supervised() {
    type Report = PrivateMaintenanceReport<u8, u16>;
    assert_eq!(Report::charged_status(true, true, true), PrivateMaintenanceStatus::Visited);
    assert_eq!(Report::charged_status(true, false, true), PrivateMaintenanceStatus::AccountingFailed);
    assert_eq!(Report::charged_status(true, true, false), PrivateMaintenanceStatus::SupervisionFailed);
    assert_eq!(Report::charged_status(false, true, true), PrivateMaintenanceStatus::Refused);
    assert_eq!(Report::charged_status(false, false, false), PrivateMaintenanceStatus::AccountingFailed);
}

#[test]
fn only_a_visited_output_home_reports_its_settlement() {
    let visited = PrivateMaintenanceReport::<u8, u16> {
        phase: PrivateMaintenancePhase::Output,
        outcome: PrivateMaintenanceOutcome::Output(charged(true, true, false, Some(true))),
    };
    assert_eq!(visited.output_settled(), Some(true));
    assert_eq!(visited.status(), PrivateMaintenanceStatus::SupervisionFailed);
    let terminal = PrivateMaintenanceReport::<u8, u16> {
        phase: PrivateMaintenancePhase::Terminal,
        outcome: PrivateMaintenanceOutcome::Terminal(charged(true, true, true, Some(true))),
    };
    assert_eq!(terminal.output_settled(), None);
    let unvisited = PrivateMaintenanceReport::<u8, u16> {
        phase: PrivateMaintenancePhase::Output,
        outcome: PrivateMaintenanceOutcome::Output(charged(false, true, true, Some(false))),
    };
    assert_eq!(unvisited.output_settled(), None);
}

#[test]
fn the_first_phase_is_output() {
    assert_eq!(PrivateMaintenancePhase::default(), PrivateMaintenancePhase::Output);
    assert_ne!(PrivateCommitted::Committed, PrivateCommitted::AlreadyCommitted);
}
