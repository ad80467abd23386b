use sophia_x_authority::runner::PrivateRunnerRefusal;
use sophia_x_authority::runner_turn::{cleanup_readiness, PrivateCleanupReadiness};
use sophia_x_authority::ordered_turn::PrivateOrderedStep;
use sophia_x_authority::runner_turn::{
    accounted_delivery, accounted_step, advanced, PrivateAccountedDelivery, PrivateAccountedReclaim, PrivateAccountedStep, PrivateDelivered,
    PrivateRunnerProgress, PrivateRunnerTurn, PrivateServiceCharge, PrivateTurnAction,
};
use sophia_x_authority::terminal_schedule::{PrivateDeliveryStep, PrivateReceiptStep};

type Turn = PrivateRunnerTurn<&'static str, &'static str>;
type Delivery = PrivateAccountedDelivery<&'static str, u8>;

fn charge(elapsed: u64) -> Option<PrivateServiceCharge> {
    Some(PrivateServiceCharge { elapsed, allowance_overrun: 0, cleanup_reservation_overrun: 0, interval_boundary_overrun: 0 })
}

fn delivery(step: PrivateDeliveryStep<PrivateDelivered<u8>>) -> Delivery {
    PrivateAccountedDelivery::Step { step, charge: charge(5), watch_failed: false, unwatched: None }
}

fn executed(step: PrivateOrderedStep) -> PrivateAccountedStep<&'static str> {
    PrivateAccountedStep::Step { step, charge: charge(7) }
}

#[test]
fn a_fresh_progress_has_not_advanced() {
    let progress: PrivateRunnerProgress<u8, u8> = PrivateRunnerProgress::new();
    assert!(!advanced(&progress));
    let mut charged = progress;
    assert!(!charged.record_charge(charge(3)));
    assert!(advanced(&charged));
    assert_eq!((charged.starts, charged.charged), (1, 3));
}

#[test]
fn a_charge_keeps_the_largest_overrun_and_saturates() {
    let mut progress: PrivateRunnerProgress<u8, u8> = PrivateRunnerProgress::new();
    progress.charged = u64::MAX - 1;
    let over = PrivateServiceCharge { elapsed: 9, allowance_overrun: 4, cleanup_reservation_overrun: 0, interval_boundary_overrun: 0 };
    assert!(progress.record_charge(Some(over)));
    assert_eq!((progress.charged, progress.overrun), (u64::MAX, 4));
    let late = PrivateServiceCharge { elapsed: 0, allowance_overrun: 2, cleanup_reservation_overrun: 0, interval_boundary_overrun: 1 };
    assert!(progress.record_charge(Some(late)));
    assert_eq!(progress.overrun, 4);
    assert!(!progress.record_charge(None));
    assert_eq!(progress.starts, 2);
}

#[test]
fn only_confirmed_facts_are_counted() {
    let mut progress: PrivateRunnerProgress<u8, u8> = PrivateRunnerProgress::new();
    progress.count_delivery::<u8>(&PrivateDeliveryStep::Receipt { step: PrivateReceiptStep::Unanswered });
    assert_eq!((progress.terminal_steps, progress.recipient_settled, progress.settled), (1, 0, 0));
    progress.count_delivery::<u8>(&PrivateDeliveryStep::Receipt { step: PrivateReceiptStep::Settled { debt_settled: true } });
    assert_eq!((progress.recipient_settled, progress.settled), (1, 1));
    progress.count_delivery::<u8>(&PrivateDeliveryStep::<PrivateDelivered<u8>>::Dispatched { enqueued: false, relinquished: true });
    assert_eq!((progress.dispatched, progress.enqueued, progress.relinquished), (0, 0, 1));
    progress.count_delivery::<u8>(&PrivateDeliveryStep::Recorded { recorded: false });
    assert_eq!((progress.recorded, progress.terminal_steps), (0, 4));
    progress.count_delivery::<u8>(&PrivateDeliveryStep::Advanced {
        sequence: 3,
        report: Some(PrivateDelivered { sequence: 3, completion: None::<u8>, debt_settled: false }),
    });
    assert_eq!((progress.observed, progress.settled), (0, 1));
    progress.count_delivery::<u8>(&PrivateDeliveryStep::<PrivateDelivered<u8>>::Blocked(9));
    assert_eq!((progress.blocked, progress.terminal_steps), (Some(9), 5));
}

#[test]
fn a_turn_alternates_cleanup_and_new_work() {
    let mut turn: Turn = PrivateRunnerTurn::begin(4, true);
    assert_eq!(turn.begin_round(true), PrivateTurnAction::Deliver);
    assert_eq!(
        turn.delivered(delivery(PrivateDeliveryStep::Dispatched { enqueued: true, relinquished: false })),
        PrivateTurnAction::Round
    );
    assert_eq!(turn.begin_round(true), PrivateTurnAction::Execute);
    assert_eq!(turn.executed(executed(PrivateOrderedStep::Decided(1)), Some((1, "refused"))), PrivateTurnAction::Round);
    assert_eq!(turn.begin_round(true), PrivateTurnAction::Deliver);
    let p = turn.progress();
    assert_eq!((p.starts, p.dispatched, p.enqueued, p.taken, p.refused, p.last_refusal), (2, 1, 1, 1, 1, Some("refused")));
    let (progress, prefer) = turn.finish(Some(7));
    assert!(prefer);
    assert_eq!(progress.blocked, Some(7));
}

#[test]
fn a_spent_turn_stops() {
    let mut turn: Turn = PrivateRunnerTurn::begin(1, false);
    assert_eq!(turn.begin_round(true), PrivateTurnAction::Execute);
    assert_eq!(turn.executed(executed(PrivateOrderedStep::Routed(4)), None), PrivateTurnAction::Round);
    assert_eq!(turn.begin_round(true), PrivateTurnAction::Finish);
    assert_eq!((turn.progress().routed, turn.progress().last_routed), (1, Some(4)));
}

#[test]
fn closed_production_does_cleanup_only() {
    let mut turn: Turn = PrivateRunnerTurn::begin(4, false);
    assert_eq!(turn.begin_round(false), PrivateTurnAction::Deliver);
    // An idle cleanup side with production closed stops the turn, and an
    // idle turn gets its reclamation.
    assert_eq!(turn.delivered::<u8>(PrivateAccountedDelivery::Step {
        step: PrivateDeliveryStep::Idle,
        charge: None,
        watch_failed: false,
        unwatched: None,
    }), PrivateTurnAction::Reclaim);
    assert_eq!(
        turn.reclaimed(PrivateAccountedReclaim::Visited { observed: 3, reclaimed: 2, charge: charge(1).unwrap(), unwatched: false }),
        PrivateTurnAction::Finish
    );
    let (progress, prefer) = turn.finish(None);
    assert!(prefer);
    assert_eq!((progress.reclaim_observed, progress.reclaimed, progress.starts), (3, 2, 1));
}

#[test]
fn a_supervisor_failure_is_accounted_then_stops() {
    let mut turn: Turn = PrivateRunnerTurn::begin(4, true);
    turn.begin_round(true);
    let action = turn.delivered::<u8>(PrivateAccountedDelivery::Step {
        step: PrivateDeliveryStep::Recorded { recorded: true },
        charge: charge(2),
        watch_failed: true,
        unwatched: None,
    });
    assert_eq!(action, PrivateTurnAction::Finish);
    let (progress, prefer) = turn.finish(None);
    assert!(progress.watch_failed);
    assert_eq!(progress.recorded, 1);
    // The side the next turn prefers is left as it was.
    assert!(prefer);
}

#[test]
fn a_cleanup_reservation_hands_the_round_to_cleanup() {
    let mut turn: Turn = PrivateRunnerTurn::begin(4, false);
    assert_eq!(turn.begin_round(true), PrivateTurnAction::Execute);
    assert_eq!(
        turn.executed(PrivateAccountedStep::Yield { cause: "reserved", taken: None, cleanup_reserved: true }, None),
        PrivateTurnAction::Round
    );
    assert_eq!(turn.begin_round(true), PrivateTurnAction::Deliver);
    assert_eq!(turn.delivered::<u8>(PrivateAccountedDelivery::Step {
        step: PrivateDeliveryStep::Idle,
        charge: None,
        watch_failed: false,
        unwatched: None,
    }), PrivateTurnAction::Execute);
    // Cleanup was idle this round: the reservation now stops the turn.
    assert_eq!(
        turn.executed(PrivateAccountedStep::Yield { cause: "reserved", taken: None, cleanup_reserved: true }, None),
        PrivateTurnAction::Reclaim
    );
    assert_eq!(turn.progress().allowance, Some("reserved"));
}

#[test]
fn blocked_parked_and_unwatched_steps_stop_the_turn() {
    for (step, blocked, unwatched) in [
        (PrivateOrderedStep::Blocked(3), Some(3), None),
        (PrivateOrderedStep::Parked(4), Some(4), None),
        (PrivateOrderedStep::Unwatched(5), Some(5), Some(5)),
        (PrivateOrderedStep::DecidedUnwatched(6), None, Some(6)),
        (PrivateOrderedStep::Deferred { sequence: 7, watched: false }, None, Some(7)),
    ] {
        let mut turn: Turn = PrivateRunnerTurn::begin(4, false);
        turn.begin_round(true);
        assert_eq!(turn.executed(executed(step), None), PrivateTurnAction::Finish);
        assert_eq!((turn.progress().blocked, turn.progress().unwatched), (blocked, unwatched));
    }
}

#[test]
fn a_resumed_step_is_charged_but_not_a_take() {
    let mut turn: Turn = PrivateRunnerTurn::begin(4, false);
    turn.begin_round(true);
    let step = PrivateOrderedStep::Resumed { sequence: 2, deferred: false, watched: true };
    assert_eq!(turn.executed(executed(step), Some((2, "again"))), PrivateTurnAction::Round);
    let p = turn.progress();
    assert_eq!((p.taken, p.starts, p.refused), (0, 1, 1));
}

#[test]
fn an_overrun_stops_the_turn_but_an_idle_order_does_not_look() {
    let over = Some(PrivateServiceCharge { elapsed: 1, allowance_overrun: 0, cleanup_reservation_overrun: 1, interval_boundary_overrun: 0 });
    let mut turn: Turn = PrivateRunnerTurn::begin(4, false);
    turn.begin_round(true);
    assert_eq!(turn.executed(PrivateAccountedStep::Step { step: PrivateOrderedStep::Decided(1), charge: over }, None), PrivateTurnAction::Finish);
    let mut turn: Turn = PrivateRunnerTurn::begin(4, false);
    turn.begin_round(true);
    assert_eq!(turn.executed(PrivateAccountedStep::Step { step: PrivateOrderedStep::Idle, charge: over }, None), PrivateTurnAction::Round);
}

#[test]
fn a_refused_cleanup_allowance_stops_the_turn() {
    let mut turn: Turn = PrivateRunnerTurn::begin(4, true);
    turn.begin_round(true);
    assert_eq!(turn.delivered::<u8>(PrivateAccountedDelivery::Yield { cause: "exhausted", taken: Some(8) }), PrivateTurnAction::Reclaim);
    assert_eq!(turn.reclaimed(PrivateAccountedReclaim::Yield { cause: "still" }), PrivateTurnAction::Finish);
    let (progress, _) = turn.finish(Some(1));
    assert_eq!((progress.allowance, progress.blocked, progress.reclaim_refusal), (Some("exhausted"), Some(8), Some("still")));
}

#[test]
fn an_accounted_cleanup_step_reports_what_answered() {
    let ok: Result<Option<PrivateServiceCharge>, &str> = Ok(charge(2));
    let yielded = accounted_delivery::<&str, u8, &str>(ok, Some("cleanup"), Some(4), Err("refused"), false, None);
    assert!(matches!(yielded, Ok(PrivateAccountedDelivery::Yield { cause: "cleanup", taken: Some(4) })));
    let ran = accounted_delivery::<&str, u8, &str>(ok, None, Some(4), Ok(PrivateDeliveryStep::Idle), true, Some(4));
    assert!(matches!(ran, Ok(PrivateAccountedDelivery::Step { step: PrivateDeliveryStep::Idle, watch_failed: true, unwatched: Some(4), .. })));
    let blocked = accounted_delivery::<&str, u8, &str>(ok, None, Some(4), Err("unwatched"), true, Some(4));
    assert!(matches!(blocked, Ok(PrivateAccountedDelivery::Step { step: PrivateDeliveryStep::Blocked(4), .. })));
    let idle = accounted_delivery::<&str, u8, &str>(ok, None, None, Err("unwatched"), true, None);
    assert!(matches!(idle, Ok(PrivateAccountedDelivery::Step { step: PrivateDeliveryStep::Idle, watch_failed: true, .. })));
    let failed = accounted_delivery::<&str, u8, &str>(ok, None, None, Err("route"), false, None);
    assert!(matches!(failed, Err("route")));
    let unfinished = accounted_delivery::<&str, u8, &str>(Err("charge"), Some("cleanup"), None, Ok(PrivateDeliveryStep::Idle), false, None);
    assert!(matches!(unfinished, Err("charge")));
}

#[test]
fn an_accounted_new_work_step_reports_what_answered() {
    let ok: Result<Option<PrivateServiceCharge>, &str> = Ok(charge(2));
    let yielded = accounted_step::<&str, &str>(ok, Some("starts"), true, Some(6), false, Err("refused"));
    assert!(matches!(yielded, Ok(PrivateAccountedStep::Yield { cause: "starts", taken: Some(6), cleanup_reserved: true })));
    let frozen = accounted_step::<&str, &str>(ok, Some("starts"), false, Some(6), true, Err("refused"));
    assert!(matches!(frozen, Ok(PrivateAccountedStep::Yield { taken: None, .. })));
    let ran = accounted_step::<&str, &str>(ok, None, false, Some(6), false, Ok(PrivateOrderedStep::Decided(6)));
    assert!(matches!(ran, Ok(PrivateAccountedStep::Step { step: PrivateOrderedStep::Decided(6), charge: Some(_) })));
    assert!(matches!(accounted_step::<&str, &str>(ok, None, false, None, false, Err("route")), Err("route")));
    assert!(matches!(accounted_step::<&str, &str>(Err("charge"), None, false, None, false, Ok(PrivateOrderedStep::Idle)), Err("charge")));
}

#[test]
fn cleanup_is_eligible_while_anything_is_owed() {
    assert_eq!(cleanup_readiness(true, 0, false, false, false), PrivateCleanupReadiness::NoneEligible);
    assert_eq!(cleanup_readiness(false, 0, false, false, false), PrivateCleanupReadiness::Eligible);
    assert_eq!(cleanup_readiness(true, 2, false, false, false), PrivateCleanupReadiness::Eligible);
    assert_eq!(cleanup_readiness(true, 0, true, false, false), PrivateCleanupReadiness::Eligible);
    assert_eq!(cleanup_readiness(true, 0, false, true, false), PrivateCleanupReadiness::Eligible);
    assert_eq!(cleanup_readiness(true, 0, false, false, true), PrivateCleanupReadiness::Eligible);
}

#[test]
fn a_foreign_service_lease_is_refused_before_the_turn() {
    assert!(matches!(Turn::begin_leased(false, 4, true), Err(PrivateRunnerRefusal::ForeignServiceOwner)));
    let turn = Turn::begin_leased(true, 4, true).ok().unwrap();
    let (progress, prefer) = turn.finish(None);
    assert!(prefer);
    assert_eq!(progress.starts, 0);
}
