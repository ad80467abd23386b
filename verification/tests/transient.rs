use sophia_x_authority::native_hold::PrivateNativeRefusal;
use sophia_x_authority::transient::{
    selected_half, transient_kind_refusal, transient_recipient, transient_refusal, transient_target,
    PrivatePointerGrab, PrivateTransient, PrivateTransientKind,
};

#[test]
fn transient_refusals_come_in_order() {
    assert_eq!(transient_refusal(true, true, true, false, false), Some(PrivateNativeRefusal::ForeignOrigin));
    assert_eq!(transient_refusal(false, true, true, false, false), Some(PrivateNativeRefusal::WrongPhase));
    assert_eq!(transient_refusal(false, false, true, false, false), Some(PrivateNativeRefusal::PointerFrozen));
    assert_eq!(transient_refusal(false, false, false, false, false), Some(PrivateNativeRefusal::MissingMapper));
    assert_eq!(transient_refusal(false, false, false, true, false), Some(PrivateNativeRefusal::MissingQueryScope));
    assert_eq!(transient_refusal(false, false, false, true, true), None);
}

#[test]
fn a_grab_decides_recipient_and_target() {
    let grab = PrivatePointerGrab { owner: 5, window: 50, owner_events: false };
    assert_eq!(transient_recipient(None, 2), 2);
    assert_eq!(transient_recipient(Some(grab), 2), 5);
    assert_eq!(transient_target(None, 2, 2, 20), 20);
    assert_eq!(transient_target(Some(grab), 5, 2, 20), 50);
    let owner_events = PrivatePointerGrab { owner: 2, window: 50, owner_events: true };
    // Owner events to the surface's own client go to the surface window.
    assert_eq!(transient_target(Some(owner_events), 2, 2, 20), 20);
    assert_eq!(transient_target(Some(owner_events), 3, 2, 20), 50);
}

#[test]
fn an_unselected_half_does_not_erase_the_other() {
    assert_eq!(selected_half(Some(1), Some(2)), Ok(1));
    assert_eq!(selected_half(None, Some(2)), Ok(2));
    assert_eq!(selected_half::<u8>(None, None), Err(PrivateNativeRefusal::NotSelected));
}

#[test]
fn output_is_taken_once_and_only_after_commit() {
    let mut storage = None;
    PrivateTransient::install(&mut storage, "axis pair", 4, 40, (7i16, 8i16)).unwrap();
    assert_eq!(PrivateTransient::install(&mut storage, "again", 5, 50, (0, 0)), Err(PrivateNativeRefusal::WrongPhase));
    let mut transient = storage.unwrap();
    assert_eq!(transient.take_emission(), None);
    transient.commit();
    assert_eq!(transient.take_emission(), Some("axis pair"));
    assert_eq!(transient.take_emission(), None);
    assert_eq!(transient.reached(), (4, 40, (7, 8)));
}

#[test]
fn only_motion_and_a_mapped_axis_are_transients() {
    assert_eq!(transient_kind_refusal(PrivateTransientKind::Motion), None);
    assert_eq!(transient_kind_refusal(PrivateTransientKind::Axis { mapped: true }), None);
    assert_eq!(
        transient_kind_refusal(PrivateTransientKind::Axis { mapped: false }),
        Some(PrivateNativeRefusal::InvalidButton)
    );
    assert_eq!(transient_kind_refusal(PrivateTransientKind::Other), Some(PrivateNativeRefusal::WrongPhase));
}

#[test]
fn an_installed_transient_marks_that_it_may_have_applied() {
    let mut storage: Option<PrivateTransient<&'static str, (i16, i16)>> = None;
    let mut may_have_applied = false;
    assert_eq!(
        PrivateTransient::install_applying(&mut storage, &mut may_have_applied, "motion", 4, 40, (1, 2)),
        Ok(())
    );
    assert!(may_have_applied);
    let mut again = false;
    assert_eq!(
        PrivateTransient::install_applying(&mut storage, &mut again, "again", 5, 50, (0, 0)),
        Err(PrivateNativeRefusal::WrongPhase)
    );
    assert!(!again);
    let mut transient = storage.unwrap();
    assert_eq!(transient.take_emission(), None);
    transient.commit();
    assert_eq!(transient.take_emission(), Some("motion"));
    assert_eq!(transient.take_emission(), None);
}

use sophia_x_authority::native_press::PrivateStepRefusal;
use std::cell::RefCell;

use sophia_x_authority::transient::{carry_transient, PrivateTransientFacts, PrivateTransientSteps};

struct TransientWork {
    kind: PrivateTransientKind,
    halves: (Option<((i16, i16), u64)>, Option<((i16, i16), u64)>),
    recovery: Result<bool, ()>,
    effect: Result<(), &'static str>,
    targets: RefCell<Vec<u64>>,
    committed: RefCell<Vec<(i16, i16)>>,
}

fn run_transient(
    work: &TransientWork,
    storage: &mut Option<PrivateTransient<&'static str, (i16, i16)>>,
    may_have_applied: &mut bool,
    facts: PrivateTransientFacts,
) -> Result<(), PrivateStepRefusal<&'static str>> {
    carry_transient(
        PrivateTransientSteps {
            select: |recipient: u64| Ok((recipient == 8 || recipient == 3, Some(1))),
            kind: || work.kind,
            resolve: |target: u64| {
                work.targets.borrow_mut().push(target);
                Ok(work.halves)
            },
            bind: |_recipient: u64| work.recovery,
            emission: |_recipient: u64| "pair",
            begin: || work.effect,
            commit: |reached: (i16, i16)| work.committed.borrow_mut().push(reached),
        },
        storage,
        may_have_applied,
        facts,
    )
}

fn transient_work() -> TransientWork {
    TransientWork {
        kind: PrivateTransientKind::Axis { mapped: true },
        halves: (None, Some(((1, 2), 40))),
        recovery: Ok(true),
        effect: Ok(()),
        targets: RefCell::new(Vec::new()),
        committed: RefCell::new(Vec::new()),
    }
}

fn transient_facts(grab: Option<PrivatePointerGrab>) -> PrivateTransientFacts {
    PrivateTransientFacts {
        foreign: false,
        frozen: false,
        mapper_present: true,
        query_present: true,
        grab,
        surface_client: 3,
        surface_window: 30,
    }
}

#[test]
fn a_carried_transient_commits_once_for_the_grab_owner() {
    let work = transient_work();
    let mut storage: Option<PrivateTransient<&'static str, (i16, i16)>> = None;
    let mut may_have_applied = false;
    let grab = PrivatePointerGrab { owner: 8, window: 80, owner_events: false };
    assert_eq!(run_transient(&work, &mut storage, &mut may_have_applied, transient_facts(Some(grab))), Ok(()));
    assert!(may_have_applied);
    assert_eq!(*work.targets.borrow(), vec![80]);
    assert_eq!(*work.committed.borrow(), vec![(1, 2)]);
    let mut transient = storage.unwrap();
    assert_eq!(transient.reached(), (8, 40, (1, 2)));
    assert_eq!(transient.take_emission(), Some("pair"));
    assert_eq!(transient.take_emission(), None);
}

#[test]
fn a_refused_effect_leaves_the_transient_installed_uncommitted() {
    let work = TransientWork { effect: Err("refused"), ..transient_work() };
    let mut storage: Option<PrivateTransient<&'static str, (i16, i16)>> = None;
    let mut may_have_applied = false;
    assert_eq!(
        run_transient(&work, &mut storage, &mut may_have_applied, transient_facts(None)),
        Err(PrivateStepRefusal::Authority("refused"))
    );
    assert!(may_have_applied);
    assert!(work.committed.borrow().is_empty());
    assert_eq!(storage.unwrap().take_emission(), None);
}

#[test]
fn transient_refusals_install_nothing() {
    let mut storage: Option<PrivateTransient<&'static str, (i16, i16)>> = None;
    let mut may_have_applied = false;
    let frozen = PrivateTransientFacts { frozen: true, ..transient_facts(None) };
    assert_eq!(
        run_transient(&transient_work(), &mut storage, &mut may_have_applied, frozen),
        Err(PrivateStepRefusal::Native(PrivateNativeRefusal::PointerFrozen))
    );
    let unmapped = TransientWork { kind: PrivateTransientKind::Axis { mapped: false }, ..transient_work() };
    assert_eq!(
        run_transient(&unmapped, &mut storage, &mut may_have_applied, transient_facts(None)),
        Err(PrivateStepRefusal::Native(PrivateNativeRefusal::InvalidButton))
    );
    let unselected = TransientWork { halves: (None, None), ..transient_work() };
    assert_eq!(
        run_transient(&unselected, &mut storage, &mut may_have_applied, transient_facts(None)),
        Err(PrivateStepRefusal::Native(PrivateNativeRefusal::NotSelected))
    );
    let ended = TransientWork { recovery: Ok(false), ..transient_work() };
    assert_eq!(
        run_transient(&ended, &mut storage, &mut may_have_applied, transient_facts(None)),
        Err(PrivateStepRefusal::DeliveryEnded)
    );
    let foreign_grab = PrivatePointerGrab { owner: 5, window: 50, owner_events: true };
    assert_eq!(
        run_transient(&transient_work(), &mut storage, &mut may_have_applied, transient_facts(Some(foreign_grab))),
        Err(PrivateStepRefusal::Native(PrivateNativeRefusal::ForeignOrigin))
    );
    assert!(storage.is_none());
    assert!(!may_have_applied);
}
