use sophia_x_authority::native_press::{
    begin_key_release, begin_pointer_release, finish_key_release, finish_pointer_release, observe_key_modifiers, release_event_state,
    released_pointer_mask, PrivateKeyReleaseSteps, PrivatePointerReleaseFacts, PrivatePointerReleaseSteps,
    PrivateStepRefusal,
};
use sophia_x_authority::key_emission::XAuthorityKeyEvent;
use sophia_x_authority::key_emission::PrivateAppliedRefusal;
use sophia_x_authority::pointer_emission::XAuthorityPointerEvent;
use sophia_x_authority::native_hold::{
    ActivationRetirementReceipt, HoldIncarnation, KeyPressRecord, KeyReconcileFacts, KeyReleaseCleanup,
    KeyboardActivation, KeyboardActivationRetirement, PointerActivationCommit, PointerActivationRetirement,
    PointerPressRecord, PointerReconcileFacts, PointerReleaseCleanup, PrivateKeyHold, PrivateNativeProof,
    PrivateNativeRefusal, PrivateNativeResidual, PrivateNativeStatus, PrivateOwnerCleanup, PrivatePointerHold,
    PrivateReconciliationPermit, PrivateReleaseOutcome, PrivateReleaseStep,
};

const ORIGIN: u64 = 7;
const GRANT: u64 = 44;
const INCARNATION: HoldIncarnation = HoldIncarnation { input: 3, generation: 5 };
const BUTTON: u32 = 272;
const KEY: u32 = 30;

fn clean_pointer() -> PointerReleaseCleanup {
    PointerReleaseCleanup {
        mapper_present: true,
        query_cleared: true,
        selection_present: true,
        retirement: PointerActivationRetirement::Retired,
    }
}

fn clean_key() -> KeyReleaseCleanup {
    KeyReleaseCleanup {
        keyboard_held: true,
        state_known: true,
        query_present: true,
        mapper_present: true,
        selection_present: true,
        retirement: KeyboardActivationRetirement::Retired,
    }
}

fn held_pointer(press: PointerPressRecord, activation: PointerActivationCommit) -> PrivatePointerHold<&'static str> {
    let mut storage = None;
    PrivatePointerHold::install(&mut storage, ORIGIN, 9, 2, INCARNATION.input, GRANT, press).unwrap();
    let mut hold = storage.unwrap();
    assert_eq!(hold.status(), PrivateNativeStatus::PressEntered);
    assert!(hold.press_applied(INCARNATION, true, activation, "press"));
    hold
}

fn pointer_press() -> PointerPressRecord {
    PointerPressRecord { evdev: BUTTON, route_lease: None, grab_lease: None }
}

fn automatic(stamp: u64) -> PointerActivationCommit {
    PointerActivationCommit { automatic: true, stamp, synchronous: false }
}

fn released_pointer(
    press: PointerPressRecord,
    activation: PointerActivationCommit,
    cleanup: PointerReleaseCleanup,
) -> PrivatePointerHold<&'static str> {
    let mut hold = held_pointer(press, activation);
    hold.enter_release(Some(BUTTON)).unwrap();
    assert_eq!(hold.release_answered(PrivateReleaseOutcome::DeliverTo(INCARNATION)), PrivateReleaseStep::Cleanup);
    hold.finish_release(cleanup, Some("release"));
    hold
}

#[test]
fn occupied_storage_refuses_a_second_install() {
    let mut storage = None;
    PrivatePointerHold::<u8>::install(&mut storage, ORIGIN, 9, 2, 3, GRANT, pointer_press()).unwrap();
    assert_eq!(
        PrivatePointerHold::install(&mut storage, ORIGIN, 10, 2, 3, GRANT, pointer_press()),
        Err(PrivateNativeRefusal::WrongPhase)
    );
    assert_eq!(storage.unwrap().client(), 9);
}

#[test]
fn a_first_press_holds_with_its_event() {
    let mut hold = held_pointer(pointer_press(), automatic(11));
    assert_eq!(hold.status(), PrivateNativeStatus::Held);
    assert_eq!(hold.incarnation(), Some(INCARNATION));
    assert_eq!(hold.take_press_emission(), Some("press"));
}

#[test]
fn a_press_that_was_not_first_is_retained_without_an_event() {
    let mut storage = None;
    PrivatePointerHold::install(&mut storage, ORIGIN, 9, 2, 3, GRANT, pointer_press()).unwrap();
    let mut hold = storage.unwrap();
    assert!(!hold.press_applied(INCARNATION, false, automatic(11), "press"));
    assert_eq!(hold.status(), PrivateNativeStatus::Retained(PrivateNativeResidual::IncarnationMismatch));
    assert_eq!(hold.take_press_emission(), None);
}

#[test]
fn a_join_must_join_the_same_incarnation() {
    let hold = held_pointer(pointer_press(), automatic(11));
    assert_eq!(hold.admit_join(), Ok(()));
    assert_eq!(hold.confirm_join(INCARNATION, false), Ok(()));
    assert_eq!(hold.confirm_join(INCARNATION, true), Err(PrivateNativeRefusal::WrongRecipient));
    let other = HoldIncarnation { input: 3, generation: 6 };
    assert_eq!(hold.confirm_join(other, false), Err(PrivateNativeRefusal::WrongRecipient));
}

#[test]
fn a_release_needs_a_held_hold_and_its_own_button() {
    let mut hold = held_pointer(pointer_press(), automatic(11));
    assert_eq!(hold.enter_release(Some(BUTTON + 1)), Err(PrivateNativeRefusal::InvalidButton));
    assert_eq!(hold.enter_release(None), Err(PrivateNativeRefusal::InvalidButton));
    assert_eq!(hold.status(), PrivateNativeStatus::Held);
    assert_eq!(hold.enter_release(Some(BUTTON)), Ok(()));
    assert_eq!(hold.status(), PrivateNativeStatus::ReleaseEntered);
    assert_eq!(hold.enter_release(Some(BUTTON)), Err(PrivateNativeRefusal::WrongPhase));
    assert_eq!(hold.admit_join(), Err(PrivateNativeRefusal::WrongPhase));
}

#[test]
fn a_release_that_ends_nothing_puts_the_hold_back() {
    let mut hold = held_pointer(pointer_press(), automatic(11));
    hold.enter_release(Some(BUTTON)).unwrap();
    assert_eq!(hold.release_answered(PrivateReleaseOutcome::StillHeld), PrivateReleaseStep::StillHeld);
    assert_eq!(hold.status(), PrivateNativeStatus::Held);
    assert_eq!(hold.native_proof(), None);
}

#[test]
fn a_release_of_another_incarnation_is_a_mismatch() {
    let mut hold = held_pointer(pointer_press(), automatic(11));
    hold.enter_release(Some(BUTTON)).unwrap();
    let other = HoldIncarnation { input: 4, generation: 5 };
    assert_eq!(hold.release_answered(PrivateReleaseOutcome::DeliverTo(other)), PrivateReleaseStep::Interrupted);
    assert_eq!(hold.status(), PrivateNativeStatus::Retained(PrivateNativeResidual::IncarnationMismatch));
}

#[test]
fn a_clean_release_reconciles_with_the_sources_proof() {
    let mut hold = released_pointer(pointer_press(), automatic(11), clean_pointer());
    assert_eq!(hold.status(), PrivateNativeStatus::NativeReconciled);
    assert_eq!(hold.native_proof(), Some(PrivateNativeProof { origin: ORIGIN, incarnation: INCARNATION, grant: GRANT }));
    assert_eq!(hold.activation_retirement(), Some(ActivationRetirementReceipt { origin: ORIGIN, stamp: 11 }));
    assert_eq!(hold.take_release_emission(), Some("release"));
}

#[test]
fn a_missing_mapper_cleans_nothing() {
    let mut cleanup = clean_pointer();
    cleanup.mapper_present = false;
    let mut hold = released_pointer(pointer_press(), automatic(11), cleanup);
    assert_eq!(hold.status(), PrivateNativeStatus::Retained(PrivateNativeResidual::MissingMapper));
    assert_eq!(hold.activation_retirement(), None);
    assert_eq!(hold.take_release_emission(), None);
}

#[test]
fn pointer_residuals_come_in_their_order() {
    let mut cleanup = clean_pointer();
    cleanup.query_cleared = false;
    cleanup.selection_present = false;
    let leased = PointerPressRecord { evdev: BUTTON, route_lease: Some(1), grab_lease: None };
    let hold = released_pointer(leased, automatic(11), cleanup);
    assert_eq!(hold.status(), PrivateNativeStatus::Retained(PrivateNativeResidual::MissingQueryScope));

    let mut cleanup = clean_pointer();
    cleanup.selection_present = false;
    let hold = released_pointer(leased, automatic(11), cleanup);
    assert_eq!(hold.status(), PrivateNativeStatus::Retained(PrivateNativeResidual::SelectionUnavailable));

    let grabbed = PointerPressRecord { evdev: BUTTON, route_lease: None, grab_lease: Some(2) };
    let hold = released_pointer(grabbed, automatic(11), clean_pointer());
    assert_eq!(hold.status(), PrivateNativeStatus::Retained(PrivateNativeResidual::ExternalLease));

    let frozen = PointerActivationCommit { automatic: true, stamp: 11, synchronous: true };
    let hold = released_pointer(pointer_press(), frozen, clean_pointer());
    assert_eq!(hold.status(), PrivateNativeStatus::Retained(PrivateNativeResidual::Synchronous));

    let mut cleanup = clean_pointer();
    cleanup.retirement = PointerActivationRetirement::StillRequiredByOtherButtons;
    let hold = released_pointer(pointer_press(), automatic(11), cleanup);
    assert_eq!(
        hold.status(),
        PrivateNativeStatus::Retained(PrivateNativeResidual::Activation(
            PointerActivationRetirement::StillRequiredByOtherButtons
        ))
    );
    assert_eq!(hold.activation_retirement(), None);
}

#[test]
fn an_explicit_activation_is_not_this_releases_to_retire() {
    let explicit = PointerActivationCommit { automatic: false, stamp: 11, synchronous: false };
    let mut cleanup = clean_pointer();
    cleanup.retirement = PointerActivationRetirement::StillRequiredByOtherButtons;
    let hold = released_pointer(pointer_press(), explicit, cleanup);
    assert_eq!(hold.status(), PrivateNativeStatus::NativeReconciled);
    assert_eq!(hold.activation_retirement(), None);
}

fn key_press() -> KeyPressRecord {
    KeyPressRecord { evdev: KEY, key: 38, route_lease: None }
}

fn triggered(stamp: u64) -> KeyboardActivation {
    KeyboardActivation { trigger: Some(38), stamp, leased: false, synchronous: false }
}

fn held_key(press: KeyPressRecord, activation: Option<KeyboardActivation>) -> PrivateKeyHold<&'static str> {
    let mut storage = None;
    PrivateKeyHold::install(&mut storage, ORIGIN, 9, 2, INCARNATION.input, GRANT, press).unwrap();
    let mut hold = storage.unwrap();
    assert!(hold.press_applied(INCARNATION, true, activation));
    assert_eq!(hold.status(), PrivateNativeStatus::PressEntered);
    hold.press_held(Some("press"));
    hold
}

fn released_key(
    press: KeyPressRecord,
    activation: Option<KeyboardActivation>,
    cleanup: KeyReleaseCleanup,
) -> PrivateKeyHold<&'static str> {
    let mut hold = held_key(press, activation);
    hold.enter_release(false, Some(KEY)).unwrap();
    assert_eq!(hold.release_answered(PrivateReleaseOutcome::DeliverTo(INCARNATION)), PrivateReleaseStep::Cleanup);
    hold.finish_release(cleanup, Some("release"));
    hold
}

#[test]
fn a_key_press_holds_once_its_state_is_known() {
    let mut hold = held_key(key_press(), Some(triggered(3)));
    assert_eq!(hold.status(), PrivateNativeStatus::Held);
    assert_eq!(hold.take_press_emission(), Some("press"));
    assert_eq!(hold.admit_join(true), Ok(()));
    assert_eq!(hold.admit_join(false), Err(PrivateNativeRefusal::KeyboardUnavailable));
    assert_eq!(hold.confirm_join(INCARNATION, true), Err(PrivateNativeRefusal::WrongRecipient));
}

#[test]
fn a_key_release_checks_phase_route_then_key() {
    let mut hold = held_key(key_press(), None);
    assert_eq!(hold.enter_release(true, Some(KEY)), Err(PrivateNativeRefusal::ForeignOrigin));
    assert_eq!(hold.enter_release(false, Some(KEY + 1)), Err(PrivateNativeRefusal::InvalidKey));
    assert_eq!(hold.enter_release(false, Some(KEY)), Ok(()));
    assert_eq!(hold.enter_release(true, Some(KEY)), Err(PrivateNativeRefusal::WrongPhase));
}

#[test]
fn a_clean_key_release_reconciles_and_leaves_its_receipt() {
    let mut hold = released_key(key_press(), Some(triggered(3)), clean_key());
    assert_eq!(hold.status(), PrivateNativeStatus::NativeReconciled);
    assert_eq!(hold.native_proof(), Some(PrivateNativeProof { origin: ORIGIN, incarnation: INCARNATION, grant: GRANT }));
    assert_eq!(hold.activation_retirement(), Some(ActivationRetirementReceipt { origin: ORIGIN, stamp: 3 }));
    assert_eq!(hold.take_release_emission(), Some("release"));
}

#[test]
fn key_residuals_come_in_their_order() {
    let mut cleanup = clean_key();
    cleanup.state_known = false;
    cleanup.query_present = false;
    assert_eq!(
        released_key(key_press(), None, cleanup).status(),
        PrivateNativeStatus::Retained(PrivateNativeResidual::KeyboardUnavailable)
    );
    let mut cleanup = clean_key();
    cleanup.query_present = false;
    cleanup.mapper_present = false;
    assert_eq!(
        released_key(key_press(), None, cleanup).status(),
        PrivateNativeStatus::Retained(PrivateNativeResidual::MissingQueryScope)
    );
    let mut cleanup = clean_key();
    cleanup.mapper_present = false;
    assert_eq!(
        released_key(key_press(), None, cleanup).status(),
        PrivateNativeStatus::Retained(PrivateNativeResidual::MissingMapper)
    );
    let mut cleanup = clean_key();
    cleanup.selection_present = false;
    assert_eq!(
        released_key(key_press(), None, cleanup).status(),
        PrivateNativeStatus::Retained(PrivateNativeResidual::SelectionUnavailable)
    );
    let leased = KeyboardActivation { trigger: None, stamp: 3, leased: true, synchronous: true };
    assert_eq!(
        released_key(key_press(), Some(leased), clean_key()).status(),
        PrivateNativeStatus::Retained(PrivateNativeResidual::ExternalLease)
    );
    let frozen = KeyboardActivation { trigger: None, stamp: 3, leased: false, synchronous: true };
    assert_eq!(
        released_key(key_press(), Some(frozen), clean_key()).status(),
        PrivateNativeStatus::Retained(PrivateNativeResidual::Synchronous)
    );
    let mut cleanup = clean_key();
    cleanup.retirement = KeyboardActivationRetirement::Replaced;
    let hold = released_key(key_press(), Some(triggered(3)), cleanup);
    assert_eq!(
        hold.status(),
        PrivateNativeStatus::Retained(PrivateNativeResidual::KeyboardActivation(KeyboardActivationRetirement::Replaced))
    );
    assert_eq!(hold.activation_retirement(), None);
}

#[test]
fn an_untriggered_key_activation_needs_no_retirement() {
    let mut cleanup = clean_key();
    cleanup.retirement = KeyboardActivationRetirement::StillRequiredByTrigger;
    let untriggered = KeyboardActivation { trigger: None, stamp: 3, leased: false, synchronous: false };
    let hold = released_key(key_press(), Some(untriggered), cleanup);
    assert_eq!(hold.status(), PrivateNativeStatus::NativeReconciled);
    assert_eq!(hold.activation_retirement(), None);
}

fn permit() -> PrivateReconciliationPermit {
    PrivateReconciliationPermit { origin: ORIGIN, incarnation: INCARNATION, owner: Some(GRANT), client: 9, generation: 2 }
}

fn removed(pointer: Vec<u64>, keyboard: Vec<u64>) -> PrivateOwnerCleanup {
    PrivateOwnerCleanup { removed_pointer: pointer, removed_keyboard: keyboard }
}

fn pointer_facts() -> PointerReconcileFacts {
    PointerReconcileFacts {
        query_scope_retired: true,
        mapper_present: true,
        button_pressed: true,
        selection_present: true,
        release_maps: true,
    }
}

fn key_facts() -> KeyReconcileFacts {
    KeyReconcileFacts {
        query_scope_retired: true,
        selection_present: true,
        keyboards_foreign: false,
        keyboard_present: true,
        key_held: true,
        release_maps: true,
    }
}

#[test]
fn a_revoked_pointer_hold_reconciles_once_on_its_permit() {
    let mut hold = held_pointer(pointer_press(), automatic(11));
    let cleanup = removed(vec![11], Vec::new());
    assert_eq!(hold.reconcile_revoked(permit(), Some(&cleanup), pointer_facts()), Ok(true));
    assert_eq!(hold.status(), PrivateNativeStatus::NativeReconciled);
    assert_eq!(hold.native_proof(), Some(PrivateNativeProof { origin: ORIGIN, incarnation: INCARNATION, grant: GRANT }));
    assert_eq!(hold.activation_retirement(), Some(ActivationRetirementReceipt { origin: ORIGIN, stamp: 11 }));
    assert_eq!(hold.reconcile_revoked(permit(), Some(&cleanup), pointer_facts()), Ok(false));
}

#[test]
fn a_pointer_reconciliation_checks_in_order() {
    let cleanup = removed(vec![11], Vec::new());
    let mut hold = held_pointer(pointer_press(), automatic(11));
    let mut foreign = permit();
    foreign.owner = Some(GRANT + 1);
    assert_eq!(hold.reconcile_revoked(foreign, Some(&cleanup), pointer_facts()), Err(PrivateNativeRefusal::ForeignOrigin));
    let mut facts = pointer_facts();
    facts.query_scope_retired = false;
    assert_eq!(hold.reconcile_revoked(permit(), Some(&cleanup), facts), Err(PrivateNativeRefusal::MissingQueryScope));
    assert_eq!(hold.reconcile_revoked(permit(), None, pointer_facts()), Err(PrivateNativeRefusal::Unavailable));
    let other = removed(vec![12], Vec::new());
    assert_eq!(hold.reconcile_revoked(permit(), Some(&other), pointer_facts()), Err(PrivateNativeRefusal::ActivationMismatch));
    let mut facts = pointer_facts();
    facts.button_pressed = false;
    assert_eq!(hold.reconcile_revoked(permit(), Some(&cleanup), facts), Err(PrivateNativeRefusal::WrongPhase));
    let mut facts = pointer_facts();
    facts.selection_present = false;
    assert_eq!(hold.reconcile_revoked(permit(), Some(&cleanup), facts), Err(PrivateNativeRefusal::SelectionUnavailable));
    assert_eq!(hold.status(), PrivateNativeStatus::Held);
    // A refused mapping is written ahead: the hold is left entered, never replayed.
    let mut facts = pointer_facts();
    facts.release_maps = false;
    assert_eq!(hold.reconcile_revoked(permit(), Some(&cleanup), facts), Err(PrivateNativeRefusal::InvalidButton));
    assert_eq!(hold.status(), PrivateNativeStatus::ReleaseEntered);
    assert_eq!(hold.reconcile_revoked(permit(), Some(&cleanup), pointer_facts()), Err(PrivateNativeRefusal::WrongPhase));
}

#[test]
fn a_leased_pointer_hold_is_retained_not_reconciled() {
    let leased = PointerPressRecord { evdev: BUTTON, route_lease: Some(3), grab_lease: None };
    let mut hold = held_pointer(leased, automatic(11));
    let cleanup = removed(vec![11], Vec::new());
    assert_eq!(hold.reconcile_revoked(permit(), Some(&cleanup), pointer_facts()), Ok(false));
    assert_eq!(hold.status(), PrivateNativeStatus::Retained(PrivateNativeResidual::ExternalLease));
}

#[test]
fn a_revoked_key_hold_needs_the_keyboard_as_its_release_left_it() {
    let cleanup = removed(Vec::new(), vec![3]);
    let mut hold = held_key(key_press(), Some(triggered(3)));
    let mut facts = key_facts();
    facts.key_held = false;
    assert_eq!(hold.reconcile_revoked(permit(), Some(&cleanup), facts), Err(PrivateNativeRefusal::KeyboardUnavailable));
    let mut facts = key_facts();
    facts.keyboards_foreign = true;
    assert_eq!(hold.reconcile_revoked(permit(), Some(&cleanup), facts), Err(PrivateNativeRefusal::ForeignOrigin));
    assert_eq!(hold.reconcile_revoked(permit(), Some(&cleanup), key_facts()), Ok(true));
    assert!(hold.release_xkb_applied());
    assert_eq!(hold.activation_retirement(), Some(ActivationRetirementReceipt { origin: ORIGIN, stamp: 3 }));
    assert_eq!(hold.status(), PrivateNativeStatus::NativeReconciled);
}

#[test]
fn a_key_hold_without_activation_needs_no_removal() {
    let empty = removed(Vec::new(), Vec::new());
    let mut hold = held_key(key_press(), None);
    assert_eq!(hold.reconcile_revoked(permit(), Some(&empty), key_facts()), Ok(true));
    assert_eq!(hold.activation_retirement(), None);
    let mut other = held_key(key_press(), Some(triggered(4)));
    assert_eq!(other.reconcile_revoked(permit(), Some(&empty), key_facts()), Err(PrivateNativeRefusal::ActivationMismatch));
}

#[test]
fn a_hold_awaits_only_its_own_activations_retirement() {
    let mut donor = held_pointer(pointer_press(), automatic(11));
    let cleanup = removed(vec![11], Vec::new());
    let waiting = held_pointer(pointer_press(), automatic(11));
    assert!(!waiting.needs_retirement_from(&donor));
    donor.reconcile_revoked(permit(), Some(&cleanup), pointer_facts()).unwrap();
    assert!(waiting.needs_retirement_from(&donor));
    let other = held_pointer(pointer_press(), automatic(12));
    assert!(!other.needs_retirement_from(&donor));
    assert!(!donor.needs_retirement_from(&donor));
    let key_donor = released_key(key_press(), Some(triggered(3)), clean_key());
    let key_waiting = held_key(key_press(), Some(triggered(3)));
    assert!(key_waiting.needs_retirement_from(&key_donor));
}

#[test]
fn a_composed_pointer_release_marks_before_it_asks() {
    let mut hold = held_pointer(pointer_press(), automatic(4));
    let mut marked = false;
    let mut asked = Vec::new();
    let r: Result<PrivateReleaseStep, PrivateStepRefusal<u8>> =
        begin_pointer_release(&mut hold, &mut marked, Some(BUTTON), |input: u64| {
            asked.push(input);
            Ok(PrivateReleaseOutcome::DeliverTo(INCARNATION))
        });
    assert_eq!(r, Ok(PrivateReleaseStep::Cleanup));
    assert!(marked);
    assert_eq!(asked, vec![INCARNATION.input]);
    assert_eq!(hold.status(), PrivateNativeStatus::ReleaseEntered);
}

#[test]
fn a_composed_pointer_release_refused_by_the_hold_asks_nothing() {
    let mut hold = held_pointer(pointer_press(), automatic(4));
    let mut marked = false;
    let r: Result<PrivateReleaseStep, PrivateStepRefusal<u8>> =
        begin_pointer_release(&mut hold, &mut marked, Some(BUTTON + 1), |_input: u64| panic!("asked"));
    assert_eq!(r, Err(PrivateStepRefusal::Native(PrivateNativeRefusal::InvalidButton)));
    assert!(!marked);
    assert_eq!(hold.status(), PrivateNativeStatus::Held);
}

#[test]
fn a_refused_authority_release_leaves_the_hold_entered() {
    let mut hold = held_pointer(pointer_press(), automatic(4));
    let mut marked = false;
    let r = begin_pointer_release(&mut hold, &mut marked, Some(BUTTON), |_input: u64| Err::<PrivateReleaseOutcome, u8>(9));
    assert_eq!(r, Err(PrivateStepRefusal::Authority(9)));
    assert!(marked);
    assert_eq!(hold.status(), PrivateNativeStatus::ReleaseEntered);
    let mut still = held_pointer(pointer_press(), automatic(4));
    let r = begin_pointer_release(&mut still, &mut marked, Some(BUTTON), |_input: u64| {
        Ok::<PrivateReleaseOutcome, u8>(PrivateReleaseOutcome::StillHeld)
    });
    assert_eq!(r, Ok(PrivateReleaseStep::StillHeld));
    assert_eq!(still.status(), PrivateNativeStatus::Held);
}

#[test]
fn a_composed_key_release_checks_the_route_first() {
    let mut hold = held_key(key_press(), Some(triggered(2)));
    let mut marked = false;
    let r: Result<PrivateReleaseStep, PrivateStepRefusal<u8>> =
        begin_key_release(&mut hold, &mut marked, true, Some(KEY), |_input: u64| panic!("asked"));
    assert_eq!(r, Err(PrivateStepRefusal::Native(PrivateNativeRefusal::ForeignOrigin)));
    assert!(!marked);
    let r: Result<PrivateReleaseStep, PrivateStepRefusal<u8>> =
        begin_key_release(&mut hold, &mut marked, false, Some(KEY), |input: u64| {
            assert_eq!(input, INCARNATION.input);
            Ok(PrivateReleaseOutcome::DeliverTo(INCARNATION))
        });
    assert_eq!(r, Ok(PrivateReleaseStep::Cleanup));
    assert!(marked);
}

#[test]
fn a_release_clears_only_its_own_core_button_bit() {
    assert_eq!(released_pointer_mask(0x0104, 1), 0x0004);
    assert_eq!(released_pointer_mask(0x1f04, 3), 0x1b04);
    assert_eq!(released_pointer_mask(0x1f04, 9), 0x1f04);
    assert_eq!(released_pointer_mask(0x1f04, 0), 0x1f04);
}

#[test]
fn key_modifiers_replace_the_selected_pointers_modifier_byte() {
    let mut selected = Some(0x0105u16);
    observe_key_modifiers(&mut selected, 0x04);
    assert_eq!(selected, Some(0x0104));
    let mut absent: Option<u16> = None;
    observe_key_modifiers(&mut absent, 0x04);
    assert_eq!(absent, None);
}

#[test]
fn a_release_event_carries_the_query_modifiers_over_the_buttons_before() {
    assert_eq!(release_event_state(Some(0x1f05), 0x0100), 0x0105);
    assert_eq!(release_event_state(None, 0x0100), 0x0100);
}

fn answered_pointer() -> PrivatePointerHold<&'static str> {
    let mut hold = held_pointer(pointer_press(), automatic(4));
    hold.enter_release(Some(BUTTON)).unwrap();
    assert_eq!(hold.release_answered(PrivateReleaseOutcome::DeliverTo(INCARNATION)), PrivateReleaseStep::Cleanup);
    hold
}

fn release_facts() -> PrivatePointerReleaseFacts {
    PrivatePointerReleaseFacts { button: 1, surface: 30, root_x: 100, root_y: 50, time_msec: 9 }
}

#[test]
fn a_composed_pointer_release_builds_its_event_and_clears_its_bit() {
    let mut hold = answered_pointer();
    let mut selected = Some(0x0105u16);
    let retired = std::cell::Cell::new(None);
    let r = finish_pointer_release(
        PrivatePointerReleaseSteps {
            mapper: |evdev: u32| {
                assert_eq!(evdev, BUTTON);
                Some(0x0100u16)
            },
            query: || Some(0x1f04u16),
            coordinates: |x: i16, y: i16| -> Result<(i16, i16), PrivateAppliedRefusal> { Ok((x - 10, y - 5)) },
            retire: |stamp: u64, button: u8| {
                retired.set(Some((stamp, button)));
                PointerActivationRetirement::Retired
            },
            query_release: |_button: u8| true,
            emission: |_event: XAuthorityPointerEvent| -> Result<&'static str, PrivateAppliedRefusal> { Ok("release") },
        },
        &mut hold,
        &mut selected,
        true,
        release_facts(),
    );
    let event = r.unwrap().unwrap();
    assert_eq!(event.state, 0x0104);
    assert_eq!((event.surface, event.root_x, event.root_y, event.event_x, event.event_y), (30, 100, 50, 90, 45));
    assert_eq!(retired.get(), Some((4, 1)));
    assert_eq!(selected, Some(0x0005));
    assert_eq!(hold.status(), PrivateNativeStatus::NativeReconciled);
    assert_eq!(hold.activation_retirement(), Some(ActivationRetirementReceipt { origin: ORIGIN, stamp: 4 }));
}

#[test]
fn a_pointer_release_without_a_mapper_cleans_nothing() {
    let mut hold = answered_pointer();
    let mut selected = Some(0x0105u16);
    let r = finish_pointer_release(
        PrivatePointerReleaseSteps {
            mapper: |_evdev: u32| None,
            query: || -> Option<u16> { panic!("asked") },
            coordinates: |_x: i16, _y: i16| -> Result<(i16, i16), PrivateAppliedRefusal> { panic!("asked") },
            retire: |_stamp: u64, _button: u8| -> PointerActivationRetirement { panic!("asked") },
            query_release: |_button: u8| -> bool { panic!("asked") },
            emission: |_event: XAuthorityPointerEvent| -> Result<&'static str, PrivateAppliedRefusal> { panic!("asked") },
        },
        &mut hold,
        &mut selected,
        true,
        release_facts(),
    );
    assert_eq!(r, Err(PrivateAppliedRefusal::Interrupted));
    assert_eq!(selected, Some(0x0105));
    assert_eq!(hold.status(), PrivateNativeStatus::Retained(PrivateNativeResidual::MissingMapper));
}

#[test]
fn a_pointer_release_without_a_query_scope_owes_its_event() {
    let mut hold = answered_pointer();
    let mut selected = None;
    let r = finish_pointer_release(
        PrivatePointerReleaseSteps {
            mapper: |_evdev: u32| Some(0u16),
            query: || None,
            coordinates: |x: i16, y: i16| -> Result<(i16, i16), PrivateAppliedRefusal> { Ok((x, y)) },
            retire: |_stamp: u64, _button: u8| PointerActivationRetirement::Retired,
            query_release: |_button: u8| false,
            emission: |_event: XAuthorityPointerEvent| -> Result<&'static str, PrivateAppliedRefusal> { panic!("asked") },
        },
        &mut hold,
        &mut selected,
        true,
        release_facts(),
    );
    assert_eq!(r, Err(PrivateAppliedRefusal::Interrupted));
    assert_eq!(selected, None);
    assert_eq!(hold.status(), PrivateNativeStatus::Retained(PrivateNativeResidual::MissingQueryScope));
}

fn answered_key() -> PrivateKeyHold<&'static str> {
    let mut hold = held_key(key_press(), Some(triggered(2)));
    hold.enter_release(false, Some(KEY)).unwrap();
    assert_eq!(hold.release_answered(PrivateReleaseOutcome::DeliverTo(INCARNATION)), PrivateReleaseStep::Cleanup);
    hold
}

#[test]
fn a_composed_key_release_reports_its_modifiers_and_reconciles() {
    let mut hold = answered_key();
    let mut selected = Some(0x0105u16);
    let observed = std::cell::Cell::new(None);
    let r = finish_key_release(
        PrivateKeyReleaseSteps {
            keyboard_held: |key: u8| key == 38,
            map_key: |evdev: u32| if evdev == KEY { Some((0x0004u16, 0x00u8)) } else { None },
            query: || true,
            buttons: || Some(0x0100u16),
            observe_modifiers: |mask: u8| observed.set(Some(mask)),
            retire: |stamp: u64, key: u8| {
                assert_eq!((stamp, key), (2, 38));
                KeyboardActivationRetirement::Retired
            },
            emission: |_event: XAuthorityKeyEvent| -> Result<&'static str, PrivateAppliedRefusal> { Ok("release") },
        },
        &mut hold,
        &mut selected,
        true,
        7,
    );
    let event = r.unwrap().unwrap();
    assert_eq!((event.pressed, event.keycode, event.state, event.time_msec), (false, 38, 0x0104, 7));
    assert_eq!(observed.get(), Some(0x00));
    assert_eq!(selected, Some(0x0100));
    assert_eq!(hold.status(), PrivateNativeStatus::NativeReconciled);
}

#[test]
fn a_key_no_longer_held_retains_the_release() {
    let mut hold = answered_key();
    let mut selected = Some(0x0105u16);
    let r = finish_key_release(
        PrivateKeyReleaseSteps {
            keyboard_held: |_key: u8| false,
            map_key: |_evdev: u32| -> Option<(u16, u8)> { panic!("asked") },
            query: || -> bool { panic!("asked") },
            buttons: || -> Option<u16> { panic!("asked") },
            observe_modifiers: |_mask: u8| panic!("asked"),
            retire: |_stamp: u64, _key: u8| -> KeyboardActivationRetirement { panic!("asked") },
            emission: |_event: XAuthorityKeyEvent| -> Result<&'static str, PrivateAppliedRefusal> { panic!("asked") },
        },
        &mut hold,
        &mut selected,
        true,
        7,
    );
    assert_eq!(r, Err(PrivateAppliedRefusal::Interrupted));
    assert_eq!(selected, Some(0x0105));
    assert_eq!(hold.status(), PrivateNativeStatus::Retained(PrivateNativeResidual::KeyboardUnavailable));
}
