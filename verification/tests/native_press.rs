use sophia_x_authority::native_hold::{KeyPressRecord, PrivateKeyHold, PrivateNativeRefusal};
use sophia_x_authority::native_press::{
    commit_key_refused, key_press_refusal, key_recipient, key_recipient_refusal, mark_may_have_applied,
    pointer_press_refusal, press_recipient_refusal,
};

#[test]
fn a_clean_pointer_press_is_not_refused() {
    assert_eq!(pointer_press_refusal(true, true, false, true, Some(272), true, true, true), None);
}

#[test]
fn a_pointer_press_is_refused_in_the_order_it_is_checked() {
    assert_eq!(
        pointer_press_refusal(false, true, true, false, None, false, false, false),
        Some(PrivateNativeRefusal::ForeignOrigin)
    );
    assert_eq!(
        pointer_press_refusal(true, false, false, true, Some(272), true, true, true),
        Some(PrivateNativeRefusal::ForeignOrigin)
    );
    assert_eq!(
        pointer_press_refusal(true, true, true, false, None, false, false, false),
        Some(PrivateNativeRefusal::WrongPhase)
    );
    assert_eq!(
        pointer_press_refusal(true, true, false, false, None, false, false, false),
        Some(PrivateNativeRefusal::ForeignOrigin)
    );
    assert_eq!(
        pointer_press_refusal(true, true, false, true, None, true, false, false),
        Some(PrivateNativeRefusal::InvalidButton)
    );
    assert_eq!(
        pointer_press_refusal(true, true, false, true, Some(272), false, false, false),
        Some(PrivateNativeRefusal::InvalidButton)
    );
    assert_eq!(
        pointer_press_refusal(true, true, false, true, Some(272), true, false, false),
        Some(PrivateNativeRefusal::MissingMapper)
    );
    assert_eq!(
        pointer_press_refusal(true, true, false, true, Some(272), true, true, false),
        Some(PrivateNativeRefusal::MissingQueryScope)
    );
}

#[test]
fn a_press_recipient_needs_its_client_and_a_usable_revision() {
    assert_eq!(press_recipient_refusal(true, true, Some(4)), None);
    assert_eq!(press_recipient_refusal(false, true, Some(4)), Some(PrivateNativeRefusal::ForeignOrigin));
    assert_eq!(press_recipient_refusal(true, false, None), Some(PrivateNativeRefusal::ForeignOrigin));
    assert_eq!(press_recipient_refusal(true, true, None), Some(PrivateNativeRefusal::SelectionUnavailable));
    assert_eq!(press_recipient_refusal(true, true, Some(u64::MAX)), Some(PrivateNativeRefusal::SelectionUnavailable));
}

#[test]
fn a_key_press_yields_its_x_keycode_or_the_first_refusal() {
    assert_eq!(key_press_refusal(true, true, true, false, Some(30), Some(38), true, true, true), Ok(38));
    assert_eq!(
        key_press_refusal(true, true, false, true, None, None, false, false, false),
        Err(PrivateNativeRefusal::ForeignOrigin)
    );
    assert_eq!(
        key_press_refusal(true, true, true, true, None, None, false, false, false),
        Err(PrivateNativeRefusal::WrongPhase)
    );
    assert_eq!(
        key_press_refusal(true, true, true, false, None, Some(38), false, false, false),
        Err(PrivateNativeRefusal::InvalidKey)
    );
    assert_eq!(
        key_press_refusal(true, true, true, false, Some(30), None, false, false, false),
        Err(PrivateNativeRefusal::InvalidKey)
    );
    assert_eq!(
        key_press_refusal(true, true, true, false, Some(30), Some(38), false, true, true),
        Err(PrivateNativeRefusal::ForeignOrigin)
    );
    assert_eq!(
        key_press_refusal(true, true, true, false, Some(30), Some(38), true, false, true),
        Err(PrivateNativeRefusal::KeyboardUnavailable)
    );
    assert_eq!(
        key_press_refusal(true, true, true, false, Some(30), Some(38), true, true, false),
        Err(PrivateNativeRefusal::KeyboardUnavailable)
    );
}

#[test]
fn a_grab_owner_receives_the_key_before_focus() {
    assert_eq!(key_recipient(9, Some(4)), 4);
    assert_eq!(key_recipient(9, None), 9);
    assert_eq!(key_recipient_refusal(9, Some(4), 4), None);
    assert_eq!(key_recipient_refusal(9, Some(4), 9), Some(PrivateNativeRefusal::WrongRecipient));
    assert_eq!(key_recipient_refusal(9, None, 9), None);
}

#[test]
fn a_refused_key_commit_rolls_back_the_hold_and_the_mark() {
    let mut storage: Option<PrivateKeyHold<&'static str>> = None;
    PrivateKeyHold::install(&mut storage, 7, 9, 2, 3, 44, KeyPressRecord { evdev: 30, key: 38, route_lease: None })
        .unwrap();
    let mut may_have_applied = false;
    let prior = mark_may_have_applied(&mut may_have_applied);
    assert!(!prior);
    assert!(may_have_applied);
    commit_key_refused(&mut storage, &mut may_have_applied, prior);
    assert!(storage.is_none());
    assert!(!may_have_applied);
    let mut marked = true;
    assert!(mark_may_have_applied(&mut marked));
    assert!(marked);
}

use std::cell::RefCell;

use sophia_x_authority::key_emission::XAuthorityKeyEvent;
use sophia_x_authority::native_hold::{
    HoldIncarnation, KeyboardActivation, PointerActivationCommit, PrivateNativeResidual, PrivateNativeStatus,
    PrivatePointerHold,
};
use sophia_x_authority::native_press::{
    key_commit_refusal, observed_pointer_mask, pointer_event, press_key, press_pointer, PrivateKeyPressFacts,
    PrivateKeyPressSteps, PrivatePointerPressFacts, PrivatePointerPressSteps, PrivatePreparedKeyPress,
    PrivatePreparedPointerPress, PrivateStepRefusal, PrivateResolvedPointerPress,
};
use sophia_x_authority::pointer_emission::{XAuthorityPointerEvent, XAuthorityPointerEventKind};

const PRESSED: HoldIncarnation = HoldIncarnation { input: 3, generation: 5 };

struct PointerWork {
    recovery: Result<bool, ()>,
    press: Result<(HoldIncarnation, bool), &'static str>,
    recipient_matches: bool,
    steps: RefCell<Vec<&'static str>>,
}

fn run_pointer_press(
    work: &PointerWork,
    storage: &mut Option<PrivatePointerHold<&'static str>>,
    may_have_applied: &mut bool,
    facts: PrivatePointerPressFacts,
) -> Result<(HoldIncarnation, Option<XAuthorityPointerEvent>), PrivateStepRefusal<&'static str>> {
    let steps = &work.steps;
    press_pointer(
        PrivatePointerPressSteps {
            prepare: || {
                steps.borrow_mut().push("prepare");
                Ok(PrivatePreparedPointerPress {
                    recipient: 9,
                    generation: 2,
                    client_matches: work.recipient_matches,
                    selection_origin_matches: true,
                    revision: Some(4),
                })
            },
            resolve: || {
                steps.borrow_mut().push("resolve");
                Ok(PrivateResolvedPointerPress { event_x: 5, event_y: 6, grab_lease: Some(70) })
            },
            bind: |recipient: u64| {
                assert_eq!(recipient, 9);
                steps.borrow_mut().push("bind");
                work.recovery
            },
            press: |input: u64, recipient: u64, generation: u64| {
                assert_eq!((input, recipient, generation), (3, 9, 2));
                steps.borrow_mut().push("press");
                work.press
            },
            activate: || {
                steps.borrow_mut().push("activate");
                PointerActivationCommit { automatic: true, stamp: 8, synchronous: false }
            },
            map_button: |evdev: u32| {
                assert_eq!(evdev, 272);
                steps.borrow_mut().push("map");
                0x0100u16
            },
            held: |_event: XAuthorityPointerEvent| {
                steps.borrow_mut().push("held");
                "press emission"
            },
        },
        storage,
        may_have_applied,
        facts,
    )
}

fn pointer_work(press: Result<(HoldIncarnation, bool), &'static str>) -> PointerWork {
    PointerWork { recovery: Ok(true), press, recipient_matches: true, steps: RefCell::new(Vec::new()) }
}

fn pointer_facts() -> PrivatePointerPressFacts {
    PrivatePointerPressFacts {
        identity_matches: true,
        source_matches: true,
        seat_matches: true,
        evdev: Some(272),
        button: Some((1, 3)),
        mapper_present: true,
        query_present: true,
        modifiers: 0x0004,
        origin: 7,
        grant: 44,
        route_lease: None,
        surface: 12,
        root_x: 100,
        root_y: 200,
        time_msec: 1 << 40,
    }
}

#[test]
fn a_first_pointer_press_holds_with_its_button_event() {
    let work = pointer_work(Ok((PRESSED, true)));
    let mut storage: Option<PrivatePointerHold<&'static str>> = None;
    let mut may_have_applied = false;
    let (incarnation, event) = run_pointer_press(&work, &mut storage, &mut may_have_applied, pointer_facts()).unwrap();
    assert_eq!(incarnation, PRESSED);
    assert_eq!(
        event,
        Some(XAuthorityPointerEvent {
            kind: XAuthorityPointerEventKind::Button { button: 1, pressed: true },
            surface: 12,
            root_x: 100,
            root_y: 200,
            event_x: 5,
            event_y: 6,
            state: 0x0104,
            time_msec: u32::MAX,
        })
    );
    assert!(may_have_applied);
    assert_eq!(*work.steps.borrow(), vec!["prepare", "resolve", "bind", "press", "activate", "map", "held"]);
    let mut hold = storage.unwrap();
    assert_eq!(hold.status(), PrivateNativeStatus::Held);
    assert_eq!(hold.client(), 9);
    assert_eq!(hold.incarnation(), Some(PRESSED));
    assert_eq!(hold.take_press_emission(), Some("press emission"));
}

#[test]
fn a_pointer_press_joining_another_aggregate_is_retained_without_an_event() {
    let work = pointer_work(Ok((PRESSED, false)));
    let mut storage: Option<PrivatePointerHold<&'static str>> = None;
    let mut may_have_applied = false;
    let (_, event) = run_pointer_press(&work, &mut storage, &mut may_have_applied, pointer_facts()).unwrap();
    assert_eq!(event, None);
    assert_eq!(
        storage.unwrap().status(),
        PrivateNativeStatus::Retained(PrivateNativeResidual::IncarnationMismatch)
    );
}

#[test]
fn pointer_press_refusals_leave_nothing_installed() {
    let mut storage: Option<PrivatePointerHold<&'static str>> = None;
    let mut may_have_applied = false;
    let work = pointer_work(Ok((PRESSED, true)));
    let not_a_press = PrivatePointerPressFacts { evdev: None, ..pointer_facts() };
    assert_eq!(
        run_pointer_press(&work, &mut storage, &mut may_have_applied, not_a_press),
        Err(PrivateStepRefusal::Native(PrivateNativeRefusal::InvalidButton))
    );
    assert!(work.steps.borrow().is_empty());
    let foreign = PointerWork { recipient_matches: false, ..pointer_work(Ok((PRESSED, true))) };
    assert_eq!(
        run_pointer_press(&foreign, &mut storage, &mut may_have_applied, pointer_facts()),
        Err(PrivateStepRefusal::Native(PrivateNativeRefusal::ForeignOrigin))
    );
    let ended = PointerWork { recovery: Ok(false), ..pointer_work(Ok((PRESSED, true))) };
    assert_eq!(
        run_pointer_press(&ended, &mut storage, &mut may_have_applied, pointer_facts()),
        Err(PrivateStepRefusal::DeliveryEnded)
    );
    let unasked = PointerWork { recovery: Err(()), ..pointer_work(Ok((PRESSED, true))) };
    assert_eq!(
        run_pointer_press(&unasked, &mut storage, &mut may_have_applied, pointer_facts()),
        Err(PrivateStepRefusal::RecoveryUnavailable)
    );
    assert!(storage.is_none());
    assert!(!may_have_applied);
}

#[test]
fn a_refused_pointer_press_stays_installed_and_marked() {
    let work = pointer_work(Err("refused"));
    let mut storage: Option<PrivatePointerHold<&'static str>> = None;
    let mut may_have_applied = false;
    assert_eq!(
        run_pointer_press(&work, &mut storage, &mut may_have_applied, pointer_facts()),
        Err(PrivateStepRefusal::Authority("refused"))
    );
    assert!(may_have_applied);
    let hold = storage.unwrap();
    assert_eq!(hold.status(), PrivateNativeStatus::PressEntered);
    assert_eq!(hold.incarnation(), None);
}

#[test]
fn an_occupied_pointer_slot_refuses_the_press() {
    let mut storage: Option<PrivatePointerHold<&'static str>> = None;
    let mut may_have_applied = false;
    run_pointer_press(&pointer_work(Ok((PRESSED, true))), &mut storage, &mut may_have_applied, pointer_facts()).unwrap();
    let work = pointer_work(Ok((PRESSED, true)));
    assert_eq!(
        run_pointer_press(&work, &mut storage, &mut may_have_applied, pointer_facts()),
        Err(PrivateStepRefusal::Native(PrivateNativeRefusal::WrongPhase))
    );
    assert!(work.steps.borrow().is_empty());
}

#[test]
fn a_pointer_event_carries_its_button_and_a_bounded_time() {
    let event = pointer_event(4, 1, 2, 3, 4, 2, false, 0x0200, 77);
    assert_eq!(event.kind, XAuthorityPointerEventKind::Button { button: 2, pressed: false });
    assert_eq!((event.surface, event.root_x, event.root_y, event.event_x, event.event_y), (4, 1, 2, 3, 4));
    assert_eq!((event.state, event.time_msec), (0x0200, 77));
    assert_eq!(pointer_event(4, 1, 2, 3, 4, 2, true, 0, u64::MAX).time_msec, u32::MAX);
}

#[test]
fn key_modifiers_replace_the_low_byte_of_the_pointer_mask() {
    assert_eq!(observed_pointer_mask(0x1234, 0x05), 0x1205);
    assert_eq!(observed_pointer_mask(0x00ff, 0x00), 0x0000);
}

struct KeyWork {
    grab_owner: Option<u64>,
    recovery: Result<bool, ()>,
    press: Result<(HoldIncarnation, bool), &'static str>,
    mapped: Option<(u8, u16)>,
    emission: Result<&'static str, &'static str>,
    steps: RefCell<Vec<&'static str>>,
}

fn run_key_press(
    work: &KeyWork,
    storage: &mut Option<PrivateKeyHold<&'static str>>,
    may_have_applied: &mut bool,
    facts: PrivateKeyPressFacts,
) -> Result<(HoldIncarnation, Option<XAuthorityKeyEvent>), PrivateStepRefusal<&'static str>> {
    let steps = &work.steps;
    press_key(
        PrivateKeyPressSteps {
            prepare: |key: u8| {
                assert_eq!(key, 38);
                steps.borrow_mut().push("prepare");
                Ok(PrivatePreparedKeyPress {
                    focus: 9,
                    recipient: 9,
                    generation: 2,
                    position_known: true,
                    mapper_present: true,
                    revision: Some(1),
                    buttons: 0x0100,
                })
            },
            keyboard: |_key: u8| {
                steps.borrow_mut().push("keyboard");
                Ok(work.grab_owner)
            },
            resolve: || {
                steps.borrow_mut().push("resolve");
                Ok(())
            },
            bind: |_recipient: u64| {
                steps.borrow_mut().push("bind");
                work.recovery
            },
            input: |key: u8| Some(u64::from(key)),
            press: |input: u64, recipient: u64, generation: u64| {
                assert_eq!((input, recipient, generation), (38, 9, 2));
                steps.borrow_mut().push("press");
                work.press
            },
            activate: || None::<KeyboardActivation>,
            map_key: |evdev: u32| {
                assert_eq!(evdev, 30);
                work.mapped
            },
            held: |_event: XAuthorityKeyEvent| {
                steps.borrow_mut().push("held");
                work.emission
            },
        },
        storage,
        may_have_applied,
        facts,
    )
}

fn key_work(press: Result<(HoldIncarnation, bool), &'static str>) -> KeyWork {
    KeyWork { grab_owner: None, recovery: Ok(true), press, mapped: Some((38, 0x0001)), emission: Ok("key emission"), steps: RefCell::new(Vec::new()) }
}

fn key_facts() -> PrivateKeyPressFacts {
    PrivateKeyPressFacts {
        identity_matches: true,
        source_matches: true,
        seat_matches: true,
        evdev: Some(30),
        x_keycode: Some(38),
        keyboards_answer: true,
        keyboard_present: true,
        physical_released: true,
        origin: 7,
        grant: 44,
        route_lease: None,
        time_msec: 90,
    }
}

#[test]
fn a_first_key_press_holds_with_its_pressed_event() {
    let work = key_work(Ok((PRESSED, true)));
    let mut storage: Option<PrivateKeyHold<&'static str>> = None;
    let mut may_have_applied = false;
    let (incarnation, event) = run_key_press(&work, &mut storage, &mut may_have_applied, key_facts()).unwrap();
    assert_eq!(incarnation, PRESSED);
    assert_eq!(event, Some(XAuthorityKeyEvent { pressed: true, keycode: 38, time_msec: 90, state: 0x0101 }));
    assert!(may_have_applied);
    assert_eq!(*work.steps.borrow(), vec!["prepare", "keyboard", "resolve", "bind", "press", "held"]);
    let mut hold = storage.unwrap();
    assert_eq!(hold.status(), PrivateNativeStatus::Held);
    assert_eq!(hold.take_press_emission(), Some("key emission"));
}

#[test]
fn a_refused_key_press_is_rolled_back() {
    let work = key_work(Err("refused"));
    let mut storage: Option<PrivateKeyHold<&'static str>> = None;
    let mut may_have_applied = false;
    assert_eq!(
        run_key_press(&work, &mut storage, &mut may_have_applied, key_facts()),
        Err(PrivateStepRefusal::Authority("refused"))
    );
    assert!(storage.is_none());
    assert!(!may_have_applied);
}

#[test]
fn key_press_refusals_before_install_leave_nothing() {
    let mut storage: Option<PrivateKeyHold<&'static str>> = None;
    let mut may_have_applied = false;
    let ended = KeyWork { recovery: Ok(false), ..key_work(Ok((PRESSED, true))) };
    assert_eq!(
        run_key_press(&ended, &mut storage, &mut may_have_applied, key_facts()),
        Err(PrivateStepRefusal::DeliveryEnded)
    );
    let unasked = KeyWork { recovery: Err(()), ..key_work(Ok((PRESSED, true))) };
    assert_eq!(
        run_key_press(&unasked, &mut storage, &mut may_have_applied, key_facts()),
        Err(PrivateStepRefusal::RecoveryUnavailable)
    );
    let grabbed = KeyWork { grab_owner: Some(4), ..key_work(Ok((PRESSED, true))) };
    assert_eq!(
        run_key_press(&grabbed, &mut storage, &mut may_have_applied, key_facts()),
        Err(PrivateStepRefusal::Native(PrivateNativeRefusal::WrongRecipient))
    );
    let held = PrivateKeyPressFacts { physical_released: false, ..key_facts() };
    assert_eq!(
        run_key_press(&key_work(Ok((PRESSED, true))), &mut storage, &mut may_have_applied, held),
        Err(PrivateStepRefusal::Native(PrivateNativeRefusal::KeyboardUnavailable))
    );
    assert!(storage.is_none());
    assert!(!may_have_applied);
}

#[test]
fn a_key_press_joining_another_aggregate_is_retained() {
    let mut storage: Option<PrivateKeyHold<&'static str>> = None;
    let mut may_have_applied = false;
    let (_, event) =
        run_key_press(&key_work(Ok((PRESSED, false))), &mut storage, &mut may_have_applied, key_facts()).unwrap();
    assert_eq!(event, None);
    assert_eq!(
        storage.unwrap().status(),
        PrivateNativeStatus::Retained(PrivateNativeResidual::IncarnationMismatch)
    );
}

#[test]
fn a_prepared_key_press_is_checked_in_order() {
    let ready = PrivatePreparedKeyPress {
        focus: 9,
        recipient: 9,
        generation: 2,
        position_known: true,
        mapper_present: true,
        revision: Some(1),
        buttons: 0,
    };
    assert_eq!(key_commit_refusal(&ready), None);
    assert_eq!(
        key_commit_refusal(&PrivatePreparedKeyPress { position_known: false, mapper_present: false, ..ready }),
        Some(PrivateNativeRefusal::MissingQueryScope)
    );
    assert_eq!(
        key_commit_refusal(&PrivatePreparedKeyPress { mapper_present: false, revision: None, ..ready }),
        Some(PrivateNativeRefusal::MissingMapper)
    );
    assert_eq!(
        key_commit_refusal(&PrivatePreparedKeyPress { revision: Some(u64::MAX), ..ready }),
        Some(PrivateNativeRefusal::SelectionUnavailable)
    );
}
