use std::cell::RefCell;

use sophia_x_authority::runner::{
    prepare_runner, PrivateKeyboardsRefusal, PrivatePreparedRunnerRecord, PrivateRunnerFrontend,
    PrivateRunnerRefusal, PrivateRunnerSetupSteps,
};

type Frontend = PrivateRunnerFrontend<&'static str, &'static str>;

struct Setup {
    keymap: bool,
    sealed: bool,
    steps: RefCell<Vec<&'static str>>,
}

fn setup() -> Setup {
    Setup { keymap: true, sealed: true, steps: RefCell::new(Vec::new()) }
}

fn fresh() -> Frontend {
    PrivateRunnerFrontend { inner: "frontend", producer_exposed: false, native_owner: None, seat: 2 }
}

fn run(
    setup: &Setup,
    frontend: Frontend,
    keeper_matches: bool,
) -> Result<PrivatePreparedRunnerRecord<Frontend, Vec<u64>>, (PrivateRunnerRefusal, Frontend)> {
    let steps = &setup.steps;
    prepare_runner(
        frontend,
        6,
        keeper_matches,
        PrivateRunnerSetupSteps {
            install_applied: |namespace: u64| {
                assert_eq!(namespace, 6);
                steps.borrow_mut().push("applied");
                true
            },
            prepare_state: |_namespace: u64, seat: u64| {
                assert_eq!(seat, 2);
                steps.borrow_mut().push("state");
                true
            },
            prepare_native: |_namespace: u64, _seat: u64| {
                steps.borrow_mut().push("native");
                Some("native owner")
            },
            keyboards: || Ok::<Vec<u64>, PrivateKeyboardsRefusal>(Vec::new()),
            prepare_keyboards: |mut keyboards: Vec<u64>, seat: u64| {
                keyboards.push(seat);
                (keyboards, setup.keymap)
            },
            seal_watch: || {
                steps.borrow_mut().push("sealed");
                setup.sealed
            },
        },
    )
}

#[test]
fn a_prepared_runner_keeps_its_namespace_and_seat() {
    let setup = setup();
    let runner = run(&setup, fresh(), true).ok().unwrap();
    assert_eq!((runner.namespace(), runner.seat()), (6, 2));
    assert!(runner.prefer_cleanup());
    assert_eq!(runner.frontend().native_owner, Some("native owner"));
    assert_eq!(*setup.steps.borrow(), vec!["applied", "state", "native", "sealed"]);
    assert_eq!(runner.keyboards(), &vec![2]);
}

#[test]
fn early_refusals_hand_the_frontend_back_untouched() {
    let setup = setup();
    let exposed = PrivateRunnerFrontend { producer_exposed: true, native_owner: Some("old"), ..fresh() };
    let (refusal, back) = run(&setup, exposed, false).err().unwrap();
    assert_eq!(refusal, PrivateRunnerRefusal::ProducerAlreadyExposed);
    assert!(back.producer_exposed && back.native_owner == Some("old"));
    let (refusal, back) = run(&setup, fresh(), false).err().unwrap();
    assert_eq!(refusal, PrivateRunnerRefusal::ForeignServiceOwner);
    assert_eq!(back.native_owner, None);
    let prepared = PrivateRunnerFrontend { native_owner: Some("old"), ..fresh() };
    let (refusal, back) = run(&setup, prepared, true).err().unwrap();
    assert_eq!(refusal, PrivateRunnerRefusal::AlreadyPrepared);
    assert_eq!(back.native_owner, Some("old"));
    assert!(setup.steps.borrow().is_empty());
}

#[test]
fn a_failed_setup_step_refuses_and_keeps_nothing() {
    let unkeyed = Setup { keymap: false, ..setup() };
    let (refusal, back) = run(&unkeyed, fresh(), true).err().unwrap();
    assert_eq!(refusal, PrivateRunnerRefusal::Keyboard(PrivateKeyboardsRefusal::KeymapUnavailable));
    assert_eq!(back.native_owner, None);
    let unsealed = Setup { sealed: false, ..setup() };
    let (refusal, back) = run(&unsealed, fresh(), true).err().unwrap();
    assert_eq!(refusal, PrivateRunnerRefusal::StateUnavailable);
    assert_eq!(back.native_owner, None);
}
