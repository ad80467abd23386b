use sophia_x_authority::key_emission::PrivateAppliedRefusal;
use sophia_x_authority::key_routing::{
    depth, key_pointer_path, local_position, normal_key_target, observed_at_root, observed_within,
    resolve_key_route, selected_key_at, PrivateKeyFocus, PrivateKeyGrab, PrivateKeyPointerRefusal,
    PrivateKeySelections, PrivateTraversalBudget, PrivateWindowProjection, XPointerObservation,
};

const CLIENT: u64 = 5;
const ROOT: u64 = 1;

fn selections(xi: &[u64], core: &[u64], dnp: &[u64]) -> PrivateKeySelections {
    PrivateKeySelections { xi: xi.to_vec(), core: core.to_vec(), do_not_propagate: dnp.to_vec() }
}

fn focus(window: u64) -> Option<PrivateKeyFocus> {
    Some(PrivateKeyFocus { client: CLIENT, window })
}

#[test]
fn xi_is_tried_before_core() {
    let sel = selections(&[7], &[7, 8], &[]);
    assert_eq!(selected_key_at(&sel, 7), Some(false));
    assert_eq!(selected_key_at(&sel, 8), Some(true));
    assert_eq!(selected_key_at(&sel, 9), None);
}

#[test]
fn depth_is_the_first_occurrence() {
    assert_eq!(depth(&vec![4, 5, 6], 5), Some(1));
    assert_eq!(depth(&vec![4, 5, 6], 9), None);
}

#[test]
fn delivery_starts_under_the_pointer_and_stops_at_focus() {
    let sel = selections(&[], &[20], &[]);
    let mut budget = PrivateTraversalBudget::new(10);
    let r = normal_key_target(CLIENT, focus(30), &sel, &vec![10, 20, 30, 40], &Ok(vec![30, 40]), true, &mut budget);
    assert_eq!(r, Ok((20, true, vec![10, 20, 30])));
    assert_eq!(budget.remaining(), 8);
}

#[test]
fn the_window_under_the_pointer_wins_in_xi_form() {
    let sel = selections(&[10], &[20], &[]);
    let mut budget = PrivateTraversalBudget::new(10);
    let r = normal_key_target(CLIENT, focus(30), &sel, &vec![10, 20, 30], &Ok(vec![30]), true, &mut budget);
    assert_eq!(r, Ok((10, false, vec![10, 20, 30])));
    assert_eq!(budget.remaining(), 9);
}

#[test]
fn focus_must_be_applied_and_ours() {
    let sel = selections(&[], &[30], &[]);
    let mut budget = PrivateTraversalBudget::new(10);
    assert_eq!(
        normal_key_target(CLIENT, None, &sel, &vec![30], &Ok(vec![30]), true, &mut budget),
        Err(PrivateAppliedRefusal::FocusNotApplied)
    );
    let foreign = Some(PrivateKeyFocus { client: CLIENT + 1, window: 30 });
    assert_eq!(
        normal_key_target(CLIENT, foreign, &sel, &vec![30], &Ok(vec![30]), true, &mut budget),
        Err(PrivateAppliedRefusal::ForeignOrigin)
    );
    assert_eq!(budget.remaining(), 10);
}

#[test]
fn do_not_propagate_stops_the_walk_and_focus_is_retried() {
    let sel = selections(&[], &[20, 30], &[10]);
    let mut budget = PrivateTraversalBudget::new(10);
    let r = normal_key_target(CLIENT, focus(30), &sel, &vec![10, 20, 30], &Ok(vec![30]), true, &mut budget);
    assert_eq!(r, Ok((30, true, vec![10, 20, 30])));
    assert_eq!(budget.remaining(), 8);
    let mut budget = PrivateTraversalBudget::new(10);
    let r = normal_key_target(CLIENT, focus(30), &sel, &vec![10, 20, 30], &Ok(vec![30]), false, &mut budget);
    assert_eq!(r, Err(PrivateAppliedRefusal::NotSelected));
    assert_eq!(budget.remaining(), 9);
}

#[test]
fn focus_on_a_disjoint_branch_is_tried_alone() {
    let sel = selections(&[], &[30], &[]);
    let mut budget = PrivateTraversalBudget::new(10);
    let r = normal_key_target(CLIENT, focus(30), &sel, &vec![10, 20], &Ok(vec![30, 99]), true, &mut budget);
    assert_eq!(r, Ok((30, true, vec![30])));
    let r = normal_key_target(
        CLIENT,
        focus(30),
        &sel,
        &vec![10, 20],
        &Err(PrivateAppliedRefusal::HierarchyMissing),
        true,
        &mut budget,
    );
    assert_eq!(r, Err(PrivateAppliedRefusal::HierarchyMissing));
}

#[test]
fn a_walk_that_spends_its_budget_is_refused() {
    let sel = selections(&[], &[30], &[]);
    let mut budget = PrivateTraversalBudget::new(1);
    let r = normal_key_target(CLIENT, focus(30), &sel, &vec![10, 20, 30], &Ok(vec![30]), true, &mut budget);
    assert_eq!(r, Err(PrivateAppliedRefusal::TraversalExhausted));
    assert_eq!(budget.remaining(), 0);
}

#[test]
fn a_grab_reports_at_its_own_window() {
    let sel = selections(&[], &[20], &[]);
    let grab = PrivateKeyGrab { window: 20, owner_events: false, event_mask: 1, xi_selected: false };
    let mut budget = PrivateTraversalBudget::new(10);
    let r = resolve_key_route(
        CLIENT,
        focus(30),
        &sel,
        &vec![10, 20, 30],
        &Ok(vec![30]),
        Some(grab),
        &Ok(vec![20, 1]),
        &mut budget,
    );
    // The grab window is on the pointer's path, so the whole path describes it.
    assert_eq!(r, Ok((20, true, vec![10, 20, 30])));
    assert_eq!(budget.remaining(), 10);
    let elsewhere = PrivateKeyGrab { window: 77, owner_events: false, event_mask: 0, xi_selected: true };
    let r = resolve_key_route(
        CLIENT,
        focus(30),
        &sel,
        &vec![10, 20, 30],
        &Ok(vec![30]),
        Some(elsewhere),
        &Ok(vec![77, 1]),
        &mut budget,
    );
    assert_eq!(r, Ok((77, false, vec![77, 1])));
}

#[test]
fn a_grab_that_selected_nothing_refuses() {
    let sel = selections(&[], &[], &[]);
    let grab = PrivateKeyGrab { window: 20, owner_events: false, event_mask: 2, xi_selected: false };
    let mut budget = PrivateTraversalBudget::new(10);
    let r = resolve_key_route(CLIENT, focus(30), &sel, &vec![20], &Ok(vec![30]), Some(grab), &Ok(vec![20]), &mut budget);
    assert_eq!(r, Err(PrivateAppliedRefusal::NotSelected));
}

#[test]
fn owner_events_deliver_normally_first() {
    let sel = selections(&[], &[10], &[]);
    let grab = PrivateKeyGrab { window: 77, owner_events: true, event_mask: 1, xi_selected: false };
    let mut budget = PrivateTraversalBudget::new(10);
    let r = resolve_key_route(
        CLIENT,
        focus(30),
        &sel,
        &vec![10, 20, 30],
        &Ok(vec![30]),
        Some(grab),
        &Ok(vec![77]),
        &mut budget,
    );
    assert_eq!(r, Ok((10, true, vec![10, 20, 30])));
    // Nothing selected normally: the grab window, without a retry at focus.
    let quiet = selections(&[], &[], &[]);
    let mut budget = PrivateTraversalBudget::new(10);
    let r = resolve_key_route(
        CLIENT,
        focus(30),
        &quiet,
        &vec![10, 20, 30],
        &Ok(vec![30]),
        Some(grab),
        &Ok(vec![77]),
        &mut budget,
    );
    assert_eq!(r, Ok((77, true, vec![77])));
    assert_eq!(budget.remaining(), 7);
}

#[test]
fn an_ungrabbed_press_retries_focus() {
    let sel = selections(&[30], &[], &[10]);
    let mut budget = PrivateTraversalBudget::new(10);
    let r = resolve_key_route(CLIENT, focus(30), &sel, &vec![10, 30], &Ok(vec![30]), None, &Ok(vec![]), &mut budget);
    assert_eq!(r, Ok((30, false, vec![10, 30])));
}

struct Projection {
    window: u64,
    size: (i32, i32),
    origin: (i32, i32),
    revision: Option<u64>,
    target: u64,
    path: Vec<u64>,
    unmapped: Vec<u64>,
}

impl PrivateWindowProjection for Projection {
    fn geometry(&self, window: u64) -> Option<(i32, i32)> {
        (window == self.window).then_some(self.size)
    }

    fn root_origin(&self, _window: u64, budget: &mut PrivateTraversalBudget) -> Result<(i32, i32), PrivateAppliedRefusal> {
        budget.charge(1)?;
        Ok(self.origin)
    }

    fn applied_revision(&self) -> Option<u64> {
        self.revision
    }

    fn pointer_target(&self, _window: u64, _x: i16, _y: i16, budget: &mut PrivateTraversalBudget) -> Result<u64, PrivateAppliedRefusal> {
        budget.charge(1)?;
        Ok(self.target)
    }

    fn ancestry(&self, _window: u64, budget: &mut PrivateTraversalBudget) -> Result<Vec<u64>, PrivateAppliedRefusal> {
        budget.charge(1)?;
        Ok(self.path.clone())
    }

    fn mapped(&self, window: u64) -> bool {
        !self.unmapped.contains(&window)
    }
}

fn projection(window: u64) -> Projection {
    Projection {
        window,
        size: (100, 50),
        origin: (10, 20),
        revision: Some(3),
        target: 60,
        path: vec![60, window, ROOT],
        unmapped: Vec::new(),
    }
}

fn observation(window: u64, root: (i16, i16), local: (i32, i32)) -> XPointerObservation {
    XPointerObservation { surface: 9, surface_window: window, root_x: root.0, root_y: root.1, local_x: local.0, local_y: local.1 }
}

#[test]
fn observations_are_checked_against_geometry() {
    assert!(observed_at_root(observation(ROOT, (3, 4), (3, 4))));
    assert!(!observed_at_root(observation(ROOT, (3, 4), (3, 5))));
    assert!(observed_within(observation(50, (15, 25), (5, 5)), (10, 20), (100, 50)));
    assert!(!observed_within(observation(50, (15, 25), (5, 5)), (11, 20), (100, 50)));
    assert!(!observed_within(observation(50, (110, 25), (100, 5)), (10, 20), (100, 50)));
    assert_eq!(local_position(observation(50, (0, 0), (7, -8))), Ok((7, -8)));
    assert_eq!(
        local_position(observation(50, (0, 0), (40000, 0))),
        Err(PrivateAppliedRefusal::CoordinateOverflow)
    );
}

#[test]
fn the_pointer_path_is_read_from_the_projection_that_holds_its_window() {
    let mut budget = PrivateTraversalBudget::new(10);
    let focus_projection = projection(50);
    let other = projection(70);
    let r = key_pointer_path(&other, &focus_projection, observation(50, (15, 25), (5, 5)), ROOT, &mut budget);
    assert_eq!(r, Ok(vec![60, 50, ROOT]));
    assert_eq!(budget.remaining(), 7);
}

#[test]
fn a_pointer_outside_both_projections_is_under_the_root_alone() {
    let mut budget = PrivateTraversalBudget::new(10);
    let r = key_pointer_path(&projection(70), &projection(50), observation(90, (15, 25), (5, 5)), ROOT, &mut budget);
    assert_eq!(r, Ok(vec![ROOT]));
    assert_eq!(budget.remaining(), 10);
}

#[test]
fn a_disagreeing_observation_is_refused() {
    let mut budget = PrivateTraversalBudget::new(10);
    let at_root = key_pointer_path(&projection(70), &projection(50), observation(ROOT, (3, 4), (3, 9)), ROOT, &mut budget);
    assert_eq!(at_root, Err(PrivateKeyPointerRefusal::PointerNotApplied));
    let off = key_pointer_path(&projection(70), &projection(50), observation(50, (16, 25), (5, 5)), ROOT, &mut budget);
    assert_eq!(off, Err(PrivateKeyPointerRefusal::PointerNotApplied));
    let mut hidden = projection(50);
    hidden.unmapped = vec![60];
    let unmapped = key_pointer_path(&projection(70), &hidden, observation(50, (15, 25), (5, 5)), ROOT, &mut budget);
    assert_eq!(unmapped, Err(PrivateKeyPointerRefusal::PointerNotApplied));
    let mut interrupted = projection(50);
    interrupted.revision = None;
    let r = key_pointer_path(&projection(70), &interrupted, observation(50, (15, 25), (5, 5)), ROOT, &mut budget);
    assert_eq!(r, Err(PrivateKeyPointerRefusal::Applied(PrivateAppliedRefusal::Interrupted)));
}

use sophia_x_authority::key_routing::{path_fully_mapped, pointer_source, PrivatePointerSource};

#[test]
fn the_pointer_is_read_from_the_projection_that_holds_its_surface() {
    assert_eq!(pointer_source(true, Some((4, 4)), Some((5, 5))), PrivatePointerSource::Root);
    assert_eq!(pointer_source(false, Some((4, 3)), Some((5, 5))), PrivatePointerSource::Focus { width: 4, height: 3 });
    assert_eq!(pointer_source(false, None, Some((5, 6))), PrivatePointerSource::Selected { width: 5, height: 6 });
    assert_eq!(pointer_source(false, None, None), PrivatePointerSource::Unprojected);
}

#[test]
fn a_path_is_usable_only_with_every_window_but_the_root_mapped() {
    assert!(path_fully_mapped(&vec![7, 8, 1], &vec![true, true, false], 1));
    assert!(!path_fully_mapped(&vec![7, 8, 1], &vec![true, false, true], 1));
    assert!(path_fully_mapped(&vec![], &vec![], 1));
}
