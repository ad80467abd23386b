// Where a key press is reported.
//
// Normal delivery starts at the window under the pointer, stops at focus, and
// tries XI2 before core on each window; a core do-not-propagate stops both
// streams. Ungrabbed delivery then tries focus directly, and a grab that
// reports to its owner's windows falls back to the grab window.
use vstd::prelude::*;
use crate::key_emission::PrivateAppliedRefusal;

verus! {

/// How much window traversal one resolution may spend.
pub struct PrivateTraversalBudget {
    remaining: u64,
}

impl View for PrivateTraversalBudget {
    type V = u64;

    closed spec fn view(&self) -> u64 {
        self.remaining
    }
}

impl PrivateTraversalBudget {
    /// A budget of `limit` window visits.
    pub fn new(limit: u64) -> (r: Self)
        ensures
            r@ == limit,
    {
        PrivateTraversalBudget { remaining: limit }
    }

    /// What is left to spend.
    pub fn remaining(&self) -> (r: u64)
        ensures
            r == self@,
    {
        self.remaining
    }

    /// Spend `n` visits, or refuse and spend nothing when fewer are left.
    pub fn charge(&mut self, n: u64) -> (r: Result<(), PrivateAppliedRefusal>)
        ensures
            old(self)@ >= n ==> r is Ok && final(self)@ == old(self)@ - n,
            old(self)@ < n ==> r == Err::<(), PrivateAppliedRefusal>(
                PrivateAppliedRefusal::TraversalExhausted,
            ) && final(self)@ == old(self)@,
    {
        if self.remaining < n {
            return Err(PrivateAppliedRefusal::TraversalExhausted);
        }
        self.remaining = self.remaining - n;
        Ok(())
    }
}

/// What a recipient's selections say of key presses, window by window.
pub struct PrivateKeySelections {
    /// Windows where the recipient selected XI2 key presses.
    pub xi: Vec<u64>,
    /// Windows where it selected core key presses.
    pub core: Vec<u64>,
    /// Windows whose core do-not-propagate mask stops key presses.
    pub do_not_propagate: Vec<u64>,
}

/// The applied keyboard focus: whose it is and which window.
#[derive(Debug, Clone, Copy, PartialEq, Eq, Structural)]
pub struct PrivateKeyFocus {
    pub client: u64,
    pub window: u64,
}

/// An active keyboard grab, as key routing reads it.
#[derive(Debug, Clone, Copy, PartialEq, Eq, Structural)]
pub struct PrivateKeyGrab {
    pub window: u64,
    /// Whether events for the owner's own windows are reported normally.
    pub owner_events: bool,
    /// The grab's core event mask.
    pub event_mask: u32,
    /// Whether the grab selected XI2 key presses.
    pub xi_selected: bool,
}

/// Whether a recipient selected key presses on `window`: `Some(false)` for
/// XI2, which is tried first, `Some(true)` for core, `None` for neither.
pub open spec fn key_selection(sel: PrivateKeySelections, window: u64) -> Option<bool> {
    if sel.xi@.contains(window) {
        Some(false)
    } else if sel.core@.contains(window) {
        Some(true)
    } else {
        None
    }
}

/// Whether `i` is where `w` first occurs in `path`.
pub open spec fn first_at(path: Seq<u64>, w: u64, i: int) -> bool {
    &&& 0 <= i < path.len()
    &&& path[i] == w
    &&& forall|j: int| 0 <= j < i ==> path[j] != w
}

/// The path normal delivery walks: the pointer's path up to and including
/// focus, or, where focus is on a disjoint branch, focus alone.
pub open spec fn key_path(
    pointer_path: Seq<u64>,
    focus: u64,
    focus_ancestry: Result<Seq<u64>, PrivateAppliedRefusal>,
) -> Result<Seq<u64>, PrivateAppliedRefusal> {
    if exists|i: int| first_at(pointer_path, focus, i) {
        let i = choose|i: int| first_at(pointer_path, focus, i);
        Ok(pointer_path.take(i + 1))
    } else {
        match focus_ancestry {
            Ok(a) => Ok(
                if a.len() == 0 {
                    a
                } else {
                    a.take(1)
                },
            ),
            Err(e) => Err(e),
        }
    }
}

/// How a walk over a path ended.
#[derive(Debug, Clone, Copy, PartialEq, Eq, Structural)]
pub enum PrivateKeyScan {
    /// A window selected the press: which, and whether in core form.
    Found(u64, bool),
    /// The walk reached focus, a do-not-propagate window, or the end.
    Stopped,
    /// The budget ran out.
    Exhausted,
}

/// The walk from `path[i]` on, with `remaining` visits to spend: each window
/// costs one visit, the first that selected the press is the target, and the
/// walk stops after focus or a do-not-propagate window.
pub open spec fn scan_from(
    path: Seq<u64>,
    i: int,
    sel: PrivateKeySelections,
    focus: u64,
    remaining: u64,
) -> (PrivateKeyScan, u64)
    decreases path.len() - i,
{
    if i < 0 || i >= path.len() {
        (PrivateKeyScan::Stopped, remaining)
    } else if remaining == 0 {
        (PrivateKeyScan::Exhausted, remaining)
    } else {
        let w = path[i];
        match key_selection(sel, w) {
            Some(core) => (PrivateKeyScan::Found(w, core), (remaining - 1) as u64),
            None => if w == focus || sel.do_not_propagate@.contains(w) {
                (PrivateKeyScan::Stopped, (remaining - 1) as u64)
            } else {
                scan_from(path, i + 1, sel, focus, (remaining - 1) as u64)
            },
        }
    }
}

/// Where normal delivery reports a key press, and the budget it leaves.
pub open spec fn normal_target(
    client: u64,
    focus: Option<PrivateKeyFocus>,
    sel: PrivateKeySelections,
    pointer_path: Seq<u64>,
    focus_ancestry: Result<Seq<u64>, PrivateAppliedRefusal>,
    retry_focus: bool,
    remaining: u64,
) -> (Result<(u64, bool, Seq<u64>), PrivateAppliedRefusal>, u64) {
    match focus {
        None => (Err(PrivateAppliedRefusal::FocusNotApplied), remaining),
        Some(f) => if f.client != client {
            (Err(PrivateAppliedRefusal::ForeignOrigin), remaining)
        } else {
            match key_path(pointer_path, f.window, focus_ancestry) {
                Err(e) => (Err(e), remaining),
                Ok(path) => {
                    let (scan, left) = scan_from(path, 0, sel, f.window, remaining);
                    match scan {
                        PrivateKeyScan::Found(w, core) => (Ok((w, core, path)), left),
                        PrivateKeyScan::Exhausted => (
                            Err(PrivateAppliedRefusal::TraversalExhausted),
                            left,
                        ),
                        PrivateKeyScan::Stopped => if retry_focus && path.len() > 0 && path[0]
                            != f.window {
                            if left == 0 {
                                (Err(PrivateAppliedRefusal::TraversalExhausted), left)
                            } else {
                                match key_selection(sel, f.window) {
                                    Some(core) => (Ok((f.window, core, path)), (left - 1) as u64),
                                    None => (
                                        Err(PrivateAppliedRefusal::NotSelected),
                                        (left - 1) as u64,
                                    ),
                                }
                            }
                        } else {
                            (Err(PrivateAppliedRefusal::NotSelected), left)
                        },
                    }
                },
            }
        },
    }
}

/// The view of a path result, for contracts.
pub open spec fn path_view(
    r: Result<(u64, bool, Vec<u64>), PrivateAppliedRefusal>,
) -> Result<(u64, bool, Seq<u64>), PrivateAppliedRefusal> {
    match r {
        Ok((w, core, path)) => Ok((w, core, path@)),
        Err(e) => Err(e),
    }
}

/// The view of a looked-up ancestry, for contracts.
pub open spec fn ancestry_view(
    a: Result<Vec<u64>, PrivateAppliedRefusal>,
) -> Result<Seq<u64>, PrivateAppliedRefusal> {
    match a {
        Ok(v) => Ok(v@),
        Err(e) => Err(e),
    }
}

fn holds(windows: &Vec<u64>, window: u64) -> (r: bool)
    ensures
        r == windows@.contains(window),
{
    let mut i: usize = 0;
    while i < windows.len()
        invariant
            i <= windows.len(),
            forall|j: int| 0 <= j < i ==> windows@[j] != window,
        decreases windows.len() - i,
    {
        if windows[i] == window {
            return true;
        }
        i = i + 1;
    }
    false
}

/// Whether a recipient selected key presses on `window`, XI2 before core.
pub fn selected_key_at(sel: &PrivateKeySelections, window: u64) -> (r: Option<bool>)
    ensures
        r == key_selection(*sel, window),
{
    if holds(&sel.xi, window) {
        Some(false)
    } else if holds(&sel.core, window) {
        Some(true)
    } else {
        None
    }
}

/// Where `w` first occurs in `path`, if it does.
pub fn depth(path: &Vec<u64>, w: u64) -> (r: Option<usize>)
    ensures
        r matches Some(i) ==> first_at(path@, w, i as int),
        r is None ==> !exists|i: int| first_at(path@, w, i),
{
    let mut i: usize = 0;
    while i < path.len()
        invariant
            i <= path.len(),
            forall|j: int| 0 <= j < i ==> path@[j] != w,
        decreases path.len() - i,
    {
        if path[i] == w {
            return Some(i);
        }
        i = i + 1;
    }
    None
}

proof fn lemma_first_at_exists(path: Seq<u64>, w: u64, i: int)
    requires
        0 <= i < path.len(),
        path[i] == w,
    ensures
        exists|k: int| first_at(path, w, k),
    decreases i,
{
    if exists|j: int| 0 <= j < i && path[j] == w {
        let j = choose|j: int| 0 <= j < i && path[j] == w;
        lemma_first_at_exists(path, w, j);
    } else {
        assert(first_at(path, w, i));
    }
}

proof fn lemma_first_at_unique(path: Seq<u64>, w: u64, i: int)
    requires
        first_at(path, w, i),
    ensures
        (choose|k: int| first_at(path, w, k)) == i,
{
    let k = choose|k: int| first_at(path, w, k);
    assert(first_at(path, w, k));
    if k < i {
        assert(path[k] != w);
    } else if k > i {
        assert(path[i] != w);
    }
}

/// The path normal delivery walks, built from the pointer's path or from
/// focus's own ancestry.
fn key_path_of(
    pointer_path: &Vec<u64>,
    focus: u64,
    focus_ancestry: &Result<Vec<u64>, PrivateAppliedRefusal>,
) -> (r: Result<Vec<u64>, PrivateAppliedRefusal>)
    ensures
        ancestry_view(r) == key_path(pointer_path@, focus, ancestry_view(*focus_ancestry)),
{
    match depth(pointer_path, focus) {
        Some(d) => {
            proof {
                lemma_first_at_unique(pointer_path@, focus, d as int);
            }
            let mut path: Vec<u64> = Vec::new();
            let mut i: usize = 0;
            while i <= d
                invariant
                    d < pointer_path.len(),
                    i <= d + 1,
                    path@ == pointer_path@.take(i as int),
                decreases d + 1 - i,
            {
                path.push(pointer_path[i]);
                proof {
                    assert(pointer_path@.take(i + 1) =~= pointer_path@.take(i as int).push(
                        pointer_path@[i as int],
                    ));
                }
                i = i + 1;
            }
            Ok(path)
        },
        None => match focus_ancestry {
            Ok(a) => {
                let mut path: Vec<u64> = Vec::new();
                if a.len() > 0 {
                    path.push(a[0]);
                    proof {
                        assert(path@ =~= a@.take(1));
                    }
                } else {
                    proof {
                        assert(path@ =~= a@);
                    }
                }
                Ok(path)
            },
            Err(e) => Err(*e),
        },
    }
}

/// Where normal delivery reports a key press.
///
/// The walk starts at the window under the pointer and stops at focus; a
/// focus on a disjoint branch is tried alone. Each window visited costs one
/// unit of budget. With `retry_focus`, an unselected walk that did not begin
/// at focus tries focus directly.
pub fn normal_key_target(
    client: u64,
    focus: Option<PrivateKeyFocus>,
    sel: &PrivateKeySelections,
    pointer_path: &Vec<u64>,
    focus_ancestry: &Result<Vec<u64>, PrivateAppliedRefusal>,
    retry_focus: bool,
    budget: &mut PrivateTraversalBudget,
) -> (r: Result<(u64, bool, Vec<u64>), PrivateAppliedRefusal>)
    ensures
        (path_view(r), final(budget)@) == normal_target(
            client,
            focus,
            *sel,
            pointer_path@,
            ancestry_view(*focus_ancestry),
            retry_focus,
            old(budget)@,
        ),
{
    let f = match focus {
        None => {
            return Err(PrivateAppliedRefusal::FocusNotApplied);
        },
        Some(f) => f,
    };
    if f.client != client {
        return Err(PrivateAppliedRefusal::ForeignOrigin);
    }
    let path = match key_path_of(pointer_path, f.window, focus_ancestry) {
        Err(e) => {
            return Err(e);
        },
        Ok(path) => path,
    };
    let ghost start = budget@;
    let mut i: usize = 0;
    let mut stopped = false;
    while i < path.len() && !stopped
        invariant
            i <= path.len(),
            focus == Some(f),
            f.client == client,
            key_path(pointer_path@, f.window, ancestry_view(*focus_ancestry)) == Ok::<
                Seq<u64>,
                PrivateAppliedRefusal,
            >(path@),
            start == old(budget)@,
            !stopped ==> scan_from(path@, i as int, *sel, f.window, budget@) == scan_from(
                path@,
                0,
                *sel,
                f.window,
                start,
            ),
            stopped ==> scan_from(path@, 0, *sel, f.window, start) == (
                PrivateKeyScan::Stopped,
                budget@,
            ),
        decreases path.len() - i + if stopped {
            0int
        } else {
            1int
        },
    {
        let ghost before = budget@;
        match budget.charge(1) {
            Err(e) => {
                proof {
                    assert(scan_from(path@, i as int, *sel, f.window, before) == (
                        PrivateKeyScan::Exhausted,
                        before,
                    ));
                }
                return Err(e);
            },
            Ok(()) => {},
        }
        let window = path[i];
        match selected_key_at(sel, window) {
            Some(core) => {
                proof {
                    assert(scan_from(path@, i as int, *sel, f.window, before) == (
                        PrivateKeyScan::Found(window, core),
                        budget@,
                    ));
                }
                return Ok((window, core, path));
            },
            None => {},
        }
        if window == f.window || holds(&sel.do_not_propagate, window) {
            stopped = true;
        } else {
            i = i + 1;
        }
    }
    if retry_focus && path.len() > 0 && path[0] != f.window {
        match budget.charge(1) {
            Err(e) => {
                return Err(e);
            },
            Ok(()) => {},
        }
        match selected_key_at(sel, f.window) {
            Some(core) => {
                return Ok((f.window, core, path));
            },
            None => {},
        }
    }
    Err(PrivateAppliedRefusal::NotSelected)
}

/// Refusals of normal delivery under a grab that send the press to the grab
/// window instead.
pub open spec fn falls_back_to_grab(e: PrivateAppliedRefusal) -> bool {
    ||| e == PrivateAppliedRefusal::NotSelected
    ||| e == PrivateAppliedRefusal::ForeignOrigin
    ||| e == PrivateAppliedRefusal::FocusNotApplied
}

/// Where a key press is reported, with or without an active grab, and the
/// budget it leaves.
///
/// Ungrabbed, normal delivery with a retry at focus. Grabbed, normal delivery
/// without that retry when the grab reports its owner's windows normally;
/// otherwise, or when normal delivery found nothing, the grab window, in core
/// form unless the grab selected XI2, and only if the grab selected the press
/// at all.
pub open spec fn key_route(
    client: u64,
    focus: Option<PrivateKeyFocus>,
    sel: PrivateKeySelections,
    pointer_path: Seq<u64>,
    focus_ancestry: Result<Seq<u64>, PrivateAppliedRefusal>,
    grab: Option<PrivateKeyGrab>,
    grab_ancestry: Result<Seq<u64>, PrivateAppliedRefusal>,
    remaining: u64,
) -> (Result<(u64, bool, Seq<u64>), PrivateAppliedRefusal>, u64) {
    match grab {
        None => normal_target(client, focus, sel, pointer_path, focus_ancestry, true, remaining),
        Some(g) => {
            let (normal, left) = if g.owner_events {
                normal_target(client, focus, sel, pointer_path, focus_ancestry, false, remaining)
            } else {
                (Err(PrivateAppliedRefusal::NotSelected), remaining)
            };
            match normal {
                Ok(p) => (Ok(p), left),
                Err(e) => if !falls_back_to_grab(e) {
                    (Err(e), left)
                } else if (g.event_mask & 1) == 0 && !g.xi_selected {
                    (Err(PrivateAppliedRefusal::NotSelected), left)
                } else if exists|i: int| first_at(pointer_path, g.window, i) {
                    (Ok((g.window, !g.xi_selected, pointer_path)), left)
                } else {
                    match grab_ancestry {
                        Ok(a) => (Ok((g.window, !g.xi_selected, a)), left),
                        Err(e) => (Err(e), left),
                    }
                },
            }
        },
    }
}

/// Under an active grab, a press the grab takes goes to the grab window,
/// in core form exactly when the grab did not select XI2 key presses,
/// whatever its core mask says; a grab that selected the press in neither
/// form takes nothing; and a grab that does not report its owner's windows
/// normally never sends the press anywhere but its own window. Without a
/// grab, or for an owner-events grab whose owner's windows took the press,
/// the press goes only to a window on the walked path or at focus.
pub proof fn law_grab_takes_the_press_in_its_own_form(
    client: u64,
    focus: Option<PrivateKeyFocus>,
    sel: PrivateKeySelections,
    pointer_path: Seq<u64>,
    focus_ancestry: Result<Seq<u64>, PrivateAppliedRefusal>,
    g: PrivateKeyGrab,
    grab_ancestry: Result<Seq<u64>, PrivateAppliedRefusal>,
    remaining: u64,
)
    ensures
        ({
            let (r, left) = key_route(
                client,
                focus,
                sel,
                pointer_path,
                focus_ancestry,
                Some(g),
                grab_ancestry,
                remaining,
            );
            &&& left <= remaining
            &&& !g.owner_events && r is Ok ==> (r->Ok_0).0 == g.window && (r->Ok_0).1 == !g.xi_selected
            &&& !g.owner_events && (g.event_mask & 1) == 0 && !g.xi_selected ==> r == Err::<
                (u64, bool, Seq<u64>),
                PrivateAppliedRefusal,
            >(PrivateAppliedRefusal::NotSelected)
            &&& !g.owner_events && ((g.event_mask & 1) != 0 || g.xi_selected) && pointer_path.contains(g.window)
                ==> r == Ok::<(u64, bool, Seq<u64>), PrivateAppliedRefusal>((g.window, !g.xi_selected, pointer_path))
            &&& r is Ok && (r->Ok_0).0 == g.window && !(key_selection(sel, g.window) is Some) ==> (r->Ok_0).1
                == !g.xi_selected
        }),
{
    let (r, left) = key_route(client, focus, sel, pointer_path, focus_ancestry, Some(g), grab_ancestry, remaining);
    law_key_target_selected_on_its_path(client, focus, sel, pointer_path, focus_ancestry, false, remaining);
    if pointer_path.contains(g.window) {
        let i = choose|i: int| 0 <= i < pointer_path.len() && pointer_path[i] == g.window;
        lemma_first_at_exists(pointer_path, g.window, i);
    }
}

fn copy_path(path: &Vec<u64>) -> (r: Vec<u64>)
    ensures
        r@ == path@,
{
    let mut r: Vec<u64> = Vec::new();
    let mut i: usize = 0;
    while i < path.len()
        invariant
            i <= path.len(),
            r@ == path@.take(i as int),
        decreases path.len() - i,
    {
        r.push(path[i]);
        proof {
            assert(path@.take(i + 1) =~= path@.take(i as int).push(path@[i as int]));
        }
        i = i + 1;
    }
    proof {
        assert(path@.take(path@.len() as int) =~= path@);
    }
    r
}

/// Where a key press is reported: the window, whether in core form, and the
/// ancestry the event is described over.
pub fn resolve_key_route(
    client: u64,
    focus: Option<PrivateKeyFocus>,
    sel: &PrivateKeySelections,
    pointer_path: &Vec<u64>,
    focus_ancestry: &Result<Vec<u64>, PrivateAppliedRefusal>,
    grab: Option<PrivateKeyGrab>,
    grab_ancestry: &Result<Vec<u64>, PrivateAppliedRefusal>,
    budget: &mut PrivateTraversalBudget,
) -> (r: Result<(u64, bool, Vec<u64>), PrivateAppliedRefusal>)
    ensures
        (path_view(r), final(budget)@) == key_route(
            client,
            focus,
            *sel,
            pointer_path@,
            ancestry_view(*focus_ancestry),
            grab,
            ancestry_view(*grab_ancestry),
            old(budget)@,
        ),
        // A grab that does not report its owner's windows normally takes the
        // press itself, in core form exactly when it did not select XI2.
        (grab is Some && !grab->0.owner_events && r is Ok) ==> (r->Ok_0).0 == grab->0.window && (r->Ok_0).1
            == !grab->0.xi_selected,
{
    let g = match grab {
        None => {
            return normal_key_target(client, focus, sel, pointer_path, focus_ancestry, true, budget);
        },
        Some(g) => g,
    };
    if g.owner_events {
        match normal_key_target(client, focus, sel, pointer_path, focus_ancestry, false, budget) {
            Ok(plan) => {
                return Ok(plan);
            },
            Err(PrivateAppliedRefusal::NotSelected)
            | Err(PrivateAppliedRefusal::ForeignOrigin)
            | Err(PrivateAppliedRefusal::FocusNotApplied) => {},
            Err(e) => {
                return Err(e);
            },
        }
    }
    if g.event_mask & 1 == 0 && !g.xi_selected {
        return Err(PrivateAppliedRefusal::NotSelected);
    }
    let path = match depth(pointer_path, g.window) {
        Some(_) => copy_path(pointer_path),
        None => match grab_ancestry {
            Ok(a) => copy_path(a),
            Err(e) => {
                return Err(*e);
            },
        },
    };
    Ok((g.window, !g.xi_selected, path))
}

/// Where the pointer was last observed: over which surface and window, at
/// which root coordinates, and at which coordinates local to that window.
#[derive(Debug, Clone, Copy, PartialEq, Eq, Structural)]
pub struct XPointerObservation {
    pub surface: u64,
    pub surface_window: u64,
    pub root_x: i16,
    pub root_y: i16,
    pub local_x: i32,
    pub local_y: i32,
}

/// Why the pointer's path could not be read for a key press.
#[derive(Debug, Clone, Copy, PartialEq, Eq, Structural)]
pub enum PrivateKeyPointerRefusal {
    /// The observation does not agree with the applied geometry.
    PointerNotApplied,
    /// The applied projection could not answer.
    Applied(PrivateAppliedRefusal),
}

/// One client's applied projection of the window tree, as the pointer's
/// path is read from it.
///
/// Implemented by the applied selection state. Nothing here is promised of
/// what it answers; what the path check decides holds for any answer.
pub trait PrivateWindowProjection {
    /// The width and height of `window`, where this projection holds it.
    fn geometry(&self, window: u64) -> Option<(i32, i32)>;

    /// The root coordinates of `window`'s origin.
    fn root_origin(&self, window: u64, budget: &mut PrivateTraversalBudget) -> Result<
        (i32, i32),
        PrivateAppliedRefusal,
    >;

    /// The revision this projection was applied at, if an application
    /// completed.
    fn applied_revision(&self) -> Option<u64>;

    /// The deepest window under a point local to `window`.
    fn pointer_target(&self, window: u64, x: i16, y: i16, budget: &mut PrivateTraversalBudget) -> Result<
        u64,
        PrivateAppliedRefusal,
    >;

    /// The ancestry of `window`, from the window up.
    fn ancestry(&self, window: u64, budget: &mut PrivateTraversalBudget) -> Result<
        Vec<u64>,
        PrivateAppliedRefusal,
    >;

    /// Whether `window` is mapped.
    fn mapped(&self, window: u64) -> bool;
}

/// Which projection a key press's pointer position is read from.
#[derive(Debug, Clone, Copy, PartialEq, Eq, Structural)]
pub enum PrivatePointerSource {
    /// The pointer is over the bare root: the focus's projection.
    Root,
    /// The focus's projection holds the surface, with this size.
    Focus { width: i32, height: i32 },
    /// Only the recipient's projection holds the surface, with this size.
    Selected { width: i32, height: i32 },
    /// Neither projection holds the surface: the press is delivered at focus,
    /// on the root alone.
    Unprojected,
}

/// Which projection the pointer is read from: the root over the root, else
/// whichever projection holds the surface, the focus's first.
pub open spec fn pointer_source_spec(
    at_root: bool,
    focus: Option<(i32, i32)>,
    selected: Option<(i32, i32)>,
) -> PrivatePointerSource {
    if at_root {
        PrivatePointerSource::Root
    } else if focus is Some {
        PrivatePointerSource::Focus { width: (focus->0).0, height: (focus->0).1 }
    } else if selected is Some {
        PrivatePointerSource::Selected { width: (selected->0).0, height: (selected->0).1 }
    } else {
        PrivatePointerSource::Unprojected
    }
}

/// Decide which projection the pointer is read from, given the surface's
/// size in each projection that holds it.
pub fn pointer_source(at_root: bool, focus: Option<(i32, i32)>, selected: Option<(i32, i32)>) -> (r:
    PrivatePointerSource)
    ensures
        r == pointer_source_spec(at_root, focus, selected),
{
    if at_root {
        return PrivatePointerSource::Root;
    }
    match focus {
        Some((width, height)) => PrivatePointerSource::Focus { width, height },
        None => match selected {
            Some((width, height)) => PrivatePointerSource::Selected { width, height },
            None => PrivatePointerSource::Unprojected,
        },
    }
}

/// Whether every window on a path other than the root is mapped, `mapped[i]`
/// being the projection's answer for `path[i]`.
pub open spec fn path_mapped(path: Seq<u64>, mapped: Seq<bool>, root: u64) -> bool {
    forall|i: int| 0 <= i < path.len() && path[i] != root ==> mapped[i]
}

/// Decide whether a path read from a projection may be used: every window
/// but the root mapped there.
pub fn path_fully_mapped(path: &Vec<u64>, mapped: &Vec<bool>, root: u64) -> (r: bool)
    requires
        mapped@.len() == path@.len(),
    ensures
        r == path_mapped(path@, mapped@, root),
{
    let mut i: usize = 0;
    while i < path.len()
        invariant
            i <= path@.len(),
            mapped@.len() == path@.len(),
            forall|j: int| 0 <= j < i && path@[j] != root ==> mapped@[j],
        decreases path@.len() - i,
    {
        if path[i] != root && !mapped[i] {
            return false;
        }
        i = i + 1;
    }
    true
}

/// Over the bare root, local coordinates are root coordinates, and neither is
/// negative.
pub open spec fn at_root_spec(p: XPointerObservation) -> bool {
    &&& p.local_x == p.root_x as i32
    &&& p.local_y == p.root_y as i32
    &&& p.local_x >= 0
    &&& p.local_y >= 0
}

/// Over a window, the window's root origin plus the local coordinates is the
/// root position, and the local position lies inside the window.
pub open spec fn within_spec(p: XPointerObservation, origin: (i32, i32), size: (i32, i32)) -> bool {
    &&& origin.0 + p.local_x == p.root_x
    &&& origin.1 + p.local_y == p.root_y
    &&& p.local_x >= 0
    &&& p.local_y >= 0
    &&& p.local_x < size.0
    &&& p.local_y < size.1
}

/// Whether an observation over the bare root agrees with it.
pub fn observed_at_root(p: XPointerObservation) -> (r: bool)
    ensures
        r == at_root_spec(p),
{
    p.local_x == p.root_x as i32 && p.local_y == p.root_y as i32 && p.local_x >= 0 && p.local_y >= 0
}

/// Whether an observation over a window agrees with the window's applied
/// origin and size.
pub fn observed_within(p: XPointerObservation, origin: (i32, i32), size: (i32, i32)) -> (r: bool)
    ensures
        r == within_spec(p, origin, size),
{
    origin.0 as i64 + p.local_x as i64 == p.root_x as i64 && origin.1 as i64 + p.local_y as i64
        == p.root_y as i64 && p.local_x >= 0 && p.local_y >= 0 && p.local_x < size.0 && p.local_y
        < size.1
}

/// The local position in wire form, if it fits.
pub fn local_position(p: XPointerObservation) -> (r: Result<(i16, i16), PrivateAppliedRefusal>)
    ensures
        (i16::MIN <= p.local_x <= i16::MAX && i16::MIN <= p.local_y <= i16::MAX) ==> r == Ok::<
            (i16, i16),
            PrivateAppliedRefusal,
        >((p.local_x as i16, p.local_y as i16)),
        !(i16::MIN <= p.local_x <= i16::MAX && i16::MIN <= p.local_y <= i16::MAX) ==> r == Err::<
            (i16, i16),
            PrivateAppliedRefusal,
        >(PrivateAppliedRefusal::CoordinateOverflow),
{
    if p.local_x < -32768 || p.local_x > 32767 || p.local_y < -32768 || p.local_y > 32767 {
        return Err(PrivateAppliedRefusal::CoordinateOverflow);
    }
    Ok((p.local_x as i16, p.local_y as i16))
}

/// What the two projections answered for `window`'s size: the focus
/// client's first, and the selected pointer's only where the focus client's
/// does not hold it.
pub open spec fn projection_sizes<P: PrivateWindowProjection>(
    focus_selected: &P,
    selected: &P,
    window: u64,
    focus_size: Option<(i32, i32)>,
    selected_size: Option<(i32, i32)>,
) -> bool {
    &&& call_ensures(P::geometry, (focus_selected, window), focus_size)
    &&& focus_size is None ==> call_ensures(P::geometry, (selected, window), selected_size)
}

/// The pointer's path, from the window under it up to the root, read from
/// whichever projection holds the window the pointer is over.
///
/// Over the bare root the focus client's projection is read. A pointer over a
/// window neither projection holds is under the root, in a branch outside the
/// recipient's view, and its path is the root alone: the press is still
/// delivered, at focus. Every window on a path read from a projection other
/// than the root must be mapped there.
pub fn key_pointer_path<P: PrivateWindowProjection>(
    selected: &P,
    focus_selected: &P,
    position: XPointerObservation,
    root: u64,
    budget: &mut PrivateTraversalBudget,
) -> (r: Result<Vec<u64>, PrivateKeyPointerRefusal>)
    ensures
        position.surface_window == root && !at_root_spec(position) ==> r == Err::<
            Vec<u64>,
            PrivateKeyPointerRefusal,
        >(PrivateKeyPointerRefusal::PointerNotApplied),
        r is Ok && position.surface_window == root ==> at_root_spec(position),
        r matches Ok(path) && position.surface_window != root && path@ != seq![root] ==> (
        position.local_x >= 0 && position.local_y >= 0 && position.local_x <= i16::MAX
            && position.local_y <= i16::MAX),
        // A window neither projection holds: the root alone.
        position.surface_window != root ==> exists|focus_size: Option<(i32, i32)>, selected_size: Option<(i32, i32)>|
            #[trigger] projection_sizes(focus_selected, selected, position.surface_window, focus_size, selected_size)
                && (focus_size is None && selected_size is None ==> (r is Ok && r->Ok_0@ == seq![root])),
        // Every window on a path it gives, other than the root, was found
        // mapped in the projection the path was read from.
        r matches Ok(path) ==> forall|j: int|
            0 <= j < path@.len() && path@[j] != root ==> #[trigger] call_ensures(
                P::mapped,
                (focus_selected, path@[j]),
                true,
            ) || call_ensures(P::mapped, (selected, path@[j]), true),
{
    let at_root = position.surface_window == root;
    if at_root && !observed_at_root(position) {
        return Err(PrivateKeyPointerRefusal::PointerNotApplied);
    }
    let geometry = P::geometry;
    let focus_size = if at_root {
        None
    } else {
        geometry(focus_selected, position.surface_window)
    };
    let selected_size = if at_root || focus_size.is_some() {
        None
    } else {
        geometry(selected, position.surface_window)
    };
    assert(!at_root ==> projection_sizes(focus_selected, selected, position.surface_window, focus_size, selected_size));
    let (source, size): (&P, Option<(i32, i32)>) = match pointer_source(at_root, focus_size, selected_size) {
        PrivatePointerSource::Root => (focus_selected, None),
        PrivatePointerSource::Focus { width, height } => (focus_selected, Some((width, height))),
        PrivatePointerSource::Selected { width, height } => (selected, Some((width, height))),
        PrivatePointerSource::Unprojected => {
            let mut only_root: Vec<u64> = Vec::new();
            only_root.push(root);
            proof {
                assert(only_root@ =~= seq![root]);
            }
            return Ok(only_root);
        },
    };
    match size {
        Some(size) => {
            let origin = match source.root_origin(position.surface_window, budget) {
                Ok(origin) => origin,
                Err(e) => {
                    return Err(PrivateKeyPointerRefusal::Applied(e));
                },
            };
            if !observed_within(position, origin, size) {
                return Err(PrivateKeyPointerRefusal::PointerNotApplied);
            }
        },
        None => {},
    }
    if source.applied_revision().is_none() {
        return Err(PrivateKeyPointerRefusal::Applied(PrivateAppliedRefusal::Interrupted));
    }
    let (x, y) = match local_position(position) {
        Ok(local) => local,
        Err(e) => {
            return Err(PrivateKeyPointerRefusal::Applied(e));
        },
    };
    let target = match source.pointer_target(position.surface_window, x, y, budget) {
        Ok(target) => target,
        Err(e) => {
            return Err(PrivateKeyPointerRefusal::Applied(e));
        },
    };
    let path = match source.ancestry(target, budget) {
        Ok(path) => path,
        Err(e) => {
            return Err(PrivateKeyPointerRefusal::Applied(e));
        },
    };
    let is_mapped = P::mapped;
    let mut mapped: Vec<bool> = Vec::new();
    let mut i: usize = 0;
    while i < path.len()
        invariant
            i <= path@.len(),
            mapped@.len() == i,
            forall|j: int| 0 <= j < i ==> #[trigger] call_ensures(P::mapped, (source, path@[j]), mapped@[j]),
        decreases path@.len() - i,
    {
        mapped.push(is_mapped(source, path[i]));
        i = i + 1;
    }
    if !path_fully_mapped(&path, &mapped, root) {
        return Err(PrivateKeyPointerRefusal::PointerNotApplied);
    }
    assert forall|j: int| 0 <= j < path@.len() && path@[j] != root implies #[trigger] call_ensures(
        P::mapped,
        (focus_selected, path@[j]),
        true,
    ) || call_ensures(P::mapped, (selected, path@[j]), true) by {
        assert(mapped@[j]);
        assert(call_ensures(P::mapped, (source, path@[j]), mapped@[j]));
    }
    Ok(path)
}

proof fn lemma_scan_finds_on_path(path: Seq<u64>, i: int, sel: PrivateKeySelections, focus: u64, remaining: u64)
    requires
        0 <= i,
    ensures
        scan_from(path, i, sel, focus, remaining).0 matches PrivateKeyScan::Found(w, core) ==> (
        path.contains(w) && key_selection(sel, w) == Some(core)),
        scan_from(path, i, sel, focus, remaining).1 <= remaining,
    decreases path.len() - i,
{
    if i < path.len() && remaining > 0 {
        if key_selection(sel, path[i]) is None && !(path[i] == focus || sel.do_not_propagate@.contains(
            path[i],
        )) {
            lemma_scan_finds_on_path(path, i + 1, sel, focus, (remaining - 1) as u64);
        }
    }
}

/// A key press is only ever reported at a window that selected it, in the
/// form it selected, and that window is on the walked path or is focus;
/// resolving never gives budget back.
pub proof fn law_key_target_selected_on_its_path(
    client: u64,
    focus: Option<PrivateKeyFocus>,
    sel: PrivateKeySelections,
    pointer_path: Seq<u64>,
    focus_ancestry: Result<Seq<u64>, PrivateAppliedRefusal>,
    retry_focus: bool,
    remaining: u64,
)
    ensures
        ({
            let (r, left) = normal_target(
                client,
                focus,
                sel,
                pointer_path,
                focus_ancestry,
                retry_focus,
                remaining,
            );
            &&& left <= remaining
            &&& r matches Ok((w, core, path)) ==> key_selection(sel, w) == Some(core) && (path.contains(
                w,
            ) || focus == Some(PrivateKeyFocus { client, window: w }))
        }),
{
    match focus {
        Some(f) => {
            match key_path(pointer_path, f.window, focus_ancestry) {
                Ok(path) => {
                    lemma_scan_finds_on_path(path, 0, sel, f.window, remaining);
                },
                Err(_) => {},
            }
        },
        None => {},
    }
}

/// `w` is focus, or the first window on `path` that selected the press:
/// every window before it neither selected the press, nor was focus, nor
/// stopped propagation.
pub open spec fn first_selecting(sel: PrivateKeySelections, focus: u64, path: Seq<u64>, w: u64) -> bool {
    ||| w == focus
    ||| exists|k: int|
        #![trigger path[k]]
        0 <= k < path.len() && path[k] == w && forall|j: int|
            0 <= j < k ==> key_selection(sel, #[trigger] path[j]) is None && path[j] != focus
                && !sel.do_not_propagate@.contains(path[j])
}

/// Every window a walk from `i` passes over before the one it finds did not
/// select the press, was not focus, and did not stop propagation.
proof fn lemma_scan_finds_the_first(path: Seq<u64>, i: int, sel: PrivateKeySelections, focus: u64, remaining: u64)
    requires
        0 <= i,
    ensures
        scan_from(path, i, sel, focus, remaining).0 is Found ==> exists|k: int|
            #![trigger path[k]]
            i <= k < path.len() && path[k] == scan_from(path, i, sel, focus, remaining).0->Found_0 && key_selection(
                sel,
                path[k],
            ) == Some(scan_from(path, i, sel, focus, remaining).0->Found_1) && forall|j: int|
                i <= j < k ==> key_selection(sel, #[trigger] path[j]) is None && path[j] != focus
                    && !sel.do_not_propagate@.contains(path[j]),
    decreases path.len() - i,
{
    if i < path.len() && remaining > 0 {
        let w = path[i];
        if key_selection(sel, w) is Some {
            assert(path[i] == w);
        } else if !(w == focus || sel.do_not_propagate@.contains(w)) {
            lemma_scan_finds_the_first(path, i + 1, sel, focus, (remaining - 1) as u64);
            if scan_from(path, i, sel, focus, remaining).0 is Found {
                let k = choose|k: int|
                    #![trigger path[k]]
                    i + 1 <= k < path.len() && path[k] == scan_from(path, i + 1, sel, focus, (remaining - 1) as u64).0->Found_0
                        && key_selection(sel, path[k]) == Some(
                        scan_from(path, i + 1, sel, focus, (remaining - 1) as u64).0->Found_1,
                    ) && forall|j: int|
                        i + 1 <= j < k ==> key_selection(sel, #[trigger] path[j]) is None && path[j] != focus
                            && !sel.do_not_propagate@.contains(path[j]);
                assert(path[k] == path[k]);
            }
        }
    }
}

/// Normal delivery without a grab reports a press only to a client whose
/// focus is applied, and there to the first window on the walked path that
/// selected the press, in the form it selected: every window before it on
/// that path neither selected the press, nor was focus, nor stopped
/// propagation. Otherwise the press goes to focus itself, by the retry at
/// focus, and only when focus selected it.
#[verifier::rlimit(40)]
pub proof fn law_press_goes_to_the_first_window_that_selected_it(
    client: u64,
    focus: Option<PrivateKeyFocus>,
    sel: PrivateKeySelections,
    pointer_path: Seq<u64>,
    focus_ancestry: Result<Seq<u64>, PrivateAppliedRefusal>,
    grab_ancestry: Result<Seq<u64>, PrivateAppliedRefusal>,
    remaining: u64,
)
    ensures
        ({
            let r = key_route(client, focus, sel, pointer_path, focus_ancestry, None, grab_ancestry, remaining).0;
            &&& focus is None ==> r == Err::<(u64, bool, Seq<u64>), PrivateAppliedRefusal>(
                PrivateAppliedRefusal::FocusNotApplied,
            )
            &&& (focus is Some && focus->0.client != client) ==> r == Err::<
                (u64, bool, Seq<u64>),
                PrivateAppliedRefusal,
            >(PrivateAppliedRefusal::ForeignOrigin)
            &&& r is Ok ==> focus is Some && focus->0.client == client
            &&& r is Ok ==> key_selection(sel, (r->Ok_0).0) == Some((r->Ok_0).1)
            &&& r is Ok ==> first_selecting(sel, focus->0.window, (r->Ok_0).2, (r->Ok_0).0)
        }),
{
    match focus {
        Some(f) => {
            match key_path(pointer_path, f.window, focus_ancestry) {
                Ok(path) => {
                    lemma_scan_finds_the_first(path, 0, sel, f.window, remaining);
                    lemma_scan_finds_on_path(path, 0, sel, f.window, remaining);
                    let (scan, left) = scan_from(path, 0, sel, f.window, remaining);
                    if f.client == client && scan is Found {
                        let (r, l) = key_route(client, focus, sel, pointer_path, focus_ancestry, None, grab_ancestry, remaining);
                        assert(r == Ok::<(u64, bool, Seq<u64>), PrivateAppliedRefusal>((scan->Found_0, scan->Found_1, path)));
                        let k = choose|k: int|
                            #![trigger path[k]]
                            0 <= k < path.len() && path[k] == scan->Found_0 && key_selection(sel, path[k]) == Some(
                                scan->Found_1,
                            ) && forall|j: int|
                                0 <= j < k ==> key_selection(sel, #[trigger] path[j]) is None && path[j] != f.window
                                    && !sel.do_not_propagate@.contains(path[j]);
                        assert(path[k] == scan->Found_0);
                        assert(first_selecting(sel, f.window, path, scan->Found_0));
                    }
                },
                Err(_) => {},
            }
        },
        None => {},
    }
}

} // verus!
