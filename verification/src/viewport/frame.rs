//! A frame of the viewport.
//!
//! The frame has two halves. The first moves the focus, starts transforms,
//! drives the Measure and Aim tools and steps the running transform. The caller
//! then moves the objects, and [`ViewportState::settle`] ends the transform where
//! the first half found that it ends. The second half handles what is left of
//! the pointer and the keys: marquee, navigation, clicks and requests.
//!
//! Each step that uses the frame's press says so in [`FramePlan::consumed`], and
//! the steps after it leave the press alone.
//!
//! `P` is a point of the world, `S` a point of the screen.

use vstd::prelude::*;
use crate::scene::{ObjectRef, Scene};
use crate::selection::{
    after_picks, apply_select, first_of, has_object, holds, nothing, of_objects, SelItem, SelectOp,
    Selection, SelectionView,
};
use crate::shortcuts::dispatch::{
    fired_actions, modal_actions, poll, poll_modal, ActiveContext, InputState, ModalAction,
};
use crate::shortcuts::overrides::{KeymapOverrides, OverridesView};
use crate::shortcuts::registry::{Action, CameraView, TransformKind};
use crate::tools::ActiveTool;
use crate::viewport::duplicate::tails_dropped;
use crate::viewport::num_input::{edited, NumKeys};
use crate::viewport::picking::{
    after_click, after_secondary_click, click_select, ctrl_click_toggles_the_hit, found_inside,
    item_hit, marquee_hits, marquee_items, marquee_op, marquee_selects_what_it_holds,
    plain_click_selects_the_hit, secondary_click_keeps_what_it_hits, secondary_select, Hit,
    InsideFlags,
};
use crate::viewport::transform::{
    all_objects, begin, below, fresh_op, holds_action, kept_below, lock_after, outcome_of,
    selected_once_confirmed, transform_acts_on_the_selection, valid_targets, HandleSpec,
    ModalOutcome, ModalPointer, OpStart, OpView, TransformOp,
};
use crate::xform::TransformPrefs;

verus! {

/// The ruler of the Measure tool.
#[derive(Debug)]
pub struct MeasureState<P> {
    pub a: Option<P>,
    pub b: Option<P>,
}

impl<P> MeasureState<P> {
    /// Forget the measurement.
    pub fn clear(&mut self)
        ensures
            final(self).a is None,
            final(self).b is None,
    {
        self.a = None;
        self.b = None;
    }
}

impl<P: Copy> MeasureState<P> {
    /// A click at `p`: it sets the first end, then the second, and after that a
    /// first end again.
    pub fn click(&mut self, p: P)
        ensures
            *final(self) == measured(*old(self), p),
    {
        if self.a.is_some() && self.b.is_none() {
            self.b = Some(p);
        } else {
            self.a = Some(p);
            self.b = None;
        }
    }
}

/// The ruler after a click at `p`.
pub open spec fn measured<P>(m: MeasureState<P>, p: P) -> MeasureState<P> {
    if m.a is Some && m.b is None {
        MeasureState { a: m.a, b: Some(p) }
    } else {
        MeasureState { a: Some(p), b: None }
    }
}

/// The Aim tool's drag.
#[derive(Debug)]
pub struct AimState<P> {
    /// Where the heads are aimed while the drag runs.
    pub target: Option<P>,
}

impl<P> AimState<P> {
    /// Is a drag running?
    pub fn active(&self) -> (r: bool)
        ensures
            r == (self.target is Some),
    {
        self.target.is_some()
    }
}

/// What the viewport remembers from frame to frame.
#[derive(Debug)]
pub struct ViewportState<P, S> {
    pub focused: bool,
    pub selection: Selection,
    /// Where a range of fixtures starts.
    pub anchor: Option<usize>,
    pub transform: Option<TransformOp>,
    pub measure: MeasureState<P>,
    pub aim: AimState<P>,
    pub cursor_3d: P,
    /// Was the 3D cursor placed this session?
    pub cursor_3d_set: bool,
    /// Where the running marquee began.
    pub box_anchor: Option<S>,
    /// The fixture that the duplicate dialog is open for.
    pub duplicate: Option<usize>,
    /// Is the Library's highlighted item to be added?
    pub add_requested: bool,
}

/// What a [`ViewportState`] is.
#[verifier::ext_equal]
pub struct StateView<P, S> {
    pub focused: bool,
    pub selection: SelectionView,
    pub anchor: Option<usize>,
    pub transform: Option<OpView>,
    pub measure: MeasureState<P>,
    pub aim: Option<P>,
    pub cursor_3d: P,
    pub cursor_3d_set: bool,
    pub box_anchor: Option<S>,
    pub duplicate: Option<usize>,
    pub add_requested: bool,
}

impl<P, S> View for ViewportState<P, S> {
    type V = StateView<P, S>;

    open spec fn view(&self) -> StateView<P, S> {
        StateView {
            focused: self.focused,
            selection: self.selection@,
            anchor: self.anchor,
            transform: match self.transform {
                Some(op) => Some(op@),
                None => None,
            },
            measure: self.measure,
            aim: self.aim.target,
            cursor_3d: self.cursor_3d,
            cursor_3d_set: self.cursor_3d_set,
            box_anchor: self.box_anchor,
            duplicate: self.duplicate,
            add_requested: self.add_requested,
        }
    }
}

/// A frame's input, with what the rays through the pointer found.
#[derive(Debug)]
pub struct FrameInput<P, S> {
    pub tool: ActiveTool,
    pub prefs: TransformPrefs,
    /// The keyboard.
    pub keys: InputState,
    /// The keys that a typed number takes.
    pub num_keys: NumKeys,
    /// Was a button pressed, and if so inside the viewport?
    pub pressed_inside: Option<bool>,
    /// Is there a pointer at all?
    pub has_pointer: bool,
    /// Has a duplication just been made whose copies are to follow the pointer?
    pub dup_grab: bool,
    /// The gizmo handle under the press.
    pub handle: Option<HandleSpec>,
    pub clicked: bool,
    pub secondary_clicked: bool,
    /// Does the click have a place? A key that clicks the viewport, where it has
    /// the keyboard, gives none.
    pub click_placed: bool,
    pub dragged: bool,
    pub drag_started: bool,
    pub drag_stopped: bool,
    pub primary_down: bool,
    pub contains_pointer: bool,
    pub scrolled: bool,
    pub shift: bool,
    pub ctrl: bool,
    /// Where the ray through the click meets the world.
    pub click_world: Option<P>,
    /// Where the ray through the pointer meets the world, while it is inside.
    pub pointer_world: Option<P>,
    /// Where the 3D cursor would go: the world under the secondary click, else a
    /// point in front of the camera.
    pub cursor_place: Option<P>,
    /// The world's origin.
    pub origin: P,
    /// What the ray through the click picks.
    pub click_hit: Option<Hit>,
    /// What the ray through the secondary click picks.
    pub secondary_hit: Option<Hit>,
    /// Where the press began, if it was inside and over nothing.
    pub empty_press: Option<S>,
    /// Is there a press origin?
    pub has_press: bool,
    /// Is the marquee larger than a slip of the hand?
    pub marquee_large: bool,
    /// What the marquee holds.
    pub marquee: InsideFlags,
    /// Are the navigation balls shown?
    pub show_gizmos: bool,
    /// The view of the ball under the click.
    pub ball: Option<CameraView>,
    /// Does a text field have the focus?
    pub text_focus: bool,
    pub enter: bool,
}

impl<P, S> FrameInput<P, S> {
    /// What the input says of the scene fits it.
    pub open spec fn fits(self, scene: Scene) -> bool {
        &&& self.marquee.covers(scene)
        &&& self.click_hit matches Some(Hit::Fixture(i)) ==> i < scene.fixtures@.len()
    }
}

/// A dragged camera.
#[derive(Clone, Copy, Debug, PartialEq, Eq, Structural)]
pub enum CameraDrag {
    Pan,
    Orbit,
}

/// What a frame asks of its caller.
#[derive(Debug)]
pub struct FramePlan<P> {
    /// A change began that one undo step will take back.
    pub started: bool,
    /// The change is done.
    pub finished: bool,
    /// The press is used up.
    pub consumed: bool,
    /// How the running transform goes on.
    pub outcome: Option<ModalOutcome>,
    /// Aim the selected heads at this point.
    pub aim_at: Option<P>,
    pub set_view: Option<CameraView>,
    pub camera: Option<CameraDrag>,
    pub zoom: bool,
    /// The context menu may open.
    pub menu: bool,
}

/// A plan that asks for nothing.
pub open spec fn idle_plan<P>() -> FramePlan<P> {
    FramePlan {
        started: false,
        finished: false,
        consumed: false,
        outcome: None,
        aim_at: None,
        set_view: None,
        camera: None,
        zoom: false,
        menu: false,
    }
}

/// State and plan in the middle of a frame.
pub type Step<P, S> = (StateView<P, S>, FramePlan<P>);

/// The transform that `start` begins, if anything is selected that the scene
/// holds.
pub open spec fn begun_op(
    start: OpStart,
    scene: Scene,
    s: SelectionView,
    prefs: TransformPrefs,
) -> Option<OpView> {
    let t = valid_targets(scene, s);
    if all_objects(t).len() > 0 { Some(fresh_op(start, t, prefs)) } else { None }
}

/// A transform begins, if anything is selected that the scene holds.
pub open spec fn step_begin<P, S>(
    at: Step<P, S>,
    start: OpStart,
    scene: Scene,
    prefs: TransformPrefs,
) -> Step<P, S> {
    match begun_op(start, scene, at.0.selection, prefs) {
        Some(op) => (
            StateView { transform: Some(op), ..at.0 },
            FramePlan { started: true, ..at.1 },
        ),
        None => at,
    }
}

/// The copies of a duplication start to follow the pointer.
pub open spec fn step_grab<P, S>(
    at: Step<P, S>,
    input: FrameInput<P, S>,
    scene: Scene,
) -> Step<P, S> {
    if input.dup_grab && at.0.transform is None && has_object(at.0.selection) && input.has_pointer {
        step_begin(at, OpStart::Duplicate, scene, input.prefs)
    } else {
        at
    }
}

/// Does the viewport show the transform gizmo?
pub open spec fn gizmo_shown<P, S>(state: StateView<P, S>, tool: ActiveTool) -> bool {
    (tool is Move || tool is Rotate || tool is Scale) && state.transform is None && state.focused
        && !state.selection.world && has_object(state.selection)
}

/// A drag of a gizmo handle starts its transform.
pub open spec fn step_gizmo<P, S>(
    at: Step<P, S>,
    input: FrameInput<P, S>,
    scene: Scene,
) -> Step<P, S> {
    if gizmo_shown(at.0, input.tool) && input.handle is Some && input.drag_started
        && input.has_pointer {
        step_begin(at, OpStart::Gizmo(input.handle->0), scene, input.prefs)
    } else {
        at
    }
}

/// The Measure tool: Cancel forgets the ruler, a click at a place sets an end and
/// is used up. Under another tool there is no ruler. Before it, a transform that runs
/// has used up the press.
pub open spec fn step_measure<P, S>(
    at: Step<P, S>,
    input: FrameInput<P, S>,
    modal: Seq<ModalAction>,
) -> Step<P, S> {
    let consumed = at.0.transform is Some;
    let clear = MeasureState { a: None, b: None };
    if input.tool == ActiveTool::Measure {
        let m = if modal.contains(ModalAction::Cancel) { clear } else { at.0.measure };
        if !consumed && input.clicked && input.click_placed {
            (
                StateView {
                    measure: match input.click_world {
                        Some(p) => measured(m, p),
                        None => m,
                    },
                    ..at.0
                },
                FramePlan { consumed: true, ..at.1 },
            )
        } else {
            (StateView { measure: m, ..at.0 }, FramePlan { consumed, ..at.1 })
        }
    } else {
        (StateView { measure: clear, ..at.0 }, FramePlan { consumed, ..at.1 })
    }
}

/// The Aim tool: a drag aims the selected heads at the world under the pointer,
/// as one change that the release ends, and uses up the press. Under another
/// tool, or while a transform runs, there is no aim.
pub open spec fn step_aim<P, S>(
    at: Step<P, S>,
    input: FrameInput<P, S>,
    scene: Scene,
) -> Step<P, S> {
    if input.tool == ActiveTool::Aim && at.0.transform is None {
        let heads = kept_below(at.0.selection.fixtures, scene.fixtures@.len());
        if !at.1.consumed && heads.len() > 0 && at.0.focused {
            let begun = if input.drag_started {
                match input.pointer_world {
                    Some(p) => Some(p),
                    None => Some(input.origin),
                }
            } else {
                at.0.aim
            };
            let re_aim = input.dragged && begun is Some && input.pointer_world is Some;
            let aimed = if re_aim { input.pointer_world } else { begun };
            let released = aimed is Some && (input.drag_stopped || !input.primary_down);
            (
                StateView { aim: if released { None } else { aimed }, ..at.0 },
                FramePlan {
                    started: at.1.started || input.drag_started,
                    finished: at.1.finished || released,
                    aim_at: if re_aim { input.pointer_world } else { at.1.aim_at },
                    consumed: input.dragged || input.drag_started || input.clicked,
                    ..at.1
                },
            )
        } else {
            at
        }
    } else {
        (StateView { aim: None, ..at.0 }, at.1)
    }
}

/// The first transform that the actions start.
pub open spec fn first_transform(actions: Seq<Action>) -> Option<TransformKind>
    decreases actions.len(),
{
    if actions.len() == 0 {
        None
    } else {
        match actions[0] {
            Action::Transform(k) => Some(k),
            _ => first_transform(actions.drop_first()),
        }
    }
}

/// The pointer as a running transform sees it.
pub open spec fn modal_pointer<P, S>(input: FrameInput<P, S>) -> ModalPointer {
    ModalPointer {
        clicked: input.clicked,
        secondary_clicked: input.secondary_clicked,
        drag_stopped: input.drag_stopped,
        primary_down: input.primary_down,
    }
}

/// A running transform takes its keys and may end; else, with the focus and a
/// selection, a transform key starts one and uses up the press.
pub open spec fn step_modal<P, S>(
    at: Step<P, S>,
    input: FrameInput<P, S>,
    scene: Scene,
    modal: Seq<ModalAction>,
    ov: OverridesView,
) -> Step<P, S> {
    match at.0.transform {
        Some(op) => (
            StateView {
                transform: Some(
                    OpView {
                        num: edited(op.num, input.num_keys),
                        axis: lock_after(op.axis, modal),
                        ..op
                    },
                ),
                ..at.0
            },
            FramePlan {
                outcome: Some(outcome_of(op, modal, modal_pointer(input), at.0.focused)),
                ..at.1
            },
        ),
        None => {
            let cx = ActiveContext { viewport_focused: true, transform_active: false };
            let kind = first_transform(fired_actions(input.keys@, cx, ov));
            if at.0.focused && has_object(at.0.selection) && kind is Some && input.has_pointer {
                let begun = step_begin(at, OpStart::Modal(kind->0), scene, input.prefs);
                (
                    begun.0,
                    FramePlan { consumed: at.1.consumed || begun.0.transform is Some, ..begun.1 },
                )
            } else {
                at
            }
        },
    }
}

/// The focus after a press: inside brings it, outside takes it.
pub open spec fn focus_after(focused: bool, pressed_inside: Option<bool>) -> bool {
    match pressed_inside {
        Some(inside) => inside,
        None => focused,
    }
}

/// The first half of a frame.
pub open spec fn first_half<P, S>(
    state: StateView<P, S>,
    input: FrameInput<P, S>,
    scene: Scene,
    ov: OverridesView,
) -> Step<P, S> {
    let modal = modal_actions(input.keys@, ov);
    let focus = StateView { focused: focus_after(state.focused, input.pressed_inside), ..state };
    let grabbed = step_grab((focus, idle_plan()), input, scene);
    let dragged = step_gizmo(grabbed, input, scene);
    let ruled = step_measure(dragged, input, modal);
    let aimed = step_aim(ruled, input, scene);
    step_modal(aimed, input, scene, modal, ov)
}

/// Under the Select tool a drag from the void draws a marquee; the release
/// selects what it holds. A drag from an object is left to the camera.
pub open spec fn step_marquee<P, S>(
    at: Step<P, S>,
    input: FrameInput<P, S>,
    scene: Scene,
) -> Step<P, S> {
    if !at.1.consumed && input.tool == ActiveTool::Select && at.0.transform is None
        && at.0.focused {
        let anchor = if input.drag_started && input.has_press {
            input.empty_press
        } else {
            at.0.box_anchor
        };
        if anchor is Some && input.drag_stopped {
            let op = marquee_op(input.ctrl, input.shift);
            let base = if op == SelectOp::Replace { nothing() } else { at.0.selection };
            (
                StateView {
                    selection: if input.marquee_large {
                        after_picks(base, marquee_items(scene, input.marquee), op)
                    } else {
                        at.0.selection
                    },
                    anchor: if input.marquee_large { None } else { at.0.anchor },
                    box_anchor: None,
                    ..at.0
                },
                FramePlan { consumed: input.dragged || input.marquee_large, ..at.1 },
            )
        } else {
            (
                StateView { box_anchor: anchor, ..at.0 },
                FramePlan { consumed: anchor is Some && input.dragged, ..at.1 },
            )
        }
    } else {
        at
    }
}

/// The camera: a click on a navigation ball takes its view and is used up, a
/// drag pans with Shift and orbits without, and the wheel zooms.
pub open spec fn step_camera<P, S>(at: Step<P, S>, input: FrameInput<P, S>) -> Step<P, S> {
    let balled = input.show_gizmos && !at.1.consumed && input.clicked && input.click_placed
        && input.ball is Some;
    let consumed = at.1.consumed || balled;
    (
        at.0,
        FramePlan {
            set_view: if balled { input.ball } else { at.1.set_view },
            camera: if !consumed && input.dragged {
                Some(if input.shift { CameraDrag::Pan } else { CameraDrag::Orbit })
            } else {
                at.1.camera
            },
            zoom: at.1.zoom || (!consumed && input.contains_pointer && input.scrolled),
            consumed,
            ..at.1
        },
    )
}

/// A click selects; a secondary click with Shift places the 3D cursor and is
/// used up; a plain secondary click selects, and the context menu may open. A
/// click without a place does nothing.
pub open spec fn step_clicks<P, S>(
    at: Step<P, S>,
    input: FrameInput<P, S>,
    was_focused: bool,
    n: usize,
) -> Step<P, S> {
    let (selection, anchor) = if !at.1.consumed && input.clicked && input.click_placed {
        after_click(
            at.0.selection,
            at.0.anchor,
            input.click_hit,
            was_focused,
            input.ctrl,
            input.shift,
            n,
        )
    } else {
        (at.0.selection, at.0.anchor)
    };
    let clicked = StateView { selection, anchor, ..at.0 };
    if !at.1.consumed && input.secondary_clicked && input.click_placed && input.shift
        && at.0.focused {
        (
            StateView {
                cursor_3d: match input.cursor_place {
                    Some(p) => p,
                    None => clicked.cursor_3d,
                },
                cursor_3d_set: clicked.cursor_3d_set || input.cursor_place is Some,
                ..clicked
            },
            FramePlan { consumed: true, ..at.1 },
        )
    } else if !at.1.consumed {
        let (selection, anchor) = if input.secondary_clicked && input.click_placed {
            after_secondary_click(clicked.selection, clicked.anchor, input.secondary_hit)
        } else {
            (clicked.selection, clicked.anchor)
        };
        (StateView { selection, anchor, ..clicked }, FramePlan { menu: true, ..at.1 })
    } else {
        (clicked, at.1)
    }
}

/// The Duplicate key opens the dialog for the primary fixture; Enter asks for
/// the Library's item, unless a transform, the dialog or a text field has it.
pub open spec fn step_requests<P, S>(
    at: Step<P, S>,
    input: FrameInput<P, S>,
    ov: OverridesView,
) -> Step<P, S> {
    let cx = ActiveContext { viewport_focused: at.0.focused, transform_active: false };
    let pressed = fired_actions(input.keys@, cx, ov).contains(Action::Duplicate);
    let duplicate = if !at.1.consumed && at.0.focused && at.0.duplicate is None && pressed {
        first_of(at.0.selection.fixtures)
    } else {
        at.0.duplicate
    };
    let asked = !at.1.consumed && at.0.focused && at.0.transform is None && duplicate is None
        && !input.text_focus && input.enter;
    (
        StateView { duplicate, add_requested: at.0.add_requested || asked, ..at.0 },
        at.1,
    )
}

/// The second half of a frame.
pub open spec fn second_half<P, S>(
    at: Step<P, S>,
    input: FrameInput<P, S>,
    scene: Scene,
    was_focused: bool,
    ov: OverridesView,
) -> Step<P, S> {
    let boxed = step_marquee(at, input, scene);
    let moved = step_camera(boxed, input);
    let clicked = step_clicks(moved, input, was_focused, scene.fixtures@.len() as usize);
    step_requests(clicked, input, ov)
}

/// The first transform that the actions start.
fn find_transform(actions: &Vec<Action>) -> (r: Option<TransformKind>)
    ensures
        r == first_transform(actions@),
{
    let n: usize = actions.len();
    let mut k: usize = 0;
    assert(actions@.subrange(0, n as int) =~= actions@);
    while k < n
        invariant
            n == actions@.len(),
            k <= n,
            first_transform(actions@) == first_transform(actions@.subrange(k as int, n as int)),
        decreases n - k,
    {
        assert(actions@.subrange(k as int, n as int).drop_first() =~= actions@.subrange(
            k + 1,
            n as int,
        ));
        if let Action::Transform(kind) = actions[k] {
            return Some(kind);
        }
        k = k + 1;
    }
    None
}

/// Is the Duplicate action among them?
fn asks_duplicate(actions: &Vec<Action>) -> (r: bool)
    ensures
        r == actions@.contains(Action::Duplicate),
{
    let mut k: usize = 0;
    while k < actions.len()
        invariant
            k <= actions@.len(),
            forall|j: int| 0 <= j < k ==> #[trigger] actions@[j] != Action::Duplicate,
        decreases actions@.len() - k,
    {
        if let Action::Duplicate = actions[k] {
            assert(actions@[k as int] == Action::Duplicate);
            return true;
        }
        k = k + 1;
    }
    false
}

impl<P: Copy, S: Copy> ViewportState<P, S> {
    /// A running transform is well-formed.
    pub open spec fn wf(self) -> bool {
        self.transform matches Some(op) ==> op.wf()
    }

    fn begin_step(
        &mut self,
        plan: &mut FramePlan<P>,
        start: OpStart,
        scene: &Scene,
        prefs: TransformPrefs,
    )
        requires
            old(self).wf(),
        ensures
            final(self).wf(),
            (final(self)@, *final(plan)) == step_begin(
                (old(self)@, *old(plan)),
                start,
                *scene,
                prefs,
            ),
    {
        if let Some(op) = begin(start, scene, &self.selection, prefs) {
            self.transform = Some(op);
            plan.started = true;
        }
        assert(self@ =~= step_begin((old(self)@, *old(plan)), start, *scene, prefs).0);
    }

    fn grab_step(&mut self, plan: &mut FramePlan<P>, input: &FrameInput<P, S>, scene: &Scene)
        requires
            old(self).wf(),
        ensures
            final(self).wf(),
            (final(self)@, *final(plan)) == step_grab((old(self)@, *old(plan)), *input, *scene),
    {
        if input.dup_grab && self.transform.is_none() && self.selection.has_object()
            && input.has_pointer {
            self.begin_step(plan, OpStart::Duplicate, scene, input.prefs);
        }
    }

    /// Does the viewport show the transform gizmo?
    pub fn gizmo_shown(&self, tool: ActiveTool) -> (r: bool)
        ensures
            r == gizmo_shown(self@, tool),
    {
        tool.shows_xform_gizmo() && self.transform.is_none() && self.focused
            && !self.selection.world && self.selection.has_object()
    }

    fn gizmo_step(&mut self, plan: &mut FramePlan<P>, input: &FrameInput<P, S>, scene: &Scene)
        requires
            old(self).wf(),
        ensures
            final(self).wf(),
            (final(self)@, *final(plan)) == step_gizmo((old(self)@, *old(plan)), *input, *scene),
    {
        if self.gizmo_shown(input.tool) && input.drag_started && input.has_pointer {
            if let Some(h) = input.handle {
                self.begin_step(plan, OpStart::Gizmo(h), scene, input.prefs);
            }
        }
    }

    fn measure_step(
        &mut self,
        plan: &mut FramePlan<P>,
        input: &FrameInput<P, S>,
        modal: &Vec<ModalAction>,
    )
        requires
            old(self).wf(),
        ensures
            final(self).wf(),
            (final(self)@, *final(plan)) == step_measure((old(self)@, *old(plan)), *input, modal@),
    {
        plan.consumed = self.transform.is_some();
        if input.tool == ActiveTool::Measure {
            if holds_action(modal, ModalAction::Cancel) {
                self.measure.clear();
            }
            if !plan.consumed && input.clicked && input.click_placed {
                if let Some(p) = input.click_world {
                    self.measure.click(p);
                }
                plan.consumed = true;
            }
        } else {
            self.measure.clear();
        }
        assert(self@ =~= step_measure((old(self)@, *old(plan)), *input, modal@).0);
    }

    fn aim_step(&mut self, plan: &mut FramePlan<P>, input: &FrameInput<P, S>, scene: &Scene)
        requires
            old(self).wf(),
        ensures
            final(self).wf(),
            (final(self)@, *final(plan)) == step_aim((old(self)@, *old(plan)), *input, *scene),
    {
        if input.tool == ActiveTool::Aim && self.transform.is_none() {
            let heads = below(&self.selection.fixtures, scene.fixtures.len());
            if !plan.consumed && heads.len() > 0 && self.focused {
                if input.drag_started {
                    plan.started = true;
                    self.aim.target = match input.pointer_world {
                        Some(p) => Some(p),
                        None => Some(input.origin),
                    };
                }
                if input.dragged && self.aim.active() {
                    if let Some(p) = input.pointer_world {
                        self.aim.target = Some(p);
                        plan.aim_at = Some(p);
                    }
                }
                if self.aim.active() && (input.drag_stopped || !input.primary_down) {
                    plan.finished = true;
                    self.aim.target = None;
                }
                if input.dragged || input.drag_started || input.clicked {
                    plan.consumed = true;
                }
            }
        } else {
            self.aim.target = None;
        }
        assert(self@ =~= step_aim((old(self)@, *old(plan)), *input, *scene).0);
    }

    fn modal_step(
        &mut self,
        plan: &mut FramePlan<P>,
        input: &FrameInput<P, S>,
        scene: &Scene,
        modal: &Vec<ModalAction>,
        ov: &KeymapOverrides,
    )
        requires
            old(self).wf(),
        ensures
            final(self).wf(),
            (final(self)@, *final(plan)) == step_modal(
                (old(self)@, *old(plan)),
                *input,
                *scene,
                modal@,
                ov@,
            ),
    {
        let running = self.transform.take();
        match running {
            Some(op) => {
                let mut op = op;
                let pointer = ModalPointer {
                    clicked: input.clicked,
                    secondary_clicked: input.secondary_clicked,
                    drag_stopped: input.drag_stopped,
                    primary_down: input.primary_down,
                };
                let outcome = op.modal_step(&input.num_keys, modal, pointer, self.focused);
                plan.outcome = Some(outcome);
                self.transform = Some(op);
            },
            None => {
                if self.focused && self.selection.has_object() {
                    let cx = ActiveContext { viewport_focused: true, transform_active: false };
                    let actions = poll(&input.keys, cx, ov);
                    if let Some(kind) = find_transform(&actions) {
                        if input.has_pointer {
                            self.begin_step(plan, OpStart::Modal(kind), scene, input.prefs);
                            if self.transform.is_some() {
                                plan.consumed = true;
                            }
                        }
                    }
                }
            },
        }
        assert(self@ =~= step_modal(
            (old(self)@, *old(plan)),
            *input,
            *scene,
            modal@,
            ov@,
        ).0);
    }

    /// The first half of a frame. The caller then applies the running
    /// transform, unless it is cancelled, and settles it.
    pub fn begin_frame(
        &mut self,
        input: &FrameInput<P, S>,
        scene: &Scene,
        ov: &KeymapOverrides,
    ) -> (plan: FramePlan<P>)
        requires
            old(self).wf(),
        ensures
            final(self).wf(),
            (final(self)@, plan) == first_half(old(self)@, *input, *scene, ov@),
    {
        let modal = poll_modal(&input.keys, ov);
        if let Some(inside) = input.pressed_inside {
            self.focused = inside;
        }
        let mut plan = FramePlan {
            started: false,
            finished: false,
            consumed: false,
            outcome: None,
            aim_at: None,
            set_view: None,
            camera: None,
            zoom: false,
            menu: false,
        };
        assert(self@ =~= (StateView {
            focused: focus_after(old(self)@.focused, input.pressed_inside),
            ..old(self)@
        }));
        self.grab_step(&mut plan, input, scene);
        self.gizmo_step(&mut plan, input, scene);
        self.measure_step(&mut plan, input, &modal);
        self.aim_step(&mut plan, input, scene);
        self.modal_step(&mut plan, input, scene, &modal, ov);
        plan
    }

    /// End the transform where the plan says so. A cancel takes the copies of a
    /// duplication's array out of the scene again; a confirm is a change done,
    /// and selects the copies of a duplication.
    pub fn settle(&mut self, plan: &mut FramePlan<P>, scene: &mut Scene)
        requires
            old(self).wf(),
        ensures
            final(self).wf(),
            (final(self)@, *final(plan)) == settled((old(self)@, *old(plan))),
            ({
                let ends = old(self).transform is Some && (old(plan).outcome == Some(
                    ModalOutcome::Cancelled,
                ) || old(plan).outcome == Some(ModalOutcome::Confirmed));
                let confirmed = ends && old(plan).outcome == Some(ModalOutcome::Confirmed);
                let cancelled = ends && !confirmed;
                &&& final(self)@ == (StateView {
                    transform: if ends { None } else { old(self)@.transform },
                    selection: if confirmed && old(self).transform->0.from_duplicate {
                        of_objects(
                            old(self).transform->0.dup_base@ + old(self).transform->0.dup_extra@,
                        )
                    } else {
                        old(self)@.selection
                    },
                    ..old(self)@
                })
                &&& *final(plan) == (FramePlan {
                    finished: old(plan).finished || confirmed,
                    ..*old(plan)
                })
                &&& cancelled ==> tails_dropped(
                    *old(scene),
                    *final(scene),
                    old(self).transform->0.dup_extra@,
                )
                &&& !cancelled ==> *final(scene) == *old(scene)
            }),
    {
        let ghost before = self@;
        let running = self.transform.take();
        match running {
            Some(op) => {
                let mut op = op;
                match plan.outcome {
                    Some(ModalOutcome::Cancelled) => {
                        op.cancel_array(scene);
                    },
                    Some(ModalOutcome::Confirmed) => {
                        let chosen = op.confirmed_selection(&self.selection);
                        self.selection = chosen;
                        plan.finished = true;
                    },
                    _ => {
                        self.transform = Some(op);
                    },
                }
            },
            None => {},
        }
        assert(self@.selection =~= self.selection@);
        assert(before.measure == self@.measure);
    }

    fn marquee_step(&mut self, plan: &mut FramePlan<P>, input: &FrameInput<P, S>, scene: &Scene)
        requires
            old(self).wf(),
            input.fits(*scene),
        ensures
            final(self).wf(),
            (final(self)@, *final(plan)) == step_marquee((old(self)@, *old(plan)), *input, *scene),
    {
        if !plan.consumed && input.tool == ActiveTool::Select && self.transform.is_none()
            && self.focused {
            if input.drag_started && input.has_press {
                self.box_anchor = input.empty_press;
            }
            if self.box_anchor.is_some() {
                if input.dragged {
                    plan.consumed = true;
                }
                if input.drag_stopped {
                    if input.marquee_large {
                        let hits = marquee_hits(scene, &input.marquee);
                        self.selection = apply_select(
                            &self.selection,
                            &hits,
                            marquee_op(input.ctrl, input.shift),
                        );
                        self.anchor = None;
                        plan.consumed = true;
                    }
                    self.box_anchor = None;
                }
            }
        }
        assert(self@ =~= step_marquee((old(self)@, *old(plan)), *input, *scene).0);
    }

    fn camera_step(&self, plan: &mut FramePlan<P>, input: &FrameInput<P, S>)
        ensures
            (self@, *final(plan)) == step_camera((self@, *old(plan)), *input),
    {
        if input.show_gizmos && !plan.consumed && input.clicked && input.click_placed {
            if let Some(v) = input.ball {
                plan.set_view = Some(v);
                plan.consumed = true;
            }
        }
        if !plan.consumed && input.dragged {
            plan.camera = if input.shift {
                Some(CameraDrag::Pan)
            } else {
                Some(CameraDrag::Orbit)
            };
        }
        if !plan.consumed && input.contains_pointer && input.scrolled {
            plan.zoom = true;
        }
    }

    fn clicks_step(
        &mut self,
        plan: &mut FramePlan<P>,
        input: &FrameInput<P, S>,
        was_focused: bool,
        n: usize,
    )
        requires
            old(self).wf(),
            input.click_hit matches Some(Hit::Fixture(i)) ==> i < n,
        ensures
            final(self).wf(),
            (final(self)@, *final(plan)) == step_clicks(
                (old(self)@, *old(plan)),
                *input,
                was_focused,
                n,
            ),
    {
        if !plan.consumed && input.clicked && input.click_placed {
            click_select(
                &mut self.selection,
                &mut self.anchor,
                input.click_hit,
                was_focused,
                input.ctrl,
                input.shift,
                n,
            );
        }
        if !plan.consumed && input.secondary_clicked && input.click_placed && input.shift
            && self.focused {
            if let Some(p) = input.cursor_place {
                self.cursor_3d = p;
                self.cursor_3d_set = true;
            }
            plan.consumed = true;
        } else if !plan.consumed {
            if input.secondary_clicked && input.click_placed {
                secondary_select(&mut self.selection, &mut self.anchor, input.secondary_hit);
            }
            plan.menu = true;
        }
        assert(self@ =~= step_clicks((old(self)@, *old(plan)), *input, was_focused, n).0);
    }

    fn requests_step(
        &mut self,
        plan: &FramePlan<P>,
        input: &FrameInput<P, S>,
        ov: &KeymapOverrides,
    )
        requires
            old(self).wf(),
        ensures
            final(self).wf(),
            (final(self)@, *plan) == step_requests((old(self)@, *plan), *input, ov@),
    {
        let cx = ActiveContext { viewport_focused: self.focused, transform_active: false };
        let actions = poll(&input.keys, cx, ov);
        if !plan.consumed && self.focused && self.duplicate.is_none() && asks_duplicate(&actions) {
            self.duplicate = self.selection.primary_fixture();
        }
        if !plan.consumed && self.focused && self.transform.is_none() && self.duplicate.is_none()
            && !input.text_focus && input.enter {
            self.add_requested = true;
        }
        assert(self@ =~= step_requests((old(self)@, *plan), *input, ov@).0);
    }

    /// The second half of a frame. `was_focused` is the focus before the frame.
    pub fn end_frame(
        &mut self,
        plan: &mut FramePlan<P>,
        input: &FrameInput<P, S>,
        scene: &Scene,
        was_focused: bool,
        ov: &KeymapOverrides,
    )
        requires
            old(self).wf(),
            input.fits(*scene),
        ensures
            final(self).wf(),
            (final(self)@, *final(plan)) == second_half(
                (old(self)@, *old(plan)),
                *input,
                *scene,
                was_focused,
                ov@,
            ),
    {
        self.marquee_step(plan, input, scene);
        self.camera_step(plan, input);
        self.clicks_step(plan, input, was_focused, scene.fixtures.len());
        self.requests_step(plan, input, ov);
    }
}

/// A press that the first half used up reaches neither the camera nor the
/// selection nor the requests.
pub proof fn consumed_press_does_nothing_more<P, S>(
    at: Step<P, S>,
    input: FrameInput<P, S>,
    scene: Scene,
    was_focused: bool,
    ov: OverridesView,
)
    requires
        at.1.consumed,
    ensures
        second_half(at, input, scene, was_focused, ov).0 == at.0,
        second_half(at, input, scene, was_focused, ov).1 == at.1,
{
}

/// While a transform runs, the frame's press is its own.
pub proof fn running_transform_owns_the_press<P, S>(
    state: StateView<P, S>,
    input: FrameInput<P, S>,
    scene: Scene,
    ov: OverridesView,
)
    requires
        state.transform is Some,
    ensures
        ({
            let r = first_half(state, input, scene, ov);
            &&& r.1.consumed
            &&& r.1.outcome is Some
            &&& r.0.transform is Some
            &&& r.0.selection == state.selection
            &&& !r.1.started
        }),
{
}

/// Measuring never changes the selection: under the Measure tool
/// a click is used up by the ruler.
pub proof fn measuring_never_selects<P, S>(
    state: StateView<P, S>,
    input: FrameInput<P, S>,
    scene: Scene,
    was_focused: bool,
    ov: OverridesView,
)
    requires
        input.tool == ActiveTool::Measure,
        input.clicked,
    ensures
        ({
            let half = first_half(state, input, scene, ov);
            second_half(half, input, scene, was_focused, ov).0.selection == state.selection
        }),
{
}

/// A click into the void that only brings the focus leaves the selection.
pub proof fn focusing_click_keeps_the_selection(
    s: SelectionView,
    anchor: Option<usize>,
    n: usize,
)
    ensures
        after_click(s, anchor, None, false, false, false, n) == (s, anchor),
{
}

/// Three clicks of the ruler: first end, second end, first end again.
pub proof fn ruler_has_two_ends<P>(m: MeasureState<P>, p: P, q: P, r: P)
    requires
        m.a is None && m.b is None,
    ensures
        measured(m, p) == (MeasureState { a: Some(p), b: None }),
        measured(measured(m, p), q) == (MeasureState { a: Some(p), b: Some(q) }),
        measured(measured(measured(m, p), q), r) == (MeasureState { a: Some(r), b: None }),
{
}

/// State and plan once the transform is ended where the plan says so.
pub open spec fn settled<P, S>(at: Step<P, S>) -> Step<P, S> {
    match at.0.transform {
        Some(op) => if at.1.outcome == Some(ModalOutcome::Confirmed) {
            (
                StateView {
                    transform: None,
                    selection: selected_once_confirmed(op, at.0.selection),
                    ..at.0
                },
                FramePlan { finished: true, ..at.1 },
            )
        } else if at.1.outcome == Some(ModalOutcome::Cancelled) {
            (StateView { transform: None, ..at.0 }, at.1)
        } else {
            at
        },
        None => at,
    }
}

/// A transform goes on until its outcome ends it. A confirmed one is a change done;
/// a cancelled one is not, and leaves the selection.
pub proof fn outcome_ends_the_transform<P, S>(at: Step<P, S>)
    requires
        at.0.transform is Some,
    ensures
        ({
            let r = settled(at);
            &&& at.1.outcome == Some(ModalOutcome::Running) ==> r == at
            &&& at.1.outcome == Some(ModalOutcome::Confirmed) ==> r.0.transform is None
                && r.1.finished
            &&& at.1.outcome == Some(ModalOutcome::Cancelled) ==> r.0.transform is None
                && r.1.finished == at.1.finished && r.0.selection == at.0.selection
            &&& !at.0.transform->0.from_duplicate ==> r.0.selection == at.0.selection
        }),
{
}

/// The camera follows the drag: where the press is not used up, a drag orbits it
/// with Shift up and pans it with Shift down; where it is used up, or nothing is
/// dragged, the camera does neither.
pub proof fn drag_orbits_or_pans<P, S>(at: Step<P, S>, input: FrameInput<P, S>)
    requires
        at.1.camera is None,
    ensures
        ({
            let r = step_camera(at, input).1;
            &&& !r.consumed && input.dragged && !input.shift ==> r.camera == Some(CameraDrag::Orbit)
            &&& !r.consumed && input.dragged && input.shift ==> r.camera == Some(CameraDrag::Pan)
            &&& !input.dragged ==> r.camera is None
            &&& r.consumed ==> r.camera is None
            &&& at.1.consumed ==> r == at.1
        }),
{
}

/// The same of the frame's whole second half: with a tool that draws no marquee, a
/// drag that no earlier step used up and that is no click on a ball moves the
/// camera, by Shift one way or the other.
pub proof fn free_drag_moves_the_camera<P, S>(
    at: Step<P, S>,
    input: FrameInput<P, S>,
    scene: Scene,
    was_focused: bool,
    ov: OverridesView,
)
    requires
        at.1.camera is None,
    ensures
        ({
            let r = second_half(at, input, scene, was_focused, ov).1;
            &&& r.camera == Some(CameraDrag::Pan) ==> input.dragged && input.shift
            &&& r.camera == Some(CameraDrag::Orbit) ==> input.dragged && !input.shift
            &&& at.1.consumed ==> r.camera is None
            &&& !at.1.consumed && input.tool != ActiveTool::Select && input.dragged
                && !input.clicked ==> r.camera == Some(
                if input.shift {
                    CameraDrag::Pan
                } else {
                    CameraDrag::Orbit
                },
            )
        }),
{
}

/// The wheel zooms where the pointer is inside and the press is not used up, and a
/// click on a shown ball takes that ball's view and is used up.
pub proof fn wheel_zooms_and_balls_turn<P, S>(at: Step<P, S>, input: FrameInput<P, S>)
    requires
        !at.1.consumed,
        !at.1.zoom,
        at.1.set_view is None,
    ensures
        ({
            let r = step_camera(at, input);
            let balled = input.show_gizmos && input.clicked && input.click_placed && input.ball is Some;
            &&& r.0 == at.0
            &&& r.1.set_view == (if balled { input.ball } else { None })
            &&& r.1.consumed <==> balled
            &&& r.1.zoom <==> input.scrolled && input.contains_pointer && !balled
        }),
{
}

/// A press inside brings the focus, one outside takes it, and without a press it
/// stays.
pub proof fn press_moves_the_focus<P, S>(
    state: StateView<P, S>,
    input: FrameInput<P, S>,
    scene: Scene,
    ov: OverridesView,
)
    ensures
        ({
            let r = first_half(state, input, scene, ov).0;
            &&& input.pressed_inside == Some(true) ==> r.focused
            &&& input.pressed_inside == Some(false) ==> !r.focused
            &&& input.pressed_inside is None ==> r.focused == state.focused
        }),
{
}

/// A press outside cancels a running transform.
pub proof fn press_outside_cancels<P, S>(
    state: StateView<P, S>,
    input: FrameInput<P, S>,
    scene: Scene,
    ov: OverridesView,
)
    requires
        state.transform is Some,
        input.pressed_inside == Some(false),
    ensures
        settled(first_half(state, input, scene, ov)).0.transform is None,
        settled(first_half(state, input, scene, ov)).0.selection == state.selection,
{
}

/// The transform that a frame's actions start is the first that they name.
pub proof fn first_named_transform_starts(actions: Seq<Action>, j: int, k: TransformKind)
    requires
        0 <= j < actions.len(),
        actions[j] == Action::Transform(k),
        forall|i: int| 0 <= i < j ==> !((#[trigger] actions[i]) is Transform),
    ensures
        first_transform(actions) == Some(k),
    decreases actions.len(),
{
    if j > 0 {
        let rest = actions.drop_first();
        assert(!(actions[0] is Transform));
        assert(rest[j - 1] == actions[j]);
        assert forall|i: int| 0 <= i < j - 1 implies !((#[trigger] rest[i]) is Transform) by {
            assert(rest[i] == actions[i + 1]);
        }
        first_named_transform_starts(rest, j - 1, k);
    }
}

/// Without an action that names one, none starts.
pub proof fn no_transform_without_its_action(actions: Seq<Action>)
    requires
        forall|i: int| 0 <= i < actions.len() ==> !((#[trigger] actions[i]) is Transform),
    ensures
        first_transform(actions) is None,
    decreases actions.len(),
{
    if actions.len() > 0 {
        let rest = actions.drop_first();
        assert(!(actions[0] is Transform));
        assert forall|i: int| 0 <= i < rest.len() implies !((#[trigger] rest[i]) is Transform) by {
            assert(rest[i] == actions[i + 1]);
        }
        no_transform_without_its_action(rest);
    }
}

/// A transform key in the focused viewport starts the transform it names, of the
/// selected objects, as one change, and uses up the press.
pub proof fn transform_key_starts<P, S>(
    at: Step<P, S>,
    input: FrameInput<P, S>,
    scene: Scene,
    modal: Seq<ModalAction>,
    ov: OverridesView,
    i: usize,
)
    requires
        at.0.transform is None,
        at.0.selection.fixtures.contains(i),
        i < scene.fixtures@.len(),
    ensures
        ({
            let cx = ActiveContext { viewport_focused: true, transform_active: false };
            let kind = first_transform(fired_actions(input.keys@, cx, ov));
            let r = step_modal(at, input, scene, modal, ov);
            &&& at.0.focused && input.has_pointer && kind is Some ==> r.1.started && r.1.consumed
                && r.0.transform is Some && r.0.transform->0.kind == kind->0
                && !r.0.transform->0.from_gizmo && !r.0.transform->0.from_duplicate
                && all_objects(r.0.transform->0.targets).contains(ObjectRef::Fixture(i))
            &&& !at.0.focused || !input.has_pointer || kind is None ==> r == at
        }),
{
    transform_acts_on_the_selection(scene, at.0.selection, i);
    let objs = all_objects(valid_targets(scene, at.0.selection));
    assert(objs.contains(ObjectRef::Fixture(i)));
    assert(at.0.selection.fixtures.len() > 0);
}

/// A running transform takes the frame's axis and number keys and says how it goes
/// on; what it acts on and how it started do not change.
pub proof fn running_transform_takes_the_keys<P, S>(
    at: Step<P, S>,
    input: FrameInput<P, S>,
    scene: Scene,
    modal: Seq<ModalAction>,
    ov: OverridesView,
)
    requires
        at.0.transform is Some,
    ensures
        ({
            let r = step_modal(at, input, scene, modal, ov);
            let before = at.0.transform->0;
            let after = r.0.transform->0;
            &&& r.0.transform is Some && r.1.outcome is Some
            &&& after.targets == before.targets && after.kind == before.kind && after.from_gizmo
                == before.from_gizmo && after.from_duplicate == before.from_duplicate
                && after.dup_base == before.dup_base
            &&& !at.0.focused || input.secondary_clicked || modal.contains(ModalAction::Cancel)
                <==> r.1.outcome == Some(ModalOutcome::Cancelled)
            &&& before.from_gizmo && r.1.outcome == Some(ModalOutcome::Running) ==> input.primary_down
                && !input.drag_stopped
            &&& !before.from_gizmo && r.1.outcome == Some(ModalOutcome::Confirmed) ==> input.clicked
                || modal.contains(ModalAction::Confirm)
            &&& r.0.selection == at.0.selection
        }),
{
}

/// The copies of a duplication follow the pointer: a transform of them starts, and
/// a running one is not replaced.
pub proof fn copies_follow_the_pointer<P, S>(
    at: Step<P, S>,
    input: FrameInput<P, S>,
    scene: Scene,
    i: usize,
)
    requires
        at.0.selection.fixtures.contains(i),
        i < scene.fixtures@.len(),
    ensures
        ({
            let r = step_grab(at, input, scene);
            &&& at.0.transform is None && input.dup_grab && input.has_pointer ==> r.1.started
                && r.0.transform is Some && r.0.transform->0.from_duplicate
                && r.0.transform->0.dup_base.contains(ObjectRef::Fixture(i))
            &&& at.0.transform is Some || !input.dup_grab || !input.has_pointer ==> r == at
        }),
{
    transform_acts_on_the_selection(scene, at.0.selection, i);
    let objs = all_objects(valid_targets(scene, at.0.selection));
    assert(objs.contains(ObjectRef::Fixture(i)));
    assert(at.0.selection.fixtures.len() > 0);
}

/// The gizmo shows under the tools that transform, with the focus, while no
/// transform runs and a placed object is selected, not the world; and not else.
pub proof fn gizmo_shows_for_the_transform_tools<P, S>(state: StateView<P, S>, tool: ActiveTool)
    ensures
        gizmo_shown(state, tool) ==> tool == ActiveTool::Move || tool == ActiveTool::Rotate || tool
            == ActiveTool::Scale,
        gizmo_shown(state, tool) ==> state.focused && state.transform is None
            && !state.selection.world,
        gizmo_shown(state, tool) ==> state.selection.fixtures.len() + state.selection.geometry.len()
            + state.selection.screens.len() + state.selection.pyro.len() > 0
            || state.selection.environment is Some,
        state.focused && state.transform is None && !state.selection.world && (
        state.selection.fixtures.len() > 0 || state.selection.geometry.len() > 0
            || state.selection.screens.len() > 0 || state.selection.pyro.len() > 0
            || state.selection.environment is Some) ==> gizmo_shown(state, ActiveTool::Move)
            && gizmo_shown(state, ActiveTool::Rotate) && gizmo_shown(state, ActiveTool::Scale),
{
}

/// A drag that begins on a handle of the shown gizmo starts that handle's
/// transform; without the gizmo, the handle or the drag nothing starts.
pub proof fn handle_drag_starts_its_transform<P, S>(
    at: Step<P, S>,
    input: FrameInput<P, S>,
    scene: Scene,
    i: usize,
)
    requires
        at.0.selection.fixtures.contains(i),
        i < scene.fixtures@.len(),
        input.has_pointer,
    ensures
        ({
            let r = step_gizmo(at, input, scene);
            let grabbed = gizmo_shown(at.0, input.tool) && input.handle is Some && input.drag_started;
            &&& grabbed ==> r.1.started && r.0.transform is Some && r.0.transform->0.from_gizmo
                && r.0.transform->0.kind == input.handle->0.kind
            &&& !grabbed ==> r == at
        }),
{
    transform_acts_on_the_selection(scene, at.0.selection, i);
    let objs = all_objects(valid_targets(scene, at.0.selection));
    assert(objs.contains(ObjectRef::Fixture(i)));
}

/// The ruler: under the Measure tool, while no transform runs, a click at a place of
/// the world sets the first end, then the second, then a first one again, and is
/// used up. Cancel forgets both ends, another tool has none, and without a click
/// they stay.
pub proof fn ruler_follows_the_clicks<P, S>(
    at: Step<P, S>,
    input: FrameInput<P, S>,
    modal: Seq<ModalAction>,
    p: P,
)
    ensures
        ({
            let r = step_measure(at, input, modal);
            let m = r.0.measure;
            let measuring = input.tool == ActiveTool::Measure;
            let clicked = input.clicked && input.click_placed && at.0.transform is None;
            let cancelled = modal.contains(ModalAction::Cancel);
            &&& !measuring ==> m.a is None && m.b is None
            &&& measuring && cancelled && !clicked ==> m.a is None && m.b is None
            &&& measuring && !cancelled && !clicked ==> m == at.0.measure
            &&& measuring && clicked ==> r.1.consumed
            &&& measuring && clicked && !cancelled && input.click_world == Some(p)
                && at.0.measure.a is Some && at.0.measure.b is None ==> m.a == at.0.measure.a && m.b
                == Some(p)
            &&& measuring && clicked && input.click_world == Some(p) && (cancelled
                || at.0.measure.a is None || at.0.measure.b is Some) ==> m.a == Some(p)
                && m.b is None
            &&& r.0.selection == at.0.selection && r.0.transform == at.0.transform
        }),
{
}

/// The Aim tool: while a drag of the focused viewport runs, the selected heads are
/// aimed at the world under the pointer; the press starts one change, the release
/// ends it, and the press is used up.
pub proof fn aim_follows_the_pointer<P, S>(
    at: Step<P, S>,
    input: FrameInput<P, S>,
    scene: Scene,
    p: P,
)
    requires
        input.tool == ActiveTool::Aim,
        at.0.transform is None,
        at.0.focused,
        !at.1.consumed && !at.1.started && !at.1.finished && at.1.aim_at is None,
        kept_below(at.0.selection.fixtures, scene.fixtures@.len()).len() > 0,
        input.pointer_world == Some(p),
    ensures
        ({
            let r = step_aim(at, input, scene);
            let held = input.primary_down && !input.drag_stopped;
            let running = input.drag_started || at.0.aim is Some;
            &&& r.1.started <==> input.drag_started
            &&& held && input.drag_started ==> r.0.aim == Some(p)
            &&& held && running && input.dragged ==> r.0.aim == Some(p)
            &&& running && input.dragged ==> r.1.aim_at == Some(p)
            &&& !running || !input.dragged ==> r.1.aim_at is None
            &&& !held ==> r.0.aim is None
            &&& r.1.finished <==> running && !held
            &&& input.dragged || input.drag_started || input.clicked <==> r.1.consumed
            &&& r.0.selection == at.0.selection
        }),
{
}

/// Nothing is aimed under another tool or while a transform runs, and no change
/// begins or ends then.
pub proof fn other_tools_do_not_aim<P, S>(at: Step<P, S>, input: FrameInput<P, S>, scene: Scene)
    requires
        input.tool != ActiveTool::Aim || at.0.transform is Some,
    ensures
        step_aim(at, input, scene).0.aim is None,
        step_aim(at, input, scene).1 == at.1,
{
}

/// A released marquee that is larger than a slip of the hand selects what it holds;
/// with Shift it adds that, with Ctrl it takes that out. A smaller one leaves the
/// selection. Either way the marquee is over.
pub proof fn released_marquee_selects<P, S>(
    at: Step<P, S>,
    input: FrameInput<P, S>,
    scene: Scene,
    e: SelItem,
)
    requires
        input.fits(scene),
        input.tool == ActiveTool::Select,
        at.0.transform is None && at.0.focused && !at.1.consumed,
        at.0.box_anchor is Some && !input.drag_started,
        input.drag_stopped,
        !(e is Environment),
    ensures
        ({
            let r = step_marquee(at, input, scene);
            let found = found_inside(scene, input.marquee, e);
            &&& r.0.box_anchor is None
            &&& !input.marquee_large ==> r.0.selection == at.0.selection
            &&& input.marquee_large ==> r.1.consumed
            &&& input.marquee_large && !input.ctrl && !input.shift ==> (holds(r.0.selection, e)
                <==> found)
            &&& input.marquee_large && !input.ctrl && input.shift ==> (holds(r.0.selection, e)
                <==> holds(at.0.selection, e) || found)
            &&& input.marquee_large && input.ctrl ==> (holds(r.0.selection, e) <==> holds(
                at.0.selection,
                e,
            ) && !found)
        }),
{
    marquee_selects_what_it_holds(scene, input.marquee, at.0.selection, e, input.shift);
}

/// A drag of the Select tool draws a marquee exactly where it began over nothing,
/// and until the release no selection changes; a drag that began on an object is
/// left to the camera.
pub proof fn marquee_starts_in_the_void<P, S>(
    at: Step<P, S>,
    input: FrameInput<P, S>,
    scene: Scene,
)
    requires
        input.tool == ActiveTool::Select,
        at.0.transform is None && at.0.focused && !at.1.consumed,
        input.drag_started && input.dragged && input.has_press && !input.drag_stopped,
    ensures
        ({
            let r = step_marquee(at, input, scene);
            &&& r.0.box_anchor == input.empty_press
            &&& r.1.consumed <==> input.empty_press is Some
            &&& r.0.selection == at.0.selection
            &&& input.empty_press is None && at.1.camera is None && !input.clicked ==> step_camera(
                r,
                input,
            ).1.camera is Some
            &&& input.empty_press is Some && at.1.camera is None ==> step_camera(
                r,
                input,
            ).1.camera is None
        }),
{
}

/// Only the Select tool draws a marquee.
pub proof fn other_tools_draw_no_marquee<P, S>(
    at: Step<P, S>,
    input: FrameInput<P, S>,
    scene: Scene,
)
    requires
        input.tool != ActiveTool::Select || at.0.transform is Some || !at.0.focused
            || at.1.consumed,
    ensures
        step_marquee(at, input, scene) == at,
{
}

/// A plain click at an object selects that object and nothing else; with Ctrl it
/// changes whether that object is selected. A press that is used up, and a click
/// without a place, select nothing.
pub proof fn click_selects_what_it_hits<P, S>(
    at: Step<P, S>,
    input: FrameInput<P, S>,
    was_focused: bool,
    n: usize,
    hit: Hit,
    e: SelItem,
)
    requires
        input.clicked && !input.secondary_clicked && !input.shift,
        input.click_hit == Some(hit),
        !(e is Environment),
    ensures
        ({
            let r = step_clicks(at, input, was_focused, n).0;
            let live = !at.1.consumed && input.click_placed;
            &&& live && !input.ctrl ==> (holds(r.selection, e) <==> e == item_hit(hit))
            &&& live && !input.ctrl ==> holds(r.selection, item_hit(hit)) && !r.selection.world
            &&& live && input.ctrl ==> (holds(r.selection, e) <==> (holds(at.0.selection, e) != (e
                == item_hit(hit))))
            &&& !live ==> r.selection == at.0.selection && r.anchor == at.0.anchor
        }),
{
    plain_click_selects_the_hit(at.0.selection, at.0.anchor, hit, was_focused, n);
    ctrl_click_toggles_the_hit(at.0.selection, at.0.anchor, hit, was_focused, n, e);
}

/// A secondary click with Shift puts the 3D cursor where the click says, and
/// nothing else; without Shift it selects what it hits unless that is selected
/// already, and lets the menu open. The cursor stays then.
pub proof fn secondary_click_places_or_selects<P, S>(
    at: Step<P, S>,
    input: FrameInput<P, S>,
    was_focused: bool,
    n: usize,
    hit: Hit,
    p: P,
)
    requires
        !at.1.consumed && at.0.focused && !at.1.menu,
        input.secondary_clicked && !input.clicked && input.click_placed,
        input.secondary_hit == Some(hit),
        input.cursor_place == Some(p),
    ensures
        ({
            let r = step_clicks(at, input, was_focused, n);
            &&& input.shift ==> r.0.cursor_3d == p && r.0.cursor_3d_set && r.1.consumed && !r.1.menu
                && r.0.selection == at.0.selection
            &&& !input.shift ==> r.0.cursor_3d == at.0.cursor_3d && r.1.menu && !r.1.consumed
            &&& !input.shift && !(hit is Environment) ==> holds(r.0.selection, item_hit(hit))
            &&& !input.shift && holds(at.0.selection, item_hit(hit)) ==> r.0.selection
                == at.0.selection
        }),
{
    secondary_click_keeps_what_it_hits(at.0.selection, at.0.anchor, hit);
}

/// The Duplicate key opens the dialog for the first selected fixture and no other
/// time; Enter asks for the Library's item only in the focused viewport, with no
/// transform, dialog or text field in the way, and what was asked stays asked.
pub proof fn requests_come_from_their_keys<P, S>(
    at: Step<P, S>,
    input: FrameInput<P, S>,
    ov: OverridesView,
)
    requires
        at.0.duplicate is None,
    ensures
        ({
            let r = step_requests(at, input, ov);
            let cx = ActiveContext { viewport_focused: at.0.focused, transform_active: false };
            let pressed = fired_actions(input.keys@, cx, ov).contains(Action::Duplicate);
            let fixtures = at.0.selection.fixtures;
            let live = !at.1.consumed && at.0.focused;
            &&& live && pressed && fixtures.len() > 0 ==> r.0.duplicate == Some(fixtures[0])
            &&& !live || !pressed || fixtures.len() == 0 ==> r.0.duplicate is None
            &&& at.0.add_requested ==> r.0.add_requested
            &&& r.0.add_requested && !at.0.add_requested ==> live && input.enter && !input.text_focus
                && at.0.transform is None && r.0.duplicate is None
            &&& live && input.enter && !input.text_focus && at.0.transform is None && !pressed
                ==> r.0.add_requested
            &&& r.1 == at.1 && r.0.selection == at.0.selection
        }),
{
}

} // verus!
