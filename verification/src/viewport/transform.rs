//! A running transform: what it acts on, which way it constrains and snaps the
//! motion, and when it ends.

use vstd::prelude::*;
use crate::scene::{ObjectRef, Scene};
use crate::selection::{
    holds, item_of, listed_objects_are_selected, of_objects, Selection, SelectionView,
};
use crate::shortcuts::dispatch::ModalAction;
use crate::shortcuts::registry::{Axis, TransformKind};
use crate::viewport::num_input::{edited, NumInput, NumKeys, NumView};
use crate::xform::{PivotMode, SnapMode, SnapPolicy, TransformOrientation, TransformPrefs};

verus! {

/// The objects that a transform acts on, by kind, in selection order.
#[derive(Debug)]
pub struct Targets {
    pub fixtures: Vec<usize>,
    pub geometry: Vec<usize>,
    pub screens: Vec<usize>,
    pub pyro: Vec<usize>,
    pub environments: Vec<usize>,
}

/// What [`Targets`] are.
#[verifier::ext_equal]
pub struct TargetsView {
    pub fixtures: Seq<usize>,
    pub geometry: Seq<usize>,
    pub screens: Seq<usize>,
    pub pyro: Seq<usize>,
    pub environments: Seq<usize>,
}

impl View for Targets {
    type V = TargetsView;

    open spec fn view(&self) -> TargetsView {
        TargetsView {
            fixtures: self.fixtures@,
            geometry: self.geometry@,
            screens: self.screens@,
            pyro: self.pyro@,
            environments: self.environments@,
        }
    }
}

/// The indices below `n`, in order.
pub open spec fn kept_below(s: Seq<usize>, n: nat) -> Seq<usize> {
    s.filter(|i: usize| i < n)
}

/// The indices of `v` below `n`, in order.
pub fn below(v: &Vec<usize>, n: usize) -> (r: Vec<usize>)
    ensures
        r@ == kept_below(v@, n as nat),
{
    let mut out: Vec<usize> = Vec::new();
    let mut k: usize = 0;
    assert(v@.take(0).filter(|i: usize| i < n) =~= seq![]) by {
        reveal(Seq::filter);
    }
    while k < v.len()
        invariant
            k <= v@.len(),
            out@ == v@.take(k as int).filter(|i: usize| i < n as nat),
        decreases v@.len() - k,
    {
        reveal(Seq::filter);
        assert(v@.take(k + 1).drop_last() =~= v@.take(k as int));
        if v[k] < n {
            out.push(v[k]);
        }
        k = k + 1;
    }
    assert(v@.take(k as int) =~= v@);
    out
}

/// The selected objects that the scene holds.
pub open spec fn valid_targets(scene: Scene, s: SelectionView) -> TargetsView {
    TargetsView {
        fixtures: kept_below(s.fixtures, scene.fixtures@.len()),
        geometry: kept_below(s.geometry, scene.geometry@.len()),
        screens: kept_below(s.screens, scene.screens@.len()),
        pyro: kept_below(s.pyro, scene.pyro@.len()),
        environments: match s.environment {
            Some(i) => if i < scene.environments@.len() { seq![i] } else { seq![] },
            None => seq![],
        },
    }
}

/// The selected objects that the scene holds; a stale index is left out.
pub fn targets_of(scene: &Scene, selection: &Selection) -> (r: Targets)
    ensures
        r@ == valid_targets(*scene, selection@),
{
    let environments: Vec<usize> = match selection.environment {
        Some(i) => if i < scene.environments.len() {
            vec![i]
        } else {
            Vec::new()
        },
        None => Vec::new(),
    };
    let r = Targets {
        fixtures: below(&selection.fixtures, scene.fixtures.len()),
        geometry: below(&selection.geometry, scene.geometry.len()),
        screens: below(&selection.screens, scene.screens.len()),
        pyro: below(&selection.pyro, scene.pyro.len()),
        environments,
    };
    assert(r@ =~= valid_targets(*scene, selection@));
    r
}

/// The objects of all kinds in one list: fixtures, geometry, screens, pyro
/// devices, environments. The first is the active one.
pub open spec fn all_objects(t: TargetsView) -> Seq<ObjectRef> {
    t.fixtures.map_values(|i: usize| ObjectRef::Fixture(i)) + t.geometry.map_values(
        |i: usize| ObjectRef::Geometry(i),
    ) + t.screens.map_values(|i: usize| ObjectRef::Screen(i)) + t.pyro.map_values(
        |i: usize| ObjectRef::Pyro(i),
    ) + t.environments.map_values(|i: usize| ObjectRef::Environment(i))
}

/// The objects of all kinds in one list.
pub fn obj_refs(
    fids: &Vec<usize>,
    gids: &Vec<usize>,
    sids: &Vec<usize>,
    pids: &Vec<usize>,
    eids: &Vec<usize>,
) -> (r: Vec<ObjectRef>)
    ensures
        r@ == all_objects(
            (TargetsView {
                fixtures: fids@,
                geometry: gids@,
                screens: sids@,
                pyro: pids@,
                environments: eids@,
            }),
        ),
{
    let mut out: Vec<ObjectRef> = Vec::new();
    let ghost f = |i: usize| ObjectRef::Fixture(i);
    let mut k: usize = 0;
    while k < fids.len()
        invariant
            k <= fids@.len(),
            f == (|i: usize| ObjectRef::Fixture(i)),
            out@ == fids@.take(k as int).map_values(f),
        decreases fids@.len() - k,
    {
        out.push(ObjectRef::Fixture(fids[k]));
        assert(fids@.take(k + 1).map_values(f) =~= fids@.take(k as int).map_values(f).push(
            ObjectRef::Fixture(fids@[k as int]),
        ));
        k = k + 1;
    }
    assert(fids@.take(k as int) =~= fids@);
    let ghost done = out@;
    let ghost g = |i: usize| ObjectRef::Geometry(i);
    k = 0;
    while k < gids.len()
        invariant
            k <= gids@.len(),
            g == (|i: usize| ObjectRef::Geometry(i)),
            out@ == done + gids@.take(k as int).map_values(g),
        decreases gids@.len() - k,
    {
        out.push(ObjectRef::Geometry(gids[k]));
        assert(gids@.take(k + 1).map_values(g) =~= gids@.take(k as int).map_values(g).push(
            ObjectRef::Geometry(gids@[k as int]),
        ));
        k = k + 1;
    }
    assert(gids@.take(k as int) =~= gids@);
    let ghost done = out@;
    let ghost s = |i: usize| ObjectRef::Screen(i);
    k = 0;
    while k < sids.len()
        invariant
            k <= sids@.len(),
            s == (|i: usize| ObjectRef::Screen(i)),
            out@ == done + sids@.take(k as int).map_values(s),
        decreases sids@.len() - k,
    {
        out.push(ObjectRef::Screen(sids[k]));
        assert(sids@.take(k + 1).map_values(s) =~= sids@.take(k as int).map_values(s).push(
            ObjectRef::Screen(sids@[k as int]),
        ));
        k = k + 1;
    }
    assert(sids@.take(k as int) =~= sids@);
    let ghost done = out@;
    let ghost p = |i: usize| ObjectRef::Pyro(i);
    k = 0;
    while k < pids.len()
        invariant
            k <= pids@.len(),
            p == (|i: usize| ObjectRef::Pyro(i)),
            out@ == done + pids@.take(k as int).map_values(p),
        decreases pids@.len() - k,
    {
        out.push(ObjectRef::Pyro(pids[k]));
        assert(pids@.take(k + 1).map_values(p) =~= pids@.take(k as int).map_values(p).push(
            ObjectRef::Pyro(pids@[k as int]),
        ));
        k = k + 1;
    }
    assert(pids@.take(k as int) =~= pids@);
    let ghost done = out@;
    let ghost e = |i: usize| ObjectRef::Environment(i);
    k = 0;
    while k < eids.len()
        invariant
            k <= eids@.len(),
            e == (|i: usize| ObjectRef::Environment(i)),
            out@ == done + eids@.take(k as int).map_values(e),
        decreases eids@.len() - k,
    {
        out.push(ObjectRef::Environment(eids[k]));
        assert(eids@.take(k + 1).map_values(e) =~= eids@.take(k as int).map_values(e).push(
            ObjectRef::Environment(eids@[k as int]),
        ));
        k = k + 1;
    }
    assert(eids@.take(k as int) =~= eids@);
    out
}

/// A grabbed gizmo handle.
#[derive(Clone, Copy, Debug, PartialEq, Eq, Structural)]
pub struct HandleSpec {
    pub kind: TransformKind,
    /// The axis of the handle; the centre of the scale gizmo has none.
    pub axis: Option<Axis>,
    /// The axis that a plane handle holds still.
    pub plane_normal: Option<Axis>,
    /// Does the handle follow the view rather than an axis?
    pub view: bool,
}

/// How a transform starts.
#[derive(Clone, Copy, Debug, PartialEq, Eq, Structural)]
pub enum OpStart {
    /// By a key; a click or a key ends it.
    Modal(TransformKind),
    /// By dragging a gizmo handle; the release ends it.
    Gizmo(HandleSpec),
    /// By a duplication whose copies follow the pointer.
    Duplicate,
}

/// A running transform.
#[derive(Debug)]
pub struct TransformOp {
    pub kind: TransformKind,
    /// The axis lock.
    pub axis: Option<Axis>,
    /// The axis of the grabbed move handle. It overrides the lock.
    pub gizmo_hovered_axis: Option<Axis>,
    pub gizmo_plane_normal: Option<Axis>,
    pub gizmo_view: bool,
    pub from_gizmo: bool,
    pub num: NumInput,
    /// Does each element have its own pivot?
    pub individual: bool,
    pub snap: SnapPolicy,
    pub orientation: TransformOrientation,
    pub from_duplicate: bool,
    pub targets: Targets,
    /// The copies that a duplication made.
    pub dup_base: Vec<ObjectRef>,
    /// The further copies of the array, oldest first.
    pub dup_extra: Vec<ObjectRef>,
}

/// What a [`TransformOp`] is.
#[verifier::ext_equal]
pub struct OpView {
    pub kind: TransformKind,
    pub axis: Option<Axis>,
    pub gizmo_hovered_axis: Option<Axis>,
    pub gizmo_plane_normal: Option<Axis>,
    pub gizmo_view: bool,
    pub from_gizmo: bool,
    pub num: NumView,
    pub individual: bool,
    pub snap: SnapPolicy,
    pub orientation: TransformOrientation,
    pub from_duplicate: bool,
    pub targets: TargetsView,
    pub dup_base: Seq<ObjectRef>,
    pub dup_extra: Seq<ObjectRef>,
}

impl View for TransformOp {
    type V = OpView;

    open spec fn view(&self) -> OpView {
        OpView {
            kind: self.kind,
            axis: self.axis,
            gizmo_hovered_axis: self.gizmo_hovered_axis,
            gizmo_plane_normal: self.gizmo_plane_normal,
            gizmo_view: self.gizmo_view,
            from_gizmo: self.from_gizmo,
            num: self.num@,
            individual: self.individual,
            snap: self.snap,
            orientation: self.orientation,
            from_duplicate: self.from_duplicate,
            targets: self.targets@,
            dup_base: self.dup_base@,
            dup_extra: self.dup_extra@,
        }
    }
}

/// The kind of transform that a start asks for.
#[verifier::allow_in_spec]
pub fn start_kind(start: OpStart) -> TransformKind
    returns
        (match start {
            OpStart::Modal(k) => k,
            OpStart::Gizmo(h) => h.kind,
            OpStart::Duplicate => TransformKind::Move,
        }),
{
    match start {
        OpStart::Modal(k) => k,
        OpStart::Gizmo(h) => h.kind,
        OpStart::Duplicate => TransformKind::Move,
    }
}

/// The transform that `start` begins. A move handle locks through
/// `gizmo_hovered_axis`, a rotate or scale handle through `axis`.
pub open spec fn fresh_op(start: OpStart, targets: TargetsView, prefs: TransformPrefs) -> OpView {
    let moves = start_kind(start) == TransformKind::Move;
    OpView {
        kind: start_kind(start),
        axis: match start {
            OpStart::Gizmo(h) => if moves { None } else { h.axis },
            _ => None,
        },
        gizmo_hovered_axis: match start {
            OpStart::Gizmo(h) => if moves { h.axis } else { None },
            _ => None,
        },
        gizmo_plane_normal: match start {
            OpStart::Gizmo(h) => h.plane_normal,
            _ => None,
        },
        gizmo_view: match start {
            OpStart::Gizmo(h) => h.view,
            _ => false,
        },
        from_gizmo: start is Gizmo,
        num: NumView { text: seq![], sign: false, active: false },
        individual: prefs.pivot == PivotMode::Individual,
        snap: prefs.snap,
        orientation: prefs.orientation,
        from_duplicate: start is Duplicate,
        targets,
        dup_base: if start is Duplicate { all_objects(targets) } else { seq![] },
        dup_extra: seq![],
    }
}

/// Begin a transform of the selection: none where nothing that is selected
/// is in the scene.
pub fn begin(
    start: OpStart,
    scene: &Scene,
    selection: &Selection,
    prefs: TransformPrefs,
) -> (r: Option<TransformOp>)
    ensures
        all_objects(valid_targets(*scene, selection@)).len() == 0 ==> r is None,
        all_objects(valid_targets(*scene, selection@)).len() > 0 ==> r is Some && r->0@ == fresh_op(
            start,
            valid_targets(*scene, selection@),
            prefs,
        ) && r->0.wf(),
{
    let targets = targets_of(scene, selection);
    let objs = obj_refs(
        &targets.fixtures,
        &targets.geometry,
        &targets.screens,
        &targets.pyro,
        &targets.environments,
    );
    if objs.len() == 0 {
        return None;
    }
    let moves = start_kind(start) == TransformKind::Move;
    let (axis, hovered, normal, view, from_gizmo) = match start {
        OpStart::Gizmo(h) => if moves {
            (None, h.axis, h.plane_normal, h.view, true)
        } else {
            (h.axis, None, h.plane_normal, h.view, true)
        },
        _ => (None, None, None, false, false),
    };
    let from_duplicate = match start {
        OpStart::Duplicate => true,
        _ => false,
    };
    let r = TransformOp {
        kind: start_kind(start),
        axis,
        gizmo_hovered_axis: hovered,
        gizmo_plane_normal: normal,
        gizmo_view: view,
        from_gizmo,
        num: NumInput::default(),
        individual: prefs.pivot.is_individual(),
        snap: prefs.snap,
        orientation: prefs.orientation,
        from_duplicate,
        targets,
        dup_base: if from_duplicate {
            objs
        } else {
            Vec::new()
        },
        dup_extra: Vec::new(),
    };
    assert(r@ =~= fresh_op(start, valid_targets(*scene, selection@), prefs));
    Some(r)
}

/// The path that a move takes.
#[derive(Clone, Copy, Debug, PartialEq, Eq, Structural)]
pub enum MovePath {
    /// The typed amount along the axis.
    Typed(Axis),
    /// On the plane that faces the viewer.
    ViewPlane,
    /// On the plane through the pivot with that normal.
    Plane(Axis),
    /// Along the axis, to where the pointer's ray comes closest.
    AlongRay(Axis),
    /// With the pointer, as far as the axis lock lets it.
    Free(Option<Axis>),
}

/// What becomes of a move's free amount when it is committed.
#[derive(Clone, Copy, Debug, PartialEq, Eq, Structural)]
pub enum SnapStep {
    /// The first element goes to the node under the pointer.
    ToNode,
    /// The first element goes to the surface under the pointer.
    ToSurface,
    /// The amount stays as it is.
    Free,
    /// The length along the axis goes to the nearest increment.
    AlongAxis(Axis),
    /// Each component goes to the nearest increment.
    PerComponent,
}

/// What a rotation turns about.
#[derive(Clone, Copy, Debug, PartialEq, Eq, Structural)]
pub enum RotateAbout {
    /// The camera's forward direction.
    View,
    /// The axis in the orientation's basis.
    Axis(Axis),
}

/// Where the basis of the transform's axes comes from.
#[derive(Clone, Copy, Debug, PartialEq, Eq, Structural)]
pub enum BasisSource {
    World,
    Camera,
    /// The orientation that the object had at the start.
    Object(ObjectRef),
}

/// Where the pivot comes from.
#[derive(Clone, Copy, Debug, PartialEq, Eq, Structural)]
pub enum PivotSource {
    Cursor,
    /// The object's origin.
    Object(ObjectRef),
    /// The mean of the objects' origins.
    Centroid,
    /// The world's origin.
    Origin,
}

/// Where the pivot of a selection comes from. Individual origins have no single
/// pivot and take the median's.
pub open spec fn pivot_from(mode: PivotMode, objs: Seq<ObjectRef>) -> PivotSource {
    if mode == PivotMode::Cursor3d {
        PivotSource::Cursor
    } else if objs.len() == 0 {
        PivotSource::Origin
    } else if mode == PivotMode::Active {
        PivotSource::Object(objs[0])
    } else {
        PivotSource::Centroid
    }
}

/// Where the pivot of a selection comes from.
pub fn pivot_source(mode: PivotMode, objs: &Vec<ObjectRef>) -> (r: PivotSource)
    ensures
        r == pivot_from(mode, objs@),
{
    if mode == PivotMode::Cursor3d {
        PivotSource::Cursor
    } else if objs.len() == 0 {
        PivotSource::Origin
    } else if mode == PivotMode::Active {
        PivotSource::Object(objs[0])
    } else {
        PivotSource::Centroid
    }
}

/// The axis that constrains a transform: the grabbed handle's before the lock.
pub open spec fn constraint(op: OpView) -> Option<Axis> {
    match op.gizmo_hovered_axis {
        Some(a) => Some(a),
        None => op.axis,
    }
}

/// Does the typed number take over from the mouse? During a duplication it is
/// the count of copies, and the mouse moves them.
pub open spec fn number_rules(op: OpView) -> bool {
    op.num.active && !op.from_duplicate
}

/// The path that a move takes. `framed` says that the viewport has an area.
pub open spec fn path_of_move(op: OpView, framed: bool) -> MovePath {
    let axis = constraint(op);
    if number_rules(op) {
        MovePath::Typed(
            match axis {
                Some(a) => a,
                None => Axis::X,
            },
        )
    } else if op.from_gizmo && framed && op.gizmo_view {
        MovePath::ViewPlane
    } else if op.from_gizmo && framed && op.gizmo_plane_normal is Some {
        MovePath::Plane(op.gizmo_plane_normal->0)
    } else if op.from_gizmo && framed && axis is Some {
        MovePath::AlongRay(axis->0)
    } else {
        MovePath::Free(axis)
    }
}

/// What becomes of a move's amount. `node` and `surface` say what is under the
/// pointer. Only a move with a fixture among its targets can go to either; for a
/// surface that is not there, or without a fixture to put on it, the amount
/// stays free.
pub open spec fn snap_of_move(op: OpView, engaged: bool, node: bool, surface: bool) -> SnapStep {
    let primary = op.targets.fixtures.len() > 0;
    if !engaged {
        SnapStep::Free
    } else if op.snap.mode == SnapMode::Vertex && primary {
        if node { SnapStep::ToNode } else { SnapStep::Free }
    } else if op.snap.mode == SnapMode::Surface {
        if primary && surface { SnapStep::ToSurface } else { SnapStep::Free }
    } else if constraint(op) is Some && op.orientation != TransformOrientation::Global {
        SnapStep::AlongAxis(constraint(op)->0)
    } else {
        SnapStep::PerComponent
    }
}

/// The first object of a list of one kind.
pub open spec fn first_target(t: TargetsView) -> Option<ObjectRef> {
    if all_objects(t).len() > 0 { Some(all_objects(t)[0]) } else { None }
}

/// What a rotation turns about: the view for a view handle, else the constraint,
/// else the vertical axis.
pub open spec fn turns_about(op: OpView) -> RotateAbout {
    if op.from_gizmo && op.gizmo_view {
        RotateAbout::View
    } else {
        RotateAbout::Axis(
            match constraint(op) {
                Some(a) => a,
                None => Axis::Y,
            },
        )
    }
}

/// Where the basis of the transform's axes comes from: for the local
/// orientation, the first fixture, else the first piece of geometry or screen.
pub open spec fn basis_of(op: OpView) -> BasisSource {
    match op.orientation {
        TransformOrientation::Global => BasisSource::World,
        TransformOrientation::View => BasisSource::Camera,
        TransformOrientation::Local => if op.targets.fixtures.len() > 0 {
            BasisSource::Object(ObjectRef::Fixture(op.targets.fixtures[0]))
        } else if op.targets.geometry.len() > 0 {
            BasisSource::Object(ObjectRef::Geometry(op.targets.geometry[0]))
        } else if op.targets.screens.len() > 0 {
            BasisSource::Object(ObjectRef::Screen(op.targets.screens[0]))
        } else {
            BasisSource::World
        },
    }
}

/// The object whose place the snap marker shows while a snapped move runs: the
/// first fixture, else the first piece of geometry.
pub open spec fn marked_object(op: OpView, engaged: bool) -> Option<ObjectRef> {
    if op.kind != TransformKind::Move || !engaged {
        None
    } else if op.targets.fixtures.len() > 0 {
        Some(ObjectRef::Fixture(op.targets.fixtures[0]))
    } else if op.targets.geometry.len() > 0 {
        Some(ObjectRef::Geometry(op.targets.geometry[0]))
    } else {
        None
    }
}

/// The lock after a press of an axis key: the same axis again releases it.
pub open spec fn lock_pressed(lock: Option<Axis>, axis: Axis) -> Option<Axis> {
    if lock == Some(axis) { None } else { Some(axis) }
}

/// The axis that a modal key locks.
#[verifier::allow_in_spec]
pub fn locked_axis(action: ModalAction) -> Option<Axis>
    returns
        (match action {
            ModalAction::ConstrainX => Some(Axis::X),
            ModalAction::ConstrainY => Some(Axis::Y),
            ModalAction::ConstrainZ => Some(Axis::Z),
            _ => None,
        }),
{
    match action {
        ModalAction::ConstrainX => Some(Axis::X),
        ModalAction::ConstrainY => Some(Axis::Y),
        ModalAction::ConstrainZ => Some(Axis::Z),
        _ => None,
    }
}

/// The lock after a frame's modal keys.
pub open spec fn lock_after(lock: Option<Axis>, actions: Seq<ModalAction>) -> Option<Axis>
    decreases actions.len(),
{
    if actions.len() == 0 {
        lock
    } else {
        let before = lock_after(lock, actions.drop_last());
        match locked_axis(actions.last()) {
            Some(a) => lock_pressed(before, a),
            None => before,
        }
    }
}

/// What the pointer does over the viewport in one frame.
#[derive(Clone, Copy, Debug, PartialEq, Eq, Structural)]
pub struct ModalPointer {
    pub clicked: bool,
    pub secondary_clicked: bool,
    pub drag_stopped: bool,
    pub primary_down: bool,
}

/// How a frame leaves a running transform.
#[derive(Clone, Copy, Debug, PartialEq, Eq, Structural)]
pub enum ModalOutcome {
    Running,
    /// The objects go back to where they were.
    Cancelled,
    Confirmed,
}

/// How a frame leaves a running transform. The Cancel key, a secondary click
/// and losing the focus cancel, and nothing confirms then. A handle's drag
/// confirms on release, a modal transform on a click or the Confirm key.
pub open spec fn outcome_of(
    op: OpView,
    actions: Seq<ModalAction>,
    pointer: ModalPointer,
    focused: bool,
) -> ModalOutcome {
    if actions.contains(ModalAction::Cancel) || pointer.secondary_clicked || !focused {
        ModalOutcome::Cancelled
    } else if op.from_gizmo && (pointer.drag_stopped || !pointer.primary_down) {
        ModalOutcome::Confirmed
    } else if !op.from_gizmo && (actions.contains(ModalAction::Confirm) || pointer.clicked) {
        ModalOutcome::Confirmed
    } else {
        ModalOutcome::Running
    }
}

/// Is the action among them?
pub fn holds_action(actions: &Vec<ModalAction>, action: ModalAction) -> (r: bool)
    ensures
        r == actions@.contains(action),
{
    let mut k: usize = 0;
    while k < actions.len()
        invariant
            k <= actions@.len(),
            forall|j: int| 0 <= j < k ==> #[trigger] actions@[j] != action,
        decreases actions@.len() - k,
    {
        if actions[k] == action {
            assert(actions@[k as int] == action);
            return true;
        }
        k = k + 1;
    }
    false
}

impl TransformOp {
    /// The typed number is well-formed.
    pub open spec fn wf(self) -> bool {
        self.num.wf()
    }

    /// The axis that constrains the transform.
    pub fn active_axis(&self) -> (r: Option<Axis>)
        ensures
            r == constraint(self@),
    {
        match self.gizmo_hovered_axis {
            Some(a) => Some(a),
            None => self.axis,
        }
    }

    /// Does the typed number take over from the mouse?
    pub fn number_rules(&self) -> (r: bool)
        ensures
            r == number_rules(self@),
    {
        self.num.active && !self.from_duplicate
    }

    /// The path that a move takes.
    pub fn move_path(&self, framed: bool) -> (r: MovePath)
        ensures
            r == path_of_move(self@, framed),
    {
        let axis = self.active_axis();
        if self.number_rules() {
            return MovePath::Typed(
                match axis {
                    Some(a) => a,
                    None => Axis::X,
                },
            );
        }
        if self.from_gizmo && framed {
            if self.gizmo_view {
                return MovePath::ViewPlane;
            }
            if let Some(n) = self.gizmo_plane_normal {
                return MovePath::Plane(n);
            }
            if let Some(a) = axis {
                return MovePath::AlongRay(a);
            }
        }
        MovePath::Free(axis)
    }

    /// What becomes of a move's amount.
    pub fn snap_step(&self, engaged: bool, node: bool, surface: bool) -> (r: SnapStep)
        ensures
            r == snap_of_move(self@, engaged, node, surface),
    {
        let primary = self.targets.fixtures.len() > 0;
        if !engaged {
            return SnapStep::Free;
        }
        if self.snap.mode == SnapMode::Vertex && primary {
            return if node {
                SnapStep::ToNode
            } else {
                SnapStep::Free
            };
        }
        if self.snap.mode == SnapMode::Surface {
            return if primary && surface {
                SnapStep::ToSurface
            } else {
                SnapStep::Free
            };
        }
        if self.orientation != TransformOrientation::Global {
            if let Some(a) = self.active_axis() {
                return SnapStep::AlongAxis(a);
            }
        }
        SnapStep::PerComponent
    }

    /// What a rotation turns about: the view for a view handle, else the
    /// constraint, else the vertical axis.
    pub fn rotate_about(&self) -> (r: RotateAbout)
        ensures
            r == turns_about(self@),
            r == (if self.gizmo_view && self.from_gizmo {
                RotateAbout::View
            } else {
                RotateAbout::Axis(
                    match constraint(self@) {
                        Some(a) => a,
                        None => Axis::Y,
                    },
                )
            }),
    {
        if self.gizmo_view && self.from_gizmo {
            return RotateAbout::View;
        }
        RotateAbout::Axis(
            match self.active_axis() {
                Some(a) => a,
                None => Axis::Y,
            },
        )
    }

    /// Where the basis of the axes comes from.
    pub fn basis_source(&self) -> (r: BasisSource)
        ensures
            r == basis_of(self@),
    {
        match self.orientation {
            TransformOrientation::Global => BasisSource::World,
            TransformOrientation::View => BasisSource::Camera,
            TransformOrientation::Local => if self.targets.fixtures.len() > 0 {
                BasisSource::Object(ObjectRef::Fixture(self.targets.fixtures[0]))
            } else if self.targets.geometry.len() > 0 {
                BasisSource::Object(ObjectRef::Geometry(self.targets.geometry[0]))
            } else if self.targets.screens.len() > 0 {
                BasisSource::Object(ObjectRef::Screen(self.targets.screens[0]))
            } else {
                BasisSource::World
            },
        }
    }

    /// The object whose place the snap marker shows.
    pub fn snap_preview_object(&self, engaged: bool) -> (r: Option<ObjectRef>)
        ensures
            r == marked_object(self@, engaged),
    {
        if self.kind != TransformKind::Move || !engaged {
            None
        } else if self.targets.fixtures.len() > 0 {
            Some(ObjectRef::Fixture(self.targets.fixtures[0]))
        } else if self.targets.geometry.len() > 0 {
            Some(ObjectRef::Geometry(self.targets.geometry[0]))
        } else {
            None
        }
    }

    /// The object whose motion spaces the copies of an array: the first target.
    pub fn primary_target(&self) -> (r: Option<ObjectRef>)
        ensures
            r == first_target(self@.targets),
    {
        let t = &self.targets;
        if t.fixtures.len() > 0 {
            assert(all_objects(self@.targets)[0] == ObjectRef::Fixture(t.fixtures@[0]));
            Some(ObjectRef::Fixture(t.fixtures[0]))
        } else if t.geometry.len() > 0 {
            assert(all_objects(self@.targets)[0] == ObjectRef::Geometry(t.geometry@[0]));
            Some(ObjectRef::Geometry(t.geometry[0]))
        } else if t.screens.len() > 0 {
            assert(all_objects(self@.targets)[0] == ObjectRef::Screen(t.screens@[0]));
            Some(ObjectRef::Screen(t.screens[0]))
        } else if t.pyro.len() > 0 {
            assert(all_objects(self@.targets)[0] == ObjectRef::Pyro(t.pyro@[0]));
            Some(ObjectRef::Pyro(t.pyro[0]))
        } else if t.environments.len() > 0 {
            assert(all_objects(self@.targets)[0] == ObjectRef::Environment(t.environments@[0]));
            Some(ObjectRef::Environment(t.environments[0]))
        } else {
            None
        }
    }

    /// A frame of a running transform: the number keys, the axis keys, then
    /// whether it ends.
    pub fn modal_step(
        &mut self,
        keys: &NumKeys,
        actions: &Vec<ModalAction>,
        pointer: ModalPointer,
        focused: bool,
    ) -> (r: ModalOutcome)
        requires
            old(self).wf(),
        ensures
            final(self)@ == (OpView {
                num: edited(old(self)@.num, *keys),
                axis: lock_after(old(self)@.axis, actions@),
                ..old(self)@
            }),
            final(self).wf(),
            r == outcome_of(old(self)@, actions@, pointer, focused),
    {
        self.num.edit(keys);
        let ghost start = self.axis;
        let mut axis = self.axis;
        let mut k: usize = 0;
        assert(actions@.take(0) =~= seq![]);
        while k < actions.len()
            invariant
                k <= actions@.len(),
                axis == lock_after(start, actions@.take(k as int)),
            decreases actions@.len() - k,
        {
            assert(actions@.take(k + 1).drop_last() =~= actions@.take(k as int));
            if let Some(a) = locked_axis(actions[k]) {
                axis = if axis == Some(a) {
                    None
                } else {
                    Some(a)
                };
            }
            k = k + 1;
        }
        assert(actions@.take(k as int) =~= actions@);
        self.axis = axis;
        assert(self@ =~= (OpView {
            num: edited(old(self)@.num, *keys),
            axis: lock_after(old(self)@.axis, actions@),
            ..old(self)@
        }));
        if holds_action(actions, ModalAction::Cancel) || pointer.secondary_clicked || !focused {
            return ModalOutcome::Cancelled;
        }
        let confirm = if self.from_gizmo {
            pointer.drag_stopped || !pointer.primary_down
        } else {
            holds_action(actions, ModalAction::Confirm) || pointer.clicked
        };
        if confirm {
            ModalOutcome::Confirmed
        } else {
            ModalOutcome::Running
        }
    }

    /// What is selected once the transform is confirmed: after a duplication
    /// the copies and the copies of the array, else what was selected.
    pub fn confirmed_selection(&self, selection: &Selection) -> (r: Selection)
        ensures
            r@ == selected_once_confirmed(self@, selection@),
            r@ == (if self.from_duplicate {
                of_objects(self.dup_base@ + self.dup_extra@)
            } else {
                selection@
            }),
    {
        if !self.from_duplicate {
            return selection.copy();
        }
        let mut all: Vec<ObjectRef> = Vec::new();
        let mut k: usize = 0;
        while k < self.dup_base.len()
            invariant
                k <= self.dup_base@.len(),
                all@ == self.dup_base@.take(k as int),
            decreases self.dup_base@.len() - k,
        {
            all.push(self.dup_base[k]);
            assert(all@ =~= self.dup_base@.take(k + 1));
            k = k + 1;
        }
        k = 0;
        while k < self.dup_extra.len()
            invariant
                k <= self.dup_extra@.len(),
                all@ == self.dup_base@ + self.dup_extra@.take(k as int),
            decreases self.dup_extra@.len() - k,
        {
            all.push(self.dup_extra[k]);
            assert(all@ =~= self.dup_base@ + self.dup_extra@.take(k + 1));
            k = k + 1;
        }
        assert(all@ =~= self.dup_base@ + self.dup_extra@);
        Selection::from_object_refs(&all)
    }
}

/// Pressing the key of the locked axis releases it, and pressing it again locks
/// it again.
pub proof fn axis_key_twice(lock: Option<Axis>, axis: Axis)
    ensures
        lock_pressed(lock_pressed(lock, axis), axis) == (if lock == Some(axis) {
            Some(axis)
        } else {
            None
        }),
{
}

/// A transform cannot outlive the viewport's focus: without it the outcome is
/// a cancel whatever else happens.
pub proof fn unfocused_transform_ends(
    op: OpView,
    actions: Seq<ModalAction>,
    pointer: ModalPointer,
)
    ensures
        outcome_of(op, actions, pointer, false) == ModalOutcome::Cancelled,
{
}

/// A typed number overrides the mouse on every path of a move, except during a
/// duplication, where the mouse always moves the copies.
pub proof fn typed_number_overrides_the_mouse(op: OpView, framed: bool)
    ensures
        path_of_move(op, framed) is Typed <==> op.num.active && !op.from_duplicate,
{
}

/// What is selected once a transform is confirmed.
pub open spec fn selected_once_confirmed(op: OpView, s: SelectionView) -> SelectionView {
    if op.from_duplicate { of_objects(op.dup_base + op.dup_extra) } else { s }
}

/// A handle's drag lasts as long as the button is held: in a frame with the focus
/// and without a cancel the transform runs while the primary button is down and
/// the drag goes on, and is confirmed once the drag has stopped or the button is
/// up. Neither a click nor the Confirm key ends it sooner.
pub proof fn handle_drag_ends_with_the_release(
    op: OpView,
    actions: Seq<ModalAction>,
    pointer: ModalPointer,
)
    requires
        op.from_gizmo,
        !actions.contains(ModalAction::Cancel),
        !pointer.secondary_clicked,
    ensures
        pointer.primary_down && !pointer.drag_stopped ==> outcome_of(op, actions, pointer, true)
            == ModalOutcome::Running,
        pointer.drag_stopped || !pointer.primary_down ==> outcome_of(op, actions, pointer, true)
            == ModalOutcome::Confirmed,
{
}

/// A transform that a key or a duplication started is confirmed by a click or the
/// Confirm key and by nothing else: the pointer may be held or let go meanwhile.
pub proof fn keyed_transform_ends_by_click_or_key(
    op: OpView,
    actions: Seq<ModalAction>,
    pointer: ModalPointer,
)
    requires
        !op.from_gizmo,
        !actions.contains(ModalAction::Cancel),
        !pointer.secondary_clicked,
    ensures
        pointer.clicked ==> outcome_of(op, actions, pointer, true) == ModalOutcome::Confirmed,
        actions.contains(ModalAction::Confirm) ==> outcome_of(op, actions, pointer, true)
            == ModalOutcome::Confirmed,
        !pointer.clicked && !actions.contains(ModalAction::Confirm) ==> outcome_of(
            op,
            actions,
            pointer,
            true,
        ) == ModalOutcome::Running,
{
}

/// The Cancel key, a secondary click and the lost focus cancel any transform, even
/// in the frame that would confirm it, and nothing else does.
pub proof fn cancelling_wins(
    op: OpView,
    actions: Seq<ModalAction>,
    pointer: ModalPointer,
    focused: bool,
)
    ensures
        actions.contains(ModalAction::Cancel) ==> outcome_of(op, actions, pointer, focused)
            == ModalOutcome::Cancelled,
        pointer.secondary_clicked ==> outcome_of(op, actions, pointer, focused)
            == ModalOutcome::Cancelled,
        outcome_of(op, actions, pointer, focused) == ModalOutcome::Cancelled ==> actions.contains(
            ModalAction::Cancel,
        ) || pointer.secondary_clicked || !focused,
{
}

/// An axis key locks its own axis, after whatever keys came before it in the
/// frame, and releases it where those left it locked.
pub proof fn axis_key_locks_its_axis(lock: Option<Axis>, before: Seq<ModalAction>, axis: Axis)
    ensures
        ({
            let key = match axis {
                Axis::X => ModalAction::ConstrainX,
                Axis::Y => ModalAction::ConstrainY,
                Axis::Z => ModalAction::ConstrainZ,
            };
            let pressed = lock_after(lock, before.push(key));
            &&& lock_after(lock, before) == Some(axis) ==> pressed is None
            &&& lock_after(lock, before) != Some(axis) ==> pressed == Some(axis)
        }),
{
    assert(before.push(ModalAction::ConstrainX).drop_last() =~= before);
    assert(before.push(ModalAction::ConstrainY).drop_last() =~= before);
    assert(before.push(ModalAction::ConstrainZ).drop_last() =~= before);
}

/// The other keys leave the lock as it is.
pub proof fn other_keys_keep_the_lock(lock: Option<Axis>, actions: Seq<ModalAction>)
    requires
        forall|k: int|
            0 <= k < actions.len() ==> (#[trigger] actions[k] == ModalAction::Confirm || actions[k]
                == ModalAction::Cancel),
    ensures
        lock_after(lock, actions) == lock,
    decreases actions.len(),
{
    if actions.len() > 0 {
        let front = actions.drop_last();
        assert forall|k: int| 0 <= k < front.len() implies (#[trigger] front[k]
            == ModalAction::Confirm || front[k] == ModalAction::Cancel) by {
            assert(actions[k] == front[k]);
        }
        other_keys_keep_the_lock(lock, front);
        assert(actions.last() == actions[actions.len() - 1]);
    }
}

/// A grabbed handle constrains the transform to its own axis, of whatever kind it
/// is, and a move handle keeps doing so whatever axis is locked later.
pub proof fn handle_constrains_to_its_axis(
    h: HandleSpec,
    targets: TargetsView,
    prefs: TransformPrefs,
    lock: Option<Axis>,
)
    ensures
        ({
            let op = fresh_op(OpStart::Gizmo(h), targets, prefs);
            &&& op.from_gizmo && !op.from_duplicate
            &&& op.kind == h.kind
            &&& constraint(op) == h.axis
            &&& h.kind == TransformKind::Move && h.axis is Some ==> constraint(
                OpView { axis: lock, ..op },
            ) == h.axis
            &&& h.kind != TransformKind::Move ==> constraint(OpView { axis: lock, ..op }) == lock
        }),
{
}

/// Where a dragged move handle takes the objects: an axis handle along its axis, a
/// plane handle over the plane whose normal it names, a view handle over the plane
/// that faces the viewer. The lock does not divert it.
pub proof fn move_handle_goes_its_way(
    h: HandleSpec,
    targets: TargetsView,
    prefs: TransformPrefs,
    lock: Option<Axis>,
)
    requires
        h.kind == TransformKind::Move,
    ensures
        ({
            let op = OpView { axis: lock, ..fresh_op(OpStart::Gizmo(h), targets, prefs) };
            &&& h.view ==> path_of_move(op, true) == MovePath::ViewPlane
            &&& !h.view && h.plane_normal is Some ==> path_of_move(op, true) == MovePath::Plane(
                h.plane_normal->0,
            )
            &&& !h.view && h.plane_normal is None && h.axis is Some ==> path_of_move(op, true)
                == MovePath::AlongRay(h.axis->0)
            &&& h.axis is Some ==> path_of_move(op, false) == MovePath::Free(h.axis)
        }),
{
}

/// A transform that a key starts is free until an axis key locks it: then a move
/// stays on that axis, and a rotation turns about it. Free, a rotation turns about
/// the vertical axis.
pub proof fn keyed_transform_follows_the_lock(
    kind: TransformKind,
    targets: TargetsView,
    prefs: TransformPrefs,
    axis: Axis,
    framed: bool,
)
    ensures
        ({
            let op = fresh_op(OpStart::Modal(kind), targets, prefs);
            let locked = OpView { axis: Some(axis), ..op };
            &&& op.kind == kind && !op.from_gizmo && !op.from_duplicate
            &&& path_of_move(op, framed) == MovePath::Free(None)
            &&& path_of_move(locked, framed) == MovePath::Free(Some(axis))
            &&& turns_about(op) == RotateAbout::Axis(Axis::Y)
            &&& turns_about(locked) == RotateAbout::Axis(axis)
        }),
{
}

/// A rotation handle turns about its own axis, a view handle about the view.
pub proof fn rotation_handle_turns_its_way(
    h: HandleSpec,
    targets: TargetsView,
    prefs: TransformPrefs,
)
    ensures
        ({
            let op = fresh_op(OpStart::Gizmo(h), targets, prefs);
            &&& h.view ==> turns_about(op) == RotateAbout::View
            &&& !h.view && h.axis is Some ==> turns_about(op) == RotateAbout::Axis(h.axis->0)
        }),
{
}

/// A typed amount goes along the constraint, and along the first axis where there
/// is none.
pub proof fn typed_amount_goes_along_the_constraint(op: OpView, framed: bool)
    requires
        op.num.active,
        !op.from_duplicate,
    ensures
        op.gizmo_hovered_axis is Some ==> path_of_move(op, framed) == MovePath::Typed(
            op.gizmo_hovered_axis->0,
        ),
        op.gizmo_hovered_axis is None && op.axis is Some ==> path_of_move(op, framed)
            == MovePath::Typed(op.axis->0),
        op.gizmo_hovered_axis is None && op.axis is None ==> path_of_move(op, framed)
            == MovePath::Typed(Axis::X),
{
}

/// A transform starts afresh: no number typed, no copies beyond those of the
/// duplication, snapping and orientation as the preferences have them, and a pivot
/// of its own for each element exactly where they ask for individual origins.
pub proof fn transform_starts_afresh(start: OpStart, targets: TargetsView, prefs: TransformPrefs)
    ensures
        ({
            let op = fresh_op(start, targets, prefs);
            &&& op.num.text.len() == 0 && !op.num.sign && !op.num.active
            &&& op.dup_extra.len() == 0
            &&& op.snap == prefs.snap
            &&& op.orientation == prefs.orientation
            &&& op.individual <==> prefs.pivot == PivotMode::Individual
            &&& op.targets == targets
            &&& op.from_duplicate <==> start == OpStart::Duplicate
            &&& op.from_duplicate ==> op.kind == TransformKind::Move && op.dup_base == all_objects(
                targets,
            )
            &&& !op.from_duplicate ==> op.dup_base.len() == 0
            &&& !(start is Gizmo) ==> !op.gizmo_view && op.gizmo_plane_normal is None
                && op.gizmo_hovered_axis is None && op.axis is None
        }),
{
}

/// A snapped move goes to the node or the surface under the pointer where the mode
/// asks for that and a fixture is moved, and otherwise to the increments; along the
/// constraint where the axes are not the world's. Without snapping it stays free.
pub proof fn snapping_follows_its_mode(op: OpView, engaged: bool, node: bool, surface: bool)
    ensures
        ({
            let step = snap_of_move(op, engaged, node, surface);
            let fixtures = op.targets.fixtures.len() > 0;
            &&& !engaged ==> step == SnapStep::Free
            &&& step == SnapStep::ToNode <==> engaged && op.snap.mode == SnapMode::Vertex && fixtures
                && node
            &&& step == SnapStep::ToSurface <==> engaged && op.snap.mode == SnapMode::Surface
                && fixtures && surface
            &&& engaged && op.snap.mode == SnapMode::Increment ==> step is AlongAxis || step
                == SnapStep::PerComponent
            &&& step matches SnapStep::AlongAxis(a) ==> constraint(op) == Some(a) && op.orientation
                != TransformOrientation::Global
            &&& step == SnapStep::PerComponent ==> constraint(op) is None || op.orientation
                == TransformOrientation::Global
            &&& step == SnapStep::Free && engaged ==> op.snap.mode != SnapMode::Increment
        }),
{
}

/// The pivot: the cursor where the mode says so, else an origin of the selection.
/// The active element is the first of the list.
pub proof fn pivot_follows_its_mode(mode: PivotMode, objs: Seq<ObjectRef>)
    ensures
        pivot_from(mode, objs) == PivotSource::Cursor <==> mode == PivotMode::Cursor3d,
        pivot_from(mode, objs) == PivotSource::Origin <==> mode != PivotMode::Cursor3d && objs.len()
            == 0,
        pivot_from(mode, objs) is Object <==> mode == PivotMode::Active && objs.len() > 0,
        pivot_from(mode, objs) matches PivotSource::Object(o) ==> o == objs[0],
        objs.len() > 0 && (mode == PivotMode::Median || mode == PivotMode::Individual)
            ==> pivot_from(mode, objs) == PivotSource::Centroid,
{
}

/// The axes of the transform: the world's, the camera's, or for the local
/// orientation those of a target, the fixtures before the geometry and that before
/// the screens.
pub proof fn axes_follow_the_orientation(op: OpView)
    ensures
        op.orientation == TransformOrientation::Global ==> basis_of(op) == BasisSource::World,
        op.orientation == TransformOrientation::View ==> basis_of(op) == BasisSource::Camera,
        op.orientation == TransformOrientation::Local && op.targets.pyro.len() == 0
            && op.targets.environments.len() == 0 && all_objects(op.targets).len() > 0 ==> basis_of(
            op,
        ) == BasisSource::Object(all_objects(op.targets)[0]),
        basis_of(op) matches BasisSource::Object(o) ==> op.orientation
            == TransformOrientation::Local && all_objects(op.targets).contains(o),
{
    let all = all_objects(op.targets);
    let f = op.targets.fixtures.len() as int;
    let g = op.targets.geometry.len() as int;
    if f > 0 {
        assert(all[0] == ObjectRef::Fixture(op.targets.fixtures[0]));
    } else if g > 0 {
        assert(all[f] == ObjectRef::Geometry(op.targets.geometry[0]));
    } else if op.targets.screens.len() > 0 {
        assert(all[f + g] == ObjectRef::Screen(op.targets.screens[0]));
    }
}

/// The snap marker shows for a snapped move alone, at a fixture or a piece of
/// geometry that moves, a fixture first.
pub proof fn marker_shows_what_snaps(op: OpView, engaged: bool)
    ensures
        ({
            let marked = marked_object(op, engaged);
            &&& marked is Some <==> op.kind == TransformKind::Move && engaged && (
            op.targets.fixtures.len() > 0 || op.targets.geometry.len() > 0)
            &&& marked is Some && op.targets.fixtures.len() > 0 ==> marked == Some(
                ObjectRef::Fixture(op.targets.fixtures[0]),
            )
            &&& marked is Some ==> marked == first_target(op.targets)
        }),
{
    let all = all_objects(op.targets);
    if op.targets.fixtures.len() > 0 {
        assert(all[0] == ObjectRef::Fixture(op.targets.fixtures[0]));
    } else if op.targets.geometry.len() > 0 {
        assert(all[0] == ObjectRef::Geometry(op.targets.geometry[0]));
    }
}

proof fn lemma_kept_below(s: Seq<usize>, n: nat)
    ensures
        forall|i: usize| #[trigger] kept_below(s, n).contains(i) <==> s.contains(i) && i < n,
    decreases s.len(),
{
    reveal(Seq::filter);
    let all = kept_below(s, n);
    if s.len() > 0 {
        let front = s.drop_last();
        let kept = kept_below(front, n);
        lemma_kept_below(front, n);
        assert(all == if s.last() < n { kept.push(s.last()) } else { kept });
        assert forall|i: usize| #[trigger] all.contains(i) <==> s.contains(i) && i < n by {
            if all.contains(i) {
                let k = choose|k: int| 0 <= k < all.len() && all[k] == i;
                if k < kept.len() {
                    assert(kept[k] == i);
                    assert(kept.contains(i));
                    let j = choose|j: int| 0 <= j < front.len() && front[j] == i;
                    assert(s[j] == i);
                } else {
                    assert(s[s.len() - 1] == i);
                }
            }
            if s.contains(i) && i < n {
                let j = choose|j: int| 0 <= j < s.len() && s[j] == i;
                if j < front.len() {
                    assert(front[j] == i);
                    assert(kept.contains(i));
                    let k = choose|k: int| 0 <= k < kept.len() && kept[k] == i;
                    assert(all[k] == i);
                } else {
                    assert(all[kept.len() as int] == i);
                }
            }
        }
    }
}

/// A transform acts on the objects that are selected and in the scene, and on no
/// others.
pub proof fn transform_acts_on_the_selection(scene: Scene, s: SelectionView, i: usize)
    ensures
        ({
            let objs = all_objects(valid_targets(scene, s));
            &&& objs.contains(ObjectRef::Fixture(i)) <==> s.fixtures.contains(i) && i
                < scene.fixtures@.len()
            &&& objs.contains(ObjectRef::Geometry(i)) <==> s.geometry.contains(i) && i
                < scene.geometry@.len()
            &&& objs.contains(ObjectRef::Screen(i)) <==> s.screens.contains(i) && i
                < scene.screens@.len()
            &&& objs.contains(ObjectRef::Pyro(i)) <==> s.pyro.contains(i) && i < scene.pyro@.len()
            &&& objs.contains(ObjectRef::Environment(i)) <==> s.environment == Some(i) && i
                < scene.environments@.len()
        }),
{
    let t = valid_targets(scene, s);
    lemma_kept_below(s.fixtures, scene.fixtures@.len());
    lemma_kept_below(s.geometry, scene.geometry@.len());
    lemma_kept_below(s.screens, scene.screens@.len());
    lemma_kept_below(s.pyro, scene.pyro@.len());
    lemma_listed(t, i);
    if t.environments.contains(i) {
        assert(t.environments[0] == i);
    }
    if s.environment == Some(i) && i < scene.environments@.len() {
        assert(t.environments[0] == i);
    }
}

proof fn lemma_listed(t: TargetsView, i: usize)
    ensures
        all_objects(t).contains(ObjectRef::Fixture(i)) <==> t.fixtures.contains(i),
        all_objects(t).contains(ObjectRef::Geometry(i)) <==> t.geometry.contains(i),
        all_objects(t).contains(ObjectRef::Screen(i)) <==> t.screens.contains(i),
        all_objects(t).contains(ObjectRef::Pyro(i)) <==> t.pyro.contains(i),
        all_objects(t).contains(ObjectRef::Environment(i)) <==> t.environments.contains(i),
{
    let all = all_objects(t);
    let g = t.fixtures.len();
    let s = g + t.geometry.len();
    let p = s + t.screens.len();
    let e = p + t.pyro.len();
    assert(all.len() == e + t.environments.len());
    assert forall|k: int| 0 <= k < all.len() implies #[trigger] all[k] == (if k < g {
        ObjectRef::Fixture(t.fixtures[k])
    } else if k < s {
        ObjectRef::Geometry(t.geometry[k - g])
    } else if k < p {
        ObjectRef::Screen(t.screens[k - s])
    } else if k < e {
        ObjectRef::Pyro(t.pyro[k - p])
    } else {
        ObjectRef::Environment(t.environments[k - e])
    }) by {}
    if t.fixtures.contains(i) {
        let k = choose|k: int| 0 <= k < t.fixtures.len() && t.fixtures[k] == i;
        assert(all[k] == ObjectRef::Fixture(i));
    }
    if t.geometry.contains(i) {
        let k = choose|k: int| 0 <= k < t.geometry.len() && t.geometry[k] == i;
        assert(all[g + k] == ObjectRef::Geometry(i));
    }
    if t.screens.contains(i) {
        let k = choose|k: int| 0 <= k < t.screens.len() && t.screens[k] == i;
        assert(all[s + k] == ObjectRef::Screen(i));
    }
    if t.pyro.contains(i) {
        let k = choose|k: int| 0 <= k < t.pyro.len() && t.pyro[k] == i;
        assert(all[p + k] == ObjectRef::Pyro(i));
    }
    if t.environments.contains(i) {
        let k = choose|k: int| 0 <= k < t.environments.len() && t.environments[k] == i;
        assert(all[e + k] == ObjectRef::Environment(i));
    }
}

/// A confirmed duplication leaves its copies selected, those of the array too, and
/// nothing else; another transform leaves the selection.
pub proof fn confirming_selects_the_copies(op: OpView, s: SelectionView, o: ObjectRef)
    ensures
        !op.from_duplicate ==> selected_once_confirmed(op, s) == s,
        op.from_duplicate && !(o is Environment) ==> (holds(
            selected_once_confirmed(op, s),
            item_of(o),
        ) <==> op.dup_base.contains(o) || op.dup_extra.contains(o)),
{
    let all = op.dup_base + op.dup_extra;
    listed_objects_are_selected(all, o);
    let b = op.dup_base.len();
    if op.dup_base.contains(o) {
        let k = choose|k: int| 0 <= k < op.dup_base.len() && op.dup_base[k] == o;
        assert(all[k] == o);
    }
    if op.dup_extra.contains(o) {
        let k = choose|k: int| 0 <= k < op.dup_extra.len() && op.dup_extra[k] == o;
        assert(all[b + k] == o);
    }
    if all.contains(o) {
        let k = choose|k: int| 0 <= k < all.len() && all[k] == o;
        if k < b {
            assert(op.dup_base[k] == o);
        } else {
            assert(op.dup_extra[k - b] == o);
        }
    }
}

/// The first target is the first of the objects that a transform acts on, and there is none
/// only where it acts on nothing.
pub proof fn first_target_is_the_first(t: TargetsView)
    ensures
        first_target(t) is None <==> all_objects(t).len() == 0,
        first_target(t) matches Some(o) ==> o == all_objects(t)[0],
        t.fixtures.len() > 0 ==> first_target(t) == Some(ObjectRef::Fixture(t.fixtures[0])),
{
    if t.fixtures.len() > 0 {
        assert(all_objects(t)[0] == ObjectRef::Fixture(t.fixtures[0]));
    }
}

} // verus!
