//! The command registry: every user-triggerable command, once, with its stable
//! id, its cheat-sheet label and category, the [`Action`] it dispatches and,
//! for catalog operators, how the operator-search palette invokes it.

use vstd::prelude::*;
use crate::text::{ends_with_text, occurs_at, same_text, starts_with_text};

verus! {

/// The fixed camera viewpoints.
#[derive(Clone, Copy, Debug, PartialEq, Eq, Structural)]
pub enum CameraView {
    Front,
    Back,
    Right,
    Left,
    Top,
    Bottom,
}

/// A world axis.
#[derive(Clone, Copy, Debug, PartialEq, Eq, Structural)]
pub enum Axis {
    X,
    Y,
    Z,
}

/// Which modal transform is running.
#[derive(Clone, Copy, Debug, PartialEq, Eq, Structural)]
pub enum TransformKind {
    Move,
    Rotate,
    Scale,
}

/// How the palette and the menus invoke a catalog operator.
#[derive(Clone, Copy, Debug, PartialEq, Eq, Structural)]
pub enum OpInvoke {
    /// Runs at once.
    Direct,
    /// Opens its parameter dialog.
    Dialog,
}

/// Nudge directions: the floor plane and height.
#[derive(Clone, Copy, Debug, PartialEq, Eq, Structural)]
pub enum Dir {
    XNeg,
    XPos,
    ZNeg,
    ZPos,
    YUp,
    YDown,
}

/// Every distinct user-triggerable command.
#[derive(Clone, Copy, Debug, PartialEq, Eq, Structural)]
pub enum Action {
    FrameSelection,
    FrameAll,
    View(CameraView),
    /// The numpad-0 camera view: listed in the cheat sheet, without effect.
    ViewCamera,
    /// Perspective to orthographic and back, without changing the angle.
    ToggleOrtho,
    /// Orbit by a fixed step: yaw and pitch in degrees.
    OrbitStep(i32, i32),
    ViewPie,
    SaveBookmark,
    /// Recall the camera bookmark in the given slot, counted from 1.
    RecallBookmark(usize),
    ToggleLabels,
    ToggleStats,
    ToggleGrid,
    ToggleGizmos,
    ToggleHint,
    SelectAll,
    Deselect,
    QuickSelect,
    Replace,
    Delete,
    Duplicate,
    /// Duplicate the selection and enter the grab at once.
    DuplicateGrab,
    /// Move the selection one step, given in millimetres.
    Nudge(Dir, u32),
    Transform(TransformKind),
    AxisLock(Axis),
    AddMenu,
    Patch,
    Unpatch,
    SnapCursorToSelection,
    ResetCursor,
    ToggleNPanel,
    ToggleTPanel,
    Undo,
    Redo,
    OperatorSearch,
    AdjustLast,
    Preferences,
    ToggleReportLog,
    /// Switch to the workspace in the given slot, counted from 0.
    ActivateWorkspace(usize),
    Save,
    SaveAs,
    Open,
    New,
}

/// Cheat-sheet grouping.
#[derive(Clone, Copy, Debug, PartialEq, Eq, Structural)]
pub enum Category {
    Navigation,
    Selection,
    Transform,
    Add,
    Object,
    View,
    File,
    App,
}

impl Category {
    /// The display order, top to bottom.
    pub const ORDER: [Category; 8] = [
        Category::Navigation,
        Category::Selection,
        Category::Transform,
        Category::Add,
        Category::Object,
        Category::View,
        Category::File,
        Category::App,
    ];

    /// The heading text.
    pub open spec fn heading(self) -> Seq<char> {
        match self {
            Category::Navigation => "NAVIGATION"@,
            Category::Selection => "SELECTION"@,
            Category::Transform => "TRANSFORM"@,
            Category::Add => "ADD"@,
            Category::Object => "OBJECT"@,
            Category::View => "VIEW"@,
            Category::File => "FILE"@,
            Category::App => "APP"@,
        }
    }

    /// The heading text.
    pub fn title(self) -> (r: &'static str)
        ensures
            r@ == self.heading(),
    {
        match self {
            Category::Navigation => "NAVIGATION",
            Category::Selection => "SELECTION",
            Category::Transform => "TRANSFORM",
            Category::Add => "ADD",
            Category::Object => "OBJECT",
            Category::View => "VIEW",
            Category::File => "FILE",
            Category::App => "APP",
        }
    }
}

/// A command descriptor. `id` is the stable key the keymaps bind to; `invoke`
/// marks a catalog operator.
#[derive(Clone, Copy, Debug)]
pub struct Command {
    pub id: &'static str,
    pub label: &'static str,
    pub category: Category,
    pub action: Action,
    pub invoke: Option<OpInvoke>,
}

/// A command that only the keymaps dispatch.
#[verifier::allow_in_spec]
pub fn command_row(id: &'static str, label: &'static str, category: Category, action: Action) -> Command
    returns
        (Command { id, label, category, action, invoke: None }),
{
    Command { id, label, category, action, invoke: None }
}

/// A catalog operator, which the palette lists and invokes.
#[verifier::allow_in_spec]
pub fn op_row(
    id: &'static str,
    label: &'static str,
    category: Category,
    action: Action,
    invoke: OpInvoke,
) -> Command
    returns
        (Command { id, label, category, action, invoke: Some(invoke) }),
{
    Command { id, label, category, action, invoke: Some(invoke) }
}

/// Every command, in display order.
#[verifier::opaque]
pub open spec fn command_table() -> Seq<Command> {
    seq![
        command_row("view.frame_selection", "Frame selection", Category::View, Action::FrameSelection),
        command_row("view.frame_all", "Frame all", Category::View, Action::FrameAll),
        command_row("view.toggle_labels", "Toggle fixture labels", Category::View, Action::ToggleLabels),
        command_row("view.toggle_stats", "Toggle scene statistics", Category::View, Action::ToggleStats),
        command_row("view.toggle_grid", "Toggle grid + world axes", Category::View, Action::ToggleGrid),
        command_row("view.toggle_gizmos", "Toggle navigation gizmo", Category::View, Action::ToggleGizmos),
        command_row("view.toggle_hint", "Toggle transform hint line", Category::View, Action::ToggleHint),
        command_row("view.front", "Front view", Category::View, Action::View(CameraView::Front)),
        command_row("view.back", "Back view", Category::View, Action::View(CameraView::Back)),
        command_row("view.right", "Right view", Category::View, Action::View(CameraView::Right)),
        command_row("view.left", "Left view", Category::View, Action::View(CameraView::Left)),
        command_row("view.top", "Top view", Category::View, Action::View(CameraView::Top)),
        command_row("view.bottom", "Bottom view", Category::View, Action::View(CameraView::Bottom)),
        command_row("view.toggle_ortho", "Toggle ortho/persp", Category::View, Action::ToggleOrtho),
        command_row("view.camera", "Camera view", Category::View, Action::ViewCamera),
        command_row("view.orbit_up", "Orbit up", Category::View, Action::OrbitStep(0, 15)),
        command_row("view.orbit_down", "Orbit down", Category::View, Action::OrbitStep(0, (-15) as i32)),
        command_row("view.orbit_left", "Orbit left", Category::View, Action::OrbitStep((-15) as i32, 0)),
        command_row("view.orbit_right", "Orbit right", Category::View, Action::OrbitStep(15, 0)),
        command_row("view.pie", "View pie (radial)", Category::View, Action::ViewPie),
        command_row("view.bookmark_save", "Save view bookmark", Category::View, Action::SaveBookmark),
        command_row("view.bookmark_recall_1", "Recall view bookmark 1", Category::View, Action::RecallBookmark(1)),
        command_row("view.bookmark_recall_2", "Recall view bookmark 2", Category::View, Action::RecallBookmark(2)),
        command_row("view.bookmark_recall_3", "Recall view bookmark 3", Category::View, Action::RecallBookmark(3)),
        command_row("view.bookmark_recall_4", "Recall view bookmark 4", Category::View, Action::RecallBookmark(4)),
        command_row("view.bookmark_recall_5", "Recall view bookmark 5", Category::View, Action::RecallBookmark(5)),
        command_row("view.bookmark_recall_6", "Recall view bookmark 6", Category::View, Action::RecallBookmark(6)),
        command_row("view.bookmark_recall_7", "Recall view bookmark 7", Category::View, Action::RecallBookmark(7)),
        command_row("view.bookmark_recall_8", "Recall view bookmark 8", Category::View, Action::RecallBookmark(8)),
        command_row("view.bookmark_recall_9", "Recall view bookmark 9", Category::View, Action::RecallBookmark(9)),
        command_row("view.toggle_n_panel", "Toggle N-panel (sidebar)", Category::View, Action::ToggleNPanel),
        command_row("view.toggle_t_panel", "Toggle T-panel (tool rail)", Category::View, Action::ToggleTPanel),
        command_row("select.all", "Select all fixtures", Category::Selection, Action::SelectAll),
        command_row("select.quick", "Quick-select menu", Category::Selection, Action::QuickSelect),
        command_row("select.replace", "Replace selected fixtures", Category::Selection, Action::Replace),
        command_row("select.deselect", "Deselect all", Category::Selection, Action::Deselect),
        command_row("transform.nudge_x_neg", "Nudge -X (Shift = 1 m)", Category::Transform, Action::Nudge(Dir::XNeg, 100)),
        command_row("transform.nudge_x_pos", "Nudge +X (Shift = 1 m)", Category::Transform, Action::Nudge(Dir::XPos, 100)),
        command_row("transform.nudge_z_neg", "Nudge -Z (Shift = 1 m)", Category::Transform, Action::Nudge(Dir::ZNeg, 100)),
        command_row("transform.nudge_z_pos", "Nudge +Z (Shift = 1 m)", Category::Transform, Action::Nudge(Dir::ZPos, 100)),
        command_row("transform.nudge_y_up", "Nudge +height (Shift = 1 m)", Category::Transform, Action::Nudge(Dir::YUp, 100)),
        command_row("transform.nudge_y_down", "Nudge -height (Shift = 1 m)", Category::Transform, Action::Nudge(Dir::YDown, 100)),
        command_row("transform.nudge_x_neg_1m", "Nudge -X (1 m)", Category::Transform, Action::Nudge(Dir::XNeg, 1000)),
        command_row("transform.nudge_x_pos_1m", "Nudge +X (1 m)", Category::Transform, Action::Nudge(Dir::XPos, 1000)),
        command_row("transform.nudge_z_neg_1m", "Nudge -Z (1 m)", Category::Transform, Action::Nudge(Dir::ZNeg, 1000)),
        command_row("transform.nudge_z_pos_1m", "Nudge +Z (1 m)", Category::Transform, Action::Nudge(Dir::ZPos, 1000)),
        command_row("transform.nudge_y_up_1m", "Nudge +height (1 m)", Category::Transform, Action::Nudge(Dir::YUp, 1000)),
        command_row("transform.nudge_y_down_1m", "Nudge -height (1 m)", Category::Transform, Action::Nudge(Dir::YDown, 1000)),
        command_row("transform.move", "Move selection", Category::Transform, Action::Transform(TransformKind::Move)),
        command_row("transform.rotate", "Rotate selection", Category::Transform, Action::Transform(TransformKind::Rotate)),
        command_row("transform.scale", "Scale selection", Category::Transform, Action::Transform(TransformKind::Scale)),
        command_row("transform.axis_x", "Lock X axis (during transform)", Category::Transform, Action::AxisLock(Axis::X)),
        command_row("transform.axis_y", "Lock Y axis (during transform)", Category::Transform, Action::AxisLock(Axis::Y)),
        command_row("transform.axis_z", "Lock Z axis (during transform)", Category::Transform, Action::AxisLock(Axis::Z)),
        command_row("kmi.add_menu", "Add menu (at cursor)", Category::Add, Action::AddMenu),
        op_row("object.add", "Add Object…", Category::Add, Action::AddMenu, OpInvoke::Dialog),
        command_row("cursor.snap_to_selection", "Snap cursor to selection", Category::Transform, Action::SnapCursorToSelection),
        command_row("cursor.reset", "Reset cursor to origin", Category::Transform, Action::ResetCursor),
        op_row("fixture.duplicate", "Duplicate / Array…", Category::Object, Action::Duplicate, OpInvoke::Dialog),
        op_row("fixture.patch", "Patch Fixtures…", Category::Object, Action::Patch, OpInvoke::Dialog),
        op_row("fixture.unpatch", "Unpatch Fixtures", Category::Object, Action::Unpatch, OpInvoke::Direct),
        op_row("object.delete", "Delete Selected", Category::Object, Action::Delete, OpInvoke::Direct),
        command_row("kmi.patch", "Patch selected fixtures", Category::Object, Action::Patch),
        command_row("kmi.unpatch", "Unpatch selected fixtures", Category::Object, Action::Unpatch),
        command_row("kmi.duplicate", "Duplicate / array", Category::Object, Action::Duplicate),
        command_row("kmi.duplicate_grab", "Duplicate & grab", Category::Object, Action::Duplicate),
        command_row("kmi.delete", "Delete selected", Category::Object, Action::Delete),
        command_row("kmi.delete_alias", "Delete selected (alias)", Category::Object, Action::Delete),
        command_row("edit.undo", "Undo", Category::Object, Action::Undo),
        command_row("edit.redo", "Redo", Category::Object, Action::Redo),
        command_row("edit.redo_alias", "Redo (alias)", Category::Object, Action::Redo),
        command_row("edit.operator_search", "Operator search", Category::Object, Action::OperatorSearch),
        command_row("edit.adjust_last", "Adjust last operation", Category::Object, Action::AdjustLast),
        command_row("view.frame_selection_alias", "Frame selection (alias)", Category::View, Action::FrameSelection),
        command_row("view.frame_all_alias", "Frame all (alias)", Category::View, Action::FrameAll),
        command_row("file.save", "Save project", Category::File, Action::Save),
        command_row("file.save_as", "Save project as…", Category::File, Action::SaveAs),
        command_row("file.open", "Open project", Category::File, Action::Open),
        command_row("file.new", "New project", Category::File, Action::New),
        command_row("app.preferences", "Preferences", Category::App, Action::Preferences),
        command_row("window.report_log", "Report Log", Category::App, Action::ToggleReportLog),
        command_row("window.workspace_1", "Workspace 1", Category::App, Action::ActivateWorkspace(0)),
        command_row("window.workspace_2", "Workspace 2", Category::App, Action::ActivateWorkspace(1)),
        command_row("window.workspace_3", "Workspace 3", Category::App, Action::ActivateWorkspace(2)),
        command_row("window.workspace_4", "Workspace 4", Category::App, Action::ActivateWorkspace(3)),
        command_row("window.workspace_5", "Workspace 5", Category::App, Action::ActivateWorkspace(4)),
        command_row("window.workspace_6", "Workspace 6", Category::App, Action::ActivateWorkspace(5)),
        command_row("window.workspace_7", "Workspace 7", Category::App, Action::ActivateWorkspace(6)),
        command_row("window.workspace_8", "Workspace 8", Category::App, Action::ActivateWorkspace(7)),
        command_row("window.workspace_9", "Workspace 9", Category::App, Action::ActivateWorkspace(8)),
    ]
}

/// Every command, in display order.
pub fn commands() -> (r: Vec<Command>)
    ensures
        r@ == command_table(),
{
    reveal(command_table);
    vec![
        command_row("view.frame_selection", "Frame selection", Category::View, Action::FrameSelection),
        command_row("view.frame_all", "Frame all", Category::View, Action::FrameAll),
        command_row("view.toggle_labels", "Toggle fixture labels", Category::View, Action::ToggleLabels),
        command_row("view.toggle_stats", "Toggle scene statistics", Category::View, Action::ToggleStats),
        command_row("view.toggle_grid", "Toggle grid + world axes", Category::View, Action::ToggleGrid),
        command_row("view.toggle_gizmos", "Toggle navigation gizmo", Category::View, Action::ToggleGizmos),
        command_row("view.toggle_hint", "Toggle transform hint line", Category::View, Action::ToggleHint),
        command_row("view.front", "Front view", Category::View, Action::View(CameraView::Front)),
        command_row("view.back", "Back view", Category::View, Action::View(CameraView::Back)),
        command_row("view.right", "Right view", Category::View, Action::View(CameraView::Right)),
        command_row("view.left", "Left view", Category::View, Action::View(CameraView::Left)),
        command_row("view.top", "Top view", Category::View, Action::View(CameraView::Top)),
        command_row("view.bottom", "Bottom view", Category::View, Action::View(CameraView::Bottom)),
        command_row("view.toggle_ortho", "Toggle ortho/persp", Category::View, Action::ToggleOrtho),
        command_row("view.camera", "Camera view", Category::View, Action::ViewCamera),
        command_row("view.orbit_up", "Orbit up", Category::View, Action::OrbitStep(0, 15)),
        command_row("view.orbit_down", "Orbit down", Category::View, Action::OrbitStep(0, (-15) as i32)),
        command_row("view.orbit_left", "Orbit left", Category::View, Action::OrbitStep((-15) as i32, 0)),
        command_row("view.orbit_right", "Orbit right", Category::View, Action::OrbitStep(15, 0)),
        command_row("view.pie", "View pie (radial)", Category::View, Action::ViewPie),
        command_row("view.bookmark_save", "Save view bookmark", Category::View, Action::SaveBookmark),
        command_row("view.bookmark_recall_1", "Recall view bookmark 1", Category::View, Action::RecallBookmark(1)),
        command_row("view.bookmark_recall_2", "Recall view bookmark 2", Category::View, Action::RecallBookmark(2)),
        command_row("view.bookmark_recall_3", "Recall view bookmark 3", Category::View, Action::RecallBookmark(3)),
        command_row("view.bookmark_recall_4", "Recall view bookmark 4", Category::View, Action::RecallBookmark(4)),
        command_row("view.bookmark_recall_5", "Recall view bookmark 5", Category::View, Action::RecallBookmark(5)),
        command_row("view.bookmark_recall_6", "Recall view bookmark 6", Category::View, Action::RecallBookmark(6)),
        command_row("view.bookmark_recall_7", "Recall view bookmark 7", Category::View, Action::RecallBookmark(7)),
        command_row("view.bookmark_recall_8", "Recall view bookmark 8", Category::View, Action::RecallBookmark(8)),
        command_row("view.bookmark_recall_9", "Recall view bookmark 9", Category::View, Action::RecallBookmark(9)),
        command_row("view.toggle_n_panel", "Toggle N-panel (sidebar)", Category::View, Action::ToggleNPanel),
        command_row("view.toggle_t_panel", "Toggle T-panel (tool rail)", Category::View, Action::ToggleTPanel),
        command_row("select.all", "Select all fixtures", Category::Selection, Action::SelectAll),
        command_row("select.quick", "Quick-select menu", Category::Selection, Action::QuickSelect),
        command_row("select.replace", "Replace selected fixtures", Category::Selection, Action::Replace),
        command_row("select.deselect", "Deselect all", Category::Selection, Action::Deselect),
        command_row("transform.nudge_x_neg", "Nudge -X (Shift = 1 m)", Category::Transform, Action::Nudge(Dir::XNeg, 100)),
        command_row("transform.nudge_x_pos", "Nudge +X (Shift = 1 m)", Category::Transform, Action::Nudge(Dir::XPos, 100)),
        command_row("transform.nudge_z_neg", "Nudge -Z (Shift = 1 m)", Category::Transform, Action::Nudge(Dir::ZNeg, 100)),
        command_row("transform.nudge_z_pos", "Nudge +Z (Shift = 1 m)", Category::Transform, Action::Nudge(Dir::ZPos, 100)),
        command_row("transform.nudge_y_up", "Nudge +height (Shift = 1 m)", Category::Transform, Action::Nudge(Dir::YUp, 100)),
        command_row("transform.nudge_y_down", "Nudge -height (Shift = 1 m)", Category::Transform, Action::Nudge(Dir::YDown, 100)),
        command_row("transform.nudge_x_neg_1m", "Nudge -X (1 m)", Category::Transform, Action::Nudge(Dir::XNeg, 1000)),
        command_row("transform.nudge_x_pos_1m", "Nudge +X (1 m)", Category::Transform, Action::Nudge(Dir::XPos, 1000)),
        command_row("transform.nudge_z_neg_1m", "Nudge -Z (1 m)", Category::Transform, Action::Nudge(Dir::ZNeg, 1000)),
        command_row("transform.nudge_z_pos_1m", "Nudge +Z (1 m)", Category::Transform, Action::Nudge(Dir::ZPos, 1000)),
        command_row("transform.nudge_y_up_1m", "Nudge +height (1 m)", Category::Transform, Action::Nudge(Dir::YUp, 1000)),
        command_row("transform.nudge_y_down_1m", "Nudge -height (1 m)", Category::Transform, Action::Nudge(Dir::YDown, 1000)),
        command_row("transform.move", "Move selection", Category::Transform, Action::Transform(TransformKind::Move)),
        command_row("transform.rotate", "Rotate selection", Category::Transform, Action::Transform(TransformKind::Rotate)),
        command_row("transform.scale", "Scale selection", Category::Transform, Action::Transform(TransformKind::Scale)),
        command_row("transform.axis_x", "Lock X axis (during transform)", Category::Transform, Action::AxisLock(Axis::X)),
        command_row("transform.axis_y", "Lock Y axis (during transform)", Category::Transform, Action::AxisLock(Axis::Y)),
        command_row("transform.axis_z", "Lock Z axis (during transform)", Category::Transform, Action::AxisLock(Axis::Z)),
        command_row("kmi.add_menu", "Add menu (at cursor)", Category::Add, Action::AddMenu),
        op_row("object.add", "Add Object…", Category::Add, Action::AddMenu, OpInvoke::Dialog),
        command_row("cursor.snap_to_selection", "Snap cursor to selection", Category::Transform, Action::SnapCursorToSelection),
        command_row("cursor.reset", "Reset cursor to origin", Category::Transform, Action::ResetCursor),
        op_row("fixture.duplicate", "Duplicate / Array…", Category::Object, Action::Duplicate, OpInvoke::Dialog),
        op_row("fixture.patch", "Patch Fixtures…", Category::Object, Action::Patch, OpInvoke::Dialog),
        op_row("fixture.unpatch", "Unpatch Fixtures", Category::Object, Action::Unpatch, OpInvoke::Direct),
        op_row("object.delete", "Delete Selected", Category::Object, Action::Delete, OpInvoke::Direct),
        command_row("kmi.patch", "Patch selected fixtures", Category::Object, Action::Patch),
        command_row("kmi.unpatch", "Unpatch selected fixtures", Category::Object, Action::Unpatch),
        command_row("kmi.duplicate", "Duplicate / array", Category::Object, Action::Duplicate),
        command_row("kmi.duplicate_grab", "Duplicate & grab", Category::Object, Action::Duplicate),
        command_row("kmi.delete", "Delete selected", Category::Object, Action::Delete),
        command_row("kmi.delete_alias", "Delete selected (alias)", Category::Object, Action::Delete),
        command_row("edit.undo", "Undo", Category::Object, Action::Undo),
        command_row("edit.redo", "Redo", Category::Object, Action::Redo),
        command_row("edit.redo_alias", "Redo (alias)", Category::Object, Action::Redo),
        command_row("edit.operator_search", "Operator search", Category::Object, Action::OperatorSearch),
        command_row("edit.adjust_last", "Adjust last operation", Category::Object, Action::AdjustLast),
        command_row("view.frame_selection_alias", "Frame selection (alias)", Category::View, Action::FrameSelection),
        command_row("view.frame_all_alias", "Frame all (alias)", Category::View, Action::FrameAll),
        command_row("file.save", "Save project", Category::File, Action::Save),
        command_row("file.save_as", "Save project as…", Category::File, Action::SaveAs),
        command_row("file.open", "Open project", Category::File, Action::Open),
        command_row("file.new", "New project", Category::File, Action::New),
        command_row("app.preferences", "Preferences", Category::App, Action::Preferences),
        command_row("window.report_log", "Report Log", Category::App, Action::ToggleReportLog),
        command_row("window.workspace_1", "Workspace 1", Category::App, Action::ActivateWorkspace(0)),
        command_row("window.workspace_2", "Workspace 2", Category::App, Action::ActivateWorkspace(1)),
        command_row("window.workspace_3", "Workspace 3", Category::App, Action::ActivateWorkspace(2)),
        command_row("window.workspace_4", "Workspace 4", Category::App, Action::ActivateWorkspace(3)),
        command_row("window.workspace_5", "Workspace 5", Category::App, Action::ActivateWorkspace(4)),
        command_row("window.workspace_6", "Workspace 6", Category::App, Action::ActivateWorkspace(5)),
        command_row("window.workspace_7", "Workspace 7", Category::App, Action::ActivateWorkspace(6)),
        command_row("window.workspace_8", "Workspace 8", Category::App, Action::ActivateWorkspace(7)),
        command_row("window.workspace_9", "Workspace 9", Category::App, Action::ActivateWorkspace(8)),
    ]
}

/// The first row of `rows` whose id is `id`.
pub open spec fn row_with_id(rows: Seq<Command>, id: Seq<char>) -> Option<Command>
    decreases rows.len(),
{
    if rows.len() == 0 {
        None
    } else if rows[0].id@ == id {
        Some(rows[0])
    } else {
        row_with_id(rows.drop_first(), id)
    }
}

/// The command registered under `id`.
pub open spec fn registered(id: Seq<char>) -> Option<Command> {
    row_with_id(command_table(), id)
}

/// Look up a command by its id.
pub fn command(id: &str) -> (r: Option<Command>)
    ensures
        r == registered(id@),
{
    let rows = commands();
    let n: usize = rows.len();
    let mut i: usize = 0;
    assert(rows@.subrange(0, n as int) =~= rows@);
    while i < n
        invariant
            i <= n == rows@.len(),
            rows@ == command_table(),
            row_with_id(rows@, id@) == row_with_id(rows@.subrange(i as int, n as int), id@),
        decreases n - i,
    {
        assert(rows@.subrange(i as int, n as int).drop_first() =~= rows@.subrange(
            i + 1,
            n as int,
        ));
        if same_text(rows[i].id, id) {
            return Some(rows[i]);
        }
        i = i + 1;
    }
    None
}

impl Command {
    /// The action this command dispatches.
    pub fn action(&self) -> (r: Action)
        ensures
            r == self.action,
    {
        self.action
    }

    /// Can the command be offered in the operator-search palette? Left out are
    /// the grabs and axis locks, which need the live mouse, the camera-view
    /// placeholder, and the keymap twins and aliases of other commands.
    pub open spec fn in_palette(self) -> bool {
        &&& !(self.action is Transform)
        &&& !(self.action is AxisLock)
        &&& !(self.action is ViewCamera)
        &&& !occurs_at(self.id@, "kmi."@, 0)
        &&& !occurs_at(self.id@, "_alias"@, self.id@.len() - "_alias"@.len())
    }

    /// Can the command be offered in the operator-search palette?
    pub fn palette_runnable(&self) -> (r: bool)
        ensures
            r == self.in_palette(),
    {
        match self.action {
            Action::Transform(_) => {
                return false;
            },
            Action::AxisLock(_) => {
                return false;
            },
            Action::ViewCamera => {
                return false;
            },
            _ => {},
        }
        !(starts_with_text(self.id, "kmi.") || ends_with_text(self.id, "_alias"))
    }
}

/// The commands that the operator-search palette lists, in display order.
pub open spec fn palette_rows() -> Seq<Command> {
    command_table().filter(|c: Command| c.in_palette())
}

/// The commands that the operator-search palette lists, in display order.
pub fn palette_commands() -> (r: Vec<Command>)
    ensures
        r@ == palette_rows(),
{
    let rows = commands();
    let mut out: Vec<Command> = Vec::new();
    let mut i: usize = 0;
    proof {
        reveal(Seq::filter);
    }
    while i < rows.len()
        invariant
            i <= rows@.len(),
            rows@ == command_table(),
            out@ == rows@.take(i as int).filter(|c: Command| c.in_palette()),
        decreases rows@.len() - i,
    {
        reveal(Seq::filter);
        assert(rows@.take(i + 1).drop_last() =~= rows@.take(i as int));
        if rows[i].palette_runnable() {
            out.push(rows[i]);
        }
        i = i + 1;
    }
    assert(rows@.take(i as int) =~= rows@);
    out
}

/// The position of the row with id `id`, or -1.
spec fn row_index(id: Seq<char>) -> int {
    if id.len() == 8 {
        if id[5] == 'n' {
            78
        } else if id[5] == 'p' {
            19
        } else if id[5] == 't' {
            11
        } else {
            -1
        }
    } else if id.len() == 9 {
        if id[5] == 'a' {
            62
        } else if id[5] == 'b' {
            8
        } else if id[5] == 'l' {
            10
        } else if id[5] == 'o' {
            77
        } else if id[5] == 'r' {
            69
        } else if id[5] == 's' {
            75
        } else if id[5] == 'u' {
            68
        } else {
            -1
        }
    } else if id.len() == 10 {
        if id[8] == 'd' {
            55
        } else if id[8] == 'h' {
            9
        } else if id[8] == 'l' {
            32
        } else if id[8] == 'n' {
            7
        } else if id[8] == 't' {
            66
        } else {
            -1
        }
    } else if id.len() == 11 {
        if id[5] == 'b' {
            12
        } else if id[5] == 'c' {
            14
        } else if id[5] == 'n' {
            63
        } else {
            -1
        }
    } else if id.len() == 12 {
        if id[0] == 'c' {
            57
        } else if id[0] == 'f' {
            76
        } else if id[0] == 'k' {
            54
        } else if id[0] == 's' {
            33
        } else {
            -1
        }
    } else if id.len() == 13 {
        if id[0] == 'f' {
            59
        } else if id[0] == 'k' {
            64
        } else if id[0] == 'o' {
            61
        } else if id[0] == 'v' {
            15
        } else {
            -1
        }
    } else if id.len() == 14 {
        if id[0] == 's' {
            34
        } else if id[0] == 't' {
            48
        } else if id[0] == 'v' {
            1
        } else {
            -1
        }
    } else if id.len() == 15 {
        if id[0] == 'a' {
            79
        } else if id[0] == 'e' {
            70
        } else if id[0] == 'f' {
            60
        } else if id[0] == 's' {
            35
        } else if id[0] == 't' {
            50
        } else if id[0] == 'v' {
            if id[11] == 'd' {
                16
            } else if id[11] == 'l' {
                17
            } else {
                -1
            }
        } else {
            -1
        }
    } else if id.len() == 16 {
        if id[14] == '_' {
            if id[15] == 'x' {
                51
            } else if id[15] == 'y' {
                52
            } else if id[15] == 'z' {
                53
            } else {
                -1
            }
        } else if id[14] == 'a' {
            67
        } else if id[14] == 'h' {
            18
        } else if id[14] == 'i' {
            4
        } else if id[14] == 'n' {
            6
        } else if id[14] == 's' {
            72
        } else if id[14] == 't' {
            49
        } else {
            -1
        }
    } else if id.len() == 17 {
        if id[12] == 'i' {
            58
        } else if id[12] == 'o' {
            13
        } else if id[12] == 's' {
            3
        } else if id[12] == 't' {
            80
        } else {
            -1
        }
    } else if id.len() == 18 {
        if id[17] == '1' {
            81
        } else if id[17] == '2' {
            82
        } else if id[17] == '3' {
            83
        } else if id[17] == '4' {
            84
        } else if id[17] == '5' {
            85
        } else if id[17] == '6' {
            86
        } else if id[17] == '7' {
            87
        } else if id[17] == '8' {
            88
        } else if id[17] == '9' {
            89
        } else if id[17] == 'b' {
            65
        } else if id[17] == 'e' {
            20
        } else if id[17] == 's' {
            if id[12] == 'g' {
                5
            } else if id[12] == 'l' {
                2
            } else {
                -1
            }
        } else {
            -1
        }
    } else if id.len() == 19 {
        if id[12] == 'n' {
            30
        } else if id[12] == 't' {
            31
        } else {
            -1
        }
    } else if id.len() == 20 {
        if id[11] == 'a' {
            74
        } else if id[11] == 'o' {
            71
        } else if id[11] == 's' {
            0
        } else if id[11] == 'u' {
            40
        } else {
            -1
        }
    } else if id.len() == 21 {
        if id[16] == 'x' {
            if id[18] == 'n' {
                36
            } else if id[18] == 'p' {
                37
            } else {
                -1
            }
        } else if id[16] == 'z' {
            if id[18] == 'n' {
                38
            } else if id[18] == 'p' {
                39
            } else {
                -1
            }
        } else {
            -1
        }
    } else if id.len() == 22 {
        if id[21] == '1' {
            21
        } else if id[21] == '2' {
            22
        } else if id[21] == '3' {
            23
        } else if id[21] == '4' {
            24
        } else if id[21] == '5' {
            25
        } else if id[21] == '6' {
            26
        } else if id[21] == '7' {
            27
        } else if id[21] == '8' {
            28
        } else if id[21] == '9' {
            29
        } else if id[21] == 'n' {
            41
        } else {
            -1
        }
    } else if id.len() == 23 {
        46
    } else if id.len() == 24 {
        if id[16] == 'e' {
            56
        } else if id[16] == 'x' {
            if id[18] == 'n' {
                42
            } else if id[18] == 'p' {
                43
            } else {
                -1
            }
        } else if id[16] == 'z' {
            if id[18] == 'n' {
                44
            } else if id[18] == 'p' {
                45
            } else {
                -1
            }
        } else {
            -1
        }
    } else if id.len() == 25 {
        47
    } else if id.len() == 26 {
        73
    } else {
        -1
    }
}

/// Each row's id leads back to its own position.
#[verifier::rlimit(60)]
proof fn lemma_row_index()
    ensures
        forall|i: int| 0 <= i < command_table().len() ==> row_index(#[trigger] command_table()[i].id@) == i,
{
    reveal(command_table);
    reveal_strlit("view.frame_selection");
    reveal_strlit("view.frame_all");
    reveal_strlit("view.toggle_labels");
    reveal_strlit("view.toggle_stats");
    reveal_strlit("view.toggle_grid");
    reveal_strlit("view.toggle_gizmos");
    reveal_strlit("view.toggle_hint");
    reveal_strlit("view.front");
    reveal_strlit("view.back");
    reveal_strlit("view.right");
    reveal_strlit("view.left");
    reveal_strlit("view.top");
    reveal_strlit("view.bottom");
    reveal_strlit("view.toggle_ortho");
    reveal_strlit("view.camera");
    reveal_strlit("view.orbit_up");
    reveal_strlit("view.orbit_down");
    reveal_strlit("view.orbit_left");
    reveal_strlit("view.orbit_right");
    reveal_strlit("view.pie");
    reveal_strlit("view.bookmark_save");
    reveal_strlit("view.bookmark_recall_1");
    reveal_strlit("view.bookmark_recall_2");
    reveal_strlit("view.bookmark_recall_3");
    reveal_strlit("view.bookmark_recall_4");
    reveal_strlit("view.bookmark_recall_5");
    reveal_strlit("view.bookmark_recall_6");
    reveal_strlit("view.bookmark_recall_7");
    reveal_strlit("view.bookmark_recall_8");
    reveal_strlit("view.bookmark_recall_9");
    reveal_strlit("view.toggle_n_panel");
    reveal_strlit("view.toggle_t_panel");
    reveal_strlit("select.all");
    reveal_strlit("select.quick");
    reveal_strlit("select.replace");
    reveal_strlit("select.deselect");
    reveal_strlit("transform.nudge_x_neg");
    reveal_strlit("transform.nudge_x_pos");
    reveal_strlit("transform.nudge_z_neg");
    reveal_strlit("transform.nudge_z_pos");
    reveal_strlit("transform.nudge_y_up");
    reveal_strlit("transform.nudge_y_down");
    reveal_strlit("transform.nudge_x_neg_1m");
    reveal_strlit("transform.nudge_x_pos_1m");
    reveal_strlit("transform.nudge_z_neg_1m");
    reveal_strlit("transform.nudge_z_pos_1m");
    reveal_strlit("transform.nudge_y_up_1m");
    reveal_strlit("transform.nudge_y_down_1m");
    reveal_strlit("transform.move");
    reveal_strlit("transform.rotate");
    reveal_strlit("transform.scale");
    reveal_strlit("transform.axis_x");
    reveal_strlit("transform.axis_y");
    reveal_strlit("transform.axis_z");
    reveal_strlit("kmi.add_menu");
    reveal_strlit("object.add");
    reveal_strlit("cursor.snap_to_selection");
    reveal_strlit("cursor.reset");
    reveal_strlit("fixture.duplicate");
    reveal_strlit("fixture.patch");
    reveal_strlit("fixture.unpatch");
    reveal_strlit("object.delete");
    reveal_strlit("kmi.patch");
    reveal_strlit("kmi.unpatch");
    reveal_strlit("kmi.duplicate");
    reveal_strlit("kmi.duplicate_grab");
    reveal_strlit("kmi.delete");
    reveal_strlit("kmi.delete_alias");
    reveal_strlit("edit.undo");
    reveal_strlit("edit.redo");
    reveal_strlit("edit.redo_alias");
    reveal_strlit("edit.operator_search");
    reveal_strlit("edit.adjust_last");
    reveal_strlit("view.frame_selection_alias");
    reveal_strlit("view.frame_all_alias");
    reveal_strlit("file.save");
    reveal_strlit("file.save_as");
    reveal_strlit("file.open");
    reveal_strlit("file.new");
    reveal_strlit("app.preferences");
    reveal_strlit("window.report_log");
    reveal_strlit("window.workspace_1");
    reveal_strlit("window.workspace_2");
    reveal_strlit("window.workspace_3");
    reveal_strlit("window.workspace_4");
    reveal_strlit("window.workspace_5");
    reveal_strlit("window.workspace_6");
    reveal_strlit("window.workspace_7");
    reveal_strlit("window.workspace_8");
    reveal_strlit("window.workspace_9");
    assert(row_index("view.frame_selection"@) == 0);
    assert(row_index("view.frame_all"@) == 1);
    assert(row_index("view.toggle_labels"@) == 2);
    assert(row_index("view.toggle_stats"@) == 3);
    assert(row_index("view.toggle_grid"@) == 4);
    assert(row_index("view.toggle_gizmos"@) == 5);
    assert(row_index("view.toggle_hint"@) == 6);
    assert(row_index("view.front"@) == 7);
    assert(row_index("view.back"@) == 8);
    assert(row_index("view.right"@) == 9);
    assert(row_index("view.left"@) == 10);
    assert(row_index("view.top"@) == 11);
    assert(row_index("view.bottom"@) == 12);
    assert(row_index("view.toggle_ortho"@) == 13);
    assert(row_index("view.camera"@) == 14);
    assert(row_index("view.orbit_up"@) == 15);
    assert(row_index("view.orbit_down"@) == 16);
    assert(row_index("view.orbit_left"@) == 17);
    assert(row_index("view.orbit_right"@) == 18);
    assert(row_index("view.pie"@) == 19);
    assert(row_index("view.bookmark_save"@) == 20);
    assert(row_index("view.bookmark_recall_1"@) == 21);
    assert(row_index("view.bookmark_recall_2"@) == 22);
    assert(row_index("view.bookmark_recall_3"@) == 23);
    assert(row_index("view.bookmark_recall_4"@) == 24);
    assert(row_index("view.bookmark_recall_5"@) == 25);
    assert(row_index("view.bookmark_recall_6"@) == 26);
    assert(row_index("view.bookmark_recall_7"@) == 27);
    assert(row_index("view.bookmark_recall_8"@) == 28);
    assert(row_index("view.bookmark_recall_9"@) == 29);
    assert(row_index("view.toggle_n_panel"@) == 30);
    assert(row_index("view.toggle_t_panel"@) == 31);
    assert(row_index("select.all"@) == 32);
    assert(row_index("select.quick"@) == 33);
    assert(row_index("select.replace"@) == 34);
    assert(row_index("select.deselect"@) == 35);
    assert(row_index("transform.nudge_x_neg"@) == 36);
    assert(row_index("transform.nudge_x_pos"@) == 37);
    assert(row_index("transform.nudge_z_neg"@) == 38);
    assert(row_index("transform.nudge_z_pos"@) == 39);
    assert(row_index("transform.nudge_y_up"@) == 40);
    assert(row_index("transform.nudge_y_down"@) == 41);
    assert(row_index("transform.nudge_x_neg_1m"@) == 42);
    assert(row_index("transform.nudge_x_pos_1m"@) == 43);
    assert(row_index("transform.nudge_z_neg_1m"@) == 44);
    assert(row_index("transform.nudge_z_pos_1m"@) == 45);
    assert(row_index("transform.nudge_y_up_1m"@) == 46);
    assert(row_index("transform.nudge_y_down_1m"@) == 47);
    assert(row_index("transform.move"@) == 48);
    assert(row_index("transform.rotate"@) == 49);
    assert(row_index("transform.scale"@) == 50);
    assert(row_index("transform.axis_x"@) == 51);
    assert(row_index("transform.axis_y"@) == 52);
    assert(row_index("transform.axis_z"@) == 53);
    assert(row_index("kmi.add_menu"@) == 54);
    assert(row_index("object.add"@) == 55);
    assert(row_index("cursor.snap_to_selection"@) == 56);
    assert(row_index("cursor.reset"@) == 57);
    assert(row_index("fixture.duplicate"@) == 58);
    assert(row_index("fixture.patch"@) == 59);
    assert(row_index("fixture.unpatch"@) == 60);
    assert(row_index("object.delete"@) == 61);
    assert(row_index("kmi.patch"@) == 62);
    assert(row_index("kmi.unpatch"@) == 63);
    assert(row_index("kmi.duplicate"@) == 64);
    assert(row_index("kmi.duplicate_grab"@) == 65);
    assert(row_index("kmi.delete"@) == 66);
    assert(row_index("kmi.delete_alias"@) == 67);
    assert(row_index("edit.undo"@) == 68);
    assert(row_index("edit.redo"@) == 69);
    assert(row_index("edit.redo_alias"@) == 70);
    assert(row_index("edit.operator_search"@) == 71);
    assert(row_index("edit.adjust_last"@) == 72);
    assert(row_index("view.frame_selection_alias"@) == 73);
    assert(row_index("view.frame_all_alias"@) == 74);
    assert(row_index("file.save"@) == 75);
    assert(row_index("file.save_as"@) == 76);
    assert(row_index("file.open"@) == 77);
    assert(row_index("file.new"@) == 78);
    assert(row_index("app.preferences"@) == 79);
    assert(row_index("window.report_log"@) == 80);
    assert(row_index("window.workspace_1"@) == 81);
    assert(row_index("window.workspace_2"@) == 82);
    assert(row_index("window.workspace_3"@) == 83);
    assert(row_index("window.workspace_4"@) == 84);
    assert(row_index("window.workspace_5"@) == 85);
    assert(row_index("window.workspace_6"@) == 86);
    assert(row_index("window.workspace_7"@) == 87);
    assert(row_index("window.workspace_8"@) == 88);
    assert(row_index("window.workspace_9"@) == 89);
}

/// The registry is keyed by id: no two commands share one.
pub proof fn command_ids_are_unique(i: int, j: int)
    requires
        0 <= i < command_table().len(),
        0 <= j < command_table().len(),
        command_table()[i].id@ == command_table()[j].id@,
    ensures
        i == j,
{
    lemma_row_index();
}

/// Every command is found under its own id.
pub proof fn every_command_is_found(i: int)
    requires
        0 <= i < command_table().len(),
    ensures
        registered(command_table()[i].id@) == Some(command_table()[i]),
{
    let t = command_table();
    assert(t =~= t.subrange(0, t.len() as int));
    lemma_found(t, i);
}

proof fn lemma_found(rows: Seq<Command>, i: int)
    requires
        0 <= i < rows.len(),
        rows == command_table().subrange(command_table().len() - rows.len(), command_table().len() as int),
        rows.len() <= command_table().len(),
    ensures
        row_with_id(rows, rows[i].id@) == Some(rows[i]),
    decreases rows.len(),
{
    let t = command_table();
    let off = t.len() - rows.len();
    assert(rows[0] == t[off] && rows[i] == t[off + i]);
    if rows[0].id@ == rows[i].id@ {
        command_ids_are_unique(off, off + i);
    } else {
        assert(rows.drop_first() =~= t.subrange(off + 1, t.len() as int));
        assert(rows.drop_first()[i - 1] == rows[i]);
        lemma_found(rows.drop_first(), i - 1);
    }
}

/// What is found under an id is a row of the registry with that id.
pub proof fn found_commands_are_registered(id: Seq<char>)
    requires
        registered(id) is Some,
    ensures
        exists|i: int|
            0 <= i < command_table().len() && #[trigger] command_table()[i] == registered(id)->0
                && command_table()[i].id@ == id,
{
    lemma_from_row(command_table(), id);
}

proof fn lemma_from_row(rows: Seq<Command>, id: Seq<char>)
    requires
        row_with_id(rows, id) is Some,
    ensures
        exists|i: int| 0 <= i < rows.len() && #[trigger] rows[i] == row_with_id(rows, id)->0 && rows[i].id@ == id,
    decreases rows.len(),
{
    if rows[0].id@ == id {
        assert(rows[0] == row_with_id(rows, id)->0);
    } else {
        lemma_from_row(rows.drop_first(), id);
        let rest = rows.drop_first();
        let i = choose|i: int| 0 <= i < rest.len() && #[trigger] rest[i] == row_with_id(rest, id)->0 && rest[i].id@ == id;
        assert(rows[i + 1] == rest[i]);
    }
}

/// The position of the palette row that dispatches `action`, or -1.
spec fn action_index(action: Action) -> int {
    if action == Action::FrameSelection {
        0
    } else if action == Action::FrameAll {
        1
    } else if action == Action::ToggleLabels {
        2
    } else if action == Action::ToggleStats {
        3
    } else if action == Action::ToggleGrid {
        4
    } else if action == Action::ToggleGizmos {
        5
    } else if action == Action::ToggleHint {
        6
    } else if action == Action::View(CameraView::Front) {
        7
    } else if action == Action::View(CameraView::Back) {
        8
    } else if action == Action::View(CameraView::Right) {
        9
    } else if action == Action::View(CameraView::Left) {
        10
    } else if action == Action::View(CameraView::Top) {
        11
    } else if action == Action::View(CameraView::Bottom) {
        12
    } else if action == Action::ToggleOrtho {
        13
    } else if action == Action::OrbitStep(0, 15) {
        15
    } else if action == Action::OrbitStep(0, (-15) as i32) {
        16
    } else if action == Action::OrbitStep((-15) as i32, 0) {
        17
    } else if action == Action::OrbitStep(15, 0) {
        18
    } else if action == Action::ViewPie {
        19
    } else if action == Action::SaveBookmark {
        20
    } else if action == Action::RecallBookmark(1) {
        21
    } else if action == Action::RecallBookmark(2) {
        22
    } else if action == Action::RecallBookmark(3) {
        23
    } else if action == Action::RecallBookmark(4) {
        24
    } else if action == Action::RecallBookmark(5) {
        25
    } else if action == Action::RecallBookmark(6) {
        26
    } else if action == Action::RecallBookmark(7) {
        27
    } else if action == Action::RecallBookmark(8) {
        28
    } else if action == Action::RecallBookmark(9) {
        29
    } else if action == Action::ToggleNPanel {
        30
    } else if action == Action::ToggleTPanel {
        31
    } else if action == Action::SelectAll {
        32
    } else if action == Action::QuickSelect {
        33
    } else if action == Action::Replace {
        34
    } else if action == Action::Deselect {
        35
    } else if action == Action::Nudge(Dir::XNeg, 100) {
        36
    } else if action == Action::Nudge(Dir::XPos, 100) {
        37
    } else if action == Action::Nudge(Dir::ZNeg, 100) {
        38
    } else if action == Action::Nudge(Dir::ZPos, 100) {
        39
    } else if action == Action::Nudge(Dir::YUp, 100) {
        40
    } else if action == Action::Nudge(Dir::YDown, 100) {
        41
    } else if action == Action::Nudge(Dir::XNeg, 1000) {
        42
    } else if action == Action::Nudge(Dir::XPos, 1000) {
        43
    } else if action == Action::Nudge(Dir::ZNeg, 1000) {
        44
    } else if action == Action::Nudge(Dir::ZPos, 1000) {
        45
    } else if action == Action::Nudge(Dir::YUp, 1000) {
        46
    } else if action == Action::Nudge(Dir::YDown, 1000) {
        47
    } else if action == Action::AddMenu {
        55
    } else if action == Action::SnapCursorToSelection {
        56
    } else if action == Action::ResetCursor {
        57
    } else if action == Action::Duplicate {
        58
    } else if action == Action::Patch {
        59
    } else if action == Action::Unpatch {
        60
    } else if action == Action::Delete {
        61
    } else if action == Action::Undo {
        68
    } else if action == Action::Redo {
        69
    } else if action == Action::OperatorSearch {
        71
    } else if action == Action::AdjustLast {
        72
    } else if action == Action::Save {
        75
    } else if action == Action::SaveAs {
        76
    } else if action == Action::Open {
        77
    } else if action == Action::New {
        78
    } else if action == Action::Preferences {
        79
    } else if action == Action::ToggleReportLog {
        80
    } else if action == Action::ActivateWorkspace(0) {
        81
    } else if action == Action::ActivateWorkspace(1) {
        82
    } else if action == Action::ActivateWorkspace(2) {
        83
    } else if action == Action::ActivateWorkspace(3) {
        84
    } else if action == Action::ActivateWorkspace(4) {
        85
    } else if action == Action::ActivateWorkspace(5) {
        86
    } else if action == Action::ActivateWorkspace(6) {
        87
    } else if action == Action::ActivateWorkspace(7) {
        88
    } else if action == Action::ActivateWorkspace(8) {
        89
    } else {
        -1
    }
}

#[verifier::rlimit(60)]
proof fn lemma_action_index()
    ensures
        forall|i: int|
            0 <= i < command_table().len() && (#[trigger] command_table()[i]).in_palette() ==> action_index(
                command_table()[i].action,
            ) == i,
{
    reveal(command_table);
    reveal_strlit("kmi.");
    reveal_strlit("_alias");
    reveal_strlit("view.frame_selection");
    reveal_strlit("view.frame_all");
    reveal_strlit("view.toggle_labels");
    reveal_strlit("view.toggle_stats");
    reveal_strlit("view.toggle_grid");
    reveal_strlit("view.toggle_gizmos");
    reveal_strlit("view.toggle_hint");
    reveal_strlit("view.front");
    reveal_strlit("view.back");
    reveal_strlit("view.right");
    reveal_strlit("view.left");
    reveal_strlit("view.top");
    reveal_strlit("view.bottom");
    reveal_strlit("view.toggle_ortho");
    reveal_strlit("view.camera");
    reveal_strlit("view.orbit_up");
    reveal_strlit("view.orbit_down");
    reveal_strlit("view.orbit_left");
    reveal_strlit("view.orbit_right");
    reveal_strlit("view.pie");
    reveal_strlit("view.bookmark_save");
    reveal_strlit("view.bookmark_recall_1");
    reveal_strlit("view.bookmark_recall_2");
    reveal_strlit("view.bookmark_recall_3");
    reveal_strlit("view.bookmark_recall_4");
    reveal_strlit("view.bookmark_recall_5");
    reveal_strlit("view.bookmark_recall_6");
    reveal_strlit("view.bookmark_recall_7");
    reveal_strlit("view.bookmark_recall_8");
    reveal_strlit("view.bookmark_recall_9");
    reveal_strlit("view.toggle_n_panel");
    reveal_strlit("view.toggle_t_panel");
    reveal_strlit("select.all");
    reveal_strlit("select.quick");
    reveal_strlit("select.replace");
    reveal_strlit("select.deselect");
    reveal_strlit("transform.nudge_x_neg");
    reveal_strlit("transform.nudge_x_pos");
    reveal_strlit("transform.nudge_z_neg");
    reveal_strlit("transform.nudge_z_pos");
    reveal_strlit("transform.nudge_y_up");
    reveal_strlit("transform.nudge_y_down");
    reveal_strlit("transform.nudge_x_neg_1m");
    reveal_strlit("transform.nudge_x_pos_1m");
    reveal_strlit("transform.nudge_z_neg_1m");
    reveal_strlit("transform.nudge_z_pos_1m");
    reveal_strlit("transform.nudge_y_up_1m");
    reveal_strlit("transform.nudge_y_down_1m");
    reveal_strlit("transform.move");
    reveal_strlit("transform.rotate");
    reveal_strlit("transform.scale");
    reveal_strlit("transform.axis_x");
    reveal_strlit("transform.axis_y");
    reveal_strlit("transform.axis_z");
    reveal_strlit("kmi.add_menu");
    reveal_strlit("object.add");
    reveal_strlit("cursor.snap_to_selection");
    reveal_strlit("cursor.reset");
    reveal_strlit("fixture.duplicate");
    reveal_strlit("fixture.patch");
    reveal_strlit("fixture.unpatch");
    reveal_strlit("object.delete");
    reveal_strlit("kmi.patch");
    reveal_strlit("kmi.unpatch");
    reveal_strlit("kmi.duplicate");
    reveal_strlit("kmi.duplicate_grab");
    reveal_strlit("kmi.delete");
    reveal_strlit("kmi.delete_alias");
    reveal_strlit("edit.undo");
    reveal_strlit("edit.redo");
    reveal_strlit("edit.redo_alias");
    reveal_strlit("edit.operator_search");
    reveal_strlit("edit.adjust_last");
    reveal_strlit("view.frame_selection_alias");
    reveal_strlit("view.frame_all_alias");
    reveal_strlit("file.save");
    reveal_strlit("file.save_as");
    reveal_strlit("file.open");
    reveal_strlit("file.new");
    reveal_strlit("app.preferences");
    reveal_strlit("window.report_log");
    reveal_strlit("window.workspace_1");
    reveal_strlit("window.workspace_2");
    reveal_strlit("window.workspace_3");
    reveal_strlit("window.workspace_4");
    reveal_strlit("window.workspace_5");
    reveal_strlit("window.workspace_6");
    reveal_strlit("window.workspace_7");
    reveal_strlit("window.workspace_8");
    reveal_strlit("window.workspace_9");
    assert("kmi.add_menu"@.subrange(0, 4) =~= "kmi."@);
    assert("kmi.patch"@.subrange(0, 4) =~= "kmi."@);
    assert("kmi.unpatch"@.subrange(0, 4) =~= "kmi."@);
    assert("kmi.duplicate"@.subrange(0, 4) =~= "kmi."@);
    assert("kmi.duplicate_grab"@.subrange(0, 4) =~= "kmi."@);
    assert("kmi.delete"@.subrange(0, 4) =~= "kmi."@);
    assert("kmi.delete_alias"@.subrange(0, 4) =~= "kmi."@);
    assert("edit.redo_alias"@.subrange(9, 15) =~= "_alias"@);
    assert("view.frame_selection_alias"@.subrange(20, 26) =~= "_alias"@);
    assert("view.frame_all_alias"@.subrange(14, 20) =~= "_alias"@);
    assert(action_index(command_table()[0].action) == 0);
    assert(action_index(command_table()[1].action) == 1);
    assert(action_index(command_table()[2].action) == 2);
    assert(action_index(command_table()[3].action) == 3);
    assert(action_index(command_table()[4].action) == 4);
    assert(action_index(command_table()[5].action) == 5);
    assert(action_index(command_table()[6].action) == 6);
    assert(action_index(command_table()[7].action) == 7);
    assert(action_index(command_table()[8].action) == 8);
    assert(action_index(command_table()[9].action) == 9);
    assert(action_index(command_table()[10].action) == 10);
    assert(action_index(command_table()[11].action) == 11);
    assert(action_index(command_table()[12].action) == 12);
    assert(action_index(command_table()[13].action) == 13);
    assert(action_index(command_table()[15].action) == 15);
    assert(action_index(command_table()[16].action) == 16);
    assert(action_index(command_table()[17].action) == 17);
    assert(action_index(command_table()[18].action) == 18);
    assert(action_index(command_table()[19].action) == 19);
    assert(action_index(command_table()[20].action) == 20);
    assert(action_index(command_table()[21].action) == 21);
    assert(action_index(command_table()[22].action) == 22);
    assert(action_index(command_table()[23].action) == 23);
    assert(action_index(command_table()[24].action) == 24);
    assert(action_index(command_table()[25].action) == 25);
    assert(action_index(command_table()[26].action) == 26);
    assert(action_index(command_table()[27].action) == 27);
    assert(action_index(command_table()[28].action) == 28);
    assert(action_index(command_table()[29].action) == 29);
    assert(action_index(command_table()[30].action) == 30);
    assert(action_index(command_table()[31].action) == 31);
    assert(action_index(command_table()[32].action) == 32);
    assert(action_index(command_table()[33].action) == 33);
    assert(action_index(command_table()[34].action) == 34);
    assert(action_index(command_table()[35].action) == 35);
    assert(action_index(command_table()[36].action) == 36);
    assert(action_index(command_table()[37].action) == 37);
    assert(action_index(command_table()[38].action) == 38);
    assert(action_index(command_table()[39].action) == 39);
    assert(action_index(command_table()[40].action) == 40);
    assert(action_index(command_table()[41].action) == 41);
    assert(action_index(command_table()[42].action) == 42);
    assert(action_index(command_table()[43].action) == 43);
    assert(action_index(command_table()[44].action) == 44);
    assert(action_index(command_table()[45].action) == 45);
    assert(action_index(command_table()[46].action) == 46);
    assert(action_index(command_table()[47].action) == 47);
    assert(action_index(command_table()[55].action) == 55);
    assert(action_index(command_table()[56].action) == 56);
    assert(action_index(command_table()[57].action) == 57);
    assert(action_index(command_table()[58].action) == 58);
    assert(action_index(command_table()[59].action) == 59);
    assert(action_index(command_table()[60].action) == 60);
    assert(action_index(command_table()[61].action) == 61);
    assert(action_index(command_table()[68].action) == 68);
    assert(action_index(command_table()[69].action) == 69);
    assert(action_index(command_table()[71].action) == 71);
    assert(action_index(command_table()[72].action) == 72);
    assert(action_index(command_table()[75].action) == 75);
    assert(action_index(command_table()[76].action) == 76);
    assert(action_index(command_table()[77].action) == 77);
    assert(action_index(command_table()[78].action) == 78);
    assert(action_index(command_table()[79].action) == 79);
    assert(action_index(command_table()[80].action) == 80);
    assert(action_index(command_table()[81].action) == 81);
    assert(action_index(command_table()[82].action) == 82);
    assert(action_index(command_table()[83].action) == 83);
    assert(action_index(command_table()[84].action) == 84);
    assert(action_index(command_table()[85].action) == 85);
    assert(action_index(command_table()[86].action) == 86);
    assert(action_index(command_table()[87].action) == 87);
    assert(action_index(command_table()[88].action) == 88);
    assert(action_index(command_table()[89].action) == 89);
}

/// No two rows of the palette dispatch the same action.
pub proof fn palette_actions_are_unique(i: int, j: int)
    requires
        0 <= i < command_table().len(),
        0 <= j < command_table().len(),
        command_table()[i].in_palette(),
        command_table()[j].in_palette(),
        command_table()[i].action == command_table()[j].action,
    ensures
        i == j,
{
    lemma_action_index();
}

} // verus!
