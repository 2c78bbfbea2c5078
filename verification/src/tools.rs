//! The viewport's tools: one table row per tool, from which the rail, the
//! gizmos and the viewport's dispatch read.

use vstd::prelude::*;
use crate::theme::Icon;

verus! {

/// The viewport's active tool.
#[derive(Clone, Copy, Debug, PartialEq, Eq, Structural)]
pub enum ActiveTool {
    Select,
    Move,
    Rotate,
    Scale,
    Aim,
    Measure,
    Add,
}

impl Default for ActiveTool {
    fn default() -> (r: Self)
        ensures
            r == ActiveTool::Select,
    {
        ActiveTool::Select
    }
}

/// The gizmo that a tool draws at the selection's pivot.
#[derive(Clone, Copy, Debug, PartialEq, Eq, Structural)]
pub enum GizmoKind {
    /// Plain click-select.
    NoGizmo,
    Move,
    Rotate,
    Scale,
}

/// One row of the tool table.
#[derive(Clone, Copy, Debug)]
pub struct ToolDef {
    pub tool: ActiveTool,
    /// A stable id, `tool.<verb>`.
    pub id: &'static str,
    pub label: &'static str,
    pub icon: Icon,
    pub tooltip: &'static str,
    pub gizmo: GizmoKind,
    /// The command that runs when the tool does not handle a press itself.
    pub fallback_op: Option<&'static str>,
}

/// The tool table, in rail order.
pub open spec fn tool_table() -> Seq<ToolDef> {
    seq![
        ToolDef {
            tool: ActiveTool::Select,
            id: "tool.select",
            label: "Select",
            icon: Icon::ToolSelect,
            tooltip: "Select — click to pick objects",
            gizmo: GizmoKind::NoGizmo,
            fallback_op: Some("select.replace"),
        },
        ToolDef {
            tool: ActiveTool::Move,
            id: "tool.move",
            label: "Move",
            icon: Icon::ToolMove,
            tooltip: "Move — drag the RGB axis handles to translate",
            gizmo: GizmoKind::Move,
            fallback_op: Some("select.replace"),
        },
        ToolDef {
            tool: ActiveTool::Rotate,
            id: "tool.rotate",
            label: "Rotate",
            icon: Icon::ToolRotate,
            tooltip: "Rotate — drag a ring to rotate about that axis",
            gizmo: GizmoKind::Rotate,
            fallback_op: Some("select.replace"),
        },
        ToolDef {
            tool: ActiveTool::Scale,
            id: "tool.scale",
            label: "Scale",
            icon: Icon::ToolScale,
            tooltip: "Scale — drag a box to scale (centre = uniform)",
            gizmo: GizmoKind::Scale,
            fallback_op: Some("select.replace"),
        },
        ToolDef {
            tool: ActiveTool::Aim,
            id: "tool.aim",
            label: "Aim",
            icon: Icon::ToolAim,
            tooltip: "Aim — drag to point the selected head(s) at the cursor",
            gizmo: GizmoKind::NoGizmo,
            fallback_op: Some("select.replace"),
        },
        ToolDef {
            tool: ActiveTool::Measure,
            id: "tool.measure",
            label: "Measure",
            icon: Icon::ToolMeasure,
            tooltip: "Measure — click two points for distance (Esc clears)",
            gizmo: GizmoKind::NoGizmo,
            fallback_op: Some("select.replace"),
        },
        ToolDef {
            tool: ActiveTool::Add,
            id: "tool.add",
            label: "Add",
            icon: Icon::Add,
            tooltip: "Add (coming soon) — use Shift+A for the add menu",
            gizmo: GizmoKind::NoGizmo,
            fallback_op: Some("select.replace"),
        },
    ]
}

/// The tool table, in rail order.
pub fn tools() -> (r: Vec<ToolDef>)
    ensures
        r@ == tool_table(),
{
    vec![
        ToolDef {
            tool: ActiveTool::Select,
            id: "tool.select",
            label: "Select",
            icon: Icon::ToolSelect,
            tooltip: "Select — click to pick objects",
            gizmo: GizmoKind::NoGizmo,
            fallback_op: Some("select.replace"),
        },
        ToolDef {
            tool: ActiveTool::Move,
            id: "tool.move",
            label: "Move",
            icon: Icon::ToolMove,
            tooltip: "Move — drag the RGB axis handles to translate",
            gizmo: GizmoKind::Move,
            fallback_op: Some("select.replace"),
        },
        ToolDef {
            tool: ActiveTool::Rotate,
            id: "tool.rotate",
            label: "Rotate",
            icon: Icon::ToolRotate,
            tooltip: "Rotate — drag a ring to rotate about that axis",
            gizmo: GizmoKind::Rotate,
            fallback_op: Some("select.replace"),
        },
        ToolDef {
            tool: ActiveTool::Scale,
            id: "tool.scale",
            label: "Scale",
            icon: Icon::ToolScale,
            tooltip: "Scale — drag a box to scale (centre = uniform)",
            gizmo: GizmoKind::Scale,
            fallback_op: Some("select.replace"),
        },
        ToolDef {
            tool: ActiveTool::Aim,
            id: "tool.aim",
            label: "Aim",
            icon: Icon::ToolAim,
            tooltip: "Aim — drag to point the selected head(s) at the cursor",
            gizmo: GizmoKind::NoGizmo,
            fallback_op: Some("select.replace"),
        },
        ToolDef {
            tool: ActiveTool::Measure,
            id: "tool.measure",
            label: "Measure",
            icon: Icon::ToolMeasure,
            tooltip: "Measure — click two points for distance (Esc clears)",
            gizmo: GizmoKind::NoGizmo,
            fallback_op: Some("select.replace"),
        },
        ToolDef {
            tool: ActiveTool::Add,
            id: "tool.add",
            label: "Add",
            icon: Icon::Add,
            tooltip: "Add (coming soon) — use Shift+A for the add menu",
            gizmo: GizmoKind::NoGizmo,
            fallback_op: Some("select.replace"),
        },
    ]
}

/// The place of a tool in the table.
pub open spec fn tool_place(tool: ActiveTool) -> int {
    match tool {
        ActiveTool::Select => 0,
        ActiveTool::Move => 1,
        ActiveTool::Rotate => 2,
        ActiveTool::Scale => 3,
        ActiveTool::Aim => 4,
        ActiveTool::Measure => 5,
        ActiveTool::Add => 6,
    }
}

impl ActiveTool {
    /// The rail, top to bottom.
    pub const TOOLBAR: [ActiveTool; 7] = [
        ActiveTool::Select,
        ActiveTool::Move,
        ActiveTool::Rotate,
        ActiveTool::Scale,
        ActiveTool::Aim,
        ActiveTool::Measure,
        ActiveTool::Add,
    ];

    /// The tool's row.
    pub open spec fn row(self) -> ToolDef {
        tool_table()[tool_place(self)]
    }

    /// The tool's row: the first of the table that describes it.
    pub fn def(self) -> (r: ToolDef)
        ensures
            r == self.row(),
            r.tool == self,
    {
        let rows = tools();
        let mut i: usize = 0;
        while i < rows.len()
            invariant
                i <= rows@.len(),
                rows@ == tool_table(),
                i <= tool_place(self),
            decreases rows@.len() - i,
        {
            if rows[i].tool == self {
                return rows[i];
            }
            i = i + 1;
        }
        rows[0]
    }

    /// The rail button's icon.
    pub fn icon(self) -> (r: Icon)
        ensures
            r == self.row().icon,
    {
        self.def().icon
    }

    /// The short label.
    pub fn label(self) -> (r: &'static str)
        ensures
            r == self.row().label,
    {
        self.def().label
    }

    /// The rail button's hover text.
    pub fn tooltip(self) -> (r: &'static str)
        ensures
            r == self.row().tooltip,
    {
        self.def().tooltip
    }

    /// The command that runs when the tool does not handle a press itself.
    pub fn fallback_op(self) -> (r: Option<&'static str>)
        ensures
            r == self.row().fallback_op,
    {
        self.def().fallback_op
    }

    /// Does the tool draw a transform gizmo?
    pub open spec fn draws_gizmo(self) -> bool {
        self is Move || self is Rotate || self is Scale
    }

    /// Does the tool draw a transform gizmo?
    pub fn shows_xform_gizmo(self) -> (r: bool)
        ensures
            r == self.draws_gizmo(),
            r == (self is Move || self is Rotate || self is Scale),
    {
        self.def().gizmo != GizmoKind::NoGizmo
    }
}

/// Every tool has one row of the table, and every row is some tool's: rail and
/// table list the same tools in the same order.
pub proof fn every_tool_has_one_row(tool: ActiveTool, i: int)
    requires
        0 <= i < tool_table().len(),
    ensures
        tool_table()[i].tool == tool <==> i == tool_place(tool),
        tool_table().len() == ActiveTool::TOOLBAR@.len(),
        ActiveTool::TOOLBAR@[i] == tool_table()[i].tool,
{
}

/// No two tools share an id.
pub proof fn tool_ids_are_unique(i: int, j: int)
    requires
        0 <= i < tool_table().len(),
        0 <= j < tool_table().len(),
        tool_table()[i].id@ == tool_table()[j].id@,
    ensures
        i == j,
{
    reveal_strlit("tool.select");
    reveal_strlit("tool.move");
    reveal_strlit("tool.rotate");
    reveal_strlit("tool.scale");
    reveal_strlit("tool.aim");
    reveal_strlit("tool.measure");
    reveal_strlit("tool.add");
    let a = tool_table()[i].id@;
    let b = tool_table()[j].id@;
    assert(a.len() == b.len());
    assert(a[5] == b[5]);
    assert(a[6] == b[6]);
}

/// Under every tool a press that the tool does not handle selects.
pub proof fn every_tool_falls_back_to_select(tool: ActiveTool)
    ensures
        tool.row().fallback_op matches Some(op) && op@ == "select.replace"@,
{
}

/// The tools that transform draw the gizmo of their own kind, and the others draw none.
pub proof fn transform_tools_draw_their_gizmo(tool: ActiveTool)
    ensures
        tool.row().gizmo == GizmoKind::Move <==> tool == ActiveTool::Move,
        tool.row().gizmo == GizmoKind::Rotate <==> tool == ActiveTool::Rotate,
        tool.row().gizmo == GizmoKind::Scale <==> tool == ActiveTool::Scale,
        tool.draws_gizmo() <==> tool.row().gizmo != GizmoKind::NoGizmo,
{
}

} // verus!
