//! Transform-tool options: pivot point, orientation and snap target.

use vstd::prelude::*;

verus! {

/// How the pivot is derived from the selection.
#[derive(Clone, Copy, Debug, PartialEq, Eq, Structural)]
pub enum PivotMode {
    /// The centroid of the selected elements.
    Median,
    /// Each element about its own origin.
    Individual,
    /// The first selected element's origin.
    Active,
    /// The world 3D cursor.
    Cursor3d,
}

impl Default for PivotMode {
    fn default() -> (r: Self)
        ensures
            r == PivotMode::Median,
    {
        PivotMode::Median
    }
}

impl PivotMode {
    /// The dropdown's order.
    pub const ALL: [PivotMode; 4] = [
        PivotMode::Median,
        PivotMode::Active,
        PivotMode::Individual,
        PivotMode::Cursor3d,
    ];

    /// The menu label.
    pub fn label(self) -> (r: &'static str)
        ensures
            r@ == (match self {
                PivotMode::Median => "Median Point"@,
                PivotMode::Individual => "Individual Origins"@,
                PivotMode::Active => "Active Element"@,
                PivotMode::Cursor3d => "3D Cursor"@,
            }),
    {
        match self {
            PivotMode::Median => "Median Point",
            PivotMode::Individual => "Individual Origins",
            PivotMode::Active => "Active Element",
            PivotMode::Cursor3d => "3D Cursor",
        }
    }

    /// The hover text.
    pub fn hint(self) -> (r: &'static str)
        ensures
            r@ == (match self {
                PivotMode::Median => "Pivot about the selection centroid"@,
                PivotMode::Individual => "Each element transforms about its own origin"@,
                PivotMode::Active => "Pivot about the active (first) element's origin"@,
                PivotMode::Cursor3d => "Pivot about the world 3D cursor"@,
            }),
    {
        match self {
            PivotMode::Median => "Pivot about the selection centroid",
            PivotMode::Individual => "Each element transforms about its own origin",
            PivotMode::Active => "Pivot about the active (first) element's origin",
            PivotMode::Cursor3d => "Pivot about the world 3D cursor",
        }
    }

    /// Does each element have its own pivot?
    pub fn is_individual(self) -> (r: bool)
        ensures
            r == (self == PivotMode::Individual),
    {
        match self {
            PivotMode::Individual => true,
            _ => false,
        }
    }
}

/// The basis that the transform axes are expressed in.
#[derive(Clone, Copy, Debug, PartialEq, Eq, Structural)]
pub enum TransformOrientation {
    /// The world axes.
    Global,
    /// The active element's own axes.
    Local,
    /// The camera's axes.
    View,
}

impl Default for TransformOrientation {
    fn default() -> (r: Self)
        ensures
            r == TransformOrientation::Global,
    {
        TransformOrientation::Global
    }
}

impl TransformOrientation {
    /// The dropdown's order.
    pub const ALL: [TransformOrientation; 3] = [
        TransformOrientation::Global,
        TransformOrientation::Local,
        TransformOrientation::View,
    ];

    /// The menu label.
    pub fn label(self) -> (r: &'static str)
        ensures
            r@ == (match self {
                TransformOrientation::Global => "Global"@,
                TransformOrientation::Local => "Local"@,
                TransformOrientation::View => "View"@,
            }),
    {
        match self {
            TransformOrientation::Global => "Global",
            TransformOrientation::Local => "Local",
            TransformOrientation::View => "View",
        }
    }

    /// The hover text.
    pub fn hint(self) -> (r: &'static str)
        ensures
            r@ == (match self {
                TransformOrientation::Global => "Transform along the world axes"@,
                TransformOrientation::Local => "Transform along the active element's own axes"@,
                TransformOrientation::View => "Transform along the camera's screen axes"@,
            }),
    {
        match self {
            TransformOrientation::Global => "Transform along the world axes",
            TransformOrientation::Local => "Transform along the active element's own axes",
            TransformOrientation::View => "Transform along the camera's screen axes",
        }
    }
}

/// What a snapped move aims at.
#[derive(Clone, Copy, Debug, PartialEq, Eq, Structural)]
pub enum SnapMode {
    /// The nearest multiple of the increment.
    Increment,
    /// The nearest other object's origin.
    Vertex,
    /// The surface under the cursor.
    Surface,
}

impl Default for SnapMode {
    fn default() -> (r: Self)
        ensures
            r == SnapMode::Increment,
    {
        SnapMode::Increment
    }
}

impl SnapMode {
    /// The dropdown's order.
    pub const ALL: [SnapMode; 3] = [SnapMode::Increment, SnapMode::Vertex, SnapMode::Surface];

    /// The menu label.
    pub fn label(self) -> (r: &'static str)
        ensures
            r@ == (match self {
                SnapMode::Increment => "Grid"@,
                SnapMode::Vertex => "Vertex"@,
                SnapMode::Surface => "Surface"@,
            }),
    {
        match self {
            SnapMode::Increment => "Grid",
            SnapMode::Vertex => "Vertex",
            SnapMode::Surface => "Surface",
        }
    }

    /// The hover text.
    pub fn hint(self) -> (r: &'static str)
        ensures
            r@ == (match self {
                SnapMode::Increment => "Snap the moved amount to the grid increment"@,
                SnapMode::Vertex => "Snap the moved origin to the nearest other object's origin"@,
                SnapMode::Surface => "Drop the moved origin onto the surface under the cursor"@,
            }),
    {
        match self {
            SnapMode::Increment => "Snap the moved amount to the grid increment",
            SnapMode::Vertex => "Snap the moved origin to the nearest other object's origin",
            SnapMode::Surface => "Drop the moved origin onto the surface under the cursor",
        }
    }
}

/// When a transform snaps, and what a snapped move aims at.
#[derive(Clone, Copy, Debug, PartialEq, Eq, Structural)]
pub struct SnapPolicy {
    pub on: bool,
    /// Rotating and scaling always go by the increment.
    pub mode: SnapMode,
}

impl Default for SnapPolicy {
    fn default() -> (r: Self)
        ensures
            r == (SnapPolicy { on: false, mode: SnapMode::Increment }),
    {
        SnapPolicy { on: false, mode: SnapMode::Increment }
    }
}

impl SnapPolicy {
    /// Does the transform snap now? Holding Ctrl inverts the toggle.
    #[verifier::allow_in_spec]
    pub fn engaged(self, ctrl: bool) -> bool
        returns
            self.on != ctrl,
    {
        self.on != ctrl
    }
}

/// The transform options of a viewport.
#[derive(Clone, Copy, Debug, PartialEq, Eq, Structural)]
pub struct TransformPrefs {
    pub pivot: PivotMode,
    pub orientation: TransformOrientation,
    pub snap: SnapPolicy,
}

impl Default for TransformPrefs {
    fn default() -> (r: Self)
        ensures
            r == (TransformPrefs {
                pivot: PivotMode::Median,
                orientation: TransformOrientation::Global,
                snap: SnapPolicy { on: false, mode: SnapMode::Increment },
            }),
    {
        TransformPrefs {
            pivot: PivotMode::Median,
            orientation: TransformOrientation::Global,
            snap: SnapPolicy { on: false, mode: SnapMode::Increment },
        }
    }
}

/// Holding Ctrl turns snapping on where it is off and off where it is on.
pub proof fn ctrl_inverts_snapping(policy: SnapPolicy)
    ensures
        policy.on ==> policy.engaged(false) && !policy.engaged(true),
        !policy.on ==> !policy.engaged(false) && policy.engaged(true),
{
}

} // verus!
