//! Radial pie menus: how one is opened, picked from and cancelled, and the
//! View and Shading pies.

use vstd::prelude::*;
use crate::shortcuts::registry::CameraView;
use crate::theme::Icon;

verus! {

/// One labelled sector, with or without an icon.
#[derive(Debug)]
pub struct PieItem {
    pub icon: Option<Icon>,
    pub label: String,
}

impl PieItem {
    /// A sector with a label.
    pub fn new(icon: Option<Icon>, label: &str) -> (r: PieItem)
        ensures
            r.icon == icon,
            r.label@ == label@,
    {
        PieItem { icon, label: label.to_owned() }
    }
}

/// A pie across frames: whether it is open and where its centre is.
#[derive(Debug)]
pub struct PieState<P> {
    pub open: bool,
    pub center: P,
}

impl<P> PieState<P> {
    /// Open the pie with its centre at `at`.
    pub fn open_at(&mut self, at: P)
        ensures
            final(self).open,
            final(self).center == at,
    {
        self.open = true;
        self.center = at;
    }
}

/// What a frame's input does to an open pie.
#[derive(Clone, Copy, Debug, PartialEq, Eq, Structural)]
pub enum PieOutcome {
    /// It is not open, or has nothing to show.
    Closed,
    StillOpen,
    Cancelled,
    Picked(usize),
}

/// What a frame's input does to a pie of `n` sectors. Escape cancels; a click
/// or a release picks the sector that the pointer is in, and cancels where it
/// is in none.
#[verifier::allow_in_spec]
pub fn pie_step(
    open: bool,
    n: usize,
    escape: bool,
    released: bool,
    highlight: Option<usize>,
) -> PieOutcome
    returns
        (if !open || n == 0 {
            PieOutcome::Closed
        } else if escape {
            PieOutcome::Cancelled
        } else if released {
            match highlight {
                Some(i) => PieOutcome::Picked(i),
                None => PieOutcome::Cancelled,
            }
        } else {
            PieOutcome::StillOpen
        }),
{
    if !open || n == 0 {
        PieOutcome::Closed
    } else if escape {
        PieOutcome::Cancelled
    } else if released {
        match highlight {
            Some(i) => PieOutcome::Picked(i),
            None => PieOutcome::Cancelled,
        }
    } else {
        PieOutcome::StillOpen
    }
}

/// Apply an outcome to the pie: a pick and a cancel close it. The sector
/// picked, if any, is returned.
pub fn settle_pie<P>(state: &mut PieState<P>, outcome: PieOutcome) -> (r: Option<usize>)
    ensures
        (final(state).open, r) == pie_settled(old(state).open, outcome),
        final(state).center == old(state).center,
        final(state).open == (old(state).open && !(outcome is Cancelled) && !(outcome is Picked)),
        r == (match outcome {
            PieOutcome::Picked(i) => Some(i),
            _ => None,
        }),
{
    match outcome {
        PieOutcome::Picked(i) => {
            state.open = false;
            Some(i)
        },
        PieOutcome::Cancelled => {
            state.open = false;
            None
        },
        _ => None,
    }
}

/// A labelled value, with or without an icon.
#[derive(Debug)]
pub struct Choice<T> {
    pub icon: Option<Icon>,
    pub label: String,
    pub value: T,
}

impl<T> Choice<T> {
    /// A value with a label.
    pub fn new(icon: Option<Icon>, label: &str, value: T) -> (r: Choice<T>)
        ensures
            r.icon == icon,
            r.label@ == label@,
            r.value == value,
    {
        Choice { icon, label: label.to_owned(), value }
    }
}

/// The value of the sector picked, moved out of the list.
pub fn take_choice<T>(choices: Vec<Choice<T>>, picked: Option<usize>) -> (r: Option<T>)
    requires
        picked matches Some(i) ==> i < choices@.len(),
    ensures
        r == (match picked {
            Some(i) => Some(choices@[i as int].value),
            None => None,
        }),
{
    let mut choices = choices;
    match picked {
        Some(i) => {
            let c = choices.swap_remove(i);
            Some(c.value)
        },
        None => None,
    }
}

/// The viewport's display modes.
#[derive(Clone, Copy, Debug, PartialEq, Eq, Structural)]
pub enum ViewportMode {
    Beauty,
    Unlit,
    Wireframe,
}

impl ViewportMode {
    /// The menu order.
    pub const ALL: [ViewportMode; 3] = [
        ViewportMode::Beauty,
        ViewportMode::Unlit,
        ViewportMode::Wireframe,
    ];

    /// The menu label.
    pub fn label(self) -> (r: &'static str)
        ensures
            r@ == (match self {
                ViewportMode::Beauty => "Beauty"@,
                ViewportMode::Unlit => "Unlit"@,
                ViewportMode::Wireframe => "Wireframe"@,
            }),
    {
        match self {
            ViewportMode::Beauty => "Beauty",
            ViewportMode::Unlit => "Unlit",
            ViewportMode::Wireframe => "Wireframe",
        }
    }
}

/// What a sector of the Shading pie does.
#[derive(Clone, Copy, Debug, PartialEq, Eq, Structural)]
pub enum ShadingChoice {
    Mode(ViewportMode),
    ToggleGrid,
    ToggleStats,
}

/// The Shading pie's values, clockwise from straight up.
pub open spec fn shading_values() -> Seq<ShadingChoice> {
    seq![
        ShadingChoice::Mode(ViewportMode::Beauty),
        ShadingChoice::ToggleGrid,
        ShadingChoice::Mode(ViewportMode::Unlit),
        ShadingChoice::ToggleStats,
        ShadingChoice::Mode(ViewportMode::Wireframe),
    ]
}

/// The label of a Shading sector.
pub open spec fn shading_label(choice: ShadingChoice) -> Seq<char> {
    match choice {
        ShadingChoice::Mode(ViewportMode::Beauty) => "Beauty"@,
        ShadingChoice::Mode(ViewportMode::Unlit) => "Unlit"@,
        ShadingChoice::Mode(ViewportMode::Wireframe) => "Wireframe"@,
        ShadingChoice::ToggleGrid => "Grid"@,
        ShadingChoice::ToggleStats => "Stats"@,
    }
}

/// The icon of a Shading sector.
pub open spec fn shading_icon(choice: ShadingChoice) -> Icon {
    match choice {
        ShadingChoice::Mode(ViewportMode::Beauty) => Icon::Viewport,
        ShadingChoice::Mode(ViewportMode::Unlit) => Icon::Fixture,
        ShadingChoice::Mode(ViewportMode::Wireframe) => Icon::Geometry,
        ShadingChoice::ToggleGrid => Icon::Patch,
        ShadingChoice::ToggleStats => Icon::Perf,
    }
}

/// The Shading pie's sectors, clockwise from straight up.
pub fn shading_pie_choices() -> (r: Vec<Choice<ShadingChoice>>)
    ensures
        r@.len() == shading_values().len(),
        forall|i: int|
            0 <= i < r@.len() ==> (#[trigger] r@[i]).value == shading_values()[i] && r@[i].label@
                == shading_label(r@[i].value) && r@[i].icon == Some(shading_icon(r@[i].value)),
{
    vec![
        Choice::new(Some(Icon::Viewport), "Beauty", ShadingChoice::Mode(ViewportMode::Beauty)),
        Choice::new(Some(Icon::Patch), "Grid", ShadingChoice::ToggleGrid),
        Choice::new(Some(Icon::Fixture), "Unlit", ShadingChoice::Mode(ViewportMode::Unlit)),
        Choice::new(Some(Icon::Perf), "Stats", ShadingChoice::ToggleStats),
        Choice::new(
            Some(Icon::Geometry),
            "Wireframe",
            ShadingChoice::Mode(ViewportMode::Wireframe),
        ),
    ]
}

/// The settings that the Shading pie changes.
#[derive(Clone, Copy, Debug, PartialEq, Eq, Structural)]
pub struct ShadingSettings {
    pub mode: ViewportMode,
    pub show_grid: bool,
    pub show_stats: bool,
}

/// Apply a sector of the Shading pie: a mode is switched to, an overlay is
/// flipped, and the rest stays.
pub fn apply_shading_choice(s: &mut ShadingSettings, choice: ShadingChoice)
    ensures
        *final(s) == shaded(*old(s), choice),
        *final(s) == (match choice {
            ShadingChoice::Mode(mode) => ShadingSettings { mode, ..*old(s) },
            ShadingChoice::ToggleGrid => ShadingSettings {
                show_grid: !old(s).show_grid,
                ..*old(s)
            },
            ShadingChoice::ToggleStats => ShadingSettings {
                show_stats: !old(s).show_stats,
                ..*old(s)
            },
        }),
{
    match choice {
        ShadingChoice::Mode(m) => {
            s.mode = m;
        },
        ShadingChoice::ToggleGrid => {
            s.show_grid = !s.show_grid;
        },
        ShadingChoice::ToggleStats => {
            s.show_stats = !s.show_stats;
        },
    }
}

/// What a sector of the View pie does.
#[derive(Clone, Copy, Debug, PartialEq, Eq, Structural)]
pub enum ViewChoice {
    View(CameraView),
    ToggleOrtho,
    FrameSelected,
}

/// The View pie's values, clockwise from straight up: the axis views lie where
/// they point (Top up, Right right, Bottom down, Left left), and the diagonals
/// hold the rest.
pub open spec fn view_values() -> Seq<ViewChoice> {
    seq![
        ViewChoice::View(CameraView::Top),
        ViewChoice::ToggleOrtho,
        ViewChoice::View(CameraView::Right),
        ViewChoice::View(CameraView::Back),
        ViewChoice::View(CameraView::Bottom),
        ViewChoice::FrameSelected,
        ViewChoice::View(CameraView::Left),
        ViewChoice::View(CameraView::Front),
    ]
}

/// The label of a View sector.
pub open spec fn view_label(choice: ViewChoice) -> Seq<char> {
    match choice {
        ViewChoice::View(CameraView::Top) => "Top"@,
        ViewChoice::View(CameraView::Right) => "Right"@,
        ViewChoice::View(CameraView::Back) => "Back"@,
        ViewChoice::View(CameraView::Bottom) => "Bottom"@,
        ViewChoice::View(CameraView::Front) => "Front"@,
        ViewChoice::View(CameraView::Left) => "Left"@,
        ViewChoice::ToggleOrtho => "Persp/Ortho"@,
        ViewChoice::FrameSelected => "Frame Sel."@,
    }
}

/// The icon of a View sector.
pub open spec fn view_icon(choice: ViewChoice) -> Icon {
    match choice {
        ViewChoice::View(_) => Icon::Viewport,
        ViewChoice::ToggleOrtho => Icon::Camera,
        ViewChoice::FrameSelected => Icon::Frame,
    }
}

/// The View pie's sectors, clockwise from straight up.
pub fn view_pie_choices() -> (r: Vec<Choice<ViewChoice>>)
    ensures
        r@.len() == view_values().len(),
        forall|i: int|
            0 <= i < r@.len() ==> (#[trigger] r@[i]).value == view_values()[i] && r@[i].label@
                == view_label(r@[i].value) && r@[i].icon == Some(view_icon(r@[i].value)),
{
    vec![
        Choice::new(Some(Icon::Viewport), "Top", ViewChoice::View(CameraView::Top)),
        Choice::new(Some(Icon::Camera), "Persp/Ortho", ViewChoice::ToggleOrtho),
        Choice::new(Some(Icon::Viewport), "Right", ViewChoice::View(CameraView::Right)),
        Choice::new(Some(Icon::Viewport), "Back", ViewChoice::View(CameraView::Back)),
        Choice::new(Some(Icon::Viewport), "Bottom", ViewChoice::View(CameraView::Bottom)),
        Choice::new(Some(Icon::Frame), "Frame Sel.", ViewChoice::FrameSelected),
        Choice::new(Some(Icon::Viewport), "Left", ViewChoice::View(CameraView::Left)),
        Choice::new(Some(Icon::Viewport), "Front", ViewChoice::View(CameraView::Front)),
    ]
}

/// Every display mode is offered by one sector of the Shading pie, in menu
/// order, and both overlays are.
pub proof fn shading_pie_offers_everything(choice: ShadingChoice)
    ensures
        exists|i: int| 0 <= i < shading_values().len() && #[trigger] shading_values()[i] == choice,
        forall|i: int, j: int|
            0 <= i < shading_values().len() && 0 <= j < shading_values().len()
                && #[trigger] shading_values()[i] == #[trigger] shading_values()[j] ==> i == j,
        shading_values().filter(|c: ShadingChoice| c is Mode) == ViewportMode::ALL@.map_values(
            |m: ViewportMode| ShadingChoice::Mode(m),
        ),
{
    let s = shading_values();
    match choice {
        ShadingChoice::Mode(ViewportMode::Beauty) => assert(s[0] == choice),
        ShadingChoice::ToggleGrid => assert(s[1] == choice),
        ShadingChoice::Mode(ViewportMode::Unlit) => assert(s[2] == choice),
        ShadingChoice::ToggleStats => assert(s[3] == choice),
        ShadingChoice::Mode(ViewportMode::Wireframe) => assert(s[4] == choice),
    }
    let p = |c: ShadingChoice| c is Mode;
    reveal_with_fuel(Seq::filter, 6);
    assert(s.drop_last() =~= s.take(4));
    assert(s.take(4).drop_last() =~= s.take(3));
    assert(s.take(3).drop_last() =~= s.take(2));
    assert(s.take(2).drop_last() =~= s.take(1));
    assert(s.take(1).drop_last() =~= s.take(0));
    assert(s.filter(p) =~= seq![s[0], s[2], s[4]]);
    assert(ViewportMode::ALL@.map_values(|m: ViewportMode| ShadingChoice::Mode(m)) =~= seq![
        s[0],
        s[2],
        s[4],
    ]);
}

/// An open pie is picked from by a release in a sector, that sector; a release in none,
/// and Escape, cancel it, and until then it stays open. A pie that is closed or empty does
/// nothing.
pub proof fn pie_picks_where_it_is_released(n: usize, escape: bool, released: bool, i: usize)
    requires
        n > 0,
    ensures
        pie_step(true, n, false, true, Some(i)) == PieOutcome::Picked(i),
        pie_step(true, n, false, true, None) == PieOutcome::Cancelled,
        pie_step(true, n, true, released, Some(i)) == PieOutcome::Cancelled,
        pie_step(true, n, false, false, Some(i)) == PieOutcome::StillOpen,
        pie_step(false, n, escape, released, Some(i)) == PieOutcome::Closed,
        pie_step(true, 0, escape, released, Some(i)) == PieOutcome::Closed,
{
}

/// Is the pie open after an outcome, and which sector was picked?
pub open spec fn pie_settled(open: bool, outcome: PieOutcome) -> (bool, Option<usize>) {
    (
        open && !(outcome is Cancelled) && !(outcome is Picked),
        match outcome {
            PieOutcome::Picked(i) => Some(i),
            _ => None,
        },
    )
}

/// A pick closes the pie and is reported, a cancel closes it and reports nothing, and
/// otherwise it stays as it was.
pub proof fn outcome_closes_the_pie(open: bool, i: usize)
    ensures
        pie_settled(open, PieOutcome::Picked(i)) == (false, Some(i)),
        pie_settled(open, PieOutcome::Cancelled) == (false, None::<usize>),
        pie_settled(open, PieOutcome::StillOpen) == (open, None::<usize>),
        pie_settled(open, PieOutcome::Closed) == (open, None::<usize>),
{
}

/// The settings after a sector of the Shading pie.
pub open spec fn shaded(s: ShadingSettings, choice: ShadingChoice) -> ShadingSettings {
    match choice {
        ShadingChoice::Mode(mode) => ShadingSettings { mode, ..s },
        ShadingChoice::ToggleGrid => ShadingSettings { show_grid: !s.show_grid, ..s },
        ShadingChoice::ToggleStats => ShadingSettings { show_stats: !s.show_stats, ..s },
    }
}

/// A mode's sector switches to that mode, and each overlay's sector flips that overlay and
/// back; nothing else changes.
pub proof fn sectors_change_their_setting(s: ShadingSettings, mode: ViewportMode)
    ensures
        ({
            let m = shaded(s, ShadingChoice::Mode(mode));
            let g = shaded(s, ShadingChoice::ToggleGrid);
            let t = shaded(s, ShadingChoice::ToggleStats);
            &&& m.mode == mode && m.show_grid == s.show_grid && m.show_stats == s.show_stats
            &&& g.mode == s.mode && g.show_grid != s.show_grid && g.show_stats == s.show_stats
            &&& t.mode == s.mode && t.show_grid == s.show_grid && t.show_stats != s.show_stats
            &&& shaded(g, ShadingChoice::ToggleGrid) == s
            &&& shaded(t, ShadingChoice::ToggleStats) == s
        }),
{
}

/// The View pie offers every view, the projection and the framing, each in one sector, and
/// the axis views lie opposite each other: four sectors from Top to Bottom and from Right
/// to Left.
pub proof fn view_pie_offers_everything(choice: ViewChoice, i: int, j: int)
    ensures
        exists|k: int| 0 <= k < view_values().len() && #[trigger] view_values()[k] == choice,
        0 <= i < view_values().len() && 0 <= j < view_values().len() && view_values()[i]
            == view_values()[j] ==> i == j,
        0 <= i < 8 && 0 <= j < 8 && view_values()[i] == ViewChoice::View(CameraView::Top)
            && view_values()[j] == ViewChoice::View(CameraView::Bottom) ==> j == i + 4,
        0 <= i < 8 && 0 <= j < 8 && view_values()[i] == ViewChoice::View(CameraView::Right)
            && view_values()[j] == ViewChoice::View(CameraView::Left) ==> j == i + 4,
{
    let v = view_values();
    assert(v[0] == ViewChoice::View(CameraView::Top));
    assert(v[1] == ViewChoice::ToggleOrtho);
    assert(v[2] == ViewChoice::View(CameraView::Right));
    assert(v[3] == ViewChoice::View(CameraView::Back));
    assert(v[4] == ViewChoice::View(CameraView::Bottom));
    assert(v[5] == ViewChoice::FrameSelected);
    assert(v[6] == ViewChoice::View(CameraView::Left));
    assert(v[7] == ViewChoice::View(CameraView::Front));
}

} // verus!
