//! Workspaces: named arrangements of panels with a default tool and overlay
//! flags. Four are built in; the user saves others beside them.
//!
//! `D` is the arrangement of the panels.

use vstd::prelude::*;
use crate::shortcuts::registry::{
    command_table, every_command_is_found, registered, Action,
};
use crate::text::{same_text, trim_text, trimmed, trimming_takes_the_ends_off, white_space};
use crate::tools::ActiveTool;

verus! {

/// How many workspaces have a command of their own.
pub const SLOT_CAP: usize = 9;

/// The overlays that a workspace sets when it is activated.
#[derive(Clone, Copy, Debug, PartialEq, Eq, Structural)]
pub struct Overlays {
    pub labels: bool,
    pub stats: bool,
    pub grid: bool,
    pub gizmos: bool,
}

/// A workspace.
#[derive(Debug)]
pub struct Workspace<D> {
    pub name: String,
    pub dock: D,
    pub default_tool: ActiveTool,
    pub overlays: Overlays,
    pub builtin: bool,
}

/// What a [`Workspace`] is.
pub struct WorkspaceView<D> {
    pub name: Seq<char>,
    pub dock: D,
    pub default_tool: ActiveTool,
    pub overlays: Overlays,
    pub builtin: bool,
}

impl<D> View for Workspace<D> {
    type V = WorkspaceView<D>;

    open spec fn view(&self) -> WorkspaceView<D> {
        WorkspaceView {
            name: self.name@,
            dock: self.dock,
            default_tool: self.default_tool,
            overlays: self.overlays,
            builtin: self.builtin,
        }
    }
}

/// What the workspaces of a list are.
pub open spec fn workspace_views<D>(s: Seq<Workspace<D>>) -> Seq<WorkspaceView<D>> {
    Seq::new(s.len(), |i: int| s[i]@)
}

/// The set of workspaces, in display order, and the active one.
#[derive(Debug)]
pub struct Workspaces<D> {
    pub items: Vec<Workspace<D>>,
    pub active: usize,
}

/// The tabs of the panels.
#[derive(Clone, Copy, Debug, PartialEq, Eq, Structural)]
pub enum Tab {
    Viewport,
    Scene,
    Library,
    Inspector,
    Patch,
    DmxMonitor,
    Cues,
    Connectivity,
    Render,
}

/// The side that a split puts its tabs on.
#[derive(Clone, Copy, Debug, PartialEq, Eq, Structural)]
pub enum Side {
    Left,
    Right,
    Below,
}

/// A split of the remaining centre: its tabs go to a side, at a fraction of the
/// width or height in thousandths.
#[derive(Debug)]
pub struct Split {
    pub side: Side,
    pub thousandths: u16,
    pub tabs: Vec<Tab>,
}

/// The built-in workspaces.
#[derive(Clone, Copy, Debug, PartialEq, Eq, Structural)]
pub enum Preset {
    Design,
    Patch,
    Focus,
    Visualise,
}

impl Preset {
    /// The built-in workspaces, in display order.
    pub const ALL: [Preset; 4] = [
        Preset::Design,
        Preset::Patch,
        Preset::Focus,
        Preset::Visualise,
    ];

    /// The workspace's name.
    pub open spec fn title(self) -> Seq<char> {
        match self {
            Preset::Design => "Design"@,
            Preset::Patch => "Patch"@,
            Preset::Focus => "Focus"@,
            Preset::Visualise => "Visualise"@,
        }
    }

    /// The workspace's name.
    pub fn name(self) -> (r: &'static str)
        ensures
            r@ == self.title(),
    {
        match self {
            Preset::Design => "Design",
            Preset::Patch => "Patch",
            Preset::Focus => "Focus",
            Preset::Visualise => "Visualise",
        }
    }

    /// The tool that the workspace starts with.
    #[verifier::allow_in_spec]
    pub fn tool(self) -> ActiveTool
        returns
            (match self {
                Preset::Design => ActiveTool::Move,
                Preset::Patch => ActiveTool::Select,
                Preset::Focus => ActiveTool::Aim,
                Preset::Visualise => ActiveTool::Select,
            }),
    {
        match self {
            Preset::Design => ActiveTool::Move,
            Preset::Patch => ActiveTool::Select,
            Preset::Focus => ActiveTool::Aim,
            Preset::Visualise => ActiveTool::Select,
        }
    }

    /// The overlays that the workspace sets.
    #[verifier::allow_in_spec]
    pub fn overlays(self) -> Overlays
        returns
            (match self {
                Preset::Design => Overlays { labels: true, stats: false, grid: true, gizmos: true },
                Preset::Patch => Overlays { labels: true, stats: false, grid: true, gizmos: true },
                Preset::Focus => Overlays { labels: true, stats: false, grid: false, gizmos: true },
                Preset::Visualise => Overlays {
                    labels: false,
                    stats: false,
                    grid: true,
                    gizmos: false,
                },
            }),
    {
        match self {
            Preset::Design => Overlays { labels: true, stats: false, grid: true, gizmos: true },
            Preset::Patch => Overlays { labels: true, stats: false, grid: true, gizmos: true },
            Preset::Focus => Overlays { labels: true, stats: false, grid: false, gizmos: true },
            Preset::Visualise => Overlays {
                labels: false,
                stats: false,
                grid: true,
                gizmos: false,
            },
        }
    }

    /// The splits that arrange the panels, in order, around the viewport.
    pub open spec fn splits(self) -> Seq<(Side, u16, Seq<Tab>)> {
        let data = seq![Tab::Patch, Tab::DmxMonitor, Tab::Cues, Tab::Connectivity];
        match self {
            Preset::Design => seq![
                (Side::Left, 170, seq![Tab::Scene, Tab::Library]),
                (Side::Right, 790, seq![Tab::Inspector]),
                (Side::Below, 700, data),
            ],
            Preset::Patch => seq![
                (Side::Left, 160, seq![Tab::Scene]),
                (Side::Right, 800, seq![Tab::Inspector]),
                (Side::Below, 420, data),
            ],
            Preset::Focus => seq![
                (Side::Left, 150, seq![Tab::Scene]),
                (Side::Right, 800, seq![Tab::Inspector]),
            ],
            Preset::Visualise => seq![
                (Side::Left, 150, seq![Tab::Scene]),
                (Side::Right, 820, seq![Tab::Inspector]),
            ],
        }
    }

    /// The splits that arrange the panels, in order, around the viewport.
    pub fn layout(self) -> (r: Vec<Split>)
        ensures
            r@.len() == self.splits().len(),
            forall|i: int|
                0 <= i < r@.len() ==> ((#[trigger] r@[i]).side, r@[i].thousandths, r@[i].tabs@)
                    == self.splits()[i],
    {
        let data = vec![Tab::Patch, Tab::DmxMonitor, Tab::Cues, Tab::Connectivity];
        let r = match self {
            Preset::Design => vec![
                Split { side: Side::Left, thousandths: 170, tabs: vec![Tab::Scene, Tab::Library] },
                Split { side: Side::Right, thousandths: 790, tabs: vec![Tab::Inspector] },
                Split { side: Side::Below, thousandths: 700, tabs: data },
            ],
            Preset::Patch => vec![
                Split { side: Side::Left, thousandths: 160, tabs: vec![Tab::Scene] },
                Split { side: Side::Right, thousandths: 800, tabs: vec![Tab::Inspector] },
                Split { side: Side::Below, thousandths: 420, tabs: data },
            ],
            Preset::Focus => vec![
                Split { side: Side::Left, thousandths: 150, tabs: vec![Tab::Scene] },
                Split { side: Side::Right, thousandths: 800, tabs: vec![Tab::Inspector] },
            ],
            Preset::Visualise => vec![
                Split { side: Side::Left, thousandths: 150, tabs: vec![Tab::Scene] },
                Split { side: Side::Right, thousandths: 820, tabs: vec![Tab::Inspector] },
            ],
        };
        proof {
            let s = self.splits();
            assert(r@[0].tabs@ =~= s[0].2);
            assert(r@[1].tabs@ =~= s[1].2);
            if s.len() == 3 {
                assert(r@[2].tabs@ =~= s[2].2);
            }
        }
        r
    }
}

/// The arrangements of the built-in workspaces.
#[derive(Debug)]
pub struct Docks<D> {
    pub design: D,
    pub patch: D,
    pub focus: D,
    pub visualise: D,
}

/// A built-in workspace.
pub open spec fn preset_view<D>(p: Preset, dock: D) -> WorkspaceView<D> {
    WorkspaceView {
        name: p.title(),
        dock,
        default_tool: p.tool(),
        overlays: p.overlays(),
        builtin: true,
    }
}

/// The built-in workspaces.
pub open spec fn builtin_views<D>(docks: Docks<D>) -> Seq<WorkspaceView<D>> {
    seq![
        preset_view(Preset::Design, docks.design),
        preset_view(Preset::Patch, docks.patch),
        preset_view(Preset::Focus, docks.focus),
        preset_view(Preset::Visualise, docks.visualise),
    ]
}

fn preset<D>(p: Preset, dock: D) -> (r: Workspace<D>)
    ensures
        r@ == preset_view(p, dock),
{
    Workspace {
        name: p.name().to_owned(),
        dock,
        default_tool: p.tool(),
        overlays: p.overlays(),
        builtin: true,
    }
}

/// The built-in workspaces, in display order.
pub fn builtins<D>(docks: Docks<D>) -> (r: Vec<Workspace<D>>)
    ensures
        workspace_views(r@) == builtin_views(docks),
{
    let r = vec![
        preset(Preset::Design, docks.design),
        preset(Preset::Patch, docks.patch),
        preset(Preset::Focus, docks.focus),
        preset(Preset::Visualise, docks.visualise),
    ];
    assert(workspace_views(r@) =~= builtin_views(docks));
    r
}

/// Is there a workspace of the name?
pub open spec fn has_name<D>(s: Seq<WorkspaceView<D>>, name: Seq<char>) -> bool {
    exists|i: int| 0 <= i < s.len() && (#[trigger] s[i]).name == name
}

/// No two workspaces share a name.
pub open spec fn unique_names<D>(s: Seq<WorkspaceView<D>>) -> bool {
    forall|i: int, j: int|
        0 <= i < s.len() && 0 <= j < s.len() && #[trigger] s[i].name == #[trigger] s[j].name ==> i
            == j
}

/// The place of the first workspace of the name.
fn place_of<D>(items: &Vec<Workspace<D>>, name: &str) -> (r: Option<usize>)
    ensures
        r is Some <==> has_name(workspace_views(items@), name@),
        r matches Some(k) ==> k < items@.len() && items@[k as int].name@ == name@ && forall|j: int|
            0 <= j < k ==> (#[trigger] items@[j]).name@ != name@,
{
    let mut k: usize = 0;
    while k < items.len()
        invariant
            k <= items@.len(),
            forall|j: int| 0 <= j < k ==> (#[trigger] items@[j]).name@ != name@,
        decreases items@.len() - k,
    {
        if same_text(items[k].name.as_str(), name) {
            assert(workspace_views(items@)[k as int].name == name@);
            return Some(k);
        }
        k = k + 1;
    }
    assert forall|j: int| 0 <= j < items@.len() implies (#[trigger] workspace_views(
        items@,
    )[j]).name != name@ by {
        assert(items@[j].name@ != name@);
    }
    None
}

/// The first workspace of the name.
pub open spec fn first_named<D>(s: Seq<WorkspaceView<D>>, name: Seq<char>) -> Option<WorkspaceView<D>>
    decreases s.len(),
{
    if s.len() == 0 {
        None
    } else {
        match first_named(s.drop_last(), name) {
            Some(w) => Some(w),
            None => if s.last().name == name { Some(s.last()) } else { None },
        }
    }
}

/// A preset as the items have it, or as it ships.
pub open spec fn stored_or_shipped<D>(
    items: Seq<WorkspaceView<D>>,
    preset: WorkspaceView<D>,
) -> WorkspaceView<D> {
    match first_named(items, preset.name) {
        Some(w) => w,
        None => preset,
    }
}

/// The items, in their order, without the first of each preset's name.
pub open spec fn without_presets<D>(
    items: Seq<WorkspaceView<D>>,
    presets: Seq<WorkspaceView<D>>,
) -> Seq<WorkspaceView<D>>
    decreases items.len(),
{
    if items.len() == 0 {
        seq![]
    } else {
        let front = items.drop_last();
        let w = items.last();
        if has_name(presets, w.name) && !has_name(front, w.name) {
            without_presets(front, presets)
        } else {
            without_presets(front, presets).push(w)
        }
    }
}

/// The presets in their own order, each as the items have it or as it ships, and
/// then the rest of the items in theirs.
pub open spec fn arranged<D>(
    items: Seq<WorkspaceView<D>>,
    presets: Seq<WorkspaceView<D>>,
) -> Seq<WorkspaceView<D>> {
    Seq::new(presets.len(), |k: int| stored_or_shipped(items, presets[k])) + without_presets(
        items,
        presets,
    )
}

proof fn lemma_first_is_at<D>(s: Seq<WorkspaceView<D>>, name: Seq<char>, k: int)
    requires
        0 <= k < s.len(),
        s[k].name == name,
        forall|j: int| 0 <= j < k ==> (#[trigger] s[j]).name != name,
    ensures
        first_named(s, name) == Some(s[k]),
    decreases s.len(),
{
    if k < s.len() - 1 {
        lemma_first_is_at(s.drop_last(), name, k);
    } else {
        lemma_first_of_none(s.drop_last(), name);
    }
}

proof fn lemma_first_of_none<D>(s: Seq<WorkspaceView<D>>, name: Seq<char>)
    requires
        forall|j: int| 0 <= j < s.len() ==> (#[trigger] s[j]).name != name,
    ensures
        first_named(s, name) is None,
    decreases s.len(),
{
    if s.len() > 0 {
        assert(s[s.len() - 1].name != name);
        lemma_first_of_none(s.drop_last(), name);
    }
}

proof fn lemma_has_name_parts<D>(s: Seq<WorkspaceView<D>>, name: Seq<char>)
    requires
        s.len() > 0,
    ensures
        has_name(s, name) <==> (has_name(s.drop_last(), name) || s.last().name == name),
{
    let front = s.drop_last();
    if has_name(s, name) {
        let i = choose|i: int| 0 <= i < s.len() && (#[trigger] s[i]).name == name;
        if i < front.len() {
            assert(front[i].name == name);
        }
    }
    if has_name(front, name) {
        let i = choose|i: int| 0 <= i < front.len() && (#[trigger] front[i]).name == name;
        assert(s[i].name == name);
    }
    if s.last().name == name {
        assert(s[s.len() - 1].name == name);
    }
}

proof fn lemma_has_name_first<D>(s: Seq<WorkspaceView<D>>, name: Seq<char>)
    ensures
        has_name(s, name) <==> first_named(s, name) is Some,
        first_named(s, name) matches Some(w) ==> w.name == name,
    decreases s.len(),
{
    if s.len() > 0 {
        lemma_has_name_parts(s, name);
        lemma_has_name_first(s.drop_last(), name);
    }
}

/// What has no preset's name is not taken out.
proof fn lemma_others_stay<D>(
    items: Seq<WorkspaceView<D>>,
    presets: Seq<WorkspaceView<D>>,
    name: Seq<char>,
)
    requires
        !has_name(presets, name),
    ensures
        first_named(without_presets(items, presets), name) == first_named(items, name),
        has_name(without_presets(items, presets), name) == has_name(items, name),
    decreases items.len(),
{
    let rest = without_presets(items, presets);
    if items.len() > 0 {
        let front = items.drop_last();
        lemma_others_stay(front, presets, name);
        if !(has_name(presets, items.last().name) && !has_name(front, items.last().name)) {
            assert(rest.drop_last() =~= without_presets(front, presets));
        }
    }
    lemma_has_name_first(rest, name);
    lemma_has_name_first(items, name);
}

/// Taking out the presets one more at a time is taking them out together.
proof fn lemma_one_more<D>(
    items: Seq<WorkspaceView<D>>,
    presets: Seq<WorkspaceView<D>>,
    p: WorkspaceView<D>,
)
    requires
        !has_name(presets, p.name),
    ensures
        without_presets(without_presets(items, presets), seq![p]) == without_presets(
            items,
            presets.push(p),
        ),
    decreases items.len(),
{
    let all = presets.push(p);
    if items.len() > 0 {
        let front = items.drop_last();
        let w = items.last();
        let rest = without_presets(front, presets);
        lemma_one_more(front, presets, p);
        lemma_others_stay(front, presets, p.name);
        lemma_has_name_parts(all, w.name);
        assert(all.drop_last() =~= presets);
        lemma_has_name_parts(seq![p], w.name);
        assert(!has_name(seq![p].drop_last(), w.name));
        if !(has_name(presets, w.name) && !has_name(front, w.name)) {
            let kept = without_presets(items, presets);
            assert(kept == rest.push(w));
            assert(kept.drop_last() =~= rest);
        }
    }
}

proof fn lemma_take_out_none<D>(items: Seq<WorkspaceView<D>>)
    ensures
        without_presets(items, seq![]) == items,
    decreases items.len(),
{
    if items.len() > 0 {
        lemma_take_out_none(items.drop_last());
        assert(items =~= items.drop_last().push(items.last()));
    }
}

/// Taking out one preset is removing the first item of its name.
proof fn lemma_take_out_one<D>(items: Seq<WorkspaceView<D>>, p: WorkspaceView<D>, k: int)
    requires
        0 <= k < items.len(),
        items[k].name == p.name,
        forall|j: int| 0 <= j < k ==> (#[trigger] items[j]).name != p.name,
    ensures
        without_presets(items, seq![p]) == items.remove(k),
    decreases items.len(),
{
    let front = items.drop_last();
    let w = items.last();
    lemma_has_name_parts(seq![p], w.name);
    assert(!has_name(seq![p].drop_last(), w.name));
    if k < front.len() {
        lemma_take_out_one(front, p, k);
        assert(front[k].name == p.name);
        assert(has_name(front, p.name));
        assert(items.remove(k) =~= front.remove(k).push(w));
    } else {
        assert(!has_name(front, p.name)) by {
            if has_name(front, p.name) {
                let i = choose|i: int| 0 <= i < front.len() && (#[trigger] front[i]).name == p.name;
                assert(items[i].name == p.name);
            }
        }
        lemma_take_out_absent(front, p);
        assert(items.remove(k) =~= front);
    }
}

proof fn lemma_take_out_absent<D>(items: Seq<WorkspaceView<D>>, p: WorkspaceView<D>)
    requires
        !has_name(items, p.name),
    ensures
        without_presets(items, seq![p]) == items,
    decreases items.len(),
{
    if items.len() > 0 {
        let w = items.last();
        lemma_has_name_parts(items, p.name);
        lemma_has_name_parts(seq![p], w.name);
        assert(!has_name(seq![p].drop_last(), w.name));
        lemma_take_out_absent(items.drop_last(), p);
        assert(items =~= items.drop_last().push(w));
    }
}

impl<D> Workspaces<D> {
    /// There is a workspace, and the active one is among them.
    pub open spec fn wf(self) -> bool {
        self.active < self.items@.len()
    }

    /// The built-in set, with the first active.
    pub fn fresh(docks: Docks<D>) -> (r: Workspaces<D>)
        ensures
            r.wf(),
            r.active == 0,
            workspace_views(r.items@) == builtin_views(docks),
    {
        let items = builtins(docks);
        assert(workspace_views(items@).len() == 4);
        Workspaces { items, active: 0 }
    }

    /// Put back every built-in workspace whose name is missing. The built-in ones
    /// come first, in their own order, and the others follow in theirs.
    pub fn ensure_builtins(&mut self, docks: Docks<D>)
        ensures
            workspace_views(final(self).items@) == arranged(
                workspace_views(old(self).items@),
                builtin_views(docks),
            ),
            final(self).active == old(self).active,
    {
        let ghost presets = builtin_views(docks);
        let ghost items = workspace_views(self.items@);
        let mut rest = builtins(docks);
        let mut front: Vec<Workspace<D>> = Vec::new();
        proof {
            builtin_names_are_unique(docks);
            lemma_take_out_none(items);
            assert(presets.take(0) =~= seq![]);
            assert(workspace_views(rest@) =~= presets.skip(0));
            assert(workspace_views(front@) =~= seq![]);
        }
        let mut k: usize = 0;
        while k < 4
            invariant
                k <= 4,
                presets == builtin_views(docks),
                unique_names(presets),
                workspace_views(rest@) == presets.skip(k as int),
                workspace_views(front@) == Seq::new(
                    k as nat,
                    |j: int| stored_or_shipped(items, presets[j]),
                ),
                workspace_views(self.items@) == without_presets(items, presets.take(k as int)),
                self.active == old(self).active,
            decreases 4 - k,
        {
            let ghost before_rest = rest@;
            let ghost before = self.items@;
            let ghost views = workspace_views(before);
            let ghost done = front@;
            let ghost p = presets[k as int];
            assert(workspace_views(rest@).len() == 4 - k);
            let b = rest.remove(0);
            assert(b@ == p) by {
                assert(workspace_views(before_rest)[0] == presets.skip(k as int)[0]);
            }
            assert(workspace_views(rest@) =~= presets.skip(k + 1)) by {
                assert forall|j: int| 0 <= j < rest@.len() implies workspace_views(rest@)[j]
                    == presets.skip(k + 1)[j] by {
                    assert(rest@[j] == before_rest[j + 1]);
                    assert(workspace_views(before_rest)[j + 1] == presets.skip(k as int)[j + 1]);
                }
            }
            proof {
                assert(!has_name(presets.take(k as int), p.name)) by {
                    if has_name(presets.take(k as int), p.name) {
                        let i = choose|i: int|
                            0 <= i < k && (#[trigger] presets.take(k as int)[i]).name == p.name;
                        assert(presets[i].name == presets[k as int].name);
                    }
                }
                assert(presets.take(k as int).push(p) =~= presets.take(k + 1));
                lemma_others_stay(items, presets.take(k as int), p.name);
                lemma_one_more(items, presets.take(k as int), p);
                lemma_has_name_first(items, p.name);
            }
            match place_of(&self.items, b.name.as_str()) {
                Some(i) => {
                    proof {
                        assert forall|j: int| 0 <= j < i implies (#[trigger] views[j]).name
                            != p.name by {
                            assert(before[j].name@ != p.name);
                        }
                        lemma_first_is_at(views, p.name, i as int);
                        lemma_take_out_one(views, p, i as int);
                    }
                    let w = self.items.remove(i);
                    front.push(w);
                    assert(workspace_views(self.items@) =~= views.remove(i as int));
                    assert(workspace_views(front@) =~= workspace_views(done).push(views[i as int]));
                },
                None => {
                    proof {
                        lemma_take_out_absent(views, p);
                    }
                    front.push(b);
                    assert(workspace_views(front@) =~= workspace_views(done).push(p));
                },
            }
            assert(workspace_views(front@) =~= Seq::new(
                (k + 1) as nat,
                |j: int| stored_or_shipped(items, presets[j]),
            ));
            k = k + 1;
        }
        assert(presets.take(4) =~= presets);
        let ghost a = front@;
        let ghost b = self.items@;
        front.append(&mut self.items);
        self.items = front;
        assert(workspace_views(self.items@) =~= workspace_views(a) + workspace_views(b));
    }

    /// The set that a stored one opens as: with every built-in workspace, and
    /// Design active. Without a stored set it is the built-in one.
    pub fn load(stored: Option<Workspaces<D>>, docks: Docks<D>) -> (r: Workspaces<D>)
        ensures
            r.wf(),
            workspace_views(r.items@) == (match stored {
                Some(ws) => arranged(workspace_views(ws.items@), builtin_views(docks)),
                None => builtin_views(docks),
            }),
            r.active == 0,
            r.items@[0].name@ == "Design"@,
    {
        match stored {
            Some(ws) => {
                let mut ws = ws;
                let ghost items = workspace_views(ws.items@);
                let ghost presets = builtin_views(docks);
                ws.ensure_builtins(docks);
                proof {
                    builtins_come_first(items, presets, 0);
                    assert(presets[0].name == "Design"@);
                    assert(workspace_views(ws.items@)[0].name == "Design"@);
                }
                let at = place_of(&ws.items, "Design");
                ws.active = match at {
                    Some(i) => i,
                    None => 0,
                };
                ws
            },
            None => {
                let r = Workspaces::fresh(docks);
                assert(workspace_views(r.items@)[0].name == "Design"@);
                r
            },
        }
    }

    /// The active workspace.
    pub fn active(&self) -> (r: &Workspace<D>)
        requires
            self.items@.len() > 0,
        ensures
            *r == self.items@[place_within(self.active as int, self.items@.len() as int)],
            *r == self.items@[if self.active < self.items@.len() {
                self.active as int
            } else {
                self.items@.len() - 1
            }],
    {
        let n: usize = self.items.len();
        let i: usize = if self.active < n {
            self.active
        } else {
            n - 1
        };
        &self.items[i]
    }

    /// Make a workspace active; an index past the end stands for the last one.
    pub fn set_active(&mut self, idx: usize)
        ensures
            final(self).items == old(self).items,
            old(self).items@.len() > 0 ==> final(self).active == place_within(
                idx as int,
                old(self).items@.len() as int,
            ),
            final(self).active == (if idx < old(self).items@.len() {
                idx as int
            } else if old(self).items@.len() > 0 {
                old(self).items@.len() - 1
            } else {
                old(self).active as int
            }),
            old(self).items@.len() > 0 ==> final(self).wf(),
    {
        let n: usize = self.items.len();
        if idx < n {
            self.active = idx;
        } else if n > 0 {
            self.active = n - 1;
        }
    }

    /// Save an arrangement under a name and make it active: over the workspace
    /// of that name, which stays built in where it was, else as a new one at the
    /// end. The name is trimmed; an empty one becomes `Workspace`.
    pub fn save_current(
        &mut self,
        name: &str,
        dock: D,
        default_tool: ActiveTool,
        overlays: Overlays,
    ) -> (r: usize)
        ensures
            final(self).wf(),
            r == final(self).active,
            saved_at(
                workspace_views(old(self).items@),
                (WorkspaceView {
                    name: saved_name(name@),
                    dock,
                    default_tool,
                    overlays,
                    builtin: false,
                }),
                workspace_views(final(self).items@),
                r as int,
            ),
            ({
                let n = saved_name(name@);
                let before = workspace_views(old(self).items@);
                let after = workspace_views(final(self).items@);
                let new = WorkspaceView { name: n, dock, default_tool, overlays, builtin: false };
                if has_name(before, n) {
                    &&& r < before.len()
                    &&& before[r as int].name == n
                    &&& forall|j: int| 0 <= j < r ==> (#[trigger] before[j]).name != n
                    &&& after == before.update(
                        r as int,
                        WorkspaceView { builtin: before[r as int].builtin, ..new },
                    )
                } else {
                    &&& r == before.len()
                    &&& after == before.push(new)
                }
            }),
    {
        let trimmed_name = trim_text(name);
        let name: String = if trimmed_name.as_str().unicode_len() == 0 {
            "Workspace".to_owned()
        } else {
            trimmed_name
        };
        let ghost before = workspace_views(self.items@);
        match place_of(&self.items, name.as_str()) {
            Some(i) => {
                let builtin = self.items[i].builtin;
                let ghost view = WorkspaceView {
                    name: name@,
                    dock,
                    default_tool,
                    overlays,
                    builtin,
                };
                self.items.set(i, Workspace { name, dock, default_tool, overlays, builtin });
                self.active = i;
                assert(workspace_views(self.items@) =~= before.update(i as int, view));
                i
            },
            None => {
                let ghost view = WorkspaceView {
                    name: name@,
                    dock,
                    default_tool,
                    overlays,
                    builtin: false,
                };
                let n: usize = self.items.len();
                self.items.push(Workspace { name, dock, default_tool, overlays, builtin: false });
                self.active = n;
                assert(workspace_views(self.items@) =~= before.push(view));
                n
            },
        }
    }

    /// Delete a workspace. A built-in one, the last one and one past the end
    /// stay. The active index is kept within the set.
    pub fn delete(&mut self, idx: usize) -> (r: bool)
        ensures
            r == (idx < old(self).items@.len() && !old(self).items@[idx as int].builtin
                && old(self).items@.len() > 1),
            r == deletable(workspace_views(old(self).items@), idx as int),
            r ==> final(self).active == active_after_delete(
                old(self).active as int,
                old(self).items@.len() as int,
            ),
            !r ==> *final(self) == *old(self),
            r ==> final(self).items@ == old(self).items@.remove(idx as int) && final(self).active
                == (if old(self).active < old(self).items@.len() - 1 {
                old(self).active as int
            } else {
                old(self).items@.len() - 2
            }),
            r ==> final(self).wf(),
    {
        let n: usize = self.items.len();
        if idx >= n || self.items[idx].builtin || n <= 1 {
            return false;
        }
        let _gone = self.items.remove(idx);
        if self.active >= n - 1 {
            self.active = n - 2;
        }
        true
    }

    /// The overlay flags as a record.
    pub fn capture_overlays(labels: bool, stats: bool, grid: bool, gizmos: bool) -> (r: Overlays)
        ensures
            r == (Overlays { labels, stats, grid, gizmos }),
    {
        Overlays { labels, stats, grid, gizmos }
    }
}

/// The name that a workspace is saved under.
pub open spec fn saved_name(name: Seq<char>) -> Seq<char> {
    if trimmed(name).len() == 0 { "Workspace"@ } else { trimmed(name) }
}

/// After putting the built-in workspaces back, they stand at the front, in their
/// own order.
pub proof fn builtins_come_first<D>(
    items: Seq<WorkspaceView<D>>,
    presets: Seq<WorkspaceView<D>>,
    j: int,
)
    requires
        0 <= j < presets.len(),
    ensures
        j < arranged(items, presets).len(),
        arranged(items, presets)[j].name == presets[j].name,
        first_named(items, presets[j].name) matches Some(w) ==> arranged(items, presets)[j] == w,
        first_named(items, presets[j].name) is None ==> arranged(items, presets)[j] == presets[j],
{
    lemma_has_name_first(items, presets[j].name);
}

/// Has the workspace none of the presets' names?
pub open spec fn is_user<D>(w: WorkspaceView<D>, presets: Seq<WorkspaceView<D>>) -> bool {
    !has_name(presets, w.name)
}

proof fn lemma_users_among<D>(items: Seq<WorkspaceView<D>>, presets: Seq<WorkspaceView<D>>)
    ensures
        without_presets(items, presets).filter(|w: WorkspaceView<D>| is_user(w, presets))
            == items.filter(|w: WorkspaceView<D>| is_user(w, presets)),
    decreases items.len(),
{
    reveal(Seq::filter);
    if items.len() > 0 {
        let front = items.drop_last();
        let w = items.last();
        lemma_users_among(front, presets);
        if !(has_name(presets, w.name) && !has_name(front, w.name)) {
            assert(without_presets(items, presets).drop_last() =~= without_presets(front, presets));
        }
    }
}

proof fn lemma_filter_join<D>(
    a: Seq<WorkspaceView<D>>,
    b: Seq<WorkspaceView<D>>,
    p: spec_fn(WorkspaceView<D>) -> bool,
)
    ensures
        (a + b).filter(p) == a.filter(p) + b.filter(p),
    decreases b.len(),
{
    reveal(Seq::filter);
    if b.len() == 0 {
        assert(a + b =~= a);
        assert(a.filter(p) + b.filter(p) =~= a.filter(p));
    } else {
        assert((a + b).drop_last() =~= a + b.drop_last());
        lemma_filter_join(a, b.drop_last(), p);
        assert((a + b).filter(p) =~= a.filter(p) + b.filter(p));
    }
}

proof fn lemma_filter_none<D>(a: Seq<WorkspaceView<D>>, p: spec_fn(WorkspaceView<D>) -> bool)
    requires
        forall|i: int| 0 <= i < a.len() ==> !p(#[trigger] a[i]),
    ensures
        a.filter(p) == Seq::<WorkspaceView<D>>::empty(),
    decreases a.len(),
{
    reveal(Seq::filter);
    if a.len() > 0 {
        assert(!p(a[a.len() - 1]));
        lemma_filter_none(a.drop_last(), p);
    }
}

/// Putting the built-in workspaces back keeps the user's own, in their order.
pub proof fn users_keep_their_order<D>(
    items: Seq<WorkspaceView<D>>,
    presets: Seq<WorkspaceView<D>>,
)
    ensures
        arranged(items, presets).filter(|w: WorkspaceView<D>| is_user(w, presets)) == items.filter(
            |w: WorkspaceView<D>| is_user(w, presets),
        ),
{
    let p = |w: WorkspaceView<D>| is_user(w, presets);
    let head = Seq::new(presets.len(), |k: int| stored_or_shipped(items, presets[k]));
    let rest = without_presets(items, presets);
    assert forall|i: int| 0 <= i < head.len() implies !p(#[trigger] head[i]) by {
        lemma_has_name_first(items, presets[i].name);
        assert(presets[i].name == head[i].name);
    }
    lemma_filter_none(head, p);
    lemma_users_among(items, presets);
    lemma_filter_join(head, rest, p);
    assert(head.filter(p) + rest.filter(p) =~= rest.filter(p));
}

/// A set that starts with every built-in workspace in order is left as it is.
pub proof fn complete_set_is_kept<D>(
    items: Seq<WorkspaceView<D>>,
    presets: Seq<WorkspaceView<D>>,
)
    requires
        unique_names(presets),
        presets.len() <= items.len(),
        forall|j: int| 0 <= j < presets.len() ==> items[j].name == (#[trigger] presets[j]).name,
    ensures
        arranged(items, presets) == items,
{
    let n = presets.len() as int;
    assert forall|j: int| 0 <= j < n implies stored_or_shipped(items, presets[j])
        == #[trigger] items[j] by {
        assert forall|i: int| 0 <= i < j implies (#[trigger] items[i]).name != presets[j].name by {
            assert(presets[i].name == items[i].name);
        }
        lemma_first_is_at(items, presets[j].name, j);
    }
    lemma_head_is_taken(items, presets);
    assert(arranged(items, presets) =~= items);
}

proof fn lemma_head_is_taken<D>(items: Seq<WorkspaceView<D>>, presets: Seq<WorkspaceView<D>>)
    requires
        unique_names(presets),
        forall|j: int|
            0 <= j < presets.len() && j < items.len() ==> items[j].name == (
            #[trigger] presets[j]).name,
    ensures
        without_presets(items, presets) == items.skip(
            if presets.len() < items.len() { presets.len() as int } else { items.len() as int },
        ),
    decreases items.len(),
{
    let n = presets.len() as int;
    let front = items.drop_last();
    if items.len() == 0 {
        assert(without_presets(items, presets) =~= items.skip(0));
    } else {
        let last = items.len() - 1;
        let w = items.last();
        assert forall|j: int| 0 <= j < n && j < front.len() implies front[j].name == (
        #[trigger] presets[j]).name by {
            assert(front[j] == items[j]);
        }
        lemma_head_is_taken(front, presets);
        if last < n {
            assert(presets[last].name == w.name);
            assert(!has_name(front, w.name)) by {
                if has_name(front, w.name) {
                    let i = choose|i: int| 0 <= i < front.len() && (#[trigger] front[i]).name == w.name;
                    assert(presets[i].name == front[i].name);
                }
            }
            assert(front.skip(front.len() as int) =~= items.skip(items.len() as int));
        } else {
            if has_name(presets, w.name) {
                let i = choose|i: int| 0 <= i < n && (#[trigger] presets[i]).name == w.name;
                assert(front[i].name == presets[i].name);
                assert(has_name(front, w.name));
            }
            assert(items.skip(n) =~= front.skip(n).push(w));
        }
    }
}

/// Putting the built-in workspaces back loses none that was there, by name.
pub proof fn backfilling_loses_nothing<D>(
    items: Seq<WorkspaceView<D>>,
    presets: Seq<WorkspaceView<D>>,
    name: Seq<char>,
)
    requires
        has_name(items, name),
    ensures
        has_name(arranged(items, presets), name),
{
    let all = arranged(items, presets);
    if has_name(presets, name) {
        let j = choose|j: int| 0 <= j < presets.len() && (#[trigger] presets[j]).name == name;
        builtins_come_first(items, presets, j);
        assert(all[j].name == name);
    } else {
        lemma_others_stay(items, presets, name);
        let rest = without_presets(items, presets);
        let i = choose|i: int| 0 <= i < rest.len() && (#[trigger] rest[i]).name == name;
        assert(all[presets.len() + i].name == name);
    }
}

/// The built-in workspaces have names of their own.
pub proof fn builtin_names_are_unique<D>(docks: Docks<D>)
    ensures
        unique_names(builtin_views(docks)),
{
    reveal_strlit("Design");
    reveal_strlit("Patch");
    reveal_strlit("Focus");
    reveal_strlit("Visualise");
    let s = builtin_views(docks);
    assert(s[0].name.len() == 6);
    assert(s[1].name.len() == 5 && s[1].name[0] == 'P');
    assert(s[2].name.len() == 5 && s[2].name[0] == 'F');
    assert(s[3].name.len() == 9);
}

/// Saving keeps the names unique: over the workspace of the name there is no
/// second row of it.
pub proof fn saving_keeps_names_unique<D>(before: Seq<WorkspaceView<D>>, new: WorkspaceView<D>, r: int)
    requires
        unique_names(before),
        0 <= r <= before.len(),
        r < before.len() ==> before[r].name == new.name,
        r == before.len() ==> !has_name(before, new.name),
    ensures
        unique_names(if r < before.len() { before.update(r, new) } else { before.push(new) }),
{
    let after = if r < before.len() { before.update(r, new) } else { before.push(new) };
    assert forall|i: int, j: int|
        0 <= i < after.len() && 0 <= j < after.len() && #[trigger] after[i].name
            == #[trigger] after[j].name implies i == j by {
        if r < before.len() {
            assert(after[i].name == before[i].name);
            assert(after[j].name == before[j].name);
        } else {
            if i < before.len() && j < before.len() {
                assert(after[i] == before[i] && after[j] == before[j]);
            } else if i < before.len() {
                assert(before[i].name == new.name);
            } else if j < before.len() {
                assert(before[j].name == new.name);
            }
        }
    }
}

/// The id of the command that activates the `n`th workspace.
pub open spec fn slot_id(n: int) -> Seq<char> {
    if n == 1 {
        "window.workspace_1"@
    } else if n == 2 {
        "window.workspace_2"@
    } else if n == 3 {
        "window.workspace_3"@
    } else if n == 4 {
        "window.workspace_4"@
    } else if n == 5 {
        "window.workspace_5"@
    } else if n == 6 {
        "window.workspace_6"@
    } else if n == 7 {
        "window.workspace_7"@
    } else if n == 8 {
        "window.workspace_8"@
    } else {
        "window.workspace_9"@
    }
}

/// Each of the first workspaces has a command that activates it.
pub proof fn slot_commands_cover_the_cap(n: int)
    requires
        1 <= n <= SLOT_CAP,
    ensures
        registered(slot_id(n)) matches Some(c) && c.action == Action::ActivateWorkspace(
            (n - 1) as usize,
        ),
{
    reveal(command_table);
    every_command_is_found(80 + n);
    assert(command_table()[80 + n].id@ == slot_id(n));
}

/// Is `after` the set `before` with `new` saved into it, at the place `r`: over the first
/// workspace of its name, which stays built in where it was, else at the end?
pub open spec fn saved_at<D>(
    before: Seq<WorkspaceView<D>>,
    new: WorkspaceView<D>,
    after: Seq<WorkspaceView<D>>,
    r: int,
) -> bool {
    if has_name(before, new.name) {
        &&& 0 <= r < before.len()
        &&& before[r].name == new.name
        &&& forall|j: int| 0 <= j < r ==> (#[trigger] before[j]).name != new.name
        &&& after == before.update(r, WorkspaceView { builtin: before[r].builtin, ..new })
    } else {
        &&& r == before.len()
        &&& after == before.push(new)
    }
}

/// A saved workspace is there under its name with what was saved; a built-in one stays built
/// in, a new one is not. Every other workspace stays as it was, and there is one more only
/// where none had the name.
pub proof fn saved_workspace_is_there<D>(
    before: Seq<WorkspaceView<D>>,
    new: WorkspaceView<D>,
    after: Seq<WorkspaceView<D>>,
    r: int,
    k: int,
)
    requires
        saved_at(before, new, after, r),
        !new.builtin,
    ensures
        0 <= r < after.len(),
        after[r].name == new.name && after[r].dock == new.dock && after[r].default_tool
            == new.default_tool && after[r].overlays == new.overlays,
        has_name(before, new.name) ==> after.len() == before.len() && after[r].builtin
            == before[r].builtin,
        !has_name(before, new.name) ==> after.len() == before.len() + 1 && !after[r].builtin,
        0 <= k < before.len() && k != r ==> after[k] == before[k],
        has_name(after, new.name),
{
    assert(after[r].name == new.name);
}

/// Saving twice under one name keeps one workspace of it, the second.
pub proof fn saving_again_overwrites<D>(
    before: Seq<WorkspaceView<D>>,
    first: WorkspaceView<D>,
    mid: Seq<WorkspaceView<D>>,
    a: int,
    second: WorkspaceView<D>,
    after: Seq<WorkspaceView<D>>,
    b: int,
)
    requires
        first.name == second.name,
        !first.builtin && !second.builtin,
        saved_at(before, first, mid, a),
        saved_at(mid, second, after, b),
    ensures
        after.len() == mid.len(),
        b == a,
        after[a].dock == second.dock,
{
    saved_workspace_is_there(before, first, mid, a, 0);
    assert(mid[a].name == second.name);
    if b < a {
        if has_name(before, first.name) {
            assert(mid[b] == before[b]);
            assert(before[b].name != first.name);
        } else {
            assert(mid[b] == before[b]);
            assert(has_name(before, first.name));
        }
    }
}

/// A name is saved without the white space around it; a blank one is saved as
/// `Workspace`.
pub proof fn name_is_saved_trimmed(name: Seq<char>)
    ensures
        (forall|k: int| 0 <= k < name.len() ==> white_space(#[trigger] name[k])) ==> saved_name(name)
            == "Workspace"@,
        name.len() > 0 && !white_space(name[0]) && !white_space(name.last()) ==> saved_name(name)
            == name,
        saved_name(name).len() > 0,
{
    trimming_takes_the_ends_off(name);
    reveal_strlit("Workspace");
    let (a, b) = choose|a: int, b: int|
        0 <= a <= b <= name.len() && trimmed(name) == #[trigger] name.subrange(a, b) && (forall|k: int|
            0 <= k < name.len() && (k < a || b <= k) ==> white_space(#[trigger] name[k]));
    if trimmed(name).len() > 0 {
        assert(trimmed(name)[0] == name[a]);
    }
    if name.len() > 0 && !white_space(name[0]) && !white_space(name.last()) {
        assert(a == 0);
        assert(name[name.len() - 1] == name.last());
        assert(b == name.len());
        assert(name.subrange(0, name.len() as int) =~= name);
    }
}

/// Can the workspace be deleted?
pub open spec fn deletable<D>(items: Seq<WorkspaceView<D>>, idx: int) -> bool {
    0 <= idx < items.len() && !items[idx].builtin && items.len() > 1
}

/// The active place after a deletion from a set of `n`.
pub open spec fn active_after_delete(active: int, n: int) -> int {
    if active < n - 1 { active } else { n - 2 }
}

/// A user's workspace can be deleted unless it is the last one; a built-in one cannot. The
/// active place stays where it is as long as there is one, and moves to the last one
/// otherwise.
pub proof fn only_user_workspaces_go<D>(items: Seq<WorkspaceView<D>>, idx: int, active: int)
    requires
        0 <= active < items.len(),
    ensures
        0 <= idx < items.len() && items[idx].builtin ==> !deletable(items, idx),
        items.len() == 1 ==> !deletable(items, idx),
        0 <= idx < items.len() && !items[idx].builtin && items.len() > 1 ==> deletable(items, idx),
        deletable(items, idx) ==> 0 <= active_after_delete(active, items.len() as int)
            < items.remove(idx).len(),
        active < items.len() - 1 ==> active_after_delete(active, items.len() as int) == active,
{
}

/// The place that an index stands for in a set of `n`: itself, or the last one past the
/// end.
pub open spec fn place_within(idx: int, n: int) -> int {
    if idx < n { idx } else { n - 1 }
}

/// Every index stands for a workspace: its own where there is one.
pub proof fn every_index_has_its_workspace(idx: int, n: int)
    requires
        0 <= idx,
        n > 0,
    ensures
        0 <= place_within(idx, n) < n,
        idx < n ==> place_within(idx, n) == idx,
        idx >= n ==> place_within(idx, n) == n - 1,
{
}

} // verus!
