//! What the viewport writes over the scene, and its context menu.

use vstd::prelude::*;
use crate::scene::{Geometry, Pyro, Scene, Screen};
use crate::selection::{first_of, nothing, Selection, SelectionView};
use crate::text::{
    decimal, decimal_reads_back, number_of, padded, padded_reads_back, push_decimal, push_padded,
    texts_of,
};
use crate::tools::ActiveTool;
use crate::tree::rows::indices;
use crate::windows::preferences::LabelMode;

verus! {

/// The drag edges that the inspector reports in a frame, so that one drag
/// becomes one undo step.
#[derive(Clone, Copy, Debug, PartialEq, Eq, Structural)]
pub struct InspectorEdit {
    pub started: bool,
    pub stopped: bool,
}

impl Default for InspectorEdit {
    fn default() -> (r: Self)
        ensures
            !r.started && !r.stopped,
    {
        InspectorEdit { started: false, stopped: false }
    }
}

/// The live video sources that a screen can show.
#[derive(Debug)]
pub struct ScreenSources {
    pub ndi: Vec<String>,
    /// Can NDI be received at all?
    pub ndi_available: bool,
    pub citp: Vec<String>,
}

impl Default for ScreenSources {
    fn default() -> (r: Self)
        ensures
            r.ndi@.len() == 0 && r.citp@.len() == 0 && !r.ndi_available,
    {
        ScreenSources { ndi: Vec::new(), ndi_available: false, citp: Vec::new() }
    }
}

/// A count with its noun.
pub open spec fn counted(n: nat, one: Seq<char>, many: Seq<char>) -> Seq<char> {
    decimal(n).push(' ') + (if n == 1 { one } else { many })
}

/// A count with its noun.
pub fn count_noun(n: usize, one: &str, many: &str) -> (r: String)
    ensures
        r@ == counted(n as nat, one@, many@),
{
    let mut s = String::new();
    push_decimal(&mut s, n as u128);
    s.push(' ');
    s.push_str(
        if n == 1 {
            one
        } else {
            many
        },
    );
    assert(s@ =~= counted(n as nat, one@, many@));
    s
}

/// A line with a count, where the count is not zero.
pub open spec fn stat_line(n: nat, one: Seq<char>, many: Seq<char>) -> Seq<Seq<char>> {
    if n > 0 { seq![counted(n, one, many)] } else { seq![] }
}

/// The statistics: a line for each kind of which there is something, in the
/// outliner's order, and always one for the selection.
pub open spec fn stats_text(
    fixtures: nat,
    objects: nat,
    screens: nat,
    environments: nat,
    selected: nat,
) -> Seq<Seq<char>> {
    stat_line(fixtures, "fixture"@, "fixtures"@) + stat_line(objects, "object"@, "objects"@)
        + stat_line(screens, "screen"@, "screens"@) + stat_line(
        environments,
        "environment"@,
        "environments"@,
    ) + seq![decimal(selected) + " selected"@]
}

/// One line more, where the count is not zero.
fn push_stat(lines: &mut Vec<String>, n: usize, one: &str, many: &str)
    ensures
        texts_of(final(lines)@) == texts_of(old(lines)@) + stat_line(n as nat, one@, many@),
{
    if n > 0 {
        lines.push(count_noun(n, one, many));
    }
    assert(texts_of(lines@) =~= texts_of(old(lines)@) + stat_line(n as nat, one@, many@));
}

/// The lines of the statistics overlay.
pub fn stats_lines(
    fixtures: usize,
    objects: usize,
    screens: usize,
    environments: usize,
    selected: usize,
) -> (r: Vec<String>)
    ensures
        texts_of(r@) == stats_text(
            fixtures as nat,
            objects as nat,
            screens as nat,
            environments as nat,
            selected as nat,
        ),
{
    let mut lines: Vec<String> = Vec::new();
    assert(texts_of(lines@) =~= seq![]);
    push_stat(&mut lines, fixtures, "fixture", "fixtures");
    push_stat(&mut lines, objects, "object", "objects");
    push_stat(&mut lines, screens, "screen", "screens");
    push_stat(&mut lines, environments, "environment", "environments");
    let ghost before = texts_of(lines@);
    let mut s = String::new();
    push_decimal(&mut s, selected as u128);
    s.push_str(" selected");
    assert(s@ =~= decimal(selected as nat) + " selected"@);
    lines.push(s);
    assert(texts_of(lines@) =~= before + seq![decimal(selected as nat) + " selected"@]);
    assert(texts_of(lines@) =~= stats_text(
        fixtures as nat,
        objects as nat,
        screens as nat,
        environments as nat,
        selected as nat,
    ));
    lines
}

/// How many objects the statistics count as selected.
pub open spec fn selected_total(s: SelectionView) -> nat {
    s.fixtures.len() + s.geometry.len() + s.screens.len() + (if s.environment is Some {
        1nat
    } else {
        0nat
    })
}

/// How many objects the statistics count as selected.
pub fn selected_count(selection: &Selection) -> (r: usize)
    requires
        selected_total(selection@) <= usize::MAX,
    ensures
        r == selected_total(selection@),
{
    let n: usize = selection.fixtures.len() + selection.geometry.len() + selection.screens.len();
    if selection.environment.is_some() {
        n + 1
    } else {
        n
    }
}

/// A name, with how many more are selected.
pub open spec fn named_more(name: Seq<char>, count: nat) -> Seq<char> {
    if count > 1 { name + "  +"@ + decimal((count - 1) as nat) } else { name }
}

/// The name of the primary of `list`, with how many more are selected.
pub open spec fn primary_text(list: Seq<usize>, names: Seq<Seq<char>>) -> Option<Seq<char>> {
    match first_of(list) {
        Some(i) => if i < names.len() { Some(named_more(names[i as int], list.len())) } else { None },
        None => None,
    }
}

/// The selection label: the environment's name, else the primary object's of
/// the first kind of which one is selected, with how many more are.
pub open spec fn selection_text(scene: Scene, s: SelectionView) -> Option<Seq<char>> {
    match s.environment {
        Some(i) => if i < scene.environments@.len() {
            Some(scene.environments@[i as int].name@)
        } else {
            None
        },
        None => if s.geometry.len() > 0 {
            primary_text(
                s.geometry,
                Seq::new(scene.geometry@.len(), |i: int| scene.geometry@[i].name@),
            )
        } else if s.screens.len() > 0 {
            primary_text(
                s.screens,
                Seq::new(scene.screens@.len(), |i: int| scene.screens@[i].name@),
            )
        } else if s.pyro.len() > 0 {
            primary_text(s.pyro, Seq::new(scene.pyro@.len(), |i: int| scene.pyro@[i].name@))
        } else {
            primary_text(
                s.fixtures,
                Seq::new(scene.fixtures@.len(), |i: int| scene.fixtures@[i].name@),
            )
        },
    }
}

fn name_more(name: &str, count: usize) -> (r: String)
    ensures
        r@ == named_more(name@, count as nat),
{
    let mut s = name.to_owned();
    if count > 1 {
        s.push_str("  +");
        push_decimal(&mut s, (count - 1) as u128);
    }
    s
}

/// The selection label of the viewport's corner.
pub fn selection_label(scene: &Scene, selection: &Selection) -> (r: Option<String>)
    ensures
        match (r, selection_text(*scene, selection@)) {
            (Some(a), Some(b)) => a@ == b,
            (None, None) => true,
            _ => false,
        },
{
    if let Some(i) = selection.environment {
        return if i < scene.environments.len() {
            Some(scene.environments[i].name.as_str().to_owned())
        } else {
            None
        };
    }
    if selection.geometry.len() > 0 {
        let i: usize = selection.geometry[0];
        return if i < scene.geometry.len() {
            Some(name_more(scene.geometry[i].name.as_str(), selection.geometry.len()))
        } else {
            None
        };
    }
    if selection.screens.len() > 0 {
        let i: usize = selection.screens[0];
        return if i < scene.screens.len() {
            Some(name_more(scene.screens[i].name.as_str(), selection.screens.len()))
        } else {
            None
        };
    }
    if selection.pyro.len() > 0 {
        let i: usize = selection.pyro[0];
        return if i < scene.pyro.len() {
            Some(name_more(scene.pyro[i].name.as_str(), selection.pyro.len()))
        } else {
            None
        };
    }
    if selection.fixtures.len() > 0 {
        let i: usize = selection.fixtures[0];
        return if i < scene.fixtures.len() {
            Some(name_more(scene.fixtures[i].name.as_str(), selection.fixtures.len()))
        } else {
            None
        };
    }
    None
}

/// What a fixture's label can show.
#[derive(Debug)]
pub struct LabelSource {
    pub name: String,
    /// The fixture id of an imported fixture.
    pub fixture_id: Option<String>,
    /// The first DMX address of an imported fixture: universe and channel.
    pub address: Option<(u32, u32)>,
}

/// A fixture's label. Without a fixture id the name stands for it; without an
/// address a dash does.
pub open spec fn label_text(f: LabelSource, mode: LabelMode) -> Seq<char> {
    match mode {
        LabelMode::Name => f.name@,
        LabelMode::FixtureId => match f.fixture_id {
            Some(id) => if id@.len() > 0 { id@ } else { f.name@ },
            None => f.name@,
        },
        LabelMode::Address => match f.address {
            Some((u, c)) => decimal(u as nat).push('.') + padded(c as nat, 3),
            None => "—"@,
        },
    }
}

/// A fixture's label.
pub fn fixture_label(f: &LabelSource, mode: LabelMode) -> (r: String)
    ensures
        r@ == label_text(*f, mode),
{
    match mode {
        LabelMode::Name => f.name.as_str().to_owned(),
        LabelMode::FixtureId => match &f.fixture_id {
            Some(id) => if id.as_str().unicode_len() > 0 {
                id.as_str().to_owned()
            } else {
                f.name.as_str().to_owned()
            },
            None => f.name.as_str().to_owned(),
        },
        LabelMode::Address => match f.address {
            Some((u, c)) => {
                let mut s = String::new();
                push_decimal(&mut s, u as u128);
                s.push('.');
                push_padded(&mut s, c as u128, 3);
                assert(s@ =~= decimal(u as nat).push('.') + padded(c as nat, 3));
                s
            },
            None => "—".to_owned(),
        },
    }
}

/// Does the viewport label a fixture?
#[verifier::allow_in_spec]
pub fn shows_label(show_labels: bool, selected_only: bool, selected: bool) -> bool
    returns
        show_labels && (selected || !selected_only),
{
    show_labels && (selected || !selected_only)
}

/// The key help in the viewport's corner.
pub fn help_text(tool: ActiveTool) -> (r: &'static str)
    ensures
        r@ == (match tool {
            ActiveTool::Measure =>
                "measure: click two points for distance · esc: clear · scroll: zoom · shift+drag: pan"@,
            ActiveTool::Aim =>
                "aim: drag to point selected head(s) at the cursor · scroll: zoom · shift+drag: pan"@,
            _ =>
                "drag: orbit · shift+drag: pan · scroll: zoom · click: select · shift+rmb: 3d cursor · g/r/s: move/rotate/scale · d: duplicate"@,
        }),
{
    match tool {
        ActiveTool::Measure =>
            "measure: click two points for distance · esc: clear · scroll: zoom · shift+drag: pan",
        ActiveTool::Aim =>
            "aim: drag to point selected head(s) at the cursor · scroll: zoom · shift+drag: pan",
        _ =>
            "drag: orbit · shift+drag: pan · scroll: zoom · click: select · shift+rmb: 3d cursor · g/r/s: move/rotate/scale · d: duplicate",
    }
}

/// How well a rate or a time does.
#[derive(Clone, Copy, Debug, PartialEq, Eq, Structural)]
pub enum Tier {
    Good,
    Warn,
    Conflict,
}

/// How a frame rate does, by its whole part.
#[verifier::allow_in_spec]
pub fn fps_tier(fps: u32) -> Tier
    returns
        (if fps >= 55 {
            Tier::Good
        } else if fps >= 30 {
            Tier::Warn
        } else {
            Tier::Conflict
        }),
{
    if fps >= 55 {
        Tier::Good
    } else if fps >= 30 {
        Tier::Warn
    } else {
        Tier::Conflict
    }
}

/// How the time of a render pass does, in half milliseconds rounded down.
#[verifier::allow_in_spec]
pub fn pass_tier(half_ms: u32) -> Tier
    returns
        (if half_ms < 3 {
            Tier::Good
        } else if half_ms < 8 {
            Tier::Warn
        } else {
            Tier::Conflict
        }),
{
    if half_ms < 3 {
        Tier::Good
    } else if half_ms < 8 {
        Tier::Warn
    } else {
        Tier::Conflict
    }
}

/// Which context menu the selection has.
#[derive(Clone, Copy, Debug, PartialEq, Eq, Structural)]
pub enum MenuKind {
    Objects,
    Screens,
    Pyro,
    /// No fixture is selected, nor anything else with a menu.
    Empty,
    Fixtures,
}

/// Which context menu the selection has.
pub open spec fn menu_of(s: SelectionView) -> MenuKind {
    if s.geometry.len() > 0 {
        MenuKind::Objects
    } else if s.screens.len() > 0 {
        MenuKind::Screens
    } else if s.pyro.len() > 0 {
        MenuKind::Pyro
    } else if s.fixtures.len() == 0 {
        MenuKind::Empty
    } else {
        MenuKind::Fixtures
    }
}

/// Which context menu the selection has.
pub fn menu_kind(selection: &Selection) -> (r: MenuKind)
    ensures
        r == menu_of(selection@),
{
    if selection.geometry.len() > 0 {
        MenuKind::Objects
    } else if selection.screens.len() > 0 {
        MenuKind::Screens
    } else if selection.pyro.len() > 0 {
        MenuKind::Pyro
    } else if selection.fixtures.len() == 0 {
        MenuKind::Empty
    } else {
        MenuKind::Fixtures
    }
}

/// The heading of a context menu.
pub open spec fn menu_text(s: SelectionView) -> Seq<char> {
    match menu_of(s) {
        MenuKind::Objects => counted(s.geometry.len(), "object"@, "objects"@),
        MenuKind::Screens => counted(s.screens.len(), "screen"@, "screens"@),
        MenuKind::Pyro => counted(s.pyro.len(), "pyro device"@, "pyro devices"@),
        MenuKind::Empty => seq![],
        MenuKind::Fixtures => decimal(s.fixtures.len()) + " selected"@,
    }
}

/// The heading of a context menu; the empty selection's has none.
pub fn menu_heading(selection: &Selection) -> (r: String)
    ensures
        r@ == menu_text(selection@),
{
    match menu_kind(selection) {
        MenuKind::Objects => count_noun(selection.geometry.len(), "object", "objects"),
        MenuKind::Screens => count_noun(selection.screens.len(), "screen", "screens"),
        MenuKind::Pyro => count_noun(selection.pyro.len(), "pyro device", "pyro devices"),
        MenuKind::Empty => String::new(),
        MenuKind::Fixtures => {
            let mut s = String::new();
            push_decimal(&mut s, selection.fixtures.len() as u128);
            s.push_str(" selected");
            assert(s@ =~= decimal(selection@.fixtures.len()) + " selected"@);
            s
        },
    }
}

/// Select every fixture; geometry and environment are left out of it.
pub fn select_all(scene: &Scene, selection: &mut Selection)
    ensures
        final(selection)@ == all_selected(*scene, old(selection)@),
        final(selection)@ == (SelectionView {
            fixtures: indices(scene.fixtures@.len()),
            environment: None,
            geometry: seq![],
            ..old(selection)@
        }),
{
    let mut all: Vec<usize> = Vec::new();
    let mut i: usize = 0;
    while i < scene.fixtures.len()
        invariant
            i <= scene.fixtures@.len(),
            all@ == indices(scene.fixtures@.len()).take(i as int),
        decreases scene.fixtures@.len() - i,
    {
        all.push(i);
        assert(all@ =~= indices(scene.fixtures@.len()).take(i + 1));
        i = i + 1;
    }
    assert(all@ =~= indices(scene.fixtures@.len()));
    selection.fixtures = all;
    selection.environment = None;
    selection.geometry = Vec::new();
    assert(selection@ =~= (SelectionView {
        fixtures: indices(scene.fixtures@.len()),
        environment: None,
        geometry: seq![],
        ..old(selection)@
    }));
}

/// Hide the selected pieces of geometry.
pub fn hide_geometry(scene: &mut Scene, selection: &Selection)
    ensures
        final(scene).geometry@.len() == old(scene).geometry@.len(),
        forall|i: int|
            0 <= i < old(scene).geometry@.len() ==> (#[trigger] final(scene).geometry@[i]).hidden
                == hidden_after(
                old(scene).geometry@[i].hidden,
                selection@.geometry.contains(i as usize),
            ),
        forall|i: int|
            0 <= i < old(scene).geometry@.len() ==> #[trigger] final(scene).geometry@[i]
                == (Geometry {
                hidden: old(scene).geometry@[i].hidden || selection@.geometry.contains(i as usize),
                ..old(scene).geometry@[i]
            }),
        *final(scene) == (Scene { geometry: final(scene).geometry, ..*old(scene) }),
{
    let n: usize = scene.geometry.len();
    let mut i: usize = 0;
    while i < n
        invariant
            i <= n,
            n == scene.geometry@.len(),
            n == old(scene).geometry@.len(),
            *scene == (Scene { geometry: scene.geometry, ..*old(scene) }),
            forall|j: int|
                0 <= j < i ==> #[trigger] scene.geometry@[j] == (Geometry {
                    hidden: old(scene).geometry@[j].hidden || selection@.geometry.contains(
                        j as usize,
                    ),
                    ..old(scene).geometry@[j]
                }),
            forall|j: int| i <= j < n ==> #[trigger] scene.geometry@[j] == old(scene).geometry@[j],
        decreases n - i,
    {
        if selection.contains_geometry(i) {
            let g = &mut scene.geometry[i];
            g.hidden = true;
        }
        i = i + 1;
    }
}

/// Hide the selected screens.
pub fn hide_screens(scene: &mut Scene, selection: &Selection)
    ensures
        final(scene).screens@.len() == old(scene).screens@.len(),
        forall|i: int|
            0 <= i < old(scene).screens@.len() ==> (#[trigger] final(scene).screens@[i]).hidden
                == hidden_after(
                old(scene).screens@[i].hidden,
                selection@.screens.contains(i as usize),
            ),
        forall|i: int|
            0 <= i < old(scene).screens@.len() ==> #[trigger] final(scene).screens@[i] == (Screen {
                hidden: old(scene).screens@[i].hidden || selection@.screens.contains(i as usize),
                ..old(scene).screens@[i]
            }),
        *final(scene) == (Scene { screens: final(scene).screens, ..*old(scene) }),
{
    let n: usize = scene.screens.len();
    let mut i: usize = 0;
    while i < n
        invariant
            i <= n,
            n == scene.screens@.len(),
            n == old(scene).screens@.len(),
            *scene == (Scene { screens: scene.screens, ..*old(scene) }),
            forall|j: int|
                0 <= j < i ==> #[trigger] scene.screens@[j] == (Screen {
                    hidden: old(scene).screens@[j].hidden || selection@.screens.contains(j as usize),
                    ..old(scene).screens@[j]
                }),
            forall|j: int| i <= j < n ==> #[trigger] scene.screens@[j] == old(scene).screens@[j],
        decreases n - i,
    {
        if selection.contains_screen(i) {
            let s = &mut scene.screens[i];
            s.hidden = true;
        }
        i = i + 1;
    }
}

/// Hide the selected pyro devices.
pub fn hide_pyro(scene: &mut Scene, selection: &Selection)
    ensures
        final(scene).pyro@.len() == old(scene).pyro@.len(),
        forall|i: int|
            0 <= i < old(scene).pyro@.len() ==> (#[trigger] final(scene).pyro@[i]).hidden
                == hidden_after(
                old(scene).pyro@[i].hidden,
                selection@.pyro.contains(i as usize),
            ),
        forall|i: int|
            0 <= i < old(scene).pyro@.len() ==> #[trigger] final(scene).pyro@[i] == (Pyro {
                hidden: old(scene).pyro@[i].hidden || selection@.pyro.contains(i as usize),
                ..old(scene).pyro@[i]
            }),
        *final(scene) == (Scene { pyro: final(scene).pyro, ..*old(scene) }),
{
    let n: usize = scene.pyro.len();
    let mut i: usize = 0;
    while i < n
        invariant
            i <= n,
            n == scene.pyro@.len(),
            n == old(scene).pyro@.len(),
            *scene == (Scene { pyro: scene.pyro, ..*old(scene) }),
            forall|j: int|
                0 <= j < i ==> #[trigger] scene.pyro@[j] == (Pyro {
                    hidden: old(scene).pyro@[j].hidden || selection@.pyro.contains(j as usize),
                    ..old(scene).pyro@[j]
                }),
            forall|j: int| i <= j < n ==> #[trigger] scene.pyro@[j] == old(scene).pyro@[j],
        decreases n - i,
    {
        if selection.contains_pyro(i) {
            let p = &mut scene.pyro[i];
            p.hidden = true;
        }
        i = i + 1;
    }
}

/// Universe numbers, joined by commas.
pub open spec fn joined_universes(us: Seq<u16>) -> Seq<char>
    decreases us.len(),
{
    if us.len() == 0 {
        seq![]
    } else if us.len() == 1 {
        decimal(us[0] as nat)
    } else {
        joined_universes(us.drop_last()).push(',') + decimal(us.last() as nat)
    }
}

/// Universe numbers, joined by commas.
pub fn format_universes(us: &Vec<u16>) -> (r: String)
    ensures
        r@ == joined_universes(us@),
{
    let mut s = String::new();
    let mut k: usize = 0;
    assert(us@.take(0) =~= seq![]);
    while k < us.len()
        invariant
            k <= us@.len(),
            s@ == joined_universes(us@.take(k as int)),
        decreases us@.len() - k,
    {
        let ghost before = us@.take(k as int);
        let ghost after = us@.take(k + 1);
        assert(after.drop_last() =~= before);
        if k > 0 {
            s.push(',');
        }
        push_decimal(&mut s, us[k] as u128);
        assert(s@ =~= joined_universes(after));
        k = k + 1;
    }
    assert(us@.take(k as int) =~= us@);
    s
}

/// A count with its noun reads back: the number, a space and the noun, the singular
/// for one alone.
pub proof fn counted_noun_reads_back(n: nat, one: Seq<char>, many: Seq<char>)
    ensures
        ({
            let text = counted(n, one, many);
            let d = decimal(n).len() as int;
            &&& 0 < d < text.len() && number_of(text.take(d)) == n && text[d] == ' '
            &&& n == 1 ==> text.skip(d + 1) == one
            &&& n != 1 ==> text.skip(d + 1) == many
        }),
{
    decimal_reads_back(n);
    let text = counted(n, one, many);
    let d = decimal(n).len() as int;
    assert(text.take(d) =~= decimal(n));
    assert(text.skip(d + 1) =~= if n == 1 { one } else { many });
}

/// The statistics have a line for each kind of which there is something and one for the
/// selection, which comes last and says how many are selected.
pub proof fn statistics_count_what_is_there(
    fixtures: nat,
    objects: nat,
    screens: nat,
    environments: nat,
    selected: nat,
)
    ensures
        ({
            let lines = stats_text(fixtures, objects, screens, environments, selected);
            let f: int = if fixtures > 0 { 1 } else { 0 };
            let o: int = if objects > 0 { 1 } else { 0 };
            let s: int = if screens > 0 { 1 } else { 0 };
            let e: int = if environments > 0 { 1 } else { 0 };
            &&& lines.len() == f + o + s + e + 1
            &&& number_of(lines.last().take(lines.last().len() - 9)) == selected
            &&& fixtures > 0 ==> lines[0] == counted(fixtures, "fixture"@, "fixtures"@)
            &&& objects > 0 ==> lines[f] == counted(objects, "object"@, "objects"@)
            &&& screens > 0 ==> lines[f + o] == counted(screens, "screen"@, "screens"@)
            &&& environments > 0 ==> lines[f + o + s] == counted(
                environments,
                "environment"@,
                "environments"@,
            )
        }),
{
    decimal_reads_back(selected);
    reveal_strlit(" selected");
    let lines = stats_text(fixtures, objects, screens, environments, selected);
    assert(lines.last().take(lines.last().len() - 9) =~= decimal(selected));
}

/// One more fixture, piece of geometry or screen selected counts one more, and so does
/// an environment; pyro devices and the world are not counted.
pub proof fn selected_count_goes_up_by_one(s: SelectionView, i: usize)
    ensures
        selected_total(SelectionView { fixtures: s.fixtures.push(i), ..s }) == selected_total(s) + 1,
        selected_total(SelectionView { geometry: s.geometry.push(i), ..s }) == selected_total(s) + 1,
        selected_total(SelectionView { screens: s.screens.push(i), ..s }) == selected_total(s) + 1,
        s.environment is None ==> selected_total(SelectionView { environment: Some(i), ..s })
            == selected_total(s) + 1,
        selected_total(SelectionView { pyro: s.pyro.push(i), ..s }) == selected_total(s),
        selected_total(SelectionView { world: !s.world, ..s }) == selected_total(s),
        selected_total(nothing()) == 0,
{
}

/// The selection label names the primary object: the environment before all, then
/// geometry, screens, pyro devices and fixtures. It is the name alone for one object,
/// and for more it ends in how many more there are. What the scene does not hold has
/// no label.
pub proof fn label_names_the_primary(scene: Scene, s: SelectionView)
    ensures
        ({
            let text = selection_text(scene, s);
            let list = if s.geometry.len() > 0 {
                s.geometry
            } else if s.screens.len() > 0 {
                s.screens
            } else if s.pyro.len() > 0 {
                s.pyro
            } else {
                s.fixtures
            };
            let held = if s.geometry.len() > 0 {
                scene.geometry@.len()
            } else if s.screens.len() > 0 {
                scene.screens@.len()
            } else if s.pyro.len() > 0 {
                scene.pyro@.len()
            } else {
                scene.fixtures@.len()
            };
            let name = if s.geometry.len() > 0 {
                scene.geometry@[list[0] as int].name@
            } else if s.screens.len() > 0 {
                scene.screens@[list[0] as int].name@
            } else if s.pyro.len() > 0 {
                scene.pyro@[list[0] as int].name@
            } else {
                scene.fixtures@[list[0] as int].name@
            };
            &&& s.environment matches Some(i) ==> (text is Some <==> i < scene.environments@.len())
                && (text is Some ==> text == Some(scene.environments@[i as int].name@))
            &&& s.environment is None ==> (text is Some <==> list.len() > 0 && list[0] < held)
            &&& s.environment is None && text is Some && list.len() == 1 ==> text == Some(name)
            &&& s.environment is None && text is Some && list.len() > 1 ==> text->0.take(
                name.len() as int,
            ) == name && number_of(text->0.skip(name.len() as int + 3)) == list.len() - 1
        }),
{
    reveal_strlit("  +");
    let list = if s.geometry.len() > 0 {
        s.geometry
    } else if s.screens.len() > 0 {
        s.screens
    } else if s.pyro.len() > 0 {
        s.pyro
    } else {
        s.fixtures
    };
    if list.len() > 1 {
        let more = (list.len() - 1) as nat;
        decimal_reads_back(more);
        let text = selection_text(scene, s);
        if s.environment is None && text is Some {
            let name = if s.geometry.len() > 0 {
                scene.geometry@[list[0] as int].name@
            } else if s.screens.len() > 0 {
                scene.screens@[list[0] as int].name@
            } else if s.pyro.len() > 0 {
                scene.pyro@[list[0] as int].name@
            } else {
                scene.fixtures@[list[0] as int].name@
            };
            assert(text == Some(named_more(name, list.len())));
            assert(text->0.take(name.len() as int) =~= name);
            assert(text->0.skip(name.len() as int + 3) =~= decimal(more));
        }
    }
}

/// A fixture's label is its name, or its id where it has one and that is asked for; an
/// address reads back as universe and channel.
pub proof fn label_shows_what_is_asked(f: LabelSource)
    ensures
        label_text(f, LabelMode::Name) == f.name@,
        f.fixture_id matches Some(id) ==> (id@.len() > 0 ==> label_text(f, LabelMode::FixtureId)
            == id@),
        f.fixture_id is None ==> label_text(f, LabelMode::FixtureId) == f.name@,
        f.address is None ==> label_text(f, LabelMode::Address) == "—"@,
        f.address matches Some((u, c)) ==> c < 1000 ==> {
            let text = label_text(f, LabelMode::Address);
            let dot = text.len() - 4;
            &&& dot > 0 && text[dot] == '.'
            &&& number_of(text.take(dot)) == u
            &&& number_of(text.skip(dot + 1)) == c
        },
{
    if let Some((u, c)) = f.address {
        if c < 1000 {
            decimal_reads_back(u as nat);
            padded_reads_back(c as nat, 3);
            reveal_with_fuel(decimal, 4);
            assert(decimal(c as nat).len() <= 3);
            let text = label_text(f, LabelMode::Address);
            let dot = text.len() - 4;
            assert(text.take(dot) =~= decimal(u as nat));
            assert(text.skip(dot + 1) =~= padded(c as nat, 3));
        }
    }
}

/// With labels off no fixture has one; with labels on every fixture has one, or the
/// selected ones alone where only those are asked for.
pub proof fn labels_follow_the_switches(selected_only: bool, selected: bool)
    ensures
        !shows_label(false, selected_only, selected),
        shows_label(true, false, selected),
        shows_label(true, true, selected) <==> selected,
{
}

/// A frame rate is good from 55 on and bad below 30; a pass is good below one and a half
/// milliseconds and bad from four on. Faster is never rated worse.
pub proof fn faster_is_never_worse(a: u32, b: u32)
    requires
        a <= b,
    ensures
        fps_tier(b) == Tier::Good <==> b >= 55,
        fps_tier(a) == Tier::Conflict <==> a < 30,
        fps_tier(a) == Tier::Good ==> fps_tier(b) == Tier::Good,
        fps_tier(b) == Tier::Conflict ==> fps_tier(a) == Tier::Conflict,
        pass_tier(a) == Tier::Good <==> a < 3,
        pass_tier(b) == Tier::Conflict <==> b >= 8,
        pass_tier(b) == Tier::Good ==> pass_tier(a) == Tier::Good,
        pass_tier(a) == Tier::Conflict ==> pass_tier(b) == Tier::Conflict,
{
}

/// The context menu is that of a kind that is selected, geometry before screens, those
/// before pyro devices and those before fixtures; it is the empty one exactly where
/// none of them is.
pub proof fn menu_is_of_the_selection(s: SelectionView)
    ensures
        menu_of(s) == MenuKind::Objects <==> s.geometry.len() > 0,
        menu_of(s) == MenuKind::Screens ==> s.screens.len() > 0,
        menu_of(s) == MenuKind::Pyro ==> s.pyro.len() > 0,
        menu_of(s) == MenuKind::Fixtures ==> s.fixtures.len() > 0 && s.geometry.len()
            + s.screens.len() + s.pyro.len() == 0,
        menu_of(s) == MenuKind::Empty <==> s.fixtures.len() + s.geometry.len() + s.screens.len()
            + s.pyro.len() == 0,
        s.pyro.len() > 0 && s.geometry.len() == 0 && s.screens.len() == 0 ==> menu_of(s)
            == MenuKind::Pyro,
        s.screens.len() > 0 && s.geometry.len() == 0 ==> menu_of(s) == MenuKind::Screens,
{
}

/// The selection once every fixture is selected.
pub open spec fn all_selected(scene: Scene, s: SelectionView) -> SelectionView {
    SelectionView {
        fixtures: indices(scene.fixtures@.len()),
        environment: None,
        geometry: seq![],
        ..s
    }
}

/// Selecting all selects every fixture of the scene, each once, and no piece of geometry
/// or environment.
pub proof fn all_fixtures_are_selected(scene: Scene, s: SelectionView, i: usize)
    ensures
        ({
            let r = all_selected(scene, s);
            &&& r.fixtures.contains(i) <==> i < scene.fixtures@.len()
            &&& r.fixtures.len() == scene.fixtures@.len()
            &&& r.geometry.len() == 0 && r.environment is None
            &&& r.screens == s.screens && r.pyro == s.pyro && r.world == s.world
        }),
{
    let all = indices(scene.fixtures@.len());
    assert(scene.fixtures@.len() == scene.fixtures.len());
    if i < scene.fixtures@.len() {
        assert(all[i as int] == i);
    }
}

/// Whether an object is hidden once the selected ones are hidden.
pub open spec fn hidden_after(hidden: bool, selected: bool) -> bool {
    hidden || selected
}

/// Hiding hides what is selected and shows nothing that was hidden.
pub proof fn hiding_only_hides(hidden: bool, selected: bool)
    ensures
        selected ==> hidden_after(hidden, selected),
        hidden ==> hidden_after(hidden, selected),
        !selected ==> hidden_after(hidden, selected) == hidden,
{
}

/// Joined universe numbers end in the last one, behind a comma where there are more.
pub proof fn joined_universes_read_back(us: Seq<u16>)
    requires
        us.len() > 0,
    ensures
        ({
            let text = joined_universes(us);
            let cut = text.len() - decimal(us.last() as nat).len();
            &&& 0 <= cut && number_of(text.skip(cut)) == us.last()
            &&& us.len() == 1 ==> cut == 0
            &&& us.len() > 1 ==> cut > 0 && text[cut - 1] == ',' && text.take(cut - 1)
                == joined_universes(us.drop_last())
        }),
{
    let text = joined_universes(us);
    let d = decimal(us.last() as nat);
    let cut = text.len() - d.len();
    decimal_reads_back(us.last() as nat);
    assert(text.skip(cut) =~= d);
    if us.len() > 1 {
        assert(text.take(cut - 1) =~= joined_universes(us.drop_last()));
    }
}

/// The heading of a context menu counts what the menu is for, and the empty one says
/// nothing.
pub proof fn menu_heading_counts(s: SelectionView)
    ensures
        menu_of(s) == MenuKind::Objects ==> menu_text(s) == counted(
            s.geometry.len(),
            "object"@,
            "objects"@,
        ),
        menu_of(s) == MenuKind::Screens ==> menu_text(s) == counted(
            s.screens.len(),
            "screen"@,
            "screens"@,
        ),
        menu_of(s) == MenuKind::Pyro ==> menu_text(s) == counted(
            s.pyro.len(),
            "pyro device"@,
            "pyro devices"@,
        ),
        menu_of(s) == MenuKind::Fixtures ==> number_of(menu_text(s).take(menu_text(s).len() - 9))
            == s.fixtures.len(),
        menu_of(s) == MenuKind::Empty ==> menu_text(s).len() == 0,
{
    decimal_reads_back(s.fixtures.len());
    reveal_strlit(" selected");
    if menu_of(s) == MenuKind::Fixtures {
        assert(menu_text(s).take(menu_text(s).len() - 9) =~= decimal(s.fixtures.len()));
    }
}

} // verus!
