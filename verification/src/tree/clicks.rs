//! What a click on an outliner row does to the selection, the expanded nodes
//! and the inline rename, and where the hierarchy guide lines run.

use vstd::prelude::*;
use crate::selection::{
    apply_fixture_click, clicked_fixture, copy_indices, copy_range, first_index, first_of, has_object,
    holds, nothing, one_index_changes, position_in, toggled, SelItem, Selection, SelectionView,
};
use crate::text::{trim_text, trimmed, trimming_takes_the_ends_off, white_space};
use crate::tree::{
    flipped, toggle_expand, GroupKind, NodeKey, NodeSet, RowKind, TreeAction, TreeRow,
};

verus! {

/// Is the row of this kind selected, and is it the primary one?
pub open spec fn row_state(kind: RowKind, s: SelectionView) -> (bool, bool) {
    match kind {
        RowKind::World => (s.world, s.world),
        RowKind::Fixture(i) => (s.fixtures.contains(i), first_of(s.fixtures) == Some(i)),
        RowKind::Object(i) => (s.geometry.contains(i), first_of(s.geometry) == Some(i)),
        RowKind::Screen(i) => (s.screens.contains(i), first_of(s.screens) == Some(i)),
        RowKind::Environment(i) => (s.environment == Some(i), s.environment == Some(i)),
        RowKind::Root => (false, false),
        RowKind::EnvGroup => (false, false),
        RowKind::Group(_) => (false, false),
    }
}

/// Is the row selected, and is it the primary one?
pub fn row_selection_state(row: &TreeRow, selection: &Selection) -> (r: (bool, bool))
    ensures
        r == row_state(row.kind, selection@),
{
    match row.kind {
        RowKind::World => (selection.world, selection.world),
        RowKind::Fixture(i) => (
            selection.contains_fixture(i),
            selection.primary_fixture() == Some(i),
        ),
        RowKind::Object(i) => (
            selection.contains_geometry(i),
            selection.primary_geometry() == Some(i),
        ),
        RowKind::Screen(i) => (
            selection.contains_screen(i),
            selection.primary_screen() == Some(i),
        ),
        RowKind::Environment(i) => {
            let s = selection.environment == Some(i);
            (s, s)
        },
        RowKind::Root => (false, false),
        RowKind::EnvGroup => (false, false),
        RowKind::Group(_) => (false, false),
    }
}

/// The first place of `i` in `v`.
pub open spec fn place(v: Seq<usize>, i: usize) -> int {
    choose|k: int|
        0 <= k < v.len() && v[k] == i && forall|j: int| 0 <= j < k ==> #[trigger] v[j] != i
}

/// The first place of `i` in `v`, else `other`.
pub open spec fn place_or(v: Seq<usize>, i: usize, other: int) -> int {
    if v.contains(i) { place(v, i) } else { other }
}

/// The first place of `i` in `v`, else `other`.
pub fn place_in(v: &Vec<usize>, i: usize, other: usize) -> (r: usize)
    ensures
        r == place_or(v@, i, other as int),
        v@.contains(i) ==> r < v@.len() && v@[r as int] == i,
{
    match position_in(v, i) {
        Some(k) => {
            proof {
                let c = place(v@, i);
                assert(0 <= c < v@.len() && v@[c] == i && forall|j: int|
                    0 <= j < c ==> #[trigger] v@[j] != i) by {
                    assert(v@[k as int] == i);
                }
                if c < k {
                    assert(v@[c] != i);
                }
                if k < c {
                    assert(v@[k as int] != i);
                }
            }
            k
        },
        None => other,
    }
}

/// The part of `v` between two places, both included.
pub open spec fn span(v: Seq<usize>, a: int, b: int) -> Seq<usize> {
    if a <= b { v.subrange(a, b + 1) } else { v.subrange(b, a + 1) }
}

/// The fixtures that a range click on `i` takes from the visible list: those
/// between the anchor and it, or it alone where the anchor is not visible.
pub open spec fn visible_range(visible: Seq<usize>, anchor: Option<usize>, i: usize) -> Seq<usize> {
    let click = place_or(visible, i, 0);
    let from = match anchor {
        Some(a) => place_or(visible, a, click),
        None => click,
    };
    span(visible, from, click)
}

/// The fixtures that a range click on `i` takes from the visible list.
pub fn range_click(visible: &Vec<usize>, anchor: Option<usize>, i: usize) -> (r: Vec<usize>)
    requires
        visible@.len() > 0,
    ensures
        r@ == visible_range(visible@, anchor, i),
{
    let n: usize = visible.len();
    let click = place_in(visible, i, 0);
    assert(click < n);
    let from = match anchor {
        Some(a) => place_in(visible, a, click),
        None => click,
    };
    assert(from < n);
    if from <= click {
        copy_range(visible, from, click + 1)
    } else {
        copy_range(visible, click, from + 1)
    }
}

/// A range click takes the clicked fixture and the anchor, and nothing that is
/// not visible.
pub proof fn range_click_covers_both_ends(visible: Seq<usize>, a: usize, i: usize)
    requires
        visible.contains(a),
        visible.contains(i),
    ensures
        visible_range(visible, Some(a), i).contains(a),
        visible_range(visible, Some(a), i).contains(i),
        forall|x: usize| #[trigger] visible_range(visible, Some(a), i).contains(x) ==> visible.contains(x),
{
    lemma_place(visible, a);
    lemma_place(visible, i);
    let p = place(visible, a);
    let q = place(visible, i);
    let r = visible_range(visible, Some(a), i);
    if p <= q {
        assert(r[0] == a);
        assert(r[q - p] == i);
    } else {
        assert(r[0] == i);
        assert(r[p - q] == a);
    }
    assert forall|x: usize| #[trigger] r.contains(x) implies visible.contains(x) by {
        let k = choose|k: int| 0 <= k < r.len() && r[k] == x;
        assert(visible[k + (if p <= q { p } else { q })] == x);
    }
}

/// What is in a list has a first place.
proof fn lemma_place(v: Seq<usize>, i: usize)
    requires
        v.contains(i),
    ensures
        0 <= place(v, i) < v.len(),
        v[place(v, i)] == i,
        forall|j: int| 0 <= j < place(v, i) ==> #[trigger] v[j] != i,
{
    let k = choose|k: int| 0 <= k < v.len() && v[k] == i;
    lemma_place_upto(v, i, k);
}

proof fn lemma_place_upto(v: Seq<usize>, i: usize, k: int)
    requires
        0 <= k < v.len(),
        v[k] == i,
    ensures
        exists|c: int|
            0 <= c < v.len() && v[c] == i && forall|j: int| 0 <= j < c ==> #[trigger] v[j] != i,
    decreases k,
{
    if exists|j: int| 0 <= j < k && #[trigger] v[j] == i {
        let j = choose|j: int| 0 <= j < k && #[trigger] v[j] == i;
        lemma_place_upto(v, i, j);
    } else {
        assert(v[k] == i && forall|j: int| 0 <= j < k ==> #[trigger] v[j] != i);
    }
}

/// The lists that a click on a row works over.
pub struct ClickLists {
    pub fixtures: Seq<usize>,
    pub objects: Seq<usize>,
    pub screens: Seq<usize>,
}

/// The selection and range anchor after a click on a row of the given kind, in
/// a scene of `n` fixtures.
pub open spec fn after_row_click(
    kind: RowKind,
    s: SelectionView,
    anchor: Option<usize>,
    n: usize,
    shift: bool,
    cmd: bool,
    lists: ClickLists,
) -> (SelectionView, Option<usize>) {
    match kind {
        RowKind::Root => (nothing(), None),
        RowKind::World => (SelectionView { world: true, ..nothing() }, None),
        RowKind::EnvGroup => (s, anchor),
        RowKind::Group(GroupKind::Fixtures) => (
            if cmd && s.fixtures == lists.fixtures {
                SelectionView { fixtures: seq![], ..s }
            } else {
                SelectionView {
                    fixtures: lists.fixtures,
                    geometry: seq![],
                    screens: seq![],
                    environment: None,
                    world: false,
                    ..s
                }
            },
            first_of(lists.fixtures),
        ),
        RowKind::Group(GroupKind::Objects) => (
            SelectionView {
                geometry: lists.objects,
                fixtures: seq![],
                screens: seq![],
                environment: None,
                world: false,
                ..s
            },
            None,
        ),
        RowKind::Group(GroupKind::Screens) => (
            SelectionView {
                screens: lists.screens,
                fixtures: seq![],
                geometry: seq![],
                environment: None,
                world: false,
                ..s
            },
            None,
        ),
        RowKind::Fixture(i) => if shift {
            (
                SelectionView {
                    fixtures: visible_range(lists.fixtures, anchor, i),
                    geometry: seq![],
                    screens: seq![],
                    environment: None,
                    world: false,
                    ..s
                },
                if anchor is None { Some(i) } else { anchor },
            )
        } else {
            clicked_fixture(s, anchor, i, false, cmd, n)
        },
        RowKind::Object(i) => (
            if cmd {
                SelectionView { geometry: toggled(s.geometry, i), ..s }
            } else {
                SelectionView { geometry: seq![i], ..nothing() }
            },
            None,
        ),
        RowKind::Screen(i) => (
            if cmd {
                SelectionView { screens: toggled(s.screens, i), ..s }
            } else {
                SelectionView { screens: seq![i], ..nothing() }
            },
            None,
        ),
        RowKind::Environment(i) => (SelectionView { environment: Some(i), ..nothing() }, None),
    }
}

/// Do two lists hold the same indices in the same order?
fn same_indices(a: &Vec<usize>, b: &Vec<usize>) -> (r: bool)
    ensures
        r == (a@ == b@),
{
    if a.len() != b.len() {
        return false;
    }
    let mut k: usize = 0;
    while k < a.len()
        invariant
            k <= a@.len() == b@.len(),
            forall|j: int| 0 <= j < k ==> #[trigger] a@[j] == b@[j],
        decreases a@.len() - k,
    {
        if a[k] != b[k] {
            return false;
        }
        k = k + 1;
    }
    assert(a@ =~= b@);
    true
}

/// Can a click on a row of this kind be carried out? A range click needs a
/// visible fixture, another click on a fixture one that the scene has.
pub open spec fn click_is_valid(kind: RowKind, shift: bool, n: usize, fixtures: Seq<usize>) -> bool {
    kind matches RowKind::Fixture(i) ==> if shift { fixtures.len() > 0 } else { i < n }
}

/// Apply a click on a row to the selection and the range anchor.
pub fn select_row(
    row: &TreeRow,
    selection: &mut Selection,
    anchor: &mut Option<usize>,
    n: usize,
    shift: bool,
    cmd: bool,
    visible_fixtures: &Vec<usize>,
    visible_objects: &Vec<usize>,
    visible_screens: &Vec<usize>,
)
    requires
        click_is_valid(row.kind, shift, n, visible_fixtures@),
    ensures
        (final(selection)@, *final(anchor)) == after_row_click(
            row.kind,
            old(selection)@,
            *old(anchor),
            n,
            shift,
            cmd,
            (ClickLists {
                fixtures: visible_fixtures@,
                objects: visible_objects@,
                screens: visible_screens@,
            }),
        ),
{
    match row.kind {
        RowKind::Root => {
            *selection = Selection::default();
            *anchor = None;
        },
        RowKind::World => {
            *selection = Selection::world();
            *anchor = None;
        },
        RowKind::EnvGroup => {},
        RowKind::Group(GroupKind::Fixtures) => {
            if cmd && same_indices(&selection.fixtures, visible_fixtures) {
                selection.fixtures = Vec::new();
            } else {
                selection.fixtures = copy_indices(visible_fixtures);
                selection.geometry = Vec::new();
                selection.screens = Vec::new();
                selection.environment = None;
                selection.world = false;
            }
            *anchor = first_index(visible_fixtures);
        },
        RowKind::Group(GroupKind::Objects) => {
            selection.geometry = copy_indices(visible_objects);
            selection.fixtures = Vec::new();
            selection.screens = Vec::new();
            selection.environment = None;
            selection.world = false;
            *anchor = None;
        },
        RowKind::Group(GroupKind::Screens) => {
            selection.screens = copy_indices(visible_screens);
            selection.fixtures = Vec::new();
            selection.geometry = Vec::new();
            selection.environment = None;
            selection.world = false;
            *anchor = None;
        },
        RowKind::Fixture(i) => {
            if shift {
                selection.fixtures = range_click(visible_fixtures, *anchor, i);
                selection.geometry = Vec::new();
                selection.screens = Vec::new();
                selection.environment = None;
                selection.world = false;
                if anchor.is_none() {
                    *anchor = Some(i);
                }
            } else {
                apply_fixture_click(selection, anchor, i, false, cmd, n);
            }
        },
        RowKind::Object(i) => {
            if cmd {
                selection.toggle_geometry(i);
            } else {
                *selection = Selection::geometry(i);
            }
            *anchor = None;
        },
        RowKind::Screen(i) => {
            if cmd {
                selection.toggle_screen(i);
            } else {
                *selection = Selection::screen(i);
            }
            *anchor = None;
        },
        RowKind::Environment(i) => {
            *selection = Selection::environment(i);
            *anchor = None;
        },
    }
}

/// A click on the empty band below the rows clears the selection.
pub fn clear_selection(selection: &mut Selection, anchor: &mut Option<usize>)
    ensures
        final(selection)@ == nothing(),
        *final(anchor) is None,
{
    *selection = Selection::default();
    *anchor = None;
}

/// The inline rename that is open: the node and the text typed so far.
#[derive(Debug)]
pub struct RenameEdit {
    pub key: NodeKey,
    pub text: String,
}

/// What the pointer did to a row this frame.
#[derive(Clone, Copy, Debug, PartialEq, Eq, Structural)]
pub struct RowInput {
    pub eye_clicked: bool,
    pub disclosure_clicked: bool,
    pub double_clicked: bool,
    pub clicked: bool,
    pub shift: bool,
    pub cmd: bool,
}

/// What the pointer's doing amounts to: the first of these that applies.
#[derive(Clone, Copy, Debug, PartialEq, Eq, Structural)]
pub enum RowEvent {
    Ignored,
    ToggleHidden,
    ToggleExpand,
    StartRename,
    Select,
}

/// What the pointer's doing amounts to. A row that is being renamed ignores
/// it; the eye goes before the disclosure triangle, that before a rename by
/// double click, and that before a selecting click.
#[verifier::allow_in_spec]
pub fn row_event(input: RowInput, renaming: bool, has_children: bool, renameable: bool) -> RowEvent
    returns
        (if renaming {
            RowEvent::Ignored
        } else if input.eye_clicked {
            RowEvent::ToggleHidden
        } else if has_children && input.disclosure_clicked {
            RowEvent::ToggleExpand
        } else if renameable && input.double_clicked {
            RowEvent::StartRename
        } else if input.clicked {
            RowEvent::Select
        } else {
            RowEvent::Ignored
        }),
{
    if renaming {
        RowEvent::Ignored
    } else if input.eye_clicked {
        RowEvent::ToggleHidden
    } else if has_children && input.disclosure_clicked {
        RowEvent::ToggleExpand
    } else if renameable && input.double_clicked {
        RowEvent::StartRename
    } else if input.clicked {
        RowEvent::Select
    } else {
        RowEvent::Ignored
    }
}

/// Is this the row whose rename is open?
pub open spec fn is_renaming(rename: Option<RenameEdit>, key: NodeKey) -> bool {
    rename matches Some(edit) && edit.key == key
}

/// Apply what the pointer did to a row. The edit that needs an undo step, if
/// any, is returned.
pub fn row_interaction(
    row: &TreeRow,
    input: RowInput,
    selection: &mut Selection,
    anchor: &mut Option<usize>,
    expanded: &mut NodeSet,
    rename: &mut Option<RenameEdit>,
    n: usize,
    visible_fixtures: &Vec<usize>,
    visible_objects: &Vec<usize>,
    visible_screens: &Vec<usize>,
) -> (r: TreeAction)
    requires
        click_is_valid(row.kind, input.shift, n, visible_fixtures@),
    ensures
        ({
            let out = row_outcome(
                row_event(
                    input,
                    is_renaming(*old(rename), row.key),
                    row.has_children,
                    row.renameable,
                ),
                row.kind,
                row.key,
                old(selection)@,
                *old(anchor),
                old(expanded)@,
                n,
                input.shift,
                input.cmd,
                (ClickLists {
                    fixtures: visible_fixtures@,
                    objects: visible_objects@,
                    screens: visible_screens@,
                }),
            );
            &&& r == (match out.hide {
                Some(key) => TreeAction::ToggleHidden(key),
                None => TreeAction::Nothing,
            })
            &&& final(expanded)@ == out.expanded
            &&& out.rename matches Some(key) ==> *final(rename) matches Some(edit) && edit.key == key
            &&& final(selection)@ == out.selection
            &&& *final(anchor) == out.anchor
        }),
        ({
            let event = row_event(
                input,
                is_renaming(*old(rename), row.key),
                row.has_children,
                row.renameable,
            );
            let lists = ClickLists {
                fixtures: visible_fixtures@,
                objects: visible_objects@,
                screens: visible_screens@,
            };
            &&& r == (if event is ToggleHidden {
                TreeAction::ToggleHidden(row.key)
            } else {
                TreeAction::Nothing
            })
            &&& final(expanded)@ == (if event is ToggleExpand {
                flipped(old(expanded)@, row.key)
            } else {
                old(expanded)@
            })
            &&& if event is StartRename {
                *final(rename) matches Some(edit) && edit.key == row.key && edit.text@ == row.label@
            } else {
                *final(rename) == *old(rename)
            }
            &&& (final(selection)@, *final(anchor)) == (if event is Select {
                after_row_click(
                    row.kind,
                    old(selection)@,
                    *old(anchor),
                    n,
                    input.shift,
                    input.cmd,
                    lists,
                )
            } else {
                (old(selection)@, *old(anchor))
            })
        }),
{
    let renaming = match rename {
        Some(edit) => edit.key == row.key,
        None => false,
    };
    match row_event(input, renaming, row.has_children, row.renameable) {
        RowEvent::Ignored => {},
        RowEvent::ToggleHidden => {
            return TreeAction::ToggleHidden(row.key);
        },
        RowEvent::ToggleExpand => toggle_expand(expanded, row.key),
        RowEvent::StartRename => {
            *rename = Some(RenameEdit { key: row.key, text: row.label.clone() });
        },
        RowEvent::Select => select_row(
            row,
            selection,
            anchor,
            n,
            input.shift,
            input.cmd,
            visible_fixtures,
            visible_objects,
            visible_screens,
        ),
    }
    TreeAction::Nothing
}

/// The name that a rename gives: the trimmed text, unless it is cancelled or that is
/// empty.
pub open spec fn given_name(text: Seq<char>, commit: bool) -> Option<Seq<char>> {
    if commit && trimmed(text).len() > 0 { Some(trimmed(text)) } else { None }
}

/// Close the inline rename. Committed, it renames the node to the trimmed text
/// unless that is empty; cancelled, it changes nothing.
pub fn finish_rename(rename: &mut Option<RenameEdit>, commit: bool) -> (r: TreeAction)
    ensures
        *final(rename) is None,
        *old(rename) matches Some(edit) ==> (r is Rename <==> given_name(edit.text@, commit) is Some),
        r matches TreeAction::Rename(key, name) ==> *old(rename) matches Some(edit) && key == edit.key
            && given_name(edit.text@, commit) == Some(name@),
        match *old(rename) {
            Some(edit) => if commit && trimmed(edit.text@).len() > 0 {
                r matches TreeAction::Rename(key, name) && key == edit.key && name@ == trimmed(edit.text@)
            } else {
                r == TreeAction::Nothing
            },
            None => r == TreeAction::Nothing,
        },
{
    let mut out = TreeAction::Nothing;
    match rename.take() {
        Some(edit) => {
            if commit {
                let name = trim_text(edit.text.as_str());
                if !name.as_str().is_empty() {
                    out = TreeAction::Rename(edit.key, name);
                }
            }
        },
        None => {},
    }
    out
}

/// Is `last` the last of the rows below row `i` in the hierarchy?
pub open spec fn ends_subtree(rows: Seq<TreeRow>, i: int, last: int) -> bool {
    &&& i <= last < rows.len()
    &&& forall|k: int| i < k <= last ==> (#[trigger] rows[k]).depth > rows[i].depth
    &&& last + 1 < rows.len() ==> rows[last + 1].depth <= rows[i].depth
}

/// The last of the rows below row `i` in the hierarchy: `i` itself where there
/// is none.
pub fn last_descendant(rows: &Vec<TreeRow>, i: usize) -> (r: usize)
    requires
        i < rows@.len(),
    ensures
        ends_subtree(rows@, i as int, r as int),
{
    let n: usize = rows.len();
    let mut last: usize = i;
    while last + 1 < n && rows[last + 1].depth > rows[i].depth
        invariant
            i <= last < rows@.len() == n,
            forall|k: int| i < k <= last ==> (#[trigger] rows@[k]).depth > rows@[i as int].depth,
        decreases rows@.len() - last,
    {
        last = last + 1;
    }
    last
}

/// The subtree of a row ends in one place.
pub proof fn subtree_end_is_unique(rows: Seq<TreeRow>, i: int, a: int, b: int)
    requires
        0 <= i < rows.len(),
        ends_subtree(rows, i, a),
        ends_subtree(rows, i, b),
    ensures
        a == b,
{
    if a < b {
        assert(rows[a + 1].depth > rows[i].depth);
    }
    if b < a {
        assert(rows[b + 1].depth > rows[i].depth);
    }
}

/// Does row `i` have a guide line within a row of the visible band? It runs
/// down to the last row below it.
pub open spec fn has_guide(rows: Seq<TreeRow>, i: int, last: int, start: int, end: int) -> bool {
    &&& rows[i].has_children
    &&& last != i
    &&& last + 1 >= start
    &&& i <= end + 1
}

/// The guide lines to draw for the visible band of rows: each from a container
/// to the last row below it, top to bottom.
pub fn guide_lines(rows: &Vec<TreeRow>, start: usize, end: usize) -> (r: Vec<(usize, usize)>)
    ensures
        forall|k: int|
            0 <= k < r@.len() ==> {
                let (i, last) = #[trigger] r@[k];
                &&& i < rows@.len()
                &&& ends_subtree(rows@, i as int, last as int)
                &&& has_guide(rows@, i as int, last as int, start as int, end as int)
            },
        forall|i: int, last: int|
            0 <= i < rows@.len() && #[trigger] ends_subtree(rows@, i, last) && has_guide(
                rows@,
                i,
                last,
                start as int,
                end as int,
            ) ==> r@.contains((i as usize, last as usize)),
        forall|a: int, b: int| 0 <= a < b < r@.len() ==> (#[trigger] r@[a]).0 < (#[trigger] r@[b]).0,
{
    let mut out: Vec<(usize, usize)> = Vec::new();
    let mut i: usize = 0;
    while i < rows.len()
        invariant
            i <= rows@.len(),
            forall|k: int|
                0 <= k < out@.len() ==> {
                    let (i2, last) = #[trigger] out@[k];
                    &&& i2 < i
                    &&& ends_subtree(rows@, i2 as int, last as int)
                    &&& has_guide(rows@, i2 as int, last as int, start as int, end as int)
                },
            forall|i2: int, last: int|
                0 <= i2 < i && #[trigger] ends_subtree(rows@, i2, last) && has_guide(
                    rows@,
                    i2,
                    last,
                    start as int,
                    end as int,
                ) ==> out@.contains((i2 as usize, last as usize)),
            forall|a: int, b: int|
                0 <= a < b < out@.len() ==> (#[trigger] out@[a]).0 < (#[trigger] out@[b]).0,
        decreases rows@.len() - i,
    {
        let ghost before = out@;
        let last = last_descendant(rows, i);
        let above = last < start && start - last > 1;
        let below = i > end && i - end > 1;
        if rows[i].has_children && last != i && !above && !below {
            out.push((i, last));
            assert(out@[before.len() as int] == (i, last));
        }
        assert forall|i2: int, l2: int|
            0 <= i2 < i + 1 && #[trigger] ends_subtree(rows@, i2, l2) && has_guide(
                rows@,
                i2,
                l2,
                start as int,
                end as int,
            ) implies out@.contains((i2 as usize, l2 as usize)) by {
            if i2 < i {
                assert(before.contains((i2 as usize, l2 as usize)));
                let k = choose|k: int|
                    0 <= k < before.len() && before[k] == (i2 as usize, l2 as usize);
                assert(out@[k] == (i2 as usize, l2 as usize));
            } else {
                subtree_end_is_unique(rows@, i2, l2, last as int);
            }
        }
        i = i + 1;
    }
    out
}

/// A click without modifiers on the row of a single object selects that object and
/// nothing else, whatever was selected before. On the rows of geometry and screens
/// Shift makes no difference, on that of an environment neither modifier does.
pub proof fn plain_row_click_selects_alone(
    s: SelectionView,
    anchor: Option<usize>,
    n: usize,
    i: usize,
    shift: bool,
    cmd: bool,
    lists: ClickLists,
    e: SelItem,
)
    ensures
        ({
            let fixture = after_row_click(RowKind::Fixture(i), s, anchor, n, false, false, lists).0;
            let object = after_row_click(RowKind::Object(i), s, anchor, n, shift, false, lists).0;
            let screen = after_row_click(RowKind::Screen(i), s, anchor, n, shift, false, lists).0;
            let fog = after_row_click(RowKind::Environment(i), s, anchor, n, shift, cmd, lists).0;
            &&& holds(fixture, e) <==> e == SelItem::Fixture(i)
            &&& holds(object, e) <==> e == SelItem::Geometry(i)
            &&& holds(screen, e) <==> e == SelItem::Screen(i)
            &&& holds(fog, e) <==> e == SelItem::Environment(i)
            &&& !fixture.world && !object.world && !screen.world && !fog.world
        }),
{
    assert(seq![i][0] == i);
}

/// A click with the command key on the row of a fixture, a piece of geometry or a
/// screen changes whether that object is selected, and nothing else.
pub proof fn command_row_click_changes_it_alone(
    s: SelectionView,
    anchor: Option<usize>,
    n: usize,
    i: usize,
    shift: bool,
    lists: ClickLists,
    e: SelItem,
)
    ensures
        ({
            let fixture = after_row_click(RowKind::Fixture(i), s, anchor, n, false, true, lists).0;
            let object = after_row_click(RowKind::Object(i), s, anchor, n, shift, true, lists).0;
            let screen = after_row_click(RowKind::Screen(i), s, anchor, n, shift, true, lists).0;
            &&& holds(fixture, e) <==> (holds(s, e) != (e == SelItem::Fixture(i)))
            &&& holds(object, e) <==> (holds(s, e) != (e == SelItem::Geometry(i)))
            &&& holds(screen, e) <==> (holds(s, e) != (e == SelItem::Screen(i)))
            &&& fixture.world == s.world && object.world == s.world && screen.world == s.world
        }),
{
    one_index_changes(s.fixtures, i);
    one_index_changes(s.geometry, i);
    one_index_changes(s.screens, i);
}

/// After a plain click on its row, the world or an object shows as selected and as
/// the primary one, and the row of any other entity as neither.
pub proof fn clicked_row_shows_as_selected(
    kind: RowKind,
    other: RowKind,
    s: SelectionView,
    anchor: Option<usize>,
    n: usize,
    lists: ClickLists,
)
    requires
        kind is World || kind is Fixture || kind is Object || kind is Screen || kind is Environment,
    ensures
        row_state(kind, after_row_click(kind, s, anchor, n, false, false, lists).0) == (true, true),
        other != kind ==> row_state(
            other,
            after_row_click(kind, s, anchor, n, false, false, lists).0,
        ) == (false, false),
{
    let i = match kind {
        RowKind::Fixture(i) => i,
        RowKind::Object(i) => i,
        RowKind::Screen(i) => i,
        RowKind::Environment(i) => i,
        _ => 0,
    };
    assert(seq![i][0] == i);
}

/// A row shows as selected exactly where its entity is, and as primary only where
/// it is the first selected one of its kind.
pub proof fn row_shows_the_selection(kind: RowKind, s: SelectionView)
    ensures
        kind matches RowKind::Fixture(i) ==> (row_state(kind, s).0 <==> holds(s, SelItem::Fixture(i))),
        kind matches RowKind::Object(i) ==> (row_state(kind, s).0 <==> holds(s, SelItem::Geometry(i))),
        kind matches RowKind::Screen(i) ==> (row_state(kind, s).0 <==> holds(s, SelItem::Screen(i))),
        kind matches RowKind::Environment(i) ==> (row_state(kind, s).0 <==> holds(
            s,
            SelItem::Environment(i),
        )),
        kind is World ==> (row_state(kind, s).0 <==> s.world),
        kind is Root || kind is EnvGroup || kind is Group ==> !row_state(kind, s).0,
        row_state(kind, s).1 ==> row_state(kind, s).0,
        kind matches RowKind::Fixture(i) ==> (row_state(kind, s).1 <==> s.fixtures.len() > 0
            && s.fixtures[0] == i),
        kind matches RowKind::Object(i) ==> (row_state(kind, s).1 <==> s.geometry.len() > 0
            && s.geometry[0] == i),
        kind matches RowKind::Screen(i) ==> (row_state(kind, s).1 <==> s.screens.len() > 0
            && s.screens[0] == i),
{
}

/// A click on the project's row selects nothing, one on the world's row the world
/// alone, and one on the environments' container changes nothing.
pub proof fn container_clicks(
    s: SelectionView,
    anchor: Option<usize>,
    n: usize,
    shift: bool,
    cmd: bool,
    lists: ClickLists,
    e: SelItem,
)
    ensures
        ({
            let root = after_row_click(RowKind::Root, s, anchor, n, shift, cmd, lists).0;
            let world = after_row_click(RowKind::World, s, anchor, n, shift, cmd, lists).0;
            &&& !holds(root, e) && !root.world
            &&& !holds(world, e) && world.world
            &&& after_row_click(RowKind::EnvGroup, s, anchor, n, shift, cmd, lists) == (s, anchor)
        }),
{
}

/// A click on a group's row selects all of its visible members and no object of
/// another kind that has a row. With the command key, a click on the fixtures'
/// group takes them all out where exactly they were selected.
pub proof fn group_click_selects_its_members(
    s: SelectionView,
    anchor: Option<usize>,
    n: usize,
    shift: bool,
    cmd: bool,
    lists: ClickLists,
    e: SelItem,
)
    requires
        !(e is Pyro),
    ensures
        ({
            let fixtures = after_row_click(
                RowKind::Group(GroupKind::Fixtures),
                s,
                anchor,
                n,
                shift,
                cmd,
                lists,
            ).0;
            let objects = after_row_click(
                RowKind::Group(GroupKind::Objects),
                s,
                anchor,
                n,
                shift,
                cmd,
                lists,
            ).0;
            let screens = after_row_click(
                RowKind::Group(GroupKind::Screens),
                s,
                anchor,
                n,
                shift,
                cmd,
                lists,
            ).0;
            &&& !cmd || s.fixtures != lists.fixtures ==> !fixtures.world && (holds(fixtures, e) <==> (e
                matches SelItem::Fixture(i) && lists.fixtures.contains(i)))
            &&& cmd && s.fixtures == lists.fixtures ==> fixtures.world == s.world && (holds(
                fixtures,
                e,
            ) <==> holds(s, e) && !(e is Fixture))
            &&& !objects.world && (holds(objects, e) <==> (e matches SelItem::Geometry(i)
                && lists.objects.contains(i)))
            &&& !screens.world && (holds(screens, e) <==> (e matches SelItem::Screen(i)
                && lists.screens.contains(i)))
        }),
{
}

/// A range click selects exactly the visible fixtures between the row it started
/// from and the clicked one, in the order of the rows and in either direction;
/// without a visible start the clicked one alone. The start stays for the next.
pub proof fn range_click_takes_what_lies_between(
    s: SelectionView,
    n: usize,
    cmd: bool,
    lists: ClickLists,
    a: int,
    b: int,
    k: int,
)
    requires
        lists.fixtures.no_duplicates(),
        0 <= a < lists.fixtures.len(),
        0 <= b < lists.fixtures.len(),
        0 <= k < lists.fixtures.len(),
    ensures
        ({
            let visible = lists.fixtures;
            let kind = RowKind::Fixture(visible[b]);
            let r = after_row_click(kind, s, Some(visible[a]), n, true, cmd, lists);
            let lone = after_row_click(kind, s, None, n, true, cmd, lists);
            &&& r.0.fixtures.contains(visible[k]) <==> a <= k <= b || b <= k <= a
            &&& r.0.geometry.len() == 0 && r.0.screens.len() == 0 && r.0.environment is None
                && !r.0.world
            &&& r.1 == Some(visible[a])
            &&& lone.0.fixtures.contains(visible[k]) <==> k == b
            &&& lone.1 == Some(visible[b])
        }),
{
    let visible = lists.fixtures;
    assert(visible.contains(visible[a]) && visible.contains(visible[b]));
    lemma_place(visible, visible[a]);
    lemma_place(visible, visible[b]);
    assert(place(visible, visible[a]) == a);
    assert(place(visible, visible[b]) == b);
    let lo = if a <= b { a } else { b };
    let hi = if a <= b { b } else { a };
    let part = visible.subrange(lo, hi + 1);
    assert(visible_range(visible, Some(visible[a]), visible[b]) == part);
    if lo <= k <= hi {
        assert(part[k - lo] == visible[k]);
    }
    if part.contains(visible[k]) {
        let j = choose|j: int| 0 <= j < part.len() && part[j] == visible[k];
        assert(visible[lo + j] == visible[k]);
    }
    let one = visible.subrange(b, b + 1);
    assert(visible_range(visible, None, visible[b]) == one);
    assert(one[0] == visible[b]);
    if one.contains(visible[k]) {
        let j = choose|j: int| 0 <= j < one.len() && one[j] == visible[k];
        assert(visible[b] == visible[k]);
    }
}

/// A row that is being renamed takes no click; elsewhere the eye comes first, then
/// the triangle of a row with children, then the rename of a row that can be
/// renamed, and what is left of a click selects.
pub proof fn row_click_does_one_thing(
    input: RowInput,
    renaming: bool,
    has_children: bool,
    renameable: bool,
)
    ensures
        ({
            let event = row_event(input, renaming, has_children, renameable);
            &&& renaming ==> event == RowEvent::Ignored
            &&& event == RowEvent::ToggleHidden <==> input.eye_clicked && !renaming
            &&& event == RowEvent::ToggleExpand ==> has_children && input.disclosure_clicked
            &&& !renaming && !input.eye_clicked && has_children && input.disclosure_clicked ==> event
                == RowEvent::ToggleExpand
            &&& event == RowEvent::StartRename ==> renameable && input.double_clicked
            &&& !renaming && !input.eye_clicked && !input.disclosure_clicked && renameable
                && input.double_clicked ==> event == RowEvent::StartRename
            &&& event == RowEvent::Select ==> input.clicked
            &&& !renaming && !input.eye_clicked && !input.disclosure_clicked && !input.double_clicked
                && input.clicked ==> event == RowEvent::Select
            &&& !input.eye_clicked && !input.disclosure_clicked && !input.double_clicked
                && !input.clicked ==> event == RowEvent::Ignored
        }),
{
}

/// A cancelled rename gives no name. A committed one gives what was typed without
/// the white space around it, and none only where nothing else was typed.
pub proof fn rename_gives_what_was_typed(text: Seq<char>)
    ensures
        given_name(text, false) is None,
        given_name(text, true) is None <==> forall|k: int|
            0 <= k < text.len() ==> white_space(#[trigger] text[k]),
        given_name(text, true) matches Some(name) ==> exists|a: int, b: int|
            0 <= a <= b <= text.len() && name == #[trigger] text.subrange(a, b) && (forall|k: int|
                0 <= k < text.len() && (k < a || b <= k) ==> white_space(#[trigger] text[k])),
{
    trimming_takes_the_ends_off(text);
    let (a, b) = choose|a: int, b: int|
        0 <= a <= b <= text.len() && trimmed(text) == #[trigger] text.subrange(a, b) && (forall|k: int|
            0 <= k < text.len() && (k < a || b <= k) ==> white_space(#[trigger] text[k]));
    if trimmed(text).len() > 0 {
        assert(trimmed(text)[0] == text[a]);
    }
}

/// What a frame's pointer does over a row.
pub struct RowOutcome {
    /// The node whose visibility is to be flipped.
    pub hide: Option<NodeKey>,
    pub expanded: Set<NodeKey>,
    /// The node whose rename opens.
    pub rename: Option<NodeKey>,
    pub selection: SelectionView,
    pub anchor: Option<usize>,
}

/// What an event on the row of the kind and key does.
pub open spec fn row_outcome(
    event: RowEvent,
    kind: RowKind,
    key: NodeKey,
    s: SelectionView,
    anchor: Option<usize>,
    expanded: Set<NodeKey>,
    n: usize,
    shift: bool,
    cmd: bool,
    lists: ClickLists,
) -> RowOutcome {
    let (selection, next) = if event is Select {
        after_row_click(kind, s, anchor, n, shift, cmd, lists)
    } else {
        (s, anchor)
    };
    RowOutcome {
        hide: if event is ToggleHidden { Some(key) } else { None },
        expanded: if event is ToggleExpand { flipped(expanded, key) } else { expanded },
        rename: if event is StartRename { Some(key) } else { None },
        selection,
        anchor: next,
    }
}

/// Each event does its own part and no other: the eye asks for the visibility of its node,
/// the triangle flips whether its node is expanded, a double click opens the rename of its
/// node, and only a selecting click touches the selection.
pub proof fn row_events_keep_apart(
    event: RowEvent,
    kind: RowKind,
    key: NodeKey,
    s: SelectionView,
    anchor: Option<usize>,
    expanded: Set<NodeKey>,
    n: usize,
    shift: bool,
    cmd: bool,
    lists: ClickLists,
)
    ensures
        ({
            let out = row_outcome(event, kind, key, s, anchor, expanded, n, shift, cmd, lists);
            &&& event == RowEvent::ToggleHidden ==> out.hide == Some(key)
            &&& event != RowEvent::ToggleHidden ==> out.hide is None
            &&& event == RowEvent::ToggleExpand ==> (out.expanded.contains(key)
                <==> !expanded.contains(key))
            &&& event != RowEvent::ToggleExpand ==> out.expanded == expanded
            &&& event == RowEvent::StartRename ==> out.rename == Some(key)
            &&& event != RowEvent::StartRename ==> out.rename is None
            &&& event != RowEvent::Select ==> out.selection == s && out.anchor == anchor
            &&& event == RowEvent::Select && kind == RowKind::Root ==> !has_object(out.selection)
                && !out.selection.world
        }),
{
}

/// A row is being renamed exactly where the open rename is its own.
pub proof fn one_row_is_renamed(edit: RenameEdit, key: NodeKey)
    ensures
        is_renaming(Some(edit), key) <==> edit.key == key,
        !is_renaming(None, key),
{
}

/// A container's guide line shows wherever it passes through the visible band, and not where
/// it ends above it or begins below it.
pub proof fn guide_shows_in_the_band(
    rows: Seq<TreeRow>,
    i: int,
    last: int,
    start: int,
    end: int,
    k: int,
)
    requires
        0 <= i < last < rows.len(),
    ensures
        rows[i].has_children && start <= k <= end && i <= k <= last ==> has_guide(
            rows,
            i,
            last,
            start,
            end,
        ),
        last < start - 1 ==> !has_guide(rows, i, last, start, end),
        i > end + 1 ==> !has_guide(rows, i, last, start, end),
        !rows[i].has_children ==> !has_guide(rows, i, last, start, end),
        !has_guide(rows, i, i, start, end),
{
}

} // verus!
