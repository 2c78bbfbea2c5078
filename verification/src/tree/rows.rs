//! The outliner's flattened row list: which entities the search and the chips
//! leave visible, and the rows that the expanded part of the tree has.

use vstd::prelude::*;
use crate::scene::{
    conflicted_flags, environments_hidden, fixtures_hidden, geometry_hidden, in_conflict,
    is_patched, push_environments_hidden, push_fixtures_hidden, push_geometry_hidden,
    push_screens_hidden, screens_hidden, Fixture, Geometry, PatchEntry, PatchTable, Scene, Screen,
};
use crate::selection::{filter_keeps, Selection};
use crate::text::{
    contains_text, decimal, decimal_reads_back, lowercase, number_of, occurs_in, padded,
    padded_reads_back, push_decimal, push_padded, trim_text, trimmed,
};
use crate::theme::Icon;
use crate::tree::{
    container_shows_its_children, folded, rows_view, GroupKind, NodeKey, NodeSet, OutlinerFilter,
    RowKind, RowView, TreeRow, TypeChip, VisState,
};

verus! {

/// The number of children of a group in words.
pub open spec fn count_text(n: nat) -> Seq<char> {
    if n == 0 { "empty"@ } else { decimal(n) }
}

/// The number of children of a group in words.
pub fn count_str(n: usize) -> (r: String)
    ensures
        r@ == count_text(n as nat),
{
    if n == 0 {
        "empty".to_owned()
    } else {
        let mut s = String::new();
        push_decimal(&mut s, n as u128);
        assert(s@ =~= decimal(n as nat));
        s
    }
}

/// The visibility of a leaf.
#[verifier::allow_in_spec]
pub fn leaf_vis(hidden: bool) -> VisState
    returns
        (if hidden { VisState::Hidden } else { VisState::Shown }),
{
    if hidden {
        VisState::Hidden
    } else {
        VisState::Shown
    }
}

/// A row without children, address or conflict.
pub open spec fn bare_row(
    key: NodeKey,
    kind: RowKind,
    depth: int,
    icon: Icon,
    label: Seq<char>,
    secondary: Seq<char>,
    vis: VisState,
) -> RowView {
    RowView {
        key,
        kind,
        depth,
        icon,
        label,
        secondary,
        has_children: false,
        vis,
        patch_tag: Seq::empty(),
        conflict: false,
        renameable: false,
    }
}

/// The project's row.
pub open spec fn root_row(scene: Scene) -> RowView {
    RowView {
        has_children: true,
        ..bare_row(
            NodeKey::Root,
            RowKind::Root,
            0,
            Icon::Scene,
            "Scene"@,
            decimal(
                scene.fixtures@.len() + scene.geometry@.len() + scene.screens@.len()
                    + scene.environments@.len(),
            ) + " items"@,
            folded(
                fixtures_hidden(scene) + geometry_hidden(scene) + screens_hidden(scene)
                    + environments_hidden(scene),
            ),
        )
    }
}

/// The world's row.
pub open spec fn world_row(scene: Scene) -> RowView {
    RowView {
        has_children: scene.environments@.len() > 0,
        ..bare_row(
            NodeKey::World,
            RowKind::World,
            1,
            Icon::World,
            "World"@,
            "HDRI · ambient"@,
            folded(environments_hidden(scene)),
        )
    }
}

/// The row of the environments' container.
pub open spec fn env_group_row(scene: Scene) -> RowView {
    RowView {
        has_children: scene.environments@.len() > 0,
        ..bare_row(
            NodeKey::EnvGroup,
            RowKind::EnvGroup,
            2,
            Icon::Environment,
            "Environment"@,
            count_text(scene.environments@.len()),
            folded(environments_hidden(scene)),
        )
    }
}

/// The row of the environment `i`.
pub open spec fn env_row(scene: Scene, i: usize) -> RowView {
    let e = scene.environments@[i as int];
    RowView {
        renameable: true,
        ..bare_row(
            NodeKey::Entity(e.id),
            RowKind::Environment(i),
            3,
            Icon::Environment,
            e.name@,
            "Fog volume"@,
            leaf_vis(e.hidden),
        )
    }
}

/// A group's icon.
pub open spec fn group_icon(kind: GroupKind) -> Icon {
    match kind {
        GroupKind::Fixtures => Icon::Fixture,
        GroupKind::Objects => Icon::Geometry,
        GroupKind::Screens => Icon::Screen,
    }
}

/// A group's name.
pub open spec fn group_label(kind: GroupKind) -> Seq<char> {
    match kind {
        GroupKind::Fixtures => "Fixtures"@,
        GroupKind::Objects => "Objects"@,
        GroupKind::Screens => "Screens"@,
    }
}

/// The row of a group with `count` visible children.
pub open spec fn group_row(kind: GroupKind, count: nat, vis: VisState) -> RowView {
    RowView {
        has_children: count > 0,
        ..bare_row(
            NodeKey::Group(kind),
            RowKind::Group(kind),
            1,
            group_icon(kind),
            group_label(kind),
            count_text(count),
            vis,
        )
    }
}

/// A fixture's address: universe, a dot and the channel with three digits.
pub open spec fn patch_tag(patch: Seq<PatchEntry>, i: int) -> Seq<char> {
    if is_patched(patch, i) {
        decimal(patch[i].universe as nat) + "."@ + padded(patch[i].address as nat, 3)
    } else {
        "unpatched"@
    }
}

/// The flag of the fixture `i`, false past the end.
pub open spec fn flag_at(flags: Seq<bool>, i: int) -> bool {
    0 <= i < flags.len() && flags[i]
}

/// The row of the fixture `i`.
pub open spec fn fixture_row(
    scene: Scene,
    patch: Seq<PatchEntry>,
    conflicted: Seq<bool>,
    i: usize,
) -> RowView {
    let f = scene.fixtures@[i as int];
    RowView {
        renameable: true,
        patch_tag: patch_tag(patch, i as int),
        conflict: flag_at(conflicted, i as int),
        ..bare_row(
            NodeKey::Entity(f.id),
            RowKind::Fixture(i),
            2,
            if f.is_laser { Icon::Color } else { Icon::Fixture },
            f.name@,
            f.profile@,
            leaf_vis(f.hidden),
        )
    }
}

/// What an object is, in words: its imported kind, if that says anything.
pub open spec fn object_kind(g: Geometry) -> Seq<char> {
    match g.kind {
        Some(k) => if k@.len() > 0 { k@ } else { "Object"@ },
        None => "Object"@,
    }
}

/// The row of the piece of geometry `i`.
pub open spec fn object_row(scene: Scene, i: usize) -> RowView {
    let g = scene.geometry@[i as int];
    RowView {
        renameable: true,
        ..bare_row(
            NodeKey::Entity(g.id),
            RowKind::Object(i),
            2,
            Icon::Geometry,
            g.name@,
            object_kind(g),
            leaf_vis(g.hidden),
        )
    }
}

/// A screen's resolution and content.
pub open spec fn screen_text(s: Screen) -> Seq<char> {
    decimal(s.width_px as nat) + "×"@ + decimal(s.height_px as nat) + " · "@ + s.content@
}

/// The row of the screen `i`.
pub open spec fn screen_row(scene: Scene, i: usize) -> RowView {
    let s = scene.screens@[i as int];
    RowView {
        renameable: true,
        ..bare_row(
            NodeKey::Entity(s.id),
            RowKind::Screen(i),
            2,
            Icon::Screen,
            s.name@,
            screen_text(s),
            leaf_vis(s.hidden),
        )
    }
}

/// The rows of the listed fixtures.
pub open spec fn fixture_rows(
    scene: Scene,
    patch: Seq<PatchEntry>,
    conflicted: Seq<bool>,
    visible: Seq<usize>,
) -> Seq<RowView> {
    Seq::new(visible.len(), |k: int| fixture_row(scene, patch, conflicted, visible[k]))
}

/// The rows of the listed pieces of geometry.
pub open spec fn object_rows(scene: Scene, visible: Seq<usize>) -> Seq<RowView> {
    Seq::new(visible.len(), |k: int| object_row(scene, visible[k]))
}

/// The rows of the listed screens.
pub open spec fn screen_rows(scene: Scene, visible: Seq<usize>) -> Seq<RowView> {
    Seq::new(visible.len(), |k: int| screen_row(scene, visible[k]))
}

/// The rows of the listed environments.
pub open spec fn env_rows(scene: Scene, visible: Seq<usize>) -> Seq<RowView> {
    Seq::new(visible.len(), |k: int| env_row(scene, visible[k]))
}

/// A group's row, followed by its children's where it is expanded.
pub open spec fn group_rows(
    kind: GroupKind,
    vis: VisState,
    children: Seq<RowView>,
    expanded: Set<NodeKey>,
) -> Seq<RowView> {
    seq![group_row(kind, children.len(), vis)] + (if expanded.contains(NodeKey::Group(kind)) {
        children
    } else {
        seq![]
    })
}

/// The world's row and what is expanded below it.
pub open spec fn world_rows(scene: Scene, expanded: Set<NodeKey>, envs: Seq<usize>) -> Seq<RowView> {
    seq![world_row(scene)] + (if scene.environments@.len() > 0 && expanded.contains(NodeKey::World) {
        seq![env_group_row(scene)] + (if expanded.contains(NodeKey::EnvGroup) {
            env_rows(scene, envs)
        } else {
            seq![]
        })
    } else {
        seq![]
    })
}

/// The entities that are left visible, in the order of their rows.
pub struct Visible {
    pub fixtures: Seq<usize>,
    pub objects: Seq<usize>,
    pub screens: Seq<usize>,
    pub envs: Seq<usize>,
}

/// The world's part of the tree: shown where neither chip narrows it away.
pub open spec fn world_section(
    scene: Scene,
    filter: OutlinerFilter,
    expanded: Set<NodeKey>,
    visible: Seq<usize>,
) -> Seq<RowView> {
    if filter.kind.world() && !filter.state.any() {
        world_rows(scene, expanded, visible)
    } else {
        seq![]
    }
}

/// The fixtures' part of the tree.
pub open spec fn fixture_section(
    scene: Scene,
    patch: Seq<PatchEntry>,
    filter: OutlinerFilter,
    expanded: Set<NodeKey>,
    conflicted: Seq<bool>,
    visible: Seq<usize>,
) -> Seq<RowView> {
    if filter.kind.fixtures() {
        group_rows(
            GroupKind::Fixtures,
            folded(fixtures_hidden(scene)),
            fixture_rows(scene, patch, conflicted, visible),
            expanded,
        )
    } else {
        seq![]
    }
}

/// The objects' part of the tree: shown where neither chip narrows it away.
pub open spec fn object_section(
    scene: Scene,
    filter: OutlinerFilter,
    expanded: Set<NodeKey>,
    visible: Seq<usize>,
) -> Seq<RowView> {
    if filter.kind.objects() && !filter.state.any() {
        group_rows(
            GroupKind::Objects,
            folded(geometry_hidden(scene)),
            object_rows(scene, visible),
            expanded,
        )
    } else {
        seq![]
    }
}

/// The screens' part of the tree: shown where neither chip narrows it away.
pub open spec fn screen_section(
    scene: Scene,
    filter: OutlinerFilter,
    expanded: Set<NodeKey>,
    visible: Seq<usize>,
) -> Seq<RowView> {
    if filter.kind.screens() && !filter.state.any() {
        group_rows(
            GroupKind::Screens,
            folded(screens_hidden(scene)),
            screen_rows(scene, visible),
            expanded,
        )
    } else {
        seq![]
    }
}

/// The rows of the tree: the project, and where it is expanded the world, the
/// fixtures, the objects and the screens.
pub open spec fn tree_rows(
    scene: Scene,
    patch: Seq<PatchEntry>,
    filter: OutlinerFilter,
    expanded: Set<NodeKey>,
    conflicted: Seq<bool>,
    visible: Visible,
) -> Seq<RowView> {
    if expanded.contains(NodeKey::Root) {
        seq![root_row(scene)] + world_section(scene, filter, expanded, visible.envs) + fixture_section(
            scene,
            patch,
            filter,
            expanded,
            conflicted,
            visible.fixtures,
        ) + object_section(scene, filter, expanded, visible.objects) + screen_section(
            scene,
            filter,
            expanded,
            visible.screens,
        )
    } else {
        seq![root_row(scene)]
    }
}

/// Are all indices below `n`?
pub open spec fn below(v: Seq<usize>, n: nat) -> bool {
    forall|k: int| 0 <= k < v.len() ==> #[trigger] v[k] < n
}

/// Append a row.
fn push_row(rows: &mut Vec<TreeRow>, row: TreeRow)
    ensures
        rows_view(final(rows)@) == rows_view(old(rows)@).push(row@),
{
    rows.push(row);
    assert(rows_view(rows@) =~= rows_view(old(rows)@).push(row@));
}

/// A row without children, address or conflict.
fn plain_row(
    key: NodeKey,
    kind: RowKind,
    depth: u8,
    icon: Icon,
    label: &str,
    secondary: String,
    vis: VisState,
) -> (r: TreeRow)
    ensures
        r@ == bare_row(key, kind, depth as int, icon, label@, secondary@, vis),
{
    TreeRow {
        key,
        kind,
        depth,
        icon,
        label: label.to_owned(),
        secondary,
        has_children: false,
        vis,
        patch_tag: String::new(),
        conflict: false,
        renameable: false,
    }
}

/// Append the project's row.
fn push_root(rows: &mut Vec<TreeRow>, scene: &Scene)
    ensures
        rows_view(final(rows)@) == rows_view(old(rows)@).push(root_row(*scene)),
{
    let mut hidden: Vec<bool> = Vec::new();
    push_fixtures_hidden(&mut hidden, scene);
    push_geometry_hidden(&mut hidden, scene);
    push_screens_hidden(&mut hidden, scene);
    push_environments_hidden(&mut hidden, scene);
    assert(hidden@ =~= fixtures_hidden(*scene) + geometry_hidden(*scene) + screens_hidden(*scene)
        + environments_hidden(*scene));
    let total: u128 = scene.fixtures.len() as u128 + scene.geometry.len() as u128
        + scene.screens.len() as u128 + scene.environments.len() as u128;
    let mut secondary = String::new();
    push_decimal(&mut secondary, total);
    secondary.push_str(" items");
    assert(secondary@ =~= decimal(total as nat) + " items"@);
    let mut row = plain_row(
        NodeKey::Root,
        RowKind::Root,
        0,
        Icon::Scene,
        "Scene",
        secondary,
        VisState::fold(&hidden),
    );
    row.has_children = true;
    push_row(rows, row);
}

/// Append a group's row.
fn push_group(rows: &mut Vec<TreeRow>, kind: GroupKind, count: usize, vis: VisState)
    ensures
        rows_view(final(rows)@) == rows_view(old(rows)@).push(group_row(kind, count as nat, vis)),
{
    let (icon, label) = match kind {
        GroupKind::Fixtures => (Icon::Fixture, "Fixtures"),
        GroupKind::Objects => (Icon::Geometry, "Objects"),
        GroupKind::Screens => (Icon::Screen, "Screens"),
    };
    let mut row = plain_row(
        NodeKey::Group(kind),
        RowKind::Group(kind),
        1,
        icon,
        label,
        count_str(count),
        vis,
    );
    row.has_children = count > 0;
    push_row(rows, row);
}

/// Append the world's row and what is expanded below it.
fn push_world(rows: &mut Vec<TreeRow>, scene: &Scene, expanded: &NodeSet, envs: &Vec<usize>)
    requires
        below(envs@, scene.environments@.len()),
    ensures
        rows_view(final(rows)@) == rows_view(old(rows)@) + world_rows(*scene, expanded@, envs@),
{
    let mut hidden: Vec<bool> = Vec::new();
    push_environments_hidden(&mut hidden, scene);
    assert(hidden@ =~= environments_hidden(*scene));
    let vis = VisState::fold(&hidden);
    let has = scene.environments.len() > 0;
    let mut row = plain_row(
        NodeKey::World,
        RowKind::World,
        1,
        Icon::World,
        "World",
        "HDRI · ambient".to_owned(),
        vis,
    );
    row.has_children = has;
    push_row(rows, row);
    if has && expanded.contains(NodeKey::World) {
        let mut group = plain_row(
            NodeKey::EnvGroup,
            RowKind::EnvGroup,
            2,
            Icon::Environment,
            "Environment",
            count_str(scene.environments.len()),
            vis,
        );
        group.has_children = has;
        push_row(rows, group);
        if expanded.contains(NodeKey::EnvGroup) {
            let ghost start = rows_view(rows@);
            let mut k: usize = 0;
            assert(start + env_rows(*scene, envs@).take(0) =~= start);
            while k < envs.len()
                invariant
                    k <= envs@.len(),
                    below(envs@, scene.environments@.len()),
                    rows_view(rows@) == start + env_rows(*scene, envs@).take(k as int),
                decreases envs@.len() - k,
            {
                let i = envs[k];
                let e = &scene.environments[i];
                let mut leaf = plain_row(
                    NodeKey::Entity(e.id),
                    RowKind::Environment(i),
                    3,
                    Icon::Environment,
                    e.name.as_str(),
                    "Fog volume".to_owned(),
                    leaf_vis(e.hidden),
                );
                leaf.renameable = true;
                push_row(rows, leaf);
                k = k + 1;
                assert(rows_view(rows@) =~= start + env_rows(*scene, envs@).take(k as int));
            }
            assert(env_rows(*scene, envs@).take(k as int) =~= env_rows(*scene, envs@));
        }
    }
    assert(rows_view(rows@) =~= rows_view(old(rows)@) + world_rows(*scene, expanded@, envs@));
}

/// A fixture's address.
fn patch_text(patch: &PatchTable, i: usize) -> (r: String)
    ensures
        r@ == patch_tag(patch@, i as int),
{
    if patch.is_patched(i) {
        let p = patch.entries[i];
        let mut s = String::new();
        push_decimal(&mut s, p.universe as u128);
        s.push_str(".");
        push_padded(&mut s, p.address as u128, 3);
        assert(s@ =~= patch_tag(patch@, i as int));
        s
    } else {
        "unpatched".to_owned()
    }
}

/// Append the rows of the listed fixtures.
fn push_fixtures(
    rows: &mut Vec<TreeRow>,
    scene: &Scene,
    patch: &PatchTable,
    conflicted: &Vec<bool>,
    visible: &Vec<usize>,
)
    requires
        below(visible@, scene.fixtures@.len()),
    ensures
        rows_view(final(rows)@) == rows_view(old(rows)@) + fixture_rows(
            *scene,
            patch@,
            conflicted@,
            visible@,
        ),
{
    let ghost start = rows_view(rows@);
    let ghost all = fixture_rows(*scene, patch@, conflicted@, visible@);
    let mut k: usize = 0;
    assert(start + all.take(0) =~= start);
    while k < visible.len()
        invariant
            k <= visible@.len(),
            below(visible@, scene.fixtures@.len()),
            all == fixture_rows(*scene, patch@, conflicted@, visible@),
            rows_view(rows@) == start + all.take(k as int),
        decreases visible@.len() - k,
    {
        let i = visible[k];
        let f = &scene.fixtures[i];
        let mut leaf = plain_row(
            NodeKey::Entity(f.id),
            RowKind::Fixture(i),
            2,
            if f.is_laser {
                Icon::Color
            } else {
                Icon::Fixture
            },
            f.name.as_str(),
            f.profile.clone(),
            leaf_vis(f.hidden),
        );
        leaf.renameable = true;
        leaf.patch_tag = patch_text(patch, i);
        leaf.conflict = i < conflicted.len() && conflicted[i];
        push_row(rows, leaf);
        k = k + 1;
        assert(rows_view(rows@) =~= start + all.take(k as int));
    }
    assert(all.take(k as int) =~= all);
}

/// Append the rows of the listed pieces of geometry.
fn push_objects(rows: &mut Vec<TreeRow>, scene: &Scene, visible: &Vec<usize>)
    requires
        below(visible@, scene.geometry@.len()),
    ensures
        rows_view(final(rows)@) == rows_view(old(rows)@) + object_rows(*scene, visible@),
{
    let ghost start = rows_view(rows@);
    let ghost all = object_rows(*scene, visible@);
    let mut k: usize = 0;
    assert(start + all.take(0) =~= start);
    while k < visible.len()
        invariant
            k <= visible@.len(),
            below(visible@, scene.geometry@.len()),
            all == object_rows(*scene, visible@),
            rows_view(rows@) == start + all.take(k as int),
        decreases visible@.len() - k,
    {
        let i = visible[k];
        let g = &scene.geometry[i];
        let kind = match &g.kind {
            Some(k) => {
                if k.as_str().is_empty() {
                    "Object".to_owned()
                } else {
                    k.clone()
                }
            },
            None => "Object".to_owned(),
        };
        let mut leaf = plain_row(
            NodeKey::Entity(g.id),
            RowKind::Object(i),
            2,
            Icon::Geometry,
            g.name.as_str(),
            kind,
            leaf_vis(g.hidden),
        );
        leaf.renameable = true;
        push_row(rows, leaf);
        k = k + 1;
        assert(rows_view(rows@) =~= start + all.take(k as int));
    }
    assert(all.take(k as int) =~= all);
}

/// Append the rows of the listed screens.
fn push_screens(rows: &mut Vec<TreeRow>, scene: &Scene, visible: &Vec<usize>)
    requires
        below(visible@, scene.screens@.len()),
    ensures
        rows_view(final(rows)@) == rows_view(old(rows)@) + screen_rows(*scene, visible@),
{
    let ghost start = rows_view(rows@);
    let ghost all = screen_rows(*scene, visible@);
    let mut k: usize = 0;
    assert(start + all.take(0) =~= start);
    while k < visible.len()
        invariant
            k <= visible@.len(),
            below(visible@, scene.screens@.len()),
            all == screen_rows(*scene, visible@),
            rows_view(rows@) == start + all.take(k as int),
        decreases visible@.len() - k,
    {
        let i = visible[k];
        let s = &scene.screens[i];
        let mut text = String::new();
        push_decimal(&mut text, s.width_px as u128);
        text.push_str("×");
        push_decimal(&mut text, s.height_px as u128);
        text.push_str(" · ");
        text.push_str(s.content.as_str());
        assert(text@ =~= screen_text(*s));
        let mut leaf = plain_row(
            NodeKey::Entity(s.id),
            RowKind::Screen(i),
            2,
            Icon::Screen,
            s.name.as_str(),
            text,
            leaf_vis(s.hidden),
        );
        leaf.renameable = true;
        push_row(rows, leaf);
        k = k + 1;
        assert(rows_view(rows@) =~= start + all.take(k as int));
    }
    assert(all.take(k as int) =~= all);
}

/// Append the fixtures' part of the tree.
fn push_fixture_section(
    rows: &mut Vec<TreeRow>,
    scene: &Scene,
    patch: &PatchTable,
    filter: OutlinerFilter,
    expanded: &NodeSet,
    conflicted: &Vec<bool>,
    visible: &Vec<usize>,
)
    requires
        below(visible@, scene.fixtures@.len()),
    ensures
        rows_view(final(rows)@) == rows_view(old(rows)@) + fixture_section(*scene, patch@, filter, expanded@, conflicted@, visible@),
{
    let ghost start = rows_view(rows@);
    if filter.kind.fixtures() {
        let mut hidden: Vec<bool> = Vec::new();
        push_fixtures_hidden(&mut hidden, scene);
        assert(hidden@ =~= fixtures_hidden(*scene));
        push_group(rows, GroupKind::Fixtures, visible.len(), VisState::fold(&hidden));
        if expanded.contains(NodeKey::Group(GroupKind::Fixtures)) {
            push_fixtures(rows, scene, patch, conflicted, visible);
        }
        assert(rows_view(rows@) =~= start + group_rows(
            GroupKind::Fixtures,
            folded(fixtures_hidden(*scene)),
            fixture_rows(*scene, patch@, conflicted@, visible@),
            expanded@,
        ));
    } else {
        assert(start + seq![] =~= start);
    }
}

/// Append the objects' part of the tree.
fn push_object_section(
    rows: &mut Vec<TreeRow>,
    scene: &Scene,
    filter: OutlinerFilter,
    expanded: &NodeSet,
    visible: &Vec<usize>,
)
    requires
        below(visible@, scene.geometry@.len()),
    ensures
        rows_view(final(rows)@) == rows_view(old(rows)@) + object_section(*scene, filter, expanded@, visible@),
{
    let ghost start = rows_view(rows@);
    if filter.kind.objects() && !filter.state.any() {
        let mut hidden: Vec<bool> = Vec::new();
        push_geometry_hidden(&mut hidden, scene);
        assert(hidden@ =~= geometry_hidden(*scene));
        push_group(rows, GroupKind::Objects, visible.len(), VisState::fold(&hidden));
        if expanded.contains(NodeKey::Group(GroupKind::Objects)) {
            push_objects(rows, scene, visible);
        }
        assert(rows_view(rows@) =~= start + group_rows(
            GroupKind::Objects,
            folded(geometry_hidden(*scene)),
            object_rows(*scene, visible@),
            expanded@,
        ));
    } else {
        assert(start + seq![] =~= start);
    }
}

/// Append the screens' part of the tree.
fn push_screen_section(
    rows: &mut Vec<TreeRow>,
    scene: &Scene,
    filter: OutlinerFilter,
    expanded: &NodeSet,
    visible: &Vec<usize>,
)
    requires
        below(visible@, scene.screens@.len()),
    ensures
        rows_view(final(rows)@) == rows_view(old(rows)@) + screen_section(*scene, filter, expanded@, visible@),
{
    let ghost start = rows_view(rows@);
    if filter.kind.screens() && !filter.state.any() {
        let mut hidden: Vec<bool> = Vec::new();
        push_screens_hidden(&mut hidden, scene);
        assert(hidden@ =~= screens_hidden(*scene));
        push_group(rows, GroupKind::Screens, visible.len(), VisState::fold(&hidden));
        if expanded.contains(NodeKey::Group(GroupKind::Screens)) {
            push_screens(rows, scene, visible);
        }
        assert(rows_view(rows@) =~= start + group_rows(
            GroupKind::Screens,
            folded(screens_hidden(*scene)),
            screen_rows(*scene, visible@),
            expanded@,
        ));
    } else {
        assert(start + seq![] =~= start);
    }
}

/// The rows of the tree for what is expanded.
pub fn build_rows(
    scene: &Scene,
    patch: &PatchTable,
    filter: OutlinerFilter,
    expanded: &NodeSet,
    conflicted: &Vec<bool>,
    visible_fixtures: &Vec<usize>,
    visible_objects: &Vec<usize>,
    visible_screens: &Vec<usize>,
    visible_envs: &Vec<usize>,
) -> (r: Vec<TreeRow>)
    requires
        below(visible_fixtures@, scene.fixtures@.len()),
        below(visible_objects@, scene.geometry@.len()),
        below(visible_screens@, scene.screens@.len()),
        below(visible_envs@, scene.environments@.len()),
    ensures
        rows_view(r@) == tree_rows(
            *scene,
            patch@,
            filter,
            expanded@,
            conflicted@,
            (Visible {
                fixtures: visible_fixtures@,
                objects: visible_objects@,
                screens: visible_screens@,
                envs: visible_envs@,
            }),
        ),
{
    let mut rows: Vec<TreeRow> = Vec::new();
    push_root(&mut rows, scene);
    assert(rows_view(rows@) =~= seq![root_row(*scene)]);
    if !expanded.contains(NodeKey::Root) {
        return rows;
    }
    let ghost start = rows_view(rows@);
    if filter.kind.world() && !filter.state.any() {
        push_world(&mut rows, scene, expanded, visible_envs);
    } else {
        assert(start + seq![] =~= start);
    }
    assert(rows_view(rows@) == start + world_section(*scene, filter, expanded@, visible_envs@));
    push_fixture_section(
        &mut rows,
        scene,
        patch,
        filter,
        expanded,
        conflicted,
        visible_fixtures,
    );
    push_object_section(&mut rows, scene, filter, expanded, visible_objects);
    push_screen_section(&mut rows, scene, filter, expanded, visible_screens);
    rows
}

/// Does `name` match the query, which is trimmed and lower-case? Every name
/// matches the empty one.
pub open spec fn name_matches(query: Seq<char>, name: Seq<char>) -> bool {
    query.len() == 0 || occurs_in(lowercase(name), query)
}

/// The query that a search text stands for.
pub open spec fn query_of(search: Seq<char>) -> Seq<char> {
    lowercase(trimmed(search))
}

/// The query that a search text stands for.
pub fn search_query(search: &str) -> (r: String)
    ensures
        r@ == query_of(search@),
{
    trim_text(search).as_str().to_lowercase()
}

/// Does `name` match the query?
pub fn matches_query(query: &str, name: &str) -> (r: bool)
    ensures
        r == name_matches(query@, name@),
{
    query.is_empty() || contains_text(name.to_lowercase().as_str(), query)
}

/// Do search and chips leave the fixture `i` visible?
pub open spec fn fixture_visible(
    scene: Scene,
    patch: Seq<PatchEntry>,
    pairs: Seq<(usize, usize)>,
    selected: Seq<usize>,
    query: Seq<char>,
    filter: OutlinerFilter,
    i: usize,
) -> bool {
    &&& name_matches(query, scene.fixtures@[i as int].name@)
    &&& filter.passes(
        is_patched(patch, i as int),
        selected.contains(i),
        in_conflict(pairs, i as int),
    )
}

/// The visible fixtures, in the given order.
pub open spec fn visible_fixtures(
    scene: Scene,
    patch: Seq<PatchEntry>,
    pairs: Seq<(usize, usize)>,
    selected: Seq<usize>,
    query: Seq<char>,
    filter: OutlinerFilter,
    order: Seq<usize>,
) -> Seq<usize> {
    if filter.kind.fixtures() {
        order.filter(|i: usize| fixture_visible(scene, patch, pairs, selected, query, filter, i))
    } else {
        seq![]
    }
}

/// The indices below `n`.
pub open spec fn indices(n: nat) -> Seq<usize> {
    Seq::new(n, |i: int| i as usize)
}

/// The pieces of geometry whose name matches, where the chips admit objects.
pub open spec fn visible_objects(scene: Scene, query: Seq<char>, filter: OutlinerFilter) -> Seq<
    usize,
> {
    if filter.kind.objects() && !filter.state.any() {
        indices(scene.geometry@.len()).filter(
            |i: usize| name_matches(query, scene.geometry@[i as int].name@),
        )
    } else {
        seq![]
    }
}

/// The screens whose name matches, where the chips admit screens.
pub open spec fn visible_screens(scene: Scene, query: Seq<char>, filter: OutlinerFilter) -> Seq<
    usize,
> {
    if filter.kind.screens() && !filter.state.any() {
        indices(scene.screens@.len()).filter(
            |i: usize| name_matches(query, scene.screens@[i as int].name@),
        )
    } else {
        seq![]
    }
}

/// The environments whose name matches, where the chips admit the world.
pub open spec fn visible_envs(scene: Scene, query: Seq<char>, filter: OutlinerFilter) -> Seq<
    usize,
> {
    if filter.kind.world() && !filter.state.any() {
        indices(scene.environments@.len()).filter(
            |i: usize| name_matches(query, scene.environments@[i as int].name@),
        )
    } else {
        seq![]
    }
}

/// Filtering keeps indices below a bound.
proof fn lemma_filter_below(s: Seq<usize>, p: spec_fn(usize) -> bool, n: nat)
    requires
        below(s, n),
    ensures
        below(s.filter(p), n),
    decreases s.len(),
{
    reveal(Seq::filter);
    if s.len() > 0 {
        let front = s.drop_last();
        assert forall|k: int| 0 <= k < front.len() implies #[trigger] front[k] < n by {
            assert(front[k] == s[k]);
        }
        lemma_filter_below(front, p, n);
        let kept = front.filter(p);
        assert(s[s.len() - 1] < n);
        assert forall|k: int| 0 <= k < s.filter(p).len() implies #[trigger] s.filter(p)[k] < n by {
            if k < kept.len() {
                assert(kept[k] < n);
            }
        }
    }
}

/// The visible pieces of geometry.
fn list_objects(scene: &Scene, query: &str, filter: OutlinerFilter) -> (r: Vec<usize>)
    ensures
        r@ == visible_objects(*scene, query@, filter),
        below(r@, scene.geometry@.len()),
{
    let mut out: Vec<usize> = Vec::new();
    if filter.kind.objects() && !filter.state.any() {
        let ghost p = |i: usize| name_matches(query@, scene.geometry@[i as int].name@);
        let ghost all = indices(scene.geometry@.len());
        let mut i: usize = 0;
        proof {
            reveal(Seq::filter);
        }
        while i < scene.geometry.len()
            invariant
                i <= scene.geometry@.len(),
                all == indices(scene.geometry@.len()),
                p == (|i: usize| name_matches(query@, scene.geometry@[i as int].name@)),
                out@ == all.take(i as int).filter(p),
            decreases scene.geometry@.len() - i,
        {
            reveal(Seq::filter);
            assert(all.take(i + 1).drop_last() =~= all.take(i as int));
            assert(all.take(i + 1).last() == i);
            if matches_query(query, scene.geometry[i].name.as_str()) {
                out.push(i);
            }
            i = i + 1;
        }
        assert(all.take(i as int) =~= all);
        proof {
            lemma_filter_below(all, p, scene.geometry@.len());
        }
    }
    out
}

/// The visible screens.
fn list_screens(scene: &Scene, query: &str, filter: OutlinerFilter) -> (r: Vec<usize>)
    ensures
        r@ == visible_screens(*scene, query@, filter),
        below(r@, scene.screens@.len()),
{
    let mut out: Vec<usize> = Vec::new();
    if filter.kind.screens() && !filter.state.any() {
        let ghost p = |i: usize| name_matches(query@, scene.screens@[i as int].name@);
        let ghost all = indices(scene.screens@.len());
        let mut i: usize = 0;
        proof {
            reveal(Seq::filter);
        }
        while i < scene.screens.len()
            invariant
                i <= scene.screens@.len(),
                all == indices(scene.screens@.len()),
                p == (|i: usize| name_matches(query@, scene.screens@[i as int].name@)),
                out@ == all.take(i as int).filter(p),
            decreases scene.screens@.len() - i,
        {
            reveal(Seq::filter);
            assert(all.take(i + 1).drop_last() =~= all.take(i as int));
            assert(all.take(i + 1).last() == i);
            if matches_query(query, scene.screens[i].name.as_str()) {
                out.push(i);
            }
            i = i + 1;
        }
        assert(all.take(i as int) =~= all);
        proof {
            lemma_filter_below(all, p, scene.screens@.len());
        }
    }
    out
}

/// The visible environments.
fn list_envs(scene: &Scene, query: &str, filter: OutlinerFilter) -> (r: Vec<usize>)
    ensures
        r@ == visible_envs(*scene, query@, filter),
        below(r@, scene.environments@.len()),
{
    let mut out: Vec<usize> = Vec::new();
    if filter.kind.world() && !filter.state.any() {
        let ghost p = |i: usize| name_matches(query@, scene.environments@[i as int].name@);
        let ghost all = indices(scene.environments@.len());
        let mut i: usize = 0;
        proof {
            reveal(Seq::filter);
        }
        while i < scene.environments.len()
            invariant
                i <= scene.environments@.len(),
                all == indices(scene.environments@.len()),
                p == (|i: usize| name_matches(query@, scene.environments@[i as int].name@)),
                out@ == all.take(i as int).filter(p),
            decreases scene.environments@.len() - i,
        {
            reveal(Seq::filter);
            assert(all.take(i + 1).drop_last() =~= all.take(i as int));
            assert(all.take(i + 1).last() == i);
            if matches_query(query, scene.environments[i].name.as_str()) {
                out.push(i);
            }
            i = i + 1;
        }
        assert(all.take(i as int) =~= all);
        proof {
            lemma_filter_below(all, p, scene.environments@.len());
        }
    }
    out
}

/// The visible fixtures, in the given order.
fn list_fixtures(
    scene: &Scene,
    patch: &PatchTable,
    pairs: &Vec<(usize, usize)>,
    selection: &Selection,
    query: &str,
    filter: OutlinerFilter,
    order: &Vec<usize>,
) -> (r: Vec<usize>)
    requires
        below(order@, scene.fixtures@.len()),
    ensures
        r@ == visible_fixtures(
            *scene,
            patch@,
            pairs@,
            selection@.fixtures,
            query@,
            filter,
            order@,
        ),
        below(r@, scene.fixtures@.len()),
{
    let mut out: Vec<usize> = Vec::new();
    if filter.kind.fixtures() {
        let flags = conflicted_flags(pairs, scene.fixtures.len());
        let ghost sel = selection@.fixtures;
        let ghost p = |i: usize|
            fixture_visible(*scene, patch@, pairs@, sel, query@, filter, i);
        let mut k: usize = 0;
        proof {
            reveal(Seq::filter);
        }
        while k < order.len()
            invariant
                k <= order@.len(),
                below(order@, scene.fixtures@.len()),
                sel == selection@.fixtures,
                p == (|i: usize|
                    fixture_visible(*scene, patch@, pairs@, sel, query@, filter, i)),
                flags@.len() == scene.fixtures@.len(),
                forall|i: int|
                    0 <= i < flags@.len() ==> #[trigger] flags@[i] == in_conflict(pairs@, i),
                out@ == order@.take(k as int).filter(p),
            decreases order@.len() - k,
        {
            reveal(Seq::filter);
            assert(order@.take(k + 1).drop_last() =~= order@.take(k as int));
            let i = order[k];
            assert(flags@[i as int] == in_conflict(pairs@, i as int));
            if matches_query(query, scene.fixtures[i].name.as_str()) && filter.fixture_passes(
                patch.is_patched(i),
                selection.contains_fixture(i),
                flags[i],
            ) {
                out.push(i);
            }
            k = k + 1;
        }
        assert(order@.take(k as int) =~= order@);
        proof {
            lemma_filter_below(order@, p, scene.fixtures@.len());
        }
    }
    out
}

/// The outliner for one frame: its rows, and the visible entities of each kind
/// that has a group.
#[derive(Debug)]
pub struct SceneRows {
    pub rows: Vec<TreeRow>,
    pub fixtures: Vec<usize>,
    pub objects: Vec<usize>,
    pub screens: Vec<usize>,
}

/// What search and chips leave visible.
pub open spec fn what_is_visible(
    scene: Scene,
    patch: Seq<PatchEntry>,
    pairs: Seq<(usize, usize)>,
    selected: Seq<usize>,
    search: Seq<char>,
    filter: OutlinerFilter,
    order: Seq<usize>,
) -> Visible {
    let query = query_of(search);
    Visible {
        fixtures: visible_fixtures(scene, patch, pairs, selected, query, filter, order),
        objects: visible_objects(scene, query, filter),
        screens: visible_screens(scene, query, filter),
        envs: visible_envs(scene, query, filter),
    }
}

/// The outliner for one frame. `pairs` are the address conflicts and `order`
/// is the display order of the fixtures.
pub fn scene_rows(
    scene: &Scene,
    patch: &PatchTable,
    pairs: &Vec<(usize, usize)>,
    order: &Vec<usize>,
    selection: &Selection,
    search: &str,
    filter: OutlinerFilter,
    expanded: &NodeSet,
) -> (r: SceneRows)
    requires
        below(order@, scene.fixtures@.len()),
    ensures
        ({
            let visible = what_is_visible(
                *scene,
                patch@,
                pairs@,
                selection@.fixtures,
                search@,
                filter,
                order@,
            );
            let conflicted = Seq::new(scene.fixtures@.len(), |i: int| in_conflict(pairs@, i));
            &&& r.fixtures@ == visible.fixtures
            &&& r.objects@ == visible.objects
            &&& r.screens@ == visible.screens
            &&& rows_view(r.rows@) == tree_rows(
                *scene,
                patch@,
                filter,
                expanded@,
                conflicted,
                visible,
            )
        }),
{
    let query = search_query(search);
    let flags = conflicted_flags(pairs, scene.fixtures.len());
    assert(flags@ =~= Seq::new(scene.fixtures@.len(), |i: int| in_conflict(pairs@, i)));
    let fixtures = list_fixtures(scene, patch, pairs, selection, query.as_str(), filter, order);
    let objects = list_objects(scene, query.as_str(), filter);
    let screens = list_screens(scene, query.as_str(), filter);
    let envs = list_envs(scene, query.as_str(), filter);
    let rows = build_rows(
        scene,
        patch,
        filter,
        expanded,
        &flags,
        &fixtures,
        &objects,
        &screens,
        &envs,
    );
    SceneRows { rows, fixtures, objects, screens }
}

/// The fixtures that the rows stand for, in their order.
pub open spec fn fixtures_among(rows: Seq<RowView>) -> Seq<usize>
    decreases rows.len(),
{
    if rows.len() == 0 {
        seq![]
    } else {
        let before = fixtures_among(rows.drop_last());
        match rows.last().kind {
            RowKind::Fixture(i) => before.push(i),
            _ => before,
        }
    }
}

proof fn lemma_among_join(a: Seq<RowView>, b: Seq<RowView>)
    ensures
        fixtures_among(a + b) == fixtures_among(a) + fixtures_among(b),
    decreases b.len(),
{
    if b.len() == 0 {
        assert(a + b =~= a);
        assert(fixtures_among(a) + fixtures_among(b) =~= fixtures_among(a));
    } else {
        assert((a + b).drop_last() =~= a + b.drop_last());
        lemma_among_join(a, b.drop_last());
        assert(fixtures_among(a + b) =~= fixtures_among(a) + fixtures_among(b));
    }
}

proof fn lemma_among_none(rows: Seq<RowView>)
    requires
        forall|k: int| 0 <= k < rows.len() ==> !((#[trigger] rows[k]).kind is Fixture),
    ensures
        fixtures_among(rows) == Seq::<usize>::empty(),
    decreases rows.len(),
{
    if rows.len() > 0 {
        assert(!(rows[rows.len() - 1].kind is Fixture));
        lemma_among_none(rows.drop_last());
    }
}

proof fn lemma_among_fixtures(
    scene: Scene,
    patch: Seq<PatchEntry>,
    conflicted: Seq<bool>,
    visible: Seq<usize>,
)
    ensures
        fixtures_among(fixture_rows(scene, patch, conflicted, visible)) == visible,
    decreases visible.len(),
{
    if visible.len() > 0 {
        let rows = fixture_rows(scene, patch, conflicted, visible);
        lemma_among_fixtures(scene, patch, conflicted, visible.drop_last());
        assert(rows.drop_last() =~= fixture_rows(scene, patch, conflicted, visible.drop_last()));
        assert(fixtures_among(rows) =~= visible);
    } else {
        assert(fixtures_among(fixture_rows(scene, patch, conflicted, visible)) =~= visible);
    }
}

/// The rows list the visible fixtures in the order that a range click goes by,
/// each once; all of them where their group is expanded, else none.
pub proof fn rows_keep_the_range_order(
    scene: Scene,
    patch: Seq<PatchEntry>,
    filter: OutlinerFilter,
    expanded: Set<NodeKey>,
    conflicted: Seq<bool>,
    visible: Visible,
)
    ensures
        fixtures_among(tree_rows(scene, patch, filter, expanded, conflicted, visible)) == (
        if expanded.contains(NodeKey::Root) && filter.kind.fixtures() && expanded.contains(
            NodeKey::Group(GroupKind::Fixtures),
        ) {
            visible.fixtures
        } else {
            seq![]
        }),
{
    let root = seq![root_row(scene)];
    lemma_among_none(root);
    if expanded.contains(NodeKey::Root) {
        let world = world_section(scene, filter, expanded, visible.envs);
        let fixtures = fixture_section(
            scene,
            patch,
            filter,
            expanded,
            conflicted,
            visible.fixtures,
        );
        let objects = object_section(scene, filter, expanded, visible.objects);
        let screens = screen_section(scene, filter, expanded, visible.screens);
        lemma_among_none(world);
        lemma_among_none(objects);
        lemma_among_none(screens);
        lemma_among_join(root, world);
        lemma_among_join(root + world, fixtures);
        lemma_among_join(root + world + fixtures, objects);
        lemma_among_join(root + world + fixtures + objects, screens);
        let leaves = fixture_rows(scene, patch, conflicted, visible.fixtures);
        lemma_among_fixtures(scene, patch, conflicted, visible.fixtures);
        if filter.kind.fixtures() {
            let head = seq![
                group_row(GroupKind::Fixtures, leaves.len(), folded(fixtures_hidden(scene))),
            ];
            lemma_among_none(head);
            if expanded.contains(NodeKey::Group(GroupKind::Fixtures)) {
                assert(fixtures =~= head + leaves);
                lemma_among_join(head, leaves);
            } else {
                assert(fixtures =~= head);
            }
        } else {
            lemma_among_none(fixtures);
        }
    }
}

/// Does row `k` lie at most one level below the row above it?
pub open spec fn steps_down(rows: Seq<RowView>, k: int) -> bool {
    rows[k].depth <= rows[k - 1].depth + 1
}

/// Each row lies at most one level below the row above it, and none at the
/// project's own level.
pub open spec fn nests(rows: Seq<RowView>) -> bool {
    &&& rows.len() > 0 ==> rows[0].depth == 1
    &&& forall|k: int| 0 <= k < rows.len() ==> (#[trigger] rows[k]).depth >= 1
    &&& forall|k: int| 0 < k < rows.len() ==> #[trigger] steps_down(rows, k)
}

proof fn lemma_nests_join(a: Seq<RowView>, b: Seq<RowView>)
    requires
        nests(a),
        nests(b),
    ensures
        nests(a + b),
{
    let c = a + b;
    assert forall|k: int| 0 < k < c.len() implies #[trigger] steps_down(c, k) by {
        if k < a.len() {
            assert(steps_down(a, k));
        } else if k > a.len() {
            assert(steps_down(b, k - a.len()));
        } else {
            assert(c[k] == b[0] && c[k - 1] == a[k - 1]);
        }
    }
    assert forall|k: int| 0 <= k < c.len() implies (#[trigger] c[k]).depth >= 1 by {
        if k < a.len() {
            assert(c[k] == a[k]);
        } else {
            assert(c[k] == b[k - a.len()]);
        }
    }
    if c.len() > 0 && a.len() == 0 {
        assert(c[0] == b[0]);
    }
}

/// The tree is one hierarchy: the project is its only root, and every container
/// comes before what it holds.
pub proof fn tree_has_one_root(
    scene: Scene,
    patch: Seq<PatchEntry>,
    filter: OutlinerFilter,
    expanded: Set<NodeKey>,
    conflicted: Seq<bool>,
    visible: Visible,
)
    ensures
        ({
            let rows = tree_rows(scene, patch, filter, expanded, conflicted, visible);
            &&& rows.len() > 0
            &&& rows[0] == root_row(scene)
            &&& nests(rows.drop_first())
        }),
{
    let rows = tree_rows(scene, patch, filter, expanded, conflicted, visible);
    if expanded.contains(NodeKey::Root) {
        let world = world_section(scene, filter, expanded, visible.envs);
        let fixtures = fixture_section(
            scene,
            patch,
            filter,
            expanded,
            conflicted,
            visible.fixtures,
        );
        let objects = object_section(scene, filter, expanded, visible.objects);
        let screens = screen_section(scene, filter, expanded, visible.screens);
        lemma_nests_join(world, fixtures);
        lemma_nests_join(world + fixtures, objects);
        lemma_nests_join(world + fixtures + objects, screens);
        assert(rows.drop_first() =~= world + fixtures + objects + screens);
    } else {
        assert(rows.drop_first() =~= seq![]);
    }
}

/// With a state chip on, the tree holds nothing but the project, the group of
/// the fixtures and fixtures.
pub proof fn state_chip_leaves_only_fixtures(
    scene: Scene,
    patch: Seq<PatchEntry>,
    filter: OutlinerFilter,
    expanded: Set<NodeKey>,
    conflicted: Seq<bool>,
    visible: Visible,
    k: int,
)
    requires
        filter.state.any(),
        0 <= k < tree_rows(scene, patch, filter, expanded, conflicted, visible).len(),
    ensures
        ({
            let kind = tree_rows(scene, patch, filter, expanded, conflicted, visible)[k].kind;
            kind is Root || kind is Fixture || kind == RowKind::Group(GroupKind::Fixtures)
        }),
{
}

/// A row tells of the entity it stands for: its identity, its name, whether it is
/// hidden, and that it can be renamed; a fixture's also its profile, its address and
/// whether that is in conflict. Containers cannot be renamed.
pub proof fn row_tells_of_its_entity(
    scene: Scene,
    patch: Seq<PatchEntry>,
    filter: OutlinerFilter,
    expanded: Set<NodeKey>,
    conflicted: Seq<bool>,
    visible: Visible,
    k: int,
)
    requires
        0 <= k < tree_rows(scene, patch, filter, expanded, conflicted, visible).len(),
    ensures
        ({
            let row = tree_rows(scene, patch, filter, expanded, conflicted, visible)[k];
            &&& row.kind matches RowKind::Fixture(i) ==> {
                let f = scene.fixtures@[i as int];
                &&& row.key == NodeKey::Entity(f.id) && row.label == f.name@ && row.secondary
                    == f.profile@
                &&& row.vis == VisState::Hidden <==> f.hidden
                &&& row.vis == VisState::Shown <==> !f.hidden
                &&& row.patch_tag == patch_tag(patch, i as int)
                &&& row.conflict <==> (i < conflicted.len() && conflicted[i as int])
                &&& row.renameable && !row.has_children
            }
            &&& row.kind matches RowKind::Object(i) ==> {
                let g = scene.geometry@[i as int];
                &&& row.key == NodeKey::Entity(g.id) && row.label == g.name@
                &&& row.vis == VisState::Hidden <==> g.hidden
                &&& row.vis == VisState::Shown <==> !g.hidden
                &&& row.renameable && !row.has_children && !row.conflict && row.patch_tag.len() == 0
            }
            &&& row.kind matches RowKind::Screen(i) ==> {
                let s = scene.screens@[i as int];
                &&& row.key == NodeKey::Entity(s.id) && row.label == s.name@
                &&& row.vis == VisState::Hidden <==> s.hidden
                &&& row.vis == VisState::Shown <==> !s.hidden
                &&& row.renameable && !row.has_children && !row.conflict && row.patch_tag.len() == 0
            }
            &&& row.kind matches RowKind::Environment(i) ==> {
                let e = scene.environments@[i as int];
                &&& row.key == NodeKey::Entity(e.id) && row.label == e.name@
                &&& row.vis == VisState::Hidden <==> e.hidden
                &&& row.vis == VisState::Shown <==> !e.hidden
                &&& row.renameable && !row.has_children && !row.conflict && row.patch_tag.len() == 0
            }
            &&& row.kind is Root || row.kind is World || row.kind is EnvGroup || row.kind is Group
                ==> !row.renameable
        }),
{
    lemma_row_at(scene, patch, filter, expanded, conflicted, visible, k);
}

/// Each row of the tree is the project's, or one of a section's.
proof fn lemma_row_at(
    scene: Scene,
    patch: Seq<PatchEntry>,
    filter: OutlinerFilter,
    expanded: Set<NodeKey>,
    conflicted: Seq<bool>,
    visible: Visible,
    k: int,
)
    requires
        0 <= k < tree_rows(scene, patch, filter, expanded, conflicted, visible).len(),
    ensures
        ({
            let row = tree_rows(scene, patch, filter, expanded, conflicted, visible)[k];
            let all = expanded.contains(NodeKey::Root);
            let plain = all && !filter.state.any();
            let w = world_section(scene, filter, expanded, visible.envs).len() as int;
            let f = w + fixture_section(
                scene,
                patch,
                filter,
                expanded,
                conflicted,
                visible.fixtures,
            ).len();
            let o = f + object_section(scene, filter, expanded, visible.objects).len();
            &&& k == 0 ==> row == root_row(scene)
            &&& 0 < k <= w ==> plain && filter.kind.world() && (row == world_row(scene) || row
                == env_group_row(scene) || (expanded.contains(NodeKey::World) && expanded.contains(
                NodeKey::EnvGroup,
            ) && exists|j: int|
                0 <= j < visible.envs.len() && row == #[trigger] env_row(scene, visible.envs[j])))
            &&& w < k <= f ==> all && filter.kind.fixtures() && (row == group_row(
                GroupKind::Fixtures,
                visible.fixtures.len(),
                folded(fixtures_hidden(scene)),
            ) || (expanded.contains(NodeKey::Group(GroupKind::Fixtures)) && exists|j: int|
                0 <= j < visible.fixtures.len() && row == #[trigger] fixture_row(
                    scene,
                    patch,
                    conflicted,
                    visible.fixtures[j],
                )))
            &&& f < k <= o ==> plain && filter.kind.objects() && (row == group_row(
                GroupKind::Objects,
                visible.objects.len(),
                folded(geometry_hidden(scene)),
            ) || (expanded.contains(NodeKey::Group(GroupKind::Objects)) && exists|j: int|
                0 <= j < visible.objects.len() && row == #[trigger] object_row(
                    scene,
                    visible.objects[j],
                )))
            &&& o < k ==> plain && filter.kind.screens() && (row == group_row(
                GroupKind::Screens,
                visible.screens.len(),
                folded(screens_hidden(scene)),
            ) || (expanded.contains(NodeKey::Group(GroupKind::Screens)) && exists|j: int|
                0 <= j < visible.screens.len() && row == #[trigger] screen_row(
                    scene,
                    visible.screens[j],
                )))
        }),
{
    let row = tree_rows(scene, patch, filter, expanded, conflicted, visible)[k];
    if expanded.contains(NodeKey::Root) {
        let ws = world_section(scene, filter, expanded, visible.envs);
        let fs = fixture_section(scene, patch, filter, expanded, conflicted, visible.fixtures);
        let os = object_section(scene, filter, expanded, visible.objects);
        let ss = screen_section(scene, filter, expanded, visible.screens);
        let w = ws.len() as int;
        let f = w + fs.len();
        let o = f + os.len();
        if 0 < k <= w {
            assert(row == ws[k - 1]);
            if k >= 3 {
                assert(row == env_row(scene, visible.envs[k - 3]));
            }
        } else if w < k <= f {
            assert(row == fs[k - 1 - w]);
            if k - 1 - w > 0 {
                assert(row == fixture_row(scene, patch, conflicted, visible.fixtures[k - 2 - w]));
            }
        } else if f < k <= o {
            assert(row == os[k - 1 - f]);
            if k - 1 - f > 0 {
                assert(row == object_row(scene, visible.objects[k - 2 - f]));
            }
        } else if o < k {
            assert(row == ss[k - 1 - o]);
            if k - 1 - o > 0 {
                assert(row == screen_row(scene, visible.screens[k - 2 - o]));
            }
        }
    }
}

/// A row for an entity is there only where its containers are expanded, the chips
/// admit its kind and the entity is visible.
pub proof fn rows_show_what_is_expanded(
    scene: Scene,
    patch: Seq<PatchEntry>,
    filter: OutlinerFilter,
    expanded: Set<NodeKey>,
    conflicted: Seq<bool>,
    visible: Visible,
    k: int,
)
    requires
        0 <= k < tree_rows(scene, patch, filter, expanded, conflicted, visible).len(),
    ensures
        ({
            let row = tree_rows(scene, patch, filter, expanded, conflicted, visible)[k];
            &&& !expanded.contains(NodeKey::Root) ==> row.kind == RowKind::Root
            &&& row.kind matches RowKind::Fixture(i) ==> expanded.contains(
                NodeKey::Group(GroupKind::Fixtures),
            ) && filter.kind.fixtures() && visible.fixtures.contains(i)
            &&& row.kind matches RowKind::Object(i) ==> expanded.contains(
                NodeKey::Group(GroupKind::Objects),
            ) && filter.kind.objects() && !filter.state.any() && visible.objects.contains(i)
            &&& row.kind matches RowKind::Screen(i) ==> expanded.contains(
                NodeKey::Group(GroupKind::Screens),
            ) && filter.kind.screens() && !filter.state.any() && visible.screens.contains(i)
            &&& row.kind matches RowKind::Environment(i) ==> expanded.contains(NodeKey::World)
                && expanded.contains(NodeKey::EnvGroup) && filter.kind.world()
                && !filter.state.any() && visible.envs.contains(i)
        }),
{
    lemma_row_at(scene, patch, filter, expanded, conflicted, visible, k);
}

/// With everything expanded and the chips admitting its kind, every visible entity
/// has a row.
pub proof fn expanded_tree_shows_everything(
    scene: Scene,
    patch: Seq<PatchEntry>,
    filter: OutlinerFilter,
    expanded: Set<NodeKey>,
    conflicted: Seq<bool>,
    visible: Visible,
    j: int,
)
    requires
        forall|key: NodeKey| expanded.contains(key),
        !filter.state.any(),
    ensures
        ({
            let rows = tree_rows(scene, patch, filter, expanded, conflicted, visible);
            &&& filter.kind.fixtures() && 0 <= j < visible.fixtures.len() ==> exists|k: int|
                0 <= k < rows.len() && (#[trigger] rows[k]).kind == RowKind::Fixture(
                    visible.fixtures[j],
                )
            &&& filter.kind.objects() && 0 <= j < visible.objects.len() ==> exists|k: int|
                0 <= k < rows.len() && (#[trigger] rows[k]).kind == RowKind::Object(
                    visible.objects[j],
                )
            &&& filter.kind.screens() && 0 <= j < visible.screens.len() ==> exists|k: int|
                0 <= k < rows.len() && (#[trigger] rows[k]).kind == RowKind::Screen(
                    visible.screens[j],
                )
            &&& filter.kind.world() && scene.environments@.len() > 0 && 0 <= j < visible.envs.len()
                ==> exists|k: int|
                0 <= k < rows.len() && (#[trigger] rows[k]).kind == RowKind::Environment(
                    visible.envs[j],
                )
        }),
{
    let rows = tree_rows(scene, patch, filter, expanded, conflicted, visible);
    assert(expanded.contains(NodeKey::Root));
    assert(expanded.contains(NodeKey::World));
    assert(expanded.contains(NodeKey::EnvGroup));
    assert(expanded.contains(NodeKey::Group(GroupKind::Fixtures)));
    assert(expanded.contains(NodeKey::Group(GroupKind::Objects)));
    assert(expanded.contains(NodeKey::Group(GroupKind::Screens)));
    let w = world_section(scene, filter, expanded, visible.envs).len() as int;
    let f = w + fixture_section(
        scene,
        patch,
        filter,
        expanded,
        conflicted,
        visible.fixtures,
    ).len();
    let o = f + object_section(scene, filter, expanded, visible.objects).len();
    if filter.kind.fixtures() && 0 <= j < visible.fixtures.len() {
        assert(rows[w + 2 + j].kind == RowKind::Fixture(visible.fixtures[j]));
    }
    if filter.kind.objects() && 0 <= j < visible.objects.len() {
        assert(rows[f + 2 + j].kind == RowKind::Object(visible.objects[j]));
    }
    if filter.kind.screens() && 0 <= j < visible.screens.len() {
        assert(rows[o + 2 + j].kind == RowKind::Screen(visible.screens[j]));
    }
    if filter.kind.world() && scene.environments@.len() > 0 && 0 <= j < visible.envs.len() {
        assert(rows[3 + j].kind == RowKind::Environment(visible.envs[j]));
    }
}

/// A group says how many of its members are visible, has a triangle exactly where
/// some are, and shows whether all, some or none of the scene's are hidden. The
/// project counts every entity that has a row of its own.
pub proof fn containers_count_their_members(
    scene: Scene,
    patch: Seq<PatchEntry>,
    filter: OutlinerFilter,
    expanded: Set<NodeKey>,
    conflicted: Seq<bool>,
    visible: Visible,
    k: int,
)
    requires
        0 <= k < tree_rows(scene, patch, filter, expanded, conflicted, visible).len(),
    ensures
        ({
            let row = tree_rows(scene, patch, filter, expanded, conflicted, visible)[k];
            let n = match row.kind {
                RowKind::Group(GroupKind::Fixtures) => visible.fixtures.len(),
                RowKind::Group(GroupKind::Objects) => visible.objects.len(),
                RowKind::Group(GroupKind::Screens) => visible.screens.len(),
                _ => scene.environments@.len(),
            };
            &&& row.kind is Group || row.kind is EnvGroup ==> (row.has_children <==> n > 0)
            &&& (row.kind is Group || row.kind is EnvGroup) && n > 0 ==> number_of(row.secondary)
                == n
            &&& (row.kind is Group || row.kind is EnvGroup) && n == 0 ==> row.secondary == "empty"@
            &&& row.kind == RowKind::Root ==> number_of(row.secondary.take(row.secondary.len() - 6))
                == scene.fixtures@.len() + scene.geometry@.len() + scene.screens@.len()
                + scene.environments@.len()
            &&& row.kind == RowKind::Group(GroupKind::Fixtures) ==> (row.vis == VisState::Shown
                <==> forall|i: int|
                0 <= i < scene.fixtures@.len() ==> !(#[trigger] scene.fixtures@[i]).hidden)
            &&& row.kind == RowKind::Group(GroupKind::Objects) ==> (row.vis == VisState::Shown
                <==> forall|i: int|
                0 <= i < scene.geometry@.len() ==> !(#[trigger] scene.geometry@[i]).hidden)
            &&& row.kind == RowKind::Group(GroupKind::Screens) ==> (row.vis == VisState::Shown
                <==> forall|i: int|
                0 <= i < scene.screens@.len() ==> !(#[trigger] scene.screens@[i]).hidden)
        }),
{
    lemma_row_at(scene, patch, filter, expanded, conflicted, visible, k);
    let row = tree_rows(scene, patch, filter, expanded, conflicted, visible)[k];
    let n = match row.kind {
        RowKind::Group(GroupKind::Fixtures) => visible.fixtures.len(),
        RowKind::Group(GroupKind::Objects) => visible.objects.len(),
        RowKind::Group(GroupKind::Screens) => visible.screens.len(),
        _ => scene.environments@.len(),
    };
    decimal_reads_back(n);
    let total = scene.fixtures@.len() + scene.geometry@.len() + scene.screens@.len()
        + scene.environments@.len();
    decimal_reads_back(total);
    reveal_strlit(" items");
    if row.kind == RowKind::Root {
        assert(row.secondary.take(row.secondary.len() - 6) =~= decimal(total));
    }
    container_shows_its_children(fixtures_hidden(scene));
    container_shows_its_children(geometry_hidden(scene));
    container_shows_its_children(screens_hidden(scene));
    if row.kind == RowKind::Group(GroupKind::Fixtures) {
        assert forall|i: int| 0 <= i < scene.fixtures@.len() implies (#[trigger] fixtures_hidden(
            scene,
        )[i] == scene.fixtures@[i].hidden) by {}
        assert forall|i: int| 0 <= i < scene.fixtures@.len() implies (
        #[trigger] scene.fixtures@[i]).hidden == fixtures_hidden(scene)[i] by {}
    }
    if row.kind == RowKind::Group(GroupKind::Objects) {
        assert forall|i: int| 0 <= i < scene.geometry@.len() implies (
        #[trigger] scene.geometry@[i]).hidden == geometry_hidden(scene)[i] by {}
    }
    if row.kind == RowKind::Group(GroupKind::Screens) {
        assert forall|i: int| 0 <= i < scene.screens@.len() implies (
        #[trigger] scene.screens@[i]).hidden == screens_hidden(scene)[i] by {}
    }
}

/// Where a row's section stands: the project first, then the world with the
/// environments, the fixtures, the objects and the screens.
pub open spec fn section_of(kind: RowKind) -> int {
    match kind {
        RowKind::Root => 0,
        RowKind::World => 1,
        RowKind::EnvGroup => 1,
        RowKind::Environment(_) => 1,
        RowKind::Group(GroupKind::Fixtures) => 2,
        RowKind::Fixture(_) => 2,
        RowKind::Group(GroupKind::Objects) => 3,
        RowKind::Object(_) => 3,
        RowKind::Group(GroupKind::Screens) => 4,
        RowKind::Screen(_) => 4,
    }
}

/// The sections keep their order down the tree.
pub proof fn sections_keep_their_order(
    scene: Scene,
    patch: Seq<PatchEntry>,
    filter: OutlinerFilter,
    expanded: Set<NodeKey>,
    conflicted: Seq<bool>,
    visible: Visible,
    a: int,
    b: int,
)
    requires
        0 <= a < b < tree_rows(scene, patch, filter, expanded, conflicted, visible).len(),
    ensures
        ({
            let rows = tree_rows(scene, patch, filter, expanded, conflicted, visible);
            section_of(rows[a].kind) <= section_of(rows[b].kind)
        }),
{
    lemma_row_at(scene, patch, filter, expanded, conflicted, visible, a);
    lemma_row_at(scene, patch, filter, expanded, conflicted, visible, b);
}

/// A fixture is visible exactly where the display order lists it, the type chip
/// admits fixtures, its name matches the search, and it is in the state of every
/// state chip that is on.
pub proof fn visible_fixtures_match(
    scene: Scene,
    patch: Seq<PatchEntry>,
    pairs: Seq<(usize, usize)>,
    selected: Seq<usize>,
    search: Seq<char>,
    filter: OutlinerFilter,
    order: Seq<usize>,
    i: usize,
)
    ensures
        ({
            let visible = what_is_visible(scene, patch, pairs, selected, search, filter, order);
            let query = lowercase(trimmed(search));
            let patched = i < patch.len() && patch[i as int].enabled;
            let conflict = exists|k: int|
                0 <= k < pairs.len() && ((#[trigger] pairs[k]).0 == i || pairs[k].1 == i);
            visible.fixtures.contains(i) <==> {
                &&& order.contains(i)
                &&& filter.kind == TypeChip::All || filter.kind == TypeChip::Fixtures
                &&& query.len() == 0 || occurs_in(lowercase(scene.fixtures@[i as int].name@), query)
                &&& filter.state.unpatched ==> !patched
                &&& filter.state.selected ==> selected.contains(i)
                &&& filter.state.conflicts ==> conflict
            }
        }),
        order.no_duplicates() ==> what_is_visible(
            scene,
            patch,
            pairs,
            selected,
            search,
            filter,
            order,
        ).fixtures.no_duplicates(),
{
    let query = query_of(search);
    let p = |i: usize| fixture_visible(scene, patch, pairs, selected, query, filter, i);
    filter_keeps(order, p);
    assert(filter.kind.fixtures() ==> visible_fixtures(
        scene,
        patch,
        pairs,
        selected,
        query,
        filter,
        order,
    ) == order.filter(p));
}

/// A piece of geometry, a screen or an environment is visible exactly where no
/// state chip is on, the type chip admits its kind and its name matches the search.
pub proof fn visible_entities_match(
    scene: Scene,
    patch: Seq<PatchEntry>,
    pairs: Seq<(usize, usize)>,
    selected: Seq<usize>,
    search: Seq<char>,
    filter: OutlinerFilter,
    order: Seq<usize>,
    i: usize,
)
    ensures
        ({
            let visible = what_is_visible(scene, patch, pairs, selected, search, filter, order);
            let query = lowercase(trimmed(search));
            let chips = filter.state.unpatched || filter.state.selected || filter.state.conflicts;
            &&& visible.objects.contains(i) <==> !chips && (filter.kind == TypeChip::All
                || filter.kind == TypeChip::Objects) && i < scene.geometry@.len() && (query.len()
                == 0 || occurs_in(lowercase(scene.geometry@[i as int].name@), query))
            &&& visible.screens.contains(i) <==> !chips && (filter.kind == TypeChip::All
                || filter.kind == TypeChip::Screens) && i < scene.screens@.len() && (query.len()
                == 0 || occurs_in(lowercase(scene.screens@[i as int].name@), query))
            &&& visible.envs.contains(i) <==> !chips && filter.kind == TypeChip::All && i
                < scene.environments@.len() && (query.len() == 0 || occurs_in(
                lowercase(scene.environments@[i as int].name@),
                query,
            ))
        }),
{
    let query = query_of(search);
    let g = |i: usize| name_matches(query, scene.geometry@[i as int].name@);
    let s = |i: usize| name_matches(query, scene.screens@[i as int].name@);
    let e = |i: usize| name_matches(query, scene.environments@[i as int].name@);
    let gs = indices(scene.geometry@.len());
    let ss = indices(scene.screens@.len());
    let es = indices(scene.environments@.len());
    filter_keeps(gs, g);
    filter_keeps(ss, s);
    filter_keeps(es, e);
    assert(scene.geometry@.len() == scene.geometry.len());
    assert(scene.screens@.len() == scene.screens.len());
    assert(scene.environments@.len() == scene.environments.len());
    if i < gs.len() {
        assert(gs[i as int] == i);
    }
    if i < ss.len() {
        assert(ss[i as int] == i);
    }
    if i < es.len() {
        assert(es[i as int] == i);
    }
    assert(filter.kind.objects() && !filter.state.any() ==> visible_objects(scene, query, filter)
        == gs.filter(g));
    assert(filter.kind.screens() && !filter.state.any() ==> visible_screens(scene, query, filter)
        == ss.filter(s));
    assert(filter.kind.world() && !filter.state.any() ==> visible_envs(scene, query, filter)
        == es.filter(e));
}

/// The address of a patched fixture reads back: before the dot the universe, after it
/// the channel with three digits. Only a fixture without a patch says so.
pub proof fn address_reads_back(patch: Seq<PatchEntry>, i: int)
    requires
        0 <= i < patch.len(),
        patch[i].address < 1000,
    ensures
        ({
            let tag = patch_tag(patch, i);
            let dot = tag.len() - 4;
            &&& patch[i].enabled ==> dot > 0 && tag[dot] == '.'
            &&& patch[i].enabled ==> number_of(tag.take(dot)) == patch[i].universe
            &&& patch[i].enabled ==> number_of(tag.skip(dot + 1)) == patch[i].address
            &&& !patch[i].enabled ==> tag == "unpatched"@
        }),
        patch_tag(patch, patch.len() as int) == "unpatched"@,
{
    let u = patch[i].universe as nat;
    let a = patch[i].address as nat;
    decimal_reads_back(u);
    padded_reads_back(a, 3);
    reveal_strlit(".");
    reveal_with_fuel(decimal, 4);
    assert(decimal(a).len() <= 3);
    let tag = patch_tag(patch, i);
    if patch[i].enabled {
        let dot = tag.len() - 4;
        assert(tag.take(dot) =~= decimal(u));
        assert(tag.skip(dot + 1) =~= padded(a, 3));
    }
}

/// An object's row says what an import called its kind, and `Object` where that says
/// nothing; a screen's says its size and what it shows.
pub proof fn rows_say_what_is_shown(scene: Scene, i: usize)
    ensures
        scene.geometry@[i as int].kind matches Some(k) ==> (k@.len() > 0 ==> object_row(
            scene,
            i,
        ).secondary == k@),
        scene.geometry@[i as int].kind is None ==> object_row(scene, i).secondary == "Object"@,
        ({
            let s = scene.screens@[i as int];
            let text = screen_row(scene, i).secondary;
            let w = decimal(s.width_px as nat).len() as int;
            let h = decimal(s.height_px as nat).len() as int;
            &&& number_of(text.take(w)) == s.width_px
            &&& number_of(text.subrange(w + 1, w + 1 + h)) == s.height_px
            &&& text.skip(w + h + 4) == s.content@
        }),
{
    let s = scene.screens@[i as int];
    let text = screen_row(scene, i).secondary;
    let a = decimal(s.width_px as nat);
    let b = decimal(s.height_px as nat);
    let w = a.len() as int;
    let h = b.len() as int;
    decimal_reads_back(s.width_px as nat);
    decimal_reads_back(s.height_px as nat);
    reveal_strlit("×");
    reveal_strlit(" · ");
    assert(text.take(w) =~= a);
    assert(text.subrange(w + 1, w + 1 + h) =~= b);
    assert(text.skip(w + h + 4) =~= s.content@);
}

/// Each row stands at the depth of its kind: the project at the top, the world and the groups
/// below it, then what they hold, and the environments below their container. The project can
/// always be folded, and the world where there is an environment.
pub proof fn rows_stand_at_their_depth(
    scene: Scene,
    patch: Seq<PatchEntry>,
    filter: OutlinerFilter,
    expanded: Set<NodeKey>,
    conflicted: Seq<bool>,
    visible: Visible,
    k: int,
)
    requires
        0 <= k < tree_rows(scene, patch, filter, expanded, conflicted, visible).len(),
    ensures
        ({
            let row = tree_rows(scene, patch, filter, expanded, conflicted, visible)[k];
            &&& row.kind == RowKind::Root ==> row.depth == 0 && row.has_children && row.key
                == NodeKey::Root
            &&& row.kind == RowKind::World ==> row.depth == 1 && row.key == NodeKey::World && (
            row.has_children <==> scene.environments@.len() > 0)
            &&& row.kind matches RowKind::Group(g) ==> row.depth == 1 && row.key == NodeKey::Group(g)
            &&& row.kind == RowKind::EnvGroup ==> row.depth == 2 && row.key == NodeKey::EnvGroup
            &&& row.kind is Fixture || row.kind is Object || row.kind is Screen ==> row.depth == 2
            &&& row.kind is Environment ==> row.depth == 3
        }),
{
    lemma_row_at(scene, patch, filter, expanded, conflicted, visible, k);
}

} // verus!
