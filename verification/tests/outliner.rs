//! The outliner: its chips, its rows and what clicks on them do.

use glowstone::scene::{
    conflicted_flags, Environment, Fixture, Geometry, PatchEntry, PatchSource, PatchTable, Scene,
    Screen,
};
use glowstone::selection::{
    apply_fixture_click, apply_select, SelItem, SelectOp, Selection,
};
use glowstone::tree::clicks::{
    clear_selection, finish_rename, guide_lines, last_descendant, range_click, row_event,
    row_interaction, row_selection_state, select_row, RenameEdit, RowEvent, RowInput,
};
use glowstone::tree::rows::{
    build_rows, count_str, leaf_vis, matches_query, scene_rows, search_query,
};
use glowstone::tree::{
    toggle_expand, GroupKind, NodeKey, NodeSet, OutlinerFilter, RowKind, StateChips, TreeAction,
    TreeRow, TypeChip, VisState,
};

fn fixture(id: u64, name: &str, hidden: bool) -> Fixture {
    Fixture {
        id,
        name: name.to_string(),
        profile: "Spot".to_string(),
        maker: None,
        modes: Vec::new(),
        hidden,
        is_laser: false,
    }
}

fn scene() -> Scene {
    Scene {
        fixtures: vec![
            fixture(1, "Alpha", false),
            fixture(2, "Beta", true),
            fixture(3, "Gamma", false),
        ],
        geometry: vec![Geometry { id: 10, name: "Truss".to_string(), kind: None, hidden: false }],
        screens: vec![Screen {
            id: 20,
            name: "Wall".to_string(),
            width_px: 1920,
            height_px: 1080,
            content: "Black".to_string(),
            hidden: true,
        }],
        environments: vec![Environment { id: 30, name: "Haze".to_string(), hidden: false }],
        pyro: Vec::new(),
    }
}

fn entry(universe: u16, address: u16) -> PatchEntry {
    PatchEntry {
        universe,
        address,
        footprint: 10,
        mode_index: 0,
        enabled: true,
        source: PatchSource::Manual,
    }
}

fn patch() -> PatchTable {
    let off = PatchEntry { enabled: false, ..entry(2, 7) };
    PatchTable { entries: vec![entry(1, 1), entry(1, 5), off] }
}

fn all_open() -> NodeSet {
    let mut set = NodeSet::new();
    for key in [
        NodeKey::Root,
        NodeKey::World,
        NodeKey::EnvGroup,
        NodeKey::Group(GroupKind::Fixtures),
        NodeKey::Group(GroupKind::Objects),
        NodeKey::Group(GroupKind::Screens),
    ] {
        set.insert(key);
    }
    set
}

fn labels(rows: &[TreeRow]) -> Vec<String> {
    rows.iter().map(|r| r.label.clone()).collect()
}

fn fixture_row(i: usize) -> TreeRow {
    let s = scene();
    let rows = build_rows(
        &s,
        &patch(),
        OutlinerFilter::default(),
        &all_open(),
        &vec![false; 3],
        &vec![0, 1, 2],
        &vec![0],
        &vec![0],
        &vec![0],
    );
    rows.into_iter().find(|r| r.kind == RowKind::Fixture(i)).unwrap()
}

#[test]
fn type_chip_gates_kinds() {
    assert!(TypeChip::All.fixtures() && TypeChip::All.objects() && TypeChip::All.screens() && TypeChip::All.world());
    assert!(TypeChip::Fixtures.fixtures() && !TypeChip::Fixtures.objects() && !TypeChip::Fixtures.world());
    assert!(TypeChip::Objects.objects() && !TypeChip::Objects.fixtures());
    assert!(TypeChip::Screens.screens() && !TypeChip::Screens.fixtures());
    assert!(!TypeChip::Fixtures.world(), "World only shows under the All chip");
}

#[test]
fn state_chips_off_pass_all() {
    let f = OutlinerFilter::default();
    for &patched in &[true, false] {
        for &sel in &[true, false] {
            for &conf in &[true, false] {
                assert!(f.fixture_passes(patched, sel, conf));
            }
        }
    }
}

#[test]
fn state_chips_filter_and_compose() {
    let unpatched = OutlinerFilter { state: StateChips { unpatched: true, ..Default::default() }, ..Default::default() };
    assert!(unpatched.fixture_passes(false, false, false), "an unpatched fixture passes the Unpatched chip");
    assert!(!unpatched.fixture_passes(true, false, false), "a patched fixture fails the Unpatched chip");

    let selected = OutlinerFilter { state: StateChips { selected: true, ..Default::default() }, ..Default::default() };
    assert!(selected.fixture_passes(false, true, false));
    assert!(!selected.fixture_passes(false, false, false), "an unselected fixture fails the Selected chip");

    let conflicts = OutlinerFilter { state: StateChips { conflicts: true, ..Default::default() }, ..Default::default() };
    assert!(conflicts.fixture_passes(false, false, true));
    assert!(!conflicts.fixture_passes(false, false, false));

    let both = OutlinerFilter {
        state: StateChips { selected: true, conflicts: true, ..Default::default() },
        ..Default::default()
    };
    assert!(both.fixture_passes(false, true, true), "passes only when selected AND conflicting");
    assert!(!both.fixture_passes(false, true, false));
    assert!(!both.fixture_passes(false, false, true));
}

#[test]
fn any_state_chip_signals_fixture_focus() {
    assert!(!StateChips::default().any());
    assert!(StateChips { unpatched: true, ..Default::default() }.any());
    assert!(StateChips { conflicts: true, ..Default::default() }.any());
}

#[test]
fn the_whole_tree() {
    let s = scene();
    let out = scene_rows(
        &s,
        &patch(),
        &vec![(0, 1)],
        &vec![0, 1, 2],
        &Selection::default(),
        "",
        OutlinerFilter::default(),
        &all_open(),
    );
    assert_eq!(out.fixtures, vec![0, 1, 2]);
    assert_eq!(out.objects, vec![0]);
    assert_eq!(out.screens, vec![0]);
    let kinds: Vec<RowKind> = out.rows.iter().map(|r| r.kind).collect();
    assert_eq!(
        kinds,
        vec![
            RowKind::Root,
            RowKind::World,
            RowKind::EnvGroup,
            RowKind::Environment(0),
            RowKind::Group(GroupKind::Fixtures),
            RowKind::Fixture(0),
            RowKind::Fixture(1),
            RowKind::Fixture(2),
            RowKind::Group(GroupKind::Objects),
            RowKind::Object(0),
            RowKind::Group(GroupKind::Screens),
            RowKind::Screen(0),
        ]
    );
    let rows = &out.rows;
    assert!(rows[5].conflict && rows[6].conflict && !rows[7].conflict);
    assert_eq!(rows[5].patch_tag, "1.001");
    assert_eq!(rows[7].patch_tag, "unpatched");
    assert_eq!(rows[4].vis, VisState::Mixed);
    assert_eq!(rows[6].vis, VisState::Hidden);
    assert_eq!(rows[11].vis, VisState::Hidden);
    assert_eq!(rows[9].key, NodeKey::Entity(10));
    assert!(rows[5].depth > rows[4].depth);
}

#[test]
fn the_tree_nests_below_one_root() {
    let rows = build_rows(
        &scene(),
        &patch(),
        OutlinerFilter::default(),
        &all_open(),
        &vec![false; 3],
        &vec![2, 0, 1],
        &vec![0],
        &vec![0],
        &vec![0],
    );
    assert_eq!(rows[0].kind, RowKind::Root);
    assert_eq!(rows.iter().filter(|r| r.depth == 0).count(), 1);
    assert!(rows.windows(2).all(|w| w[1].depth <= w[0].depth + 1));
    let fixtures: Vec<RowKind> =
        rows.iter().map(|r| r.kind).filter(|k| matches!(k, RowKind::Fixture(_))).collect();
    assert_eq!(fixtures, [RowKind::Fixture(2), RowKind::Fixture(0), RowKind::Fixture(1)]);
}

#[test]
fn a_collapsed_root_hides_everything() {
    let s = scene();
    let out = scene_rows(
        &s,
        &patch(),
        &vec![],
        &vec![0, 1, 2],
        &Selection::default(),
        "",
        OutlinerFilter::default(),
        &NodeSet::new(),
    );
    assert_eq!(out.rows.len(), 1);
    assert_eq!(out.rows[0].kind, RowKind::Root);
    assert_eq!(out.fixtures, vec![0, 1, 2]);
}

#[test]
fn search_ignores_case_and_blanks() {
    let s = scene();
    let out = scene_rows(
        &s,
        &patch(),
        &vec![],
        &vec![2, 1, 0],
        &Selection::default(),
        "  MM ",
        OutlinerFilter::default(),
        &all_open(),
    );
    assert_eq!(out.fixtures, vec![2]);
    assert!(out.objects.is_empty() && out.screens.is_empty());
    assert!(labels(&out.rows).contains(&"Gamma".to_string()));
    assert!(!labels(&out.rows).contains(&"Alpha".to_string()));
    assert_eq!(search_query("\u{a0} MM\t"), "mm");
    assert!(matches_query("mm", "GaMMa"));
    assert!(!matches_query("mm", "Alpha"));
    assert!(matches_query("", "Alpha"));
}

#[test]
fn the_display_order_is_kept() {
    let out = scene_rows(
        &scene(),
        &patch(),
        &vec![],
        &vec![2, 0, 1],
        &Selection::default(),
        "",
        OutlinerFilter::default(),
        &all_open(),
    );
    assert_eq!(out.fixtures, vec![2, 0, 1]);
}

#[test]
fn state_chips_leave_fixtures_only() {
    let filter = OutlinerFilter {
        state: StateChips { unpatched: true, ..Default::default() },
        ..Default::default()
    };
    let out = scene_rows(
        &scene(),
        &patch(),
        &vec![],
        &vec![0, 1, 2],
        &Selection::default(),
        "",
        filter,
        &all_open(),
    );
    assert_eq!(out.fixtures, vec![2]);
    assert!(out.rows.iter().all(|r| !matches!(
        r.kind,
        RowKind::World | RowKind::Object(_) | RowKind::Screen(_) | RowKind::Environment(_)
    )));
}

#[test]
fn visibility_folds() {
    assert_eq!(VisState::fold(&vec![]), VisState::Shown);
    assert_eq!(VisState::fold(&vec![false, false]), VisState::Shown);
    assert_eq!(VisState::fold(&vec![true, true]), VisState::Hidden);
    assert_eq!(VisState::fold(&vec![true, false]), VisState::Mixed);
    assert!(VisState::Hidden.dim() && !VisState::Mixed.dim());
    assert_eq!(leaf_vis(true), VisState::Hidden);
    assert_eq!(count_str(0), "empty");
    assert_eq!(count_str(3), "3");
    assert_eq!(VisState::Shown.hint(), "Visible — click to hide");
}

#[test]
fn conflicts_flag_both_fixtures() {
    assert_eq!(conflicted_flags(&vec![(0, 2)], 4), vec![true, false, true, false]);
    assert_eq!(conflicted_flags(&vec![], 2), vec![false, false]);
}

#[test]
fn toggling_twice_changes_nothing() {
    let mut set = all_open();
    assert!(set.contains(NodeKey::World));
    toggle_expand(&mut set, NodeKey::World);
    assert!(!set.contains(NodeKey::World));
    toggle_expand(&mut set, NodeKey::World);
    assert!(set.contains(NodeKey::World));
}

#[test]
fn a_click_replaces_the_selection() {
    let mut sel = Selection::geometry(0);
    let mut anchor = None;
    select_row(
        &fixture_row(2),
        &mut sel,
        &mut anchor,
        3,
        false,
        false,
        &vec![0, 1, 2],
        &vec![0],
        &vec![0],
    );
    assert_eq!(sel.fixtures, vec![2]);
    assert!(sel.geometry.is_empty());
    assert_eq!(anchor, Some(2));
}

#[test]
fn a_shift_click_takes_the_visible_range() {
    let mut sel = Selection::fixture(2);
    let mut anchor = Some(2);
    select_row(
        &fixture_row(1),
        &mut sel,
        &mut anchor,
        3,
        true,
        false,
        &vec![2, 0, 1],
        &vec![0],
        &vec![0],
    );
    assert_eq!(sel.fixtures, vec![2, 0, 1]);
    assert_eq!(range_click(&vec![4, 7, 9], Some(9), 4), vec![4, 7, 9]);
    assert_eq!(range_click(&vec![4, 7, 9], None, 7), vec![7]);
}

#[test]
fn a_command_click_toggles() {
    let mut sel = Selection::fixture(0);
    let mut anchor = Some(0);
    for want in [vec![0, 1], vec![0]] {
        select_row(
            &fixture_row(1),
            &mut sel,
            &mut anchor,
            3,
            false,
            true,
            &vec![0, 1, 2],
            &vec![0],
            &vec![0],
        );
        assert_eq!(sel.fixtures, want);
    }
}

#[test]
fn the_primary_row_is_the_first_selected() {
    let mut sel = Selection::fixture(1);
    sel.toggle_fixture(0);
    assert_eq!(row_selection_state(&fixture_row(1), &sel), (true, true));
    assert_eq!(row_selection_state(&fixture_row(0), &sel), (true, false));
    assert_eq!(row_selection_state(&fixture_row(2), &sel), (false, false));
    let mut anchor = Some(1);
    clear_selection(&mut sel, &mut anchor);
    assert!(sel.fixtures.is_empty() && anchor.is_none());
}

#[test]
fn events_of_a_row() {
    let none = RowInput {
        eye_clicked: false,
        disclosure_clicked: false,
        double_clicked: false,
        clicked: false,
        shift: false,
        cmd: false,
    };
    assert_eq!(row_event(none, false, false, true), RowEvent::Ignored);
    let eye = RowInput { eye_clicked: true, clicked: true, ..none };
    assert_eq!(row_event(eye, false, false, true), RowEvent::ToggleHidden);
    let click = RowInput { clicked: true, ..none };
    assert_eq!(row_event(click, false, false, true), RowEvent::Select);
    let double = RowInput { double_clicked: true, clicked: true, ..none };
    assert_eq!(row_event(double, false, false, true), RowEvent::StartRename);
}

#[test]
fn renaming_a_row() {
    let row = fixture_row(0);
    let mut sel = Selection::default();
    let mut anchor = None;
    let mut expanded = all_open();
    let mut rename: Option<RenameEdit> = None;
    let double = RowInput {
        eye_clicked: false,
        disclosure_clicked: false,
        double_clicked: true,
        clicked: true,
        shift: false,
        cmd: false,
    };
    let lists = (vec![0, 1, 2], vec![0], vec![0]);
    let action = row_interaction(
        &row, double, &mut sel, &mut anchor, &mut expanded, &mut rename, 3, &lists.0, &lists.1,
        &lists.2,
    );
    assert!(matches!(action, TreeAction::Nothing));
    let edit = rename.as_mut().expect("the row is being renamed");
    assert_eq!(edit.text, "Alpha");
    edit.text = " Front ".to_string();
    match finish_rename(&mut rename, true) {
        TreeAction::Rename(NodeKey::Entity(1), name) => assert_eq!(name.trim(), "Front"),
        other => panic!("no rename: {other:?}"),
    }
    assert!(rename.is_none());
    rename = Some(RenameEdit { key: NodeKey::Entity(1), text: "x".to_string() });
    assert!(matches!(finish_rename(&mut rename, false), TreeAction::Nothing));
}

#[test]
fn the_eye_asks_to_hide() {
    let row = fixture_row(0);
    let mut sel = Selection::default();
    let mut anchor = None;
    let mut expanded = all_open();
    let mut rename = None;
    let eye = RowInput {
        eye_clicked: true,
        disclosure_clicked: false,
        double_clicked: false,
        clicked: false,
        shift: false,
        cmd: false,
    };
    let action = row_interaction(
        &row, eye, &mut sel, &mut anchor, &mut expanded, &mut rename, 3, &vec![0, 1, 2], &vec![0],
        &vec![0],
    );
    assert!(matches!(action, TreeAction::ToggleHidden(NodeKey::Entity(1))));
    assert!(sel.fixtures.is_empty());
}

#[test]
fn guides_span_the_descendants() {
    let rows = build_rows(
        &scene(),
        &patch(),
        OutlinerFilter::default(),
        &all_open(),
        &vec![false; 3],
        &vec![0, 1, 2],
        &vec![0],
        &vec![0],
        &vec![0],
    );
    let group = rows.iter().position(|r| r.kind == RowKind::Group(GroupKind::Fixtures)).unwrap();
    assert_eq!(last_descendant(&rows, group), group + 3);
    assert_eq!(last_descendant(&rows, group + 1), group + 1);
    assert!(guide_lines(&rows, 0, rows.len()).contains(&(group, group + 3)));
}

#[test]
fn picks_are_combined() {
    let sel = Selection::fixture(0);
    let hits = vec![SelItem::Fixture(1), SelItem::Geometry(2)];
    let replaced = apply_select(&sel, &hits, SelectOp::Replace);
    assert_eq!(replaced.fixtures, vec![1]);
    assert_eq!(replaced.geometry, vec![2]);
    let more = apply_select(&sel, &hits, SelectOp::Add);
    assert_eq!(more.fixtures, vec![0, 1]);
    let fewer = apply_select(&more, &vec![SelItem::Fixture(0)], SelectOp::Subtract);
    assert_eq!(fewer.fixtures, vec![1]);
    let toggled = apply_select(&more, &vec![SelItem::Fixture(0)], SelectOp::Toggle);
    assert_eq!(toggled.fixtures, vec![1]);
    assert_eq!(toggled.geometry, vec![2]);
}

#[test]
fn fixture_clicks_follow_the_modifiers() {
    let mut sel = Selection::fixture(1);
    let mut anchor = Some(1);
    apply_fixture_click(&mut sel, &mut anchor, 3, true, false, 5);
    assert_eq!(sel.fixtures, vec![1, 2, 3]);
    assert_eq!(anchor, Some(1));
    apply_fixture_click(&mut sel, &mut anchor, 2, false, true, 5);
    assert_eq!(sel.fixtures, vec![1, 3]);
    apply_fixture_click(&mut sel, &mut anchor, 4, false, false, 5);
    assert_eq!(sel.fixtures, vec![4]);
}
