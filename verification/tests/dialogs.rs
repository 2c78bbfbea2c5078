//! The windows: palette, add menu, quick select, preferences, profile, cheat
//! sheet.

use glowstone::scene::{Fixture, Scene};
use glowstone::selection::Selection;
use glowstone::shortcuts::dispatch::{InputState, KeyEvent};
use glowstone::shortcuts::effective::{conflicting_ids, shortcut_for};
use glowstone::shortcuts::keymaps::{
    by_id, key_label, Key, KeymapId, Modifiers, Platform, Trigger,
};
use glowstone::shortcuts::overrides::KeymapOverrides;
use glowstone::shortcuts::registry::{palette_commands, Category};
use glowstone::theme::Icon;
use glowstone::windows::add_menu::{
    action_item, category_entries, entries, is_starred, menu_query, pinned_entries, AddAction,
    AddCategory, AddMenuState, LibItem, Library, MenuKeys, Stock,
};
use glowstone::windows::cheat_sheet::sheet_rows;
use glowstone::windows::operator_search::{
    palette_list, palette_step, OperatorSearchState, PaletteKeys,
};
use glowstone::windows::preferences::{
    bind_chord, default_true, editor_row, editor_rows, KeymapEditorState, LabelMode, Preferences,
};
use glowstone::windows::profile_editor::{
    channel_cells, channels_heading, check_open, emitter_text, identity_rows, mode_text,
    wheel_heading, ProfileEditor, ProfileInfo, ProfileTab,
};
use glowstone::windows::quick_select::{
    apply_quick, quick_counts, quick_key, quick_select_step, QuickAction, QuickKeys,
};
use glowstone::windows::ranking::{move_highlight, rank};

fn fixture(profile: &str, maker: Option<&str>) -> Fixture {
    Fixture {
        id: 1,
        name: "f".to_string(),
        profile: profile.to_string(),
        maker: maker.map(|m| m.to_string()),
        modes: Vec::new(),
        hidden: false,
        is_laser: false,
    }
}

fn scene() -> Scene {
    Scene {
        fixtures: vec![
            fixture("Spot", Some("Acme")),
            fixture("Wash", Some("Acme")),
            fixture("Spot", None),
        ],
        geometry: Vec::new(),
        screens: Vec::new(),
        environments: Vec::new(),
        pyro: Vec::new(),
    }
}

#[test]
fn matches_are_ranked_best_first() {
    assert_eq!(rank(&vec![Some(3), None, Some(9), Some(3)]), vec![2, 0, 3]);
    assert!(rank(&vec![None]).is_empty());
    assert_eq!(move_highlight(2, true, false, 3), 0);
    assert_eq!(move_highlight(1, false, true, 3), 0);
    assert_eq!(move_highlight(5, true, false, 0), 0);
    assert_eq!(move_highlight(0, false, true, 4), 3);
    assert_eq!(move_highlight(0, false, true, 7), 6);
    assert_eq!(move_highlight(0, true, true, 7), 0);
}

#[test]
fn the_palette_runs_what_is_picked() {
    let n = palette_commands().len();
    let mut scores = vec![None; n];
    scores[4] = Some(1);
    scores[2] = Some(8);
    let list = palette_list(&scores);
    assert_eq!(list.len(), 2);
    assert_eq!(list[0].id, palette_commands()[2].id);

    let none = PaletteKeys { escape: false, enter: false, down: false, up: false };
    let mut st = OperatorSearchState::default();
    assert_eq!(palette_step(&mut st, none, None, &vec![true, false]), None);
    st.show();
    assert!(st.open);
    let down = PaletteKeys { down: true, enter: true, ..none };
    assert_eq!(palette_step(&mut st, down, None, &vec![true, false]), None);
    assert!(st.open);
    assert_eq!(st.idx, 1);
    assert_eq!(palette_step(&mut st, none, Some(0), &vec![true, false]), Some(0));
    assert!(!st.open);
    st.show();
    palette_step(&mut st, PaletteKeys { escape: true, down: true, ..none }, None, &vec![true]);
    assert!(!st.open);
    assert_eq!(st.idx, 1);
    st.idx = 3;
    st.search_changed();
    assert_eq!(st.idx, 0);
}

fn stock(group: &str, name: &str, key: &str, laser: bool) -> Stock {
    Stock { group: group.to_string(), name: name.to_string(), key: key.to_string(), laser }
}

fn library() -> Library {
    Library {
        gdtf: vec![stock("Acme", "Beam", "g:beam", false)],
        fixtures: vec![stock("Spot", "Generic", "f:spot", false), stock("Laser", "Ray", "f:ray", true)],
        screens: vec![stock("", "Wall", "s:wall", false)],
        environments: vec![stock("", "Haze", "", false)],
    }
}

#[test]
fn the_add_menu_lists_the_library() {
    let lib = library();
    let rows = category_entries(&lib, AddCategory::Fixtures);
    assert_eq!(rows.len(), 3);
    assert!(rows.iter().any(|e| e.action == AddAction::Gdtf(0)));
    assert!(rows.iter().any(|e| e.action == AddAction::Fixture(1) && e.icon == Icon::Color));
    assert_eq!(category_entries(&lib, AddCategory::Screens)[0].action, AddAction::Screen(0));
    assert_eq!(menu_query("  Be "), "be");
    assert_eq!(entries(&lib, AddCategory::Fixtures, "", &vec![]).len(), 3);
    let found = entries(&lib, AddCategory::Fixtures, "x", &vec![None, Some(1), Some(5)]);
    assert_eq!(found.len(), 2);
    assert_eq!(found[0].label, rows[2].label);
    assert_eq!(action_item(AddAction::Environment(2)), LibItem::Env(2));
}

#[test]
fn recent_and_favourite_rows_are_pinned() {
    let lib = library();
    let (recent, favourites) =
        pinned_entries(&lib, &vec!["f:ray".to_string()], &vec!["s:wall".to_string(), "gone".to_string()]);
    assert_eq!(recent.len(), 1);
    assert_eq!(recent[0].action, AddAction::Fixture(1));
    assert_eq!(favourites.len(), 1);
    assert!(is_starred(&favourites[0], &vec!["s:wall".to_string()]));
    assert!(!is_starred(&recent[0], &vec!["s:wall".to_string()]));
}

#[test]
fn the_add_menu_goes_by_keys() {
    let none = MenuKeys {
        escape: false,
        enter: false,
        down: false,
        up: false,
        left: false,
        right: false,
    };
    let mut menu = AddMenuState::closed(0);
    menu.show_at(5);
    assert!(menu.open);
    assert_eq!(menu.anchor, 5);
    assert!(menu.keys(MenuKeys { right: true, ..none }));
    assert_eq!(menu.category, AddCategory::Screens);
    menu.go_to(AddCategory::Fixtures);
    assert!(menu.keys(MenuKeys { down: true, ..none }));
    menu.keep_within(3);
    assert_eq!(menu.idx, 1);
    let rows = category_entries(&library(), AddCategory::Fixtures);
    assert_eq!(menu.finish(&rows, false, None, false), None);
    assert!(menu.open);
    assert_eq!(menu.finish(&rows, true, None, false), Some(rows[1].action));
    assert!(!menu.open);
    assert_eq!(AddCategory::Fixtures.previous(), AddCategory::Environment);
    assert_eq!(AddCategory::Environment.next(), AddCategory::Fixtures);
    assert_eq!(AddCategory::ORDER.len(), 3);
    menu.show_at(0);
    menu.idx = 4;
    let kept = menu.category;
    assert!(!menu.keys(MenuKeys { escape: true, up: true, right: true, ..none }));
    assert_eq!((menu.open, menu.idx, menu.category), (false, 3, kept));
}

#[test]
fn quick_select_picks() {
    let s = scene();
    let none = QuickKeys { a: false, t: false, m: false, i: false, n: false, escape: false };
    assert_eq!(quick_key(none, true, true), None);
    assert_eq!(quick_key(QuickKeys { t: true, ..none }, false, true), None);
    assert_eq!(quick_key(QuickKeys { t: true, ..none }, true, true), Some(QuickAction::SameType));
    let pick = |action: QuickAction| {
        let mut sel = Selection::fixture(0);
        apply_quick(&s, &mut sel, action);
        sel.fixtures
    };
    assert_eq!(pick(QuickAction::All), vec![0, 1, 2]);
    assert_eq!(pick(QuickAction::SameType), vec![0, 2]);
    assert_eq!(pick(QuickAction::SameMaker), vec![0, 1]);
    assert_eq!(pick(QuickAction::Invert), vec![1, 2]);
    assert!(pick(QuickAction::Clear).is_empty());
    let counts = quick_counts(&s, &Selection::fixture(0));
    assert_eq!((counts.all, counts.inverted), (3, 2));
    let mut twice = Selection::fixture(0);
    twice.fixtures = vec![0, 0, 7];
    assert_eq!(quick_counts(&s, &twice).inverted, 1);
    assert_eq!((counts.same_type, counts.same_maker), (Some(2), Some(2)));
    let mut open = true;
    let mut sel = Selection::fixture(0);
    quick_select_step(&mut open, &s, &mut sel, QuickKeys { i: true, ..none }, None);
    assert!(!open);
    assert_eq!(sel.fixtures, vec![1, 2]);
}

fn pressing(name: &'static str) -> InputState {
    let modifiers = Modifiers { command: false, shift: false, alt: false };
    InputState {
        events: vec![KeyEvent { key: Key::named(name), pressed: true, modifiers }],
        modifiers,
        wants_keyboard: false,
    }
}

#[test]
fn the_editor_captures_a_chord() {
    let mut ov = KeymapOverrides::default();
    let mut st = KeymapEditorState::default();
    assert!(!st.capture_step(&mut ov, &pressing("K")));
    st.click_chip("select.all");
    assert!(st.captures("select.all") && !st.captures("view.frame_all"));
    assert!(st.capture_step(&mut ov, &pressing("K")));
    assert!(st.capturing.is_none());
    assert_eq!(shortcut_for("select.all", &ov, Platform::Other), Some("K".to_string()));
    st.click_chip("select.all");
    assert!(!st.capture_step(&mut ov, &pressing("Escape")));
    assert!(st.capturing.is_none());
    st.toggle_disabled(&mut ov, "view.frame_all");
    assert!(shortcut_for("view.frame_all", &ov, Platform::Other).is_none());
    st.reset_row(&mut ov, "select.all");
    assert_eq!(shortcut_for("select.all", &ov, Platform::Other), Some("A".to_string()));
    st.reset_all(&mut ov);
    assert!(ov.is_empty());
}

#[test]
fn a_command_without_a_bind_gets_one() {
    let mut ov = KeymapOverrides::default();
    bind_chord(&mut ov, "object.add", &Trigger::key(Key::named("J")));
    assert_eq!(shortcut_for("object.add", &ov, Platform::Other), Some("J".to_string()));
}

#[test]
fn editor_rows_are_searched() {
    let all = editor_rows(Category::Selection, "");
    assert!(all.iter().any(|c| c.id == "select.all"));
    let some = editor_rows(Category::Selection, "SELECT all");
    assert!(some.iter().any(|c| c.id == "select.all"));
    assert!(some.len() < all.len());
    let mut ov = KeymapOverrides::default();
    let st = KeymapEditorState::default();
    let row = editor_row("select.all", &st, &ov, &conflicting_ids(&ov), Platform::Other);
    assert!(!row.overridden && !row.in_conflict && !row.disabled);
    assert_eq!(row.chip, "A");
    ov.rebind("view.frame_selection", &Trigger::key(Key::named("A")));
    let row = editor_row("select.all", &st, &ov, &conflicting_ids(&ov), Platform::Other);
    assert!(row.in_conflict && !row.overridden);
}

#[test]
fn preferences_at_the_start() {
    let p = Preferences::default();
    assert!(p.show_labels && p.show_gizmos && p.show_hint && !p.show_stats);
    assert_eq!(p.label_mode, LabelMode::Name);
    assert_eq!(p.unit_suffix(), " m");
    assert_eq!(Preferences { units_feet: true, ..p }.unit_suffix(), " ft");
    assert!(default_true());
    assert_eq!(LabelMode::ALL.len(), 3);
}

#[test]
fn profile_texts() {
    assert_eq!(emitter_text(3, "Beam"), " 3  ·  Beam");
    assert_eq!(emitter_text(12, "Beam"), "12  ·  Beam");
    assert_eq!(mode_text("Full", 34, 2), "Full  ·  34 ch  ·  2 emitters");
    assert_eq!(channels_heading("Full", 34), "Full  ·  34 ch");
    assert_eq!(wheel_heading("Color", 7), "Color  ·  7 slots");
    assert_eq!(
        channel_cells(&vec![4, 5], &None, "Head"),
        ("4".to_string(), "Head".to_string())
    );
    assert_eq!(
        channel_cells(&vec![], &Some("Pixel 1".to_string()), "Head"),
        ("—".to_string(), "Pixel 1".to_string())
    );
    let info = ProfileInfo {
        manufacturer: "Acme".to_string(),
        name: "B".to_string(),
        long_name: "Beam".to_string(),
        short_name: "b".to_string(),
        spec: String::new(),
    };
    assert_eq!(identity_rows(&info).len(), 4);
    assert_eq!(identity_rows(&ProfileInfo { spec: "x.gdtf".to_string(), ..info }).len(), 5);
    assert_eq!(ProfileTab::ALL.len(), 7);
}

#[test]
fn a_profile_closes_with_its_fixture() {
    let s = scene();
    let mut st = Some(ProfileEditor::new(0));
    check_open(&s, &mut st);
    assert!(st.is_some());
    st = Some(ProfileEditor::new(3));
    check_open(&s, &mut st);
    assert!(st.is_none());
}

#[test]
fn the_cheat_sheet_leaves_no_bind_out() {
    let listed: usize =
        Category::ORDER.into_iter().map(|c| sheet_rows(c, Platform::Other).len()).sum();
    let binds: usize = [KeymapId::Global, KeymapId::Viewport, KeymapId::Modal]
        .into_iter()
        .map(|id| by_id(id).len())
        .sum();
    assert_eq!(listed, binds + 2);
    for k in by_id(KeymapId::Viewport) {
        let keys = key_label(&k.trigger, Platform::Other);
        let rows = sheet_rows(k.category(), Platform::Other);
        assert!(rows.iter().any(|r| r.label == k.label() && r.keys == keys), "{}", k.cmd);
    }
}

#[test]
fn the_cheat_sheet_lists_the_binds() {
    let rows = sheet_rows(Category::File, Platform::Other);
    assert!(rows.iter().any(|r| r.keys == "Ctrl+S"));
    assert!(rows.iter().all(|r| !r.label.is_empty()));
    let mouse = sheet_rows(Category::Navigation, Platform::Other);
    assert_eq!(mouse.len(), 2);
    assert_eq!(mouse[0].label, "Orbit / Pan / Zoom");
    assert_eq!(mouse[0].keys, "drag / Shift+drag / scroll");
    assert_eq!(mouse[1].keys, "click / ⌘·Ctrl·Shift+click");
}
