//! The DMX monitor, the fixture table and the patch dialogs.

use glowstone::dmx::{
    active_count, bound_text, cell_at, cell_tooltip, click_cell, conflict_text, net_command,
    next_universe, no_source_text, occupancy, patched_count, percent, previous_universe,
    shown_universe, source_text, source_tier, status_text, universe_list, MapChannel, NetCommand,
};
use glowstone::fixture_manager::{
    bulk_modes, bulk_selection, conflict_count, edit_entry, mode_targets, patch_sequence, row_flag,
    set_enabled, set_universe, start_slot, table_click, table_rows, FmState, RowFlag, SceneSort,
    Slot,
};
use glowstone::scene::{Fixture, PatchEntry, PatchSource, PatchTable, Scene};
use glowstone::selection::Selection;
use glowstone::viewport::overlay::Tier;
use glowstone::windows::patch_dialog::{DialogInput, PatchDialog, SelKind, UnpatchDialog};

fn fixture(name: &str, profile: &str, modes: &[&str]) -> Fixture {
    Fixture {
        id: 1,
        name: name.to_string(),
        profile: profile.to_string(),
        maker: None,
        modes: modes.iter().map(|m| m.to_string()).collect(),
        hidden: false,
        is_laser: false,
    }
}

fn scene() -> Scene {
    Scene {
        fixtures: vec![
            fixture("Front 1", "Spot", &["Basic", "Full"]),
            fixture("Front 2", "Spot", &["Basic", "Full"]),
            fixture("Back", "Wash", &["Only"]),
        ],
        geometry: Vec::new(),
        screens: Vec::new(),
        environments: Vec::new(),
        pyro: Vec::new(),
    }
}

fn entry(universe: u16, address: u16, footprint: u16) -> PatchEntry {
    PatchEntry {
        universe,
        address,
        footprint,
        mode_index: 0,
        enabled: true,
        source: PatchSource::Import,
    }
}

fn channels() -> Vec<MapChannel> {
    vec![
        MapChannel { offset: 0, width: 1, attribute: "Dimmer".to_string() },
        MapChannel { offset: 1, width: 2, attribute: "Pan".to_string() },
    ]
}

#[test]
fn universes_are_listed_once_in_order() {
    assert_eq!(universe_list(&vec![3, 1], &vec![2, 3], 9), vec![1, 2, 3]);
    assert_eq!(universe_list(&vec![], &vec![], 9), vec![9]);
    let list = vec![1, 2, 5];
    assert_eq!(shown_universe(&list, 5), 5);
    assert_eq!(shown_universe(&list, 4), 1);
    assert_eq!(next_universe(&list, 2), 5);
    assert_eq!(next_universe(&list, 5), 5);
    assert_eq!(previous_universe(&list, 2), 1);
    assert_eq!(previous_universe(&list, 1), 1);
}

#[test]
fn cells_are_claimed_by_their_channels() {
    let patch = PatchTable { entries: vec![entry(1, 1, 3), entry(1, 3, 3), entry(2, 1, 3)] };
    let maps = vec![channels(), channels(), channels()];
    let occ = occupancy(&patch, &maps, 1);
    assert_eq!(occ.cells.len(), 512);
    assert_eq!(occ.cells[0].as_ref().map(|c| (c.0, c.1.as_str())), Some((0, "Dimmer")));
    assert_eq!(occ.cells[1].as_ref().map(|c| (c.0, c.1.as_str())), Some((0, "Pan")));
    assert!(occ.conflicts[2] && !occ.conflicts[1] && !occ.conflicts[3]);
    assert!(occ.cells[5].is_none());
    assert_eq!(patched_count(&occ), 5);
    let tip = cell_tooltip(0, &occ, &scene(), 255);
    assert_eq!(tip, "Ch 1 · Front 1 · Dimmer\n255  (100%)");
    assert_eq!(cell_tooltip(9, &occ, &scene(), 0), "Ch 10 · unpatched\n0  (0%)");
    let mut sel = Selection::geometry(0);
    click_cell(9, &occ, &mut sel);
    assert_eq!(sel.geometry, vec![0]);
    click_cell(1, &occ, &mut sel);
    assert_eq!(sel.fixtures, vec![0]);
    assert!(sel.geometry.is_empty());
}

#[test]
fn disabled_entries_claim_nothing() {
    let off = PatchEntry { enabled: false, ..entry(1, 1, 3) };
    let patch = PatchTable { entries: vec![off] };
    assert_eq!(patched_count(&occupancy(&patch, &vec![channels()], 1)), 0);
}

#[test]
fn levels_and_cells() {
    assert_eq!(active_count(&vec![0, 3, 0, 255]), 2);
    assert_eq!(percent(0), 0);
    assert_eq!(percent(255), 100);
    assert_eq!(percent(128), 50);
    assert_eq!(cell_at(0, 1), Some(16));
    assert_eq!(cell_at(16, 0), None);
    assert_eq!(cell_at(15, 31), Some(511));
}

#[test]
fn network_texts() {
    assert_eq!(conflict_text(1), "1 conflict");
    assert_eq!(conflict_text(3), "3 conflicts");
    assert_eq!(bound_text(true, true), "Art-Net + sACN");
    assert_eq!(bound_text(false, false), "no sockets bound");
    assert_eq!(status_text(true, false, true, 2), "sACN · 2 source(s)");
    assert_eq!(status_text(false, true, true, 2), "stopped");
    assert_eq!(no_source_text(false), "not receiving");
    assert_eq!(source_text("Desk", "10.0.0.1"), "Desk (10.0.0.1)");
    assert_eq!(source_text("", "10.0.0.1"), "10.0.0.1");
    assert_eq!(source_tier(30), Tier::Good);
    assert_eq!(source_tier(29), Tier::Warn);
    assert_eq!(source_tier(9), Tier::Conflict);
    assert_eq!(net_command(Some(true), false, false), Some(NetCommand::Start));
    assert_eq!(net_command(Some(false), false, true), Some(NetCommand::Stop));
    assert_eq!(net_command(None, true, true), Some(NetCommand::Reapply));
    assert_eq!(net_command(None, true, false), None);
}

#[test]
fn sequences_are_packed() {
    let mut patch = PatchTable {
        entries: vec![entry(9, 9, 200), entry(9, 9, 200), entry(9, 9, 200)],
    };
    patch_sequence(&mut patch, &vec![2, 0, 1], &vec![0, 1, 2], 1, 100);
    let at = |i: usize| (patch.entries[i].universe, patch.entries[i].address);
    assert_eq!(at(2), (1, 100));
    assert_eq!(at(0), (1, 300));
    assert_eq!(at(1), (2, 1));
    assert!(patch.entries.iter().all(|p| p.enabled && p.source == PatchSource::Manual));
    assert_eq!(start_slot(0, 0), Slot { universe: 1, address: 1 });
}

#[test]
fn only_the_selected_are_packed() {
    let mut patch = PatchTable { entries: vec![entry(9, 9, 10), entry(9, 9, 10)] };
    patch_sequence(&mut patch, &vec![0, 1], &vec![1], 3, 1);
    assert_eq!(patch.entries[0], entry(9, 9, 10));
    assert_eq!((patch.entries[1].universe, patch.entries[1].address), (3, 1));
}

#[test]
fn bulk_edits() {
    let mut patch = PatchTable { entries: vec![entry(1, 5, 3), entry(2, 6, 3)] };
    set_universe(&mut patch, &vec![1], 7);
    assert_eq!((patch.entries[1].universe, patch.entries[1].address), (7, 6));
    assert_eq!(patch.entries[0], entry(1, 5, 3));
    set_enabled(&mut patch, &vec![0], false);
    assert!(!patch.entries[0].enabled && patch.entries[1].enabled);
    edit_entry(&mut patch, 0, 4, 44);
    assert_eq!((patch.entries[0].universe, patch.entries[0].address), (4, 44));
    assert!(patch.entries[0].enabled);
}

#[test]
fn modes_are_offered_for_one_profile() {
    let s = scene();
    assert_eq!(bulk_modes(&s, &vec![0, 1]), vec!["Basic".to_string(), "Full".to_string()]);
    assert!(bulk_modes(&s, &vec![0, 2]).is_empty());
    assert_eq!(mode_targets(&s, &vec![0, 1, 2], 1), vec![0, 1]);
    let mut sel = Selection::fixture(1);
    sel.toggle_fixture(8);
    assert_eq!(bulk_selection(&s, &sel), vec![1]);
}

#[test]
fn the_table_is_filtered() {
    let s = scene();
    let off = PatchEntry { enabled: false, ..entry(1, 9, 3) };
    let patch = PatchTable { entries: vec![entry(1, 1, 3), entry(1, 1, 3), off] };
    let flags = vec![true, true, false];
    let mut fm = FmState::default();
    assert_eq!(fm.sort, SceneSort::Patch);
    assert_eq!(table_rows(&s, &patch, &flags, &fm, &vec![2, 1, 0]), vec![2, 1, 0]);
    fm.search = " WASH".to_string();
    assert_eq!(table_rows(&s, &patch, &flags, &fm, &vec![2, 1, 0]), vec![2]);
    fm.search = String::new();
    fm.conflicts_only = true;
    assert_eq!(table_rows(&s, &patch, &flags, &fm, &vec![2, 1, 0]), vec![1, 0]);
    fm.conflicts_only = false;
    fm.unpatched_only = true;
    assert_eq!(table_rows(&s, &patch, &flags, &fm, &vec![2, 1, 0]), vec![2]);
    assert_eq!(conflict_count(&flags), 2);
    assert_eq!(row_flag(&patch, true, 0), RowFlag::Conflict);
    assert_eq!(row_flag(&patch, false, 2), RowFlag::Off);
    assert_eq!(row_flag(&patch, false, 7), RowFlag::Plain);
}

#[test]
fn table_ranges_go_by_the_rows() {
    let mut sel = Selection::fixture(2);
    let mut anchor = Some(2);
    table_click(&mut sel, &mut anchor, &vec![2, 0, 1], 1, true, false, 3);
    assert_eq!(sel.fixtures, vec![2, 0, 1]);
    let mut lost = Some(9);
    table_click(&mut sel, &mut lost, &vec![2, 0], 0, true, false, 3);
    assert_eq!(sel.fixtures, vec![0]);
    assert_eq!(lost, Some(0));
    table_click(&mut sel, &mut lost, &vec![2, 0], 2, false, false, 3);
    assert_eq!(sel.fixtures, vec![2]);
}

#[test]
fn patch_dialog_goes_ahead_or_closes() {
    let mut d = PatchDialog { open: true, count: 2, start_universe: 1, start_address: 1 };
    assert_eq!(d.prompt(), "Patch 2 fixtures from:");
    d.set_universe(70000);
    d.set_address(0);
    assert_eq!((d.start_universe, d.start_address), (63999, 1));
    d.set_address(600);
    assert_eq!(d.start_address, 512);
    let none = DialogInput { escape: false, enter: false, confirm: false, cancel: false };
    assert!(!d.step(none));
    assert!(d.open);
    assert!(d.step(DialogInput { enter: true, ..none }));
    assert!(!d.open);
    assert!(!d.step(DialogInput { enter: true, ..none }));
}

#[test]
fn unpatch_dialog_leaves_enter_to_text_fields() {
    let none = DialogInput { escape: false, enter: false, confirm: false, cancel: false };
    let mut d = UnpatchDialog { open: true, count: 1, kind: SelKind::Fixture };
    assert_eq!(d.prompt("fixture"), "Unpatch 1 fixture?");
    assert!(!d.step(DialogInput { enter: true, ..none }, true));
    assert!(d.open);
    assert!(!d.step(DialogInput { escape: true, ..none }, false));
    assert!(!d.open);
}
