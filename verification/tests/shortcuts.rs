//! The command registry, the keymaps and the user's overrides.

use glowstone::shortcuts::dispatch::{
    active, active_cell, capture_trigger, gather, modal_hint_keys, modal_key_label, poll,
    poll_modal, publish_active, ActiveContext, InputState, KeyEvent, ModalAction,
};
use glowstone::shortcuts::effective::{conflicting_ids, conflicts, effective_items, shortcut_for};
use glowstone::shortcuts::keymaps::{
    by_id, key_label, keymap_of, keymaps, Key, KeymapId, Modifiers, Mods, Platform, Trigger,
};
use glowstone::shortcuts::overrides::{
    AddedBind, KeymapOverrides, SerEvent, SerKeymapId, SerTrigger,
};
use glowstone::shortcuts::registry::{
    command, commands, palette_commands, Action, Axis, CameraView, Category, Dir, TransformKind,
};

const HERE: Platform = Platform::Other;

fn trigger(name: &'static str) -> Trigger {
    Trigger::key(Key::named(name))
}

fn ser(name: &'static str) -> SerTrigger {
    SerTrigger::from_trigger(&trigger(name))
}

fn added(keymap: KeymapId, key: &'static str, cmd: &str) -> AddedBind {
    AddedBind {
        keymap: SerKeymapId::from_id(keymap),
        trigger: ser(key),
        cmd: cmd.to_string(),
    }
}

/// The command that the keymap in effect binds `trig` to.
fn resolved_cmd(id: KeymapId, trig: &Trigger, ov: &KeymapOverrides) -> Option<&'static str> {
    effective_items(id, ov)
        .iter()
        .find(|k| k.trigger.key == trig.key && k.trigger.mods == trig.mods)
        .map(|k| k.cmd)
}

fn no_modifiers() -> Modifiers {
    Modifiers { command: false, shift: false, alt: false }
}

fn pressing(names: &[&'static str], modifiers: Modifiers) -> InputState {
    InputState {
        events: names
            .iter()
            .map(|n| KeyEvent { key: Key::named(n), pressed: true, modifiers })
            .collect(),
        modifiers,
        wants_keyboard: false,
    }
}

const FOCUSED: ActiveContext = ActiveContext { viewport_focused: true, transform_active: false };
const ELSEWHERE: ActiveContext = ActiveContext { viewport_focused: false, transform_active: false };

#[test]
fn key_label_smoke() {
    assert!(!key_label(&trigger("S").cmd(), HERE).is_empty());
    assert_eq!(key_label(&trigger("F"), HERE), "F");
    assert!(key_label(&trigger("F").shift(), HERE).contains("Shift"));
    assert_eq!(key_label(&trigger("Home"), HERE), "Home");
}

#[test]
fn key_labels_by_platform() {
    assert_eq!(key_label(&trigger("S").cmd().shift(), Platform::Other), "Ctrl+Shift+S");
    assert_eq!(key_label(&trigger("S").cmd(), Platform::Mac), "⌘S");
    assert_eq!(key_label(&trigger("S").cmd().shift(), Platform::Mac), "⌘Shift+S");
    let mut alt = trigger("D");
    alt.mods.alt = Some(true);
    assert_eq!(key_label(&alt, Platform::Mac), "⌥+D");
    assert_eq!(key_label(&alt, Platform::Other), "Alt+D");
    assert_eq!(key_label(&trigger("Left"), HERE), "←");
    assert_eq!(key_label(&trigger("1"), HERE), "Numpad 1");
    assert_eq!(key_label(&trigger("Escape"), HERE), "Esc");
}

#[test]
fn modal_hint_reads_live_keys() {
    let ov = KeymapOverrides::default();
    assert_eq!(modal_key_label(ModalAction::ConstrainX, &ov, HERE), "X");
    assert_eq!(modal_key_label(ModalAction::ConstrainY, &ov, HERE), "Y");
    assert_eq!(modal_key_label(ModalAction::ConstrainZ, &ov, HERE), "Z");
    assert_eq!(modal_key_label(ModalAction::Confirm, &ov, HERE), "Enter");
    assert_eq!(modal_key_label(ModalAction::Cancel, &ov, HERE), "Esc");
    let h = modal_hint_keys(&ov, HERE);
    assert!(h.contains("X/Y/Z lock"), "axis cluster present: {h}");
    assert!(h.contains("type number"));
    assert!(h.contains("Enter confirm") && h.contains("Esc cancel"));
}

#[test]
fn modal_hint_follows_a_rebind() {
    let mut ov = KeymapOverrides::default();
    ov.rebind.insert("transform.axis_x".to_string(), ser("J"));
    ov.disabled.insert("transform.axis_y".to_string());
    let z = SerTrigger::from_trigger(&trigger("K").cmd());
    ov.rebind.insert("transform.axis_z".to_string(), z);
    assert_eq!(modal_key_label(ModalAction::ConstrainX, &ov, HERE), "J");
    assert_eq!(modal_key_label(ModalAction::ConstrainY, &ov, HERE), "");
    assert_eq!(modal_key_label(ModalAction::ConstrainZ, &ov, HERE), "Ctrl+K");
    assert_eq!(
        modal_hint_keys(&ov, Platform::Mac),
        "J//⌘K lock · type number · Enter confirm · Esc cancel"
    );
}

#[test]
fn no_duplicate_binds() {
    for map in keymaps() {
        let items = &map.items;
        for (a_idx, a) in items.iter().enumerate() {
            for b in items.iter().skip(a_idx + 1) {
                let same = a.trigger.key == b.trigger.key && a.trigger.mods == b.trigger.mods;
                assert!(!same, "duplicate bind on key {:?} within one keymap", a.trigger.key);
            }
        }
    }
}

#[test]
fn viewport_s_masks_global_s() {
    let stack = gather(FOCUSED);
    assert_eq!(stack, vec![KeymapId::Viewport, KeymapId::Global], "viewport stacks first");
    let rows = by_id(stack[0]);
    let first_s =
        rows.iter().find(|k| k.trigger.key == Key::named("S") && k.trigger.mods == Mods::none());
    assert!(
        matches!(first_s.map(|k| k.action()), Some(Action::Transform(TransformKind::Scale))),
        "most-specific map's plain S must be Scale"
    );
    assert!(!stack.contains(&KeymapId::Modal));
}

#[test]
fn transform_suppresses_press_maps() {
    let cx = ActiveContext { viewport_focused: true, transform_active: true };
    assert!(gather(cx).is_empty());
}

#[test]
fn palette_lists_whole_registry_minus_viewport_modal() {
    let ids: Vec<&str> = palette_commands().iter().map(|c| c.id).collect();
    assert!(ids.contains(&"view.top"), "Top View is palette-runnable");
    assert!(ids.contains(&"view.frame_selection"), "Frame Selection is palette-runnable");
    assert!(ids.contains(&"select.all"), "Select All is palette-runnable");
    assert!(ids.contains(&"file.save"), "Save is palette-runnable");
    assert!(ids.contains(&"object.add"), "Add Object (catalog op) stays listed");
    assert!(ids.contains(&"object.delete"), "Delete (catalog op) stays listed");
    for id in [
        "transform.move", "transform.rotate", "transform.scale",
        "transform.axis_x", "transform.axis_y", "transform.axis_z",
    ] {
        assert!(!ids.contains(&id), "{id} (viewport-modal) excluded");
    }
    for id in [
        "view.camera", "kmi.duplicate", "kmi.duplicate_grab", "kmi.delete",
        "kmi.patch", "kmi.unpatch", "kmi.add_menu", "edit.redo_alias",
        "view.frame_all_alias",
    ] {
        assert!(!ids.contains(&id), "{id} (twin/alias/no-op) excluded from palette");
    }
    assert!(ids.contains(&"fixture.duplicate"), "Duplicate stays via its catalog dialog op");
    let mut seen: Vec<Action> = Vec::new();
    for c in palette_commands() {
        assert!(!seen.contains(&c.action), "duplicate palette row for the same action via {}", c.id);
        seen.push(c.action);
    }
    let ops = commands().iter().filter(|c| c.invoke.is_some()).count();
    assert!(palette_commands().len() > ops, "palette lists more than the {ops} catalog ops");
}

#[test]
fn shortcut_for_resolves_bound_keys() {
    let ov = KeymapOverrides::default();
    assert_eq!(
        shortcut_for("view.frame_selection", &ov, HERE),
        Some(key_label(&trigger("F"), HERE))
    );
    assert_eq!(shortcut_for("file.save", &ov, HERE), Some(key_label(&trigger("S").cmd(), HERE)));
    assert_eq!(shortcut_for("transform.move", &ov, HERE), Some(key_label(&trigger("G"), HERE)));
    assert_eq!(shortcut_for("object.add", &ov, HERE), None);
    assert_eq!(shortcut_for("fixture.duplicate", &ov, HERE), None);
}

#[test]
fn every_binding_resolves_to_a_command() {
    for map in keymaps() {
        for kmi in &map.items {
            assert!(
                command(kmi.cmd).is_some(),
                "keymap binding references unknown command id {:?}",
                kmi.cmd
            );
        }
    }
}

#[test]
fn every_key_of_the_keymaps_is_known() {
    for map in keymaps() {
        for kmi in &map.items {
            let key = Key::from_name(kmi.trigger.key.name);
            assert_eq!(key.map(|k| k.name), Some(kmi.trigger.key.name));
        }
    }
}

#[test]
fn command_ids_unique() {
    let all = commands();
    for (i, a) in all.iter().enumerate() {
        for b in all.iter().skip(i + 1) {
            assert_ne!(a.id, b.id, "duplicate command id {}", a.id);
        }
    }
}

#[test]
fn no_duplicate_triggers_across_a_keymap() {
    for map in keymaps() {
        for (i, a) in map.items.iter().enumerate() {
            for b in map.items.iter().skip(i + 1) {
                let same = a.trigger.key == b.trigger.key && a.trigger.mods == b.trigger.mods;
                assert!(!same, "duplicate trigger on {:?} in keymap {:?}", a.trigger.key, map.id);
            }
        }
    }
}

#[test]
fn prior_key_set_still_resolves_to_its_action() {
    let want: Vec<(KeymapId, Trigger, Action)> = vec![
        (KeymapId::Global, trigger("F"), Action::FrameSelection),
        (KeymapId::Global, trigger("F").shift(), Action::FrameAll),
        (KeymapId::Global, trigger("L"), Action::ToggleLabels),
        (KeymapId::Viewport, trigger("1"), Action::View(CameraView::Front)),
        (KeymapId::Viewport, trigger("1").cmd(), Action::View(CameraView::Back)),
        (KeymapId::Viewport, trigger("5"), Action::ToggleOrtho),
        (KeymapId::Viewport, trigger("Backtick"), Action::ViewPie),
        (KeymapId::Viewport, trigger("N"), Action::ToggleNPanel),
        (KeymapId::Viewport, trigger("T"), Action::ToggleTPanel),
        (KeymapId::Global, trigger("A"), Action::SelectAll),
        (KeymapId::Global, trigger("S"), Action::QuickSelect),
        (KeymapId::Global, trigger("R").shift(), Action::Replace),
        (KeymapId::Global, trigger("Escape"), Action::Deselect),
        (KeymapId::Global, trigger("Left"), Action::Nudge(Dir::XNeg, 100)),
        (KeymapId::Global, trigger("Left").shift(), Action::Nudge(Dir::XNeg, 1000)),
        (KeymapId::Global, trigger("PageUp"), Action::Nudge(Dir::YUp, 100)),
        (KeymapId::Viewport, trigger("G"), Action::Transform(TransformKind::Move)),
        (KeymapId::Viewport, trigger("R"), Action::Transform(TransformKind::Rotate)),
        (KeymapId::Viewport, trigger("S"), Action::Transform(TransformKind::Scale)),
        (KeymapId::Viewport, trigger("A").shift(), Action::AddMenu),
        (KeymapId::Viewport, trigger("D"), Action::Duplicate),
        (KeymapId::Viewport, trigger("D").shift(), Action::Duplicate),
        (KeymapId::Global, trigger("Delete"), Action::Delete),
        (KeymapId::Global, trigger("Backspace"), Action::Delete),
        (KeymapId::Global, trigger("P"), Action::Patch),
        (KeymapId::Global, trigger("U"), Action::Unpatch),
        (KeymapId::Global, trigger("Z").cmd(), Action::Undo),
        (KeymapId::Global, trigger("Z").cmd().shift(), Action::Redo),
        (KeymapId::Global, trigger("Y").cmd(), Action::Redo),
        (KeymapId::Global, trigger("F3"), Action::OperatorSearch),
        (KeymapId::Global, trigger("F9"), Action::AdjustLast),
        (KeymapId::Global, trigger("S").cmd(), Action::Save),
        (KeymapId::Global, trigger("S").cmd().shift(), Action::SaveAs),
        (KeymapId::Global, trigger("O").cmd(), Action::Open),
        (KeymapId::Global, trigger("N").cmd(), Action::New),
        (KeymapId::Global, trigger("Comma").cmd(), Action::Preferences),
        (KeymapId::Modal, trigger("X"), Action::AxisLock(Axis::X)),
        (KeymapId::Modal, trigger("Y"), Action::AxisLock(Axis::Y)),
        (KeymapId::Modal, trigger("Z"), Action::AxisLock(Axis::Z)),
    ];
    for (map_id, trig, action) in want {
        let rows = by_id(map_id);
        let found =
            rows.iter().find(|k| k.trigger.key == trig.key && k.trigger.mods == trig.mods);
        let got = found.map(|k| k.action());
        assert!(
            got == Some(action),
            "bind {:?} in {:?} must resolve to its prior Action (got {:?})",
            trig.key,
            map_id,
            got.is_some()
        );
    }
}

#[test]
fn empty_overrides_are_byte_identical_to_defaults() {
    let ov = KeymapOverrides::default();
    assert!(ov.is_empty());
    for id in [KeymapId::Global, KeymapId::Viewport, KeymapId::Modal] {
        let eff = effective_items(id, &ov);
        let base = by_id(id);
        assert_eq!(eff.len(), base.len());
        for (a, b) in eff.iter().zip(base.iter()) {
            assert_eq!(a.cmd, b.cmd);
            assert!(a.trigger.key == b.trigger.key && a.trigger.mods == b.trigger.mods);
        }
    }
}

#[test]
fn rebind_moves_the_command_to_the_new_key_and_frees_the_old() {
    let mut ov = KeymapOverrides::default();
    ov.rebind.insert("view.frame_selection".to_string(), ser("J"));
    assert_eq!(
        resolved_cmd(KeymapId::Global, &trigger("J"), &ov),
        Some("view.frame_selection")
    );
    assert_eq!(resolved_cmd(KeymapId::Global, &trigger("F"), &ov), None);
}

#[test]
fn disable_suppresses_the_default_bind() {
    let mut ov = KeymapOverrides::default();
    assert_eq!(
        resolved_cmd(KeymapId::Global, &trigger("A"), &KeymapOverrides::default()),
        Some("select.all")
    );
    ov.disabled.insert("select.all".to_string());
    assert_eq!(resolved_cmd(KeymapId::Global, &trigger("A"), &ov), None);
    assert_eq!(shortcut_for("select.all", &ov, HERE), None);
}

#[test]
fn rebind_wins_over_a_disable_for_the_same_id() {
    let mut ov = KeymapOverrides::default();
    ov.disabled.insert("select.all".to_string());
    ov.rebind.insert("select.all".to_string(), ser("Q"));
    assert_eq!(resolved_cmd(KeymapId::Global, &trigger("Q"), &ov), Some("select.all"));
    assert_eq!(
        shortcut_for("select.all", &ov, HERE),
        Some(key_label(&trigger("Q"), HERE))
    );
}

#[test]
fn added_bind_fires_an_extra_key() {
    let mut ov = KeymapOverrides::default();
    ov.added.push(added(KeymapId::Global, "J", "view.frame_all"));
    assert_eq!(resolved_cmd(KeymapId::Global, &trigger("J"), &ov), Some("view.frame_all"));
    assert_eq!(
        resolved_cmd(KeymapId::Global, &trigger("F").shift(), &ov),
        Some("view.frame_all")
    );
    let mut bad = KeymapOverrides::default();
    bad.added.push(added(KeymapId::Global, "J", "does.not.exist"));
    assert_eq!(resolved_cmd(KeymapId::Global, &trigger("J"), &bad), None);
}

fn event_name(e: SerEvent) -> &'static str {
    match e {
        SerEvent::Press => "Press",
        SerEvent::Drag => "Drag",
        SerEvent::Release => "Release",
        SerEvent::Click => "Click",
    }
}

fn event_named(name: &str) -> SerEvent {
    match name {
        "Press" => SerEvent::Press,
        "Drag" => SerEvent::Drag,
        "Release" => SerEvent::Release,
        "Click" => SerEvent::Click,
        other => panic!("no event {other}"),
    }
}

fn trigger_to_json(t: &SerTrigger) -> serde_json::Value {
    let mut map = serde_json::Map::new();
    map.insert("key".to_string(), serde_json::Value::from(t.key.as_str()));
    map.insert("command".to_string(), serde_json::Value::from(t.command));
    map.insert("shift".to_string(), serde_json::Value::from(t.shift));
    map.insert("alt".to_string(), serde_json::Value::from(t.alt));
    map.insert("event".to_string(), serde_json::Value::from(event_name(t.event)));
    serde_json::Value::Object(map)
}

fn trigger_from_json(v: &serde_json::Value) -> SerTrigger {
    SerTrigger {
        key: v["key"].as_str().unwrap().to_string(),
        command: v["command"].as_bool().unwrap(),
        shift: v["shift"].as_bool().unwrap(),
        alt: v["alt"].as_bool().unwrap(),
        event: event_named(v["event"].as_str().unwrap()),
    }
}

#[test]
fn ser_trigger_round_trips_through_json() {
    for t in [
        trigger("S").cmd().shift(),
        trigger("Left").shift(),
        trigger("F3"),
        trigger("Comma").cmd(),
    ] {
        let st = SerTrigger::from_trigger(&t);
        let json = serde_json::to_string(&trigger_to_json(&st)).unwrap();
        let value: serde_json::Value = serde_json::from_str(&json).unwrap();
        let back = trigger_from_json(&value);
        let rt = back.to_trigger().expect("known key round-trips");
        assert_eq!(rt.key, t.key);
        assert!(rt.mods == t.mods, "modifiers must round-trip");
        assert_eq!(rt.event, t.event);
    }
    let bad = SerTrigger {
        key: "NotAKey".to_string(),
        command: false,
        shift: false,
        alt: false,
        event: SerEvent::Press,
    };
    assert!(bad.to_trigger().is_none());
}

fn overrides_to_json(ov: &KeymapOverrides) -> serde_json::Value {
    let mut rebind = serde_json::Map::new();
    for r in ov.rebind.to_vec() {
        rebind.insert(r.id, trigger_to_json(&r.trigger));
    }
    let disabled: Vec<serde_json::Value> =
        ov.disabled.to_vec().into_iter().map(serde_json::Value::from).collect();
    let mut added = Vec::new();
    for a in &ov.added {
        let mut row = serde_json::Map::new();
        let keymap = match a.keymap {
            SerKeymapId::Global => "Global",
            SerKeymapId::Viewport => "Viewport",
            SerKeymapId::Modal => "Modal",
        };
        row.insert("keymap".to_string(), serde_json::Value::from(keymap));
        row.insert("trigger".to_string(), trigger_to_json(&a.trigger));
        row.insert("cmd".to_string(), serde_json::Value::from(a.cmd.as_str()));
        added.push(serde_json::Value::Object(row));
    }
    let mut all = serde_json::Map::new();
    all.insert("rebind".to_string(), serde_json::Value::Object(rebind));
    all.insert("disabled".to_string(), serde_json::Value::Array(disabled));
    all.insert("added".to_string(), serde_json::Value::Array(added));
    serde_json::Value::Object(all)
}

fn overrides_from_json(v: &serde_json::Value) -> KeymapOverrides {
    let mut ov = KeymapOverrides::default();
    if let Some(rebind) = v["rebind"].as_object() {
        for (id, t) in rebind {
            ov.rebind.insert(id.clone(), trigger_from_json(t));
        }
    }
    if let Some(disabled) = v["disabled"].as_array() {
        for id in disabled {
            ov.disabled.insert(id.as_str().unwrap().to_string());
        }
    }
    if let Some(rows) = v["added"].as_array() {
        for row in rows {
            ov.added.push(AddedBind {
                keymap: match row["keymap"].as_str().unwrap() {
                    "Global" => SerKeymapId::Global,
                    "Viewport" => SerKeymapId::Viewport,
                    "Modal" => SerKeymapId::Modal,
                    other => panic!("no keymap {other}"),
                },
                trigger: trigger_from_json(&row["trigger"]),
                cmd: row["cmd"].as_str().unwrap().to_string(),
            });
        }
    }
    ov
}

#[test]
fn overrides_round_trip_through_json() {
    let mut ov = KeymapOverrides::default();
    ov.rebind.insert("view.frame_selection".to_string(), ser("J"));
    ov.disabled.insert("select.all".to_string());
    ov.added.push(added(KeymapId::Viewport, "B", "view.toggle_n_panel"));
    let json = serde_json::to_string_pretty(&overrides_to_json(&ov)).unwrap();
    let value: serde_json::Value = serde_json::from_str(&json).unwrap();
    let back = overrides_from_json(&value);
    assert!(!back.is_empty());
    assert_eq!(
        resolved_cmd(KeymapId::Global, &trigger("J"), &back),
        Some("view.frame_selection")
    );
    assert_eq!(resolved_cmd(KeymapId::Global, &trigger("A"), &back), None);
    assert_eq!(
        resolved_cmd(KeymapId::Viewport, &trigger("B"), &back),
        Some("view.toggle_n_panel")
    );
    let nothing: serde_json::Value = serde_json::from_str("{}").unwrap();
    assert!(overrides_from_json(&nothing).is_empty());
}

#[test]
fn conflict_query_reports_effective_collisions() {
    assert!(conflicts(&KeymapOverrides::default(), HERE).is_empty());
    let mut ov = KeymapOverrides::default();
    ov.rebind.insert("view.frame_selection".to_string(), ser("A"));
    let c = conflicts(&ov, HERE);
    assert!(
        c.iter().any(|(id, _, a, b)| *id == KeymapId::Global
            && [a.as_str(), b.as_str()].contains(&"select.all")
            && [a.as_str(), b.as_str()].contains(&"view.frame_selection")),
        "expected a Global A collision, got {c:?}"
    );
    assert_eq!(c.len(), 1);
    assert_eq!(c[0].1, "A");
}

#[test]
fn one_command_on_one_key_twice_is_no_conflict() {
    let mut ov = KeymapOverrides::default();
    ov.rebind.insert("edit.operator_search".to_string(), ser("J"));
    let rows = effective_items(KeymapId::Global, &ov);
    assert_eq!(rows.iter().filter(|k| k.cmd == "edit.operator_search").count(), 2);
    assert!(conflicts(&ov, HERE).is_empty());
    assert!(!conflicting_ids(&ov).contains("edit.operator_search"));
}

#[test]
fn a_shortcut_is_shown_only_where_a_row_is_in_effect() {
    let mut ov = KeymapOverrides::default();
    ov.rebind.insert("object.add".to_string(), ser("J"));
    assert_eq!(shortcut_for("object.add", &ov, HERE), None);
    ov.added.push(added(KeymapId::Viewport, "K", "object.add"));
    assert_eq!(shortcut_for("object.add", &ov, HERE), Some("K".to_string()));
    ov.rebind.insert("select.all".to_string(), SerTrigger { key: "nope".to_string(), ..ser("A") });
    assert_eq!(shortcut_for("select.all", &ov, HERE), None);
    ov.added.push(added(KeymapId::Global, "U", "select.all"));
    assert_eq!(shortcut_for("select.all", &ov, HERE), Some("U".to_string()));
    ov.added.push(added(KeymapId::Global, "U", "no.such.command"));
    assert_eq!(shortcut_for("no.such.command", &ov, HERE), None);
}

#[test]
fn keymap_of_locates_a_commands_context() {
    assert_eq!(keymap_of("view.frame_selection"), Some(KeymapId::Global));
    assert_eq!(keymap_of("transform.move"), Some(KeymapId::Viewport));
    assert_eq!(keymap_of("transform.axis_x"), Some(KeymapId::Modal));
    assert_eq!(keymap_of("object.add"), None);
    assert_eq!(keymap_of("fixture.duplicate"), None);
}

#[test]
fn conflicting_ids_flags_both_sides_of_a_collision() {
    assert!(conflicting_ids(&KeymapOverrides::default()).is_empty());
    let mut ov = KeymapOverrides::default();
    ov.rebind.insert("view.frame_selection".to_string(), ser("A"));
    let ids = conflicting_ids(&ov);
    assert!(ids.contains("select.all"));
    assert!(ids.contains("view.frame_selection"));
    assert!(!ids.contains("view.frame_all"));
}

#[test]
fn reset_all_clears_every_override() {
    let mut ov = KeymapOverrides::default();
    ov.rebind.insert("select.all".to_string(), ser("Q"));
    ov.disabled.insert("view.frame_all".to_string());
    ov.added.push(added(KeymapId::Global, "J", "view.frame_all"));
    assert!(!ov.is_empty());
    ov.reset_all();
    assert!(ov.is_empty());
}

#[test]
fn reset_one_clears_added_binds_too() {
    let mut ov = KeymapOverrides::default();
    ov.added.push(added(KeymapId::Global, "J", "object.add"));
    ov.reset("object.add");
    assert!(ov.is_empty());
}

#[test]
fn set_disabled_toggles_suppression() {
    let mut ov = KeymapOverrides::default();
    ov.set_disabled("select.all", true);
    assert_eq!(resolved_cmd(KeymapId::Global, &trigger("A"), &ov), None);
    ov.set_disabled("select.all", false);
    assert_eq!(resolved_cmd(KeymapId::Global, &trigger("A"), &ov), Some("select.all"));
}

#[test]
fn reset_clears_rebind_and_disable() {
    let mut ov = KeymapOverrides::default();
    ov.rebind.insert("select.all".to_string(), ser("Q"));
    ov.disabled.insert("select.all".to_string());
    ov.reset("select.all");
    assert!(ov.is_empty());
    assert_eq!(resolved_cmd(KeymapId::Global, &trigger("A"), &ov), Some("select.all"));
}

#[test]
fn reset_keeps_the_other_commands() {
    let mut ov = KeymapOverrides::default();
    ov.rebind("select.all", &trigger("Q"));
    ov.disable("view.frame_all");
    ov.added.push(added(KeymapId::Global, "J", "object.add"));
    ov.reset("select.all");
    assert!(!ov.touches("select.all"));
    assert!(ov.touches("view.frame_all"));
    assert_eq!(resolved_cmd(KeymapId::Global, &trigger("J"), &ov), Some("object.add"));
}

#[test]
fn key_names_are_canonical() {
    assert_eq!(Key::from_name("ArrowLeft").map(|k| k.name), Some("Left"));
    assert_eq!(Key::from_name(",").map(|k| k.name), Some("Comma"));
    assert_eq!(Key::from_name("Escape").map(|k| k.name), Some("Escape"));
    assert!(Key::from_name("NotAKey").is_none());
}

#[test]
fn other_names_of_a_key_are_understood_in_overrides() {
    let mut ov = KeymapOverrides::default();
    let t = SerTrigger {
        key: "ArrowLeft".to_string(),
        command: false,
        shift: false,
        alt: false,
        event: SerEvent::Press,
    };
    ov.rebind.insert("view.frame_selection".to_string(), t);
    assert_eq!(shortcut_for("view.frame_selection", &ov, HERE), Some("←".to_string()));
}

#[test]
fn unknown_rebinds_leave_no_bind() {
    let mut ov = KeymapOverrides::default();
    let t = SerTrigger {
        key: "NotAKey".to_string(),
        command: false,
        shift: false,
        alt: false,
        event: SerEvent::Press,
    };
    ov.rebind.insert("select.all".to_string(), t);
    assert_eq!(resolved_cmd(KeymapId::Global, &trigger("A"), &ov), None);
}

#[test]
fn a_press_runs_the_most_specific_map() {
    let ov = KeymapOverrides::default();
    let input = pressing(&["S"], no_modifiers());
    assert_eq!(poll(&input, FOCUSED, &ov), vec![Action::Transform(TransformKind::Scale)]);
    assert_eq!(poll(&input, ELSEWHERE, &ov), vec![Action::QuickSelect]);
}

#[test]
fn nothing_runs_while_typing_or_transforming() {
    let ov = KeymapOverrides::default();
    let mut input = pressing(&["A"], no_modifiers());
    assert_eq!(poll(&input, ELSEWHERE, &ov), vec![Action::SelectAll]);
    let busy = ActiveContext { viewport_focused: true, transform_active: true };
    assert!(poll(&input, busy, &ov).is_empty());
    input.wants_keyboard = true;
    assert!(poll(&input, ELSEWHERE, &ov).is_empty());
}

#[test]
fn modifiers_tell_binds_apart() {
    let ov = KeymapOverrides::default();
    let save = pressing(&["S"], Modifiers { command: true, shift: false, alt: false });
    assert_eq!(poll(&save, ELSEWHERE, &ov), vec![Action::Save]);
    let save_as = pressing(&["S"], Modifiers { command: true, shift: true, alt: false });
    assert_eq!(poll(&save_as, ELSEWHERE, &ov), vec![Action::SaveAs]);
}

#[test]
fn overrides_reach_the_dispatch() {
    let mut ov = KeymapOverrides::default();
    ov.rebind("view.frame_selection", &trigger("J"));
    assert_eq!(
        poll(&pressing(&["J"], no_modifiers()), ELSEWHERE, &ov),
        vec![Action::FrameSelection]
    );
    assert!(poll(&pressing(&["F"], no_modifiers()), ELSEWHERE, &ov).is_empty());
}

#[test]
fn modal_keys() {
    let ov = KeymapOverrides::default();
    assert_eq!(
        poll_modal(&pressing(&["X"], no_modifiers()), &ov),
        vec![ModalAction::ConstrainX]
    );
    assert!(poll_modal(&pressing(&["Enter"], no_modifiers()), &ov).contains(&ModalAction::Confirm));
    assert!(poll_modal(&pressing(&["Escape"], no_modifiers()), &ov).contains(&ModalAction::Cancel));
    assert!(poll_modal(&pressing(&["Q"], no_modifiers()), &ov).is_empty());
}

#[test]
fn the_next_chord_is_captured() {
    let held = Modifiers { command: true, shift: false, alt: false };
    let t = capture_trigger(&pressing(&["K"], held)).expect("a key was pressed");
    assert_eq!(key_label(&t, HERE), "Ctrl+K");
    assert!(capture_trigger(&pressing(&[], held)).is_none());
}

#[test]
fn active_overrides_are_those_published() {
    let mut cell = active_cell();
    assert!(active(&cell).is_empty());
    let mut ov = KeymapOverrides::default();
    ov.disable("select.all");
    publish_active(&mut cell, &ov);
    assert!(active(&cell).touches("select.all"));
}

#[test]
fn categories_in_order() {
    assert_eq!(Category::ORDER.len(), 8);
    assert_eq!(Category::ORDER[0], Category::Navigation);
    assert_eq!(Category::App.title(), "APP");
}

#[test]
fn the_first_match_per_key_wins() {
    let mut ov = KeymapOverrides::default();
    ov.added.push(added(KeymapId::Global, "A", "view.frame_all"));
    assert_eq!(
        poll(&pressing(&["A"], no_modifiers()), ELSEWHERE, &ov),
        vec![Action::SelectAll]
    );
}
