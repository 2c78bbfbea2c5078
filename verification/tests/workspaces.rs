//! Named workspaces.

use glowstone::shortcuts::registry::{command, Action};
use glowstone::tools::ActiveTool;
use glowstone::workspaces::{
    Docks, Overlays, Preset, Side, Tab, Workspace, Workspaces, SLOT_CAP,
};

fn docks() -> Docks<&'static str> {
    Docks { design: "d", patch: "p", focus: "f", visualise: "v" }
}

fn fresh() -> Workspaces<&'static str> {
    Workspaces::fresh(docks())
}

fn names<D>(ws: &Workspaces<D>) -> Vec<&str> {
    ws.items.iter().map(|w| w.name.as_str()).collect()
}

#[test]
fn builtins_present_when_file_missing() {
    let ws = Workspaces::load(None, docks());
    assert_eq!(names(&ws), ["Design", "Patch", "Focus", "Visualise"]);
    assert!(ws.items.iter().all(|w| w.builtin), "all four are built-in");
    let focus = ws.items.iter().find(|w| w.name == "Focus").unwrap();
    assert_eq!(focus.default_tool, ActiveTool::Aim);
    assert_eq!(focus.dock, "f");
    assert_eq!(ws.active, 0);
}

#[test]
fn round_trips_through_json() {
    let mut ws = fresh();
    let overlays = Workspaces::<&str>::capture_overlays(false, true, false, true);
    assert_eq!(overlays, Overlays { labels: false, stats: true, grid: false, gizmos: true });
    let idx = ws.save_current("My Focus", "mine", ActiveTool::Rotate, overlays);
    assert_eq!(idx, 4);
    assert_eq!(ws.active, 4);

    let mut rows = Vec::new();
    for w in &ws.items {
        let mut row = serde_json::Map::new();
        row.insert("name".to_string(), serde_json::Value::from(w.name.as_str()));
        row.insert("dock".to_string(), serde_json::Value::from(w.dock));
        row.insert("default_tool".to_string(), serde_json::Value::from(w.default_tool.def().id));
        row.insert("labels".to_string(), serde_json::Value::from(w.overlays.labels));
        row.insert("stats".to_string(), serde_json::Value::from(w.overlays.stats));
        row.insert("grid".to_string(), serde_json::Value::from(w.overlays.grid));
        row.insert("gizmos".to_string(), serde_json::Value::from(w.overlays.gizmos));
        row.insert("builtin".to_string(), serde_json::Value::from(w.builtin));
        rows.push(serde_json::Value::Object(row));
    }
    let text = serde_json::to_string(&serde_json::Value::Array(rows)).unwrap();
    let value: serde_json::Value = serde_json::from_str(&text).unwrap();
    let back: Workspaces<String> = Workspaces {
        items: value
            .as_array()
            .unwrap()
            .iter()
            .map(|row| Workspace {
                name: row["name"].as_str().unwrap().to_string(),
                dock: row["dock"].as_str().unwrap().to_string(),
                default_tool: *ActiveTool::TOOLBAR
                    .iter()
                    .find(|t| t.def().id == row["default_tool"].as_str().unwrap())
                    .unwrap(),
                overlays: Overlays {
                    labels: row["labels"].as_bool().unwrap(),
                    stats: row["stats"].as_bool().unwrap(),
                    grid: row["grid"].as_bool().unwrap(),
                    gizmos: row["gizmos"].as_bool().unwrap(),
                },
                builtin: row["builtin"].as_bool().unwrap(),
            })
            .collect(),
        active: ws.active,
    };
    assert_eq!(back.items.len(), 5);
    assert_eq!(back.active, 4);
    let saved = &back.items[4];
    assert_eq!(saved.name, "My Focus");
    assert_eq!(saved.default_tool, ActiveTool::Rotate);
    assert_eq!(saved.overlays, overlays);
    assert!(!saved.builtin);
    assert_eq!(saved.dock, ws.items[4].dock);
}

#[test]
fn save_overwrites_same_name() {
    let mut ws = fresh();
    let n0 = ws.items.len();
    let ov = Overlays { labels: true, stats: true, grid: true, gizmos: false };
    let idx = ws.save_current("Design", "v", ActiveTool::Scale, ov);
    assert_eq!(idx, 0, "overwrites the existing Design slot");
    assert_eq!(ws.items.len(), n0, "no new row");
    assert_eq!(ws.items[0].default_tool, ActiveTool::Scale);
    assert!(ws.items[0].builtin, "overwriting a built-in slot keeps it built-in");
    assert_eq!(ws.items[0].dock, "v");
    assert_eq!(ws.active().name, "Design");
}

#[test]
fn delete_guards_builtins_and_clamps_active() {
    let mut ws = fresh();
    let ov = Overlays { labels: true, stats: false, grid: true, gizmos: true };
    ws.save_current("Mine", "f", ActiveTool::Move, ov);
    assert_eq!(ws.active, 4);
    assert!(!ws.delete(0));
    assert_eq!(ws.items.len(), 5);
    assert!(ws.delete(4));
    assert_eq!(ws.items.len(), 4);
    assert!(ws.active < ws.items.len());
    assert!(!ws.delete(99));
}

#[test]
fn slot_commands_cover_cap() {
    for n in 1..=SLOT_CAP {
        let id = format!("window.workspace_{n}");
        let cmd = command(&id).unwrap_or_else(|| panic!("missing command {id}"));
        assert!(
            cmd.action == Action::ActivateWorkspace(n - 1),
            "{id} should activate workspace index {}",
            n - 1
        );
    }
}

#[test]
fn load_backfills_missing_builtins() {
    let mut ws = fresh();
    ws.items.retain(|w| w.name != "Focus");
    assert!(!ws.items.iter().any(|w| w.name == "Focus"));
    ws.ensure_builtins(docks());
    assert!(ws.items.iter().any(|w| w.name == "Focus"), "Focus backfilled");
    assert_eq!(ws.items.len(), 4);
}

#[test]
fn loading_opens_the_first_workspace() {
    let mut stored = fresh();
    let ov = Overlays { labels: true, stats: false, grid: true, gizmos: true };
    stored.save_current("Mine", "m", ActiveTool::Move, ov);
    let ws = Workspaces::load(Some(stored), docks());
    assert_eq!(ws.active, 0);
    assert_eq!(names(&ws), ["Design", "Patch", "Focus", "Visualise", "Mine"]);
}

#[test]
fn a_complete_set_is_kept() {
    let mut ws = fresh();
    ws.items[1].dock = "changed";
    ws.ensure_builtins(docks());
    assert_eq!(names(&ws), ["Design", "Patch", "Focus", "Visualise"]);
    assert_eq!(ws.items[1].dock, "changed");
}

#[test]
fn activating_past_the_end_takes_the_last() {
    let mut ws = fresh();
    ws.set_active(2);
    assert_eq!(ws.active, 2);
    ws.set_active(7);
    assert_eq!(ws.active, 3);
    assert_eq!(names(&ws), ["Design", "Patch", "Focus", "Visualise"]);
}

#[test]
fn builtins_are_put_back_at_the_front() {
    let mut ws = fresh();
    let ov = Overlays { labels: true, stats: false, grid: true, gizmos: true };
    ws.save_current("Mine", "m", ActiveTool::Move, ov);
    ws.items.retain(|w| w.name == "Mine" || w.name == "Patch");
    ws.items.swap(0, 1);
    ws.items[1].dock = "changed";
    assert_eq!(names(&ws), ["Mine", "Patch"]);
    ws.ensure_builtins(docks());
    assert_eq!(names(&ws), ["Design", "Patch", "Focus", "Visualise", "Mine"]);
    assert_eq!(ws.items[1].dock, "changed");
    assert_eq!(ws.items[4].dock, "m");
}

#[test]
fn presets_lay_out_their_panels() {
    for p in Preset::ALL {
        assert!(!p.name().is_empty());
    }
    assert_eq!(Preset::Focus.tool(), ActiveTool::Aim);
    let design = Preset::Design.layout();
    assert!(design.iter().any(|s| s.tabs.contains(&Tab::Inspector)));
    assert!(design.iter().any(|s| matches!(s.side, Side::Left | Side::Right)));
    assert!(design.iter().all(|s| s.thousandths < 1000));
}
