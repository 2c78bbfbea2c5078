//! The toolbar, the transform options, the palette, and the trimming of text.

use glowstone::text::trim_text;
use glowstone::theme::{
    conflict_color, idle_color, ink, ok_color, warn_color, Icon, Palette, Rgba,
};
use glowstone::tools::{tools, ActiveTool, GizmoKind};
use glowstone::xform::{
    PivotMode, SnapMode, SnapPolicy, TransformOrientation, TransformPrefs,
};

const ACCENT: Rgba = Rgba { r: 10, g: 132, b: 255, a: 255 };

#[test]
fn every_tool_has_exactly_one_def() {
    for tool in ActiveTool::TOOLBAR {
        let n = tools().iter().filter(|d| d.tool == tool).count();
        assert_eq!(n, 1, "{tool:?} must have exactly one ToolDef row, found {n}");
    }
    assert_eq!(
        tools().len(),
        ActiveTool::TOOLBAR.len(),
        "TOOLS and the rail order must list the same tools"
    );
}

#[test]
fn toolbar_matches_table_order() {
    let table = tools();
    for (i, tool) in ActiveTool::TOOLBAR.iter().enumerate() {
        assert_eq!(*tool, table[i].tool, "rail order diverges from TOOLS at {i}");
    }
}

#[test]
fn tool_ids_unique() {
    let table = tools();
    for (i, a) in table.iter().enumerate() {
        for b in &table[i + 1..] {
            assert_ne!(a.id, b.id, "duplicate tool id {}", a.id);
        }
    }
}

#[test]
fn gizmo_tools_unchanged() {
    for tool in ActiveTool::TOOLBAR {
        let expected = matches!(tool, ActiveTool::Move | ActiveTool::Rotate | ActiveTool::Scale);
        assert_eq!(tool.shows_xform_gizmo(), expected, "{tool:?} gizmo gate changed");
    }
}

#[test]
fn all_tools_fall_back_to_click_select() {
    for tool in ActiveTool::TOOLBAR {
        assert_eq!(tool.fallback_op(), Some("select.replace"), "{tool:?} fallback changed");
    }
}

#[test]
fn tool_rows_describe_their_tool() {
    assert_eq!(ActiveTool::default(), ActiveTool::Select);
    let aim = ActiveTool::Aim.def();
    assert_eq!(aim.id, "tool.aim");
    assert_eq!(aim.gizmo, GizmoKind::NoGizmo);
    assert_eq!(ActiveTool::Aim.icon(), Icon::ToolAim);
    assert_eq!(ActiveTool::Aim.label(), aim.label);
    assert_eq!(ActiveTool::Aim.tooltip(), aim.tooltip);
}

#[test]
fn palette_status_matches_legacy_consts() {
    let p = Palette::build(false, ACCENT);
    assert_eq!(p.ok, ok_color());
    assert_eq!(p.warn, warn_color());
    assert_eq!(p.conflict, conflict_color());
    assert_eq!(p.idle, idle_color());
}

#[test]
fn palette_dark_light_and_ramp() {
    let dark = Palette::build(false, ACCENT);
    let light = Palette::build(true, ACCENT);
    assert_ne!(dark.canvas, light.canvas);
    let lum = |c: Rgba| c.r as u32 + c.g as u32 + c.b as u32;
    assert!(lum(dark.canvas) < lum(dark.surface));
    assert!(lum(dark.surface) < lum(dark.surface_hi));
}

#[test]
fn palette_accent_follows_pref() {
    let p = Palette::build(false, Rgba::rgb(255, 0, 0));
    assert_eq!(p.accent, Rgba::rgb(255, 0, 0));
}

#[test]
fn palette_ink_follows_the_theme() {
    for light in [false, true] {
        let p = Palette::build(light, ACCENT);
        let ink = ink(light);
        assert_eq!(p.ink, ink.primary);
        assert_eq!(p.ink_secondary, ink.secondary);
        assert_eq!(p.ink_tertiary, ink.tertiary);
        assert_eq!(p.ink_muted, ink.muted);
    }
    assert_ne!(ink(false), ink(true));
}

#[test]
fn only_individual_origins_are_individual() {
    for mode in PivotMode::ALL {
        assert_eq!(mode.is_individual(), mode == PivotMode::Individual);
        assert!(!mode.label().is_empty() && !mode.hint().is_empty());
    }
    for o in TransformOrientation::ALL {
        assert!(!o.label().is_empty() && !o.hint().is_empty());
    }
    for m in SnapMode::ALL {
        assert!(!m.label().is_empty() && !m.hint().is_empty());
    }
}

#[test]
fn ctrl_flips_snapping() {
    let off = SnapPolicy { on: false, mode: SnapMode::Increment };
    let on = SnapPolicy { on: true, mode: SnapMode::Increment };
    assert!(!off.engaged(false) && off.engaged(true));
    assert!(on.engaged(false) && !on.engaged(true));
}

#[test]
fn transform_options_at_the_start() {
    let prefs = TransformPrefs::default();
    assert_eq!(prefs.pivot, PivotMode::Median);
    assert_eq!(prefs.orientation, TransformOrientation::Global);
    assert!(!prefs.snap.on);
    assert_eq!(prefs.snap.mode, SnapMode::Increment);
}

#[test]
fn every_kind_of_white_space_is_trimmed() {
    assert_eq!(trim_text("  \t a b \n"), "a b");
    assert_eq!(trim_text("\u{a0}\u{1680}\u{2003}x\u{2028}\u{202f}\u{205f}\u{3000}"), "x");
    assert_eq!(trim_text("\u{85}\u{200b}x"), "\u{200b}x");
    for c in '\0'..=char::MAX {
        let gone = trim_text(&c.to_string()).is_empty();
        let n = c as u32;
        let listed = (9..=13).contains(&n)
            || (0x2000..=0x200a).contains(&n)
            || [0x20, 0x85, 0xa0, 0x1680, 0x2028, 0x2029, 0x202f, 0x205f, 0x3000].contains(&n);
        assert_eq!(gone, listed, "{n:x}");
    }
}
