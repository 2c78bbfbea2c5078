//! The pie menus.

use glowstone::pie::{
    apply_shading_choice, pie_step, settle_pie, shading_pie_choices, take_choice,
    view_pie_choices, PieItem, PieOutcome, PieState, ShadingChoice, ShadingSettings, ViewChoice,
    ViewportMode,
};
use glowstone::shortcuts::registry::CameraView;
use glowstone::theme::Icon;

#[test]
fn shading_pie_sectors_map_to_modes_and_toggles() {
    let choices = shading_pie_choices();
    let modes: Vec<ViewportMode> = choices
        .iter()
        .filter_map(|c| match c.value {
            ShadingChoice::Mode(m) => Some(m),
            _ => None,
        })
        .collect();
    assert_eq!(modes, ViewportMode::ALL.to_vec(), "all three modes, once each");
    assert!(choices.iter().any(|c| c.value == ShadingChoice::ToggleGrid), "Grid toggle present");
    assert!(choices.iter().any(|c| c.value == ShadingChoice::ToggleStats), "Stats toggle present");
    assert!(choices.iter().all(|c| !c.label.is_empty()), "every sector is labelled");

    let mut s = ShadingSettings { mode: ViewportMode::Beauty, show_grid: true, show_stats: false };
    apply_shading_choice(&mut s, ShadingChoice::Mode(ViewportMode::Wireframe));
    assert_eq!(s.mode, ViewportMode::Wireframe, "Mode sector switches display mode");

    let grid0 = s.show_grid;
    apply_shading_choice(&mut s, ShadingChoice::ToggleGrid);
    assert_ne!(s.show_grid, grid0, "Grid sector flips the grid flag");

    let stats0 = s.show_stats;
    apply_shading_choice(&mut s, ShadingChoice::ToggleStats);
    assert_ne!(s.show_stats, stats0, "Stats sector flips the stats overlay flag");
}

#[test]
fn shading_pie_choices_are_stable_order() {
    let choices = shading_pie_choices();
    assert_eq!(choices.len(), 5, "3 modes + Grid + Stats");
    assert_eq!(choices[0].value, ShadingChoice::Mode(ViewportMode::Beauty));
}

#[test]
fn the_view_pie_goes_round_from_the_top() {
    let values: Vec<ViewChoice> = view_pie_choices().into_iter().map(|c| c.value).collect();
    assert_eq!(
        values,
        vec![
            ViewChoice::View(CameraView::Top),
            ViewChoice::ToggleOrtho,
            ViewChoice::View(CameraView::Right),
            ViewChoice::View(CameraView::Back),
            ViewChoice::View(CameraView::Bottom),
            ViewChoice::FrameSelected,
            ViewChoice::View(CameraView::Left),
            ViewChoice::View(CameraView::Front),
        ]
    );
}

#[test]
fn a_released_pie_picks_its_sector() {
    assert_eq!(pie_step(true, 5, false, true, Some(2)), PieOutcome::Picked(2));
    assert_eq!(pie_step(true, 5, false, true, None), PieOutcome::Cancelled);
    assert_eq!(pie_step(true, 5, true, true, Some(2)), PieOutcome::Cancelled);
    assert_eq!(pie_step(true, 5, false, false, Some(2)), PieOutcome::StillOpen);
    assert_eq!(pie_step(false, 5, false, true, Some(2)), PieOutcome::Closed);
}

#[test]
fn a_settled_pie_is_closed() {
    let mut pie = PieState { open: false, center: 0 };
    pie.open_at(7);
    assert!(pie.open);
    assert_eq!(pie.center, 7);
    assert_eq!(settle_pie(&mut pie, PieOutcome::StillOpen), None);
    assert!(pie.open);
    assert_eq!(settle_pie(&mut pie, PieOutcome::Picked(1)), Some(1));
    assert!(!pie.open);
}

#[test]
fn the_picked_choice_is_taken() {
    assert_eq!(
        take_choice(shading_pie_choices(), Some(3)),
        Some(shading_pie_choices()[3].value)
    );
    assert_eq!(take_choice(shading_pie_choices(), None), None);
    let item = PieItem::new(Some(Icon::Camera), "Front");
    assert_eq!((item.icon, item.label.as_str()), (Some(Icon::Camera), "Front"));
    assert_eq!(ViewportMode::Unlit.label().is_empty(), false);
}
