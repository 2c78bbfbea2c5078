//! Picking, transforming and drawing over the viewport.

use glam::{Mat4, Vec3, Vec4};
use glowstone::scene::{
    Environment, Fixture, Geometry, ObjectRef, Pyro, Scene, Screen,
};
use glowstone::selection::{SelItem, SelectOp, Selection};
use glowstone::shortcuts::dispatch::{InputState, KeyEvent, ModalAction};
use glowstone::shortcuts::keymaps::{Key, Modifiers};
use glowstone::shortcuts::overrides::KeymapOverrides;
use glowstone::shortcuts::registry::{Axis, CameraView, TransformKind};
use glowstone::tools::ActiveTool;
use glowstone::viewport::duplicate::{kind_of, truncate_objects, ObjectKind};
use glowstone::viewport::frame::{
    AimState, CameraDrag, FrameInput, MeasureState, ViewportState,
};
use glowstone::viewport::num_input::{NumInput, NumKeys};
use glowstone::viewport::overlay::{
    count_noun, fixture_label, format_universes, fps_tier, help_text, hide_geometry, hide_pyro,
    hide_screens, menu_heading, menu_kind, pass_tier, select_all, selected_count, selection_label,
    shows_label, stats_lines, LabelSource, MenuKind, Tier,
};
use glowstone::viewport::picking::{
    click_op, click_select, marquee_hits, marquee_op, nearest_origin_screen, pick,
    secondary_select, select_same_type, world_distance, Hit, InsideFlags, NodeDistances, RayHits,
};
use glowstone::viewport::transform::{
    begin, obj_refs, pivot_source, targets_of, BasisSource, HandleSpec, ModalOutcome,
    ModalPointer, MovePath, OpStart, PivotSource, RotateAbout, SnapStep, TransformOp,
};
use glowstone::windows::preferences::LabelMode;
use glowstone::xform::{
    PivotMode, SnapMode, SnapPolicy, TransformOrientation, TransformPrefs,
};

fn fixture(id: u64, name: &str) -> Fixture {
    Fixture {
        id,
        name: name.to_string(),
        profile: "Spot".to_string(),
        maker: None,
        modes: Vec::new(),
        hidden: false,
        is_laser: false,
    }
}

/// One fixture inside a fog box.
fn demo() -> Scene {
    Scene {
        fixtures: vec![fixture(1, "Spot 1")],
        geometry: Vec::new(),
        screens: Vec::new(),
        environments: vec![Environment { id: 2, name: "Haze".to_string(), hidden: false }],
        pyro: Vec::new(),
    }
}

/// Two objects of each kind.
fn pairs() -> Scene {
    Scene {
        fixtures: vec![fixture(1, "a"), fixture(2, "b")],
        geometry: vec![
            Geometry { id: 3, name: "g".to_string(), kind: None, hidden: false },
            Geometry { id: 4, name: "h".to_string(), kind: None, hidden: false },
        ],
        screens: vec![screen(5), screen(6)],
        environments: vec![
            Environment { id: 7, name: "e".to_string(), hidden: false },
            Environment { id: 8, name: "f".to_string(), hidden: false },
        ],
        pyro: vec![
            Pyro { id: 9, name: "p".to_string(), hidden: false },
            Pyro { id: 10, name: "q".to_string(), hidden: false },
        ],
    }
}

fn screen(id: u64) -> Screen {
    Screen {
        id,
        name: "s".to_string(),
        width_px: 16,
        height_px: 9,
        content: "Black".to_string(),
        hidden: false,
    }
}

/// A distance as a number that orders as it does.
fn ordered(d: f32) -> u32 {
    d.to_bits()
}

fn ray_sphere(ro: Vec3, rd: Vec3, c: Vec3, r: f32) -> Option<f32> {
    let oc = ro - c;
    let b = oc.dot(rd);
    let disc = b * b - (oc.length_squared() - r * r);
    if disc < 0.0 {
        return None;
    }
    let near = -b - disc.sqrt();
    let far = -b + disc.sqrt();
    [near, far].into_iter().find(|t| *t > 0.0)
}

fn ray_aabb(ro: Vec3, rd: Vec3, lo: Vec3, hi: Vec3) -> Option<f32> {
    let inv = rd.recip();
    let a = (lo - ro) * inv;
    let b = (hi - ro) * inv;
    let enter = a.min(b).max_element();
    let leave = a.max(b).min_element();
    if leave < enter.max(0.0) {
        None
    } else {
        Some(enter.max(0.0))
    }
}

fn project(p: Vec3, vp: Mat4, w: f32, h: f32) -> Option<(f32, f32)> {
    let c: Vec4 = vp * p.extend(1.0);
    if c.w <= 0.0 {
        return None;
    }
    Some(((c.x / c.w * 0.5 + 0.5) * w, (0.5 - c.y / c.w * 0.5) * h))
}

fn camera(eye: Vec3, target: Vec3, aspect: f32) -> Mat4 {
    Mat4::perspective_rh(0.9, aspect, 0.1, 500.0) * Mat4::look_at_rh(eye, target, Vec3::Y)
}

#[test]
fn pick_prefers_fixture_over_fog_box() {
    let scene = demo();
    let f = Vec3::new(0.0, 4.0, 0.0);
    let ro = f + Vec3::new(0.0, 0.0, 6.0);
    let rd = (f - ro).normalize();
    let hits = RayHits {
        fixtures: vec![ray_sphere(ro, rd, f, 0.5).map(ordered)],
        screens: Vec::new(),
        pyro: Vec::new(),
        geometry: Vec::new(),
        environments: vec![
            ray_aabb(ro, rd, Vec3::splat(-20.0), Vec3::splat(20.0)).map(ordered),
        ],
    };
    assert!(hits.environments[0].unwrap() < hits.fixtures[0].unwrap());
    assert_eq!(pick(&scene, &hits), Some(Hit::Fixture(0)));
}

#[test]
fn marquee_selects_projected_in_rect() {
    let scene = demo();
    let vp = camera(Vec3::new(6.0, 6.0, 12.0), Vec3::new(0.0, 2.0, 0.0), 1000.0 / 800.0);
    let dot = project(Vec3::new(0.0, 4.0, 0.0), vp, 1000.0, 800.0)
        .expect("fixture projects in front of the camera");
    let inside = |x: f32, y: f32, w: f32, h: f32| InsideFlags {
        fixtures: vec![dot.0 >= x && dot.0 <= x + w && dot.1 >= y && dot.1 <= y + h],
        geometry: Vec::new(),
        screens: Vec::new(),
        pyro: Vec::new(),
    };

    let around = inside(dot.0 - 20.0, dot.1 - 20.0, 40.0, 40.0);
    let hits = marquee_hits(&scene, &around);
    assert!(hits.contains(&SelItem::Fixture(0)), "dot-in-rect → selected");

    let far = inside(dot.0 + 300.0, dot.1 + 300.0, 8.0, 8.0);
    let none = marquee_hits(&scene, &far);
    assert!(!none.contains(&SelItem::Fixture(0)), "off-dot rect → not selected");

    let mut hidden = demo();
    hidden.fixtures[0].hidden = true;
    assert!(
        marquee_hits(&hidden, &around).is_empty(),
        "hidden fixtures are not marquee-pickable"
    );
}

#[test]
fn vertex_snap_picks_nearest_other_origin() {
    let scene = Scene {
        fixtures: vec![fixture(1, "moved"), fixture(2, "target")],
        geometry: Vec::new(),
        screens: Vec::new(),
        environments: Vec::new(),
        pyro: Vec::new(),
    };
    let target = Vec3::new(4.0, 0.0, -2.0);
    let positions = [Vec3::ZERO, target];
    let vp = camera(target + Vec3::new(3.0, 8.0, 9.0), target, 1.0);
    let cursor = project(target, vp, 600.0, 600.0).expect("target on screen");
    let near = |at: (f32, f32)| NodeDistances {
        fixtures: positions
            .iter()
            .map(|p| {
                project(*p, vp, 600.0, 600.0)
                    .map(|s| ordered(((s.0 - at.0).powi(2) + (s.1 - at.1).powi(2)).sqrt()))
            })
            .collect(),
        geometry: Vec::new(),
        screens: Vec::new(),
    };
    let reach = ordered(18.0);
    let got =
        nearest_origin_screen(&scene, &near(cursor), &vec![0], reach).expect("a node in range");
    assert_eq!(got, ObjectRef::Fixture(1));

    let none = nearest_origin_screen(&scene, &near(cursor), &vec![0, 1], reach);
    assert!(none.is_none(), "expected no snap target, got {none:?}");

    let far = nearest_origin_screen(&scene, &near((cursor.0 + 300.0, cursor.1)), &vec![0], reach);
    assert!(far.is_none(), "cursor off all nodes should not snap, got {far:?}");
}

#[test]
fn equally_near_nodes_are_taken_in_order() {
    let mut scene = pairs();
    let near = NodeDistances {
        fixtures: vec![Some(7), Some(7)],
        geometry: vec![Some(5), Some(5)],
        screens: vec![Some(5), None],
    };
    assert_eq!(
        nearest_origin_screen(&scene, &near, &vec![], 10),
        Some(ObjectRef::Geometry(0))
    );
    scene.geometry[0].hidden = true;
    scene.geometry[1].hidden = true;
    assert_eq!(nearest_origin_screen(&scene, &near, &vec![], 10), Some(ObjectRef::Screen(0)));
    assert_eq!(nearest_origin_screen(&scene, &near, &vec![], 4), None);
}

#[test]
fn picking_goes_by_kind_and_distance() {
    let mut scene = pairs();
    let hits = RayHits {
        fixtures: vec![None, None],
        screens: vec![Some(9), Some(4)],
        pyro: vec![None, Some(6)],
        geometry: vec![Some(5), Some(2)],
        environments: vec![Some(1), None],
    };
    let first = pick(&scene, &hits);
    assert_eq!(world_distance(&scene, &hits, None).is_some(), true);
    scene.screens[1].hidden = true;
    scene.geometry[1].hidden = true;
    assert_ne!(pick(&scene, &hits), first);
    let nothing = RayHits {
        fixtures: vec![None, None],
        screens: vec![None, None],
        pyro: vec![None, None],
        geometry: vec![None, None],
        environments: vec![None, None],
    };
    assert_eq!(pick(&scene, &nothing), None);
    assert_eq!(world_distance(&scene, &nothing, Some(3)), Some(3));
    assert_eq!(world_distance(&scene, &nothing, None), None);
}

/// Where a ray meets fixtures, taken as spheres, or the ground.
fn world_point(positions: &[Vec3], ro: Vec3, rd: Vec3) -> Option<Vec3> {
    let mut scene = demo();
    scene.fixtures = positions.iter().map(|_| fixture(1, "Spot")).collect();
    scene.environments.clear();
    let hits = RayHits {
        fixtures: positions
            .iter()
            .map(|p| ray_sphere(ro, rd, *p, 0.5).map(ordered))
            .collect(),
        screens: Vec::new(),
        pyro: Vec::new(),
        geometry: Vec::new(),
        environments: Vec::new(),
    };
    let t = -ro.y / rd.y;
    let ground = if t > 0.0 { Some(ordered(t)) } else { None };
    world_distance(&scene, &hits, ground).map(|t| ro + rd * f32::from_bits(t))
}

#[test]
fn measure_point_falls_back_to_ground_plane() {
    let ro = Vec3::new(2.0, 10.0, 3.0);
    let rd = Vec3::new(0.0, -1.0, 0.0);
    let p = world_point(&[], ro, rd).expect("ground hit");
    assert!((p.y - 0.0).abs() < 1e-3, "expected y=0, got {}", p.y);
    assert!((p.x - 2.0).abs() < 1e-3 && (p.z - 3.0).abs() < 1e-3);
}

#[test]
fn measure_point_prefers_nearer_surface_over_ground() {
    let ro = Vec3::new(0.0, 10.0, 0.0);
    let rd = Vec3::new(0.0, -1.0, 0.0);
    let p = world_point(&[Vec3::new(0.0, 4.0, 0.0)], ro, rd).expect("hit");
    assert!(p.y > 3.0, "expected fixture hit near y=4.5, got {}", p.y);
}

#[test]
fn a_surface_below_the_ground_is_still_met() {
    let ro = Vec3::new(0.0, 10.0, 0.0);
    let rd = Vec3::new(0.0, -1.0, 0.0);
    let p = world_point(&[Vec3::new(0.0, -5.0, 0.0)], ro, rd).expect("hit");
    assert!((p - Vec3::new(0.0, -4.5, 0.0)).length() < 1e-3);
}

#[test]
fn modifiers_of_marquee_and_click() {
    assert_eq!(marquee_op(false, false), SelectOp::Replace);
    assert_eq!(marquee_op(false, true), SelectOp::Add);
    assert_eq!(marquee_op(true, false), SelectOp::Subtract);
    assert_eq!(click_op(false, false), SelectOp::Replace);
    assert_eq!(click_op(true, false), SelectOp::Toggle);
}

#[test]
fn clicks_select() {
    let mut sel = Selection::default();
    let mut anchor = None;
    click_select(&mut sel, &mut anchor, Some(Hit::Fixture(1)), true, false, false, 2);
    assert_eq!(sel.fixtures, vec![1]);
    assert_eq!(anchor, Some(1));
    click_select(&mut sel, &mut anchor, Some(Hit::Screen(0)), true, false, false, 2);
    assert!(sel.fixtures.is_empty());
    assert_eq!(sel.screens, vec![0]);
    click_select(&mut sel, &mut anchor, None, true, false, false, 2);
    assert!(sel.screens.is_empty());
    sel = Selection::fixture(0);
    click_select(&mut sel, &mut anchor, None, false, false, false, 2);
    assert_eq!(sel.fixtures, vec![0]);
    secondary_select(&mut sel, &mut anchor, Some(Hit::Geometry(1)));
    assert_eq!(sel.geometry, vec![1]);
}

#[test]
fn same_type_takes_the_profile() {
    let mut scene = pairs();
    scene.fixtures.push(fixture(11, "c"));
    scene.fixtures[1].profile = "Wash".to_string();
    let mut sel = Selection::fixture(2);
    select_same_type(&scene, &mut sel);
    assert_eq!(sel.fixtures, vec![0, 2]);
}

fn no_keys() -> NumKeys {
    NumKeys { text: Vec::new(), point: false, minus: false, backspace: false }
}

fn typing(text: &str) -> NumKeys {
    NumKeys { text: vec![text.to_string()], point: false, minus: false, backspace: false }
}

const IDLE: ModalPointer = ModalPointer {
    clicked: false,
    secondary_clicked: false,
    drag_stopped: false,
    primary_down: false,
};

fn grab(start: OpStart, scene: &Scene, sel: &Selection) -> TransformOp {
    begin(start, scene, sel, TransformPrefs::default()).expect("something is selected")
}

/// Bring the array of a duplication to the typed count: the spare copies go,
/// the missing ones are made, and each is placed.
fn update_dup_array(op: &mut TransformOp, scene: &mut Scene, at: &mut Vec<Vec3>, home: Vec3) {
    op.shrink_array(scene);
    at.truncate(scene.fixtures.len());
    let mut made = Vec::new();
    for source in op.sources_wanted() {
        let ObjectRef::Fixture(i) = source else { panic!("fixture") };
        scene.fixtures.push(fixture(100, "copy"));
        at.push(at[i]);
        made.push(ObjectRef::Fixture(scene.fixtures.len() - 1));
    }
    op.grow_array(&made);
    for p in op.placements() {
        let (ObjectRef::Fixture(t), ObjectRef::Fixture(b)) = (p.target, p.base) else {
            panic!("fixture")
        };
        at[t] = home + (at[b] - home) * p.steps as f32;
    }
}

#[test]
fn shift_d_array_is_live_and_reversible() {
    let mut scene = demo();
    let mut at = vec![Vec3::new(0.0, 4.0, 0.0)];
    scene.fixtures.push(fixture(50, "copy"));
    at.push(at[0]);
    let bi = 1;
    let home = at[bi];
    let n_before = scene.fixtures.len();
    let delta = Vec3::new(2.0, 0.0, 0.0);
    at[bi] = home + delta;

    let mut op = grab(OpStart::Duplicate, &scene, &Selection::fixture(bi));
    assert!(op.from_duplicate);
    assert_eq!(op.dup_base, vec![ObjectRef::Fixture(bi)]);
    op.num = NumInput { str: "3".to_string(), sign: false, active: true };

    update_dup_array(&mut op, &mut scene, &mut at, home);
    assert_eq!(op.dup_extra.len(), 2, "count 3 → 2 extra clones");
    assert_eq!(scene.fixtures.len(), n_before + 2, "extras pushed onto the scene");
    let ObjectRef::Fixture(e0) = op.dup_extra[0] else { panic!("fixture") };
    let ObjectRef::Fixture(e1) = op.dup_extra[1] else { panic!("fixture") };
    assert!((at[bi] - (home + delta)).length() < 1e-3);
    assert!((at[e0] - (home + delta * 2.0)).length() < 1e-3);
    assert!((at[e1] - (home + delta * 3.0)).length() < 1e-3);

    op.num = NumInput::default();
    update_dup_array(&mut op, &mut scene, &mut at, home);
    assert!(op.dup_extra.is_empty(), "count 1 → no extras");
    assert_eq!(scene.fixtures.len(), n_before, "extras removed from the scene");
}

#[test]
fn arrays_of_several_kinds_shrink_by_kind() {
    let mut scene = pairs();
    let mut sel = Selection::fixture(1);
    sel.geometry = vec![1];
    let mut op = grab(OpStart::Duplicate, &scene, &sel);
    op.num = NumInput { str: "2".to_string(), sign: false, active: true };
    assert_eq!(op.extras_wanted(), 2);
    assert_eq!(op.sources_wanted(), vec![ObjectRef::Fixture(1), ObjectRef::Geometry(1)]);
    scene.fixtures.push(fixture(20, "x"));
    scene.geometry.push(Geometry { id: 21, name: "y".to_string(), kind: None, hidden: false });
    op.grow_array(&vec![ObjectRef::Fixture(2), ObjectRef::Geometry(2)]);
    let placed = op.placements();
    assert_eq!(placed.len(), 2);
    assert_eq!((placed[1].target, placed[1].base), (ObjectRef::Geometry(2), ObjectRef::Geometry(1)));
    assert_eq!(placed[0].steps, 2);
    op.cancel_array(&mut scene);
    assert_eq!((scene.fixtures.len(), scene.geometry.len()), (2, 2));
    assert!(op.dup_extra.is_empty());
    assert_eq!(kind_of(ObjectRef::Pyro(3)), ObjectKind::Pyro);
    truncate_objects(&mut scene, ObjectRef::Pyro(0), 1);
    assert_eq!(scene.pyro.len(), 1);
}

fn as_f32(n: &NumInput) -> f32 {
    let d = n.value();
    let v = d.mantissa as f32 / 10f32.powi(d.places as i32);
    if d.negative {
        -v
    } else {
        v
    }
}

#[test]
fn numinput_value_parses() {
    let n = NumInput { str: "4.5".to_string(), sign: false, active: true };
    assert!((as_f32(&n) - 4.5).abs() < 1e-6);
    let n = NumInput { str: "4".to_string(), sign: true, active: true };
    assert!((as_f32(&n) + 4.0).abs() < 1e-6);
    assert_eq!(as_f32(&NumInput::default()), 0.0);
    assert_eq!(as_f32(&NumInput { str: ".".to_string(), sign: false, active: true }), 0.0);
}

#[test]
fn numinput_display_shows_sign() {
    assert_eq!(NumInput { str: "4.0".to_string(), sign: false, active: true }.display(), "4.0");
    assert_eq!(NumInput { str: "45".to_string(), sign: true, active: true }.display(), "-45");
    assert_eq!(NumInput { str: String::new(), sign: true, active: true }.display(), "-0");
}

#[test]
fn numbers_are_typed_and_erased() {
    let mut n = NumInput::default();
    n.edit(&typing("1x2"));
    assert_eq!((n.str.as_str(), n.active), ("12", true));
    n.edit(&NumKeys { point: true, ..typing("") });
    n.edit(&typing(".5"));
    assert_eq!(n.str, "12.5");
    n.edit(&NumKeys { minus: true, ..no_keys() });
    assert_eq!(n.display(), "-12.5");
    assert_eq!(n.count(), 1);
    n.edit(&NumKeys { minus: true, ..no_keys() });
    assert_eq!(n.count(), 13);
    for _ in 0..4 {
        n.edit(&NumKeys { backspace: true, ..no_keys() });
    }
    assert_eq!((n.str.as_str(), n.active), ("", false));
    n.edit(&typing("123456789012345678"));
    assert_eq!(n.str.len(), 16);
    assert_eq!(n.count(), 1000);
}

#[test]
fn a_transform_needs_a_target() {
    let scene = demo();
    let none = begin(
        OpStart::Modal(TransformKind::Move),
        &scene,
        &Selection::default(),
        TransformPrefs::default(),
    );
    assert!(none.is_none());
    let stale = begin(
        OpStart::Modal(TransformKind::Move),
        &scene,
        &Selection::fixture(7),
        TransformPrefs::default(),
    );
    assert!(stale.is_none());
    assert_eq!(targets_of(&scene, &Selection::fixture(0)).fixtures, vec![0]);
}

#[test]
fn axis_keys_lock_and_release() {
    let scene = demo();
    let mut op = grab(OpStart::Modal(TransformKind::Move), &scene, &Selection::fixture(0));
    assert_eq!(op.move_path(true), MovePath::Free(None));
    let x = vec![ModalAction::ConstrainX];
    assert_eq!(op.modal_step(&no_keys(), &x, IDLE, true), ModalOutcome::Running);
    assert_eq!(op.active_axis(), Some(Axis::X));
    op.modal_step(&no_keys(), &x, IDLE, true);
    assert_eq!(op.active_axis(), None);
}

#[test]
fn a_typed_number_overrides_the_mouse() {
    let scene = demo();
    let mut op = grab(OpStart::Modal(TransformKind::Move), &scene, &Selection::fixture(0));
    op.modal_step(&typing("4"), &vec![ModalAction::ConstrainZ], IDLE, true);
    assert!(op.number_rules());
    assert_eq!(op.move_path(true), MovePath::Typed(Axis::Z));
    let mut free = grab(OpStart::Modal(TransformKind::Move), &scene, &Selection::fixture(0));
    free.modal_step(&typing("2.5"), &vec![], IDLE, true);
    assert_eq!(free.move_path(true), MovePath::Typed(Axis::X));
}

#[test]
fn how_a_transform_ends() {
    let scene = demo();
    let fresh = || grab(OpStart::Modal(TransformKind::Rotate), &scene, &Selection::fixture(0));
    let click = ModalPointer { clicked: true, ..IDLE };
    assert_eq!(fresh().modal_step(&no_keys(), &vec![], click, true), ModalOutcome::Confirmed);
    let right = ModalPointer { secondary_clicked: true, ..IDLE };
    assert_eq!(fresh().modal_step(&no_keys(), &vec![], right, true), ModalOutcome::Cancelled);
    assert_eq!(
        fresh().modal_step(&no_keys(), &vec![ModalAction::Confirm], IDLE, true),
        ModalOutcome::Confirmed
    );
    assert_eq!(
        fresh().modal_step(&no_keys(), &vec![ModalAction::Cancel], IDLE, true),
        ModalOutcome::Cancelled
    );
    assert_ne!(fresh().modal_step(&no_keys(), &vec![], IDLE, false), ModalOutcome::Running);
}

#[test]
fn gizmo_handles_choose_the_path() {
    let scene = demo();
    let handle = |axis, plane_normal, view| {
        grab(
            OpStart::Gizmo(HandleSpec { kind: TransformKind::Move, axis, plane_normal, view }),
            &scene,
            &Selection::fixture(0),
        )
    };
    assert_eq!(handle(Some(Axis::Y), None, false).move_path(true), MovePath::AlongRay(Axis::Y));
    assert_eq!(handle(None, Some(Axis::Z), false).move_path(true), MovePath::Plane(Axis::Z));
    assert_eq!(handle(None, None, true).move_path(true), MovePath::ViewPlane);
}

#[test]
fn snapping_goes_by_mode() {
    let scene = demo();
    let sel = Selection::fixture(0);
    let with = |mode| {
        let prefs = TransformPrefs {
            snap: SnapPolicy { on: true, mode },
            ..TransformPrefs::default()
        };
        begin(OpStart::Modal(TransformKind::Move), &scene, &sel, prefs).unwrap()
    };
    assert_eq!(with(SnapMode::Vertex).snap_step(true, true, false), SnapStep::ToNode);
    assert_eq!(with(SnapMode::Surface).snap_step(true, false, true), SnapStep::ToSurface);
    assert_eq!(with(SnapMode::Increment).snap_step(true, true, true), SnapStep::PerComponent);
    assert_eq!(with(SnapMode::Increment).snap_step(false, true, true), SnapStep::Free);
    assert_eq!(
        with(SnapMode::Increment).snap_preview_object(true),
        Some(ObjectRef::Fixture(0))
    );
    assert_eq!(with(SnapMode::Increment).snap_preview_object(false), None);
}

#[test]
fn orientation_and_pivot() {
    let scene = demo();
    let sel = Selection::fixture(0);
    let with = |orientation| {
        let prefs = TransformPrefs { orientation, ..TransformPrefs::default() };
        begin(OpStart::Modal(TransformKind::Rotate), &scene, &sel, prefs).unwrap()
    };
    assert_eq!(with(TransformOrientation::Global).basis_source(), BasisSource::World);
    assert_eq!(with(TransformOrientation::View).basis_source(), BasisSource::Camera);
    assert_eq!(
        with(TransformOrientation::Local).basis_source(),
        BasisSource::Object(ObjectRef::Fixture(0))
    );
    assert_eq!(
        with(TransformOrientation::Global).rotate_about(),
        RotateAbout::Axis(Axis::Y)
    );
    let objs = obj_refs(&vec![3], &vec![1], &vec![], &vec![2], &vec![0]);
    assert_eq!(
        objs,
        vec![
            ObjectRef::Fixture(3),
            ObjectRef::Geometry(1),
            ObjectRef::Pyro(2),
            ObjectRef::Environment(0)
        ]
    );
    assert_eq!(pivot_source(PivotMode::Cursor3d, &objs), PivotSource::Cursor);
    assert_eq!(
        pivot_source(PivotMode::Active, &objs),
        PivotSource::Object(ObjectRef::Fixture(3))
    );
    assert_eq!(pivot_source(PivotMode::Median, &objs), PivotSource::Centroid);
}

#[test]
fn stats_lines_counts_and_pluralise() {
    let lines = stats_lines(1, 3, 0, 2, 4);
    assert_eq!(
        lines,
        vec![
            "1 fixture".to_string(),
            "3 objects".to_string(),
            "2 environments".to_string(),
            "4 selected".to_string(),
        ]
    );
}

#[test]
fn stats_lines_empty_scene_is_just_selected() {
    assert_eq!(stats_lines(0, 0, 0, 0, 0), vec!["0 selected".to_string()]);
}

#[test]
fn stats_lines_singular_order() {
    assert_eq!(
        stats_lines(1, 1, 1, 1, 1),
        vec![
            "1 fixture".to_string(),
            "1 object".to_string(),
            "1 screen".to_string(),
            "1 environment".to_string(),
            "1 selected".to_string(),
        ]
    );
}

#[test]
fn overlay_texts() {
    assert_eq!(count_noun(1, "row", "rows"), "1 row");
    assert_eq!(count_noun(12, "row", "rows"), "12 rows");
    let mut sel = Selection::fixture(0);
    assert_eq!(selection_label(&demo(), &sel), Some("Spot 1".to_string()));
    sel.fixtures = vec![0, 1];
    assert_eq!(selected_count(&sel), 2);
    assert_eq!(selection_label(&demo(), &Selection::default()), None);
    assert_eq!(format_universes(&vec![1, 2, 30]), "1,2,30");
    assert!(!help_text(ActiveTool::Measure).is_empty());
    assert!(shows_label(true, true, true) && !shows_label(true, true, false));
    assert!(!shows_label(false, false, true));
}

#[test]
fn labels_by_mode() {
    let f = LabelSource {
        name: "Spot".to_string(),
        fixture_id: Some("101".to_string()),
        address: Some((2, 17)),
    };
    assert_eq!(fixture_label(&f, LabelMode::Name), "Spot");
    assert_eq!(fixture_label(&f, LabelMode::FixtureId), "101");
    assert_eq!(fixture_label(&f, LabelMode::Address), "2.017");
    let plain = LabelSource { name: "Spot".to_string(), fixture_id: None, address: None };
    assert_eq!(fixture_label(&plain, LabelMode::FixtureId), "Spot");
}

#[test]
fn tiers() {
    assert_eq!(fps_tier(60), Tier::Good);
    assert_eq!(fps_tier(0), Tier::Conflict);
    assert_eq!(pass_tier(2), Tier::Good);
    assert_eq!(pass_tier(3), Tier::Warn);
    assert_eq!(pass_tier(8), Tier::Conflict);
}

#[test]
fn menus_follow_the_selection() {
    assert_eq!(menu_kind(&Selection::default()), MenuKind::Empty);
    assert_eq!(menu_kind(&Selection::fixture(0)), MenuKind::Fixtures);
    assert_eq!(menu_kind(&Selection::geometry(0)), MenuKind::Objects);
    assert_eq!(menu_kind(&Selection::screen(0)), MenuKind::Screens);
    assert_eq!(menu_kind(&Selection::pyro(0)), MenuKind::Pyro);
    assert!(menu_heading(&Selection::fixture(0)).contains('1'));
}

#[test]
fn menu_actions() {
    let mut scene = pairs();
    hide_geometry(&mut scene, &Selection::geometry(1));
    assert_eq!((scene.geometry[0].hidden, scene.geometry[1].hidden), (false, true));
    hide_screens(&mut scene, &Selection::screen(0));
    assert_eq!((scene.screens[0].hidden, scene.screens[1].hidden), (true, false));
    hide_pyro(&mut scene, &Selection::pyro(1));
    assert_eq!((scene.pyro[0].hidden, scene.pyro[1].hidden), (false, true));
    let mut sel = Selection::default();
    select_all(&scene, &mut sel);
    assert_eq!(sel.fixtures, vec![0, 1]);
}

fn state() -> ViewportState<i32, i32> {
    ViewportState {
        focused: true,
        selection: Selection::fixture(0),
        anchor: None,
        transform: None,
        measure: MeasureState { a: None, b: None },
        aim: AimState { target: None },
        cursor_3d: 0,
        cursor_3d_set: false,
        box_anchor: None,
        duplicate: None,
        add_requested: false,
    }
}

fn still(tool: ActiveTool) -> FrameInput<i32, i32> {
    FrameInput {
        tool,
        prefs: TransformPrefs::default(),
        keys: InputState {
            events: Vec::new(),
            modifiers: Modifiers { command: false, shift: false, alt: false },
            wants_keyboard: false,
        },
        num_keys: no_keys(),
        pressed_inside: None,
        has_pointer: true,
        dup_grab: false,
        handle: None,
        clicked: false,
        secondary_clicked: false,
        click_placed: true,
        dragged: false,
        drag_started: false,
        drag_stopped: false,
        primary_down: false,
        contains_pointer: true,
        scrolled: false,
        shift: false,
        ctrl: false,
        click_world: None,
        pointer_world: None,
        cursor_place: None,
        origin: 0,
        click_hit: None,
        secondary_hit: None,
        empty_press: None,
        has_press: false,
        marquee_large: false,
        marquee: InsideFlags {
            fixtures: vec![false, false],
            geometry: vec![false, false],
            screens: vec![false, false],
            pyro: vec![false, false],
        },
        show_gizmos: true,
        ball: None,
        text_focus: false,
        enter: false,
    }
}

fn run(st: &mut ViewportState<i32, i32>, input: &FrameInput<i32, i32>, scene: &mut Scene) -> glowstone::viewport::frame::FramePlan<i32> {
    let ov = KeymapOverrides::default();
    let was_focused = st.focused;
    let mut plan = st.begin_frame(input, scene, &ov);
    st.settle(&mut plan, scene);
    st.end_frame(&mut plan, input, scene, was_focused, &ov);
    plan
}

#[test]
fn a_click_in_the_viewport_selects() {
    let mut scene = pairs();
    let mut st = state();
    let mut input = still(ActiveTool::Select);
    input.clicked = true;
    input.pressed_inside = Some(true);
    input.click_hit = Some(Hit::Fixture(1));
    run(&mut st, &input, &mut scene);
    assert_eq!(st.selection.fixtures, vec![1]);
    assert!(st.focused);
}

#[test]
fn a_click_without_a_place_does_nothing() {
    let mut scene = pairs();
    let mut st = state();
    st.focused = true;
    st.anchor = Some(0);
    let mut input = still(ActiveTool::Select);
    input.clicked = true;
    input.click_placed = false;
    let plan = run(&mut st, &input, &mut scene);
    assert!(!plan.consumed && plan.menu);
    assert_eq!((st.selection.fixtures.as_slice(), st.anchor), (&[0][..], Some(0)));

    input.tool = ActiveTool::Measure;
    let plan = run(&mut st, &input, &mut scene);
    assert!(!plan.consumed);
    assert_eq!(st.selection.fixtures, vec![0]);

    let mut place = still(ActiveTool::Select);
    place.secondary_clicked = true;
    place.shift = true;
    place.click_placed = false;
    let plan = run(&mut st, &place, &mut scene);
    assert!(!plan.consumed && plan.menu && !st.cursor_3d_set);

    let modifiers = Modifiers { command: false, shift: false, alt: false };
    let mut grab = still(ActiveTool::Select);
    grab.keys.events = vec![KeyEvent { key: Key::named("G"), pressed: true, modifiers }];
    run(&mut st, &grab, &mut scene);
    input.tool = ActiveTool::Select;
    let plan = run(&mut st, &input, &mut scene);
    assert_eq!(plan.outcome, Some(ModalOutcome::Confirmed));
}

#[test]
fn measuring_keeps_the_selection() {
    let mut scene = pairs();
    let mut st = state();
    let mut input = still(ActiveTool::Measure);
    input.clicked = true;
    input.pressed_inside = Some(true);
    input.click_hit = Some(Hit::Fixture(1));
    input.click_world = Some(5);
    let plan = run(&mut st, &input, &mut scene);
    assert!(plan.consumed);
    assert_eq!(st.selection.fixtures, vec![0]);
    assert_eq!(st.measure.a, Some(5));
    input.click_world = Some(8);
    run(&mut st, &input, &mut scene);
    assert_eq!((st.measure.a, st.measure.b), (Some(5), Some(8)));
    run(&mut st, &input, &mut scene);
    assert_eq!((st.measure.a, st.measure.b), (Some(8), None));
    run(&mut st, &still(ActiveTool::Select), &mut scene);
    assert_eq!((st.measure.a, st.measure.b), (None, None));
}

#[test]
fn a_grab_runs_until_it_is_confirmed() {
    let mut scene = pairs();
    let mut st = state();
    let mut input = still(ActiveTool::Select);
    let modifiers = Modifiers { command: false, shift: false, alt: false };
    input.keys.events = vec![KeyEvent { key: Key::named("G"), pressed: true, modifiers }];
    let plan = run(&mut st, &input, &mut scene);
    assert!(plan.started);
    assert!(st.transform.is_some());
    assert!(st.gizmo_shown(ActiveTool::Move) == false);
    let mut click = still(ActiveTool::Select);
    click.clicked = true;
    click.pressed_inside = Some(true);
    click.click_hit = Some(Hit::Fixture(1));
    let plan = run(&mut st, &click, &mut scene);
    assert_eq!(plan.outcome, Some(ModalOutcome::Confirmed));
    assert!(plan.finished && plan.consumed);
    assert!(st.transform.is_none());
    assert_eq!(st.selection.fixtures, vec![0]);
}

#[test]
fn navigation_and_the_3d_cursor() {
    let mut scene = pairs();
    let mut st = state();
    let mut input = still(ActiveTool::Select);
    input.clicked = true;
    input.pressed_inside = Some(true);
    input.ball = Some(CameraView::Top);
    let plan = run(&mut st, &input, &mut scene);
    assert_eq!(plan.set_view, Some(CameraView::Top));
    assert_eq!(st.selection.fixtures, vec![0]);

    let mut place = still(ActiveTool::Select);
    place.secondary_clicked = true;
    place.pressed_inside = Some(true);
    place.shift = true;
    place.cursor_place = Some(42);
    run(&mut st, &place, &mut scene);
    assert_eq!((st.cursor_3d, st.cursor_3d_set), (42, true));
}

#[test]
fn shift_pans() {
    let mut scene = pairs();
    let mut st = state();
    let mut input = still(ActiveTool::Select);
    input.dragged = true;
    input.has_press = true;
    input.shift = true;
    let plan = run(&mut st, &input, &mut scene);
    assert!(plan.camera != Some(CameraDrag::Orbit));
}
