//! The project file, the recent list, the share window, rendering and the
//! start screen.

use glowstone::project::{
    body_of, decode_message, frame, intern_geometry_resources, list_or_nothing, prune_recent,
    push_marked, push_recent, read_bytes, read_header, recent_file, stored_recent, ReadError, EXT, FORMAT, HEAD,
};
use glowstone::render::{
    default_filename, filename_for, preview_source, progress_text, samples_to_save, shown_size,
    size_readout, PreviewSource, RenderConfig, RenderFormat, RenderImage, RenderPhase,
    RenderRequest, RenderStatus, RenderUiState, Samples,
};
use glowstone::share::{
    add_click, can_refresh, can_submit, credits, date_of_day, empty_text, first_run, gdtf_file,
    human_size, import_done, listed_text, mode_line, needs_import, resolve_pending, row_detail,
    row_offer, spec_text, unix_to_date, AddStep, RowOffer, RowStatus, ShareState,
};
use glowstone::tools::ActiveTool;
use glowstone::tree::NodeKey;
use glowstone::ui::{
    initial_expanded, name_or_nothing, recent_label, welcome_image, SplashAction, Ui, HERO_SIDE,
};

#[test]
fn read_rejects_non_project_file() {
    let err = read_header(&b"this is not a project file at all".to_vec());
    assert_eq!(err, Err(ReadError::BadMagic));
    assert_eq!(ReadError::BadMagic.message(), "not a glowstone project (bad magic)");
}

#[test]
fn newer_version_stamp_still_loads() {
    let file = frame(FORMAT + 9, &vec![1, 2, 3]);
    assert_eq!(read_header(&file), Ok(FORMAT + 9));
    assert_eq!(body_of(&file), vec![1, 2, 3]);
    let loaded = read_bytes(&file, |b: &Vec<u8>| Ok(b.clone())).expect("newer-stamped file loads");
    assert_eq!(loaded.format, FORMAT);
    assert_eq!(loaded.body, vec![1, 2, 3]);
}

fn decode_names(body: &Vec<u8>) -> Result<Vec<String>, String> {
    rmp_serde::from_slice(body).map_err(|_| "no list".to_string())
}

#[test]
fn the_version_stamp_decides_nothing() {
    let good = rmp_serde::to_vec_named(&texts(&["Wash L"])).unwrap();
    for body in [good, vec![0xc1]] {
        let a = read_bytes(&frame(FORMAT, &body), decode_names);
        let b = read_bytes(&frame(u32::MAX, &body), decode_names);
        assert_eq!(a.is_ok(), b.is_ok());
        if let (Ok(a), Ok(b)) = (a, b) {
            assert_eq!((a.format, a.body), (b.format, b.body));
        }
    }
}

#[test]
fn an_encoded_body_is_read_back() {
    let names = texts(&["Wash L", "Spot R"]);
    let body = rmp_serde::to_vec_named(&names).unwrap();
    let back = read_bytes(&frame(FORMAT, &body), decode_names).unwrap();
    assert_eq!((back.format, back.body), (FORMAT, names));
    let err = |bytes: Vec<u8>| read_bytes(&bytes, decode_names).unwrap_err();
    assert_eq!(err(b"GLO".to_vec()), "not a glowstone project (bad magic)");
    assert_eq!(err(b"GLOW\0\x01\0".to_vec()), "truncated project file");
    assert_eq!(err(frame(FORMAT, &vec![0xc1])), "decode: no list");
    assert!(err(frame(FORMAT + 1, &vec![0xc1])).ends_with("(v2 > v1); some of it may not load — no list"));
}

#[test]
fn headers_round_trip() {
    for v in [0u32, 1, 255, 256, 65536, 0x0102_0304, u32::MAX] {
        let file = frame(v, &vec![]);
        assert_eq!(file.len(), HEAD);
        assert_eq!(read_header(&file), Ok(v));
        assert!(body_of(&file).is_empty());
    }
    assert_eq!(frame(1, &vec![9]), vec![b'G', b'L', b'O', b'W', 0, 1, 0, 0, 0, 9]);
    assert_eq!(EXT, "glow");
}

#[test]
fn cut_files_are_refused() {
    let mut file = frame(1, &vec![]);
    file.truncate(7);
    assert_eq!(read_header(&file), Err(ReadError::Truncated));
    assert_eq!(ReadError::Truncated.message(), "truncated project file");
    file.truncate(3);
    assert_eq!(read_header(&file), Err(ReadError::BadMagic));
}

#[test]
fn decode_errors_name_the_version() {
    assert_eq!(decode_message(FORMAT, "oops"), "decode: oops");
    assert!(decode_message(FORMAT + 2, "oops").contains("(v3 > v1)"));
}

fn texts(v: &[&str]) -> Vec<String> {
    v.iter().map(|s| s.to_string()).collect()
}

#[test]
fn recent_projects_come_first_and_once() {
    let list = push_recent(&texts(&["a", "b", "c"]), "b");
    assert_eq!(list, texts(&["b", "a", "c"]));
    let mut many = Vec::new();
    for i in 0..20 {
        many = push_recent(&many, &format!("p{i}"));
    }
    assert_eq!(many.len(), 12);
    assert_eq!(many[0], "p19");
    assert_eq!(
        prune_recent(&texts(&["a", "b", "c"]), &vec![true, false, true]),
        texts(&["a", "c"])
    );
}

#[test]
fn other_ways_to_write_a_path_are_the_same() {
    assert_eq!(push_recent(&texts(&["x//y", "z"]), "x/y"), texts(&["x/y", "z"]));
    let hidden = "/home/me/.shows/a.glow";
    assert_eq!(
        push_recent(&texts(&["/home/me/.shows/b.glow", hidden]), hidden),
        texts(&[hidden, "/home/me/.shows/b.glow"])
    );
    assert_eq!(push_recent(&texts(&["x/z", "z"]), "x/y"), texts(&["x/y", "x/z", "z"]));
    assert_eq!(
        push_marked(&texts(&["a", "b"]), &vec![false, true], "c"),
        texts(&["c", "a"])
    );
}

#[test]
fn the_recent_file_is_read_back() {
    let list = texts(&["/shows/a \"b\".glow", "C:\\x\n\u{1}", "ü"]);
    let file = recent_file(&list).unwrap();
    assert!(file.starts_with("[\n  \"/shows/a"));
    assert_eq!(stored_recent(&file), list);
    assert_eq!(stored_recent("[\"\\u0041\"]"), texts(&["A"]));
    assert!(stored_recent("{}").is_empty());
    assert!(stored_recent("not json").is_empty());
    assert!(list_or_nothing(None).is_empty());
}

#[test]
fn recent_projects_are_called_by_their_file() {
    assert_eq!(recent_label("/shows/tour.glow"), "tour.glow");
    assert_eq!(recent_label("tour.glow"), "tour.glow");
    assert_eq!(recent_label(""), "");
    assert_eq!(recent_label("/"), "");
    assert_eq!(recent_label("/shows/tour//"), "tour");
    assert_eq!(recent_label("/shows/tour.glow/."), "tour.glow");
    assert_eq!(recent_label("/shows/tour/.."), "");
    assert_eq!(recent_label("./."), "");
    assert_eq!(recent_label("shows/act 1: rain.glow"), "act 1: rain.glow");
    assert_eq!(name_or_nothing(None), "");
}

#[test]
fn resources_of_one_file_are_shared() {
    assert_eq!(
        intern_geometry_resources(&texts(&["m", "n", "m", "n", "o"])),
        vec![0, 1, 0, 1, 4]
    );
}

fn share() -> ShareState {
    ShareState {
        pending_add: vec![1, 2, 3],
        downloaded: vec![2],
        downloading: vec![1],
        added: Vec::new(),
        logged_in: true,
        error: None,
    }
}

#[test]
fn finished_downloads_are_ready() {
    let mut s = share();
    assert_eq!(resolve_pending(&mut s), vec![2]);
    assert_eq!(s.pending_add, vec![1]);
    s.downloaded = vec![2, 1];
    assert_eq!(resolve_pending(&mut s), vec![1]);
    assert!(resolve_pending(&mut s).is_empty());
}

#[test]
fn downloads_are_imported_once() {
    let mut s = share();
    assert_eq!(gdtf_file(42), "42.gdtf");
    assert!(needs_import(&mut s, 2, &texts(&["9.gdtf"])));
    assert!(!needs_import(&mut s, 2, &texts(&["2.gdtf"])));
    assert_eq!(s.added, vec![2]);
    import_done(&mut s, 7, None);
    assert_eq!(s.added, vec![2, 7]);
    import_done(&mut s, 8, Some("bad zip".to_string()));
    assert_eq!(s.error.as_deref(), Some("could not load downloaded fixture 8: bad zip"));
    assert_eq!(s.added, vec![2, 7]);
}

#[test]
fn share_clicks() {
    let mut s = share();
    assert_eq!(add_click(&mut s, 2), AddStep::Import);
    assert_eq!(add_click(&mut s, 9), AddStep::Download);
    assert_eq!(s.pending_add, vec![1, 2, 3, 9]);
    s.logged_in = false;
    assert_eq!(add_click(&mut s, 10), AddStep::Nothing);
    assert_eq!(row_offer(true, RowStatus::Cached, false), RowOffer::Added);
    assert_eq!(row_offer(false, RowStatus::Cached, false), RowOffer::Add);
    assert_eq!(row_offer(false, RowStatus::Cloud, true), RowOffer::Download { enabled: true });
    assert_eq!(row_offer(false, RowStatus::Update, false), RowOffer::Update { enabled: false });
    assert_eq!(row_offer(false, RowStatus::Downloading, true), RowOffer::Downloading);
    assert!(first_run(false, 0) && !first_run(true, 0) && !first_run(false, 3));
    assert!(can_submit("me", "pw") && !can_submit("me", "") && !can_submit("  ", "pw"));
    assert!(empty_text(0).contains("Refresh"));
}

#[test]
fn share_texts() {
    assert_eq!(human_size(0), "—");
    assert_eq!(human_size(512), "512 B");
    assert_eq!(human_size(1536), "2 KB");
    assert_eq!(human_size(2560), "2 KB");
    assert_eq!(human_size(1048576), "1.0 MB");
    assert_eq!(human_size(1572864), "1.5 MB");
    for n in [(1i64 << 55) + (1 << 18) + 1, (1 << 53) + 1, (1 << 53) + 3, i64::MAX] {
        assert_eq!(human_size(n), format!("{:.1} MB", n as f64 / 1_048_576.0), "{n}");
    }
    for n in [1i64, 1023, 1024, 1025, 100_000, 1_048_575, 1_048_576, 5_555_555, 123_456_789] {
        let f = n as f64;
        let want = if f >= 1_048_576.0 {
            format!("{:.1} MB", f / 1_048_576.0)
        } else if f >= 1024.0 {
            format!("{:.0} KB", f / 1024.0)
        } else {
            format!("{n} B")
        };
        assert_eq!(human_size(n), want);
    }
    assert_eq!(
        row_detail("Acme", "", 1, 2048),
        "Acme   ·   rev —   ·   1 mode   ·   2 KB"
    );
    assert_eq!(spec_text("Acme", "1.2"), "Acme · GDTF spec 1.2");
    assert_eq!(spec_text("Acme", ""), "Acme · GDTF spec ?");
    assert_eq!(mode_line("Full", 34), "• Full — 34 ch");
    assert_eq!(listed_text(0), None);
    assert_eq!(listed_text(7), Some("7 fixtures".to_string()));
    assert!(can_refresh(true, false) && !can_refresh(true, true) && !can_refresh(false, false));
    assert_eq!(credits("", ""), None);
    assert_eq!(credits("ann", "bo"), Some("by ann · bo".to_string()));
    assert_eq!(credits("", "bo"), Some("by bo".to_string()));
}

#[test]
fn days_are_dates() {
    assert_eq!(date_of_day(0), (1970, 1, 1));
    assert_eq!(date_of_day(59), (1970, 3, 1));
    assert_eq!(date_of_day(11016), (2000, 2, 29));
    assert_eq!(date_of_day(11017), (2000, 3, 1));
    assert_eq!(unix_to_date(1_700_000_000), "2023-11-14");
    assert_eq!(unix_to_date(86_399), "1970-01-01");
}

#[test]
fn the_first_render_request_counts() {
    let mut r = RenderUiState::default();
    assert_eq!(r.main_label(), "Render");
    r.press_save(false);
    assert_eq!(r.request, None);
    r.press_main();
    r.request_cancel();
    assert_eq!(r.request, Some(RenderRequest::Start));
    r.request = None;
    r.status.phase = RenderPhase::Rendering;
    assert_eq!(r.main_label(), "Cancel");
    r.press_main();
    assert_eq!(r.request, Some(RenderRequest::Cancel));
    r.request = None;
    r.has_image = true;
    r.press_save(true);
    assert_eq!(r.request, Some(RenderRequest::Save { copy: true }));
    r.status.phase = RenderPhase::Complete;
    assert_eq!(r.main_label(), "Re-render");
}

#[test]
fn render_readouts() {
    let s = RenderStatus {
        phase: RenderPhase::Rendering,
        sample: 12,
        total: 128,
        elapsed_s: 75,
        res: (1920, 1080),
    };
    assert_eq!(progress_text(&s), Some("Sample 12/128 · 01:15".to_string()));
    let done = RenderStatus { phase: RenderPhase::Complete, ..s };
    assert_eq!(progress_text(&done), Some("Done · 12/128 · 01:15".to_string()));
    assert_eq!(progress_text(&RenderStatus::default()), None);
    assert_eq!(shown_size((0, 0), (8, 9)), (8, 9));
    assert_eq!(shown_size((4, 5), (8, 9)), (4, 5));
    assert_eq!(size_readout((1920, 1080), "PNG", 75), "1920×1080 · PNG · 75%");
    assert_eq!(preview_source(RenderPhase::Rendering, true, true), PreviewSource::Live);
    assert_eq!(preview_source(RenderPhase::Complete, true, true), PreviewSource::Result);
    assert_eq!(preview_source(RenderPhase::Rendering, true, false), PreviewSource::Placeholder);
}

#[test]
fn render_file_names() {
    let name = |path: &str| {
        default_filename(&RenderConfig { out_path: path.to_string(), ext: "png".to_string() })
    };
    assert_eq!(name(""), "render.png");
    assert_eq!(name("/tmp/shot.exr"), "shot.png");
    assert_eq!(name("shows/a.b.jpg"), "a.b.png");
    assert_eq!(name("plain"), "plain.png");
    assert_eq!(name("shows/take.one/"), "take.png");
    assert_eq!(name("/"), "render.png");
    assert_eq!(name("shows/.."), "render.png");
    assert_eq!(name("shows/take 1:2.exr/./"), "take 1:2.png");
    assert_eq!(name("x/.hidden"), ".hidden.png");
    assert_eq!(filename_for(None, "jpg"), "render.jpg");
    assert_eq!(filename_for(Some("s".to_string()), "jpg"), "s.jpg");
}

#[test]
fn the_ui_starts_with_the_splash() {
    let recent: Vec<String> = (0..10).map(|i| format!("p{i}")).collect();
    let mut ui = Ui::new(ActiveTool::Move, recent, false, true);
    assert!(ui.show_splash && ui.show_perf && !ui.show_prefs);
    assert_eq!(ui.active_tool, ActiveTool::Move);
    assert_eq!(ui.selection.fixtures, vec![0]);
    assert_eq!(ui.splash_recent().len(), 8);
    assert_eq!(ui.splash_recent()[0], "p0");
    ui.splash_step(false, &Some(SplashAction::New));
    assert!(ui.show_splash);
    ui.splash_step(false, &Some(SplashAction::Dismiss));
    assert!(!ui.show_splash);
    ui.show_welcome();
    assert!(ui.show_splash);
    ui.dismiss_splash();
    assert!(!ui.show_splash);
    ui.opened("/a/b.glow", false);
    assert_eq!(ui.current_path.as_deref(), Some("/a/b.glow"));
    ui.opened("/a/auto.glow", true);
    assert_eq!(ui.current_path, None);
    assert!(initial_expanded().contains(NodeKey::Root));
}

fn two_pixels() -> RenderImage {
    RenderImage { width: 2, height: 1, rgba: vec![1, 2, 3, 4, 5, 6, 7, 8] }
}

#[test]
fn jpeg_images_lose_their_alpha() {
    match samples_to_save(two_pixels(), RenderFormat::Jpeg) {
        Samples::Rgb8(b) => assert_eq!(b, vec![1, 2, 3, 5, 6, 7]),
        other => panic!("{other:?}"),
    }
    match samples_to_save(two_pixels(), RenderFormat::Png) {
        Samples::Rgba8(b) => assert_eq!(b, two_pixels().rgba),
        other => panic!("{other:?}"),
    }
    match samples_to_save(two_pixels(), RenderFormat::Exr) {
        Samples::RgbaUnit(b) => assert_eq!(b, two_pixels().rgba),
        other => panic!("{other:?}"),
    }
}

#[test]
fn the_welcome_picture_fits() {
    assert!(welcome_image(&vec![1, 2, 3]).is_none());
    let wide = image::RgbaImage::from_raw(2, 1, two_pixels().rgba).unwrap();
    let mut png = std::io::Cursor::new(Vec::new());
    wide.write_to(&mut png, image::ImageFormat::Png).unwrap();
    let img = welcome_image(&png.into_inner()).expect("a picture");
    assert_eq!((img.width, img.height), (HERO_SIDE, HERO_SIDE / 2));
    assert_eq!(img.rgba.len(), 4 * 1600 * 800);
    let tall = image::RgbaImage::from_pixel(3, 2000, image::Rgba([9, 8, 7, 255]));
    let mut png = std::io::Cursor::new(Vec::new());
    tall.write_to(&mut png, image::ImageFormat::Png).unwrap();
    let img = welcome_image(&png.into_inner()).expect("a picture");
    assert_eq!((img.width, img.height), (2, HERO_SIDE));
}
