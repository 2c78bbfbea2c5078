//! The state of the user interface at the start, and the welcome splash.

use vstd::prelude::*;
use crate::fixture_manager::{FmState, SceneSort};
use crate::paths::{is_portable, name_of, path_name};
use crate::render::{RenderImage, RenderUiState};
use crate::selection::{nothing, Selection, SelectionView};
use crate::text::{copy_texts, texts_of};
use crate::tools::ActiveTool;
use crate::tree::{GroupKind, NodeKey, NodeSet, OutlinerFilter, TreeAction, TypeChip};
use crate::viewport::overlay::{InspectorEdit, ScreenSources};
use crate::windows::operator_search::OperatorSearchState;
use crate::windows::patch_dialog::{PatchDialog, UnpatchDialog};
use crate::windows::preferences::{default_preferences, KeymapEditorState, Preferences};
use crate::windows::profile_editor::ProfileEditor;
use crate::xform::{PivotMode, SnapMode, SnapPolicy, TransformOrientation, TransformPrefs};

verus! {

/// What the user interface remembers.
pub struct Ui {
    pub selection: Selection,
    pub prefs: Preferences,
    pub requested_viewport_px: (u32, u32),
    pub render: RenderUiState,
    pub viewport_focused: bool,
    /// The fixture that the duplicate dialog is open for.
    pub duplicate: Option<usize>,
    pub show_prefs: bool,
    pub show_about: bool,
    pub show_shortcuts: bool,
    pub show_perf: bool,
    pub show_share: bool,
    pub profile: Option<ProfileEditor>,
    pub scene_anchor: Option<usize>,
    pub scene_sort: SceneSort,
    pub scene_search: String,
    pub scene_filter: OutlinerFilter,
    pub scene_expanded: NodeSet,
    pub pending_tree: TreeAction,
    pub screen_sources: ScreenSources,
    pub fm: FmState,
    pub quick_select: bool,
    pub op_search: OperatorSearchState,
    pub patch_dialog: PatchDialog,
    pub unpatch_dialog: UnpatchDialog,
    pub inspector_edit: InspectorEdit,
    pub pending_delete: bool,
    /// The open project's path.
    pub current_path: Option<String>,
    pub show_splash: bool,
    pub recent: Vec<String>,
    pub active_tool: ActiveTool,
    pub xform: TransformPrefs,
    pub cursor_3d_set: bool,
    pub keymap_editor: KeymapEditorState,
}

/// The tree nodes that are expanded at the start: the project and its top
/// groups, so that the fixtures show.
pub open spec fn first_expanded() -> Set<NodeKey> {
    set![
        NodeKey::Root,
        NodeKey::World,
        NodeKey::EnvGroup,
        NodeKey::Group(GroupKind::Fixtures),
        NodeKey::Group(GroupKind::Objects),
    ]
}

/// The tree nodes that are expanded at the start.
pub fn initial_expanded() -> (r: NodeSet)
    ensures
        r@ == first_expanded(),
{
    let mut s = NodeSet::new();
    s.insert(NodeKey::Root);
    s.insert(NodeKey::World);
    s.insert(NodeKey::EnvGroup);
    s.insert(NodeKey::Group(GroupKind::Fixtures));
    s.insert(NodeKey::Group(GroupKind::Objects));
    assert(s@ =~= first_expanded());
    s
}

/// What the welcome splash asks for.
#[derive(Debug)]
pub enum SplashAction {
    New,
    Open,
    OpenPath(String),
    /// Reopen the auto-saved session.
    Recover(String),
    Dismiss,
}

/// How many recent projects the splash lists.
pub const SPLASH_RECENT: usize = 8;

/// What the splash calls a recent project: the name of its file.
pub fn recent_label(path: &str) -> (r: String)
    ensures
        is_portable(path@) ==> r@ == (match name_of(path@) {
            Some(name) => name,
            None => seq![],
        }),
{
    name_or_nothing(path_name(path))
}

/// A file name, or an empty text.
pub fn name_or_nothing(name: Option<String>) -> (r: String)
    ensures
        r@ == (match name {
            Some(n) => n@,
            None => seq![],
        }),
{
    match name {
        Some(n) => n,
        None => {
            let none = String::new();
            assert(none@ =~= seq![]);
            none
        },
    }
}

/// The longest side of the splash's picture, in pixels.
pub const HERO_SIDE: u32 = 1600;

/// The width and height of the picture that `image::load_from_memory` reads from
/// the bytes, where it reads one.
pub uninterp spec fn picture_size(bytes: Seq<u8>) -> Option<(u32, u32)>;

/// Does an image have the shape of a picture of the `size` that was made as large
/// as a square of `side` holds? Its longer side is the square's, and the other one
/// follows in proportion, to the pixel.
pub open spec fn fits_square(img: RenderImage, size: (u32, u32), side: u32) -> bool {
    let (w, h) = size;
    &&& img.width <= side
    &&& img.height <= side
    &&& w >= h && w > 0 ==> img.width == side && (img.height - 1) * w <= h * side <= (img.height
        + 1) * w
    &&& h >= w && h > 0 ==> img.height == side && (img.width - 1) * h <= w * side <= (img.width
        + 1) * h
}

/// `image::load_from_memory`, then `image::DynamicImage::resize` with the
/// Lanczos filter and `to_rgba8`: the picture that the bytes encode, made to fit
/// into a square, its proportions kept. Whether they encode one, and of what size,
/// goes by the bytes alone. What its pixels are is left unsaid: the filter goes by
/// floating point.
#[verifier::external_body]
fn decoded_within(bytes: &Vec<u8>, side: u32) -> (r: Option<RenderImage>)
    requires
        0 < side <= HERO_SIDE,
    ensures
        r is Some <==> picture_size(bytes@) is Some,
        r matches Some(img) ==> img.wf() && fits_square(
            img,
            picture_size(bytes@)->0,
            side,
        ),
{
    let img = image::load_from_memory(bytes)
        .ok()?
        .resize(side, side, image::imageops::FilterType::Lanczos3)
        .to_rgba8();
    let (width, height) = img.dimensions();
    Some(RenderImage { width, height, rgba: img.into_raw() })
}

/// The splash's picture, made to fit every graphics card: its longer side is
/// [`HERO_SIDE`]. None where the bytes do not encode one.
pub fn welcome_image(bytes: &Vec<u8>) -> (r: Option<RenderImage>)
    ensures
        r is Some <==> picture_size(bytes@) is Some,
        r matches Some(img) ==> img.wf() && fits_square(
            img,
            picture_size(bytes@)->0,
            HERO_SIDE,
        ),
{
    decoded_within(bytes, HERO_SIDE)
}

impl Ui {
    /// The user interface at the start: the first fixture is selected, the tool
    /// is the active workspace's, and the splash is open. `open_prefs` and
    /// `open_perf` open a window at once.
    pub fn new(
        active_tool: ActiveTool,
        recent: Vec<String>,
        open_prefs: bool,
        open_perf: bool,
    ) -> (r: Ui)
        ensures
            r.selection@ == (SelectionView { fixtures: seq![0usize], ..nothing() }),
            r.active_tool == active_tool,
            r.recent == recent,
            r.show_splash,
            r.show_prefs == open_prefs,
            r.show_perf == open_perf,
            !r.show_about && !r.show_shortcuts && !r.show_share && !r.quick_select,
            !r.viewport_focused && !r.pending_delete && !r.cursor_3d_set,
            r.requested_viewport_px == (1u32, 1u32),
            r.duplicate is None && r.profile is None && r.scene_anchor is None,
            r.current_path is None,
            r.scene_sort == SceneSort::Patch,
            r.scene_search@.len() == 0,
            r.scene_filter.kind == TypeChip::All && !r.scene_filter.state.any(),
            r.scene_expanded@ == first_expanded(),
            r.pending_tree == TreeAction::Nothing,
            r.render.is_fresh(),
            r.screen_sources.ndi@.len() == 0 && r.screen_sources.citp@.len() == 0,
            !r.screen_sources.ndi_available,
            r.op_search.search@.len() == 0 && r.op_search.idx == 0 && !r.op_search.open,
            !r.patch_dialog.open && !r.unpatch_dialog.open,
            r.keymap_editor.capturing is None && r.keymap_editor.search@.len() == 0,
            r.prefs == default_preferences(),
            r.fm.search@.len() == 0 && r.fm.sort == SceneSort::Patch,
            !r.fm.conflicts_only && !r.fm.unpatched_only,
            r.fm.bulk_universe == 1 && r.fm.bulk_address == 1,
            r.xform == (TransformPrefs {
                pivot: PivotMode::Median,
                orientation: TransformOrientation::Global,
                snap: SnapPolicy { on: false, mode: SnapMode::Increment },
            }),
            !r.inspector_edit.started && !r.inspector_edit.stopped,
    {
        Ui {
            selection: Selection::fixture(0),
            prefs: Preferences::default(),
            requested_viewport_px: (1, 1),
            render: RenderUiState::default(),
            viewport_focused: false,
            duplicate: None,
            show_prefs: open_prefs,
            show_about: false,
            show_shortcuts: false,
            show_perf: open_perf,
            show_share: false,
            profile: None,
            scene_anchor: None,
            scene_sort: SceneSort::Patch,
            scene_search: String::new(),
            scene_filter: OutlinerFilter::default(),
            scene_expanded: initial_expanded(),
            pending_tree: TreeAction::Nothing,
            screen_sources: ScreenSources::default(),
            fm: FmState::default(),
            quick_select: false,
            op_search: OperatorSearchState::default(),
            patch_dialog: PatchDialog::default(),
            unpatch_dialog: UnpatchDialog::default(),
            inspector_edit: InspectorEdit::default(),
            pending_delete: false,
            current_path: None,
            show_splash: true,
            recent,
            active_tool,
            xform: TransformPrefs::default(),
            cursor_3d_set: false,
            keymap_editor: KeymapEditorState::default(),
        }
    }

    /// Close the welcome splash.
    pub fn dismiss_splash(&mut self)
        ensures
            *final(self) == (Ui { show_splash: false, ..*old(self) }),
    {
        self.show_splash = false;
    }

    /// Open the welcome splash.
    pub fn show_welcome(&mut self)
        ensures
            *final(self) == (Ui { show_splash: true, ..*old(self) }),
    {
        self.show_splash = true;
    }

    /// The projects that the splash lists: the most recent ones.
    pub fn splash_recent(&self) -> (r: Vec<String>)
        ensures
            texts_of(r@) == (if self.recent@.len() > 8 {
                texts_of(self.recent@).take(8)
            } else {
                texts_of(self.recent@)
            }),
    {
        let mut all = copy_texts(&self.recent);
        let ghost full = texts_of(all@);
        assert(full.len() == all@.len());
        if all.len() > SPLASH_RECENT {
            all.truncate(SPLASH_RECENT);
        }
        assert(texts_of(all@) =~= (if self.recent@.len() > 8 { full.take(8) } else { full }));
        all
    }

    /// A frame of the splash. Closing the modal, and dismissing it, close the
    /// splash.
    pub fn splash_step(&mut self, modal_closed: bool, action: &Option<SplashAction>)
        ensures
            final(self).show_splash == splash_left(
                old(self).show_splash,
                modal_closed,
                *action matches Some(SplashAction::Dismiss),
            ),
            *final(self) == (Ui {
                show_splash: old(self).show_splash && !modal_closed && !(*action matches Some(
                    SplashAction::Dismiss,
                )),
                ..*old(self)
            }),
    {
        if modal_closed {
            self.show_splash = false;
        }
        if let Some(SplashAction::Dismiss) = action {
            self.show_splash = false;
        }
    }

    /// What a project that was opened is called from then on: its path, except
    /// that a recovered session has none, so that saving asks for one.
    pub fn opened(&mut self, path: &str, recovered: bool)
        ensures
            final(self).current_path is None <==> recovered,
            final(self).current_path matches Some(p) ==> p@ == path@,
            *final(self) == (Ui { current_path: final(self).current_path, ..*old(self) }),
    {
        self.current_path = if recovered {
            None
        } else {
            Some(path.to_owned())
        };
    }
}

/// Is the splash open after a frame?
pub open spec fn splash_left(open: bool, modal_closed: bool, dismissed: bool) -> bool {
    open && !modal_closed && !dismissed
}

/// The splash stays open until it is closed or dismissed, and a frame never opens it.
pub proof fn splash_stays_until_closed(modal_closed: bool, dismissed: bool)
    ensures
        splash_left(true, false, false),
        modal_closed || dismissed ==> !splash_left(true, modal_closed, dismissed),
        !splash_left(false, modal_closed, dismissed),
{
}

/// At the start the tree shows the fixtures: the project and their group are expanded.
pub proof fn fixtures_show_at_the_start()
    ensures
        first_expanded().contains(NodeKey::Root),
        first_expanded().contains(NodeKey::Group(GroupKind::Fixtures)),
        first_expanded().contains(NodeKey::Group(GroupKind::Objects)),
        !first_expanded().contains(NodeKey::Group(GroupKind::Screens)),
{
}

} // verus!
