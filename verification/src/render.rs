//! The render tab: the mailbox between it and the renderer, its texts, and the
//! name that an image is saved under.

use vstd::prelude::*;
use crate::paths::{
    file_part, is_portable, last_place_is_a_place, name_of, path_stem, stem_of,
};
use crate::text::{
    decimal, decimal_reads_back, number_of, padded, padded_reads_back, push_decimal, push_padded,
};

verus! {

/// Where the current or last render stands.
#[derive(Clone, Copy, Debug, PartialEq, Eq, Structural)]
pub enum RenderPhase {
    Idle,
    Rendering,
    Complete,
}

impl Default for RenderPhase {
    fn default() -> (r: Self)
        ensures
            r == RenderPhase::Idle,
    {
        RenderPhase::Idle
    }
}

/// The progress of a render.
#[derive(Clone, Copy, Debug)]
pub struct RenderStatus {
    pub phase: RenderPhase,
    /// The passes done.
    pub sample: u32,
    /// The passes to do.
    pub total: u32,
    /// The whole seconds since the start.
    pub elapsed_s: u32,
    /// The size of the image; zero by zero while it is not known.
    pub res: (u32, u32),
}

/// The status before any render.
pub open spec fn idle_status() -> RenderStatus {
    RenderStatus { phase: RenderPhase::Idle, sample: 0, total: 0, elapsed_s: 0, res: (0, 0) }
}

impl Default for RenderStatus {
    fn default() -> (r: Self)
        ensures
            r == idle_status(),
    {
        RenderStatus { phase: RenderPhase::Idle, sample: 0, total: 0, elapsed_s: 0, res: (0, 0) }
    }
}

/// What the tab asks of the renderer.
#[derive(Clone, Copy, Debug, PartialEq, Eq, Structural)]
pub enum RenderRequest {
    Start,
    Cancel,
    /// With `copy` the remembered output path stays.
    Save { copy: bool },
}

/// The mailbox between the tab and the renderer.
#[derive(Debug)]
pub struct RenderUiState {
    pub request: Option<RenderRequest>,
    pub status: RenderStatus,
    /// Is there a finished image?
    pub has_image: bool,
    /// The graphics backend in use.
    pub gpu_active: String,
    /// The graphics backends that there are.
    pub gpu_available: Vec<String>,
    /// The graphics backend that the user picked for the next launch.
    pub gpu_selected: String,
}

impl RenderUiState {
    /// Nothing is asked for, nothing runs, there is no image and no backend is
    /// known.
    pub open spec fn is_fresh(self) -> bool {
        &&& self.request is None
        &&& self.status == idle_status()
        &&& !self.has_image
        &&& self.gpu_active@.len() == 0
        &&& self.gpu_available@.len() == 0
        &&& self.gpu_selected@.len() == 0
    }
}

impl Default for RenderUiState {
    fn default() -> (r: Self)
        ensures
            r.is_fresh(),
    {
        RenderUiState {
            request: None,
            status: RenderStatus::default(),
            has_image: false,
            gpu_active: String::new(),
            gpu_available: Vec::new(),
            gpu_selected: String::new(),
        }
    }
}

/// What is asked for after one more request: the first one stays.
pub open spec fn asked(pending: Option<RenderRequest>, req: RenderRequest) -> Option<RenderRequest> {
    match pending {
        Some(r) => Some(r),
        None => Some(req),
    }
}

impl RenderUiState {
    /// Ask for something, unless something is asked for already: the first
    /// request of a frame counts.
    pub fn set_request(&mut self, req: RenderRequest)
        ensures
            *final(self) == (RenderUiState {
                request: asked(old(self).request, req),
                ..*old(self)
            }),
    {
        if self.request.is_none() {
            self.request = Some(req);
        }
    }

    /// Ask for a render.
    pub fn request_start(&mut self)
        ensures
            *final(self) == (RenderUiState {
                request: asked(old(self).request, RenderRequest::Start),
                ..*old(self)
            }),
    {
        self.set_request(RenderRequest::Start);
    }

    /// Ask for the render to stop.
    pub fn request_cancel(&mut self)
        ensures
            *final(self) == (RenderUiState {
                request: asked(old(self).request, RenderRequest::Cancel),
                ..*old(self)
            }),
    {
        self.set_request(RenderRequest::Cancel);
    }

    /// The toolbar's main button: it stops a render that runs, and starts one
    /// otherwise.
    pub fn press_main(&mut self)
        ensures
            final(self).request == asked(old(self).request, main_request(old(self).status.phase)),
            *final(self) == (RenderUiState {
                request: asked(
                    old(self).request,
                    if old(self).status.phase == RenderPhase::Rendering {
                        RenderRequest::Cancel
                    } else {
                        RenderRequest::Start
                    },
                ),
                ..*old(self)
            }),
    {
        if self.status.phase == RenderPhase::Rendering {
            self.request_cancel();
        } else {
            self.request_start();
        }
    }

    /// The save buttons: they work only where there is an image.
    pub fn press_save(&mut self, copy: bool)
        ensures
            final(self).request == save_request(old(self).request, old(self).has_image, copy),
            *final(self) == (RenderUiState {
                request: (if old(self).has_image && old(self).request is None {
                    Some(RenderRequest::Save { copy })
                } else {
                    old(self).request
                }),
                ..*old(self)
            }),
    {
        if self.has_image {
            self.set_request(RenderRequest::Save { copy });
        }
    }

    /// The label of the toolbar's main button.
    pub fn main_label(&self) -> (r: &'static str)
        ensures
            r@ == (if self.status.phase == RenderPhase::Rendering {
                "Cancel"@
            } else if self.status.phase == RenderPhase::Complete || self.has_image {
                "Re-render"@
            } else {
                "Render"@
            }),
    {
        if self.status.phase == RenderPhase::Rendering {
            "Cancel"
        } else if self.status.phase == RenderPhase::Complete || self.has_image {
            "Re-render"
        } else {
            "Render"
        }
    }
}

/// What is asked for after several requests.
pub open spec fn after_requests(
    pending: Option<RenderRequest>,
    reqs: Seq<RenderRequest>,
) -> Option<RenderRequest>
    decreases reqs.len(),
{
    if reqs.len() == 0 {
        pending
    } else {
        asked(after_requests(pending, reqs.drop_last()), reqs.last())
    }
}

/// Of several requests in a frame the first one counts.
pub proof fn first_request_wins(reqs: Seq<RenderRequest>)
    requires
        reqs.len() > 0,
    ensures
        after_requests(None, reqs) == Some(reqs[0]),
    decreases reqs.len(),
{
    if reqs.len() > 1 {
        first_request_wins(reqs.drop_last());
    } else {
        assert(after_requests(None, reqs.drop_last()) is None);
    }
}

/// What the preview shows.
#[derive(Clone, Copy, Debug, PartialEq, Eq, Structural)]
pub enum PreviewSource {
    /// The image that is still converging.
    Live,
    /// The finished image.
    Result,
    Placeholder,
}

/// What the preview shows: the finished image while no render runs, else the
/// live one where there is one.
#[verifier::allow_in_spec]
pub fn preview_source(phase: RenderPhase, has_result: bool, has_live: bool) -> PreviewSource
    returns
        (if phase != RenderPhase::Rendering && has_result {
            PreviewSource::Result
        } else if phase == RenderPhase::Rendering && has_live {
            PreviewSource::Live
        } else {
            PreviewSource::Placeholder
        }),
{
    if phase != RenderPhase::Rendering && has_result {
        PreviewSource::Result
    } else if phase == RenderPhase::Rendering && has_live {
        PreviewSource::Live
    } else {
        PreviewSource::Placeholder
    }
}

/// The text of the progress strip; none while there is nothing to report.
pub open spec fn progress_line(s: RenderStatus) -> Option<Seq<char>> {
    if s.phase == RenderPhase::Idle {
        None
    } else {
        Some(
            (if s.phase == RenderPhase::Complete { "Done · "@ } else { "Sample "@ }) + decimal(
                s.sample as nat,
            ).push('/') + decimal(s.total as nat) + " · "@ + padded(
                (s.elapsed_s / 60) as nat,
                2,
            ).push(':') + padded((s.elapsed_s % 60) as nat, 2),
        )
    }
}

/// The text of the progress strip: the passes and the time as minutes and
/// seconds.
pub fn progress_text(s: &RenderStatus) -> (r: Option<String>)
    ensures
        match r {
            Some(t) => progress_line(*s) == Some(t@),
            None => progress_line(*s) is None,
        },
{
    let mut t = match s.phase {
        RenderPhase::Idle => {
            return None;
        },
        RenderPhase::Complete => "Done · ".to_owned(),
        RenderPhase::Rendering => "Sample ".to_owned(),
    };
    let ghost start = t@;
    push_decimal(&mut t, s.sample as u128);
    t.push('/');
    assert(t@ =~= start + decimal(s.sample as nat).push('/'));
    push_decimal(&mut t, s.total as u128);
    t.push_str(" · ");
    let ghost mid = t@;
    push_padded(&mut t, (s.elapsed_s / 60) as u128, 2);
    t.push(':');
    assert(t@ =~= mid + padded((s.elapsed_s / 60) as nat, 2).push(':'));
    push_padded(&mut t, (s.elapsed_s % 60) as u128, 2);
    Some(t)
}

/// The size that the tab reports: the render's, or the configured one while it
/// is not known.
#[verifier::allow_in_spec]
pub fn shown_size(status: (u32, u32), configured: (u32, u32)) -> (u32, u32)
    returns
        (if status.0 != 0 || status.1 != 0 {
            status
        } else {
            configured
        }),
{
    if status.0 != 0 || status.1 != 0 {
        status
    } else {
        configured
    }
}

/// The readout of size, format and scale.
pub fn size_readout(size: (u32, u32), format: &str, percentage: u32) -> (r: String)
    ensures
        r@ == decimal(size.0 as nat) + "×"@ + decimal(size.1 as nat) + " · "@ + format@ + " · "@
            + decimal(percentage as nat) + "%"@,
{
    let mut s = String::new();
    push_decimal(&mut s, size.0 as u128);
    assert(s@ =~= decimal(size.0 as nat));
    s.push_str("×");
    push_decimal(&mut s, size.1 as u128);
    s.push_str(" · ");
    s.push_str(format);
    s.push_str(" · ");
    push_decimal(&mut s, percentage as u128);
    s.push_str("%");
    s
}

/// The file name of a stem and an extension; without a stem, or with an empty
/// one, it is called `render`.
pub fn filename_for(stem: Option<String>, ext: &str) -> (r: String)
    ensures
        r@ == (match stem {
            Some(s) => if s@.len() > 0 { s@ } else { "render"@ },
            None => "render"@,
        }).push('.') + ext@,
{
    let mut name = match stem {
        Some(s) => if s.as_str().unicode_len() > 0 {
            s
        } else {
            "render".to_owned()
        },
        None => "render".to_owned(),
    };
    name.push('.');
    name.push_str(ext);
    name
}

/// What an image is saved as.
#[derive(Debug)]
pub struct RenderConfig {
    /// The path of the last save.
    pub out_path: String,
    /// The extension of the format.
    pub ext: String,
}

/// The name that the save dialog starts with: the stem of the last path, or
/// `render`, with the format's extension.
pub fn default_filename(config: &RenderConfig) -> (r: String)
    ensures
        exists|stem: Seq<char>| #[trigger] stem.push('.') + config.ext@ == r@ && stem.len() > 0,
        is_portable(config.out_path@) ==> r@ == (match name_of(config.out_path@) {
            Some(name) => stem_of(name),
            None => "render"@,
        }).push('.') + config.ext@,
{
    let stem = path_stem(config.out_path.as_str());
    proof {
        reveal_strlit("render");
        last_place_is_a_place(file_part(config.out_path@), '.');
    }
    filename_for(stem, config.ext.as_str())
}

/// A finished image: four bytes for each pixel, row by row, the alpha last.
#[derive(Debug)]
pub struct RenderImage {
    pub width: u32,
    pub height: u32,
    pub rgba: Vec<u8>,
}

impl RenderImage {
    /// There are four bytes for each pixel.
    pub open spec fn wf(self) -> bool {
        self.rgba@.len() == 4 * self.width * self.height
    }
}

/// The formats that an image is saved in.
#[derive(Clone, Copy, Debug, PartialEq, Eq, Structural)]
pub enum RenderFormat {
    Png,
    Jpeg,
    Exr,
}

/// The samples that an encoder is handed.
#[derive(Debug)]
pub enum Samples {
    Rgba8(Vec<u8>),
    Rgb8(Vec<u8>),
    /// Each byte stands for a number from zero to one.
    RgbaUnit(Vec<u8>),
}

/// `rgb` holds the pixels of `rgba` without their alpha.
pub open spec fn drops_alpha(rgba: Seq<u8>, rgb: Seq<u8>, pixels: int) -> bool {
    &&& rgb.len() == 3 * pixels
    &&& forall|k: int, c: int|
        #![trigger rgba[4 * k + c]]
        #![trigger rgb[3 * k + c]]
        0 <= k < pixels && 0 <= c < 3 ==> rgb[3 * k + c] == rgba[4 * k + c]
}

/// `image::DynamicImage::to_rgb8`, on the image that the bytes hold: each pixel
/// without its alpha. There is no image where the bytes do not suffice for the
/// size; bytes past the last pixel are passed over.
#[verifier::external_body]
fn image_to_rgb8(width: u32, height: u32, rgba: Vec<u8>) -> (r: Option<Vec<u8>>)
    ensures
        r is Some <==> 4 * width * height <= rgba@.len(),
        r matches Some(rgb) ==> drops_alpha(rgba@, rgb@, width * height),
{
    image::RgbaImage::from_raw(width, height, rgba).map(
        |img| image::DynamicImage::ImageRgba8(img).to_rgb8().into_raw(),
    )
}

/// What the encoder of a format gets of an image: JPEG has no alpha, EXR takes
/// numbers in place of bytes.
pub fn samples_to_save(img: RenderImage, format: RenderFormat) -> (r: Samples)
    requires
        img.wf(),
    ensures
        match format {
            RenderFormat::Png => r matches Samples::Rgba8(b) && b@ == img.rgba@,
            RenderFormat::Jpeg => r matches Samples::Rgb8(b) && drops_alpha(
                img.rgba@,
                b@,
                img.width * img.height,
            ),
            RenderFormat::Exr => r matches Samples::RgbaUnit(b) && b@ == img.rgba@,
        },
{
    match format {
        RenderFormat::Png => Samples::Rgba8(img.rgba),
        RenderFormat::Jpeg => match image_to_rgb8(img.width, img.height, img.rgba) {
            Some(rgb) => Samples::Rgb8(rgb),
            None => {
                assert(false);
                Samples::Rgb8(Vec::new())
            },
        },
        RenderFormat::Exr => Samples::RgbaUnit(img.rgba),
    }
}

/// What the toolbar's main button asks for.
pub open spec fn main_request(phase: RenderPhase) -> RenderRequest {
    if phase == RenderPhase::Rendering { RenderRequest::Cancel } else { RenderRequest::Start }
}

/// What a save button asks for, if anything.
pub open spec fn save_request(
    pending: Option<RenderRequest>,
    has_image: bool,
    copy: bool,
) -> Option<RenderRequest> {
    if has_image && pending is None { Some(RenderRequest::Save { copy }) } else { pending }
}

/// The main button stops a render that runs and starts one otherwise. A save needs an
/// image and asks for a copy exactly where that is meant. What is already asked for
/// stays.
pub proof fn buttons_ask_for_their_part(
    phase: RenderPhase,
    pending: RenderRequest,
    req: RenderRequest,
    copy: bool,
)
    ensures
        main_request(RenderPhase::Rendering) == RenderRequest::Cancel,
        phase != RenderPhase::Rendering ==> main_request(phase) == RenderRequest::Start,
        save_request(None, true, copy) == Some(RenderRequest::Save { copy }),
        save_request(None, false, copy) is None,
        save_request(Some(pending), true, copy) == Some(pending),
        asked(None, req) == Some(req),
        asked(Some(pending), req) == Some(pending),
{
}

/// While a render runs the preview shows the live image and never the finished one; else
/// the finished one. The placeholder shows only where the image that is due is missing.
pub proof fn preview_shows_what_there_is(phase: RenderPhase, has_result: bool, has_live: bool)
    ensures
        preview_source(RenderPhase::Rendering, has_result, true) == PreviewSource::Live,
        preview_source(RenderPhase::Rendering, has_result, false) == PreviewSource::Placeholder,
        phase != RenderPhase::Rendering ==> preview_source(phase, true, has_live)
            == PreviewSource::Result,
        phase != RenderPhase::Rendering ==> preview_source(phase, false, has_live)
            == PreviewSource::Placeholder,
{
}

/// The tab reports the render's own size once it is known, and the configured one before.
pub proof fn known_size_is_shown(w: u32, h: u32, configured: (u32, u32))
    ensures
        shown_size((0, 0), configured) == configured,
        w > 0 || h > 0 ==> shown_size((w, h), configured) == (w, h),
{
}

/// The progress strip reads back: behind its first word the passes done, a slash and the
/// passes to do, and at its end the time, minutes and seconds, the seconds below sixty.
pub proof fn progress_reads_back(s: RenderStatus)
    requires
        s.phase != RenderPhase::Idle,
        s.elapsed_s < 6000,
    ensures
        ({
            let text = progress_line(s)->0;
            let n = text.len() as int;
            let d = decimal(s.sample as nat).len() as int;
            let t = decimal(s.total as nat).len() as int;
            let minutes = number_of(text.subrange(n - 5, n - 3));
            let seconds = number_of(text.subrange(n - 2, n));
            &&& progress_line(s) is Some
            &&& n >= 12 && text[n - 3] == ':'
            &&& minutes * 60 + seconds == s.elapsed_s && seconds < 60
            &&& number_of(text.subrange(7, 7 + d)) == s.sample
            &&& text[7 + d] == '/'
            &&& number_of(text.subrange(8 + d, 8 + d + t)) == s.total
            &&& text.take(7) == (if s.phase == RenderPhase::Complete { "Done · "@ } else { "Sample "@ })
        }),
        progress_line(RenderStatus { phase: RenderPhase::Idle, ..s }) is None,
{
    let text = progress_line(s)->0;
    let n = text.len() as int;
    let min = (s.elapsed_s / 60) as nat;
    let sec = (s.elapsed_s % 60) as nat;
    let a = decimal(s.sample as nat);
    let b = decimal(s.total as nat);
    decimal_reads_back(s.sample as nat);
    decimal_reads_back(s.total as nat);
    padded_reads_back(min, 2);
    padded_reads_back(sec, 2);
    reveal_with_fuel(decimal, 3);
    assert(decimal(min).len() <= 2 && decimal(sec).len() <= 2);
    reveal_strlit("Done · ");
    reveal_strlit("Sample ");
    reveal_strlit(" · ");
    assert(text.subrange(n - 5, n - 3) =~= padded(min, 2));
    assert(text.subrange(n - 2, n) =~= padded(sec, 2));
    assert(text.subrange(7, 7 + a.len() as int) =~= a);
    assert(text.subrange(8 + a.len() as int, 8 + a.len() as int + b.len() as int) =~= b);
    assert(text.take(7) =~= if s.phase == RenderPhase::Complete { "Done · "@ } else { "Sample "@ });
}

/// Dropping the alpha leaves each pixel its colour: of every four bytes the first three,
/// in their order.
pub proof fn colour_survives_without_alpha(
    r: u8,
    g: u8,
    b: u8,
    a: u8,
    rest: Seq<u8>,
    rgb: Seq<u8>,
    pixels: int,
)
    requires
        pixels > 0,
        rest.len() >= 4 * (pixels - 1),
        drops_alpha(seq![r, g, b, a] + rest, rgb, pixels),
    ensures
        rgb.len() == 3 * pixels,
        rgb[0] == r && rgb[1] == g && rgb[2] == b,
        drops_alpha(rest, rgb.skip(3), pixels - 1),
{
    let rgba = seq![r, g, b, a] + rest;
    let zero: int = 0;
    assert(rgb[3 * zero + 0] == rgba[4 * zero + 0]);
    assert(rgb[3 * zero + 1] == rgba[4 * zero + 1]);
    assert(rgb[3 * zero + 2] == rgba[4 * zero + 2]);
    let tail = rgb.skip(3);
    assert forall|k: int, c: int| 0 <= k < pixels - 1 && 0 <= c < 3 implies #[trigger] tail[3 * k
        + c] == rest[4 * k + c] by {
        assert(rgb[3 * (k + 1) + c] == rgba[4 * (k + 1) + c]);
    }
    assert forall|k: int, c: int| 0 <= k < pixels - 1 && 0 <= c < 3 implies tail[3 * k + c]
        == #[trigger] rest[4 * k + c] by {
        assert(rgb[3 * (k + 1) + c] == rgba[4 * (k + 1) + c]);
    }
}

} // verus!
