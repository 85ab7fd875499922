//! The state of the application window and the decisions it takes: presets, status,
//! loading a video, choosing the output, starting, cancelling and following a run,
//! and the confirmations it asks for. Drawing, dialogs and file access are left to
//! the program that shows the window; it hands the outcome of each to these methods.
use vstd::prelude::*;
use crate::composite::{
    CompositeEvent, CompositeParams, CompositeRequest, EventView, RequestView,
    default_params, full_percent_bits, rate_is_usable,
};
use crate::float_text::{f32_text, f32_value, float_fixed, millis_as_double, push_millis_seconds};
use crate::paths::{
    contains_separator, file_name_of, extension, has_separator, opt_view, parent_of,
    path_extension, path_file_name, path_parent,
};
use crate::text::{
    ascii_lower, decimal, fixed_point, push_decimal, push_fixed_point, push_str, signed_decimal,
    to_ascii_lower,
};
use crate::video::{
    VideoInfo, default_output, default_output_path, ensure_extension, is_supported_video,
    is_supported_video_extension, str_eq, with_default_extension,
};

verus! {

/// The three finishes the window offers.
#[derive(Clone, Copy, Debug, PartialEq, Eq, Structural)]
pub enum Preset {
    /// Fine: short interval, small regions kept, sensitive.
    Fine,
    /// Standard.
    Standard,
    /// Light: long interval, large regions only, less sensitive.
    Light,
}

impl Preset {
    /// The parameters of the preset.
    pub open spec fn params(self) -> CompositeParams {
        match self {
            Preset::Fine => CompositeParams {
                interval_ms: 100,
                min_area: 50,
                threshold: 12,
                history: 300,
            },
            Preset::Standard => CompositeParams {
                interval_ms: 250,
                min_area: 200,
                threshold: 16,
                history: 200,
            },
            Preset::Light => CompositeParams {
                interval_ms: 500,
                min_area: 600,
                threshold: 28,
                history: 100,
            },
        }
    }

    /// The name of the preset as the window shows it.
    pub open spec fn label_text(self) -> Seq<char> {
        match self {
            Preset::Fine => "きめ細かい"@,
            Preset::Standard => "標準"@,
            Preset::Light => "あっさり"@,
        }
    }

    /// The name of the preset as the window shows it.
    pub fn label(&self) -> (s: &'static str)
        ensures
            s@ == self.label_text(),
    {
        match self {
            Preset::Fine => "きめ細かい",
            Preset::Standard => "標準",
            Preset::Light => "あっさり",
        }
    }

    /// Sets all the parameters to those of the preset.
    pub fn apply(&self, params: &mut CompositeParams)
        ensures
            *final(params) == self.params(),
    {
        match self {
            Preset::Fine => {
                params.interval_ms = 100;
                params.min_area = 50;
                params.threshold = 12;
                params.history = 300;
            },
            Preset::Standard => {
                params.interval_ms = 250;
                params.min_area = 200;
                params.threshold = 16;
                params.history = 200;
            },
            Preset::Light => {
                params.interval_ms = 500;
                params.min_area = 600;
                params.threshold = 28;
                params.history = 100;
            },
        }
    }
}

/// The parameters a run has before any are chosen are those of the standard preset.
pub proof fn lemma_default_params_are_standard()
    ensures
        default_params() == Preset::Standard.params(),
{
}

/// A colour as red, green, blue and opacity.
#[derive(Clone, Copy, Debug, PartialEq, Eq, Structural)]
pub struct Color {
    pub r: u8,
    pub g: u8,
    pub b: u8,
    pub a: u8,
}

impl Color {
    /// An opaque colour, as `egui::Color32::from_rgb` makes one.
    pub fn from_rgb(r: u8, g: u8, b: u8) -> (c: Color)
        ensures
            c == (Color { r, g, b, a: 255 }),
    {
        Color { r, g, b, a: 255 }
    }
}

/// Where the window stands.
#[derive(Clone, Copy, Debug, PartialEq, Eq, Structural)]
pub enum AppStatus {
    Ready,
    Processing,
    Done,
    Cancelled,
    Error,
}

impl AppStatus {
    /// The status as the header shows it.
    pub open spec fn label_text(self) -> Seq<char> {
        match self {
            AppStatus::Ready => "READY"@,
            AppStatus::Processing => "PROCESSING"@,
            AppStatus::Done => "DONE"@,
            AppStatus::Cancelled => "CANCELLED"@,
            AppStatus::Error => "ERROR"@,
        }
    }

    /// The colour of the status.
    pub open spec fn color_of(self) -> Color {
        match self {
            AppStatus::Ready => Color { r: 120, g: 180, b: 255, a: 255 },
            AppStatus::Processing => Color { r: 255, g: 200, b: 80, a: 255 },
            AppStatus::Done => Color { r: 80, g: 220, b: 120, a: 255 },
            AppStatus::Cancelled => Color { r: 200, g: 200, b: 200, a: 255 },
            AppStatus::Error => Color { r: 255, g: 90, b: 90, a: 255 },
        }
    }

    /// The status as the header shows it.
    pub fn label(&self) -> (s: &'static str)
        ensures
            s@ == self.label_text(),
    {
        match self {
            AppStatus::Ready => "READY",
            AppStatus::Processing => "PROCESSING",
            AppStatus::Done => "DONE",
            AppStatus::Cancelled => "CANCELLED",
            AppStatus::Error => "ERROR",
        }
    }

    /// The colour of the status.
    pub fn color(&self) -> (c: Color)
        ensures
            c == self.color_of(),
    {
        match self {
            AppStatus::Ready => Color::from_rgb(120, 180, 255),
            AppStatus::Processing => Color::from_rgb(255, 200, 80),
            AppStatus::Done => Color::from_rgb(80, 220, 120),
            AppStatus::Cancelled => Color::from_rgb(200, 200, 200),
            AppStatus::Error => Color::from_rgb(255, 90, 90),
        }
    }
}

/// The window's state: what was chosen, what is shown, and where a run stands.
pub struct FrameMotionApp {
    pub video_path: Option<String>,
    pub video_info: Option<VideoInfo>,
    pub video_info_error: Option<String>,
    pub output_path: Option<String>,
    /// The extension of the output image: `png` or `jpg`, or that of a chosen file.
    pub output_ext: String,
    pub params: CompositeParams,
    pub preset: Preset,
    pub show_advanced: bool,
    /// Whether the first frame of the video is shown as the picture before.
    pub has_before_image: bool,
    /// Whether a composite is shown as the picture after.
    pub has_after_image: bool,
    pub preview_is_after: bool,
    pub status: AppStatus,
    pub status_detail: String,
    /// The percentage done, as a single-precision float's bit pattern.
    pub progress_bits: u32,
    /// The time of the current frame in seconds, as a single-precision float's bit pattern.
    pub current_sec_bits: u32,
    /// The length in seconds, as a single-precision float's bit pattern.
    pub total_sec_bits: u32,
    /// Whether the window listens to a run's events.
    pub receiving: bool,
    pub error_dialog: Option<String>,
    /// The output path whose overwriting awaits confirmation.
    pub overwrite_confirm: Option<String>,
    pub show_close_confirm: bool,
    /// The folder that the file dialogs open in.
    pub last_dir: Option<String>,
}

/// The window's state, with its texts as character sequences.
pub struct AppView {
    pub video_path: Option<Seq<char>>,
    pub video_info: Option<VideoInfo>,
    pub video_info_error: Option<Seq<char>>,
    pub output_path: Option<Seq<char>>,
    pub output_ext: Seq<char>,
    pub params: CompositeParams,
    pub preset: Preset,
    pub show_advanced: bool,
    pub has_before_image: bool,
    pub has_after_image: bool,
    pub preview_is_after: bool,
    pub status: AppStatus,
    pub status_detail: Seq<char>,
    pub progress_bits: u32,
    pub current_sec_bits: u32,
    pub total_sec_bits: u32,
    pub receiving: bool,
    pub error_dialog: Option<Seq<char>>,
    pub overwrite_confirm: Option<Seq<char>>,
    pub show_close_confirm: bool,
    pub last_dir: Option<Seq<char>>,
}

impl View for FrameMotionApp {
    type V = AppView;

    open spec fn view(&self) -> AppView {
        AppView {
            video_path: opt_view(self.video_path),
            video_info: self.video_info,
            video_info_error: opt_view(self.video_info_error),
            output_path: opt_view(self.output_path),
            output_ext: self.output_ext@,
            params: self.params,
            preset: self.preset,
            show_advanced: self.show_advanced,
            has_before_image: self.has_before_image,
            has_after_image: self.has_after_image,
            preview_is_after: self.preview_is_after,
            status: self.status,
            status_detail: self.status_detail@,
            progress_bits: self.progress_bits,
            current_sec_bits: self.current_sec_bits,
            total_sec_bits: self.total_sec_bits,
            receiving: self.receiving,
            error_dialog: opt_view(self.error_dialog),
            overwrite_confirm: opt_view(self.overwrite_confirm),
            show_close_confirm: self.show_close_confirm,
            last_dir: opt_view(self.last_dir),
        }
    }
}

/// The least and the greatest interval, in milliseconds, that a run accepts.
pub open spec fn interval_in_range(interval_ms: u32) -> bool {
    50 <= interval_ms <= 1000
}

/// The window as it opens: nothing chosen, the standard preset, ready.
pub open spec fn initial_view() -> AppView {
    AppView {
        video_path: None,
        video_info: None,
        video_info_error: None,
        output_path: None,
        output_ext: "png"@,
        params: Preset::Standard.params(),
        preset: Preset::Standard,
        show_advanced: false,
        has_before_image: false,
        has_after_image: false,
        preview_is_after: false,
        status: AppStatus::Ready,
        status_detail: "待機中"@,
        progress_bits: 0,
        current_sec_bits: 0,
        total_sec_bits: 0,
        receiving: false,
        error_dialog: None,
        overwrite_confirm: None,
        show_close_confirm: false,
        last_dir: None,
    }
}

/// How the first frame of a video fared when it was read for the preview.
pub enum FirstFrame {
    /// It is shown as the picture before.
    Shown,
    /// It was read but could not be turned into a picture.
    PreviewFailed(String),
    /// It could not be read.
    ReadFailed(String),
}

/// Which picture the preview shows.
#[derive(Clone, Copy, Debug, PartialEq, Eq, Structural)]
pub enum PreviewSource {
    Before,
    After,
    Nothing,
}

/// What the window does after it took in a run's events.
pub struct PollOutcome {
    /// Whether to draw again at once.
    pub repaint: bool,
    /// The composites that finished, to be loaded as the picture after, in order.
    pub after_images: Vec<String>,
    /// Whether a run is still under way, so that the window keeps asking for events.
    pub poll_again: bool,
}

/// The texts of the video's properties.
pub struct VideoInfoTexts {
    pub resolution: String,
    pub fps: String,
    pub frames: String,
    pub duration: String,
}

/// The paths of the finished composites among the events, in order.
pub open spec fn done_paths(evs: Seq<EventView>) -> Seq<Seq<char>>
    decreases evs.len(),
{
    if evs.len() == 0 {
        Seq::empty()
    } else {
        match evs.last() {
            EventView::Done(p) => done_paths(evs.drop_last()).push(p),
            _ => done_paths(evs.drop_last()),
        }
    }
}

/// Whether any event calls for drawing again: progress, or a finished composite.
pub open spec fn needs_repaint(evs: Seq<EventView>) -> bool {
    exists|k: int|
        0 <= k < evs.len() && (evs[k] is Progress || evs[k] is Done)
}

impl AppView {
    /// The window's state holds together: an overwrite awaits confirmation only for a
    /// chosen video, and the picture after is shown only where there is one.
    pub open spec fn wf(self) -> bool {
        &&& self.overwrite_confirm is Some ==> self.video_path is Some
        &&& self.preview_is_after ==> self.has_after_image
    }

    /// Whether the output a run would write can be worked out: a chosen output without
    /// an extension is given the output extension, which then must hold no path
    /// separator (an extension with one comes only from a chosen Windows verbatim path).
    pub open spec fn output_plannable(self) -> bool {
        self.video_path is Some ==> (self.output_path matches Some(p) ==> (path_extension(p) is None
            ==> !has_separator(self.output_ext)))
    }

    /// The state with the given status and its detail.
    pub open spec fn with_status(self, status: AppStatus, detail: Seq<char>) -> AppView {
        AppView { status, status_detail: detail, ..self }
    }

    /// The state with a notice shown.
    pub open spec fn with_error_dialog(self, msg: Seq<char>) -> AppView {
        AppView { error_dialog: Some(msg), ..self }
    }

    /// A video file is chosen: a file that is not a video is refused with a notice;
    /// else it becomes the input, its folder the dialogs' folder, and its default
    /// output the output where none was chosen.
    pub open spec fn load_video(self, path: Seq<char>) -> AppView {
        if !is_supported_video(path) {
            self.with_error_dialog(
                "非対応の形式です: "@ + path + "\n対応形式: MP4, AVI, MOV, MKV, M4V, WEBM 等"@,
            )
        } else {
            AppView {
                video_path: Some(path),
                last_dir: path_parent(path),
                output_path: match self.output_path {
                    Some(o) => Some(o),
                    None => Some(default_output(path, self.output_ext)),
                },
                ..self
            }
        }
    }

    /// The video's properties were read, or could not be. A video whose frame rate
    /// could not be read keeps its other properties, and is reported like a failed
    /// read: with the error status and a notice.
    pub open spec fn apply_video_info(self, probe: Result<VideoInfo, Seq<char>>) -> AppView {
        match probe {
            Ok(info) => {
                let read = AppView {
                    video_info_error: if !rate_is_usable(info.fps_bits) {
                        Some("FPS取得失敗"@)
                    } else {
                        None
                    },
                    total_sec_bits: info.duration_f32_bits,
                    video_info: Some(info),
                    ..self
                };
                if rate_is_usable(info.fps_bits) {
                    read.with_status(AppStatus::Ready, "動画を読み込みました"@)
                } else {
                    read.with_status(AppStatus::Error, "動画情報取得失敗: "@ + "FPS取得失敗"@).with_error_dialog(
                        "動画情報の取得に失敗しました:\n"@ + "FPS取得失敗"@,
                    )
                }
            },
            Err(e) => AppView { video_info: None, video_info_error: Some(e), ..self }.with_status(
                AppStatus::Error,
                "動画情報取得失敗: "@ + e,
            ).with_error_dialog("動画情報の取得に失敗しました:\n"@ + e),
        }
    }

    /// The first frame was read for the preview, or could not be.
    pub open spec fn apply_first_frame(self, outcome: FirstFrameView) -> AppView {
        match outcome {
            FirstFrameView::Shown => AppView {
                has_before_image: true,
                has_after_image: false,
                preview_is_after: false,
                ..self
            },
            FirstFrameView::PreviewFailed(e) => self.with_error_dialog(
                "プレビュー生成失敗:\n"@ + e,
            ),
            FirstFrameView::ReadFailed(e) => self.with_error_dialog(
                "先頭フレーム読込失敗:\n"@ + e,
            ).with_status(AppStatus::Error, e),
        }
    }

    /// The output that a run would write: the chosen output with the output extension
    /// where it has none, or the video's default output.
    pub open spec fn planned_output(self) -> Option<Seq<char>> {
        match self.video_path {
            None => None,
            Some(vp) => Some(
                match self.output_path {
                    Some(p) => with_default_extension(p, self.output_ext),
                    None => default_output(vp, self.output_ext),
                },
            ),
        }
    }

    /// The window as a run to `output` begins.
    pub open spec fn running(self, output: Seq<char>) -> AppView {
        AppView {
            progress_bits: 0,
            current_sec_bits: 0,
            receiving: true,
            output_path: Some(output),
            ..self
        }.with_status(AppStatus::Processing, "合成中..."@)
    }

    /// The composite is asked for, `exists` telling whether the planned output exists:
    /// without a video the window asks for one; an existing output asks for
    /// confirmation first unless it is awaited; an interval out of range is refused;
    /// else a run begins. The second part is the run's request, if one begins.
    pub open spec fn start_composite(self, exists: bool) -> (AppView, Option<RequestView>) {
        match self.video_path {
            None => (self.with_error_dialog("動画を選択してください"@), None),
            Some(vp) => {
                let out = self.planned_output().unwrap();
                if exists && self.overwrite_confirm is None {
                    (AppView { overwrite_confirm: Some(out), ..self }, None)
                } else {
                    let s1 = AppView { overwrite_confirm: None, ..self };
                    if !interval_in_range(self.params.interval_ms) {
                        (
                            s1.with_error_dialog(
                                "間隔は0.05〜1.0秒の範囲で指定してください"@,
                            ),
                            None,
                        )
                    } else {
                        (
                            AppView {
                                total_sec_bits: match self.video_info {
                                    Some(info) => info.duration_f32_bits,
                                    None => self.total_sec_bits,
                                },
                                preview_is_after: false,
                                ..s1
                            }.running(out),
                            Some(RequestView { input_path: vp, output_path: out, params: self.params }),
                        )
                    }
                }
            },
        }
    }

    /// Overwriting the awaited output is confirmed: a run to it begins.
    pub open spec fn confirm_overwrite(self) -> (AppView, Option<RequestView>) {
        match self.overwrite_confirm {
            None => (self, None),
            Some(out) => (
                AppView { overwrite_confirm: None, ..self }.running(out),
                Some(
                    RequestView {
                        input_path: self.video_path.unwrap(),
                        output_path: out,
                        params: self.params,
                    },
                ),
            ),
        }
    }

    /// The run is asked to stop.
    pub open spec fn cancel_composite(self) -> AppView {
        self.with_status(AppStatus::Cancelled, "キャンセル中..."@)
    }

    /// One event of the run is taken in.
    pub open spec fn after_event(self, ev: EventView) -> AppView {
        match ev {
            EventView::Progress(p) => AppView {
                progress_bits: p.percent_bits,
                current_sec_bits: p.current_sec_bits,
                total_sec_bits: p.total_sec_bits,
                ..self
            },
            EventView::Done(_) => AppView {
                progress_bits: full_percent_bits(),
                receiving: false,
                ..self
            }.with_status(
                AppStatus::Done,
                "合成完了"@,
            ),
            EventView::Error(m) => AppView { receiving: false, ..self }.with_status(
                AppStatus::Error,
                m,
            ).with_error_dialog(m),
            EventView::Cancelled => AppView { progress_bits: 0, receiving: false, ..self }.with_status(
                AppStatus::Cancelled,
                "キャンセルしました"@,
            ),
        }
    }

    /// The events of the run are taken in, in order.
    pub open spec fn after_events(self, evs: Seq<EventView>) -> AppView
        decreases evs.len(),
    {
        if evs.len() == 0 {
            self
        } else {
            self.after_events(evs.drop_last()).after_event(evs.last())
        }
    }

    /// A finished composite is shown as the picture after.
    pub open spec fn after_image_loaded(self) -> AppView {
        AppView { has_after_image: true, preview_is_after: true, ..self }
    }

    /// The window is asked to close: while a run is under way the window first asks
    /// whether to stop it.
    pub open spec fn close_requested(self) -> AppView {
        if self.status == AppStatus::Processing && !self.show_close_confirm {
            AppView { show_close_confirm: true, ..self }
        } else {
            self
        }
    }

    /// Whether a request to close is held back.
    pub open spec fn close_held(self) -> bool {
        self.status == AppStatus::Processing && !self.show_close_confirm
    }

    /// The output file chosen in the save dialog becomes the output: it gets the output
    /// extension where it has none, and its extension (in lower case, `jpeg` read as
    /// `jpg`) becomes the output extension.
    pub open spec fn choose_output(self, chosen: Seq<char>) -> AppView {
        let path = with_default_extension(chosen, self.output_ext);
        AppView {
            output_ext: match path_extension(path) {
                Some(e) => if ascii_lower(e) == "jpeg"@ {
                    "jpg"@
                } else {
                    ascii_lower(e)
                },
                None => self.output_ext,
            },
            output_path: Some(path),
            last_dir: path_parent(path),
            ..self
        }
    }

    /// An output format is picked: its extension becomes the output extension and that
    /// of the output.
    pub open spec fn choose_output_format(self, format: OutputFormat) -> AppView {
        AppView {
            output_ext: format.extension_text(),
            output_path: match self.output_path {
                Some(p) => Some(crate::paths::path_set_extension(p, format.extension_text())),
                None => None,
            },
            ..self
        }
    }

    /// A preset is picked: it sets all the parameters.
    pub open spec fn select_preset(self, preset: Preset) -> AppView {
        AppView { preset, params: preset.params(), ..self }
    }

    /// Whether a run can be started now.
    pub open spec fn can_start(self) -> bool {
        self.status != AppStatus::Processing
    }

    /// Whether the run can be cancelled now.
    pub open spec fn can_cancel(self) -> bool {
        self.status == AppStatus::Processing
    }

    /// The picture that the preview shows.
    pub open spec fn preview_source(self) -> PreviewSource {
        if self.preview_is_after && self.has_after_image {
            PreviewSource::After
        } else if self.has_before_image {
            PreviewSource::Before
        } else {
            PreviewSource::Nothing
        }
    }
}

/// How the first frame fared, with its texts as character sequences.
pub enum FirstFrameView {
    Shown,
    PreviewFailed(Seq<char>),
    ReadFailed(Seq<char>),
}

impl View for FirstFrame {
    type V = FirstFrameView;

    open spec fn view(&self) -> FirstFrameView {
        match self {
            FirstFrame::Shown => FirstFrameView::Shown,
            FirstFrame::PreviewFailed(e) => FirstFrameView::PreviewFailed(e@),
            FirstFrame::ReadFailed(e) => FirstFrameView::ReadFailed(e@),
        }
    }
}

/// The formats an output image can be written in.
#[derive(Clone, Copy, Debug, PartialEq, Eq, Structural)]
pub enum OutputFormat {
    Png,
    Jpg,
}

impl OutputFormat {
    /// The extension of the format.
    pub open spec fn extension_text(self) -> Seq<char> {
        match self {
            OutputFormat::Png => "png"@,
            OutputFormat::Jpg => "jpg"@,
        }
    }

    /// The extension of the format.
    pub fn extension(&self) -> (e: String)
        ensures
            e@ == self.extension_text(),
            !has_separator(e@),
    {
        proof {
            reveal_strlit("png");
            reveal_strlit("jpg");
        }
        match self {
            OutputFormat::Png => extension_text("png"),
            OutputFormat::Jpg => extension_text("jpg"),
        }
    }
}

/// The text of an extension literal, which holds no path separator.
fn extension_text(t: &str) -> (s: String)
    requires
        !t@.contains('/'),
        !t@.contains('\\'),
    ensures
        s@ == t@,
        !has_separator(s@),
{
    let s = String::from_str(t);
    let sep = contains_separator(s.as_str());
    proof {
        assert(!sep);
    }
    s
}

/// A string holding the text of a literal.
fn text_of(t: &str) -> (s: String)
    ensures
        s@ == t@,
{
    String::from_str(t)
}

/// A copy of an optional string.
fn clone_opt(o: &Option<String>) -> (r: Option<String>)
    ensures
        opt_view(r) == opt_view(*o),
{
    match o {
        Some(s) => Some(s.clone()),
        None => None,
    }
}

/// `a`, then `b`, then `c`.
fn concat3(a: &str, b: &str, c: &str) -> (s: String)
    ensures
        s@ == a@ + b@ + c@,
{
    let mut s = String::from_str(a);
    push_str(&mut s, b);
    push_str(&mut s, c);
    s
}

impl FrameMotionApp {
    /// The window as it opens: nothing chosen, the standard preset, ready.
    pub fn new() -> (app: FrameMotionApp)
        ensures
            app@ == initial_view(),
            app@.wf(),
    {
        let mut params = CompositeParams::default();
        let preset = Preset::Standard;
        preset.apply(&mut params);
        let app = FrameMotionApp {
            video_path: None,
            video_info: None,
            video_info_error: None,
            output_path: None,
            output_ext: {
                proof {
                    reveal_strlit("png");
                }
                extension_text("png")
            },
            params,
            preset,
            show_advanced: false,
            has_before_image: false,
            has_after_image: false,
            preview_is_after: false,
            status: AppStatus::Ready,
            status_detail: text_of("待機中"),
            progress_bits: 0,
            current_sec_bits: 0,
            total_sec_bits: 0,
            receiving: false,
            error_dialog: None,
            overwrite_confirm: None,
            show_close_confirm: false,
            last_dir: None,
        };
        app
    }

    fn set_status(&mut self, status: AppStatus, detail: String)
        ensures
            final(self)@ == old(self)@.with_status(status, detail@),
    {
        self.status = status;
        self.status_detail = detail;
    }

    /// Takes in the video file that was chosen or dropped. Returns whether it was
    /// taken, so that its properties and first frame are to be read.
    pub fn load_video(&mut self, path: &str) -> (taken: bool)
        requires
            old(self)@.wf(),
        ensures
            final(self)@ == old(self)@.load_video(path@),
            final(self)@.wf(),
            taken == is_supported_video(path@),
    {
        if !is_supported_video_extension(path) {
            self.error_dialog = Some(
                concat3(
                    "非対応の形式です: ",
                    path,
                    "\n対応形式: MP4, AVI, MOV, MKV, M4V, WEBM 等",
                ),
            );
            return false;
        }
        self.video_path = Some(String::from_str(path));
        self.last_dir = parent_of(path);
        if self.output_path.is_none() {
            self.output_path = Some(default_output_path(path, self.output_ext.as_str()));
        }
        true
    }

    /// Takes in the video's properties, or the message of why they could not be read.
    pub fn apply_video_info(&mut self, probe: Result<VideoInfo, String>)
        requires
            old(self)@.wf(),
        ensures
            final(self)@ == old(self)@.apply_video_info(
                match probe {
                    Ok(info) => Ok(info),
                    Err(e) => Err(e@),
                },
            ),
            final(self)@.wf(),
    {
        match probe {
            Ok(info) => {
                let usable = info.fps_is_valid();
                if !usable {
                    self.video_info_error = Some(text_of("FPS取得失敗"));
                } else {
                    self.video_info_error = None;
                }
                self.total_sec_bits = info.duration_f32_bits;
                self.video_info = Some(info);
                if usable {
                    self.set_status(AppStatus::Ready, text_of("動画を読み込みました"));
                } else {
                    self.set_status(
                        AppStatus::Error,
                        concat3("動画情報取得失敗: ", "FPS取得失敗", ""),
                    );
                    self.error_dialog = Some(
                        concat3("動画情報の取得に失敗しました:\n", "FPS取得失敗", ""),
                    );
                    proof {
                        reveal_strlit("");
                    }
                }
            },
            Err(e) => {
                self.video_info = None;
                self.video_info_error = Some(e.clone());
                self.set_status(AppStatus::Error, concat3("動画情報取得失敗: ", e.as_str(), ""));
                self.error_dialog = Some(
                    concat3("動画情報の取得に失敗しました:\n", e.as_str(), ""),
                );
                proof {
                    reveal_strlit("");
                }
            },
        }
    }

    /// Takes in how the first frame of the video fared for the preview.
    pub fn apply_first_frame(&mut self, outcome: FirstFrame)
        requires
            old(self)@.wf(),
        ensures
            final(self)@ == old(self)@.apply_first_frame(outcome@),
            final(self)@.wf(),
    {
        match outcome {
            FirstFrame::Shown => {
                self.has_before_image = true;
                self.has_after_image = false;
                self.preview_is_after = false;
            },
            FirstFrame::PreviewFailed(e) => {
                self.error_dialog = Some(concat3("プレビュー生成失敗:\n", e.as_str(), ""));
                proof {
                    reveal_strlit("");
                }
            },
            FirstFrame::ReadFailed(e) => {
                self.error_dialog = Some(concat3("先頭フレーム読込失敗:\n", e.as_str(), ""));
                proof {
                    reveal_strlit("");
                }
                self.set_status(AppStatus::Error, e);
            },
        }
    }

    /// Whether the output a run would write can be worked out, as `start_composite`
    /// and `planned_output_path` need.
    pub fn can_plan_output(&self) -> (b: bool)
        ensures
            b == self@.output_plannable(),
    {
        match &self.video_path {
            None => true,
            Some(_) => match &self.output_path {
                None => true,
                Some(p) => match extension(p.as_str()) {
                    Some(_) => true,
                    None => !contains_separator(self.output_ext.as_str()),
                },
            },
        }
    }

    /// The output that a run would write: the chosen output with the output extension
    /// where it has none, or the video's default output; none without a video.
    pub fn planned_output_path(&self) -> (p: Option<String>)
        requires
            self@.output_plannable(),
        ensures
            opt_view(p) == self@.planned_output(),
    {
        match &self.video_path {
            None => None,
            Some(vp) => match &self.output_path {
                Some(o) => {
                    Some(ensure_extension(o.as_str(), self.output_ext.as_str()))
                },
                None => Some(default_output_path(vp.as_str(), self.output_ext.as_str())),
            },
        }
    }

    /// The composite is asked for; `output_exists` tells whether the file at the planned
    /// output exists. Returns the request of the run that begins, if one does.
    pub fn start_composite(&mut self, output_exists: bool) -> (req: Option<CompositeRequest>)
        requires
            old(self)@.wf(),
            old(self)@.output_plannable(),
        ensures
            final(self)@ == old(self)@.start_composite(output_exists).0,
            match req {
                Some(r) => old(self)@.start_composite(output_exists).1 == Some(r@),
                None => old(self)@.start_composite(output_exists).1 is None,
            },
            final(self)@.wf(),
    {
        let video_path = match &self.video_path {
            Some(p) => p.clone(),
            None => {
                self.error_dialog = Some(text_of("動画を選択してください"));
                return None;
            },
        };
        let output_path = match self.planned_output_path() {
            Some(p) => p,
            None => {
                return None;
            },
        };
        if output_exists && self.overwrite_confirm.is_none() {
            self.overwrite_confirm = Some(output_path);
            return None;
        }
        self.overwrite_confirm = None;
        if self.params.interval_ms < 50 || self.params.interval_ms > 1000 {
            self.error_dialog = Some(text_of("間隔は0.05〜1.0秒の範囲で指定してください"));
            return None;
        }
        match &self.video_info {
            Some(info) => {
                self.total_sec_bits = info.duration_f32_bits;
            },
            None => {},
        }
        self.preview_is_after = false;
        self.begin_run(output_path.clone());
        Some(CompositeRequest { input_path: video_path, output_path, params: self.params })
    }

    fn begin_run(&mut self, output: String)
        ensures
            final(self)@ == old(self)@.running(output@),
    {
        self.progress_bits = 0;
        self.current_sec_bits = 0;
        self.receiving = true;
        self.output_path = Some(output);
        self.set_status(AppStatus::Processing, text_of("合成中..."));
    }

    /// Overwriting the awaited output is confirmed. Returns the request of the run that
    /// begins, if an overwrite was awaited.
    pub fn confirm_overwrite(&mut self) -> (req: Option<CompositeRequest>)
        requires
            old(self)@.wf(),
        ensures
            final(self)@ == old(self)@.confirm_overwrite().0,
            match req {
                Some(r) => old(self)@.confirm_overwrite().1 == Some(r@),
                None => old(self)@.confirm_overwrite().1 is None,
            },
            final(self)@.wf(),
    {
        let out = match &self.overwrite_confirm {
            Some(p) => p.clone(),
            None => {
                return None;
            },
        };
        let video_path = match &self.video_path {
            Some(p) => p.clone(),
            None => {
                return None;
            },
        };
        self.overwrite_confirm = None;
        self.begin_run(out.clone());
        Some(CompositeRequest { input_path: video_path, output_path: out, params: self.params })
    }

    /// Overwriting is declined: nothing runs.
    pub fn cancel_overwrite(&mut self)
        requires
            old(self)@.wf(),
        ensures
            final(self)@ == (AppView { overwrite_confirm: None, ..old(self)@ }),
            final(self)@.wf(),
    {
        self.overwrite_confirm = None;
    }

    /// The run is asked to stop; the program raises the run's stop flag.
    pub fn cancel_composite(&mut self)
        requires
            old(self)@.wf(),
        ensures
            final(self)@ == old(self)@.cancel_composite(),
            final(self)@.wf(),
    {
        self.set_status(AppStatus::Cancelled, text_of("キャンセル中..."));
    }

    fn take_event(&mut self, ev: &CompositeEvent)
        requires
            old(self)@.wf(),
        ensures
            final(self)@ == old(self)@.after_event(ev@),
            final(self)@.wf(),
    {
        match ev {
            CompositeEvent::Progress(p) => {
                let p = *p;
                self.progress_bits = p.percent_bits;
                self.current_sec_bits = p.current_sec_bits;
                self.total_sec_bits = p.total_sec_bits;
            },
            CompositeEvent::Done(_) => {
                self.progress_bits = 0x42c8_0000;
                self.receiving = false;
                self.set_status(AppStatus::Done, text_of("合成完了"));
            },
            CompositeEvent::Error(m) => {
                self.receiving = false;
                self.set_status(AppStatus::Error, m.clone());
                self.error_dialog = Some(m.clone());
            },
            CompositeEvent::Cancelled => {
                self.progress_bits = 0;
                self.receiving = false;
                self.set_status(AppStatus::Cancelled, text_of("キャンセルしました"));
            },
        }
    }

    /// Takes in the events the run sent since the last time, in order.
    pub fn poll_receiver(&mut self, events: Vec<CompositeEvent>) -> (out: PollOutcome)
        requires
            old(self)@.wf(),
        ensures
            final(self)@ == old(self)@.after_events(events@.map_values(|e: CompositeEvent| e@)),
            final(self)@.wf(),
            out.repaint == needs_repaint(events@.map_values(|e: CompositeEvent| e@)),
            out.after_images@.map_values(|p: String| p@) == done_paths(
                events@.map_values(|e: CompositeEvent| e@),
            ),
            out.poll_again == (final(self)@.status == AppStatus::Processing),
    {
        let ghost evs = events@.map_values(|e: CompositeEvent| e@);
        let ghost start = self@;
        let mut repaint = false;
        let mut after_images: Vec<String> = Vec::new();
        let n = events.len();
        let mut k: usize = 0;
        while k < n
            invariant
                n == evs.len(),
                evs == events@.map_values(|e: CompositeEvent| e@),
                k <= n,
                self@ == start.after_events(evs.take(k as int)),
                self@.wf(),
                repaint == needs_repaint(evs.take(k as int)),
                after_images@.map_values(|p: String| p@) == done_paths(evs.take(k as int)),
            decreases n - k,
        {
            let ev = &events[k];
            proof {
                assert(ev@ == evs[k as int]);
                assert(evs.take(k + 1).drop_last() == evs.take(k as int));
                assert(evs.take(k + 1).last() == evs[k as int]);
            }
            match &ev {
                CompositeEvent::Progress(_) => {
                    repaint = true;
                },
                CompositeEvent::Done(p) => {
                    repaint = true;
                    after_images.push(p.clone());
                },
                _ => {},
            }
            self.take_event(ev);
            proof {
                let t = evs.take(k + 1);
                assert(needs_repaint(t) == (needs_repaint(evs.take(k as int)) || evs[k as int] is Progress || evs[k as int] is Done)) by {
                    if needs_repaint(evs.take(k as int)) {
                        let j = choose|j: int| 0 <= j < k && (evs.take(k as int)[j] is Progress || evs.take(k as int)[j] is Done);
                        assert(t[j] == evs.take(k as int)[j]);
                    }
                    if needs_repaint(t) {
                        let j = choose|j: int| 0 <= j < t.len() && (t[j] is Progress || t[j] is Done);
                        if j < k {
                            assert(evs.take(k as int)[j] == t[j]);
                        }
                    }
                    if evs[k as int] is Progress || evs[k as int] is Done {
                        assert(t[k as int] == evs[k as int]);
                    }
                }
            }
            k = k + 1;
        }
        proof {
            assert(evs.take(n as int) == evs);
        }
        let poll_again = self.status == AppStatus::Processing;
        PollOutcome { repaint, after_images, poll_again }
    }

    /// A finished composite was loaded and is shown as the picture after.
    pub fn after_image_loaded(&mut self)
        requires
            old(self)@.wf(),
        ensures
            final(self)@ == old(self)@.after_image_loaded(),
            final(self)@.wf(),
    {
        self.has_after_image = true;
        self.preview_is_after = true;
    }

    /// The window is asked to close. Returns whether the closing is held back, so that
    /// the window first asks whether to stop the run.
    pub fn on_close_requested(&mut self) -> (held: bool)
        requires
            old(self)@.wf(),
        ensures
            final(self)@ == old(self)@.close_requested(),
            held == old(self)@.close_held(),
            final(self)@.wf(),
    {
        if self.status == AppStatus::Processing && !self.show_close_confirm {
            self.show_close_confirm = true;
            true
        } else {
            false
        }
    }

    /// Closing during a run is confirmed: the run is asked to stop and the window closes.
    pub fn confirm_close(&mut self)
        requires
            old(self)@.wf(),
        ensures
            final(self)@ == (AppView { show_close_confirm: false, ..old(self)@.cancel_composite() }),
            final(self)@.wf(),
    {
        self.cancel_composite();
        self.show_close_confirm = false;
    }

    /// Closing during a run is declined: the run goes on.
    pub fn keep_running(&mut self)
        requires
            old(self)@.wf(),
        ensures
            final(self)@ == (AppView { show_close_confirm: false, ..old(self)@ }),
            final(self)@.wf(),
    {
        self.show_close_confirm = false;
    }

    /// The file chosen in the save dialog becomes the output. Where the output extension
    /// holds a path separator, the chosen file must have an extension of its own, as no
    /// path can be given that one.
    pub fn choose_output(&mut self, chosen: &str)
        requires
            old(self)@.wf(),
            has_separator(old(self)@.output_ext) ==> path_extension(chosen@) is Some,
        ensures
            final(self)@ == old(self)@.choose_output(chosen@),
            final(self)@.wf(),
    {
        let path = ensure_extension(chosen, self.output_ext.as_str());
        match extension(path.as_str()) {
            Some(e) => {
                let lower = to_ascii_lower(e.as_str());
                proof {
                    reveal_strlit("jpeg");
                    reveal_strlit("jpg");
                }
                if str_eq(lower.as_str(), "jpeg") {
                    self.output_ext = extension_text("jpg");
                } else {
                    self.output_ext = lower;
                }
            },
            None => {},
        }
        self.last_dir = parent_of(path.as_str());
        self.output_path = Some(path);
    }

    /// An output format is picked from the list: its extension becomes the output
    /// extension and that of the chosen output.
    pub fn choose_output_format(&mut self, format: OutputFormat)
        requires
            old(self)@.wf(),
        ensures
            final(self)@ == old(self)@.choose_output_format(format),
            final(self)@.wf(),
    {
        self.output_ext = format.extension();
        match &self.output_path {
            Some(p) => {
                let q = crate::paths::set_extension_of(p.as_str(), self.output_ext.as_str());
                self.output_path = Some(q);
            },
            None => {},
        }
    }

    /// A preset is picked: it sets all the parameters.
    pub fn select_preset(&mut self, preset: Preset)
        requires
            old(self)@.wf(),
        ensures
            final(self)@ == old(self)@.select_preset(preset),
            final(self)@.wf(),
    {
        self.preset = preset;
        preset.apply(&mut self.params);
    }

    /// Shows or hides the detailed settings.
    pub fn toggle_advanced(&mut self)
        requires
            old(self)@.wf(),
        ensures
            final(self)@ == (AppView { show_advanced: !old(self)@.show_advanced, ..old(self)@ }),
            final(self)@.wf(),
    {
        self.show_advanced = !self.show_advanced;
    }

    /// The preview shows the picture before.
    pub fn show_before(&mut self)
        requires
            old(self)@.wf(),
        ensures
            final(self)@ == (AppView { preview_is_after: false, ..old(self)@ }),
            final(self)@.wf(),
    {
        self.preview_is_after = false;
    }

    /// The preview shows the picture after, where there is one.
    pub fn show_after(&mut self)
        requires
            old(self)@.wf(),
        ensures
            final(self)@ == if old(self)@.has_after_image {
                AppView { preview_is_after: true, ..old(self)@ }
            } else {
                old(self)@
            },
            final(self)@.wf(),
    {
        if self.has_after_image {
            self.preview_is_after = true;
        }
    }

    /// The notice is dismissed.
    pub fn dismiss_error(&mut self)
        requires
            old(self)@.wf(),
        ensures
            final(self)@ == (AppView { error_dialog: None, ..old(self)@ }),
            final(self)@.wf(),
    {
        self.error_dialog = None;
    }

    /// Whether a run can be started now.
    pub fn can_start(&self) -> (b: bool)
        ensures
            b == self@.can_start(),
    {
        self.status != AppStatus::Processing
    }

    /// Whether the run can be cancelled now.
    pub fn can_cancel(&self) -> (b: bool)
        ensures
            b == self@.can_cancel(),
    {
        self.status == AppStatus::Processing
    }

    /// Whether the output can be opened: it exists, or a composite is shown.
    pub fn can_open(&self, output_exists: bool) -> (b: bool)
        ensures
            b == (output_exists || self.has_after_image),
    {
        output_exists || self.has_after_image
    }

    /// The output to open in the system's viewer, if there is one; the program opens
    /// it where the file exists.
    pub fn open_output(&self) -> (p: Option<String>)
        ensures
            opt_view(p) == self@.output_path,
    {
        clone_opt(&self.output_path)
    }

    /// The folder that the file dialogs open in.
    pub fn dialog_dir(&self) -> (d: Option<String>)
        ensures
            opt_view(d) == self@.last_dir,
    {
        clone_opt(&self.last_dir)
    }

    /// The file name that the save dialog proposes: that of the default output of the
    /// chosen video.
    pub fn output_dialog_file_name(&self) -> (n: Option<String>)
        ensures
            opt_view(n) == match self@.video_path {
                Some(vp) => path_file_name(default_output(vp, self@.output_ext)),
                None => None,
            },
    {
        match &self.video_path {
            Some(vp) => {
                let def = default_output_path(vp.as_str(), self.output_ext.as_str());
                file_name_of(def.as_str())
            },
            None => None,
        }
    }

    /// The name of the chosen video's file, or nothing where it has none.
    pub fn video_file_name(&self) -> (n: Option<String>)
        ensures
            opt_view(n) == match self@.video_path {
                Some(vp) => match path_file_name(vp) {
                    Some(name) => Some(name),
                    None => Some(Seq::<char>::empty()),
                },
                None => None,
            },
    {
        match &self.video_path {
            Some(vp) => match file_name_of(vp.as_str()) {
                Some(name) => Some(name),
                None => Some(String::new()),
            },
            None => None,
        }
    }

    /// The picture that the preview shows.
    pub fn preview_source(&self) -> (src: PreviewSource)
        ensures
            src == self@.preview_source(),
    {
        if self.preview_is_after && self.has_after_image {
            PreviewSource::After
        } else if self.has_before_image {
            PreviewSource::Before
        } else {
            PreviewSource::Nothing
        }
    }
}

impl FrameMotionApp {
    /// The output as the output card shows it: the chosen output; else the default
    /// output of the chosen video, marked as automatic; else a note that it is not set.
    pub fn output_path_text(&self) -> (t: String)
        ensures
            t@ == match self@.output_path {
                Some(p) => p,
                None => match self@.video_path {
                    Some(vp) => default_output(vp, self@.output_ext) + " (自動)"@,
                    None => "未設定（動画選択後に自動設定）"@,
                },
            },
    {
        match &self.output_path {
            Some(p) => p.clone(),
            None => match &self.video_path {
                Some(vp) => {
                    let mut t = default_output_path(vp.as_str(), self.output_ext.as_str());
                    push_str(&mut t, " (自動)");
                    t
                },
                None => text_of("未設定（動画選択後に自動設定）"),
            },
        }
    }

    /// The texts of the video's properties, or `--` for each where none were read.
    pub fn video_info_texts(&self) -> (t: VideoInfoTexts)
        ensures
            match self@.video_info {
                Some(info) => {
                    &&& t.resolution@ == info.resolution_text()
                    &&& t.fps@ == info.fps_text()
                    &&& t.frames@ == info.frame_count_text()
                    &&& t.duration@ == info.duration_text()
                },
                None => {
                    &&& t.resolution@ == "--"@
                    &&& t.fps@ == "--"@
                    &&& t.frames@ == "--"@
                    &&& t.duration@ == "--"@
                },
            },
    {
        match &self.video_info {
            Some(info) => VideoInfoTexts {
                resolution: info.resolution_str(),
                fps: info.fps_str(),
                frames: info.frame_count_str(),
                duration: info.duration_str(),
            },
            None => VideoInfoTexts {
                resolution: text_of("--"),
                fps: text_of("--"),
                frames: text_of("--"),
                duration: text_of("--"),
            },
        }
    }

    /// The progress with one decimal: `進捗: 42.5%`.
    pub fn progress_text(&self) -> (t: String)
        ensures
            t@ == "進捗: "@ + float_fixed(f32_value(self.progress_bits), 1) + "%"@,
    {
        let mut t = text_of("進捗: ");
        let v = f32_text(self.progress_bits, 1);
        push_str(&mut t, v.as_str());
        push_str(&mut t, "%");
        t
    }

    /// The current time and the length in seconds with two decimals: `1.50s / 10.00s`.
    pub fn time_text(&self) -> (t: String)
        ensures
            t@ == float_fixed(f32_value(self.current_sec_bits), 2) + "s / "@ + float_fixed(
                f32_value(self.total_sec_bits),
                2,
            ) + "s"@,
    {
        let mut t = f32_text(self.current_sec_bits, 2);
        push_str(&mut t, "s / ");
        let total = f32_text(self.total_sec_bits, 2);
        push_str(&mut t, total.as_str());
        push_str(&mut t, "s");
        t
    }

    /// The status as the header's badge shows it: `● READY`.
    pub fn status_badge(&self) -> (t: String)
        ensures
            t@ == "● "@ + self.status.label_text(),
    {
        let mut t = text_of("● ");
        push_str(&mut t, self.status.label());
        t
    }

    /// The detail of the status as the run card shows it: ` — 合成中...`.
    pub fn status_detail_text(&self) -> (t: String)
        ensures
            t@ == " — "@ + self@.status_detail,
    {
        let mut t = text_of(" — ");
        push_str(&mut t, self.status_detail.as_str());
        t
    }

    /// The interval in seconds with two decimals, as `{:.2}` writes the interval's
    /// value as a double: `0.25 秒`.
    pub fn interval_text(&self) -> (t: String)
        ensures
            t@ == float_fixed(millis_as_double(self.params.interval_ms as nat), 2) + " 秒"@,
    {
        let mut t = String::new();
        push_millis_seconds(&mut t, self.params.interval_ms);
        push_str(&mut t, " 秒");
        proof {
            assert(t@ == Seq::<char>::empty() + float_fixed(
                millis_as_double(self.params.interval_ms as nat),
                2,
            ) + " 秒"@);
        }
        t
    }

    /// The least area: `200 px`.
    pub fn min_area_text(&self) -> (t: String)
        ensures
            t@ == decimal(self.params.min_area as nat) + " px"@,
    {
        let mut t = String::new();
        push_decimal(&mut t, self.params.min_area as u64);
        push_str(&mut t, " px");
        proof {
            assert(t@ == Seq::<char>::empty() + decimal(self.params.min_area as nat) + " px"@);
        }
        t
    }

    /// The threshold: `16`.
    pub fn threshold_text(&self) -> (t: String)
        ensures
            t@ == decimal(self.params.threshold as nat),
    {
        crate::text::decimal_string(self.params.threshold as u64)
    }

    /// The history length: `200`.
    pub fn history_text(&self) -> (t: String)
        ensures
            t@ == signed_decimal(self.params.history as int),
    {
        crate::text::signed_decimal_string(self.params.history as i64)
    }

    /// The label of the button that shows or hides the detailed settings.
    pub fn advanced_toggle_label(&self) -> (t: &'static str)
        ensures
            t@ == if self.show_advanced {
                "▲ 詳細設定を隠す"@
            } else {
                "▼ 詳細設定を表示"@
            },
    {
        if self.show_advanced {
            "▲ 詳細設定を隠す"
        } else {
            "▼ 詳細設定を表示"
        }
    }
}

/// Starting and cancelling are never offered together: exactly one of them is.
pub proof fn lemma_start_and_cancel_exclusive(v: AppView)
    ensures
        v.can_start() != v.can_cancel(),
{
}

/// Without a chosen video no run begins; the window only asks for a video.
pub proof fn lemma_start_needs_video(v: AppView, exists: bool)
    requires
        v.video_path is None,
    ensures
        v.start_composite(exists).1 is None,
        v.start_composite(exists).0 == v.with_error_dialog("動画を選択してください"@),
{
}

/// An existing output is never overwritten without confirmation: the first request
/// only asks, and the confirmation then runs to exactly that output, with the chosen
/// video and parameters.
pub proof fn lemma_overwrite_needs_confirmation(v: AppView)
    requires
        v.wf(),
        v.video_path is Some,
        v.overwrite_confirm is None,
    ensures
        v.start_composite(true).1 is None,
        v.start_composite(true).0.overwrite_confirm == v.planned_output(),
        v.start_composite(true).0.confirm_overwrite().1 == Some(
            RequestView {
                input_path: v.video_path.unwrap(),
                output_path: v.planned_output().unwrap(),
                params: v.params,
            },
        ),
        v.start_composite(true).0.confirm_overwrite().0.status == AppStatus::Processing,
{
}

/// An interval out of range is refused with a notice, and no run begins.
pub proof fn lemma_interval_out_of_range_refused(v: AppView, exists: bool)
    requires
        v.video_path is Some,
        !(exists && v.overwrite_confirm is None),
        !interval_in_range(v.params.interval_ms),
    ensures
        v.start_composite(exists).1 is None,
        v.start_composite(exists).0.error_dialog == Some(
            "間隔は0.05〜1.0秒の範囲で指定してください"@,
        ),
        v.start_composite(exists).0.status == v.status,
{
}

/// A run that begins is under way, from zero, to the planned output; when it reports
/// that it is done the window shows it done at 100%, when it reports that it stopped
/// the window shows it cancelled at 0%, and when it reports an error the window
/// shows the error's message; in each case the window stops listening.
pub proof fn lemma_run_outcomes(v: AppView, exists: bool, path: Seq<char>, msg: Seq<char>)
    requires
        v.start_composite(exists).1 is Some,
    ensures
        ({
            let s = v.start_composite(exists).0;
            &&& s.status == AppStatus::Processing
            &&& s.progress_bits == 0
            &&& s.receiving
            &&& s.output_path == v.planned_output()
            &&& v.start_composite(exists).1.unwrap().output_path == v.planned_output().unwrap()
            &&& s.after_event(EventView::Done(path)).status == AppStatus::Done
            &&& s.after_event(EventView::Done(path)).progress_bits == full_percent_bits()
            &&& !s.after_event(EventView::Done(path)).receiving
            &&& s.after_event(EventView::Cancelled).status == AppStatus::Cancelled
            &&& s.after_event(EventView::Cancelled).progress_bits == 0
            &&& !s.after_event(EventView::Cancelled).receiving
            &&& s.after_event(EventView::Error(msg)).status == AppStatus::Error
            &&& s.after_event(EventView::Error(msg)).error_dialog == Some(msg)
            &&& !s.after_event(EventView::Error(msg)).receiving
        }),
{
}

/// Asking to stop shows the run as cancelling; the run's report that it stopped then
/// shows it cancelled, at 0%.
pub proof fn lemma_cancel_then_stopped(v: AppView)
    ensures
        v.cancel_composite().status == AppStatus::Cancelled,
        v.cancel_composite().after_event(EventView::Cancelled).status == AppStatus::Cancelled,
        v.cancel_composite().after_event(EventView::Cancelled).status_detail
            == "キャンセルしました"@,
        v.cancel_composite().after_event(EventView::Cancelled).progress_bits == 0,
{
}

/// The window never closes during a run without asking: the first request to close
/// is held back and the question shown; outside a run nothing is held back.
pub proof fn lemma_close_during_run_asks(v: AppView)
    ensures
        v.status == AppStatus::Processing && !v.show_close_confirm ==> v.close_held()
            && v.close_requested().show_close_confirm,
        v.status != AppStatus::Processing ==> !v.close_held() && v.close_requested() == v,
{
}

/// A file that is not a video is refused: only a notice changes.
pub proof fn lemma_unsupported_file_refused(v: AppView, path: Seq<char>)
    requires
        !is_supported_video(path),
    ensures
        v.load_video(path) == (AppView { error_dialog: v.load_video(path).error_dialog, ..v }),
        v.load_video(path).error_dialog is Some,
{
}

/// Loading a video makes it the input, whatever video was chosen before: the run
/// that follows works on the video chosen last, and the dialogs open in its folder.
/// A chosen output is kept; without one, the video's default output is planned. The
/// parameters, the output extension and the status stay as they were.
pub proof fn lemma_loaded_video_is_input(v: AppView, first: Seq<char>, path: Seq<char>)
    requires
        is_supported_video(path),
    ensures
        v.load_video(path).video_path == Some(path),
        v.load_video(path).last_dir == path_parent(path),
        v.load_video(first).load_video(path).video_path == Some(path),
        v.output_path is Some ==> v.load_video(path).output_path == v.output_path,
        v.output_path is None ==> v.load_video(path).output_path == Some(
            default_output(path, v.output_ext),
        ),
        v.load_video(path).params == v.params,
        v.load_video(path).output_ext == v.output_ext,
        v.load_video(path).status == v.status,
{
}

/// Once the first frame of a video is shown, the preview shows that frame and no
/// composite is kept, not even one shown after an earlier run. A frame that could not
/// be shown leaves the preview as it was, with a notice; one that could not be read
/// also shows the error status.
pub proof fn lemma_shown_first_frame_is_previewed(v: AppView, msg: Seq<char>)
    ensures
        v.apply_first_frame(FirstFrameView::Shown).preview_source() == PreviewSource::Before,
        !v.apply_first_frame(FirstFrameView::Shown).has_after_image,
        v.after_image_loaded().apply_first_frame(FirstFrameView::Shown).preview_source()
            == PreviewSource::Before,
        v.apply_first_frame(FirstFrameView::Shown).status == v.status,
        v.apply_first_frame(FirstFrameView::PreviewFailed(msg)).preview_source()
            == v.preview_source(),
        v.apply_first_frame(FirstFrameView::PreviewFailed(msg)).error_dialog is Some,
        v.apply_first_frame(FirstFrameView::ReadFailed(msg)).status == AppStatus::Error,
        v.apply_first_frame(FirstFrameView::ReadFailed(msg)).status_detail == msg,
        v.apply_first_frame(FirstFrameView::ReadFailed(msg)).preview_source()
            == v.preview_source(),
{
}

/// A run carries the window's state as it is when the run begins: the video chosen,
/// the parameters as tuned, and the output that was planned.
pub proof fn lemma_run_request_carries_window_state(v: AppView, exists: bool)
    ensures
        v.start_composite(exists).1 matches Some(r) ==> (r.params == v.params && Some(
            r.input_path,
        ) == v.video_path && Some(r.output_path) == v.planned_output()),
{
}

/// A run begun by confirming an overwrite carries the window's video and parameters
/// as they are then, and writes to the output that awaited confirmation.
pub proof fn lemma_confirmed_run_carries_window_state(v: AppView)
    requires
        v.wf(),
    ensures
        v.confirm_overwrite().1 matches Some(r) ==> (r.params == v.params && Some(r.input_path)
            == v.video_path && Some(r.output_path) == v.overwrite_confirm),
{
}

/// A run can be started exactly when none is processing, and cancelled exactly when
/// one is: once a run has ended, whether done, failed or cancelled, a new one can be
/// started and none cancelled.
pub proof fn lemma_start_offered_unless_processing(v: AppView, path: Seq<char>, msg: Seq<char>)
    ensures
        v.can_start() == (v.status != AppStatus::Processing),
        v.can_cancel() == (v.status == AppStatus::Processing),
        v.cancel_composite().after_event(EventView::Cancelled).can_start(),
        !v.cancel_composite().after_event(EventView::Cancelled).can_cancel(),
        v.after_event(EventView::Done(path)).can_start(),
        v.after_event(EventView::Error(msg)).can_start(),
        v.cancel_composite().can_start(),
{
}

/// Every step of the window keeps its state consistent.
pub proof fn lemma_steps_keep_wf(
    v: AppView,
    path: Seq<char>,
    probe: Result<VideoInfo, Seq<char>>,
    first: FirstFrameView,
    exists: bool,
    ev: EventView,
    preset: Preset,
    chosen: Seq<char>,
    format: OutputFormat,
)
    requires
        v.wf(),
    ensures
        v.choose_output(chosen).wf(),
        v.choose_output_format(format).wf(),
        v.load_video(path).wf(),
        v.apply_video_info(probe).wf(),
        v.apply_first_frame(first).wf(),
        v.start_composite(exists).0.wf(),
        v.confirm_overwrite().0.wf(),
        v.cancel_composite().wf(),
        v.after_event(ev).wf(),
        v.after_image_loaded().wf(),
        v.close_requested().wf(),
        v.select_preset(preset).wf(),
{
}

/// The first dropped file that has a path on disk.
pub fn pick_dropped_file(paths: &Vec<Option<String>>) -> (p: Option<String>)
    ensures
        match p {
            Some(s) => exists|k: int|
                0 <= k < paths@.len() && opt_view(paths@[k]) == Some(s@) && forall|j: int|
                    0 <= j < k ==> paths@[j] is None,
            None => forall|j: int| 0 <= j < paths@.len() ==> paths@[j] is None,
        },
{
    let mut k: usize = 0;
    while k < paths.len()
        invariant
            k <= paths@.len(),
            forall|j: int| 0 <= j < k ==> paths@[j] is None,
        decreases paths@.len() - k,
    {
        match &paths[k] {
            Some(s) => {
                return Some(s.clone());
            },
            None => {},
        }
        k = k + 1;
    }
    None
}

} // verus!
