use frame_motion_studio::app::{
    pick_dropped_file, AppStatus, Color, FirstFrame, FrameMotionApp, OutputFormat, Preset,
    PreviewSource,
};
use frame_motion_studio::composite::{CompositeEvent, CompositeParams, Progress};
use frame_motion_studio::video::VideoInfo;

fn probe(width: i32, height: i32, fps: f64, frames: i32) -> VideoInfo {
    let q = frames as f64 / fps;
    VideoInfo::from_probe(width, height, fps.to_bits(), frames, q.to_bits(), (q as f32).to_bits())
}

fn progress(percent: f32, current: f32, total: f32) -> Progress {
    Progress {
        percent_bits: percent.to_bits(),
        current_sec_bits: current.to_bits(),
        total_sec_bits: total.to_bits(),
    }
}

fn with_video() -> FrameMotionApp {
    let mut app = FrameMotionApp::new();
    assert!(app.load_video("/v/run.MP4"));
    app
}

#[test]
fn preset_labels_and_parameters() {
    assert_eq!(Preset::Fine.label(), "きめ細かい");
    assert_eq!(Preset::Standard.label(), "標準");
    assert_eq!(Preset::Light.label(), "あっさり");
    let mut p = CompositeParams::default();
    Preset::Fine.apply(&mut p);
    assert_eq!(p, CompositeParams { interval_ms: 100, min_area: 50, threshold: 12, history: 300 });
    Preset::Light.apply(&mut p);
    assert_eq!(p, CompositeParams { interval_ms: 500, min_area: 600, threshold: 28, history: 100 });
    Preset::Standard.apply(&mut p);
    assert_eq!(p, CompositeParams { interval_ms: 250, min_area: 200, threshold: 16, history: 200 });
}

#[test]
fn status_labels_and_colors() {
    assert_eq!(AppStatus::Ready.label(), "READY");
    assert_eq!(AppStatus::Processing.label(), "PROCESSING");
    assert_eq!(AppStatus::Done.label(), "DONE");
    assert_eq!(AppStatus::Cancelled.label(), "CANCELLED");
    assert_eq!(AppStatus::Error.label(), "ERROR");
    assert_eq!(AppStatus::Ready.color(), Color { r: 120, g: 180, b: 255, a: 255 });
    assert_eq!(AppStatus::Processing.color(), Color { r: 255, g: 200, b: 80, a: 255 });
    assert_eq!(AppStatus::Done.color(), Color { r: 80, g: 220, b: 120, a: 255 });
    assert_eq!(AppStatus::Cancelled.color(), Color { r: 200, g: 200, b: 200, a: 255 });
    assert_eq!(AppStatus::Error.color(), Color { r: 255, g: 90, b: 90, a: 255 });
    assert_eq!(Color::from_rgb(1, 2, 3), Color { r: 1, g: 2, b: 3, a: 255 });
}

#[test]
fn window_opens_ready_with_standard_preset() {
    let app = FrameMotionApp::new();
    assert_eq!(app.status, AppStatus::Ready);
    assert_eq!(app.status_detail, "待機中");
    assert_eq!(app.output_ext, "png");
    assert_eq!(app.preset, Preset::Standard);
    assert_eq!(app.params, CompositeParams::default());
    assert!(app.video_path.is_none());
    assert!(app.can_start());
    assert!(!app.can_cancel());
    assert_eq!(app.output_path_text(), "未設定（動画選択後に自動設定）");
    assert_eq!(app.preview_source(), PreviewSource::Nothing);
}

#[test]
fn unsupported_file_is_refused() {
    let mut app = FrameMotionApp::new();
    assert!(!app.load_video("/v/notes.txt"));
    assert!(app.video_path.is_none());
    assert!(app.output_path.is_none());
    assert_eq!(
        app.error_dialog.as_deref(),
        Some("非対応の形式です: /v/notes.txt\n対応形式: MP4, AVI, MOV, MKV, M4V, WEBM 等")
    );
    app.dismiss_error();
    assert!(app.error_dialog.is_none());
}

#[test]
fn loading_a_video_sets_default_output() {
    let app = with_video();
    assert_eq!(app.video_path.as_deref(), Some("/v/run.MP4"));
    assert_eq!(app.output_path.as_deref(), Some("/v/run_composite.png"));
    assert_eq!(app.dialog_dir().as_deref(), Some("/v"));
    assert_eq!(app.video_file_name().as_deref(), Some("run.MP4"));
    assert_eq!(app.output_dialog_file_name().as_deref(), Some("run_composite.png"));
    assert_eq!(app.output_path_text(), "/v/run_composite.png");
}

#[test]
fn chosen_output_is_kept_on_next_video() {
    let mut app = with_video();
    app.choose_output("/out/mine");
    assert!(app.load_video("/w/other.avi"));
    assert_eq!(app.output_path.as_deref(), Some("/out/mine.png"));
}

#[test]
fn video_properties_taken_in() {
    let mut app = with_video();
    app.apply_video_info(Ok(probe(1280, 720, 30.0, 300)));
    assert_eq!(app.status, AppStatus::Ready);
    assert_eq!(app.status_detail, "動画を読み込みました");
    assert_eq!(app.total_sec_bits, 10.0f32.to_bits());
    assert!(app.video_info_error.is_none());
    let t = app.video_info_texts();
    assert_eq!(t.resolution, "1280 x 720");
    assert_eq!(t.fps, "30.00");
    assert_eq!(t.frames, "300");
    assert_eq!(t.duration, "10.00s");
}

#[test]
fn unreadable_rate_is_flagged() {
    let mut app = with_video();
    app.apply_video_info(Ok(probe(1280, 720, 0.0, 300)));
    assert_eq!(app.video_info_error.as_deref(), Some("FPS取得失敗"));
    assert_eq!(app.video_info_texts().fps, "--");
    assert_eq!(app.video_info_texts().resolution, "1280 x 720");
    assert_eq!(app.status, AppStatus::Error);
    assert_eq!(app.status_detail, "動画情報取得失敗: FPS取得失敗");
    assert_eq!(app.error_dialog.as_deref(), Some("動画情報の取得に失敗しました:\nFPS取得失敗"));
}

#[test]
fn readable_rate_is_ready() {
    let mut app = with_video();
    app.apply_video_info(Ok(probe(1280, 720, 30.0, 300)));
    assert!(app.video_info_error.is_none());
    assert_eq!(app.status, AppStatus::Ready);
    assert_eq!(app.status_detail, "動画を読み込みました");
    assert!(app.error_dialog.is_none());
}

#[test]
fn unreadable_video_reported() {
    let mut app = with_video();
    app.apply_video_info(Err("boom".to_string()));
    assert_eq!(app.status, AppStatus::Error);
    assert_eq!(app.status_detail, "動画情報取得失敗: boom");
    assert_eq!(app.video_info_error.as_deref(), Some("boom"));
    assert_eq!(app.error_dialog.as_deref(), Some("動画情報の取得に失敗しました:\nboom"));
    assert_eq!(app.video_info_texts().duration, "--");
}

#[test]
fn first_frame_outcomes() {
    let mut app = with_video();
    app.apply_first_frame(FirstFrame::Shown);
    assert_eq!(app.preview_source(), PreviewSource::Before);
    app.apply_first_frame(FirstFrame::PreviewFailed("bad".to_string()));
    assert_eq!(app.error_dialog.as_deref(), Some("プレビュー生成失敗:\nbad"));
    assert_eq!(app.status, AppStatus::Ready);
    app.apply_first_frame(FirstFrame::ReadFailed("eof".to_string()));
    assert_eq!(app.error_dialog.as_deref(), Some("先頭フレーム読込失敗:\neof"));
    assert_eq!(app.status, AppStatus::Error);
    assert_eq!(app.status_detail, "eof");
}

#[test]
fn start_without_video_asks_for_one() {
    let mut app = FrameMotionApp::new();
    assert!(app.start_composite(false).is_none());
    assert_eq!(app.error_dialog.as_deref(), Some("動画を選択してください"));
    assert_eq!(app.status, AppStatus::Ready);
}

#[test]
fn start_runs_to_planned_output() {
    let mut app = with_video();
    app.apply_video_info(Ok(probe(1280, 720, 30.0, 300)));
    assert_eq!(app.planned_output_path().as_deref(), Some("/v/run_composite.png"));
    let req = app.start_composite(false).unwrap();
    assert_eq!(req.input_path, "/v/run.MP4");
    assert_eq!(req.output_path, "/v/run_composite.png");
    assert_eq!(req.params, CompositeParams::default());
    assert_eq!(app.status, AppStatus::Processing);
    assert_eq!(app.status_detail, "合成中...");
    assert_eq!(app.progress_bits, 0);
    assert_eq!(app.total_sec_bits, 10.0f32.to_bits());
    assert!(app.receiving);
    assert!(!app.can_start());
    assert!(app.can_cancel());
}

#[test]
fn existing_output_needs_confirmation() {
    let mut app = with_video();
    assert!(app.start_composite(true).is_none());
    assert_eq!(app.overwrite_confirm.as_deref(), Some("/v/run_composite.png"));
    assert_eq!(app.status, AppStatus::Ready);
    let req = app.confirm_overwrite().unwrap();
    assert_eq!(req.output_path, "/v/run_composite.png");
    assert_eq!(req.input_path, "/v/run.MP4");
    assert!(app.overwrite_confirm.is_none());
    assert_eq!(app.status, AppStatus::Processing);
}

#[test]
fn declined_overwrite_runs_nothing() {
    let mut app = with_video();
    assert!(app.start_composite(true).is_none());
    app.cancel_overwrite();
    assert!(app.overwrite_confirm.is_none());
    assert!(app.confirm_overwrite().is_none());
    assert_eq!(app.status, AppStatus::Ready);
}

#[test]
fn interval_out_of_range_refused() {
    let mut app = with_video();
    app.params.interval_ms = 20;
    assert!(app.start_composite(false).is_none());
    assert_eq!(
        app.error_dialog.as_deref(),
        Some("間隔は0.05〜1.0秒の範囲で指定してください")
    );
    app.params.interval_ms = 1001;
    assert!(app.start_composite(false).is_none());
    app.params.interval_ms = 1000;
    assert!(app.start_composite(false).is_some());
}

#[test]
fn run_events_followed() {
    let mut app = with_video();
    app.start_composite(false).unwrap();
    let out = app.poll_receiver(vec![CompositeEvent::Progress(progress(42.5, 1.5, 10.0))]);
    assert!(out.repaint);
    assert!(out.poll_again);
    assert!(out.after_images.is_empty());
    assert_eq!(app.progress_text(), "進捗: 42.5%");
    assert_eq!(app.time_text(), "1.50s / 10.00s");
    let out = app.poll_receiver(vec![CompositeEvent::Done("/v/run_composite.png".to_string())]);
    assert!(out.repaint);
    assert!(!out.poll_again);
    assert_eq!(out.after_images, vec!["/v/run_composite.png".to_string()]);
    assert_eq!(app.status, AppStatus::Done);
    assert_eq!(app.status_detail, "合成完了");
    assert_eq!(app.progress_bits, 100.0f32.to_bits());
    assert!(!app.receiving);
    app.after_image_loaded();
    assert_eq!(app.preview_source(), PreviewSource::After);
    app.show_before();
    assert_eq!(app.preview_source(), PreviewSource::Nothing);
    app.show_after();
    assert_eq!(app.preview_source(), PreviewSource::After);
    assert!(app.can_open(false));
}

#[test]
fn run_error_reported() {
    let mut app = with_video();
    app.start_composite(false).unwrap();
    let out = app.poll_receiver(vec![CompositeEvent::Error("画像保存失敗".to_string())]);
    assert!(!out.repaint);
    assert!(!out.poll_again);
    assert_eq!(app.status, AppStatus::Error);
    assert_eq!(app.error_dialog.as_deref(), Some("画像保存失敗"));
    assert_eq!(app.status_detail_text(), " — 画像保存失敗");
}

#[test]
fn progress_texts_round_as_the_float_does() {
    let mut app = with_video();
    app.start_composite(false).unwrap();
    app.poll_receiver(vec![CompositeEvent::Progress(progress(6.25, 1.005, 10.125))]);
    assert_eq!(app.progress_text(), format!("進捗: {:.1}%", 6.25f32));
    assert_eq!(app.progress_text(), "進捗: 6.2%");
    assert_eq!(app.time_text(), format!("{:.2}s / {:.2}s", 1.005f32, 10.125f32));
    let pct = (1.0f32 / 16.0 * 100.0).clamp(0.0, 100.0);
    app.poll_receiver(vec![CompositeEvent::Progress(progress(pct, 0.0, 1.0))]);
    assert_eq!(app.progress_text(), "進捗: 6.2%");
}

#[test]
fn cancel_then_stopped() {
    let mut app = with_video();
    app.start_composite(false).unwrap();
    app.cancel_composite();
    assert_eq!(app.status, AppStatus::Cancelled);
    assert_eq!(app.status_detail, "キャンセル中...");
    let out = app.poll_receiver(vec![
        CompositeEvent::Progress(progress(1.0, 0.1, 1.0)),
        CompositeEvent::Cancelled,
    ]);
    assert!(out.repaint);
    assert_eq!(app.status, AppStatus::Cancelled);
    assert_eq!(app.status_detail, "キャンセルしました");
    assert_eq!(app.progress_bits, 0);
    assert!(!app.receiving);
}

#[test]
fn close_during_run_asks_first() {
    let mut app = with_video();
    assert!(!app.on_close_requested());
    app.start_composite(false).unwrap();
    assert!(app.on_close_requested());
    assert!(app.show_close_confirm);
    assert!(!app.on_close_requested());
    app.keep_running();
    assert!(!app.show_close_confirm);
    assert_eq!(app.status, AppStatus::Processing);
    assert!(app.on_close_requested());
    app.confirm_close();
    assert!(!app.show_close_confirm);
    assert_eq!(app.status, AppStatus::Cancelled);
}

#[test]
fn chosen_output_sets_format() {
    let mut app = with_video();
    app.choose_output("/x/y.JPEG");
    assert_eq!(app.output_ext, "jpg");
    assert_eq!(app.output_path.as_deref(), Some("/x/y.JPEG"));
    assert_eq!(app.dialog_dir().as_deref(), Some("/x"));
    app.choose_output("/x/z");
    assert_eq!(app.output_path.as_deref(), Some("/x/z.jpg"));
    assert_eq!(app.output_ext, "jpg");
    app.choose_output("/x/w.PNG");
    assert_eq!(app.output_ext, "png");
    // an extension with a backslash is a plain extension on Unix
    app.choose_output("/x/v.b\\c");
    assert_eq!(app.output_ext, "b\\c");
    app.choose_output("/x/u");
    assert_eq!(app.output_path.as_deref(), Some("/x/u.b\\c"));
}

#[test]
fn picked_format_changes_output() {
    let mut app = with_video();
    app.choose_output_format(OutputFormat::Jpg);
    assert_eq!(app.output_ext, "jpg");
    assert_eq!(app.output_path.as_deref(), Some("/v/run_composite.jpg"));
    app.choose_output_format(OutputFormat::Png);
    assert_eq!(app.output_path.as_deref(), Some("/v/run_composite.png"));
    let mut fresh = FrameMotionApp::new();
    fresh.choose_output_format(OutputFormat::Jpg);
    assert!(fresh.output_path.is_none());
    assert!(fresh.load_video("/v/run.mp4"));
    assert_eq!(fresh.output_path.as_deref(), Some("/v/run_composite.jpg"));
}

#[test]
fn presets_and_settings_texts() {
    let mut app = FrameMotionApp::new();
    assert_eq!(app.interval_text(), "0.25 秒");
    app.params.interval_ms = 125;
    assert_eq!(app.interval_text(), "0.12 秒");
    app.params.interval_ms = 165;
    assert_eq!(app.interval_text(), "0.17 秒");
    app.params.interval_ms = 0;
    assert_eq!(app.interval_text(), "0.00 秒");
    app.params.interval_ms = 250;
    assert_eq!(app.min_area_text(), "200 px");
    assert_eq!(app.threshold_text(), "16");
    assert_eq!(app.history_text(), "200");
    app.select_preset(Preset::Fine);
    assert_eq!(app.preset, Preset::Fine);
    assert_eq!(app.interval_text(), "0.10 秒");
    assert_eq!(app.min_area_text(), "50 px");
    assert_eq!(app.advanced_toggle_label(), "▼ 詳細設定を表示");
    app.toggle_advanced();
    assert!(app.show_advanced);
    assert_eq!(app.advanced_toggle_label(), "▲ 詳細設定を隠す");
    assert_eq!(app.status_badge(), "● READY");
}

#[test]
fn output_text_when_automatic() {
    let mut app = FrameMotionApp::new();
    app.video_path = Some("/v/run.mp4".to_string());
    assert_eq!(app.output_path_text(), "/v/run_composite.png (自動)");
}

#[test]
fn open_and_after_preview() {
    let mut app = with_video();
    assert!(!app.can_open(false));
    assert!(app.can_open(true));
    assert_eq!(app.open_output().as_deref(), Some("/v/run_composite.png"));
    app.show_after();
    assert_eq!(app.preview_source(), PreviewSource::Nothing);
}

#[test]
fn first_dropped_file_with_a_path() {
    assert_eq!(
        pick_dropped_file(&vec![None, Some("/a.mp4".to_string()), Some("/b.mp4".to_string())]),
        Some("/a.mp4".to_string())
    );
    assert_eq!(pick_dropped_file(&vec![None, None]), None);
    assert_eq!(pick_dropped_file(&vec![]), None);
}

#[test]
fn interval_text_writes_the_double() {
    let mut app = FrameMotionApp::new();
    for ms in (0u32..=3000).chain([4_000_000, 123_456_789, u32::MAX]) {
        app.params.interval_ms = ms;
        assert_eq!(app.interval_text(), format!("{:.2} 秒", ms as f64 / 1000.0));
    }
}

#[test]
fn output_can_be_planned() {
    let mut app = FrameMotionApp::new();
    assert!(app.can_plan_output());
    assert!(app.load_video("/v/run.mp4"));
    assert!(app.can_plan_output());
    app.choose_output("/x/plain");
    assert!(app.can_plan_output());
    assert_eq!(app.planned_output_path().as_deref(), Some("/x/plain.png"));
}
