use frame_motion_studio::app::Preset;
use frame_motion_studio::composite::{
    fps_is_usable, select_contours, CompositeEvent, CompositeParams, CompositeRun, RunAction,
    RunInput, RunProtocol, RunStage,
};

fn standard() -> CompositeParams {
    CompositeParams::default()
}

#[test]
fn default_parameters_are_the_standard_preset() {
    let d = CompositeParams::default();
    assert_eq!(d, CompositeParams { interval_ms: 250, min_area: 200, threshold: 16, history: 200 });
    let mut p = CompositeParams { interval_ms: 1, min_area: 2, threshold: 3, history: -4 };
    Preset::Standard.apply(&mut p);
    assert_eq!(p, d);
}

#[test]
fn unreadable_rate_is_refused() {
    match CompositeRun::begin(standard(), 0.0f64.to_bits(), 300) {
        Err(m) => assert_eq!(m, "FPSを取得できません"),
        Ok(_) => panic!("a run began without a frame rate"),
    }
}

#[test]
fn unreadable_frame_count_is_refused() {
    match CompositeRun::begin(standard(), 30.0f64.to_bits(), 0) {
        Err(m) => assert_eq!(m, "総フレーム数を取得できません"),
        Ok(_) => panic!("a run began without frames"),
    }
    match CompositeRun::begin(standard(), 30.0f64.to_bits(), -1) {
        Err(m) => assert_eq!(m, "総フレーム数を取得できません"),
        Ok(_) => panic!("a run began without frames"),
    }
}

#[test]
fn frames_sampled_every_interval() {
    // 30 fps, one sample every 0.25 s: the instants 0.25, 0.5, 0.75, 1.0 s fall on
    // frames 8 (0.267 s), 15 (0.5 s), 23 (0.767 s) and 30 (1.0 s).
    let mut run = CompositeRun::begin(standard(), 30.0f64.to_bits(), 300).ok().unwrap();
    let mut sampled = Vec::new();
    for i in 0..=30u32 {
        let step = run.next_frame();
        if step.sample {
            sampled.push(i);
        }
    }
    assert_eq!(sampled, vec![8, 15, 23, 30]);
}

#[test]
fn first_frame_is_never_sampled() {
    let params = CompositeParams { interval_ms: 50, ..standard() };
    let mut run = CompositeRun::begin(params, 1.0f64.to_bits(), 10).ok().unwrap();
    // one frame per second, an instant every 0.05 s: every frame after the first
    assert!(!run.next_frame().sample);
    assert!(run.next_frame().sample);
    assert!(run.next_frame().sample);
}

#[test]
fn unusable_rates_refused() {
    for fps in [f64::NAN, f64::INFINITY, -30.0, 1e-6, 0.0] {
        assert!(!fps_is_usable(fps.to_bits()));
        match CompositeRun::begin(standard(), fps.to_bits(), 300) {
            Err(m) => assert_eq!(m, "FPSを取得できません"),
            Ok(_) => panic!("a run began with an unusable rate"),
        }
    }
    assert!(fps_is_usable(2e-6f64.to_bits()));
    assert!(fps_is_usable(f64::MAX.to_bits()));
}

#[test]
fn zero_interval_refused_after_rate_and_count() {
    let params = CompositeParams { interval_ms: 0, ..standard() };
    match CompositeRun::begin(params, 30.0f64.to_bits(), 300) {
        Err(m) => assert_eq!(m, "間隔は0.05〜1.0秒の範囲で指定してください"),
        Ok(_) => panic!("a run began with a zero interval"),
    }
    match CompositeRun::begin(params, f64::NAN.to_bits(), 300) {
        Err(m) => assert_eq!(m, "FPSを取得できません"),
        Ok(_) => panic!("a run began without a frame rate"),
    }
    match CompositeRun::begin(params, 30.0f64.to_bits(), 0) {
        Err(m) => assert_eq!(m, "総フレーム数を取得できません"),
        Ok(_) => panic!("a run began without frames"),
    }
}

#[test]
fn schedule_follows_the_exact_rate() {
    // 30000/1001 fps: frame 2997 is at 99.9999 s, before the instant at 100 s, which
    // frame 2998 (100.0332 s) serves.
    let fps = 30000.0f64 / 1001.0;
    let mut run = CompositeRun::begin(standard(), fps.to_bits(), 5000).ok().unwrap();
    let mut sampled = Vec::new();
    for _ in 0..3000u32 {
        let step = run.next_frame();
        if step.sample {
            sampled.push(step.frame);
        }
    }
    assert!(!sampled.contains(&2997));
    assert!(sampled.contains(&2998));
    assert_eq!(sampled.len(), 400);
    assert_eq!(sampled[0], 8);
}

#[test]
fn enormous_rate_never_samples() {
    let mut run = CompositeRun::begin(standard(), f64::MAX.to_bits(), 100).ok().unwrap();
    for _ in 0..50u32 {
        assert!(!run.next_frame().sample);
    }
}

#[test]
fn fractional_rate_samples_exactly() {
    // 0.5 fps and one instant per second: frames are 2 s apart, so every frame after
    // the first reaches a new instant.
    let params = CompositeParams { interval_ms: 1000, ..standard() };
    let mut run = CompositeRun::begin(params, 0.5f64.to_bits(), 10).ok().unwrap();
    assert!(!run.next_frame().sample);
    assert!(run.next_frame().sample);
    assert!(run.next_frame().sample);
}

#[test]
fn frames_reported_in_order() {
    let mut run = CompositeRun::begin(standard(), 30.0f64.to_bits(), 300).ok().unwrap();
    for i in 0..15u32 {
        let step = run.next_frame();
        assert_eq!(step.frame, i);
        assert!(!step.completed);
    }
}

#[test]
fn completion_after_last_announced_frame() {
    let mut run = CompositeRun::begin(standard(), 25.0f64.to_bits(), 3).ok().unwrap();
    assert!(!run.next_frame().completed);
    assert!(!run.next_frame().completed);
    let last = run.next_frame();
    assert_eq!(last.frame, 2);
    assert!(last.completed);
    // a frame beyond the announced count is still reported as completing
    assert!(run.next_frame().completed);
}

#[test]
fn regions_kept_by_area() {
    let sel = select_contours(&vec![399, 400, 401, 0], 200);
    assert_eq!(sel.keep, vec![false, true, true, false]);
    assert!(sel.any);
    let none = select_contours(&vec![10, 20], 200);
    assert_eq!(none.keep, vec![false, false]);
    assert!(!none.any);
    let empty = select_contours(&vec![], 200);
    assert!(empty.keep.is_empty());
    assert!(!empty.any);
}

#[test]
fn stopped_run_writes_nothing() {
    let mut p = RunProtocol::new("/o/out.png".to_string());
    assert!(matches!(p.step(RunInput::BeforeFrame(false)), RunAction::ReadFrame));
    assert!(matches!(p.step(RunInput::AfterRead(true, false)), RunAction::ProcessFrame));
    assert!(matches!(
        p.step(RunInput::BeforeFrame(true)),
        RunAction::Finish(CompositeEvent::Cancelled)
    ));
    assert_eq!(p.stage, RunStage::Ended);
    assert!(matches!(p.step(RunInput::AfterRead(false, false)), RunAction::Idle));
    assert!(matches!(p.step(RunInput::Written), RunAction::Idle));
}

#[test]
fn stop_seen_when_frames_run_out() {
    let mut p = RunProtocol::new("/o/out.png".to_string());
    assert!(matches!(
        p.step(RunInput::AfterRead(false, true)),
        RunAction::Finish(CompositeEvent::Cancelled)
    ));
}

#[test]
fn done_after_write() {
    let mut p = RunProtocol::new("/o/out.png".to_string());
    assert!(matches!(p.step(RunInput::Written), RunAction::Idle));
    assert_eq!(p.stage, RunStage::Reading);
    assert!(matches!(p.step(RunInput::AfterRead(false, false)), RunAction::Write));
    assert_eq!(p.stage, RunStage::Writing);
    assert!(matches!(p.step(RunInput::BeforeFrame(true)), RunAction::Idle));
    match p.step(RunInput::Written) {
        RunAction::Finish(CompositeEvent::Done(path)) => assert_eq!(path, "/o/out.png"),
        _ => panic!("no completion after the write"),
    }
    assert!(matches!(p.step(RunInput::Failed("late".to_string())), RunAction::Idle));
}

#[test]
fn failure_ends_the_run_once() {
    let mut p = RunProtocol::new("/o/out.png".to_string());
    match p.step(RunInput::Failed("先頭フレームを読み込めません".to_string())) {
        RunAction::Finish(CompositeEvent::Error(m)) => assert_eq!(m, "先頭フレームを読み込めません"),
        _ => panic!("a failure did not end the run"),
    }
    assert!(matches!(p.step(RunInput::Failed("again".to_string())), RunAction::Idle));
    let mut w = RunProtocol::new("/o/out.png".to_string());
    assert!(matches!(w.step(RunInput::AfterRead(false, false)), RunAction::Write));
    match w.step(RunInput::Failed("画像保存失敗".to_string())) {
        RunAction::Finish(CompositeEvent::Error(m)) => assert_eq!(m, "画像保存失敗"),
        _ => panic!("a failed write did not end the run"),
    }
}
