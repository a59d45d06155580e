use capture_engine::config::CaptureConfig;
use capture_engine::protocol::{FatalError, TaskAction, TaskEvent, TaskState};

fn test_config() -> CaptureConfig {
    CaptureConfig {
        capture_width: 8,
        capture_height: 8,
        output_width: 4,
        output_height: 4,
        jpeg_quality: Some(75),
        task_attempts: 3,
        instance_restarts: 1,
        pool_size: 1,
        probe_attempts: 3,
    }
}

fn png_of(w: u32, h: u32) -> Vec<u8> {
    let img = image::DynamicImage::ImageRgb8(image::RgbImage::from_fn(w, h, |x, y| {
        image::Rgb([(x * 20) as u8, (y * 20) as u8, 120])
    }));
    let mut out = Vec::new();
    img.write_to(&mut std::io::Cursor::new(&mut out), image::ImageFormat::Png)
        .unwrap();
    out
}

fn write_bytes(a: TaskAction) -> Vec<u8> {
    match a {
        TaskAction::Write(b) => b,
        other => panic!("expected a write, got {:?}", other),
    }
}

#[test]
fn clean_task_captures_and_writes_a_downscaled_jpeg() {
    let cfg = test_config();
    let (s, a) = TaskState::begin(7, None, false, &cfg);
    assert!(matches!(a, TaskAction::Navigate));
    let (s, a) = s.step(TaskEvent::NavigateDone(true), &cfg);
    assert!(matches!(a, TaskAction::AwaitLoad));
    let (s, a) = s.step(TaskEvent::LoadDone(true), &cfg);
    assert!(matches!(a, TaskAction::Capture));
    let (s, a) = s.step(TaskEvent::CaptureDone(Some(png_of(8, 8))), &cfg);
    let out = write_bytes(a);
    assert!(s.is_terminal());
    assert!(!s.finished_preloaded());
    // The written bytes are the capture downscaled and re-encoded, not the
    // capture itself.
    let img = image::load_from_memory(&out).unwrap();
    assert_eq!((img.width(), img.height()), (4, 4));
    assert_ne!(out, png_of(8, 8));
}

#[test]
fn png_codec_writes_a_downscaled_png() {
    let mut cfg = test_config();
    cfg.jpeg_quality = None;
    let (s, a) = TaskState::begin(7, None, false, &cfg);
    assert!(matches!(a, TaskAction::Navigate));
    let (s, _) = s.step(TaskEvent::NavigateDone(true), &cfg);
    let (s, _) = s.step(TaskEvent::LoadDone(true), &cfg);
    let (_, a) = s.step(TaskEvent::CaptureDone(Some(png_of(8, 8))), &cfg);
    let out = write_bytes(a);
    let img = image::load_from_memory(&out).unwrap();
    assert_eq!((img.width(), img.height()), (4, 4));
    assert_eq!(image::guess_format(&out).unwrap(), image::ImageFormat::Png);
}

#[test]
fn preloaded_task_skips_navigation() {
    let cfg = test_config();
    let (_, a) = TaskState::begin(7, None, true, &cfg);
    assert!(matches!(a, TaskAction::AwaitLoad));
}

#[test]
fn task_with_next_item_preloads_before_encoding() {
    let cfg = test_config();
    let (s, _) = TaskState::begin(7, Some(8), false, &cfg);
    let (s, _) = s.step(TaskEvent::NavigateDone(true), &cfg);
    let (s, _) = s.step(TaskEvent::LoadDone(true), &cfg);
    let (s, a) = s.step(TaskEvent::CaptureDone(Some(png_of(8, 8))), &cfg);
    assert!(matches!(a, TaskAction::Preload));
    let (s, a) = s.step(TaskEvent::PreloadDone(true), &cfg);
    let _ = write_bytes(a);
    assert!(s.finished_preloaded());
}

#[test]
fn preload_outcome_does_not_change_the_output_bytes() {
    let cfg = test_config();
    let mut written = Vec::new();
    for ok in [true, false] {
        let (s, _) = TaskState::begin(7, Some(8), false, &cfg);
        let (s, _) = s.step(TaskEvent::NavigateDone(true), &cfg);
        let (s, _) = s.step(TaskEvent::LoadDone(true), &cfg);
        let (s, _) = s.step(TaskEvent::CaptureDone(Some(png_of(8, 8))), &cfg);
        let (s, a) = s.step(TaskEvent::PreloadDone(ok), &cfg);
        written.push(write_bytes(a));
        assert_eq!(s.finished_preloaded(), ok);
    }
    assert_eq!(written[0], written[1]);
}

#[test]
fn preload_flag_does_not_change_the_output_bytes() {
    let cfg = test_config();
    let mut written = Vec::new();
    for preloaded in [false, true] {
        let (s, a) = TaskState::begin(7, None, preloaded, &cfg);
        let s = if preloaded {
            assert!(matches!(a, TaskAction::AwaitLoad));
            s
        } else {
            assert!(matches!(a, TaskAction::Navigate));
            let (s, _) = s.step(TaskEvent::NavigateDone(true), &cfg);
            s
        };
        let (s, _) = s.step(TaskEvent::LoadDone(true), &cfg);
        let (_, a) = s.step(TaskEvent::CaptureDone(Some(png_of(8, 8))), &cfg);
        written.push(write_bytes(a));
    }
    assert_eq!(written[0], written[1]);
}

#[test]
fn crashed_captures_retry_then_replace_then_succeed_with_one_write() {
    let cfg = test_config();
    let mut writes = 0;
    // First attempt reaches the capture, which fails; two more attempts on
    // this instance fail the same way; the instance is replaced; the fresh
    // instance succeeds. The item is written exactly once.
    let (mut s, mut a) = TaskState::begin(7, None, false, &cfg);
    let mut failures = 0;
    loop {
        let ev = match a {
            TaskAction::Navigate => TaskEvent::NavigateDone(true),
            TaskAction::AwaitLoad => TaskEvent::LoadDone(true),
            TaskAction::Capture => {
                if failures < 3 {
                    failures += 1;
                    TaskEvent::CaptureDone(None)
                } else {
                    TaskEvent::CaptureDone(Some(png_of(8, 8)))
                }
            },
            TaskAction::Replace => TaskEvent::InstanceReplaced,
            TaskAction::Write(_) => {
                writes += 1;
                break;
            },
            other => panic!("unexpected action {:?}", other),
        };
        let next = s.step(ev, &cfg);
        s = next.0;
        a = next.1;
    }
    assert_eq!(writes, 1);
    assert_eq!(failures, 3);
    assert!(s.is_terminal());
}

#[test]
fn exhausted_replacements_give_the_item_up() {
    let mut cfg = test_config();
    cfg.task_attempts = 1;
    cfg.instance_restarts = 1;
    let (s, a) = TaskState::begin(7, None, false, &cfg);
    assert!(matches!(a, TaskAction::Navigate));
    // The only attempt fails; the one replacement is spent; its only attempt
    // fails too: the item is given up, the run goes on.
    let (s, a) = s.step(TaskEvent::NavigateDone(false), &cfg);
    assert!(matches!(a, TaskAction::Replace));
    let (s, a) = s.step(TaskEvent::InstanceReplaced, &cfg);
    assert!(matches!(a, TaskAction::Navigate));
    let (s, a) = s.step(TaskEvent::NavigateDone(false), &cfg);
    assert!(matches!(a, TaskAction::GiveUp));
    assert!(s.is_terminal());
}

#[test]
fn wrong_capture_dimensions_are_fatal() {
    let cfg = test_config();
    let (s, _) = TaskState::begin(7, None, false, &cfg);
    let (s, _) = s.step(TaskEvent::NavigateDone(true), &cfg);
    let (s, _) = s.step(TaskEvent::LoadDone(true), &cfg);
    let (s, a) = s.step(TaskEvent::CaptureDone(Some(png_of(16, 16))), &cfg);
    assert!(matches!(a, TaskAction::Fatal(FatalError::DimensionMismatch)));
    assert!(s.is_terminal());
}

#[test]
fn undecodable_capture_is_fatal() {
    let cfg = test_config();
    let (s, _) = TaskState::begin(7, None, false, &cfg);
    let (s, _) = s.step(TaskEvent::NavigateDone(true), &cfg);
    let (s, _) = s.step(TaskEvent::LoadDone(true), &cfg);
    let garbage = vec![0u8, 1, 2, 3, 4, 5];
    let (_, a) = s.step(TaskEvent::CaptureDone(Some(garbage)), &cfg);
    assert!(matches!(a, TaskAction::Fatal(FatalError::DimensionMismatch)));
}

#[test]
fn failed_load_retries_with_a_fresh_navigation() {
    let cfg = test_config();
    let (s, a) = TaskState::begin(7, None, true, &cfg);
    assert!(matches!(a, TaskAction::AwaitLoad));
    // The preloaded page fails to finish loading; the retry navigates.
    let (_, a) = s.step(TaskEvent::LoadDone(false), &cfg);
    assert!(matches!(a, TaskAction::Navigate));
}

#[test]
fn item_is_kept_across_retries() {
    let cfg = test_config();
    let (s, _) = TaskState::begin(7, Some(9), false, &cfg);
    let (s, _) = s.step(TaskEvent::NavigateDone(false), &cfg);
    let (s, _) = s.step(TaskEvent::NavigateDone(false), &cfg);
    assert_eq!(s.item(), 7);
}
