use capture_engine::config::CaptureConfig;
use capture_engine::health::server_reachable;
use capture_engine::progress::ProgressCounter;

#[test]
fn server_reachable_when_any_probe_succeeds() {
    assert!(server_reachable(&vec![false, true, false]));
    assert!(server_reachable(&vec![true]));
}

#[test]
fn server_unreachable_when_all_probes_fail() {
    assert!(!server_reachable(&vec![false, false, false]));
    assert!(!server_reachable(&vec![]));
}

#[test]
fn progress_counts_up_to_total() {
    let mut p = ProgressCounter::new(3);
    assert_eq!(p.report(), (0, 3));
    p.increment();
    assert_eq!(p.report(), (1, 3));
    p.increment();
    p.increment();
    assert_eq!(p.report(), (3, 3));
}

#[test]
fn standard_config_matches_the_published_pipeline() {
    let c = CaptureConfig::standard();
    assert_eq!((c.capture_width, c.capture_height), (1050, 1050));
    assert_eq!((c.output_width, c.output_height), (350, 350));
    assert_eq!(c.jpeg_quality, Some(75));
    assert_eq!(c.pool_size, 4);
    assert_eq!(c.probe_attempts, 3);
}

#[test]
fn extension_follows_the_codec() {
    let mut c = CaptureConfig::standard();
    assert_eq!(c.extension(), b".jpeg".to_vec());
    c.jpeg_quality = None;
    assert_eq!(c.extension(), b".png".to_vec());
}
