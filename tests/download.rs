use local_llm::download::{DownloadProgress, DownloadState, Error};

#[test]
fn progress_accumulates_per_chunk() {
    let mut d = DownloadProgress::new("m.bin".to_string(), Some(10));
    let p1 = d.record_chunk(4);
    let p2 = d.record_chunk(0);
    let p3 = d.record_chunk(6);
    assert_eq!((p1.progress, p2.progress, p3.progress), (4, 4, 10));
    assert_eq!(p3.total, 10);
    assert_eq!(p3.model_filename, "m.bin");
    assert!(p1.progress <= p2.progress && p2.progress <= p3.progress);
}

#[test]
fn unknown_length_is_zero() {
    let mut d = DownloadProgress::new("m.bin".to_string(), None);
    assert_eq!(d.record_chunk(3).total, 0);
}

#[test]
fn completion_comes_once() {
    let mut d = DownloadProgress::new("m.bin".to_string(), Some(1));
    d.record_chunk(1);
    assert_eq!(d.finish("Model ready"), Some("Model ready".to_string()));
    assert_eq!(d.finish("Model ready"), None);
}

#[test]
fn cut_download_has_no_completion() {
    let mut d = DownloadProgress::new("m.bin".to_string(), Some(100));
    d.record_chunk(30);
    assert!(!d.finished);
    assert!(d.progress <= d.total);
}

#[test]
fn overflow_is_detected() {
    let mut d = DownloadProgress::new("m.bin".to_string(), None);
    d.record_chunk(u64::MAX - 1);
    assert!(d.can_record(1));
    assert!(!d.can_record(2));
}

#[test]
fn registry_keeps_latest_handle() {
    let mut state: DownloadState<u32> = DownloadState::new();
    assert_eq!(state.to_cancel(), None);
    assert_eq!(state.start(1), None);
    assert_eq!(state.start(2), Some(1));
    assert_eq!(state.to_cancel(), Some(&2));
}

#[test]
fn error_messages() {
    assert_eq!(Error::Io("disk full".to_string()).message(), "disk full");
    assert_eq!(Error::Request("timeout".to_string()).message(), "timeout");
}
