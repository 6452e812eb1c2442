use waveform::window::{
    derive_bucket_size, plan_extraction, resolve_window, WaveformError,
};

#[test]
fn resolve_selects_second_second_at_4hz() {
    let w = resolve_window(8, 4, 1, Some(2)).unwrap();
    assert_eq!(w.start_sample, 4);
    assert_eq!(w.end_sample, 8);
}

#[test]
fn resolve_without_end_time_runs_to_total() {
    let w = resolve_window(100, 4, 1, None).unwrap();
    assert_eq!(w.start_sample, 4);
    assert_eq!(w.end_sample, 100);
}

#[test]
fn resolve_caps_end_time_at_total() {
    let w = resolve_window(10, 4, 0, Some(100)).unwrap();
    assert_eq!(w.start_sample, 0);
    assert_eq!(w.end_sample, 10);
}

#[test]
fn start_after_end_is_invalid_window() {
    assert_eq!(
        resolve_window(8, 4, 2, Some(1)).unwrap_err(),
        WaveformError::InvalidWindow
    );
}

#[test]
fn start_equal_to_end_is_invalid_window() {
    assert_eq!(
        resolve_window(8, 4, 1, Some(1)).unwrap_err(),
        WaveformError::InvalidWindow
    );
}

#[test]
fn start_past_total_is_invalid_window() {
    assert_eq!(
        resolve_window(4, 4, 2, None).unwrap_err(),
        WaveformError::InvalidWindow
    );
}

#[test]
fn empty_sample_sequence_is_invalid_window() {
    assert_eq!(
        resolve_window(0, 44100, 0, None).unwrap_err(),
        WaveformError::InvalidWindow
    );
}

#[test]
fn auto_bucket_size_for_window_4_width_2() {
    assert_eq!(derive_bucket_size(4, 2), 2);
}

#[test]
fn auto_bucket_size_floors_to_one() {
    assert_eq!(derive_bucket_size(3, 5), 1);
}

#[test]
fn auto_bucket_size_floors_division() {
    assert_eq!(derive_bucket_size(10, 3), 3);
}

#[test]
fn plan_derives_bucket_size_and_count() {
    let p = plan_extraction(4, 1, 0, None, 0, 2).unwrap();
    assert_eq!(p.start_sample, 0);
    assert_eq!(p.end_sample, 4);
    assert_eq!(p.bucket_size, 2);
    assert_eq!(p.overview_count, 2);
}

#[test]
fn plan_keeps_explicit_bucket_size() {
    let p = plan_extraction(100, 1, 0, None, 7, 2).unwrap();
    assert_eq!(p.bucket_size, 7);
    assert_eq!(p.overview_count, 14);
}

#[test]
fn explicit_zoom_and_end_time_conflict() {
    assert_eq!(
        plan_extraction(100, 1, 0, Some(5), 3, 2).unwrap_err(),
        WaveformError::ConflictingZoomAndEnd
    );
}

#[test]
fn window_shorter_than_one_bucket_is_empty_result() {
    assert_eq!(
        plan_extraction(4, 1, 0, None, 9, 2).unwrap_err(),
        WaveformError::EmptyResult
    );
}

#[test]
fn plan_rejects_invalid_window_before_bucket_checks() {
    assert_eq!(
        plan_extraction(8, 4, 3, None, 9, 2).unwrap_err(),
        WaveformError::InvalidWindow
    );
}
