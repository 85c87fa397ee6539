use spela::torrent_stream::{
    compute_probe_target, parse_range_header, probe_succeeded, ByteRange, RangeError, PROBE_BYTES,
    PROBE_DEADLINE_SECS,
};

fn hv(s: &str) -> &[u8] {
    s.as_bytes()
}

#[test]
fn no_header_returns_full_range() {
    let r = parse_range_header(None, 1_000).unwrap();
    assert_eq!(r, ByteRange { start: 0, end: 999 });
    assert!(r.is_full(1_000));
}

#[test]
fn bytes_eq_n_dash_open_ended() {
    let r = parse_range_header(Some(hv("bytes=500-")), 1_000).unwrap();
    assert_eq!(
        r,
        ByteRange {
            start: 500,
            end: 999
        }
    );
    assert!(!r.is_full(1_000));
}

#[test]
fn bytes_eq_n_dash_m_bounded() {
    let r = parse_range_header(Some(hv("bytes=100-200")), 1_000).unwrap();
    assert_eq!(
        r,
        ByteRange {
            start: 100,
            end: 200
        }
    );
    assert_eq!(r.len(), 101);
}

#[test]
fn bytes_eq_n_dash_m_clamps_end_to_resource() {
    let r = parse_range_header(Some(hv("bytes=900-9999")), 1_000).unwrap();
    assert_eq!(
        r,
        ByteRange {
            start: 900,
            end: 999
        }
    );
}

#[test]
fn suffix_range_returns_last_n() {
    let r = parse_range_header(Some(hv("bytes=-100")), 1_000).unwrap();
    assert_eq!(
        r,
        ByteRange {
            start: 900,
            end: 999
        }
    );
}

#[test]
fn suffix_range_larger_than_total_clamps() {
    let r = parse_range_header(Some(hv("bytes=-99999")), 1_000).unwrap();
    assert_eq!(r, ByteRange { start: 0, end: 999 });
}

#[test]
fn start_at_zero_explicit() {
    let r = parse_range_header(Some(hv("bytes=0-")), 1_000).unwrap();
    assert_eq!(r, ByteRange { start: 0, end: 999 });
    assert!(r.is_full(1_000));
}

#[test]
fn malformed_header_no_bytes_prefix() {
    let err = parse_range_header(Some(hv("items=0-100")), 1_000).unwrap_err();
    assert_eq!(err, RangeError::Malformed);
}

#[test]
fn malformed_header_no_dash() {
    let err = parse_range_header(Some(hv("bytes=100")), 1_000).unwrap_err();
    assert_eq!(err, RangeError::Malformed);
}

#[test]
fn malformed_header_garbage_numbers() {
    let err = parse_range_header(Some(hv("bytes=abc-def")), 1_000).unwrap_err();
    assert_eq!(err, RangeError::Malformed);
}

#[test]
fn unsatisfiable_start_past_eof() {
    let err = parse_range_header(Some(hv("bytes=99999-")), 1_000).unwrap_err();
    assert_eq!(err, RangeError::Unsatisfiable);
    assert_eq!(err.http_status(), 416);
}

#[test]
fn unsatisfiable_zero_suffix() {
    let err = parse_range_header(Some(hv("bytes=-0")), 1_000).unwrap_err();
    assert_eq!(err, RangeError::Unsatisfiable);
}

#[test]
fn malformed_end_before_start() {
    let err = parse_range_header(Some(hv("bytes=500-100")), 1_000).unwrap_err();
    assert_eq!(err, RangeError::Malformed);
}

#[test]
fn multi_range_takes_first() {
    let r = parse_range_header(Some(hv("bytes=0-100,200-300")), 1_000).unwrap();
    assert_eq!(r, ByteRange { start: 0, end: 100 });
}

#[test]
fn whitespace_around_range_tolerated() {
    let r = parse_range_header(Some(hv("bytes= 0-100 ")), 1_000).unwrap();
    assert_eq!(r, ByteRange { start: 0, end: 100 });
}

#[test]
fn empty_resource_is_programming_error() {
    let err = parse_range_header(None, 0).unwrap_err();
    assert_eq!(err, RangeError::EmptyResource);
    assert_eq!(err.http_status(), 500);
}

#[test]
fn is_full_distinguishes_partial() {
    let total = 1_000_u64;
    assert!(ByteRange { start: 0, end: 999 }.is_full(total));
    assert!(!ByteRange { start: 0, end: 998 }.is_full(total));
    assert!(!ByteRange { start: 1, end: 999 }.is_full(total));
    assert!(!ByteRange {
        start: 100,
        end: 200
    }
    .is_full(total));
}

#[test]
fn typical_ffmpeg_initial_probe() {
    let r = parse_range_header(Some(hv("bytes=0-8191")), 4_500_000_000).unwrap();
    assert_eq!(r.start, 0);
    assert_eq!(r.end, 8191);
    assert!(!r.is_full(4_500_000_000));
    assert_eq!(r.len(), 8192);
}

#[test]
fn typical_ffmpeg_resume_seek() {
    let total = 4_500_000_000_u64;
    let r = parse_range_header(Some(hv("bytes=2250000000-")), total).unwrap();
    assert_eq!(r.start, 2_250_000_000);
    assert_eq!(r.end, total - 1);
    assert_eq!(r.len(), total - 2_250_000_000);
}

#[test]
fn test_probe_target_clamps_to_max_for_large_range() {
    assert_eq!(compute_probe_target(4_500_000_000), PROBE_BYTES);
}

#[test]
fn test_probe_target_clamps_to_range_for_small_range() {
    assert_eq!(compute_probe_target(1000), 1000);
}

#[test]
fn test_probe_target_handles_zero_range() {
    assert_eq!(compute_probe_target(0), 0);
}

#[test]
fn test_probe_succeeded_at_target() {
    assert!(probe_succeeded(PROBE_BYTES, PROBE_BYTES));
    assert!(probe_succeeded(PROBE_BYTES + 100, PROBE_BYTES));
}

#[test]
fn test_probe_succeeded_at_smaller_target() {
    assert!(probe_succeeded(1000, 1000));
}

#[test]
fn test_probe_failed_below_target() {
    assert!(!probe_succeeded(50, PROBE_BYTES));
    assert!(!probe_succeeded(0, PROBE_BYTES));
}

#[test]
fn test_probe_failed_for_zero_target() {
    assert!(!probe_succeeded(0, 0));
    assert!(!probe_succeeded(100, 0));
}

#[test]
fn test_probe_constants_are_stable() {
    assert_eq!(PROBE_BYTES, 64 * 1024);
    assert_eq!(PROBE_DEADLINE_SECS, 30);
}
