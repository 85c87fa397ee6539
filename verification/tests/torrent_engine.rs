use spela::torrent_engine::{
    build_stream_url, parse_mbps_string, physical_bytes, shift_librqbit_id, stats_to_progress,
    unshift_librqbit_id, validate_magnet_uri, EngineStats, TorrentState, MAX_UPLOAD_BYTES_PER_SEC,
};

fn stats(state: TorrentState, progress_bytes: u64, total_bytes: u64, finished: bool) -> EngineStats {
    EngineStats { state, progress_bytes, total_bytes, finished, live: None }
}

#[test]
fn a_sparse_placeholder_holds_no_physical_bytes_however_large_it_claims_to_be() {
    let placeholder = Some(0);
    assert_eq!(physical_bytes(&vec![placeholder]), 0);
    let real = Some(512);
    assert_eq!(physical_bytes(&vec![real]), 256 * 1024);
    assert!(physical_bytes(&vec![placeholder, real]) > 0);
    assert_eq!(physical_bytes(&vec![None]), 0);
}

#[test]
fn the_upload_ceiling_is_a_hundred_megabit_expressed_in_bytes() {
    assert_eq!(MAX_UPLOAD_BYTES_PER_SEC, 12_500_000);
    assert_eq!(MAX_UPLOAD_BYTES_PER_SEC as u64 * 8, 100_000_000);
}

#[test]
fn parse_mbps_string_handles_typical_librqbit_format() {
    assert_eq!(parse_mbps_string("3.2 MB/s"), 3_200_000);
    assert_eq!(parse_mbps_string("10.5 KB/s"), 10_500_000);
    assert_eq!(parse_mbps_string("0 B/s"), 0);
}

#[test]
fn parse_mbps_string_returns_zero_on_malformed() {
    assert_eq!(parse_mbps_string(""), 0);
    assert_eq!(parse_mbps_string("abc"), 0);
    assert_eq!(parse_mbps_string("∞"), 0);
}

#[test]
fn parse_mbps_string_handles_no_unit_suffix() {
    assert_eq!(parse_mbps_string("3.2"), 3_200_000);
    assert_eq!(parse_mbps_string("100"), 100_000_000);
}

#[test]
fn validate_magnet_uri_accepts_canonical_form() {
    let m = "magnet:?xt=urn:btih:dc4b8c7c6ef6e5314c294280b7b7d106d452a1e8&dn=foo";
    assert_eq!(validate_magnet_uri(m), Ok(m));
}

#[test]
fn validate_magnet_uri_accepts_no_query_slug() {
    let m = "magnet:dc4b8c7c6ef6e5314c294280b7b7d106d452a1e8";
    assert_eq!(validate_magnet_uri(m), Ok(m));
}

#[test]
fn validate_magnet_uri_rejects_http_ssrf_attempt() {
    assert!(validate_magnet_uri("http://192.168.4.1:6379/").is_err());
    assert!(validate_magnet_uri("http://localhost:80/admin").is_err());
}

#[test]
fn validate_magnet_uri_rejects_https_ssrf_attempt() {
    assert!(validate_magnet_uri("https://internal-service:8080/").is_err());
}

#[test]
fn validate_magnet_uri_rejects_file_url() {
    assert!(validate_magnet_uri("file:///etc/passwd").is_err());
}

#[test]
fn validate_magnet_uri_rejects_empty_string() {
    assert!(validate_magnet_uri("").is_err());
}

#[test]
fn validate_magnet_uri_rejects_torrent_file_path() {
    assert!(validate_magnet_uri("/path/to/foo.torrent").is_err());
    assert!(validate_magnet_uri("foo.torrent").is_err());
}

#[test]
fn validate_magnet_uri_rejects_close_misspell() {
    assert!(validate_magnet_uri("magnet ?xt=urn:btih:abc").is_err());
    assert!(validate_magnet_uri("magnetxt=urn:btih:abc").is_err());
}

#[test]
fn shift_librqbit_id_avoids_local_bypass_sentinel() {
    assert_eq!(shift_librqbit_id(0).unwrap(), 1);
    assert_eq!(shift_librqbit_id(1).unwrap(), 2);
    assert_eq!(shift_librqbit_id(99).unwrap(), 100);
}

#[test]
fn unshift_librqbit_id_zero_is_local_bypass() {
    assert_eq!(unshift_librqbit_id(0), None);
}

#[test]
fn unshift_librqbit_id_one_maps_to_first_torrent() {
    assert_eq!(unshift_librqbit_id(1), Some(0));
    assert_eq!(unshift_librqbit_id(2), Some(1));
    assert_eq!(unshift_librqbit_id(100), Some(99));
}

#[test]
fn shift_unshift_roundtrip() {
    for librqbit_id in [0_usize, 1, 42, 1000, (u32::MAX - 1) as usize] {
        let spela_id = shift_librqbit_id(librqbit_id).unwrap();
        assert_ne!(
            spela_id, 0,
            "shifted id must never be the Local Bypass sentinel"
        );
        let recovered = unshift_librqbit_id(spela_id).unwrap();
        assert_eq!(
            recovered, librqbit_id,
            "roundtrip for librqbit_id={}",
            librqbit_id
        );
    }
}

#[test]
fn shift_overflow_at_u32_max() {
    assert!(shift_librqbit_id(u32::MAX as usize).is_err());
}

#[test]
fn build_stream_url_formats_known_inputs() {
    let url = build_stream_url("192.168.4.1", 7890, 42, 0);
    assert_eq!(url, "http://192.168.4.1:7890/torrent/42/stream/0");
}

#[test]
fn build_stream_url_handles_hostname_streamhost() {
    let url = build_stream_url("darwin.home", 7890, 1, 3);
    assert_eq!(url, "http://darwin.home:7890/torrent/1/stream/3");
}

#[test]
fn build_stream_url_handles_high_ids() {
    let url = build_stream_url("10.0.0.5", 8080, u32::MAX, 99);
    assert_eq!(
        url,
        format!("http://10.0.0.5:8080/torrent/{}/stream/99", u32::MAX)
    );
}

#[test]
fn torrent_state_maps_all_librqbit_variants() {
    let cases = [
        TorrentState::Initializing,
        TorrentState::Live,
        TorrentState::Paused,
        TorrentState::Error,
    ];
    for state in cases {
        assert_eq!(stats_to_progress(&stats(state, 0, 0, false)).state, state);
    }
}

#[test]
fn stats_to_progress_pulls_byte_counters() {
    let prog = stats_to_progress(&stats(TorrentState::Live, 1_500_000, 4_500_000_000, false));
    assert_eq!(prog.bytes_downloaded, 1_500_000);
    assert_eq!(prog.bytes_total, 4_500_000_000);
    assert!(!prog.finished);
    assert_eq!(prog.peers_connected, 0);
    assert_eq!(prog.speed_bps, 0);
}

#[test]
fn stats_to_progress_marks_finished() {
    let prog =
        stats_to_progress(&stats(TorrentState::Live, 4_500_000_000, 4_500_000_000, true));
    assert!(prog.finished);
    assert_eq!(prog.bytes_downloaded, prog.bytes_total);
}
