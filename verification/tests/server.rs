use spela::cast_health::{
    buffering_timeout_for_current_stream, evaluate_buffering_state, is_idle_in_cold_start_window,
    is_natural_eof, is_position_jump_suspicious, should_attempt_recast, should_save_position,
    BufferingDecision, FAST_CHROMECAST_MAX_BUFFERING_DURATION_SECS, MAX_BUFFERING_DURATION_SECS,
    MIN_STREAM_AGE_FOR_RECAST_SECS, PREPARED_HLS_CHROMECAST_MAX_BUFFERING_DURATION_SECS,
    RECAST_COOLDOWN_SECS,
};
use spela::collections::StringSet;
use spela::hls::{
    build_padded_vod_manifest, parse_hls_playlist_for_padding, should_fail_fast_stream_start,
    FAIL_FAST_STREAM_START_SECS,
};
use spela::hosts::{compute_bind_addresses, compute_host_allowlist, parse_host_header};
use spela::local_bypass::{
    find_local_bypass_match, local_bypass_file_is_healthy, top_level_file_is_healthy, DiskEntry,
    DiskFile, EntryKind, FileMeta,
};
use spela::numbers::parse_size_to_bytes;
use spela::playback::{should_use_hls_for_playback, should_wait_for_complete_hls_before_cast};
use spela::reaper::compute_reaper_grace_secs;
use spela::requests::restart_position;
use spela::state::{AppState, CurrentStream};
use spela::static_files::parse_range_start;
use spela::time::Timestamp;
use spela::validation::{is_valid_imdb_id, is_valid_poster_url, title_tokens_match};

fn dense(name: &str, path: &str) -> DiskFile {
    let len = 110 * 1024 * 1024;
    DiskFile {
        name: name.to_string(),
        path: path.to_string(),
        symlink: Some(false),
        meta: Some(FileMeta { len, blocks: len / 512 }),
    }
}

fn sparse(name: &str, path: &str) -> DiskFile {
    DiskFile {
        name: name.to_string(),
        path: path.to_string(),
        symlink: Some(false),
        meta: Some(FileMeta { len: 200 * 1024 * 1024, blocks: 0 }),
    }
}

fn folder(name: &str, marked: bool, files: Vec<DiskFile>) -> DiskEntry {
    DiskEntry { name: name.to_string(), kind: EntryKind::Directory(marked), files }
}

fn top(file: DiskFile) -> DiskEntry {
    DiskEntry { name: file.name.clone(), kind: EntryKind::File, files: vec![file] }
}

fn stream(target: &str, url: &str, smooth: bool, prepared_hls: bool) -> CurrentStream {
    CurrentStream {
        magnet: "magnet:?xt=urn:btih:abc".into(),
        title: "Episode".into(),
        show: None,
        season: None,
        episode: None,
        imdb_id: None,
        target: target.into(),
        url: url.into(),
        started_at: Timestamp { secs: 0, nanos: 0 },
        pid: 0,
        has_subtitles: false,
        subtitle_lang: None,
        duration: None,
        quality: None,
        size: None,
        poster_url: None,
        ss_offset: 0,
        smooth,
        prepared_hls,
        cache_key: None,
    }
}

#[test]
fn chromecast_always_uses_hls_even_for_compatible_remote_media() {
    assert!(should_use_hls_for_playback(
        "chromecast",
        false,
        false,
        false,
        false,
        false,
    ));
}

#[test]
fn non_chromecast_compatible_remote_media_can_stay_direct() {
    assert!(!should_use_hls_for_playback(
        "vlc", false, false, false, false, false,
    ));
}

#[test]
fn non_chromecast_processing_reasons_still_force_hls() {
    assert!(should_use_hls_for_playback(
        "vlc", false, true, false, false, false,
    ));
    assert!(should_use_hls_for_playback(
        "vlc", false, false, false, true, false,
    ));
}

#[test]
fn chromecast_local_bypass_waits_for_completed_hls_before_cast() {
    assert!(should_wait_for_complete_hls_before_cast("chromecast", true));
}

#[test]
fn remote_or_non_chromecast_targets_keep_fast_start_behavior() {
    assert!(!should_wait_for_complete_hls_before_cast(
        "chromecast",
        false
    ));
    assert!(!should_wait_for_complete_hls_before_cast("vlc", true));
}

#[test]
fn parse_size_to_bytes_handles_known_units() {
    assert_eq!(parse_size_to_bytes("4.6 GB"), Some(4_939_212_390));
    assert_eq!(parse_size_to_bytes("100 MB"), Some(104_857_600));
    assert_eq!(parse_size_to_bytes("500 KB"), Some(512_000));
}

#[test]
fn parse_size_to_bytes_handles_tb_suffix_post_l2_fix() {
    let v = parse_size_to_bytes("1.5 TB").unwrap();
    let expected = 1.5 * 1024_f64.powi(4);
    assert!(
        (v as f64 - expected).abs() < 2.0,
        "got {}, expected ~{}",
        v,
        expected
    );
}

#[test]
fn parse_size_to_bytes_returns_none_on_unknown_unit_post_l2_fix() {
    assert_eq!(parse_size_to_bytes("1.5 PB"), None);
    assert_eq!(parse_size_to_bytes("4.6 garbage"), None);
    assert_eq!(parse_size_to_bytes("3.2 ZB"), None);
}

#[test]
fn parse_size_to_bytes_returns_none_on_malformed() {
    assert_eq!(parse_size_to_bytes(""), None);
    assert_eq!(parse_size_to_bytes("abc"), None);
    assert_eq!(parse_size_to_bytes("4.6"), None);
    assert_eq!(parse_size_to_bytes("GB 4.6"), None);
}

#[test]
fn evaluate_buffering_transient_under_threshold() {
    let d = evaluate_buffering_state(15, 200, FAST_CHROMECAST_MAX_BUFFERING_DURATION_SECS, 60);
    assert_eq!(d, BufferingDecision::Transient);
}

#[test]
fn evaluate_buffering_escalates_when_stalled_mid_stream() {
    let d = evaluate_buffering_state(
        FAST_CHROMECAST_MAX_BUFFERING_DURATION_SECS,
        200,
        FAST_CHROMECAST_MAX_BUFFERING_DURATION_SECS,
        60,
    );
    assert_eq!(d, BufferingDecision::EscalateToCleanup);
}

#[test]
fn evaluate_buffering_in_startup_window_does_not_escalate() {
    let d = evaluate_buffering_state(
        FAST_CHROMECAST_MAX_BUFFERING_DURATION_SECS,
        30,
        FAST_CHROMECAST_MAX_BUFFERING_DURATION_SECS,
        60,
    );
    assert_eq!(d, BufferingDecision::InStartupWindow);
}

#[test]
fn evaluate_buffering_at_exactly_thresholds_escalates() {
    let d = evaluate_buffering_state(
        FAST_CHROMECAST_MAX_BUFFERING_DURATION_SECS,
        60,
        FAST_CHROMECAST_MAX_BUFFERING_DURATION_SECS,
        60,
    );
    assert_eq!(d, BufferingDecision::EscalateToCleanup);
}

#[test]
fn prepared_hls_chromecast_uses_tighter_buffering_timeout() {
    let current = stream(
        "chromecast:Fredriks TV",
        "http://192.168.4.1:7890/hls/master.m3u8",
        true,
        true,
    );
    assert_eq!(
        buffering_timeout_for_current_stream(Some(&current)),
        PREPARED_HLS_CHROMECAST_MAX_BUFFERING_DURATION_SECS
    );
}

#[test]
fn fast_start_chromecast_uses_mid_buffering_timeout() {
    let current = stream(
        "chromecast:Fredriks TV",
        "http://192.168.4.1:7890/hls/master.m3u8",
        false,
        false,
    );
    assert_eq!(
        buffering_timeout_for_current_stream(Some(&current)),
        FAST_CHROMECAST_MAX_BUFFERING_DURATION_SECS
    );
}

#[test]
fn non_chromecast_keeps_legacy_buffering_timeout() {
    let current = stream("vlc:local", "http://127.0.0.1:7890/stream/transcode", false, false);
    assert_eq!(
        buffering_timeout_for_current_stream(Some(&current)),
        MAX_BUFFERING_DURATION_SECS
    );
}

#[test]
fn is_natural_eof_live_stream_no_duration() {
    assert!(!is_natural_eof(None, Some(3000000), 96));
    assert!(!is_natural_eof(Some(0), Some(3000000), 96));
    assert!(!is_natural_eof(Some(-1000), Some(3000000), 96));
}

#[test]
fn is_natural_eof_no_position_yet() {
    assert!(!is_natural_eof(Some(3000000), None, 96));
}

#[test]
fn is_natural_eof_past_threshold_is_eof() {
    assert!(is_natural_eof(Some(3000000), Some(2900000), 96));
}

#[test]
fn is_natural_eof_below_threshold_not_eof() {
    assert!(!is_natural_eof(Some(6780000), Some(6240000), 96));
    assert!(is_natural_eof(Some(6780000), Some(6543000), 96));
}

#[test]
fn should_save_position_skips_too_early() {
    assert!(!should_save_position(15000, 0, 30000, 30000));
    assert!(!should_save_position(30000, 0, 30000, 30000));
}

#[test]
fn should_save_position_skips_too_recent() {
    assert!(!should_save_position(120000, 100000, 30000, 30000));
}

#[test]
fn should_save_position_ok_after_threshold_and_interval() {
    assert!(should_save_position(120000, 60000, 30000, 30000));
    assert!(should_save_position(35000, 0, 30000, 30000));
}

#[test]
fn find_local_bypass_directory_match_with_done_marker() {
    let mkv = "/m/The.Boys.S05E03.1080p.FLUX/The.Boys.S05E03.1080p.FLUX.mkv";
    let entries = vec![folder(
        "The.Boys.S05E03.1080p.FLUX",
        true,
        vec![dense("The.Boys.S05E03.1080p.FLUX.mkv", mkv)],
    )];
    let result =
        find_local_bypass_match(&entries, "The Boys S05E03", Some("1080p"), 0, &StringSet::new());
    assert_eq!(result.as_deref(), Some(mkv));
}

#[test]
fn find_local_bypass_top_level_file_match() {
    let mkv = "/m/The.Boys.S05E03.1080p.FLUX.mkv";
    let entries = vec![top(dense("The.Boys.S05E03.1080p.FLUX.mkv", mkv))];
    let result =
        find_local_bypass_match(&entries, "The Boys S05E03", Some("1080p"), 0, &StringSet::new());
    assert_eq!(result.as_deref(), Some(mkv));
}

#[test]
fn find_local_bypass_top_level_file_skips_large_expected_size_mismatch() {
    let entries = vec![top(dense(
        "The.Night.Manager.S02E04.1080p.HEVC.x265-MeGusta.mkv",
        "/m/The.Night.Manager.S02E04.1080p.HEVC.x265-MeGusta.mkv",
    ))];
    let result = find_local_bypass_match(
        &entries,
        "The Night Manager S02E04",
        Some("1080p"),
        1_696_512_081,
        &StringSet::new(),
    );
    assert!(result.is_none());
}

#[test]
fn find_local_bypass_returns_none_on_no_match() {
    let entries = vec![top(dense("Different.Show.S01E01.mkv", "/m/Different.Show.S01E01.mkv"))];
    assert!(
        find_local_bypass_match(&entries, "The Boys S05E03", None, 0, &StringSet::new()).is_none()
    );
}

#[test]
fn find_local_bypass_quality_mismatch_4k_target_skips_1080p() {
    let entries = vec![folder(
        "The.Boys.S05E03.1080p",
        true,
        vec![dense("The.Boys.S05E03.1080p.mkv", "/m/d/The.Boys.S05E03.1080p.mkv")],
    )];
    let result =
        find_local_bypass_match(&entries, "The Boys S05E03", Some("2160p"), 0, &StringSet::new());
    assert!(result.is_none());
}

#[test]
fn find_local_bypass_skips_transcoded_artifacts() {
    let entries = vec![folder(
        "The.Boys.S05E03",
        true,
        vec![dense("transcoded_aac.mp4", "/m/The.Boys.S05E03/transcoded_aac.mp4")],
    )];
    let result = find_local_bypass_match(&entries, "The Boys S05E03", None, 0, &StringSet::new());
    assert!(result.is_none());
}

#[test]
fn find_local_bypass_rejects_sparse_top_level_file() {
    let entries = vec![top(sparse("The.Boys.S05E03.mkv", "/m/The.Boys.S05E03.mkv"))];
    let result = find_local_bypass_match(&entries, "The Boys S05E03", None, 0, &StringSet::new());
    assert!(result.is_none());
}

#[test]
fn find_local_bypass_year_filter_2026_excludes_2025() {
    let entries = vec![folder("The.Boys.S05E03.2025", true, vec![dense("a.mkv", "/m/d/a.mkv")])];
    let result =
        find_local_bypass_match(&entries, "The Boys S05E03 2026", None, 0, &StringSet::new());
    assert!(result.is_none());
}

#[test]
fn find_local_bypass_skips_known_corrupt_top_level_file() {
    let mkv = "/m/The.Boys.S05E03.FLUX.mkv";
    let entries = vec![top(dense("The.Boys.S05E03.FLUX.mkv", mkv))];
    let mut corrupt = StringSet::new();
    corrupt.insert(mkv.to_string());
    let result = find_local_bypass_match(&entries, "The Boys S05E03", Some("1080p"), 0, &corrupt);
    assert!(result.is_none());
}

#[test]
fn find_local_bypass_skips_known_corrupt_directory_file() {
    let mkv = "/m/The.Boys.S05E03.1080p.FLUX/The.Boys.S05E03.1080p.FLUX.mkv";
    let entries = vec![folder(
        "The.Boys.S05E03.1080p.FLUX",
        true,
        vec![dense("The.Boys.S05E03.1080p.FLUX.mkv", mkv)],
    )];
    let mut corrupt = StringSet::new();
    corrupt.insert(mkv.to_string());
    let result = find_local_bypass_match(&entries, "The Boys S05E03", Some("1080p"), 0, &corrupt);
    assert!(result.is_none());
}

#[test]
fn find_local_bypass_no_year_in_request_matches_anything() {
    let entries = vec![folder("The.Boys.S05E03.2025", true, vec![dense("a.mkv", "/m/d/a.mkv")])];
    let result = find_local_bypass_match(&entries, "The Boys S05E03", None, 0, &StringSet::new());
    assert_eq!(result.as_deref(), Some("/m/d/a.mkv"));
}

#[test]
fn test_top_level_file_is_healthy_rejects_below_100mb() {
    let len = 50 * 1024 * 1024;
    assert!(!top_level_file_is_healthy(Some(FileMeta { len, blocks: len / 512 }), 0));
}

#[test]
fn test_top_level_file_is_healthy_accepts_dense_full_file() {
    let len = 110 * 1024 * 1024;
    assert!(top_level_file_is_healthy(Some(FileMeta { len, blocks: len / 512 }), 0));
}

#[test]
fn test_top_level_file_is_healthy_rejects_sparse_below_95pct() {
    let len = 200 * 1024 * 1024;
    assert!(!top_level_file_is_healthy(Some(FileMeta { len, blocks: 0 }), 0));
}

#[test]
fn test_top_level_file_is_healthy_rejects_nonexistent_path() {
    assert!(!top_level_file_is_healthy(None, 0));
}

#[test]
fn is_valid_imdb_id_accepts_canonical_movie_id() {
    assert!(is_valid_imdb_id("tt1190634"));
    assert!(is_valid_imdb_id("tt0903747"));
}

#[test]
fn is_valid_imdb_id_accepts_per_episode_form() {
    assert!(is_valid_imdb_id("tt1190634_s05e05"));
    assert!(is_valid_imdb_id("tt19854762_s02e08"));
    assert!(is_valid_imdb_id("tt1234567_s100e1234"));
}

#[test]
fn is_valid_imdb_id_rejects_garbage() {
    assert!(!is_valid_imdb_id("attacker_string_no_tt_prefix"));
    assert!(!is_valid_imdb_id("tt"));
    assert!(!is_valid_imdb_id("tt12345abc"));
    assert!(!is_valid_imdb_id("tt1234567890123"));
    assert!(!is_valid_imdb_id(""));
}

#[test]
fn is_valid_imdb_id_rejects_malformed_episode_suffix() {
    assert!(!is_valid_imdb_id("tt1234_s05"));
    assert!(!is_valid_imdb_id("tt1234_s05e"));
    assert!(!is_valid_imdb_id("tt1234_s05e1234567"));
    assert!(!is_valid_imdb_id("tt1234_s5e1abc"));
    assert!(!is_valid_imdb_id("tt1234x_s5e1"));
}

#[test]
fn is_valid_poster_url_accepts_tmdb_cdn() {
    assert!(is_valid_poster_url(
        "https://image.tmdb.org/t/p/w500/in1R2dDc421JxsoRWaIIAqVI2KE.jpg"
    ));
}

#[test]
fn is_valid_poster_url_rejects_internal_targets() {
    assert!(!is_valid_poster_url("http://192.168.4.1:6379/"));
    assert!(!is_valid_poster_url("http://localhost:80/"));
    assert!(!is_valid_poster_url("file:///etc/passwd"));
}

#[test]
fn is_valid_poster_url_rejects_http_insecure() {
    assert!(!is_valid_poster_url("http://image.tmdb.org/foo.jpg"));
}

#[test]
fn is_valid_poster_url_rejects_subdomain_lookalike() {
    assert!(!is_valid_poster_url(
        "https://image.tmdb.org.evil.com/foo.jpg"
    ));
}

#[test]
fn parse_host_header_strips_port() {
    assert_eq!(parse_host_header("darwin.home:7890"), "darwin.home");
    assert_eq!(parse_host_header("192.168.4.1:7890"), "192.168.4.1");
    assert_eq!(parse_host_header("localhost:7890"), "localhost");
}

#[test]
fn parse_host_header_no_port() {
    assert_eq!(parse_host_header("darwin.home"), "darwin.home");
    assert_eq!(parse_host_header("localhost"), "localhost");
}

#[test]
fn parse_host_header_handles_ipv6_loopback_with_port() {
    assert_eq!(parse_host_header("[::1]:7890"), "[::1]");
}

#[test]
fn parse_host_header_handles_ipv6_no_port() {
    assert_eq!(parse_host_header("[::1]"), "[::1]");
}

#[test]
fn compute_bind_addresses_dual_binds_on_specific_lan_ip() {
    let addrs = compute_bind_addresses("192.168.4.1", 7890);
    assert_eq!(addrs.len(), 2, "expected dual bind, got {:?}", addrs);
    assert!(addrs.contains(&"127.0.0.1:7890".to_string()));
    assert!(addrs.contains(&"192.168.4.1:7890".to_string()));
}

#[test]
fn compute_bind_addresses_single_binds_on_loopback() {
    let addrs = compute_bind_addresses("127.0.0.1", 7890);
    assert_eq!(addrs, vec!["127.0.0.1:7890".to_string()]);
}

#[test]
fn compute_bind_addresses_single_binds_on_wildcard() {
    let addrs = compute_bind_addresses("0.0.0.0", 7890);
    assert_eq!(addrs, vec!["0.0.0.0:7890".to_string()]);
}

#[test]
fn compute_bind_addresses_single_binds_on_localhost_alias() {
    let addrs = compute_bind_addresses("localhost", 7890);
    assert_eq!(addrs, vec!["localhost:7890".to_string()]);
}

#[test]
fn compute_bind_addresses_single_binds_on_ipv6_loopback_and_wildcard() {
    for h in ["::1", "::", "[::1]", "[::]"] {
        let addrs = compute_bind_addresses(h, 7890);
        assert_eq!(
            addrs.len(),
            1,
            "ipv6 loopback/wildcard {h:?} should single-bind"
        );
    }
}

#[test]
fn compute_bind_addresses_loopback_is_always_first_when_dual() {
    let addrs = compute_bind_addresses("192.168.4.1", 7890);
    assert_eq!(addrs[0], "127.0.0.1:7890");
}

#[test]
fn is_idle_in_cold_start_window_protects_fresh_load_with_no_session() {
    assert!(is_idle_in_cold_start_window(None, None, 10, 60));
    assert!(is_idle_in_cold_start_window(None, None, 20, 60));
    assert!(is_idle_in_cold_start_window(None, None, 59, 60));
}

#[test]
fn is_idle_in_cold_start_window_releases_grace_at_window_boundary() {
    assert!(!is_idle_in_cold_start_window(None, None, 60, 60));
    assert!(!is_idle_in_cold_start_window(None, None, 120, 60));
}

#[test]
fn is_idle_in_cold_start_window_releases_grace_when_session_appears() {
    assert!(!is_idle_in_cold_start_window(Some(1), None, 5, 60));
    assert!(!is_idle_in_cold_start_window(
        Some(42),
        Some("IDLE"),
        30,
        60
    ));
}

#[test]
fn is_idle_in_cold_start_window_releases_grace_after_playing() {
    assert!(!is_idle_in_cold_start_window(None, Some("PLAYING"), 10, 60));
    assert!(!is_idle_in_cold_start_window(
        None,
        Some("BUFFERING"),
        10,
        60
    ));
    assert!(!is_idle_in_cold_start_window(None, Some("PAUSED"), 10, 60));
}

#[test]
fn is_idle_in_cold_start_window_handles_idle_class_prev_states() {
    assert!(is_idle_in_cold_start_window(None, Some("IDLE"), 10, 60));
    assert!(is_idle_in_cold_start_window(None, Some("UNKNOWN"), 10, 60));
    assert!(is_idle_in_cold_start_window(None, Some(""), 10, 60));
}

#[test]
fn is_idle_in_cold_start_window_pinning_test_for_wilderpeople_repro() {
    let stream_age_at_pre_cleanup = 20u64;
    assert!(is_idle_in_cold_start_window(
        None,
        None,
        stream_age_at_pre_cleanup,
        MIN_STREAM_AGE_FOR_RECAST_SECS,
    ));
}

#[test]
fn compute_bind_addresses_does_not_expose_wan() {
    let addrs = compute_bind_addresses("192.168.4.1", 7890);
    assert!(!addrs.iter().any(|a| a.starts_with("0.0.0.0:")));
    assert!(
        !addrs.iter().any(|a| a.contains("94.254.")),
        "WAN IP must never appear in bind addresses, got {:?}",
        addrs
    );
}

#[test]
fn compute_host_allowlist_includes_canonical_defaults() {
    let allow = compute_host_allowlist("", &vec![]);
    assert!(allow.contains("localhost"));
    assert!(allow.contains("127.0.0.1"));
    assert!(allow.contains("darwin.home"));
}

#[test]
fn compute_host_allowlist_includes_stream_host_when_set() {
    let allow = compute_host_allowlist("192.168.4.1", &vec![]);
    assert!(allow.contains("192.168.4.1"));
}

#[test]
fn compute_host_allowlist_includes_user_additions() {
    let allow =
        compute_host_allowlist("", &vec!["my-tailscale-name".into(), "100.64.1.5".into()]);
    assert!(allow.contains("my-tailscale-name"));
    assert!(allow.contains("100.64.1.5"));
}

#[test]
fn compute_host_allowlist_skips_empty_user_additions() {
    let allow = compute_host_allowlist("", &vec!["".into(), "real".into()]);
    assert!(!allow.contains(""));
    assert!(allow.contains("real"));
}

#[test]
fn compute_host_allowlist_rejects_unknown_wan_ip() {
    let allow = compute_host_allowlist("", &vec![]);
    assert!(!allow.contains("94.254.88.116"));
}

#[test]
fn test_grace_covers_63_minute_episode() {
    let grace = compute_reaper_grace_secs(Some(3823600), 0);
    assert!(
        grace >= 3823 + 600,
        "63-min episode needs at least 73 min grace, got {} s",
        grace
    );
}

#[test]
fn test_grace_covers_three_hour_movie() {
    let grace = compute_reaper_grace_secs(Some(10800000), 0);
    assert!(
        grace >= 10800 + 600,
        "3-hour movie needs at least 190 min grace, got {} s",
        grace
    );
}

#[test]
fn test_grace_respects_seek_offset() {
    let grace = compute_reaper_grace_secs(Some(3823600), 1800000);
    assert!(
        grace >= 2023 + 600,
        "post-seek grace should cover (duration-ss_offset)+cushion, got {} s",
        grace
    );
    assert!(
        grace < 4000,
        "post-seek grace should NOT allocate for the whole duration, got {} s",
        grace
    );
}

#[test]
fn test_grace_floor_protects_short_clips() {
    let grace = compute_reaper_grace_secs(Some(30000), 0);
    assert!(grace >= 300, "5-min floor should apply, got {} s", grace);
}

#[test]
fn test_grace_floor_applies_to_zero_duration_gracefully() {
    let grace = compute_reaper_grace_secs(Some(0), 0);
    assert_eq!(grace, 2700, "duration=0 should use the legacy default");
}

#[test]
fn test_grace_unknown_duration_uses_legacy_default() {
    assert_eq!(compute_reaper_grace_secs(None, 0), 2700);
    assert_eq!(compute_reaper_grace_secs(None, 1800000), 2700);
}

#[test]
fn test_grace_seek_past_end_clamps_to_floor() {
    let grace = compute_reaper_grace_secs(Some(1800000), 3600000);
    assert_eq!(grace, 600);
}

#[test]
fn test_position_jump_sanity_normal_playback() {
    assert!(!is_position_jump_suspicious(30000, 30000));
    assert!(!is_position_jump_suspicious(5000, 5000));
}

#[test]
fn test_position_jump_sanity_fast_playback() {
    assert!(!is_position_jump_suspicious(30000, 60000));
    assert!(!is_position_jump_suspicious(30000, 120000));
}

#[test]
fn test_position_jump_sanity_boundary_just_over() {
    assert!(is_position_jump_suspicious(30000, 120100));
}

#[test]
fn test_position_jump_sanity_impossible_advance() {
    assert!(is_position_jump_suspicious(60000, 1796000));
    assert!(is_position_jump_suspicious(5000, 1000000));
    assert!(is_position_jump_suspicious(30000, 3478000));
}

#[test]
fn test_position_jump_sanity_first_tick_allowed() {
    assert!(!is_position_jump_suspicious(0, 1000000));
    assert!(!is_position_jump_suspicious(0, 10000));
}

#[test]
fn test_position_jump_sanity_rewind_allowed() {
    assert!(!is_position_jump_suspicious(30000, -100000));
    assert!(!is_position_jump_suspicious(5000, -5000));
}

#[test]
fn test_parse_range_open_ended() {
    assert_eq!(parse_range_start(Some("bytes=12345-")), 12345);
}

#[test]
fn test_parse_range_zero() {
    assert_eq!(parse_range_start(Some("bytes=0-")), 0);
}

#[test]
fn test_parse_range_bounded_ignored() {
    assert_eq!(parse_range_start(Some("bytes=100-500")), 0);
}

#[test]
fn test_parse_range_no_header() {
    assert_eq!(parse_range_start(None), 0);
}

#[test]
fn test_parse_range_garbage() {
    assert_eq!(parse_range_start(Some("not-a-range")), 0);
}

#[test]
fn test_parse_range_missing_prefix() {
    assert_eq!(parse_range_start(Some("12345-")), 0);
}

#[test]
fn test_parse_range_large_offset() {
    assert_eq!(parse_range_start(Some("bytes=107374182400-")), 107374182400);
}

#[test]
fn test_parse_range_multipart_ignored() {
    assert_eq!(parse_range_start(Some("bytes=0-100, 200-300")), 0);
}

#[test]
fn test_resume_positions_default_empty() {
    let state = AppState::default();
    assert_eq!(state.resume_positions.len(), 0);
}

#[test]
fn test_seek_restart_negative_clamped() {
    assert_eq!(restart_position(Some(-100_000)), Some(0));
}

#[test]
fn test_seek_restart_zero_valid() {
    assert_eq!(restart_position(Some(0)), Some(0));
}

#[test]
fn test_seek_restart_large_value() {
    assert_eq!(restart_position(Some(10_800_000)), Some(10_800_000));
}

#[test]
fn test_parse_size_to_bytes_units() {
    assert_eq!(parse_size_to_bytes("1 GB"), Some(1024 * 1024 * 1024));
    assert_eq!(parse_size_to_bytes("1.5 GB"), Some(1610612736));
    assert_eq!(parse_size_to_bytes("700 MB"), Some(700 * 1024 * 1024));
    assert_eq!(parse_size_to_bytes("nonsense"), None);
}

#[test]
fn test_title_tokens_match_sanitized_folder_names() {
    assert!(title_tokens_match(
        "Some.Movie.Title.2026.1080p.WEB-DL",
        "Some Movie Title"
    ));
    assert!(!title_tokens_match(
        "Some Other Movie 2026 1080p",
        "Some Movie Title"
    ));
}

#[test]
fn test_local_bypass_does_not_trust_marker_when_expected_size_disagrees() {
    let file = DiskFile {
        name: "file".to_string(),
        path: "/m/file".to_string(),
        symlink: Some(false),
        meta: Some(FileMeta { len: 4096, blocks: 8 }),
    };
    assert!(!local_bypass_file_is_healthy(&file, true, 1024 * 1024 * 1024));
    assert!(local_bypass_file_is_healthy(&file, true, 0));
    assert!(!local_bypass_file_is_healthy(&file, false, 0));
}

#[test]
fn test_recast_normal_mid_stream_death() {
    assert!(should_attempt_recast(None, 720, true));
}

#[test]
fn test_recast_unbounded_with_cooldown_satisfied() {
    let just_above = RECAST_COOLDOWN_SECS;
    assert!(should_attempt_recast(Some(just_above), 720, true));
    assert!(should_attempt_recast(Some(600), 720, true));
    assert!(should_attempt_recast(Some(u64::MAX), 720, true));
}

#[test]
fn test_recast_blocked_during_cooldown() {
    assert!(!should_attempt_recast(Some(0), 720, true));
    assert!(!should_attempt_recast(Some(10), 720, true));
    assert!(!should_attempt_recast(
        Some(RECAST_COOLDOWN_SECS - 1),
        720,
        true
    ));
}

#[test]
fn test_recast_rejects_startup_failures() {
    assert!(!should_attempt_recast(None, 0, true));
    assert!(!should_attempt_recast(None, 30, true));
    assert!(!should_attempt_recast(None, 59, true));
    assert!(should_attempt_recast(
        None,
        MIN_STREAM_AGE_FOR_RECAST_SECS,
        true
    ));
}

#[test]
fn test_recast_requires_valid_hwm() {
    assert!(!should_attempt_recast(None, 720, false));
    assert!(!should_attempt_recast(Some(120), 720, false));
}

#[test]
fn test_recast_min_stream_age_is_stable() {
    assert_eq!(MIN_STREAM_AGE_FOR_RECAST_SECS, 60);
}

#[test]
fn test_recast_cooldown_is_stable() {
    assert_eq!(RECAST_COOLDOWN_SECS, 30);
}

#[test]
fn test_fail_fast_at_exact_20s_with_zero_segments_triggers() {
    assert!(should_fail_fast_stream_start(20, 0));
}

#[test]
fn test_fail_fast_just_below_20s_does_not_trigger() {
    assert!(!should_fail_fast_stream_start(19, 0));
    assert!(!should_fail_fast_stream_start(10, 0));
    assert!(!should_fail_fast_stream_start(0, 0));
}

#[test]
fn test_fail_fast_any_segments_means_healthy() {
    assert!(!should_fail_fast_stream_start(20, 1));
    assert!(!should_fail_fast_stream_start(45, 5));
    assert!(!should_fail_fast_stream_start(60, 10));
    assert!(!should_fail_fast_stream_start(120, 100));
}

#[test]
fn test_fail_fast_past_deadline_still_triggers_until_segments_appear() {
    assert!(should_fail_fast_stream_start(30, 0));
    assert!(should_fail_fast_stream_start(60, 0));
    assert!(should_fail_fast_stream_start(120, 0));
}

#[test]
fn test_fail_fast_deadline_is_stable() {
    assert_eq!(FAIL_FAST_STREAM_START_SECS, 20);
}

#[test]
fn test_fail_fast_replays_may13_2026_apr_may_incident() {
    let observed_log_progression = &[
        (5, 0, false),
        (15, 0, false),
        (20, 0, true),
        (60, 0, true),
    ];
    for (elapsed, segments, expected_trigger) in observed_log_progression {
        assert_eq!(
            should_fail_fast_stream_start(*elapsed, *segments),
            *expected_trigger,
            "elapsed={elapsed}s segments={segments} expected trigger={expected_trigger}"
        );
    }
}

#[test]
fn test_apr29_morning_e2_resume_pattern_recovers() {
    let _healthy_for = 70;
    let _freeze_for = 63;
    let cycle = 133;

    assert!(should_attempt_recast(None, 120, true));

    assert!(should_attempt_recast(Some(cycle), 120 + cycle, true));

    assert!(should_attempt_recast(Some(cycle), 120 + 2 * cycle, true));

    assert!(
        should_attempt_recast(Some(72), 200, true),
        "3rd recast at 72s gap MUST be allowed at the new 60s cooldown"
    );
}

#[test]
fn test_max_buffering_duration_is_stable() {
    assert_eq!(MAX_BUFFERING_DURATION_SECS, 30);
    assert_eq!(FAST_CHROMECAST_MAX_BUFFERING_DURATION_SECS, 20);
    assert_eq!(PREPARED_HLS_CHROMECAST_MAX_BUFFERING_DURATION_SECS, 15);
}

#[test]
fn parse_extracts_header_entries_no_endlist() {
    let body = "\
#EXTM3U
#EXT-X-VERSION:3
#EXT-X-TARGETDURATION:10
#EXT-X-MEDIA-SEQUENCE:0
#EXTINF:10.427089,
seg_00000.ts
#EXTINF:10.427078,
seg_00001.ts
";
    let (header, entries, had_endlist) = parse_hls_playlist_for_padding(body);
    assert!(!had_endlist);
    assert_eq!(
        header,
        vec![
            "#EXTM3U",
            "#EXT-X-VERSION:3",
            "#EXT-X-TARGETDURATION:10",
            "#EXT-X-MEDIA-SEQUENCE:0",
        ]
    );
    assert_eq!(entries.len(), 2);
    assert_eq!(entries[0].0, 10_427_089);
    assert_eq!(entries[0].1, "seg_00000.ts");
    assert_eq!(entries[1].1, "seg_00001.ts");
}

#[test]
fn parse_detects_endlist() {
    let body = "\
#EXTM3U
#EXT-X-VERSION:3
#EXT-X-TARGETDURATION:10
#EXT-X-MEDIA-SEQUENCE:0
#EXTINF:6.0,
seg_00000.ts
#EXT-X-ENDLIST
";
    let (_, _, had_endlist) = parse_hls_playlist_for_padding(body);
    assert!(had_endlist, "ENDLIST presence must be detected");
}

#[test]
fn parse_handles_empty_playlist() {
    let body = "#EXTM3U\n#EXT-X-VERSION:3\n";
    let (header, entries, had_endlist) = parse_hls_playlist_for_padding(body);
    assert!(!had_endlist);
    assert_eq!(entries.len(), 0);
    assert_eq!(header.len(), 2);
}

#[test]
fn padded_manifest_existing_endlist_is_passthrough() {
    let body = "#EXTM3U\n#EXT-X-VERSION:3\n#EXTINF:6.0,\nseg_00000.ts\n#EXT-X-ENDLIST\n";
    let out = build_padded_vod_manifest(body, 60_000, 6_000);
    assert_eq!(out, body);
}

#[test]
fn padded_manifest_predicts_correct_count_from_avg() {
    let body = "\
#EXTM3U
#EXT-X-VERSION:3
#EXT-X-TARGETDURATION:10
#EXT-X-MEDIA-SEQUENCE:0
#EXTINF:10.0,
seg_00000.ts
#EXTINF:10.0,
seg_00001.ts
#EXTINF:10.0,
seg_00002.ts
";
    let out = build_padded_vod_manifest(body, 600_000, 6_000);
    let segment_count = out.matches("seg_").count();
    assert_eq!(segment_count, 62);
    assert!(out.contains("#EXT-X-ENDLIST"));
    assert_eq!(out.matches("#EXT-X-ENDLIST").count(), 1);
    assert!(out.contains("#EXTINF:10.000000,\nseg_00000.ts"));
    assert!(out.contains("seg_00059.ts"));
    assert!(out.contains("seg_00061.ts"));
    assert!(!out.contains("seg_00062.ts"));
}

#[test]
fn padded_manifest_no_emitted_segments_uses_default() {
    let body = "#EXTM3U\n#EXT-X-VERSION:3\n#EXT-X-TARGETDURATION:6\n#EXT-X-MEDIA-SEQUENCE:0\n";
    let out = build_padded_vod_manifest(body, 60_000, 6_000);
    let segment_count = out.matches("seg_").count();
    assert_eq!(segment_count, 12);
    assert!(out.contains("#EXT-X-ENDLIST"));
}

#[test]
fn padded_manifest_zero_remaining_returns_minimal_endlist() {
    let body = "#EXTM3U\n#EXT-X-VERSION:3\n";
    let out = build_padded_vod_manifest(body, 0, 6_000);
    assert!(out.contains("#EXT-X-ENDLIST"));
}

#[test]
fn padded_manifest_never_under_predicts_emitted_count() {
    let mut body = String::from(
        "#EXTM3U\n#EXT-X-VERSION:3\n#EXT-X-TARGETDURATION:10\n#EXT-X-MEDIA-SEQUENCE:0\n",
    );
    for i in 0..100 {
        body.push_str(&format!("#EXTINF:10.0,\nseg_{:05}.ts\n", i));
    }
    let out = build_padded_vod_manifest(&body, 60_000, 6_000);
    let segment_count = out.matches("seg_").count();
    assert!(segment_count >= 100);
}

#[test]
fn padded_manifest_apr29_realistic_hijack_s2e2_case() {
    let mut body = String::from(
        "#EXTM3U\n#EXT-X-VERSION:3\n#EXT-X-TARGETDURATION:11\n#EXT-X-MEDIA-SEQUENCE:0\n",
    );
    for i in 0..10 {
        body.push_str(&format!("#EXTINF:10.4,\nseg_{:05}.ts\n", i));
    }
    let out = build_padded_vod_manifest(&body, 2_920_000, 6_000);

    let segment_count = out.matches("seg_").count();
    assert!(
        (283..=285).contains(&segment_count),
        "Expected ~283 segments for full Hijack S2E2 episode, got {}",
        segment_count
    );

    assert!(out.contains("#EXT-X-ENDLIST"));
    assert!(out.contains("#EXTINF:"));
}

#[test]
fn test_apr29_hijack_s2e2_recurring_idle_recovery() {

    let first_idle_secs_since_recast = None;
    let first_idle_stream_age = 32 * 60;
    assert!(
        should_attempt_recast(first_idle_secs_since_recast, first_idle_stream_age, true),
        "First IDLE → recast permitted under both old and new logic"
    );

    let second_idle_secs_since_recast = Some(180);
    let second_idle_stream_age = 32 * 60 + 180;
    assert!(
        should_attempt_recast(second_idle_secs_since_recast, second_idle_stream_age, true),
        "Second IDLE 3 min later → recast permitted with cooldown (was blocked by cap-of-1)"
    );
}

#[test]
fn test_recast_blocks_simulated_wedge() {
    let mut elapsed_since_recast: u64 = 0;
    let stream_age: u64 = 120;
    let mut recast_count = 0;
    for _tick in 0..40 {
        if should_attempt_recast(Some(elapsed_since_recast), stream_age, true) {
            recast_count += 1;
            elapsed_since_recast = 0;
        } else {
            elapsed_since_recast += 15;
        }
    }
    assert!(
        recast_count <= 22,
        "Expected ≤ 22 recasts in 600s of 15s-period wedge at 30s cooldown; got {}",
        recast_count
    );
    assert!(
        recast_count >= 1,
        "Wedge protection must not block the FIRST recast"
    );
    assert!(
        recast_count < 40,
        "Recast firing on every tick = wedge protection broken"
    );
}
