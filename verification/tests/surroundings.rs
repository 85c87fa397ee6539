use spela::collections::StringMap;
use spela::hosts::{compute_host_allowlist, host_allowed};
use spela::local_bypass::{should_mark_done, DiskFile, FileMeta};
use spela::log_ring::{plan_rotation, ring_path, RotateStep};
use spela::reaper::{
    cap_bytes, end_seen, expected_size, note_corruption, promotion_key, reap_after_grace,
    reaper_step, ReaperStep,
};
use spela::requests::{
    check_position, check_reset, checked_query, clear_queue, device_name_fits, enqueue, is_running,
    looks_like_hostname, queue_item, receiver_config, reconcile_on_startup, set_preferences,
    status_text, PositionError, QueueAddRequest, QueueError,
};
use spela::search::{SearchResult, TorrentResult};
use spela::show_notes::{title_key, ShowNote, ShowNotes};
use spela::state::{AppState, CurrentStream};
use spela::time::Timestamp;
use spela::torrent::should_kill;
use spela::magnet::readable_link;
use spela::torrent_engine::{
    already_managed, finished_and_seeding, is_torrent_alive, life_step, owner_of, plan_settle,
    plan_start, plan_stop, remember_dead, resume_for, seek_window, shift_librqbit_id, shows_life,
    start_info, tail_start, DownloadStatus, DownloadWait, FileList, HeldTorrent, LifeStep,
    ListedTorrent, RestoredTorrent, StartPlan, StopPlan, TorrentProgress, TorrentState,
};
use spela::torrent_stream::{
    judge_open_failure, parse_range_header, stream_head, ByteRange, OpenFailure, RangeError,
};
use spela::validation::{content_type_of_segment, is_safe_segment_name, sanitize_title};

fn text(s: &str) -> Option<String> {
    Some(s.to_string())
}

fn stream(pid: u32) -> CurrentStream {
    CurrentStream {
        magnet: "magnet:?xt=urn:btih:1".to_string(),
        title: "The Film".to_string(),
        show: None,
        season: None,
        episode: None,
        imdb_id: text("tt1"),
        target: "chromecast:TV".to_string(),
        url: "http://h/hls/master.m3u8".to_string(),
        started_at: Timestamp { secs: 0, nanos: 0 },
        pid,
        has_subtitles: false,
        subtitle_lang: None,
        duration: Some(3_600_000),
        quality: None,
        size: None,
        poster_url: None,
        ss_offset: 0,
        smooth: false,
        prepared_hls: false,
        cache_key: text("tt1_nosub_nointro"),
    }
}

// --------------------------------------------------------------------- torrents
const HASH: &str = "a621779b5e3d486e127c3efbca9b6f8d135f52e5";

fn held(id: usize, first: u8) -> HeldTorrent {
    let mut info_hash: Vec<u8> = vec![
        0xa6, 0x21, 0x77, 0x9b, 0x5e, 0x3d, 0x48, 0x6e, 0x12, 0x7c, 0x3e, 0xfb, 0xca, 0x9b, 0x6f,
        0x8d, 0x13, 0x5f, 0x52, 0xe5,
    ];
    info_hash[0] = first;
    HeldTorrent { id, info_hash, only_files: Some(vec![0]), paused: true }
}

#[test]
fn a_held_torrent_is_known_by_the_hash_in_its_magnet() {
    let session = vec![held(0, 0), held(1, 0xa6)];
    let plain = format!("magnet:?xt=urn:btih:{HASH}&dn=The+Film&tr=udp%3A%2F%2Ft.example%3A80");
    assert_eq!(already_managed(&plain, &session), Some(1));
    let upper = format!("magnet:?xt=urn:btih:{}", HASH.to_uppercase());
    assert_eq!(already_managed(&upper, &session), Some(1));
    let escaped = format!("magnet:?xl=7&xt=urn%3Abtih%3A{HASH}&ws=http://x/%20y&so=0,2");
    assert_eq!(already_managed(&escaped, &session), Some(1));
    for selection in ["0-2", "1,4-7,9", "0-99999", "7-3", "0-2-4", "-", "x"] {
        let selecting = format!("magnet:?xt=urn:btih:{HASH}&so={selection}");
        assert_eq!(already_managed(&selecting, &session), Some(1));
    }
    let other = format!("magnet:?xt=urn:btih:b{}", &HASH[1..]);
    assert_eq!(already_managed(&other, &session), None);
    assert_eq!(already_managed("magnet:?dn=The+Film", &session), None);
    assert_eq!(already_managed("magnet:?xt=urn:btih:short", &session), None);
    let base32 = "magnet:?xt=urn:btih:UYQXPG26HVEG4ET4H354VG3PRUJV6UXF";
    assert_eq!(already_managed(base32, &session), Some(1));
}

#[test]
fn the_files_that_a_link_selects_are_no_part_of_its_hash() {
    let session = vec![held(0, 0xa6)];
    for selection in [
        "so=0-18446744073709551615",
        "so=0-499999&so=3,7-600000",
        "s%6F=0-18446744073709551615",
        "so=0%2D18446744073709551615&tr=x",
        "s\to=0-18446744073709551615\n",
        "so=0-18446744073709551615#so=0-2",
        "so",
    ] {
        let link = format!("magnet:?xt=urn:btih:{HASH}&{selection}");
        assert_eq!(already_managed(&link, &session), Some(0));
    }
    let link = readable_link("magnet:?dn=a&so=0-9&&tr=b=c&s%6f=1#so=2").unwrap();
    assert_eq!(link, "magnet:?dn=a&so=&&tr=b=c&s%6f=#so=2");
    assert_eq!(readable_link("magnet:so=1").unwrap(), "magnet:so=1");
    assert_eq!(readable_link("magnet:#?so=1").unwrap(), "magnet:#?so=1");
}

#[test]
fn a_link_is_read_with_its_escapes() {
    let session = vec![held(0, 0xa6)];
    for link in [
        format!("magnet:?%78t=urn:btih:{HASH}"),
        format!("magnet:?x%74=urn%3abtih%3A%61{}", &HASH[1..]),
        format!("  magnet:?xt=urn:\tbtih:{HASH}\n"),
        format!("magnet:?xt=urn:btih:{HASH}#fragment"),
        format!("magnet:?xt=urn:btih:{HASH}&xt=urn:btmh:1220{}====", "A".repeat(52)),
        format!("magnet:?xt=urn:btih:{HASH}&xt=urn:btmh:1220{}", "ab".repeat(32)),
    ] {
        assert_eq!(already_managed(&link, &session), Some(0));
        assert_eq!(readable_link(&link), Some(link));
    }
    let link = format!("magnet:?xt=urn:btih:{HASH}&xt=urn:sha1:{HASH}");
    assert_eq!(already_managed(&link, &session), None);
}

#[test]
fn links_that_name_a_misfit_are_not_read() {
    let session = vec![held(0, 0xa6)];
    for link in [
        "magnet:?xt=urn:btih:UYQXPG26HVEG4ET4H354VG3PRUJV6===".to_string(),
        "magnet:?xt=urn:btih:UYQXPG26HVEG4ET4H354VG3PRUJV6%3D%3D%3D".to_string(),
        "magnet:?xt=urn:btih:UYQXPG26HVEG4ET4H354VG3PRUJV6===\n".to_string(),
        format!("magnet:?%78t=urn:btmh:1220{}", "A".repeat(56)),
        format!("magnet:?xt=urn:btih:{HASH}&xt=urn:btmh:1220{}", "A".repeat(56)),
        format!("magnet:?xt=urn:btih:{HASH}&xt=urn:btmh:1220{}=", "A".repeat(55)),
    ] {
        assert_eq!(readable_link(&link), None);
        assert_eq!(already_managed(&link, &session), None);
    }
}

#[test]
fn a_held_torrent_is_resumed_without_the_swarm() {
    let session = vec![held(7, 0xa6)];
    let magnet = format!("magnet:?xt=urn:btih:{HASH}");
    let mut dead: StringMap<u64> = StringMap::new();
    remember_dead(&mut dead, &magnet, 0);
    match plan_start(&magnet, Some(2), &session, &mut dead, 1) {
        StartPlan::Reuse(i, resume) => {
            assert_eq!(i, 0);
            assert_eq!(resume.widen, Some(vec![0, 2]));
            assert!(resume.unpause);
        }
        other => panic!("{other:?}"),
    }
    assert_eq!(resume_for(&session[0], Some(0)).widen, None);
}

#[test]
fn a_dead_source_is_not_waited_for_twice() {
    let magnet = format!("magnet:?xt=urn:btih:{HASH}");
    let mut dead: StringMap<u64> = StringMap::new();
    assert!(matches!(
        plan_start("http://x/a.torrent", None, &vec![], &mut dead, 0),
        StartPlan::Refused
    ));
    assert!(matches!(plan_start(&magnet, None, &vec![], &mut dead, 0), StartPlan::Fetch(None)));
    remember_dead(&mut dead, &magnet, 1_000);
    let again = plan_start(&magnet, Some(3), &vec![], &mut dead, 600_999);
    assert!(matches!(again, StartPlan::KnownDead));
    match plan_start(&magnet, Some(3), &vec![], &mut dead, 601_000) {
        StartPlan::Fetch(only) => assert_eq!(only, Some(vec![3])),
        other => panic!("{other:?}"),
    }
    assert!(!dead.contains_key(&magnet));
}

#[test]
fn a_started_torrent_has_an_address_on_the_loopback() {
    let info = start_info(4, Some(2), 7890).unwrap();
    assert_eq!((info.id, info.file_index), (5, 2));
    assert_eq!(info.url, "http://127.0.0.1:7890/torrent/5/stream/2");
    let e = start_info(u32::MAX as usize, None, 7890).unwrap_err();
    assert_eq!(e.librqbit_id, u32::MAX as usize);
    assert!(shift_librqbit_id(u32::MAX as usize).is_err());
}

#[test]
fn a_stopped_torrent_is_paused_unless_it_is_thrown_away() {
    assert_eq!(plan_stop(0, true, Some(false)), StopPlan::Nothing);
    assert_eq!(plan_stop(5, true, None), StopPlan::Delete(4));
    assert_eq!(plan_stop(5, false, Some(false)), StopPlan::Pause(4));
    assert_eq!(plan_stop(5, false, Some(true)), StopPlan::Nothing);
    assert_eq!(plan_stop(5, false, None), StopPlan::Nothing);
}

#[test]
fn what_is_finished_and_still_shared() {
    let t = |id: usize, paused: bool, finished: bool| ListedTorrent {
        id,
        paused,
        finished,
        name: Some(format!("t{id}")),
    };
    let list = vec![t(0, false, true), t(1, true, true), t(2, false, false), t(3, false, true)];
    assert_eq!(
        finished_and_seeding(&list),
        vec![(1, "t0".to_string()), (4, "t3".to_string())]
    );
    let files = vec![
        FileList { id: 0, paths: vec![text("/m/a.mkv")] },
        FileList { id: 1, paths: vec![None, text("/m/b.mkv")] },
    ];
    assert_eq!(owner_of("/m/b.mkv", &files), Some((2, 1)));
    assert_eq!(owner_of("/m/c.mkv", &files), None);
}

#[test]
fn restored_torrents_are_paused_and_empty_ones_forgotten() {
    let t = |id: usize, paused: bool, blocks: Option<Vec<Option<u64>>>| RestoredTorrent {
        id,
        paused,
        blocks,
    };
    let plan = plan_settle(&vec![
        t(0, false, Some(vec![Some(0), None])),
        t(1, true, Some(vec![Some(0), Some(1)])),
        t(2, false, None),
        t(3, true, Some(vec![])),
    ]);
    assert_eq!(plan.pause, vec![0, 2]);
    assert_eq!(plan.forget, vec![0, 3]);
}

#[test]
fn the_ends_of_a_file_come_first() {
    assert_eq!(tail_start(10_000, 1_000), Some(9_000));
    assert_eq!(tail_start(1_000, 1_000), None);
    assert_eq!(seek_window(100, 100), None);
}

fn progress(bytes: u64, finished: bool) -> TorrentProgress {
    TorrentProgress {
        bytes_downloaded: bytes,
        bytes_total: 1_000,
        peers_connected: 1,
        speed_bps: 0,
        finished,
        state: TorrentState::Live,
    }
}

#[test]
fn a_download_is_waited_for_while_it_goes_on() {
    let mut wait = DownloadWait::new(14_400, 0);
    assert_eq!(wait.look(Some(progress(10, false)), 1_000), DownloadStatus::Downloading);
    assert_eq!(wait.look(Some(progress(10, false)), 300_999), DownloadStatus::Downloading);
    let stalled = wait.look(Some(progress(10, false)), 301_000);
    assert_eq!(stalled, DownloadStatus::Stalled);
    assert_eq!(
        stalled.complaint(14_400, Some(progress(10, false))).as_deref(),
        Some("torrent download stalled for 300s before finishing (10 / 1000 bytes)")
    );
    assert_eq!(
        DownloadStatus::TimedOut.complaint(14_400, None).as_deref(),
        Some("timed out after 14400s waiting for torrent download to finish")
    );
    assert_eq!(DownloadStatus::Complete.complaint(14_400, None), None);
    assert_eq!(wait.look(None, 301_000), DownloadStatus::Disappeared);
    assert_eq!(wait.look(Some(progress(1_000, true)), 301_000), DownloadStatus::Complete);
    assert!(shows_life(&progress(10, false)));
    let mut still = progress(0, false);
    assert!(shows_life(&still));
    still.peers_connected = 0;
    assert!(!shows_life(&still));
    still.speed_bps = 1;
    assert!(shows_life(&still));
    assert!(is_torrent_alive(0, false) && is_torrent_alive(3, true) && !is_torrent_alive(3, false));
}

#[test]
fn a_source_is_dead_where_no_sign_of_life_comes_in_time() {
    assert_eq!(life_step(0, 20, None), LifeStep::Look);
    assert_eq!(life_step(19_999, 20, None), LifeStep::Look);
    assert_eq!(life_step(20_000, 20, None), LifeStep::Dead);
    let mut still = progress(0, false);
    still.peers_connected = 0;
    assert_eq!(life_step(19_999, 20, Some(still)), LifeStep::Look);
    assert_eq!(life_step(20_000, 20, Some(still)), LifeStep::Dead);
    assert_eq!(life_step(21_000, 20, Some(progress(1, false))), LifeStep::Alive);
    assert_eq!(life_step(0, 0, None), LifeStep::Dead);
    assert_eq!(life_step(u64::MAX, u64::MAX, None), LifeStep::Look);
}

#[test]
fn ranges_are_refused_by_kind() {
    let of = |raw: &str| parse_range_header(Some(raw.as_bytes()), 1_000);
    assert_eq!(of("items=1-2").unwrap_err(), RangeError::Malformed);
    assert_eq!(of("bytes=1000-").unwrap_err(), RangeError::Unsatisfiable);
    assert_eq!(parse_range_header(None, 0).unwrap_err(), RangeError::EmptyResource);
    let statuses = (
        RangeError::Malformed.http_status(),
        RangeError::Unsatisfiable.http_status(),
        RangeError::EmptyResource.http_status(),
    );
    assert_eq!(statuses, (400, 416, 500));
}

#[test]
fn a_torrent_stream_is_headed_once_it_has_been_probed() {
    let range = ByteRange { start: 100, end: 299 };
    assert!(stream_head(&range, 1_000, 199).is_none());
    let head = stream_head(&range, 1_000, 200).unwrap();
    assert_eq!((head.status, head.content_length, head.remaining), (206, 200, 0));
    assert_eq!(head.content_range.as_deref(), Some("bytes 100-299/1000"));
    let whole = stream_head(&ByteRange { start: 0, end: 99_999 }, 100_000, 65_536).unwrap();
    assert_eq!((whole.status, whole.remaining), (200, 34_464));
    assert_eq!(whole.content_range, None);
    assert!(matches!(judge_open_failure("no such file", true), OpenFailure::GiveUp(_)));
}

// ------------------------------------------------------------------ end of a stream
#[test]
fn the_reaper_waits_for_what_is_left() {
    let c = stream(3);
    assert_eq!(reaper_step(None, 3, false, false), ReaperStep::Leave);
    assert_eq!(reaper_step(Some(&c), 4, false, false), ReaperStep::Leave);
    assert_eq!(reaper_step(Some(&c), 3, true, false), ReaperStep::Sleep);
    assert_eq!(reaper_step(Some(&c), 3, false, true), ReaperStep::Grace(4_200));
    assert_eq!(reaper_step(Some(&c), 3, false, false), ReaperStep::CleanUp);
    assert!(reap_after_grace(Some(&c), 3) && !reap_after_grace(Some(&c), 4));
}

#[test]
fn a_corrupt_source_is_remembered() {
    let log = "[matroska] 0x00 invalid as first byte of an EBML number";
    let mut state = AppState::default();
    assert_eq!(note_corruption(&mut state, "http://h/x", log), None);
    assert_eq!(note_corruption(&mut state, "file:///m/a.mkv", "fine"), None);
    assert_eq!(
        note_corruption(&mut state, "file:///m/a.mkv", log),
        Some("Matroska container corruption (EBML parse error)")
    );
    assert!(state.corrupt_files.contains("/m/a.mkv"));
    assert_eq!(note_corruption(&mut state, "file:///m/a.mkv", log), None);
}

#[test]
fn only_a_whole_transcode_is_kept() {
    let mut c = stream(3);
    assert_eq!(promotion_key(Some(&c), 10, true, false).as_deref(), Some("tt1_nosub_nointro"));
    assert_eq!(promotion_key(Some(&c), 0, true, false), None);
    assert_eq!(promotion_key(Some(&c), 10, false, false), None);
    assert_eq!(promotion_key(Some(&c), 10, true, true), None);
    assert_eq!(promotion_key(None, 10, true, false), None);
    c.ss_offset = 1;
    assert_eq!(promotion_key(Some(&c), 10, true, false), None);
    let ended = text("#EXTM3U\n#EXT-X-ENDLIST\n");
    assert!(end_seen(&vec![None, text("#EXTM3U\n"), ended.clone()]));
    assert!(end_seen(&vec![ended, None]));
    assert!(!end_seen(&vec![None, text("#EXTM3U\n"), None]) && !end_seen(&vec![]));
    assert_eq!((cap_bytes(2), cap_bytes(u64::MAX)), (2_097_152, u64::MAX));
    assert_eq!((expected_size(Some("1 KB")), expected_size(Some("big")), expected_size(None)), (1_024, 0, 0));
}

#[test]
fn a_folder_is_marked_only_when_it_is_physically_full() {
    let file = |len: u64, blocks: u64| {
        vec![DiskFile {
            name: "the.film.mkv".to_string(),
            path: "/m/The Film/the.film.mkv".to_string(),
            symlink: Some(false),
            meta: Some(FileMeta { len, blocks }),
        }]
    };
    assert!(should_mark_done("The.Film.2024", "the film", 512_000, &file(512_000, 1_000)));
    assert!(should_mark_done("The.Film.2024", "the film", 512_000, &file(506_880, 1_000)));
    assert!(!should_mark_done("The.Film.2024", "the film", 512_000, &file(506_879, 1_000)));
    assert!(should_mark_done("The.Film.2024", "the film", 512_000, &file(517_120, 1_010)));
    assert!(!should_mark_done("The.Film.2024", "the film", 512_000, &file(517_121, 1_011)));
    assert!(!should_mark_done("The.Film.2024", "the film", 512_000, &file(1_024_000, 2_000)));
    assert!(!should_mark_done("The.Film.2024", "the film", 512_000, &file(512_000, 10)));
    assert!(!should_mark_done("The.Film.2024", "the film", 0, &file(512_000, 1_000)));
    assert!(!should_mark_done("Another", "the film", 512_000, &file(512_000, 1_000)));
}

#[test]
fn logs_move_on_and_the_oldest_gives_way() {
    assert_eq!(
        plan_rotation(&vec![true, true, false, true, false, true]),
        vec![
            RotateStep::Remove(5),
            RotateStep::Rename(3, 4),
            RotateStep::Rename(1, 2),
            RotateStep::Rename(0, 1),
        ]
    );
    assert_eq!(plan_rotation(&vec![false, true, true, true, true, true]), vec![]);
    assert_eq!(ring_path("/s/ffmpeg.log", 0), "/s/ffmpeg.log");
    assert_eq!(ring_path("/s/ffmpeg.log", 3), "/s/ffmpeg.log.3");
}

#[test]
fn the_server_ends_neither_itself_nor_what_may_stay() {
    let may_stay = vec![0, 12];
    assert!(should_kill(10, true, &may_stay, 11));
    assert!(should_kill(0, true, &may_stay, 11));
    assert!(!should_kill(11, true, &may_stay, 11));
    assert!(!should_kill(12, true, &may_stay, 11));
    assert!(!should_kill(10, false, &may_stay, 11));
}

// ------------------------------------------------------------------------ requests
fn add() -> QueueAddRequest {
    QueueAddRequest {
        result_id: None,
        cast_name: None,
        smooth: None,
        magnet: None,
        title: None,
        show: None,
        season: None,
        episode: None,
        imdb_id: None,
        file_index: None,
        poster_url: None,
        quality: None,
        size: None,
    }
}

#[test]
fn an_item_is_queued_by_number_or_by_source() {
    let search = SearchResult {
        results: vec![TorrentResult {
            id: 1,
            title: "release".to_string(),
            magnet: "magnet:?xt=urn:btih:1".to_string(),
            quality: "720p".to_string(),
            size: "1 GB".to_string(),
            file_index: None,
        }],
        show: None,
        searching: None,
        torrent_available: true,
    };
    let mut req = add();
    req.result_id = Some(1);
    let item = queue_item(req, Some(&search)).unwrap();
    assert_eq!((item.title.as_str(), item.smooth), ("release", false));
    assert_eq!(item.quality.as_deref(), Some("720p"));

    let mut req = add();
    req.result_id = Some(2);
    let e = queue_item(req, Some(&search)).unwrap_err();
    assert_eq!(e, QueueError::ResultNotFound(2));
    assert_eq!(e.message(), "Result #2 not found in last search");

    let mut req = add();
    req.result_id = Some(2);
    let e = queue_item(req, None).unwrap_err();
    assert_eq!(e.message(), "No previous search results — run `spela search` first.");

    let e = queue_item(add(), Some(&search)).unwrap_err();
    assert_eq!(e.message(), "Need either `result_id` or `magnet` to queue an item.");

    let mut req = add();
    req.magnet = text("ftp://x");
    let e = queue_item(req, None).unwrap_err();
    assert_eq!(e.message(), "Invalid magnet: magnet URI must start with 'magnet:'");

    let mut req = add();
    req.magnet = text("magnet:?xt=urn:btih:9");
    req.smooth = Some(true);
    let item = queue_item(req, None).unwrap();
    assert_eq!((item.title.as_str(), item.smooth), ("Unknown", true));
    let mut state = AppState::default();
    enqueue(&mut state, item);
    assert_eq!((clear_queue(&mut state), clear_queue(&mut state)), (1, 0));
}

#[test]
fn preferences_that_are_too_long_are_not_taken() {
    let mut state = AppState::default();
    let long = "x".repeat(257);
    set_preferences(&mut state.preferences, Some("vlc"), Some(&long), Some("2160p"));
    assert_eq!(state.preferences.default_target, "vlc");
    assert_eq!(state.preferences.chromecast_name, None);
    assert_eq!(state.preferences.preferred_quality, "2160p");
    assert!(!device_name_fits(&long) && device_name_fits(&long[1..]));
    assert!(!device_name_fits(&"å".repeat(129)) && device_name_fits(&"å".repeat(128)));
    assert_eq!((checked_query(Some("x")), checked_query(Some("")), checked_query(None)), (Some("x"), None, None));
}

#[test]
fn positions_are_checked_in_order() {
    let e = |r: Result<i64, PositionError>| r.unwrap_err();
    assert_eq!(e(check_position(None, None, Some(1))), PositionError::MissingKeys);
    assert_eq!(e(check_position(Some("nm1"), None, None)), PositionError::InvalidImdbId);
    let long = "x".repeat(257);
    assert_eq!(e(check_position(None, Some(&long), None)), PositionError::TitleTooLong);
    assert_eq!(e(check_position(None, Some("x"), None)), PositionError::NotFinite);
    assert_eq!(check_position(Some("tt0111161"), None, Some(5)), Ok(5));
    assert_eq!(check_reset(None, None), Err(PositionError::MissingKeys));
    assert_eq!(check_reset(Some("nm1"), None), Ok(()));
    assert_eq!(check_reset(None, Some("x")), Ok(()));
    assert_eq!(PositionError::MissingKeys.message(), "Missing imdb_id and title");
    assert_eq!(PositionError::InvalidImdbId.message(), "Invalid imdb_id format");
    assert_eq!(PositionError::TitleTooLong.message(), "Title too long (max 256 chars)");
    assert_eq!(PositionError::NotFinite.message(), "Position must be finite");
}

#[test]
fn what_is_playing_is_told() {
    assert_eq!(status_text(false, true), "idle");
    assert_eq!(status_text(true, is_running(true, true)), "streaming");
    assert_eq!(status_text(true, is_running(true, false)), "process_dead");
    let mut state = AppState::default();
    assert!(!reconcile_on_startup(&mut state));
    state.current = Some(stream(1));
    state.save_position_smart(text("tt1"), None, 90_000, None);
    let known = receiver_config(&state);
    assert_eq!((known.title.as_str(), known.imdb_id.as_str()), ("The Film", "tt1"));
    assert_eq!((known.duration, known.resume_position), (Some(3_600_000), Some(90_000)));
    assert!(reconcile_on_startup(&mut state));
    assert!(state.current.is_none());
    assert_eq!(receiver_config(&state).resume_position, None);
    assert!(looks_like_hostname("media.local") && !looks_like_hostname("192.168.1.5"));
    assert!(!looks_like_hostname("[fe80::1]"));
}

#[test]
fn only_known_hosts_are_answered() {
    let list = compute_host_allowlist("media.local", &vec!["tv.home".to_string(), String::new()]);
    assert!(host_allowed(Some("media.local:7890"), &list));
    assert!(host_allowed(Some("tv.home"), &list));
    assert!(!host_allowed(Some("evil.example"), &list));
    assert!(!host_allowed(Some(""), &list));
    assert!(!host_allowed(None, &list));
}

#[test]
fn names_of_segments_stay_in_their_directory() {
    assert!(is_safe_segment_name("seg_00001.ts") && is_safe_segment_name("stream_0.m3u8"));
    assert!(!is_safe_segment_name("../secret.ts") && !is_safe_segment_name("a/b.ts"));
    assert!(!is_safe_segment_name("a..ts") && !is_safe_segment_name("x.mp4"));
    assert!(!is_safe_segment_name("") && !is_safe_segment_name(&format!("{}.ts", "a".repeat(62))));
    assert_eq!(content_type_of_segment("a.ts"), "video/mp2t");
    assert_eq!(content_type_of_segment("a.m4s"), "video/mp4");
    assert_eq!(content_type_of_segment("a.m3u8"), "application/vnd.apple.mpegurl");
    assert_eq!(sanitize_title("  The  Film: Été (2024)! "), "the film été 2024");
}

#[test]
fn a_note_is_found_under_its_title_and_a_blank_one_clears_it() {
    let note = |t: &str| ShowNote { note: t.to_string(), as_of: None, source: None };
    let mut notes = ShowNotes { notes: StringMap::new() };
    notes.set(&title_key("The Show"), note("renewed"));
    assert_eq!(notes.get(None, "the show").unwrap().note, "renewed");
    notes.set("tt1", note("cancelled"));
    assert_eq!(notes.get(Some("tt1"), "The Show").unwrap().note, "cancelled");
    notes.set("tt1", note("  "));
    assert_eq!(notes.get(Some("tt1"), "The Show").unwrap().note, "renewed");
}
