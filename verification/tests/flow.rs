use spela::cast_health::{
    recast_plan, self_call_url, take_next, Monitor, PlayerInfo, Save, Verdict, Watch,
};
use spela::play_flow::{Failure, Outcome, PlayRun, Stage, Undo};
use spela::playback::{
    begin_stream, begin_stream_at, checked_magnet, choose_destination, episode_request,
    fill_from_search, get_current_device, local_path_of, master_url, neighbour, no_torrent_message,
    plan_load, plan_seek, retry_with_next, NavigateError, PlayError, PlayRequest, SeekPlan,
    StreamFacts,
};
use spela::requests::enqueue;
use spela::search::{EpisodeRef, SearchResult, ShowInfo, TorrentResult};
use spela::state::{AppState, CurrentStream, QueuedItem};
use spela::time::{Moment, Timestamp};
use spela::transcode::CodecInfo;

fn text(s: &str) -> Option<String> {
    Some(s.to_string())
}

fn request() -> PlayRequest {
    PlayRequest {
        magnet: None,
        result_id: None,
        target: None,
        cast_name: None,
        title: None,
        file_index: None,
        no_subs: None,
        no_intro: None,
        smooth: None,
        subtitle_lang: None,
        imdb_id: None,
        show: None,
        season: None,
        episode: None,
        seek_to: None,
        duration: None,
        quality: None,
        size: None,
        poster_url: None,
    }
}

fn result(id: usize) -> TorrentResult {
    TorrentResult {
        id,
        title: format!("release {id}"),
        magnet: format!("magnet:?xt=urn:btih:{id}"),
        quality: "1080p".to_string(),
        size: "2.0 GB".to_string(),
        file_index: Some(4),
    }
}

fn search() -> SearchResult {
    SearchResult {
        results: vec![result(1), result(2)],
        show: Some(ShowInfo {
            title: "Severance".to_string(),
            imdb_id: text("tt11280740"),
            poster_url: text("https://image.tmdb.org/t/p/w500/a.jpg"),
        }),
        searching: Some(EpisodeRef { season: 2, episode: 3 }),
        torrent_available: true,
    }
}

fn facts() -> StreamFacts {
    StreamFacts {
        magnet: "magnet:?xt=urn:btih:1".to_string(),
        target: "chromecast".to_string(),
        cast_name: "Bedroom TV".to_string(),
        url: "http://10.0.0.2:7890/hls/master.m3u8".to_string(),
        pid: 3,
        has_subtitles: true,
        subtitle_lang: "eng".to_string(),
        duration: Some(3_600_000),
        is_transcoded: true,
        is_local: false,
        has_intro: false,
        seek_to: None,
        cache_enabled: true,
    }
}

fn at(secs: i64) -> Timestamp {
    Timestamp { secs, nanos: 0 }
}

fn moment(secs: i64) -> Moment {
    Moment { wall: at(secs), mono: secs as u64 * 1000 }
}

fn stream() -> CurrentStream {
    let mut state = AppState::default();
    begin_stream_at(&mut state, &request(), &facts(), at(0));
    state.current.unwrap()
}

fn run(target: &str, smooth: bool) -> PlayRun {
    PlayRun::new(target.to_string(), true, smooth, true, false, true)
}

fn go(run: &mut PlayRun, outcomes: Vec<Outcome>) {
    for outcome in outcomes {
        assert!(run.advance(outcome).is_ok());
    }
}

fn fail(run: &mut PlayRun, outcome: Outcome) -> Failure {
    match run.advance(outcome) {
        Err(failure) => failure,
        Ok(()) => panic!("the request went on"),
    }
}

fn to_life() -> Vec<Outcome> {
    vec![
        Outcome::Found(None),
        Outcome::Done,
        Outcome::Done,
        Outcome::Started(3, "http://127.0.0.1:7890/torrent/3/stream/0".to_string()),
    ]
}

fn h264() -> CodecInfo {
    CodecInfo {
        video_codec: text("h264"),
        audio_codec: text("aac"),
        duration: Some(3_600_000),
        audio_stream: "0:a:0".to_string(),
        audio_index: 0,
    }
}

// ------------------------------------------------------------ the course of a request
#[test]
fn a_torrent_is_cast_to_a_chromecast_as_a_transcode() {
    let mut r = run("chromecast", false);
    assert_eq!(r.stage, Stage::LookOnDisk);
    go(&mut r, to_life());
    assert_eq!(r.stage, Stage::AwaitLife);
    assert_eq!(r.pid, 3);
    go(&mut r, vec![Outcome::Answer(true)]);
    assert_eq!(r.stage, Stage::FetchSubtitles);
    go(&mut r, vec![Outcome::Answer(true)]);
    assert_eq!(r.stage, Stage::Probe);
    go(&mut r, vec![Outcome::Codecs(h264())]);
    assert_eq!(r.stage, Stage::Transcode);
    let delivery = r.delivery.unwrap();
    assert!(delivery.video_transcode && delivery.use_hls);
    assert!(!delivery.audio_transcode && !delivery.prepared);
    go(&mut r, vec![Outcome::Done]);
    assert_eq!(r.stage, Stage::Prebuffer);
    go(&mut r, vec![Outcome::Done]);
    assert_eq!(r.stage, Stage::Cast);
    assert!(r.is_transcoded);
    go(&mut r, vec![Outcome::Done]);
    assert_eq!(r.stage, Stage::Remember);
}

#[test]
fn a_local_file_is_transcoded_whole_before_it_is_cast() {
    let mut r = run("chromecast", false);
    go(&mut r, vec![Outcome::Found(text("/media/a.mkv")), Outcome::Done]);
    assert_eq!(r.stage, Stage::FetchSubtitles);
    assert_eq!(r.source_url, "file:///media/a.mkv");
    assert_eq!(r.pid, 0);
    go(
        &mut r,
        vec![Outcome::Answer(false), Outcome::Failed("no ffprobe".to_string()), Outcome::Done],
    );
    assert_eq!(r.stage, Stage::AwaitComplete);
    assert_eq!(r.codecs.audio_stream, "0:a:0");
    let failure = fail(&mut r, Outcome::Failed("stalled".to_string()));
    assert_eq!(failure.undo, Undo::Everything);
    assert_eq!(
        failure.error.message(),
        "Chromecast local-HLS completion gate failed before cast: stalled"
    );
    assert_eq!(r.stage, Stage::Failed);
}

#[test]
fn a_smooth_request_downloads_first() {
    let mut r = run("chromecast", true);
    go(&mut r, to_life());
    go(&mut r, vec![Outcome::Answer(true)]);
    assert_eq!(r.stage, Stage::AwaitDownload);
    go(&mut r, vec![Outcome::Done]);
    assert_eq!(r.stage, Stage::LookForDownload);
    go(&mut r, vec![Outcome::Found(text("/media/b.mkv"))]);
    assert!(r.is_local);
    assert_eq!(r.source_url, "file:///media/b.mkv");
    assert_eq!(r.pid, 3);
}

#[test]
fn smooth_counts_for_a_chromecast_only() {
    let mut r = run("vlc", true);
    go(&mut r, to_life());
    go(&mut r, vec![Outcome::Answer(true)]);
    assert_eq!(r.stage, Stage::FetchSubtitles);
}

#[test]
fn other_targets_take_the_source_as_it_is() {
    let mut r = PlayRun::new("vlc".to_string(), false, false, false, false, false);
    assert_eq!(r.stage, Stage::StopPrevious);
    go(&mut r, vec![Outcome::Done, Outcome::Done]);
    go(&mut r, vec![Outcome::Started(1, "http://x".to_string()), Outcome::Answer(true)]);
    assert_eq!(r.stage, Stage::Probe);
    go(&mut r, vec![Outcome::Codecs(h264())]);
    assert_eq!(r.stage, Stage::Remember);
    assert!(!r.is_transcoded);
}

#[test]
fn a_transcode_that_fails_ends_a_chromecast_request_only() {
    let probe = || vec![Outcome::Answer(true), Outcome::Answer(true), Outcome::Codecs(h264())];
    let mut cast = run("chromecast", false);
    go(&mut cast, to_life());
    go(&mut cast, probe());
    let failure = fail(&mut cast, Outcome::Failed("no encoder".to_string()));
    assert_eq!(failure.undo, Undo::Nothing);
    assert_eq!(
        failure.error.message(),
        "Chromecast playback requires HLS delivery; refusing raw fallback after HLS preparation \
         failed: no encoder"
    );
    let mut other = run("vlc", false);
    go(&mut other, to_life());
    go(&mut other, probe());
    assert_eq!(other.stage, Stage::Transcode);
    go(&mut other, vec![Outcome::Failed("no encoder".to_string())]);
    assert_eq!(other.stage, Stage::Remember);
}

#[test]
fn every_failure_says_what_it_is_and_what_to_undo() {
    let mut r = run("chromecast", false);
    go(&mut r, vec![Outcome::Found(None), Outcome::Done]);
    let f = fail(&mut r, Outcome::Failed("disk full".to_string()));
    assert!(matches!(f.error, PlayError::Other(_)));
    assert_eq!((f.error.message().as_str(), f.undo), ("disk full", Undo::Nothing));

    let mut r = run("chromecast", false);
    go(&mut r, vec![Outcome::Found(None), Outcome::Done, Outcome::Done]);
    let f = fail(&mut r, Outcome::Failed("no peers".to_string()));
    assert_eq!((f.error.message().as_str(), f.undo), ("no peers", Undo::Nothing));

    let mut r = run("chromecast", false);
    go(&mut r, to_life());
    let f = fail(&mut r, Outcome::Answer(false));
    assert_eq!(f.error.message(), "Torrent has no active seeds (0% after 12s)");
    assert_eq!(f.undo, Undo::DropTorrent(3));

    let mut r = run("chromecast", true);
    go(&mut r, to_life());
    go(&mut r, vec![Outcome::Answer(true)]);
    let f = fail(&mut r, Outcome::Failed("stalled".to_string()));
    assert_eq!(f.error.message(), "Smooth mode download-first gate failed: stalled");
    assert_eq!(f.undo, Undo::StopTorrent(3));

    let mut r = run("chromecast", true);
    go(&mut r, to_life());
    go(&mut r, vec![Outcome::Answer(true), Outcome::Done]);
    let f = fail(&mut r, Outcome::Found(None));
    assert_eq!(
        f.error.message(),
        "Smooth mode finished downloading but could not locate a healthy local source file"
    );

    let to_transcode = || {
        vec![
            Outcome::Answer(true),
            Outcome::Answer(false),
            Outcome::Codecs(h264()),
            Outcome::Done,
        ]
    };
    let mut r = run("chromecast", false);
    go(&mut r, to_life());
    go(&mut r, to_transcode());
    let f = fail(&mut r, Outcome::Nothing(21));
    assert_eq!(
        f.error.message(),
        "Stream-start fail-fast: ffmpeg produced no HLS segments in 21s (likely starved swarm or \
         bad source)."
    );
    assert_eq!(f.undo, Undo::Everything);

    let mut r = run("chromecast", false);
    go(&mut r, to_life());
    go(&mut r, to_transcode());
    go(&mut r, vec![Outcome::Done]);
    let f = fail(&mut r, Outcome::Failed("no device".to_string()));
    assert_eq!(f.error.message(), "Cast failed: no device");
    assert_eq!(f.undo, Undo::Everything);

    let mut r = run("chromecast", false);
    go(&mut r, to_life());
    go(&mut r, to_transcode());
    go(&mut r, vec![Outcome::Done]);
    let f = fail(&mut r, Outcome::Broken("panicked".to_string()));
    assert_eq!(f.error.message(), "Cast task failed: panicked");
    assert_eq!(f.undo, Undo::Everything);
}

#[test]
fn a_chromecast_is_given_the_master_playlist_and_others_the_source() {
    let mut r = run("chromecast", false);
    go(&mut r, to_life());
    go(
        &mut r,
        vec![
            Outcome::Answer(true),
            Outcome::Answer(false),
            Outcome::Codecs(h264()),
            Outcome::Done,
            Outcome::Done,
            Outcome::Done,
        ],
    );
    assert_eq!(r.stage, Stage::Remember);
    assert_eq!(r.url("10.0.0.2", 7890), "http://10.0.0.2:7890/hls/master.m3u8");
    let f = r.facts(
        "magnet:?xt=urn:btih:1".to_string(),
        "TV".to_string(),
        "eng".to_string(),
        Some(60_000),
        true,
        "10.0.0.2",
        7890,
    );
    let mut state = AppState::default();
    begin_stream_at(&mut state, &request(), &f, at(0));
    let c = state.current.unwrap();
    assert_eq!(c.url, "http://10.0.0.2:7890/hls/master.m3u8");
    assert_eq!(c.target, "chromecast:TV");
    assert_eq!((c.pid, c.duration, c.ss_offset), (3, Some(3_600_000), 60_000));

    let mut r = PlayRun::new("vlc".to_string(), false, false, false, false, false);
    r.note_seek(true);
    assert!(r.seeks);
    go(&mut r, vec![Outcome::Done, Outcome::Done]);
    go(&mut r, vec![Outcome::Started(1, "http://x".to_string()), Outcome::Answer(true)]);
    go(&mut r, vec![Outcome::Codecs(h264())]);
    assert_eq!(r.url("10.0.0.2", 7890), "http://x");
}

#[test]
fn an_outcome_out_of_place_changes_nothing() {
    let mut r = run("chromecast", false);
    assert!(r.advance(Outcome::Answer(true)).is_ok());
    assert_eq!(r.stage, Stage::LookOnDisk);
}

// ------------------------------------------------------------------------ requests
#[test]
fn a_number_is_resolved_against_the_last_search() {
    let mut req = request();
    req.result_id = Some(2);
    req.title = None;
    req.imdb_id = text("tt1");
    assert!(fill_from_search(&mut req, Some(&search())).is_ok());
    assert_eq!(req.magnet.as_deref(), Some("magnet:?xt=urn:btih:2"));
    assert_eq!(req.title.as_deref(), Some("Severance S02E03"));
    assert_eq!(req.imdb_id.as_deref(), Some("tt1"));
    assert_eq!(req.show.as_deref(), Some("Severance"));
    assert_eq!((req.season, req.episode, req.file_index), (Some(2), Some(3), Some(4)));
    assert_eq!(req.size.as_deref(), Some("2.0 GB"));
}

#[test]
fn a_number_needs_a_search_that_has_it() {
    let mut req = request();
    req.result_id = Some(9);
    let e = fill_from_search(&mut req, None).unwrap_err();
    assert_eq!(e.message(), "No previous search results. Run 'spela search' first.");
    let e = fill_from_search(&mut req, Some(&search())).unwrap_err();
    assert_eq!(e.message(), "Result #9 not found in last search (have 2)");
    assert!(req.magnet.is_none());
}

#[test]
fn a_source_must_be_a_magnet_link() {
    let mut req = request();
    let missing =
        "Missing magnet. Use 'spela play <N>' with a result number, or pass a magnet link.";
    assert_eq!(checked_magnet(&req).unwrap_err().message(), missing);
    req.magnet = text("");
    assert_eq!(checked_magnet(&req).unwrap_err().message(), missing);
    req.magnet = text("http://10.0.0.1/x");
    let e = checked_magnet(&req).unwrap_err();
    assert_eq!(e.message(), "Invalid magnet: magnet URI must start with 'magnet:'");
    req.magnet = text("magnet:?xt=urn:btih:1");
    assert_eq!(checked_magnet(&req).unwrap(), "magnet:?xt=urn:btih:1");
}

#[test]
fn a_failed_attempt_moves_on_to_the_next_result() {
    let mut req = request();
    req.result_id = Some(1);
    req.magnet = text("magnet:?xt=urn:btih:1");
    req.title = text("Severance S02E03");
    req.size = text("2.0 GB");
    assert!(retry_with_next(&mut req, 0, Some(2)));
    assert_eq!(req.result_id, Some(2));
    assert!(req.magnet.is_none() && req.size.is_none());
    assert_eq!(req.title.as_deref(), Some("Severance S02E03"));
    assert!(!retry_with_next(&mut req, 1, Some(2)));
    assert!(!retry_with_next(&mut req, 2, Some(9)));
    assert!(!retry_with_next(&mut req, 0, None));
    req.result_id = Some(usize::MAX);
    assert!(!retry_with_next(&mut req, 0, Some(usize::MAX)));
}

#[test]
fn an_empty_target_counts_as_none() {
    let mut state = AppState::default();
    let mut req = request();
    req.target = text("");
    let d = choose_destination(&req, &state.preferences, "Living Room");
    assert_eq!((d.target.as_str(), d.cast_name.as_str()), ("chromecast", "Living Room"));
    req.target = text("vlc");
    state.preferences.chromecast_name = text("Bedroom");
    let d = choose_destination(&req, &state.preferences, "Living Room");
    assert_eq!((d.target.as_str(), d.cast_name.as_str()), ("vlc", "Bedroom"));
    req.cast_name = text("Kitchen");
    assert_eq!(choose_destination(&req, &state.preferences, "Living Room").cast_name, "Kitchen");
}

#[test]
fn controls_go_to_the_device_of_the_stream() {
    let mut state = AppState::default();
    assert_eq!(get_current_device(&state, "Living Room"), "Living Room");
    let mut c = stream();
    c.target = "chromecast:TV: upstairs".to_string();
    state.current = Some(c);
    assert_eq!(get_current_device(&state, "Living Room"), "TV: upstairs");
}

#[test]
fn addresses_are_told_apart() {
    assert_eq!(local_path_of("file:///media/a.mkv").as_deref(), Some("/media/a.mkv"));
    assert_eq!(local_path_of("http://x/a.mkv"), None);
    assert_eq!(master_url("10.0.0.2", 7890), "http://10.0.0.2:7890/hls/master.m3u8");
    let mut req = request();
    req.title = text("Severance");
    let load = plan_load(&req, "http://h/hls/master.m3u8", Some(60_000), true, true);
    assert_eq!(load.content_type, "application/vnd.apple.mpegurl");
    assert_eq!(load.duration, Some(65_000));
    assert_eq!(load.metadata.title.as_deref(), Some("Severance"));
    let load = plan_load(&req, "http://h/a.mp4", None, true, false);
    assert_eq!(load.content_type, "video/mp4");
    assert_eq!(load.duration, None);
    assert!(load.metadata.title.is_none());
}

#[test]
fn a_play_returns_to_where_it_was_left() {
    let mut state = AppState::default();
    let mut req = request();
    req.imdb_id = text("tt0111161");
    req.title = text("The Shawshank Redemption");
    state.save_position_smart(text("tt0111161"), None, 30_000, None);
    assert_eq!(plan_seek(&req, &mut state), SeekPlan { seek_to: None, resumed_from: None });
    state.save_position_smart(text("tt0111161"), None, 2_236_000, None);
    assert_eq!(
        plan_seek(&req, &mut state),
        SeekPlan { seek_to: Some(2_236_000), resumed_from: Some(2_236_000) }
    );
}

#[test]
fn an_explicit_seek_overrides_the_remembered_position() {
    let mut state = AppState::default();
    let mut req = request();
    req.imdb_id = text("tt0111161");
    req.seek_to = Some(0);
    state.save_position_smart(text("tt0111161"), None, 2_236_000, None);
    assert_eq!(plan_seek(&req, &mut state), SeekPlan { seek_to: Some(0), resumed_from: None });
    let mut f = facts();
    f.seek_to = Some(0);
    begin_stream(&mut state, &req, &f);
    assert_eq!(state.get_position(text("tt0111161"), None), 0);
    req.seek_to = Some(600_000);
    f.seek_to = Some(600_000);
    plan_seek(&req, &mut state);
    begin_stream(&mut state, &req, &f);
    assert_eq!(state.get_position(text("tt0111161"), None), 600_000);
}

#[test]
fn a_stream_is_remembered_with_what_it_is_made_of() {
    let mut state = AppState::default();
    let mut req = request();
    req.title = text("Severance S02E03");
    req.imdb_id = text("tt11280740");
    req.season = Some(2);
    req.episode = Some(3);
    req.poster_url = text("http://10.0.0.1/probe.jpg");
    begin_stream_at(&mut state, &req, &facts(), at(1_000));
    let c = state.current.unwrap();
    assert_eq!(c.target, "chromecast:Bedroom TV");
    assert_eq!(c.started_at, at(1_000));
    assert_eq!(c.subtitle_lang.as_deref(), Some("eng"));
    assert_eq!(c.cache_key.as_deref(), Some("tt11280740_s02e03_sub-eng_nointro"));
    assert_eq!(c.poster_url, None);
    assert_eq!(c.ss_offset, 0);
    assert!(!c.prepared_hls);
}

#[test]
fn a_stream_that_was_sought_into_is_not_kept() {
    let mut state = AppState::default();
    let mut req = request();
    req.imdb_id = text("tt11280740");
    let mut f = facts();
    f.seek_to = Some(90_000);
    begin_stream_at(&mut state, &req, &f, at(0));
    let c = state.current.as_ref().unwrap();
    assert_eq!(c.cache_key, None);
    assert_eq!(c.ss_offset, 90_000);
    f.is_transcoded = false;
    begin_stream_at(&mut state, &req, &f, at(0));
    assert_eq!(state.current.unwrap().ss_offset, 0);
}

// ---------------------------------------------------------------------- navigation
fn episode(season: u32, episode: u32) -> CurrentStream {
    let mut c = stream();
    c.show = text("Severance");
    c.season = Some(season);
    c.episode = Some(episode);
    c.target = "chromecast:TV".to_string();
    c
}

#[test]
fn the_next_episode_and_the_one_before() {
    assert_eq!(
        neighbour(Some(&episode(2, 3)), true).unwrap(),
        ("Severance".to_string(), 2, 4)
    );
    assert_eq!(neighbour(Some(&episode(2, 4)), false).unwrap().2, 3);
    let (_, season, last) = neighbour(Some(&episode(2, 1)), false).unwrap();
    assert_eq!((season, last), (1, 99));
    assert_eq!(neighbour(Some(&episode(1, 1)), false).unwrap_err(), NavigateError::AtFirst);
    assert_eq!(neighbour(None, true).unwrap_err(), NavigateError::NoContext);
    assert_eq!(neighbour(Some(&stream()), true).unwrap_err(), NavigateError::NoContext);
    assert_eq!(NavigateError::AtFirst.message(), "Already at first episode");
    assert_eq!(
        NavigateError::NoContext.message(),
        "No show/episode context -- play a TV episode first"
    );
    assert_eq!(no_torrent_message(2, 4), "No torrent found for S02E04");
}

#[test]
fn an_episode_is_played_on_the_same_device() {
    let mut found = search();
    let req =
        episode_request(&episode(2, 3), "Severance".to_string(), 2, 4, &found).unwrap();
    assert_eq!(req.title.as_deref(), Some("Severance S02E04"));
    assert_eq!(req.target.as_deref(), Some("chromecast"));
    assert_eq!(req.cast_name.as_deref(), Some("TV"));
    assert_eq!(req.magnet.as_deref(), Some("magnet:?xt=urn:btih:1"));
    found.torrent_available = false;
    assert!(episode_request(&episode(2, 3), "Severance".to_string(), 2, 4, &found).is_none());
}

// ----------------------------------------------------------------------- the watch
fn watch() -> Watch {
    Watch { started_at: at(0), ss_offset: 0, duration: Some(3_600_000) }
}

fn says(state: &str, seconds: i64) -> PlayerInfo {
    PlayerInfo {
        player_state: state.to_string(),
        current_time: seconds * 1000,
        duration: 3_600_000,
        media_session_id: Some(1),
    }
}

#[test]
fn three_idle_looks_end_a_stream_that_never_played() {
    let w = watch();
    let mut m = Monitor::new(&w, &moment(10));
    for secs in [100, 105, 110] {
        assert_eq!(m.verdict(&w, &moment(secs)), Verdict::KeepPolling);
        assert_eq!(m.observe(&w, &says("idle", 0), 30, &moment(secs)), None);
    }
    assert_eq!(m.verdict(&w, &moment(110)), Verdict::GiveUp(false));
}

#[test]
fn a_stream_that_played_is_loaded_again_but_not_at_once_a_second_time() {
    let w = watch();
    let mut m = Monitor::new(&w, &moment(10));
    m.observe(&w, &says("Playing", 600), 30, &moment(610));
    for secs in [615, 620, 625] {
        m.observe(&w, &says("Idle", 0), 30, &moment(secs));
    }
    assert_eq!(m.verdict(&w, &moment(625)), Verdict::Recast(600_000));
    m.note_recast(&moment(625));
    assert_eq!(m.verdict(&w, &moment(626)), Verdict::KeepPolling);
    for _ in 0..3 {
        m.observe_failure();
    }
    assert_eq!(m.verdict(&w, &moment(640)), Verdict::GiveUp(false));
    assert_eq!(m.verdict(&w, &moment(655)), Verdict::Recast(600_000));
}

#[test]
fn a_stream_at_its_end_is_not_loaded_again() {
    let w = watch();
    let mut m = Monitor::new(&w, &moment(10));
    m.observe(&w, &says("PLAYING", 3_500), 30, &moment(3_510));
    for secs in [3_515, 3_520, 3_525] {
        m.observe(&w, &says("IDLE", 0), 30, &moment(secs));
    }
    assert_eq!(m.verdict(&w, &moment(3_525)), Verdict::GiveUp(true));
}

#[test]
fn a_stall_counts_at_once_and_a_short_one_not_at_all() {
    let w = watch();
    let mut m = Monitor::new(&w, &moment(10));
    m.observe(&w, &says("playing", 600), 15, &moment(610));
    m.observe(&w, &says("buffering", 600), 15, &moment(615));
    m.observe(&w, &says("buffering", 600), 15, &moment(625));
    assert_eq!(m.verdict(&w, &moment(625)), Verdict::KeepPolling);
    m.observe(&w, &says("buffering", 601), 15, &moment(630));
    assert_eq!(m.verdict(&w, &moment(630)), Verdict::Recast(600_000));
}

#[test]
fn a_receiver_that_is_starting_up_does_not_fail() {
    let w = watch();
    let mut m = Monitor::new(&w, &moment(10));
    let mut starting = says("IDLE", 0);
    starting.media_session_id = None;
    for secs in [10, 20, 30, 40, 55] {
        m.observe(&w, &starting, 30, &moment(secs));
        assert_eq!(m.verdict(&w, &moment(secs)), Verdict::KeepPolling);
    }
    assert_eq!(m.consecutive_failures, 0);
    m.observe(&w, &starting, 30, &moment(60));
    assert_eq!(m.consecutive_failures, 1);
}

#[test]
fn a_young_stream_that_played_ends_after_three_idle_looks() {
    let w = watch();
    let mut m = Monitor::new(&w, &moment(10));
    let mut idle = says("IDLE", 0);
    idle.media_session_id = None;
    m.observe(&w, &idle, 30, &moment(12));
    assert_eq!(m.consecutive_failures, 0);
    m.observe(&w, &says("PLAYING", 5), 30, &moment(20));
    for (secs, failures) in [(25, 1), (30, 2), (35, 3)] {
        m.observe(&w, &idle, 30, &moment(secs));
        assert_eq!(m.consecutive_failures, failures);
    }
    assert_eq!(m.verdict(&w, &moment(35)), Verdict::GiveUp(false));
}

#[test]
fn a_receiver_that_gave_a_session_is_past_its_start() {
    let w = watch();
    let mut m = Monitor::new(&w, &moment(10));
    m.observe(&w, &says("IDLE", 0), 30, &moment(12));
    let mut idle = says("IDLE", 0);
    idle.media_session_id = None;
    m.observe(&w, &idle, 30, &moment(17));
    assert_eq!(m.consecutive_failures, 2);
    m.note_recast(&moment(20));
    m.observe(&w, &idle, 30, &moment(22));
    assert_eq!(m.consecutive_failures, 0);
}

#[test]
fn positions_are_saved_now_and_then_and_never_after_a_leap() {
    let w = Watch { ss_offset: 100_000, ..watch() };
    let mut m = Monitor::new(&w, &moment(10));
    assert_eq!(m.observe(&w, &says("PLAYING", 20), 30, &moment(30)), None);
    let save = Save { position: 140_000, duration: Some(3_600_000) };
    assert_eq!(m.observe(&w, &says("PLAYING", 40), 30, &moment(50)), Some(save));
    m.note_saved(140_000, &moment(50));
    assert_eq!(m.observe(&w, &says("PLAYING", 45), 30, &moment(55)), None);
    assert_eq!(m.observe(&w, &says("PLAYING", 1_900), 30, &moment(85)), None);
    let back = Save { position: 100_000, duration: Some(3_600_000) };
    assert_eq!(m.observe(&w, &says("PLAYING", 0), 30, &moment(88)), Some(back));
    let save = Save { position: 180_000, duration: Some(3_600_000) };
    assert_eq!(m.observe(&w, &says("PLAYING", 80), 30, &moment(90)), Some(save));
}

#[test]
fn a_reload_returns_to_the_position_within_the_stream() {
    let mut c = stream();
    c.title = "Severance".to_string();
    let plan = recast_plan(&c, true, 600_000, 90_000);
    assert_eq!(plan.url, "http://10.0.0.2:7890/hls/master.m3u8");
    assert_eq!(plan.content_type, "application/vnd.apple.mpegurl");
    assert_eq!(plan.seek, Some(510_000));
    assert_eq!(plan.metadata.title.as_deref(), Some("Severance"));
    assert_eq!(recast_plan(&c, false, 90_500, 90_000).seek, None);
    assert!(recast_plan(&c, false, 0, 0).metadata.title.is_none());
}

#[test]
fn the_queue_plays_in_order() {
    let item = |title: &str| QueuedItem {
        magnet: "magnet:?xt=urn:btih:1".to_string(),
        title: title.to_string(),
        show: None,
        season: None,
        episode: None,
        imdb_id: None,
        file_index: None,
        cast_name: None,
        target: None,
        poster_url: None,
        quality: None,
        size: None,
        smooth: false,
    };
    let mut state = AppState::default();
    assert!(take_next(&mut state).is_none());
    assert_eq!(enqueue(&mut state, item("first")), 1);
    assert_eq!(enqueue(&mut state, item("second")), 2);
    assert_eq!(take_next(&mut state).unwrap().title, "first");
    assert_eq!(take_next(&mut state).unwrap().title, "second");
    assert!(take_next(&mut state).is_none());
}

#[test]
fn the_server_calls_itself_where_it_is_bound() {
    assert_eq!(self_call_url("0.0.0.0", 7890), "http://127.0.0.1:7890/play");
    assert_eq!(self_call_url("", 7890), "http://127.0.0.1:7890/play");
    assert_eq!(self_call_url("10.0.0.2", 80), "http://10.0.0.2:80/play");
}
