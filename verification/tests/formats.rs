use spela::hls::{
    build_padded_vod_manifest, count_hls_segments, has_endlist, master_playlist, min_segments,
    parse_hls_playlist_for_padding, playlist_to_serve, poll_segment, prebuffer_step,
    prebuffer_target, prebuffer_timeout_secs, segment_file_name, segment_file_pattern, Completion,
    CompletionWait, Prebuffer, SegmentPoll, TranscodeLook,
};
use spela::hls_cache::build_cache_key;
use spela::numbers::parse_size_to_bytes;
use spela::playback::{begin_stream_at, PlayRequest, StreamFacts};
use spela::srt::{
    format_srt_timestamp, format_srt_timestamp_line, parse_srt_timestamp, parse_srt_timestamp_line,
    shift_srt,
};
use spela::state::{AppState, CurrentStream};
use spela::static_files::{
    await_file, file_head, parse_http_range_header, parse_range_start, stream_start, tail_step,
    TailStep,
};
use spela::subtitles::{
    choose_tracks, is_substantial, iso639_1_to_2, map_argument, offers_in_listing, pick_offer,
    srt_to_vtt, streams_in_report, subtitle_file_name, subtitle_listing_url, tracks_in_report,
    OfferedSubtitle, SubtitleStream,
};
use spela::time::Timestamp;
use spela::titles::{
    clean_title, clean_title_for_tmdb, extract_se_suffix, parse_episode_markers,
    resume_position_key, slugify,
};
use spela::transcode::{parse_probe_report, transcode, transcode_hls, TranscodeJob};

// ------------------------------------------------------------------------- numbers
#[test]
fn sizes_are_read_as_the_standard_library_reads_floats() {
    assert_eq!(parse_size_to_bytes("1.5 GB"), Some(1_610_612_736));
    assert_eq!(parse_size_to_bytes("1e3 MB"), Some(1_048_576_000));
    assert_eq!(parse_size_to_bytes("2E-1 GB"), Some(214_748_364));
    assert_eq!(parse_size_to_bytes("+.5 KB"), Some(512));
    assert_eq!(parse_size_to_bytes("7. KB"), Some(7_168));
    assert_eq!(parse_size_to_bytes("-1 GB"), Some(0));
    assert_eq!(parse_size_to_bytes("inf GB"), Some(u64::MAX));
    assert_eq!(parse_size_to_bytes("NaN GB"), Some(0));
    assert_eq!(parse_size_to_bytes("1e400 TB"), Some(u64::MAX));
    assert_eq!(parse_size_to_bytes("1e-400 TB"), Some(0));
    assert_eq!(parse_size_to_bytes(". GB"), None);
    assert_eq!(parse_size_to_bytes("1e GB"), None);
    assert_eq!(parse_size_to_bytes("1,5 GB"), None);
}

// ------------------------------------------------------------------------- SubRip
#[test]
fn a_written_timestamp_reads_back() {
    for t in [0u128, 999, 61_001, 3_599_999, 36_000_000, 359_999_999] {
        assert_eq!(parse_srt_timestamp(&format_srt_timestamp(t as i128)), Some(t));
    }
    let line = format_srt_timestamp_line(61_001, 3_600_000);
    assert_eq!(line, "00:01:01,001 --> 01:00:00,000");
    assert_eq!(parse_srt_timestamp_line(&line), Some((61_001, 3_600_000)));
    assert_eq!(parse_srt_timestamp_line("no times"), None);
}

#[test]
fn entries_that_are_over_are_dropped_and_the_rest_numbered_anew() {
    let srt = "1\n00:00:01,000 --> 00:00:02,000\ngone\n\n2\n00:00:10,000 --> 00:00:12,500\nkept\n";
    let (moved, n) = shift_srt(srt, 5_000);
    assert_eq!(n, 1);
    assert_eq!(moved, "1\n00:00:05,000 --> 00:00:07,500\nkept\n\n");
}

#[test]
fn webvtt_has_points_for_commas_in_lines_of_times_only() {
    assert_eq!(
        srt_to_vtt("1\r\n00:00:01,000 --> 00:00:02,000\r\nwell, well\r\n"),
        "WEBVTT\n\n1\n00:00:01.000 --> 00:00:02.000\nwell, well\n"
    );
}

// --------------------------------------------------------------------- playlists
const PLAYLIST: &str = "#EXTM3U\n#EXT-X-VERSION:3\n#EXTINF:6.000000,\nseg_00000.ts\n\
                        #EXTINF:4.500000,\nseg_00001.ts\n";

#[test]
fn a_padded_playlist_reads_back_as_the_whole_film() {
    let padded = build_padded_vod_manifest(PLAYLIST, 30_000, 6_000);
    let (headers, entries, ended) = parse_hls_playlist_for_padding(&padded);
    assert!(ended);
    assert_eq!(headers, vec!["#EXTM3U".to_string(), "#EXT-X-VERSION:3".to_string()]);
    assert_eq!(entries.len(), 8);
    assert_eq!(entries[1], (4_500_000, "seg_00001.ts".to_string()));
    assert_eq!(entries[7], (5_250_000, "seg_00007.ts".to_string()));
    assert_eq!(build_padded_vod_manifest(&padded, 99_000, 1_000), padded);
    let total: i64 = entries.iter().map(|e| e.0).sum();
    assert!(total >= 30_000_000);
}

fn stream(duration: Option<i64>, ss_offset: i64) -> CurrentStream {
    let request = PlayRequest {
        magnet: None,
        result_id: None,
        target: None,
        cast_name: None,
        title: None,
        file_index: None,
        no_subs: None,
        no_intro: None,
        smooth: None,
        subtitle_lang: None,
        imdb_id: None,
        show: None,
        season: None,
        episode: None,
        seek_to: None,
        duration: None,
        quality: None,
        size: None,
        poster_url: None,
    };
    let facts = StreamFacts {
        magnet: String::new(),
        target: "chromecast".to_string(),
        cast_name: "TV".to_string(),
        url: String::new(),
        pid: 1,
        has_subtitles: false,
        subtitle_lang: String::new(),
        duration,
        is_transcoded: true,
        is_local: false,
        has_intro: false,
        seek_to: if ss_offset == 0 { None } else { Some(ss_offset) },
        cache_enabled: false,
    };
    let mut state = AppState::default();
    begin_stream_at(&mut state, &request, &facts, Timestamp { secs: 0, nanos: 0 });
    state.current.unwrap()
}

#[test]
fn a_playlist_is_padded_for_what_remains_behind_the_offset() {
    let c = stream(Some(100_000), 70_000);
    let served = playlist_to_serve(PLAYLIST, Some(&c), true, false);
    assert_eq!(served, Some(build_padded_vod_manifest(PLAYLIST, 30_000, 6_000)));
    assert_eq!(playlist_to_serve(PLAYLIST, Some(&stream(None, 0)), true, false), None);
    assert_eq!(playlist_to_serve(PLAYLIST, None, true, false), None);
    assert_eq!(playlist_to_serve(PLAYLIST, Some(&c), false, false), None);
}

#[test]
fn a_playlist_is_ended_where_that_is_wanted() {
    let ended = format!("{PLAYLIST}#EXT-X-ENDLIST\n");
    assert_eq!(playlist_to_serve(PLAYLIST, None, false, true), Some(ended.clone()));
    assert_eq!(playlist_to_serve(PLAYLIST.trim_end(), None, false, true), Some(ended.clone()));
    assert_eq!(playlist_to_serve(&ended, None, false, true), Some(ended.clone()));
    assert!(has_endlist(&ended) && !has_endlist(PLAYLIST));
}

#[test]
fn the_master_playlist_names_codecs_size_and_rate() {
    let m = master_playlist();
    assert!(m.starts_with("#EXTM3U\n#EXT-X-VERSION:3\n"));
    assert!(m.contains("CODECS=\"avc1.640028,mp4a.40.2\""));
    assert!(m.ends_with("playlist.m3u8\n"));
}

#[test]
fn segments_to_come_are_waited_for() {
    assert_eq!(poll_segment(false, false, 0), SegmentPoll::Serve);
    assert_eq!(poll_segment(true, true, 0), SegmentPoll::Serve);
    assert_eq!(poll_segment(true, false, 27_999), SegmentPoll::Wait);
    assert_eq!(poll_segment(true, false, 28_000), SegmentPoll::Unavailable);
}

#[test]
fn a_stream_is_cast_once_it_is_far_enough_along() {
    assert_eq!((min_segments("chromecast"), min_segments("vlc")), (20, 10));
    assert_eq!((prebuffer_timeout_secs(true), prebuffer_timeout_secs(false)), (90, 60));
    assert_eq!(prebuffer_target("seg_", 20), "seg_00020.ts");
    assert_eq!(segment_file_name(123_456), "seg_123456.ts");
    assert_eq!(segment_file_pattern().replace("%05d", "00007"), segment_file_name(7));
    let names = vec![
        "seg_00000.ts".to_string(),
        ".ts".to_string(),
        "playlist.m3u8".to_string(),
        "seg_00001.ts".to_string(),
    ];
    assert_eq!(count_hls_segments(&names), 2);
    assert_eq!(prebuffer_step(19_999, 60, 0, false), Prebuffer::Wait);
    assert_eq!(prebuffer_step(20_000, 60, 0, false), Prebuffer::FailFast);
    assert_eq!(prebuffer_step(20_000, 60, 1, false), Prebuffer::Wait);
    assert_eq!(prebuffer_step(30_000, 60, 21, true), Prebuffer::Ready);
    assert_eq!(prebuffer_step(60_001, 60, 3, false), Prebuffer::CastAnyway);
}

fn look(had_endlist: bool, manifest_len: u64, process_gone: bool) -> TranscodeLook {
    TranscodeLook { had_endlist, manifest_len, segments: 1, process_gone }
}

#[test]
fn a_whole_transcode_is_waited_for_while_it_goes_on() {
    let mut wait = CompletionWait::new(Some(3_600_000), 0);
    assert_eq!(wait.look(look(false, 10, false), 1_000), Completion::Waiting);
    assert_eq!(wait.look(look(false, 20, false), 100_000), Completion::Waiting);
    assert_eq!(wait.look(look(false, 20, false), 219_999), Completion::Waiting);
    let stalled = wait.look(look(false, 20, false), 220_000);
    assert_eq!(stalled, Completion::Stalled);
    assert_eq!(
        stalled.complaint(&wait, 1, 220_000).as_deref(),
        Some("local HLS generation stalled for 120s before ENDLIST (segments_ready=1)")
    );
    let exited = wait.look(look(false, 20, true), 101_000);
    assert_eq!(exited, Completion::Exited);
    assert_eq!(
        exited.complaint(&wait, 7, 101_250).as_deref(),
        Some(
            "ffmpeg exited before HLS playlist was finalized with ENDLIST (segments_ready=7, \
             waited=101.3s)"
        )
    );
    assert_eq!(
        Completion::TimedOut.complaint(&wait, 7, 0).as_deref(),
        Some("timed out after 3600s waiting for a completed local HLS set (segments_ready=7)")
    );
    assert_eq!(Completion::Waiting.complaint(&wait, 7, 0), None);
    assert_eq!(wait.look(look(true, 20, true), 101_000), Completion::Complete);
}

// ------------------------------------------------------------------------ titles
#[test]
fn names_keys_and_markers() {
    assert_eq!(slugify("Ångström's  Été!"), "ångström-s-été");
    for title in ["--The  Film!! (2024)--", "A", "", "...", "S.W.A.T."] {
        let slug = slugify(title);
        assert!(slug.chars().all(|c| c.is_alphanumeric() || c == '-'));
        assert!(!slug.starts_with('-') && !slug.ends_with('-') && !slug.contains("--"));
        assert_eq!(slugify(&slug), slug);
        assert_eq!(slugify(&title.to_lowercase()), slug);
    }
    assert_eq!(extract_se_suffix("Severance S2E3").as_deref(), Some("_s02e03"));
    assert_eq!(extract_se_suffix("Severance S02E03 1080p").as_deref(), Some("_s02e03"));
    assert_eq!(extract_se_suffix("Less2E3"), None);
    assert_eq!(
        resume_position_key(Some("tt1"), Some("Show S01E02")).as_deref(),
        Some("tt1_s01e02")
    );
    assert_eq!(resume_position_key(None, Some("The Film")).as_deref(), Some("the-film"));
    assert_eq!(resume_position_key(Some(""), None), None);
    assert_eq!(clean_title_for_tmdb(" The Show - S01E02 720p"), "The Show");
    assert_eq!(
        parse_episode_markers("The Show S01E02"),
        ("The Show".to_string(), Some(1), Some(2))
    );
    assert_eq!(clean_title("The.Show.S01E02"), "the show");
    assert_eq!(
        build_cache_key(Some("tt1"), None, None, None, true).as_deref(),
        Some("tt1_nosub_intro")
    );
    assert_eq!(build_cache_key(None, None, None, None, true), None);
}

// --------------------------------------------------------------------- subtitles
fn track(index: i64, language: &str, title: &str, forced: bool) -> SubtitleStream {
    SubtitleStream {
        index: Some(index),
        language: Some(language.to_string()),
        title: Some(title.to_string()),
        forced,
    }
}

#[test]
fn tracks_are_tried_best_first() {
    let streams = vec![
        track(2, "ENG", "English (sdh)", false),
        track(3, "swe", "Svenska", false),
        track(4, "eng", "English", false),
        track(5, "eng", "Signs", true),
    ];
    assert_eq!(choose_tracks(&streams, "en"), vec![5, 4, 2]);
    assert_eq!(choose_tracks(&streams, "eng"), vec![5, 4, 2]);
    assert_eq!(choose_tracks(&streams, "sv"), vec![3]);
    assert_eq!(choose_tracks(&streams, "de"), Vec::<i64>::new());
    assert_eq!((iso639_1_to_2("sv"), iso639_1_to_2("xx")), ("swe", "xx"));
    assert_eq!((map_argument(5).as_str(), map_argument(-1).as_str()), ("0:5", "0:-1"));
    assert!(is_substantial(201) && !is_substantial(200));
}

#[test]
fn subtitles_are_asked_for_by_title_or_episode() {
    assert_eq!(
        subtitle_listing_url("tt1", Some(2), Some(13)),
        "https://opensubtitles-v3.strem.io/subtitles/series/tt1:2:13.json"
    );
    assert_eq!(
        subtitle_listing_url("tt1", Some(2), None),
        "https://opensubtitles-v3.strem.io/subtitles/movie/tt1.json"
    );
    assert_eq!(subtitle_file_name("eng", "srt"), "subtitle_eng.srt");
    let offer = |lang: &str, url: Option<&str>| OfferedSubtitle {
        lang: Some(lang.to_string()),
        url: url.map(|u| u.to_string()),
    };
    let offers = vec![offer("swe", Some("a")), offer("eng", Some("b")), offer("eng", Some("c"))];
    assert_eq!(pick_offer(&offers, "eng").as_deref(), Some("b"));
    assert_eq!(pick_offer(&offers, "fre"), None);
    assert_eq!(pick_offer(&vec![offer("eng", None), offer("eng", Some("c"))], "eng"), None);
}

#[test]
fn streams_are_read_from_a_report_in_json() {
    let json = br#"{"streams": [
        {"index": 2, "tags": {"language": "eng", "title": "English SDH"},
         "disposition": {"forced": 0}},
        {"index": 3, "tags": {"language": "eng"}, "disposition": {"forced": 1}},
        {"index": 4.5, "tags": {"language": 7}},
        []
    ]}"#;
    let streams = streams_in_report(json);
    assert_eq!(streams.len(), 4);
    assert_eq!((streams[0].index, streams[0].forced), (Some(2), false));
    assert_eq!(streams[0].title.as_deref(), Some("English SDH"));
    assert_eq!((streams[1].title.as_deref(), streams[1].forced), (None, true));
    assert_eq!((streams[2].index, streams[2].language.as_deref()), (None, None));
    assert_eq!(streams[3].index, None);
    assert_eq!(tracks_in_report(json, "en"), vec![3, 2]);
    assert!(streams_in_report(b"{}").is_empty());
    assert!(streams_in_report(b"not json").is_empty());
    assert!(streams_in_report(br#"{"streams": {"0": {"index": 1}}}"#).is_empty());
}

#[test]
fn offers_are_read_from_a_listing_in_json() {
    let json = br#"{"subtitles": [{"lang": "swe", "url": "https://s/1"},
                                  {"lang": "eng", "url": "https://s/2"}]}"#;
    let offers = offers_in_listing(json);
    assert_eq!(offers.len(), 2);
    assert_eq!(pick_offer(&offers, "eng").as_deref(), Some("https://s/2"));
    assert!(offers_in_listing(b"").is_empty());
}

// --------------------------------------------------------------------- transcodes
fn job() -> TranscodeJob {
    TranscodeJob {
        input_url: "http://127.0.0.1:7890/torrent/1/stream/0".to_string(),
        subtitles: None,
        intro: None,
        video_reencode: false,
        seek_to: None,
        audio_index: 1,
    }
}

#[test]
fn a_compatible_source_is_copied() {
    let args = transcode_hls(&job(), "/hls/seg_%05d.ts", "/hls/playlist.m3u8");
    assert_eq!(
        args.join(" "),
        "-reconnect 1 -reconnect_at_eof 1 -reconnect_streamed 1 -reconnect_delay_max 30 \
         -rw_timeout 60000000 -i http://127.0.0.1:7890/torrent/1/stream/0 -map 0:v:0 -map 0:a:1 \
         -c:v copy -c:a aac -ac 2 -b:a 192k -dn -map_metadata -1 -f hls -hls_time 6 \
         -hls_list_size 0 -hls_segment_type mpegts -hls_segment_filename /hls/seg_%05d.ts \
         -hls_flags temp_file -y /hls/playlist.m3u8"
    );
}

#[test]
fn a_local_source_is_sought_into_and_subtitles_burned_in() {
    let mut j = job();
    j.input_url = "file:///media/a.mkv".to_string();
    j.subtitles = Some("/media/c:sub.srt".to_string());
    j.seek_to = Some(90_250);
    let args = transcode(&j, "/media/transcoded_aac.mp4");
    assert_eq!(
        args.join(" "),
        "-ss 90.25 -i /media/a.mkv -map 0:v:0 -map 0:a:1 -vf \
         subtitles='/media/c\\:sub.srt',format=yuv420p -c:v h264_nvenc -preset p4 -cq 23 -c:a aac \
         -ac 2 -b:a 192k -dn -map_metadata -1 -movflags frag_keyframe+empty_moov+default_base_moof \
         -y /media/transcoded_aac.mp4"
    );
}

#[test]
fn whatever_is_encoded_is_brought_to_eight_bits() {
    let mut j = job();
    j.video_reencode = true;
    assert!(transcode_hls(&j, "s", "m").contains(&"format=yuv420p".to_string()));
    j.intro = Some("/intro.mp4".to_string());
    let args = transcode_hls(&j, "s", "m");
    let filter = &args[args.iter().position(|a| a == "-filter_complex").unwrap() + 1];
    assert_eq!(filter.matches("format=yuv420p").count(), 2);
    assert!(filter.contains("[1:a:1]aresample=48000[a1]"));
    assert!(args.contains(&"expr:gte(t,n_forced*6)".to_string()));
}

#[test]
fn a_probe_report_prefers_english_audio() {
    let report = "[STREAM]\ncodec_type=video\ncodec_name=hevc\n[/STREAM]\n\
                  [STREAM]\ncodec_type=audio\ncodec_name=ac3\nTAG:language=rus\n[/STREAM]\n\
                  [STREAM]\ncodec_type=audio\ncodec_name=aac\nTAG:language=ENG\n[/STREAM]\n\
                  [FORMAT]\nduration=3600.5004\n[/FORMAT]\n";
    let c = parse_probe_report(report);
    assert_eq!(c.video_codec.as_deref(), Some("hevc"));
    assert_eq!(c.duration, Some(3_600_500));
    assert_eq!(c.audio_index, 1);
    assert_eq!(c.audio_stream, "0:a:1");
}

// ------------------------------------------------------------------------ serving
#[test]
fn a_file_is_headed_by_what_is_asked_of_it() {
    let whole = file_head(None, 1_000);
    assert_eq!((whole.status, whole.start, whole.content_length), (200, 0, 1_000));
    assert_eq!(whole.content_range, None);
    let part = file_head(Some("bytes=100-199"), 1_000);
    assert_eq!((part.status, part.start, part.content_length), (206, 100, 100));
    assert_eq!(part.content_range.as_deref(), Some("bytes 100-199/1000"));
    let open = file_head(Some("bytes=900-"), 1_000);
    assert_eq!((open.start, open.content_length), (900, 100));
    let empty = file_head(None, 0);
    assert_eq!((empty.status, empty.start, empty.content_length), (200, 0, 0));
    assert_eq!(file_head(Some("bytes=0-"), 0).content_length, 0);
    for malformed in ["bytes=abc-100", "bytes=-500", "bytes=500-100", "bytes=5-x", "bytes=7", "x"] {
        assert_eq!(parse_http_range_header(Some(malformed), 1_000), (0, 999));
        let head = file_head(Some(malformed), 1_000);
        assert_eq!((head.status, head.content_length), (206, 1_000));
        assert_eq!(head.content_range.as_deref(), Some("bytes 0-999/1000"));
    }
    assert_eq!(parse_http_range_header(Some("bytes= 5 - 9 , 20-30"), 1_000), (5, 9));
    assert_eq!(parse_http_range_header(Some("bytes=5-5000"), 1_000), (5, 999));
    assert_eq!(parse_http_range_header(Some("bytes=5000-"), 1_000), (999, 999));
    assert_eq!(parse_http_range_header(Some("items=1-2"), 1_000), (0, 999));
    assert_eq!(parse_http_range_header(None, 0), (0, 0));
}

#[test]
fn a_growing_file_is_followed_for_as_long_as_it_is_written() {
    assert_eq!(parse_range_start(Some("bytes=65536-")), 65_536);
    assert_eq!(stream_start(65_536, Some(65_536)), 65_536);
    assert_eq!(stream_start(65_537, Some(65_536)), 0);
    assert_eq!(stream_start(1, None), 0);
    assert!(await_file(false, 0) && await_file(false, 29));
    assert!(!await_file(false, 30) && !await_file(true, 0));
    assert_eq!(tail_step(10, false), TailStep::Send);
    assert_eq!(tail_step(0, true), TailStep::Wait);
    assert_eq!(tail_step(0, false), TailStep::End);
}
