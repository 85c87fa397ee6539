use spela::log_ring::{plan_rotation, ring_path, RotateStep};
use spela::srt::{format_srt_timestamp, parse_srt_timestamp, shift_srt};
use spela::transcode::{
    audio_needs_transcode, inspect_ffmpeg_log_for_corruption, resolve_subtitle_path_for_seek,
    video_needs_transcode,
};

fn rotated(files: Vec<Option<&'static str>>) -> Vec<Option<&'static str>> {
    let present: Vec<bool> = files.iter().map(|f| f.is_some()).collect();
    let mut after = files;
    for step in plan_rotation(&present) {
        match step {
            RotateStep::Remove(n) => after[n] = None,
            RotateStep::Rename(a, b) => {
                after[b] = after[a];
                after[a] = None;
            }
        }
    }
    after
}

#[test]
fn inspect_ffmpeg_log_detects_ebml_corruption() {
    let log = "frame= 100 fps=23 size= 500kB time=00:00:04 bitrate= 983kbits/s speed=0.95x\n\
        [matroska,webm @ 0x55a8b8b3e780] 0x00 at pos 417448081 (0x18e1c091) invalid as first byte of an EBML number\n\
        frame= 500 fps=24 size= 2000kB time=00:00:20 bitrate= 786kbits/s speed=1.0x\n";
    assert_eq!(
        inspect_ffmpeg_log_for_corruption(log),
        Some("Matroska container corruption (EBML parse error)")
    );
}

#[test]
fn inspect_ffmpeg_log_detects_missing_hevc_ref() {
    let log = "[hevc @ 0x7f8c40000000] Could not find ref with POC 54458, 54456, 54452\n";
    assert_eq!(
        inspect_ffmpeg_log_for_corruption(log),
        Some("HEVC reference frame missing (decoder couldn't reconstruct)")
    );
}

#[test]
fn inspect_ffmpeg_log_detects_excessive_duplication() {
    let log = "frame= 9000 fps=24 q=23.0 size= 450000kB time=00:06:15.00 \
        bitrate=9805.4kbits/s dup=1500 drop=0 speed=1.5x\n";
    assert_eq!(
        inspect_ffmpeg_log_for_corruption(log),
        Some("excessive frame duplication (NVENC fill from missing refs)")
    );
}

#[test]
fn inspect_ffmpeg_log_clean_returns_none() {
    let log = "frame= 9000 fps=24 q=23.0 size= 450000kB time=00:06:15 \
        bitrate=9805kbits/s dup=5 drop=0 speed=1.5x\n";
    assert_eq!(inspect_ffmpeg_log_for_corruption(log), None);
}

#[test]
fn inspect_ffmpeg_log_dup_threshold_is_exclusive_at_100() {
    let at = "frame= 1000 fps=24 dup=100 drop=0 speed=1x\n";
    let just_above = "frame= 1000 fps=24 dup=101 drop=0 speed=1x\n";
    assert_eq!(inspect_ffmpeg_log_for_corruption(at), None);
    assert!(inspect_ffmpeg_log_for_corruption(just_above).is_some());
}

#[test]
fn inspect_ffmpeg_log_empty_input_returns_none() {
    assert_eq!(inspect_ffmpeg_log_for_corruption(""), None);
}

#[test]
fn test_rotate_creates_dot1_from_existing() {
    let after = rotated(vec![Some("stream A"), None, None, None, None, None]);
    assert_eq!(after[0], None);
    assert_eq!(after[1], Some("stream A"));
    assert_eq!(ring_path("/s/ffmpeg.log", 1), "/s/ffmpeg.log.1");
}

#[test]
fn test_rotate_shifts_existing_history() {
    let after =
        rotated(vec![Some("current"), Some("older"), Some("older2"), None, None, None]);
    assert_eq!(after[1], Some("current"));
    assert_eq!(after[2], Some("older"));
    assert_eq!(after[3], Some("older2"));
}

#[test]
fn test_rotate_drops_oldest_when_at_keep_limit() {
    let after = rotated(vec![
        Some("current"),
        Some("gen1"),
        Some("gen2"),
        Some("gen3"),
        Some("gen4"),
        Some("gen5"),
    ]);
    assert_eq!(after[1], Some("current"));
    assert_eq!(after[2], Some("gen1"));
    assert_eq!(after[5], Some("gen4"));
    assert_eq!(after.len(), 6);
}

#[test]
fn test_rotate_no_crash_when_log_missing() {
    let after = rotated(vec![None, None, None, None, None, None]);
    assert_eq!(after[0], None);
    assert_eq!(after[1], None);
}

#[test]
fn test_audio_needs_transcode() {
    assert!(audio_needs_transcode("ac3"));
    assert!(audio_needs_transcode("eac3"));
    assert!(audio_needs_transcode("dts"));
    assert!(audio_needs_transcode("truehd"));
    assert!(audio_needs_transcode("dca"));
    assert!(!audio_needs_transcode("aac"));
    assert!(!audio_needs_transcode("mp3"));
    assert!(!audio_needs_transcode("opus"));
    assert!(!audio_needs_transcode("vorbis"));
}

#[test]
fn test_video_needs_transcode() {
    assert!(video_needs_transcode("hevc"));
    assert!(video_needs_transcode("h265"));
    assert!(video_needs_transcode("vp9"));
    assert!(video_needs_transcode("av1"));
    assert!(!video_needs_transcode("h264"));
    assert!(!video_needs_transcode("mpeg4"));
    assert!(!video_needs_transcode("vp8"));
}

#[test]
fn test_parse_srt_timestamp() {
    assert_eq!(parse_srt_timestamp("00:00:00,000"), Some(0));
    assert_eq!(parse_srt_timestamp("00:00:01,500"), Some(1_500));
    assert_eq!(parse_srt_timestamp("00:30:00,000"), Some(1_800_000));
    assert_eq!(parse_srt_timestamp("01:03:43,612"), Some(3_823_612));
    assert_eq!(parse_srt_timestamp("00:00:12,345"), Some(12_345));
}

#[test]
fn test_parse_srt_timestamp_rejects_malformed() {
    assert_eq!(parse_srt_timestamp(""), None);
    assert_eq!(parse_srt_timestamp("00:00"), None);
    assert_eq!(parse_srt_timestamp("00:00:00"), None);
    assert_eq!(parse_srt_timestamp("xx:yy:zz,aaa"), None);
}

#[test]
fn test_format_srt_timestamp_roundtrip() {
    for millis in [0_i128, 1_500, 12_345, 1_800_000, 3_823_612, 7_200_999] {
        let formatted = format_srt_timestamp(millis);
        assert_eq!(parse_srt_timestamp(&formatted), Some(millis as u128));
    }
}

#[test]
fn test_format_srt_timestamp_clamps_negative() {
    assert_eq!(format_srt_timestamp(-5_000), "00:00:00,000");
}

#[test]
fn test_shift_srt_normalizes_crlf_line_endings() {
    let (result, kept) = shift_srt(
        "1\r\n00:00:05,000 --> 00:00:07,000\r\nHello\r\n\r\n2\r\n00:00:15,000 --> 00:00:18,000\r\nWorld\r\n\r\n",
        0,
    );
    assert_eq!(kept, 2);
    assert!(result.contains("Hello"));
    assert!(result.contains("World"));
}

#[test]
fn test_shift_srt_simple_forward_shift() {
    let (result, kept) = shift_srt(
        "1\n00:00:05,000 --> 00:00:07,000\nHello\n\n2\n00:00:15,500 --> 00:00:18,000\nWorld\n\n",
        10_000,
    );
    assert_eq!(kept, 1);
    assert!(result.contains("00:00:05,500 --> 00:00:08,000"));
    assert!(result.contains("World"));
    assert!(!result.contains("Hello"));
    assert!(result.starts_with("1\n"));
}

#[test]
fn test_shift_srt_clamps_straddling_entry() {
    let (result, kept) =
        shift_srt("1\n00:00:08,000 --> 00:00:12,000\nStraddle\n\n", 10_000);
    assert_eq!(kept, 1);
    assert!(result.contains("00:00:00,000 --> 00:00:02,000"));
    assert!(result.contains("Straddle"));
}

#[test]
fn test_shift_srt_zero_offset_is_identity_like() {
    let text = "1\n00:00:05,000 --> 00:00:07,000\nA\n\n2\n00:00:15,500 --> 00:00:18,000\nB\n\n";
    let (result, kept) = shift_srt(text, 0);
    assert_eq!(kept, 2);
    assert!(result.contains("00:00:05,000 --> 00:00:07,000"));
    assert!(result.contains("00:00:15,500 --> 00:00:18,000"));
    assert!(result.contains("A"));
    assert!(result.contains("B"));
    assert_eq!(result, text);
}

#[test]
fn test_shift_srt_multi_line_text_preserved() {
    let (result, _) = shift_srt(
        "1\n00:00:30,000 --> 00:00:33,000\n- First line\n- Second line\n\n",
        10_000,
    );
    assert!(result.contains("- First line"));
    assert!(result.contains("- Second line"));
}

#[test]
fn test_resolve_subtitle_none_returns_none() {
    for seek in [None, Some(0), Some(1_800_000)] {
        let resolved = resolve_subtitle_path_for_seek(None, "/h/subtitle_shifted.srt", None, seek);
        assert!(resolved.path.is_none());
        assert!(resolved.moved.is_none());
    }
}

#[test]
fn test_resolve_subtitle_no_seek_passthrough() {
    let resolved = resolve_subtitle_path_for_seek(
        Some("/h/orig.srt"),
        "/h/subtitle_shifted.srt",
        Some("1\n00:00:05,000 --> 00:00:07,000\nHello\n\n"),
        None,
    );
    assert_eq!(resolved.path.as_deref(), Some("/h/orig.srt"));
    assert!(resolved.moved.is_none());
}

#[test]
fn test_resolve_subtitle_zero_seek_passthrough() {
    let resolved = resolve_subtitle_path_for_seek(
        Some("/h/orig.srt"),
        "/h/subtitle_shifted.srt",
        Some("1\n00:00:05,000 --> 00:00:07,000\nX\n\n"),
        Some(0),
    );
    assert_eq!(resolved.path.as_deref(), Some("/h/orig.srt"));
    assert!(resolved.moved.is_none());
}

#[test]
fn test_resolve_subtitle_positive_seek_uses_shifted() {
    let resolved = resolve_subtitle_path_for_seek(
        Some("/orig.srt"),
        "/h/subtitle_shifted.srt",
        Some(
            "1\n00:00:10,000 --> 00:00:12,000\nEarly\n\n2\n00:30:05,000 --> 00:30:08,000\nAt resume\n\n",
        ),
        Some(1_800_000),
    );
    assert_eq!(resolved.path.as_deref(), Some("/h/subtitle_shifted.srt"));
    let moved = resolved.moved.unwrap();
    assert!(!moved.contains("Early"));
    assert!(moved.contains("At resume"));
    assert!(moved.contains("00:00:05,000"));
}

#[test]
fn test_resolve_subtitle_missing_file_passthrough() {
    let resolved = resolve_subtitle_path_for_seek(
        Some("/h/does_not_exist.srt"),
        "/h/subtitle_shifted.srt",
        None,
        Some(1_800_000),
    );
    assert_eq!(resolved.path.as_deref(), Some("/h/does_not_exist.srt"));
    assert!(resolved.moved.is_none());
}

#[test]
fn test_shift_srt_realistic_30_minute_seek() {
    let (result, kept) = shift_srt(
        "1\n00:00:10,000 --> 00:00:12,000\nOpening credits\n\n2\n00:15:00,000 --> 00:15:03,000\nMidway dialogue\n\n3\n00:30:05,000 --> 00:30:08,000\nAt resume point\n\n4\n00:45:00,000 --> 00:45:04,000\nNear the end\n\n",
        1_800_000,
    );
    assert_eq!(kept, 2);
    assert!(!result.contains("Opening credits"));
    assert!(!result.contains("Midway dialogue"));
    assert!(result.contains("At resume point"));
    assert!(result.contains("Near the end"));
    assert!(result.contains("00:00:05,000 --> 00:00:08,000"));
    assert!(result.contains("00:15:00,000 --> 00:15:04,000"));
}
