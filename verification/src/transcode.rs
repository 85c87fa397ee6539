//! What ffmpeg and ffprobe say and are told: the codecs of a source, the signs of a corrupt one,
//! and the arguments of a transcode.
use vstd::prelude::*;

use crate::numbers::{read_rounded, rounded};
use crate::srt::{shift_srt, shifted};
use crate::text::{
    begins, chars_of, contains, dec, ends_with, find, find_chars, lemma_contains_find, lines,
    lowercase, match_at, matches_at, mentions, padded, parse_up_to, pieces, push_dec, push_padded,
    read_u32, same, slice_copy, split_lines, starts_with, string_of, to_lowercase, trim, trim_chars,
    views,
};
use crate::time::Millis;
use crate::titles::{digits_end, end_of_digits, opt, opt_str};

verus! {

// ---------------------------------------------------------------- corruption
/// How many lines at the end of a log may hold its summary.
pub const SUMMARY_LINES: usize = 50;

/// The number behind the first `dup=` of a line, where there is one that 32 bits hold.
pub open spec fn duplicates_in(line: Seq<char>) -> Option<nat> {
    match find(line, "dup="@) {
        Some(k) => parse_up_to(line.subrange(k + 4, digits_end(line, k + 4)), u32::MAX as nat),
        None => None,
    }
}

/// The place of the last line that speaks of duplicates, among the last `SUMMARY_LINES`.
pub open spec fn is_summary(ls: Seq<Seq<char>>, i: int) -> bool {
    &&& 0 <= i < ls.len()
    &&& ls.len() - i <= SUMMARY_LINES
    &&& contains(ls[i], "dup="@)
    &&& forall|j: int| i < j < ls.len() ==> !contains(#[trigger] ls[j], "dup="@)
}

/// The log's summary speaks of more than a hundred duplicated frames.
pub open spec fn many_duplicates(ls: Seq<Seq<char>>) -> bool {
    exists|i: int|
        #[trigger] is_summary(ls, i) && duplicates_in(ls[i]) is Some && duplicates_in(ls[i])->0 > 100
}

/// What a log says is wrong with a source: the container, the reference frames, or the
/// duplicates of its summary, in this order.
pub open spec fn corruption(log: Seq<char>) -> Option<Seq<char>> {
    if contains(log, "invalid as first byte of an EBML number"@) {
        Some("Matroska container corruption (EBML parse error)"@)
    } else if contains(log, "Could not find ref with POC"@) {
        Some("HEVC reference frame missing (decoder couldn't reconstruct)"@)
    } else if many_duplicates(lines(log)) {
        Some("excessive frame duplication (NVENC fill from missing refs)"@)
    } else {
        None
    }
}

fn count_duplicates(line: &Vec<char>, mark: &Vec<char>) -> (r: Option<Option<u32>>)
    requires
        mark@ == "dup="@,
    ensures
        r is Some <==> contains(line@, "dup="@),
        r matches Some(count) ==> match count {
            Some(n) => duplicates_in(line@) == Some(n as nat),
            None => duplicates_in(line@) is None,
        },
{
    proof {
        lemma_contains_find(line@, mark@);
        reveal_strlit("dup=");
    }
    let n: usize = line.len();
    match find_chars(line, mark, 0) {
        Some(k) => {
            assert(k + 4 <= n);
            let end = end_of_digits(line, k + 4);
            let number = slice_copy(line, k + 4, end);
            Some(read_u32(&number))
        },
        None => None,
    }
}

/// Finds what a log says is wrong with a source.
pub fn inspect_ffmpeg_log_for_corruption(log: &str) -> (r: Option<&'static str>)
    ensures
        match r {
            Some(reason) => corruption(log@) == Some(reason@),
            None => corruption(log@) is None,
        },
{
    if mentions(log, "invalid as first byte of an EBML number") {
        return Some("Matroska container corruption (EBML parse error)");
    }
    if mentions(log, "Could not find ref with POC") {
        return Some("HEVC reference frame missing (decoder couldn't reconstruct)");
    }
    let v = chars_of(log);
    let ls = split_lines(&v);
    let n: usize = ls.len();
    let mark = chars_of("dup=");
    let ghost all = lines(log@);
    assert(pieces(ls@).len() == n);
    let mut seen: usize = 0;
    while seen < n && seen < SUMMARY_LINES
        invariant
            n == ls@.len(),
            seen <= n,
            seen <= SUMMARY_LINES,
            mark@ == "dup="@,
            all == lines(log@),
            pieces(ls@) == all,
            all.len() == n,
            !contains(log@, "invalid as first byte of an EBML number"@),
            !contains(log@, "Could not find ref with POC"@),
            forall|j: int| n - seen <= j < n ==> !contains(#[trigger] all[j], "dup="@),
        decreases n - seen,
    {
        let i: usize = n - 1 - seen;
        assert(all[i as int] == ls@[i as int]@);
        if let Some(count) = count_duplicates(&ls[i], &mark) {
            assert(is_summary(all, i as int));
            assert forall|j: int| is_summary(all, j) implies j == i by {}
            if let Some(d) = count {
                if d > 100 {
                    assert(many_duplicates(all));
                    return Some("excessive frame duplication (NVENC fill from missing refs)");
                }
            }
            assert(!many_duplicates(all));
            return None;
        }
        seen += 1;
    }
    assert(!many_duplicates(all)) by {
        assert forall|j: int| !is_summary(all, j) by {}
    }
    None
}

// -------------------------------------------------------------------- codecs
/// Whether a receiver needs the audio of a codec transcoded.
pub fn audio_needs_transcode(codec: &str) -> (r: bool)
    ensures
        r == is_heavy_audio(codec@),
{
    same(codec, "ac3") || same(codec, "eac3") || same(codec, "dts") || same(codec, "truehd") || same(
        codec,
        "dca",
    )
}

/// The audio codecs that receivers do not take.
pub open spec fn is_heavy_audio(codec: Seq<char>) -> bool {
    codec == "ac3"@ || codec == "eac3"@ || codec == "dts"@ || codec == "truehd"@ || codec == "dca"@
}

/// Whether a receiver needs the video of a codec transcoded.
pub fn video_needs_transcode(codec: &str) -> (r: bool)
    ensures
        r == is_heavy_video(codec@),
{
    same(codec, "hevc") || same(codec, "h265") || same(codec, "vp9") || same(codec, "av1")
}

/// The video codecs that receivers do not take.
pub open spec fn is_heavy_video(codec: Seq<char>) -> bool {
    codec == "hevc"@ || codec == "h265"@ || codec == "vp9"@ || codec == "av1"@
}

/// What is known of a source's streams.
#[derive(Debug)]
pub struct CodecInfo {
    pub video_codec: Option<String>,
    /// The first audio codec, whichever stream is chosen.
    pub audio_codec: Option<String>,
    pub duration: Option<Millis>,
    /// The chosen audio stream, as ffmpeg names it.
    pub audio_stream: String,
    /// Its place among the audio streams.
    pub audio_index: usize,
}

/// An audio stream in a report.
pub struct AudioTrack {
    /// The first audio codec that had been told by the end of this stream, be it this one's or an
    /// earlier one's; empty where none had.
    pub first_codec: Seq<char>,
    pub lang: Seq<char>,
}

/// What a report has told so far.
pub struct Report {
    /// The first video codec.
    pub video: Option<Seq<char>>,
    /// The first audio codec.
    pub audio: Option<Seq<char>>,
    pub duration: Option<Millis>,
    /// The kind of the stream that is being told of.
    pub kind: Option<Seq<char>>,
    /// Its language.
    pub lang: Option<Seq<char>>,
    pub tracks: Seq<AudioTrack>,
}

/// What stands behind a prefix of a line, trimmed.
pub open spec fn value_of(line: Seq<char>, prefix: Seq<char>) -> Option<Seq<char>> {
    if starts_with(line, prefix) {
        Some(trim(line.skip(prefix.len() as int)))
    } else {
        None
    }
}

/// A report with one line more.
pub open spec fn told(r: Report, line: Seq<char>) -> Report {
    let opened = if starts_with(line, "[STREAM]"@) {
        Report { kind: None, lang: None, ..r }
    } else {
        r
    };
    let kinded = match value_of(line, "codec_type="@) {
        Some(k) => Report { kind: Some(k), ..opened },
        None => opened,
    };
    let named = match value_of(line, "codec_name="@) {
        Some(c) => if kinded.kind == Some("video"@) && kinded.video is None {
            Report { video: Some(c), ..kinded }
        } else if kinded.kind == Some("audio"@) {
            Report {
                audio: if kinded.audio is Some {
                    kinded.audio
                } else {
                    Some(c)
                },
                lang: if kinded.lang is Some {
                    kinded.lang
                } else {
                    Some(Seq::empty())
                },
                ..kinded
            }
        } else {
            kinded
        },
        None => kinded,
    };
    let tagged = match value_of(line, "TAG:language="@) {
        Some(l) => Report { lang: Some(lowercase(l)), ..named },
        None => named,
    };
    let closed = if starts_with(line, "[/STREAM]"@) {
        Report {
            tracks: if tagged.kind == Some("audio"@) {
                tagged.tracks.push(
                    AudioTrack {
                        first_codec: match tagged.audio {
                            Some(c) => c,
                            None => Seq::empty(),
                        },
                        lang: match tagged.lang {
                            Some(l) => l,
                            None => Seq::empty(),
                        },
                    },
                )
            } else {
                tagged.tracks
            },
            kind: None,
            lang: None,
            ..tagged
        }
    } else {
        tagged
    };
    match value_of(line, "duration="@) {
        Some(d) => match rounded(d, 1000) {
            Some(ms) => Report { duration: Some(ms), ..closed },
            None => closed,
        },
        None => closed,
    }
}

/// What the lines of a report tell.
pub open spec fn report(ls: Seq<Seq<char>>) -> Report
    decreases ls.len(),
{
    if ls.len() == 0 {
        Report {
            video: None,
            audio: None,
            duration: None,
            kind: None,
            lang: None,
            tracks: Seq::empty(),
        }
    } else {
        told(report(ls.drop_last()), ls.last())
    }
}

/// The place of the first English track, or the number of tracks.
pub open spec fn english_place(tracks: Seq<AudioTrack>) -> int
    decreases tracks.len(),
{
    if tracks.len() == 0 || tracks[0].lang == "eng"@ || tracks[0].lang == "en"@ {
        0
    } else {
        1 + english_place(tracks.drop_first())
    }
}

/// The track to play: the first English one, else the first.
pub open spec fn preferred_track(tracks: Seq<AudioTrack>) -> int {
    if english_place(tracks) < tracks.len() {
        english_place(tracks)
    } else {
        0
    }
}

struct ExecTrack {
    first_codec: String,
    lang: String,
}

struct ExecReport {
    video: Option<String>,
    audio: Option<String>,
    duration: Option<Millis>,
    kind: Option<String>,
    lang: Option<String>,
    tracks: Vec<ExecTrack>,
}

impl ExecReport {
    spec fn model(&self) -> Report {
        Report {
            video: opt(self.video),
            audio: opt(self.audio),
            duration: self.duration,
            kind: opt(self.kind),
            lang: opt(self.lang),
            tracks: self.tracks@.map_values(|t: ExecTrack| AudioTrack { first_codec: t.first_codec@, lang: t.lang@ }),
        }
    }

    fn is_kind(&self, kind: &str) -> (r: bool)
        ensures
            r == (opt(self.kind) == Some(kind@)),
    {
        match &self.kind {
            Some(k) => same(k.as_str(), kind),
            None => false,
        }
    }

    fn tell(&mut self, line: &Vec<char>)
        ensures
            final(self).model() == told(old(self).model(), line@),
    {
        if match_at(line, &chars_of("[STREAM]"), 0) {
            self.kind = None;
            self.lang = None;
        }
        if let Some(k) = read_value(line, "codec_type=") {
            self.kind = Some(string_of(&k));
        }
        if let Some(c) = read_value(line, "codec_name=") {
            if self.is_kind("video") && self.video.is_none() {
                self.video = Some(string_of(&c));
            } else if self.is_kind("audio") {
                if self.audio.is_none() {
                    self.audio = Some(string_of(&c));
                }
                if self.lang.is_none() {
                    self.lang = Some(String::new());
                }
            }
        }
        if let Some(l) = read_value(line, "TAG:language=") {
            self.lang = Some(to_lowercase(string_of(&l).as_str()));
        }
        if match_at(line, &chars_of("[/STREAM]"), 0) {
            if self.is_kind("audio") {
                let first_codec = match &self.audio {
                    Some(c) => c.clone(),
                    None => String::new(),
                };
                let lang = match &self.lang {
                    Some(l) => l.clone(),
                    None => String::new(),
                };
                let ghost before = self.model().tracks;
                self.tracks.push(ExecTrack { first_codec, lang });
                assert(self.model().tracks =~= before.push(
                    AudioTrack { first_codec: first_codec@, lang: lang@ },
                ));
            }
            self.kind = None;
            self.lang = None;
        }
        if let Some(d) = read_value(line, "duration=") {
            if let Some(ms) = read_rounded(&d, 1000) {
                self.duration = Some(ms);
            }
        }
    }
}

fn read_value(line: &Vec<char>, prefix: &str) -> (r: Option<Vec<char>>)
    ensures
        match r {
            Some(v) => value_of(line@, prefix@) == Some(v@),
            None => value_of(line@, prefix@) is None,
        },
{
    let p = chars_of(prefix);
    if match_at(line, &p, 0) {
        let rest = slice_copy(line, p.len(), line.len());
        assert(rest@ =~= line@.skip(prefix@.len() as int));
        Some(trim_chars(&rest))
    } else {
        None
    }
}

/// `c` is what a report tells of a source.
pub open spec fn is_told_by(c: CodecInfo, p: Report) -> bool {
    let i = preferred_track(p.tracks);
    &&& opt(c.video_codec) == p.video
    &&& c.duration == p.duration
    &&& c.audio_index == i
    &&& c.audio_stream@ == "0:a:"@ + dec(i as nat)
    &&& opt(c.audio_codec) == if p.tracks.len() > 0 {
        Some(p.tracks[i].first_codec)
    } else {
        p.audio
    }
}

/// Reads what ffprobe reports of a source, one `key=value` to a line. The audio stream is the first
/// English one, else the first; the audio codec is the first that was told.
pub fn parse_probe_report(text: &str) -> (r: CodecInfo)
    ensures
        is_told_by(r, report(lines(text@))),
{
    let v = chars_of(text);
    let ls = split_lines(&v);
    let n: usize = ls.len();
    let ghost all = lines(text@);
    assert(pieces(ls@).len() == n);
    let mut rep = ExecReport {
        video: None,
        audio: None,
        duration: None,
        kind: None,
        lang: None,
        tracks: Vec::new(),
    };
    let mut i: usize = 0;
    assert(all.take(0) =~= Seq::<Seq<char>>::empty());
    assert(rep.model().tracks =~= Seq::<AudioTrack>::empty());
    while i < n
        invariant
            n == ls@.len(),
            n == all.len(),
            i <= n,
            pieces(ls@) == all,
            rep.model() == report(all.take(i as int)),
        decreases n - i,
    {
        assert(all.take(i + 1).drop_last() =~= all.take(i as int));
        assert(all.take(i + 1).last() == ls@[i as int]@);
        rep.tell(&ls[i]);
        i += 1;
    }
    assert(all.take(n as int) =~= all);
    let ghost p = rep.model();
    let m: usize = rep.tracks.len();
    let mut k: usize = 0;
    assert(p.tracks.skip(0) =~= p.tracks);
    while k < m && !same(rep.tracks[k].lang.as_str(), "eng") && !same(
        rep.tracks[k].lang.as_str(),
        "en",
    )
        invariant
            p == rep.model(),
            m == rep.tracks@.len(),
            k <= m,
            english_place(p.tracks) == k + english_place(p.tracks.skip(k as int)),
        decreases m - k,
    {
        assert(p.tracks.skip(k as int)[0] == p.tracks[k as int]);
        assert(p.tracks.skip(k as int).drop_first() =~= p.tracks.skip(k + 1));
        k += 1;
    }
    assert(k < m ==> p.tracks.skip(k as int)[0] == p.tracks[k as int]);
    assert(english_place(p.tracks) == k);
    let audio_index: usize = if k < m { k } else { 0 };
    let audio_codec = if m > 0 {
        assert(p.tracks[audio_index as int].first_codec
            == rep.tracks@[audio_index as int].first_codec@);
        Some(rep.tracks[audio_index].first_codec.clone())
    } else {
        rep.audio
    };
    let mut audio_stream = "0:a:".to_owned();
    push_dec(&mut audio_stream, audio_index as u64);
    CodecInfo { video_codec: rep.video, audio_codec, duration: rep.duration, audio_stream, audio_index }
}

// ----------------------------------------------------------------- arguments
/// A transcode to be run.
#[derive(Debug)]
pub struct TranscodeJob {
    pub input_url: String,
    /// Subtitles to burn in, in a file that is there.
    pub subtitles: Option<String>,
    pub intro: Option<String>,
    pub video_reencode: bool,
    pub seek_to: Option<Millis>,
    pub audio_index: usize,
}

/// Seconds as ffmpeg takes them: the fraction only as far as it says something.
pub open spec fn seconds_text(ms: nat) -> Seq<char> {
    let frac = padded(ms % 1000, 3);
    dec(ms / 1000) + if ms % 1000 == 0 {
        Seq::empty()
    } else if ms % 100 == 0 {
        seq!['.'] + frac.take(1)
    } else if ms % 10 == 0 {
        seq!['.'] + frac.take(2)
    } else {
        seq!['.'] + frac
    }
}

fn seconds_string(ms: u64) -> (r: String)
    ensures
        r@ == seconds_text(ms as nat),
{
    let mut out = String::new();
    push_dec(&mut out, ms / 1000);
    assert(out@ =~= dec(ms as nat / 1000));
    if ms % 1000 == 0 {
        assert(out@ =~= seconds_text(ms as nat));
        return out;
    }
    let mut frac = String::new();
    push_padded(&mut frac, ms % 1000, 3);
    assert(frac@ =~= padded(ms as nat % 1000, 3));
    let f = chars_of(frac.as_str());
    proof {
        crate::text::lemma_padded(ms as nat % 1000, 3);
    }
    out.push('.');
    let keep: usize = if ms % 100 == 0 {
        1
    } else if ms % 10 == 0 {
        2
    } else {
        f.len()
    };
    let part = slice_copy(&f, 0, keep);
    assert(part@ =~= frac@.take(keep as int));
    assert(frac@.take(frac@.len() as int) =~= frac@);
    out.append(string_of(&part).as_str());
    assert(out@ =~= seconds_text(ms as nat));
    out
}

/// Colons escaped, as the filter that reads a path wants them.
pub open spec fn escaped(s: Seq<char>) -> Seq<char>
    decreases s.len(),
{
    if s.len() == 0 {
        seq![]
    } else if s.last() == ':' {
        escaped(s.drop_last()) + seq!['\\', ':']
    } else {
        escaped(s.drop_last()).push(s.last())
    }
}

fn escape_colons(s: &str) -> (r: String)
    ensures
        r@ == escaped(s@),
{
    let v = chars_of(s);
    let n: usize = v.len();
    let mut out = String::new();
    let mut i: usize = 0;
    assert(v@.take(0) =~= Seq::<char>::empty());
    while i < n
        invariant
            n == v@.len(),
            i <= n,
            out@ == escaped(v@.take(i as int)),
        decreases n - i,
    {
        assert(v@.take(i + 1).drop_last() =~= v@.take(i as int));
        assert(v@.take(i + 1).last() == v@[i as int]);
        let ghost before = out@;
        if v[i] == ':' {
            out.push('\\');
            out.push(':');
            assert(out@ =~= before + seq!['\\', ':']);
        } else {
            out.push(v[i]);
        }
        i += 1;
    }
    assert(v@.take(n as int) =~= v@);
    out
}

/// A source on this machine.
pub open spec fn is_local_source(url: Seq<char>) -> bool {
    starts_with(url, "file://"@) || starts_with(url, "/"@)
}

/// A source as ffmpeg is given it.
pub open spec fn source_of(url: Seq<char>) -> Seq<char> {
    if starts_with(url, "file://"@) {
        url.skip(7)
    } else {
        url
    }
}

/// The arguments that name the inputs.
pub open spec fn input_args(job: TranscodeJob) -> Seq<Seq<char>> {
    (match job.intro {
        Some(intro) => seq!["-i"@, intro@],
        None => seq![],
    }) + (match job.seek_to {
        Some(t) => if t > 0 {
            seq!["-ss"@, seconds_text(t as nat)]
        } else {
            seq![]
        },
        None => seq![],
    }) + (if is_local_source(job.input_url@) {
        seq![]
    } else {
        seq![
            "-reconnect"@,
            "1"@,
            "-reconnect_at_eof"@,
            "1"@,
            "-reconnect_streamed"@,
            "1"@,
            "-reconnect_delay_max"@,
            "30"@,
            "-rw_timeout"@,
            "60000000"@,
        ]
    }) + seq!["-i"@, source_of(job.input_url@)]
}

/// The filter that puts the intro before the source, at one size and rate, in eight bits.
pub open spec fn concat_filter(subtitles: Option<String>, audio_index: usize) -> Seq<char> {
    "[0:v]scale=1920:1080:force_original_aspect_ratio=decrease,pad=1920:1080:(ow-iw)/2:(oh-ih)/2,setsar=1,fps=30,format=yuv420p[v0]; "@
        + "[0:a:0]aresample=48000[a0]; "@ + "[1:v]"@ + (match subtitles {
        Some(path) => "subtitles='"@ + escaped(path@) + "',"@,
        None => Seq::empty(),
    })
        + "scale=1920:1080:force_original_aspect_ratio=decrease,pad=1920:1080:(ow-iw)/2:(oh-ih)/2,setsar=1,fps=30,format=yuv420p[v1]; "@
        + "[1:a:"@ + dec(audio_index as nat) + "]aresample=48000[a1]; "@
        + "[v0][a0][v1][a1]concat=n=2:v=1:a=1[v][a]"@
}

/// The arguments of the encoder.
pub open spec fn encoder_args() -> Seq<Seq<char>> {
    seq!["-c:v"@, "h264_nvenc"@, "-preset"@, "p4"@, "-cq"@, "23"@]
}

/// The arguments that pick and treat the streams: with an intro everything is encoded, with a
/// key frame every six seconds; with subtitles or a codec that needs it the video is encoded,
/// in eight bits; else it is copied.
pub open spec fn stream_args(job: TranscodeJob) -> Seq<Seq<char>> {
    if job.intro is Some {
        seq![
            "-filter_complex"@,
            concat_filter(job.subtitles, job.audio_index),
            "-map"@,
            "[v]"@,
            "-map"@,
            "[a]"@,
        ] + encoder_args() + seq![
            "-g"@,
            "180"@,
            "-keyint_min"@,
            "180"@,
            "-sc_threshold"@,
            "0"@,
            "-force_key_frames"@,
            "expr:gte(t,n_forced*6)"@,
        ]
    } else {
        seq!["-map"@, "0:v:0"@, "-map"@, "0:a:"@ + dec(job.audio_index as nat)] + (
        match job.subtitles {
            Some(path) => seq!["-vf"@, "subtitles='"@ + escaped(path@) + "',format=yuv420p"@]
                + encoder_args(),
            None => if job.video_reencode {
                seq!["-vf"@, "format=yuv420p"@] + encoder_args()
            } else {
                seq!["-c:v"@, "copy"@]
            },
        })
    }
}

/// The arguments of the audio, and that leave out what receivers do not take.
pub open spec fn audio_args() -> Seq<Seq<char>> {
    seq!["-c:a"@, "aac"@, "-ac"@, "2"@, "-b:a"@, "192k"@, "-dn"@, "-map_metadata"@, "-1"@]
}

/// The arguments of a transcode into one fragmented file.
pub open spec fn file_args(job: TranscodeJob, output: Seq<char>) -> Seq<Seq<char>> {
    input_args(job) + stream_args(job) + audio_args() + seq![
        "-movflags"@,
        "frag_keyframe+empty_moov+default_base_moof"@,
        "-y"@,
        output,
    ]
}

/// The arguments of a transcode into segments of six seconds, all of them listed.
pub open spec fn hls_args(
    job: TranscodeJob,
    segment_pattern: Seq<char>,
    manifest: Seq<char>,
) -> Seq<Seq<char>> {
    input_args(job) + stream_args(job) + audio_args() + seq![
        "-f"@,
        "hls"@,
        "-hls_time"@,
        "6"@,
        "-hls_list_size"@,
        "0"@,
        "-hls_segment_type"@,
        "mpegts"@,
        "-hls_segment_filename"@,
        segment_pattern,
        "-hls_flags"@,
        "temp_file"@,
        "-y"@,
        manifest,
    ]
}

fn push1(args: &mut Vec<String>, a: &str)
    ensures
        views(final(args)@) == views(old(args)@) + seq![a@],
{
    args.push(a.to_owned());
    assert(views(args@) =~= views(old(args)@) + seq![a@]);
}

fn push2(args: &mut Vec<String>, a: &str, b: &str)
    ensures
        views(final(args)@) == views(old(args)@) + seq![a@, b@],
{
    args.push(a.to_owned());
    args.push(b.to_owned());
    assert(views(args@) =~= views(old(args)@) + seq![a@, b@]);
}

fn push4(args: &mut Vec<String>, a: &str, b: &str, c: &str, d: &str)
    ensures
        views(final(args)@) == views(old(args)@) + seq![a@, b@, c@, d@],
{
    push2(args, a, b);
    push2(args, c, d);
    assert(views(args@) =~= views(old(args)@) + seq![a@, b@, c@, d@]);
}

fn push_inputs(args: &mut Vec<String>, job: &TranscodeJob)
    ensures
        views(final(args)@) == views(old(args)@) + input_args(*job),
{
    if let Some(intro) = &job.intro {
        push2(args, "-i", intro.as_str());
    }
    if let Some(t) = job.seek_to {
        if t > 0 {
            push2(args, "-ss", seconds_string(t as u64).as_str());
        }
    }
    if !(begins(job.input_url.as_str(), "file://") || begins(job.input_url.as_str(), "/")) {
        push4(args, "-reconnect", "1", "-reconnect_at_eof", "1");
        push4(args, "-reconnect_streamed", "1", "-reconnect_delay_max", "30");
        push2(args, "-rw_timeout", "60000000");
    }
    if begins(job.input_url.as_str(), "file://") {
        proof {
            reveal_strlit("file://");
        }
        push2(args, "-i", crate::text::tail(job.input_url.as_str(), 7).as_str());
    } else {
        push2(args, "-i", job.input_url.as_str());
    }
    assert(views(args@) =~= views(old(args)@) + input_args(*job));
}

fn build_concat_filter(subtitles: &Option<String>, audio_index: usize) -> (r: String)
    ensures
        r@ == concat_filter(*subtitles, audio_index),
{
    let mut f =
        "[0:v]scale=1920:1080:force_original_aspect_ratio=decrease,pad=1920:1080:(ow-iw)/2:(oh-ih)/2,setsar=1,fps=30,format=yuv420p[v0]; ".to_owned();
    f.append("[0:a:0]aresample=48000[a0]; ");
    f.append("[1:v]");
    let mut burn = String::new();
    if let Some(path) = subtitles {
        burn.append("subtitles='");
        burn.append(escape_colons(path.as_str()).as_str());
        burn.append("',");
        assert(burn@ =~= "subtitles='"@ + escaped(path@) + "',"@);
    }
    f.append(burn.as_str());
    f.append(
        "scale=1920:1080:force_original_aspect_ratio=decrease,pad=1920:1080:(ow-iw)/2:(oh-ih)/2,setsar=1,fps=30,format=yuv420p[v1]; ",
    );
    f.append("[1:a:");
    push_dec(&mut f, audio_index as u64);
    f.append("]aresample=48000[a1]; ");
    f.append("[v0][a0][v1][a1]concat=n=2:v=1:a=1[v][a]");
    f
}

fn push_encoder(args: &mut Vec<String>)
    ensures
        views(final(args)@) == views(old(args)@) + encoder_args(),
{
    push4(args, "-c:v", "h264_nvenc", "-preset", "p4");
    push2(args, "-cq", "23");
    assert(views(args@) =~= views(old(args)@) + encoder_args());
}

fn push_streams(args: &mut Vec<String>, job: &TranscodeJob)
    ensures
        views(final(args)@) == views(old(args)@) + stream_args(*job),
{
    if job.intro.is_some() {
        let filter = build_concat_filter(&job.subtitles, job.audio_index);
        push2(args, "-filter_complex", filter.as_str());
        push4(args, "-map", "[v]", "-map", "[a]");
        push_encoder(args);
        push4(args, "-g", "180", "-keyint_min", "180");
        push4(args, "-sc_threshold", "0", "-force_key_frames", "expr:gte(t,n_forced*6)");
        assert(views(args@) =~= views(old(args)@) + stream_args(*job));
    } else {
        let mut audio = "0:a:".to_owned();
        push_dec(&mut audio, job.audio_index as u64);
        push4(args, "-map", "0:v:0", "-map", audio.as_str());
        if let Some(path) = &job.subtitles {
            let mut burn = "subtitles='".to_owned();
            burn.append(escape_colons(path.as_str()).as_str());
            burn.append("',format=yuv420p");
            push2(args, "-vf", burn.as_str());
            push_encoder(args);
        } else if job.video_reencode {
            push2(args, "-vf", "format=yuv420p");
            push_encoder(args);
        } else {
            push2(args, "-c:v", "copy");
        }
        assert(views(args@) =~= views(old(args)@) + stream_args(*job));
    }
}

fn push_audio(args: &mut Vec<String>)
    ensures
        views(final(args)@) == views(old(args)@) + audio_args(),
{
    push4(args, "-c:a", "aac", "-ac", "2");
    push2(args, "-b:a", "192k");
    push1(args, "-dn");
    push2(args, "-map_metadata", "-1");
    assert(views(args@) =~= views(old(args)@) + audio_args());
}

/// The arguments with which ffmpeg transcodes into one fragmented file.
pub fn transcode(job: &TranscodeJob, output_path: &str) -> (r: Vec<String>)
    ensures
        views(r@) == file_args(*job, output_path@),
{
    let mut args: Vec<String> = Vec::new();
    assert(views(args@) =~= Seq::<Seq<char>>::empty());
    push_inputs(&mut args, job);
    push_streams(&mut args, job);
    push_audio(&mut args);
    push2(&mut args, "-movflags", "frag_keyframe+empty_moov+default_base_moof");
    push2(&mut args, "-y", output_path);
    assert(views(args@) =~= file_args(*job, output_path@));
    args
}

/// The arguments with which ffmpeg transcodes into segments.
pub fn transcode_hls(job: &TranscodeJob, segment_pattern: &str, manifest_path: &str) -> (r: Vec<
    String,
>)
    ensures
        views(r@) == hls_args(*job, segment_pattern@, manifest_path@),
{
    let mut args: Vec<String> = Vec::new();
    assert(views(args@) =~= Seq::<Seq<char>>::empty());
    push_inputs(&mut args, job);
    push_streams(&mut args, job);
    push_audio(&mut args);
    push4(&mut args, "-f", "hls", "-hls_time", "6");
    push4(&mut args, "-hls_list_size", "0", "-hls_segment_type", "mpegts");
    push2(&mut args, "-hls_segment_filename", segment_pattern);
    push4(&mut args, "-hls_flags", "temp_file", "-y", manifest_path);
    assert(views(args@) =~= hls_args(*job, segment_pattern@, manifest_path@));
    args
}

proof fn lemma_contains_within(a: Seq<char>, m: Seq<char>, b: Seq<char>, p: Seq<char>)
    requires
        ends_with(m, p),
    ensures
        contains(a + m + b, p),
{
    let s = a + m + b;
    let at = a.len() + m.len() - p.len();
    assert(s.subrange(at, at + p.len()) =~= m.subrange(m.len() - p.len(), m.len() as int));
    assert(matches_at(s, p, at));
}

/// Both of the pictures that are joined are in eight bits.
proof fn lemma_joined_in_eight_bits(subtitles: Option<String>, audio_index: usize)
    ensures
        contains(concat_filter(subtitles, audio_index), ",format=yuv420p[v0]; "@),
        contains(concat_filter(subtitles, audio_index), ",format=yuv420p[v1]; "@),
        ends_with(
            concat_filter(subtitles, audio_index),
            "[v0][a0][v1][a1]concat=n=2:v=1:a=1[v][a]"@,
        ),
{
    let f = concat_filter(subtitles, audio_index);
    let intro =
        "[0:v]scale=1920:1080:force_original_aspect_ratio=decrease,pad=1920:1080:(ow-iw)/2:(oh-ih)/2,setsar=1,fps=30,format=yuv420p[v0]; "@;
    let main =
        "scale=1920:1080:force_original_aspect_ratio=decrease,pad=1920:1080:(ow-iw)/2:(oh-ih)/2,setsar=1,fps=30,format=yuv420p[v1]; "@;
    let join = "[v0][a0][v1][a1]concat=n=2:v=1:a=1[v][a]"@;
    let p0 = ",format=yuv420p[v0]; "@;
    let p1 = ",format=yuv420p[v1]; "@;
    assert(ends_with(intro, p0)) by {
        reveal_strlit(
            "[0:v]scale=1920:1080:force_original_aspect_ratio=decrease,pad=1920:1080:(ow-iw)/2:(oh-ih)/2,setsar=1,fps=30,format=yuv420p[v0]; ",
        );
        reveal_strlit(",format=yuv420p[v0]; ");
        assert(intro.subrange(intro.len() - p0.len(), intro.len() as int) =~= p0);
    }
    assert(ends_with(main, p1)) by {
        reveal_strlit(
            "scale=1920:1080:force_original_aspect_ratio=decrease,pad=1920:1080:(ow-iw)/2:(oh-ih)/2,setsar=1,fps=30,format=yuv420p[v1]; ",
        );
        reveal_strlit(",format=yuv420p[v1]; ");
        assert(main.subrange(main.len() - p1.len(), main.len() as int) =~= p1);
    }
    let burned = match subtitles {
        Some(path) => "subtitles='"@ + escaped(path@) + "',"@,
        None => Seq::empty(),
    };
    let before = "[0:a:0]aresample=48000[a0]; "@ + "[1:v]"@ + burned;
    let after = "[1:a:"@ + dec(audio_index as nat) + "]aresample=48000[a1]; "@;
    assert(f =~= Seq::<char>::empty() + intro + (before + main + after + join));
    assert(f =~= (intro + before) + main + (after + join));
    lemma_contains_within(Seq::empty(), intro, before + main + after + join, p0);
    lemma_contains_within(intro + before, main, after + join, p1);
    assert(f.subrange(f.len() - join.len(), f.len() as int) =~= join);
}

/// The video that comes out of a transcode is in eight bits wherever it is encoded. Without an
/// intro, the filter before the encoder ends with that format; with one, both of the pictures that
/// the filter joins pass through it, and what it joins is what is encoded.
pub proof fn encoded_video_is_eight_bit(job: TranscodeJob)
    requires
        job.intro is Some || job.subtitles is Some || job.video_reencode,
    ensures
        job.intro is None ==> exists|i: int|
            0 <= i < stream_args(job).len() - 1 && stream_args(job)[i] == "-vf"@ && ends_with(
                #[trigger] stream_args(job)[i + 1],
                "format=yuv420p"@,
            ),
        job.intro is Some ==> {
            &&& stream_args(job)[0] == "-filter_complex"@
            &&& contains(stream_args(job)[1], ",format=yuv420p[v0]; "@)
            &&& contains(stream_args(job)[1], ",format=yuv420p[v1]; "@)
            &&& ends_with(stream_args(job)[1], "[v0][a0][v1][a1]concat=n=2:v=1:a=1[v][a]"@)
            &&& stream_args(job)[2] == "-map"@
            &&& stream_args(job)[3] == "[v]"@
        },
{
    let a = stream_args(job);
    if job.intro is Some {
        lemma_joined_in_eight_bits(job.subtitles, job.audio_index);
    } else {
        reveal_strlit("format=yuv420p");
        reveal_strlit("',format=yuv420p");
        assert(a[4] == "-vf"@);
        let v = a[5];
        let p = "format=yuv420p"@;
        match job.subtitles {
            Some(path) => {
                let head = "subtitles='"@ + escaped(path@);
                assert(v == head + "',format=yuv420p"@);
                assert(v.subrange(v.len() - p.len(), v.len() as int) =~= p);
            },
            None => {
                assert(v.subrange(0, p.len() as int) =~= p);
            },
        }
        let i: int = 4;
        assert(ends_with(a[i + 1], p));
    }
}

// ----------------------------------------------------------------- subtitles
/// The subtitles of a transcode: the file to burn in, and what to write to the moved one first.
#[derive(Debug)]
pub struct ResolvedSubtitles {
    pub path: Option<String>,
    pub moved: Option<String>,
}

/// `r` is which subtitles are burned into a transcode that may begin part of the way in.
pub open spec fn is_resolution(
    r: ResolvedSubtitles,
    original: Option<Seq<char>>,
    moved_path: Seq<char>,
    content: Option<Seq<char>>,
    seek_to: Option<Millis>,
) -> bool {
    match (original, content) {
        (None, _) => r.path is None && r.moved is None,
        (Some(o), Some(text)) => if seek_to is Some && seek_to->0 > 0 {
            let (out, kept) = shifted(text, seek_to->0 as int);
            &&& opt(r.moved) == Some(out)
            &&& opt(r.path) == if kept == 0 {
                None
            } else {
                Some(moved_path)
            }
        } else {
            opt(r.path) == Some(o) && r.moved is None
        },
        (Some(o), None) => opt(r.path) == Some(o) && r.moved is None,
    }
}

/// Decides which subtitles are burned into a transcode that may begin part of the way in. Where
/// it does, and they can be read, they are moved back by as much, into a file of their own; that
/// is left out where nothing is left in it. `content` is what the original holds; none where it
/// is not there or cannot be read.
pub fn resolve_subtitle_path_for_seek(
    original: Option<&str>,
    moved_path: &str,
    content: Option<&str>,
    seek_to: Option<Millis>,
) -> (r: ResolvedSubtitles)
    ensures
        is_resolution(r, opt_str(original), moved_path@, opt_str(content), seek_to),
{
    let o = match original {
        Some(o) => o,
        None => {
            return ResolvedSubtitles { path: None, moved: None };
        },
    };
    if let Some(t) = seek_to {
        if t > 0 {
            if let Some(text) = content {
                let (out, kept) = shift_srt(text, t);
                let path = if kept == 0 {
                    None
                } else {
                    Some(moved_path.to_owned())
                };
                return ResolvedSubtitles { path, moved: Some(out) };
            }
        }
    }
    ResolvedSubtitles { path: Some(o.to_owned()), moved: None }
}

} // verus!
