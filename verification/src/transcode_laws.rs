//! What holds of the transcodes that ffmpeg is asked for, whatever the job is: what is seen, what
//! is heard, where it begins and where it goes; and of what ffprobe tells.
use vstd::prelude::*;

use crate::srt::shifted;
use crate::text::{
    contains, dec, find, is_digit, lemma_dec, lemma_find_from, lines, lowercase, matches_at, padded,
    starts_with, trim,
};
use crate::text_laws::{
    other_texts_are_no_prefix, parts_are_held, prefixes_come_off, tight_texts_stay,
    what_is_missing_is_not_held,
};
use crate::time::Millis;
use crate::title_laws::lemma_digits_end;
use crate::titles::opt;
use crate::transcode::{
    concat_filter, corruption, duplicates_in, escaped, file_args, hls_args, input_args,
    is_heavy_audio, is_heavy_video, is_resolution, is_told_by, report, seconds_text, source_of,
    stream_args, told, AudioTrack, CodecInfo, Report, ResolvedSubtitles, TranscodeJob,
};

verus! {

// -------------------------------------------------------------------- filters
/// The filter of a job: what stands behind the argument that announces one.
pub open spec fn is_filter_of(args: Seq<Seq<char>>, filter: Seq<char>) -> bool {
    exists|i: int|
        0 <= i < args.len() - 1 && (#[trigger] args[i] == "-filter_complex"@ || args[i] == "-vf"@)
            && args[i + 1] == filter
}

/// What burns the subtitles of a file into a picture.
pub open spec fn burning(path: Seq<char>) -> Seq<char> {
    "subtitles='"@ + escaped(path) + "'"@
}

/// The subtitles of a job are burned into the film: the filter that ffmpeg is given holds the
/// subtitles of that file, with an intro on the film's own picture and not on the intro's, and
/// without one before anything else is done to it.
pub proof fn subtitles_are_burned_into_the_film(job: TranscodeJob)
    requires
        job.subtitles is Some,
    ensures
        exists|filter: Seq<char>|
            #![trigger is_filter_of(stream_args(job), filter)]
            is_filter_of(stream_args(job), filter) && contains(
                filter,
                burning(job.subtitles->0@),
            ) && (if job.intro is Some {
                contains(filter, "[1:v]"@ + burning(job.subtitles->0@) + ","@)
            } else {
                starts_with(filter, burning(job.subtitles->0@))
            }),
{
    let path = job.subtitles->0@;
    let a = stream_args(job);
    let b = burning(path);
    reveal_strlit("'");
    reveal_strlit(",");
    reveal_strlit("',");
    assert("'"@ + ","@ =~= "',"@);
    if job.intro is Some {
        let f = concat_filter(job.subtitles, job.audio_index);
        let head =
            "[0:v]scale=1920:1080:force_original_aspect_ratio=decrease,pad=1920:1080:(ow-iw)/2:(oh-ih)/2,setsar=1,fps=30,format=yuv420p[v0]; "@
            + "[0:a:0]aresample=48000[a0]; "@;
        let rest =
            "scale=1920:1080:force_original_aspect_ratio=decrease,pad=1920:1080:(ow-iw)/2:(oh-ih)/2,setsar=1,fps=30,format=yuv420p[v1]; "@
            + "[1:a:"@ + dec(job.audio_index as nat) + "]aresample=48000[a1]; "@
            + "[v0][a0][v1][a1]concat=n=2:v=1:a=1[v][a]"@;
        let m = "[1:v]"@ + b + ","@;
        assert(f =~= head + m + rest);
        assert(m =~= "[1:v]"@ + b + ","@);
        parts_are_held("[1:v]"@, b, ","@, b);
        parts_are_held(head, m, rest, b);
        let at: int = 0;
        assert(a[at] == "-filter_complex"@ && a[at + 1] == f);
        assert(is_filter_of(a, f));
    } else {
        reveal_strlit("',format=yuv420p");
        reveal_strlit("format=yuv420p");
        let f = "subtitles='"@ + escaped(path) + "',format=yuv420p"@;
        assert(f =~= b + (","@ + "format=yuv420p"@));
        prefixes_come_off(b, ","@ + "format=yuv420p"@);
        assert(f =~= Seq::<char>::empty() + b + (","@ + "format=yuv420p"@));
        parts_are_held(Seq::empty(), b, ","@ + "format=yuv420p"@, b);
        let at: int = 4;
        assert(a[at] == "-vf"@ && a[at + 1] == f);
        assert(is_filter_of(a, f));
    }
}

/// Without subtitles none are burned in: the picture of the film goes straight to its size with an
/// intro, and without one no filter speaks of subtitles.
pub proof fn nothing_is_burned_in_unasked(job: TranscodeJob)
    requires
        job.subtitles is None,
    ensures
        job.intro is Some ==> stream_args(job)[0] == "-filter_complex"@ && contains(
            stream_args(job)[1],
            "[1:v]scale=1920:1080"@,
        ) && !contains(stream_args(job)[1], "subtitles"@),
        job.intro is None ==> forall|i: int|
            0 <= i < stream_args(job).len() ==> !contains(#[trigger] stream_args(job)[i], "subtitles"@),
{
    reveal_strlit("subtitles");
    let a = stream_args(job);
    if job.intro is Some {
        let f = concat_filter(job.subtitles, job.audio_index);
        let head =
            "[0:v]scale=1920:1080:force_original_aspect_ratio=decrease,pad=1920:1080:(ow-iw)/2:(oh-ih)/2,setsar=1,fps=30,format=yuv420p[v0]; "@
            + "[0:a:0]aresample=48000[a0]; "@;
        let size =
            "scale=1920:1080:force_original_aspect_ratio=decrease,pad=1920:1080:(ow-iw)/2:(oh-ih)/2,setsar=1,fps=30,format=yuv420p[v1]; "@;
        let rest = size + "[1:a:"@ + dec(job.audio_index as nat) + "]aresample=48000[a1]; "@
            + "[v0][a0][v1][a1]concat=n=2:v=1:a=1[v][a]"@;
        assert(f =~= head + "[1:v]"@ + rest);
        assert(rest.take(size.len() as int) =~= size);
        lemma_straight_to_size(head, rest, size);
        lemma_no_b(f, job.audio_index as nat);
        what_is_missing_is_not_held(f, "subtitles"@, 2);
    } else {
        lemma_plain_arguments(job);
    }
}

proof fn lemma_straight_to_size(head: Seq<char>, rest: Seq<char>, size: Seq<char>)
    requires
        size
            == "scale=1920:1080:force_original_aspect_ratio=decrease,pad=1920:1080:(ow-iw)/2:(oh-ih)/2,setsar=1,fps=30,format=yuv420p[v1]; "@,
        rest.len() >= size.len(),
        rest.take(size.len() as int) == size,
    ensures
        contains(head + "[1:v]"@ + rest, "[1:v]scale=1920:1080"@),
{
    let p = "[1:v]scale=1920:1080"@;
    let s = head + "[1:v]"@ + rest;
    reveal_strlit("[1:v]");
    reveal_strlit("[1:v]scale=1920:1080");
    reveal_strlit(
        "scale=1920:1080:force_original_aspect_ratio=decrease,pad=1920:1080:(ow-iw)/2:(oh-ih)/2,setsar=1,fps=30,format=yuv420p[v1]; ",
    );
    assert forall|j: int| 0 <= j < size.len() implies rest[j] == size[j] by {
        assert(rest.take(size.len() as int)[j] == rest[j]);
    }
    assert(s.subrange(head.len() as int, head.len() as int + 20) =~= p);
    assert(matches_at(s, p, head.len() as int));
}

proof fn lemma_no_b_in_literals()
    ensures
        forall|j: int|
            0 <= j
                < "[0:v]scale=1920:1080:force_original_aspect_ratio=decrease,pad=1920:1080:(ow-iw)/2:(oh-ih)/2,setsar=1,fps=30,format=yuv420p[v0]; "@.len()
                ==> #[trigger] "[0:v]scale=1920:1080:force_original_aspect_ratio=decrease,pad=1920:1080:(ow-iw)/2:(oh-ih)/2,setsar=1,fps=30,format=yuv420p[v0]; "@[j]
                != 'b',
        forall|j: int|
            0 <= j
                < "scale=1920:1080:force_original_aspect_ratio=decrease,pad=1920:1080:(ow-iw)/2:(oh-ih)/2,setsar=1,fps=30,format=yuv420p[v1]; "@.len()
                ==> #[trigger] "scale=1920:1080:force_original_aspect_ratio=decrease,pad=1920:1080:(ow-iw)/2:(oh-ih)/2,setsar=1,fps=30,format=yuv420p[v1]; "@[j]
                != 'b',
{
    reveal_strlit(
        "[0:v]scale=1920:1080:force_original_aspect_ratio=decrease,pad=1920:1080:(ow-iw)/2:(oh-ih)/2,setsar=1,fps=30,format=yuv420p[v0]; ",
    );
    reveal_strlit(
        "scale=1920:1080:force_original_aspect_ratio=decrease,pad=1920:1080:(ow-iw)/2:(oh-ih)/2,setsar=1,fps=30,format=yuv420p[v1]; ",
    );
}

proof fn lemma_no_b(f: Seq<char>, index: nat)
    requires
        f
            == "[0:v]scale=1920:1080:force_original_aspect_ratio=decrease,pad=1920:1080:(ow-iw)/2:(oh-ih)/2,setsar=1,fps=30,format=yuv420p[v0]; "@
            + "[0:a:0]aresample=48000[a0]; "@ + "[1:v]"@ + (
        "scale=1920:1080:force_original_aspect_ratio=decrease,pad=1920:1080:(ow-iw)/2:(oh-ih)/2,setsar=1,fps=30,format=yuv420p[v1]; "@
            + "[1:a:"@ + dec(index) + "]aresample=48000[a1]; "@
            + "[v0][a0][v1][a1]concat=n=2:v=1:a=1[v][a]"@),
    ensures
        forall|j: int| 0 <= j < f.len() ==> f[j] != 'b',
{
    lemma_no_b_in_literals();
    reveal_strlit("[0:a:0]aresample=48000[a0]; ");
    reveal_strlit("[1:v]");
    reveal_strlit("[1:a:");
    reveal_strlit("]aresample=48000[a1]; ");
    reveal_strlit("[v0][a0][v1][a1]concat=n=2:v=1:a=1[v][a]");
    lemma_dec(index);
    let d = dec(index);
    assert forall|j: int| 0 <= j < d.len() implies d[j] != 'b' by {
        assert(is_digit(d[j]));
    }
    let a =
        "[0:v]scale=1920:1080:force_original_aspect_ratio=decrease,pad=1920:1080:(ow-iw)/2:(oh-ih)/2,setsar=1,fps=30,format=yuv420p[v0]; "@;
    let b = "[0:a:0]aresample=48000[a0]; "@;
    let c = "[1:v]"@;
    let e =
        "scale=1920:1080:force_original_aspect_ratio=decrease,pad=1920:1080:(ow-iw)/2:(oh-ih)/2,setsar=1,fps=30,format=yuv420p[v1]; "@;
    let g = "[1:a:"@;
    let h = "]aresample=48000[a1]; "@;
    let k = "[v0][a0][v1][a1]concat=n=2:v=1:a=1[v][a]"@;
    lemma_pieces_lack(a, b, 'b');
    lemma_pieces_lack(a + b, c, 'b');
    lemma_pieces_lack(e, g, 'b');
    lemma_pieces_lack(e + g, d, 'b');
    lemma_pieces_lack(e + g + d, h, 'b');
    lemma_pieces_lack(e + g + d + h, k, 'b');
    lemma_pieces_lack(a + b + c, e + g + d + h + k, 'b');
}

proof fn lemma_pieces_lack(a: Seq<char>, b: Seq<char>, c: char)
    requires
        forall|j: int| 0 <= j < a.len() ==> a[j] != c,
        forall|j: int| 0 <= j < b.len() ==> b[j] != c,
    ensures
        forall|j: int| 0 <= j < (a + b).len() ==> (a + b)[j] != c,
{
    assert forall|j: int| 0 <= j < (a + b).len() implies (a + b)[j] != c by {
        if j >= a.len() {
            assert((a + b)[j] == b[j - a.len()]);
        }
    }
}

proof fn lemma_plain_arguments(job: TranscodeJob)
    requires
        job.subtitles is None,
        job.intro is None,
    ensures
        forall|i: int|
            0 <= i < stream_args(job).len() ==> !contains(#[trigger] stream_args(job)[i], "subtitles"@),
{
    let a = stream_args(job);
    let s = "subtitles"@;
    reveal_strlit("subtitles");
    reveal_strlit("-map");
    reveal_strlit("0:v:0");
    reveal_strlit("0:a:");
    reveal_strlit("-vf");
    reveal_strlit("format=yuv420p");
    reveal_strlit("-c:v");
    reveal_strlit("copy");
    reveal_strlit("h264_nvenc");
    reveal_strlit("-preset");
    reveal_strlit("p4");
    reveal_strlit("-cq");
    reveal_strlit("23");
    let d = dec(job.audio_index as nat);
    lemma_dec(job.audio_index as nat);
    assert forall|j: int| 0 <= j < d.len() implies d[j] != 'b' by {
        assert(is_digit(d[j]));
    }
    lemma_pieces_lack("0:a:"@, d, 'b');
    assert forall|i: int| 0 <= i < a.len() implies !contains(#[trigger] a[i], s) by {
        assert forall|j: int| 0 <= j < a[i].len() implies a[i][j] != s[2] by {
            if i == 3 {
                assert(a[3] == "0:a:"@ + d);
            }
        }
        what_is_missing_is_not_held(a[i], s, 2);
    }
}

/// No colon of a path goes to the filter bare: each has a backslash before it, and but for those
/// the path is as it was.
pub proof fn colons_are_escaped(s: Seq<char>)
    ensures
        forall|i: int|
            0 <= i < escaped(s).len() && #[trigger] escaped(s)[i] == ':' ==> i > 0 && escaped(s)[i
                - 1] == '\\',
        (forall|i: int| 0 <= i < s.len() ==> s[i] != ':') ==> escaped(s) == s,
        forall|t: Seq<char>| #[trigger] escaped(s + t) == escaped(s) + escaped(t),
    decreases s.len(),
{
    if s.len() > 0 {
        let t = s.drop_last();
        colons_are_escaped(t);
        let e = escaped(s);
        assert forall|i: int| 0 <= i < e.len() && #[trigger] e[i] == ':' implies i > 0 && e[i - 1]
            == '\\' by {
            if i < escaped(t).len() {
                assert(e[i] == escaped(t)[i]);
            }
        }
        if forall|i: int| 0 <= i < s.len() ==> s[i] != ':' {
            assert forall|i: int| 0 <= i < t.len() implies t[i] != ':' by {
                assert(t[i] == s[i]);
            }
            assert(s[s.len() - 1] != ':');
            assert(e =~= s);
        }
    }
    assert forall|t: Seq<char>| #[trigger] escaped(s + t) == escaped(s) + escaped(t) by {
        lemma_escaped_parts(s, t);
    }
}

proof fn lemma_escaped_parts(s: Seq<char>, t: Seq<char>)
    ensures
        escaped(s + t) == escaped(s) + escaped(t),
    decreases t.len(),
{
    if t.len() == 0 {
        assert(s + t =~= s);
        assert(escaped(s) + escaped(t) =~= escaped(s));
    } else {
        lemma_escaped_parts(s, t.drop_last());
        assert((s + t).drop_last() =~= s + t.drop_last());
        assert((s + t).last() == t.last());
        assert(escaped(s + t) =~= escaped(s) + escaped(t));
    }
}

// --------------------------------------------------------------------- streams
/// The audio track that was chosen is the one that is heard: with an intro it is the one that is
/// joined behind the intro's, and without one it is mapped.
pub proof fn the_chosen_track_is_heard(job: TranscodeJob)
    ensures
        job.intro is Some ==> stream_args(job)[0] == "-filter_complex"@ && contains(
            stream_args(job)[1],
            "[1:a:"@ + dec(job.audio_index as nat) + "]aresample=48000[a1]; "@,
        ) && stream_args(job)[4] == "-map"@ && stream_args(job)[5] == "[a]"@,
        job.intro is None ==> stream_args(job)[0] == "-map"@ && stream_args(job)[1] == "0:v:0"@
            && stream_args(job)[2] == "-map"@ && stream_args(job)[3] == "0:a:"@ + dec(
            job.audio_index as nat,
        ),
{
    if job.intro is Some {
        let f = concat_filter(job.subtitles, job.audio_index);
        let burned = match job.subtitles {
            Some(path) => "subtitles='"@ + escaped(path@) + "',"@,
            None => Seq::empty(),
        };
        let head =
            "[0:v]scale=1920:1080:force_original_aspect_ratio=decrease,pad=1920:1080:(ow-iw)/2:(oh-ih)/2,setsar=1,fps=30,format=yuv420p[v0]; "@
            + "[0:a:0]aresample=48000[a0]; "@ + "[1:v]"@ + burned
            + "scale=1920:1080:force_original_aspect_ratio=decrease,pad=1920:1080:(ow-iw)/2:(oh-ih)/2,setsar=1,fps=30,format=yuv420p[v1]; "@;
        let m = "[1:a:"@ + dec(job.audio_index as nat) + "]aresample=48000[a1]; "@;
        let rest = "[v0][a0][v1][a1]concat=n=2:v=1:a=1[v][a]"@;
        assert(f =~= head + m + rest);
        parts_are_held(head, m, rest, m);
    }
}

/// The picture is copied exactly where nothing is to be done to it: without an intro, without
/// subtitles, and where its codec needs no encoding; else it is encoded as H.264.
pub proof fn pictures_are_encoded_where_they_must_be(job: TranscodeJob)
    ensures
        ({
            let a = stream_args(job);
            let copied = job.intro is None && job.subtitles is None && !job.video_reencode;
            let at: int = if job.intro is None && !copied {
                6
            } else if copied {
                4
            } else {
                6
            };
            &&& a[at] == "-c:v"@
            &&& a[at + 1] == if copied {
                "copy"@
            } else {
                "h264_nvenc"@
            }
            &&& copied ==> a.len() == 6
        }),
{
}

/// The sound goes out in stereo, as AAC, and no data stream goes with it; that holds of both kinds
/// of transcode. What comes before tells the inputs, then the streams.
pub proof fn sound_is_made_fit(job: TranscodeJob, output: Seq<char>, pattern: Seq<char>)
    ensures
        ({
            let head = input_args(job) + stream_args(job);
            let n = head.len() as int;
            let a = file_args(job, output);
            let b = hls_args(job, pattern, output);
            &&& a.take(n) == head
            &&& b.take(n) == head
            &&& a[n] == "-c:a"@ && a[n + 1] == "aac"@ && a[n + 2] == "-ac"@ && a[n + 3] == "2"@
            &&& b[n] == "-c:a"@ && b[n + 1] == "aac"@ && b[n + 2] == "-ac"@ && b[n + 3] == "2"@
            &&& a.contains("-dn"@)
            &&& b.contains("-dn"@)
        }),
{
    let head = input_args(job) + stream_args(job);
    let n = head.len() as int;
    let a = file_args(job, output);
    let b = hls_args(job, pattern, output);
    assert(a.take(n) =~= head);
    assert(b.take(n) =~= head);
    assert(a[n + 6] == "-dn"@);
    assert(b[n + 6] == "-dn"@);
}

/// A transcode goes where it is told: one file is written last, in fragments; the other kind
/// writes segments of six seconds after the pattern, lists all of them, and names the list last.
pub proof fn transcodes_go_where_they_are_told(
    job: TranscodeJob,
    output: Seq<char>,
    pattern: Seq<char>,
)
    ensures
        ({
            let a = file_args(job, output);
            let b = hls_args(job, pattern, output);
            let m = b.len() as int;
            &&& a.last() == output
            &&& a[a.len() - 2] == "-y"@
            &&& contains(a[a.len() - 3], "frag_keyframe"@)
            &&& b.last() == output
            &&& b[m - 2] == "-y"@
            &&& b[m - 6] == "-hls_segment_filename"@ && b[m - 5] == pattern
            &&& b[m - 12] == "-hls_time"@ && b[m - 11] == "6"@
            &&& b[m - 10] == "-hls_list_size"@ && b[m - 9] == "0"@
            &&& b[m - 14] == "-f"@ && b[m - 13] == "hls"@
            &&& b[m - 4] == "-hls_flags"@ && b[m - 3] == "temp_file"@
        }),
{
    let a = file_args(job, output);
    reveal_strlit("frag_keyframe");
    reveal_strlit("frag_keyframe+empty_moov+default_base_moof");
    let s = "frag_keyframe+empty_moov+default_base_moof"@;
    assert(s.subrange(0, 13) =~= "frag_keyframe"@);
    assert(matches_at(s, "frag_keyframe"@, 0));
}

// ---------------------------------------------------------------------- inputs
/// The intro is the first input and the source the last; a position that is sought is sought in
/// the source alone, directly before it is opened, and the intro plays from its beginning. Taking
/// the position away takes nothing else away.
pub proof fn only_the_source_is_sought(job: TranscodeJob, plain: TranscodeJob)
    requires
        plain == (TranscodeJob { seek_to: None, ..job }),
    ensures
        ({
            let a = input_args(job);
            let p = input_args(plain);
            let k: int = if job.intro is Some {
                2
            } else {
                0
            };
            &&& a.len() >= 2 && a[a.len() - 2] == "-i"@ && a.last() == source_of(job.input_url@)
            &&& job.intro is Some ==> a[0] == "-i"@ && a[1] == job.intro->0@
            &&& job.seek_to is Some && job.seek_to->0 > 0 ==> a.len() == p.len() + 2 && a[k]
                == "-ss"@ && a[k + 1] == seconds_text(job.seek_to->0 as nat) && a.take(k) == p.take(
                k,
            ) && a.skip(k + 2) == p.skip(k)
            &&& job.seek_to is None || job.seek_to->0 <= 0 ==> a == p
        }),
{
    let a = input_args(job);
    let p = input_args(plain);
    let k: int = if job.intro is Some {
        2
    } else {
        0
    };
    assert(a.take(k) =~= p.take(k));
    if job.seek_to is Some && job.seek_to->0 > 0 {
        assert(a.skip(k + 2) =~= p.skip(k));
    } else {
        assert(a =~= p);
    }
}

/// A source on this machine is opened by its path, and one elsewhere by its address; a connection
/// is taken up again where it breaks for the latter alone.
pub proof fn sources_are_opened_by_their_kind(job: TranscodeJob)
    requires
        job.intro is None,
        job.seek_to is None,
    ensures
        starts_with(job.input_url@, "file://"@) ==> input_args(job) == seq![
            "-i"@,
            job.input_url@.skip(7),
        ],
        !starts_with(job.input_url@, "file://"@) && starts_with(job.input_url@, "/"@) ==> input_args(
            job,
        ) == seq!["-i"@, job.input_url@],
        !starts_with(job.input_url@, "file://"@) && !starts_with(job.input_url@, "/"@) ==> {
            let a = input_args(job);
            &&& a.last() == job.input_url@
            &&& a[0] == "-reconnect"@ && a[1] == "1"@
            &&& a[4] == "-reconnect_streamed"@ && a[5] == "1"@
            &&& a.len() == 12
        },
{
    assert(Seq::<Seq<char>>::empty() + Seq::<Seq<char>>::empty() + Seq::<Seq<char>>::empty() + seq![
        "-i"@,
        source_of(job.input_url@),
    ] =~= seq!["-i"@, source_of(job.input_url@)]);
}

/// A position is given to ffmpeg in seconds: whole ones as they are, and the thousandths behind a
/// point, without the zeros at their end.
pub proof fn seconds_say_the_position(ms: nat)
    ensures
        ms % 1000 == 0 ==> seconds_text(ms) == dec(ms / 1000),
        ms % 1000 != 0 ==> exists|frac: Seq<char>|
            #![trigger dec(ms / 1000) + seq!['.'] + frac]
            {
                &&& seconds_text(ms) == dec(ms / 1000) + seq!['.'] + frac
                &&& 1 <= frac.len() <= 3
                &&& frac == padded(ms % 1000, 3).take(frac.len() as int)
                &&& (frac.len() == 1 ==> ms % 100 == 0)
                &&& (frac.len() == 2 ==> ms % 10 == 0)
            },
{
    let f = padded(ms % 1000, 3);
    crate::text::lemma_padded(ms % 1000, 3);
    lemma_three_digits(ms % 1000);
    if ms % 1000 == 0 {
        assert(seconds_text(ms) =~= dec(ms / 1000));
    } else {
        let frac = if ms % 100 == 0 {
            f.take(1)
        } else if ms % 10 == 0 {
            f.take(2)
        } else {
            f
        };
        assert(seconds_text(ms) =~= dec(ms / 1000) + seq!['.'] + frac);
        assert(frac =~= f.take(frac.len() as int));
    }
}

proof fn lemma_three_digits(n: nat)
    requires
        n < 1000,
    ensures
        padded(n, 3).len() == 3,
{
    reveal_with_fuel(dec, 4);
}

// -------------------------------------------------------------------- subtitles
/// Subtitles are burned in as they are where a transcode begins at the beginning or they cannot be
/// read, and moved back by as much as it begins later where it does not; of those that are moved
/// nothing is burned in where none is left. Without subtitles there are none.
pub proof fn subtitles_follow_the_seek(
    r: ResolvedSubtitles,
    original: Option<Seq<char>>,
    moved_path: Seq<char>,
    content: Option<Seq<char>>,
    seek_to: Option<Millis>,
)
    requires
        is_resolution(r, original, moved_path, content, seek_to),
    ensures
        original is None ==> r.path is None && r.moved is None,
        original is Some && (seek_to is None || seek_to->0 <= 0 || content is None) ==> opt(r.path)
            == original && r.moved is None,
        original is Some && seek_to is Some && seek_to->0 > 0 && content is Some ==> opt(r.moved)
            == Some(shifted(content->0, seek_to->0 as int).0) && (r.path is None <==> shifted(
            content->0,
            seek_to->0 as int,
        ).1 == 0) && (r.path is Some ==> opt(r.path) == Some(moved_path)),
{
}

// ---------------------------------------------------------------------- codecs
/// The codecs that receivers do not take, by name: these, and no others.
pub proof fn heavy_codecs_are_known_by_name(codec: Seq<char>)
    ensures
        is_heavy_audio(codec) <==> seq!["ac3"@, "eac3"@, "dts"@, "truehd"@, "dca"@].contains(codec),
        is_heavy_video(codec) <==> seq!["hevc"@, "h265"@, "vp9"@, "av1"@].contains(codec),
{
    let a = seq!["ac3"@, "eac3"@, "dts"@, "truehd"@, "dca"@];
    let v = seq!["hevc"@, "h265"@, "vp9"@, "av1"@];
    assert(a[0] == "ac3"@ && a[1] == "eac3"@ && a[2] == "dts"@ && a[3] == "truehd"@ && a[4]
        == "dca"@);
    assert(v[0] == "hevc"@ && v[1] == "h265"@ && v[2] == "vp9"@ && v[3] == "av1"@);
}

/// A track in English.
pub open spec fn is_english(t: AudioTrack) -> bool {
    t.lang == "eng"@ || t.lang == "en"@
}

/// The track that is played is the first English one, and the first of all where none is English.
pub proof fn the_first_english_track_is_played(c: CodecInfo, p: Report)
    requires
        is_told_by(c, p),
    ensures
        ({
            let i = c.audio_index as int;
            &&& c.audio_stream@ == "0:a:"@ + dec(c.audio_index as nat)
            &&& opt(c.video_codec) == p.video
            &&& c.duration == p.duration
            &&& (exists|j: int| 0 <= j < p.tracks.len() && is_english(#[trigger] p.tracks[j])) ==> i
                < p.tracks.len() && is_english(p.tracks[i])
            &&& forall|j: int| 0 <= j < i ==> !is_english(#[trigger] p.tracks[j])
            &&& (forall|j: int| 0 <= j < p.tracks.len() ==> !is_english(#[trigger] p.tracks[j]))
                ==> i == 0
            &&& p.tracks.len() == 0 ==> opt(c.audio_codec) == p.audio
            &&& p.tracks.len() > 0 ==> opt(c.audio_codec) == Some(p.tracks[i].first_codec)
        }),
{
    lemma_english_place(p.tracks);
}

proof fn lemma_english_place(tracks: Seq<AudioTrack>)
    ensures
        ({
            let k = crate::transcode::english_place(tracks);
            &&& 0 <= k <= tracks.len()
            &&& k < tracks.len() ==> tracks[k].lang == "eng"@ || tracks[k].lang == "en"@
            &&& forall|j: int|
                0 <= j < k ==> (#[trigger] tracks[j]).lang != "eng"@ && tracks[j].lang != "en"@
        }),
    decreases tracks.len(),
{
    if tracks.len() > 0 && tracks[0].lang != "eng"@ && tracks[0].lang != "en"@ {
        let t = tracks.drop_first();
        lemma_english_place(t);
        let k = crate::transcode::english_place(tracks);
        assert forall|j: int| 0 <= j < k implies (#[trigger] tracks[j]).lang != "eng"@
            && tracks[j].lang != "en"@ by {
            if j > 0 {
                assert(tracks[j] == t[j - 1]);
            }
        }
    }
}

/// What a report tells of a stream, line by line, is known behind it: an audio stream is one track
/// more, of its language in lower case, and the first codec that was told is the audio's; the first
/// video codec is the video's.
pub proof fn told_streams_are_known(r: Report, codec: Seq<char>, lang: Seq<char>)
    ensures
        ({
            let opened = told(r, "[STREAM]"@);
            let audio = told(
                told(
                    told(told(opened, "codec_type=audio"@), "codec_name="@ + codec),
                    "TAG:language="@ + lang,
                ),
                "[/STREAM]"@,
            );
            let video = told(
                told(told(opened, "codec_type=video"@), "codec_name="@ + codec),
                "[/STREAM]"@,
            );
            &&& audio.tracks.len() == r.tracks.len() + 1
            &&& audio.tracks.drop_last() == r.tracks
            &&& audio.tracks.last().lang == lowercase(trim(lang))
            &&& audio.audio == (if r.audio is Some {
                r.audio
            } else {
                Some(trim(codec))
            })
            &&& audio.video == r.video
            &&& audio.duration == r.duration
            &&& video.video == (if r.video is Some {
                r.video
            } else {
                Some(trim(codec))
            })
            &&& video.audio == r.audio
            &&& video.tracks == r.tracks
        }),
{
    lemma_marks(codec, lang);
    let opened = told(r, "[STREAM]"@);
    assert(opened == (Report { kind: None, lang: None, ..r }));
    let a1 = told(opened, "codec_type=audio"@);
    assert(a1 == (Report { kind: Some("audio"@), ..opened }));
    let first = if r.audio is Some {
        r.audio
    } else {
        Some(trim(codec))
    };
    let a2 = told(a1, "codec_name="@ + codec);
    assert(a2 == (Report { audio: first, lang: Some(Seq::<char>::empty()), ..a1 }));
    let a3 = told(a2, "TAG:language="@ + lang);
    assert(a3 == (Report { lang: Some(lowercase(trim(lang))), ..a2 }));
    let a4 = told(a3, "[/STREAM]"@);
    assert(a4.tracks.drop_last() =~= r.tracks);
    let v1 = told(opened, "codec_type=video"@);
    assert(v1 == (Report { kind: Some("video"@), ..opened }));
    let v2 = told(v1, "codec_name="@ + codec);
    assert("video"@ != "audio"@);
}

proof fn lemma_marks(codec: Seq<char>, lang: Seq<char>)
    ensures
        "video"@ != "audio"@,
        starts_with("[STREAM]"@, "[STREAM]"@),
        !starts_with("[STREAM]"@, "codec_type="@),
        !starts_with("[STREAM]"@, "codec_name="@),
        !starts_with("[STREAM]"@, "TAG:language="@),
        !starts_with("[STREAM]"@, "[/STREAM]"@),
        !starts_with("[STREAM]"@, "duration="@),
        starts_with("[/STREAM]"@, "[/STREAM]"@),
        !starts_with("[/STREAM]"@, "[STREAM]"@),
        !starts_with("[/STREAM]"@, "codec_type="@),
        !starts_with("[/STREAM]"@, "codec_name="@),
        !starts_with("[/STREAM]"@, "TAG:language="@),
        !starts_with("[/STREAM]"@, "duration="@),
        starts_with("codec_type=audio"@, "codec_type="@),
        trim("codec_type=audio"@.skip("codec_type="@.len() as int)) == "audio"@,
        !starts_with("codec_type=audio"@, "[STREAM]"@),
        !starts_with("codec_type=audio"@, "codec_name="@),
        !starts_with("codec_type=audio"@, "TAG:language="@),
        !starts_with("codec_type=audio"@, "[/STREAM]"@),
        !starts_with("codec_type=audio"@, "duration="@),
        starts_with("codec_type=video"@, "codec_type="@),
        trim("codec_type=video"@.skip("codec_type="@.len() as int)) == "video"@,
        !starts_with("codec_type=video"@, "[STREAM]"@),
        !starts_with("codec_type=video"@, "codec_name="@),
        !starts_with("codec_type=video"@, "TAG:language="@),
        !starts_with("codec_type=video"@, "[/STREAM]"@),
        !starts_with("codec_type=video"@, "duration="@),
        starts_with("codec_name="@ + codec, "codec_name="@),
        ("codec_name="@ + codec).skip("codec_name="@.len() as int) == codec,
        !starts_with("codec_name="@ + codec, "[STREAM]"@),
        !starts_with("codec_name="@ + codec, "codec_type="@),
        !starts_with("codec_name="@ + codec, "TAG:language="@),
        !starts_with("codec_name="@ + codec, "[/STREAM]"@),
        !starts_with("codec_name="@ + codec, "duration="@),
        starts_with("TAG:language="@ + lang, "TAG:language="@),
        ("TAG:language="@ + lang).skip("TAG:language="@.len() as int) == lang,
        !starts_with("TAG:language="@ + lang, "[STREAM]"@),
        !starts_with("TAG:language="@ + lang, "codec_type="@),
        !starts_with("TAG:language="@ + lang, "codec_name="@),
        !starts_with("TAG:language="@ + lang, "[/STREAM]"@),
        !starts_with("TAG:language="@ + lang, "duration="@),
{
    reveal_strlit("[STREAM]");
    reveal_strlit("[/STREAM]");
    reveal_strlit("codec_type=");
    reveal_strlit("codec_name=");
    reveal_strlit("TAG:language=");
    reveal_strlit("duration=");
    reveal_strlit("codec_type=audio");
    reveal_strlit("codec_type=video");
    reveal_strlit("audio");
    reveal_strlit("video");
    let so = "[STREAM]"@;
    let sc = "[/STREAM]"@;
    let ct = "codec_type="@;
    let cn = "codec_name="@;
    let tl = "TAG:language="@;
    let du = "duration="@;
    assert("video"@[0] == 'v' && "audio"@[0] == 'a');
    assert(so.subrange(0, 8) =~= so);
    assert(sc.subrange(0, 9) =~= sc);
    other_texts_are_no_prefix(so, ct, 0);
    other_texts_are_no_prefix(so, cn, 0);
    other_texts_are_no_prefix(so, tl, 0);
    other_texts_are_no_prefix(so, sc, 1);
    other_texts_are_no_prefix(so, du, 0);
    other_texts_are_no_prefix(sc, so, 1);
    other_texts_are_no_prefix(sc, ct, 0);
    other_texts_are_no_prefix(sc, cn, 0);
    other_texts_are_no_prefix(sc, tl, 0);
    other_texts_are_no_prefix(sc, du, 0);
    let a = "codec_type=audio"@;
    let v = "codec_type=video"@;
    assert(a.subrange(0, 11) =~= ct);
    assert(v.subrange(0, 11) =~= ct);
    assert(a.skip(11) =~= "audio"@);
    assert(v.skip(11) =~= "video"@);
    tight_texts_stay("audio"@);
    tight_texts_stay("video"@);
    other_texts_are_no_prefix(a, so, 0);
    other_texts_are_no_prefix(a, cn, 6);
    other_texts_are_no_prefix(a, tl, 0);
    other_texts_are_no_prefix(a, sc, 0);
    other_texts_are_no_prefix(a, du, 0);
    other_texts_are_no_prefix(v, so, 0);
    other_texts_are_no_prefix(v, cn, 6);
    other_texts_are_no_prefix(v, tl, 0);
    other_texts_are_no_prefix(v, sc, 0);
    other_texts_are_no_prefix(v, du, 0);
    let c = cn + codec;
    prefixes_come_off(cn, codec);
    other_texts_are_no_prefix(c, so, 0);
    other_texts_are_no_prefix(c, ct, 6);
    other_texts_are_no_prefix(c, tl, 0);
    other_texts_are_no_prefix(c, sc, 0);
    other_texts_are_no_prefix(c, du, 0);
    let l = tl + lang;
    prefixes_come_off(tl, lang);
    other_texts_are_no_prefix(l, so, 0);
    other_texts_are_no_prefix(l, ct, 0);
    other_texts_are_no_prefix(l, cn, 0);
    other_texts_are_no_prefix(l, sc, 0);
    other_texts_are_no_prefix(l, du, 0);
}

/// What a report of more lines tells is what the lines before the last tell, and the last.
pub proof fn reports_are_told_line_by_line(ls: Seq<Seq<char>>, line: Seq<char>)
    ensures
        report(ls.push(line)) == told(report(ls), line),
        report(Seq::empty()).tracks.len() == 0,
        report(Seq::empty()).video is None,
        report(Seq::empty()).audio is None,
        report(Seq::empty()).duration is None,
{
    assert(ls.push(line).drop_last() =~= ls);
}

// ------------------------------------------------------------------- corruption
/// A source counts as corrupt where its log says so: a broken container or a missing reference
/// anywhere in it, or more than a hundred duplicated frames in the last line that counts them, of
/// the last fifty; and a log that says nothing of the kind says that it is whole.
pub proof fn logs_tell_corruption(log: Seq<char>, i: int)
    requires
        0 <= i < lines(log).len(),
        contains(lines(log)[i], "dup="@),
        forall|j: int| i < j < lines(log).len() ==> !contains(#[trigger] lines(log)[j], "dup="@),
    ensures
        contains(log, "invalid as first byte of an EBML number"@) ==> corruption(log) is Some,
        contains(log, "Could not find ref with POC"@) ==> corruption(log) is Some,
        lines(log).len() - i <= 50 && duplicates_in(lines(log)[i]) is Some && duplicates_in(
            lines(log)[i],
        )->0 > 100 ==> corruption(log) is Some,
        !contains(log, "invalid as first byte of an EBML number"@) && !contains(
            log,
            "Could not find ref with POC"@,
        ) && (lines(log).len() - i > 50 || duplicates_in(lines(log)[i]) is None || duplicates_in(
            lines(log)[i],
        )->0 <= 100) ==> corruption(log) is None,
{
    let ls = lines(log);
    if ls.len() - i <= 50 {
        assert(crate::transcode::is_summary(ls, i));
    }
    assert forall|j: int| crate::transcode::is_summary(ls, j) implies j == i by {}
}

/// A log that counts no duplicates, and speaks of neither a broken container nor a missing
/// reference, says that its source is whole.
pub proof fn silent_logs_tell_nothing(log: Seq<char>)
    requires
        !contains(log, "invalid as first byte of an EBML number"@),
        !contains(log, "Could not find ref with POC"@),
        forall|j: int| 0 <= j < lines(log).len() ==> !contains(#[trigger] lines(log)[j], "dup="@),
    ensures
        corruption(log) is None,
{
}

/// A transcode is made for receivers: H.264 of one quality, sound in two channels at one rate, and
/// nothing that they do not take; in segments of six seconds, all of them listed, or in one file
/// that can be played while it grows.
pub proof fn transcodes_are_made_for_receivers(
    job: TranscodeJob,
    pattern: Seq<char>,
    manifest: Seq<char>,
    output: Seq<char>,
)
    ensures
        hls_args(job, pattern, manifest) == input_args(job) + stream_args(job) + sound() + seq![
            "-f"@,
            "hls"@,
            "-hls_time"@,
            "6"@,
            "-hls_list_size"@,
            "0"@,
            "-hls_segment_type"@,
            "mpegts"@,
            "-hls_segment_filename"@,
            pattern,
            "-hls_flags"@,
            "temp_file"@,
            "-y"@,
            manifest,
        ],
        file_args(job, output) == input_args(job) + stream_args(job) + sound() + seq![
            "-movflags"@,
            "frag_keyframe+empty_moov+default_base_moof"@,
            "-y"@,
            output,
        ],
        job.intro is Some ==> stream_args(job) == seq![
            "-filter_complex"@,
            concat_filter(job.subtitles, job.audio_index),
            "-map"@,
            "[v]"@,
            "-map"@,
            "[a]"@,
        ] + picture() + seq![
            "-g"@,
            "180"@,
            "-keyint_min"@,
            "180"@,
            "-sc_threshold"@,
            "0"@,
            "-force_key_frames"@,
            "expr:gte(t,n_forced*6)"@,
        ],
        job.intro is None ==> stream_args(job) == seq![
            "-map"@,
            "0:v:0"@,
            "-map"@,
            "0:a:"@ + dec(job.audio_index as nat),
        ] + (if job.subtitles is Some {
            seq!["-vf"@, burning(job.subtitles->0@) + ",format=yuv420p"@] + picture()
        } else if job.video_reencode {
            seq!["-vf"@, "format=yuv420p"@] + picture()
        } else {
            seq!["-c:v"@, "copy"@]
        }),
{
    if job.intro is None && job.subtitles is Some {
        let path = job.subtitles->0@;
        reveal_strlit("'");
        reveal_strlit(",format=yuv420p");
        reveal_strlit("',format=yuv420p");
        assert("'"@ + ",format=yuv420p"@ =~= "',format=yuv420p"@);
        assert(burning(path) + ",format=yuv420p"@ =~= "subtitles='"@ + escaped(path)
            + "',format=yuv420p"@);
    }
}

/// The picture that is encoded.
pub open spec fn picture() -> Seq<Seq<char>> {
    seq!["-c:v"@, "h264_nvenc"@, "-preset"@, "p4"@, "-cq"@, "23"@]
}

/// The sound that is encoded, without data and without metadata beside it.
pub open spec fn sound() -> Seq<Seq<char>> {
    seq!["-c:a"@, "aac"@, "-ac"@, "2"@, "-b:a"@, "192k"@, "-dn"@, "-map_metadata"@, "-1"@]
}

/// The duplicates of a line are the number behind `dup=`, as far as 32 bits hold it.
pub proof fn duplicates_are_counted(head: Seq<char>, n: nat, rest: Seq<char>)
    requires
        forall|j: int|
            0 <= j < head.len() ==> !matches_at(head + "dup="@ + dec(n) + rest, "dup="@, j),
        rest.len() > 0 ==> !is_digit(rest[0]),
    ensures
        n <= u32::MAX ==> duplicates_in(head + "dup="@ + dec(n) + rest) == Some(n),
        n > u32::MAX ==> duplicates_in(head + "dup="@ + dec(n) + rest) is None,
{
    reveal_strlit("dup=");
    let d = dec(n);
    let s = head + "dup="@ + d + rest;
    let k = head.len() as int;
    lemma_dec(n);
    assert(s.subrange(k, k + 4) =~= "dup="@);
    assert(matches_at(s, "dup="@, k));
    lemma_find_from(s, "dup="@, 0);
    assert(find(s, "dup="@) == Some(k));
    let e = k + 4 + d.len() as int;
    assert forall|j: int| k + 4 <= j < e implies is_digit(#[trigger] s[j]) by {
        assert(s[j] == d[j - k - 4]);
        assert(is_digit(d[j - k - 4]));
    }
    if rest.len() > 0 {
        assert(s[e] == rest[0]);
    }
    lemma_digits_end(s, k + 4, e);
    assert(s.subrange(k + 4, e) =~= d);
}

} // verus!
