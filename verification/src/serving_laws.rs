//! What holds of what is served: the bytes that are asked for are the ones that are given, a
//! receiver sees the whole of a film whose transcode still runs, and only those are answered who
//! call the server by its names.
use vstd::prelude::*;

use crate::hls::{
    awaited_segment, completion, completion_timeout, fails_to_start, prebuffer_decision,
    prebuffer_patience, remaining_of, segment_count, segment_name, segment_poll, segments_wanted,
    served, tenths_text, with_end, Completion, CompletionWait, TranscodeLook,
};
use crate::hosts::{bind_addresses, host_of, is_allowed, last_index_of, passes};
use crate::state::CurrentStream;
use crate::static_files::{
    ends_requested, is_awaited, is_file_head, offset_asked, start_in, step_behind, FileHead,
};
use crate::text::{
    all_digits, contains, dec, ends_with, index_of, is_digit, lemma_dec, lemma_index_of, matches_at,
    padded, starts_with, trim,
};
use crate::text_laws::{parts_are_held, prefixes_come_off, suffixes_come_off, tight_texts_stay};
use crate::time::Millis;
use crate::torrent_stream::{
    content_range, gave_all, header_text, is_head_of, open_failure, probe_target, range_asked,
    range_requested, ByteRange, OpenFailure, RangeError, StreamHead,
};
use crate::validation::{is_safe_segment, segment_content_type};

verus! {

// ---------------------------------------------------------------------- ranges
/// A header that asks for the bytes from one number to another; either may be left out.
pub open spec fn range_header(from: Option<nat>, to: Option<nat>) -> Seq<char> {
    "bytes="@ + digits(from) + seq!['-'] + digits(to)
}

/// The digits of a number that may be left out.
pub open spec fn digits(n: Option<nat>) -> Seq<char> {
    match n {
        Some(x) => dec(x),
        None => Seq::empty(),
    }
}

proof fn lemma_digits(n: Option<nat>)
    ensures
        all_digits(digits(n)),
        n is Some ==> digits(n).len() > 0 && crate::text::parse_nat(digits(n)) == n,
        n is None ==> digits(n).len() == 0,
        trim(digits(n)) == digits(n),
{
    if n is Some {
        lemma_dec(n->0);
        let d = dec(n->0);
        assert(is_digit(d[0]) && is_digit(d[d.len() - 1]));
    }
    tight_texts_stay(digits(n));
}

proof fn lemma_range_header(from: Option<nat>, to: Option<nat>)
    ensures
        ({
            let h = range_header(from, to);
            let rest = h.skip(6);
            let a = digits(from);
            let b = digits(to);
            &&& starts_with(h, "bytes="@)
            &&& rest == a + seq!['-'] + b
            &&& index_of(rest, ',') == rest.len()
            &&& rest.take(rest.len() as int) == rest
            &&& trim(rest) == rest
            &&& index_of(rest, '-') == a.len()
            &&& rest.take(a.len() as int) == a
            &&& rest.skip(a.len() as int + 1) == b
        }),
{
    reveal_strlit("bytes=");
    let h = range_header(from, to);
    let a = digits(from);
    let b = digits(to);
    let rest = a + seq!['-'] + b;
    assert(h =~= "bytes="@ + rest);
    prefixes_come_off("bytes="@, rest);
    lemma_digits(from);
    lemma_digits(to);
    assert forall|j: int| 0 <= j < rest.len() implies rest[j] != ',' by {
        if j < a.len() {
            assert(is_digit(a[j]));
        } else if j > a.len() {
            assert(is_digit(b[j - a.len() - 1]));
        }
    }
    lemma_index_of(rest, ',', rest.len() as int);
    assert(rest.take(rest.len() as int) =~= rest);
    assert forall|j: int| 0 <= j < a.len() implies rest[j] != '-' by {
        assert(is_digit(a[j]));
    }
    assert(rest[a.len() as int] == '-');
    lemma_index_of(rest, '-', a.len() as int);
    assert(rest.take(a.len() as int) =~= a);
    assert(rest.skip(a.len() as int + 1) =~= b);
    if a.len() > 0 {
        assert(is_digit(a[0]));
        assert(rest[0] == a[0]);
    }
    if b.len() > 0 {
        assert(is_digit(b[b.len() - 1]));
        assert(rest.last() == b[b.len() - 1]);
    }
    tight_texts_stay(rest);
}

/// The bytes of a torrent's file that are asked for are the ones that are granted, as far as there
/// are any: from one to another, from one to the end, or the last so many. What lies wholly behind
/// the end is refused as such, and what ends before it begins is no range.
pub proof fn the_range_asked_for_is_granted(from: nat, to: nat, total: u64)
    requires
        total > 0,
        from <= u64::MAX,
        to <= u64::MAX,
    ensures
        from <= to && from < total ==> range_asked(range_header(Some(from), Some(to)), total) == Ok::<
            ByteRange,
            RangeError,
        >(
            (ByteRange {
                start: from as u64,
                end: if to < total {
                    to as u64
                } else {
                    (total - 1) as u64
                },
            }),
        ),
        to < from && from < total ==> range_asked(range_header(Some(from), Some(to)), total)
            == Err::<ByteRange, RangeError>(RangeError::Malformed),
        from >= total ==> range_asked(range_header(Some(from), Some(to)), total) == Err::<
            ByteRange,
            RangeError,
        >(RangeError::Unsatisfiable),
        from < total ==> range_asked(range_header(Some(from), None), total) == Ok::<
            ByteRange,
            RangeError,
        >((ByteRange { start: from as u64, end: (total - 1) as u64 })),
        to > 0 ==> range_asked(range_header(None, Some(to)), total) == Ok::<ByteRange, RangeError>(
            (ByteRange {
                start: if to < total {
                    (total - to) as u64
                } else {
                    0
                },
                end: (total - 1) as u64,
            }),
        ),
        to == 0 ==> range_asked(range_header(None, Some(to)), total) == Err::<
            ByteRange,
            RangeError,
        >(RangeError::Unsatisfiable),
        range_asked(range_header(None, None), total) == Err::<ByteRange, RangeError>(
            RangeError::Malformed,
        ),
{
    lemma_range_header(Some(from), Some(to));
    lemma_range_header(Some(from), None);
    lemma_range_header(None, Some(to));
    lemma_range_header(None, None);
    lemma_digits(Some(from));
    lemma_digits(Some(to));
    lemma_digits(None);
}

/// Without a header the whole is granted; of nothing there is nothing to grant; and a header in
/// another unit is no range.
pub proof fn other_headers_are_no_ranges(s: Seq<char>, total: u64)
    ensures
        !starts_with(s, "bytes="@) ==> range_asked(s, total) == Err::<ByteRange, RangeError>(
            RangeError::Malformed,
        ),
        total > 0 ==> range_requested(None, total) == Ok::<ByteRange, RangeError>(
            (ByteRange { start: 0, end: (total - 1) as u64 }),
        ),
        range_requested(None, 0) == Err::<ByteRange, RangeError>(RangeError::EmptyResource),
        RangeError::Malformed.status() == 400,
        RangeError::Unsatisfiable.status() == 416,
        RangeError::EmptyResource.status() == 500,
{
}

/// A header is read byte by byte: where all of it is visible ASCII, spaces and tabs, its text has
/// the same codes; where any is not, it has none.
pub proof fn headers_are_read_as_they_are(raw: Seq<u8>)
    ensures
        (forall|i: int| 0 <= i < raw.len() ==> (32 <= #[trigger] raw[i] < 127 || raw[i] == 9))
            ==> header_text(raw) is Some && header_text(raw)->0.len() == raw.len() && forall|i: int|
            0 <= i < raw.len() ==> #[trigger] header_text(raw)->0[i] as int == raw[i],
        (exists|i: int| 0 <= i < raw.len() && !(32 <= #[trigger] raw[i] < 127 || raw[i] == 9))
            ==> header_text(raw) is None,
{
    if exists|i: int| 0 <= i < raw.len() && !(32 <= #[trigger] raw[i] < 127 || raw[i] == 9) {
        let i = choose|i: int|
            0 <= i < raw.len() && !(32 <= #[trigger] raw[i] < 127 || raw[i] == 9);
        assert(!crate::torrent_stream::is_text_byte(raw[i]));
    }
    if forall|i: int| 0 <= i < raw.len() ==> (32 <= #[trigger] raw[i] < 127 || raw[i] == 9) {
        assert forall|i: int| 0 <= i < raw.len() implies crate::torrent_stream::is_text_byte(
            #[trigger] raw[i],
        ) by {}
    }
}

/// An answer says what it holds: as many bytes as the range has, those that were probed and those
/// that follow together; it is a whole answer exactly where the range is the whole, and else names
/// the range. There is none before the first 65536 bytes, or all of a shorter range, were read.
pub proof fn answers_say_what_they_hold(
    head: Option<StreamHead>,
    range: ByteRange,
    total: u64,
    probed: usize,
)
    requires
        range.start <= range.end < total,
        is_head_of(head, range, total, probed),
        probed <= 65536,
        probed <= range.end - range.start + 1,
    ensures
        head is Some <==> probed == 65536 || probed == range.end - range.start + 1,
        head is Some ==> {
            let h = head->0;
            let whole = range.start == 0 && range.end + 1 == total;
            &&& h.content_length == range.end - range.start + 1
            &&& h.remaining + probed == h.content_length
            &&& whole ==> h.status == 200 && h.content_range is None
            &&& !whole ==> h.status == 206 && h.content_range is Some && h.content_range->0@
                == "bytes "@ + dec(range.start as nat) + "-"@ + dec(range.end as nat) + "/"@ + dec(
                total as nat,
            )
        },
{
}

/// A torrent that only initializes is asked again until the deadline, and told to be unavailable
/// then; any other failure is told at once.
pub proof fn torrents_are_waited_for_while_they_initialize(message: Seq<char>, past_deadline: bool)
    ensures
        contains(message, "initializing"@) && !past_deadline ==> open_failure(
            message,
            past_deadline,
        ) is Retry,
        contains(message, "initializing"@) && past_deadline ==> open_failure(message, past_deadline)
            == OpenFailure::GiveUp(503),
        !contains(message, "initializing"@) ==> open_failure(message, past_deadline)
            == OpenFailure::GiveUp(404),
{
}

/// The bytes of a file that are asked for are the ones that are sent, as far as the file goes; a
/// header that asks for none of the kind gets the whole.
pub proof fn the_bytes_asked_for_are_sent(from: nat, to: nat, total: u64, other: Seq<char>)
    requires
        total > 0,
        from <= u64::MAX,
        to <= u64::MAX,
    ensures
        ({
            let last = (total - 1) as u64;
            let a = if from < last {
                from as u64
            } else {
                last
            };
            let b = if to < last {
                to as u64
            } else {
                last
            };
            &&& from <= to ==> ends_requested(Some(range_header(Some(from), Some(to))), total) == (a, b)
            &&& from > to ==> ends_requested(Some(range_header(Some(from), Some(to))), total) == (
                0u64,
                last,
            )
            &&& ends_requested(Some(range_header(Some(from), None)), total) == (a, last)
            &&& !starts_with(other, "bytes="@) ==> ends_requested(Some(other), total) == (
                0u64,
                last,
            )
            &&& ends_requested(None, total) == (0u64, last)
        }),
{
    lemma_range_header(Some(from), Some(to));
    lemma_range_header(Some(from), None);
    lemma_digits(Some(from));
    lemma_digits(Some(to));
    lemma_digits(None);
    tight_texts_stay(Seq::<char>::empty());
}

/// A file is answered with what its header asks for: as many bytes as lie between the two ends, from
/// the first on, with the range named where one was asked for; nothing is sent of an empty file.
pub proof fn files_are_answered_with_what_was_asked_for(
    head: FileHead,
    header: Option<Seq<char>>,
    total: u64,
)
    requires
        is_file_head(head, header, total),
    ensures
        head.start == ends_requested(header, total).0,
        total > 0 ==> head.content_length == ends_requested(header, total).1 - ends_requested(
            header,
            total,
        ).0 + 1,
        total == 0 ==> head.content_length == 0 && head.start == 0,
        header is None ==> head.status == 200 && head.content_range is None,
        header is None && total > 0 ==> head.start == 0 && head.content_length == total,
        header is Some ==> head.status == 206 && head.content_range is Some
            && head.content_range->0@ == "bytes "@ + dec(head.start as nat) + "-"@ + dec(
            ends_requested(header, total).1 as nat,
        ) + "/"@ + dec(total as nat),
{
}

/// A growing file is served from the offset that an open range names, where it has come that far,
/// and from its beginning otherwise; and it is followed for as long as it is written.
pub proof fn growing_files_are_served_from_the_offset(
    offset: nat,
    to: nat,
    len: u64,
    read: usize,
    writer_alive: bool,
)
    requires
        offset <= u64::MAX,
    ensures
        offset_asked(Some(range_header(Some(offset), None))) == offset,
        offset_asked(Some(range_header(Some(offset), Some(to)))) == 0,
        offset_asked(None) == 0,
        offset <= len ==> start_in(offset as u64, Some(len)) == offset,
        offset > len ==> start_in(offset as u64, Some(len)) == 0,
        start_in(offset as u64, None) == 0,
        read > 0 ==> step_behind(read, writer_alive) is Send,
        read == 0 && writer_alive ==> step_behind(read, writer_alive) is Wait,
        read == 0 && !writer_alive ==> step_behind(read, writer_alive) is End,
{
    lemma_range_header(Some(offset), None);
    lemma_range_header(Some(offset), Some(to));
    lemma_digits(Some(offset));
    lemma_digits(Some(to));
    lemma_digits(None);
}

// ------------------------------------------------------------------- playlists
/// What remains of a stream is what its film lasts behind where it begins, and nothing where that
/// is past the end or nothing plays.
pub proof fn what_remains_lies_behind_the_offset(c: CurrentStream)
    ensures
        remaining_of(None) == 0,
        c.duration is Some && c.duration->0 > c.ss_offset ==> remaining_of(Some(c))
            == c.duration->0 - c.ss_offset,
        c.duration is Some && c.duration->0 <= c.ss_offset ==> remaining_of(Some(c)) == 0,
        c.duration is None && c.ss_offset >= 0 ==> remaining_of(Some(c)) == 0,
{
}

/// A playlist is padded exactly where that is wanted and anything remains; else it is ended where
/// that is wanted, and else passed on as the file it is.
pub proof fn playlists_are_padded_where_anything_remains(
    body: Seq<char>,
    c: CurrentStream,
    padded: bool,
    hack: bool,
)
    ensures
        padded && c.duration is Some && c.duration->0 > c.ss_offset ==> served(
            body,
            Some(c),
            padded,
            hack,
        ) == Some(
            crate::hls::padded_manifest(body, c.duration->0 - c.ss_offset, 6_000),
        ),
        !padded && hack ==> served(body, Some(c), padded, hack) == Some(with_end(body)),
        !padded && !hack ==> served(body, Some(c), padded, hack) is None,
        hack ==> served(body, None, padded, hack) == Some(with_end(body)),
        !hack ==> served(body, None, padded, hack) is None,
{
}

/// A playlist that is ended holds all that it held before, and its end; one that had one is as it
/// was, and so is one that is ended again.
pub proof fn ended_playlists_keep_what_they_held(body: Seq<char>)
    ensures
        starts_with(with_end(body), body),
        contains(with_end(body), "#EXT-X-ENDLIST"@),
        contains(body, "#EXT-X-ENDLIST"@) ==> with_end(body) == body,
        with_end(with_end(body)) == with_end(body),
        !contains(body, "#EXT-X-ENDLIST"@) ==> ends_with(with_end(body), "\n#EXT-X-ENDLIST\n"@),
{
    lemma_end_marks();
    let e = "#EXT-X-ENDLIST"@;
    let n = "\n"@;
    let w = with_end(body);
    if contains(body, e) {
        prefixes_come_off(body, Seq::empty());
        assert(body + Seq::<char>::empty() =~= body);
    } else {
        lemma_ended(body, e, n);
        if ends_with(body, n) {
            assert(w == body + (e + n));
        } else {
            assert(w == body + n + (e + n));
        }
    }
}

proof fn lemma_end_marks()
    ensures
        "#EXT-X-ENDLIST\n"@ == "#EXT-X-ENDLIST"@ + "\n"@,
        "\n#EXT-X-ENDLIST\n"@ == "\n"@ + ("#EXT-X-ENDLIST"@ + "\n"@),
        "\n"@.len() == 1,
{
    reveal_strlit("#EXT-X-ENDLIST");
    reveal_strlit("#EXT-X-ENDLIST\n");
    reveal_strlit("\n#EXT-X-ENDLIST\n");
    reveal_strlit("\n");
    assert("#EXT-X-ENDLIST\n"@ =~= "#EXT-X-ENDLIST"@ + "\n"@);
    assert("\n#EXT-X-ENDLIST\n"@ =~= "\n"@ + ("#EXT-X-ENDLIST"@ + "\n"@));
}

proof fn lemma_ended(body: Seq<char>, e: Seq<char>, n: Seq<char>)
    ensures
        starts_with(body + (e + n), body),
        contains(body + (e + n), e),
        ends_with(body, n) ==> ends_with(body + (e + n), n + (e + n)),
        starts_with(body + n + (e + n), body),
        contains(body + n + (e + n), e),
        ends_with(body + n + (e + n), n + (e + n)),
{
    prefixes_come_off(body, e + n);
    assert(body + (e + n) =~= body + e + n);
    parts_are_held(body, e, n, e);
    let t = body.take(body.len() - n.len());
    if ends_with(body, n) {
        suffixes_come_off(body, n);
        assert(body + (e + n) =~= t + (n + (e + n)));
        suffixes_come_off(t, n + (e + n));
    }
    prefixes_come_off(body, n + (e + n));
    assert(body + n + (e + n) =~= body + (n + (e + n)));
    assert(body + n + (e + n) =~= (body + n) + e + n);
    parts_are_held(body + n, e, n, e);
    suffixes_come_off(body, n + (e + n));
}

/// A segment that is listed before it is there is waited for, up to 28 seconds; one that is there
/// is served at once, and without padding any is.
pub proof fn listed_segments_are_waited_for(on_disk: bool, padded: bool, waited_millis: u64)
    ensures
        on_disk ==> segment_poll(padded, on_disk, waited_millis) is Serve,
        !padded ==> segment_poll(padded, on_disk, waited_millis) is Serve,
        padded && !on_disk && waited_millis < 28_000 ==> segment_poll(
            padded,
            on_disk,
            waited_millis,
        ) is Wait,
        padded && !on_disk && waited_millis >= 28_000 ==> segment_poll(
            padded,
            on_disk,
            waited_millis,
        ) is Unavailable,
{
}

/// The segments that a playlist names can be asked for, and are served as what they are; so is the
/// playlist itself.
pub proof fn what_is_listed_can_be_asked_for(i: nat)
    requires
        i <= u64::MAX,
    ensures
        is_safe_segment(segment_name(i)),
        segment_content_type(segment_name(i)) == "video/mp2t"@,
        is_safe_segment("playlist.m3u8"@),
        segment_content_type("playlist.m3u8"@) == "application/vnd.apple.mpegurl"@,
{
    lemma_segment_is_safe(i);
    lemma_playlist_is_safe();
}

proof fn lemma_playlist_is_safe()
    ensures
        is_safe_segment("playlist.m3u8"@),
        segment_content_type("playlist.m3u8"@) == "application/vnd.apple.mpegurl"@,
{
    reveal_strlit("playlist.m3u8");
    reveal_strlit(".m3u8");
    reveal_strlit("..");
    let p = "playlist.m3u8"@;
    assert(p.subrange(8, 13) =~= ".m3u8"@);
    assert forall|j: int| !matches_at(p, ".."@, j) by {
        if matches_at(p, ".."@, j) {
            assert(p.subrange(j, j + 2)[0] == p[j]);
            assert(p.subrange(j, j + 2)[1] == p[j + 1]);
        }
    }
}

proof fn lemma_dec_length(n: nat)
    requires
        n <= u64::MAX,
    ensures
        dec(n).len() <= 20,
{
    reveal_with_fuel(dec, 21);
}

proof fn lemma_segment_is_safe(i: nat)
    requires
        i <= u64::MAX,
    ensures
        is_safe_segment(segment_name(i)),
        segment_content_type(segment_name(i)) == "video/mp2t"@,
{
    reveal_strlit("seg_");
    reveal_strlit(".ts");
    reveal_strlit(".m3u8");
    reveal_strlit("..");
    let p = padded(i, 5);
    let s = segment_name(i);
    crate::text::lemma_padded(i, 5);
    lemma_dec_length(i);
    assert(s.len() <= 64);
    suffixes_come_off("seg_"@ + p, ".ts"@);
    assert forall|j: int| 0 <= j < s.len() implies crate::validation::is_segment_char(
        #[trigger] s[j],
    ) by {
        if 4 <= j < 4 + p.len() {
            assert(is_digit(p[j - 4]));
        }
    }
    assert forall|j: int| !matches_at(s, ".."@, j) by {
        if matches_at(s, ".."@, j) {
            assert(s.subrange(j, j + 2)[0] == s[j]);
            assert(s.subrange(j, j + 2)[1] == s[j + 1]);
            if 4 <= j < 4 + p.len() {
                assert(is_digit(p[j - 4]));
            }
        }
    }
    if ends_with(s, ".m3u8"@) {
        assert(s.subrange(s.len() - 5, s.len() as int)[4] == s[s.len() - 1]);
    }
}

/// The segments that are counted are the files that end in `.ts` with something before that: each
/// counts once, and no other counts.
pub proof fn segments_are_counted_one_by_one(names: Seq<Seq<char>>, name: Seq<char>)
    ensures
        segment_count(Seq::empty()) == 0,
        name.len() > 3 && ends_with(name, ".ts"@) ==> segment_count(names.push(name))
            == segment_count(names) + 1,
        !(name.len() > 3 && ends_with(name, ".ts"@)) ==> segment_count(names.push(name))
            == segment_count(names),
{
    assert(names.push(name).drop_last() =~= names);
}

/// The first segments are waited for as long as it is worth it: a transcode that has given none
/// after twenty seconds has failed, one that has given enough is cast, and one that has given some
/// is cast when the wait is over, which is a minute, or a minute and a half behind an intro.
pub proof fn first_segments_are_waited_for(
    elapsed_millis: u64,
    has_intro: bool,
    segments: usize,
    enough: bool,
)
    ensures
        ({
            let patience = if has_intro {
                90u64
            } else {
                60u64
            };
            let r = prebuffer_decision(
                elapsed_millis,
                prebuffer_patience(has_intro),
                segments,
                enough,
            );
            &&& r is FailFast <==> elapsed_millis >= 20_000 && segments == 0
            &&& segments > 0 && elapsed_millis > patience * 1000 ==> r is CastAnyway
            &&& enough && elapsed_millis <= patience * 1000 && segments > 0 ==> r is Ready
            &&& !enough && elapsed_millis <= patience * 1000 && (segments > 0 || elapsed_millis
                < 20_000) ==> r is Wait
        }),
{
}

/// A Chromecast is cast to when twenty segments are there, and anything else when ten are: what is
/// waited for is the segment behind them, under the name that it is written under.
pub proof fn enough_segments_are_there_first(target: Seq<char>, n: nat)
    ensures
        target == "chromecast"@ ==> segments_wanted(target) == 20,
        target != "chromecast"@ ==> segments_wanted(target) == 10,
        awaited_segment("seg_"@, n) == segment_name(n),
{
}

/// A transcode that is to be complete first is waited for as long as its film lasts, five minutes
/// at least and four hours at most, and an hour where that is not known.
pub proof fn transcodes_are_given_the_length_of_their_film(d: Millis, now: u64)
    ensures
        completion_timeout(None) == 3600,
        d <= 0 ==> completion_timeout(Some(d)) == 3600,
        d > 0 ==> 300 <= completion_timeout(Some(d)) <= 14_400,
        d > 300_000 && d <= 14_400_000 ==> d <= completion_timeout(Some(d)) * 1000 < d + 1000,
        d > 14_400_000 ==> completion_timeout(Some(d)) == 14_400,
        0 < d <= 300_000 ==> completion_timeout(Some(d)) == 300,
        CompletionWait::fresh(Some(d), now).started_at == now,
        CompletionWait::fresh(Some(d), now).last_progress_at == now,
        CompletionWait::fresh(Some(d), now).last_marker is None,
        CompletionWait::fresh(Some(d), now).timeout_secs == completion_timeout(Some(d)),
{
}

/// A look at a transcode finds it complete where its playlist has ended, whatever else it finds;
/// dead where its process is gone; late after its time; stalled where nothing has changed for two
/// minutes; and else it goes on. Whatever changed is remembered with the time of the look.
pub proof fn transcodes_are_judged_by_their_progress(w: CompletionWait, look: TranscodeLook, now: u64)
    requires
        now >= w.started_at,
        now >= w.last_progress_at,
    ensures
        ({
            let changed = w.last_marker != Some((look.manifest_len, look.segments));
            let late = now - w.started_at >= w.timeout_secs * 1000;
            let stuck = !changed && now - w.last_progress_at >= 120_000;
            let r = completion(w, look, now);
            &&& look.had_endlist <==> r is Complete
            &&& !look.had_endlist && look.process_gone ==> r is Exited
            &&& !look.had_endlist && !look.process_gone && late ==> r is TimedOut
            &&& !look.had_endlist && !look.process_gone && !late && stuck ==> r is Stalled
            &&& !look.had_endlist && !look.process_gone && !late && !stuck ==> r is Waiting
            &&& changed ==> w.after_look(look, now).last_progress_at == now
            &&& !changed ==> w.after_look(look, now).last_progress_at == w.last_progress_at
            &&& w.after_look(look, now).last_marker == Some((look.manifest_len, look.segments))
            &&& w.after_look(look, now).started_at == w.started_at
            &&& w.after_look(look, now).timeout_secs == w.timeout_secs
        }),
{
}

// ----------------------------------------------------------------------- hosts
proof fn lemma_last_index(s: Seq<char>, c: char, k: int)
    requires
        0 <= k < s.len(),
        s[k] == c,
        forall|j: int| k < j < s.len() ==> s[j] != c,
    ensures
        last_index_of(s, c) == k,
    decreases s.len(),
{
    if k < s.len() - 1 {
        let t = s.drop_last();
        assert(s[s.len() - 1] != c);
        assert forall|j: int| k < j < t.len() implies t[j] != c by {
            assert(t[j] == s[j]);
        }
        lemma_last_index(t, c, k);
    }
}

proof fn lemma_no_index(s: Seq<char>, c: char)
    requires
        forall|j: int| 0 <= j < s.len() ==> s[j] != c,
    ensures
        last_index_of(s, c) == -1,
    decreases s.len(),
{
    if s.len() > 0 {
        assert(s[s.len() - 1] != c);
        lemma_no_index(s.drop_last(), c);
    }
}

/// A host is the same with and without a port behind it, a name and an address in brackets alike.
pub proof fn ports_are_no_part_of_a_host(host: Seq<char>, inner: Seq<char>, port: u16)
    requires
        host.len() > 0,
        host[0] != '[',
        forall|j: int| 0 <= j < host.len() ==> host[j] != ':',
        forall|j: int| 0 <= j < inner.len() ==> inner[j] != ']',
    ensures
        host_of(host) == host,
        host_of(host + seq![':'] + dec(port as nat)) == host,
        host_of(seq!['['] + inner + seq![']']) == seq!['['] + inner + seq![']'],
        host_of(seq!['['] + inner + seq![']'] + seq![':'] + dec(port as nat)) == seq!['['] + inner
            + seq![']'],
{
    let d = dec(port as nat);
    lemma_dec(port as nat);
    lemma_no_index(host, ':');
    let s = host + seq![':'] + d;
    assert forall|j: int| host.len() < j < s.len() implies s[j] != ':' by {
        assert(is_digit(d[j - host.len() - 1]));
    }
    lemma_last_index(s, ':', host.len() as int);
    assert(s.take(host.len() as int) =~= host);
    assert(s[0] == host[0]);
    let b = seq!['['] + inner + seq![']'];
    let n = inner.len() as int + 1;
    assert forall|j: int| 0 <= j < n implies b[j] != ']' by {
        if j > 0 {
            assert(b[j] == inner[j - 1]);
        }
    }
    lemma_index_of(b, ']', n);
    assert(b.take(n + 1) =~= b);
    let c = b + seq![':'] + d;
    assert forall|j: int| 0 <= j < n implies c[j] != ']' by {
        assert(c[j] == b[j]);
    }
    assert(c[n] == b[n]);
    lemma_index_of(c, ']', n);
    assert(c.take(n + 1) =~= b);
}

/// A request passes exactly where its header names a host that is answered for: the server's own
/// names, the one that it streams under and those that the configuration adds; one without a header
/// never does.
pub proof fn only_known_hosts_pass(
    header: Option<Seq<char>>,
    stream_host: Seq<char>,
    extra: Seq<Seq<char>>,
    allowed: Set<Seq<char>>,
)
    requires
        forall|h: Seq<char>| #[trigger] allowed.contains(h) <==> is_allowed(h, stream_host, extra),
    ensures
        header is None ==> !passes(header, allowed),
        header is Some ==> (passes(header, allowed) <==> {
            let h = host_of(header->0);
            h == "localhost"@ || h == "127.0.0.1"@ || h == "darwin.home"@ || h.len() > 0 && (h
                == stream_host || extra.contains(h))
        }),
{
}

/// The server listens where it is told to, and always on the loopback too: by itself where the host
/// covers it, and beside it where it does not.
pub proof fn the_loopback_is_always_listened_on(host: Seq<char>, port: u16)
    ensures
        bind_addresses(host, port).last() == host + ":"@ + dec(port as nat),
        ({
            let h = trim(host);
            let covers = h.len() == 0 || h == "0.0.0.0"@ || h == "::"@ || h == "[::]"@ || h
                == "127.0.0.1"@ || h == "localhost"@ || h == "::1"@ || h == "[::1]"@;
            &&& covers ==> bind_addresses(host, port).len() == 1
            &&& !covers ==> bind_addresses(host, port).len() == 2 && bind_addresses(host, port)[0]
                == "127.0.0.1:"@ + dec(port as nat)
        }),
{
    reveal_strlit("127.0.0.1");
    reveal_strlit(":");
    reveal_strlit("127.0.0.1:");
    assert("127.0.0.1"@ + ":"@ =~= "127.0.0.1:"@);
}

/// A transcode of which there is no segment after twenty seconds has failed to start; one of which
/// there is any has not, however long it takes.
pub proof fn transcodes_have_twenty_seconds(elapsed_secs: u64, segments: usize)
    ensures
        fails_to_start(elapsed_secs, segments) <==> elapsed_secs >= 20 && segments == 0,
{
}

/// A file that is there is not waited for; one that is not is looked for thirty times.
pub proof fn files_are_looked_for_thirty_times(exists: bool, looks: u32)
    ensures
        !is_awaited(true, looks),
        is_awaited(false, looks) <==> looks < 30,
{
}

/// No more is probed than was asked for, nor than 65536 bytes, and all of either; and only a probe
/// that gave as much has succeeded.
pub proof fn what_is_asked_for_is_probed(range: ByteRange, total: u64, probed: usize)
    requires
        range.start <= range.end < total,
    ensures
        range.length() > 0,
        range.length() == total <==> range.start == 0 && range.end + 1 == total,
        range.is_whole(total) <==> range.length() == total,
        range.length() <= 65536 ==> probe_target(range.length() as u64) == range.length(),
        range.length() >= 65536 ==> probe_target(range.length() as u64) == 65536,
        !gave_all(probed, 0),
        gave_all(probed, probe_target(range.length() as u64)) <==> probed >= range.length() || probed
            >= 65536,
{
}

/// Tenths of a second are told as they are, and what lies between two is rounded to the nearer.
pub proof fn tenths_are_told_to_the_nearest(tenths: nat, millis: nat)
    ensures
        tenths_text(100 * tenths) == dec(tenths / 10) + "."@ + dec(tenths % 10),
        100 * tenths <= millis + 50 < 100 * tenths + 100 ==> tenths_text(millis) == tenths_text(
            100 * tenths,
        ),
{
}

/// A wait that failed tells why: how long it lasted, and how many segments there were.
pub proof fn failed_waits_tell_why(w: CompletionWait, segments: usize, now: u64)
    requires
        now >= w.started_at,
    ensures
        Completion::Complete.text(w, segments, now) is None,
        Completion::Waiting.text(w, segments, now) is None,
        Completion::Exited.text(w, segments, now) == Some(
            "ffmpeg exited before HLS playlist was finalized with ENDLIST (segments_ready="@ + dec(
                segments as nat,
            ) + ", waited="@ + tenths_text((now - w.started_at) as nat) + "s)"@,
        ),
        Completion::TimedOut.text(w, segments, now) == Some(
            "timed out after "@ + dec(w.timeout_secs as nat)
                + "s waiting for a completed local HLS set (segments_ready="@ + dec(segments as nat)
                + ")"@,
        ),
        Completion::Stalled.text(w, segments, now) == Some(
            "local HLS generation stalled for 120s before ENDLIST (segments_ready="@ + dec(
                segments as nat,
            ) + ")"@,
        ),
{
}

} // verus!
