//! HLS: playlists as ffmpeg writes them and as receivers are given them, and the waits for a
//! transcode to be far enough along.
use vstd::prelude::*;

use crate::numbers::{read_rounded, rounded};
use crate::state::{opt_ref, CurrentStream};
use crate::text::{
    chars_of, contains, dec, drop_white, ends, ends_with, find, find_char, index_of, lines,
    match_at, mentions, padded, pieces, push_dec, push_padded, same, same_chars, slice_copy,
    split_lines, starts_with, string_of, views, white,
};
use crate::time::{elapsed, elapsed_millis, Millis};
use crate::titles::opt;

verus! {

// ------------------------------------------------------------------- reading
/// What has been read of a playlist. Durations are in microseconds.
pub struct Reading {
    pub headers: Seq<Seq<char>>,
    pub entries: Seq<(i64, Seq<char>)>,
    pub endlist: bool,
    pub pending: Option<i64>,
    pub header_done: bool,
}

/// The duration that a segment's line gives, as far as the comma.
pub open spec fn extinf(line: Seq<char>) -> Option<i64> {
    let rest = line.skip(8);
    rounded(rest.take(index_of(rest, ',')), 1_000_000)
}

/// A reading with one line more.
pub open spec fn read_line(r: Reading, line: Seq<char>) -> Reading {
    let l = drop_white(line);
    if l == "#EXT-X-ENDLIST"@ {
        Reading { endlist: true, ..r }
    } else if starts_with(l, "#EXTINF:"@) {
        Reading { header_done: true, pending: extinf(l), ..r }
    } else if r.pending is Some && l.len() > 0 && l[0] != '#' {
        Reading { entries: r.entries.push((r.pending->0, l)), pending: None, ..r }
    } else if !r.header_done {
        Reading { headers: r.headers.push(l), ..r }
    } else {
        r
    }
}

/// What the lines of a playlist say: the lines before the first segment, the segments that have
/// been written with their durations, and whether the list has ended.
pub open spec fn reading(ls: Seq<Seq<char>>) -> Reading
    decreases ls.len(),
{
    if ls.len() == 0 {
        Reading {
            headers: Seq::empty(),
            entries: Seq::empty(),
            endlist: false,
            pending: None,
            header_done: false,
        }
    } else {
        read_line(reading(ls.drop_last()), ls.last())
    }
}

/// The views of segments.
pub open spec fn segments(v: Seq<(i64, String)>) -> Seq<(i64, Seq<char>)> {
    v.map_values(|e: (i64, String)| (e.0, e.1@))
}

fn without_end_white(s: &Vec<char>) -> (r: Vec<char>)
    ensures
        r@ == drop_white(s@),
{
    let mut b: usize = s.len();
    assert(s@.take(b as int) =~= s@);
    while b > 0 && white(s[b - 1])
        invariant
            b <= s@.len(),
            drop_white(s@.take(b as int)) == drop_white(s@),
        decreases b,
    {
        assert(s@.take(b as int).drop_last() =~= s@.take(b - 1));
        assert(s@.take(b as int).last() == s@[b - 1]);
        b -= 1;
    }
    assert(b > 0 ==> s@.take(b as int).last() == s@[b - 1]);
    let r = slice_copy(s, 0, b);
    assert(r@ =~= s@.take(b as int));
    r
}

fn read_extinf(line: &Vec<char>) -> (r: Option<i64>)
    requires
        starts_with(line@, "#EXTINF:"@),
    ensures
        r == extinf(line@),
{
    proof {
        reveal_strlit("#EXTINF:");
    }
    let comma = find_char(line, ',', 8);
    let number = slice_copy(line, 8, comma);
    assert(number@ =~= line@.skip(8).take(index_of(line@.skip(8), ',')));
    read_rounded(&number, 1_000_000)
}

/// Reads a playlist: its header lines, its segments with their durations in microseconds, and
/// whether it has ended.
pub fn parse_hls_playlist_for_padding(body: &str) -> (r: (Vec<String>, Vec<(i64, String)>, bool))
    ensures
        views(r.0@) == reading(lines(body@)).headers,
        segments(r.1@) == reading(lines(body@)).entries,
        r.2 == reading(lines(body@)).endlist,
{
    let v = chars_of(body);
    let ls = split_lines(&v);
    let n: usize = ls.len();
    let end_mark = chars_of("#EXT-X-ENDLIST");
    let segment_mark = chars_of("#EXTINF:");
    let mut headers: Vec<String> = Vec::new();
    let mut entries: Vec<(i64, String)> = Vec::new();
    let mut endlist = false;
    let mut pending: Option<i64> = None;
    let mut header_done = false;
    let ghost all = lines(body@);
    let mut i: usize = 0;
    assert(pieces(ls@).len() == n);
    assert(all.take(0) =~= Seq::<Seq<char>>::empty());
    assert(views(headers@) =~= Seq::<Seq<char>>::empty());
    assert(segments(entries@) =~= Seq::<(i64, Seq<char>)>::empty());
    while i < n
        invariant
            n == ls@.len(),
            n == all.len(),
            i <= n,
            pieces(ls@) == all,
            end_mark@ == "#EXT-X-ENDLIST"@,
            segment_mark@ == "#EXTINF:"@,
            reading(all.take(i as int)) == (Reading {
                headers: views(headers@),
                entries: segments(entries@),
                endlist,
                pending,
                header_done,
            }),
        decreases n - i,
    {
        assert(all.take(i + 1).drop_last() =~= all.take(i as int));
        assert(all.take(i + 1).last() == ls@[i as int]@);
        let l = without_end_white(&ls[i]);
        let ghost h0 = views(headers@);
        let ghost e0 = segments(entries@);
        if same_chars(&l, &end_mark) {
            endlist = true;
        } else if match_at(&l, &segment_mark, 0) {
            header_done = true;
            pending = read_extinf(&l);
        } else if pending.is_some() && l.len() > 0 && l[0] != '#' {
            if let Some(d) = pending {
                entries.push((d, string_of(&l)));
                pending = None;
                assert(segments(entries@) =~= e0.push((d, l@)));
            }
        } else if !header_done {
            headers.push(string_of(&l));
            assert(views(headers@) =~= h0.push(l@));
        }
        i += 1;
    }
    assert(all.take(n as int) =~= all);
    (headers, entries, endlist)
}

// ------------------------------------------------------------------- padding
/// Microseconds in seconds, with six digits behind the point.
pub open spec fn micros_text(m: int) -> Seq<char> {
    let a: nat = if m < 0 {
        (-m) as nat
    } else {
        m as nat
    };
    (if m < 0 {
        seq!['-']
    } else {
        Seq::empty()
    }) + dec(a / 1_000_000) + seq!['.'] + padded(a % 1_000_000, 6)
}

fn push_micros(out: &mut String, m: i64)
    ensures
        final(out)@ == old(out)@ + micros_text(m as int),
{
    let a: u64 = if m >= 0 {
        m as u64
    } else {
        (-(m as i128)) as u64
    };
    if m < 0 {
        out.push('-');
    }
    push_dec(out, a / 1_000_000);
    out.push('.');
    push_padded(out, a % 1_000_000, 6);
    assert(out@ =~= old(out)@ + micros_text(m as int));
}

/// The sum of the durations of some segments.
pub open spec fn total_micros(entries: Seq<(i64, Seq<char>)>) -> int
    decreases entries.len(),
{
    if entries.len() == 0 {
        0
    } else {
        total_micros(entries.drop_last()) + entries.last().0
    }
}

/// `a` over `b`, rounded up.
pub open spec fn ceil_div(a: int, b: int) -> int {
    (a + b - 1) / b
}

/// The segments last a second or more on average.
pub open spec fn is_long(entries: Seq<(i64, Seq<char>)>) -> bool {
    total_micros(entries) >= entries.len() * 1_000_000
}

/// The duration that a segment to come is given: the average of those that are there, or a given
/// one where none is; a second at least.
pub open spec fn expected_micros(entries: Seq<(i64, Seq<char>)>, default_millis: int) -> int {
    if entries.len() == 0 {
        if default_millis < 1000 {
            1_000_000
        } else {
            default_millis * 1000
        }
    } else if is_long(entries) {
        (2 * total_micros(entries) + entries.len()) / (2 * entries.len() as int)
    } else {
        1_000_000
    }
}

/// How many segments it takes to cover what remains, at the average duration.
pub open spec fn needed(
    entries: Seq<(i64, Seq<char>)>,
    remaining_millis: int,
    default_millis: int,
) -> int {
    let remaining = if remaining_millis < 0 {
        0
    } else {
        remaining_millis * 1000
    };
    if entries.len() > 0 && is_long(entries) {
        ceil_div(remaining * entries.len(), total_micros(entries))
    } else {
        ceil_div(remaining, expected_micros(entries, default_millis))
    }
}

/// How many segments a padded playlist lists: two more than are needed, and at least one more
/// than are there.
pub open spec fn predicted(
    entries: Seq<(i64, Seq<char>)>,
    remaining_millis: int,
    default_millis: int,
) -> int {
    let n = needed(entries, remaining_millis, default_millis) + 2;
    if n > entries.len() + 1 {
        n
    } else {
        entries.len() as int + 1
    }
}

/// Lines, each with a line feed behind it.
pub open spec fn header_text(ls: Seq<Seq<char>>) -> Seq<char>
    decreases ls.len(),
{
    if ls.len() == 0 {
        Seq::empty()
    } else {
        header_text(ls.drop_last()) + ls.last() + seq!['\n']
    }
}

/// A segment as a playlist lists it.
pub open spec fn segment_text(micros: int, name: Seq<char>) -> Seq<char> {
    "#EXTINF:"@ + micros_text(micros) + ",\n"@ + name + seq!['\n']
}

/// Segments as a playlist lists them.
pub open spec fn entries_text(entries: Seq<(i64, Seq<char>)>) -> Seq<char>
    decreases entries.len(),
{
    if entries.len() == 0 {
        Seq::empty()
    } else {
        entries_text(entries.drop_last()) + segment_text(
            entries.last().0 as int,
            entries.last().1,
        )
    }
}

/// The name of the segment of a number.
pub open spec fn segment_name(i: nat) -> Seq<char> {
    "seg_"@ + padded(i, 5) + ".ts"@
}

/// The pattern after which ffmpeg names the segments that it writes.
pub open spec fn segment_pattern() -> Seq<char> {
    "seg_%05d.ts"@
}

/// A name after a pattern: what stands before its first `%05d`, a number in five digits at least,
/// and what stands behind it.
pub open spec fn named_after(pattern: Seq<char>, i: nat) -> Seq<char> {
    match find(pattern, "%05d"@) {
        Some(k) => pattern.take(k) + padded(i, 5) + pattern.skip(k + 4),
        None => pattern,
    }
}

/// The segments to come, from one number to before another.
pub open spec fn padding_text(from: int, to: int, micros: int) -> Seq<char>
    decreases to - from,
{
    if to <= from {
        Seq::empty()
    } else {
        padding_text(from, to - 1, micros) + segment_text(micros, segment_name((to - 1) as nat))
    }
}

/// A playlist padded to its full length. One that has ended is left as it is; another lists what
/// is there, then segments to come, and ends.
pub open spec fn padded_manifest(
    body: Seq<char>,
    remaining_millis: int,
    default_millis: int,
) -> Seq<char> {
    let r = reading(lines(body));
    if r.endlist {
        body
    } else {
        header_text(r.headers) + entries_text(r.entries) + padding_text(
            r.entries.len() as int,
            predicted(r.entries, remaining_millis, default_millis),
            expected_micros(r.entries, default_millis),
        ) + "#EXT-X-ENDLIST\n"@
    }
}

/// The longest that is padded for, in milliseconds: as many as 64 bits hold in microseconds.
pub const MAX_REMAINING: Millis = 9_223_372_036_854_775;

fn sum_micros(entries: &Vec<(i64, String)>) -> (r: i128)
    ensures
        r == total_micros(segments(entries@)),
        -0x8000_0000_0000_0000 * entries@.len() <= r <= 0x7fff_ffff_ffff_ffff * entries@.len(),
{
    let n: usize = entries.len();
    let ghost all = segments(entries@);
    let mut sum: i128 = 0;
    let mut i: usize = 0;
    assert(all.take(0) =~= Seq::<(i64, Seq<char>)>::empty());
    while i < n
        invariant
            n == entries@.len(),
            all == segments(entries@),
            i <= n,
            sum == total_micros(all.take(i as int)),
            -0x8000_0000_0000_0000 * i <= sum <= 0x7fff_ffff_ffff_ffff * i,
        decreases n - i,
    {
        assert(all.take(i + 1).drop_last() =~= all.take(i as int));
        assert(all.take(i + 1).last() == all[i as int]);
        sum = sum + entries[i].0 as i128;
        i += 1;
    }
    assert(all.take(n as int) =~= all);
    sum
}

proof fn lemma_ceil_div(a: int, b: int)
    requires
        a >= 0,
        b > 0,
    ensures
        ceil_div(a, b) == if a % b == 0 {
            a / b
        } else {
            a / b + 1
        },
        0 <= ceil_div(a, b) <= a,
{
    let q = a / b;
    let r = a % b;
    vstd::arithmetic::div_mod::lemma_fundamental_div_mod(a, b);
    assert(0 <= r < b) by {
        vstd::arithmetic::div_mod::lemma_mod_bound(a, b);
    }
    assert(q >= 0) by {
        vstd::arithmetic::div_mod::lemma_div_pos_is_pos(a, b);
    }
    if r == 0 {
        assert(q * b == b * q) by (nonlinear_arith);
        assert(a + b - 1 == q * b + (b - 1));
        vstd::arithmetic::div_mod::lemma_fundamental_div_mod_converse(a + b - 1, b, q, b - 1);
        assert(q <= a) by (nonlinear_arith)
            requires
                a == b * q,
                b >= 1,
                q >= 0,
        ;
    } else {
        assert((q + 1) * b == b * q + b) by (nonlinear_arith);
        assert(a + b - 1 == (q + 1) * b + (r - 1));
        vstd::arithmetic::div_mod::lemma_fundamental_div_mod_converse(
            a + b - 1,
            b,
            q + 1,
            r - 1,
        );
        assert(q + 1 <= a) by (nonlinear_arith)
            requires
                a == b * q + r,
                b >= 1,
                q >= 0,
                1 <= r < b,
        ;
    }
}

proof fn lemma_ceil_div_share(r: int, n: int, total: int)
    requires
        r >= 0,
        1 <= n <= total,
    ensures
        ceil_div(r * n, total) <= r,
        r * n >= 0,
{
    assert(0 <= r * n <= r * total) by (nonlinear_arith)
        requires
            r >= 0,
            1 <= n <= total,
    ;
    vstd::arithmetic::div_mod::lemma_div_is_ordered(
        r * n + total - 1,
        r * total + (total - 1),
        total,
    );
    assert(r * total == total * r) by (nonlinear_arith);
    vstd::arithmetic::div_mod::lemma_fundamental_div_mod_converse(
        r * total + (total - 1),
        total,
        r,
        total - 1,
    );
}

fn round_up(a: u128, b: u128) -> (r: u128)
    requires
        b > 0,
    ensures
        r == ceil_div(a as int, b as int),
{
    proof {
        lemma_ceil_div(a as int, b as int);
    }
    if a % b == 0 {
        a / b
    } else {
        a / b + 1
    }
}

fn expect(entries: &Vec<(i64, String)>, sum: i128, default_millis: Millis) -> (r: i64)
    requires
        sum == total_micros(segments(entries@)),
        sum <= 0x7fff_ffff_ffff_ffff * entries@.len(),
        default_millis <= MAX_REMAINING,
    ensures
        r == expected_micros(segments(entries@), default_millis as int),
        r >= 1_000_000,
{
    let n: usize = entries.len();
    assert(segments(entries@).len() == n);
    if n == 0 {
        if default_millis < 1000 {
            1_000_000
        } else {
            default_millis * 1000
        }
    } else if sum >= n as i128 * 1_000_000 {
        let whole: i128 = sum / n as i128;
        let rest: i128 = sum % n as i128;
        proof {
            let a = sum as int;
            let b = n as int;
            vstd::arithmetic::div_mod::lemma_fundamental_div_mod(a, b);
            vstd::arithmetic::div_mod::lemma_mod_bound(a, b);
            assert(whole * (2 * b) == 2 * (b * whole)) by (nonlinear_arith);
            assert((whole + 1) * (2 * b) == 2 * (b * whole) + 2 * b) by (nonlinear_arith);
            if 2 * rest >= b {
                vstd::arithmetic::div_mod::lemma_fundamental_div_mod_converse(
                    2 * a + b,
                    2 * b,
                    whole + 1,
                    2 * rest - b,
                );
            } else {
                vstd::arithmetic::div_mod::lemma_fundamental_div_mod_converse(
                    2 * a + b,
                    2 * b,
                    whole as int,
                    2 * rest + b,
                );
            }
            assert(whole >= 1_000_000) by (nonlinear_arith)
                requires
                    a == b * whole + rest,
                    0 <= rest < b,
                    a >= b * 1_000_000,
                    b > 0,
            ;
            assert(whole <= 0x7fff_ffff_ffff_ffff && (rest > 0 ==> whole < 0x7fff_ffff_ffff_ffff))
                by (nonlinear_arith)
                requires
                    a == b * whole + rest,
                    0 <= rest < b,
                    a <= 0x7fff_ffff_ffff_ffff * b,
                    b > 0,
            ;
        }
        if rest >= n as i128 - rest {
            (whole + 1) as i64
        } else {
            whole as i64
        }
    } else {
        1_000_000
    }
}

fn predict(
    entries: &Vec<(i64, String)>,
    sum: i128,
    expected: i64,
    remaining: Millis,
    default_millis: Millis,
) -> (r: u128)
    requires
        sum == total_micros(segments(entries@)),
        expected == expected_micros(segments(entries@), default_millis as int),
        expected >= 1_000_000,
        remaining <= MAX_REMAINING,
    ensures
        r == predicted(segments(entries@), remaining as int, default_millis as int),
        r > entries@.len(),
        r <= 0x1_0000_0000_0000_0000,
{
    let n: usize = entries.len();
    assert(segments(entries@).len() == n);
    let span: u128 = if remaining < 0 { 0 } else { remaining as u128 * 1000 };
    let count: u128 = if n > 0 && sum >= n as i128 * 1_000_000 {
        proof {
            lemma_ceil_div_share(span as int, n as int, sum as int);
            assert(span * n <= 0x8000_0000_0000_0000 * 0x1_0000_0000_0000_0000) by (nonlinear_arith)
                requires
                    0 <= span <= 0x8000_0000_0000_0000,
                    0 <= n <= 0x1_0000_0000_0000_0000,
            ;
        }
        round_up(span * n as u128, sum as u128)
    } else {
        proof {
            lemma_ceil_div(span as int, expected as int);
        }
        round_up(span, expected as u128)
    };
    let wanted: u128 = count + 2;
    let least: u128 = n as u128 + 1;
    assert(count <= span);
    if wanted > least {
        wanted
    } else {
        least
    }
}

fn push_segment(out: &mut String, micros: i64, name: &str)
    ensures
        final(out)@ == old(out)@ + segment_text(micros as int, name@),
{
    out.append("#EXTINF:");
    push_micros(out, micros);
    out.append(",\n");
    out.append(name);
    out.push('\n');
    assert(out@ =~= old(out)@ + segment_text(micros as int, name@));
}

/// The name of the segment of a number.
pub fn segment_file_name(i: u64) -> (r: String)
    ensures
        r@ == segment_name(i as nat),
{
    let mut name = "seg_".to_owned();
    push_padded(&mut name, i, 5);
    name.append(".ts");
    name
}

/// Gives [`segment_pattern`].
pub fn segment_file_pattern() -> (r: &'static str)
    ensures
        r@ == segment_pattern(),
{
    "seg_%05d.ts"
}

/// Pads a playlist so that a receiver sees the full length of the film, of which so many
/// milliseconds remain.
pub fn build_padded_vod_manifest(body: &str, remaining: Millis, default_segment: Millis) -> (r: String)
    requires
        remaining <= MAX_REMAINING,
        default_segment <= MAX_REMAINING,
    ensures
        r@ == padded_manifest(body@, remaining as int, default_segment as int),
{
    let (headers, entries, endlist) = parse_hls_playlist_for_padding(body);
    if endlist {
        return body.to_owned();
    }
    let sum = sum_micros(&entries);
    let micros = expect(&entries, sum, default_segment);
    let total = predict(&entries, sum, micros, remaining, default_segment);
    let mut out = String::new();
    push_headers(&mut out, &headers);
    push_entries(&mut out, &entries);
    let ghost head = out@;
    let first: u128 = entries.len() as u128;
    let mut i: u128 = first;
    assert(padding_text(first as int, first as int, micros as int) =~= Seq::<char>::empty());
    assert(out@ =~= head + padding_text(first as int, first as int, micros as int));
    while i < total
        invariant
            first <= i <= total,
            total <= 0x1_0000_0000_0000_0000,
            out@ == head + padding_text(first as int, i as int, micros as int),
        decreases total - i,
    {
        let name = segment_file_name(i as u64);
        push_segment(&mut out, micros, name.as_str());
        i += 1;
        assert(out@ =~= head + padding_text(first as int, i as int, micros as int));
    }
    out.append("#EXT-X-ENDLIST\n");
    assert(segments(entries@).len() == first);
    assert(out@ =~= padded_manifest(body@, remaining as int, default_segment as int));
    out
}

fn push_headers(out: &mut String, headers: &Vec<String>)
    ensures
        final(out)@ == old(out)@ + header_text(views(headers@)),
{
    let n: usize = headers.len();
    let ghost all = views(headers@);
    let mut i: usize = 0;
    assert(all.take(0) =~= Seq::<Seq<char>>::empty());
    assert(out@ =~= old(out)@ + header_text(all.take(0)));
    while i < n
        invariant
            n == headers@.len(),
            all == views(headers@),
            i <= n,
            out@ == old(out)@ + header_text(all.take(i as int)),
        decreases n - i,
    {
        assert(all.take(i + 1).drop_last() =~= all.take(i as int));
        assert(all.take(i + 1).last() == headers@[i as int]@);
        out.append(headers[i].as_str());
        out.push('\n');
        i += 1;
        assert(out@ =~= old(out)@ + header_text(all.take(i as int)));
    }
    assert(all.take(n as int) =~= all);
}

fn push_entries(out: &mut String, entries: &Vec<(i64, String)>)
    ensures
        final(out)@ == old(out)@ + entries_text(segments(entries@)),
{
    let n: usize = entries.len();
    let ghost all = segments(entries@);
    let mut i: usize = 0;
    assert(all.take(0) =~= Seq::<(i64, Seq<char>)>::empty());
    assert(out@ =~= old(out)@ + entries_text(all.take(0)));
    while i < n
        invariant
            n == entries@.len(),
            all == segments(entries@),
            i <= n,
            out@ == old(out)@ + entries_text(all.take(i as int)),
        decreases n - i,
    {
        assert(all.take(i + 1).drop_last() =~= all.take(i as int));
        assert(all.take(i + 1).last() == (entries@[i as int].0, entries@[i as int].1@));
        push_segment(out, entries[i].0, entries[i].1.as_str());
        i += 1;
        assert(out@ =~= old(out)@ + entries_text(all.take(i as int)));
    }
    assert(all.take(n as int) =~= all);
}

// ------------------------------------------------------------------- serving
/// How long a segment lasts that nothing is known of, in milliseconds.
pub const DEFAULT_SEGMENT: Millis = 6_000;

/// What remains of the current stream behind its offset, in milliseconds; 0 where its duration
/// is not known.
pub open spec fn remaining_of(current: Option<CurrentStream>) -> int {
    match current {
        Some(c) => match c.duration {
            Some(d) => if d > c.ss_offset {
                d - c.ss_offset
            } else {
                0
            },
            None => if 0 > c.ss_offset {
                0 - c.ss_offset
            } else {
                0
            },
        },
        None => 0,
    }
}

/// A playlist with an end, whether it has one or not.
pub open spec fn with_end(body: Seq<char>) -> Seq<char> {
    if contains(body, "#EXT-X-ENDLIST"@) {
        body
    } else if ends_with(body, "\n"@) {
        body + "#EXT-X-ENDLIST\n"@
    } else {
        body + "\n"@ + "#EXT-X-ENDLIST\n"@
    }
}

/// What remains of the current stream behind its offset, in milliseconds, as [`remaining_of`].
pub fn what_remains(current: Option<&CurrentStream>) -> (r: i128)
    ensures
        r == remaining_of(
            match current {
                Some(c) => Some(*c),
                None => None,
            },
        ),
{
    match current {
        Some(c) => {
            let d: i128 = match c.duration {
                Some(d) => d as i128,
                None => 0,
            };
            let left: i128 = d - c.ss_offset as i128;
            if left > 0 {
                left
            } else {
                0
            }
        },
        None => 0,
    }
}

/// The playlist that a receiver is given: padded where that is wanted and it is known how much
/// remains; ended where that is wanted; else none but the file itself.
pub open spec fn served(
    body: Seq<char>,
    current: Option<CurrentStream>,
    vod_manifest_padded: bool,
    endlist_hack: bool,
) -> Option<Seq<char>> {
    let remaining = remaining_of(current);
    if vod_manifest_padded && 0 < remaining {
        Some(padded_manifest(body, remaining, DEFAULT_SEGMENT as int))
    } else if endlist_hack {
        Some(with_end(body))
    } else {
        None
    }
}

/// Gives [`served`]. More than 64 bits hold in microseconds is not padded for: the segments of such
/// a playlist could not be written out.
pub fn playlist_to_serve(
    body: &str,
    current: Option<&CurrentStream>,
    vod_manifest_padded: bool,
    endlist_hack: bool,
) -> (r: Option<String>)
    requires
        vod_manifest_padded ==> remaining_of(
            match current {
                Some(c) => Some(*c),
                None => None,
            },
        ) <= MAX_REMAINING,
    ensures
        opt(r) == served(body@, opt_ref(current), vod_manifest_padded, endlist_hack),
{
    if vod_manifest_padded {
        let remaining: i128 = what_remains(current);
        if remaining > 0 {
            return Some(build_padded_vod_manifest(body, remaining as i64, DEFAULT_SEGMENT));
        }
    }
    if endlist_hack {
        let mut text = body.to_owned();
        if !mentions(body, "#EXT-X-ENDLIST") {
            if !ends(body, "\n") {
                text.append("\n");
            }
            text.append("#EXT-X-ENDLIST\n");
        }
        return Some(text);
    }
    None
}

/// The master playlist: one rendition, with the codecs, the size and the rate that older
/// receivers want to be told.
pub fn master_playlist() -> (r: &'static str)
    ensures
        r@
            == "#EXTM3U\n#EXT-X-VERSION:3\n#EXT-X-STREAM-INF:BANDWIDTH=6000000,RESOLUTION=1920x1080,CODECS=\"avc1.640028,mp4a.40.2\"\nplaylist.m3u8\n"@,
{
    "#EXTM3U\n#EXT-X-VERSION:3\n#EXT-X-STREAM-INF:BANDWIDTH=6000000,RESOLUTION=1920x1080,CODECS=\"avc1.640028,mp4a.40.2\"\nplaylist.m3u8\n"
}

/// How long a segment that is not there yet is waited for, in seconds.
pub const SEGMENT_WAIT_SECS: u64 = 28;

/// What is done about a segment that is asked for.
#[derive(Debug, Clone, Copy, PartialEq, Eq, Structural)]
pub enum SegmentPoll {
    Serve,
    Wait,
    /// Tell the receiver to try again later.
    Unavailable,
}

/// What is done about a segment: under a padded playlist one that is not there yet is waited for.
pub open spec fn segment_poll(
    vod_manifest_padded: bool,
    on_disk: bool,
    waited_millis: u64,
) -> SegmentPoll {
    if !vod_manifest_padded || on_disk {
        SegmentPoll::Serve
    } else if waited_millis >= SEGMENT_WAIT_SECS * 1000 {
        SegmentPoll::Unavailable
    } else {
        SegmentPoll::Wait
    }
}

/// Decides [`segment_poll`].
pub fn poll_segment(vod_manifest_padded: bool, on_disk: bool, waited_millis: u64) -> (r: SegmentPoll)
    ensures
        r == segment_poll(vod_manifest_padded, on_disk, waited_millis),
{
    if !vod_manifest_padded || on_disk {
        SegmentPoll::Serve
    } else if waited_millis >= SEGMENT_WAIT_SECS * 1000 {
        SegmentPoll::Unavailable
    } else {
        SegmentPoll::Wait
    }
}

// ------------------------------------------------------------------- waiting
/// A transcode that has given nothing after so many seconds has failed.
pub const FAIL_FAST_STREAM_START_SECS: u64 = 20;

/// A transcode has failed to start: it has had its time, and there is no segment of it.
pub open spec fn fails_to_start(elapsed_secs: u64, segments_count: usize) -> bool {
    elapsed_secs >= FAIL_FAST_STREAM_START_SECS && segments_count == 0
}

/// Decides [`fails_to_start`].
pub fn should_fail_fast_stream_start(elapsed_secs: u64, segments_count: usize) -> (r: bool)
    ensures
        r == fails_to_start(elapsed_secs, segments_count),
{
    elapsed_secs >= FAIL_FAST_STREAM_START_SECS && segments_count == 0
}

/// The name of a file whose extension is that of a segment.
pub open spec fn is_segment_file(name: Seq<char>) -> bool {
    name.len() > 3 && ends_with(name, ".ts"@)
}

/// The number of segments among some names.
pub open spec fn segment_count(names: Seq<Seq<char>>) -> nat
    decreases names.len(),
{
    if names.len() == 0 {
        0
    } else {
        segment_count(names.drop_last()) + if is_segment_file(names.last()) {
            1nat
        } else {
            0
        }
    }
}

/// Counts the segments among the names of a directory.
pub fn count_hls_segments(names: &Vec<String>) -> (r: usize)
    ensures
        r == segment_count(views(names@)),
{
    let n: usize = names.len();
    let ghost all = views(names@);
    let mut count: usize = 0;
    let mut i: usize = 0;
    assert(all.take(0) =~= Seq::<Seq<char>>::empty());
    while i < n
        invariant
            n == names@.len(),
            all == views(names@),
            i <= n,
            count <= i,
            count == segment_count(all.take(i as int)),
        decreases n - i,
    {
        assert(all.take(i + 1).drop_last() =~= all.take(i as int));
        assert(all.take(i + 1).last() == names@[i as int]@);
        let name = names[i].as_str();
        if name.unicode_len() > 3 && ends(name, ".ts") {
            count += 1;
        }
        i += 1;
    }
    assert(all.take(n as int) =~= all);
    count
}

/// How many segments there are to be before a stream is cast.
pub open spec fn segments_wanted(target: Seq<char>) -> u64 {
    if target == "chromecast"@ {
        20
    } else {
        10
    }
}

/// Gives [`segments_wanted`].
pub fn min_segments(target: &str) -> (r: u64)
    ensures
        r == segments_wanted(target@),
{
    if same(target, "chromecast") {
        20
    } else {
        10
    }
}

/// How long they are waited for, in seconds; an intro makes it longer.
pub open spec fn prebuffer_patience(has_intro: bool) -> u64 {
    if has_intro {
        90
    } else {
        60
    }
}

/// Gives [`prebuffer_patience`].
pub fn prebuffer_timeout_secs(has_intro: bool) -> (r: u64)
    ensures
        r == prebuffer_patience(has_intro),
{
    if has_intro {
        90
    } else {
        60
    }
}

/// The name of the segment that is waited for.
pub open spec fn awaited_segment(prefix: Seq<char>, segments: nat) -> Seq<char> {
    prefix + padded(segments, 5) + ".ts"@
}

/// Writes [`awaited_segment`].
pub fn prebuffer_target(prefix: &str, segments: u64) -> (r: String)
    ensures
        r@ == awaited_segment(prefix@, segments as nat),
{
    let mut name = prefix.to_owned();
    push_padded(&mut name, segments, 5);
    name.append(".ts");
    name
}

/// What is done while the first segments are waited for.
#[derive(Debug, Clone, Copy, PartialEq, Eq, Structural)]
pub enum Prebuffer {
    /// The transcode has failed to start.
    FailFast,
    /// Cast with what there is.
    CastAnyway,
    /// Cast: enough is there.
    Ready,
    Wait,
}

/// What is done while the first segments are waited for.
pub open spec fn prebuffer_decision(
    elapsed_millis: u64,
    timeout_secs: u64,
    segments: usize,
    enough: bool,
) -> Prebuffer {
    if elapsed_millis / 1000 >= FAIL_FAST_STREAM_START_SECS && segments == 0 {
        Prebuffer::FailFast
    } else if elapsed_millis > timeout_secs * 1000 {
        Prebuffer::CastAnyway
    } else if enough {
        Prebuffer::Ready
    } else {
        Prebuffer::Wait
    }
}

/// Decides [`prebuffer_decision`].
pub fn prebuffer_step(elapsed_millis: u64, timeout_secs: u64, segments: usize, enough: bool) -> (r:
    Prebuffer)
    ensures
        r == prebuffer_decision(elapsed_millis, timeout_secs, segments, enough),
{
    if should_fail_fast_stream_start(elapsed_millis / 1000, segments) {
        Prebuffer::FailFast
    } else if elapsed_millis as u128 > timeout_secs as u128 * 1000 {
        Prebuffer::CastAnyway
    } else if enough {
        Prebuffer::Ready
    } else {
        Prebuffer::Wait
    }
}

/// A wait for the first segments never ends in a cast of nothing: where there is none, it goes on
/// or the start has failed.
pub proof fn nothing_is_never_cast(elapsed_millis: u64, timeout_secs: u64, enough: bool)
    requires
        timeout_secs >= FAIL_FAST_STREAM_START_SECS,
    ensures
        elapsed_millis > timeout_secs * 1000 ==> elapsed_millis / 1000
            >= FAIL_FAST_STREAM_START_SECS,
        elapsed_millis > timeout_secs * 1000 ==> prebuffer_decision(
            elapsed_millis,
            timeout_secs,
            0,
            enough,
        ) is FailFast,
        !(prebuffer_decision(elapsed_millis, timeout_secs, 0, enough) is CastAnyway),
{
}

/// How long a transcode may show no progress, in seconds.
pub const COMPLETION_STALL_SECS: u64 = 120;

/// How long a transcode of a film may take in all, in seconds: as long as the film, within
/// bounds; an hour where its length is not known.
pub open spec fn completion_timeout(duration: Option<Millis>) -> int {
    match duration {
        Some(d) => if d > 0 {
            let secs = ceil_div(d as int, 1000);
            if secs < 300 {
                300
            } else if secs > 14_400 {
                14_400
            } else {
                secs
            }
        } else {
            3600
        },
        None => 3600,
    }
}

/// The wait for a transcode to be complete. Times are milliseconds on a clock that never runs
/// back.
#[derive(Debug, Clone, Copy)]
pub struct CompletionWait {
    pub started_at: u64,
    pub timeout_secs: u64,
    pub last_progress_at: u64,
    /// The length of the playlist and the number of segments at the last look.
    pub last_marker: Option<(u64, usize)>,
}

/// What a look at a transcode sees.
#[derive(Debug, Clone, Copy)]
pub struct TranscodeLook {
    pub had_endlist: bool,
    pub manifest_len: u64,
    pub segments: usize,
    /// The transcode is known by a process, and that is gone.
    pub process_gone: bool,
}

/// How a look ends.
#[derive(Debug, Clone, Copy, PartialEq, Eq, Structural)]
pub enum Completion {
    Complete,
    /// The process went before the playlist ended.
    Exited,
    TimedOut,
    Stalled,
    Waiting,
}

/// Milliseconds in seconds, rounded to a tenth.
pub open spec fn tenths_text(millis: nat) -> Seq<char> {
    let tenths: nat = (millis + 50) / 100;
    dec(tenths / 10) + "."@ + dec(tenths % 10)
}

impl Completion {
    /// What is said of a wait that failed.
    pub open spec fn text(self, wait: CompletionWait, segments: usize, now: u64) -> Option<Seq<char>> {
        match self {
            Completion::Exited => Some(
                "ffmpeg exited before HLS playlist was finalized with ENDLIST (segments_ready="@
                    + dec(segments as nat) + ", waited="@ + tenths_text(
                    elapsed(wait.started_at, now) as nat,
                ) + "s)"@,
            ),
            Completion::TimedOut => Some(
                "timed out after "@ + dec(wait.timeout_secs as nat)
                    + "s waiting for a completed local HLS set (segments_ready="@ + dec(
                    segments as nat,
                ) + ")"@,
            ),
            Completion::Stalled => Some(
                "local HLS generation stalled for 120s before ENDLIST (segments_ready="@ + dec(
                    segments as nat,
                ) + ")"@,
            ),
            Completion::Complete | Completion::Waiting => None,
        }
    }

    /// Writes what is said of a wait that failed; none of one that did not.
    pub fn complaint(&self, wait: &CompletionWait, segments: usize, now: u64) -> (r: Option<String>)
        ensures
            opt(r) == self.text(*wait, segments, now),
    {
        match self {
            Completion::Exited => {
                let mut m =
                    "ffmpeg exited before HLS playlist was finalized with ENDLIST (segments_ready=".to_owned();
                push_dec(&mut m, segments as u64);
                m.append(", waited=");
                let waited: u64 = elapsed_millis(wait.started_at, now);
                let tenths: u64 = ((waited as u128 + 50) / 100) as u64;
                push_dec(&mut m, tenths / 10);
                m.append(".");
                push_dec(&mut m, tenths % 10);
                m.append("s)");
                assert(m@ =~= self.text(*wait, segments, now)->0);
                Some(m)
            },
            Completion::TimedOut => {
                let mut m = "timed out after ".to_owned();
                push_dec(&mut m, wait.timeout_secs);
                m.append("s waiting for a completed local HLS set (segments_ready=");
                push_dec(&mut m, segments as u64);
                m.append(")");
                Some(m)
            },
            Completion::Stalled => {
                let mut m =
                    "local HLS generation stalled for 120s before ENDLIST (segments_ready=".to_owned();
                push_dec(&mut m, segments as u64);
                m.append(")");
                Some(m)
            },
            Completion::Complete | Completion::Waiting => None,
        }
    }
}

/// Something changed since the last look.
pub open spec fn progressed(w: CompletionWait, look: TranscodeLook) -> bool {
    w.last_marker != Some((look.manifest_len, look.segments))
}

/// When there was progress last, this look counted.
pub open spec fn progress_time(w: CompletionWait, look: TranscodeLook, now: u64) -> u64 {
    if progressed(w, look) {
        now
    } else {
        w.last_progress_at
    }
}

/// How a look ends.
pub open spec fn completion(w: CompletionWait, look: TranscodeLook, now: u64) -> Completion {
    if look.had_endlist {
        Completion::Complete
    } else if look.process_gone {
        Completion::Exited
    } else if elapsed(w.started_at, now) >= w.timeout_secs * 1000 {
        Completion::TimedOut
    } else if elapsed(progress_time(w, look, now), now) >= COMPLETION_STALL_SECS * 1000 {
        Completion::Stalled
    } else {
        Completion::Waiting
    }
}

impl CompletionWait {
    /// The wait after a look.
    pub open spec fn after_look(self, look: TranscodeLook, now: u64) -> CompletionWait {
        CompletionWait {
            last_progress_at: progress_time(self, look, now),
            last_marker: Some((look.manifest_len, look.segments)),
            ..self
        }
    }

    /// The wait at its start.
    pub open spec fn fresh(source_duration: Option<Millis>, now: u64) -> CompletionWait {
        CompletionWait {
            started_at: now,
            timeout_secs: completion_timeout(source_duration) as u64,
            last_progress_at: now,
            last_marker: None,
        }
    }

    /// The wait at its start.
    pub fn new(source_duration: Option<Millis>, now: u64) -> (r: CompletionWait)
        ensures
            r == CompletionWait::fresh(source_duration, now),
            r.timeout_secs == completion_timeout(source_duration),
    {
        let timeout_secs: u64 = match source_duration {
            Some(d) => if d > 0 {
                proof {
                    lemma_ceil_div(d as int, 1000);
                }
                let secs: u64 = if d % 1000 == 0 { (d / 1000) as u64 } else { (d / 1000) as u64 + 1 };
                if secs < 300 {
                    300
                } else if secs > 14_400 {
                    14_400
                } else {
                    secs
                }
            } else {
                3600
            },
            None => 3600,
        };
        CompletionWait { started_at: now, timeout_secs, last_progress_at: now, last_marker: None }
    }

    /// Takes a look.
    pub fn look(&mut self, look: TranscodeLook, now: u64) -> (r: Completion)
        ensures
            r == completion(*old(self), look, now),
            *final(self) == old(self).after_look(look, now),
    {
        let same_marker = match self.last_marker {
            Some((len, count)) => len == look.manifest_len && count == look.segments,
            None => false,
        };
        if !same_marker {
            self.last_marker = Some((look.manifest_len, look.segments));
            self.last_progress_at = now;
        }
        if look.had_endlist {
            Completion::Complete
        } else if look.process_gone {
            Completion::Exited
        } else if elapsed_millis(self.started_at, now) as u128 >= self.timeout_secs as u128 * 1000 {
            Completion::TimedOut
        } else if elapsed_millis(self.last_progress_at, now) >= COMPLETION_STALL_SECS * 1000 {
            Completion::Stalled
        } else {
            Completion::Waiting
        }
    }
}

/// A playlist that has come to its end.
pub fn has_endlist(body: &str) -> (r: bool)
    ensures
        r == contains(body@, "#EXT-X-ENDLIST"@),
{
    mentions(body, "#EXT-X-ENDLIST")
}

} // verus!
