//! What holds of padded playlists: a receiver reads them as a whole film, with every segment that
//! has been written, and long enough for what remains.
use vstd::prelude::*;

use crate::hls::{
    ceil_div, entries_text, expected_micros, extinf, header_text, is_long, micros_text, named_after,
    needed, padded_manifest, padding_text, predicted, read_line, reading, segment_name,
    segment_pattern, segment_text, total_micros, Reading, MAX_REMAINING,
};
use crate::numbers::{
    exponent_mark, lemma_dec_value_parts, magnitude, numeral, pow10, rounded, times,
    unsigned_numeral, Numeral,
};
use crate::text::{
    all_digits, ascii_lower, dec, dec_value, drop_white, find, index_of, is_digit, is_white,
    lemma_dec, lemma_find_from, lemma_index_of, lemma_index_of_bounds, lemma_padded, lines,
    matches_at, padded, starts_with, strip_cr,
};

verus! {

// ------------------------------------------------------------------- numbers
proof fn lemma_dec_len(n: nat, k: nat)
    requires
        n < pow10(k),
        k >= 1,
    ensures
        dec(n).len() <= k,
    decreases k,
{
    if n >= 10 {
        assert(k > 1) by {
            assert(pow10(1) == 10 * pow10(0));
        }
        lemma_dec_len(n / 10, (k - 1) as nat);
    }
}

proof fn lemma_no_mark(s: Seq<char>)
    requires
        forall|j: int| 0 <= j < s.len() ==> s[j] != 'e' && s[j] != 'E',
    ensures
        exponent_mark(s) == s.len(),
    decreases s.len(),
{
    if s.len() > 0 {
        lemma_no_mark(s.drop_first());
    }
}

proof fn lemma_million()
    ensures
        pow10(6) == 1_000_000,
{
    reveal_with_fuel(pow10, 7);
}

/// The digits of a duration: all of them behind one another.
proof fn lemma_duration_digits(a: nat)
    ensures
        ({
            let w = dec(a / 1_000_000);
            let f = padded(a % 1_000_000, 6);
            &&& all_digits(w) && w.len() > 0
            &&& all_digits(f) && f.len() == 6
            &&& all_digits(w + f)
            &&& dec_value(w + f) == a
        }),
{
    let w = dec(a / 1_000_000);
    let f = padded(a % 1_000_000, 6);
    lemma_million();
    lemma_dec(a / 1_000_000);
    lemma_dec(a % 1_000_000);
    lemma_padded(a % 1_000_000, 6);
    lemma_dec_len(a % 1_000_000, 6);
    assert(f[0] != '+') by {
        assert(is_digit(f[0]));
    }
    assert(f.len() == 6);
    assert(dec_value(f) == a % 1_000_000);
    lemma_dec_value_parts(w, f);
    assert forall|i: int| 0 <= i < (w + f).len() implies is_digit((w + f)[i]) by {
        if i < w.len() {
            assert(is_digit(w[i]));
        } else {
            assert(is_digit(f[i - w.len()]));
        }
    }
}

proof fn lemma_unsigned_duration(a: nat, negative: bool)
    ensures
        unsigned_numeral(
            dec(a / 1_000_000) + seq!['.'] + padded(a % 1_000_000, 6),
            negative,
        ) == Some(
            Numeral::Finite(negative, dec(a / 1_000_000) + padded(a % 1_000_000, 6), -6),
        ),
{
    let w = dec(a / 1_000_000);
    let f = padded(a % 1_000_000, 6);
    let t = w + seq!['.'] + f;
    lemma_duration_digits(a);
    assert forall|j: int| 0 <= j < t.len() implies t[j] != 'e' && t[j] != 'E' by {
        if j < w.len() {
            assert(is_digit(w[j]));
        } else if j > w.len() {
            assert(is_digit(f[j - w.len() - 1]));
        }
    }
    lemma_no_mark(t);
    assert(t.take(t.len() as int) =~= t);
    assert forall|j: int| 0 <= j < w.len() implies t[j] != '.' by {
        assert(is_digit(w[j]));
    }
    lemma_index_of(t, '.', w.len() as int);
    assert(t.take(w.len() as int) =~= w);
    assert(t.skip(w.len() as int + 1) =~= f);
    reveal_strlit("inf");
    reveal_strlit("infinity");
    reveal_strlit("nan");
    assert(is_digit(w[0]));
    assert(ascii_lower(t)[0] == t[0]);
}

/// A duration reads back as it was written.
proof fn lemma_duration_reads_back(m: i64)
    requires
        m > i64::MIN,
    ensures
        rounded(micros_text(m as int), 1_000_000) == Some(m),
{
    let a: nat = if m < 0 {
        (-m) as nat
    } else {
        m as nat
    };
    let w = dec(a / 1_000_000);
    let f = padded(a % 1_000_000, 6);
    let t = w + seq!['.'] + f;
    let s = micros_text(m as int);
    lemma_duration_digits(a);
    lemma_unsigned_duration(a, m < 0);
    if m < 0 {
        assert(s.drop_first() =~= t);
        assert(s[0] == '-');
    } else {
        assert(s =~= t);
        assert(is_digit(w[0]));
        assert(s[0] == w[0]);
    }
    assert(numeral(s) == Some(Numeral::Finite(m < 0, w + f, -6)));
    lemma_million();
    assert(magnitude(w + f, -6, 2_000_000) == 2 * a) by {
        assert((a * 2_000_000) / 1_000_000 == 2 * a);
    }
    assert(times(Numeral::Finite(false, w + f, -6), 2_000_000) == 2 * a);
}

// --------------------------------------------------------------------- lines
/// A line as it can stand in a playlist.
spec fn is_line(l: Seq<char>) -> bool {
    &&& forall|j: int| 0 <= j < l.len() ==> l[j] != '\n'
    &&& drop_white(l) == l
}

proof fn lemma_drop_white(s: Seq<char>)
    ensures
        drop_white(drop_white(s)) == drop_white(s),
        drop_white(s).len() <= s.len(),
        forall|j: int| 0 <= j < drop_white(s).len() ==> drop_white(s)[j] == s[j],
    decreases s.len(),
{
    if s.len() > 0 && is_white(s.last()) {
        let t = s.drop_last();
        lemma_drop_white(t);
        assert forall|j: int| 0 <= j < drop_white(s).len() implies drop_white(s)[j] == s[j] by {
            assert(drop_white(t)[j] == t[j]);
        }
    }
}

proof fn lemma_drop_white_fixed(s: Seq<char>)
    requires
        drop_white(s) == s,
    ensures
        s.len() > 0 ==> !is_white(s.last()),
{
    if s.len() > 0 && is_white(s.last()) {
        lemma_drop_white(s.drop_last());
    }
}

/// Lines hold no line feed.
proof fn lemma_lines_hold_no_feed(s: Seq<char>)
    ensures
        forall|i: int, j: int|
            0 <= i < lines(s).len() && 0 <= j < #[trigger] lines(s)[i].len()
                ==> #[trigger] lines(s)[i][j] != '\n',
    decreases s.len(),
{
    lemma_index_of_bounds(s, '\n');
    let k = index_of(s, '\n');
    if s.len() > 0 {
        if k < s.len() {
            let rest = lines(s.skip(k + 1));
            lemma_lines_hold_no_feed(s.skip(k + 1));
            assert forall|i: int, j: int|
                0 <= i < lines(s).len() && 0 <= j < #[trigger] lines(s)[i].len() implies
                #[trigger] lines(s)[i][j] != '\n' by {
                if i == 0 {
                    assert(lines(s)[0] == strip_cr(s.take(k)));
                } else {
                    assert(lines(s)[i] == rest[i - 1]);
                }
            }
        } else {
            assert(lines(s) == seq![s]);
        }
    }
}

/// A line behind other lines is a line more.
proof fn lemma_one_line_more(t: Seq<char>, l: Seq<char>)
    requires
        t.len() == 0 || t.last() == '\n',
        is_line(l),
    ensures
        lines(t + l + seq!['\n']) == lines(t).push(l),
    decreases t.len(),
{
    let s = t + l + seq!['\n'];
    lemma_drop_white_fixed(l);
    if t.len() == 0 {
        assert forall|j: int| 0 <= j < l.len() implies s[j] != '\n' by {
            assert(s[j] == l[j]);
        }
        lemma_index_of(s, '\n', l.len() as int);
        assert(s.take(l.len() as int) =~= l);
        assert(s.skip(l.len() as int + 1) =~= Seq::<char>::empty());
        assert(strip_cr(l) == l);
        assert(lines(Seq::<char>::empty()) =~= Seq::<Seq<char>>::empty());
        assert(lines(t) =~= Seq::<Seq<char>>::empty());
        assert(lines(s) =~= lines(t).push(l));
    } else {
        let k = index_of(t, '\n');
        lemma_index_of_bounds(t, '\n');
        assert(t[t.len() - 1] == '\n');
        assert(k < t.len());
        assert forall|j: int| 0 <= j < k implies s[j] != '\n' by {
            assert(s[j] == t[j]);
        }
        assert(s[k] == t[k]);
        lemma_index_of(s, '\n', k);
        let u = t.skip(k + 1);
        assert(u.len() > 0 ==> u.last() == t.last());
        lemma_one_line_more(u, l);
        assert(s.skip(k + 1) =~= u + l + seq!['\n']);
        assert(s.take(k) =~= t.take(k));
        assert(lines(s) =~= lines(t).push(l));
    }
}

// ------------------------------------------------------------------- reading
/// A segment that can be listed and read back.
spec fn is_entry(e: (i64, Seq<char>)) -> bool {
    &&& e.0 > i64::MIN
    &&& is_line(e.1)
    &&& e.1.len() > 0
    &&& e.1[0] != '#'
}

/// What is read of a playlist can be listed again.
proof fn lemma_reading(ls: Seq<Seq<char>>)
    requires
        forall|i: int, j: int|
            0 <= i < ls.len() && 0 <= j < #[trigger] ls[i].len() ==> #[trigger] ls[i][j] != '\n',
    ensures
        ({
            let r = reading(ls);
            &&& forall|i: int| 0 <= i < r.entries.len() ==> is_entry(#[trigger] r.entries[i])
            &&& forall|i: int|
                0 <= i < r.headers.len() ==> is_line(#[trigger] r.headers[i]) && r.headers[i]
                    != "#EXT-X-ENDLIST"@ && !starts_with(r.headers[i], "#EXTINF:"@)
            &&& r.pending is Some ==> r.pending->0 > i64::MIN && r.header_done
        }),
    decreases ls.len(),
{
    if ls.len() > 0 {
        let before = ls.drop_last();
        assert forall|i: int, j: int|
            0 <= i < before.len() && 0 <= j < #[trigger] before[i].len() implies
            #[trigger] before[i][j] != '\n' by {
            assert(before[i] == ls[i]);
        }
        lemma_reading(before);
        let r0 = reading(before);
        let r = reading(ls);
        let l = drop_white(ls.last());
        lemma_drop_white(ls.last());
        assert(is_line(l)) by {
            let n = ls.len() - 1;
            assert forall|j: int| 0 <= j < l.len() implies l[j] != '\n' by {
                assert(ls[n][j] != '\n');
            }
        }
        assert(r == read_line(r0, ls.last()));
        assert forall|i: int| 0 <= i < r.entries.len() implies is_entry(#[trigger] r.entries[i]) by {
            if i < r0.entries.len() {
                assert(r.entries[i] == r0.entries[i]);
            }
        }
        assert forall|i: int| 0 <= i < r.headers.len() implies is_line(#[trigger] r.headers[i])
            && r.headers[i] != "#EXT-X-ENDLIST"@ && !starts_with(r.headers[i], "#EXTINF:"@) by {
            if i < r0.headers.len() {
                assert(r.headers[i] == r0.headers[i]);
            }
        }
    }
}

/// A header reads back.
proof fn lemma_headers_read_back(hs: Seq<Seq<char>>)
    requires
        forall|i: int|
            0 <= i < hs.len() ==> is_line(#[trigger] hs[i]) && hs[i] != "#EXT-X-ENDLIST"@
                && !starts_with(hs[i], "#EXTINF:"@),
    ensures
        ({
            let t = header_text(hs);
            &&& t.len() == 0 || t.last() == '\n'
            &&& reading(lines(t)) == (Reading {
                headers: hs,
                entries: Seq::empty(),
                endlist: false,
                pending: None,
                header_done: false,
            })
        }),
    decreases hs.len(),
{
    let t = header_text(hs);
    if hs.len() == 0 {
        assert(lines(t) =~= Seq::<Seq<char>>::empty());
        assert(hs =~= Seq::<Seq<char>>::empty());
    } else {
        let before = hs.drop_last();
        let h = hs.last();
        assert forall|i: int| 0 <= i < before.len() implies is_line(#[trigger] before[i])
            && before[i] != "#EXT-X-ENDLIST"@ && !starts_with(before[i], "#EXTINF:"@) by {
            assert(before[i] == hs[i]);
        }
        lemma_headers_read_back(before);
        assert(is_line(hs[hs.len() - 1]));
        lemma_one_line_more(header_text(before), h);
        assert(lines(t).drop_last() =~= lines(header_text(before)));
        assert(before.push(h) =~= hs);
    }
}

/// The line that gives the duration of a segment.
spec fn duration_line(micros: i64) -> Seq<char> {
    "#EXTINF:"@ + micros_text(micros as int) + seq![',']
}

proof fn lemma_duration_text(micros: i64)
    ensures
        forall|j: int|
            #![trigger micros_text(micros as int)[j]]
            0 <= j < micros_text(micros as int).len() ==> micros_text(micros as int)[j] != '\n'
                && micros_text(micros as int)[j] != ',',
{
    let a: nat = if micros < 0 {
        (-micros) as nat
    } else {
        micros as nat
    };
    let w = dec(a / 1_000_000);
    let f = padded(a % 1_000_000, 6);
    let sign = if micros < 0 {
        seq!['-']
    } else {
        Seq::empty()
    };
    let d = micros_text(micros as int);
    lemma_duration_digits(a);
    assert(d =~= sign + w + seq!['.'] + f);
    assert forall|j: int| #![trigger d[j]] 0 <= j < d.len() implies d[j] != '\n' && d[j] != ',' by {
        if j < sign.len() {
        } else if j < sign.len() + w.len() {
            assert(is_digit(w[j - sign.len()]));
        } else if j > sign.len() + w.len() {
            assert(is_digit(f[j - sign.len() - w.len() - 1]));
        }
    }
}

proof fn lemma_duration_line(micros: i64)
    requires
        micros > i64::MIN,
    ensures
        is_line(duration_line(micros)),
        starts_with(duration_line(micros), "#EXTINF:"@),
        duration_line(micros) != "#EXT-X-ENDLIST"@,
        extinf(duration_line(micros)) == Some(micros),
{
    let d = micros_text(micros as int);
    let l = duration_line(micros);
    reveal_strlit("#EXTINF:");
    reveal_strlit("#EXT-X-ENDLIST");
    lemma_duration_text(micros);
    assert(l.last() == ',');
    assert forall|j: int| 0 <= j < l.len() implies l[j] != '\n' by {
        if 8 <= j < 8 + d.len() {
            assert(l[j] == d[j - 8]);
        }
    }
    assert(l.subrange(0, 8) =~= "#EXTINF:"@);
    assert(l[4] == 'I');
    assert("#EXT-X-ENDLIST"@[4] == '-');
    let rest = l.skip(8);
    assert(rest =~= d + seq![',']);
    assert forall|j: int| 0 <= j < d.len() implies rest[j] != ',' by {
        assert(rest[j] == d[j]);
    }
    lemma_index_of(rest, ',', d.len() as int);
    assert(rest.take(d.len() as int) =~= d);
    lemma_duration_reads_back(micros);
}

/// A segment that is listed behind others is read behind them.
proof fn lemma_segment_reads_back(t: Seq<char>, e: (i64, Seq<char>))
    requires
        t.len() == 0 || t.last() == '\n',
        reading(lines(t)).pending is None,
        is_entry(e),
    ensures
        ({
            let s = t + segment_text(e.0 as int, e.1);
            &&& s.last() == '\n'
            &&& reading(lines(s)) == (Reading {
                entries: reading(lines(t)).entries.push(e),
                header_done: true,
                pending: None,
                ..reading(lines(t))
            })
        }),
{
    let l = duration_line(e.0);
    let t1 = t + l + seq!['\n'];
    let t2 = t1 + e.1 + seq!['\n'];
    lemma_duration_line(e.0);
    lemma_one_line_more(t, l);
    lemma_one_line_more(t1, e.1);
    let r = reading(lines(t));
    assert(lines(t1).drop_last() =~= lines(t));
    assert(lines(t2).drop_last() =~= lines(t1));
    let r1 = Reading { header_done: true, pending: Some(e.0), ..r };
    assert(reading(lines(t1)) == read_line(r, l));
    assert(read_line(r, l) == r1);
    assert(reading(lines(t2)) == read_line(r1, e.1));
    assert(e.1 != "#EXT-X-ENDLIST"@) by {
        reveal_strlit("#EXT-X-ENDLIST");
    }
    assert(!starts_with(e.1, "#EXTINF:"@)) by {
        reveal_strlit("#EXTINF:");
        if starts_with(e.1, "#EXTINF:"@) {
            assert(e.1.subrange(0, 8)[0] == "#EXTINF:"@[0]);
        }
    }
    assert(read_line(r1, e.1) == (Reading {
        entries: r.entries.push(e),
        header_done: true,
        pending: None,
        ..r
    }));
    assert(t2 =~= t + segment_text(e.0 as int, e.1)) by {
        reveal_strlit(",\n");
    }
}

/// Segments that are listed behind a header are read behind it.
proof fn lemma_entries_read_back(t: Seq<char>, es: Seq<(i64, Seq<char>)>)
    requires
        t.len() == 0 || t.last() == '\n',
        reading(lines(t)).pending is None,
        forall|i: int| 0 <= i < es.len() ==> is_entry(#[trigger] es[i]),
    ensures
        ({
            let s = t + entries_text(es);
            let r = reading(lines(t));
            &&& s.len() == 0 || s.last() == '\n'
            &&& reading(lines(s)) == (Reading {
                entries: r.entries + es,
                header_done: r.header_done || es.len() > 0,
                ..r
            })
        }),
    decreases es.len(),
{
    let r = reading(lines(t));
    if es.len() == 0 {
        assert(t + entries_text(es) =~= t);
        assert(r.entries + es =~= r.entries);
    } else {
        let before = es.drop_last();
        assert forall|i: int| 0 <= i < before.len() implies is_entry(#[trigger] before[i]) by {
            assert(before[i] == es[i]);
        }
        lemma_entries_read_back(t, before);
        assert(is_entry(es[es.len() - 1]));
        lemma_segment_reads_back(t + entries_text(before), es.last());
        assert(t + entries_text(before) + segment_text(es.last().0 as int, es.last().1) =~= t
            + entries_text(es));
        assert((r.entries + before).push(es.last()) =~= r.entries + es);
    }
}

/// The segments to come, from one number to before another.
pub open spec fn segments_to_come(from: int, to: int, micros: i64) -> Seq<(i64, Seq<char>)> {
    Seq::new(
        if to > from {
            (to - from) as nat
        } else {
            0
        },
        |i: int| (micros, segment_name((from + i) as nat)),
    )
}

proof fn lemma_padding_is_listing(from: int, to: int, micros: i64)
    requires
        from <= to,
    ensures
        padding_text(from, to, micros as int) == entries_text(segments_to_come(from, to, micros)),
    decreases to - from,
{
    let es = segments_to_come(from, to, micros);
    if from < to {
        lemma_padding_is_listing(from, to - 1, micros);
        assert(es.drop_last() =~= segments_to_come(from, to - 1, micros));
    }
}

proof fn lemma_segment_name(i: nat, micros: i64)
    requires
        micros > i64::MIN,
    ensures
        is_entry((micros, segment_name(i))),
{
    let n = segment_name(i);
    let p = padded(i, 5);
    reveal_strlit("seg_");
    reveal_strlit(".ts");
    lemma_padded(i, 5);
    assert(n.last() == 's');
    assert forall|j: int| 0 <= j < n.len() implies n[j] != '\n' by {
        if 4 <= j < 4 + p.len() {
            assert(is_digit(p[j - 4]));
        }
    }
}

proof fn lemma_total_bound(es: Seq<(i64, Seq<char>)>)
    ensures
        total_micros(es) <= i64::MAX * es.len(),
    decreases es.len(),
{
    if es.len() > 0 {
        lemma_total_bound(es.drop_last());
    }
}

/// The duration that segments to come are given fits in 64 bits.
proof fn lemma_expected_fits(es: Seq<(i64, Seq<char>)>, default_millis: int)
    requires
        default_millis <= MAX_REMAINING,
    ensures
        1_000_000 <= expected_micros(es, default_millis) <= i64::MAX,
{
    if es.len() > 0 && is_long(es) {
        lemma_total_bound(es);
        let n = es.len() as int;
        let t = total_micros(es);
        let e = (2 * t + n) / (2 * n);
        vstd::arithmetic::div_mod::lemma_fundamental_div_mod(2 * t + n, 2 * n);
        vstd::arithmetic::div_mod::lemma_mod_bound(2 * t + n, 2 * n);
        let m = (2 * t + n) % (2 * n);
        assert(1_000_000 <= e <= i64::MAX) by (nonlinear_arith)
            requires
                2 * t + n == (2 * n) * e + m,
                0 <= m < 2 * n,
                n * 1_000_000 <= t <= 0x7fff_ffff_ffff_ffff * n,
                n > 0,
        ;
    }
}

// ---------------------------------------------------------------------- laws
/// The segments that a padded playlist lists: those that have been written, then those to come.
pub open spec fn listed(
    entries: Seq<(i64, Seq<char>)>,
    remaining_millis: int,
    default_millis: int,
) -> Seq<(i64, Seq<char>)> {
    entries + segments_to_come(
        entries.len() as int,
        predicted(entries, remaining_millis, default_millis),
        expected_micros(entries, default_millis) as i64,
    )
}

/// A playlist that has not ended is padded into one that a receiver reads as ended: with the same
/// header, every segment that has been written, and behind them the segments to come.
pub proof fn a_padded_playlist_reads_back(
    body: Seq<char>,
    remaining_millis: int,
    default_millis: int,
)
    requires
        !reading(lines(body)).endlist,
        default_millis <= MAX_REMAINING,
    ensures
        ({
            let written = reading(lines(body));
            let read = reading(lines(padded_manifest(body, remaining_millis, default_millis)));
            &&& read.endlist
            &&& read.headers == written.headers
            &&& read.entries == listed(written.entries, remaining_millis, default_millis)
        }),
{
    let w = reading(lines(body));
    let n = w.entries.len() as int;
    let total = predicted(w.entries, remaining_millis, default_millis);
    lemma_expected_fits(w.entries, default_millis);
    let micros = expected_micros(w.entries, default_millis) as i64;
    let more = segments_to_come(n, total, micros);
    lemma_lines_hold_no_feed(body);
    lemma_reading(lines(body));
    lemma_headers_read_back(w.headers);
    let h = header_text(w.headers);
    lemma_entries_read_back(h, w.entries);
    let a = h + entries_text(w.entries);
    assert forall|i: int| 0 <= i < more.len() implies is_entry(#[trigger] more[i]) by {
        lemma_segment_name((n + i) as nat, micros);
    }
    lemma_entries_read_back(a, more);
    lemma_padding_is_listing(n, total, micros);
    let b = a + entries_text(more);
    let e = "#EXT-X-ENDLIST"@;
    reveal_strlit("#EXT-X-ENDLIST");
    reveal_strlit("#EXT-X-ENDLIST\n");
    assert(is_line(e)) by {
        assert(e.last() == 'T');
    }
    lemma_one_line_more(b, e);
    assert(b + e + seq!['\n'] =~= padded_manifest(body, remaining_millis, default_millis));
    let p = padded_manifest(body, remaining_millis, default_millis);
    assert(lines(p).drop_last() =~= lines(b));
    assert(Seq::<(i64, Seq<char>)>::empty() + w.entries =~= w.entries);
}

proof fn lemma_total_with_more(
    es: Seq<(i64, Seq<char>)>,
    from: int,
    to: int,
    micros: i64,
)
    requires
        from <= to,
    ensures
        total_micros(es + segments_to_come(from, to, micros)) == total_micros(es) + (to - from)
            * micros,
    decreases to - from,
{
    let all = es + segments_to_come(from, to, micros);
    if from == to {
        assert(all =~= es);
    } else {
        lemma_total_with_more(es, from, to - 1, micros);
        assert(all.drop_last() =~= es + segments_to_come(from, to - 1, micros));
        assert(all.last().0 == micros);
        assert((to - from) * micros == (to - 1 - from) * micros + micros) by (nonlinear_arith);
    }
}

/// A padded playlist lists at least one segment more than have been written, and lasts as long as
/// what remains and four seconds over, to within half a microsecond for each segment to come, by
/// which their duration is rounded. Segments that last less than a second are left out: they do
/// not bring down the count.
pub proof fn padding_never_falls_short(
    entries: Seq<(i64, Seq<char>)>,
    remaining_millis: int,
    default_millis: int,
)
    requires
        entries.len() == 0 || is_long(entries),
        default_millis <= MAX_REMAINING,
    ensures
        ({
            let all = listed(entries, remaining_millis, default_millis);
            let more = all.len() - entries.len();
            &&& more >= 1
            &&& 2 * total_micros(all) + more >= 2 * (remaining_millis * 1000) + 4_000_000
        }),
{
    let p = predicted(entries, remaining_millis, default_millis);
    let n = entries.len() as int;
    let t = total_micros(entries);
    let e = expected_micros(entries, default_millis);
    let r = if remaining_millis < 0 {
        0
    } else {
        remaining_millis * 1000
    };
    lemma_expected_fits(entries, default_millis);
    lemma_total_with_more(entries, n, p, e as i64);
    let all = listed(entries, remaining_millis, default_millis);
    assert(all.len() == p);
    let sum = t + (p - n) * e;
    assert(total_micros(all) == sum);
    let c = needed(entries, remaining_millis, default_millis);
    if n == 0 {
        assert(t == 0);
        vstd::arithmetic::div_mod::lemma_fundamental_div_mod(r + e - 1, e);
        vstd::arithmetic::div_mod::lemma_mod_bound(r + e - 1, e);
        let m = (r + e - 1) % e;
        assert(p * e >= r + 2 * e) by (nonlinear_arith)
            requires
                r + e - 1 == e * c + m,
                0 <= m < e,
                p >= c + 2,
                e > 0,
        ;
    } else {
        vstd::arithmetic::div_mod::lemma_fundamental_div_mod(r * n + t - 1, t);
        vstd::arithmetic::div_mod::lemma_mod_bound(r * n + t - 1, t);
        let m = (r * n + t - 1) % t;
        assert(p * t >= r * n + 2 * t) by (nonlinear_arith)
            requires
                r * n + t - 1 == t * c + m,
                0 <= m < t,
                p >= c + 2,
                t > 0,
        ;
        vstd::arithmetic::div_mod::lemma_fundamental_div_mod(2 * t + n, 2 * n);
        vstd::arithmetic::div_mod::lemma_mod_bound(2 * t + n, 2 * n);
        let k = (2 * t + n) % (2 * n);
        assert(2 * n * e >= 2 * t - n);
        let q = p - n;
        assert(q * (2 * n * e) >= q * (2 * t - n)) by (nonlinear_arith)
            requires
                2 * n * e >= 2 * t - n,
                q >= 0,
        ;
        assert(n * (2 * sum + q) == 2 * n * t + q * (2 * n * e) + n * q) by (nonlinear_arith)
            requires
                sum == t + q * e,
        ;
        assert(2 * n * t + q * (2 * t - n) + n * q == 2 * (p * t)) by (nonlinear_arith)
            requires
                q == p - n,
        ;
        assert(n * (2 * sum + q) >= 2 * (r * n) + 4 * t);
        assert(2 * sum + q >= 2 * r + 4_000_000) by (nonlinear_arith)
            requires
                n * (2 * sum + q) >= 2 * (r * n) + 4 * t,
                t >= n * 1_000_000,
                n > 0,
        ;
    }
}

/// The segments that a padded playlist names before they are there are named as ffmpeg will name
/// them: after the pattern that it is given.
pub proof fn names_follow_the_pattern(i: nat)
    ensures
        named_after(segment_pattern(), i) == segment_name(i),
{
    let s = segment_pattern();
    let p = "%05d"@;
    reveal_strlit("seg_%05d.ts");
    reveal_strlit("%05d");
    reveal_strlit("seg_");
    reveal_strlit(".ts");
    lemma_find_from(s, p, 0);
    assert(s.subrange(4, 8) =~= p);
    assert(matches_at(s, p, 4));
    assert forall|j: int| 0 <= j < 4 implies !matches_at(s, p, j) by {
        if matches_at(s, p, j) {
            assert(s.subrange(j, j + 4)[0] == s[j]);
        }
    }
    assert(find(s, p) == Some(4int));
    assert(s.take(4) =~= "seg_"@);
    assert(s.skip(8) =~= ".ts"@);
}

proof fn lemma_headers_end_a_line(hs: Seq<Seq<char>>)
    ensures
        header_text(hs).len() == 0 || header_text(hs).last() == '\n',
{
}

proof fn lemma_entries_end_a_line(es: Seq<(i64, Seq<char>)>)
    ensures
        entries_text(es).len() == 0 || entries_text(es).last() == '\n',
{
}

proof fn lemma_padding_ends_a_line(from: int, to: int, micros: int)
    ensures
        padding_text(from, to, micros).len() == 0 || padding_text(from, to, micros).last() == '\n',
{
}

/// A playlist that has not ended is padded into one that has, whatever the figures are.
proof fn lemma_padded_ends(body: Seq<char>, remaining_millis: int, default_millis: int)
    requires
        !reading(lines(body)).endlist,
    ensures
        reading(lines(padded_manifest(body, remaining_millis, default_millis))).endlist,
{
    let w = reading(lines(body));
    let n = w.entries.len() as int;
    let total = predicted(w.entries, remaining_millis, default_millis);
    let micros = expected_micros(w.entries, default_millis);
    let h = header_text(w.headers);
    let a = entries_text(w.entries);
    let p = padding_text(n, total, micros);
    lemma_headers_end_a_line(w.headers);
    lemma_entries_end_a_line(w.entries);
    lemma_padding_ends_a_line(n, total, micros);
    let b = h + a + p;
    assert(b.len() == 0 || b.last() == '\n') by {
        if p.len() > 0 {
            assert(b.last() == p.last());
        } else if a.len() > 0 {
            assert(b.last() == a.last());
        } else if h.len() > 0 {
            assert(b.last() == h.last());
        }
    }
    let e = "#EXT-X-ENDLIST"@;
    reveal_strlit("#EXT-X-ENDLIST");
    reveal_strlit("#EXT-X-ENDLIST\n");
    assert(is_line(e)) by {
        assert(e.last() == 'T');
    }
    lemma_one_line_more(b, e);
    let m = padded_manifest(body, remaining_millis, default_millis);
    assert(b + e + seq!['\n'] =~= m);
    assert(lines(m).last() == e);
}

/// A playlist that has been padded, or had ended before, is left as it is when it is padded again,
/// whatever remains then.
pub proof fn padding_again_changes_nothing(
    body: Seq<char>,
    remaining_millis: int,
    default_millis: int,
    remaining_again: int,
    default_again: int,
)
    ensures
        ({
            let padded = padded_manifest(body, remaining_millis, default_millis);
            padded_manifest(padded, remaining_again, default_again) == padded
        }),
{
    if !reading(lines(body)).endlist {
        lemma_padded_ends(body, remaining_millis, default_millis);
    }
}

/// A playlist that has ended is passed on as it is.
pub proof fn an_ended_playlist_is_left_alone(
    body: Seq<char>,
    remaining_millis: int,
    default_millis: int,
)
    requires
        reading(lines(body)).endlist,
    ensures
        padded_manifest(body, remaining_millis, default_millis) == body,
{
}

/// A padded playlist does not run on: it lists two segments more than cover what remains at the
/// average of those that are there, and one more than are there where that is more.
pub proof fn padding_stays_close(
    entries: Seq<(i64, Seq<char>)>,
    remaining_millis: int,
    default_millis: int,
)
    ensures
        ({
            let p = predicted(entries, remaining_millis, default_millis);
            let n = entries.len();
            let t = total_micros(entries);
            let r = if remaining_millis < 0 {
                0
            } else {
                remaining_millis * 1000
            };
            let e = if n == 0 && default_millis > 1000 {
                default_millis * 1000
            } else {
                1_000_000
            };
            let long = n > 0 && t >= n * 1_000_000;
            &&& p >= n + 1
            &&& long && p > n + 1 ==> (p - 3) * t < r * n <= (p - 2) * t
            &&& long && p == n + 1 ==> r * n <= (p - 2) * t
            &&& !long && p > n + 1 ==> (p - 3) * e < r <= (p - 2) * e
            &&& !long && p == n + 1 ==> r <= (p - 2) * e
        }),
{
    let p = predicted(entries, remaining_millis, default_millis);
    let c = needed(entries, remaining_millis, default_millis);
    let n = entries.len() as int;
    let t = total_micros(entries);
    let r = if remaining_millis < 0 {
        0
    } else {
        remaining_millis * 1000
    };
    if n > 0 && t >= n * 1_000_000 {
        lemma_rounded_up(r * n, t);
        assert(c == ceil_div(r * n, t));
        lemma_more_covers(c, p - 2, t);
    } else {
        let e = expected_micros(entries, default_millis);
        lemma_rounded_up(r, e);
        lemma_more_covers(c, p - 2, e);
    }
}

proof fn lemma_rounded_up(a: int, b: int)
    requires
        b > 0,
    ensures
        (ceil_div(a, b) - 1) * b < a <= ceil_div(a, b) * b,
{
    vstd::arithmetic::div_mod::lemma_fundamental_div_mod(a + b - 1, b);
    vstd::arithmetic::div_mod::lemma_mod_bound(a + b - 1, b);
    let c = ceil_div(a, b);
    let m = (a + b - 1) % b;
    assert((c - 1) * b < a <= c * b) by (nonlinear_arith)
        requires
            a + b - 1 == b * c + m,
            0 <= m < b,
    ;
}

proof fn lemma_more_covers(c: int, d: int, b: int)
    requires
        c <= d,
        b > 0,
    ensures
        c * b <= d * b,
{
    assert(c * b <= d * b) by (nonlinear_arith)
        requires
            c <= d,
            b > 0,
    ;
}

/// A segment to come is given the average of those that are there, to within half a microsecond,
/// and where none is there the length that segments are cut to; a second at least.
pub proof fn segments_to_come_are_average(entries: Seq<(i64, Seq<char>)>, default_millis: int)
    ensures
        ({
            let e = expected_micros(entries, default_millis);
            let n = entries.len() as int;
            let t = total_micros(entries);
            &&& n == 0 && default_millis >= 1000 ==> e == default_millis * 1000
            &&& n == 0 && default_millis < 1000 ==> e == 1_000_000
            &&& n > 0 && t >= n * 1_000_000 ==> 2 * t - n < 2 * n * e <= 2 * t + n
            &&& n > 0 && t < n * 1_000_000 ==> e == 1_000_000
        }),
{
    let n = entries.len() as int;
    let t = total_micros(entries);
    if n > 0 && t >= n * 1_000_000 {
        vstd::arithmetic::div_mod::lemma_fundamental_div_mod(2 * t + n, 2 * n);
        vstd::arithmetic::div_mod::lemma_mod_bound(2 * t + n, 2 * n);
    }
}

/// A segment is listed by its duration and, on a line of its own, by its name.
pub proof fn segments_are_listed_by_duration_and_name(micros: int, name: Seq<char>)
    ensures
        segment_text(micros, name) == "#EXTINF:"@ + micros_text(micros) + seq![',', '\n'] + name
            + seq!['\n'],
{
    reveal_strlit(",\n");
    assert(",\n"@ =~= seq![',', '\n']);
}

} // verus!
