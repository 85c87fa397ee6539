//! SubRip subtitles: their timestamps, and moving them so that they fit a stream that begins
//! part of the way in.
use vstd::prelude::*;

use crate::text::{
    all_digits, chars_of, dec, drop_white, find, find_char, find_chars, find_from, index_of,
    is_digit, is_white, lemma_find_from, lemma_index_of, lemma_padded, lines, matches_at, padded,
    parse_up_to, pieces, push_dec, push_padded, read_number, read_u32, skip_white, slice_copy,
    split_lines, string_of, trim, trim_chars,
};
use crate::time::Millis;

verus! {

// ---------------------------------------------------------------- timestamps
/// `HH:MM:SS,mmm` in milliseconds: four unsigned numbers, the third up to the first comma behind
/// the second colon.
pub open spec fn timestamp(s: Seq<char>) -> Option<nat> {
    let a = index_of(s, ':');
    let t = s.skip(a + 1);
    let b = index_of(t, ':');
    let u = t.skip(b + 1);
    let c = index_of(u, ',');
    if a < s.len() && b < t.len() && c < u.len() {
        match (
            parse_up_to(s.take(a), u64::MAX as nat),
            parse_up_to(t.take(b), u64::MAX as nat),
            parse_up_to(u.take(c), u64::MAX as nat),
            parse_up_to(u.skip(c + 1), u64::MAX as nat),
        ) {
            (Some(h), Some(m), Some(sec), Some(ms)) => Some(
                h * 3_600_000 + m * 60_000 + sec * 1000 + ms,
            ),
            _ => None,
        }
    } else {
        None
    }
}

fn read_timestamp(s: &[char]) -> (r: Option<u128>)
    ensures
        match r {
            Some(t) => timestamp(s@) == Some(t as nat) && t <= 0x1_0000_0000_0000_0000 * 0x40_0000,
            None => timestamp(s@) is None,
        },
{
    let n: usize = s.len();
    assert(s@.skip(0) =~= s@);
    let a = find_char(s, ':', 0);
    if a == n {
        return None;
    }
    let ghost t = s@.skip(a + 1);
    let b = find_char(s, ':', a + 1);
    if b == n {
        assert(index_of(t, ':') == t.len());
        return None;
    }
    let ghost u = t.skip(b - a);
    assert(u =~= s@.skip(b + 1));
    let c = find_char(s, ',', b + 1);
    if c == n {
        assert(index_of(u, ',') == u.len());
        return None;
    }
    let hs = slice_copy(s, 0, a);
    let ms = slice_copy(s, a + 1, b);
    let ss = slice_copy(s, b + 1, c);
    let fs = slice_copy(s, c + 1, n);
    assert(hs@ =~= s@.take(a as int));
    assert(ms@ =~= t.take(b - a - 1));
    assert(ss@ =~= u.take(c - b - 1));
    assert(fs@ =~= u.skip(c - b));
    match (
        read_number(&hs, u64::MAX),
        read_number(&ms, u64::MAX),
        read_number(&ss, u64::MAX),
        read_number(&fs, u64::MAX),
    ) {
        (Some(h), Some(m), Some(sec), Some(milli)) => Some(
            h as u128 * 3_600_000 + m as u128 * 60_000 + sec as u128 * 1000 + milli as u128,
        ),
        _ => None,
    }
}

/// Reads `HH:MM:SS,mmm` as milliseconds.
pub fn parse_srt_timestamp(s: &str) -> (r: Option<u128>)
    ensures
        match r {
            Some(t) => timestamp(s@) == Some(t as nat),
            None => timestamp(s@) is None,
        },
{
    let v = chars_of(s);
    read_timestamp(&v)
}

/// What stands between two timestamps.
pub open spec fn arrow() -> Seq<char> {
    " --> "@
}

/// The two timestamps of a line that has exactly one arrow.
pub open spec fn timestamp_line(s: Seq<char>) -> Option<(nat, nat)> {
    match find(s, arrow()) {
        Some(k) => {
            let rest = s.skip(k + 5);
            if find(rest, arrow()) is Some {
                None
            } else {
                match (timestamp(trim(s.take(k))), timestamp(trim(rest))) {
                    (Some(a), Some(b)) => Some((a, b)),
                    _ => None,
                }
            }
        },
        None => None,
    }
}

fn read_timestamp_line(s: &[char]) -> (r: Option<(u128, u128)>)
    ensures
        match r {
            Some((a, b)) => timestamp_line(s@) == Some((a as nat, b as nat)) && a
                <= 0x1_0000_0000_0000_0000 * 0x40_0000 && b <= 0x1_0000_0000_0000_0000 * 0x40_0000,
            None => timestamp_line(s@) is None,
        },
{
    let n: usize = s.len();
    let mark = chars_of(" --> ");
    proof {
        reveal_strlit(" --> ");
    }
    let k = match find_chars(s, &mark, 0) {
        Some(k) => k,
        None => {
            return None;
        },
    };
    let left = slice_copy(s, 0, k);
    let right = slice_copy(s, k + 5, n);
    assert(left@ =~= s@.take(k as int));
    assert(right@ =~= s@.skip(k + 5));
    if find_chars(&right, &mark, 0).is_some() {
        return None;
    }
    match (read_timestamp(&trim_chars(&left)), read_timestamp(&trim_chars(&right))) {
        (Some(a), Some(b)) => Some((a, b)),
        _ => None,
    }
}

/// Reads a line of two timestamps.
pub fn parse_srt_timestamp_line(line: &str) -> (r: Option<(u128, u128)>)
    ensures
        match r {
            Some((a, b)) => timestamp_line(line@) == Some((a as nat, b as nat)),
            None => timestamp_line(line@) is None,
        },
{
    let v = chars_of(line);
    read_timestamp_line(&v)
}

/// A time held within what is written: not below 0, and within 64 bits.
pub open spec fn writable(t: int) -> nat {
    if t < 0 {
        0
    } else if t > u64::MAX {
        u64::MAX as nat
    } else {
        t as nat
    }
}

/// Milliseconds as `HH:MM:SS,mmm`.
pub open spec fn timestamp_text(t: int) -> Seq<char> {
    let w = writable(t);
    padded(w / 3_600_000, 2) + seq![':'] + padded((w / 60_000) % 60, 2) + seq![':'] + padded(
        (w / 1000) % 60,
        2,
    ) + seq![','] + padded(w % 1000, 3)
}

/// Writes milliseconds as `HH:MM:SS,mmm`; a time before 0 as 0.
pub fn format_srt_timestamp(t: i128) -> (r: String)
    ensures
        r@ == timestamp_text(t as int),
{
    let total: u64 = if t < 0 {
        0
    } else if t > u64::MAX as i128 {
        u64::MAX
    } else {
        t as u64
    };
    let mut out = String::new();
    push_padded(&mut out, total / 3_600_000, 2);
    out.push(':');
    push_padded(&mut out, (total / 60_000) % 60, 2);
    out.push(':');
    push_padded(&mut out, (total / 1000) % 60, 2);
    out.push(',');
    push_padded(&mut out, total % 1000, 3);
    assert(out@ =~= timestamp_text(t as int));
    out
}

/// Writes a line of two timestamps.
pub fn format_srt_timestamp_line(start: i128, end: i128) -> (r: String)
    ensures
        r@ == timestamp_text(start as int) + arrow() + timestamp_text(end as int),
{
    let mut out = format_srt_timestamp(start);
    out.append(" --> ");
    out.append(format_srt_timestamp(end).as_str());
    out
}

/// Four runs of digits, put together as a timestamp is, come apart again.
proof fn lemma_parts(h: Seq<char>, m: Seq<char>, sec: Seq<char>, ms: Seq<char>, s: Seq<char>)
    requires
        all_digits(h),
        all_digits(m),
        all_digits(sec),
        s == h + seq![':'] + m + seq![':'] + sec + seq![','] + ms,
    ensures
        ({
            let a = index_of(s, ':');
            let t = s.skip(a + 1);
            let b = index_of(t, ':');
            let u = t.skip(b + 1);
            let c = index_of(u, ',');
            a < s.len() && b < t.len() && c < u.len() && s.take(a) == h && t.take(b) == m && u.take(
                c,
            ) == sec && u.skip(c + 1) == ms
        }),
{
    let a = h.len() as int;
    assert forall|j: int| 0 <= j < a implies s[j] != ':' by {
        assert(is_digit(h[j]));
        assert(s[j] == h[j]);
    }
    assert(s[a] == ':');
    lemma_index_of(s, ':', a);
    assert(s.take(a) =~= h);
    let t = s.skip(a + 1);
    assert(t =~= m + seq![':'] + sec + seq![','] + ms);
    let b = m.len() as int;
    assert forall|j: int| 0 <= j < b implies t[j] != ':' by {
        assert(is_digit(m[j]));
        assert(t[j] == m[j]);
    }
    assert(t[b] == ':');
    lemma_index_of(t, ':', b);
    assert(t.take(b) =~= m);
    let u = t.skip(b + 1);
    assert(u =~= sec + seq![','] + ms);
    let c = sec.len() as int;
    assert forall|j: int| 0 <= j < c implies u[j] != ',' by {
        assert(is_digit(sec[j]));
        assert(u[j] == sec[j]);
    }
    assert(u[c] == ',');
    lemma_index_of(u, ',', c);
    assert(u.take(c) =~= sec);
    assert(u.skip(c + 1) =~= ms);
}

proof fn lemma_clock(w: nat)
    ensures
        (w / 3_600_000) * 3_600_000 + ((w / 60_000) % 60) * 60_000 + ((w / 1000) % 60) * 1000 + w
            % 1000 == w,
{
    let q = w / 1000;
    let p = w / 60_000;
    assert(p == q / 60);
    assert(w / 3_600_000 == p / 60);
    assert(q == (q / 60) * 60 + q % 60);
    assert(p == (p / 60) * 60 + p % 60);
    assert(w == q * 1000 + w % 1000);
}

/// A time that is written reads back as itself.
pub proof fn timestamps_read_back(t: int)
    requires
        0 <= t <= u64::MAX,
    ensures
        timestamp(timestamp_text(t)) == Some(t as nat),
{
    let w = t as nat;
    lemma_padded(w / 3_600_000, 2);
    lemma_padded((w / 60_000) % 60, 2);
    lemma_padded((w / 1000) % 60, 2);
    lemma_padded(w % 1000, 3);
    lemma_clock(w);
    lemma_parts(
        padded(w / 3_600_000, 2),
        padded((w / 60_000) % 60, 2),
        padded((w / 1000) % 60, 2),
        padded(w % 1000, 3),
        timestamp_text(t),
    );
}

/// A time is written in digits, colons and a comma.
pub proof fn lemma_timestamp_chars(t: int)
    ensures
        forall|j: int|
            0 <= j < timestamp_text(t).len() ==> is_digit(#[trigger] timestamp_text(t)[j])
                || timestamp_text(t)[j] == ':' || timestamp_text(t)[j] == ',',
        timestamp_text(t).len() > 0,
{
    let w = writable(t);
    let h = padded(w / 3_600_000, 2);
    let m = padded((w / 60_000) % 60, 2);
    let sec = padded((w / 1000) % 60, 2);
    let ms = padded(w % 1000, 3);
    lemma_padded(w / 3_600_000, 2);
    lemma_padded((w / 60_000) % 60, 2);
    lemma_padded((w / 1000) % 60, 2);
    lemma_padded(w % 1000, 3);
    let x = h + seq![':'];
    let y = x + m + seq![':'];
    let z = y + sec + seq![','];
    assert(timestamp_text(t) == z + ms);
    assert forall|j: int| 0 <= j < timestamp_text(t).len() implies is_digit(
        #[trigger] timestamp_text(t)[j],
    ) || timestamp_text(t)[j] == ':' || timestamp_text(t)[j] == ',' by {
        if j < h.len() {
            assert(timestamp_text(t)[j] == h[j]);
        } else if j < x.len() {
        } else if j < x.len() + m.len() {
            assert(timestamp_text(t)[j] == m[j - x.len()]);
        } else if j < y.len() {
        } else if j < y.len() + sec.len() {
            assert(timestamp_text(t)[j] == sec[j - y.len()]);
        } else if j < z.len() {
        } else {
            assert(timestamp_text(t)[j] == ms[j - z.len()]);
        }
    }
}

proof fn lemma_trim_nothing(s: Seq<char>)
    requires
        s.len() > 0,
        !is_white(s[0]),
        !is_white(s.last()),
    ensures
        trim(s) == s,
{
    assert(skip_white(s) == s);
    assert(drop_white(s) == s);
}

/// A line of two timestamps that is written reads back as the two.
pub proof fn timestamp_lines_read_back(start: int, end: int)
    requires
        0 <= start <= u64::MAX,
        0 <= end <= u64::MAX,
    ensures
        timestamp_line(timestamp_text(start) + arrow() + timestamp_text(end)) == Some(
            (start as nat, end as nat),
        ),
{
    reveal_strlit(" --> ");
    let x = timestamp_text(start);
    let y = timestamp_text(end);
    let s = x + arrow() + y;
    lemma_timestamp_chars(start);
    lemma_timestamp_chars(end);
    timestamps_read_back(start);
    timestamps_read_back(end);
    let k = x.len() as int;
    assert(s.subrange(k, k + 5) =~= arrow());
    assert(matches_at(s, arrow(), k));
    lemma_find_from(s, arrow(), 0);
    let f = find(s, arrow())->0;
    if f < k {
        assert(s.subrange(f, f + 5)[0] == ' ');
        assert(s[f] == x[f]);
    }
    assert(f == k);
    let rest = s.skip(k + 5);
    assert(rest =~= y);
    lemma_find_from(y, arrow(), 0);
    if find(y, arrow()) is Some {
        let g = find(y, arrow())->0;
        assert(y.subrange(g, g + 5)[0] == ' ');
        assert(y[g] == ' ');
    }
    assert(s.take(k) =~= x);
    assert(!is_white(x[0]) && !is_white(x[x.len() - 1]));
    assert(!is_white(y[0]) && !is_white(y[y.len() - 1]));
    lemma_trim_nothing(x);
    lemma_trim_nothing(y);
}

// -------------------------------------------------------------------- blocks
/// A text with every carriage return that a line feed follows taken out.
pub open spec fn unix_text(s: Seq<char>) -> Seq<char>
    decreases s.len(),
{
    if s.len() == 0 {
        s
    } else if s.len() >= 2 && s[0] == '\r' && s[1] == '\n' {
        seq!['\n'] + unix_text(s.skip(2))
    } else {
        seq![s[0]] + unix_text(s.skip(1))
    }
}

fn to_unix_text(s: &[char]) -> (r: Vec<char>)
    ensures
        r@ == unix_text(s@),
{
    let n: usize = s.len();
    let mut out: Vec<char> = Vec::new();
    let mut i: usize = 0;
    assert(s@.skip(0) =~= s@);
    while i < n
        invariant
            n == s@.len(),
            i <= n,
            out@ + unix_text(s@.skip(i as int)) == unix_text(s@),
        decreases n - i,
    {
        let ghost before = out@;
        let ghost rest = s@.skip(i as int);
        if n - i >= 2 && s[i] == '\r' && s[i + 1] == '\n' {
            out.push('\n');
            assert(rest.skip(2) =~= s@.skip(i + 2));
            assert(out@ + unix_text(s@.skip(i + 2)) =~= before + (seq!['\n'] + unix_text(
                s@.skip(i + 2),
            )));
            i += 2;
        } else {
            out.push(s[i]);
            assert(rest.skip(1) =~= s@.skip(i + 1));
            assert(out@ + unix_text(s@.skip(i + 1)) =~= before + (seq![rest[0]] + unix_text(
                s@.skip(i + 1),
            )));
            i += 1;
        }
    }
    assert(unix_text(s@.skip(n as int)) =~= Seq::<char>::empty());
    assert(out@ =~= out@ + Seq::<char>::empty());
    out
}

/// The pieces between the occurrences of `p`, each found behind the one before it.
pub open spec fn split_by(s: Seq<char>, p: Seq<char>) -> Seq<Seq<char>>
    decreases s.len(),
{
    match find(s, p) {
        Some(k) => if 0 <= k && p.len() > 0 && k + p.len() <= s.len() {
            seq![s.take(k)] + split_by(s.skip(k + p.len()), p)
        } else {
            seq![s]
        },
        None => seq![s],
    }
}

proof fn lemma_find_skip(s: Seq<char>, p: Seq<char>, i: int, j: int)
    requires
        0 <= i <= j,
        i <= s.len(),
    ensures
        find_from(s, p, j) == match find_from(s.skip(i), p, j - i) {
            Some(k) => Some(k + i),
            None => None,
        },
    decreases s.len() + 1 - j,
{
    let t = s.skip(i);
    if j + p.len() <= s.len() {
        assert(s.subrange(j, j + p.len()) =~= t.subrange(j - i, j - i + p.len()));
        assert(matches_at(s, p, j) == matches_at(t, p, j - i));
        if !matches_at(s, p, j) {
            lemma_find_skip(s, p, i, j + 1);
        }
    }
}

fn split_on_text(s: &[char], p: &[char]) -> (r: Vec<Vec<char>>)
    requires
        p@.len() > 0,
    ensures
        pieces(r@) == split_by(s@, p@),
{
    let n: usize = s.len();
    let m: usize = p.len();
    let mut out: Vec<Vec<char>> = Vec::new();
    let mut from: usize = 0;
    assert(s@.skip(0) =~= s@);
    assert(pieces(out@) + split_by(s@, p@) =~= split_by(s@, p@));
    loop
        invariant
            n == s@.len(),
            m == p@.len(),
            m > 0,
            from <= n,
            pieces(out@) + split_by(s@.skip(from as int), p@) == split_by(s@, p@),
        decreases n - from,
    {
        let ghost before = pieces(out@);
        let ghost rest = s@.skip(from as int);
        proof {
            lemma_find_skip(s@, p@, from as int, from as int);
        }
        match find_chars(s, p, from) {
            Some(k) => {
                proof {
                    lemma_find_from(s@, p@, from as int);
                }
                out.push(slice_copy(s, from, k));
                assert(s@.subrange(from as int, k as int) =~= rest.take(k - from));
                assert(pieces(out@) =~= before.push(rest.take(k - from)));
                assert(rest.skip(k - from + m) =~= s@.skip(k + m));
                assert(pieces(out@) + split_by(s@.skip(k + m), p@) =~= before + (seq![
                    rest.take(k - from),
                ] + split_by(s@.skip(k + m), p@)));
                from = k + m;
            },
            None => {
                out.push(slice_copy(s, from, n));
                assert(s@.subrange(from as int, n as int) =~= rest);
                assert(pieces(out@) =~= before + seq![rest]);
                return out;
            },
        }
    }
}

/// A text without line feeds at its end.
pub open spec fn drop_feeds(s: Seq<char>) -> Seq<char>
    decreases s.len(),
{
    if s.len() > 0 && s.last() == '\n' {
        drop_feeds(s.drop_last())
    } else {
        s
    }
}

fn without_feeds(s: &Vec<char>) -> (r: Vec<char>)
    ensures
        r@ == drop_feeds(s@),
{
    let mut b: usize = s.len();
    assert(s@.take(b as int) =~= s@);
    while b > 0 && s[b - 1] == '\n'
        invariant
            b <= s@.len(),
            drop_feeds(s@.take(b as int)) == drop_feeds(s@),
        decreases b,
    {
        assert(s@.take(b as int).drop_last() =~= s@.take(b - 1));
        assert(s@.take(b as int).last() == s@[b - 1]);
        b -= 1;
    }
    assert(b > 0 ==> s@.take(b as int).last() == s@[b - 1]);
    let r = slice_copy(s, 0, b);
    assert(r@ =~= s@.take(b as int));
    r
}

// ------------------------------------------------------------------ shifting
/// An entry's times and its lines of text.
pub open spec fn entry_at(
    ls: Seq<Seq<char>>,
    times: int,
) -> Option<(nat, nat, Seq<Seq<char>>)> {
    match timestamp_line(ls[times]) {
        Some((a, b)) => Some((a, b, ls.skip(times + 1))),
        None => None,
    }
}

/// The entry in a block: a number, the times and text; or the times and text where the number
/// is missing.
pub open spec fn entry_in(block: Seq<char>) -> Option<(nat, nat, Seq<Seq<char>>)> {
    let b = drop_feeds(block);
    let ls = lines(b);
    if b.len() == 0 {
        None
    } else if ls.len() >= 3 && parse_up_to(ls[0], u32::MAX as nat) is Some {
        entry_at(ls, 1)
    } else if ls.len() >= 2 && find(ls[0], arrow()) is Some {
        entry_at(ls, 0)
    } else {
        None
    }
}

/// Lines, each with a line feed behind it.
pub open spec fn body(ls: Seq<Seq<char>>) -> Seq<char>
    decreases ls.len(),
{
    if ls.len() == 0 {
        seq![]
    } else {
        body(ls.drop_last()) + ls.last() + seq!['\n']
    }
}

/// An entry as it is written, under a number.
pub open spec fn entry_text(number: nat, start: int, end: int, text: Seq<Seq<char>>) -> Seq<char> {
    dec(number) + seq!['\n'] + (timestamp_text(start) + arrow() + timestamp_text(end)) + seq!['\n']
        + body(text) + seq!['\n']
}

/// The entries of some blocks, moved back by `offset`, and how many there are: those that end
/// before 0 fall out, and one that begins before 0 begins at 0.
pub open spec fn moved(blocks: Seq<Seq<char>>, offset: int) -> (Seq<char>, nat)
    decreases blocks.len(),
{
    if blocks.len() == 0 {
        (seq![], 0)
    } else {
        let (out, kept) = moved(blocks.drop_last(), offset);
        match entry_in(blocks.last()) {
            Some((start, end, text)) => if end - offset < 0 {
                (out, kept)
            } else {
                (out + entry_text(kept + 1, start - offset, end - offset, text), kept + 1)
            },
            None => (out, kept),
        }
    }
}

/// Subtitles moved back by `offset` milliseconds.
pub open spec fn shifted(content: Seq<char>, offset: int) -> (Seq<char>, nat) {
    moved(split_by(unix_text(content), "\n\n"@), offset)
}

fn read_entry(block: &Vec<char>) -> (r: Option<(u128, u128, Vec<Vec<char>>, usize)>)
    ensures
        match r {
            Some((a, b, ls, first)) => first <= ls@.len() && entry_in(block@) == Some(
                (a as nat, b as nat, pieces(ls@).skip(first as int)),
            ) && a <= 0x1_0000_0000_0000_0000 * 0x40_0000 && b <= 0x1_0000_0000_0000_0000 * 0x40_0000,
            None => entry_in(block@) is None,
        },
{
    let b = without_feeds(block);
    if b.len() == 0 {
        return None;
    }
    let ls = split_lines(&b);
    let n: usize = ls.len();
    assert(pieces(ls@).len() == n);
    if n == 0 {
        return None;
    }
    assert(pieces(ls@)[0] == ls@[0]@);
    let times: usize = if n >= 3 && read_u32(&ls[0]).is_some() {
        1
    } else if n >= 2 && find_chars(&ls[0], &chars_of(" --> "), 0).is_some() {
        0
    } else {
        return None;
    };
    assert(pieces(ls@)[times as int] == ls@[times as int]@);
    match read_timestamp_line(&ls[times]) {
        Some((start, end)) => Some((start, end, ls, times + 1)),
        None => None,
    }
}

fn push_body(out: &mut String, ls: &Vec<Vec<char>>, first: usize)
    requires
        first <= ls@.len(),
    ensures
        final(out)@ == old(out)@ + body(pieces(ls@).skip(first as int)),
{
    let ghost text = pieces(ls@).skip(first as int);
    let m: usize = ls.len();
    let mut k: usize = first;
    assert(text.take(0) =~= Seq::<Seq<char>>::empty());
    assert(out@ =~= old(out)@ + body(text.take(0)));
    while k < m
        invariant
            m == ls@.len(),
            first <= k <= m,
            text == pieces(ls@).skip(first as int),
            out@ == old(out)@ + body(text.take(k - first)),
        decreases m - k,
    {
        assert(text.take(k + 1 - first).drop_last() =~= text.take(k - first));
        assert(text.take(k + 1 - first).last() == ls@[k as int]@);
        let line = string_of(&ls[k]);
        out.append(line.as_str());
        out.push('\n');
        k += 1;
        assert(out@ =~= old(out)@ + body(text.take(k - first)));
    }
    assert(text.take(m - first) =~= text);
}

fn push_entry(
    out: &mut String,
    number: u64,
    start: i128,
    end: i128,
    ls: &Vec<Vec<char>>,
    first: usize,
)
    requires
        first <= ls@.len(),
    ensures
        final(out)@ == old(out)@ + entry_text(
            number as nat,
            start as int,
            end as int,
            pieces(ls@).skip(first as int),
        ),
{
    push_dec(out, number);
    out.push('\n');
    let times = format_srt_timestamp_line(start, end);
    out.append(times.as_str());
    out.push('\n');
    push_body(out, ls, first);
    out.push('\n');
    assert(out@ =~= old(out)@ + entry_text(
        number as nat,
        start as int,
        end as int,
        pieces(ls@).skip(first as int),
    ));
}

/// Moves subtitles back by `offset` milliseconds. Returns the subtitles and how many entries
/// they hold.
pub fn shift_srt(content: &str, offset: Millis) -> (r: (String, usize))
    ensures
        (r.0@, r.1 as nat) == shifted(content@, offset as int),
{
    let v = chars_of(content);
    let u = to_unix_text(&v);
    proof {
        reveal_strlit("\n\n");
    }
    let blocks = split_on_text(&u, &chars_of("\n\n"));
    let n: usize = blocks.len();
    let mut out = String::new();
    let mut kept: usize = 0;
    let mut i: usize = 0;
    let ghost all = pieces(blocks@);
    assert(all.take(0) =~= Seq::<Seq<char>>::empty());
    while i < n
        invariant
            n == blocks@.len(),
            all == pieces(blocks@),
            i <= n,
            kept <= i,
            (out@, kept as nat) == moved(all.take(i as int), offset as int),
        decreases n - i,
    {
        assert(all.take(i + 1).drop_last() =~= all.take(i as int));
        assert(all.take(i + 1).last() == blocks@[i as int]@);
        if let Some((start, end, ls, first)) = read_entry(&blocks[i]) {
            let new_start: i128 = start as i128 - offset as i128;
            let new_end: i128 = end as i128 - offset as i128;
            if new_end >= 0 {
                push_entry(&mut out, kept as u64 + 1, new_start, new_end, &ls, first);
                kept += 1;
            }
        }
        i += 1;
    }
    assert(all.take(n as int) =~= all);
    (out, kept)
}

} // verus!
