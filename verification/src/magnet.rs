//! Magnet links: which of them can be read without harm, and the info hash that one names.
use vstd::prelude::*;

use crate::text::{
    chars_of, digit, find_char, index_of, is_digit, join, join_chars, lemma_index_of,
    lemma_index_of_bounds, lemma_join_split, lemma_split_join, lemma_split_pieces,
    lemma_whole_of_pieces, match_at, pieces, same_chars, slice_copy, split, split_on, starts_with,
    string_of,
};

verus! {

// ------------------------------------------------------------------- the link
/// What a link is before its fragment.
pub open spec fn head_of(m: Seq<char>) -> Seq<char> {
    m.take(index_of(m, '#'))
}

/// The query of a link: what follows the first question mark, up to the fragment.
pub open spec fn query_of(m: Seq<char>) -> Seq<char> {
    let h = head_of(m);
    let k = index_of(h, '?');
    if k < h.len() {
        h.skip(k + 1)
    } else {
        Seq::empty()
    }
}

/// The parameters of a link.
pub open spec fn params(m: Seq<char>) -> Seq<Seq<char>> {
    split(query_of(m), '&')
}

/// The key of a parameter, as it is written.
pub open spec fn key_of(p: Seq<char>) -> Seq<char> {
    p.take(index_of(p, '='))
}

/// The value of a parameter, as it is written.
pub open spec fn value_of(p: Seq<char>) -> Seq<char> {
    let k = index_of(p, '=');
    if k < p.len() {
        p.skip(k + 1)
    } else {
        Seq::empty()
    }
}

// -------------------------------------------------------------------- escapes
/// A hexadecimal digit.
pub open spec fn is_hex(c: char) -> bool {
    is_digit(c) || 'a' <= c <= 'f' || 'A' <= c <= 'F'
}

fn hex(c: char) -> (r: bool)
    ensures
        r == is_hex(c),
{
    digit(c) || ('a' <= c && c <= 'f') || ('A' <= c && c <= 'F')
}

/// The value of a hexadecimal digit.
pub open spec fn hex_value(c: char) -> int {
    if is_digit(c) {
        c as int - 48
    } else if 'a' <= c <= 'f' {
        c as int - 87
    } else {
        c as int - 55
    }
}

fn read_hex(c: char) -> (r: u8)
    requires
        is_hex(c),
    ensures
        r == hex_value(c),
        r < 16,
{
    if digit(c) {
        c as u8 - 48
    } else if 'a' <= c && c <= 'f' {
        c as u8 - 87
    } else {
        c as u8 - 55
    }
}

/// The character that an escape of two hexadecimal digits stands for; the replacement character
/// where it is part of a longer one.
pub open spec fn escaped(a: char, b: char) -> char {
    let n = 16 * hex_value(a) + hex_value(b);
    if n < 128 {
        n as u8 as char
    } else {
        '\u{fffd}'
    }
}

/// A text with its escapes read: a per cent sign and two digits, and a plus sign for a space.
pub open spec fn unescaped(s: Seq<char>) -> Seq<char>
    decreases s.len(),
{
    if s.len() == 0 {
        Seq::empty()
    } else if s.len() >= 3 && s[0] == '%' && is_hex(s[1]) && is_hex(s[2]) {
        seq![escaped(s[1], s[2])] + unescaped(s.skip(3))
    } else if s[0] == '+' {
        seq![' '] + unescaped(s.skip(1))
    } else {
        seq![s[0]] + unescaped(s.skip(1))
    }
}

fn read_escapes(s: &[char]) -> (r: Vec<char>)
    ensures
        r@ == unescaped(s@),
{
    let n: usize = s.len();
    let mut out: Vec<char> = Vec::new();
    let mut i: usize = 0;
    assert(s@.skip(0) =~= s@);
    assert(out@ + unescaped(s@) =~= unescaped(s@));
    while i < n
        invariant
            n == s@.len(),
            i <= n,
            out@ + unescaped(s@.skip(i as int)) == unescaped(s@),
        decreases n - i,
    {
        let ghost rest = s@.skip(i as int);
        let ghost before = out@;
        let c = s[i];
        if n - i >= 3 && c == '%' && hex(s[i + 1]) && hex(s[i + 2]) {
            assert(rest[1] == s@[i + 1] && rest[2] == s@[i + 2]);
            let b: u8 = 16 * read_hex(s[i + 1]) + read_hex(s[i + 2]);
            out.push(
                if b < 128 {
                    b as char
                } else {
                    '\u{fffd}'
                },
            );
            assert(out@.last() == escaped(rest[1], rest[2]));
            assert(rest.skip(3) =~= s@.skip(i + 3));
            assert(out@ + unescaped(rest.skip(3)) =~= before + unescaped(rest));
            i += 3;
        } else {
            assert(n - i >= 3 ==> rest[1] == s@[i + 1] && rest[2] == s@[i + 2]);
            out.push(
                if c == '+' {
                    ' '
                } else {
                    c
                },
            );
            assert(rest.skip(1) =~= s@.skip(i + 1));
            assert(out@ + unescaped(rest.skip(1)) =~= before + unescaped(rest));
            i += 1;
        }
    }
    assert(out@ + unescaped(s@.skip(n as int)) =~= out@);
    out
}

/// A character that a URL drops wherever it stands.
pub open spec fn is_break(c: char) -> bool {
    c == '\t' || c == '\n' || c == '\r'
}

/// A text without the characters that a URL drops.
pub open spec fn unbroken(s: Seq<char>) -> Seq<char> {
    s.filter(|c: char| !is_break(c))
}

fn drop_breaks(s: &[char]) -> (r: Vec<char>)
    ensures
        r@ == unbroken(s@),
{
    let n: usize = s.len();
    let mut out: Vec<char> = Vec::new();
    let mut i: usize = 0;
    assert(unbroken(s@.take(0)) =~= Seq::<char>::empty()) by {
        reveal(Seq::filter);
    }
    while i < n
        invariant
            n == s@.len(),
            i <= n,
            out@ == unbroken(s@.take(i as int)),
        decreases n - i,
    {
        let c = s[i];
        proof {
            reveal(Seq::filter);
            assert(s@.take(i + 1).drop_last() =~= s@.take(i as int));
            assert(s@.take(i + 1).last() == c);
        }
        if c != '\t' && c != '\n' && c != '\r' {
            out.push(c);
        }
        i += 1;
    }
    assert(s@.take(n as int) =~= s@);
    out
}

/// What is read where `s` is written.
pub open spec fn readable(s: Seq<char>) -> Seq<char> {
    unescaped(unbroken(s))
}

fn read_part(s: &[char]) -> (r: Vec<char>)
    ensures
        r@ == readable(s@),
{
    read_escapes(&drop_breaks(s))
}

/// A text without the spaces and control characters at its end.
pub open spec fn without_end(s: Seq<char>) -> Seq<char>
    decreases s.len(),
{
    if s.len() > 0 && s.last() <= ' ' {
        without_end(s.drop_last())
    } else {
        s
    }
}

fn drop_end(s: &[char]) -> (r: Vec<char>)
    ensures
        r@ == without_end(s@),
{
    let mut n: usize = s.len();
    assert(s@.take(n as int) =~= s@);
    while n > 0 && s[n - 1] <= ' '
        invariant
            n <= s@.len(),
            without_end(s@.take(n as int)) == without_end(s@),
        decreases n,
    {
        assert(s@.take(n as int).drop_last() =~= s@.take(n - 1));
        n -= 1;
    }
    let r = slice_copy(s, 0, n);
    assert(r@ =~= s@.take(n as int));
    r
}

/// The name under which a parameter is known.
pub open spec fn name_of(p: Seq<char>) -> Seq<char> {
    readable(key_of(p))
}

/// What a parameter that names a hash says.
pub open spec fn topic_of(p: Seq<char>) -> Seq<char> {
    readable(without_end(value_of(p)))
}

// --------------------------------------------------------------------- hashes
/// How many signs of a text fill it up.
pub open spec fn fillers(s: Seq<char>) -> nat
    decreases s.len(),
{
    if s.len() == 0 {
        0
    } else {
        fillers(s.drop_last()) + if s.last() == '=' {
            1nat
        } else {
            0
        }
    }
}

/// How many bytes a text in base 32 lacks of five for each eight signs.
pub open spec fn lacking(s: Seq<char>) -> nat
    decreases s.len(),
{
    if s.len() < 8 {
        0
    } else {
        (5 * fillers(s.take(8)) + 7) / 8 + lacking(s.skip(8))
    }
}

/// A hash in base 32 that has the length of one, and fewer or more bytes: twenty are asked for in
/// version 1, and thirty-two in version 2.
pub open spec fn is_misfit(t: Seq<char>) -> bool {
    ||| starts_with(t, "urn:btih:"@) && t.len() == 41 && lacking(t.skip(9)) != 0
    ||| starts_with(t, "urn:btmh:1220"@) && t.len() == 69 && lacking(t.skip(13)) != 3
}

fn count_lacking(s: &[char]) -> (r: usize)
    ensures
        r == lacking(s@),
        r <= s@.len(),
{
    let n: usize = s.len();
    let mut total: usize = 0;
    let mut i: usize = 0;
    assert(s@.skip(0) =~= s@);
    while n - i >= 8
        invariant
            n == s@.len(),
            i <= n,
            total <= i,
            total + lacking(s@.skip(i as int)) == lacking(s@),
        decreases n - i,
    {
        let ghost block = s@.skip(i as int).take(8);
        let mut signs: usize = 0;
        let mut j: usize = 0;
        assert(block.take(0) =~= Seq::<char>::empty());
        while j < 8
            invariant
                n == s@.len(),
                i + 8 <= n,
                block == s@.skip(i as int).take(8),
                j <= 8,
                signs <= j,
                signs == fillers(block.take(j as int)),
            decreases 8 - j,
        {
            assert(block.take(j + 1).drop_last() =~= block.take(j as int));
            assert(block.take(j + 1).last() == s@[i + j]);
            if s[i + j] == '=' {
                signs += 1;
            }
            j += 1;
        }
        assert(block.take(8) =~= block);
        assert(s@.skip(i as int).skip(8) =~= s@.skip(i + 8));
        total = total + (5 * signs + 7) / 8;
        i += 8;
    }
    total
}

fn misfit(t: &[char]) -> (r: bool)
    ensures
        r == is_misfit(t@),
{
    proof {
        reveal_strlit("urn:btih:");
        reveal_strlit("urn:btmh:1220");
    }
    let n: usize = t.len();
    if n == 41 && match_at(t, &chars_of("urn:btih:"), 0) {
        let rest = slice_copy(t, 9, n);
        assert(rest@ =~= t@.skip(9));
        return count_lacking(&rest) != 0;
    }
    if n == 69 && match_at(t, &chars_of("urn:btmh:1220"), 0) {
        let rest = slice_copy(t, 13, n);
        assert(rest@ =~= t@.skip(13));
        return count_lacking(&rest) != 3;
    }
    false
}

// -------------------------------------------------------------- links to read
/// A parameter that names a misfit.
pub open spec fn names_misfit(p: Seq<char>) -> bool {
    name_of(p) == "xt"@ && is_misfit(topic_of(p))
}

/// A link that names no misfit.
pub open spec fn is_readable(m: Seq<char>) -> bool {
    forall|i: int| 0 <= i < params(m).len() ==> !names_misfit(#[trigger] params(m)[i])
}

/// A parameter that selects files.
pub open spec fn selects(p: Seq<char>) -> bool {
    name_of(p) == "so"@ && value_of(p).len() > 0
}

/// A link that names no misfit and selects no files.
pub open spec fn is_safe_magnet(m: Seq<char>) -> bool {
    &&& is_readable(m)
    &&& forall|i: int| 0 <= i < params(m).len() ==> !selects(#[trigger] params(m)[i])
}

/// A parameter without the files that it selects.
pub open spec fn unselecting(p: Seq<char>) -> Seq<char> {
    if selects(p) {
        p.take(index_of(p, '=') + 1)
    } else {
        p
    }
}

/// A link without the files that it selects: they are no part of what the hash is.
pub open spec fn without_selection(m: Seq<char>) -> Seq<char> {
    let h = head_of(m);
    let k = index_of(h, '?');
    if k < h.len() {
        h.take(k + 1) + join(params(m).map_values(|p: Seq<char>| unselecting(p)), "&"@) + m.skip(
            index_of(m, '#'),
        )
    } else {
        m
    }
}

/// A link without the files that it selects, where it names no misfit.
pub fn readable_link(magnet: &str) -> (r: Option<String>)
    ensures
        match r {
            Some(s) => is_readable(magnet@) && s@ == without_selection(magnet@),
            None => !is_readable(magnet@),
        },
{
    let v = chars_of(magnet);
    assert(v@.skip(0) =~= v@);
    let end = find_char(&v, '#', 0);
    let head = slice_copy(&v, 0, end);
    assert(head@ =~= head_of(magnet@));
    assert(head@.skip(0) =~= head@);
    let k = find_char(&head, '?', 0);
    if k == head.len() {
        proof {
            lemma_no_params(magnet@);
        }
        return Some(magnet.to_owned());
    }
    let query = slice_copy(&head, k + 1, head.len());
    assert(query@ =~= query_of(magnet@));
    let ps = split_on(&query, '&');
    let ghost all = params(magnet@);
    let ghost f = |p: Seq<char>| unselecting(p);
    let n: usize = ps.len();
    let mut kept: Vec<Vec<char>> = Vec::new();
    let mut i: usize = 0;
    assert(pieces(ps@).len() == n);
    while i < n
        invariant
            n == ps@.len(),
            n == all.len(),
            i <= n,
            pieces(ps@) == all,
            all == params(magnet@),
            f == |p: Seq<char>| unselecting(p),
            forall|j: int| 0 <= j < i ==> !names_misfit(#[trigger] all[j]),
            kept@.len() == i,
            forall|j: int| 0 <= j < i ==> (#[trigger] kept@[j])@ == unselecting(all[j]),
        decreases n - i,
    {
        assert(all[i as int] == ps@[i as int]@);
        match unselected(&ps[i]) {
            Some(p) => {
                kept.push(p);
            },
            None => {
                return None;
            },
        }
        i += 1;
    }
    assert(pieces(kept@) =~= all.map_values(f));
    let mut out = string_of(&slice_copy(&head, 0, k + 1));
    assert(out@ =~= head@.take(k + 1));
    let rest = join_chars(&kept, "&");
    out.append(rest.as_str());
    let tail = slice_copy(&v, end, v.len());
    assert(tail@ =~= magnet@.skip(end as int));
    out.append(string_of(&tail).as_str());
    Some(out)
}

/// A parameter without the files that it selects; none where it names a misfit.
fn unselected(p: &[char]) -> (r: Option<Vec<char>>)
    ensures
        match r {
            Some(q) => !names_misfit(p@) && q@ == unselecting(p@),
            None => names_misfit(p@),
        },
{
    let n: usize = p.len();
    assert(p@.skip(0) =~= p@);
    let k = find_char(p, '=', 0);
    let key = slice_copy(p, 0, k);
    assert(key@ =~= key_of(p@));
    let value = if k < n {
        slice_copy(p, k + 1, n)
    } else {
        Vec::new()
    };
    assert(value@ =~= value_of(p@));
    let name = read_part(&key);
    if same_chars(&name, &chars_of("xt")) && misfit(&read_part(&drop_end(&value))) {
        return None;
    }
    let q = if value.len() > 0 && same_chars(&name, &chars_of("so")) {
        slice_copy(p, 0, k + 1)
    } else {
        slice_copy(p, 0, n)
    };
    assert(q@ =~= unselecting(p@));
    Some(q)
}

proof fn lemma_no_params(m: Seq<char>)
    requires
        query_of(m).len() == 0,
    ensures
        is_readable(m),
{
    reveal_strlit("xt");
    let q = query_of(m);
    lemma_index_of(q, '&', 0);
    assert(params(m) =~= seq![q]);
    assert(key_of(q) =~= Seq::<char>::empty()) by {
        lemma_index_of_bounds(q, '=');
    }
    assert(unbroken(key_of(q)) =~= Seq::<char>::empty()) by {
        reveal(Seq::filter);
    }
    assert(name_of(q).len() == 0);
}

proof fn lemma_unselecting(p: Seq<char>)
    requires
        forall|j: int| 0 <= j < p.len() ==> #[trigger] p[j] != '&' && p[j] != '#',
    ensures
        forall|j: int|
            0 <= j < unselecting(p).len() ==> #[trigger] unselecting(p)[j] != '&' && unselecting(
                p,
            )[j] != '#',
        !selects(unselecting(p)),
        !names_misfit(p) ==> !names_misfit(unselecting(p)),
{
    reveal_strlit("xt");
    reveal_strlit("so");
    if selects(p) {
        let q = unselecting(p);
        let k = index_of(p, '=');
        lemma_index_of_bounds(p, '=');
        assert forall|j: int| 0 <= j < q.len() implies #[trigger] q[j] != '&' && q[j] != '#' by {
            assert(q[j] == p[j]);
        }
        lemma_index_of(q, '=', k);
        assert(key_of(q) =~= key_of(p));
        assert(value_of(q) =~= Seq::<char>::empty());
        assert("so"@[0] == 's' && "xt"@[0] == 'x');
    }
}

/// A link that names no misfit is safe to read once it selects no files, and one that is safe
/// stays as it is.
pub proof fn a_link_without_selection_is_safe(m: Seq<char>)
    requires
        is_readable(m),
    ensures
        is_safe_magnet(without_selection(m)),
        is_safe_magnet(m) ==> without_selection(m) == m,
{
    reveal_strlit("&");
    reveal_strlit("xt");
    reveal_strlit("so");
    let e = index_of(m, '#');
    lemma_index_of_bounds(m, '#');
    let h = head_of(m);
    let k = index_of(h, '?');
    lemma_index_of_bounds(h, '?');
    let ps = params(m);
    if k < h.len() {
        let q = query_of(m);
        let f = |p: Seq<char>| unselecting(p);
        let qs = ps.map_values(f);
        assert("&"@ =~= seq!['&']);
        assert forall|j: int| 0 <= j < q.len() implies #[trigger] q[j] != '#' by {
            assert(q[j] == m[k + 1 + j]);
        }
        lemma_split_pieces(q, '&', '#');
        assert forall|i: int, j: int|
            0 <= i < qs.len() && 0 <= j < qs[i].len() implies #[trigger] qs[i][j] != '&' && qs[i][j]
            != '#' by {
            assert forall|l: int| 0 <= l < ps[i].len() implies #[trigger] ps[i][l] != '&'
                && ps[i][l] != '#' by {
                assert(split(q, '&')[i][l] != '&');
            }
            lemma_unselecting(ps[i]);
            assert(qs[i] == unselecting(ps[i]));
            assert(unselecting(ps[i])[j] != '&');
        }
        lemma_split_join(qs, '&', '#');
        let joined = join(qs, seq!['&']);
        let n = without_selection(m);
        assert(n == h.take(k + 1) + joined + m.skip(e));
        let e2 = k + 1 + joined.len();
        assert forall|j: int| 0 <= j < e2 implies #[trigger] n[j] != '#' by {
            if j <= k {
                assert(n[j] == m[j]);
            } else {
                assert(n[j] == joined[j - k - 1]);
            }
        }
        assert(e < m.len() ==> n[e2] == m[e]);
        lemma_index_of(n, '#', e2);
        let h2 = head_of(n);
        assert(h2 =~= h.take(k + 1) + joined);
        assert forall|j: int| 0 <= j < k implies #[trigger] h2[j] != '?' by {
            assert(h2[j] == h[j]);
        }
        assert(h2[k] == h[k]);
        lemma_index_of(h2, '?', k);
        assert(query_of(n) =~= joined);
        assert(params(n) == qs);
        assert forall|i: int| 0 <= i < params(n).len() implies !names_misfit(
            #[trigger] params(n)[i],
        ) && !selects(params(n)[i]) by {
            assert(!names_misfit(ps[i]));
            assert forall|l: int| 0 <= l < ps[i].len() implies #[trigger] ps[i][l] != '&'
                && ps[i][l] != '#' by {
                assert(split(q, '&')[i][l] != '&');
            }
            lemma_unselecting(ps[i]);
            assert(qs[i] == unselecting(ps[i]));
        }
        if is_safe_magnet(m) {
            assert forall|i: int| 0 <= i < qs.len() implies qs[i] == ps[i] by {
                assert(!selects(ps[i]));
            }
            assert(qs =~= ps);
            lemma_join_split(q, '&');
            assert(n =~= m);
        }
    } else {
        let q = query_of(m);
        lemma_index_of(q, '&', 0);
        assert(ps =~= seq![q]);
        assert(value_of(q).len() == 0) by {
            lemma_index_of_bounds(q, '=');
        }
    }
}

// --------------------------------------------------------------- plain links
/// The bytes that hexadecimal digits spell, two for each.
pub open spec fn hex_bytes(h: Seq<char>) -> Seq<u8> {
    Seq::new(h.len() / 2, |i: int| (16 * hex_value(h[2 * i]) + hex_value(h[2 * i + 1])) as u8)
}

/// A parameter of a magnet link that names an info hash in forty hexadecimal digits.
pub open spec fn is_hash_parameter(p: Seq<char>) -> bool {
    &&& p.len() == 52
    &&& starts_with(p, "xt=urn:btih:"@)
    &&& forall|i: int| 12 <= i < p.len() ==> is_hex(#[trigger] p[i])
}

/// A parameter that names an info hash, a tracker or a display name.
pub open spec fn is_plain_parameter(p: Seq<char>) -> bool {
    &&& is_hash_parameter(p) || starts_with(p, "tr="@) || starts_with(p, "dn="@)
    &&& forall|i: int| 0 <= i < p.len() ==> #[trigger] p[i] != '#' && !is_break(p[i])
}

/// A magnet link of plain parameters alone.
pub open spec fn is_plain_magnet(m: Seq<char>) -> bool {
    &&& starts_with(m, "magnet:?"@)
    &&& forall|i: int|
        0 <= i < split(m.skip(8), '&').len() ==> is_plain_parameter(
            #[trigger] split(m.skip(8), '&')[i],
        )
}

/// The info hash that the last of some parameters to name one names.
pub open spec fn last_hash(ps: Seq<Seq<char>>) -> Option<Seq<u8>>
    decreases ps.len(),
{
    if ps.len() == 0 {
        None
    } else if is_hash_parameter(ps.last()) {
        Some(hex_bytes(ps.last().skip(12)))
    } else {
        last_hash(ps.drop_last())
    }
}

/// The info hash of a plain magnet link.
pub open spec fn hash_in(m: Seq<char>) -> Option<Seq<u8>> {
    last_hash(split(m.skip(8), '&'))
}

/// A character that is read as it is written.
pub open spec fn is_literal(c: char) -> bool {
    c != '%' && c != '+' && !is_break(c)
}

pub proof fn lemma_literal(s: Seq<char>)
    requires
        forall|j: int| 0 <= j < s.len() ==> is_literal(#[trigger] s[j]),
    ensures
        readable(s) == s,
{
    lemma_unbroken(s);
    lemma_unescaped(s);
}

proof fn lemma_unbroken(s: Seq<char>)
    requires
        forall|j: int| 0 <= j < s.len() ==> is_literal(#[trigger] s[j]),
    ensures
        unbroken(s) == s,
    decreases s.len(),
{
    reveal(Seq::filter);
    if s.len() > 0 {
        let t = s.drop_last();
        assert forall|j: int| 0 <= j < t.len() implies is_literal(#[trigger] t[j]) by {
            assert(t[j] == s[j]);
        }
        lemma_unbroken(t);
        assert(is_literal(s[s.len() - 1]));
        assert(t.push(s.last()) =~= s);
    }
}

proof fn lemma_unescaped(s: Seq<char>)
    requires
        forall|j: int| 0 <= j < s.len() ==> is_literal(#[trigger] s[j]),
    ensures
        unescaped(s) == s,
    decreases s.len(),
{
    if s.len() > 0 {
        let t = s.skip(1);
        assert forall|j: int| 0 <= j < t.len() implies is_literal(#[trigger] t[j]) by {
            assert(t[j] == s[j + 1]);
        }
        lemma_unescaped(t);
        assert(is_literal(s[0]));
        assert(seq![s[0]] + t =~= s);
    }
}

/// A parameter whose key is written in two letters.
pub proof fn lemma_short_key(p: Seq<char>)
    requires
        p.len() >= 3,
        p[0] != '=' && is_literal(p[0]),
        p[1] != '=' && is_literal(p[1]),
        p[2] == '=',
    ensures
        name_of(p) == p.take(2),
        value_of(p) == p.skip(3),
{
    lemma_index_of(p, '=', 2);
    lemma_literal(p.take(2));
}

proof fn lemma_plain_parameters_are_safe(p: Seq<char>)
    requires
        is_plain_parameter(p),
    ensures
        !names_misfit(p),
        !selects(p),
{
    reveal_strlit("xt=urn:btih:");
    reveal_strlit("tr=");
    reveal_strlit("dn=");
    reveal_strlit("xt");
    reveal_strlit("so");
    if is_hash_parameter(p) {
        assert forall|j: int| 0 <= j < 12 implies #[trigger] p[j] == "xt=urn:btih:"@[j] by {
            assert(p.subrange(0, 12)[j] == p[j]);
        }
        lemma_short_key(p);
        let value = p.skip(3);
        assert forall|j: int| 0 <= j < value.len() implies is_literal(#[trigger] value[j]) by {
            assert(value[j] == p[j + 3]);
            if j >= 9 {
                assert(is_hex(p[j + 3]));
            }
        }
        assert(is_hex(p[51]));
        assert(value.last() == p[51]);
        lemma_literal(value);
        assert(topic_of(p).len() == 49);
        assert(p.take(2)[0] == 'x');
    } else if starts_with(p, "tr="@) {
        assert forall|j: int| 0 <= j < 3 implies #[trigger] p[j] == "tr="@[j] by {
            assert(p.subrange(0, 3)[j] == p[j]);
        }
        lemma_short_key(p);
        assert(p.take(2)[0] == 't');
    } else {
        assert forall|j: int| 0 <= j < 3 implies #[trigger] p[j] == "dn="@[j] by {
            assert(p.subrange(0, 3)[j] == p[j]);
        }
        lemma_short_key(p);
        assert(p.take(2)[0] == 'd');
    }
}

/// Plain links are safe.
proof fn lemma_plain_magnets_are_safe(m: Seq<char>)
    requires
        is_plain_magnet(m),
    ensures
        is_safe_magnet(m),
{
    reveal_strlit("magnet:?");
    assert forall|j: int| 0 <= j < 8 implies #[trigger] m[j] == "magnet:?"@[j] by {
        assert(m.subrange(0, 8)[j] == m[j]);
    }
    let q = m.skip(8);
    assert forall|i: int, j: int|
        0 <= i < split(q, '&').len() && 0 <= j < split(q, '&')[i].len() implies #[trigger] split(
        q,
        '&',
    )[i][j] != '#' by {
        assert(is_plain_parameter(split(q, '&')[i]));
    }
    lemma_whole_of_pieces(q, '&', '#');
    assert forall|j: int| 0 <= j < m.len() implies #[trigger] m[j] != '#' by {
        if j >= 8 {
            assert(q[j - 8] == m[j]);
        }
    }
    lemma_index_of(m, '#', m.len() as int);
    assert(head_of(m) =~= m);
    lemma_index_of(m, '?', 7);
    assert(query_of(m) =~= q);
    assert forall|i: int| 0 <= i < params(m).len() implies !names_misfit(#[trigger] params(m)[i])
        && !selects(params(m)[i]) by {
        lemma_plain_parameters_are_safe(split(q, '&')[i]);
    }
}

// ------------------------------------------------------------ the hash named
/// The info hash, of version 1, that `librqbit::Magnet::parse` reads from a link, where it reads
/// the link and the link names one.
pub uninterp spec fn magnet_id(m: Seq<char>) -> Option<Seq<u8>>;

/// The bytes of a hash.
pub open spec fn opt_bytes(h: Option<Vec<u8>>) -> Option<Seq<u8>> {
    match h {
        Some(v) => Some(v@),
        None => None,
    }
}

/// `librqbit::Magnet::parse`, and `as_id20` of what it gives: [`magnet_id`], by that name. Of a
/// link whose parameters are info hashes in forty hexadecimal digits, trackers and display names
/// it is the last hash named, and there is none where none is named. Links that are not safe are
/// left out: on a hash in base 32 that decodes to a wrong number of bytes `parse` panics, and a
/// range of files it writes out in full, however long that is.
#[verifier::external_body]
fn magnet_hash(magnet: &str) -> (r: Option<Vec<u8>>)
    requires
        is_safe_magnet(magnet@),
    ensures
        opt_bytes(r) == magnet_id(magnet@),
        is_plain_magnet(magnet@) ==> opt_bytes(r) == hash_in(magnet@),
{
    match librqbit::Magnet::parse(magnet) {
        Ok(m) => m.as_id20().map(|id| id.0.to_vec()),
        Err(_) => None,
    }
}

/// The info hash that a link names: the one read once the selection of files, which is no part
/// of it, is left out; none where the link names a misfit.
pub open spec fn link_hash(m: Seq<char>) -> Option<Seq<u8>> {
    if is_readable(m) {
        magnet_id(without_selection(m))
    } else {
        None
    }
}

/// Reads [`link_hash`].
pub fn read_link_hash(magnet: &str) -> (r: Option<Vec<u8>>)
    ensures
        opt_bytes(r) == link_hash(magnet@),
        is_safe_magnet(magnet@) ==> opt_bytes(r) == magnet_id(magnet@),
        is_plain_magnet(magnet@) ==> opt_bytes(r) == hash_in(magnet@),
{
    proof {
        if is_plain_magnet(magnet@) {
            lemma_plain_magnets_are_safe(magnet@);
        }
        if is_readable(magnet@) {
            a_link_without_selection_is_safe(magnet@);
        }
    }
    match readable_link(magnet) {
        Some(link) => magnet_hash(link.as_str()),
        None => None,
    }
}

} // verus!
