//! Text over sequences of characters: the vocabulary that every other module's
//! contracts use, and the executable counterparts.
use vstd::prelude::*;

verus! {

/// `String::push` appends one character.
pub assume_specification[ String::push ](s: &mut String, c: char)
    ensures
        final(s)@ == old(s)@.push(c),
;

/// The characters of `s`, in order.
pub fn chars_of(s: &str) -> (r: Vec<char>)
    ensures
        r@ == s@,
{
    let mut v: Vec<char> = Vec::new();
    for c in it: s.chars()
        invariant
            v@ == s@.take(it.index() as int),
            it.seq() == s@,
    {
        v.push(c);
        assert(s@.take(it.index() + 1) == s@.take(it.index() as int).push(c));
    }
    assert(s@.take(s@.len() as int) == s@);
    v
}

/// The string whose characters are `v`.
pub fn string_of(v: &[char]) -> (r: String)
    ensures
        r@ == v@,
{
    let mut s = String::new();
    let n: usize = v.len();
    let mut i: usize = 0;
    while i < n
        invariant
            i <= n,
            n == v@.len(),
            s@ == v@.take(i as int),
        decreases n - i,
    {
        s.push(v[i]);
        i += 1;
        assert(v@.take(i as int) == v@.take(i - 1).push(v@[i - 1]));
    }
    assert(v@.take(n as int) == v@);
    s
}

// ---------------------------------------------------------------- characters
/// Unicode's `White_Space` property.
pub open spec fn is_white(c: char) -> bool {
    ||| '\u{9}' <= c <= '\u{d}'
    ||| c == ' '
    ||| c == '\u{85}'
    ||| c == '\u{a0}'
    ||| c == '\u{1680}'
    ||| '\u{2000}' <= c <= '\u{200a}'
    ||| c == '\u{2028}'
    ||| c == '\u{2029}'
    ||| c == '\u{202f}'
    ||| c == '\u{205f}'
    ||| c == '\u{3000}'
}

/// Decides [`is_white`].
pub fn white(c: char) -> (r: bool)
    ensures
        r == is_white(c),
{
    ('\u{9}' <= c && c <= '\u{d}') || c == ' ' || c == '\u{85}' || c == '\u{a0}' || c == '\u{1680}'
        || ('\u{2000}' <= c && c <= '\u{200a}') || c == '\u{2028}' || c == '\u{2029}'
        || c == '\u{202f}' || c == '\u{205f}' || c == '\u{3000}'
}

/// An ASCII decimal digit.
pub open spec fn is_digit(c: char) -> bool {
    '0' <= c <= '9'
}

/// Decides [`is_digit`].
pub fn digit(c: char) -> (r: bool)
    ensures
        r == is_digit(c),
{
    '0' <= c && c <= '9'
}

/// The digit for `d`, for `d` below ten.
pub open spec fn digit_char(d: int) -> char {
    (48 + d) as u8 as char
}

/// The value of a digit.
pub open spec fn digit_value(c: char) -> int {
    c as int - 48
}

/// An ASCII letter in lower case; every other character as it is.
pub open spec fn lower_ascii(c: char) -> char {
    if 'A' <= c <= 'Z' {
        (c as u8 + 32) as u8 as char
    } else {
        c
    }
}

/// Computes [`lower_ascii`].
pub fn to_lower_ascii(c: char) -> (r: char)
    ensures
        r == lower_ascii(c),
{
    if 'A' <= c && c <= 'Z' {
        (c as u8 + 32) as char
    } else {
        c
    }
}

// ----------------------------------------------------------------- equality
/// Whether two texts are the same.
pub fn same(a: &str, b: &str) -> (r: bool)
    ensures
        r == (a@ == b@),
{
    a.to_owned() == b.to_owned()
}

/// Whether two character slices are the same.
pub fn same_chars(a: &[char], b: &[char]) -> (r: bool)
    ensures
        r == (a@ == b@),
{
    if a.len() != b.len() {
        return false;
    }
    let n: usize = a.len();
    let mut i: usize = 0;
    while i < n
        invariant
            n == a@.len(),
            n == b@.len(),
            i <= n,
            forall|j: int| 0 <= j < i ==> a@[j] == b@[j],
        decreases n - i,
    {
        if a[i] != b[i] {
            return false;
        }
        i += 1;
    }
    assert(a@ =~= b@);
    true
}

/// The text with every ASCII letter in lower case.
pub open spec fn ascii_lower(s: Seq<char>) -> Seq<char> {
    s.map_values(|c: char| lower_ascii(c))
}

/// Computes [`ascii_lower`].
pub fn to_ascii_lower(s: &str) -> (r: String)
    ensures
        r@ == ascii_lower(s@),
{
    let v = chars_of(s);
    let mut out = String::new();
    let n: usize = v.len();
    let mut i: usize = 0;
    while i < n
        invariant
            n == v@.len(),
            i <= n,
            out@ == ascii_lower(v@).take(i as int),
        decreases n - i,
    {
        out.push(to_lower_ascii(v[i]));
        i += 1;
        assert(ascii_lower(v@).take(i as int) == ascii_lower(v@).take(i - 1).push(
            lower_ascii(v@[i - 1]),
        ));
    }
    assert(ascii_lower(v@).take(n as int) == ascii_lower(v@));
    out
}

/// Whether two texts differ at most in the case of ASCII letters.
pub fn same_ignoring_ascii_case(a: &str, b: &str) -> (r: bool)
    ensures
        r == (ascii_lower(a@) == ascii_lower(b@)),
{
    to_ascii_lower(a) == to_ascii_lower(b)
}

// ------------------------------------------------------------------- search
/// `p` stands in `s` at index `i`.
pub open spec fn matches_at(s: Seq<char>, p: Seq<char>, i: int) -> bool {
    0 <= i && i + p.len() <= s.len() && s.subrange(i, i + p.len()) == p
}

/// The least index at or after `i` at which `p` stands in `s`.
pub open spec fn find_from(s: Seq<char>, p: Seq<char>, i: int) -> Option<int>
    decreases s.len() + 1 - i,
{
    if i < 0 || i + p.len() > s.len() {
        None
    } else if matches_at(s, p, i) {
        Some(i)
    } else {
        find_from(s, p, i + 1)
    }
}

/// The least index at which `p` stands in `s`.
pub open spec fn find(s: Seq<char>, p: Seq<char>) -> Option<int> {
    find_from(s, p, 0)
}

/// `p` stands somewhere in `s`.
pub open spec fn contains(s: Seq<char>, p: Seq<char>) -> bool {
    exists|i: int| matches_at(s, p, i)
}

/// `s` begins with `p`.
pub open spec fn starts_with(s: Seq<char>, p: Seq<char>) -> bool {
    matches_at(s, p, 0)
}

/// `s` ends with `p`.
pub open spec fn ends_with(s: Seq<char>, p: Seq<char>) -> bool {
    p.len() <= s.len() && matches_at(s, p, s.len() - p.len())
}

/// What [`find_from`] gives is the first place, and it gives one where there is one.
pub proof fn lemma_find_from(s: Seq<char>, p: Seq<char>, i: int)
    requires
        0 <= i,
    ensures
        find_from(s, p, i) matches Some(k) ==> i <= k && matches_at(s, p, k) && forall|j: int|
            i <= j < k ==> !matches_at(s, p, j),
        find_from(s, p, i) is None ==> forall|j: int| i <= j ==> !matches_at(s, p, j),
    decreases s.len() + 1 - i,
{
    if i + p.len() <= s.len() && !matches_at(s, p, i) {
        lemma_find_from(s, p, i + 1);
    }
}

/// A text holds `p` exactly where `find` finds it.
pub proof fn lemma_contains_find(s: Seq<char>, p: Seq<char>)
    ensures
        contains(s, p) <==> find(s, p) is Some,
{
    lemma_find_from(s, p, 0);
}

/// Decides [`matches_at`].
pub fn match_at(s: &[char], p: &[char], i: usize) -> (r: bool)
    ensures
        r == matches_at(s@, p@, i as int),
{
    let n: usize = s.len();
    let m: usize = p.len();
    if i > n || n - i < m {
        return false;
    }
    let mut j: usize = 0;
    while j < m
        invariant
            n == s@.len(),
            m == p@.len(),
            i + m <= n,
            j <= m,
            forall|k: int| 0 <= k < j ==> s@[i + k] == p@[k],
        decreases m - j,
    {
        if s[i + j] != p[j] {
            assert(s@.subrange(i as int, i + m)[j as int] != p@[j as int]);
            return false;
        }
        j += 1;
    }
    assert(s@.subrange(i as int, i + m) =~= p@);
    true
}

/// Computes [`find_from`].
pub fn find_chars(s: &[char], p: &[char], from: usize) -> (r: Option<usize>)
    ensures
        match r {
            Some(k) => find_from(s@, p@, from as int) == Some(k as int) && k + p@.len() <= s@.len(),
            None => find_from(s@, p@, from as int) is None,
        },
{
    let n: usize = s.len();
    let m: usize = p.len();
    if m > n {
        return None;
    }
    let mut i: usize = from;
    while i <= n - m
        invariant
            n == s@.len(),
            m == p@.len(),
            m <= n,
            from <= i,
            find_from(s@, p@, i as int) == find_from(s@, p@, from as int),
        decreases n - m + 1 - i,
    {
        if match_at(s, p, i) {
            return Some(i);
        }
        if i == n - m {
            assert(find_from(s@, p@, i + 1) is None);
            return None;
        }
        i += 1;
    }
    None
}

/// Decides [`contains`].
pub fn mentions(s: &str, p: &str) -> (r: bool)
    ensures
        r == contains(s@, p@),
{
    proof {
        lemma_contains_find(s@, p@);
    }
    let sv = chars_of(s);
    let pv = chars_of(p);
    find_chars(&sv, &pv, 0).is_some()
}

/// Decides [`starts_with`].
pub fn begins(s: &str, p: &str) -> (r: bool)
    ensures
        r == starts_with(s@, p@),
{
    let sv = chars_of(s);
    let pv = chars_of(p);
    match_at(&sv, &pv, 0)
}

/// Decides [`ends_with`].
pub fn ends(s: &str, p: &str) -> (r: bool)
    ensures
        r == ends_with(s@, p@),
{
    let sv = chars_of(s);
    let pv = chars_of(p);
    pv.len() <= sv.len() && match_at(&sv, &pv, sv.len() - pv.len())
}

/// The text from the character at index `from`.
pub fn tail(s: &str, from: usize) -> (r: String)
    requires
        from <= s@.len(),
    ensures
        r@ == s@.skip(from as int),
{
    let v = chars_of(s);
    let n: usize = v.len();
    string_of(vstd::slice::slice_subrange(v.as_slice(), from, n))
}

// ---------------------------------------------------------------- trimming
/// The text without its leading white space.
pub open spec fn skip_white(s: Seq<char>) -> Seq<char>
    decreases s.len(),
{
    if s.len() > 0 && is_white(s[0]) {
        skip_white(s.drop_first())
    } else {
        s
    }
}

/// The text without its trailing white space.
pub open spec fn drop_white(s: Seq<char>) -> Seq<char>
    decreases s.len(),
{
    if s.len() > 0 && is_white(s.last()) {
        drop_white(s.drop_last())
    } else {
        s
    }
}

/// The text without white space at its two ends.
pub open spec fn trim(s: Seq<char>) -> Seq<char> {
    drop_white(skip_white(s))
}

/// The bounds of the trimmed text within `s`.
pub fn trim_bounds(s: &[char]) -> (r: (usize, usize))
    ensures
        r.0 <= r.1 <= s@.len(),
        s@.subrange(r.0 as int, r.1 as int) == trim(s@),
{
    let n: usize = s.len();
    let mut a: usize = 0;
    assert(s@.skip(0) == s@);
    while a < n && white(s[a])
        invariant
            n == s@.len(),
            a <= n,
            skip_white(s@.skip(a as int)) == skip_white(s@),
        decreases n - a,
    {
        assert(s@.skip(a as int).drop_first() == s@.skip(a + 1));
        a += 1;
    }
    assert(a < n ==> s@.skip(a as int)[0] == s@[a as int]);
    assert(skip_white(s@) == s@.skip(a as int));
    let mut b: usize = n;
    assert(s@.subrange(a as int, n as int) == s@.skip(a as int));
    while b > a && white(s[b - 1])
        invariant
            n == s@.len(),
            a <= b <= n,
            drop_white(s@.subrange(a as int, b as int)) == trim(s@),
        decreases b,
    {
        assert(s@.subrange(a as int, b as int).drop_last() == s@.subrange(a as int, b - 1));
        b -= 1;
    }
    assert(b > a ==> s@.subrange(a as int, b as int).last() == s@[b - 1]);
    (a, b)
}

/// Computes [`trim`] on characters.
pub fn trim_chars(s: &[char]) -> (r: Vec<char>)
    ensures
        r@ == trim(s@),
{
    let (a, b) = trim_bounds(s);
    slice_copy(s, a, b)
}

/// Computes [`trim`].
pub fn trimmed(s: &str) -> (r: String)
    ensures
        r@ == trim(s@),
{
    let v = chars_of(s);
    let (a, b) = trim_bounds(&v);
    string_of(vstd::slice::slice_subrange(v.as_slice(), a, b))
}

/// The characters of `s` from `a` to before `b`.
pub fn slice_copy(s: &[char], a: usize, b: usize) -> (r: Vec<char>)
    requires
        a <= b <= s@.len(),
    ensures
        r@ == s@.subrange(a as int, b as int),
{
    vstd::slice::slice_to_vec(vstd::slice::slice_subrange(s, a, b))
}

// --------------------------------------------------------------- splitting
/// How many characters stand before the first `c`; all of them where there is none.
pub open spec fn index_of(s: Seq<char>, c: char) -> int
    decreases s.len(),
{
    if s.len() == 0 || s[0] == c {
        0
    } else {
        1 + index_of(s.drop_first(), c)
    }
}

/// [`index_of`] is the one index that is first.
pub proof fn lemma_index_of(s: Seq<char>, c: char, k: int)
    requires
        0 <= k <= s.len(),
        forall|j: int| 0 <= j < k ==> s[j] != c,
        k < s.len() ==> s[k] == c,
    ensures
        index_of(s, c) == k,
    decreases s.len(),
{
    if k > 0 {
        assert(s[0] != c);
        lemma_index_of(s.drop_first(), c, k - 1);
    }
}

/// Nothing before [`index_of`] is `c`, and what stands there is.
pub proof fn lemma_index_of_bounds(s: Seq<char>, c: char)
    ensures
        0 <= index_of(s, c) <= s.len(),
        forall|j: int| 0 <= j < index_of(s, c) ==> s[j] != c,
        index_of(s, c) < s.len() ==> s[index_of(s, c)] == c,
    decreases s.len(),
{
    if s.len() > 0 && s[0] != c {
        let t = s.drop_first();
        lemma_index_of_bounds(t, c);
        assert forall|j: int| 0 <= j < index_of(s, c) implies s[j] != c by {
            if j > 0 {
                assert(t[j - 1] == s[j]);
            }
        }
    }
}

/// The index of the first `c` at or after `from`, or the length.
pub fn find_char(s: &[char], c: char, from: usize) -> (k: usize)
    requires
        from <= s@.len(),
    ensures
        from <= k <= s@.len(),
        k == from + index_of(s@.skip(from as int), c),
        forall|j: int| from <= j < k ==> s@[j] != c,
        k < s@.len() ==> s@[k as int] == c,
{
    let n: usize = s.len();
    let mut k: usize = from;
    while k < n && s[k] != c
        invariant
            n == s@.len(),
            from <= k <= n,
            forall|j: int| from <= j < k ==> s@[j] != c,
        decreases n - k,
    {
        k += 1;
    }
    proof {
        lemma_index_of(s@.skip(from as int), c, k - from);
    }
    k
}

/// The views of a sequence of character vectors.
pub open spec fn pieces(v: Seq<Vec<char>>) -> Seq<Seq<char>> {
    v.map_values(|x: Vec<char>| x@)
}

/// The views of a sequence of strings.
pub open spec fn views(v: Seq<String>) -> Seq<Seq<char>> {
    v.map_values(|x: String| x@)
}

/// The pieces between the occurrences of `c`; one more than there are of those.
pub open spec fn split(s: Seq<char>, c: char) -> Seq<Seq<char>>
    decreases s.len(),
{
    let k = index_of(s, c);
    if 0 <= k < s.len() {
        seq![s.take(k)] + split(s.skip(k + 1), c)
    } else {
        seq![s]
    }
}

/// Computes [`split`].
pub fn split_on(s: &[char], c: char) -> (r: Vec<Vec<char>>)
    ensures
        pieces(r@) == split(s@, c),
        r@.len() > 0,
{
    let n: usize = s.len();
    let mut out: Vec<Vec<char>> = Vec::new();
    let mut from: usize = 0;
    assert(s@.skip(0) == s@);
    assert(pieces(out@) + split(s@, c) == split(s@, c));
    loop
        invariant
            n == s@.len(),
            from <= n,
            pieces(out@) + split(s@.skip(from as int), c) == split(s@, c),
        decreases n - from,
    {
        let ghost before = pieces(out@);
        let ghost rest = s@.skip(from as int);
        let k = find_char(s, c, from);
        out.push(slice_copy(s, from, k));
        assert(s@.subrange(from as int, k as int) == rest.take(k - from));
        assert(pieces(out@) == before.push(rest.take(k - from)));
        if k == n {
            assert(rest.take(k - from) == rest);
            assert(pieces(out@) == before + seq![rest]);
            return out;
        }
        assert(rest.skip(k - from + 1) == s@.skip(k + 1));
        assert(pieces(out@) + split(s@.skip(k + 1), c) == before + (seq![rest.take(k - from)]
            + split(s@.skip(k + 1), c)));
        from = k + 1;
    }
}

/// A line without the carriage return that a line feed followed.
pub open spec fn strip_cr(s: Seq<char>) -> Seq<char> {
    if s.len() > 0 && s.last() == '\r' {
        s.drop_last()
    } else {
        s
    }
}

/// The lines of a text: each ends at a line feed, with or without a carriage return before it;
/// what follows the last line feed is a line where it is not empty.
pub open spec fn lines(s: Seq<char>) -> Seq<Seq<char>>
    decreases s.len(),
{
    let k = index_of(s, '\n');
    if s.len() == 0 {
        seq![]
    } else if 0 <= k < s.len() {
        seq![strip_cr(s.take(k))] + lines(s.skip(k + 1))
    } else {
        seq![s]
    }
}

/// Computes [`lines`].
pub fn split_lines(s: &[char]) -> (r: Vec<Vec<char>>)
    ensures
        pieces(r@) == lines(s@),
{
    let n: usize = s.len();
    let mut out: Vec<Vec<char>> = Vec::new();
    let mut from: usize = 0;
    assert(s@.skip(0) == s@);
    assert(pieces(out@) + lines(s@) == lines(s@));
    while from < n
        invariant
            n == s@.len(),
            from <= n,
            pieces(out@) + lines(s@.skip(from as int)) == lines(s@),
        decreases n - from,
    {
        let ghost before = pieces(out@);
        let ghost rest = s@.skip(from as int);
        let k = find_char(s, '\n', from);
        assert(s@.subrange(from as int, k as int) == rest.take(k - from));
        if k == n {
            out.push(slice_copy(s, from, k));
            assert(rest.take(k - from) == rest);
            assert(pieces(out@) == before + seq![rest]);
            return out;
        }
        let end = if k > from && s[k - 1] == '\r' { k - 1 } else { k };
        out.push(slice_copy(s, from, end));
        assert(s@.subrange(from as int, end as int) == strip_cr(rest.take(k - from)));
        assert(pieces(out@) == before.push(strip_cr(rest.take(k - from))));
        assert(rest.skip(k - from + 1) == s@.skip(k + 1));
        assert(pieces(out@) + lines(s@.skip(k + 1)) == before + (seq![strip_cr(
            rest.take(k - from),
        )] + lines(s@.skip(k + 1))));
        from = k + 1;
    }
    assert(lines(s@.skip(n as int)) == Seq::<Seq<char>>::empty());
    assert(pieces(out@) + lines(s@.skip(n as int)) == pieces(out@));
    out
}

// ----------------------------------------------------------------- decimals
/// `n` in decimal, without leading zeros.
pub open spec fn dec(n: nat) -> Seq<char>
    decreases n,
{
    if n < 10 {
        seq![digit_char(n as int)]
    } else {
        dec(n / 10).push(digit_char((n % 10) as int))
    }
}

/// `n` in decimal, with leading zeros up to `width` characters.
pub open spec fn padded(n: nat, width: nat) -> Seq<char> {
    let d = dec(n);
    if d.len() < width {
        Seq::new((width - d.len()) as nat, |i: int| '0') + d
    } else {
        d
    }
}

/// Every character is a digit.
pub open spec fn all_digits(s: Seq<char>) -> bool {
    forall|i: int| 0 <= i < s.len() ==> is_digit(s[i])
}

/// The value of a sequence of digits.
pub open spec fn dec_value(s: Seq<char>) -> nat
    decreases s.len(),
{
    if s.len() == 0 {
        0
    } else {
        (dec_value(s.drop_last()) * 10 + digit_value(s.last())) as nat
    }
}

/// A text read as an unsigned number: one or more digits, behind at most one plus sign.
pub open spec fn parse_nat(s: Seq<char>) -> Option<nat> {
    let t = if s.len() > 0 && s[0] == '+' {
        s.drop_first()
    } else {
        s
    };
    if t.len() > 0 && all_digits(t) {
        Some(dec_value(t))
    } else {
        None
    }
}

/// [`parse_nat`] where the value is at most `max`.
pub open spec fn parse_up_to(s: Seq<char>, max: nat) -> Option<nat> {
    match parse_nat(s) {
        Some(v) => if v <= max {
            Some(v)
        } else {
            None
        },
        None => None,
    }
}

/// Appends [`dec`] of `n`.
pub fn push_dec(out: &mut String, n: u64)
    ensures
        final(out)@ == old(out)@ + dec(n as nat),
    decreases n,
{
    if n >= 10 {
        push_dec(out, n / 10);
    }
    let d: u8 = (n % 10) as u8;
    out.push((48 + d) as char);
    assert(out@ == old(out)@ + dec(n as nat));
}

/// `n` in decimal.
pub fn dec_string(n: u64) -> (r: String)
    ensures
        r@ == dec(n as nat),
{
    let mut out = String::new();
    push_dec(&mut out, n);
    assert(Seq::<char>::empty() + dec(n as nat) == dec(n as nat));
    out
}

/// Appends [`padded`] of `n`.
pub fn push_padded(out: &mut String, n: u64, width: usize)
    ensures
        final(out)@ == old(out)@ + padded(n as nat, width as nat),
{
    let d = chars_of(&dec_string(n));
    let len: usize = d.len();
    let mut i: usize = len;
    while i < width
        invariant
            d@ == dec(n as nat),
            len == d@.len(),
            len <= i,
            len <= width ==> i <= width,
            len > width ==> i == len,
            out@ == old(out)@ + Seq::new((i - len) as nat, |k: int| '0'),
        decreases width - i,
    {
        out.push('0');
        i += 1;
        assert(Seq::new((i - len) as nat, |k: int| '0') == Seq::new(
            (i - 1 - len) as nat,
            |k: int| '0',
        ).push('0'));
        assert(out@ == old(out)@ + Seq::new((i - len) as nat, |k: int| '0'));
    }
    let s = string_of(&d);
    out.append(s.as_str());
    assert(out@ == old(out)@ + padded(n as nat, width as nat));
}

/// Digits only ever make a value larger.
pub proof fn lemma_dec_value_prefix(s: Seq<char>, i: int)
    requires
        all_digits(s),
        0 <= i <= s.len(),
    ensures
        dec_value(s.take(i)) <= dec_value(s),
    decreases s.len(),
{
    if i < s.len() {
        assert(s.drop_last().take(i) == s.take(i));
        lemma_dec_value_prefix(s.drop_last(), i);
    } else {
        assert(s.take(i) == s);
    }
}

/// Reads an unsigned number of at most `max`.
pub fn read_number(s: &[char], max: u64) -> (r: Option<u64>)
    ensures
        match r {
            Some(v) => parse_up_to(s@, max as nat) == Some(v as nat),
            None => parse_up_to(s@, max as nat) is None,
        },
{
    let n: usize = s.len();
    let start: usize = if n > 0 && s[0] == '+' { 1 } else { 0 };
    if start == n {
        assert(n == 0 || s@.drop_first().len() == 0);
        return None;
    }
    let ghost t = s@.skip(start as int);
    assert(start == 1 ==> t == s@.drop_first());
    assert(start == 0 ==> t == s@);
    let mut v: u64 = 0;
    let mut i: usize = start;
    assert(t.take(0) == Seq::<char>::empty());
    while i < n
        invariant
            n == s@.len(),
            start <= i <= n,
            start < n,
            start <= 1,
            t == s@.skip(start as int),
            start == 1 ==> s@[0] == '+' && t == s@.drop_first(),
            start == 0 ==> t == s@ && s@[0] != '+',
            all_digits(t.take(i - start)),
            v == dec_value(t.take(i - start)),
            v <= max,
        decreases n - i,
    {
        let c = s[i];
        assert(t[i - start] == c);
        if !digit(c) {
            assert(!all_digits(t));
            return None;
        }
        let d: u64 = (c as u8 - 48) as u64;
        assert(t.take(i + 1 - start).drop_last() == t.take(i - start));
        assert(dec_value(t.take(i + 1 - start)) == v * 10 + d);
        if v > max / 10 || d > max - v * 10 {
            proof {
                if all_digits(t) {
                    lemma_dec_value_prefix(t, i + 1 - start);
                }
            }
            return None;
        }
        v = v * 10 + d;
        i += 1;
    }
    assert(t.take(n - start) == t);
    Some(v)
}

/// Reads characters as a `u32`.
pub fn read_u32(s: &[char]) -> (r: Option<u32>)
    ensures
        match r {
            Some(v) => parse_up_to(s@, u32::MAX as nat) == Some(v as nat),
            None => parse_up_to(s@, u32::MAX as nat) is None,
        },
{
    match read_number(s, u32::MAX as u64) {
        Some(v) => Some(v as u32),
        None => None,
    }
}

/// What is written in decimal is digits, at least one, and reads back as itself.
pub proof fn lemma_dec(n: nat)
    ensures
        dec(n).len() > 0,
        all_digits(dec(n)),
        dec_value(dec(n)) == n,
        dec(n)[0] != '+',
        parse_nat(dec(n)) == Some(n),
    decreases n,
{
    let d = dec(n);
    if n < 10 {
        assert(d.drop_last() =~= Seq::<char>::empty());
        assert(dec_value(Seq::<char>::empty()) == 0);
        assert(digit_value(d.last()) == n);
    } else {
        lemma_dec(n / 10);
        assert(d.drop_last() =~= dec(n / 10));
        assert(digit_value(d.last()) == n % 10);
        assert(d[0] == dec(n / 10)[0]);
    }
}

/// Leading zeros change nothing in the value.
pub proof fn lemma_dec_value_zeros(k: nat, d: Seq<char>)
    requires
        all_digits(d),
    ensures
        dec_value(Seq::new(k, |i: int| '0') + d) == dec_value(d),
    decreases k + d.len(),
{
    let z = Seq::new(k, |i: int| '0');
    let s = z + d;
    if d.len() > 0 {
        assert(s.drop_last() =~= z + d.drop_last());
        lemma_dec_value_zeros(k, d.drop_last());
        assert(s.last() == d.last());
    } else if k > 0 {
        assert(s.drop_last() =~= Seq::new((k - 1) as nat, |i: int| '0') + d);
        lemma_dec_value_zeros((k - 1) as nat, d);
        assert(s.last() == '0');
    } else {
        assert(s =~= d);
    }
}

/// A padded number reads back as itself.
pub proof fn lemma_padded(n: nat, width: nat)
    ensures
        padded(n, width).len() > 0,
        padded(n, width).len() >= width,
        all_digits(padded(n, width)),
        parse_nat(padded(n, width)) == Some(n),
{
    lemma_dec(n);
    let d = dec(n);
    if d.len() < width {
        lemma_dec_value_zeros((width - d.len()) as nat, d);
        assert(padded(n, width)[0] == '0');
    }
}

// ------------------------------------------------------------ Unicode tables
/// Every character is ASCII.
pub open spec fn all_ascii(s: Seq<char>) -> bool {
    forall|i: int| 0 <= i < s.len() ==> (#[trigger] s[i] as int) < 128
}

/// The text with every ASCII letter in upper case.
pub open spec fn ascii_upper(s: Seq<char>) -> Seq<char> {
    s.map_values(
        |c: char|
            if 'a' <= c <= 'z' {
                (c as u8 - 32) as u8 as char
            } else {
                c
            },
    )
}

/// What `str::to_lowercase` makes of a text.
pub uninterp spec fn lowercase(s: Seq<char>) -> Seq<char>;

/// `str::to_lowercase`: the result is a function of the text alone, and on ASCII text it is the
/// text with its letters in lower case.
#[verifier::external_body]
pub(crate) fn to_lowercase(s: &str) -> (r: String)
    ensures
        r@ == lowercase(s@),
        all_ascii(s@) ==> r@ == ascii_lower(s@),
{
    s.to_lowercase()
}

/// What `str::to_uppercase` makes of a text.
pub uninterp spec fn uppercase(s: Seq<char>) -> Seq<char>;

/// `str::to_uppercase`: the result is a function of the text alone, and on ASCII text it is the
/// text with its letters in upper case.
#[verifier::external_body]
pub(crate) fn to_uppercase(s: &str) -> (r: String)
    ensures
        r@ == uppercase(s@),
        all_ascii(s@) ==> r@ == ascii_upper(s@),
{
    s.to_uppercase()
}

/// What `char::is_alphanumeric` says of a character.
pub uninterp spec fn alphanumeric(c: char) -> bool;

/// `char::is_alphanumeric`: the result is a function of the character alone, and of the ASCII
/// characters the letters and digits are alphanumeric.
#[verifier::external_body]
pub(crate) fn is_alphanumeric(c: char) -> (r: bool)
    ensures
        r == alphanumeric(c),
        (c as int) < 128 ==> r == is_ascii_alnum(c),
{
    c.is_alphanumeric()
}

/// An ASCII letter or digit.
pub open spec fn is_ascii_alnum(c: char) -> bool {
    is_digit(c) || 'a' <= c <= 'z' || 'A' <= c <= 'Z'
}

/// Decides [`is_ascii_alnum`].
pub fn ascii_alnum(c: char) -> (r: bool)
    ensures
        r == is_ascii_alnum(c),
{
    digit(c) || ('a' <= c && c <= 'z') || ('A' <= c && c <= 'Z')
}

// -------------------------------------------------------------------- joining
/// The pieces one behind the other, with `sep` between each two.
pub open spec fn join(v: Seq<Seq<char>>, sep: Seq<char>) -> Seq<char>
    decreases v.len(),
{
    if v.len() == 0 {
        seq![]
    } else if v.len() == 1 {
        v[0]
    } else {
        join(v.drop_last(), sep) + sep + v.last()
    }
}

/// Computes [`join`].
pub fn join_chars(v: &Vec<Vec<char>>, sep: &str) -> (r: String)
    ensures
        r@ == join(pieces(v@), sep@),
{
    let n: usize = v.len();
    let mut out = String::new();
    let mut i: usize = 0;
    assert(pieces(v@).take(0) =~= Seq::<Seq<char>>::empty());
    while i < n
        invariant
            n == v@.len(),
            i <= n,
            out@ == join(pieces(v@).take(i as int), sep@),
        decreases n - i,
    {
        let piece = string_of(&v[i]);
        if i > 0 {
            out.append(sep);
        }
        out.append(piece.as_str());
        proof {
            let t = pieces(v@).take(i + 1);
            assert(t.drop_last() =~= pieces(v@).take(i as int));
            assert(t.last() == piece@);
            assert(i == 0 ==> out@ =~= piece@);
        }
        i += 1;
    }
    assert(pieces(v@).take(n as int) =~= pieces(v@));
    out
}

/// Splitting puts what stands behind the last separator last.
pub proof fn lemma_split_behind(a: Seq<char>, b: Seq<char>, sep: char)
    requires
        forall|i: int| 0 <= i < b.len() ==> #[trigger] b[i] != sep,
    ensures
        split(a + seq![sep] + b, sep) == split(a, sep).push(b),
    decreases a.len(),
{
    let s = a + seq![sep] + b;
    let k = index_of(a, sep);
    lemma_index_of_bounds(a, sep);
    assert forall|j: int| 0 <= j < k implies s[j] != sep by {
        assert(s[j] == a[j]);
    }
    assert(s[k] == sep) by {
        if k < a.len() {
            assert(s[k] == a[k]);
        }
    }
    lemma_index_of(s, sep, k);
    assert(s.take(k) =~= a.take(k));
    if k < a.len() {
        lemma_split_behind(a.skip(k + 1), b, sep);
        assert(s.skip(k + 1) =~= a.skip(k + 1) + seq![sep] + b);
        assert(split(s, sep) =~= split(a, sep).push(b));
    } else {
        assert(a.take(k) =~= a);
        assert(s.skip(k + 1) =~= b);
        lemma_index_of(b, sep, b.len() as int);
        assert(split(b, sep) == seq![b]);
        assert(split(s, sep) =~= split(a, sep).push(b));
    }
}

/// No piece holds the separator; where `d` does not occur, it is in no piece either.
pub proof fn lemma_split_pieces(s: Seq<char>, c: char, d: char)
    requires
        forall|j: int| 0 <= j < s.len() ==> #[trigger] s[j] != d,
    ensures
        split(s, c).len() > 0,
        forall|i: int, j: int|
            0 <= i < split(s, c).len() && 0 <= j < split(s, c)[i].len() ==> #[trigger] split(
                s,
                c,
            )[i][j] != c && split(s, c)[i][j] != d,
    decreases s.len(),
{
    let k = index_of(s, c);
    lemma_index_of_bounds(s, c);
    if k < s.len() {
        let t = s.skip(k + 1);
        assert forall|j: int| 0 <= j < t.len() implies #[trigger] t[j] != d by {
            assert(t[j] == s[k + 1 + j]);
        }
        lemma_split_pieces(t, c, d);
        assert forall|i: int, j: int|
            0 <= i < split(s, c).len() && 0 <= j < split(s, c)[i].len() implies #[trigger] split(
            s,
            c,
        )[i][j] != c && split(s, c)[i][j] != d by {
            if i == 0 {
                assert(split(s, c)[i][j] == s[j]);
            } else {
                assert(split(s, c)[i] == split(t, c)[i - 1]);
                assert(split(t, c)[i - 1][j] != c);
            }
        }
    }
}

/// What is in no piece, and is not the separator, does not occur.
pub proof fn lemma_whole_of_pieces(s: Seq<char>, c: char, d: char)
    requires
        c != d,
        forall|i: int, j: int|
            0 <= i < split(s, c).len() && 0 <= j < split(s, c)[i].len() ==> #[trigger] split(
                s,
                c,
            )[i][j] != d,
    ensures
        forall|j: int| 0 <= j < s.len() ==> #[trigger] s[j] != d,
    decreases s.len(),
{
    let k = index_of(s, c);
    lemma_index_of_bounds(s, c);
    let w = split(s, c);
    if k < s.len() {
        let t = s.skip(k + 1);
        assert forall|i: int, j: int|
            0 <= i < split(t, c).len() && 0 <= j < split(t, c)[i].len() implies #[trigger] split(
            t,
            c,
        )[i][j] != d by {
            assert(w[i + 1] == split(t, c)[i]);
            assert(w[i + 1][j] != d);
        }
        lemma_whole_of_pieces(t, c, d);
        assert forall|j: int| 0 <= j < s.len() implies #[trigger] s[j] != d by {
            if j < k {
                assert(w[0][j] == s[j]);
            } else if j > k {
                assert(t[j - k - 1] == s[j]);
            }
        }
    } else {
        assert forall|j: int| 0 <= j < s.len() implies #[trigger] s[j] != d by {
            assert(w[0][j] == s[j]);
        }
    }
}

/// Pieces without the separator are what their joining splits into; where `d` is in none of
/// them, it is not in what they join to.
pub proof fn lemma_split_join(v: Seq<Seq<char>>, c: char, d: char)
    requires
        v.len() > 0,
        c != d,
        forall|i: int, j: int|
            0 <= i < v.len() && 0 <= j < v[i].len() ==> #[trigger] v[i][j] != c && v[i][j] != d,
    ensures
        split(join(v, seq![c]), c) == v,
        forall|j: int| 0 <= j < join(v, seq![c]).len() ==> #[trigger] join(v, seq![c])[j] != d,
    decreases v.len(),
{
    let s = join(v, seq![c]);
    if v.len() == 1 {
        lemma_index_of(s, c, s.len() as int);
        assert(split(s, c) =~= v);
    } else {
        let t = v.drop_last();
        let a = join(t, seq![c]);
        let b = v.last();
        assert forall|i: int, j: int| 0 <= i < t.len() && 0 <= j < t[i].len() implies #[trigger] t[i][j]
            != c && t[i][j] != d by {
            assert(t[i] == v[i]);
            assert(v[i][j] != c);
        }
        lemma_split_join(t, c, d);
        assert forall|j: int| 0 <= j < b.len() implies #[trigger] b[j] != c && b[j] != d by {
            assert(v[v.len() - 1][j] != c);
        }
        lemma_split_behind(a, b, c);
        assert(t.push(b) =~= v);
        assert forall|j: int| 0 <= j < s.len() implies #[trigger] s[j] != d by {
            if j < a.len() {
                assert(s[j] == a[j]);
            } else if j > a.len() {
                assert(s[j] == b[j - a.len() - 1]);
            }
        }
    }
}

pub proof fn lemma_join_first(p: Seq<char>, v: Seq<Seq<char>>, sep: Seq<char>)
    requires
        v.len() > 0,
    ensures
        join(seq![p] + v, sep) == p + sep + join(v, sep),
    decreases v.len(),
{
    let w = seq![p] + v;
    assert(w.last() == v.last());
    if v.len() == 1 {
        assert(w.drop_last() =~= seq![p]);
        assert(join(w.drop_last(), sep) == p);
    } else {
        assert(w.drop_last() =~= seq![p] + v.drop_last());
        lemma_join_first(p, v.drop_last(), sep);
        assert(join(w, sep) =~= p + sep + join(v, sep));
    }
}

/// Joining undoes splitting.
pub proof fn lemma_join_split(s: Seq<char>, c: char)
    ensures
        join(split(s, c), seq![c]) == s,
    decreases s.len(),
{
    let k = index_of(s, c);
    lemma_index_of_bounds(s, c);
    if k < s.len() {
        let t = s.skip(k + 1);
        lemma_join_split(t, c);
        lemma_join_first(s.take(k), split(t, c), seq![c]);
        assert(s.take(k) + seq![c] + t =~= s);
    }
}

/// The pieces that are not empty.
pub open spec fn nonempty(v: Seq<Seq<char>>) -> Seq<Seq<char>> {
    v.filter(|p: Seq<char>| p.len() > 0)
}

/// Computes [`nonempty`].
pub fn keep_nonempty(v: Vec<Vec<char>>) -> (r: Vec<Vec<char>>)
    ensures
        pieces(r@) == nonempty(pieces(v@)),
{
    let n: usize = v.len();
    let mut out: Vec<Vec<char>> = Vec::new();
    let mut i: usize = 0;
    let ghost keep = |p: Seq<char>| p.len() > 0;
    assert(pieces(v@).take(0).filter(keep) =~= Seq::<Seq<char>>::empty()) by {
        reveal(Seq::filter);
    }
    while i < n
        invariant
            n == v@.len(),
            i <= n,
            keep == (|p: Seq<char>| p.len() > 0),
            pieces(out@) == pieces(v@).take(i as int).filter(keep),
        decreases n - i,
    {
        let ghost before = pieces(out@);
        if v[i].len() > 0 {
            let piece = slice_copy(&v[i], 0, v[i].len());
            assert(piece@ =~= v@[i as int]@);
            out.push(piece);
            assert(pieces(out@) =~= before.push(v@[i as int]@));
        }
        proof {
            let t = pieces(v@).take(i + 1);
            assert(t.drop_last() =~= pieces(v@).take(i as int));
            reveal(Seq::filter);
            assert(t.last() == v@[i as int]@);
        }
        i += 1;
    }
    assert(pieces(v@).take(n as int) =~= pieces(v@));
    out
}

} // verus!
