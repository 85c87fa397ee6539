//! Numbers with a fraction and an exponent, read exactly, and the sizes that are written with
//! them.
use vstd::prelude::*;

use crate::text::{
    all_digits, ascii_lower, chars_of, dec_value, digit, digit_value, find_char, index_of, is_digit,
    is_white, lowercase, pieces, same, slice_copy, string_of, to_ascii_lower, to_lowercase, white,
};

verus! {

// --------------------------------------------------------------------- words
/// How many characters stand before the first white space.
pub open spec fn word_len(s: Seq<char>) -> int
    decreases s.len(),
{
    if s.len() == 0 || is_white(s[0]) {
        0
    } else {
        1 + word_len(s.drop_first())
    }
}

/// The words of a text: its runs of characters that are not white space.
pub open spec fn words(s: Seq<char>) -> Seq<Seq<char>>
    decreases s.len(),
{
    if s.len() == 0 {
        seq![]
    } else if is_white(s[0]) {
        words(s.drop_first())
    } else {
        let k = word_len(s);
        if 0 < k <= s.len() {
            seq![s.take(k)] + words(s.skip(k))
        } else {
            seq![]
        }
    }
}

proof fn lemma_word_len(s: Seq<char>, k: int)
    requires
        0 <= k <= s.len(),
        forall|j: int| 0 <= j < k ==> !is_white(s[j]),
        k < s.len() ==> is_white(s[k]),
    ensures
        word_len(s) == k,
    decreases s.len(),
{
    if k > 0 {
        lemma_word_len(s.drop_first(), k - 1);
    }
}

/// Computes [`words`].
pub fn split_words(s: &[char]) -> (r: Vec<Vec<char>>)
    ensures
        pieces(r@) == words(s@),
{
    let n: usize = s.len();
    let mut out: Vec<Vec<char>> = Vec::new();
    let mut i: usize = 0;
    assert(s@.skip(0) =~= s@);
    assert(pieces(out@) + words(s@) =~= words(s@));
    while i < n
        invariant
            n == s@.len(),
            i <= n,
            pieces(out@) + words(s@.skip(i as int)) == words(s@),
        decreases n - i,
    {
        let ghost rest = s@.skip(i as int);
        if white(s[i]) {
            assert(rest.drop_first() =~= s@.skip(i + 1));
            i += 1;
        } else {
            let ghost before = pieces(out@);
            let mut k: usize = i;
            while k < n && !white(s[k])
                invariant
                    n == s@.len(),
                    i <= k <= n,
                    forall|j: int| i <= j < k ==> !is_white(s@[j]),
                decreases n - k,
            {
                k += 1;
            }
            proof {
                lemma_word_len(rest, k - i);
            }
            assert(k > i);
            out.push(slice_copy(s, i, k));
            assert(s@.subrange(i as int, k as int) =~= rest.take(k - i));
            assert(pieces(out@) =~= before.push(rest.take(k - i)));
            assert(rest.skip(k - i) =~= s@.skip(k as int));
            assert(pieces(out@) + words(s@.skip(k as int)) =~= before + (seq![rest.take(k - i)]
                + words(s@.skip(k as int))));
            i = k;
        }
    }
    assert(words(s@.skip(n as int)) =~= Seq::<Seq<char>>::empty());
    assert(pieces(out@) + words(s@.skip(n as int)) =~= pieces(out@));
    out
}

// ------------------------------------------------------------------ numerals
/// Ten to the power of `n`.
pub open spec fn pow10(n: nat) -> nat
    decreases n,
{
    if n == 0 {
        1
    } else {
        10 * pow10((n - 1) as nat)
    }
}

/// A number as it is written.
pub enum Numeral {
    /// A sign, digits, and the power of ten that they are times.
    Finite(bool, Seq<char>, int),
    Infinite(bool),
    NotANumber,
}

/// Where the exponent of a number begins: at the first `e` of either case.
pub open spec fn exponent_mark(s: Seq<char>) -> int
    decreases s.len(),
{
    if s.len() == 0 || s[0] == 'e' || s[0] == 'E' {
        0
    } else {
        1 + exponent_mark(s.drop_first())
    }
}

/// The largest exponent that is told from larger ones.
pub open spec fn exponent_bound() -> nat {
    0x1_0000_0000_0000_0000_0000
}

/// An exponent: digits behind at most one sign, held at a bound that is past every difference it
/// could make.
pub open spec fn exponent(s: Seq<char>) -> Option<int> {
    let signed = s.len() > 0 && (s[0] == '+' || s[0] == '-');
    let t = if signed {
        s.drop_first()
    } else {
        s
    };
    if t.len() > 0 && all_digits(t) {
        let size = if dec_value(t) > exponent_bound() {
            exponent_bound() as int
        } else {
            dec_value(t) as int
        };
        Some(
            if signed && s[0] == '-' {
                -size
            } else {
                size
            },
        )
    } else {
        None
    }
}

/// A number without its sign: a word for one that is not finite; or digits with at most one point
/// among them, and an exponent where an `e` follows.
pub open spec fn unsigned_numeral(t: Seq<char>, negative: bool) -> Option<Numeral> {
    let lower = ascii_lower(t);
    let k = exponent_mark(t);
    let mantissa = t.take(k);
    let point = index_of(mantissa, '.');
    let whole = mantissa.take(point);
    let frac = if point < mantissa.len() {
        mantissa.skip(point + 1)
    } else {
        Seq::empty()
    };
    let power = if k < t.len() {
        exponent(t.skip(k + 1))
    } else {
        Some(0int)
    };
    if lower == "inf"@ || lower == "infinity"@ {
        Some(Numeral::Infinite(negative))
    } else if lower == "nan"@ {
        Some(Numeral::NotANumber)
    } else if all_digits(whole + frac) && whole.len() + frac.len() > 0 && power is Some {
        Some(Numeral::Finite(negative, whole + frac, power->0 - frac.len()))
    } else {
        None
    }
}

/// A text read as a number, behind at most one sign.
pub open spec fn numeral(s: Seq<char>) -> Option<Numeral> {
    if s.len() > 0 && (s[0] == '+' || s[0] == '-') {
        unsigned_numeral(s.drop_first(), s[0] == '-')
    } else {
        unsigned_numeral(s, false)
    }
}

/// Digits times a factor and a power of ten, rounded down.
pub open spec fn magnitude(digits: Seq<char>, power: int, factor: nat) -> nat {
    if power >= 0 {
        dec_value(digits) * factor * pow10(power as nat)
    } else {
        (dec_value(digits) * factor) / pow10((-power) as nat)
    }
}

/// A number times a factor, rounded down to a whole number and held within 64 bits: nothing below
/// 0, and 0 for what is no number.
pub open spec fn times(n: Numeral, factor: nat) -> u64 {
    match n {
        Numeral::Finite(negative, digits, power) => {
            let exact = magnitude(digits, power, factor);
            if negative {
                0
            } else if exact > u64::MAX {
                u64::MAX
            } else {
                exact as u64
            }
        },
        Numeral::Infinite(negative) => if negative {
            0
        } else {
            u64::MAX
        },
        Numeral::NotANumber => 0,
    }
}

/// A number in units of which there are `unit` to one, rounded to the nearest, a half away from
/// 0, and held within 64 bits; none for what is no number.
pub open spec fn rounded(s: Seq<char>, unit: nat) -> Option<i64> {
    match numeral(s) {
        Some(Numeral::Finite(negative, digits, power)) => {
            let twice = times(Numeral::Finite(false, digits, power), 2 * unit);
            let whole = (twice + 1) / 2;
            let held = if whole > i64::MAX {
                i64::MAX as int
            } else {
                whole
            };
            Some(
                if negative {
                    (-held) as i64
                } else {
                    held as i64
                },
            )
        },
        Some(Numeral::Infinite(negative)) => Some(
            if negative {
                (-i64::MAX) as i64
            } else {
                i64::MAX
            },
        ),
        _ => None,
    }
}

// ---------------------------------------------------------------- arithmetic
/// The share of a factor that digits behind a point make up, digit by digit from the right.
spec fn share(frac: Seq<char>, factor: nat) -> nat
    decreases frac.len(),
{
    if frac.len() == 0 {
        0
    } else {
        ((digit_value(frac[0]) * factor + share(frac.drop_first(), factor)) / 10) as nat
    }
}

proof fn lemma_pow10_positive(n: nat)
    ensures
        pow10(n) > 0,
    decreases n,
{
    if n > 0 {
        lemma_pow10_positive((n - 1) as nat);
    }
}

proof fn lemma_pow10_sum(a: nat, b: nat)
    ensures
        pow10(a + b) == pow10(a) * pow10(b),
    decreases b,
{
    if b == 0 {
        assert(pow10(a) * 1 == pow10(a)) by (nonlinear_arith);
    } else {
        let c = (b - 1) as nat;
        lemma_pow10_sum(a, c);
        assert(pow10(a + b) == 10 * pow10((a + b - 1) as nat));
        assert((a + b - 1) as nat == a + c);
        assert(10 * (pow10(a) * pow10(c)) == pow10(a) * (10 * pow10(c))) by (nonlinear_arith);
    }
}

pub proof fn lemma_dec_value_parts(a: Seq<char>, b: Seq<char>)
    requires
        all_digits(a),
        all_digits(b),
    ensures
        dec_value(a + b) == dec_value(a) * pow10(b.len()) + dec_value(b),
    decreases b.len(),
{
    if b.len() == 0 {
        assert(a + b =~= a);
        assert(dec_value(a) * 1 == dec_value(a)) by (nonlinear_arith);
    } else {
        let c = b.drop_last();
        lemma_dec_value_parts(a, c);
        assert((a + b).drop_last() =~= a + c);
        assert((a + b).last() == b.last());
        assert(is_digit(b[b.len() - 1]));
        let p = pow10(c.len());
        assert(pow10(b.len()) == 10 * p);
        let x = dec_value(a);
        assert((x * p + dec_value(c)) * 10 == x * (10 * p) + dec_value(c) * 10)
            by (nonlinear_arith);
    }
}

proof fn lemma_share(frac: Seq<char>, factor: nat)
    requires
        all_digits(frac),
    ensures
        share(frac, factor) == (dec_value(frac) * factor) / pow10(frac.len()),
        factor > 0 ==> share(frac, factor) < factor,
        factor == 0 ==> share(frac, factor) == 0,
    decreases frac.len(),
{
    lemma_pow10_positive(frac.len());
    if frac.len() == 0 {
        assert((0 * factor) / 1 == 0) by (nonlinear_arith);
        assert(dec_value(frac) == 0);
    } else {
        let rest = frac.drop_first();
        lemma_share(rest, factor);
        let head = frac.take(1);
        assert(head + rest =~= frac);
        lemma_dec_value_parts(head, rest);
        assert(is_digit(frac[0]));
        assert(head.drop_last() =~= Seq::<char>::empty());
        assert(dec_value(Seq::<char>::empty()) == 0);
        assert(dec_value(head) == digit_value(frac[0]));
        let d = digit_value(frac[0]);
        let p = pow10(rest.len()) as int;
        let v = dec_value(rest) as int;
        let f = factor as int;
        lemma_pow10_positive(rest.len());
        let q = (v * f) / p;
        assert(share(rest, factor) == q);
        assert(dec_value(frac) == d * p + v);
        assert((d * p + v) * f == (d * f) * p + v * f) by (nonlinear_arith);
        assert(((d * f) * p + v * f) / (10 * p) == (d * f + q) / 10) by {
            vstd::arithmetic::div_mod::lemma_div_denominator((d * f) * p + v * f, p, 10);
            assert(p * 10 == 10 * p);
            vstd::arithmetic::div_mod::lemma_hoist_over_denominator(v * f, d * f, p as nat);
            assert(d * f * p == (d * f) * p);
        }
        assert(0 <= d * f + q);
        if factor > 0 {
            assert(d * f <= 9 * f) by (nonlinear_arith)
                requires
                    d <= 9,
                    f > 0,
            ;
        } else {
            assert(d * f == 0) by (nonlinear_arith)
                requires
                    f == 0,
            ;
        }
    }
}

/// A bound that is past every result.
const PAST: u128 = 0x1_0000_0000_0000_0000;

/// The value of digits, held at [`PAST`].
fn bounded_value(s: &[char]) -> (r: u128)
    requires
        all_digits(s@),
    ensures
        r <= PAST,
        r < PAST ==> r == dec_value(s@),
        r == PAST ==> dec_value(s@) >= PAST,
{
    let n: usize = s.len();
    let mut v: u128 = 0;
    let mut i: usize = 0;
    assert(s@.take(0) =~= Seq::<char>::empty());
    while i < n
        invariant
            n == s@.len(),
            i <= n,
            all_digits(s@),
            v <= PAST,
            v < PAST ==> v == dec_value(s@.take(i as int)),
            v == PAST ==> dec_value(s@.take(i as int)) >= PAST,
        decreases n - i,
    {
        let c = s[i];
        assert(is_digit(s@[i as int]));
        let d: u128 = (c as u8 - 48) as u128;
        assert(s@.take(i + 1).drop_last() =~= s@.take(i as int));
        assert(s@.take(i + 1).last() == c);
        if v < PAST {
            let w: u128 = v * 10 + d;
            v = if w < PAST { w } else { PAST };
        }
        i += 1;
    }
    assert(s@.take(n as int) =~= s@);
    v
}

/// The share of a factor that digits behind a point make up.
fn share_of(s: &[char], factor: u64) -> (r: u128)
    requires
        all_digits(s@),
        factor <= 0x100_0000_0000,
    ensures
        r == (dec_value(s@) * factor) / (pow10(s@.len()) as int),
        r <= factor,
{
    let n: usize = s.len();
    let ghost f = factor as nat;
    let mut part: u128 = 0;
    let mut j: usize = n;
    assert(s@.skip(n as int) =~= Seq::<char>::empty());
    while j > 0
        invariant
            n == s@.len(),
            j <= n,
            all_digits(s@),
            f == factor,
            factor <= 0x100_0000_0000,
            part == share(s@.skip(j as int), f),
            part <= factor,
        decreases j,
    {
        let c = s[j - 1];
        assert(is_digit(s@[j - 1]));
        let d: u128 = (c as u8 - 48) as u128;
        let ghost next = s@.skip(j - 1);
        assert(next.drop_first() =~= s@.skip(j as int));
        assert(next[0] == c);
        assert(d * factor <= 9 * 0x100_0000_0000) by (nonlinear_arith)
            requires
                d <= 9,
                factor <= 0x100_0000_0000,
        ;
        part = (d * factor as u128 + part) / 10;
        assert(part == share(next, f));
        proof {
            lemma_share(next, f);
        }
        j -= 1;
    }
    assert(s@.skip(0) =~= s@);
    proof {
        lemma_share(s@, f);
    }
    part
}

proof fn lemma_product_past(v: u128, exact: nat, f: nat)
    requires
        v <= PAST,
        v < PAST ==> v == exact,
        v == PAST ==> exact >= PAST,
    ensures
        v * f <= exact * f,
        v * f < PAST ==> v * f == exact * f,
{
    if v == PAST {
        if f == 0 {
            assert(exact * f == 0 && v * f == 0) by (nonlinear_arith)
                requires
                    f == 0,
            ;
        } else {
            assert(v * f >= PAST) by (nonlinear_arith)
                requires
                    v == PAST,
                    f >= 1,
            ;
            assert(v * f <= exact * f) by (nonlinear_arith)
                requires
                    v <= exact,
                    f >= 1,
            ;
        }
    }
}

/// Digits times a factor and a power of ten that is not negative, held at [`PAST`].
fn scaled_up(s: &[char], power: u128, factor: u64) -> (r: u128)
    requires
        all_digits(s@),
        factor <= 0x100_0000_0000,
    ensures
        r <= PAST,
        r < PAST ==> r == dec_value(s@) * factor * pow10(power as nat),
        r == PAST ==> dec_value(s@) * factor * pow10(power as nat) >= PAST,
{
    let v = bounded_value(s);
    let ghost base = dec_value(s@) * factor as nat;
    assert(v * factor <= PAST * 0x100_0000_0000) by (nonlinear_arith)
        requires
            v <= PAST,
            factor <= 0x100_0000_0000,
    ;
    proof {
        lemma_product_past(v, dec_value(s@), factor as nat);
    }
    let first: u128 = v * factor as u128;
    let mut x: u128 = if first < PAST { first } else { PAST };
    let mut j: u128 = 0;
    assert(pow10(0) == 1);
    assert(base * 1 == base) by (nonlinear_arith);
    while j < power && x != 0 && x < PAST
        invariant
            j <= power,
            x <= PAST,
            x < PAST ==> x == base * pow10(j as nat),
            x == PAST ==> base * pow10(j as nat) >= PAST,
        decreases power - j,
    {
        let y: u128 = x * 10;
        assert(pow10((j + 1) as nat) == 10 * pow10(j as nat));
        assert(base * (10 * pow10(j as nat)) == 10 * (base * pow10(j as nat))) by (nonlinear_arith);
        x = if y < PAST { y } else { PAST };
        j += 1;
    }
    proof {
        let rest = (power - j) as nat;
        lemma_pow10_sum(j as nat, rest);
        lemma_pow10_positive(rest);
        let a = base * pow10(j as nat);
        let q = pow10(rest);
        assert(base * (pow10(j as nat) * q) == a * q) by (nonlinear_arith)
            requires
                a == base * pow10(j as nat),
        ;
        if j == power {
            assert(q == 1);
            assert(a * q == a) by (nonlinear_arith)
                requires
                    q == 1,
            ;
        } else if x == 0 {
            assert(a * q == 0) by (nonlinear_arith)
                requires
                    a == 0,
            ;
        } else {
            assert(a * q >= a) by (nonlinear_arith)
                requires
                    q >= 1,
                    a >= 0,
            ;
        }
    }
    x
}

/// Digits times a factor, over a power of ten, rounded down and held at [`PAST`].
fn scaled_down(s: &[char], power: u128, factor: u64) -> (r: u128)
    requires
        all_digits(s@),
        power > 0,
        factor <= 0x100_0000_0000,
    ensures
        r <= PAST,
        r < PAST ==> r == (dec_value(s@) * factor) / (pow10(power as nat) as int),
        r == PAST ==> (dec_value(s@) * factor) / (pow10(power as nat) as int) >= PAST,
{
    let n: usize = s.len();
    let ghost f = factor as nat;
    if power <= n as u128 {
        let k: usize = power as usize;
        let whole = slice_copy(s, 0, n - k);
        let frac = slice_copy(s, n - k, n);
        assert(all_digits(whole@) && all_digits(frac@));
        assert(whole@ + frac@ =~= s@);
        let v = bounded_value(&whole);
        let part = share_of(&frac, factor);
        assert(v * factor <= PAST * 0x100_0000_0000) by (nonlinear_arith)
            requires
                v <= PAST,
                factor <= 0x100_0000_0000,
        ;
        let total: u128 = v * factor as u128 + part;
        proof {
            lemma_product_past(v, dec_value(whole@), f);
            lemma_dec_value_parts(whole@, frac@);
            let p = pow10(power as nat) as int;
            lemma_pow10_positive(power as nat);
            let w = dec_value(whole@) as int;
            let x = dec_value(frac@) as int;
            assert((w * p + x) * f == (w * f) * p + x * f) by (nonlinear_arith);
            vstd::arithmetic::div_mod::lemma_hoist_over_denominator(x * f, w * f, p as nat);
            assert((dec_value(s@) as int * f as int) / p == x * f / p + w * f);
        }
        if total < PAST {
            total
        } else {
            PAST
        }
    } else {
        let mut t = share_of(s, factor);
        let rest: u128 = power - n as u128;
        let ghost first = t as int;
        let mut j: u128 = 0;
        assert(first / 1 == first);
        while j < rest && t != 0
            invariant
                j <= rest,
                t <= factor,
                factor <= 0x100_0000_0000,
                t == first / (pow10(j as nat) as int),
                first >= 0,
            decreases rest - j,
        {
            proof {
                lemma_pow10_positive(j as nat);
                vstd::arithmetic::div_mod::lemma_div_denominator(
                    first,
                    pow10(j as nat) as int,
                    10,
                );
                assert(pow10((j + 1) as nat) == 10 * pow10(j as nat));
                assert(pow10(j as nat) * 10 == 10 * pow10(j as nat)) by (nonlinear_arith);
            }
            t = t / 10;
            j += 1;
        }
        proof {
            let a = pow10(j as nat) as int;
            let left = (rest - j) as nat;
            let b = pow10(left) as int;
            lemma_pow10_positive(j as nat);
            lemma_pow10_positive(left);
            lemma_pow10_positive(n as nat);
            vstd::arithmetic::div_mod::lemma_div_denominator(first, a, b);
            lemma_pow10_sum(j as nat, left);
            if j == rest {
                assert(b == 1);
            } else {
                vstd::arithmetic::div_mod::lemma_div_of0(b);
            }
            assert(t == first / (pow10(rest as nat) as int));
            vstd::arithmetic::div_mod::lemma_div_denominator(
                dec_value(s@) * f as int,
                pow10(n as nat) as int,
                pow10(rest as nat) as int,
            );
            lemma_pow10_positive(rest as nat);
            lemma_pow10_sum(n as nat, rest as nat);
        }
        t
    }
}

// ------------------------------------------------------------------- reading
enum ReadNumeral {
    Finite(bool, Vec<char>, i128),
    Infinite(bool),
    NotANumber,
}

impl ReadNumeral {
    spec fn model(&self) -> Numeral {
        match self {
            ReadNumeral::Finite(negative, digits, power) => Numeral::Finite(
                *negative,
                digits@,
                *power as int,
            ),
            ReadNumeral::Infinite(negative) => Numeral::Infinite(*negative),
            ReadNumeral::NotANumber => Numeral::NotANumber,
        }
    }

    /// Its digits are digits, and its power is small enough to be turned round.
    spec fn sound(&self) -> bool {
        match self {
            ReadNumeral::Finite(_, digits, power) => all_digits(digits@) && -0x2_0000_0000_0000_0000_0000
                <= *power <= 0x2_0000_0000_0000_0000_0000,
            _ => true,
        }
    }
}

fn check_digits(s: &[char]) -> (r: bool)
    ensures
        r == all_digits(s@),
{
    let n: usize = s.len();
    let mut i: usize = 0;
    while i < n
        invariant
            n == s@.len(),
            i <= n,
            forall|j: int| 0 <= j < i ==> is_digit(s@[j]),
        decreases n - i,
    {
        if !digit(s[i]) {
            return false;
        }
        i += 1;
    }
    true
}

fn read_exponent(s: &[char]) -> (r: Option<i128>)
    ensures
        match r {
            Some(e) => exponent(s@) == Some(e as int) && -0x1_0000_0000_0000_0000_0000 <= e
                <= 0x1_0000_0000_0000_0000_0000,
            None => exponent(s@) is None,
        },
{
    let n: usize = s.len();
    let signed = n > 0 && (s[0] == '+' || s[0] == '-');
    let negative = n > 0 && s[0] == '-';
    let start: usize = if signed { 1 } else { 0 };
    let t = slice_copy(s, start, n);
    assert(signed ==> t@ =~= s@.drop_first());
    assert(!signed ==> t@ =~= s@);
    let m: usize = t.len();
    if m == 0 || !check_digits(&t) {
        return None;
    }
    let bound: i128 = 0x1_0000_0000_0000_0000_0000;
    let mut v: i128 = 0;
    let mut i: usize = 0;
    assert(t@.take(0) =~= Seq::<char>::empty());
    while i < m
        invariant
            m == t@.len(),
            i <= m,
            all_digits(t@),
            bound == 0x1_0000_0000_0000_0000_0000,
            0 <= v <= bound,
            v == if dec_value(t@.take(i as int)) > bound {
                bound as int
            } else {
                dec_value(t@.take(i as int)) as int
            },
        decreases m - i,
    {
        let c = t[i];
        assert(is_digit(t@[i as int]));
        let d: i128 = (c as u8 - 48) as i128;
        assert(t@.take(i + 1).drop_last() =~= t@.take(i as int));
        assert(t@.take(i + 1).last() == c);
        let w: i128 = v * 10 + d;
        v = if w > bound { bound } else { w };
        i += 1;
    }
    assert(t@.take(m as int) =~= t@);
    if negative {
        Some(-v)
    } else {
        Some(v)
    }
}

fn read_unsigned(t: &[char], negative: bool) -> (r: Option<ReadNumeral>)
    ensures
        match r {
            Some(n) => unsigned_numeral(t@, negative) == Some(n.model()) && n.sound(),
            None => unsigned_numeral(t@, negative) is None,
        },
{
    let n: usize = t.len();
    let lower = to_ascii_lower(string_of(t).as_str());
    if same(lower.as_str(), "inf") || same(lower.as_str(), "infinity") {
        return Some(ReadNumeral::Infinite(negative));
    }
    if same(lower.as_str(), "nan") {
        return Some(ReadNumeral::NotANumber);
    }
    let mut k: usize = 0;
    assert(t@.skip(0) =~= t@);
    while k < n && t[k] != 'e' && t[k] != 'E'
        invariant
            n == t@.len(),
            k <= n,
            exponent_mark(t@) == k + exponent_mark(t@.skip(k as int)),
        decreases n - k,
    {
        assert(t@.skip(k as int)[0] == t@[k as int]);
        assert(t@.skip(k as int).drop_first() =~= t@.skip(k + 1));
        k += 1;
    }
    assert(k < n ==> t@.skip(k as int)[0] == t@[k as int]);
    assert(exponent_mark(t@) == k);
    let mantissa = slice_copy(t, 0, k);
    assert(mantissa@ =~= t@.take(k as int));
    let power: i128 = if k < n {
        let tail = slice_copy(t, k + 1, n);
        assert(tail@ =~= t@.skip(k + 1));
        match read_exponent(&tail) {
            Some(e) => e,
            None => {
                return None;
            },
        }
    } else {
        0
    };
    assert(mantissa@.skip(0) =~= mantissa@);
    let point = find_char(&mantissa, '.', 0);
    let whole = slice_copy(&mantissa, 0, point);
    assert(whole@ =~= mantissa@.take(point as int));
    let behind: usize = if point < k { point + 1 } else { k };
    let frac = slice_copy(&mantissa, behind, k);
    assert(point < k ==> frac@ =~= mantissa@.skip(point + 1));
    assert(point == k ==> frac@ =~= Seq::<char>::empty());
    let mut digits = slice_copy(&whole, 0, whole.len());
    let m: usize = frac.len();
    let mut i: usize = 0;
    assert(digits@ =~= whole@ + frac@.take(0));
    while i < m
        invariant
            m == frac@.len(),
            i <= m,
            digits@ == whole@ + frac@.take(i as int),
        decreases m - i,
    {
        digits.push(frac[i]);
        i += 1;
        assert(digits@ =~= whole@ + frac@.take(i as int));
    }
    assert(frac@.take(m as int) =~= frac@);
    if digits.len() == 0 || !check_digits(&digits) {
        return None;
    }
    Some(ReadNumeral::Finite(negative, digits, power - m as i128))
}

fn read_numeral(s: &[char]) -> (r: Option<ReadNumeral>)
    ensures
        match r {
            Some(n) => numeral(s@) == Some(n.model()) && n.sound(),
            None => numeral(s@) is None,
        },
{
    let n: usize = s.len();
    if n > 0 && (s[0] == '+' || s[0] == '-') {
        let t = slice_copy(s, 1, n);
        assert(t@ =~= s@.drop_first());
        read_unsigned(&t, s[0] == '-')
    } else {
        read_unsigned(s, false)
    }
}

fn scaled(digits: &Vec<char>, power: i128, factor: u64) -> (r: u64)
    requires
        all_digits(digits@),
        -0x2_0000_0000_0000_0000_0000 <= power <= 0x2_0000_0000_0000_0000_0000,
        factor <= 0x100_0000_0000,
    ensures
        r == times(Numeral::Finite(false, digits@, power as int), factor as nat),
{
    let x: u128 = if power >= 0 {
        scaled_up(digits, power as u128, factor)
    } else {
        scaled_down(digits, (-power) as u128, factor)
    };
    if x > u64::MAX as u128 {
        u64::MAX
    } else {
        x as u64
    }
}

/// Reads a number and takes it times a factor.
pub fn read_times(s: &[char], factor: u64) -> (r: Option<u64>)
    requires
        factor <= 0x100_0000_0000,
    ensures
        match numeral(s@) {
            Some(n) => r == Some(times(n, factor as nat)),
            None => r is None,
        },
{
    match read_numeral(s) {
        Some(ReadNumeral::Finite(negative, digits, power)) => if negative {
            Some(0)
        } else {
            Some(scaled(&digits, power, factor))
        },
        Some(ReadNumeral::Infinite(negative)) => if negative {
            Some(0)
        } else {
            Some(u64::MAX)
        },
        Some(ReadNumeral::NotANumber) => Some(0),
        None => None,
    }
}

/// Reads [`rounded`].
pub fn read_rounded(s: &[char], unit: u64) -> (r: Option<i64>)
    requires
        unit <= 0x80_0000_0000,
    ensures
        r == rounded(s@, unit as nat),
{
    match read_numeral(s) {
        Some(ReadNumeral::Finite(negative, digits, power)) => {
            let twice = scaled(&digits, power, 2 * unit);
            let whole: u64 = twice / 2 + twice % 2;
            let held: i64 = if whole > i64::MAX as u64 { i64::MAX } else { whole as i64 };
            Some(
                if negative {
                    -held
                } else {
                    held
                },
            )
        },
        Some(ReadNumeral::Infinite(negative)) => Some(
            if negative {
                -i64::MAX
            } else {
                i64::MAX
            },
        ),
        _ => None,
    }
}

// --------------------------------------------------------------------- sizes
/// How many bytes a unit stands for, its name in lower case.
pub open spec fn unit_bytes(unit: Seq<char>) -> Option<u64> {
    if unit == "tb"@ || unit == "tib"@ {
        Some(0x100_0000_0000)
    } else if unit == "gb"@ || unit == "gib"@ {
        Some(0x4000_0000)
    } else if unit == "mb"@ || unit == "mib"@ {
        Some(0x10_0000)
    } else if unit == "kb"@ || unit == "kib"@ {
        Some(0x400)
    } else if unit == "b"@ || unit == "bytes"@ {
        Some(1)
    } else {
        None
    }
}

fn factor_of(unit: &str) -> (r: Option<u64>)
    ensures
        r == unit_bytes(unit@),
        r matches Some(f) ==> f <= 0x100_0000_0000,
{
    if same(unit, "tb") || same(unit, "tib") {
        Some(0x100_0000_0000)
    } else if same(unit, "gb") || same(unit, "gib") {
        Some(0x4000_0000)
    } else if same(unit, "mb") || same(unit, "mib") {
        Some(0x10_0000)
    } else if same(unit, "kb") || same(unit, "kib") {
        Some(0x400)
    } else if same(unit, "b") || same(unit, "bytes") {
        Some(1)
    } else {
        None
    }
}

/// The bytes that a size in lower case stands for: a number, white space and a unit that is
/// known; what follows these does not matter.
pub open spec fn size_bytes(lower: Seq<char>) -> Option<u64> {
    let w = words(lower);
    if w.len() < 2 {
        None
    } else {
        match (numeral(w[0]), unit_bytes(w[1])) {
            (Some(n), Some(f)) => Some(times(n, f as nat)),
            _ => None,
        }
    }
}

/// Reads a size that is in lower case.
pub fn size_of_lower(lower: &str) -> (r: Option<u64>)
    ensures
        r == size_bytes(lower@),
{
    let v = chars_of(lower);
    let w = split_words(&v);
    assert(pieces(w@).len() == w@.len());
    if w.len() < 2 {
        return None;
    }
    assert(pieces(w@)[0] == w@[0]@ && pieces(w@)[1] == w@[1]@);
    let unit = string_of(&w[1]);
    match factor_of(unit.as_str()) {
        Some(f) => read_times(&w[0], f),
        None => None,
    }
}

/// Reads a size such as `4.6 GB`, in any case.
pub fn parse_size_to_bytes(size_str: &str) -> (r: Option<u64>)
    ensures
        r == size_bytes(lowercase(size_str@)),
{
    let lower = to_lowercase(size_str);
    size_of_lower(lower.as_str())
}

} // verus!
