//! What holds of numbers and words as they are read: a number that is written is read by its value,
//! in the unit that it is given in.
use vstd::prelude::*;

use crate::numbers::{
    exponent, exponent_mark, magnitude, numeral, pow10, rounded, size_bytes, times, unit_bytes,
    word_len, words, Numeral,
};
use crate::reaper::bytes_expected;
use crate::text::{
    all_digits, ascii_lower, dec, dec_value, is_digit, is_white, lemma_dec, lemma_index_of,
    lowercase,
};
use crate::time::clamped;
use crate::torrent_engine::speed;

verus! {

// ----------------------------------------------------------------------- words
proof fn lemma_word(s: Seq<char>, k: int)
    requires
        0 <= k <= s.len(),
        forall|j: int| 0 <= j < k ==> !is_white(#[trigger] s[j]),
        k < s.len() ==> is_white(s[k]),
    ensures
        word_len(s) == k,
    decreases s.len(),
{
    if k > 0 {
        assert(!is_white(s[0]));
        let t = s.drop_first();
        assert forall|j: int| 0 <= j < k - 1 implies !is_white(#[trigger] t[j]) by {
            assert(t[j] == s[j + 1]);
        }
        lemma_word(t, k - 1);
    }
}

/// Words are what white space parts: what stands before it is a word, where it is anything, and
/// white space is none.
pub proof fn words_part_at_white_space(w: Seq<char>, c: char, rest: Seq<char>)
    requires
        w.len() > 0,
        forall|j: int| 0 <= j < w.len() ==> !is_white(#[trigger] w[j]),
        is_white(c),
    ensures
        words(w) == seq![w],
        words(w + seq![c] + rest) == seq![w] + words(rest),
        words(seq![c] + rest) == words(rest),
        words(Seq::empty()) == Seq::<Seq<char>>::empty(),
{
    lemma_word(w, w.len() as int);
    assert(!is_white(w[0]));
    assert(w.take(w.len() as int) =~= w);
    assert(w.skip(w.len() as int) =~= Seq::<char>::empty());
    assert(words(Seq::<char>::empty()) =~= Seq::<Seq<char>>::empty());
    assert(words(w) == seq![w] + words(w.skip(w.len() as int)));
    assert(words(w) =~= seq![w]);
    let s = w + seq![c] + rest;
    assert forall|j: int| 0 <= j < w.len() implies !is_white(#[trigger] s[j]) by {
        assert(s[j] == w[j]);
    }
    assert(s[w.len() as int] == c);
    lemma_word(s, w.len() as int);
    assert(s[0] == w[0]);
    assert(s.take(w.len() as int) =~= w);
    let t = seq![c] + rest;
    assert(s.skip(w.len() as int) =~= t);
    assert(t[0] == c);
    assert(t.drop_first() =~= rest);
    assert(words(t) == words(rest));
    assert(words(s) == seq![w] + words(s.skip(w.len() as int)));
}

// --------------------------------------------------------------------- numerals
proof fn lemma_no_mark(s: Seq<char>)
    requires
        forall|j: int| 0 <= j < s.len() ==> s[j] != 'e' && s[j] != 'E',
    ensures
        exponent_mark(s) == s.len(),
    decreases s.len(),
{
    if s.len() > 0 {
        lemma_no_mark(s.drop_first());
    }
}

proof fn lemma_no_word(t: Seq<char>)
    requires
        t.len() > 0,
        is_digit(t[0]),
    ensures
        ascii_lower(t) != "inf"@,
        ascii_lower(t) != "infinity"@,
        ascii_lower(t) != "nan"@,
{
    reveal_strlit("inf");
    reveal_strlit("infinity");
    reveal_strlit("nan");
    assert(ascii_lower(t)[0] == t[0]);
}

/// Digits are read as they are, and digits with a point among them by the place of the point.
pub proof fn numbers_are_read_digit_by_digit(w: Seq<char>, f: Seq<char>)
    requires
        w.len() > 0,
        all_digits(w),
        all_digits(f),
    ensures
        numeral(w) == Some(Numeral::Finite(false, w, 0)),
        numeral(seq!['-'] + w) == Some(Numeral::Finite(true, w, 0)),
        numeral(w + seq!['.'] + f) == Some(Numeral::Finite(false, w + f, -(f.len() as int))),
{
    assert(is_digit(w[0]));
    lemma_no_word(w);
    assert forall|j: int| 0 <= j < w.len() implies w[j] != 'e' && w[j] != 'E' && w[j] != '.' by {
        assert(is_digit(w[j]));
    }
    lemma_no_mark(w);
    lemma_index_of(w, '.', w.len() as int);
    assert(w.take(w.len() as int) =~= w);
    assert(w + Seq::<char>::empty() =~= w);
    let m = seq!['-'] + w;
    assert(m.drop_first() =~= w);
    let t = w + seq!['.'] + f;
    assert(t[0] == w[0]);
    lemma_no_word(t);
    assert forall|j: int| 0 <= j < t.len() implies t[j] != 'e' && t[j] != 'E' by {
        if j < w.len() {
            assert(is_digit(w[j]));
        } else if j > w.len() {
            assert(is_digit(f[j - w.len() - 1]));
        }
    }
    lemma_no_mark(t);
    assert(t.take(t.len() as int) =~= t);
    assert forall|j: int| 0 <= j < w.len() implies t[j] != '.' by {
        assert(t[j] == w[j]);
    }
    assert(t[w.len() as int] == '.');
    lemma_index_of(t, '.', w.len() as int);
    assert(t.take(w.len() as int) =~= w);
    assert(t.skip(w.len() as int + 1) =~= f);
    assert forall|j: int| 0 <= j < (w + f).len() implies is_digit((w + f)[j]) by {
        if j < w.len() {
            assert(is_digit(w[j]));
        } else {
            assert(is_digit(f[j - w.len()]));
        }
    }
}

/// A whole number in a unit is as many times the unit, as far as 64 bits count; one with a fraction
/// is its digits times the unit, over ten for each digit behind the point, rounded down.
pub proof fn numbers_are_read_in_their_unit(n: nat, f: Seq<char>, unit: nat)
    requires
        all_digits(f),
    ensures
        n * unit <= u64::MAX ==> times(numeral(dec(n))->0, unit) == n * unit,
        n * unit > u64::MAX ==> times(numeral(dec(n))->0, unit) == u64::MAX,
        ({
            let exact = dec_value(dec(n) + f) * unit / pow10(f.len());
            f.len() > 0 && exact <= u64::MAX ==> times(
                numeral(dec(n) + seq!['.'] + f)->0,
                unit,
            ) == exact
        }),
        times(numeral(seq!['-'] + dec(n))->0, unit) == 0,
{
    lemma_dec(n);
    numbers_are_read_digit_by_digit(dec(n), f);
    assert(pow10(0) == 1);
    assert(n * unit * 1 == n * unit);
}

// ------------------------------------------------------------------------ sizes
/// The units of sizes, each a thousand and twenty-four times the one below it.
pub open spec fn known_units() -> Seq<(Seq<char>, int)> {
    seq![
        ("b"@, 1int),
        ("bytes"@, 1),
        ("kb"@, 1024),
        ("kib"@, 1024),
        ("mb"@, 1_048_576),
        ("mib"@, 1_048_576),
        ("gb"@, 1_073_741_824),
        ("gib"@, 1_073_741_824),
        ("tb"@, 1_099_511_627_776),
        ("tib"@, 1_099_511_627_776),
    ]
}

proof fn lemma_units(i: int)
    requires
        0 <= i < known_units().len(),
    ensures
        unit_bytes(known_units()[i].0) is Some,
        unit_bytes(known_units()[i].0)->0 == known_units()[i].1,
        known_units()[i].0.len() > 0,
        forall|j: int| 0 <= j < known_units()[i].0.len() ==> !is_white(#[trigger] known_units()[i].0[j]),
{
    reveal_strlit("b");
    reveal_strlit("bytes");
    reveal_strlit("kb");
    reveal_strlit("kib");
    reveal_strlit("mb");
    reveal_strlit("mib");
    reveal_strlit("gb");
    reveal_strlit("gib");
    reveal_strlit("tb");
    reveal_strlit("tib");
    let u = known_units()[i].0;
    assert(u.len() <= 5);
    assert(u[0] == 'b' || u[0] == 'k' || u[0] == 'm' || u[0] == 'g' || u[0] == 't');
}

/// A size is its number in its unit, as far as 64 bits count; one without a unit that is known says
/// nothing.
pub proof fn sizes_are_read_in_their_unit(n: nat, i: int, other: Seq<char>)
    requires
        0 <= i < known_units().len(),
        other.len() > 0,
        forall|j: int| 0 <= j < other.len() ==> !is_white(#[trigger] other[j]),
        forall|j: int| 0 <= j < known_units().len() ==> (#[trigger] known_units()[j]).0 != other,
    ensures
        n * known_units()[i].1 <= u64::MAX ==> size_bytes(
            dec(n) + seq![' '] + known_units()[i].0,
        ) is Some && size_bytes(dec(n) + seq![' '] + known_units()[i].0)->0 == n
            * known_units()[i].1,
        size_bytes(dec(n) + seq![' '] + other) is None,
        size_bytes(dec(n)) is None,
{
    let k = known_units();
    let u = k[i].0;
    let d = dec(n);
    lemma_units(i);
    lemma_dec(n);
    assert forall|j: int| 0 <= j < d.len() implies !is_white(#[trigger] d[j]) by {
        assert(is_digit(d[j]));
    }
    words_part_at_white_space(d, ' ', u);
    words_part_at_white_space(u, ' ', u);
    words_part_at_white_space(d, ' ', other);
    words_part_at_white_space(other, ' ', other);
    assert(words(d + seq![' '] + u) =~= seq![d, u]);
    assert(words(d + seq![' '] + other) =~= seq![d, other]);
    numbers_are_read_in_their_unit(n, Seq::empty(), unit_bytes(u)->0 as nat);
    numbers_are_read_digit_by_digit(d, Seq::empty());
    assert(k[0].0 != other && k[1].0 != other && k[2].0 != other && k[3].0 != other && k[4].0
        != other && k[5].0 != other && k[6].0 != other && k[7].0 != other && k[8].0 != other
        && k[9].0 != other);
}

/// What is expected of a file is what its size says, in any case, and nothing where it says
/// nothing.
pub proof fn expected_sizes_are_read(size: Seq<char>)
    ensures
        bytes_expected(None) == 0,
        size_bytes(lowercase(size)) is Some ==> bytes_expected(Some(size)) == size_bytes(
            lowercase(size),
        )->0,
        size_bytes(lowercase(size)) is None ==> bytes_expected(Some(size)) == 0,
{
}

/// A speed is the number that it is worded with, in its unit, whatever follows; a text without one
/// is no speed.
pub proof fn speeds_are_read_by_their_number(n: nat, rest: Seq<char>, unit: nat)
    requires
        n * unit <= u64::MAX,
    ensures
        speed(dec(n) + seq![' '] + rest, unit) == n * unit,
        speed(Seq::empty(), unit) == 0,
{
    let d = dec(n);
    lemma_dec(n);
    assert forall|j: int| 0 <= j < d.len() implies !is_white(#[trigger] d[j]) by {
        assert(is_digit(d[j]));
    }
    words_part_at_white_space(d, ' ', rest);
    numbers_are_read_in_their_unit(n, Seq::empty(), unit);
    numbers_are_read_digit_by_digit(d, Seq::empty());
    assert(words(d + seq![' '] + rest)[0] == d);
}

/// Seconds are read to the nearest thousandth: whole ones exactly.
pub proof fn seconds_are_read_to_the_thousandth(n: nat)
    requires
        n * 1000 <= i64::MAX,
    ensures
        rounded(dec(n), 1000) is Some,
        rounded(dec(n), 1000)->0 == n * 1000,
{
    lemma_dec(n);
    numbers_are_read_digit_by_digit(dec(n), Seq::empty());
    assert(pow10(0) == 1);
    assert(magnitude(dec(n), 0, 2000) == n * 2000 * 1);
}

/// An exponent moves the point: to the right where it is positive, and to the left where it is not.
pub proof fn exponents_move_the_point(w: Seq<char>, k: nat)
    requires
        w.len() > 0,
        all_digits(w),
        k < 0x1_0000_0000,
    ensures
        numeral(w + seq!['e'] + dec(k)) == Some(Numeral::Finite(false, w, k as int)),
        numeral(w + seq!['e', '-'] + dec(k)) == Some(Numeral::Finite(false, w, -(k as int))),
{
    lemma_dec(k);
    lemma_exponent(w, dec(k), 'e');
    let m = seq!['-'] + dec(k);
    assert(m.drop_first() =~= dec(k));
    lemma_exponent(w, m, 'e');
    assert(w + seq!['e', '-'] + dec(k) =~= w + seq!['e'] + m);
    assert(is_digit(dec(k)[0]));
}

proof fn lemma_exponent(w: Seq<char>, e: Seq<char>, c: char)
    requires
        w.len() > 0,
        all_digits(w),
        c == 'e' || c == 'E',
        exponent(e) is Some,
    ensures
        numeral(w + seq![c] + e) == Some(Numeral::Finite(false, w, exponent(e)->0)),
{
    let t = w + seq![c] + e;
    assert(is_digit(w[0]));
    assert(t[0] == w[0]);
    lemma_no_word(t);
    assert forall|j: int| 0 <= j < w.len() implies t[j] != 'e' && t[j] != 'E' && w[j] != '.' by {
        assert(is_digit(w[j]));
        assert(t[j] == w[j]);
    }
    assert(t[w.len() as int] == c);
    lemma_mark(t, w.len() as int);
    assert(t.take(w.len() as int) =~= w);
    assert(t.skip(w.len() as int + 1) =~= e);
    lemma_index_of(w, '.', w.len() as int);
    assert(w.take(w.len() as int) =~= w);
    assert(w + Seq::<char>::empty() =~= w);
}

proof fn lemma_mark(s: Seq<char>, k: int)
    requires
        0 <= k < s.len(),
        forall|j: int| 0 <= j < k ==> s[j] != 'e' && s[j] != 'E',
        s[k] == 'e' || s[k] == 'E',
    ensures
        exponent_mark(s) == k,
    decreases k,
{
    if k > 0 {
        assert(s[0] != 'e' && s[0] != 'E');
        lemma_mark(s.drop_first(), k - 1);
    }
}

/// What is rounded lies within half a unit of what was written, on either side of 0, and the two
/// sides are alike; what is no number is not rounded.
pub proof fn rounding_is_to_the_nearest(w: Seq<char>, f: Seq<char>, unit: nat)
    requires
        w.len() > 0,
        all_digits(w),
        all_digits(f),
        f.len() > 0,
    ensures
        ({
            let written = dec_value(w + f) * (2 * unit);
            let parts = pow10(f.len());
            let r = rounded(w + seq!['.'] + f, unit);
            &&& r is Some
            &&& written / parts < i64::MAX ==> (2 * r->0 - 1) * parts <= written < (2 * r->0 + 1)
                * parts
            &&& rounded(seq!['-'] + w, unit) is Some && rounded(w, unit) is Some
            &&& rounded(seq!['-'] + w, unit)->0 == -rounded(w, unit)->0
        }),
{
    numbers_are_read_digit_by_digit(w, f);
    let written = (dec_value(w + f) * (2 * unit)) as int;
    let parts = pow10(f.len()) as int;
    lemma_parts(f.len());
    if written / parts < i64::MAX {
        let twice = written / parts;
        let r = rounded(w + seq!['.'] + f, unit)->0 as int;
        assert(twice >= 0) by (nonlinear_arith)
            requires
                written >= 0,
                parts > 0,
                twice == written / parts,
        ;
        assert(r == (twice + 1) / 2);
        vstd::arithmetic::div_mod::lemma_fundamental_div_mod(written, parts);
        vstd::arithmetic::div_mod::lemma_mod_bound(written, parts);
        let m = written % parts;
        assert(2 * r - 1 <= twice <= 2 * r);
        assert((2 * r - 1) * parts <= written < (2 * r + 1) * parts) by (nonlinear_arith)
            requires
                written == parts * twice + m,
                0 <= m < parts,
                2 * r - 1 <= twice <= 2 * r,
        ;
    }
}

proof fn lemma_parts(n: nat)
    ensures
        pow10(n) > 0,
    decreases n,
{
    if n > 0 {
        lemma_parts((n - 1) as nat);
    }
}

/// Lengths of time are held at the bounds of 64 bits, and are as they are within them.
pub proof fn lengths_of_time_are_held_at_their_bounds(x: int)
    ensures
        i64::MIN <= x <= i64::MAX ==> clamped(x) == x,
        x > i64::MAX ==> clamped(x) == i64::MAX,
        x < i64::MIN ==> clamped(x) == i64::MIN,
{
}

/// A speed whose first word is no number is none.
pub proof fn words_are_no_speed(s: Seq<char>, unit: nat)
    requires
        words(s).len() > 0,
        numeral(words(s)[0]) is None,
    ensures
        speed(s, unit) == 0,
{
}

/// The words for what is not finite are read in any case, behind a sign or none; and an exponent
/// without digits makes no number.
pub proof fn words_for_the_infinite_are_read(w: Seq<char>)
    requires
        w.len() > 0,
        all_digits(w),
    ensures
        numeral("inf"@) == Some(Numeral::Infinite(false)),
        numeral("infinity"@) == Some(Numeral::Infinite(false)),
        numeral(seq!['-'] + "inf"@) == Some(Numeral::Infinite(true)),
        numeral("NaN"@) == Some(Numeral::NotANumber),
        numeral(w + seq!['e']) is None,
{
    reveal_strlit("inf");
    reveal_strlit("infinity");
    reveal_strlit("nan");
    reveal_strlit("NaN");
    assert(ascii_lower("inf"@) =~= "inf"@);
    assert(ascii_lower("infinity"@) =~= "infinity"@);
    assert(ascii_lower("NaN"@) =~= "nan"@);
    assert((seq!['-'] + "inf"@).drop_first() =~= "inf"@);
    assert("nan"@.len() == 3 && "nan"@[0] == 'n' && "inf"@[0] == 'i');
    let t = w + seq!['e'];
    assert(is_digit(w[0]));
    assert(t[0] == w[0]);
    lemma_no_word(t);
    assert forall|j: int| 0 <= j < w.len() implies t[j] != 'e' && t[j] != 'E' by {
        assert(is_digit(w[j]));
        assert(t[j] == w[j]);
    }
    lemma_mark(t, w.len() as int);
    assert(t.skip(w.len() as int + 1) =~= Seq::<char>::empty());
    assert(exponent(Seq::<char>::empty()) is None);
}

} // verus!
