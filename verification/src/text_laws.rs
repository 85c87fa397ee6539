//! What holds of texts: what it is to begin, to end and to hold, and what is left when a text is
//! trimmed or parted into lines.
use vstd::prelude::*;

use crate::text::{
    ascii_lower, contains, drop_white, ends_with, index_of, is_white, lemma_index_of,
    lemma_index_of_bounds, lines, matches_at, skip_white, starts_with, strip_cr, trim,
};

verus! {

/// A text begins with what is put before it, and what it begins with can be taken off and put back.
pub proof fn prefixes_come_off(p: Seq<char>, s: Seq<char>)
    ensures
        starts_with(p + s, p),
        (p + s).skip(p.len() as int) == s,
        starts_with(s, p) ==> s == p + s.skip(p.len() as int),
{
    assert((p + s).subrange(0, p.len() as int) =~= p);
    assert((p + s).skip(p.len() as int) =~= s);
    if starts_with(s, p) {
        assert forall|j: int| 0 <= j < p.len() implies s[j] == p[j] by {
            assert(s.subrange(0, p.len() as int)[j] == s[j]);
        }
        assert(s =~= p + s.skip(p.len() as int));
    }
}

/// A text ends with what is put behind it, and what it ends with can be taken off and put back.
pub proof fn suffixes_come_off(s: Seq<char>, p: Seq<char>)
    ensures
        ends_with(s + p, p),
        ends_with(s, p) ==> s == s.take(s.len() - p.len()) + p,
{
    let t = s + p;
    assert(t.subrange(t.len() - p.len(), t.len() as int) =~= p);
    if ends_with(s, p) {
        let at = s.len() - p.len();
        assert forall|j: int| 0 <= j < p.len() implies s[at + j] == p[j] by {
            assert(s.subrange(at, s.len() as int)[j] == s[at + j]);
        }
        assert(s =~= s.take(at) + p);
    }
}

/// A text holds whatever stands in it, and holds nothing else.
pub proof fn parts_are_held(a: Seq<char>, m: Seq<char>, b: Seq<char>, p: Seq<char>)
    ensures
        contains(a + m + b, m),
        contains(m, p) ==> contains(a + m + b, p),
        contains(m, p) ==> exists|i: int| #[trigger]
            matches_at(m, p, i) && m == m.take(i) + p + m.skip(i + p.len()),
{
    let s = a + m + b;
    assert(s.subrange(a.len() as int, (a.len() + m.len()) as int) =~= m);
    assert(matches_at(s, m, a.len() as int));
    if contains(m, p) {
        let i = choose|i: int| matches_at(m, p, i);
        assert(s.subrange(a.len() + i, a.len() + i + p.len()) =~= m.subrange(i, i + p.len()));
        assert(matches_at(s, p, a.len() + i));
        assert forall|j: int| 0 <= j < p.len() implies m[i + j] == p[j] by {
            assert(m.subrange(i, i + p.len())[j] == m[i + j]);
        }
        assert(m =~= m.take(i) + p + m.skip(i + p.len()));
    }
}

/// A text that differs from another within its length does not begin with it.
pub proof fn other_texts_are_no_prefix(s: Seq<char>, p: Seq<char>, k: int)
    requires
        0 <= k < p.len(),
        k >= s.len() || s[k] != p[k],
    ensures
        !starts_with(s, p),
{
    if starts_with(s, p) {
        assert(s.subrange(0, p.len() as int)[k] == s[k]);
    }
}

/// A text that lacks a character holds nothing that has it.
pub proof fn what_is_missing_is_not_held(s: Seq<char>, p: Seq<char>, k: int)
    requires
        0 <= k < p.len(),
        forall|j: int| 0 <= j < s.len() ==> s[j] != p[k],
    ensures
        !contains(s, p),
{
    if contains(s, p) {
        let i = choose|i: int| matches_at(s, p, i);
        assert(s.subrange(i, i + p.len())[k] == s[i + k]);
    }
}

proof fn lemma_skip_white(s: Seq<char>)
    ensures
        ({
            let t = skip_white(s);
            let n = s.len() - t.len();
            &&& n >= 0
            &&& s.skip(n) == t
            &&& forall|j: int| 0 <= j < n ==> is_white(#[trigger] s[j])
            &&& t.len() > 0 ==> !is_white(t[0])
        }),
    decreases s.len(),
{
    if s.len() > 0 && is_white(s[0]) {
        let u = s.drop_first();
        lemma_skip_white(u);
        let t = skip_white(s);
        let n = s.len() - t.len();
        assert(s.skip(n) =~= u.skip(n - 1));
        assert forall|j: int| 0 <= j < n implies is_white(#[trigger] s[j]) by {
            if j > 0 {
                assert(u[j - 1] == s[j]);
            }
        }
    } else {
        assert(s.skip(0) =~= s);
    }
}

proof fn lemma_drop_white(s: Seq<char>)
    ensures
        ({
            let t = drop_white(s);
            &&& t.len() <= s.len()
            &&& s.take(t.len() as int) == t
            &&& forall|j: int| t.len() <= j < s.len() ==> is_white(#[trigger] s[j])
            &&& t.len() > 0 ==> !is_white(t.last())
        }),
    decreases s.len(),
{
    if s.len() > 0 && is_white(s.last()) {
        let u = s.drop_last();
        lemma_drop_white(u);
        let t = drop_white(s);
        assert(s.take(t.len() as int) =~= u.take(t.len() as int));
        assert forall|j: int| t.len() <= j < s.len() implies is_white(#[trigger] s[j]) by {
            if j < u.len() {
                assert(u[j] == s[j]);
            }
        }
    } else {
        assert(s.take(s.len() as int) =~= s);
    }
}

/// Trimming takes off white space at the two ends, all of it and nothing else.
pub proof fn trimming_takes_off_white_space(s: Seq<char>)
    ensures
        trim(s).len() > 0 ==> !is_white(trim(s)[0]) && !is_white(trim(s).last()),
        exists|a: int|
            0 <= a <= s.len() - trim(s).len() && #[trigger] s.subrange(a, a + trim(s).len()) == trim(
                s,
            ) && (forall|j: int| 0 <= j < a ==> is_white(#[trigger] s[j])) && (forall|j: int|
                a + trim(s).len() <= j < s.len() ==> is_white(#[trigger] s[j])),
{
    let u = skip_white(s);
    let t = trim(s);
    lemma_skip_white(s);
    lemma_drop_white(u);
    let a = s.len() - u.len();
    assert(s.subrange(a, a + t.len()) =~= u.take(t.len() as int));
    assert forall|j: int| a + t.len() <= j < s.len() implies is_white(#[trigger] s[j]) by {
        assert(u[j - a] == s[j]);
    }
    if t.len() > 0 {
        assert(t[0] == u[0]);
    }
}

/// A text that has no white space at its ends is trimmed already.
pub proof fn tight_texts_stay(s: Seq<char>)
    requires
        s.len() > 0 ==> !is_white(s[0]) && !is_white(s.last()),
    ensures
        trim(s) == s,
{
}

/// A line more at the end of a text is one line more, and leaves the others as they are; a carriage
/// return before the line feed is no part of it.
pub proof fn a_line_more_is_read_behind_the_others(t: Seq<char>, l: Seq<char>)
    requires
        t.len() == 0 || t.last() == '\n',
        forall|j: int| 0 <= j < l.len() ==> l[j] != '\n',
    ensures
        lines(t + l + seq!['\n']) == lines(t).push(strip_cr(l)),
        l.len() > 0 ==> lines(t + l) == lines(t).push(l),
        lines(t + l + seq!['\r', '\n']) == lines(t).push(l),
    decreases t.len(),
{
    lemma_line_more(t, l, true);
    if l.len() > 0 {
        lemma_line_more(t, l, false);
    }
    let m = l.push('\r');
    lemma_line_more(t, m, true);
    assert(m.drop_last() =~= l);
    assert(t + m + seq!['\n'] =~= t + l + seq!['\r', '\n']);
}

proof fn lemma_line_more(t: Seq<char>, l: Seq<char>, ended: bool)
    requires
        t.len() == 0 || t.last() == '\n',
        forall|j: int| 0 <= j < l.len() ==> l[j] != '\n',
        !ended ==> l.len() > 0,
    ensures
        ended ==> lines(t + l + seq!['\n']) == lines(t).push(strip_cr(l)),
        !ended ==> lines(t + l) == lines(t).push(l),
    decreases t.len(),
{
    let s = if ended {
        t + l + seq!['\n']
    } else {
        t + l
    };
    if t.len() == 0 {
        assert forall|j: int| 0 <= j < l.len() implies s[j] != '\n' by {
            assert(s[j] == l[j]);
        }
        lemma_index_of(s, '\n', l.len() as int);
        assert(lines(t) =~= Seq::<Seq<char>>::empty());
        assert(s.take(l.len() as int) =~= l);
        if ended {
            assert(s.skip(l.len() as int + 1) =~= Seq::<char>::empty());
            assert(lines(s.skip(l.len() as int + 1)) =~= Seq::<Seq<char>>::empty());
            assert(lines(s) =~= lines(t).push(strip_cr(l)));
        } else {
            assert(s =~= l);
            assert(lines(s) =~= lines(t).push(l));
        }
    } else {
        let k = index_of(t, '\n');
        lemma_index_of_bounds(t, '\n');
        assert(t[t.len() - 1] == '\n');
        assert(k < t.len());
        assert forall|j: int| 0 <= j < k implies s[j] != '\n' by {
            assert(s[j] == t[j]);
        }
        assert(s[k] == t[k]);
        lemma_index_of(s, '\n', k);
        let u = t.skip(k + 1);
        assert(u.len() > 0 ==> u.last() == t.last());
        lemma_line_more(u, l, ended);
        assert(s.take(k) =~= t.take(k));
        if ended {
            assert(s.skip(k + 1) =~= u + l + seq!['\n']);
            assert(lines(s) =~= lines(t).push(strip_cr(l)));
        } else {
            assert(s.skip(k + 1) =~= u + l);
            assert(lines(s) =~= lines(t).push(l));
        }
    }
}

/// The capital letters of ASCII are made small, and nothing else is touched.
pub proof fn capitals_are_made_small(s: Seq<char>, i: int)
    ensures
        ascii_lower(s).len() == s.len(),
        0 <= i < s.len() && 'A' <= s[i] <= 'Z' ==> ascii_lower(s)[i] as int == s[i] as int + 32,
        0 <= i < s.len() && !('A' <= s[i] <= 'Z') ==> ascii_lower(s)[i] == s[i],
        ascii_lower(ascii_lower(s)) == ascii_lower(s),
{
    let l = ascii_lower(s);
    assert forall|j: int| 0 <= j < s.len() implies ascii_lower(l)[j] == l[j] by {
        assert(l[j] == crate::text::lower_ascii(s[j]));
    }
    assert(ascii_lower(l) =~= l);
}

} // verus!
