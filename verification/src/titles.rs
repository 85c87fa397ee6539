//! Titles: the episode marker (`S05E03`) that a release name carries, the names that are left
//! without it, and the keys under which positions and notes are filed.
use vstd::prelude::*;

use crate::text::{
    all_ascii, alphanumeric, ascii_alnum, ascii_lower, chars_of, digit, drop_white, index_of,
    is_alphanumeric, is_ascii_alnum, is_digit, is_white, join, join_chars, keep_nonempty,
    lemma_index_of, lemma_index_of_bounds, lemma_padded, lemma_split_behind, lower_ascii, lowercase,
    nonempty, padded, parse_up_to, push_padded, read_u32, skip_white, slice_copy, split, split_on,
    string_of, to_ascii_lower, to_lowercase, white,
};

verus! {

// ---------------------------------------------------------- episode markers
/// The first index at or after `i` that holds no digit.
pub open spec fn digits_end(s: Seq<char>, i: int) -> int
    decreases s.len() - i,
{
    if 0 <= i < s.len() && is_digit(s[i]) {
        digits_end(s, i + 1)
    } else {
        i
    }
}

/// At `i` stands `s`, digits, `e` and a digit, and no letter or digit before it.
pub open spec fn marker_at(s: Seq<char>, i: int) -> bool {
    let j = digits_end(s, i + 1);
    &&& 0 <= i
    &&& i + 3 < s.len()
    &&& s[i] == 's'
    &&& is_digit(s[i + 1])
    &&& (i == 0 || !is_ascii_alnum(s[i - 1]))
    &&& j + 1 < s.len()
    &&& s[j] == 'e'
    &&& is_digit(s[j + 1])
}

/// The first marker at or after `i`.
pub open spec fn first_marker(s: Seq<char>, i: int) -> Option<int>
    decreases s.len() - i,
{
    if i < 0 || i >= s.len() {
        None
    } else if marker_at(s, i) {
        Some(i)
    } else {
        first_marker(s, i + 1)
    }
}

/// The season and the episode that the first marker of a lower-case text names; none where the
/// text has no marker, or a number in it is past 32 bits.
pub open spec fn episode_of(s: Seq<char>) -> Option<(nat, nat)> {
    match first_marker(s, 0) {
        Some(i) => {
            let j = digits_end(s, i + 1);
            let k = digits_end(s, j + 1);
            match (
                parse_up_to(s.subrange(i + 1, j), u32::MAX as nat),
                parse_up_to(s.subrange(j + 1, k), u32::MAX as nat),
            ) {
                (Some(season), Some(episode)) => Some((season, episode)),
                _ => None,
            }
        },
        None => None,
    }
}

pub(crate) fn end_of_digits(s: &[char], from: usize) -> (j: usize)
    requires
        from <= s@.len(),
    ensures
        j == digits_end(s@, from as int),
        from <= j <= s@.len(),
{
    let n: usize = s.len();
    let mut j: usize = from;
    while j < n && digit(s[j])
        invariant
            n == s@.len(),
            from <= j <= n,
            digits_end(s@, j as int) == digits_end(s@, from as int),
        decreases n - j,
    {
        j += 1;
    }
    j
}

/// The place of the first marker.
pub(crate) fn find_marker(s: &[char]) -> (r: Option<usize>)
    ensures
        match r {
            Some(i) => first_marker(s@, 0) == Some(i as int) && marker_at(s@, i as int),
            None => first_marker(s@, 0) is None,
        },
{
    let n: usize = s.len();
    let mut i: usize = 0;
    while i < n
        invariant
            n == s@.len(),
            i <= n,
            first_marker(s@, i as int) == first_marker(s@, 0),
        decreases n - i,
    {
        if n - i > 3 && s[i] == 's' && digit(s[i + 1]) && (i == 0 || !ascii_alnum(s[i - 1])) {
            let j = end_of_digits(s, i + 1);
            if j < n && s[j] == 'e' && j + 1 < n && digit(s[j + 1]) {
                return Some(i);
            }
        }
        assert(!marker_at(s@, i as int));
        i += 1;
    }
    None
}

/// Reads [`episode_of`] off a lower-case text.
pub fn read_episode(lower: &[char]) -> (r: Option<(u32, u32)>)
    ensures
        match r {
            Some((s, e)) => episode_of(lower@) == Some((s as nat, e as nat)),
            None => episode_of(lower@) is None,
        },
{
    let n: usize = lower.len();
    match find_marker(lower) {
        Some(i) => {
            assert(i + 3 < n);
            let j = end_of_digits(lower, i + 1);
            let k = end_of_digits(lower, j + 1);
            let season = read_u32(vstd::slice::slice_subrange(lower, i + 1, j));
            let episode = read_u32(vstd::slice::slice_subrange(lower, j + 1, k));
            match (season, episode) {
                (Some(s), Some(e)) => Some((s, e)),
                _ => None,
            }
        },
        None => None,
    }
}

/// `_sXXeYY`: the season and the episode, each in two digits or more.
pub open spec fn se_suffix(season: nat, episode: nat) -> Seq<char> {
    seq!['_', 's'] + padded(season, 2) + seq!['e'] + padded(episode, 2)
}

/// The suffix that a lower-case text calls for.
pub open spec fn suffix_of(lower: Seq<char>) -> Option<Seq<char>> {
    match episode_of(lower) {
        Some((s, e)) => Some(se_suffix(s, e)),
        None => None,
    }
}

/// The view of a text that may be absent.
pub open spec fn opt(s: Option<String>) -> Option<Seq<char>> {
    match s {
        Some(t) => Some(t@),
        None => None,
    }
}

/// The view of a borrowed text that may be absent.
pub open spec fn opt_str(s: Option<&str>) -> Option<Seq<char>> {
    match s {
        Some(t) => Some(t@),
        None => None,
    }
}

/// The suffix that a text already in lower case calls for.
pub fn se_suffix_of_lower(lower: &str) -> (r: Option<String>)
    ensures
        opt(r) == suffix_of(lower@),
{
    let v = chars_of(lower);
    match read_episode(&v) {
        Some((season, episode)) => {
            let mut out = String::new();
            out.push('_');
            out.push('s');
            push_padded(&mut out, season as u64, 2);
            out.push('e');
            push_padded(&mut out, episode as u64, 2);
            assert(out@ =~= se_suffix(season as nat, episode as nat));
            Some(out)
        },
        None => None,
    }
}

/// The suffix `_sXXeYY` for a release title that carries an episode marker in any case, padded
/// or not.
pub fn extract_se_suffix(title: &str) -> (r: Option<String>)
    ensures
        opt(r) == suffix_of(lowercase(title@)),
{
    let lower = to_lowercase(title);
    se_suffix_of_lower(lower.as_str())
}

// --------------------------------------------------------------------- slugs
/// The text with `fill` in place of every character that is not alphanumeric.
pub open spec fn blanked(s: Seq<char>, fill: char) -> Seq<char> {
    s.map_values(
        |c: char|
            if alphanumeric(c) {
                c
            } else {
                fill
            },
    )
}

/// The alphanumeric runs of a text, with `sep` between each two.
pub open spec fn runs(s: Seq<char>, sep: char) -> Seq<char> {
    join(nonempty(split(blanked(s, sep), sep)), seq![sep])
}

fn join_runs(s: &str, sep: char) -> (r: String)
    ensures
        r@ == runs(s@, sep),
{
    let v = chars_of(s);
    let n: usize = v.len();
    let mut filled: Vec<char> = Vec::new();
    let mut i: usize = 0;
    while i < n
        invariant
            n == v@.len(),
            i <= n,
            filled@ == blanked(v@, sep).take(i as int),
        decreases n - i,
    {
        let c = v[i];
        let d = if is_alphanumeric(c) { c } else { sep };
        filled.push(d);
        i += 1;
        assert(blanked(v@, sep).take(i as int) =~= blanked(v@, sep).take(i - 1).push(d));
    }
    assert(blanked(v@, sep).take(n as int) =~= blanked(v@, sep));
    let mut sep_text = String::new();
    sep_text.push(sep);
    assert(sep_text@ =~= seq![sep]);
    let kept = keep_nonempty(split_on(&filled, sep));
    join_chars(&kept, sep_text.as_str())
}

/// The alphanumeric runs of the lower-case title, joined by hyphens.
pub fn slugify(s: &str) -> (r: String)
    ensures
        r@ == runs(lowercase(s@), '-'),
        is_runs(r@, '-'),
        all_ascii(s@) ==> r@ == runs(ascii_lower(s@), '-'),
{
    let lower = to_lowercase(s);
    proof {
        slugs_are_runs(lower@, '-');
    }
    join_runs(lower.as_str(), '-')
}

/// A run: characters that are alphanumeric and not the separator, and at least one.
pub open spec fn is_run(s: Seq<char>, sep: char) -> bool {
    s.len() > 0 && forall|i: int| 0 <= i < s.len() ==> alphanumeric(#[trigger] s[i]) && s[i] != sep
}

/// A text of runs, each two of them one separator apart: nothing but alphanumeric characters and
/// separators, no separator at either end, and no two in a row.
pub open spec fn is_runs(s: Seq<char>, sep: char) -> bool {
    &&& forall|i: int| 0 <= i < s.len() ==> alphanumeric(#[trigger] s[i]) || s[i] == sep
    &&& s.len() > 0 ==> s[0] != sep && s.last() != sep
    &&& forall|i: int| 0 < i < s.len() && #[trigger] s[i] == sep ==> s[i - 1] != sep
}

proof fn lemma_split_filled(s: Seq<char>, sep: char)
    requires
        forall|i: int| 0 <= i < s.len() ==> alphanumeric(#[trigger] s[i]) || s[i] == sep,
    ensures
        forall|i: int|
            0 <= i < split(s, sep).len() && (#[trigger] split(s, sep)[i]).len() > 0 ==> is_run(
                split(s, sep)[i],
                sep,
            ),
    decreases s.len(),
{
    let k = index_of(s, sep);
    lemma_index_of_bounds(s, sep);
    if k < s.len() {
        let rest = s.skip(k + 1);
        assert forall|i: int| 0 <= i < rest.len() implies alphanumeric(#[trigger] rest[i])
            || rest[i] == sep by {
            assert(rest[i] == s[i + k + 1]);
        }
        lemma_split_filled(rest, sep);
        let v = split(s, sep);
        assert(v == seq![s.take(k)] + split(rest, sep));
        assert forall|i: int| 0 <= i < v.len() && (#[trigger] v[i]).len() > 0 implies is_run(
            v[i],
            sep,
        ) by {
            if i == 0 {
                assert forall|j: int| 0 <= j < v[0].len() implies alphanumeric(#[trigger] v[0][j])
                    && v[0][j] != sep by {
                    assert(v[0][j] == s[j]);
                }
            } else {
                assert(v[i] == split(rest, sep)[i - 1]);
            }
        }
    } else {
        assert(split(s, sep) == seq![s]);
    }
}

proof fn lemma_join_runs(v: Seq<Seq<char>>, sep: char)
    requires
        forall|i: int| 0 <= i < v.len() ==> is_run(#[trigger] v[i], sep),
    ensures
        is_runs(join(v, seq![sep]), sep),
        v.len() > 0 ==> join(v, seq![sep]).len() > 0,
        v.len() > 0 ==> split(join(v, seq![sep]), sep) == v,
    decreases v.len(),
{
    let s = join(v, seq![sep]);
    if v.len() == 1 {
        assert(is_run(v[0], sep));
        lemma_index_of(s, sep, s.len() as int);
        assert(split(s, sep) =~= v);
    } else if v.len() > 1 {
        let t = v.drop_last();
        let a = join(t, seq![sep]);
        let b = v.last();
        assert forall|i: int| 0 <= i < t.len() implies is_run(#[trigger] t[i], sep) by {
            assert(t[i] == v[i]);
        }
        assert(is_run(v[v.len() - 1], sep));
        lemma_join_runs(t, sep);
        assert(s == a + seq![sep] + b);
        assert forall|i: int| 0 <= i < s.len() implies alphanumeric(#[trigger] s[i]) || s[i]
            == sep by {
            if i < a.len() {
                assert(s[i] == a[i]);
            } else if i > a.len() {
                assert(s[i] == b[i - a.len() - 1]);
            }
        }
        assert(s[0] == a[0]);
        assert(s.last() == b[b.len() - 1]);
        assert forall|i: int| 0 < i < s.len() && #[trigger] s[i] == sep implies s[i - 1]
            != sep by {
            if i < a.len() {
                assert(s[i] == a[i] && s[i - 1] == a[i - 1]);
            } else if i == a.len() {
                assert(s[i - 1] == a.last());
            } else {
                assert(s[i] == b[i - a.len() - 1]);
            }
        }
        lemma_split_behind(a, b, sep);
        assert(t.push(b) =~= v);
    }
}

proof fn lemma_nonempty(v: Seq<Seq<char>>)
    ensures
        forall|i: int|
            0 <= i < nonempty(v).len() ==> (#[trigger] nonempty(v)[i]).len() > 0 && v.contains(
                nonempty(v)[i],
            ),
        (forall|i: int| 0 <= i < v.len() ==> (#[trigger] v[i]).len() > 0) ==> nonempty(v) == v,
    decreases v.len(),
{
    reveal(Seq::filter);
    if v.len() > 0 {
        let t = v.drop_last();
        lemma_nonempty(t);
        let keep = |p: Seq<char>| p.len() > 0;
        assert(nonempty(v) == if keep(v.last()) {
            nonempty(t).push(v.last())
        } else {
            nonempty(t)
        });
        assert forall|i: int| 0 <= i < nonempty(v).len() implies (#[trigger] nonempty(v)[i]).len()
            > 0 && v.contains(nonempty(v)[i]) by {
            if i < nonempty(t).len() {
                assert(nonempty(v)[i] == nonempty(t)[i]);
                let j = choose|j: int| 0 <= j < t.len() && t[j] == nonempty(t)[i];
                assert(v[j] == nonempty(v)[i]);
            } else {
                assert(v[v.len() - 1] == nonempty(v)[i]);
            }
        }
        if forall|i: int| 0 <= i < v.len() ==> (#[trigger] v[i]).len() > 0 {
            assert forall|i: int| 0 <= i < t.len() implies (#[trigger] t[i]).len() > 0 by {
                assert(t[i] == v[i]);
            }
            assert(v[v.len() - 1].len() > 0);
            assert(t.push(v.last()) =~= v);
        }
    }
}

proof fn lemma_kept_runs(s: Seq<char>, sep: char)
    ensures
        forall|i: int|
            0 <= i < nonempty(split(blanked(s, sep), sep)).len() ==> is_run(
                #[trigger] nonempty(split(blanked(s, sep), sep))[i],
                sep,
            ),
{
    let filled = blanked(s, sep);
    let v = split(filled, sep);
    lemma_split_filled(filled, sep);
    lemma_nonempty(v);
    assert forall|i: int| 0 <= i < nonempty(v).len() implies is_run(
        #[trigger] nonempty(v)[i],
        sep,
    ) by {
        let j = choose|j: int| 0 <= j < v.len() && v[j] == nonempty(v)[i];
        assert(v[j].len() > 0);
    }
}

/// A slug is alphanumeric characters and hyphens, with no hyphen at either end and no two in a
/// row; and taking the runs of a slug again changes nothing. `s` is the title in lower case.
pub proof fn slugs_are_runs(s: Seq<char>, sep: char)
    ensures
        is_runs(runs(s, sep), sep),
        runs(runs(s, sep), sep) == runs(s, sep),
{
    let v = nonempty(split(blanked(s, sep), sep));
    let r = runs(s, sep);
    lemma_kept_runs(s, sep);
    lemma_join_runs(v, sep);
    assert(blanked(r, sep) =~= r);
    if v.len() > 0 {
        assert forall|i: int| 0 <= i < v.len() implies (#[trigger] v[i]).len() > 0 by {
            assert(is_run(v[i], sep));
        }
        lemma_nonempty(v);
    } else {
        assert(r =~= Seq::<char>::empty());
        lemma_index_of(r, sep, 0);
        let w = split(r, sep);
        assert(w =~= seq![r]);
        lemma_nonempty(w);
        assert(nonempty(w).len() == 0) by {
            if nonempty(w).len() > 0 {
                assert(nonempty(w)[0].len() > 0);
                let j = choose|j: int| 0 <= j < w.len() && w[j] == nonempty(w)[0];
            }
        }
        assert(runs(r, sep) =~= r);
    }
}

/// Every character of a text is of a kind.
spec fn all_are(s: Seq<char>, kind: spec_fn(char) -> bool) -> bool {
    forall|i: int| 0 <= i < s.len() ==> kind(#[trigger] s[i])
}

proof fn lemma_split_keeps_kind(s: Seq<char>, sep: char, kind: spec_fn(char) -> bool)
    requires
        all_are(s, kind),
    ensures
        forall|i: int| 0 <= i < split(s, sep).len() ==> all_are(#[trigger] split(s, sep)[i], kind),
    decreases s.len(),
{
    let k = index_of(s, sep);
    lemma_index_of_bounds(s, sep);
    if k < s.len() {
        let rest = s.skip(k + 1);
        assert(all_are(rest, kind)) by {
            assert forall|i: int| 0 <= i < rest.len() implies kind(#[trigger] rest[i]) by {
                assert(rest[i] == s[i + k + 1]);
            }
        }
        lemma_split_keeps_kind(rest, sep, kind);
        let v = split(s, sep);
        assert forall|i: int| 0 <= i < v.len() implies all_are(#[trigger] v[i], kind) by {
            if i == 0 {
                assert forall|j: int| 0 <= j < v[0].len() implies kind(#[trigger] v[0][j]) by {
                    assert(v[0][j] == s[j]);
                }
            } else {
                assert(v[i] == split(rest, sep)[i - 1]);
            }
        }
    }
}

proof fn lemma_join_keeps_kind(v: Seq<Seq<char>>, sep: char, kind: spec_fn(char) -> bool)
    requires
        kind(sep),
        forall|i: int| 0 <= i < v.len() ==> all_are(#[trigger] v[i], kind),
    ensures
        all_are(join(v, seq![sep]), kind),
    decreases v.len(),
{
    if v.len() > 1 {
        let t = v.drop_last();
        assert forall|i: int| 0 <= i < t.len() implies all_are(#[trigger] t[i], kind) by {
            assert(t[i] == v[i]);
        }
        lemma_join_keeps_kind(t, sep, kind);
        let a = join(t, seq![sep]);
        let b = v[v.len() - 1];
        assert(all_are(b, kind));
        let s = join(v, seq![sep]);
        assert forall|i: int| 0 <= i < s.len() implies kind(#[trigger] s[i]) by {
            if i < a.len() {
                assert(s[i] == a[i]);
            } else if i > a.len() {
                assert(s[i] == b[i - a.len() - 1]);
            }
        }
    } else if v.len() == 1 {
        assert(all_are(v[0], kind));
    }
}

proof fn lemma_runs_keep_kind(s: Seq<char>, sep: char, kind: spec_fn(char) -> bool)
    requires
        kind(sep),
        all_are(s, kind),
    ensures
        all_are(runs(s, sep), kind),
{
    let filled = blanked(s, sep);
    assert(all_are(filled, kind));
    let v = split(filled, sep);
    lemma_split_keeps_kind(filled, sep, kind);
    lemma_nonempty(v);
    let w = nonempty(v);
    assert forall|i: int| 0 <= i < w.len() implies all_are(#[trigger] w[i], kind) by {
        let j = choose|j: int| 0 <= j < v.len() && v[j] == w[i];
        assert(all_are(v[j], kind));
    }
    lemma_join_keeps_kind(w, sep, kind);
}

/// The slug of a title is its own slug, and a title has the slug that it has in lower case. Of
/// ASCII titles this holds outright; of others wherever putting into lower case leaves the slug,
/// or the title that is in lower case already, as it is.
pub proof fn slugging_again_changes_nothing(s: Seq<char>)
    ensures
        ({
            let slug = runs(lowercase(s), '-');
            lowercase(slug) == slug ==> runs(lowercase(slug), '-') == slug
        }),
        lowercase(lowercase(s)) == lowercase(s) ==> runs(lowercase(lowercase(s)), '-') == runs(
            lowercase(s),
            '-',
        ),
        all_ascii(s) ==> ({
            let slug = runs(ascii_lower(s), '-');
            &&& all_ascii(slug)
            &&& runs(ascii_lower(slug), '-') == slug
            &&& all_ascii(ascii_lower(s))
            &&& runs(ascii_lower(ascii_lower(s)), '-') == slug
        }),
{
    slugs_are_runs(lowercase(s), '-');
    if all_ascii(s) {
        let kind = |c: char| (c as int) < 128 && lower_ascii(c) == c;
        let lower = ascii_lower(s);
        assert(all_are(lower, kind)) by {
            assert forall|i: int| 0 <= i < lower.len() implies kind(#[trigger] lower[i]) by {
                assert((s[i] as int) < 128);
            }
        }
        assert(kind('-'));
        lemma_runs_keep_kind(lower, '-', kind);
        let slug = runs(lower, '-');
        assert(ascii_lower(slug) =~= slug);
        assert(ascii_lower(lower) =~= lower);
        slugs_are_runs(lower, '-');
    }
}

// ---------------------------------------------------------------------- keys
/// The key of a film or an episode: the id with the title's episode suffix, or, without an id,
/// the slug of the title; none where neither is given.
pub open spec fn position_key(imdb_id: Option<Seq<char>>, title: Option<Seq<char>>) -> Option<
    Seq<char>,
> {
    match (imdb_id, title) {
        (Some(id), Some(t)) => if id.len() > 0 {
            match suffix_of(lowercase(t)) {
                Some(suffix) => Some(id + suffix),
                None => Some(id),
            }
        } else if t.len() > 0 {
            Some(runs(lowercase(t), '-'))
        } else {
            None
        },
        (Some(id), None) => if id.len() > 0 {
            Some(id)
        } else {
            None
        },
        (None, Some(t)) => if t.len() > 0 {
            Some(runs(lowercase(t), '-'))
        } else {
            None
        },
        (None, None) => None,
    }
}

/// Builds [`position_key`].
pub fn resume_position_key(imdb_id: Option<&str>, title: Option<&str>) -> (r: Option<String>)
    ensures
        opt(r) == position_key(opt_str(imdb_id), opt_str(title)),
{
    if let Some(id) = imdb_id {
        if !id.is_empty() {
            let mut key = id.to_owned();
            if let Some(t) = title {
                if let Some(suffix) = extract_se_suffix(t) {
                    key.append(suffix.as_str());
                }
            }
            return Some(key);
        }
    }
    if let Some(t) = title {
        if !t.is_empty() {
            return Some(slugify(t));
        }
    }
    None
}

/// Two suffixes are the same only for the same season and episode.
pub proof fn suffixes_tell_episodes_apart(s1: nat, e1: nat, s2: nat, e2: nat)
    requires
        se_suffix(s1, e1) == se_suffix(s2, e2),
    ensures
        s1 == s2,
        e1 == e2,
{
    lemma_padded(s1, 2);
    lemma_padded(e1, 2);
    lemma_padded(s2, 2);
    lemma_padded(e2, 2);
    let a = se_suffix(s1, e1);
    let b = se_suffix(s2, e2);
    let p: int = padded(s1, 2).len() as int;
    let q: int = padded(s2, 2).len() as int;
    assert(a[2 + p] == 'e');
    assert(b[2 + q] == 'e');
    if p < q {
        assert(b[2 + p] == padded(s2, 2)[p]);
        assert(is_digit(b[2 + p]));
    }
    if q < p {
        assert(a[2 + q] == padded(s1, 2)[q]);
        assert(is_digit(a[2 + q]));
    }
    assert(padded(s1, 2) =~= a.subrange(2, 2 + p));
    assert(padded(s2, 2) =~= b.subrange(2, 2 + q));
    assert(padded(e1, 2) =~= a.skip(3 + p));
    assert(padded(e2, 2) =~= b.skip(3 + q));
}

/// Under one id, the keys of two titles differ wherever their episodes do, and the key of an
/// episode is never that of the bare id.
pub proof fn episodes_of_a_show_have_keys_of_their_own(
    id: Seq<char>,
    t1: Seq<char>,
    t2: Seq<char>,
)
    requires
        id.len() > 0,
        episode_of(lowercase(t1)) != episode_of(lowercase(t2)),
    ensures
        position_key(Some(id), Some(t1)) is Some,
        position_key(Some(id), Some(t1)) != position_key(Some(id), Some(t2)),
{
    let k1 = position_key(Some(id), Some(t1))->0;
    let k2 = position_key(Some(id), Some(t2))->0;
    if k1 == k2 {
        let x1 = k1.skip(id.len() as int);
        let x2 = k2.skip(id.len() as int);
        match (episode_of(lowercase(t1)), episode_of(lowercase(t2))) {
            (Some((s1, e1)), Some((s2, e2))) => {
                assert(x1 =~= se_suffix(s1, e1));
                assert(x2 =~= se_suffix(s2, e2));
                suffixes_tell_episodes_apart(s1, e1, s2, e2);
            },
            (Some((s1, e1)), None) => {
                assert(k1.len() > id.len());
            },
            (None, Some((s2, e2))) => {
                assert(k2.len() > id.len());
            },
            (None, None) => {},
        }
    }
}

// -------------------------------------------------------------------- names
/// What may stand between a name and its marker.
pub open spec fn is_separator(c: char) -> bool {
    is_white(c) || c == '.' || c == '-' || c == '_'
}

/// The text without separators at its end.
pub open spec fn drop_separators(s: Seq<char>) -> Seq<char>
    decreases s.len(),
{
    if s.len() > 0 && is_separator(s.last()) {
        drop_separators(s.drop_last())
    } else {
        s
    }
}

/// The name in a title: what stands before its episode marker, without white space before it
/// and without separators behind it; the whole title, trimmed, where it has no marker.
pub open spec fn name_in(title: Seq<char>) -> Seq<char> {
    match first_marker(ascii_lower(title), 0) {
        Some(i) => drop_separators(skip_white(title.take(i))),
        None => drop_white(skip_white(title)),
    }
}

fn bare_name(v: &[char], end: usize) -> (r: Vec<char>)
    requires
        end <= v@.len(),
    ensures
        r@ == drop_separators(skip_white(v@.take(end as int))),
{
    let ghost t = v@.take(end as int);
    let mut a: usize = 0;
    assert(t.skip(0) =~= t);
    while a < end && white(v[a])
        invariant
            end <= v@.len(),
            t == v@.take(end as int),
            a <= end,
            skip_white(t.skip(a as int)) == skip_white(t),
        decreases end - a,
    {
        assert(t.skip(a as int).drop_first() =~= t.skip(a + 1));
        a += 1;
    }
    assert(a < end ==> t.skip(a as int)[0] == v@[a as int]);
    let ghost u = skip_white(t);
    assert(u == t.skip(a as int));
    let mut b: usize = end;
    assert(v@.subrange(a as int, b as int) =~= u);
    while b > a && (white(v[b - 1]) || v[b - 1] == '.' || v[b - 1] == '-' || v[b - 1] == '_')
        invariant
            a <= b <= end,
            end <= v@.len(),
            drop_separators(v@.subrange(a as int, b as int)) == drop_separators(u),
        decreases b,
    {
        assert(v@.subrange(a as int, b as int).drop_last() =~= v@.subrange(a as int, b - 1));
        b -= 1;
    }
    assert(b > a ==> v@.subrange(a as int, b as int).last() == v@[b - 1]);
    slice_copy(v, a, b)
}

/// The name to look a title up by, in the case in which it was written.
pub fn clean_title_for_tmdb(title: &str) -> (r: String)
    ensures
        r@ == name_in(title@),
{
    let v = chars_of(title);
    let lower = chars_of(to_ascii_lower(title).as_str());
    match find_marker(&lower) {
        Some(i) => string_of(&bare_name(&v, i)),
        None => crate::text::trimmed(title),
    }
}

/// The name in a title, with the season and the episode that its marker names.
pub fn parse_episode_markers(title: &str) -> (r: (String, Option<u32>, Option<u32>))
    ensures
        r.0@ == name_in(title@),
        match episode_of(ascii_lower(title@)) {
            Some((s, e)) => r.1 == Some(s as u32) && r.2 == Some(e as u32) && s <= u32::MAX && e
                <= u32::MAX,
            None => r.1 is None && r.2 is None,
        },
{
    let lower = chars_of(to_ascii_lower(title).as_str());
    let name = clean_title_for_tmdb(title);
    match read_episode(&lower) {
        Some((s, e)) => (name, Some(s), Some(e)),
        None => (name, None, None),
    }
}

/// A title reduced to what two ways of writing it have in common: the alphanumeric runs of its
/// name in lower case.
pub open spec fn common_form(title: Seq<char>) -> Seq<char> {
    runs(lowercase(name_in(title)), ' ')
}

/// Computes [`common_form`].
pub fn clean_title(title: &str) -> (r: String)
    ensures
        r@ == common_form(title@),
{
    let lower = to_lowercase(clean_title_for_tmdb(title).as_str());
    join_runs(lower.as_str(), ' ')
}

} // verus!
