//! What holds of titles, names and ids: an episode's title names the episode and the show, titles
//! that differ only in how they are written are the same, and keys tell apart what is to be kept
//! apart.
use vstd::prelude::*;

use crate::hls_cache::cache_key;
use crate::number_laws::words_part_at_white_space;
use crate::numbers::{word_len, words};
use crate::search::{episode_title, play_title, SearchResult, TorrentResult};
use crate::text::{
    all_digits, alphanumeric, ascii_lower, contains, ends_with, index_of, is_ascii_alnum, is_digit,
    is_white, join, lemma_index_of, lemma_index_of_bounds, lemma_join_first, lemma_padded,
    lowercase, nonempty, padded, skip_white, split, starts_with,
};
use crate::text_laws::prefixes_come_off;
use crate::titles::{
    blanked, common_form, digits_end, drop_separators, episode_of, first_marker, is_run, is_runs,
    is_separator, marker_at, name_in, position_key, runs, se_suffix, slugs_are_runs,
};
use crate::validation::{
    is_imdb_id, is_poster_url, is_safe_segment, is_segment_char, sanitized, segment_content_type,
    tame,
};

verus! {

// --------------------------------------------------------------------- episodes
pub proof fn lemma_digits_end(s: Seq<char>, i: int, j: int)
    requires
        0 <= i <= j <= s.len(),
        forall|k: int| i <= k < j ==> is_digit(#[trigger] s[k]),
        j < s.len() ==> !is_digit(s[j]),
    ensures
        digits_end(s, i) == j,
    decreases j - i,
{
    if i < j {
        assert(is_digit(s[i]));
        lemma_digits_end(s, i + 1, j);
    }
}

proof fn lemma_first_marker(s: Seq<char>, i: int, k: int)
    requires
        0 <= i <= k < s.len(),
        marker_at(s, k),
        forall|j: int| i <= j < k ==> !marker_at(s, j),
    ensures
        first_marker(s, i) == Some(k),
    decreases k - i,
{
    if i < k {
        lemma_first_marker(s, i + 1, k);
    }
}

/// A text in which a marker stands behind `head`: the letters before and between the numbers in
/// lower case.
proof fn lemma_marker(head: Seq<char>, a: Seq<char>, b: Seq<char>, rest: Seq<char>)
    requires
        head.len() > 0 ==> !crate::text::is_ascii_alnum(head.last()),
        a.len() > 0,
        b.len() > 0,
        all_digits(a),
        all_digits(b),
        rest.len() > 0 ==> !is_digit(rest[0]),
    ensures
        ({
            let s = head + seq!['s'] + a + seq!['e'] + b + rest;
            let i = head.len() as int;
            let j = i + 1 + a.len();
            &&& marker_at(s, i)
            &&& digits_end(s, i + 1) == j
            &&& digits_end(s, j + 1) == j + 1 + b.len()
            &&& s.subrange(i + 1, j) == a
            &&& s.subrange(j + 1, j + 1 + b.len()) == b
        }),
{
    let s = head + seq!['s'] + a + seq!['e'] + b + rest;
    let i = head.len() as int;
    let j = i + 1 + a.len();
    let k = j + 1 + b.len();
    assert forall|x: int| i + 1 <= x < j implies is_digit(#[trigger] s[x]) by {
        assert(is_digit(a[x - i - 1]));
        assert(s[x] == a[x - i - 1]);
    }
    assert(s[j] == 'e');
    lemma_digits_end(s, i + 1, j);
    assert forall|x: int| j + 1 <= x < k implies is_digit(#[trigger] s[x]) by {
        assert(is_digit(b[x - j - 1]));
        assert(s[x] == b[x - j - 1]);
    }
    if k < s.len() {
        assert(s[k] == rest[0]);
    }
    lemma_digits_end(s, j + 1, k);
    assert(s.subrange(i + 1, j) =~= a);
    assert(s.subrange(j + 1, k) =~= b);
    assert(s[i] == 's');
    assert(is_digit(s[i + 1]));
    assert(is_digit(s[j + 1]));
    if i > 0 {
        assert(s[i - 1] == head.last());
    }
}

/// A marker names its season and its episode, whatever stands before it and behind it, as long as it
/// is the first.
pub proof fn a_marker_names_its_episode(
    head: Seq<char>,
    season: u32,
    episode: u32,
    width: nat,
    rest: Seq<char>,
)
    requires
        head.len() > 0 ==> !crate::text::is_ascii_alnum(head.last()),
        rest.len() > 0 ==> !is_digit(rest[0]),
        forall|j: int|
            0 <= j < head.len() ==> !marker_at(
                head + seq!['s'] + padded(season as nat, width) + seq!['e'] + padded(
                    episode as nat,
                    width,
                ) + rest,
                j,
            ),
    ensures
        episode_of(
            head + seq!['s'] + padded(season as nat, width) + seq!['e'] + padded(
                episode as nat,
                width,
            ) + rest,
        ) == Some((season as nat, episode as nat)),
{
    let a = padded(season as nat, width);
    let b = padded(episode as nat, width);
    lemma_padded(season as nat, width);
    lemma_padded(episode as nat, width);
    lemma_marker(head, a, b, rest);
    let s = head + seq!['s'] + a + seq!['e'] + b + rest;
    lemma_first_marker(s, 0, head.len() as int);
}

proof fn lemma_lower_title(show: Seq<char>, season: u32, episode: u32)
    ensures
        ascii_lower(episode_title(show, season, episode)) == (ascii_lower(show) + seq![' ']) + seq![
            's',
        ] + padded(season as nat, 2) + seq!['e'] + padded(episode as nat, 2) + Seq::<char>::empty(),
        episode_title(show, season, episode) == show + seq![' ', 'S'] + padded(season as nat, 2)
            + seq!['E'] + padded(episode as nat, 2),
{
    reveal_strlit(" S");
    reveal_strlit("E");
    let a = padded(season as nat, 2);
    let b = padded(episode as nat, 2);
    lemma_padded(season as nat, 2);
    lemma_padded(episode as nat, 2);
    let t = episode_title(show, season, episode);
    assert(" S"@ =~= seq![' ', 'S']);
    assert("E"@ =~= seq!['E']);
    let l = (ascii_lower(show) + seq![' ']) + seq!['s'] + a + seq!['e'] + b + Seq::<char>::empty();
    let n = show.len() as int;
    assert forall|j: int| 0 <= j < t.len() implies #[trigger] ascii_lower(t)[j] == l[j] by {
        if j < n {
            assert(t[j] == show[j]);
            assert(l[j] == ascii_lower(show)[j]);
        } else if n + 2 <= j < n + 2 + a.len() {
            assert(is_digit(a[j - n - 2]));
            assert(t[j] == a[j - n - 2]);
            assert(l[j] == a[j - n - 2]);
        } else if n + 3 + a.len() <= j {
            assert(is_digit(b[j - n - 3 - a.len()]));
            assert(t[j] == b[j - n - 3 - a.len()]);
            assert(l[j] == b[j - n - 3 - a.len()]);
        }
    }
    assert(ascii_lower(t) =~= l);
}

/// The title under which an episode is played names its show and its numbers again: so what was
/// played under it counts for that episode of that show.
pub proof fn an_episodes_title_names_it(show: Seq<char>, season: u32, episode: u32)
    requires
        show.len() > 0,
        !is_white(show[0]),
        !is_separator(show.last()),
        forall|j: int|
            0 <= j <= show.len() ==> !marker_at(
                ascii_lower(episode_title(show, season, episode)),
                j,
            ),
    ensures
        episode_of(ascii_lower(episode_title(show, season, episode))) == Some(
            (season as nat, episode as nat),
        ),
        name_in(episode_title(show, season, episode)) == show,
{
    let t = episode_title(show, season, episode);
    let head = ascii_lower(show) + seq![' '];
    lemma_lower_title(show, season, episode);
    assert(head.last() == ' ');
    a_marker_names_its_episode(head, season, episode, 2, Seq::empty());
    let a = padded(season as nat, 2);
    let b = padded(episode as nat, 2);
    lemma_padded(season as nat, 2);
    lemma_padded(episode as nat, 2);
    lemma_marker(head, a, b, Seq::empty());
    let s = ascii_lower(t);
    lemma_first_marker(s, 0, head.len() as int);
    let k = show.len() as int + 1;
    assert(t.take(k) =~= show + seq![' ']);
    let u = show + seq![' '];
    assert(skip_white(u) == u);
    assert(u.drop_last() =~= show);
    assert(u.last() == ' ');
    assert(drop_separators(show) == show);
    assert(drop_separators(u) == drop_separators(u.drop_last()));
}

/// What is played has the name of the show with the episode that was searched for, the name of the
/// film where none was, and its own name where neither is known.
pub proof fn results_are_played_under_the_name_searched_for(s: SearchResult, r: TorrentResult)
    ensures
        s.show is Some && s.searching is Some ==> play_title(s, r) == s.show->0.title@ + " S"@
            + padded(s.searching->0.season as nat, 2) + "E"@ + padded(
            s.searching->0.episode as nat,
            2,
        ),
        s.show is Some && s.searching is None ==> play_title(s, r) == s.show->0.title@,
        s.show is None ==> play_title(s, r) == r.title@,
{
}

/// A title without a marker is its own name, but for white space at its ends; and it names no
/// episode.
pub proof fn a_plain_title_is_its_name(title: Seq<char>)
    requires
        forall|j: int| 0 <= j < title.len() ==> !marker_at(ascii_lower(title), j),
    ensures
        name_in(title) == crate::text::trim(title),
        episode_of(ascii_lower(title)) is None,
{
    lemma_no_marker(ascii_lower(title), 0);
}

proof fn lemma_no_marker(s: Seq<char>, i: int)
    requires
        0 <= i,
        forall|j: int| i <= j < s.len() ==> !marker_at(s, j),
    ensures
        first_marker(s, i) is None,
    decreases s.len() - i,
{
    if i < s.len() {
        lemma_no_marker(s, i + 1);
    }
}

// ------------------------------------------------------------------------- runs
proof fn lemma_split_parts(a: Seq<char>, b: Seq<char>, c: char)
    ensures
        split(a + seq![c] + b, c) == split(a, c) + split(b, c),
    decreases a.len(),
{
    let s = a + seq![c] + b;
    let k = index_of(a, c);
    lemma_index_of_bounds(a, c);
    assert forall|j: int| 0 <= j < k implies s[j] != c by {
        assert(s[j] == a[j]);
    }
    assert(s[k] == c) by {
        if k < a.len() {
            assert(s[k] == a[k]);
        }
    }
    lemma_index_of(s, c, k);
    assert(s.take(k) =~= a.take(k));
    if k < a.len() {
        lemma_split_parts(a.skip(k + 1), b, c);
        assert(s.skip(k + 1) =~= a.skip(k + 1) + seq![c] + b);
        assert(split(s, c) =~= split(a, c) + split(b, c));
    } else {
        assert(a.take(k) =~= a);
        assert(s.skip(k + 1) =~= b);
        assert(split(s, c) =~= split(a, c) + split(b, c));
    }
}

proof fn lemma_join_parts(u: Seq<Seq<char>>, v: Seq<Seq<char>>, sep: Seq<char>)
    requires
        u.len() > 0,
        v.len() > 0,
    ensures
        join(u + v, sep) == join(u, sep) + sep + join(v, sep),
    decreases v.len(),
{
    let w = u + v;
    assert(w.last() == v.last());
    assert(w.drop_last() =~= u + v.drop_last());
    if v.len() == 1 {
        assert(w.drop_last() =~= u);
    } else {
        lemma_join_parts(u, v.drop_last(), sep);
        assert(join(w, sep) =~= join(u, sep) + sep + join(v, sep));
    }
}

proof fn lemma_join_empty(v: Seq<Seq<char>>, sep: Seq<char>)
    requires
        forall|i: int| 0 <= i < v.len() ==> (#[trigger] v[i]).len() > 0,
    ensures
        join(v, sep).len() == 0 <==> v.len() == 0,
    decreases v.len(),
{
    if v.len() > 1 {
        assert(v[v.len() - 1].len() > 0);
    } else if v.len() == 1 {
        assert(v[0].len() > 0);
    }
}

proof fn lemma_nonempty_pieces(v: Seq<Seq<char>>)
    ensures
        forall|i: int| 0 <= i < nonempty(v).len() ==> (#[trigger] nonempty(v)[i]).len() > 0,
{
    let keep = |p: Seq<char>| p.len() > 0;
    assert forall|i: int| 0 <= i < nonempty(v).len() implies (#[trigger] nonempty(v)[i]).len()
        > 0 by {
        v.lemma_filter_pred(keep, i);
    }
}

/// A title is reduced word by word: a run of letters and digits stays as it is, and at anything else
/// the runs before it and those behind it are put one separator apart. So no letter is lost, and
/// none is added.
pub proof fn titles_are_reduced_word_by_word(a: Seq<char>, c: char, b: Seq<char>, sep: char)
    requires
        !alphanumeric(c) || c == sep,
    ensures
        runs(a, sep).len() > 0 && runs(b, sep).len() > 0 ==> runs(a + seq![c] + b, sep) == runs(
            a,
            sep,
        ) + seq![sep] + runs(b, sep),
        runs(a, sep).len() == 0 ==> runs(a + seq![c] + b, sep) == runs(b, sep),
        runs(b, sep).len() == 0 ==> runs(a + seq![c] + b, sep) == runs(a, sep),
        is_run(a, sep) ==> runs(a, sep) == a,
        runs(Seq::empty(), sep).len() == 0,
{
    let s = a + seq![c] + b;
    let x = blanked(a, sep);
    let y = blanked(b, sep);
    assert(blanked(s, sep) =~= x + seq![sep] + y);
    lemma_split_parts(x, y, sep);
    let u = nonempty(split(x, sep));
    let v = nonempty(split(y, sep));
    let keep = |p: Seq<char>| p.len() > 0;
    Seq::filter_distributes_over_add(split(x, sep), split(y, sep), keep);
    assert(nonempty(split(blanked(s, sep), sep)) == u + v);
    lemma_nonempty_pieces(split(x, sep));
    lemma_nonempty_pieces(split(y, sep));
    lemma_join_empty(u, seq![sep]);
    lemma_join_empty(v, seq![sep]);
    if u.len() > 0 && v.len() > 0 {
        lemma_join_parts(u, v, seq![sep]);
    } else if u.len() == 0 {
        assert(u + v =~= v);
        if v.len() == 0 {
            assert(v =~= u);
            assert(join(u, seq![sep]) =~= join(v, seq![sep]));
        }
    } else {
        assert(u + v =~= u);
    }
    if is_run(a, sep) {
        assert forall|i: int| 0 <= i < a.len() implies #[trigger] x[i] == a[i] by {
            assert(alphanumeric(a[i]));
        }
        assert(x =~= a);
        assert forall|j: int| 0 <= j < a.len() implies a[j] != sep by {
            assert(alphanumeric(a[j]) && a[j] != sep);
        }
        lemma_index_of(a, sep, a.len() as int);
        assert(split(a, sep) =~= seq![a]);
        reveal(Seq::filter);
        assert(seq![a].drop_last() =~= Seq::<Seq<char>>::empty());
        assert(seq![a].drop_last().filter(keep) =~= Seq::<Seq<char>>::empty());
        assert(nonempty(split(a, sep)) =~= seq![a]);
    }
    let e = Seq::<char>::empty();
    assert(blanked(e, sep) =~= e);
    lemma_index_of(e, sep, 0);
    assert(split(e, sep) =~= seq![e]);
    reveal(Seq::filter);
    assert(seq![e].drop_last() =~= Seq::<Seq<char>>::empty());
    assert(seq![e].drop_last().filter(keep) =~= Seq::<Seq<char>>::empty());
    assert(nonempty(split(e, sep)) =~= Seq::<Seq<char>>::empty());
}

/// Two titles whose names are the same in lower case are of one form; and a form is words one space
/// apart.
pub proof fn one_name_has_one_form(a: Seq<char>, b: Seq<char>)
    ensures
        lowercase(name_in(a)) == lowercase(name_in(b)) ==> common_form(a) == common_form(b),
        common_form(a) == runs(lowercase(name_in(a)), ' '),
        is_runs(common_form(a), ' '),
{
    slugs_are_runs(lowercase(name_in(a)), ' ');
}

/// A title is compared by its letters, digits and white space: each is kept in its place, and
/// nothing else is.
pub proof fn symbols_are_not_compared(s: Seq<char>, c: char)
    ensures
        alphanumeric(c) || is_white(c) ==> tame(s.push(c)) == tame(s).push(c),
        !alphanumeric(c) && !is_white(c) ==> tame(s.push(c)) == tame(s),
        tame(Seq::empty()).len() == 0,
{
    reveal(Seq::filter);
    assert(s.push(c).drop_last() =~= s);
}

// ------------------------------------------------------------------------- keys
/// What is remembered of a title is remembered under its id, with its episode where it names one, and
/// under its name where it has no id; without either nothing is.
pub proof fn keys_are_made_of_id_and_episode(id: Seq<char>, title: Seq<char>, s: nat, e: nat)
    ensures
        id.len() > 0 && episode_of(lowercase(title)) == Some((s, e)) ==> position_key(
            Some(id),
            Some(title),
        ) == Some(id + seq!['_', 's'] + padded(s, 2) + seq!['e'] + padded(e, 2)),
        id.len() > 0 && episode_of(lowercase(title)) is None ==> position_key(Some(id), Some(title))
            == Some(id),
        id.len() > 0 ==> position_key(Some(id), None) == Some(id),
        title.len() > 0 ==> position_key(None, Some(title)) == Some(runs(lowercase(title), '-')),
        title.len() > 0 && id.len() == 0 ==> position_key(Some(id), Some(title)) == Some(
            runs(lowercase(title), '-'),
        ),
        position_key(None, None) is None,
        title.len() == 0 ==> position_key(None, Some(title)) is None,
{
    if id.len() > 0 && episode_of(lowercase(title)) == Some((s, e)) {
        assert(id + se_suffix(s, e) =~= id + seq!['_', 's'] + padded(s, 2) + seq!['e'] + padded(
            e,
            2,
        ));
    }
}

/// A transcode is kept under all that makes it what it is: the id, the episode, the language of the
/// subtitles in it and whether an intro runs before it; nothing is kept without an id.
pub proof fn transcodes_are_kept_by_what_is_in_them(
    id: Seq<char>,
    s: u32,
    e: u32,
    lang: Seq<char>,
    other: Seq<char>,
)
    requires
        id.len() > 0,
    ensures
        cache_key(None, Some(s), Some(e), Some(lang), true) is None,
        cache_key(Some(Seq::empty()), Some(s), Some(e), Some(lang), true) is None,
        cache_key(Some(id), Some(s), Some(e), Some(lang), true) == Some(
            id + "_s"@ + padded(s as nat, 2) + "e"@ + padded(e as nat, 2) + "_sub-"@ + lang
                + "_intro"@,
        ),
        cache_key(Some(id), Some(s), Some(e), None, false) == Some(
            id + "_s"@ + padded(s as nat, 2) + "e"@ + padded(e as nat, 2) + "_nosub_nointro"@,
        ),
        cache_key(Some(id), None, None, Some(lang), false) == Some(
            id + "_sub-"@ + lang + "_nointro"@,
        ),
        cache_key(Some(id), Some(s), None, None, true) == Some(id + "_nosub_intro"@),
        cache_key(Some(id), None, Some(e), None, true) == Some(id + "_nosub_intro"@),
        lang != other ==> cache_key(Some(id), Some(s), Some(e), Some(lang), true) != cache_key(
            Some(id),
            Some(s),
            Some(e),
            Some(other),
            true,
        ),
        cache_key(Some(id), Some(s), Some(e), Some(lang), true) != cache_key(
            Some(id),
            Some(s),
            Some(e),
            Some(lang),
            false,
        ),
{
    reveal_strlit("_nosub");
    reveal_strlit("_nointro");
    reveal_strlit("_intro");
    reveal_strlit("_nosub_nointro");
    reveal_strlit("_nosub_intro");
    assert("_nosub"@ + "_nointro"@ =~= "_nosub_nointro"@);
    assert("_nosub"@ + "_intro"@ =~= "_nosub_intro"@);
    let ep = "_s"@ + padded(s as nat, 2) + "e"@ + padded(e as nat, 2);
    let none = Seq::<char>::empty();
    assert(id + ep + ("_sub-"@ + lang) + "_intro"@ =~= id + "_s"@ + padded(s as nat, 2) + "e"@
        + padded(e as nat, 2) + "_sub-"@ + lang + "_intro"@);
    assert(id + ep + "_nosub"@ + "_nointro"@ =~= id + "_s"@ + padded(s as nat, 2) + "e"@ + padded(
        e as nat,
        2,
    ) + "_nosub_nointro"@);
    assert(id + none + ("_sub-"@ + lang) + "_nointro"@ =~= id + "_sub-"@ + lang + "_nointro"@);
    assert(id + none + "_nosub"@ + "_intro"@ =~= id + "_nosub_intro"@);
    let k = cache_key(Some(id), Some(s), Some(e), Some(lang), true)->0;
    let l = cache_key(Some(id), Some(s), Some(e), Some(other), true)->0;
    let m = cache_key(Some(id), Some(s), Some(e), Some(lang), false)->0;
    assert(m.len() == k.len() + 2);
    if k == l {
        let at = id.len() + ep.len() + "_sub-"@.len();
        assert(lang =~= k.subrange(at as int, k.len() - 6));
        assert(other =~= l.subrange(at as int, l.len() - 6));
    }
}

// -------------------------------------------------------------------------- ids
/// An id is `tt` and one to twelve digits, alone or with a season of one to three digits and an
/// episode of one to four behind it.
pub proof fn ids_are_known_by_their_form(a: Seq<char>, b: Seq<char>, c: Seq<char>)
    requires
        all_digits(a),
        all_digits(b),
        all_digits(c),
        1 <= a.len() <= 12,
        1 <= b.len() <= 3,
        1 <= c.len() <= 4,
    ensures
        is_imdb_id("tt"@ + a),
        is_imdb_id("tt"@ + a + "_s"@ + b + "e"@ + c),
{
    reveal_strlit("tt");
    reveal_strlit("_s");
    reveal_strlit("e");
    let s = "tt"@ + a;
    prefixes_come_off("tt"@, a);
    assert forall|k: int| 2 <= k < s.len() implies is_digit(#[trigger] s[k]) by {
        assert(is_digit(a[k - 2]));
    }
    lemma_digits_end(s, 2, s.len() as int);
    let t = s + "_s"@ + b + "e"@ + c;
    let p = 2 + a.len() as int;
    let q = p + 2 + b.len() as int;
    let n = t.len() as int;
    assert(t =~= "tt"@ + (a + "_s"@ + b + "e"@ + c));
    prefixes_come_off("tt"@, a + "_s"@ + b + "e"@ + c);
    assert forall|k: int| 2 <= k < p implies is_digit(#[trigger] t[k]) by {
        assert(is_digit(a[k - 2]));
        assert(t[k] == a[k - 2]);
    }
    assert(t[p] == '_' && t[p + 1] == 's');
    lemma_digits_end(t, 2, p);
    assert forall|k: int| p + 2 <= k < q implies is_digit(#[trigger] t[k]) by {
        assert(is_digit(b[k - p - 2]));
        assert(t[k] == b[k - p - 2]);
    }
    assert(t[q] == 'e');
    lemma_digits_end(t, p + 2, q);
    assert forall|k: int| q + 1 <= k < n implies is_digit(#[trigger] t[k]) by {
        assert(is_digit(c[k - q - 1]));
        assert(t[k] == c[k - q - 1]);
    }
    lemma_digits_end(t, q + 1, n);
}

proof fn lemma_digits_before(s: Seq<char>, i: int)
    requires
        0 <= i <= s.len(),
    ensures
        i <= digits_end(s, i) <= s.len(),
        forall|k: int| i <= k < digits_end(s, i) ==> is_digit(#[trigger] s[k]),
    decreases s.len() - i,
{
    if i < s.len() && is_digit(s[i]) {
        lemma_digits_before(s, i + 1);
    }
}

/// Nothing else is an id: one begins with `tt` and a digit, and holds nothing but digits and what
/// sets off its season and its episode.
pub proof fn nothing_else_is_an_id(s: Seq<char>)
    requires
        is_imdb_id(s),
    ensures
        3 <= s.len() <= 24,
        s[0] == 't' && s[1] == 't',
        is_digit(s[2]),
        is_digit(s.last()),
        forall|k: int|
            2 <= k < s.len() ==> is_digit(#[trigger] s[k]) || s[k] == '_' || s[k] == 's' || s[k]
                == 'e',
        !s.contains('_') ==> s.len() <= 14 && forall|k: int|
            2 <= k < s.len() ==> is_digit(#[trigger] s[k]),
{
    reveal_strlit("tt");
    assert(s.subrange(0, 2)[0] == s[0] && s.subrange(0, 2)[1] == s[1]);
    let a = digits_end(s, 2);
    lemma_digits_before(s, 2);
    assert(is_digit(s[2]));
    if a != s.len() {
        lemma_digits_before(s, a + 2);
        let b = digits_end(s, a + 2);
        lemma_digits_before(s, b + 1);
        assert(s.contains('_'));
        assert(is_digit(s[s.len() - 1]));
    } else {
        assert(is_digit(s[s.len() - 1]));
    }
}

/// Posters come from two places alone.
pub proof fn posters_come_from_two_places(rest: Seq<char>, url: Seq<char>)
    ensures
        is_poster_url("https://image.tmdb.org/"@ + rest),
        is_poster_url("https://www.themoviedb.org/"@ + rest),
        !starts_with(url, "https://image.tmdb.org/"@) && !starts_with(
            url,
            "https://www.themoviedb.org/"@,
        ) ==> !is_poster_url(url),
{
    prefixes_come_off("https://image.tmdb.org/"@, rest);
    prefixes_come_off("https://www.themoviedb.org/"@, rest);
}

/// A name is served exactly where it is short, tame, of one of three kinds, and has no two dots in a
/// row; and it is served as what its ending says.
pub proof fn segments_are_served_by_their_names(s: Seq<char>)
    ensures
        is_safe_segment(s) <==> 1 <= s.len() <= 64 && (ends_with(s, ".ts"@) || ends_with(s, ".m4s"@)
            || ends_with(s, ".m3u8"@)) && !contains(s, ".."@) && (forall|i: int|
            0 <= i < s.len() ==> (is_digit(#[trigger] s[i]) || 'a' <= s[i] <= 'z' || 'A' <= s[i]
                <= 'Z' || s[i] == '_' || s[i] == '-' || s[i] == '.')),
        ends_with(s, ".m3u8"@) ==> segment_content_type(s) == "application/vnd.apple.mpegurl"@,
        ends_with(s, ".ts"@) ==> segment_content_type(s) == "video/mp2t"@,
        ends_with(s, ".m4s"@) ==> segment_content_type(s) == "video/mp4"@,
{
    reveal_strlit(".ts");
    reveal_strlit(".m4s");
    reveal_strlit(".m3u8");
    assert forall|i: int| 0 <= i < s.len() implies is_segment_char(#[trigger] s[i]) == (is_digit(
        s[i],
    ) || 'a' <= s[i] <= 'z' || 'A' <= s[i] <= 'Z' || s[i] == '_' || s[i] == '-' || s[i]
        == '.') by {}
    let n = s.len() as int;
    if ends_with(s, ".ts"@) {
        assert(s.subrange(n - 3, n)[2] == s[n - 1]);
        if ends_with(s, ".m3u8"@) {
            assert(s.subrange(n - 5, n)[4] == s[n - 1]);
        }
    }
    if ends_with(s, ".m4s"@) {
        assert(s.subrange(n - 4, n)[3] == s[n - 1]);
        assert(s.subrange(n - 4, n)[2] == s[n - 2]);
        if ends_with(s, ".m3u8"@) {
            assert(s.subrange(n - 5, n)[4] == s[n - 1]);
        }
        if ends_with(s, ".ts"@) {
            assert(s.subrange(n - 3, n)[1] == s[n - 2]);
        }
    }
}

// ------------------------------------------------------------------------ words
proof fn lemma_words_are_words(s: Seq<char>, i: int)
    requires
        0 <= i < words(s).len(),
    ensures
        words(s)[i].len() > 0,
        forall|j: int| 0 <= j < words(s)[i].len() ==> !is_white(#[trigger] words(s)[i][j]),
    decreases s.len(),
{
    if s.len() > 0 {
        if is_white(s[0]) {
            lemma_words_are_words(s.drop_first(), i);
        } else {
            lemma_word_within(s);
            let k = word_len(s);
            let w = s.take(k);
            assert(words(s) == seq![w] + words(s.skip(k)));
            if i == 0 {
                assert(words(s)[0] == w);
                assert forall|j: int| 0 <= j < w.len() implies !is_white(#[trigger] w[j]) by {
                    assert(w[j] == s[j]);
                }
            } else {
                lemma_words_are_words(s.skip(k), i - 1);
                assert(words(s)[i] == words(s.skip(k))[i - 1]);
            }
        }
    }
}

proof fn lemma_word_within(s: Seq<char>)
    ensures
        0 <= word_len(s) <= s.len(),
        forall|j: int| 0 <= j < word_len(s) ==> !is_white(#[trigger] s[j]),
        s.len() > 0 && !is_white(s[0]) ==> word_len(s) > 0,
    decreases s.len(),
{
    if s.len() > 0 && !is_white(s[0]) {
        let t = s.drop_first();
        lemma_word_within(t);
        assert forall|j: int| 0 <= j < word_len(s) implies !is_white(#[trigger] s[j]) by {
            if j > 0 {
                assert(s[j] == t[j - 1]);
            }
        }
    }
}

proof fn lemma_joined_words(v: Seq<Seq<char>>)
    requires
        forall|i: int| 0 <= i < v.len() ==> (#[trigger] v[i]).len() > 0,
        forall|i: int, j: int|
            0 <= i < v.len() && 0 <= j < v[i].len() ==> !is_white(#[trigger] v[i][j]),
    ensures
        words(join(v, seq![' '])) == v,
    decreases v.len(),
{
    if v.len() == 0 {
        assert(words(join(v, seq![' '])) =~= v);
    } else {
        let w = v[0];
        assert(w.len() > 0);
        assert forall|j: int| 0 <= j < w.len() implies !is_white(#[trigger] w[j]) by {
            assert(w[j] == v[0][j]);
        }
        let rest = v.drop_first();
        words_part_at_white_space(w, ' ', join(rest, seq![' ']));
        if v.len() == 1 {
            assert(v =~= seq![w]);
        } else {
            assert forall|i: int| 0 <= i < rest.len() implies (#[trigger] rest[i]).len() > 0 by {
                assert(rest[i] == v[i + 1]);
            }
            assert forall|i: int, j: int|
                0 <= i < rest.len() && 0 <= j < rest[i].len() implies !is_white(
                #[trigger] rest[i][j],
            ) by {
                assert(rest[i][j] == v[i + 1][j]);
            }
            lemma_joined_words(rest);
            lemma_join_first(w, rest, seq![' ']);
            assert(seq![w] + rest =~= v);
        }
    }
}

/// A title that is made tame keeps its words in their order, one space apart, and of them their
/// letters and digits.
pub proof fn tame_titles_keep_their_words(s: Seq<char>, c: char)
    ensures
        words(sanitized(s)) == words(tame(s)),
        sanitized(s) == join(words(tame(s)), seq![' ']),
        alphanumeric(c) || is_white(c) ==> tame(s.push(c)) == tame(s).push(c),
        !(alphanumeric(c) || is_white(c)) ==> tame(s.push(c)) == tame(s),
        tame(Seq::empty()) == Seq::<char>::empty(),
{
    reveal(Seq::filter);
    reveal_strlit(" ");
    assert(" "@ =~= seq![' ']);
    assert(s.push(c).drop_last() =~= s);
    let v = words(tame(s));
    assert forall|i: int| 0 <= i < v.len() implies (#[trigger] v[i]).len() > 0 by {
        lemma_words_are_words(tame(s), i);
    }
    assert forall|i: int, j: int| 0 <= i < v.len() && 0 <= j < v[i].len() implies !is_white(
        #[trigger] v[i][j],
    ) by {
        lemma_words_are_words(tame(s), i);
    }
    lemma_joined_words(v);
}

// ------------------------------------------------------------------------ marks
/// An episode is marked by an `s`, digits, an `e` and a digit, where no letter or digit stands
/// before it, and by nothing else.
pub proof fn marks_are_told_by_their_form(s: Seq<char>, i: int, j: int)
    ensures
        0 <= i && i + 1 < j && j + 1 < s.len() && s[i] == 's' && s[j] == 'e' && is_digit(s[j + 1])
            && (forall|k: int| i < k < j ==> is_digit(#[trigger] s[k])) && (i == 0
            || !is_ascii_alnum(s[i - 1])) ==> marker_at(s, i),
        marker_at(s, i) ==> 0 <= i && s[i] == 's' && (i == 0 || !is_ascii_alnum(s[i - 1])) && exists|
            m: int,
        |
            i + 1 < m && m + 1 < s.len() && #[trigger] s[m] == 'e' && is_digit(s[m + 1]) && forall|
                k: int,
            |
                i < k < m ==> is_digit(#[trigger] s[k]),
{
    if 0 <= i && i + 1 < j && j + 1 < s.len() && s[j] == 'e' && (forall|k: int|
        i < k < j ==> is_digit(#[trigger] s[k])) {
        lemma_digits_end(s, i + 1, j);
        assert(is_digit(s[i + 1]));
    }
    if marker_at(s, i) {
        lemma_digits_before(s, i + 1);
        let m = digits_end(s, i + 1);
        assert(m > i + 1) by {
            assert(digits_end(s, i + 1) == digits_end(s, i + 2));
            lemma_digits_before(s, i + 2);
        }
        assert(s[m] == 'e');
    }
}

/// A form has nothing but letters, digits and single separators, and none of those at its ends.
pub proof fn forms_have_single_separators(s: Seq<char>, sep: char, i: int)
    ensures
        ({
            let r = runs(s, sep);
            &&& 0 <= i < r.len() ==> alphanumeric(r[i]) || r[i] == sep
            &&& r.len() > 0 ==> r[0] != sep && r.last() != sep
            &&& 0 < i < r.len() && r[i] == sep ==> r[i - 1] != sep
            &&& runs(r, sep) == r
        }),
{
    slugs_are_runs(s, sep);
}

/// What parts a name from its mark is white space, a dot, a hyphen or an underscore.
pub proof fn names_are_parted_from_their_marks(c: char)
    ensures
        is_separator(c) <==> is_white(c) || c == '.' || c == '-' || c == '_',
        is_separator(' '),
{
}

/// An empty id is none and an empty title is none: a title without an id has its form for a key,
/// and what has neither has no key.
pub proof fn empty_names_are_none(title: Seq<char>)
    ensures
        position_key(None, None) is None,
        position_key(Some(Seq::empty()), None) is None,
        position_key(None, Some(Seq::empty())) is None,
        position_key(Some(Seq::empty()), Some(Seq::empty())) is None,
        position_key(Some(Seq::empty()), Some(title)) == position_key(None, Some(title)),
        title.len() > 0 ==> position_key(None, Some(title)) == Some(runs(lowercase(title), '-')),
{
}

} // verus!
