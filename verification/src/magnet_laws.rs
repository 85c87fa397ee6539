//! What holds of magnet links as they are read: a link is its parameters, each of them is known by
//! its name and read by its value, and the files that it selects are left out and nothing else.
use vstd::prelude::*;

use crate::magnet::{
    fillers, hex_value, is_hash_parameter, is_hex, is_literal, lacking, lemma_literal,
    lemma_short_key, names_misfit, params, query_of, unbroken, unescaped, unselecting, without_end,
    without_selection,
};
use crate::text::{join, lemma_index_of, lemma_split_join, starts_with};
use crate::text_laws::prefixes_come_off;

verus! {

/// A link of some parameters, with a fragment behind them or none.
pub open spec fn link(ps: Seq<Seq<char>>, fragment: Seq<char>) -> Seq<char> {
    "magnet:?"@ + join(ps, seq!['&']) + fragment
}

/// Parameters that can stand in a link.
pub open spec fn are_parameters(ps: Seq<Seq<char>>) -> bool {
    &&& ps.len() > 0
    &&& forall|i: int, j: int|
        0 <= i < ps.len() && 0 <= j < ps[i].len() ==> #[trigger] ps[i][j] != '&' && ps[i][j] != '#'
}

/// A link is read parameter by parameter, and its fragment is none of them.
pub proof fn links_are_their_parameters(ps: Seq<Seq<char>>, fragment: Seq<char>)
    requires
        are_parameters(ps),
        fragment.len() > 0 ==> fragment[0] == '#',
    ensures
        params(link(ps, fragment)) == ps,
        without_selection(link(ps, fragment)) == link(
            ps.map_values(|p: Seq<char>| unselecting(p)),
            fragment,
        ),
{
    reveal_strlit("magnet:?");
    reveal_strlit("&");
    assert("&"@ =~= seq!['&']);
    let q = join(ps, seq!['&']);
    let m = link(ps, fragment);
    lemma_split_join(ps, '&', '#');
    let e = 8 + q.len() as int;
    assert forall|j: int| 0 <= j < e implies #[trigger] m[j] != '#' by {
        if j >= 8 {
            assert(m[j] == q[j - 8]);
        }
    }
    if fragment.len() > 0 {
        assert(m[e] == fragment[0]);
    }
    lemma_index_of(m, '#', e);
    let h = m.take(e);
    assert(h[7] == '?');
    lemma_index_of(h, '?', 7);
    assert(query_of(m) =~= q);
    assert(m.skip(e) =~= fragment);
    assert(h.take(8) =~= "magnet:?"@);
}

/// A selection of files is left out of its parameter, and trackers, names and hashes stay as they
/// are.
pub proof fn only_selections_are_left_out(value: Seq<char>)
    ensures
        unselecting("so="@ + value) == "so="@,
        unselecting("tr="@ + value) == "tr="@ + value,
        unselecting("dn="@ + value) == "dn="@ + value,
        unselecting("xt="@ + value) == "xt="@ + value,
{
    reveal_strlit("so=");
    reveal_strlit("tr=");
    reveal_strlit("dn=");
    reveal_strlit("xt=");
    reveal_strlit("so");
    let p = "so="@ + value;
    lemma_short_key(p);
    lemma_index_of(p, '=', 2);
    assert(p.take(2) =~= "so"@);
    assert(p.take(3) =~= "so="@);
    assert(p.skip(3) =~= value);
    if value.len() == 0 {
        assert(p =~= "so="@);
    }
    lemma_short_key("tr="@ + value);
    assert(("tr="@ + value).take(2)[0] == 't');
    lemma_short_key("dn="@ + value);
    assert(("dn="@ + value).take(2)[0] == 'd');
    lemma_short_key("xt="@ + value);
    assert(("xt="@ + value).take(2)[0] == 'x');
}

proof fn lemma_no_fillers(s: Seq<char>)
    requires
        forall|j: int| 0 <= j < s.len() ==> #[trigger] s[j] != '=',
    ensures
        fillers(s) == 0,
    decreases s.len(),
{
    if s.len() > 0 {
        assert(s[s.len() - 1] != '=');
        assert forall|j: int| 0 <= j < s.drop_last().len() implies #[trigger] s.drop_last()[j]
            != '=' by {
            assert(s.drop_last()[j] == s[j]);
        }
        lemma_no_fillers(s.drop_last());
    }
}

proof fn lemma_lacks_nothing(s: Seq<char>)
    requires
        forall|j: int| 0 <= j < s.len() ==> #[trigger] s[j] != '=',
    ensures
        lacking(s) == 0,
    decreases s.len(),
{
    if s.len() >= 8 {
        assert forall|j: int| 0 <= j < s.take(8).len() implies #[trigger] s.take(8)[j] != '=' by {
            assert(s.take(8)[j] == s[j]);
        }
        lemma_no_fillers(s.take(8));
        assert forall|j: int| 0 <= j < s.skip(8).len() implies #[trigger] s.skip(8)[j] != '=' by {
            assert(s.skip(8)[j] == s[j + 8]);
        }
        lemma_lacks_nothing(s.skip(8));
    }
}

/// A hash in base 32 that is filled up short is a misfit where it has the length of one, and no
/// other hash of version 1 is: one without fillers never is.
pub proof fn short_hashes_are_misfits(h: Seq<char>)
    requires
        forall|j: int| 0 <= j < h.len() ==> is_literal(#[trigger] h[j]) && h[j] > ' ',
        h.len() > 0,
    ensures
        names_misfit("xt=urn:btih:"@ + h) <==> h.len() == 32 && lacking(h) != 0,
        (forall|j: int| 0 <= j < h.len() ==> #[trigger] h[j] != '=') ==> !names_misfit(
            "xt=urn:btih:"@ + h,
        ),
{
    reveal_strlit("xt=urn:btih:");
    reveal_strlit("xt");
    reveal_strlit("urn:btih:");
    reveal_strlit("urn:btmh:1220");
    let p = "xt=urn:btih:"@ + h;
    let t = "urn:btih:"@ + h;
    lemma_short_key(p);
    assert(p.take(2) =~= "xt"@);
    assert(p.skip(3) =~= t);
    assert forall|j: int| 0 <= j < t.len() implies is_literal(#[trigger] t[j]) by {
        if j >= 9 {
            assert(t[j] == h[j - 9]);
        }
    }
    assert(t.last() == h[h.len() - 1]);
    assert(without_end(t) == t);
    lemma_literal(t);
    prefixes_come_off("urn:btih:"@, h);
    assert(t.skip(9) =~= h);
    if starts_with(t, "urn:btmh:1220"@) {
        assert(t.subrange(0, 13)[6] == t[6]);
        assert("urn:btmh:1220"@[6] == 'm');
    }
    if forall|j: int| 0 <= j < h.len() ==> #[trigger] h[j] != '=' {
        lemma_lacks_nothing(h);
    }
}

/// An escape stands for the character whose number it gives in two digits, where that is one of
/// ASCII, a plus sign for a space, and every other character for itself.
pub proof fn escapes_are_read_by_their_number(a: char, b: char, c: char, rest: Seq<char>)
    requires
        is_hex(a),
        is_hex(b),
        c != '%',
        c != '+',
    ensures
        16 * hex_value(a) + hex_value(b) < 128 ==> unescaped(seq!['%', a, b] + rest).len() > 0
            && unescaped(seq!['%', a, b] + rest)[0] as int == 16 * hex_value(a) + hex_value(b),
        16 * hex_value(a) + hex_value(b) >= 128 ==> unescaped(seq!['%', a, b] + rest)[0]
            == '\u{fffd}',
        unescaped(seq!['%', a, b] + rest).skip(1) == unescaped(rest),
        unescaped(seq!['+'] + rest) == seq![' '] + unescaped(rest),
        unescaped(seq![c] + rest) == seq![c] + unescaped(rest),
{
    let e = seq!['%', a, b] + rest;
    assert(e[0] == '%' && e[1] == a && e[2] == b);
    assert(e.skip(3) =~= rest);
    assert(unescaped(e).skip(1) =~= unescaped(rest));
    assert((seq!['+'] + rest).skip(1) =~= rest);
    assert((seq![c] + rest).skip(1) =~= rest);
}

/// Tabs and line ends are dropped wherever they stand in a link, and nothing else is.
pub proof fn breaks_are_dropped(s: Seq<char>, c: char)
    ensures
        c == '\t' || c == '\n' || c == '\r' ==> unbroken(s.push(c)) == unbroken(s),
        c != '\t' && c != '\n' && c != '\r' ==> unbroken(s.push(c)) == unbroken(s).push(c),
        unbroken(Seq::empty()) == Seq::<char>::empty(),
{
    reveal(Seq::filter);
    assert(s.push(c).drop_last() =~= s);
}

/// A parameter that names a hash plainly does so in forty hexadecimal digits.
pub proof fn plain_hashes_have_forty_digits(p: Seq<char>)
    ensures
        is_hash_parameter(p) <==> p.len() == 52 && starts_with(p, "xt=urn:btih:"@) && forall|k: int|
            12 <= k < 52 ==> is_hex(#[trigger] p[k]),
{
}

/// White space at the end of a value is no part of it.
pub proof fn ends_are_cut_off(s: Seq<char>, c: char)
    ensures
        c <= ' ' ==> without_end(s.push(c)) == without_end(s),
        c > ' ' ==> without_end(s.push(c)) == s.push(c),
{
    assert(s.push(c).drop_last() =~= s);
}

} // verus!
