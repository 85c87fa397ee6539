//! What requests may carry: ids, poster addresses, segment names, titles to compare.
use vstd::prelude::*;

use crate::numbers::{split_words, words};
use crate::text::{
    alphanumeric, ascii_alnum, begins, chars_of, contains, ends, ends_with, find_chars,
    is_alphanumeric, is_ascii_alnum, is_white, join, join_chars, lemma_contains_find, lowercase,
    match_at, mentions, pieces, starts_with, to_lowercase, white,
};
use crate::titles::{digits_end, end_of_digits};

verus! {

// ----------------------------------------------------------------------- ids
/// From `i` to `j` stand digits, at least one and at most `max`.
pub open spec fn digit_run(s: Seq<char>, i: int, j: int, max: int) -> bool {
    j == digits_end(s, i) && 1 <= j - i <= max
}

/// An id as IMDb gives them: `tt` and up to twelve digits, with or without the suffix of an
/// episode behind it.
pub open spec fn is_imdb_id(s: Seq<char>) -> bool {
    let a = digits_end(s, 2);
    let b = digits_end(s, a + 2);
    let c = digits_end(s, b + 1);
    &&& starts_with(s, "tt"@)
    &&& digit_run(s, 2, a, 12)
    &&& (a == s.len() || {
        &&& a + 1 < s.len()
        &&& s[a] == '_'
        &&& s[a + 1] == 's'
        &&& digit_run(s, a + 2, b, 3)
        &&& b < s.len()
        &&& s[b] == 'e'
        &&& digit_run(s, b + 1, c, 4)
        &&& c == s.len()
    })
}

/// Decides [`is_imdb_id`].
pub fn is_valid_imdb_id(s: &str) -> (r: bool)
    ensures
        r == is_imdb_id(s@),
{
    let v = chars_of(s);
    let n: usize = v.len();
    if !match_at(&v, &chars_of("tt"), 0) {
        return false;
    }
    proof {
        reveal_strlit("tt");
    }
    let a = end_of_digits(&v, 2);
    if a == 2 || a - 2 > 12 {
        return false;
    }
    if a == n {
        return true;
    }
    if n - a < 2 || v[a] != '_' || v[a + 1] != 's' {
        return false;
    }
    let b = end_of_digits(&v, a + 2);
    if b == a + 2 || b - (a + 2) > 3 || b == n || v[b] != 'e' {
        return false;
    }
    let c = end_of_digits(&v, b + 1);
    c > b + 1 && c - (b + 1) <= 4 && c == n
}

// ------------------------------------------------------------------- posters
/// Whether a poster comes from where posters are known to be.
pub fn is_valid_poster_url(url: &str) -> (r: bool)
    ensures
        r == is_poster_url(url@),
{
    begins(url, "https://image.tmdb.org/") || begins(url, "https://www.themoviedb.org/")
}

/// An address at one of the two hosts that serve posters.
pub open spec fn is_poster_url(url: Seq<char>) -> bool {
    starts_with(url, "https://image.tmdb.org/"@) || starts_with(url, "https://www.themoviedb.org/"@)
}

// ------------------------------------------------------------------ segments
/// A name that a segment may have: short, of tame characters, with an extension that is served,
/// and without two dots in a row.
pub open spec fn is_safe_segment(s: Seq<char>) -> bool {
    &&& 0 < s.len() <= 64
    &&& ends_with(s, ".ts"@) || ends_with(s, ".m4s"@) || ends_with(s, ".m3u8"@)
    &&& forall|i: int| 0 <= i < s.len() ==> is_segment_char(#[trigger] s[i])
    &&& !contains(s, ".."@)
}

/// A character that a segment's name may hold.
pub open spec fn is_segment_char(c: char) -> bool {
    is_ascii_alnum(c) || c == '_' || c == '-' || c == '.'
}

/// Decides [`is_safe_segment`].
pub fn is_safe_segment_name(segment: &str) -> (r: bool)
    ensures
        r == is_safe_segment(segment@),
{
    let v = chars_of(segment);
    let n: usize = v.len();
    if n == 0 || n > 64 {
        return false;
    }
    let mut i: usize = 0;
    while i < n
        invariant
            n == v@.len(),
            i <= n,
            v@ == segment@,
            forall|j: int| 0 <= j < i ==> is_segment_char(#[trigger] v@[j]),
        decreases n - i,
    {
        let c = v[i];
        if !(ascii_alnum(c) || c == '_' || c == '-' || c == '.') {
            assert(!is_segment_char(v@[i as int]));
            return false;
        }
        i += 1;
    }
    (ends(segment, ".ts") || ends(segment, ".m4s") || ends(segment, ".m3u8")) && !mentions(segment, "..")
}

/// The content type of a segment's name.
pub open spec fn segment_content_type(s: Seq<char>) -> Seq<char> {
    if ends_with(s, ".m3u8"@) {
        "application/vnd.apple.mpegurl"@
    } else if ends_with(s, ".ts"@) {
        "video/mp2t"@
    } else {
        "video/mp4"@
    }
}

/// Gives [`segment_content_type`].
pub fn content_type_of_segment(segment: &str) -> (r: &'static str)
    ensures
        r@ == segment_content_type(segment@),
{
    if ends(segment, ".m3u8") {
        "application/vnd.apple.mpegurl"
    } else if ends(segment, ".ts") {
        "video/mp2t"
    } else {
        "video/mp4"
    }
}

/// A safe name leads nowhere else: it holds no separator of paths, and is not the name of the
/// directory above.
pub proof fn safe_names_stay_in_their_directory(s: Seq<char>)
    requires
        is_safe_segment(s),
    ensures
        !s.contains('/'),
        !s.contains('\\'),
        !s.contains('\0'),
        !contains(s, ".."@),
        s.len() > 0,
{
    if s.contains('/') {
        let i = choose|i: int| 0 <= i < s.len() && s[i] == '/';
        assert(is_segment_char(s[i]));
    }
    if s.contains('\\') {
        let i = choose|i: int| 0 <= i < s.len() && s[i] == '\\';
        assert(is_segment_char(s[i]));
    }
    if s.contains('\0') {
        let i = choose|i: int| 0 <= i < s.len() && s[i] == '\0';
        assert(is_segment_char(s[i]));
    }
}

// -------------------------------------------------------------------- titles
/// The alphanumeric characters and the white space of a text.
pub open spec fn tame(s: Seq<char>) -> Seq<char> {
    s.filter(|c: char| alphanumeric(c) || is_white(c))
}

/// A lower-case title without symbols, its words one space apart.
pub open spec fn sanitized(lower: Seq<char>) -> Seq<char> {
    join(words(tame(lower)), " "@)
}

/// Reduces a title that is in lower case to [`sanitized`].
pub fn sanitize_lower(lower: &str) -> (r: String)
    ensures
        r@ == sanitized(lower@),
{
    let v = chars_of(lower);
    let n: usize = v.len();
    let ghost keep = |c: char| alphanumeric(c) || is_white(c);
    let mut out: Vec<char> = Vec::new();
    let mut i: usize = 0;
    proof {
        reveal(Seq::filter);
        assert(v@.take(0).filter(keep) =~= Seq::<char>::empty());
    }
    while i < n
        invariant
            n == v@.len(),
            i <= n,
            keep == (|c: char| alphanumeric(c) || is_white(c)),
            out@ == v@.take(i as int).filter(keep),
        decreases n - i,
    {
        let c = v[i];
        proof {
            assert(v@.take(i + 1).drop_last() =~= v@.take(i as int));
            assert(v@.take(i + 1).last() == c);
            reveal(Seq::filter);
        }
        if is_alphanumeric(c) || white(c) {
            out.push(c);
        }
        i += 1;
    }
    assert(v@.take(n as int) =~= v@);
    let w = split_words(&out);
    join_chars(&w, " ")
}

/// Reduces a title to what is compared of it.
pub fn sanitize_title(title: &str) -> (r: String)
    ensures
        r@ == sanitized(lowercase(title@)),
{
    let lower = to_lowercase(title);
    sanitize_lower(lower.as_str())
}

/// Every word of a sanitized title stands somewhere in a sanitized candidate, and there is a
/// word.
pub open spec fn tokens_match(candidate: Seq<char>, title: Seq<char>) -> bool {
    let tokens = words(title);
    tokens.len() > 0 && forall|i: int|
        0 <= i < tokens.len() ==> contains(candidate, #[trigger] tokens[i])
}

/// Compares a candidate with a title, both sanitized.
pub fn sanitized_tokens_match(candidate: &str, title: &str) -> (r: bool)
    ensures
        r == tokens_match(candidate@, title@),
{
    let cv = chars_of(candidate);
    let tv = chars_of(title);
    let w = split_words(&tv);
    let n: usize = w.len();
    assert(pieces(w@).len() == n);
    let mut i: usize = 0;
    while i < n
        invariant
            n == w@.len(),
            i <= n,
            cv@ == candidate@,
            pieces(w@) == words(title@),
            forall|j: int| 0 <= j < i ==> contains(candidate@, #[trigger] words(title@)[j]),
        decreases n - i,
    {
        assert(pieces(w@)[i as int] == w@[i as int]@);
        proof {
            lemma_contains_find(cv@, w@[i as int]@);
        }
        if find_chars(&cv, &w[i], 0).is_none() {
            return false;
        }
        i += 1;
    }
    n > 0
}

/// Whether a file's name has every word of a title in it.
pub fn title_tokens_match(candidate: &str, title: &str) -> (r: bool)
    ensures
        r == tokens_match(sanitized(lowercase(candidate@)), sanitized(lowercase(title@))),
{
    let c = sanitize_title(candidate);
    let t = sanitize_title(title);
    sanitized_tokens_match(c.as_str(), t.as_str())
}

} // verus!
