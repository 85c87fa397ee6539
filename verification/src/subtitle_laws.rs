//! What holds of subtitles: a cue keeps its words and its place in the film wherever a stream
//! begins, the track that is wanted is the one that is taken, and receivers read what they are given.
use vstd::prelude::*;

use crate::json::{integer_at, list_at, text_at};
use crate::srt::{
    body, entry_in, entry_text, lemma_timestamp_chars, moved, shifted, split_by,
    timestamp_lines_read_back, timestamp_text, unix_text, writable,
};
use crate::subtitles::{
    are_offered, are_reported, in_tier, is_first_offer, is_offer_at, is_picked, is_stream_at,
    listing_url, says_anything, stream_argument, subtitle_file, three_letters, tier_place,
    tracks_reported, tracks_to_try, vtt_line, vtt_lines, vtt_of, OfferedSubtitle, SubtitleStream,
    Tier,
};
use crate::text::{
    ascii_lower, contains, dec, find, is_digit, lemma_dec, lemma_find_from, lines, matches_at,
    padded, parse_up_to, starts_with, uppercase,
};
use crate::text_laws::{a_line_more_is_read_behind_the_others, prefixes_come_off};
use crate::titles::opt;

verus! {

// ------------------------------------------------------------------------ cues
/// A line that can stand in a cue.
pub open spec fn is_cue_line(l: Seq<char>) -> bool {
    &&& forall|j: int| 0 <= j < l.len() ==> l[j] != '\n'
    &&& l.len() > 0 ==> l.last() != '\r'
}

/// A cue as a file lists it: its number, its times and its lines.
pub open spec fn cue(number: nat, start: int, end: int, text: Seq<Seq<char>>) -> Seq<char> {
    dec(number) + seq!['\n'] + timestamp_text(start) + " --> "@ + timestamp_text(end) + seq!['\n']
        + body(text)
}

proof fn lemma_feeds(s: Seq<char>)
    requires
        s.len() > 0,
        s.last() != '\n',
    ensures
        crate::srt::drop_feeds(s + seq!['\n']) == s,
        crate::srt::drop_feeds(s) == s,
{
    let t = s + seq!['\n'];
    assert(t.last() == '\n');
    assert(t.drop_last() =~= s);
    assert(crate::srt::drop_feeds(s) == s);
    assert(crate::srt::drop_feeds(t) == crate::srt::drop_feeds(t.drop_last()));
}

proof fn lemma_body_lines(head: Seq<char>, text: Seq<Seq<char>>)
    requires
        head.len() > 0,
        head.last() == '\n',
        forall|i: int| 0 <= i < text.len() ==> is_cue_line(#[trigger] text[i]),
    ensures
        lines(head + body(text)) == lines(head) + text,
        (head + body(text)).last() == '\n',
    decreases text.len(),
{
    if text.len() == 0 {
        assert(head + body(text) =~= head);
        assert(lines(head) + text =~= lines(head));
    } else {
        let t = text.drop_last();
        let l = text.last();
        assert forall|i: int| 0 <= i < t.len() implies is_cue_line(#[trigger] t[i]) by {
            assert(t[i] == text[i]);
        }
        lemma_body_lines(head, t);
        assert(is_cue_line(text[text.len() - 1]));
        a_line_more_is_read_behind_the_others(head + body(t), l);
        assert(head + body(text) =~= head + body(t) + l + seq!['\n']);
        assert(lines(head) + text =~= (lines(head) + t).push(l));
    }
}

proof fn lemma_times_line(start: int, end: int)
    ensures
        ({
            let l = timestamp_text(start) + " --> "@ + timestamp_text(end);
            &&& is_cue_line(l)
            &&& crate::srt::timestamp_line(l) == Some((writable(start), writable(end)))
        }),
{
    reveal_strlit(" --> ");
    let a = timestamp_text(start);
    let b = timestamp_text(end);
    let l = a + " --> "@ + b;
    lemma_timestamp_chars(start);
    lemma_timestamp_chars(end);
    assert forall|j: int| 0 <= j < l.len() implies l[j] != '\n' by {
        if j < a.len() {
            assert(l[j] == a[j]);
        } else if j >= a.len() + 5 {
            assert(l[j] == b[j - a.len() - 5]);
        }
    }
    assert(l.last() == b[b.len() - 1]);
    timestamp_lines_read_back(writable(start) as int, writable(end) as int);
    assert(timestamp_text(writable(start) as int) == a);
    assert(timestamp_text(writable(end) as int) == b);
}

/// A cue that is listed reads back with its times and its lines; a time before 0 as 0.
pub proof fn a_listed_cue_reads_back(number: nat, start: int, end: int, text: Seq<Seq<char>>)
    requires
        number <= u32::MAX,
        text.len() > 0,
        text.last().len() > 0,
        forall|i: int| 0 <= i < text.len() ==> is_cue_line(#[trigger] text[i]),
    ensures
        entry_in(cue(number, start, end, text)) == Some((writable(start), writable(end), text)),
{
    let d = dec(number);
    let times = timestamp_text(start) + " --> "@ + timestamp_text(end);
    let c = cue(number, start, end, text);
    let b = crate::srt::drop_feeds(c);
    lemma_cue_lines(number, start, end, text);
    lemma_times_line(start, end);
    lemma_dec(number);
    let ls = lines(b);
    assert(ls[0] == d && ls[1] == times);
    assert(parse_up_to(ls[0], u32::MAX as nat) is Some);
    assert(ls.skip(2) =~= text);
}

proof fn lemma_cue_lines(number: nat, start: int, end: int, text: Seq<Seq<char>>)
    requires
        text.len() > 0,
        text.last().len() > 0,
        forall|i: int| 0 <= i < text.len() ==> is_cue_line(#[trigger] text[i]),
    ensures
        crate::srt::drop_feeds(cue(number, start, end, text)).len() > 0,
        lines(crate::srt::drop_feeds(cue(number, start, end, text))) == seq![
            dec(number),
            timestamp_text(start) + " --> "@ + timestamp_text(end),
        ] + text,
{
    let d = dec(number);
    let times = timestamp_text(start) + " --> "@ + timestamp_text(end);
    lemma_dec(number);
    lemma_times_line(start, end);
    assert forall|j: int| 0 <= j < d.len() implies d[j] != '\n' by {
        assert(is_digit(d[j]));
    }
    assert(is_digit(d[d.len() - 1]));
    lemma_lines_under_two(d, times, text);
    assert(cue(number, start, end, text) =~= d + seq!['\n'] + times + seq!['\n'] + body(text));
}

proof fn lemma_two_heads(d: Seq<char>, times: Seq<char>)
    requires
        is_cue_line(d),
        is_cue_line(times),
    ensures
        lines(d + seq!['\n'] + times + seq!['\n']) == seq![d, times],
{
    let e = Seq::<char>::empty();
    a_line_more_is_read_behind_the_others(e, d);
    let h1 = d + seq!['\n'];
    assert(e + d + seq!['\n'] =~= h1);
    assert(lines(e) =~= Seq::<Seq<char>>::empty());
    assert(lines(h1) =~= seq![d]);
    assert(h1.last() == '\n');
    a_line_more_is_read_behind_the_others(h1, times);
    assert(lines(h1 + times + seq!['\n']) =~= seq![d, times]);
}

proof fn lemma_lines_under_two(d: Seq<char>, times: Seq<char>, text: Seq<Seq<char>>)
    requires
        is_cue_line(d),
        is_cue_line(times),
        text.len() > 0,
        text.last().len() > 0,
        forall|i: int| 0 <= i < text.len() ==> is_cue_line(#[trigger] text[i]),
    ensures
        ({
            let c = d + seq!['\n'] + times + seq!['\n'] + body(text);
            &&& crate::srt::drop_feeds(c).len() > 0
            &&& lines(crate::srt::drop_feeds(c)) == seq![d, times] + text
        }),
{
    let h = d + seq!['\n'] + times + seq!['\n'];
    let c = h + body(text);
    lemma_two_heads(d, times);
    let t = text.drop_last();
    let l = text.last();
    assert forall|i: int| 0 <= i < t.len() implies is_cue_line(#[trigger] t[i]) by {
        assert(t[i] == text[i]);
    }
    assert(is_cue_line(text[text.len() - 1]));
    assert(h.last() == '\n');
    lemma_body_lines(h, t);
    let b = h + body(t) + l;
    a_line_more_is_read_behind_the_others(h + body(t), l);
    assert(c =~= b + seq!['\n']);
    assert(b.last() == l[l.len() - 1]);
    lemma_feeds(b);
    assert((seq![d, times] + t).push(l) =~= seq![d, times] + text);
}

/// A stream that begins later shows each cue as much earlier: a cue is listed behind those before
/// it, under the next number, with its own lines, from `offset` earlier to `offset` earlier, and not
/// before 0; one that is over by then falls out, and what is no cue does.
pub proof fn cues_are_moved_one_by_one(
    blocks: Seq<Seq<char>>,
    block: Seq<char>,
    offset: int,
    start: nat,
    end: nat,
    text: Seq<Seq<char>>,
)
    ensures
        moved(Seq::empty(), offset).0.len() == 0,
        moved(Seq::empty(), offset).1 == 0,
        entry_in(block) is None ==> moved(blocks.push(block), offset) == moved(blocks, offset),
        entry_in(block) == Some((start, end, text)) && end < offset ==> moved(
            blocks.push(block),
            offset,
        ) == moved(blocks, offset),
        entry_in(block) == Some((start, end, text)) && end >= offset ==> {
            let (out, kept) = moved(blocks, offset);
            &&& moved(blocks.push(block), offset).1 == kept + 1
            &&& moved(blocks.push(block), offset).0 == out + cue(
                kept + 1,
                start - offset,
                end - offset,
                text,
            ) + seq!['\n']
        },
{
    assert(blocks.push(block).drop_last() =~= blocks);
    if entry_in(block) == Some((start, end, text)) && end >= offset {
        let (out, kept) = moved(blocks, offset);
        assert(entry_text(kept + 1, start - offset, end - offset, text) =~= cue(
            kept + 1,
            start - offset,
            end - offset,
            text,
        ) + seq!['\n']);
        assert(out + (cue(kept + 1, start - offset, end - offset, text) + seq!['\n']) =~= out + cue(
            kept + 1,
            start - offset,
            end - offset,
            text,
        ) + seq!['\n']);
    }
}

/// What is moved is what stands between blank lines, whichever way the lines end.
pub proof fn subtitles_are_moved_block_by_block(content: Seq<char>, offset: int)
    ensures
        shifted(content, offset) == moved(split_by(unix_text(content), "\n\n"@), offset),
{
}

/// A text is parted at each blank line: what stands before the first is the first block, and the
/// others are those of what stands behind it.
pub proof fn blocks_part_at_blank_lines(a: Seq<char>, b: Seq<char>)
    requires
        forall|i: int| 0 <= i < a.len() ==> !matches_at(a + "\n\n"@ + b, "\n\n"@, i),
    ensures
        split_by(a + "\n\n"@ + b, "\n\n"@) == seq![a] + split_by(b, "\n\n"@),
        !contains(b, "\n\n"@) ==> split_by(b, "\n\n"@) == seq![b],
{
    reveal_strlit("\n\n");
    let p = "\n\n"@;
    let s = a + p + b;
    assert(s.subrange(a.len() as int, a.len() as int + 2) =~= p);
    assert(matches_at(s, p, a.len() as int));
    lemma_find_from(s, p, 0);
    let k = find(s, p)->0;
    assert(k == a.len());
    assert(s.take(k) =~= a);
    assert(s.skip(k + 2) =~= b);
    crate::text::lemma_contains_find(b, p);
}

/// Lines that end in a carriage return and a line feed are lines that end in a line feed; a text
/// without carriage returns stays as it is.
pub proof fn line_ends_are_made_one_kind(l: Seq<char>, rest: Seq<char>)
    requires
        forall|j: int| 0 <= j < l.len() ==> l[j] != '\r',
    ensures
        unix_text(l) == l,
        unix_text(l + seq!['\r', '\n'] + rest) == l + seq!['\n'] + unix_text(rest),
    decreases l.len(),
{
    let s = l + seq!['\r', '\n'] + rest;
    if l.len() == 0 {
        assert(s[0] == '\r' && s[1] == '\n');
        assert(s.skip(2) =~= rest);
        assert(l + seq!['\n'] + unix_text(rest) =~= seq!['\n'] + unix_text(rest));
    } else {
        let t = l.skip(1);
        assert forall|j: int| 0 <= j < t.len() implies t[j] != '\r' by {
            assert(t[j] == l[j + 1]);
        }
        line_ends_are_made_one_kind(t, rest);
        assert(s.skip(1) =~= t + seq!['\r', '\n'] + rest);
        assert(s[0] == l[0]);
        assert(l =~= seq![l[0]] + t);
        assert(unix_text(s) =~= l + seq!['\n'] + unix_text(rest));
    }
}

// --------------------------------------------------------------------- receivers
/// A line of times has points where it had commas, as long as it was; a line of words stays as it
/// is.
pub proof fn only_times_are_rewritten(line: Seq<char>)
    ensures
        !contains(line, " --> "@) ==> vtt_line(line) == line,
        contains(line, " --> "@) ==> vtt_line(line).len() == line.len() && forall|j: int|
            0 <= j < line.len() ==> #[trigger] vtt_line(line)[j] == (if line[j] == ',' {
                '.'
            } else {
                line[j]
            }),
{
}

/// WebVTT has its mark first, and then every line of the subtitles in its order.
pub proof fn receivers_read_every_line(srt: Seq<char>, ls: Seq<Seq<char>>, line: Seq<char>)
    ensures
        starts_with(vtt_of(srt), "WEBVTT\n\n"@),
        vtt_of(srt) == "WEBVTT\n\n"@ + vtt_lines(lines(srt)),
        vtt_lines(Seq::empty()).len() == 0,
        vtt_lines(ls.push(line)) == vtt_lines(ls) + vtt_line(line) + seq!['\n'],
{
    prefixes_come_off("WEBVTT\n\n"@, vtt_lines(lines(srt)));
    assert(ls.push(line).drop_last() =~= ls);
}

// ------------------------------------------------------------------------ tracks
/// The languages that are known by two letters, with the three that they are asked for by.
pub open spec fn known_languages() -> Seq<(Seq<char>, Seq<char>)> {
    seq![
        ("en"@, "eng"@),
        ("de"@, "ger"@),
        ("es"@, "spa"@),
        ("fr"@, "fre"@),
        ("it"@, "ita"@),
        ("pt"@, "por"@),
        ("ru"@, "rus"@),
        ("ja"@, "jpn"@),
        ("ko"@, "kor"@),
        ("zh"@, "chi"@),
        ("ar"@, "ara"@),
        ("nl"@, "dut"@),
        ("sv"@, "swe"@),
        ("no"@, "nor"@),
        ("da"@, "dan"@),
        ("fi"@, "fin"@),
        ("pl"@, "pol"@),
        ("tr"@, "tur"@),
        ("cs"@, "cze"@),
        ("el"@, "gre"@),
        ("he"@, "heb"@),
        ("hi"@, "hin"@),
        ("hu"@, "hun"@),
        ("id"@, "ind"@),
        ("th"@, "tha"@),
        ("vi"@, "vie"@),
        ("uk"@, "ukr"@),
    ]
}

/// A language is asked for by its three letters, and one that is not known by two as it is given.
pub proof fn languages_are_asked_for_by_three_letters(lang: Seq<char>)
    ensures
        forall|i: int|
            0 <= i < known_languages().len() && (#[trigger] known_languages()[i]).0 == lang
                ==> three_letters(lang) == known_languages()[i].1,
        (forall|i: int| 0 <= i < known_languages().len() ==> (#[trigger] known_languages()[i]).0
            != lang) ==> three_letters(lang) == lang,
        lang.len() != 2 ==> three_letters(lang) == lang,
{
    lemma_two_letters();
    let k = known_languages();
    assert forall|i: int| 0 <= i < k.len() && (#[trigger] k[i]).0 == lang implies three_letters(lang)
        == k[i].1 by {}
    if forall|i: int| 0 <= i < k.len() ==> (#[trigger] k[i]).0 != lang {
        assert(k[0].0 != lang && k[1].0 != lang && k[2].0 != lang && k[3].0 != lang && k[4].0
            != lang && k[5].0 != lang && k[6].0 != lang && k[7].0 != lang && k[8].0 != lang
            && k[9].0 != lang && k[10].0 != lang && k[11].0 != lang && k[12].0 != lang && k[13].0
            != lang && k[14].0 != lang && k[15].0 != lang && k[16].0 != lang && k[17].0 != lang
            && k[18].0 != lang && k[19].0 != lang && k[20].0 != lang && k[21].0 != lang && k[22].0
            != lang && k[23].0 != lang && k[24].0 != lang && k[25].0 != lang && k[26].0 != lang);
    }
}

proof fn lemma_two_letters()
    ensures
        forall|i: int|
            0 <= i < known_languages().len() ==> (#[trigger] known_languages()[i]).0.len() == 2,
        forall|i: int, j: int|
            0 <= i < j < known_languages().len() ==> (#[trigger] known_languages()[i]).0 != (
            #[trigger] known_languages()[j]).0,
{
    reveal_strlit("en");
    reveal_strlit("de");
    reveal_strlit("es");
    reveal_strlit("fr");
    reveal_strlit("it");
    reveal_strlit("pt");
    reveal_strlit("ru");
    reveal_strlit("ja");
    reveal_strlit("ko");
    reveal_strlit("zh");
    reveal_strlit("ar");
    reveal_strlit("nl");
    reveal_strlit("sv");
    reveal_strlit("no");
    reveal_strlit("da");
    reveal_strlit("fi");
    reveal_strlit("pl");
    reveal_strlit("tr");
    reveal_strlit("cs");
    reveal_strlit("el");
    reveal_strlit("he");
    reveal_strlit("hi");
    reveal_strlit("hu");
    reveal_strlit("id");
    reveal_strlit("th");
    reveal_strlit("vi");
    reveal_strlit("uk");
    let k = known_languages();
    assert forall|i: int, j: int| 0 <= i < j < k.len() implies (#[trigger] k[i]).0 != (
    #[trigger] k[j]).0 by {
        assert(k[i].0[0] != k[j].0[0] || k[i].0[1] != k[j].0[1]);
    }
}

proof fn lemma_tier_place(streams: Seq<SubtitleStream>, lang: Seq<char>, tier: Tier)
    ensures
        ({
            let k = tier_place(streams, lang, tier);
            &&& 0 <= k <= streams.len()
            &&& k < streams.len() ==> in_tier(streams[k], lang, tier)
            &&& forall|j: int| 0 <= j < k ==> !in_tier(#[trigger] streams[j], lang, tier)
        }),
    decreases streams.len(),
{
    if streams.len() > 0 && !in_tier(streams[0], lang, tier) {
        let t = streams.drop_first();
        lemma_tier_place(t, lang, tier);
        let k = tier_place(streams, lang, tier);
        assert forall|j: int| 0 <= j < k implies !in_tier(#[trigger] streams[j], lang, tier) by {
            if j > 0 {
                assert(streams[j] == t[j - 1]);
            }
        }
    }
}

/// A track in a language.
pub open spec fn is_in(s: SubtitleStream, lang: Seq<char>) -> bool {
    s.language is Some && ascii_lower(s.language->0@) == ascii_lower(lang)
}

/// A track that says that it is for those who do not hear.
pub open spec fn is_for_the_deaf(s: SubtitleStream) -> bool {
    s.title is Some && (contains(uppercase(s.title->0@), "SDH"@) || contains(
        uppercase(s.title->0@),
        "HEARING"@,
    ))
}

/// The kinds of track are told apart by what they say of themselves.
pub proof fn tracks_are_told_apart(s: SubtitleStream, lang: Seq<char>)
    ensures
        in_tier(s, lang, Tier::Forced) <==> is_in(s, lang) && s.forced,
        in_tier(s, lang, Tier::Full) <==> is_in(s, lang) && !s.forced && !is_for_the_deaf(s),
        in_tier(s, lang, Tier::Sdh) <==> is_in(s, lang) && is_for_the_deaf(s),
{
}

/// `i` is the first track of its kind that a language has.
pub open spec fn is_first_of(
    streams: Seq<SubtitleStream>,
    lang: Seq<char>,
    tier: Tier,
    i: int,
) -> bool {
    &&& 0 <= i < streams.len()
    &&& in_tier(streams[i], lang, tier)
    &&& forall|j: int| 0 <= j < i ==> !in_tier(#[trigger] streams[j], lang, tier)
}

/// What is tried is tried in order: the first track that only translates, then the first that says
/// everything, then the first for the hard of hearing, each where there is one that can be named.
pub proof fn the_best_track_is_tried_first(
    streams: Seq<SubtitleStream>,
    lang: Seq<char>,
    i: int,
    x: i64,
)
    requires
        0 <= i < streams.len(),
        streams[i].index == Some(x),
    ensures
        is_first_of(streams, lang, Tier::Forced, i) ==> tracks_to_try(streams, lang).len() > 0
            && tracks_to_try(streams, lang)[0] == x,
        is_first_of(streams, lang, Tier::Full, i) && (forall|j: int|
            0 <= j < streams.len() ==> !in_tier(#[trigger] streams[j], lang, Tier::Forced))
            ==> tracks_to_try(streams, lang).len() > 0 && tracks_to_try(streams, lang)[0] == x,
        is_first_of(streams, lang, Tier::Full, i) ==> tracks_to_try(streams, lang).contains(x),
        is_first_of(streams, lang, Tier::Sdh, i) ==> tracks_to_try(streams, lang).len() > 0
            && tracks_to_try(streams, lang).last() == x,
        (forall|j: int| 0 <= j < streams.len() ==> !is_in(#[trigger] streams[j], lang))
            ==> tracks_to_try(streams, lang).len() == 0,
{
    lemma_tier_place(streams, lang, Tier::Forced);
    lemma_tier_place(streams, lang, Tier::Full);
    lemma_tier_place(streams, lang, Tier::Sdh);
    let a = tier_place(streams, lang, Tier::Forced);
    let b = tier_place(streams, lang, Tier::Full);
    let c = tier_place(streams, lang, Tier::Sdh);
    let t = tracks_to_try(streams, lang);
    if is_first_of(streams, lang, Tier::Forced, i) {
        assert(a == i);
    }
    if is_first_of(streams, lang, Tier::Full, i) {
        assert(b == i);
        let k = crate::subtitles::offered(streams, lang, Tier::Forced).len() as int;
        assert(t[k] == x);
    }
    if is_first_of(streams, lang, Tier::Sdh, i) {
        assert(c == i);
    }
}

/// Whatever is tried is a track of the source in the language.
pub proof fn only_tracks_in_the_language_are_tried(
    streams: Seq<SubtitleStream>,
    lang: Seq<char>,
    x: i64,
)
    requires
        tracks_to_try(streams, lang).contains(x),
    ensures
        exists|i: int|
            0 <= i < streams.len() && (#[trigger] streams[i]).index == Some(x) && is_in(
                streams[i],
                lang,
            ),
        tracks_to_try(streams, lang).len() <= 3,
{
    lemma_tier_place(streams, lang, Tier::Forced);
    lemma_tier_place(streams, lang, Tier::Full);
    lemma_tier_place(streams, lang, Tier::Sdh);
    let f = crate::subtitles::offered(streams, lang, Tier::Forced);
    let g = crate::subtitles::offered(streams, lang, Tier::Full);
    let h = crate::subtitles::offered(streams, lang, Tier::Sdh);
    let t = tracks_to_try(streams, lang);
    let k = choose|k: int| 0 <= k < t.len() && t[k] == x;
    if k < f.len() {
        assert(f[k] == x);
        assert(streams[tier_place(streams, lang, Tier::Forced)].index == Some(x));
    } else if k < f.len() + g.len() {
        assert(g[k - f.len()] == x);
        assert(streams[tier_place(streams, lang, Tier::Full)].index == Some(x));
    } else {
        assert(h[k - f.len() - g.len()] == x);
        assert(streams[tier_place(streams, lang, Tier::Sdh)].index == Some(x));
    }
}

/// Subtitles are asked for by the id, and an episode's by its numbers too, the season before the
/// episode; a film's, and a show's of which either number is missing, by the id alone.
pub proof fn subtitles_are_asked_for_by_id(id: Seq<char>, season: Option<u32>, episode: Option<u32>)
    ensures
        season is Some && episode is Some ==> listing_url(id, season, episode)
            == "https://opensubtitles-v3.strem.io/subtitles/series/"@ + id + ":"@ + dec(
            season->0 as nat,
        ) + ":"@ + dec(episode->0 as nat) + ".json"@,
        season is None || episode is None ==> listing_url(id, season, episode)
            == "https://opensubtitles-v3.strem.io/subtitles/movie/"@ + id + ".json"@,
{
    reveal_strlit("https://opensubtitles-v3.strem.io/subtitles");
    reveal_strlit("/series/");
    reveal_strlit("/movie/");
    reveal_strlit("https://opensubtitles-v3.strem.io/subtitles/series/");
    reveal_strlit("https://opensubtitles-v3.strem.io/subtitles/movie/");
    assert("https://opensubtitles-v3.strem.io/subtitles"@ + "/series/"@
        =~= "https://opensubtitles-v3.strem.io/subtitles/series/"@);
    assert("https://opensubtitles-v3.strem.io/subtitles"@ + "/movie/"@
        =~= "https://opensubtitles-v3.strem.io/subtitles/movie/"@);
}

/// The offer that is taken is the first in the language: its address where it has one, and nothing
/// where it has none or there is no offer.
pub proof fn the_first_offer_in_the_language_is_taken(
    url: Option<String>,
    offers: Seq<OfferedSubtitle>,
    lang: Seq<char>,
    i: int,
)
    requires
        is_picked(url, offers, lang),
    ensures
        0 <= i < offers.len() && opt(offers[i].lang) == Some(lang) && (forall|j: int|
            0 <= j < i ==> opt((#[trigger] offers[j]).lang) != Some(lang)) ==> url == offers[i].url,
        (forall|j: int| 0 <= j < offers.len() ==> opt((#[trigger] offers[j]).lang) != Some(lang))
            ==> url is None,
{
    if 0 <= i < offers.len() && opt(offers[i].lang) == Some(lang) && (forall|j: int|
        0 <= j < i ==> opt((#[trigger] offers[j]).lang) != Some(lang)) {
        assert(is_first_offer(offers, lang, i));
        assert forall|k: int| is_first_offer(offers, lang, k) implies k == i by {
            if k < i {
                assert(opt(offers[k].lang) != Some(lang));
            }
            if i < k {
                assert(opt(offers[i].lang) != Some(lang));
            }
        }
    }
}

/// A file of no more than two hundred bytes says nothing; a stream is named to ffmpeg by its number
/// within the first input; and subtitles are kept under their language.
pub proof fn extracted_subtitles_are_kept_by_language(
    size: u64,
    index: i64,
    lang: Seq<char>,
    extension: Seq<char>,
)
    ensures
        says_anything(size) <==> size > 200,
        index >= 0 ==> stream_argument(index) == "0:"@ + dec(index as nat),
        index < 0 ==> stream_argument(index) == "0:-"@ + dec((-index) as nat),
        subtitle_file(lang, extension) == "subtitle_"@ + lang + "."@ + extension,
{
}

// ----------------------------------------------------------------------- reports
/// Each stream of a report is read from its own place: its number, its language, its title, and
/// whether it is forced.
pub proof fn streams_are_read_from_their_places(
    streams: Seq<SubtitleStream>,
    json: Seq<u8>,
    i: int,
)
    requires
        are_reported(streams, json),
    ensures
        list_at(json, "/streams"@) is None ==> streams.len() == 0,
        list_at(json, "/streams"@) is Some ==> streams.len() == list_at(json, "/streams"@)->0,
        0 <= i < streams.len() ==> {
            let place = "/streams/"@ + dec(i as nat);
            &&& streams[i].index == integer_at(json, place + "/index"@)
            &&& opt(streams[i].language) == text_at(json, place + "/tags/language"@)
            &&& opt(streams[i].title) == text_at(json, place + "/tags/title"@)
            &&& streams[i].forced <==> integer_at(json, place + "/disposition/forced"@) == Some(1i64)
        },
{
    lemma_places("/streams"@, "/streams/"@, i as nat);
    reveal_strlit("/streams");
    reveal_strlit("/");
    reveal_strlit("/streams/");
    assert("/streams"@ + "/"@ =~= "/streams/"@);
    if 0 <= i < streams.len() {
        assert(is_stream_at(streams[i], json, i as nat));
    }
}

proof fn lemma_places(list: Seq<char>, inside: Seq<char>, i: nat)
    ensures
        list + "/"@ == inside ==> forall|field: Seq<char>| #[trigger]
            crate::subtitles::field_place(list, i, field) == inside + dec(i) + field,
{
}

/// Each offer of a listing is read from its own place: its language and its address.
pub proof fn offers_are_read_from_their_places(
    offers: Seq<OfferedSubtitle>,
    json: Seq<u8>,
    i: int,
)
    requires
        are_offered(offers, json),
    ensures
        list_at(json, "/subtitles"@) is None ==> offers.len() == 0,
        list_at(json, "/subtitles"@) is Some ==> offers.len() == list_at(json, "/subtitles"@)->0,
        0 <= i < offers.len() ==> {
            let place = "/subtitles/"@ + dec(i as nat);
            &&& opt(offers[i].lang) == text_at(json, place + "/lang"@)
            &&& opt(offers[i].url) == text_at(json, place + "/url"@)
        },
{
    lemma_places("/subtitles"@, "/subtitles/"@, i as nat);
    reveal_strlit("/subtitles");
    reveal_strlit("/");
    reveal_strlit("/subtitles/");
    assert("/subtitles"@ + "/"@ =~= "/subtitles/"@);
    if 0 <= i < offers.len() {
        assert(is_offer_at(offers[i], json, i as nat));
    }
}

/// A track that is tried is one of those that are reported, in the language that was asked for.
pub proof fn tracks_are_of_what_is_reported(
    tracks: Seq<i64>,
    json: Seq<u8>,
    lang: Seq<char>,
    x: i64,
)
    requires
        tracks_reported(tracks, json, lang),
        tracks.contains(x),
    ensures
        list_at(json, "/streams"@) is Some,
        exists|i: nat|
            i < list_at(json, "/streams"@)->0 && integer_at(
                json,
                "/streams/"@ + #[trigger] dec(i) + "/index"@,
            ) == Some(x),
{
    let streams = choose|streams: Seq<SubtitleStream>|
        are_reported(streams, json) && tracks == #[trigger] tracks_to_try(
            streams,
            three_letters(lang),
        );
    only_tracks_in_the_language_are_tried(streams, three_letters(lang), x);
    let i = choose|i: int|
        0 <= i < streams.len() && (#[trigger] streams[i]).index == Some(x) && is_in(
            streams[i],
            three_letters(lang),
        );
    streams_are_read_from_their_places(streams, json, i);
    assert(integer_at(json, "/streams/"@ + dec(i as nat) + "/index"@) == Some(x));
}

/// A cue without its number reads with its times and its lines all the same.
pub proof fn a_cue_reads_without_its_number(start: int, end: int, text: Seq<Seq<char>>)
    requires
        text.len() > 0,
        text.last().len() > 0,
        forall|i: int| 0 <= i < text.len() ==> is_cue_line(#[trigger] text[i]),
    ensures
        entry_in(
            timestamp_text(start) + " --> "@ + timestamp_text(end) + seq!['\n'] + body(text),
        ) == Some((writable(start), writable(end), text)),
{
    reveal_strlit(" --> ");
    let a = timestamp_text(start);
    let times = a + " --> "@ + timestamp_text(end);
    let c = times + seq!['\n'] + body(text);
    lemma_times_line(start, end);
    lemma_lines_under_one(times, text);
    let ls = lines(crate::srt::drop_feeds(c));
    assert(ls[0] == times);
    assert(ls.skip(1) =~= text);
    let k = a.len() as int;
    assert(times[k] == ' ');
    assert(!is_digit(times[k]));
    assert(parse_up_to(times, u32::MAX as nat) is None) by {
        lemma_no_number(times, k);
    }
    assert(times.subrange(k, k + 5) =~= " --> "@);
    assert(matches_at(times, " --> "@, k));
    lemma_find_from(times, " --> "@, 0);
}

proof fn lemma_no_number(s: Seq<char>, k: int)
    requires
        0 < k < s.len(),
        !is_digit(s[k]),
    ensures
        parse_up_to(s, u32::MAX as nat) is None,
{
    if s[0] == '+' {
        assert(s.drop_first()[k - 1] == s[k]);
        assert(s.skip(1)[k - 1] == s[k]);
    }
}

proof fn lemma_lines_under_one(times: Seq<char>, text: Seq<Seq<char>>)
    requires
        is_cue_line(times),
        text.len() > 0,
        text.last().len() > 0,
        forall|i: int| 0 <= i < text.len() ==> is_cue_line(#[trigger] text[i]),
    ensures
        ({
            let c = times + seq!['\n'] + body(text);
            &&& crate::srt::drop_feeds(c).len() > 0
            &&& lines(crate::srt::drop_feeds(c)) == seq![times] + text
        }),
{
    let e = Seq::<char>::empty();
    let h = times + seq!['\n'];
    a_line_more_is_read_behind_the_others(e, times);
    assert(e + times + seq!['\n'] =~= h);
    assert(lines(e) =~= Seq::<Seq<char>>::empty());
    assert(lines(h) =~= seq![times]);
    let c = h + body(text);
    let t = text.drop_last();
    let l = text.last();
    assert forall|i: int| 0 <= i < t.len() implies is_cue_line(#[trigger] t[i]) by {
        assert(t[i] == text[i]);
    }
    assert(is_cue_line(text[text.len() - 1]));
    assert(h.last() == '\n');
    lemma_body_lines(h, t);
    let b = h + body(t) + l;
    a_line_more_is_read_behind_the_others(h + body(t), l);
    assert(c =~= b + seq!['\n']);
    assert(b.last() == l[l.len() - 1]);
    lemma_feeds(b);
    assert((seq![times] + t).push(l) =~= seq![times] + text);
}

/// A time is written in hours, minutes, seconds and thousandths, each in its full width.
pub proof fn times_are_written_in_full(hours: nat, minutes: nat, seconds: nat, millis: nat)
    requires
        minutes < 60,
        seconds < 60,
        millis < 1000,
        ((hours * 60 + minutes) * 60 + seconds) * 1000 + millis <= u64::MAX,
    ensures
        timestamp_text((((hours * 60 + minutes) * 60 + seconds) * 1000 + millis) as int) == padded(
            hours,
            2,
        ) + seq![':'] + padded(minutes, 2) + seq![':'] + padded(seconds, 2) + seq![','] + padded(
            millis,
            3,
        ),
{
    let w: nat = ((hours * 60 + minutes) * 60 + seconds) * 1000 + millis;
    assert(w / 3_600_000 == hours);
    assert((w / 60_000) % 60 == minutes);
    assert((w / 1000) % 60 == seconds);
    assert(w % 1000 == millis);
}

} // verus!
