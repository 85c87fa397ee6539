//! Subtitles: which track of a source to take, where to ask for others, and the form in which
//! receivers want them.
use vstd::prelude::*;

use crate::json::{find_integer, find_list, find_text, integer_at, list_at, text_at};
use crate::text::{
    ascii_lower, chars_of, contains, dec, find_chars, lemma_contains_find, lines, mentions, pieces,
    push_dec, same, same_ignoring_ascii_case, split_lines, to_uppercase, uppercase,
};
use crate::titles::opt;

verus! {

/// Where subtitles are asked for.
pub const OPENSUBTITLES_V3: &'static str = "https://opensubtitles-v3.strem.io/subtitles";

/// The three-letter code of a language that is given by two letters; any other as it is.
pub open spec fn three_letters(lang: Seq<char>) -> Seq<char> {
    if lang == "en"@ {
        "eng"@
    } else if lang == "de"@ {
        "ger"@
    } else if lang == "es"@ {
        "spa"@
    } else if lang == "fr"@ {
        "fre"@
    } else if lang == "it"@ {
        "ita"@
    } else if lang == "pt"@ {
        "por"@
    } else if lang == "ru"@ {
        "rus"@
    } else if lang == "ja"@ {
        "jpn"@
    } else if lang == "ko"@ {
        "kor"@
    } else if lang == "zh"@ {
        "chi"@
    } else if lang == "ar"@ {
        "ara"@
    } else if lang == "nl"@ {
        "dut"@
    } else if lang == "sv"@ {
        "swe"@
    } else if lang == "no"@ {
        "nor"@
    } else if lang == "da"@ {
        "dan"@
    } else if lang == "fi"@ {
        "fin"@
    } else if lang == "pl"@ {
        "pol"@
    } else if lang == "tr"@ {
        "tur"@
    } else if lang == "cs"@ {
        "cze"@
    } else if lang == "el"@ {
        "gre"@
    } else if lang == "he"@ {
        "heb"@
    } else if lang == "hi"@ {
        "hin"@
    } else if lang == "hu"@ {
        "hun"@
    } else if lang == "id"@ {
        "ind"@
    } else if lang == "th"@ {
        "tha"@
    } else if lang == "vi"@ {
        "vie"@
    } else if lang == "uk"@ {
        "ukr"@
    } else {
        lang
    }
}

/// Gives [`three_letters`].
pub fn iso639_1_to_2(lang: &str) -> (r: &str)
    ensures
        r@ == three_letters(lang@),
{
    if same(lang, "en") {
        "eng"
    } else if same(lang, "de") {
        "ger"
    } else if same(lang, "es") {
        "spa"
    } else if same(lang, "fr") {
        "fre"
    } else if same(lang, "it") {
        "ita"
    } else if same(lang, "pt") {
        "por"
    } else if same(lang, "ru") {
        "rus"
    } else if same(lang, "ja") {
        "jpn"
    } else if same(lang, "ko") {
        "kor"
    } else if same(lang, "zh") {
        "chi"
    } else if same(lang, "ar") {
        "ara"
    } else if same(lang, "nl") {
        "dut"
    } else if same(lang, "sv") {
        "swe"
    } else if same(lang, "no") {
        "nor"
    } else if same(lang, "da") {
        "dan"
    } else if same(lang, "fi") {
        "fin"
    } else if same(lang, "pl") {
        "pol"
    } else if same(lang, "tr") {
        "tur"
    } else if same(lang, "cs") {
        "cze"
    } else if same(lang, "el") {
        "gre"
    } else if same(lang, "he") {
        "heb"
    } else if same(lang, "hi") {
        "hin"
    } else if same(lang, "hu") {
        "hun"
    } else if same(lang, "id") {
        "ind"
    } else if same(lang, "th") {
        "tha"
    } else if same(lang, "vi") {
        "vie"
    } else if same(lang, "uk") {
        "ukr"
    } else {
        lang
    }
}

// -------------------------------------------------------------------- tracks
/// A subtitle track of a source.
#[derive(Debug)]
pub struct SubtitleStream {
    /// Its place among all streams of the source.
    pub index: Option<i64>,
    pub language: Option<String>,
    pub title: Option<String>,
    /// It only translates what is not in the main language.
    pub forced: bool,
}

/// The kinds of track, in the order in which they are wanted.
#[derive(Debug, Clone, Copy, PartialEq, Eq, Structural)]
pub enum Tier {
    /// What is in another language.
    Forced,
    /// All that is said.
    Full,
    /// All that is heard.
    Sdh,
}

/// A track is in a language.
pub open spec fn speaks(s: SubtitleStream, lang: Seq<char>) -> bool {
    s.language matches Some(l) && ascii_lower(l@) == ascii_lower(lang)
}

/// A track says of itself that it is for those who do not hear.
pub open spec fn is_sdh(s: SubtitleStream) -> bool {
    s.title matches Some(t) && (contains(uppercase(t@), "SDH"@) || contains(
        uppercase(t@),
        "HEARING"@,
    ))
}

/// A track in a language is of a kind.
pub open spec fn in_tier(s: SubtitleStream, lang: Seq<char>, tier: Tier) -> bool {
    speaks(s, lang) && match tier {
        Tier::Forced => s.forced,
        Tier::Full => !s.forced && !is_sdh(s),
        Tier::Sdh => is_sdh(s),
    }
}

fn track_in_tier(s: &SubtitleStream, lang: &str, tier: Tier) -> (r: bool)
    ensures
        r == in_tier(*s, lang@, tier),
{
    let speaks = match &s.language {
        Some(l) => same_ignoring_ascii_case(l.as_str(), lang),
        None => false,
    };
    if !speaks {
        return false;
    }
    let sdh = match &s.title {
        Some(t) => {
            let upper = to_uppercase(t.as_str());
            mentions(upper.as_str(), "SDH") || mentions(upper.as_str(), "HEARING")
        },
        None => false,
    };
    match tier {
        Tier::Forced => s.forced,
        Tier::Full => !s.forced && !sdh,
        Tier::Sdh => sdh,
    }
}

/// The place of the first track of a kind, or the number of tracks.
pub open spec fn tier_place(streams: Seq<SubtitleStream>, lang: Seq<char>, tier: Tier) -> int
    decreases streams.len(),
{
    if streams.len() == 0 || in_tier(streams[0], lang, tier) {
        0
    } else {
        1 + tier_place(streams.drop_first(), lang, tier)
    }
}

/// The stream that a kind offers: that of its first track, where it has a place.
pub open spec fn offered(streams: Seq<SubtitleStream>, lang: Seq<char>, tier: Tier) -> Seq<i64> {
    let i = tier_place(streams, lang, tier);
    if i < streams.len() {
        match streams[i].index {
            Some(idx) => seq![idx],
            None => seq![],
        }
    } else {
        seq![]
    }
}

/// The streams to try, best first.
pub open spec fn tracks_to_try(streams: Seq<SubtitleStream>, lang: Seq<char>) -> Seq<i64> {
    offered(streams, lang, Tier::Forced) + offered(streams, lang, Tier::Full) + offered(
        streams,
        lang,
        Tier::Sdh,
    )
}

fn offer(streams: &Vec<SubtitleStream>, lang: &str, tier: Tier, out: &mut Vec<i64>)
    ensures
        final(out)@ == old(out)@ + offered(streams@, lang@, tier),
{
    let n: usize = streams.len();
    let mut i: usize = 0;
    assert(streams@.skip(0) =~= streams@);
    while i < n && !track_in_tier(&streams[i], lang, tier)
        invariant
            n == streams@.len(),
            i <= n,
            tier_place(streams@, lang@, tier) == i + tier_place(
                streams@.skip(i as int),
                lang@,
                tier,
            ),
        decreases n - i,
    {
        assert(streams@.skip(i as int)[0] == streams@[i as int]);
        assert(streams@.skip(i as int).drop_first() =~= streams@.skip(i + 1));
        i += 1;
    }
    assert(i < n ==> streams@.skip(i as int)[0] == streams@[i as int]);
    assert(tier_place(streams@, lang@, tier) == i);
    if i < n {
        if let Some(idx) = streams[i].index {
            out.push(idx);
        }
    }
    assert(out@ =~= old(out)@ + offered(streams@, lang@, tier));
}

/// The streams of a source that may hold subtitles in a language, best first: those that only
/// translate, then those that say everything, then those for the hard of hearing.
pub fn choose_tracks(streams: &Vec<SubtitleStream>, lang: &str) -> (r: Vec<i64>)
    ensures
        r@ == tracks_to_try(streams@, three_letters(lang@)),
{
    let want = iso639_1_to_2(lang);
    let mut out: Vec<i64> = Vec::new();
    offer(streams, want, Tier::Forced, &mut out);
    offer(streams, want, Tier::Full, &mut out);
    offer(streams, want, Tier::Sdh, &mut out);
    assert(out@ =~= tracks_to_try(streams@, want@));
    out
}

/// The place of a field of an element of a list, as a JSON pointer.
pub open spec fn field_place(list: Seq<char>, i: nat, field: Seq<char>) -> Seq<char> {
    list + "/"@ + dec(i) + field
}

fn field_pointer(list: &str, i: usize, field: &str) -> (r: String)
    ensures
        r@ == field_place(list@, i as nat, field@),
{
    let mut p = list.to_owned();
    p.append("/");
    push_dec(&mut p, i as u64);
    p.append(field);
    p
}

/// `s` is the stream at `i` in what ffprobe reports of a source, in JSON.
pub open spec fn is_stream_at(s: SubtitleStream, json: Seq<u8>, i: nat) -> bool {
    &&& s.index == integer_at(json, field_place("/streams"@, i, "/index"@))
    &&& opt(s.language) == text_at(json, field_place("/streams"@, i, "/tags/language"@))
    &&& opt(s.title) == text_at(json, field_place("/streams"@, i, "/tags/title"@))
    &&& s.forced == (integer_at(json, field_place("/streams"@, i, "/disposition/forced"@)) == Some(
        1i64,
    ))
}

/// `streams` are those that ffprobe reports of a source, in JSON; none where it reports none.
pub open spec fn are_reported(streams: Seq<SubtitleStream>, json: Seq<u8>) -> bool {
    &&& streams.len() == match list_at(json, "/streams"@) {
        Some(n) => n,
        None => 0,
    }
    &&& forall|i: int| 0 <= i < streams.len() ==> is_stream_at(#[trigger] streams[i], json, i as nat)
}

/// Reads the streams that ffprobe reports of a source, in JSON; none where it reports none.
pub fn streams_in_report(json: &[u8]) -> (r: Vec<SubtitleStream>)
    ensures
        are_reported(r@, json@),
{
    let mut streams: Vec<SubtitleStream> = Vec::new();
    let n: usize = match find_list(json, "/streams") {
        Some(n) => n,
        None => 0,
    };
    let mut i: usize = 0;
    while i < n
        invariant
            i <= n,
            streams@.len() == i,
            forall|j: int| 0 <= j < i ==> is_stream_at(#[trigger] streams@[j], json@, j as nat),
        decreases n - i,
    {
        let index = find_integer(json, field_pointer("/streams", i, "/index").as_str());
        let language = find_text(json, field_pointer("/streams", i, "/tags/language").as_str());
        let title = find_text(json, field_pointer("/streams", i, "/tags/title").as_str());
        let forced = find_integer(
            json,
            field_pointer("/streams", i, "/disposition/forced").as_str(),
        );
        streams.push(SubtitleStream { index, language, title, forced: forced == Some(1i64) });
        i += 1;
    }
    streams
}

/// `tracks` are the streams that may hold subtitles in a language, best first, by what ffprobe
/// reports of a source, in JSON.
pub open spec fn tracks_reported(tracks: Seq<i64>, json: Seq<u8>, lang: Seq<char>) -> bool {
    exists|streams: Seq<SubtitleStream>|
        are_reported(streams, json) && tracks == #[trigger] tracks_to_try(
            streams,
            three_letters(lang),
        )
}

/// The streams of a source that may hold subtitles in a language, best first, by what ffprobe
/// reports of it, in JSON.
pub fn tracks_in_report(json: &[u8], lang: &str) -> (r: Vec<i64>)
    ensures
        tracks_reported(r@, json@, lang@),
{
    let streams = streams_in_report(json);
    choose_tracks(&streams, lang)
}

/// Subtitles of no more bytes than this say nothing.
pub const TRIVIAL_SUBTITLE_BYTES: u64 = 200;

/// An extracted file of so many bytes says anything.
pub open spec fn says_anything(size: u64) -> bool {
    size > TRIVIAL_SUBTITLE_BYTES
}

/// Decides [`says_anything`].
pub fn is_substantial(size: u64) -> (r: bool)
    ensures
        r == says_anything(size),
{
    size > TRIVIAL_SUBTITLE_BYTES
}

/// How ffmpeg names a stream of its input.
pub open spec fn stream_argument(index: i64) -> Seq<char> {
    if index < 0 {
        "0:-"@ + dec((-index) as nat)
    } else {
        "0:"@ + dec(index as nat)
    }
}

/// Writes [`stream_argument`].
pub fn map_argument(index: i64) -> (r: String)
    ensures
        r@ == stream_argument(index),
{
    if index < 0 {
        let mut m = "0:-".to_owned();
        push_dec(&mut m, (-(index as i128)) as u64);
        m
    } else {
        let mut m = "0:".to_owned();
        push_dec(&mut m, index as u64);
        m
    }
}

// -------------------------------------------------------------------- asking
/// The address at which subtitles for a film or an episode are listed.
pub open spec fn listing_url(imdb_id: Seq<char>, season: Option<u32>, episode: Option<u32>) -> Seq<char> {
    match (season, episode) {
        (Some(s), Some(e)) => "https://opensubtitles-v3.strem.io/subtitles"@ + "/series/"@ + imdb_id
            + ":"@ + dec(s as nat) + ":"@ + dec(e as nat) + ".json"@,
        _ => "https://opensubtitles-v3.strem.io/subtitles"@ + "/movie/"@ + imdb_id + ".json"@,
    }
}

/// Builds [`listing_url`].
pub fn subtitle_listing_url(imdb_id: &str, season: Option<u32>, episode: Option<u32>) -> (r: String)
    ensures
        r@ == listing_url(imdb_id@, season, episode),
{
    let mut u = "https://opensubtitles-v3.strem.io/subtitles".to_owned();
    match (season, episode) {
        (Some(s), Some(e)) => {
            u.append("/series/");
            u.append(imdb_id);
            u.append(":");
            push_dec(&mut u, s as u64);
            u.append(":");
            push_dec(&mut u, e as u64);
        },
        _ => {
            u.append("/movie/");
            u.append(imdb_id);
        },
    }
    u.append(".json");
    u
}

/// A subtitle that a listing offers.
#[derive(Debug)]
pub struct OfferedSubtitle {
    pub lang: Option<String>,
    pub url: Option<String>,
}

/// `i` is the first offer in a language.
pub open spec fn is_first_offer(offers: Seq<OfferedSubtitle>, lang: Seq<char>, i: int) -> bool {
    &&& 0 <= i < offers.len()
    &&& opt(offers[i].lang) == Some(lang)
    &&& forall|j: int| 0 <= j < i ==> opt((#[trigger] offers[j]).lang) != Some(lang)
}

/// `url` is the address of the first offer in a language; none where there is no offer, or it has
/// none.
pub open spec fn is_picked(
    url: Option<String>,
    offers: Seq<OfferedSubtitle>,
    lang: Seq<char>,
) -> bool {
    match url {
        Some(u) => exists|i: int| #[trigger]
            is_first_offer(offers, lang, i) && offers[i].url == Some(u),
        None => (forall|j: int|
            0 <= j < offers.len() ==> opt((#[trigger] offers[j]).lang) != Some(lang)) || (exists|
            i: int,
        | #[trigger]
            is_first_offer(offers, lang, i) && offers[i].url is None),
    }
}

/// Picks the address of the first offer in a language, as [`is_picked`].
pub fn pick_offer(offers: &Vec<OfferedSubtitle>, lang: &str) -> (r: Option<String>)
    ensures
        is_picked(r, offers@, lang@),
{
    let n: usize = offers.len();
    let mut i: usize = 0;
    while i < n
        invariant
            n == offers@.len(),
            i <= n,
            forall|j: int| 0 <= j < i ==> opt((#[trigger] offers@[j]).lang) != Some(lang@),
        decreases n - i,
    {
        let matches_lang = match &offers[i].lang {
            Some(l) => same(l.as_str(), lang),
            None => false,
        };
        if matches_lang {
            assert(is_first_offer(offers@, lang@, i as int));
            return match &offers[i].url {
                Some(u) => Some(u.clone()),
                None => None,
            };
        }
        i += 1;
    }
    None
}

/// `o` is the offer at `i` in a listing, in JSON.
pub open spec fn is_offer_at(o: OfferedSubtitle, json: Seq<u8>, i: nat) -> bool {
    &&& opt(o.lang) == text_at(json, field_place("/subtitles"@, i, "/lang"@))
    &&& opt(o.url) == text_at(json, field_place("/subtitles"@, i, "/url"@))
}

/// `offers` are those of a listing, in JSON; none where it offers none.
pub open spec fn are_offered(offers: Seq<OfferedSubtitle>, json: Seq<u8>) -> bool {
    &&& offers.len() == match list_at(json, "/subtitles"@) {
        Some(n) => n,
        None => 0,
    }
    &&& forall|i: int| 0 <= i < offers.len() ==> is_offer_at(#[trigger] offers[i], json, i as nat)
}

/// Reads the offers of a listing, in JSON; none where it offers none.
pub fn offers_in_listing(json: &[u8]) -> (r: Vec<OfferedSubtitle>)
    ensures
        are_offered(r@, json@),
{
    let mut offers: Vec<OfferedSubtitle> = Vec::new();
    let n: usize = match find_list(json, "/subtitles") {
        Some(n) => n,
        None => 0,
    };
    let mut i: usize = 0;
    while i < n
        invariant
            i <= n,
            offers@.len() == i,
            forall|j: int| 0 <= j < i ==> is_offer_at(#[trigger] offers@[j], json@, j as nat),
        decreases n - i,
    {
        let lang = find_text(json, field_pointer("/subtitles", i, "/lang").as_str());
        let url = find_text(json, field_pointer("/subtitles", i, "/url").as_str());
        offers.push(OfferedSubtitle { lang, url });
        i += 1;
    }
    offers
}

/// The name of the file that subtitles in a language are kept in.
pub open spec fn subtitle_file(lang: Seq<char>, extension: Seq<char>) -> Seq<char> {
    "subtitle_"@ + lang + "."@ + extension
}

/// Writes [`subtitle_file`].
pub fn subtitle_file_name(lang: &str, extension: &str) -> (r: String)
    ensures
        r@ == subtitle_file(lang@, extension@),
{
    let mut n = "subtitle_".to_owned();
    n.append(lang);
    n.append(".");
    n.append(extension);
    n
}

// ------------------------------------------------------------------- WebVTT
/// A text with a point for every comma.
pub open spec fn pointed(s: Seq<char>) -> Seq<char> {
    s.map_values(
        |c: char|
            if c == ',' {
                '.'
            } else {
                c
            },
    )
}

/// A line of subtitles as WebVTT has it: a line of times has points for commas.
pub open spec fn vtt_line(line: Seq<char>) -> Seq<char> {
    if contains(line, " --> "@) {
        pointed(line)
    } else {
        line
    }
}

/// Lines of subtitles as WebVTT has them, each with a line feed behind it.
pub open spec fn vtt_lines(ls: Seq<Seq<char>>) -> Seq<char>
    decreases ls.len(),
{
    if ls.len() == 0 {
        Seq::empty()
    } else {
        vtt_lines(ls.drop_last()) + vtt_line(ls.last()) + seq!['\n']
    }
}

/// SubRip subtitles as WebVTT.
pub open spec fn vtt_of(srt: Seq<char>) -> Seq<char> {
    "WEBVTT\n\n"@ + vtt_lines(lines(srt))
}

/// Turns SubRip into WebVTT.
pub fn srt_to_vtt(srt: &str) -> (r: String)
    ensures
        r@ == vtt_of(srt@),
{
    let v = chars_of(srt);
    let ls = split_lines(&v);
    let n: usize = ls.len();
    let mark = chars_of(" --> ");
    let ghost all = lines(srt@);
    let mut out = "WEBVTT\n\n".to_owned();
    let mut i: usize = 0;
    assert(pieces(ls@).len() == n);
    assert(all.take(0) =~= Seq::<Seq<char>>::empty());
    assert(out@ =~= "WEBVTT\n\n"@ + vtt_lines(all.take(0)));
    while i < n
        invariant
            n == ls@.len(),
            n == all.len(),
            i <= n,
            pieces(ls@) == all,
            mark@ == " --> "@,
            out@ == "WEBVTT\n\n"@ + vtt_lines(all.take(i as int)),
        decreases n - i,
    {
        assert(all.take(i + 1).drop_last() =~= all.take(i as int));
        assert(all.take(i + 1).last() == ls@[i as int]@);
        push_vtt_line(&mut out, &ls[i], &mark);
        out.push('\n');
        i += 1;
        assert(out@ =~= "WEBVTT\n\n"@ + vtt_lines(all.take(i as int)));
    }
    assert(all.take(n as int) =~= all);
    out
}

fn push_vtt_line(out: &mut String, line: &Vec<char>, mark: &Vec<char>)
    requires
        mark@ == " --> "@,
    ensures
        final(out)@ == old(out)@ + vtt_line(line@),
{
    proof {
        lemma_contains_find(line@, mark@);
    }
    let times = find_chars(line, mark, 0).is_some();
    let n: usize = line.len();
    let mut k: usize = 0;
    assert(out@ =~= old(out)@ + vtt_line(line@).take(0));
    while k < n
        invariant
            n == line@.len(),
            k <= n,
            times == contains(line@, " --> "@),
            out@ == old(out)@ + vtt_line(line@).take(k as int),
        decreases n - k,
    {
        let c = line[k];
        let d = if times && c == ',' { '.' } else { c };
        out.push(d);
        k += 1;
        assert(vtt_line(line@).take(k as int) =~= vtt_line(line@).take(k - 1).push(d));
        assert(out@ =~= old(out)@ + vtt_line(line@).take(k as int));
    }
    assert(vtt_line(line@).take(n as int) =~= vtt_line(line@));
}

} // verus!
