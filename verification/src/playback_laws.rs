//! What a request to play is for: the source that was picked plays, in full, where it was asked to,
//! from where it was left, in a form that the receiver takes; and what plays is known for it.
use vstd::prelude::*;

use crate::cast_health::{PlayerInfo, Watch};
use crate::hls_cache::cache_key;
use crate::play_flow::{is_delivery, PlayRun};
use crate::playback::{
    device_in_use, device_of, episode_asked, filled, is_destination, is_load_of, is_stream_of,
    kind_of, magnet_of, moved_on, neighbour_to, no_torrent_text, number_resolved, path_in,
    seek_planned, stream_begun, tells_nothing, title_of, url_of_file, url_of_master, CastLoad,
    Delivery, Destination, NavigateError, PlayError, PlayRequest, SeekPlan, StreamFacts,
};
use crate::reaper::local_source;
use crate::requests::{
    is_item_of_request, is_item_of_result, item_queued, QueueAddRequest, QueueError,
};
use crate::search::{is_result, SearchResult, TorrentResult};
use crate::state::{position_in, position_saved, AppState, CurrentStream, Preferences, QueuedItem};
use crate::text::{
    contains, dec, ends_with, index_of, lemma_dec, lemma_index_of, lemma_index_of_bounds, padded,
    starts_with,
};
use crate::text_laws::{prefixes_come_off, suffixes_come_off};
use crate::time::{Millis, Timestamp};
use crate::titles::opt;
use crate::transcode::CodecInfo;
use crate::validation::is_poster_url;

verus! {

// --------------------------------------------------------------------- sources
/// The source of a request is that of a result, in full: its link and its file within the torrent.
pub open spec fn is_source_of(req: PlayRequest, result: TorrentResult) -> bool {
    req.magnet == Some(result.magnet) && req.file_index == result.file_index
}

/// A neighbouring episode is asked for from the first result of its search, in full, as that result
/// is played by its number; and on the device, with the care, and under the names of the show that
/// it is of.
pub proof fn a_neighbour_is_asked_for_in_full(
    req: PlayRequest,
    current: CurrentStream,
    show: String,
    season: u32,
    episode: u32,
    found: SearchResult,
    blank: PlayRequest,
    by_number: PlayRequest,
)
    requires
        episode_asked(Some(req), current, show, season, episode, found),
        filled(blank, by_number, found, found.results@[0]),
        blank.file_index is None,
        blank.quality is None,
        blank.size is None,
        blank.imdb_id is None,
        blank.poster_url is None,
    ensures
        found.torrent_available,
        found.results@.len() > 0,
        is_source_of(req, found.results@[0]),
        is_source_of(by_number, found.results@[0]),
        req.quality == Some(found.results@[0].quality),
        req.size == Some(found.results@[0].size),
        req.quality == by_number.quality,
        req.size == by_number.size,
        req.imdb_id == by_number.imdb_id,
        req.poster_url == by_number.poster_url,
        found.show is Some ==> req.imdb_id == found.show->0.imdb_id && req.poster_url
            == found.show->0.poster_url,
        req.show == Some(show),
        req.season == Some(season),
        req.episode == Some(episode),
        opt(req.title) == Some(
            show@ + " S"@ + padded(season as nat, 2) + "E"@ + padded(episode as nat, 2),
        ),
        req.smooth == Some(current.smooth),
        req.seek_to is None,
        req.duration is None,
        req.no_subs is None,
        req.no_intro is None,
        req.subtitle_lang is None,
        req.result_id is None,
        current.target@.contains(':') ==> req.target is Some && req.cast_name is Some
            && req.target->0@ + seq![':'] + req.cast_name->0@ == current.target@,
        !current.target@.contains(':') ==> opt(req.target) == Some(current.target@)
            && req.cast_name is None,
{
    targets_come_apart(current.target@);
}

/// A search that found nothing leads to no request, and one that found anything to one.
pub proof fn neighbours_are_asked_for_where_they_were_found(
    asked: Option<PlayRequest>,
    current: CurrentStream,
    show: String,
    season: u32,
    episode: u32,
    found: SearchResult,
)
    requires
        episode_asked(asked, current, show, season, episode, found),
    ensures
        asked is Some <==> found.torrent_available && found.results@.len() > 0,
{
}

/// A result that is picked is what plays: its link always, its file, quality and size unless the
/// request says otherwise, and of what the search was for all that the request leaves open. What
/// the request says of where and how to play stays.
pub proof fn a_picked_result_is_what_plays(
    before: PlayRequest,
    after: PlayRequest,
    search: SearchResult,
    result: TorrentResult,
)
    requires
        filled(before, after, search, result),
    ensures
        after.magnet == Some(result.magnet),
        before.file_index is None ==> after.file_index == result.file_index,
        before.file_index is Some ==> after.file_index == before.file_index,
        before.quality is None ==> after.quality == Some(result.quality),
        before.quality is Some ==> after.quality == before.quality,
        before.size is None ==> after.size == Some(result.size),
        before.size is Some ==> after.size == before.size,
        before.title is Some ==> after.title == before.title,
        before.title is None && search.show is Some && search.searching is None ==> opt(after.title)
            == Some(search.show->0.title@),
        before.title is None && search.show is Some && search.searching is Some ==> opt(after.title)
            == Some(
            search.show->0.title@ + " S"@ + padded(search.searching->0.season as nat, 2) + "E"@
                + padded(search.searching->0.episode as nat, 2),
        ),
        before.title is None && search.show is None ==> opt(after.title) == Some(result.title@),
        before.imdb_id is None && search.show is Some ==> after.imdb_id == search.show->0.imdb_id,
        before.imdb_id is Some ==> after.imdb_id == before.imdb_id,
        before.show is None && search.show is Some ==> after.show == Some(search.show->0.title),
        before.show is Some ==> after.show == before.show,
        before.poster_url is None && search.show is Some ==> after.poster_url
            == search.show->0.poster_url,
        before.poster_url is Some ==> after.poster_url == before.poster_url,
        search.show is None ==> after.imdb_id == before.imdb_id && after.show == before.show
            && after.poster_url == before.poster_url,
        search.searching is None ==> after.season == before.season && after.episode
            == before.episode,
        before.season is None && search.searching is Some ==> after.season == Some(
            search.searching->0.season,
        ),
        before.episode is None && search.searching is Some ==> after.episode == Some(
            search.searching->0.episode,
        ),
        before.season is Some ==> after.season == before.season,
        before.episode is Some ==> after.episode == before.episode,
        after.target == before.target,
        after.cast_name == before.cast_name,
        after.seek_to == before.seek_to,
        after.smooth == before.smooth,
        after.no_subs == before.no_subs,
        after.no_intro == before.no_intro,
        after.subtitle_lang == before.subtitle_lang,
        after.result_id == before.result_id,
{
}

/// A number picks the first result that has it, where one does; a number that no result has, and
/// one without a search, are refused, and the request stays as it was.
pub proof fn a_number_picks_its_result(
    before: PlayRequest,
    after: PlayRequest,
    last: Option<SearchResult>,
    r: Result<(), PlayError>,
    id: usize,
    i: int,
)
    requires
        number_resolved(before, after, last, r),
        before.result_id == Some(id),
    ensures
        last is None ==> r is Err && r->Err_0 is NoSearch && after == before,
        last is Some && (forall|j: int|
            0 <= j < last->0.results@.len() ==> (#[trigger] last->0.results@[j]).id != id) ==> r
            is Err && r->Err_0 is ResultNotFound && after == before,
        last is Some && 0 <= i < last->0.results@.len() && last->0.results@[i].id == id && (forall|
            j: int,
        |
            0 <= j < i ==> (#[trigger] last->0.results@[j]).id != id) ==> r is Ok && after.magnet
            == Some(last->0.results@[i].magnet) && (before.file_index is None ==> after.file_index
            == last->0.results@[i].file_index),
{
    if last is Some && r is Ok {
        let s = last->0;
        let k = choose|k: int| #[trigger]
            is_result(s, id, k) && filled(before, after, s, s.results@[k]);
        assert(s.results@[k].id == id);
        if 0 <= i < s.results@.len() && s.results@[i].id == id && (forall|j: int|
            0 <= j < i ==> (#[trigger] s.results@[j]).id != id) {
            if k < i {
                assert(s.results@[k].id != id);
            }
            if i < k {
                assert(s.results@[i].id != id);
            }
        }
    }
}

/// Only a link is played, and the one that is named: any other text, an empty one, and none are
/// refused.
pub proof fn only_links_are_played(req: PlayRequest)
    ensures
        magnet_of(req) is Ok <==> req.magnet is Some && starts_with(req.magnet->0@, "magnet:"@),
        magnet_of(req) is Ok ==> magnet_of(req)->Ok_0 == req.magnet->0,
        req.magnet is None ==> magnet_of(req)->Err_0 is MissingMagnet,
        req.magnet is Some && req.magnet->0@.len() == 0 ==> magnet_of(req)->Err_0 is MissingMagnet,
        req.magnet is Some && req.magnet->0@.len() > 0 && !starts_with(
            req.magnet->0@,
            "magnet:"@,
        ) ==> magnet_of(req)->Err_0 is InvalidMagnet,
{
    reveal_strlit("magnet:");
}

/// A request that failed is tried with the result behind the one that it was tried with, at most
/// twice, and as long as there is one; what was known of the failed source is not carried over to
/// the next, and all that was asked for is.
pub proof fn a_failed_request_is_tried_with_the_next(
    before: PlayRequest,
    after: PlayRequest,
    attempt: u32,
    results: Option<usize>,
    moved: bool,
)
    requires
        moved_on(before, after, attempt, results, moved),
    ensures
        moved <==> attempt < 2 && before.result_id is Some && results is Some
            && before.result_id->0 < results->0,
        moved ==> after.result_id is Some && after.result_id->0 == before.result_id->0 + 1
            && after.magnet is None && after.file_index is None && after.quality is None
            && after.size is None && after.duration is None && after.title == before.title
            && after.target == before.target && after.cast_name == before.cast_name
            && after.seek_to == before.seek_to && after.imdb_id == before.imdb_id && after.show
            == before.show && after.season == before.season && after.episode == before.episode
            && after.smooth == before.smooth && after.subtitle_lang == before.subtitle_lang
            && after.no_subs == before.no_subs,
        !moved ==> after == before,
{
}

/// A result is queued as it is played: with its link, its file, its quality and its size, under the
/// same name, of the same show and episode; on the device that the request names.
pub proof fn a_result_is_queued_as_it_is_played(
    item: QueuedItem,
    add: QueueAddRequest,
    search: SearchResult,
    i: int,
    blank: PlayRequest,
    played: PlayRequest,
)
    requires
        0 <= i < search.results@.len(),
        is_item_of_result(item, add, search, i),
        filled(blank, played, search, search.results@[i]),
        blank.file_index is None,
        blank.title is None,
        blank.show is None,
        blank.imdb_id is None,
        blank.season is None,
        blank.episode is None,
        blank.poster_url is None,
        blank.quality is None,
        blank.size is None,
    ensures
        item.magnet == search.results@[i].magnet,
        item.file_index == search.results@[i].file_index,
        item.quality == Some(search.results@[i].quality),
        item.size == Some(search.results@[i].size),
        Some(item.magnet) == played.magnet,
        item.file_index == played.file_index,
        Some(item.title@) == opt(played.title),
        item.show == played.show,
        item.season == played.season,
        item.episode == played.episode,
        item.imdb_id == played.imdb_id,
        item.poster_url == played.poster_url,
        item.quality == played.quality,
        item.size == played.size,
        item.cast_name == add.cast_name,
        item.target is None,
        item.smooth <==> add.smooth == Some(true),
{
}

/// A link is queued as it is named, with all that is said of it.
pub proof fn a_link_is_queued_as_it_is_named(item: QueuedItem, add: QueueAddRequest)
    requires
        is_item_of_request(item, add),
    ensures
        add.magnet == Some(item.magnet),
        starts_with(item.magnet@, "magnet:"@),
        add.title is Some ==> item.title@ == add.title->0@,
        add.title is None ==> item.title@ == "Unknown"@,
        item.show == add.show,
        item.season == add.season,
        item.episode == add.episode,
        item.imdb_id == add.imdb_id,
        item.file_index == add.file_index,
        item.cast_name == add.cast_name,
        item.target is None,
        item.poster_url == add.poster_url,
        item.quality == add.quality,
        item.size == add.size,
        item.smooth <==> add.smooth == Some(true),
{
}

/// Something is queued exactly where something can be: a number that the last search has, or,
/// without a number, a link. A number counts before a link.
pub proof fn what_can_be_queued_is(
    add: QueueAddRequest,
    last: Option<SearchResult>,
    r: Result<QueuedItem, QueueError>,
    i: int,
)
    requires
        item_queued(add, last, r),
    ensures
        add.result_id is Some && last is Some && 0 <= i < last->0.results@.len()
            && last->0.results@[i].id == add.result_id->0 && (forall|j: int|
            0 <= j < i ==> (#[trigger] last->0.results@[j]).id != add.result_id->0) ==> r is Ok
            && r->Ok_0.magnet == last->0.results@[i].magnet,
        add.result_id is Some && last is None ==> r == Err::<QueuedItem, QueueError>(
            QueueError::NoSearch,
        ),
        add.result_id is Some && last is Some && (forall|j: int|
            0 <= j < last->0.results@.len() ==> (#[trigger] last->0.results@[j]).id
                != add.result_id->0) ==> r == Err::<QueuedItem, QueueError>(
            QueueError::ResultNotFound(add.result_id->0),
        ),
        add.result_id is None && add.magnet is Some && starts_with(add.magnet->0@, "magnet:"@)
            ==> r is Ok && Some(r->Ok_0.magnet) == add.magnet,
        add.result_id is None && add.magnet is Some && !starts_with(add.magnet->0@, "magnet:"@)
            ==> r == Err::<QueuedItem, QueueError>(QueueError::InvalidMagnet),
        add.result_id is None && add.magnet is None ==> r == Err::<QueuedItem, QueueError>(
            QueueError::NothingNamed,
        ),
{
    if add.result_id is Some && last is Some && r is Ok {
        let s = last->0;
        let id = add.result_id->0;
        let k = choose|k: int| #[trigger]
            is_result(s, id, k) && is_item_of_result(r->Ok_0, add, s, k);
        assert(s.results@[k].id == id);
        if 0 <= i < s.results@.len() && s.results@[i].id == id && (forall|j: int|
            0 <= j < i ==> (#[trigger] s.results@[j]).id != id) {
            if k < i {
                assert(s.results@[k].id != id);
            }
            if i < k {
                assert(s.results@[i].id != id);
            }
        }
    }
}

// --------------------------------------------------------------------- targets
/// A target comes apart at its first colon and nothing of it is lost; one without a colon is a kind
/// alone.
pub proof fn targets_come_apart(target: Seq<char>)
    ensures
        target.contains(':') ==> device_of(target) is Some && kind_of(target) + seq![':']
            + device_of(target)->0 == target && !kind_of(target).contains(':'),
        !target.contains(':') ==> device_of(target) is None && kind_of(target) == target,
{
    let k = index_of(target, ':');
    lemma_index_of_bounds(target, ':');
    if target.contains(':') {
        let i = choose|i: int| 0 <= i < target.len() && target[i] == ':';
        assert(k <= i);
        assert(kind_of(target) + seq![':'] + target.skip(k + 1) =~= target);
        assert(!kind_of(target).contains(':'));
    } else {
        if k < target.len() {
            assert(target[k] == ':');
        }
        assert(kind_of(target) =~= target);
    }
}

/// A stream is controlled where it plays: the device that controls go to, and that a neighbouring
/// episode is asked for on, is the one that the stream was sent to.
pub proof fn a_stream_is_controlled_where_it_plays(
    before: AppState,
    after: AppState,
    req: PlayRequest,
    f: StreamFacts,
    now: Timestamp,
    default_device: Seq<char>,
)
    requires
        stream_begun(before, after, req, f, now),
        !f.target@.contains(':'),
    ensures
        device_in_use(after, default_device) == f.cast_name@,
        kind_of(after.current->0.target@) == f.target@,
        device_of(after.current->0.target@) == Some(f.cast_name@),
{
    reveal_strlit(":");
    let t = after.current->0.target@;
    let k = f.target@.len() as int;
    assert(t =~= f.target@ + seq![':'] + f.cast_name@);
    assert forall|j: int| 0 <= j < k implies t[j] != ':' by {
        assert(t[j] == f.target@[j]);
        assert(f.target@.contains(f.target@[j]));
    }
    assert(t[k] == ':');
    lemma_index_of(t, ':', k);
    assert(t.take(k) =~= f.target@);
    assert(t.skip(k + 1) =~= f.cast_name@);
}

/// Where nothing plays, controls go to the device that is preferred, and else to the configured
/// one.
pub proof fn controls_go_to_the_preferred_device(state: AppState, default_device: Seq<char>)
    requires
        state.current is None || !state.current->0.target@.contains(':'),
    ensures
        state.preferences.chromecast_name is Some ==> device_in_use(state, default_device)
            == state.preferences.chromecast_name->0@,
        state.preferences.chromecast_name is None ==> device_in_use(state, default_device)
            == default_device,
{
    if state.current is Some {
        targets_come_apart(state.current->0.target@);
    }
}

/// A stream goes where the request says; where it says nothing, where the preferences say; and
/// where they name no device, to the configured one.
pub proof fn streams_go_where_they_are_asked_to(
    d: Destination,
    req: PlayRequest,
    prefs: Preferences,
    default_device: Seq<char>,
)
    requires
        is_destination(d, req, prefs, default_device),
    ensures
        req.target is Some && req.target->0@.len() > 0 ==> d.target@ == req.target->0@,
        req.target is None || req.target->0@.len() == 0 ==> d.target@ == prefs.default_target@,
        req.cast_name is Some ==> d.cast_name@ == req.cast_name->0@,
        req.cast_name is None && prefs.chromecast_name is Some ==> d.cast_name@
            == prefs.chromecast_name->0@,
        req.cast_name is None && prefs.chromecast_name is None ==> d.cast_name@ == default_device,
{
}

// ------------------------------------------------------------------- positions
/// A title goes on where it was left: a position past the first half minute that was saved of it is
/// where it begins when it is asked for again, unless the request says where; one before that is
/// not returned to.
pub proof fn a_title_goes_on_where_it_was_left(
    before: AppState,
    saved: AppState,
    after: AppState,
    req: PlayRequest,
    t: Millis,
    duration: Option<Millis>,
    now: Timestamp,
    plan: SeekPlan,
)
    requires
        position_saved(before, saved, req.imdb_id, req.title, t, duration, now, true),
        duration is None || duration->0 <= 0 || (100 * t < 96 * duration->0 && duration->0 - t
            > 300_000),
        seek_planned(saved, after, req, plan),
    ensures
        req.seek_to is None && t > 30_000 ==> plan.seek_to == Some(t) && plan.resumed_from == Some(
            t,
        ) && after == saved,
        req.seek_to is None && t <= 30_000 ==> plan.seek_to is None && plan.resumed_from is None,
        req.seek_to is Some ==> plan.seek_to == req.seek_to && plan.resumed_from is None
            && position_in(after, opt(req.imdb_id), opt(req.title)) == 0,
{
}

/// What nothing is remembered of begins at its beginning.
pub proof fn a_new_title_begins_at_its_beginning(
    before: AppState,
    after: AppState,
    req: PlayRequest,
    plan: SeekPlan,
)
    requires
        seek_planned(before, after, req, plan),
        req.seek_to is None,
        position_in(before, opt(req.imdb_id), opt(req.title)) <= 30_000,
    ensures
        plan.seek_to is None,
        plan.resumed_from is None,
        after == before,
{
}

// -------------------------------------------------------------------- delivery
/// A Chromecast is always given HLS of a picture that is encoded anew; of a file on this machine,
/// HLS that is complete. Another target is given HLS where anything has to be done to the source,
/// and the source itself where nothing has: where both codecs are ones that receivers take, without
/// an intro and subtitles, from a torrent.
pub proof fn receivers_are_given_what_they_take(d: Delivery, run: PlayRun, codecs: CodecInfo)
    requires
        is_delivery(d, run, codecs),
    ensures
        ({
            let cc = run.target@ == "chromecast"@;
            let audio = codecs.audio_codec is Some && seq![
                "ac3"@,
                "eac3"@,
                "dts"@,
                "truehd"@,
                "dca"@,
            ].contains(codecs.audio_codec->0@);
            let video = codecs.video_codec is Some && seq![
                "hevc"@,
                "h265"@,
                "vp9"@,
                "av1"@,
            ].contains(codecs.video_codec->0@);
            &&& d.audio_transcode <==> audio
            &&& d.video_transcode <==> cc || video
            &&& d.use_hls <==> cc || audio || video || run.has_intro || run.has_subtitles
                || run.is_local
            &&& d.prepared <==> cc && run.is_local
        }),
{
    if codecs.audio_codec is Some {
        crate::transcode_laws::heavy_codecs_are_known_by_name(codecs.audio_codec->0@);
    }
    if codecs.video_codec is Some {
        crate::transcode_laws::heavy_codecs_are_known_by_name(codecs.video_codec->0@);
    }
}

/// A receiver is told what it gets: HLS of a playlist and a file of anything else, how long it
/// lasts with the intro of five seconds, and the names of what plays where that is wanted and none
/// where it is not.
pub proof fn receivers_are_told_what_they_get(
    load: CastLoad,
    req: PlayRequest,
    url: Seq<char>,
    source_duration: Option<Millis>,
    has_intro: bool,
    rich_metadata: bool,
)
    requires
        is_load_of(load, req, url, source_duration, has_intro, rich_metadata),
        source_duration is Some ==> source_duration->0 <= i64::MAX - 5_000,
    ensures
        ends_with(url, ".m3u8"@) ==> load.content_type@ == "application/vnd.apple.mpegurl"@,
        !ends_with(url, ".m3u8"@) && !contains(url, "/hls/playlist.m3u8"@)
            ==> load.content_type@ == "video/mp4"@,
        source_duration is None ==> load.duration is None,
        source_duration is Some && has_intro ==> load.duration is Some && load.duration->0
            == source_duration->0 + 5_000,
        source_duration is Some && !has_intro ==> load.duration == source_duration,
        rich_metadata ==> load.metadata.title == req.title && load.metadata.series_title
            == req.show && load.metadata.season == req.season && load.metadata.episode
            == req.episode && load.metadata.poster_url == req.poster_url,
        !rich_metadata ==> load.metadata.title is None && load.metadata.series_title is None
            && load.metadata.season is None && load.metadata.episode is None
            && load.metadata.poster_url is None,
{
}

// --------------------------------------------------------------- what is known
/// What plays is known for what it is: its source, its names, where it goes, where it is read from,
/// and in which form. A poster is known only from where posters are served, and subtitles have a
/// language only where there are any.
pub proof fn what_plays_is_known(
    before: AppState,
    after: AppState,
    req: PlayRequest,
    f: StreamFacts,
    now: Timestamp,
)
    requires
        stream_begun(before, after, req, f, now),
    ensures
        after.current is Some,
        ({
            let c = after.current->0;
            &&& c.magnet@ == f.magnet@ && c.url@ == f.url@ && c.pid == f.pid && c.started_at == now
            &&& req.title is Some ==> c.title@ == req.title->0@
            &&& c.show == req.show && c.season == req.season && c.episode == req.episode
                && c.imdb_id == req.imdb_id && c.quality == req.quality && c.size == req.size
            &&& c.target@ == f.target@ + ":"@ + f.cast_name@
            &&& c.duration == f.duration
            &&& c.has_subtitles == f.has_subtitles
            &&& f.has_subtitles ==> opt(c.subtitle_lang) == Some(f.subtitle_lang@)
            &&& !f.has_subtitles ==> c.subtitle_lang is None
            &&& c.smooth <==> req.smooth == Some(true)
            &&& c.prepared_hls <==> f.is_transcoded && f.is_local && f.target@ == "chromecast"@
            &&& req.poster_url is Some && (starts_with(
                req.poster_url->0@,
                "https://image.tmdb.org/"@,
            ) || starts_with(req.poster_url->0@, "https://www.themoviedb.org/"@)) ==> c.poster_url
                == req.poster_url
            &&& c.poster_url is Some ==> c.poster_url == req.poster_url && (starts_with(
                c.poster_url->0@,
                "https://image.tmdb.org/"@,
            ) || starts_with(c.poster_url->0@, "https://www.themoviedb.org/"@))
            &&& f.seek_to is Some || !f.cache_enabled ==> c.cache_key is None
            &&& f.seek_to is None && f.cache_enabled && req.imdb_id is Some
                && req.imdb_id->0@.len() > 0 ==> c.cache_key is Some
        }),
        after.queue == before.queue,
        after.history == before.history,
{
}

/// The position of a receiver's time in the source, whichever way the stream was begun: where the
/// transcode began at a position, the receiver counts from there, and the two add up; where the
/// receiver itself was told to seek, it says the position.
pub proof fn positions_add_up(
    before: AppState,
    after: AppState,
    req: PlayRequest,
    f: StreamFacts,
    now: Timestamp,
    watch: Watch,
    info: PlayerInfo,
)
    requires
        stream_begun(before, after, req, f, now),
        watch.ss_offset == after.current->0.ss_offset,
        0 <= info.current_time <= 0x3fff_ffff_ffff_ffff,
        f.seek_to is Some ==> 0 <= f.seek_to->0 <= 0x3fff_ffff_ffff_ffff,
    ensures
        f.is_transcoded && f.seek_to is Some ==> watch.absolute(info) == f.seek_to->0
            + info.current_time,
        !f.is_transcoded || f.seek_to is None ==> watch.absolute(info) == info.current_time,
{
}

/// A path that is made a source is found in it again, and no other source has one.
pub proof fn paths_are_found_in_their_sources(path: Seq<char>, url: Seq<char>)
    ensures
        path_in("file://"@ + path) == Some(path),
        crate::reaper::local_source("file://"@ + path) == Some(path),
        path_in(url) is Some ==> url == "file://"@ + path_in(url)->0,
        crate::reaper::local_source(url) == path_in(url),
{
    reveal_strlit("file://");
    prefixes_come_off("file://"@, path);
    prefixes_come_off("file://"@, url);
}

// ------------------------------------------------------------------ navigation
/// Episodes are gone through one by one within a season; before the first of a season stands the
/// last of the one before, and before the first of all there is none. Without a show and an episode
/// there is nowhere to go.
pub proof fn episodes_are_gone_through_in_order(c: CurrentStream)
    ensures
        neighbour_to(None, true) == Err::<(String, u32, u32), NavigateError>(
            NavigateError::NoContext,
        ),
        neighbour_to(None, false) == Err::<(String, u32, u32), NavigateError>(
            NavigateError::NoContext,
        ),
        c.show is None || c.season is None || c.episode is None ==> neighbour_to(Some(c), true)
            == Err::<(String, u32, u32), NavigateError>(NavigateError::NoContext) && neighbour_to(
            Some(c),
            false,
        ) == Err::<(String, u32, u32), NavigateError>(NavigateError::NoContext),
        c.show is Some && c.season is Some && c.episode is Some ==> {
            let s = c.season->0;
            let e = c.episode->0;
            &&& e < u32::MAX ==> neighbour_to(Some(c), true) is Ok && (neighbour_to(
                Some(c),
                true,
            )->Ok_0).0 == c.show->0 && (neighbour_to(Some(c), true)->Ok_0).1 == s && (neighbour_to(
                Some(c),
                true,
            )->Ok_0).2 == e + 1
            &&& e > 1 ==> neighbour_to(Some(c), false) is Ok && (neighbour_to(
                Some(c),
                false,
            )->Ok_0).0 == c.show->0 && (neighbour_to(Some(c), false)->Ok_0).1 == s && (neighbour_to(
                Some(c),
                false,
            )->Ok_0).2 == e - 1
            &&& e <= 1 && s > 1 ==> neighbour_to(Some(c), false) is Ok && (neighbour_to(
                Some(c),
                false,
            )->Ok_0).0 == c.show->0 && (neighbour_to(Some(c), false)->Ok_0).1 == s - 1 && (
            neighbour_to(Some(c), false)->Ok_0).2 == 99
            &&& e <= 1 && s <= 1 ==> neighbour_to(Some(c), false) == Err::<
                (String, u32, u32),
                NavigateError,
            >(NavigateError::AtFirst)
        },
{
}

/// A local file is played from an address that leads back to it.
pub proof fn local_files_are_found_by_their_addresses(path: Seq<char>, other: Seq<char>)
    ensures
        local_source(url_of_file(path)) == Some(path),
        url_of_file(path) == url_of_file(other) ==> path == other,
{
    reveal_strlit("file://");
    prefixes_come_off("file://"@, path);
    prefixes_come_off("file://"@, other);
}

/// A receiver is sent to the master playlist of the server, at the host and the port under which it
/// is reached.
pub proof fn receivers_are_sent_to_the_master(host: Seq<char>, port: u16)
    ensures
        url_of_master(host, port) == "http://"@ + (host + ":"@ + dec(port as nat))
            + "/hls/master.m3u8"@,
        starts_with(url_of_master(host, port), "http://"@ + host),
        ends_with(url_of_master(host, port), "/hls/master.m3u8"@),
{
    assert(url_of_master(host, port) =~= "http://"@ + (host + ":"@ + dec(port as nat))
        + "/hls/master.m3u8"@);
    let rest = ":"@ + dec(port as nat) + "/hls/master.m3u8"@;
    assert(url_of_master(host, port) =~= ("http://"@ + host) + rest);
    prefixes_come_off("http://"@ + host, rest);
    suffixes_come_off("http://"@ + host + ":"@ + dec(port as nat), "/hls/master.m3u8"@);
}

/// What could not be probed is played by its first sound, and nothing is claimed of it.
pub proof fn nothing_is_claimed_of_what_was_not_probed(c: CodecInfo)
    requires
        tells_nothing(c),
    ensures
        c.video_codec is None && c.audio_codec is None && c.duration is None,
        c.audio_stream@ == "0:a:"@ + dec(c.audio_index as nat),
        c.audio_index == 0,
{
    reveal_strlit("0:a:0");
    reveal_strlit("0:a:");
    lemma_dec(0);
    assert(dec(0) =~= seq!['0']);
    assert("0:a:0"@ =~= "0:a:"@ + dec(0));
}

/// A refusal tells what was asked for: the number that no result has and how many there are, the
/// episode that was not found, how long a transcode was waited for, and what went wrong.
pub proof fn refusals_tell_what_was_asked_for(
    id: usize,
    have: usize,
    secs: u64,
    season: u32,
    episode: u32,
    why: String,
)
    ensures
        PlayError::ResultNotFound(id, have).text() == "Result #"@ + dec(id as nat)
            + " not found in last search (have "@ + dec(have as nat) + ")"@,
        PlayError::FailFast(secs).text() == "Stream-start fail-fast: ffmpeg produced no HLS segments in "@
            + dec(secs as nat) + "s (likely starved swarm or bad source)."@,
        ends_with(PlayError::SmoothGate(why).text(), why@),
        ends_with(PlayError::CompletionGate(why).text(), why@),
        ends_with(PlayError::HlsRequired(why).text(), why@),
        ends_with(PlayError::CastFailed(why).text(), why@),
        ends_with(PlayError::CastTaskFailed(why).text(), why@),
        PlayError::Other(why).text() == why@,
        no_torrent_text(season, episode) == "No torrent found for S"@ + padded(season as nat, 2)
            + "E"@ + padded(episode as nat, 2),
{
    suffixes_come_off("Smooth mode download-first gate failed: "@, why@);
    suffixes_come_off("Chromecast local-HLS completion gate failed before cast: "@, why@);
    suffixes_come_off(
        "Chromecast playback requires HLS delivery; refusing raw fallback after HLS preparation failed: "@,
        why@,
    );
    suffixes_come_off("Cast failed: "@, why@);
    suffixes_come_off("Cast task failed: "@, why@);
}

/// What has no title is called unknown, and one that has is called by it.
pub proof fn streams_are_called_by_their_titles(req: PlayRequest)
    ensures
        req.title is Some ==> title_of(req) == req.title->0@,
        req.title is None ==> title_of(req) == "Unknown"@,
        NavigateError::NoContext.text() == "No show/episode context -- play a TV episode first"@,
        NavigateError::AtFirst.text() == "Already at first episode"@,
{
}

/// What is remembered of a stream is what was asked for and what came of it: its title, its show,
/// its season, its episode and its id, where it goes and from where, and when it began; a poster
/// only from where posters come from.
pub proof fn streams_are_remembered_as_they_are(
    c: CurrentStream,
    req: PlayRequest,
    f: StreamFacts,
    now: Timestamp,
)
    requires
        is_stream_of(c, req, f, now),
    ensures
        req.title is Some ==> c.title@ == req.title->0@,
        req.title is None ==> c.title@ == "Unknown"@,
        c.show == req.show,
        c.season == req.season,
        c.episode == req.episode,
        c.imdb_id == req.imdb_id,
        c.quality == req.quality,
        c.size == req.size,
        c.target@ == f.target@ + ":"@ + f.cast_name@,
        c.url@ == f.url@,
        c.magnet@ == f.magnet@,
        c.pid == f.pid,
        c.duration == f.duration,
        c.started_at == now,
        c.has_subtitles == f.has_subtitles,
        f.has_subtitles ==> opt(c.subtitle_lang) == Some(f.subtitle_lang@),
        !f.has_subtitles ==> c.subtitle_lang is None,
        req.poster_url is Some && is_poster_url(req.poster_url->0@) ==> c.poster_url
            == req.poster_url,
        req.poster_url is Some && !is_poster_url(req.poster_url->0@) ==> c.poster_url is None,
        req.poster_url is None ==> c.poster_url is None,
        f.is_transcoded && f.seek_to is Some ==> c.ss_offset == f.seek_to->0,
        !f.is_transcoded || f.seek_to is None ==> c.ss_offset == 0,
        c.smooth <==> req.smooth == Some(true),
        c.prepared_hls <==> f.is_transcoded && f.target@ == "chromecast"@ && f.is_local,
        !f.cache_enabled || f.seek_to is Some ==> c.cache_key is None,
        f.cache_enabled && f.seek_to is None ==> opt(c.cache_key) == cache_key(
            opt(req.imdb_id),
            req.season,
            req.episode,
            opt(c.subtitle_lang),
            f.has_intro,
        ),
{
}

/// A request without a number stays as it is.
pub proof fn requests_without_a_number_stay(
    before: PlayRequest,
    after: PlayRequest,
    last: Option<SearchResult>,
    r: Result<(), PlayError>,
)
    requires
        number_resolved(before, after, last, r),
    ensures
        before.result_id is None ==> r is Ok && after == before,
        r is Err ==> after == before,
{
}

/// What is refused without more to tell is refused in fixed words.
pub proof fn plain_refusals_have_their_words()
    ensures
        PlayError::NoSearch.text() == "No previous search results. Run 'spela search' first."@,
        PlayError::MissingMagnet.text()
            == "Missing magnet. Use 'spela play <N>' with a result number, or pass a magnet link."@,
        PlayError::InvalidMagnet.text() == "Invalid magnet: magnet URI must start with 'magnet:'"@,
        PlayError::NoSeeds.text() == "Torrent has no active seeds (0% after 12s)"@,
        PlayError::SmoothNoFile.text()
            == "Smooth mode finished downloading but could not locate a healthy local source file"@,
{
}

} // verus!
