//! What the ledger, the positions and the history are for: what was watched is known as watched,
//! under every name and id that it has; what was left is found where it was left; and what was
//! answered stays answered.
use vstd::prelude::*;

use crate::playback::{remembered, PlayRequest};
use crate::state::{
    auto_marked, counts_for, detection_handled, dismissed_with, furthest, is_news, ledger_has,
    lemma_pending_place, lists_progress, marked_watched, pending_has, pending_place,
    pending_resolved, position_in, position_reset, position_saved, progress_of, reaches_end, seeded,
    seen_in, stopped, values_of, without_key, AppState, InProgressEntry, WatchedEntry,
};
use crate::text::{ascii_lower, lowercase};
use crate::time::{Millis, Timestamp};
use crate::titles::{common_form, episode_of, name_in, opt, position_key};

verus! {

// ------------------------------------------------------------- followed shows
/// An id that is there and says something.
pub open spec fn has_id(id: Option<Seq<char>>) -> bool {
    id is Some && id->0.len() > 0
}

/// The name of the show that an entry is of: the one that it gives, else the one in its title.
pub open spec fn show_of(w: WatchedEntry) -> Seq<char> {
    if w.show is Some {
        w.show->0@
    } else {
        name_in(w.title@)
    }
}

/// An entry counts for a followed show by id where both have one, whatever their names, and by name
/// where either has none, whatever the other's id.
pub proof fn entries_count_by_id_or_by_name(
    w: WatchedEntry,
    follow_imdb: Option<Seq<char>>,
    follow_title: Seq<char>,
)
    ensures
        has_id(follow_imdb) && has_id(opt(w.imdb_id)) ==> (counts_for(w, follow_imdb, follow_title)
            <==> ascii_lower(follow_imdb->0) == ascii_lower(w.imdb_id->0@)),
        !has_id(opt(w.imdb_id)) ==> (counts_for(w, follow_imdb, follow_title) <==> common_form(
            show_of(w),
        ) == common_form(follow_title)),
        !has_id(follow_imdb) ==> (counts_for(w, follow_imdb, follow_title) <==> common_form(
            show_of(w),
        ) == common_form(follow_title)),
{
}

/// An entry that counts tells the episode that its title names, and one that does not tells none.
pub proof fn entries_tell_their_episode(
    w: WatchedEntry,
    follow_imdb: Option<Seq<char>>,
    follow_title: Seq<char>,
)
    ensures
        counts_for(w, follow_imdb, follow_title) ==> progress_of(w, follow_imdb, follow_title)
            == episode_of(ascii_lower(w.title@)),
        !counts_for(w, follow_imdb, follow_title) ==> progress_of(w, follow_imdb, follow_title)
            is None,
{
}

/// The episode `a` is `b` or comes before it.
pub open spec fn up_to(a: (nat, nat), b: (nat, nat)) -> bool {
    a.0 < b.0 || a.0 == b.0 && a.1 <= b.1
}

/// How far a show has been watched is the furthest episode of all that count: each of them is at
/// most as far, and one of them is it.
pub proof fn progress_is_the_furthest(
    w: Seq<WatchedEntry>,
    follow_imdb: Option<Seq<char>>,
    follow_title: Seq<char>,
    best: Option<(nat, nat)>,
    i: int,
)
    requires
        furthest(w, follow_imdb, follow_title, best),
    ensures
        0 <= i < w.len() && counts_for(w[i], follow_imdb, follow_title) && episode_of(
            ascii_lower(w[i].title@),
        ) is Some ==> best is Some && up_to(episode_of(ascii_lower(w[i].title@))->0, best->0),
        best is Some ==> exists|j: int|
            0 <= j < w.len() && counts_for(#[trigger] w[j], follow_imdb, follow_title)
                && episode_of(ascii_lower(w[j].title@)) == best,
{
    if best is Some {
        let j = choose|j: int|
            0 <= j < w.len() && progress_of(#[trigger] w[j], follow_imdb, follow_title) == best;
        assert(counts_for(w[j], follow_imdb, follow_title));
    }
}

/// An episode that is marked by name alone brings its show at least as far, under any id: a mark of
/// the past, a completion, and one that was seen play alike.
pub proof fn marking_by_name_brings_the_show_on(
    before: AppState,
    seed: AppState,
    done: AppState,
    title: Seq<char>,
    now: Timestamp,
    follow_imdb: Option<Seq<char>>,
    follow_title: Seq<char>,
    episode: (nat, nat),
    after_seed: Option<(nat, nat)>,
    after_done: Option<(nat, nat)>,
)
    requires
        seeded(before, seed, None, title, now, true),
        auto_marked(before, done, None, title, now, true),
        common_form(name_in(title)) == common_form(follow_title),
        episode_of(ascii_lower(title)) == Some(episode),
        furthest(seed.watched@, follow_imdb, follow_title, after_seed),
        furthest(done.watched@, follow_imdb, follow_title, after_done),
    ensures
        after_seed is Some,
        up_to(episode, after_seed->0),
        after_done is Some,
        up_to(episode, after_done->0),
{
    progress_is_the_furthest(seed.watched@, follow_imdb, follow_title, after_seed, 0);
    progress_is_the_furthest(done.watched@, follow_imdb, follow_title, after_done, 0);
    assert(done.watched@[0].title@ == title);
    assert(title.len() > 0);
}

/// An episode that is marked under an id brings the show that is followed under that id at least as
/// far, whatever it is called there.
pub proof fn marking_by_id_brings_the_show_on(
    before: AppState,
    seed: AppState,
    done: AppState,
    id: String,
    title: Seq<char>,
    now: Timestamp,
    follow_title: Seq<char>,
    episode: (nat, nat),
    after_seed: Option<(nat, nat)>,
    after_done: Option<(nat, nat)>,
)
    requires
        id@.len() > 0,
        seeded(before, seed, Some(id), title, now, true),
        auto_marked(before, done, Some(id), title, now, true),
        episode_of(ascii_lower(title)) == Some(episode),
        furthest(seed.watched@, Some(id@), follow_title, after_seed),
        furthest(done.watched@, Some(id@), follow_title, after_done),
    ensures
        after_seed is Some,
        up_to(episode, after_seed->0),
        after_done is Some,
        up_to(episode, after_done->0),
{
    progress_is_the_furthest(seed.watched@, Some(id@), follow_title, after_seed, 0);
    progress_is_the_furthest(done.watched@, Some(id@), follow_title, after_done, 0);
}

// ----------------------------------------------------------------------- seen
/// A title counts as seen exactly where some entry has its id, its name for a show, or its name in
/// a title, the names in lower case.
pub proof fn only_what_is_in_the_ledger_is_seen(
    w: Seq<WatchedEntry>,
    imdb_id: Option<Seq<char>>,
    title: Seq<char>,
)
    ensures
        seen_in(w, imdb_id, title) <==> exists|i: int|
            0 <= i < w.len() && ((imdb_id is Some && opt((#[trigger] w[i]).imdb_id) == imdb_id) || (
            w[i].show is Some && lowercase(w[i].show->0@) == lowercase(name_in(title)))
                || lowercase(name_in(w[i].title@)) == lowercase(name_in(title))),
{
    if seen_in(w, imdb_id, title) {
        let i = choose|i: int|
            0 <= i < w.len() && crate::state::entry_matches(#[trigger] w[i], imdb_id, title);
        assert((imdb_id is Some && opt(w[i].imdb_id) == imdb_id) || (w[i].show is Some && lowercase(
            w[i].show->0@,
        ) == lowercase(name_in(title))) || lowercase(name_in(w[i].title@)) == lowercase(
            name_in(title),
        ));
    }
    if exists|i: int|
        0 <= i < w.len() && ((imdb_id is Some && opt((#[trigger] w[i]).imdb_id) == imdb_id) || (
        w[i].show is Some && lowercase(w[i].show->0@) == lowercase(name_in(title))) || lowercase(
            name_in(w[i].title@),
        ) == lowercase(name_in(title))) {
        let i = choose|i: int|
            0 <= i < w.len() && ((imdb_id is Some && opt((#[trigger] w[i]).imdb_id) == imdb_id) || (
            w[i].show is Some && lowercase(w[i].show->0@) == lowercase(name_in(title)))
                || lowercase(name_in(w[i].title@)) == lowercase(name_in(title)));
        assert(crate::state::entry_matches(w[i], imdb_id, title));
    }
}

proof fn lemma_kept(w: Seq<WatchedEntry>, key: Seq<char>, e: WatchedEntry)
    requires
        w.contains(e),
        e.key@ != key,
    ensures
        without_key(w, key).contains(e),
        without_key(w, key).len() <= w.len(),
    decreases w.len(),
{
    reveal(Seq::filter);
    let keep = |x: WatchedEntry| x.key@ != key;
    let t = w.drop_last();
    let u = without_key(t, key);
    let r = without_key(w, key);
    assert(r == if keep(w.last()) {
        u.push(w.last())
    } else {
        u
    });
    lemma_without_len(t, key);
    let i = choose|i: int| 0 <= i < w.len() && w[i] == e;
    if i < t.len() {
        assert(t[i] == e);
        lemma_kept(t, key, e);
        let k = choose|k: int| 0 <= k < u.len() && u[k] == e;
        assert(r[k] == e);
    } else {
        assert(r[r.len() - 1] == e);
    }
}

proof fn lemma_without_len(w: Seq<WatchedEntry>, key: Seq<char>)
    ensures
        without_key(w, key).len() <= w.len(),
    decreases w.len(),
{
    reveal(Seq::filter);
    if w.len() > 0 {
        lemma_without_len(w.drop_last(), key);
    }
}

/// A completion is entered as it was, and no other entry is lost while the ledger has room: the new
/// one stands in front with its key, id, title and time, as one that was seen to its end.
pub proof fn completions_are_entered_beside_the_others(
    before: AppState,
    after: AppState,
    key: Seq<char>,
    imdb_id: Option<String>,
    title: Seq<char>,
    now: Timestamp,
    other: WatchedEntry,
)
    requires
        marked_watched(before, after, key, imdb_id, title, now),
        before.watched@.len() < 500,
    ensures
        after.watched@[0].key@ == key,
        after.watched@[0].imdb_id == imdb_id,
        after.watched@[0].title@ == title,
        after.watched@[0].watched_at == now,
        !after.watched@[0].seed,
        title.len() > 0 ==> opt(after.watched@[0].show) == Some(name_in(title)),
        title.len() == 0 ==> after.watched@[0].show is None,
        before.watched@.contains(other) && other.key@ != key ==> after.watched@.contains(other),
        after.resume_positions == before.resume_positions,
        after.current == before.current,
        after.queue == before.queue,
{
    if before.watched@.contains(other) && other.key@ != key {
        lemma_kept(before.watched@, key, other);
        let rest = without_key(before.watched@, key);
        let k = choose|k: int| 0 <= k < rest.len() && rest[k] == other;
        assert(after.watched@[k + 1] == other);
    }
}

/// A mark of the past is entered as one, and only where the ledger does not have its key; then
/// every other entry moves back by one place.
pub proof fn seeds_are_entered_beside_the_others(
    before: AppState,
    after: AppState,
    imdb_id: Option<String>,
    title: Seq<char>,
    now: Timestamp,
    added: bool,
    key: Seq<char>,
)
    requires
        seeded(before, after, imdb_id, title, now, added),
        position_key(opt(imdb_id), Some(title)) == Some(key),
    ensures
        added <==> !ledger_has(before.watched@, key),
        added ==> after.watched@[0].seed && after.watched@[0].key@ == key
            && after.watched@[0].imdb_id == imdb_id && after.watched@[0].title@ == title && opt(
            after.watched@[0].show,
        ) == Some(name_in(title)),
        added ==> forall|i: int|
            0 <= i < before.watched@.len() && i < 499 ==> (#[trigger] before.watched@[i])
                == after.watched@[i + 1],
        !added ==> after == before,
{
}

// ------------------------------------------------------------------- positions
/// A title is at its end where 96 of 100 parts of it have passed, or all but five minutes; of a
/// title of no known length that is never known.
pub proof fn titles_end_near_their_end(t: Millis, duration: Option<Millis>)
    ensures
        reaches_end(t, duration) <==> duration is Some && duration->0 > 0 && (100 * t >= 96
            * duration->0 || duration->0 - t <= 300_000),
{
}

/// What is left is found where it was left: a position that was saved is the one that is found, by
/// the same id and title, unless a later one is; a title that has come to its end begins anew, and
/// so does one that was reset. Others stay where they were.
pub proof fn positions_are_found_where_they_were_left(
    before: AppState,
    after: AppState,
    forgotten: AppState,
    imdb_id: Option<String>,
    title: Option<String>,
    t: Millis,
    duration: Option<Millis>,
    now: Timestamp,
    changed: bool,
    other_id: Option<Seq<char>>,
    other_title: Option<Seq<char>>,
)
    requires
        position_saved(before, after, imdb_id, title, t, duration, now, changed),
        position_reset(after, forgotten, position_key(opt(imdb_id), opt(title))),
        position_key(opt(imdb_id), opt(title)) is Some,
        position_key(other_id, other_title) != position_key(opt(imdb_id), opt(title)),
    ensures
        ({
            let reached = position_in(before, opt(imdb_id), opt(title));
            let ended = duration is Some && duration->0 > 0 && (100 * t >= 96 * duration->0
                || duration->0 - t <= 300_000);
            &&& ended ==> position_in(after, opt(imdb_id), opt(title)) == 0 && changed
            &&& !ended && t > reached ==> position_in(after, opt(imdb_id), opt(title)) == t
                && changed
            &&& !ended && t <= reached ==> after == before && !changed
            &&& position_in(forgotten, opt(imdb_id), opt(title)) == 0
            &&& position_in(after, other_id, other_title) == position_in(
                before,
                other_id,
                other_title,
            )
            &&& position_in(forgotten, other_id, other_title) == position_in(
                before,
                other_id,
                other_title,
            )
        }),
{
}

/// What is in progress is told as it is: where it was left, of how much, when, and with the show,
/// the season, the episode and the poster of what plays.
pub proof fn progress_tells_what_plays(
    before: AppState,
    after: AppState,
    imdb_id: Option<String>,
    title: Option<String>,
    t: Millis,
    duration: Option<Millis>,
    now: Timestamp,
    key: Seq<char>,
)
    requires
        position_saved(before, after, imdb_id, title, t, duration, now, true),
        position_key(opt(imdb_id), opt(title)) == Some(key),
        !reaches_end(t, duration),
    ensures
        after.in_progress@.contains_key(key),
        after.in_progress@[key].position == t,
        after.in_progress@[key].duration == duration,
        after.in_progress@[key].updated_at == now,
        after.in_progress@[key].imdb_id == imdb_id,
        after.in_progress@[key].key@ == key,
        title is Some ==> after.in_progress@[key].title@ == title->0@,
        before.current is Some ==> after.in_progress@[key].show == before.current->0.show
            && after.in_progress@[key].season == before.current->0.season
            && after.in_progress@[key].episode == before.current->0.episode
            && after.in_progress@[key].poster_url == before.current->0.poster_url,
        before.current is None ==> after.in_progress@[key].show is None
            && after.in_progress@[key].season is None && after.in_progress@[key].episode is None
            && after.in_progress@[key].poster_url is None,
        after.watched == before.watched,
        after.current == before.current,
{
}

// --------------------------------------------------------------------- history
/// A stream that is stopped is the newest of the history, with all that the history tells of one,
/// and the others stand behind it in their order, as far as there is room; where none plays,
/// nothing happens.
pub proof fn the_history_tells_what_played(before: AppState, after: AppState, now: Timestamp)
    requires
        stopped(before, after, now),
    ensures
        before.current is None ==> after == before,
        before.current is Some ==> {
            let c = before.current->0;
            let h = after.history@[0];
            &&& after.current is None
            &&& h.title == c.title && h.show == c.show && h.season == c.season && h.episode
                == c.episode && h.imdb_id == c.imdb_id && h.target == Some(c.target)
                && h.watched_at == now
            &&& after.history@.len() == if before.history@.len() < 50 {
                before.history@.len() + 1
            } else {
                50
            }
            &&& forall|i: int|
                0 < i < after.history@.len() ==> (#[trigger] after.history@[i])
                    == before.history@[i - 1]
            &&& after.watched == before.watched
            &&& after.resume_positions == before.resume_positions
            &&& after.queue == before.queue
        },
{
}

// --------------------------------------------------------------------- answers
/// A detection is staged exactly where it is news: where its key is in no ledger entry, was never
/// dismissed, and does not wait. It waits in front, with all that was detected.
pub proof fn news_is_staged(
    before: AppState,
    after: AppState,
    title: String,
    series: Option<String>,
    season: Option<u32>,
    episode: Option<u32>,
    device: String,
    now: Timestamp,
    added: bool,
    key: Seq<char>,
)
    requires
        detection_handled(before, after, title, series, season, episode, device, now, added),
        position_key(None, Some(title@)) == Some(key),
    ensures
        added <==> !(exists|i: int|
            0 <= i < before.watched@.len() && (#[trigger] before.watched@[i]).key@ == key)
            && !before.dismissed_watched@.contains(key) && !(exists|i: int|
            0 <= i < before.pending_watched@.len() && (#[trigger] before.pending_watched@[i]).key@
                == key),
        added ==> {
            let p = after.pending_watched@[0];
            &&& p.key@ == key && p.title == title && p.series == series && p.season == season
                && p.episode == episode && p.device == device && p.detected_at == now
        },
        added ==> forall|i: int|
            0 <= i < before.pending_watched@.len() && i < 99 ==> (
            #[trigger] before.pending_watched@[i]) == after.pending_watched@[i + 1],
        after.watched == before.watched,
        after.dismissed_watched == before.dismissed_watched,
{
    assert(is_news(before, key) <==> !ledger_has(before.watched@, key)
        && !before.dismissed_watched@.contains(key) && !pending_has(before.pending_watched@, key));
}

/// An answer settles one detection: it waits no more, and the others wait on in their order. A yes
/// enters its title into the ledger; a no leaves the ledger as it is.
pub proof fn an_answer_settles_one_detection(
    before: AppState,
    after: AppState,
    key: Seq<char>,
    watched: bool,
    now: Timestamp,
    found: bool,
    place: int,
)
    requires
        pending_resolved(before, after, key, watched, now, found),
        0 <= place < before.pending_watched@.len(),
        before.pending_watched@[place].key@ == key,
        forall|j: int| 0 <= j < place ==> (#[trigger] before.pending_watched@[j]).key@ != key,
    ensures
        found,
        after.pending_watched@.len() == before.pending_watched@.len() - 1,
        forall|j: int|
            0 <= j < place ==> (#[trigger] before.pending_watched@[j]) == after.pending_watched@[j],
        forall|j: int|
            place < j < before.pending_watched@.len() ==> (#[trigger] before.pending_watched@[j])
                == after.pending_watched@[j - 1],
        watched ==> after.watched@[0].key@ == key && after.watched@[0].title@
            == before.pending_watched@[place].title@ && after.watched@[0].watched_at == now
            && after.dismissed_watched == before.dismissed_watched,
        !watched ==> after.watched == before.watched && after.dismissed_watched.items().contains(
            key,
        ),
        after.resume_positions == before.resume_positions,
{
    lemma_pending_place(before.pending_watched@, key);
    let p = pending_place(before.pending_watched@, key);
    assert(p == place) by {
        assert(pending_has(before.pending_watched@, key));
        if p < place {
            assert(before.pending_watched@[p].key@ != key);
        }
        if place < p {
            assert(before.pending_watched@[place].key@ != key);
        }
    }
    if !watched {
        crate::state_laws::dismissed_is_remembered(before.dismissed_watched.items(), key);
    }
}

/// An answer to what does not wait changes nothing.
pub proof fn no_answer_is_taken_unasked(
    before: AppState,
    after: AppState,
    key: Seq<char>,
    watched: bool,
    now: Timestamp,
    found: bool,
)
    requires
        pending_resolved(before, after, key, watched, now, found),
        forall|j: int|
            0 <= j < before.pending_watched@.len() ==> (#[trigger] before.pending_watched@[j]).key@
                != key,
    ensures
        !found,
        after == before,
{
}

/// All that is in progress is listed and nothing else, and what was advanced later stands before
/// what was advanced earlier.
pub proof fn progress_is_listed_latest_first(
    list: Seq<InProgressEntry>,
    items: Seq<(Seq<char>, InProgressEntry)>,
    i: int,
    j: int,
)
    requires
        lists_progress(list, items),
    ensures
        list.len() == items.len(),
        0 <= i < items.len() ==> list.contains(items[i].1),
        0 <= i < list.len() ==> exists|k: int| 0 <= k < items.len() && (#[trigger] items[k]).1
            == list[i],
        0 <= i < j < list.len() ==> list[j].updated_at.secs <= list[i].updated_at.secs,
        0 <= i < j < list.len() && list[j].updated_at.secs == list[i].updated_at.secs
            ==> list[j].updated_at.nanos <= list[i].updated_at.nanos,
{
    broadcast use vstd::seq_lib::group_to_multiset_ensures;

    let all = values_of(items);
    assert(list.to_multiset().len() == all.to_multiset().len());
    if 0 <= i < items.len() {
        assert(all[i] == items[i].1);
        assert(all.contains(items[i].1));
        assert(all.to_multiset().count(items[i].1) > 0);
    }
    if 0 <= i < list.len() {
        assert(list.contains(list[i]));
        assert(list.to_multiset().count(list[i]) > 0);
        assert(all.contains(list[i]));
        let k = choose|k: int| 0 <= k < all.len() && all[k] == list[i];
        assert(items[k].1 == list[i]);
    }
}

/// Moments are in one order: none is before itself, and of two that differ one is before the other,
/// by their seconds and, within a second, by their nanoseconds, of which a second has a thousand
/// million.
pub proof fn moments_are_in_order(a: Timestamp, b: Timestamp)
    ensures
        !a.earlier(a),
        a.earlier(b) ==> !b.earlier(a),
        a.secs < b.secs ==> a.earlier(b),
        a.secs == b.secs && a.nanos < b.nanos ==> a.earlier(b),
        a.total_nanos() == a.secs * 1_000_000_000 + a.nanos,
{
}

/// Nothing is remembered of what has no name.
pub proof fn nothing_is_remembered_without_a_name(state: AppState, req: PlayRequest)
    ensures
        position_in(state, None, None) == 0,
        req.imdb_id is None && req.title is None ==> remembered(state, req) == 0,
        remembered(state, req) == position_in(state, opt(req.imdb_id), opt(req.title)),
{
}

/// What is watched to its end is in the ledger, in front, under its key; and nothing is in progress
/// of it any more.
pub proof fn what_is_finished_is_in_the_ledger(
    before: AppState,
    after: AppState,
    imdb_id: Option<String>,
    title: Option<String>,
    t: Millis,
    duration: Millis,
    now: Timestamp,
    changed: bool,
    key: Seq<char>,
)
    requires
        position_saved(before, after, imdb_id, title, t, Some(duration), now, changed),
        position_key(opt(imdb_id), opt(title)) == Some(key),
        duration > 0,
        100 * t >= 96 * duration || duration - t <= 300_000,
    ensures
        after.watched@.len() > 0,
        after.watched@[0].key@ == key,
        after.watched@[0].imdb_id == imdb_id,
        title is Some ==> after.watched@[0].title@ == title->0@,
        after.watched@[0].watched_at == now,
        !after.watched@[0].seed,
        !after.in_progress@.contains_key(key),
        after.current == before.current,
        after.queue == before.queue,
        after.history == before.history,
{
}

/// A mark that is set beforehand bears the time at which it was set, and touches nothing but the
/// ledger.
pub proof fn seeds_touch_the_ledger_alone(
    before: AppState,
    after: AppState,
    imdb_id: Option<String>,
    title: Seq<char>,
    now: Timestamp,
    added: bool,
)
    requires
        seeded(before, after, imdb_id, title, now, added),
    ensures
        added ==> after.watched@[0].watched_at == now,
        after.current == before.current,
        after.resume_positions == before.resume_positions,
        after.in_progress == before.in_progress,
        after.pending_watched == before.pending_watched,
        after.dismissed_watched == before.dismissed_watched,
{
}

/// Where more are dismissed than are kept, the one that was dismissed longest ago goes, and not the
/// one that has just been; where there is room all stay, in their order.
pub proof fn the_oldest_dismissal_goes_first(items: Seq<Seq<char>>, key: Seq<char>)
    ensures
        !items.contains(key) && items.len() < 500 ==> dismissed_with(items, key) == items.push(key),
        items.contains(key) && items.len() <= 500 ==> dismissed_with(items, key) == items,
        !items.contains(key) && items.len() == 500 ==> dismissed_with(items, key)
            == items.drop_first().push(key),
{
    if !items.contains(key) && items.len() == 500 {
        assert(items.contains(items[0]));
        assert(items.push(key)[0] == items[0]);
        assert(items.push(key).remove(0) =~= items.drop_first().push(key));
    }
}

/// What has no name is neither staged nor marked.
pub proof fn what_has_no_name_is_not_marked(
    before: AppState,
    after: AppState,
    title: String,
    series: Option<String>,
    season: Option<u32>,
    episode: Option<u32>,
    device: String,
    now: Timestamp,
    done: bool,
)
    requires
        title@.len() == 0,
    ensures
        detection_handled(before, after, title, series, season, episode, device, now, done)
            ==> !done && after == before,
        auto_marked(before, after, None, title@, now, done) ==> !done && after == before,
        seeded(before, after, None, title@, now, done) ==> !done && after == before,
{
}

} // verus!
