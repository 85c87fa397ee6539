//! What holds of the remembered state across its operations.
use vstd::prelude::*;

use crate::state::{
    detection_handled, dismissed_with, entry_matches, furthest, ledger_has, marked_watched,
    pending_has, pending_resolved, position_at, position_reset, position_saved, progress_of,
    reaches_end, seeded, seen_in, stopped, without_key, AppState, WatchedEntry, DISMISSED_CAP,
    HISTORY_CAP, PENDING_CAP, WATCHED_CAP,
};
use crate::text::lowercase;
use crate::time::{Millis, Timestamp};
use crate::titles::{name_in, opt, position_key};

verus! {

/// No two entries of a ledger have one key.
pub open spec fn one_entry_per_key(w: Seq<WatchedEntry>) -> bool {
    forall|i: int, j: int|
        0 <= i < j < w.len() ==> (#[trigger] w[i]).key@ != (#[trigger] w[j]).key@
}

proof fn lemma_without_key(w: Seq<WatchedEntry>, key: Seq<char>)
    ensures
        forall|i: int|
            0 <= i < without_key(w, key).len() ==> (#[trigger] without_key(w, key)[i]).key@ != key
                && w.contains(without_key(w, key)[i]),
        one_entry_per_key(w) ==> one_entry_per_key(without_key(w, key)),
    decreases w.len(),
{
    let keep = |e: WatchedEntry| e.key@ != key;
    reveal(Seq::filter);
    if w.len() > 0 {
        let t = w.drop_last();
        lemma_without_key(t, key);
        let u = without_key(t, key);
        let r = without_key(w, key);
        assert(r == if keep(w.last()) {
            u.push(w.last())
        } else {
            u
        });
        assert forall|i: int| 0 <= i < r.len() implies (#[trigger] r[i]).key@ != key && w.contains(
            r[i],
        ) by {
            if i < u.len() {
                assert(r[i] == u[i]);
                let j = choose|j: int| 0 <= j < t.len() && t[j] == u[i];
                assert(w[j] == u[i]);
            } else {
                assert(w[w.len() - 1] == r[i]);
            }
        }
        if one_entry_per_key(w) {
            assert(one_entry_per_key(t)) by {
                assert forall|i: int, j: int| 0 <= i < j < t.len() implies (#[trigger] t[i]).key@
                    != (#[trigger] t[j]).key@ by {
                    assert(t[i] == w[i] && t[j] == w[j]);
                }
            }
            assert forall|i: int, j: int| 0 <= i < j < r.len() implies (#[trigger] r[i]).key@ != (
            #[trigger] r[j]).key@ by {
                assert(r[i] == u[i]);
                if j < u.len() {
                    assert(r[j] == u[j]);
                } else {
                    let k = choose|k: int| 0 <= k < t.len() && t[k] == u[i];
                    assert(w[k] == r[i]);
                    assert(w[w.len() - 1] == r[j]);
                }
            }
        }
    }
}

/// A completion leaves its key in the ledger exactly once, keeps every key there once, and keeps
/// the ledger within its bound.
pub proof fn ledger_stays_unique_and_bounded(
    before: AppState,
    after: AppState,
    key: Seq<char>,
    imdb_id: Option<String>,
    title: Seq<char>,
    now: Timestamp,
)
    requires
        marked_watched(before, after, key, imdb_id, title, now),
    ensures
        ledger_has(after.watched@, key),
        forall|i: int| 0 < i < after.watched@.len() ==> (#[trigger] after.watched@[i]).key@ != key,
        after.watched@.len() <= WATCHED_CAP,
        one_entry_per_key(before.watched@) ==> one_entry_per_key(after.watched@),
{
    let rest = without_key(before.watched@, key);
    lemma_without_key(before.watched@, key);
    let a = after.watched@;
    assert(a[0].key@ == key);
    assert forall|i: int| 0 < i < a.len() implies (#[trigger] a[i]).key@ != key && a[i] == rest[i
        - 1] by {}
}

/// A title that was marked watched has been seen, under its name and under its id.
pub proof fn marking_makes_seen(
    before: AppState,
    after: AppState,
    key: Seq<char>,
    imdb_id: Option<String>,
    title: Seq<char>,
    now: Timestamp,
    other: Seq<char>,
)
    requires
        marked_watched(before, after, key, imdb_id, title, now),
    ensures
        seen_in(after.watched@, None, title),
        imdb_id is Some ==> seen_in(after.watched@, opt(imdb_id), other),
{
    assert(entry_matches(after.watched@[0], None, title));
    if imdb_id is Some {
        assert(entry_matches(after.watched@[0], opt(imdb_id), other));
    }
}

/// Seeing does not depend on the case in which a name is asked for.
pub proof fn seeing_ignores_case(
    s: AppState,
    imdb_id: Option<Seq<char>>,
    t1: Seq<char>,
    t2: Seq<char>,
)
    requires
        lowercase(name_in(t1)) == lowercase(name_in(t2)),
    ensures
        seen_in(s.watched@, imdb_id, t1) == seen_in(s.watched@, imdb_id, t2),
{
    assert forall|i: int| 0 <= i < s.watched@.len() implies entry_matches(
        #[trigger] s.watched@[i],
        imdb_id,
        t1,
    ) == entry_matches(s.watched@[i], imdb_id, t2) by {}
    if seen_in(s.watched@, imdb_id, t1) {
        let i = choose|i: int|
            0 <= i < s.watched@.len() && entry_matches(#[trigger] s.watched@[i], imdb_id, t1);
        assert(entry_matches(s.watched@[i], imdb_id, t2));
    }
    if seen_in(s.watched@, imdb_id, t2) {
        let i = choose|i: int|
            0 <= i < s.watched@.len() && entry_matches(#[trigger] s.watched@[i], imdb_id, t2);
        assert(entry_matches(s.watched@[i], imdb_id, t1));
    }
}

/// A saved position is a high-water mark: it never falls but by a completion, after which it is
/// gone and the title is in the ledger; and no other title's position is touched.
pub proof fn positions_are_high_water_marks(
    before: AppState,
    after: AppState,
    imdb_id: Option<String>,
    title: Option<String>,
    t: Millis,
    duration: Option<Millis>,
    now: Timestamp,
    changed: bool,
    key: Seq<char>,
    other: Seq<char>,
)
    requires
        position_saved(before, after, imdb_id, title, t, duration, now, changed),
        position_key(opt(imdb_id), opt(title)) == Some(key),
        other != key,
    ensures
        position_at(after, other) == position_at(before, other),
        !reaches_end(t, duration) ==> position_at(after, key) >= position_at(before, key)
            && position_at(after, key) >= t,
        reaches_end(t, duration) ==> position_at(after, key) == 0 && ledger_has(
            after.watched@,
            key,
        ),
{
    if reaches_end(t, duration) {
        assert(after.watched@[0].key@ == key);
    }
}

/// Forgetting one title's position leaves every other where it was.
pub proof fn reset_touches_one_title(
    before: AppState,
    after: AppState,
    key: Seq<char>,
    other: Seq<char>,
)
    requires
        position_reset(before, after, Some(key)),
        other != key,
    ensures
        position_at(after, key) == 0,
        position_at(after, other) == position_at(before, other),
        after.in_progress@.contains_key(other) == before.in_progress@.contains_key(other),
{
}

/// What is in progress and the positions speak of the same titles, and say the same of them.
pub open spec fn progress_agrees(s: AppState) -> bool {
    &&& s.in_progress@.dom() == s.resume_positions@.dom()
    &&& forall|k: Seq<char>|
        s.resume_positions@.contains_key(k) ==> (#[trigger] s.in_progress@[k]).position
            == s.resume_positions@[k]
}

/// Saving and forgetting positions keep the two in agreement.
pub proof fn progress_keeps_agreeing(
    before: AppState,
    saved: AppState,
    reset: AppState,
    imdb_id: Option<String>,
    title: Option<String>,
    t: Millis,
    duration: Option<Millis>,
    now: Timestamp,
    changed: bool,
)
    requires
        progress_agrees(before),
        position_saved(before, saved, imdb_id, title, t, duration, now, changed),
        position_reset(before, reset, position_key(opt(imdb_id), opt(title))),
    ensures
        progress_agrees(saved),
        progress_agrees(reset),
{
    assert(saved.in_progress@.dom() =~= saved.resume_positions@.dom());
    assert(reset.in_progress@.dom() =~= reset.resume_positions@.dom());
}

/// The history holds no more than its bound once a stream was stopped, and begins with it.
pub proof fn history_stays_bounded(before: AppState, after: AppState, now: Timestamp)
    requires
        stopped(before, after, now),
        before.current is Some,
    ensures
        after.current is None,
        0 < after.history@.len() <= HISTORY_CAP,
        after.history@[0].title == before.current->0.title,
{
}

/// A detection that was dismissed is never staged again while its key is remembered, and neither
/// is one that was confirmed.
pub proof fn an_answer_is_final(
    before: AppState,
    answered: AppState,
    after: AppState,
    key: Seq<char>,
    watched: bool,
    answer_time: Timestamp,
    title: String,
    series: Option<String>,
    season: Option<u32>,
    episode: Option<u32>,
    device: String,
    now: Timestamp,
    added: bool,
)
    requires
        pending_has(before.pending_watched@, key),
        pending_resolved(before, answered, key, watched, answer_time, true),
        position_key(None, Some(title@)) == Some(key),
        detection_handled(
            answered,
            after,
            title,
            series,
            season,
            episode,
            device,
            now,
            added,
        ),
    ensures
        !added,
        after == answered,
{
    if watched {
        assert(answered.watched@[0].key@ == key);
    } else {
        let items = before.dismissed_watched.items();
        let more = dismissed_with(items, key);
        dismissed_is_remembered(items, key);
    }
}

/// A key that was dismissed is among the dismissed, however many there are.
pub proof fn dismissed_is_remembered(items: Seq<Seq<char>>, key: Seq<char>)
    ensures
        dismissed_with(items, key).contains(key),
{
    let more = if items.contains(key) {
        items
    } else {
        items.push(key)
    };
    let r = dismissed_with(items, key);
    let i: int = if items.contains(key) {
        choose|i: int| 0 <= i < items.len() && items[i] == key
    } else {
        items.len() as int
    };
    assert(more[i] == key);
    if more.len() > DISMISSED_CAP {
        if i == 0 {
            assert(r[0] == key);
        } else {
            assert(r[i - 1] == key || r[i] == key);
        }
    } else {
        assert(r[i] == key);
    }
}

/// The dismissed keys stay within their bound.
pub proof fn dismissed_stays_bounded(items: Seq<Seq<char>>, key: Seq<char>)
    requires
        items.len() <= DISMISSED_CAP,
    ensures
        dismissed_with(items, key).len() <= DISMISSED_CAP,
{
}

/// A detection that was staged waits in front, once, and the waiting stay within their bound.
pub proof fn staging_stays_bounded(
    before: AppState,
    after: AppState,
    title: String,
    series: Option<String>,
    season: Option<u32>,
    episode: Option<u32>,
    device: String,
    now: Timestamp,
)
    requires
        detection_handled(before, after, title, series, season, episode, device, now, true),
    ensures
        after.pending_watched@.len() <= PENDING_CAP,
        position_key(None, Some(title@)) == Some(after.pending_watched@[0].key@),
        forall|i: int|
            0 < i < after.pending_watched@.len() ==> (#[trigger] after.pending_watched@[i]).key@
                != after.pending_watched@[0].key@,
{
    let p = after.pending_watched@;
    assert forall|i: int| 0 < i < p.len() implies (#[trigger] p[i]).key@ != p[0].key@ by {
        assert(p[i] == before.pending_watched@[i - 1]);
    }
}

/// How far a show has been watched is one answer, and the order of the ledger does not enter it.
pub proof fn progress_ignores_order(
    w1: Seq<WatchedEntry>,
    w2: Seq<WatchedEntry>,
    follow_imdb: Option<Seq<char>>,
    follow_title: Seq<char>,
    b1: Option<(nat, nat)>,
    b2: Option<(nat, nat)>,
)
    requires
        w1.to_multiset() == w2.to_multiset(),
        furthest(w1, follow_imdb, follow_title, b1),
        furthest(w2, follow_imdb, follow_title, b2),
    ensures
        b1 == b2,
{
    broadcast use vstd::seq_lib::group_to_multiset_ensures;

    if b1 is Some {
        let i = choose|i: int|
            0 <= i < w1.len() && progress_of(#[trigger] w1[i], follow_imdb, follow_title) == b1;
        assert(w1.contains(w1[i]));
        assert(w2.to_multiset().count(w1[i]) > 0);
        assert(w2.contains(w1[i]));
        let j = choose|j: int| 0 <= j < w2.len() && w2[j] == w1[i];
        assert(progress_of(w2[j], follow_imdb, follow_title) == b1);
    }
    if b2 is Some {
        let i = choose|i: int|
            0 <= i < w2.len() && progress_of(#[trigger] w2[i], follow_imdb, follow_title) == b2;
        assert(w2.contains(w2[i]));
        assert(w1.to_multiset().count(w2[i]) > 0);
        assert(w1.contains(w2[i]));
        let j = choose|j: int| 0 <= j < w1.len() && w1[j] == w2[i];
        assert(progress_of(w1[j], follow_imdb, follow_title) == b2);
    }
}

/// A baseline mark never takes the place of a completion.
pub proof fn a_seed_never_overwrites(
    before: AppState,
    after: AppState,
    imdb_id: Option<String>,
    title: Seq<char>,
    now: Timestamp,
    added: bool,
    key: Seq<char>,
)
    requires
        seeded(before, after, imdb_id, title, now, added),
        position_key(opt(imdb_id), Some(title)) == Some(key),
    ensures
        ledger_has(before.watched@, key) ==> after == before,
        ledger_has(after.watched@, key),
{
    if added {
        assert(after.watched@[0].key@ == key);
    }
}

} // verus!
