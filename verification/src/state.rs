//! What the server remembers: the stream that is playing, the history, the queue, how far each
//! title has been watched, and what has been watched to its end.
use vstd::prelude::*;

use crate::collections::{without_oldest_but, StringMap, StringSet};
use crate::text::{ascii_lower, lowercase, same, same_ignoring_ascii_case, to_lowercase};
use crate::time::{utc_now, Millis, Timestamp};
use crate::titles::{
    clean_title, clean_title_for_tmdb, common_form, episode_of, name_in, opt, opt_str,
    parse_episode_markers, position_key, resume_position_key,
};

verus! {

/// Past this share of the duration, in percent, a title counts as watched to its end.
pub const HWM_CLEAR_PERCENT: i64 = 96;

/// Within this many seconds of the end, a title counts as watched to its end.
pub const HWM_CLEAR_TAIL_SECS: i64 = 300;

/// How many entries the history keeps.
pub const HISTORY_CAP: usize = 50;

/// How many entries the watch ledger keeps.
pub const WATCHED_CAP: usize = 500;

/// How many detections may wait for an answer.
pub const PENDING_CAP: usize = 100;

/// How many dismissed keys are remembered.
pub const DISMISSED_CAP: usize = 500;

/// A completion seen on a shared screen that awaits confirmation.
#[derive(Debug, Clone)]
pub struct PendingWatch {
    pub key: String,
    pub title: String,
    pub series: Option<String>,
    pub season: Option<u32>,
    pub episode: Option<u32>,
    pub device: String,
    pub detected_at: Timestamp,
}

/// A play request that fires when the current stream reaches its natural end.
#[derive(Debug, Clone)]
pub struct QueuedItem {
    pub magnet: String,
    pub title: String,
    pub show: Option<String>,
    pub season: Option<u32>,
    pub episode: Option<u32>,
    pub imdb_id: Option<String>,
    pub file_index: Option<u32>,
    pub cast_name: Option<String>,
    pub target: Option<String>,
    pub poster_url: Option<String>,
    pub quality: Option<String>,
    pub size: Option<String>,
    pub smooth: bool,
}

/// The stream that is playing.
#[derive(Debug, Clone)]
pub struct CurrentStream {
    pub magnet: String,
    pub title: String,
    pub show: Option<String>,
    pub season: Option<u32>,
    pub episode: Option<u32>,
    pub imdb_id: Option<String>,
    pub target: String,
    pub url: String,
    pub started_at: Timestamp,
    pub pid: u32,
    pub has_subtitles: bool,
    pub subtitle_lang: Option<String>,
    pub duration: Option<Millis>,
    pub quality: Option<String>,
    pub size: Option<String>,
    pub poster_url: Option<String>,
    /// Where in the source the transcode begins: a receiver's clock starts at 0 there, so the
    /// position in the source is the receiver's time plus this.
    pub ss_offset: Millis,
    pub smooth: bool,
    pub prepared_hls: bool,
    pub cache_key: Option<String>,
}

/// A stream that was stopped.
#[derive(Debug, Clone)]
pub struct HistoryEntry {
    pub title: String,
    pub watched_at: Timestamp,
    pub show: Option<String>,
    pub season: Option<u32>,
    pub episode: Option<u32>,
    pub imdb_id: Option<String>,
    pub target: Option<String>,
}

/// A title watched to its end.
#[derive(Debug, Clone)]
pub struct WatchedEntry {
    pub key: String,
    pub title: String,
    pub show: Option<String>,
    pub imdb_id: Option<String>,
    pub watched_at: Timestamp,
    /// A baseline mark rather than a completion that was seen.
    pub seed: bool,
}

/// A title that was begun and not finished.
#[derive(Debug)]
pub struct InProgressEntry {
    pub key: String,
    pub title: String,
    pub show: Option<String>,
    pub imdb_id: Option<String>,
    pub season: Option<u32>,
    pub episode: Option<u32>,
    pub position: Millis,
    pub duration: Option<Millis>,
    pub poster_url: Option<String>,
    pub updated_at: Timestamp,
}

/// What the user has set.
#[derive(Debug, Clone)]
pub struct Preferences {
    pub default_target: String,
    pub chromecast_name: Option<String>,
    pub preferred_quality: String,
}

/// Everything that is remembered.
pub struct AppState {
    pub current: Option<CurrentStream>,
    pub history: Vec<HistoryEntry>,
    pub preferences: Preferences,
    pub queue: Vec<QueuedItem>,
    /// The furthest position reached, by key.
    pub resume_positions: StringMap<Millis>,
    /// Files that a transcode has found to be corrupt.
    pub corrupt_files: StringSet,
    pub watched: Vec<WatchedEntry>,
    pub pending_watched: Vec<PendingWatch>,
    pub dismissed_watched: StringSet,
    pub in_progress: StringMap<InProgressEntry>,
}

/// What is borrowed, where anything is.
pub open spec fn opt_ref<T>(x: Option<&T>) -> Option<T> {
    match x {
        Some(v) => Some(*v),
        None => None,
    }
}

/// A copy of a text that may be absent.
pub fn copy_opt(s: &Option<String>) -> (r: Option<String>)
    ensures
        r == *s,
{
    match s {
        Some(t) => Some(t.clone()),
        None => None,
    }
}

/// A borrow of a text that may be absent.
pub fn borrow_opt(s: &Option<String>) -> (r: Option<&str>)
    ensures
        opt_str(r) == opt(*s),
{
    match s {
        Some(t) => Some(t.as_str()),
        None => None,
    }
}

impl Clone for InProgressEntry {
    fn clone(&self) -> (r: Self)
        ensures
            r == *self,
    {
        InProgressEntry {
            key: self.key.clone(),
            title: self.title.clone(),
            show: copy_opt(&self.show),
            imdb_id: copy_opt(&self.imdb_id),
            season: self.season,
            episode: self.episode,
            position: self.position,
            duration: self.duration,
            poster_url: copy_opt(&self.poster_url),
            updated_at: self.updated_at,
        }
    }
}

fn default_target() -> (r: String)
    ensures
        r@ == "chromecast"@,
{
    "chromecast".to_owned()
}

fn default_quality() -> (r: String)
    ensures
        r@ == "1080p"@,
{
    "1080p".to_owned()
}

impl Default for Preferences {
    fn default() -> (r: Self)
        ensures
            r.default_target@ == "chromecast"@,
            r.chromecast_name is None,
            r.preferred_quality@ == "1080p"@,
    {
        Preferences {
            default_target: default_target(),
            chromecast_name: None,
            preferred_quality: default_quality(),
        }
    }
}

impl Default for AppState {
    fn default() -> (r: Self)
        ensures
            r.current is None,
            r.history@.len() == 0,
            r.queue@.len() == 0,
            r.watched@.len() == 0,
            r.pending_watched@.len() == 0,
            r.resume_positions@ == Map::<Seq<char>, Millis>::empty(),
            r.in_progress@ == Map::<Seq<char>, InProgressEntry>::empty(),
            r.corrupt_files@ == Set::<Seq<char>>::empty(),
            r.dismissed_watched@ == Set::<Seq<char>>::empty(),
            r.preferences.default_target@ == "chromecast"@,
            r.preferences.chromecast_name is None,
            r.preferences.preferred_quality@ == "1080p"@,
    {
        AppState {
            current: None,
            history: Vec::new(),
            preferences: Preferences::default(),
            queue: Vec::new(),
            resume_positions: StringMap::new(),
            corrupt_files: StringSet::new(),
            watched: Vec::new(),
            pending_watched: Vec::new(),
            dismissed_watched: StringSet::new(),
            in_progress: StringMap::new(),
        }
    }
}

/// A sequence cut off behind its first `cap` elements.
pub open spec fn capped<T>(s: Seq<T>, cap: nat) -> Seq<T> {
    if s.len() > cap {
        s.take(cap as int)
    } else {
        s
    }
}

/// A new element in front of the others, of which the last give way past `cap`.
pub open spec fn newest_first<T>(head: T, rest: Seq<T>, cap: nat) -> Seq<T> {
    capped(seq![head] + rest, cap)
}

fn put_first<T>(v: &mut Vec<T>, head: T, cap: usize)
    requires
        cap > 0,
    ensures
        final(v)@ == newest_first(head, old(v)@, cap as nat),
{
    let ghost rest = v@;
    v.truncate(cap - 1);
    v.insert(0, head);
    assert(v@ =~= newest_first(head, rest, cap as nat));
}

/// What the history says of a stream that stopped at `now`.
pub open spec fn history_of(c: CurrentStream, now: Timestamp) -> HistoryEntry {
    HistoryEntry {
        title: c.title,
        watched_at: now,
        show: c.show,
        season: c.season,
        episode: c.episode,
        imdb_id: c.imdb_id,
        target: Some(c.target),
    }
}

/// `after` is `before` with the current stream gone into the history.
pub open spec fn stopped(before: AppState, after: AppState, now: Timestamp) -> bool {
    match before.current {
        None => after == before,
        Some(c) => {
            &&& after == (AppState { current: None, history: after.history, ..before })
            &&& after.history@ == newest_first(
                history_of(c, now),
                before.history@,
                HISTORY_CAP as nat,
            )
        },
    }
}

// ------------------------------------------------------------- watch ledger
/// A ledger without the entry of a key.
pub open spec fn without_key(w: Seq<WatchedEntry>, key: Seq<char>) -> Seq<WatchedEntry> {
    w.filter(|e: WatchedEntry| e.key@ != key)
}

/// The show that a ledger entry names.
pub open spec fn show_named(title: Seq<char>) -> Option<Seq<char>> {
    if title.len() == 0 {
        None
    } else {
        Some(name_in(title))
    }
}

/// `e` records that `title` was watched to its end at `now`, under `key`.
pub open spec fn records(
    e: WatchedEntry,
    key: Seq<char>,
    imdb_id: Option<String>,
    title: Seq<char>,
    show: Option<Seq<char>>,
    now: Timestamp,
    seed: bool,
) -> bool {
    &&& e.key@ == key
    &&& e.title@ == title
    &&& opt(e.show) == show
    &&& e.imdb_id == imdb_id
    &&& e.watched_at == now
    &&& e.seed == seed
}

/// The text, or the empty one where it is absent.
pub open spec fn or_empty(s: Option<String>) -> Seq<char> {
    match s {
        Some(t) => t@,
        None => Seq::empty(),
    }
}

/// `after` is `before` with a completion in its ledger: in front, in place of any earlier entry
/// of the key.
pub open spec fn marked_watched(
    before: AppState,
    after: AppState,
    key: Seq<char>,
    imdb_id: Option<String>,
    title: Seq<char>,
    now: Timestamp,
) -> bool {
    &&& after == (AppState { watched: after.watched, ..before })
    &&& completion_entered(before.watched@, after.watched@, key, imdb_id, title, now)
}

/// `after` is the ledger `before` with a completion in front, in place of any earlier entry of
/// the key.
pub open spec fn completion_entered(
    before: Seq<WatchedEntry>,
    after: Seq<WatchedEntry>,
    key: Seq<char>,
    imdb_id: Option<String>,
    title: Seq<char>,
    now: Timestamp,
) -> bool {
    &&& after.len() > 0
    &&& records(after[0], key, imdb_id, title, show_named(title), now, false)
    &&& after == newest_first(after[0], without_key(before, key), WATCHED_CAP as nat)
}

/// The ledger has an entry under the key.
pub open spec fn ledger_has(w: Seq<WatchedEntry>, key: Seq<char>) -> bool {
    exists|i: int| 0 <= i < w.len() && (#[trigger] w[i]).key@ == key
}

fn drop_key(w: &mut Vec<WatchedEntry>, key: &str)
    ensures
        final(w)@ == without_key(old(w)@, key@),
{
    let ghost orig = w@;
    let ghost keep = |e: WatchedEntry| e.key@ != key@;
    let ghost mut seen: int = 0;
    let mut i: usize = 0;
    proof {
        reveal(Seq::filter);
        assert(orig.take(0).filter(keep) =~= Seq::<WatchedEntry>::empty());
        assert(orig.take(0).filter(keep) + orig.skip(0) =~= orig);
    }
    while i < w.len()
        invariant
            keep == (|e: WatchedEntry| e.key@ != key@),
            0 <= seen <= orig.len(),
            i == orig.take(seen).filter(keep).len(),
            w@ == orig.take(seen).filter(keep) + orig.skip(seen),
        decreases w.len() - i,
    {
        let ghost kept = orig.take(seen).filter(keep);
        assert(w@[i as int] == orig.skip(seen)[0]);
        proof {
            assert(orig.take(seen + 1).drop_last() =~= orig.take(seen));
            assert(orig.take(seen + 1).last() == orig[seen]);
            reveal(Seq::filter);
        }
        if same(w[i].key.as_str(), key) {
            let gone = w.remove(i);
            assert(w@ =~= kept + orig.skip(seen + 1));
        } else {
            i += 1;
            assert(w@ =~= kept.push(orig[seen]) + orig.skip(seen + 1));
        }
        proof {
            seen = seen + 1;
        }
    }
    assert(seen == orig.len());
    assert(orig.take(seen) =~= orig);
    assert(w@ =~= orig.filter(keep));
}

fn find_in_ledger(w: &Vec<WatchedEntry>, key: &str) -> (r: bool)
    ensures
        r == ledger_has(w@, key@),
{
    let n: usize = w.len();
    let mut i: usize = 0;
    while i < n
        invariant
            n == w@.len(),
            i <= n,
            forall|j: int| 0 <= j < i ==> (#[trigger] w@[j]).key@ != key@,
        decreases n - i,
    {
        if same(w[i].key.as_str(), key) {
            return true;
        }
        i += 1;
    }
    false
}

impl AppState {
    /// Ends the current stream now.
    pub fn stop_current(&mut self)
        ensures
            exists|now: Timestamp| stopped(*old(self), *final(self), now),
    {
        let now = utc_now();
        self.stop_current_at(now);
        assert(stopped(*old(self), *self, now));
    }

    /// Ends the current stream: it becomes the newest entry of the history.
    pub fn stop_current_at(&mut self, now: Timestamp)
        ensures
            stopped(*old(self), *final(self), now),
    {
        if let Some(current) = self.current.take() {
            let entry = HistoryEntry {
                title: current.title,
                watched_at: now,
                show: current.show,
                season: current.season,
                episode: current.episode,
                imdb_id: current.imdb_id,
                target: Some(current.target),
            };
            put_first(&mut self.history, entry, HISTORY_CAP);
        }
    }

    /// Records now that a title was watched to its end.
    pub fn mark_watched(&mut self, key: &str, imdb_id: Option<String>, title: Option<String>)
        ensures
            exists|now: Timestamp|
                marked_watched(*old(self), *final(self), key@, imdb_id, or_empty(title), now),
    {
        let now = utc_now();
        self.mark_watched_at(key, imdb_id, title, now);
        assert(marked_watched(*old(self), *self, key@, imdb_id, or_empty(title), now));
    }

    /// Records that a title was watched to its end: the newest entry of the ledger, and the only
    /// one of its key.
    pub fn mark_watched_at(
        &mut self,
        key: &str,
        imdb_id: Option<String>,
        title: Option<String>,
        now: Timestamp,
    )
        ensures
            marked_watched(*old(self), *final(self), key@, imdb_id, or_empty(title), now),
    {
        let title = match title {
            Some(t) => t,
            None => String::new(),
        };
        let show = if title.as_str().is_empty() {
            None
        } else {
            Some(clean_title_for_tmdb(title.as_str()))
        };
        let entry = WatchedEntry {
            key: key.to_owned(),
            title,
            show,
            imdb_id,
            watched_at: now,
            seed: false,
        };
        drop_key(&mut self.watched, key);
        put_first(&mut self.watched, entry, WATCHED_CAP);
    }
}

// ---------------------------------------------------------------- positions
/// The furthest position reached under a key; 0 where there is none.
pub open spec fn position_at(s: AppState, key: Seq<char>) -> Millis {
    if s.resume_positions@.contains_key(key) {
        s.resume_positions@[key]
    } else {
        0
    }
}

/// The furthest position reached in a title; 0 where none is remembered.
pub open spec fn position_in(
    s: AppState,
    imdb_id: Option<Seq<char>>,
    title: Option<Seq<char>>,
) -> Millis {
    match position_key(imdb_id, title) {
        Some(key) => position_at(s, key),
        None => 0,
    }
}

/// A position so far into a title of known duration that it counts as watched to its end.
pub open spec fn reaches_end(t: Millis, duration: Option<Millis>) -> bool {
    match duration {
        Some(d) => d > 0 && (100 * t >= HWM_CLEAR_PERCENT * d || t >= d - HWM_CLEAR_TAIL_SECS
            * 1000),
        None => false,
    }
}

/// Decides [`reaches_end`].
pub fn is_near_end(t: Millis, duration: Option<Millis>) -> (r: bool)
    ensures
        r == reaches_end(t, duration),
{
    match duration {
        Some(d) => {
            let t: i128 = t as i128;
            let d: i128 = d as i128;
            assert(HWM_CLEAR_PERCENT as i128 * d == 96 * d) by (nonlinear_arith)
                requires
                    HWM_CLEAR_PERCENT as i128 == 96,
            ;
            d > 0 && (100 * t >= HWM_CLEAR_PERCENT as i128 * d || t >= d - HWM_CLEAR_TAIL_SECS as i128
                * 1000)
        },
        None => false,
    }
}

/// `after` is `before` without what was remembered of the position under a key.
pub open spec fn position_reset(before: AppState, after: AppState, key: Option<Seq<char>>) -> bool {
    match key {
        None => after == before,
        Some(k) => {
            &&& after == (AppState {
                resume_positions: after.resume_positions,
                in_progress: after.in_progress,
                ..before
            })
            &&& after.resume_positions@ == before.resume_positions@.remove(k)
            &&& after.in_progress@ == before.in_progress@.remove(k)
        },
    }
}

/// `e` says that a title was left at `t`, with what the current stream tells of it.
pub open spec fn tells_progress(
    e: InProgressEntry,
    key: Seq<char>,
    imdb_id: Option<String>,
    title: Option<String>,
    current: Option<CurrentStream>,
    t: Millis,
    duration: Option<Millis>,
    now: Timestamp,
) -> bool {
    &&& e.key@ == key
    &&& e.title@ == or_empty(title)
    &&& e.imdb_id == imdb_id
    &&& e.position == t
    &&& e.duration == duration
    &&& e.updated_at == now
    &&& match current {
        Some(c) => e.show == c.show && e.season == c.season && e.episode == c.episode
            && e.poster_url == c.poster_url,
        None => e.show is None && e.season is None && e.episode is None && e.poster_url is None,
    }
}

/// `after` is `before` with the position under `key` moved on to `t`.
pub open spec fn position_advanced(
    before: AppState,
    after: AppState,
    key: Seq<char>,
    imdb_id: Option<String>,
    title: Option<String>,
    t: Millis,
    duration: Option<Millis>,
    now: Timestamp,
) -> bool {
    &&& after == (AppState {
        resume_positions: after.resume_positions,
        in_progress: after.in_progress,
        ..before
    })
    &&& after.resume_positions@ == before.resume_positions@.insert(key, t)
    &&& after.in_progress@ == before.in_progress@.insert(key, after.in_progress@[key])
    &&& tells_progress(
        after.in_progress@[key],
        key,
        imdb_id,
        title,
        before.current,
        t,
        duration,
        now,
    )
}

/// `after` is `before` with a title of `key` finished: in the ledger, and without a position.
pub open spec fn finished(
    before: AppState,
    after: AppState,
    key: Seq<char>,
    imdb_id: Option<String>,
    title: Seq<char>,
    now: Timestamp,
) -> bool {
    &&& after == (AppState {
        watched: after.watched,
        resume_positions: after.resume_positions,
        in_progress: after.in_progress,
        ..before
    })
    &&& completion_entered(before.watched@, after.watched@, key, imdb_id, title, now)
    &&& after.resume_positions@ == before.resume_positions@.remove(key)
    &&& after.in_progress@ == before.in_progress@.remove(key)
}

/// What saving a position does: nothing without a key; a completion where the position reaches
/// the end; an advance where it is further than before; else nothing. `changed` says which.
pub open spec fn position_saved(
    before: AppState,
    after: AppState,
    imdb_id: Option<String>,
    title: Option<String>,
    t: Millis,
    duration: Option<Millis>,
    now: Timestamp,
    changed: bool,
) -> bool {
    match position_key(opt(imdb_id), opt(title)) {
        None => after == before && !changed,
        Some(key) => if reaches_end(t, duration) {
            changed && finished(before, after, key, imdb_id, or_empty(title), now)
        } else if t > position_at(before, key) {
            changed && position_advanced(before, after, key, imdb_id, title, t, duration, now)
        } else {
            after == before && !changed
        },
    }
}

/// What a function that files something under a key returns for it.
pub open spec fn key_or_unknown(key: Option<Seq<char>>) -> Seq<char> {
    match key {
        Some(k) => k,
        None => "unknown"@,
    }
}

impl AppState {
    /// Saves now how far a title has been watched.
    pub fn save_position_smart(
        &mut self,
        imdb_id: Option<String>,
        title: Option<String>,
        t: Millis,
        duration: Option<Millis>,
    ) -> (r: (String, bool))
        ensures
            r.0@ == key_or_unknown(position_key(opt(imdb_id), opt(title))),
            exists|now: Timestamp|
                position_saved(*old(self), *final(self), imdb_id, title, t, duration, now, r.1),
    {
        let now = utc_now();
        let r = self.save_position_at(imdb_id, title, t, duration, now);
        assert(position_saved(*old(self), *self, imdb_id, title, t, duration, now, r.1));
        r
    }

    /// Saves how far a title has been watched. The furthest position counts, and one that
    /// reaches the end is no position but a completion. Returns the key, and whether anything
    /// changed.
    pub fn save_position_at(
        &mut self,
        imdb_id: Option<String>,
        title: Option<String>,
        t: Millis,
        duration: Option<Millis>,
        now: Timestamp,
    ) -> (r: (String, bool))
        ensures
            r.0@ == key_or_unknown(position_key(opt(imdb_id), opt(title))),
            position_saved(*old(self), *final(self), imdb_id, title, t, duration, now, r.1),
    {
        let key = match resume_position_key(borrow_opt(&imdb_id), borrow_opt(&title)) {
            Some(k) => k,
            None => {
                return ("unknown".to_owned(), false);
            },
        };
        if is_near_end(t, duration) {
            let id = copy_opt(&imdb_id);
            let name = copy_opt(&title);
            self.mark_watched_at(key.as_str(), id, name, now);
            let again = self.reset_position(imdb_id, title);
            return (key, true);
        }
        let reached: Millis = match self.resume_positions.get(key.as_str()) {
            Some(p) => *p,
            None => 0,
        };
        if t > reached {
            let (show, season, episode, poster_url) = match &self.current {
                Some(c) => (copy_opt(&c.show), c.season, c.episode, copy_opt(&c.poster_url)),
                None => (None, None, None, None),
            };
            self.resume_positions.insert(key.clone(), t);
            let entry = InProgressEntry {
                key: key.clone(),
                title: match title {
                    Some(t) => t,
                    None => String::new(),
                },
                show,
                imdb_id,
                season,
                episode,
                position: t,
                duration,
                poster_url,
                updated_at: now,
            };
            self.in_progress.insert(key.clone(), entry);
            (key, true)
        } else {
            (key, false)
        }
    }

    /// The furthest position reached in a title; 0 where none is remembered.
    pub fn get_position(&self, imdb_id: Option<String>, title: Option<String>) -> (r: Millis)
        ensures
            r == position_in(*self, opt(imdb_id), opt(title)),
    {
        match resume_position_key(borrow_opt(&imdb_id), borrow_opt(&title)) {
            Some(key) => match self.resume_positions.get(key.as_str()) {
                Some(p) => *p,
                None => 0,
            },
            None => 0,
        }
    }

    /// Forgets the position in a title. Returns its key.
    pub fn reset_position(&mut self, imdb_id: Option<String>, title: Option<String>) -> (r: String)
        ensures
            r@ == key_or_unknown(position_key(opt(imdb_id), opt(title))),
            position_reset(*old(self), *final(self), position_key(opt(imdb_id), opt(title))),
    {
        match resume_position_key(borrow_opt(&imdb_id), borrow_opt(&title)) {
            Some(key) => {
                self.resume_positions.remove(key.as_str());
                self.in_progress.remove(key.as_str());
                key
            },
            None => "unknown".to_owned(),
        }
    }
}

// -------------------------------------------------------- asking the ledger
/// A ledger entry speaks of a title: by its id, by its show, or by the name in its title, the
/// names in lower case.
pub open spec fn entry_matches(
    w: WatchedEntry,
    imdb_id: Option<Seq<char>>,
    title: Seq<char>,
) -> bool {
    let clean = lowercase(name_in(title));
    ||| (imdb_id is Some && opt(w.imdb_id) == imdb_id)
    ||| (w.show matches Some(show) && lowercase(show@) == clean)
    ||| lowercase(name_in(w.title@)) == clean
}

/// Some entry of the ledger speaks of the title.
pub open spec fn seen_in(
    w: Seq<WatchedEntry>,
    imdb_id: Option<Seq<char>>,
    title: Seq<char>,
) -> bool {
    exists|i: int| 0 <= i < w.len() && entry_matches(#[trigger] w[i], imdb_id, title)
}

/// A text that is there and not empty.
pub open spec fn present(s: Option<Seq<char>>) -> Option<Seq<char>> {
    match s {
        Some(t) => if t.len() > 0 {
            Some(t)
        } else {
            None
        },
        None => None,
    }
}

/// A ledger entry counts for a followed show: by id where both sides have one, else by the
/// common form of its name.
pub open spec fn counts_for(
    w: WatchedEntry,
    follow_imdb: Option<Seq<char>>,
    follow_title: Seq<char>,
) -> bool {
    match (present(follow_imdb), present(opt(w.imdb_id))) {
        (Some(a), Some(b)) => ascii_lower(a) == ascii_lower(b),
        _ => {
            let name = match w.show {
                Some(show) => show@,
                None => name_in(w.title@),
            };
            common_form(name) == common_form(follow_title)
        },
    }
}

/// The episode that a ledger entry contributes to a followed show.
pub open spec fn progress_of(
    w: WatchedEntry,
    follow_imdb: Option<Seq<char>>,
    follow_title: Seq<char>,
) -> Option<(nat, nat)> {
    if counts_for(w, follow_imdb, follow_title) {
        episode_of(ascii_lower(w.title@))
    } else {
        None
    }
}

/// Episode `a` does not come after episode `b`.
pub open spec fn not_after(a: (nat, nat), b: (nat, nat)) -> bool {
    a.0 < b.0 || (a.0 == b.0 && a.1 <= b.1)
}

/// `best` is the furthest episode that any entry contributes; none where no entry does.
pub open spec fn furthest(
    w: Seq<WatchedEntry>,
    follow_imdb: Option<Seq<char>>,
    follow_title: Seq<char>,
    best: Option<(nat, nat)>,
) -> bool {
    &&& forall|i: int|
        0 <= i < w.len() ==> match progress_of(#[trigger] w[i], follow_imdb, follow_title) {
            Some(p) => best is Some && not_after(p, best->0),
            None => true,
        }
    &&& best is Some ==> exists|i: int|
        0 <= i < w.len() && progress_of(#[trigger] w[i], follow_imdb, follow_title) == best
}

fn speaks_of(w: &WatchedEntry, imdb_id: Option<&str>, clean: &str) -> (r: bool)
    ensures
        r == ((imdb_id is Some && opt(w.imdb_id) == opt_str(imdb_id)) || (w.show matches Some(show)
            && lowercase(show@) == clean@) || lowercase(name_in(w.title@)) == clean@),
{
    if let Some(id) = imdb_id {
        if let Some(other) = &w.imdb_id {
            if same(other.as_str(), id) {
                return true;
            }
        }
    }
    if let Some(show) = &w.show {
        let lower = to_lowercase(show.as_str());
        if same(lower.as_str(), clean) {
            return true;
        }
    }
    let lower = to_lowercase(clean_title_for_tmdb(w.title.as_str()).as_str());
    same(lower.as_str(), clean)
}

fn counts(w: &WatchedEntry, follow_imdb: Option<&str>, want: &str, follow_title: Ghost<Seq<char>>) -> (r:
    bool)
    requires
        want@ == common_form(follow_title@),
    ensures
        r == counts_for(*w, opt_str(follow_imdb), follow_title@),
{
    if let Some(a) = follow_imdb {
        if let Some(b) = &w.imdb_id {
            if !a.is_empty() && !b.as_str().is_empty() {
                return same_ignoring_ascii_case(a, b.as_str());
            }
        }
    }
    let name = match &w.show {
        Some(show) => show.clone(),
        None => clean_title_for_tmdb(w.title.as_str()),
    };
    same(clean_title(name.as_str()).as_str(), want)
}

// -------------------------------------------------------------- in progress
/// The values of a map's items.
pub open spec fn values_of<V>(items: Seq<(Seq<char>, V)>) -> Seq<V> {
    items.map_values(|e: (Seq<char>, V)| e.1)
}

/// No entry was updated before one that stands behind it.
pub open spec fn latest_first(v: Seq<InProgressEntry>) -> bool {
    forall|i: int, j: int|
        0 <= i < j < v.len() ==> !(#[trigger] v[i]).updated_at.earlier((#[trigger] v[j]).updated_at)
}

/// A list of all that is in progress, the one advanced last in front.
pub open spec fn lists_progress(
    list: Seq<InProgressEntry>,
    items: Seq<(Seq<char>, InProgressEntry)>,
) -> bool {
    &&& latest_first(list)
    &&& list.to_multiset() == values_of(items).to_multiset()
}

proof fn lemma_insert_multiset<T>(s: Seq<T>, i: int, x: T)
    requires
        0 <= i <= s.len(),
    ensures
        s.insert(i, x).to_multiset() == s.to_multiset().insert(x),
{
    let t = s.insert(i, x);
    broadcast use vstd::seq_lib::group_to_multiset_ensures;

    assert(t.remove(i) =~= s);
    assert(t[i] == x);
    assert(t.contains(x));
    assert(t.to_multiset() =~= t.to_multiset().remove(x).insert(x));
}

fn insert_latest_first(v: &mut Vec<InProgressEntry>, e: InProgressEntry)
    requires
        latest_first(old(v)@),
    ensures
        latest_first(final(v)@),
        final(v)@.to_multiset() == old(v)@.to_multiset().insert(e),
        final(v)@.len() == old(v)@.len() + 1,
{
    let n: usize = v.len();
    let mut i: usize = 0;
    while i < n && !v[i].updated_at.is_earlier(&e.updated_at)
        invariant
            n == v@.len(),
            i <= n,
            v@ == old(v)@,
            forall|j: int| 0 <= j < i ==> !(#[trigger] v@[j]).updated_at.earlier(e.updated_at),
        decreases n - i,
    {
        i += 1;
    }
    proof {
        lemma_insert_multiset(v@, i as int, e);
    }
    v.insert(i, e);
    assert(latest_first(v@)) by {
        let w = old(v)@;
        assert forall|a: int, b: int| 0 <= a < b < v@.len() implies !(
        #[trigger] v@[a]).updated_at.earlier((#[trigger] v@[b]).updated_at) by {
            let x = if a < i { a } else { a - 1 };
            let y = if b < i { b } else { b - 1 };
            if a != i && b != i {
                assert(v@[a] == w[x] && v@[b] == w[y]);
            } else if b == i {
                assert(v@[a] == w[a]);
            } else {
                assert(v@[b] == w[y]);
                assert(w[i as int].updated_at.earlier(e.updated_at));
                if y > i {
                    assert(!w[i as int].updated_at.earlier(w[y].updated_at));
                }
            }
        }
    }
}

// ------------------------------------------------------------------ pending
/// A detection waits under the key.
pub open spec fn pending_has(p: Seq<PendingWatch>, key: Seq<char>) -> bool {
    exists|i: int| 0 <= i < p.len() && (#[trigger] p[i]).key@ == key
}

/// A detection under the key would be news: it is not in the ledger, was not dismissed, and
/// does not wait already.
pub open spec fn is_news(s: AppState, key: Seq<char>) -> bool {
    &&& !ledger_has(s.watched@, key)
    &&& !s.dismissed_watched@.contains(key)
    &&& !pending_has(s.pending_watched@, key)
}

/// `after` is `before` with a detection in front of those that wait.
pub open spec fn staged(
    before: AppState,
    after: AppState,
    key: Seq<char>,
    title: String,
    series: Option<String>,
    season: Option<u32>,
    episode: Option<u32>,
    device: String,
    now: Timestamp,
) -> bool {
    &&& after == (AppState { pending_watched: after.pending_watched, ..before })
    &&& after.pending_watched@.len() > 0
    &&& after.pending_watched@[0].key@ == key
    &&& after.pending_watched@[0] == (PendingWatch {
        key: after.pending_watched@[0].key,
        title,
        series,
        season,
        episode,
        device,
        detected_at: now,
    })
    &&& after.pending_watched@ == newest_first(
        after.pending_watched@[0],
        before.pending_watched@,
        PENDING_CAP as nat,
    )
}

/// What staging a detection does: it is staged where it is news, else nothing.
pub open spec fn detection_handled(
    before: AppState,
    after: AppState,
    title: String,
    series: Option<String>,
    season: Option<u32>,
    episode: Option<u32>,
    device: String,
    now: Timestamp,
    added: bool,
) -> bool {
    match position_key(None, Some(title@)) {
        Some(key) => if is_news(before, key) {
            added && staged(before, after, key, title, series, season, episode, device, now)
        } else {
            !added && after == before
        },
        None => !added && after == before,
    }
}

/// The first place at which a detection waits under the key, or their number.
pub open spec fn pending_place(p: Seq<PendingWatch>, key: Seq<char>) -> int
    decreases p.len(),
{
    if p.len() == 0 || p[0].key@ == key {
        0
    } else {
        1 + pending_place(p.drop_first(), key)
    }
}

/// [`pending_place`] is where the key first waits.
pub proof fn lemma_pending_place(p: Seq<PendingWatch>, key: Seq<char>)
    ensures
        0 <= pending_place(p, key) <= p.len(),
        pending_place(p, key) < p.len() <==> pending_has(p, key),
        pending_place(p, key) < p.len() ==> p[pending_place(p, key)].key@ == key,
        forall|j: int| 0 <= j < pending_place(p, key) ==> (#[trigger] p[j]).key@ != key,
    decreases p.len(),
{
    if p.len() > 0 && p[0].key@ != key {
        let t = p.drop_first();
        lemma_pending_place(t, key);
        assert forall|j: int| 0 <= j < pending_place(p, key) implies (#[trigger] p[j]).key@
            != key by {
            if j > 0 {
                assert(t[j - 1] == p[j]);
            }
        }
        if pending_has(p, key) {
            let i = choose|i: int| 0 <= i < p.len() && (#[trigger] p[i]).key@ == key;
            assert(t[i - 1] == p[i]);
        }
    }
}

fn find_pending(p: &Vec<PendingWatch>, key: &str) -> (r: usize)
    ensures
        r == pending_place(p@, key@),
        r < p@.len() <==> pending_has(p@, key@),
        r <= p@.len(),
{
    let n: usize = p.len();
    let mut i: usize = 0;
    while i < n && !same(p[i].key.as_str(), key)
        invariant
            n == p@.len(),
            i <= n,
            forall|j: int| 0 <= j < i ==> (#[trigger] p@[j]).key@ != key@,
        decreases n - i,
    {
        i += 1;
    }
    proof {
        lemma_pending_place(p@, key@);
    }
    i
}

/// The dismissed keys with one more; past the cap the one that has been there longest goes, but
/// not the one that has just been dismissed.
pub open spec fn dismissed_with(items: Seq<Seq<char>>, key: Seq<char>) -> Seq<Seq<char>> {
    let more = if items.contains(key) {
        items
    } else {
        items.push(key)
    };
    if more.len() > DISMISSED_CAP {
        without_oldest_but(more, key)
    } else {
        more
    }
}

/// What answering a detection does: nothing where none waits under the key; else it waits no
/// more, and goes into the ledger or among the dismissed.
pub open spec fn pending_resolved(
    before: AppState,
    after: AppState,
    key: Seq<char>,
    watched: bool,
    now: Timestamp,
    found: bool,
) -> bool {
    let p = before.pending_watched@;
    let i = pending_place(p, key);
    if !pending_has(p, key) {
        !found && after == before
    } else {
        &&& found
        &&& after.pending_watched@ == p.remove(i)
        &&& if watched {
            &&& after == (AppState {
                pending_watched: after.pending_watched,
                watched: after.watched,
                ..before
            })
            &&& completion_entered(before.watched@, after.watched@, key, None, p[i].title@, now)
        } else {
            &&& after == (AppState {
                pending_watched: after.pending_watched,
                dismissed_watched: after.dismissed_watched,
                ..before
            })
            &&& after.dismissed_watched.items() == dismissed_with(
                before.dismissed_watched.items(),
                key,
            )
        }
    }
}

/// What marking by id and name does: nothing where they make up no key, else a completion under
/// it.
pub open spec fn auto_marked(
    before: AppState,
    after: AppState,
    imdb_id: Option<String>,
    title: Seq<char>,
    now: Timestamp,
    done: bool,
) -> bool {
    match position_key(opt(imdb_id), Some(title)) {
        Some(key) => done && marked_watched(before, after, key, imdb_id, title, now),
        None => !done && after == before,
    }
}

/// What a baseline mark does: nothing without a key or where the ledger has the key; else it is
/// entered in front.
pub open spec fn seeded(
    before: AppState,
    after: AppState,
    imdb_id: Option<String>,
    title: Seq<char>,
    now: Timestamp,
    added: bool,
) -> bool {
    match position_key(opt(imdb_id), Some(title)) {
        Some(key) => if ledger_has(before.watched@, key) {
            !added && after == before
        } else {
            &&& added
            &&& after == (AppState { watched: after.watched, ..before })
            &&& after.watched@.len() > 0
            &&& records(after.watched@[0], key, imdb_id, title, Some(name_in(title)), now, true)
            &&& after.watched@ == newest_first(
                after.watched@[0],
                before.watched@,
                WATCHED_CAP as nat,
            )
        },
        None => !added && after == before,
    }
}

impl AppState {
    /// Records now that a title was watched, under the key that its id and name make up.
    pub fn mark_watched_auto(&mut self, imdb_id: Option<String>, title: String) -> (r: bool)
        ensures
            exists|now: Timestamp| auto_marked(*old(self), *final(self), imdb_id, title@, now, r),
    {
        let now = utc_now();
        let r = self.mark_watched_auto_at(imdb_id, title, now);
        assert(auto_marked(*old(self), *self, imdb_id, title@, now, r));
        r
    }

    /// Records that a title was watched, under the key that its id and name make up. False where
    /// they make up none.
    pub fn mark_watched_auto_at(
        &mut self,
        imdb_id: Option<String>,
        title: String,
        now: Timestamp,
    ) -> (r: bool)
        ensures
            auto_marked(*old(self), *final(self), imdb_id, title@, now, r),
    {
        match resume_position_key(borrow_opt(&imdb_id), Some(title.as_str())) {
            Some(key) => {
                self.mark_watched_at(key.as_str(), imdb_id, Some(title), now);
                true
            },
            None => false,
        }
    }

    /// Whether the ledger speaks of a title.
    pub fn has_seen(&self, imdb_id: Option<&str>, title: &str) -> (r: bool)
        ensures
            r == seen_in(self.watched@, opt_str(imdb_id), title@),
    {
        let clean = to_lowercase(clean_title_for_tmdb(title).as_str());
        let n: usize = self.watched.len();
        let mut i: usize = 0;
        while i < n
            invariant
                n == self.watched@.len(),
                i <= n,
                clean@ == lowercase(name_in(title@)),
                forall|j: int|
                    0 <= j < i ==> !entry_matches(
                        #[trigger] self.watched@[j],
                        opt_str(imdb_id),
                        title@,
                    ),
            decreases n - i,
        {
            if speaks_of(&self.watched[i], imdb_id, clean.as_str()) {
                assert(entry_matches(self.watched@[i as int], opt_str(imdb_id), title@));
                return true;
            }
            i += 1;
        }
        false
    }

    /// The titles in progress, the one advanced last in front.
    pub fn in_progress_list(&self) -> (r: Vec<InProgressEntry>)
        ensures
            lists_progress(r@, self.in_progress.items()),
    {
        let mut v: Vec<InProgressEntry> = Vec::new();
        let n: usize = self.in_progress.len();
        let mut i: usize = 0;
        let ghost all = values_of(self.in_progress.items());
        assert(all.take(0) =~= Seq::<InProgressEntry>::empty());
        while i < n
            invariant
                n == self.in_progress.items().len(),
                all == values_of(self.in_progress.items()),
                i <= n,
                latest_first(v@),
                v@.to_multiset() == all.take(i as int).to_multiset(),
            decreases n - i,
        {
            let (key, e) = self.in_progress.item(i);
            let copy = e.clone();
            assert(copy == all[i as int]);
            insert_latest_first(&mut v, copy);
            proof {
                broadcast use vstd::seq_lib::group_to_multiset_ensures;

                assert(all.take(i + 1) =~= all.take(i as int).push(copy));
            }
            i += 1;
        }
        assert(all.take(n as int) =~= all);
        v
    }

    /// Enters a baseline mark now.
    pub fn mark_watched_seed(&mut self, imdb_id: Option<String>, title: String) -> (r: bool)
        ensures
            exists|now: Timestamp| seeded(*old(self), *final(self), imdb_id, title@, now, r),
    {
        let now = utc_now();
        let r = self.mark_watched_seed_at(imdb_id, title, now);
        assert(seeded(*old(self), *self, imdb_id, title@, now, r));
        r
    }

    /// Enters a baseline mark, unless the ledger has an entry under its key.
    pub fn mark_watched_seed_at(
        &mut self,
        imdb_id: Option<String>,
        title: String,
        now: Timestamp,
    ) -> (r: bool)
        ensures
            seeded(*old(self), *final(self), imdb_id, title@, now, r),
    {
        match resume_position_key(borrow_opt(&imdb_id), Some(title.as_str())) {
            Some(key) => {
                if find_in_ledger(&self.watched, key.as_str()) {
                    return false;
                }
                let show = Some(clean_title_for_tmdb(title.as_str()));
                let entry = WatchedEntry { key, title, show, imdb_id, watched_at: now, seed: true };
                put_first(&mut self.watched, entry, WATCHED_CAP);
                true
            },
            None => false,
        }
    }

    /// How far a followed show has been watched: the furthest episode in the ledger that counts
    /// for it.
    pub fn derive_watched_through(&self, follow_imdb: Option<&str>, follow_title: &str) -> (r:
        Option<(u32, u32)>)
        ensures
            furthest(
                self.watched@,
                opt_str(follow_imdb),
                follow_title@,
                match r {
                    Some((s, e)) => Some((s as nat, e as nat)),
                    None => None,
                },
            ),
    {
        let want = clean_title(follow_title);
        let ghost fi = opt_str(follow_imdb);
        let n: usize = self.watched.len();
        let mut best: Option<(u32, u32)> = None;
        let mut i: usize = 0;
        while i < n
            invariant
                n == self.watched@.len(),
                i <= n,
                fi == opt_str(follow_imdb),
                want@ == common_form(follow_title@),
                best matches Some(b) ==> exists|j: int|
                    0 <= j < i && progress_of(#[trigger] self.watched@[j], fi, follow_title@)
                        == Some((b.0 as nat, b.1 as nat)),
                forall|j: int|
                    0 <= j < i ==> match progress_of(
                        #[trigger] self.watched@[j],
                        fi,
                        follow_title@,
                    ) {
                        Some(p) => best is Some && not_after(
                            p,
                            ((best->0).0 as nat, (best->0).1 as nat),
                        ),
                        None => true,
                    },
            decreases n - i,
        {
            let ghost earlier = best;
            let w = &self.watched[i];
            if counts(w, follow_imdb, want.as_str(), Ghost(follow_title@)) {
                let (name, season, episode) = parse_episode_markers(w.title.as_str());
                if let (Some(s), Some(e)) = (season, episode) {
                    assert(progress_of(self.watched@[i as int], fi, follow_title@) == Some(
                        (s as nat, e as nat),
                    ));
                    best = match best {
                        Some(b) => if s < b.0 || (s == b.0 && e <= b.1) {
                            Some(b)
                        } else {
                            Some((s, e))
                        },
                        None => Some((s, e)),
                    };
                }
            }
            i += 1;
        }
        best
    }

    /// Stages a detection now.
    pub fn stage_pending_watch(
        &mut self,
        title: String,
        series: Option<String>,
        season: Option<u32>,
        episode: Option<u32>,
        device: String,
    ) -> (r: bool)
        ensures
            exists|now: Timestamp|
                detection_handled(
                    *old(self),
                    *final(self),
                    title,
                    series,
                    season,
                    episode,
                    device,
                    now,
                    r,
                ),
    {
        let now = utc_now();
        let r = self.stage_pending_watch_at(title, series, season, episode, device, now);
        assert(detection_handled(
            *old(self),
            *self,
            title,
            series,
            season,
            episode,
            device,
            now,
            r,
        ));
        r
    }

    /// Stages a completion seen on a shared screen, where it is news. Returns whether it was.
    pub fn stage_pending_watch_at(
        &mut self,
        title: String,
        series: Option<String>,
        season: Option<u32>,
        episode: Option<u32>,
        device: String,
        now: Timestamp,
    ) -> (r: bool)
        ensures
            detection_handled(
                *old(self),
                *final(self),
                title,
                series,
                season,
                episode,
                device,
                now,
                r,
            ),
    {
        match resume_position_key(None, Some(title.as_str())) {
            Some(key) => {
                let waiting = find_pending(&self.pending_watched, key.as_str());
                if find_in_ledger(&self.watched, key.as_str()) || self.dismissed_watched.contains(
                    key.as_str(),
                ) || waiting < self.pending_watched.len() {
                    return false;
                }
                let entry = PendingWatch {
                    key,
                    title,
                    series,
                    season,
                    episode,
                    device,
                    detected_at: now,
                };
                put_first(&mut self.pending_watched, entry, PENDING_CAP);
                true
            },
            None => false,
        }
    }

    /// Answers a detection now.
    pub fn resolve_pending(&mut self, key: &str, watched: bool) -> (r: bool)
        ensures
            exists|now: Timestamp|
                pending_resolved(*old(self), *final(self), key@, watched, now, r),
    {
        let now = utc_now();
        let r = self.resolve_pending_at(key, watched, now);
        assert(pending_resolved(*old(self), *self, key@, watched, now, r));
        r
    }

    /// Answers a detection: it was the user's and goes into the ledger, or it was not and is
    /// dismissed. Returns whether one waited under the key.
    pub fn resolve_pending_at(&mut self, key: &str, watched: bool, now: Timestamp) -> (r: bool)
        ensures
            pending_resolved(*old(self), *final(self), key@, watched, now, r),
    {
        let i = find_pending(&self.pending_watched, key);
        if i >= self.pending_watched.len() {
            return false;
        }
        proof {
            lemma_pending_place(self.pending_watched@, key@);
        }
        let item = self.pending_watched.remove(i);
        if watched {
            self.mark_watched_at(item.key.as_str(), None, Some(item.title), now);
        } else {
            self.dismissed_watched.insert(item.key);
            if self.dismissed_watched.len() > DISMISSED_CAP {
                self.dismissed_watched.drop_oldest_but(key);
            }
        }
        true
    }
}

} // verus!
