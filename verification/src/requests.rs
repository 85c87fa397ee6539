//! The smaller requests: the queue, preferences, positions, and what a receiver asks for.
use vstd::prelude::*;

use crate::search::{is_result, lacks_result, play_title, SearchResult};
use crate::state::{copy_opt, opt_ref, position_at, AppState, Preferences, QueuedItem};
use crate::text::{chars_of, dec, push_dec, starts_with};
use crate::time::Millis;
use crate::titles::{opt, position_key};
use crate::torrent_engine::validate_magnet_uri;
use crate::validation::{is_imdb_id, is_valid_imdb_id};

verus! {

// ----------------------------------------------------------------- the queue
/// A request to queue something: a result of the last search by its number, or a source with
/// what is known of it.
#[derive(Debug)]
pub struct QueueAddRequest {
    pub result_id: Option<usize>,
    pub cast_name: Option<String>,
    pub smooth: Option<bool>,
    pub magnet: Option<String>,
    pub title: Option<String>,
    pub show: Option<String>,
    pub season: Option<u32>,
    pub episode: Option<u32>,
    pub imdb_id: Option<String>,
    pub file_index: Option<u32>,
    pub poster_url: Option<String>,
    pub quality: Option<String>,
    pub size: Option<String>,
}

/// Why nothing is queued.
#[derive(Debug, Clone, Copy, PartialEq, Eq, Structural)]
pub enum QueueError {
    NoSearch,
    ResultNotFound(usize),
    InvalidMagnet,
    NothingNamed,
}

impl QueueError {
    /// What the caller is told.
    pub open spec fn text(self) -> Seq<char> {
        match self {
            QueueError::NoSearch => "No previous search results — run `spela search` first."@,
            QueueError::ResultNotFound(id) => "Result #"@ + dec(id as nat)
                + " not found in last search"@,
            QueueError::InvalidMagnet => "Invalid magnet: magnet URI must start with 'magnet:'"@,
            QueueError::NothingNamed => "Need either `result_id` or `magnet` to queue an item."@,
        }
    }

    /// Writes what the caller is told.
    pub fn message(&self) -> (r: String)
        ensures
            r@ == self.text(),
    {
        match self {
            QueueError::NoSearch =>
                "No previous search results — run `spela search` first.".to_owned(),
            QueueError::ResultNotFound(id) => {
                let mut m = "Result #".to_owned();
                push_dec(&mut m, *id as u64);
                m.append(" not found in last search");
                m
            },
            QueueError::InvalidMagnet =>
                "Invalid magnet: magnet URI must start with 'magnet:'".to_owned(),
            QueueError::NothingNamed =>
                "Need either `result_id` or `magnet` to queue an item.".to_owned(),
        }
    }
}

/// `item` is a result of a search, as the request wants it played.
pub open spec fn is_item_of_result(
    item: QueuedItem,
    req: QueueAddRequest,
    search: SearchResult,
    i: int,
) -> bool {
    let r = search.results@[i];
    &&& item == (QueuedItem {
        magnet: r.magnet,
        title: item.title,
        show: match search.show {
            Some(s) => Some(s.title),
            None => None,
        },
        season: match search.searching {
            Some(e) => Some(e.season),
            None => None,
        },
        episode: match search.searching {
            Some(e) => Some(e.episode),
            None => None,
        },
        imdb_id: match search.show {
            Some(s) => s.imdb_id,
            None => None,
        },
        file_index: r.file_index,
        cast_name: req.cast_name,
        target: None,
        poster_url: match search.show {
            Some(s) => s.poster_url,
            None => None,
        },
        quality: Some(r.quality),
        size: Some(r.size),
        smooth: req.smooth == Some(true),
    })
    &&& item.title@ == play_title(search, r)
}

/// `item` is what the request itself names.
pub open spec fn is_item_of_request(item: QueuedItem, req: QueueAddRequest) -> bool {
    &&& req.magnet is Some
    &&& starts_with(req.magnet->0@, "magnet:"@)
    &&& item == (QueuedItem {
        magnet: req.magnet->0,
        title: item.title,
        show: req.show,
        season: req.season,
        episode: req.episode,
        imdb_id: req.imdb_id,
        file_index: req.file_index,
        cast_name: req.cast_name,
        target: None,
        poster_url: req.poster_url,
        quality: req.quality,
        size: req.size,
        smooth: req.smooth == Some(true),
    })
    &&& item.title@ == match req.title {
        Some(t) => t@,
        None => "Unknown"@,
    }
}

/// `r` is what a request makes to be queued, by the last search.
pub open spec fn item_queued(
    req: QueueAddRequest,
    last: Option<SearchResult>,
    r: Result<QueuedItem, QueueError>,
) -> bool {
    match req.result_id {
        Some(id) => match last {
            Some(search) => match r {
                Ok(item) => exists|i: int| #[trigger]
                    is_result(search, id, i) && is_item_of_result(item, req, search, i),
                Err(e) => e == QueueError::ResultNotFound(id) && lacks_result(search, id),
            },
            None => r == Err::<QueuedItem, QueueError>(QueueError::NoSearch),
        },
        None => match req.magnet {
            Some(m) => match r {
                Ok(item) => is_item_of_request(item, req),
                Err(e) => e == QueueError::InvalidMagnet && !starts_with(m@, "magnet:"@),
            },
            None => r == Err::<QueuedItem, QueueError>(QueueError::NothingNamed),
        },
    }
}

/// Makes a queued item of a request. A number counts before a source.
pub fn queue_item(req: QueueAddRequest, last: Option<&SearchResult>) -> (r: Result<
    QueuedItem,
    QueueError,
>)
    ensures
        item_queued(req, opt_ref(last), r),
{
    let smooth = match req.smooth {
        Some(b) => b,
        None => false,
    };
    if let Some(id) = req.result_id {
        let search = match last {
            Some(s) => s,
            None => {
                return Err(QueueError::NoSearch);
            },
        };
        let i = match search.find(id) {
            Some(i) => i,
            None => {
                return Err(QueueError::ResultNotFound(id));
            },
        };
        let result = &search.results[i];
        let title = search.title_for(result);
        let (show, imdb_id, poster_url) = match &search.show {
            Some(s) => (Some(s.title.clone()), copy_opt(&s.imdb_id), copy_opt(&s.poster_url)),
            None => (None, None, None),
        };
        let (season, episode) = match &search.searching {
            Some(e) => (Some(e.season), Some(e.episode)),
            None => (None, None),
        };
        let item = QueuedItem {
            magnet: result.magnet.clone(),
            title,
            show,
            season,
            episode,
            imdb_id,
            file_index: result.file_index,
            cast_name: req.cast_name,
            target: None,
            poster_url,
            quality: Some(result.quality.clone()),
            size: Some(result.size.clone()),
            smooth,
        };
        assert(is_result(*search, id, i as int));
        assert(is_item_of_result(item, req, *search, i as int));
        return Ok(item);
    }
    match req.magnet {
        Some(magnet) => {
            if validate_magnet_uri(magnet.as_str()).is_err() {
                return Err(QueueError::InvalidMagnet);
            }
            let title = match req.title {
                Some(t) => t,
                None => "Unknown".to_owned(),
            };
            Ok(
                QueuedItem {
                    magnet,
                    title,
                    show: req.show,
                    season: req.season,
                    episode: req.episode,
                    imdb_id: req.imdb_id,
                    file_index: req.file_index,
                    cast_name: req.cast_name,
                    target: None,
                    poster_url: req.poster_url,
                    quality: req.quality,
                    size: req.size,
                    smooth,
                },
            )
        },
        None => Err(QueueError::NothingNamed),
    }
}

/// `after` is `before` with an item at the end of its queue, which holds `length` then.
pub open spec fn enqueued(
    before: AppState,
    after: AppState,
    item: QueuedItem,
    length: usize,
) -> bool {
    &&& after == (AppState { queue: after.queue, ..before })
    &&& after.queue@ == before.queue@.push(item)
    &&& length == after.queue@.len()
}

/// Puts an item at the end of the queue. Returns how many it holds then.
pub fn enqueue(state: &mut AppState, item: QueuedItem) -> (r: usize)
    ensures
        enqueued(*old(state), *final(state), item, r),
{
    state.queue.push(item);
    state.queue.len()
}

/// `after` is `before` with an empty queue; it held `held`.
pub open spec fn queue_emptied(before: AppState, after: AppState, held: usize) -> bool {
    &&& after == (AppState { queue: after.queue, ..before })
    &&& after.queue@.len() == 0
    &&& held == before.queue@.len()
}

/// Empties the queue. Returns how many it held.
pub fn clear_queue(state: &mut AppState) -> (r: usize)
    ensures
        queue_emptied(*old(state), *final(state), r),
{
    let n: usize = state.queue.len();
    state.queue.clear();
    n
}

/// The queue is first in, first out: what is taken next is what has been in it longest.
pub proof fn the_queue_is_first_in_first_out(q: Seq<QueuedItem>, item: QueuedItem)
    ensures
        q.len() > 0 ==> q.push(item)[0] == q[0] && q.push(item).drop_first()
            == q.drop_first().push(item),
        q.len() == 0 ==> q.push(item)[0] == item && q.push(item).drop_first().len() == 0,
{
    if q.len() > 0 {
        assert(q.push(item).drop_first() =~= q.drop_first().push(item));
    }
}

// --------------------------------------------------------------- preferences
/// How long a preference may be, in bytes.
pub const MAX_PREF_LEN: usize = 256;

/// A new value that is there and not too long, else the old one.
pub open spec fn taken(value: Option<&str>, old_value: Seq<char>) -> Seq<char> {
    match value {
        Some(v) => if v.len() <= MAX_PREF_LEN {
            v@
        } else {
            old_value
        },
        None => old_value,
    }
}

/// `after` is `before` with the preferences that are given and not too long.
pub open spec fn preferences_set(
    before: Preferences,
    after: Preferences,
    default_target: Option<&str>,
    chromecast_name: Option<&str>,
    preferred_quality: Option<&str>,
) -> bool {
    &&& after.default_target@ == taken(default_target, before.default_target@)
    &&& after.preferred_quality@ == taken(preferred_quality, before.preferred_quality@)
    &&& opt(after.chromecast_name) == match chromecast_name {
        Some(v) => if v.len() <= MAX_PREF_LEN {
            Some(v@)
        } else {
            opt(before.chromecast_name)
        },
        None => opt(before.chromecast_name),
    }
}

/// Sets the preferences that are given and not too long.
pub fn set_preferences(
    prefs: &mut Preferences,
    default_target: Option<&str>,
    chromecast_name: Option<&str>,
    preferred_quality: Option<&str>,
)
    ensures
        preferences_set(
            *old(prefs),
            *final(prefs),
            default_target,
            chromecast_name,
            preferred_quality,
        ),
{
    if let Some(v) = default_target {
        if v.len() <= MAX_PREF_LEN {
            prefs.default_target = v.to_owned();
        }
    }
    if let Some(v) = chromecast_name {
        if v.len() <= MAX_PREF_LEN {
            prefs.chromecast_name = Some(v.to_owned());
        }
    }
    if let Some(v) = preferred_quality {
        if v.len() <= MAX_PREF_LEN {
            prefs.preferred_quality = v.to_owned();
        }
    }
}

/// The name of a device is short enough to look up.
pub open spec fn is_short_name(device: &str) -> bool {
    device.len() <= MAX_PREF_LEN
}

/// Decides [`is_short_name`].
pub fn device_name_fits(device: &str) -> (r: bool)
    ensures
        r == is_short_name(device),
{
    device.len() <= MAX_PREF_LEN
}

/// What to search for, where the request says it.
pub open spec fn query_asked(q: Option<&str>) -> Option<&str> {
    match q {
        Some(t) => if t@.len() > 0 {
            Some(t)
        } else {
            None
        },
        None => None,
    }
}

/// Gives [`query_asked`].
pub fn checked_query(q: Option<&str>) -> (r: Option<&str>)
    ensures
        r == query_asked(q),
{
    match q {
        Some(t) => if t.is_empty() {
            None
        } else {
            Some(t)
        },
        None => None,
    }
}

// ----------------------------------------------------------------- positions
/// Why a position is not taken.
#[derive(Debug, Clone, Copy, PartialEq, Eq, Structural)]
pub enum PositionError {
    MissingKeys,
    InvalidImdbId,
    TitleTooLong,
    NotFinite,
}

impl PositionError {
    /// What the caller is told.
    pub open spec fn text(self) -> Seq<char> {
        match self {
            PositionError::MissingKeys => "Missing imdb_id and title"@,
            PositionError::InvalidImdbId => "Invalid imdb_id format"@,
            PositionError::TitleTooLong => "Title too long (max 256 chars)"@,
            PositionError::NotFinite => "Position must be finite"@,
        }
    }

    /// Gives what the caller is told.
    pub fn message(&self) -> (r: &'static str)
        ensures
            r@ == self.text(),
    {
        match self {
            PositionError::MissingKeys => "Missing imdb_id and title",
            PositionError::InvalidImdbId => "Invalid imdb_id format",
            PositionError::TitleTooLong => "Title too long (max 256 chars)",
            PositionError::NotFinite => "Position must be finite",
        }
    }
}

/// A position that is to be saved, where nothing is wrong with it.
pub open spec fn position_checked(
    imdb_id: Option<&str>,
    title: Option<&str>,
    t: Option<Millis>,
) -> Result<Millis, PositionError> {
    if imdb_id is None && title is None {
        Err(PositionError::MissingKeys)
    } else if imdb_id is Some && !is_imdb_id(imdb_id->0@) {
        Err(PositionError::InvalidImdbId)
    } else if title is Some && title->0.len() > 256 {
        Err(PositionError::TitleTooLong)
    } else {
        match t {
            Some(x) => Ok(x),
            None => Err(PositionError::NotFinite),
        }
    }
}

/// Checks a position that is to be saved; `t` is none where it is no finite number. The errors
/// come in this order.
pub fn check_position(imdb_id: Option<&str>, title: Option<&str>, t: Option<Millis>) -> (r: Result<
    Millis,
    PositionError,
>)
    ensures
        r == position_checked(imdb_id, title, t),
{
    if imdb_id.is_none() && title.is_none() {
        return Err(PositionError::MissingKeys);
    }
    if let Some(id) = imdb_id {
        if !is_valid_imdb_id(id) {
            return Err(PositionError::InvalidImdbId);
        }
    }
    if let Some(name) = title {
        if name.len() > 256 {
            return Err(PositionError::TitleTooLong);
        }
    }
    match t {
        Some(x) => Ok(x),
        None => Err(PositionError::NotFinite),
    }
}

/// A position that is to be forgotten must be named.
pub open spec fn reset_checked(imdb_id: Option<&str>, title: Option<&str>) -> Result<
    (),
    PositionError,
> {
    if imdb_id is None && title is None {
        Err(PositionError::MissingKeys)
    } else {
        Ok(())
    }
}

/// Checks a position that is to be forgotten.
pub fn check_reset(imdb_id: Option<&str>, title: Option<&str>) -> (r: Result<(), PositionError>)
    ensures
        r == reset_checked(imdb_id, title),
{
    if imdb_id.is_none() && title.is_none() {
        Err(PositionError::MissingKeys)
    } else {
        Ok(())
    }
}

/// How many entries of the history are shown at most.
pub const HISTORY_SHOWN: usize = 20;

/// How many entries of a history of so many, from the newest on, are shown.
pub open spec fn shown_of(held: nat) -> usize {
    if held < HISTORY_SHOWN {
        held as usize
    } else {
        HISTORY_SHOWN
    }
}

/// How many entries of the history, from the newest on, are shown.
pub fn history_shown(state: &AppState) -> (r: usize)
    ensures
        r == shown_of(state.history@.len()),
{
    let n: usize = state.history.len();
    if n < HISTORY_SHOWN {
        n
    } else {
        HISTORY_SHOWN
    }
}

/// Where a transcode that is to begin anew begins: not before 0; none where the position is no
/// finite number.
pub open spec fn restarted_at(t: Option<Millis>) -> Option<Millis> {
    match t {
        Some(x) => Some(
            if x < 0 {
                0
            } else {
                x
            },
        ),
        None => None,
    }
}

/// Gives [`restarted_at`].
pub fn restart_position(t: Option<Millis>) -> (r: Option<Millis>)
    ensures
        r == restarted_at(t),
{
    match t {
        Some(x) => Some(
            if x < 0 {
                0
            } else {
                x
            },
        ),
        None => None,
    }
}

// ------------------------------------------------------------ what is playing
/// A stream runs: its transcode and its torrent are alive.
pub open spec fn runs_on(ffmpeg_alive: bool, torrent_alive: bool) -> bool {
    ffmpeg_alive && torrent_alive
}

/// Decides [`runs_on`].
pub fn is_running(ffmpeg_alive: bool, torrent_alive: bool) -> (r: bool)
    ensures
        r == runs_on(ffmpeg_alive, torrent_alive),
{
    ffmpeg_alive && torrent_alive
}

/// The status that a caller is told.
pub open spec fn status_of(has_current: bool, running: bool) -> Seq<char> {
    if !has_current {
        "idle"@
    } else if running {
        "streaming"@
    } else {
        "process_dead"@
    }
}

/// Gives [`status_of`].
pub fn status_text(has_current: bool, running: bool) -> (r: &'static str)
    ensures
        r@ == status_of(has_current, running),
{
    if !has_current {
        "idle"
    } else if running {
        "streaming"
    } else {
        "process_dead"
    }
}

/// `after` is `before` without the stream of an earlier run; `stale` says whether there was one.
pub open spec fn stream_forgotten(before: AppState, after: AppState, stale: bool) -> bool {
    &&& stale == (before.current is Some)
    &&& after == (AppState { current: None, ..before })
}

/// Forgets the stream of an earlier run. Returns whether there was one.
pub fn reconcile_on_startup(state: &mut AppState) -> (r: bool)
    ensures
        stream_forgotten(*old(state), *final(state), r),
{
    let stale = state.current.is_some();
    state.current = None;
    stale
}

/// What a receiver asks for to set itself up.
#[derive(Debug)]
pub struct ReceiverConfig {
    pub title: String,
    pub imdb_id: String,
    pub duration: Option<Millis>,
    pub resume_position: Option<Millis>,
}

/// The position that is remembered of the current stream, by what it names of itself.
pub open spec fn current_position(state: AppState) -> Millis {
    match state.current {
        Some(c) => {
            let id = match c.imdb_id {
                Some(i) => if i@.len() > 0 {
                    Some(i@)
                } else {
                    None
                },
                None => None,
            };
            let title = if c.title@.len() > 0 {
                Some(c.title@)
            } else {
                None
            };
            match position_key(id, title) {
                Some(key) => position_at(state, key),
                None => 0,
            }
        },
        None => 0,
    }
}

/// `c` tells a receiver what plays and where it was left.
pub open spec fn tells_receiver(c: ReceiverConfig, state: AppState) -> bool {
    &&& c.title@ == match state.current {
        Some(s) => s.title@,
        None => Seq::<char>::empty(),
    }
    &&& c.imdb_id@ == match state.current {
        Some(s) => match s.imdb_id {
            Some(i) => i@,
            None => Seq::<char>::empty(),
        },
        None => Seq::<char>::empty(),
    }
    &&& c.duration == match state.current {
        Some(s) => s.duration,
        None => None,
    }
    &&& c.resume_position == if current_position(state) > 0 {
        Some(current_position(state))
    } else {
        None
    }
}

/// Tells a receiver what plays and where it was left; nothing of either where nothing plays.
pub fn receiver_config(state: &AppState) -> (r: ReceiverConfig)
    ensures
        tells_receiver(r, *state),
{
    let (title, imdb_id, duration) = match &state.current {
        Some(c) => (
            c.title.clone(),
            match &c.imdb_id {
                Some(i) => i.clone(),
                None => String::new(),
            },
            c.duration,
        ),
        None => (String::new(), String::new(), None),
    };
    let id = if imdb_id.as_str().is_empty() {
        None
    } else {
        Some(imdb_id.clone())
    };
    let name = if title.as_str().is_empty() {
        None
    } else {
        Some(title.clone())
    };
    let pos = state.get_position(id, name);
    ReceiverConfig {
        title,
        imdb_id,
        duration,
        resume_position: if pos > 0 {
            Some(pos)
        } else {
            None
        },
    }
}

/// An ASCII letter.
pub open spec fn is_ascii_letter(c: char) -> bool {
    'a' <= c <= 'z' || 'A' <= c <= 'Z'
}

/// A stream host that is a name rather than an address: it holds a letter, and is not in brackets.
pub open spec fn is_hostname(host: Seq<char>) -> bool {
    &&& exists|i: int| 0 <= i < host.len() && is_ascii_letter(#[trigger] host[i])
    &&& !(host.len() > 0 && host[0] == '[')
}

/// Decides [`is_hostname`]. Receivers cannot look such names up.
pub fn looks_like_hostname(host: &str) -> (r: bool)
    ensures
        r == is_hostname(host@),
{
    let v = chars_of(host);
    let n: usize = v.len();
    if n > 0 && v[0] == '[' {
        return false;
    }
    let mut i: usize = 0;
    while i < n
        invariant
            n == v@.len(),
            v@ == host@,
            i <= n,
            !(n > 0 && v@[0] == '['),
            forall|j: int| 0 <= j < i ==> !is_ascii_letter(#[trigger] v@[j]),
        decreases n - i,
    {
        let c = v[i];
        if ('a' <= c && c <= 'z') || ('A' <= c && c <= 'Z') {
            assert(is_ascii_letter(host@[i as int]));
            return true;
        }
        i += 1;
    }
    false
}

} // verus!
