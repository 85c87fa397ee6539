//! From a request to play something to a stream that plays: what is asked for, where it goes,
//! from which position, in which form, and what is remembered of it.
use vstd::prelude::*;

use crate::cast_health::CastMetadata;
use crate::hls_cache::{build_cache_key, cache_key};
use crate::search::{
    episode_title, episode_title_text, is_result, lacks_result, play_title, SearchResult,
    TorrentResult,
};
use crate::state::{
    borrow_opt, copy_opt, opt_ref, position_at, position_reset, position_saved, reaches_end,
    AppState, CurrentStream, Preferences,
};
use crate::text::{
    chars_of, contains, dec, ends, ends_with, find_char, index_of, mentions, padded, push_dec,
    push_padded, same, slice_copy, starts_with, string_of, tail,
};
use crate::time::{add_millis, clamped, Millis, Timestamp};
use crate::titles::{opt, position_key};
use crate::torrent_engine::validate_magnet_uri;
use crate::transcode::{
    audio_needs_transcode, is_heavy_audio, is_heavy_video, video_needs_transcode, CodecInfo,
};
use crate::validation::{is_poster_url, is_valid_poster_url};

verus! {

// ------------------------------------------------------------------ requests
/// A request to play something.
#[derive(Debug)]
pub struct PlayRequest {
    pub magnet: Option<String>,
    pub result_id: Option<usize>,
    pub target: Option<String>,
    pub cast_name: Option<String>,
    pub title: Option<String>,
    pub file_index: Option<u32>,
    pub no_subs: Option<bool>,
    pub no_intro: Option<bool>,
    pub smooth: Option<bool>,
    pub subtitle_lang: Option<String>,
    pub imdb_id: Option<String>,
    pub show: Option<String>,
    pub season: Option<u32>,
    pub episode: Option<u32>,
    pub seek_to: Option<Millis>,
    pub duration: Option<Millis>,
    pub quality: Option<String>,
    pub size: Option<String>,
    pub poster_url: Option<String>,
}

/// Why nothing plays.
#[derive(Debug)]
pub enum PlayError {
    /// There is no search to take the result from.
    NoSearch,
    /// The last search, of so many results, has none of this number.
    ResultNotFound(usize, usize),
    MissingMagnet,
    InvalidMagnet,
    /// Nobody serves the source.
    NoSeeds,
    /// The download that was to come first failed.
    SmoothGate(String),
    /// The download that came first left no healthy file.
    SmoothNoFile,
    /// The transcode that was to be complete first failed.
    CompletionGate(String),
    /// The transcode gave nothing in so many seconds.
    FailFast(u64),
    /// The transcode could not be prepared, and the target takes nothing else.
    HlsRequired(String),
    CastFailed(String),
    CastTaskFailed(String),
    /// Something outside said so.
    Other(String),
}

impl PlayError {
    /// What the caller is told.
    pub open spec fn text(self) -> Seq<char> {
        match self {
            PlayError::NoSearch => "No previous search results. Run 'spela search' first."@,
            PlayError::ResultNotFound(id, have) => "Result #"@ + dec(id as nat)
                + " not found in last search (have "@ + dec(have as nat) + ")"@,
            PlayError::MissingMagnet =>
                "Missing magnet. Use 'spela play <N>' with a result number, or pass a magnet link."@,
            PlayError::InvalidMagnet => "Invalid magnet: magnet URI must start with 'magnet:'"@,
            PlayError::NoSeeds => "Torrent has no active seeds (0% after 12s)"@,
            PlayError::SmoothGate(e) => "Smooth mode download-first gate failed: "@ + e@,
            PlayError::SmoothNoFile =>
                "Smooth mode finished downloading but could not locate a healthy local source file"@,
            PlayError::CompletionGate(e) =>
                "Chromecast local-HLS completion gate failed before cast: "@ + e@,
            PlayError::FailFast(secs) =>
                "Stream-start fail-fast: ffmpeg produced no HLS segments in "@ + dec(secs as nat)
                + "s (likely starved swarm or bad source)."@,
            PlayError::HlsRequired(e) =>
                "Chromecast playback requires HLS delivery; refusing raw fallback after HLS preparation failed: "@
                + e@,
            PlayError::CastFailed(e) => "Cast failed: "@ + e@,
            PlayError::CastTaskFailed(e) => "Cast task failed: "@ + e@,
            PlayError::Other(e) => e@,
        }
    }

    /// Writes what the caller is told.
    pub fn message(&self) -> (r: String)
        ensures
            r@ == self.text(),
    {
        match self {
            PlayError::NoSearch => "No previous search results. Run 'spela search' first.".to_owned(),
            PlayError::ResultNotFound(id, have) => {
                let mut m = "Result #".to_owned();
                push_dec(&mut m, *id as u64);
                m.append(" not found in last search (have ");
                push_dec(&mut m, *have as u64);
                m.append(")");
                m
            },
            PlayError::MissingMagnet =>
                "Missing magnet. Use 'spela play <N>' with a result number, or pass a magnet link.".to_owned(),
            PlayError::InvalidMagnet =>
                "Invalid magnet: magnet URI must start with 'magnet:'".to_owned(),
            PlayError::NoSeeds => "Torrent has no active seeds (0% after 12s)".to_owned(),
            PlayError::SmoothGate(e) => prefixed("Smooth mode download-first gate failed: ", e),
            PlayError::SmoothNoFile =>
                "Smooth mode finished downloading but could not locate a healthy local source file".to_owned(),
            PlayError::CompletionGate(e) => prefixed(
                "Chromecast local-HLS completion gate failed before cast: ",
                e,
            ),
            PlayError::FailFast(secs) => {
                let mut m =
                    "Stream-start fail-fast: ffmpeg produced no HLS segments in ".to_owned();
                push_dec(&mut m, *secs);
                m.append("s (likely starved swarm or bad source).");
                m
            },
            PlayError::HlsRequired(e) => prefixed(
                "Chromecast playback requires HLS delivery; refusing raw fallback after HLS preparation failed: ",
                e,
            ),
            PlayError::CastFailed(e) => prefixed("Cast failed: ", e),
            PlayError::CastTaskFailed(e) => prefixed("Cast task failed: ", e),
            PlayError::Other(e) => e.clone(),
        }
    }
}

fn prefixed(prefix: &str, detail: &String) -> (r: String)
    ensures
        r@ == prefix@ + detail@,
{
    let mut m = prefix.to_owned();
    m.append(detail.as_str());
    m
}

/// The first of two values that is there.
pub open spec fn or_else<T>(a: Option<T>, b: Option<T>) -> Option<T> {
    if a is Some {
        a
    } else {
        b
    }
}

/// `after` is `before` filled in from a result of a search: the source is the result's, and what
/// the request left open is taken from the search.
pub open spec fn filled(
    before: PlayRequest,
    after: PlayRequest,
    search: SearchResult,
    result: TorrentResult,
) -> bool {
    let show_imdb = match search.show {
        Some(s) => s.imdb_id,
        None => None,
    };
    let show_title = match search.show {
        Some(s) => Some(s.title),
        None => None,
    };
    let show_poster = match search.show {
        Some(s) => s.poster_url,
        None => None,
    };
    let season = match search.searching {
        Some(e) => Some(e.season),
        None => None,
    };
    let episode = match search.searching {
        Some(e) => Some(e.episode),
        None => None,
    };
    &&& after == (PlayRequest {
        magnet: Some(result.magnet),
        file_index: or_else(before.file_index, result.file_index),
        title: after.title,
        imdb_id: or_else(before.imdb_id, show_imdb),
        show: or_else(before.show, show_title),
        season: or_else(before.season, season),
        episode: or_else(before.episode, episode),
        quality: or_else(before.quality, Some(result.quality)),
        size: or_else(before.size, Some(result.size)),
        poster_url: or_else(before.poster_url, show_poster),
        ..before
    })
    &&& match before.title {
        Some(t) => after.title == Some(t),
        None => opt(after.title) == Some(play_title(search, result)),
    }
}

fn keep_or_copy(slot: &mut Option<String>, other: Option<&String>)
    ensures
        *final(slot) == or_else(
            *old(slot),
            match other {
                Some(s) => Some(*s),
                None => None,
            },
        ),
{
    if slot.is_none() {
        *slot = match other {
            Some(s) => Some(s.clone()),
            None => None,
        };
    }
}

/// `after` is `before` with the number of a result, where it has one, resolved against the last
/// search; it is as it was where that cannot be done.
pub open spec fn number_resolved(
    before: PlayRequest,
    after: PlayRequest,
    last: Option<SearchResult>,
    r: Result<(), PlayError>,
) -> bool {
    match before.result_id {
        None => r is Ok && after == before,
        Some(id) => match last {
            None => after == before && r == Err::<(), PlayError>(PlayError::NoSearch),
            Some(search) => match r {
                Ok(_) => exists|i: int| #[trigger]
                    is_result(search, id, i) && filled(before, after, search, search.results@[i]),
                Err(e) => after == before && lacks_result(search, id) && e
                    == PlayError::ResultNotFound(id, search.results@.len() as usize),
            },
        },
    }
}

/// Resolves the number of a result against the last search.
pub fn fill_from_search(req: &mut PlayRequest, last: Option<&SearchResult>) -> (r: Result<
    (),
    PlayError,
>)
    ensures
        number_resolved(*old(req), *final(req), opt_ref(last), r),
{
    let id = match req.result_id {
        Some(id) => id,
        None => {
            return Ok(());
        },
    };
    let search = match last {
        Some(s) => s,
        None => {
            return Err(PlayError::NoSearch);
        },
    };
    let i = match search.find(id) {
        Some(i) => i,
        None => {
            return Err(PlayError::ResultNotFound(id, search.results.len()));
        },
    };
    let result = &search.results[i];
    req.magnet = Some(result.magnet.clone());
    if req.file_index.is_none() {
        req.file_index = result.file_index;
    }
    if req.title.is_none() {
        req.title = Some(search.title_for(result));
    }
    if let Some(show) = &search.show {
        keep_or_copy(&mut req.imdb_id, show.imdb_id.as_ref());
        keep_or_copy(&mut req.show, Some(&show.title));
        keep_or_copy(&mut req.poster_url, show.poster_url.as_ref());
    }
    if let Some(ep) = &search.searching {
        if req.season.is_none() {
            req.season = Some(ep.season);
        }
        if req.episode.is_none() {
            req.episode = Some(ep.episode);
        }
    }
    keep_or_copy(&mut req.quality, Some(&result.quality));
    keep_or_copy(&mut req.size, Some(&result.size));
    assert(is_result(*search, id, i as int));
    Ok(())
}

/// The source that a request names, where it is a magnet link.
pub open spec fn magnet_of(req: PlayRequest) -> Result<String, PlayError> {
    match req.magnet {
        Some(m) => if m@.len() == 0 {
            Err(PlayError::MissingMagnet)
        } else if starts_with(m@, "magnet:"@) {
            Ok(m)
        } else {
            Err(PlayError::InvalidMagnet)
        },
        None => Err(PlayError::MissingMagnet),
    }
}

/// Gives [`magnet_of`].
pub fn checked_magnet(req: &PlayRequest) -> (r: Result<String, PlayError>)
    ensures
        r == magnet_of(*req),
{
    match &req.magnet {
        Some(m) => {
            if m.as_str().is_empty() {
                return Err(PlayError::MissingMagnet);
            }
            if validate_magnet_uri(m.as_str()).is_err() {
                return Err(PlayError::InvalidMagnet);
            }
            Ok(m.clone())
        },
        None => Err(PlayError::MissingMagnet),
    }
}

/// How often a request is tried.
pub const MAX_PLAY_ATTEMPTS: u32 = 3;

/// `after` is `before` moved on to the next result of the last search, where there is one and an
/// attempt is left: what was known of the source is forgotten.
pub open spec fn moved_on(
    before: PlayRequest,
    after: PlayRequest,
    attempt: u32,
    results: Option<usize>,
    moved: bool,
) -> bool {
    &&& moved == (attempt < MAX_PLAY_ATTEMPTS - 1 && before.result_id is Some && results is Some
        && before.result_id->0 + 1 <= results->0)
    &&& after == (if moved {
        PlayRequest {
            result_id: Some((before.result_id->0 + 1) as usize),
            magnet: None,
            file_index: None,
            duration: None,
            quality: None,
            size: None,
            ..before
        }
    } else {
        before
    })
}

/// After a failed attempt, moves a request on to the next result of the last search, where there
/// is one and an attempt is left. `attempt` counts from 0; `results` is how many the last search
/// has.
pub fn retry_with_next(req: &mut PlayRequest, attempt: u32, results: Option<usize>) -> (r: bool)
    ensures
        moved_on(*old(req), *final(req), attempt, results, r),
{
    if attempt >= MAX_PLAY_ATTEMPTS - 1 {
        return false;
    }
    if let Some(id) = req.result_id {
        if let Some(n) = results {
            if id < n {
                req.result_id = Some(id + 1);
                req.magnet = None;
                req.file_index = None;
                req.duration = None;
                req.quality = None;
                req.size = None;
                return true;
            }
        }
    }
    false
}

// ------------------------------------------------------------------- targets
/// Where a stream goes.
#[derive(Debug)]
pub struct Destination {
    pub target: String,
    pub cast_name: String,
}

/// The name of the Chromecast target.
pub open spec fn is_chromecast(target: Seq<char>) -> bool {
    target == "chromecast"@
}

/// `d` is where a stream goes.
pub open spec fn is_destination(
    d: Destination,
    req: PlayRequest,
    prefs: Preferences,
    default_device: Seq<char>,
) -> bool {
    &&& d.target@ == match req.target {
        Some(t) => if t@.len() > 0 {
            t@
        } else {
            prefs.default_target@
        },
        None => prefs.default_target@,
    }
    &&& d.cast_name@ == match (req.cast_name, prefs.chromecast_name) {
        (Some(n), _) => n@,
        (None, Some(n)) => n@,
        (None, None) => default_device,
    }
}

/// Chooses where a stream goes: what the request says, else the preferences, else the
/// configured device. An empty target counts as none.
pub fn choose_destination(req: &PlayRequest, prefs: &Preferences, default_device: &str) -> (r:
    Destination)
    ensures
        is_destination(r, *req, *prefs, default_device@),
{
    let target = match &req.target {
        Some(t) => if t.as_str().is_empty() {
            prefs.default_target.clone()
        } else {
            t.clone()
        },
        None => prefs.default_target.clone(),
    };
    let cast_name = match &req.cast_name {
        Some(n) => n.clone(),
        None => match &prefs.chromecast_name {
            Some(n) => n.clone(),
            None => default_device.to_owned(),
        },
    };
    Destination { target, cast_name }
}

/// What stands behind the first colon of a target.
pub open spec fn device_of(target: Seq<char>) -> Option<Seq<char>> {
    let k = index_of(target, ':');
    if k < target.len() {
        Some(target.skip(k + 1))
    } else {
        None
    }
}

/// What stands before the first colon of a target.
pub open spec fn kind_of(target: Seq<char>) -> Seq<char> {
    target.take(index_of(target, ':'))
}

/// Parts a target at its first colon.
pub fn split_target(target: &str) -> (r: (String, Option<String>))
    ensures
        r.0@ == kind_of(target@),
        opt(r.1) == device_of(target@),
{
    let v = chars_of(target);
    assert(v@.skip(0) =~= v@);
    let k = find_char(&v, ':', 0);
    let kind = slice_copy(&v, 0, k);
    assert(kind@ =~= target@.take(k as int));
    let device = if k < v.len() {
        Some(tail(target, k + 1))
    } else {
        None
    };
    (string_of(&kind), device)
}

/// The device that controls go to: that of the current stream, else the preferred one, else the
/// configured one.
pub open spec fn device_in_use(state: AppState, default_device: Seq<char>) -> Seq<char> {
    match state.current {
        Some(c) => match device_of(c.target@) {
            Some(d) => d,
            None => preferred_device(state.preferences, default_device),
        },
        None => preferred_device(state.preferences, default_device),
    }
}

/// Gives [`device_in_use`].
pub fn get_current_device(state: &AppState, default_device: &str) -> (r: String)
    ensures
        r@ == device_in_use(*state, default_device@),
{
    if let Some(c) = &state.current {
        if let Some(d) = split_target(c.target.as_str()).1 {
            return d;
        }
    }
    match &state.preferences.chromecast_name {
        Some(n) => n.clone(),
        None => default_device.to_owned(),
    }
}

/// The preferred device, else the configured one.
pub open spec fn preferred_device(prefs: Preferences, default_device: Seq<char>) -> Seq<char> {
    match prefs.chromecast_name {
        Some(n) => n@,
        None => default_device,
    }
}

// ----------------------------------------------------------------- positions
/// A remembered position is not returned to unless it is past this, in milliseconds.
pub const RESUME_MINIMUM: Millis = 30_000;

/// Where a stream begins.
#[derive(Debug, Clone, Copy, PartialEq, Eq, Structural)]
pub struct SeekPlan {
    pub seek_to: Option<Millis>,
    /// The remembered position that it returns to.
    pub resumed_from: Option<Millis>,
}

/// The position that is remembered of a title; 0 where none is.
pub open spec fn remembered(state: AppState, req: PlayRequest) -> Millis {
    match position_key(opt(req.imdb_id), opt(req.title)) {
        Some(key) => position_at(state, key),
        None => 0,
    }
}

/// `plan` is where a stream begins, and `after` what is remembered of positions then.
pub open spec fn seek_planned(
    before: AppState,
    after: AppState,
    req: PlayRequest,
    plan: SeekPlan,
) -> bool {
    match req.seek_to {
        Some(t) => plan == (SeekPlan { seek_to: Some(t), resumed_from: None }) && position_reset(
            before,
            after,
            position_key(opt(req.imdb_id), opt(req.title)),
        ),
        None => after == before && plan == if remembered(before, req) > RESUME_MINIMUM {
            SeekPlan {
                seek_to: Some(remembered(before, req)),
                resumed_from: Some(remembered(before, req)),
            }
        } else {
            SeekPlan { seek_to: None, resumed_from: None }
        },
    }
}

/// Decides where a stream begins. A position that the request gives counts, and the remembered
/// one is forgotten; without one, the remembered position counts where it is far enough in.
pub fn plan_seek(req: &PlayRequest, state: &mut AppState) -> (r: SeekPlan)
    ensures
        seek_planned(*old(state), *final(state), *req, r),
{
    match req.seek_to {
        Some(t) => {
            let _ = state.reset_position(copy_opt(&req.imdb_id), copy_opt(&req.title));
            SeekPlan { seek_to: Some(t), resumed_from: None }
        },
        None => {
            let pos = state.get_position(copy_opt(&req.imdb_id), copy_opt(&req.title));
            if pos > RESUME_MINIMUM {
                SeekPlan { seek_to: Some(pos), resumed_from: Some(pos) }
            } else {
                SeekPlan { seek_to: None, resumed_from: None }
            }
        },
    }
}

/// A position that is asked for leaves no other remembered of the title.
pub proof fn an_explicit_seek_forgets_the_old_position(
    before: AppState,
    after: AppState,
    req: PlayRequest,
)
    requires
        req.seek_to is Some,
        position_reset(before, after, position_key(opt(req.imdb_id), opt(req.title))),
    ensures
        remembered(after, req) == 0,
{
}

// ------------------------------------------------------------------ delivery
/// Whether a stream goes out as HLS: to a Chromecast always, elsewhere where anything has to be
/// done to it.
pub fn should_use_hls_for_playback(
    target: &str,
    need_audio_tc: bool,
    need_video_tc: bool,
    has_intro: bool,
    has_subtitles: bool,
    is_local: bool,
) -> (r: bool)
    ensures
        r == (is_chromecast(target@) || need_audio_tc || need_video_tc || has_intro
            || has_subtitles || is_local),
{
    same(target, "chromecast") || need_audio_tc || need_video_tc || has_intro || has_subtitles
        || is_local
}

/// Whether a transcode is to be complete before it is cast: that of a local file to a Chromecast.
pub fn should_wait_for_complete_hls_before_cast(target: &str, is_local: bool) -> (r: bool)
    ensures
        r == (is_chromecast(target@) && is_local),
{
    same(target, "chromecast") && is_local
}

/// How a source is delivered.
#[derive(Debug, Clone, Copy, PartialEq, Eq, Structural)]
pub struct Delivery {
    pub audio_transcode: bool,
    pub video_transcode: bool,
    pub use_hls: bool,
    /// The transcode is complete before it is cast.
    pub prepared: bool,
}

/// A codec that is known and that receivers do not take.
pub open spec fn heavy(codec: Option<String>, video: bool) -> bool {
    match codec {
        Some(c) => if video {
            is_heavy_video(c@)
        } else {
            is_heavy_audio(c@)
        },
        None => false,
    }
}

/// Decides how a source is delivered. The video for a Chromecast is always encoded anew.
pub fn plan_delivery(
    target: &str,
    codecs: &CodecInfo,
    has_intro: bool,
    has_subtitles: bool,
    is_local: bool,
) -> (r: Delivery)
    ensures
        r.audio_transcode == heavy(codecs.audio_codec, false),
        r.video_transcode == (is_chromecast(target@) || heavy(codecs.video_codec, true)),
        r.use_hls == (is_chromecast(target@) || r.audio_transcode || r.video_transcode || has_intro
            || has_subtitles || is_local),
        r.prepared == (is_chromecast(target@) && is_local),
{
    let audio_transcode = match &codecs.audio_codec {
        Some(c) => audio_needs_transcode(c.as_str()),
        None => false,
    };
    let video_transcode = if same(target, "chromecast") {
        true
    } else {
        match &codecs.video_codec {
            Some(c) => video_needs_transcode(c.as_str()),
            None => false,
        }
    };
    Delivery {
        audio_transcode,
        video_transcode,
        use_hls: should_use_hls_for_playback(
            target,
            audio_transcode,
            video_transcode,
            has_intro,
            has_subtitles,
            is_local,
        ),
        prepared: should_wait_for_complete_hls_before_cast(target, is_local),
    }
}

/// What is known of a source that could not be probed: nothing but that its first sound is played.
pub open spec fn tells_nothing(c: CodecInfo) -> bool {
    &&& c.video_codec is None
    &&& c.audio_codec is None
    &&& c.duration is None
    &&& c.audio_stream@ == "0:a:0"@
    &&& c.audio_index == 0
}

/// What is known of a source that could not be probed.
pub fn unknown_codecs() -> (r: CodecInfo)
    ensures
        tells_nothing(r),
{
    CodecInfo {
        video_codec: None,
        audio_codec: None,
        duration: None,
        audio_stream: "0:a:0".to_owned(),
        audio_index: 0,
    }
}

/// The address of a local file.
pub open spec fn url_of_file(path: Seq<char>) -> Seq<char> {
    "file://"@ + path
}

/// A local file as a source.
pub fn file_url(path: &str) -> (r: String)
    ensures
        r@ == url_of_file(path@),
{
    let mut u = "file://".to_owned();
    u.append(path);
    u
}

/// The path of a source that is a local file.
pub open spec fn path_in(url: Seq<char>) -> Option<Seq<char>> {
    if starts_with(url, "file://"@) {
        Some(url.skip(7))
    } else {
        None
    }
}

/// Gives [`path_in`].
pub fn local_path_of(url: &str) -> (r: Option<String>)
    ensures
        opt(r) == path_in(url@),
{
    if crate::text::begins(url, "file://") {
        proof {
            reveal_strlit("file://");
        }
        Some(tail(url, 7))
    } else {
        None
    }
}

/// The address of the master playlist, which is what a receiver is given.
pub open spec fn url_of_master(stream_host: Seq<char>, port: u16) -> Seq<char> {
    "http://"@ + stream_host + ":"@ + dec(port as nat) + "/hls/master.m3u8"@
}

/// Writes [`url_of_master`].
pub fn master_url(stream_host: &str, port: u16) -> (r: String)
    ensures
        r@ == url_of_master(stream_host@, port),
{
    let mut u = "http://".to_owned();
    u.append(stream_host);
    u.append(":");
    push_dec(&mut u, port as u64);
    u.append("/hls/master.m3u8");
    u
}

/// What a receiver is told beside the address.
#[derive(Debug)]
pub struct CastLoad {
    pub content_type: String,
    pub duration: Option<Millis>,
    pub metadata: CastMetadata,
}

/// How much an intro adds to the duration, in milliseconds.
pub const INTRO_MILLIS: Millis = 5_000;

/// `load` is what a receiver is told of a request.
pub open spec fn is_load_of(
    load: CastLoad,
    req: PlayRequest,
    url: Seq<char>,
    source_duration: Option<Millis>,
    has_intro: bool,
    rich_metadata: bool,
) -> bool {
    &&& load.content_type@ == if ends_with(url, ".m3u8"@) || contains(url, "/hls/playlist.m3u8"@) {
        "application/vnd.apple.mpegurl"@
    } else {
        "video/mp4"@
    }
    &&& load.duration == match source_duration {
        Some(d) => Some(
            clamped(
                d + if has_intro {
                    INTRO_MILLIS
                } else {
                    0
                },
            ),
        ),
        None => None,
    }
    &&& load.metadata == if rich_metadata {
        CastMetadata {
            title: req.title,
            series_title: req.show,
            season: req.season,
            episode: req.episode,
            poster_url: req.poster_url,
            release_date: None,
        }
    } else {
        CastMetadata {
            title: None,
            series_title: None,
            season: None,
            episode: None,
            poster_url: None,
            release_date: None,
        }
    }
}

/// Says what a receiver is told: the content type by the address, the duration with the intro,
/// and the metadata of the request where they are wanted.
pub fn plan_load(
    req: &PlayRequest,
    url: &str,
    source_duration: Option<Millis>,
    has_intro: bool,
    rich_metadata: bool,
) -> (r: CastLoad)
    ensures
        is_load_of(r, *req, url@, source_duration, has_intro, rich_metadata),
{
    let content_type = if ends(url, ".m3u8") || mentions(url, "/hls/playlist.m3u8") {
        "application/vnd.apple.mpegurl".to_owned()
    } else {
        "video/mp4".to_owned()
    };
    let duration = match source_duration {
        Some(d) => Some(
            add_millis(
                d,
                if has_intro {
                    INTRO_MILLIS
                } else {
                    0
                },
            ),
        ),
        None => None,
    };
    let metadata = if rich_metadata {
        CastMetadata {
            title: copy_opt(&req.title),
            series_title: copy_opt(&req.show),
            season: req.season,
            episode: req.episode,
            poster_url: copy_opt(&req.poster_url),
            release_date: None,
        }
    } else {
        CastMetadata {
            title: None,
            series_title: None,
            season: None,
            episode: None,
            poster_url: None,
            release_date: None,
        }
    };
    CastLoad { content_type, duration, metadata }
}

// ------------------------------------------------------------------ the start
/// What has come of a request by the time its stream runs.
#[derive(Debug)]
pub struct StreamFacts {
    pub magnet: String,
    pub target: String,
    pub cast_name: String,
    pub url: String,
    pub pid: u32,
    pub has_subtitles: bool,
    pub subtitle_lang: String,
    pub duration: Option<Millis>,
    pub is_transcoded: bool,
    pub is_local: bool,
    pub has_intro: bool,
    pub seek_to: Option<Millis>,
    pub cache_enabled: bool,
}

/// The title of a request.
pub open spec fn title_of(req: PlayRequest) -> Seq<char> {
    match req.title {
        Some(t) => t@,
        None => "Unknown"@,
    }
}

/// The target as it is remembered: its kind, a colon and the device.
pub open spec fn target_text(f: StreamFacts) -> Seq<char> {
    f.target@ + ":"@ + f.cast_name@
}

/// `c` is what is remembered of a stream that began at `now`.
pub open spec fn is_stream_of(c: CurrentStream, req: PlayRequest, f: StreamFacts, now: Timestamp) -> bool {
    let lang = if f.has_subtitles {
        Some(f.subtitle_lang@)
    } else {
        None
    };
    &&& c.magnet@ == f.magnet@
    &&& c.title@ == title_of(req)
    &&& c.show == req.show
    &&& c.season == req.season
    &&& c.episode == req.episode
    &&& c.imdb_id == req.imdb_id
    &&& c.target@ == target_text(f)
    &&& c.url@ == f.url@
    &&& c.started_at == now
    &&& c.pid == f.pid
    &&& c.has_subtitles == f.has_subtitles
    &&& opt(c.subtitle_lang) == lang
    &&& c.duration == f.duration
    &&& c.quality == req.quality
    &&& c.size == req.size
    &&& c.poster_url == match req.poster_url {
        Some(u) => if is_poster_url(u@) {
            Some(u)
        } else {
            None
        },
        None => None,
    }
    // The offset counts only where the transcode began there; a receiver that was told to seek
    // reports the position by itself.
    &&& c.ss_offset == match f.seek_to {
        Some(t) => if f.is_transcoded {
            t
        } else {
            0
        },
        None => 0,
    }
    &&& c.smooth == (req.smooth == Some(true))
    &&& c.prepared_hls == (f.is_transcoded && is_chromecast(f.target@) && f.is_local)
    // Only a transcode from the beginning can serve the next time.
    &&& opt(c.cache_key) == if f.cache_enabled && f.seek_to is None {
        cache_key(opt(req.imdb_id), req.season, req.episode, lang, f.has_intro)
    } else {
        None
    }
}

/// `after` is `before` with a stream begun at `now`: the position that it begins at is saved, and
/// it is the current one.
pub open spec fn stream_begun(
    before: AppState,
    after: AppState,
    req: PlayRequest,
    f: StreamFacts,
    now: Timestamp,
) -> bool {
    let idle = AppState { current: None, ..before };
    &&& after.current is Some
    &&& is_stream_of(after.current->0, req, f, now)
    &&& match f.seek_to {
        Some(t) => exists|saved: AppState, changed: bool|
            #![trigger position_saved(idle, saved, req.imdb_id, req.title, t, f.duration, now, changed)]
            position_saved(idle, saved, req.imdb_id, req.title, t, f.duration, now, changed)
                && after == (AppState { current: after.current, ..saved }),
        None => after == (AppState { current: after.current, ..before }),
    }
}

/// Remembers a stream that begins at `now`.
pub fn begin_stream_at(state: &mut AppState, req: &PlayRequest, f: &StreamFacts, now: Timestamp)
    ensures
        stream_begun(*old(state), *final(state), *req, *f, now),
{
    let ghost before = *state;
    state.current = None;
    let ghost idle = AppState { current: None, ..before };
    assert(*state == idle);
    if let Some(t) = f.seek_to {
        let r = state.save_position_at(
            copy_opt(&req.imdb_id),
            copy_opt(&req.title),
            t,
            f.duration,
            now,
        );
        assert(position_saved(
            idle,
            *state,
            req.imdb_id,
            req.title,
            t,
            f.duration,
            now,
            r.1,
        ));
    }
    let ghost saved = *state;
    let title = match &req.title {
        Some(t) => t.clone(),
        None => "Unknown".to_owned(),
    };
    let mut target = f.target.clone();
    target.append(":");
    target.append(f.cast_name.as_str());
    let subtitle_lang = if f.has_subtitles {
        Some(f.subtitle_lang.clone())
    } else {
        None
    };
    let poster_url = match &req.poster_url {
        Some(u) => if is_valid_poster_url(u.as_str()) {
            Some(u.clone())
        } else {
            None
        },
        None => None,
    };
    let key = if f.cache_enabled && f.seek_to.is_none() {
        build_cache_key(
            borrow_opt(&req.imdb_id),
            req.season,
            req.episode,
            borrow_opt(&subtitle_lang),
            f.has_intro,
        )
    } else {
        None
    };
    let ss_offset: Millis = match f.seek_to {
        Some(t) => if f.is_transcoded {
            t
        } else {
            0
        },
        None => 0,
    };
    let smooth = match req.smooth {
        Some(b) => b,
        None => false,
    };
    let prepared_hls = f.is_transcoded && should_wait_for_complete_hls_before_cast(
        f.target.as_str(),
        f.is_local,
    );
    state.current = Some(
        CurrentStream {
            magnet: f.magnet.clone(),
            title,
            show: copy_opt(&req.show),
            season: req.season,
            episode: req.episode,
            imdb_id: copy_opt(&req.imdb_id),
            target,
            url: f.url.clone(),
            started_at: now,
            pid: f.pid,
            has_subtitles: f.has_subtitles,
            subtitle_lang,
            duration: f.duration,
            quality: copy_opt(&req.quality),
            size: copy_opt(&req.size),
            poster_url,
            ss_offset,
            smooth,
            prepared_hls,
            cache_key: key,
        },
    );
    assert(*state == (AppState { current: state.current, ..saved }));
}

/// Remembers a stream that begins now.
pub fn begin_stream(state: &mut AppState, req: &PlayRequest, f: &StreamFacts)
    ensures
        exists|now: Timestamp| stream_begun(*old(state), *final(state), *req, *f, now),
{
    let now = crate::time::utc_now();
    begin_stream_at(state, req, f, now);
    assert(stream_begun(*old(state), *state, *req, *f, now));
}

/// A stream that begins at a position that was asked for leaves that position remembered,
/// whatever was remembered before; one that begins at the very end leaves none.
pub proof fn an_explicit_seek_starts_over(
    before: AppState,
    planned: AppState,
    after: AppState,
    req: PlayRequest,
    f: StreamFacts,
    now: Timestamp,
)
    requires
        req.seek_to is Some,
        f.seek_to == req.seek_to,
        position_reset(before, planned, position_key(opt(req.imdb_id), opt(req.title))),
        stream_begun(planned, after, req, f, now),
        position_key(opt(req.imdb_id), opt(req.title)) is Some,
    ensures
        remembered(after, req) == if req.seek_to->0 > 0 && !reaches_end(
            req.seek_to->0,
            f.duration,
        ) {
            req.seek_to->0
        } else {
            0
        },
{
    let key = position_key(opt(req.imdb_id), opt(req.title))->0;
    assert(position_at(planned, key) == 0);
}

// ---------------------------------------------------------------- navigation
/// Why there is no neighbouring episode to go to.
#[derive(Debug, Clone, Copy, PartialEq, Eq, Structural)]
pub enum NavigateError {
    /// No episode is playing.
    NoContext,
    /// It is the first.
    AtFirst,
}

impl NavigateError {
    /// What the caller is told.
    pub open spec fn text(self) -> Seq<char> {
        match self {
            NavigateError::NoContext => "No show/episode context -- play a TV episode first"@,
            NavigateError::AtFirst => "Already at first episode"@,
        }
    }

    /// Gives what the caller is told.
    pub fn message(&self) -> (r: &'static str)
        ensures
            r@ == self.text(),
    {
        match self {
            NavigateError::NoContext => "No show/episode context -- play a TV episode first",
            NavigateError::AtFirst => "Already at first episode",
        }
    }
}

/// Stands for the last episode of a season; the search brings it down.
pub const LAST_EPISODE: u32 = 99;

/// The neighbour of an episode: the next one, or the one before, which may be the last of the
/// season before; none before the first.
pub open spec fn neighbour_of(season: u32, episode: u32, forward: bool) -> Option<(u32, u32)> {
    if forward {
        Some((season, (episode + 1) as u32))
    } else if episode > 1 {
        Some((season, (episode - 1) as u32))
    } else if season > 1 {
        Some(((season - 1) as u32, LAST_EPISODE))
    } else {
        None
    }
}

/// The show, the season and the episode to go to from the current stream.
pub open spec fn neighbour_to(current: Option<CurrentStream>, forward: bool) -> Result<
    (String, u32, u32),
    NavigateError,
> {
    match current {
        Some(c) => if c.show is Some && c.season is Some && c.episode is Some {
            match neighbour_of(c.season->0, c.episode->0, forward) {
                Some((s, e)) => Ok((c.show->0, s, e)),
                None => Err(NavigateError::AtFirst),
            }
        } else {
            Err(NavigateError::NoContext)
        },
        None => Err(NavigateError::NoContext),
    }
}

/// Gives [`neighbour_to`].
pub fn neighbour(current: Option<&CurrentStream>, forward: bool) -> (r: Result<
    (String, u32, u32),
    NavigateError,
>)
    requires
        forward ==> (current matches Some(c) ==> (c.episode matches Some(e) ==> e < u32::MAX)),
    ensures
        r == neighbour_to(opt_ref(current), forward),
{
    let c = match current {
        Some(c) => c,
        None => {
            return Err(NavigateError::NoContext);
        },
    };
    let (show, season, episode) = match (&c.show, c.season, c.episode) {
        (Some(show), Some(season), Some(episode)) => (show, season, episode),
        _ => {
            return Err(NavigateError::NoContext);
        },
    };
    if forward {
        Ok((show.clone(), season, episode + 1))
    } else if episode > 1 {
        Ok((show.clone(), season, episode - 1))
    } else if season > 1 {
        Ok((show.clone(), season - 1, LAST_EPISODE))
    } else {
        Err(NavigateError::AtFirst)
    }
}

/// Going forward and back again leads to the episode that one came from.
pub proof fn forward_and_back(season: u32, episode: u32)
    requires
        1 <= episode < u32::MAX,
    ensures
        neighbour_of(season, (neighbour_of(season, episode, true)->0).1, false) == Some(
            (season, episode),
        ),
{
}

/// What the caller is told where a search for an episode found nothing.
pub open spec fn no_torrent_text(season: u32, episode: u32) -> Seq<char> {
    "No torrent found for S"@ + padded(season as nat, 2) + "E"@ + padded(episode as nat, 2)
}

/// Writes [`no_torrent_text`].
pub fn no_torrent_message(season: u32, episode: u32) -> (r: String)
    ensures
        r@ == no_torrent_text(season, episode),
{
    let mut m = "No torrent found for S".to_owned();
    push_padded(&mut m, season as u64, 2);
    m.append("E");
    push_padded(&mut m, episode as u64, 2);
    m
}

/// `req` asks for an episode from the first result of a search, on the device of the current
/// stream.
pub open spec fn is_episode_request(
    req: PlayRequest,
    current: CurrentStream,
    show: String,
    season: u32,
    episode: u32,
    found: SearchResult,
) -> bool {
    let best = found.results@[0];
    &&& req == (PlayRequest {
        magnet: Some(best.magnet),
        result_id: None,
        target: req.target,
        cast_name: req.cast_name,
        title: req.title,
        file_index: best.file_index,
        no_subs: None,
        no_intro: None,
        smooth: Some(current.smooth),
        subtitle_lang: None,
        imdb_id: match found.show {
            Some(s) => s.imdb_id,
            None => None,
        },
        show: Some(show),
        season: Some(season),
        episode: Some(episode),
        seek_to: None,
        duration: None,
        quality: Some(best.quality),
        size: Some(best.size),
        poster_url: match found.show {
            Some(s) => s.poster_url,
            None => None,
        },
    })
    &&& opt(req.target) == Some(kind_of(current.target@))
    &&& opt(req.cast_name) == device_of(current.target@)
    &&& opt(req.title) == Some(episode_title(show@, season, episode))
}

/// `asked` is the request for an episode that was searched for; none where the search found
/// nothing.
pub open spec fn episode_asked(
    asked: Option<PlayRequest>,
    current: CurrentStream,
    show: String,
    season: u32,
    episode: u32,
    found: SearchResult,
) -> bool {
    match asked {
        Some(req) => found.torrent_available && found.results@.len() > 0 && is_episode_request(
            req,
            current,
            show,
            season,
            episode,
            found,
        ),
        None => !found.torrent_available || found.results@.len() == 0,
    }
}

/// The request for an episode that was searched for; none where the search found nothing.
pub fn episode_request(
    current: &CurrentStream,
    show: String,
    season: u32,
    episode: u32,
    found: &SearchResult,
) -> (r: Option<PlayRequest>)
    ensures
        episode_asked(r, *current, show, season, episode, *found),
{
    if !found.torrent_available || found.results.len() == 0 {
        return None;
    }
    let best = &found.results[0];
    let (kind, device) = split_target(current.target.as_str());
    let title = episode_title_text(show.as_str(), season, episode);
    let (imdb_id, poster_url) = match &found.show {
        Some(s) => (copy_opt(&s.imdb_id), copy_opt(&s.poster_url)),
        None => (None, None),
    };
    Some(
        PlayRequest {
            magnet: Some(best.magnet.clone()),
            result_id: None,
            target: Some(kind),
            cast_name: device,
            title: Some(title),
            file_index: best.file_index,
            no_subs: None,
            no_intro: None,
            smooth: Some(current.smooth),
            subtitle_lang: None,
            imdb_id,
            show: Some(show),
            season: Some(season),
            episode: Some(episode),
            seek_to: None,
            duration: None,
            quality: Some(best.quality.clone()),
            size: Some(best.size.clone()),
            poster_url,
        },
    )
}

} // verus!
