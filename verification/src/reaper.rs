//! The end of a stream: when its workers are reaped, what is learned from it, and what is kept.
use vstd::prelude::*;

use crate::hls::has_endlist;
use crate::numbers::parse_size_to_bytes;
use crate::playback::{is_stream_of, PlayRequest, StreamFacts};
use crate::state::{AppState, CurrentStream};
use crate::text::{begins, contains, starts_with, tail};
use crate::time::{Millis, Timestamp};
use crate::titles::{opt, opt_str};
use crate::transcode::{corruption, inspect_ffmpeg_log_for_corruption};

verus! {

/// How long after the start the reaper first looks, in seconds.
pub const REAPER_START_SECS: u64 = 120;

/// How long it sleeps between two looks, in seconds.
pub const REAPER_INTERVAL_SECS: u64 = 30;

/// How long a torrent outlives the transcode of a film of known duration, in seconds: what is
/// left to watch, and ten minutes. Of a film of unknown duration, three quarters of an hour.
pub open spec fn grace_secs(duration: Option<Millis>, ss_offset: Millis) -> int {
    match duration {
        Some(d) => if d > 0 {
            600 + if d > ss_offset {
                (d - ss_offset) / 1000
            } else {
                0
            }
        } else {
            2700
        },
        None => 2700,
    }
}

/// Computes [`grace_secs`].
pub fn compute_reaper_grace_secs(duration: Option<Millis>, ss_offset: Millis) -> (r: u64)
    ensures
        r == grace_secs(duration, ss_offset),
{
    match duration {
        Some(d) => if d > 0 {
            let left: i128 = d as i128 - ss_offset as i128;
            if left > 0 {
                600 + (left / 1000) as u64
            } else {
                600
            }
        } else {
            2700
        },
        None => 2700,
    }
}

/// A stream is never reaped while there is anything left of it to watch, nor within five minutes.
pub proof fn grace_covers_what_is_left(duration: Millis, ss_offset: Millis)
    requires
        duration > 0,
    ensures
        grace_secs(Some(duration), ss_offset) * 1000 >= duration - ss_offset,
        grace_secs(Some(duration), ss_offset) >= 300,
{
}

/// What the reaper does at a look.
#[derive(Debug, Clone, Copy, PartialEq, Eq, Structural)]
pub enum ReaperStep {
    /// Another stream plays, or none: it has nothing more to do.
    Leave,
    /// Nothing is left running: clean up.
    CleanUp,
    /// The transcode is done: wait for so many seconds, then look once more.
    Grace(u64),
    Sleep,
}

/// The stream of a worker is still the current one.
pub open spec fn is_current(current: Option<CurrentStream>, pid: u32) -> bool {
    current matches Some(c) && c.pid == pid
}

/// What the reaper of a stream does at a look.
pub open spec fn step_of_reaper(
    current: Option<CurrentStream>,
    pid: u32,
    ffmpeg_alive: bool,
    torrent_alive: bool,
) -> ReaperStep {
    match current {
        Some(c) => if c.pid != pid {
            ReaperStep::Leave
        } else if ffmpeg_alive {
            ReaperStep::Sleep
        } else if torrent_alive {
            ReaperStep::Grace(grace_secs(c.duration, c.ss_offset) as u64)
        } else {
            ReaperStep::CleanUp
        },
        None => ReaperStep::Leave,
    }
}

/// Decides what the reaper of a stream does at a look.
pub fn reaper_step(
    current: Option<&CurrentStream>,
    pid: u32,
    ffmpeg_alive: bool,
    torrent_alive: bool,
) -> (r: ReaperStep)
    ensures
        r == step_of_reaper(
            match current {
                Some(c) => Some(*c),
                None => None,
            },
            pid,
            ffmpeg_alive,
            torrent_alive,
        ),
{
    match current {
        Some(c) => if c.pid != pid {
            ReaperStep::Leave
        } else if ffmpeg_alive {
            ReaperStep::Sleep
        } else if torrent_alive {
            ReaperStep::Grace(compute_reaper_grace_secs(c.duration, c.ss_offset))
        } else {
            ReaperStep::CleanUp
        },
        None => ReaperStep::Leave,
    }
}

/// Decides, when the grace is over, whether the stream is cleaned up: where it is still the
/// current one.
pub fn reap_after_grace(current: Option<&CurrentStream>, pid: u32) -> (r: bool)
    ensures
        r == is_current(
            match current {
                Some(c) => Some(*c),
                None => None,
            },
            pid,
        ),
{
    match current {
        Some(c) => c.pid == pid,
        None => false,
    }
}

// ------------------------------------------------------------------- learning
/// The path of a source that is a local file.
pub open spec fn local_source(url: Seq<char>) -> Option<Seq<char>> {
    if starts_with(url, "file://"@) {
        Some(url.skip(7))
    } else {
        None
    }
}

/// `after` is `before` with what the log of a transcode says of its source: a local one that it
/// finds corrupt is remembered. `reason` tells of it where it is new.
pub open spec fn corruption_noted(
    before: AppState,
    after: AppState,
    source_url: Seq<char>,
    log: Seq<char>,
    reason: Option<Seq<char>>,
) -> bool {
    match (corruption(log), local_source(source_url)) {
        (Some(why), Some(path)) => {
            &&& after == (AppState { corrupt_files: after.corrupt_files, ..before })
            &&& after.corrupt_files@ == before.corrupt_files@.insert(path)
            &&& reason == if before.corrupt_files@.contains(path) {
                None
            } else {
                Some(why)
            }
        },
        _ => reason is None && after == before,
    }
}

/// Remembers a local source as corrupt where the log of its transcode says so, so that it is not
/// played again. Returns the reason, where it was not known to be corrupt.
pub fn note_corruption(state: &mut AppState, source_url: &str, log: &str) -> (r: Option<&'static str>)
    ensures
        corruption_noted(*old(state), *final(state), source_url@, log@, opt_str(r)),
{
    let reason = match inspect_ffmpeg_log_for_corruption(log) {
        Some(reason) => reason,
        None => {
            return None;
        },
    };
    if !begins(source_url, "file://") {
        return None;
    }
    proof {
        reveal_strlit("file://");
    }
    let path = tail(source_url, 7);
    let known = state.corrupt_files.contains(path.as_str());
    state.corrupt_files.insert(path);
    if known {
        None
    } else {
        Some(reason)
    }
}

/// How large the file of a stream is expected to be, in bytes; 0 where that is not known.
pub open spec fn bytes_expected(size: Option<Seq<char>>) -> u64 {
    match size {
        Some(s) => match crate::numbers::size_bytes(crate::text::lowercase(s)) {
            Some(n) => n,
            None => 0,
        },
        None => 0,
    }
}

/// Computes [`bytes_expected`].
pub fn expected_size(size: Option<&str>) -> (r: u64)
    ensures
        r == bytes_expected(opt_str(size)),
{
    match size {
        Some(s) => match parse_size_to_bytes(s) {
            Some(n) => n,
            None => 0,
        },
        None => 0,
    }
}

// -------------------------------------------------------------------- keeping
/// A transcode that may be kept: keeping is on, it began at the beginning, it has a key, it came
/// to its end, and none is kept under the key.
pub open spec fn is_keepable(
    current: Option<CurrentStream>,
    cap_mb: u64,
    endlist_seen: bool,
    already_cached: bool,
) -> bool {
    &&& cap_mb > 0
    &&& current is Some
    &&& current->0.ss_offset == 0
    &&& current->0.cache_key is Some
    &&& endlist_seen
    &&& !already_cached
}

/// One of some playlists, as far as they could be read, has come to its end.
pub open spec fn any_ended(bodies: Seq<Option<String>>) -> bool {
    exists|i: int|
        0 <= i < bodies.len() && (#[trigger] bodies[i]) is Some && contains(
            bodies[i]->0@,
            "#EXT-X-ENDLIST"@,
        )
}

/// Decides [`any_ended`].
pub fn end_seen(bodies: &Vec<Option<String>>) -> (r: bool)
    ensures
        r == any_ended(bodies@),
{
    let n: usize = bodies.len();
    let mut i: usize = 0;
    while i < n
        invariant
            n == bodies@.len(),
            i <= n,
            forall|j: int|
                0 <= j < i ==> !((#[trigger] bodies@[j]) is Some && contains(
                    bodies@[j]->0@,
                    "#EXT-X-ENDLIST"@,
                )),
        decreases n - i,
    {
        if let Some(body) = &bodies[i] {
            if has_endlist(body.as_str()) {
                assert(bodies@[i as int] is Some);
                return true;
            }
        }
        i += 1;
    }
    false
}

/// The key under which the transcode of a stream is kept; none where it is not.
pub open spec fn key_to_keep(
    current: Option<CurrentStream>,
    cap_mb: u64,
    endlist_seen: bool,
    already_cached: bool,
) -> Option<String> {
    if is_keepable(current, cap_mb, endlist_seen, already_cached) {
        current->0.cache_key
    } else {
        None
    }
}

/// Gives [`key_to_keep`].
pub fn promotion_key(
    current: Option<&CurrentStream>,
    cap_mb: u64,
    endlist_seen: bool,
    already_cached: bool,
) -> (r: Option<String>)
    ensures
        r == key_to_keep(
            match current {
                Some(c) => Some(*c),
                None => None,
            },
            cap_mb,
            endlist_seen,
            already_cached,
        ),
{
    if cap_mb == 0 || !endlist_seen || already_cached {
        return None;
    }
    match current {
        Some(c) => if c.ss_offset != 0 {
            None
        } else {
            match &c.cache_key {
                Some(k) => Some(k.clone()),
                None => None,
            }
        },
        None => None,
    }
}

/// Only the transcode of a whole film is kept: one that ran from the beginning of the source to
/// its end. One that was sought into is not.
pub proof fn only_whole_films_are_kept(
    current: CurrentStream,
    req: PlayRequest,
    f: StreamFacts,
    now: Timestamp,
    cap_mb: u64,
    endlist_seen: bool,
    already_cached: bool,
)
    requires
        is_stream_of(current, req, f, now),
        is_keepable(Some(current), cap_mb, endlist_seen, already_cached),
    ensures
        f.seek_to is None,
        f.cache_enabled,
        endlist_seen,
{
    assert(opt(current.cache_key) is Some);
}

/// A limit in megabytes, in bytes, as far as 64 bits count them.
pub open spec fn bytes_in_cap(cap_mb: u64) -> int {
    if cap_mb * 1_048_576 > u64::MAX {
        u64::MAX as int
    } else {
        cap_mb * 1_048_576
    }
}

/// Computes [`bytes_in_cap`].
pub fn cap_bytes(cap_mb: u64) -> (r: u64)
    ensures
        r == bytes_in_cap(cap_mb),
{
    let bytes: u128 = cap_mb as u128 * 1_048_576;
    if bytes > u64::MAX as u128 {
        u64::MAX
    } else {
        bytes as u64
    }
}

} // verus!
