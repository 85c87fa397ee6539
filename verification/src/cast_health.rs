//! The watch over a cast stream: what each look at the receiver means, when a position is saved,
//! when the stream is loaded again, and when it is given up.
use vstd::prelude::*;

use crate::state::{borrow_opt, copy_opt, AppState, CurrentStream, QueuedItem, HWM_CLEAR_PERCENT};
use crate::text::{
    begins, contains, dec, ends, ends_with, mentions, push_dec, same, starts_with, to_uppercase,
    uppercase,
};
use crate::time::{
    add_millis, clamped, elapsed, elapsed_millis, sub_millis, whole_secs, Millis, Moment, Timestamp,
};
use crate::titles::{opt, opt_str};

verus! {

/// How long after a load the watch begins.
pub const STARTUP_GRACE_SECS: u64 = 10;

/// How long the watch sleeps between two looks.
pub const POLL_INTERVAL_SECS: u64 = 5;

/// After so many failed looks in a row the stream counts as dead.
pub const IDLE_FAILURE_THRESHOLD: u32 = 3;

/// How far a position must have moved to be saved again, in milliseconds.
pub const POSITION_SAVE_INTERVAL: Millis = 30_000;

/// A position is not saved until it is past this, in milliseconds.
pub const POSITION_SAVE_MINIMUM: Millis = 30_000;

/// A younger stream is not loaded again: its failures are failures to start.
pub const MIN_STREAM_AGE_FOR_RECAST_SECS: u64 = 60;

/// The least time between two reloads.
pub const RECAST_COOLDOWN_SECS: u64 = 30;

/// How long a receiver may buffer before it counts as stalled.
pub const MAX_BUFFERING_DURATION_SECS: u64 = 30;

/// The same for HLS on a Chromecast.
pub const FAST_CHROMECAST_MAX_BUFFERING_DURATION_SECS: u64 = 20;

/// The same for HLS on a Chromecast that was complete before it was loaded.
pub const PREPARED_HLS_CHROMECAST_MAX_BUFFERING_DURATION_SECS: u64 = 15;

// ---------------------------------------------------------------- decisions
/// Whether a dead stream is worth loading again: there is a position to return to, the stream is
/// old enough, and the last reload is long enough ago.
pub fn should_attempt_recast(
    secs_since_last_recast: Option<u64>,
    stream_age_secs: u64,
    have_valid_hwm: bool,
) -> (r: bool)
    ensures
        r == recast_allowed(secs_since_last_recast, stream_age_secs as int, have_valid_hwm),
{
    have_valid_hwm && stream_age_secs >= MIN_STREAM_AGE_FOR_RECAST_SECS
        && match secs_since_last_recast {
        None => true,
        Some(s) => s >= RECAST_COOLDOWN_SECS,
    }
}

/// What [`should_attempt_recast`] asks for.
pub open spec fn recast_allowed(since_last: Option<u64>, age: int, have_hwm: bool) -> bool {
    &&& have_hwm
    &&& age >= MIN_STREAM_AGE_FOR_RECAST_SECS
    &&& (since_last matches Some(s) ==> s >= RECAST_COOLDOWN_SECS)
}

/// A position that moved further than twice the time that passed, and a minute more, cannot be
/// right. The two lengths are in milliseconds.
pub open spec fn impossible_jump(delta_wall: Millis, delta_abs: Millis) -> bool {
    delta_wall > 0 && delta_abs > 2 * delta_wall + 60_000
}

/// Decides [`impossible_jump`].
pub fn is_position_jump_suspicious(delta_wall: Millis, delta_abs: Millis) -> (r: bool)
    ensures
        r == impossible_jump(delta_wall, delta_abs),
{
    if delta_wall <= 0 {
        return false;
    }
    delta_abs as i128 > 2 * (delta_wall as i128) + 60_000
}

/// What a receiver that buffers calls for.
#[derive(Debug, Clone, Copy, PartialEq, Eq, Structural)]
pub enum BufferingDecision {
    /// It has not buffered for long.
    Transient,
    /// It has, but the stream is young: its timer starts anew.
    InStartupWindow,
    /// It has: the stream is stalled.
    EscalateToCleanup,
}

/// What is made of how long a receiver has buffered: what is borne passes, and what is not ends the
/// stream unless it is too young.
pub open spec fn buffering_judged(
    buffering_for_secs: u64,
    stream_age_secs: u64,
    max_buffering_secs: u64,
    min_stream_age_for_recast: u64,
) -> BufferingDecision {
    if buffering_for_secs < max_buffering_secs {
        BufferingDecision::Transient
    } else if stream_age_secs < min_stream_age_for_recast {
        BufferingDecision::InStartupWindow
    } else {
        BufferingDecision::EscalateToCleanup
    }
}

/// Judges how long a receiver has buffered.
pub fn evaluate_buffering_state(
    buffering_for_secs: u64,
    stream_age_secs: u64,
    max_buffering_secs: u64,
    min_stream_age_for_recast: u64,
) -> (r: BufferingDecision)
    ensures
        r == buffering_judged(
            buffering_for_secs,
            stream_age_secs,
            max_buffering_secs,
            min_stream_age_for_recast,
        ),
{
    if buffering_for_secs >= max_buffering_secs {
        if stream_age_secs >= min_stream_age_for_recast {
            BufferingDecision::EscalateToCleanup
        } else {
            BufferingDecision::InStartupWindow
        }
    } else {
        BufferingDecision::Transient
    }
}

/// How long the current stream may buffer, in seconds.
pub open spec fn buffering_timeout(current: Option<CurrentStream>) -> u64 {
    match current {
        Some(c) => if starts_with(c.target@, "chromecast:"@) && contains(c.url@, "/hls/"@) {
            if c.prepared_hls {
                PREPARED_HLS_CHROMECAST_MAX_BUFFERING_DURATION_SECS
            } else {
                FAST_CHROMECAST_MAX_BUFFERING_DURATION_SECS
            }
        } else {
            MAX_BUFFERING_DURATION_SECS
        },
        None => MAX_BUFFERING_DURATION_SECS,
    }
}

/// Computes [`buffering_timeout`].
pub fn buffering_timeout_for_current_stream(current: Option<&CurrentStream>) -> (r: u64)
    ensures
        r == buffering_timeout(
            match current {
                Some(c) => Some(*c),
                None => None,
            },
        ),
{
    match current {
        Some(c) => if begins(c.target.as_str(), "chromecast:") && mentions(c.url.as_str(), "/hls/") {
            if c.prepared_hls {
                PREPARED_HLS_CHROMECAST_MAX_BUFFERING_DURATION_SECS
            } else {
                FAST_CHROMECAST_MAX_BUFFERING_DURATION_SECS
            }
        } else {
            MAX_BUFFERING_DURATION_SECS
        },
        None => MAX_BUFFERING_DURATION_SECS,
    }
}

/// The last known position lies past `percent` of a known duration.
pub open spec fn past_share(duration: Option<Millis>, position: Option<Millis>, percent: i64) -> bool {
    match (duration, position) {
        (Some(d), Some(p)) => d > 0 && 100 * p >= d * percent,
        _ => false,
    }
}

/// Whether a stream that went idle had come to its natural end.
pub fn is_natural_eof(
    duration: Option<Millis>,
    last_known_absolute: Option<Millis>,
    hwm_clear_percent: i64,
) -> (r: bool)
    ensures
        r == past_share(duration, last_known_absolute, hwm_clear_percent),
{
    match (duration, last_known_absolute) {
        (Some(d), Some(p)) => {
            proof {
                lemma_product_fits(d, hwm_clear_percent);
            }
            d > 0 && 100 * (p as i128) >= (d as i128) * (hwm_clear_percent as i128)
        },
        _ => false,
    }
}

proof fn lemma_product_fits(a: i64, b: i64)
    ensures
        i128::MIN <= a * b <= i128::MAX,
{
    assert(-0x8000_0000_0000_0000 * 0x8000_0000_0000_0000 <= a * b <= 0x8000_0000_0000_0000
        * 0x8000_0000_0000_0000) by (nonlinear_arith)
        requires
            -0x8000_0000_0000_0000 <= a <= 0x8000_0000_0000_0000,
            -0x8000_0000_0000_0000 <= b <= 0x8000_0000_0000_0000,
    ;
}

/// The distance between two positions.
pub open spec fn distance(a: Millis, b: Millis) -> int {
    if a >= b {
        a - b
    } else {
        b - a
    }
}

/// Whether a position is worth saving: far enough in, and far enough from the one saved last.
pub fn should_save_position(
    absolute: Millis,
    last_saved: Millis,
    save_interval: Millis,
    minimum_position: Millis,
) -> (r: bool)
    ensures
        r == (absolute > minimum_position && distance(absolute, last_saved) >= save_interval),
{
    let a: i128 = absolute as i128;
    let b: i128 = last_saved as i128;
    absolute > minimum_position && (if a >= b {
        a - b
    } else {
        b - a
    }) >= save_interval as i128
}

/// What a receiver says of itself when it plays nothing.
pub open spec fn is_idle_class(state: Seq<char>) -> bool {
    state == "IDLE"@ || state == "UNKNOWN"@ || state.len() == 0
}

fn idle_class(state: &str) -> (r: bool)
    ensures
        r == is_idle_class(state@),
{
    same(state, "IDLE") || same(state, "UNKNOWN") || state.is_empty()
}

/// An idle receiver is still starting: it has no media session, it gave no state before or an idle
/// one, and the stream is young.
pub open spec fn in_cold_start(
    session: Option<i32>,
    prev: Option<Seq<char>>,
    age: int,
    window: int,
) -> bool {
    session is None && (prev matches Some(s) ==> is_idle_class(s)) && age < window
}

/// Decides [`in_cold_start`].
pub fn is_idle_in_cold_start_window(
    media_session_id: Option<i32>,
    prev_player_state_upper: Option<&str>,
    stream_age_secs: u64,
    cold_start_window_secs: u64,
) -> (r: bool)
    ensures
        r == in_cold_start(
            media_session_id,
            opt_str(prev_player_state_upper),
            stream_age_secs as int,
            cold_start_window_secs as int,
        ),
{
    let prev_is_idle_class = match prev_player_state_upper {
        None => true,
        Some(s) => idle_class(s),
    };
    media_session_id.is_none() && prev_is_idle_class && stream_age_secs < cold_start_window_secs
}

// ------------------------------------------------------------------ the watch
/// What a receiver says when it is asked.
#[derive(Debug, Clone)]
pub struct PlayerInfo {
    pub player_state: String,
    pub current_time: Millis,
    pub duration: Millis,
    pub media_session_id: Option<i32>,
}

/// What is known of the watched stream from its start.
#[derive(Debug, Clone, Copy)]
pub struct Watch {
    pub started_at: Timestamp,
    pub ss_offset: Millis,
    pub duration: Option<Millis>,
}

/// A position to save.
#[derive(Debug, Clone, Copy, PartialEq, Eq, Structural)]
pub struct Save {
    pub position: Millis,
    pub duration: Option<Millis>,
}

/// What the watch does next.
#[derive(Debug, Clone, Copy, PartialEq, Eq, Structural)]
pub enum Verdict {
    /// Sleep, and look again.
    KeepPolling,
    /// Load the stream again, at this position of the source.
    Recast(Millis),
    /// End the stream; it may have come to its natural end.
    GiveUp(bool),
}

/// What the watch remembers from look to look.
#[derive(Debug)]
pub struct Monitor {
    pub consecutive_failures: u32,
    pub last_saved_position: Millis,
    pub last_saved_at: u64,
    pub last_known_absolute: Option<Millis>,
    pub recast_attempts: u32,
    pub last_recast_at: Option<u64>,
    pub buffering_started_at: Option<u64>,
    pub prev_player_state: Option<String>,
    /// Since the stream was loaded the receiver has given a media session, or a state that is not
    /// idle: it is past its start.
    pub begun: bool,
}

impl Watch {
    /// The age of the stream, in whole seconds.
    pub open spec fn age(self, now: Moment) -> int {
        whole_secs(now.wall.total_nanos() - self.started_at.total_nanos())
    }

    /// The position in the source that a receiver's time stands for.
    pub open spec fn absolute(self, info: PlayerInfo) -> Millis {
        clamped(info.current_time + self.ss_offset)
    }

    /// The duration, or what the receiver takes for it.
    pub open spec fn duration_hint(self, info: PlayerInfo) -> Option<Millis> {
        match self.duration {
            Some(d) => Some(d),
            None => if info.duration > 0 {
                Some(info.duration)
            } else {
                None
            },
        }
    }
}

/// A receiver that has buffered too long for a stream that is not young.
pub open spec fn stalled(buffered: int, age: int, timeout: u64) -> bool {
    buffered / 1000 >= timeout && age >= MIN_STREAM_AGE_FOR_RECAST_SECS
}

impl Monitor {
    /// The stream does not count as dead yet.
    pub open spec fn live(&self) -> bool {
        self.consecutive_failures < IDLE_FAILURE_THRESHOLD
    }

    /// Since when the receiver buffers, if it buffers now.
    pub open spec fn buffering_since(&self, now: Moment) -> u64 {
        match self.buffering_started_at {
            Some(t) => t,
            None => now.mono,
        }
    }

    /// The failures in a row after a look at which the receiver gave its state as `upper`.
    pub open spec fn failures_after(
        &self,
        watch: Watch,
        info: PlayerInfo,
        upper: Seq<char>,
        timeout: u64,
        now: Moment,
    ) -> int {
        let age = watch.age(now);
        if is_idle_class(upper) {
            if !self.begun && in_cold_start(
                info.media_session_id,
                opt(self.prev_player_state),
                age,
                MIN_STREAM_AGE_FOR_RECAST_SECS as int,
            ) {
                self.consecutive_failures as int
            } else {
                self.consecutive_failures + 1
            }
        } else if upper == "BUFFERING"@ {
            if stalled(elapsed(self.buffering_since(now), now.mono), age, timeout) {
                IDLE_FAILURE_THRESHOLD as int
            } else {
                self.consecutive_failures as int
            }
        } else {
            0
        }
    }

    /// The position that a look at a playing receiver calls to be saved.
    pub open spec fn save_due(&self, watch: Watch, info: PlayerInfo, now: Moment) -> Option<Save> {
        let absolute = watch.absolute(info);
        let hint = watch.duration_hint(info);
        if absolute > POSITION_SAVE_MINIMUM && distance(absolute, self.last_saved_position)
            >= POSITION_SAVE_INTERVAL && !impossible_jump(
            clamped(elapsed(self.last_saved_at, now.mono)),
            clamped(absolute - self.last_saved_position),
        ) && !(hint matches Some(d) && 100 * absolute >= HWM_CLEAR_PERCENT * d) {
            Some(Save { position: absolute, duration: hint })
        } else {
            None
        }
    }

    /// The watch at its start.
    pub open spec fn fresh(watch: Watch, now: Moment) -> Monitor {
        Monitor {
            consecutive_failures: 0,
            last_saved_position: watch.ss_offset,
            last_saved_at: now.mono,
            last_known_absolute: None,
            recast_attempts: 0,
            last_recast_at: None,
            buffering_started_at: None,
            prev_player_state: None,
            begun: false,
        }
    }

    /// The watch after a look at which the receiver could not be asked.
    pub open spec fn after_failure(self) -> Monitor {
        Monitor { consecutive_failures: (self.consecutive_failures + 1) as u32, ..self }
    }

    /// The watch after a position has been saved.
    pub open spec fn after_saving(self, position: Millis, now: Moment) -> Monitor {
        Monitor { last_saved_position: position, last_saved_at: now.mono, ..self }
    }

    /// The watch after the stream has been loaded again.
    pub open spec fn after_reload(self, now: Moment) -> Monitor {
        Monitor {
            consecutive_failures: 0,
            recast_attempts: if self.recast_attempts < u32::MAX {
                (self.recast_attempts + 1) as u32
            } else {
                u32::MAX
            },
            last_recast_at: Some(now.mono),
            prev_player_state: None,
            begun: false,
            ..self
        }
    }

    /// The watch at its start.
    pub fn new(watch: &Watch, now: &Moment) -> (r: Monitor)
        ensures
            r.live(),
            r == Monitor::fresh(*watch, *now),
    {
        Monitor {
            consecutive_failures: 0,
            last_saved_position: watch.ss_offset,
            last_saved_at: now.mono,
            last_known_absolute: None,
            recast_attempts: 0,
            last_recast_at: None,
            buffering_started_at: None,
            prev_player_state: None,
            begun: false,
        }
    }

    /// Takes in what the receiver said.
    pub fn observe(
        &mut self,
        watch: &Watch,
        info: &PlayerInfo,
        buffering_timeout_secs: u64,
        now: &Moment,
    ) -> (r: Option<Save>)
        requires
            old(self).live(),
        ensures
            observed(
                *old(self),
                *final(self),
                *watch,
                *info,
                uppercase(info.player_state@),
                buffering_timeout_secs,
                *now,
                r,
            ),
    {
        let upper = to_uppercase(info.player_state.as_str());
        self.observe_state(watch, info, upper, buffering_timeout_secs, now)
    }

    /// Takes in what the receiver said, its state given in upper case. Returns the position to
    /// save, if one is due.
    pub fn observe_state(
        &mut self,
        watch: &Watch,
        info: &PlayerInfo,
        upper: String,
        buffering_timeout_secs: u64,
        now: &Moment,
    ) -> (r: Option<Save>)
        requires
            old(self).live(),
        ensures
            observed(
                *old(self),
                *final(self),
                *watch,
                *info,
                upper@,
                buffering_timeout_secs,
                *now,
                r,
            ),
    {
        let age = watch.started_at.secs_until(&now.wall);
        let dead = idle_class(upper.as_str());
        let buffering = same(upper.as_str(), "BUFFERING");
        if dead {
            let starting = !self.begun && is_idle_in_cold_start_window(
                info.media_session_id,
                borrow_opt(&self.prev_player_state),
                age,
                MIN_STREAM_AGE_FOR_RECAST_SECS,
            );
            if !starting {
                self.consecutive_failures += 1;
            }
            self.buffering_started_at = None;
            self.prev_player_state = Some(upper);
            self.begun = self.begun || info.media_session_id.is_some();
            return None;
        }
        self.begun = true;
        if buffering {
            let since = match self.buffering_started_at {
                Some(t) => t,
                None => now.mono,
            };
            let buffered = elapsed_millis(since, now.mono) / 1000;
            match evaluate_buffering_state(
                buffered,
                age,
                buffering_timeout_secs,
                MIN_STREAM_AGE_FOR_RECAST_SECS,
            ) {
                BufferingDecision::EscalateToCleanup => {
                    self.consecutive_failures = IDLE_FAILURE_THRESHOLD;
                    self.buffering_started_at = None;
                },
                BufferingDecision::InStartupWindow => {
                    self.buffering_started_at = None;
                },
                BufferingDecision::Transient => {
                    self.buffering_started_at = Some(since);
                },
            }
            self.prev_player_state = Some(upper);
            return None;
        }
        self.consecutive_failures = 0;
        self.buffering_started_at = None;
        self.prev_player_state = Some(upper);
        let absolute = add_millis(info.current_time, watch.ss_offset);
        if info.current_time > 0 {
            self.last_known_absolute = Some(absolute);
        }
        let hint = match watch.duration {
            Some(d) => Some(d),
            None => if info.duration > 0 {
                Some(info.duration)
            } else {
                None
            },
        };
        if !should_save_position(
            absolute,
            self.last_saved_position,
            POSITION_SAVE_INTERVAL,
            POSITION_SAVE_MINIMUM,
        ) {
            return None;
        }
        let passed: u64 = elapsed_millis(self.last_saved_at, now.mono);
        let delta_wall: Millis = if passed > i64::MAX as u64 { i64::MAX } else { passed as i64 };
        let delta_abs = sub_millis(absolute, self.last_saved_position);
        if is_position_jump_suspicious(delta_wall, delta_abs) {
            return None;
        }
        let past_end = match hint {
            Some(d) => 100 * (absolute as i128) >= HWM_CLEAR_PERCENT as i128 * d as i128,
            None => false,
        };
        if past_end {
            return None;
        }
        Some(Save { position: absolute, duration: hint })
    }

    /// Takes in that the receiver could not be asked.
    pub fn observe_failure(&mut self)
        requires
            old(self).live(),
        ensures
            *final(self) == old(self).after_failure(),
    {
        self.consecutive_failures += 1;
    }

    /// Takes in that a position has been saved.
    pub fn note_saved(&mut self, position: Millis, now: &Moment)
        ensures
            *final(self) == old(self).after_saving(position, *now),
    {
        self.last_saved_position = position;
        self.last_saved_at = now.mono;
    }

    /// Takes in that the stream has been loaded again.
    pub fn note_recast(&mut self, now: &Moment)
        ensures
            *final(self) == old(self).after_reload(*now),
            final(self).live(),
    {
        if self.recast_attempts < u32::MAX {
            self.recast_attempts += 1;
        }
        self.last_recast_at = Some(now.mono);
        self.consecutive_failures = 0;
        self.prev_player_state = None;
        self.begun = false;
    }

    /// Whole seconds since the last reload.
    pub open spec fn since_recast(&self, now: Moment) -> Option<u64> {
        match self.last_recast_at {
            Some(t) => Some((elapsed(t, now.mono) / 1000) as u64),
            None => None,
        }
    }

    /// Decides what the watch does next: a stream that is not dead goes on; a dead one is loaded
    /// again where that is worth it and it was not at its end; else it is given up.
    pub fn verdict(&self, watch: &Watch, now: &Moment) -> (r: Verdict)
        ensures
            r == judged(*self, *watch, *now),
    {
        if self.consecutive_failures < IDLE_FAILURE_THRESHOLD {
            return Verdict::KeepPolling;
        }
        let natural = is_natural_eof(watch.duration, self.last_known_absolute, HWM_CLEAR_PERCENT);
        let since = match self.last_recast_at {
            Some(t) => Some(elapsed_millis(t, now.mono) / 1000),
            None => None,
        };
        let age = watch.started_at.secs_until(&now.wall);
        if !natural && should_attempt_recast(since, age, self.last_known_absolute.is_some()) {
            let hwm = match self.last_known_absolute {
                Some(p) => p,
                None => self.last_saved_position,
            };
            Verdict::Recast(hwm)
        } else {
            Verdict::GiveUp(natural)
        }
    }
}

/// What [`Monitor::verdict`] decides.
pub open spec fn judged(m: Monitor, watch: Watch, now: Moment) -> Verdict {
    let natural = past_share(watch.duration, m.last_known_absolute, HWM_CLEAR_PERCENT);
    if m.live() {
        Verdict::KeepPolling
    } else if !natural && recast_allowed(
        m.since_recast(now),
        watch.age(now),
        m.last_known_absolute is Some,
    ) {
        Verdict::Recast(m.last_known_absolute->0)
    } else {
        Verdict::GiveUp(natural)
    }
}

/// What a look does, at which the receiver gave its state as `upper`.
pub open spec fn observed(
    before: Monitor,
    after: Monitor,
    watch: Watch,
    info: PlayerInfo,
    upper: Seq<char>,
    timeout: u64,
    now: Moment,
    save: Option<Save>,
) -> bool {
    let playing = !is_idle_class(upper) && upper != "BUFFERING"@;
    let since = before.buffering_since(now);
    &&& after == (Monitor {
        consecutive_failures: after.consecutive_failures,
        last_known_absolute: after.last_known_absolute,
        buffering_started_at: after.buffering_started_at,
        prev_player_state: after.prev_player_state,
        begun: after.begun,
        ..before
    })
    &&& after.consecutive_failures == before.failures_after(watch, info, upper, timeout, now)
    &&& opt(after.prev_player_state) == Some(upper)
    &&& after.begun == (before.begun || info.media_session_id is Some || !is_idle_class(upper))
    &&& after.buffering_started_at == if !is_idle_class(upper) && upper == "BUFFERING"@ && elapsed(
        since,
        now.mono,
    ) / 1000 < timeout {
        Some(since)
    } else {
        None
    }
    &&& after.last_known_absolute == if playing && info.current_time > 0 {
        Some(watch.absolute(info))
    } else {
        before.last_known_absolute
    }
    &&& save == if playing {
        before.save_due(watch, info, now)
    } else {
        None
    }
}

// ----------------------------------------------------------------------- laws
/// Two reloads of one stream are never closer than the cooldown, and a young stream, or one that
/// has come to its end, is never loaded again.
pub proof fn reloads_are_rationed(m: Monitor, watch: Watch, now: Moment)
    requires
        judged(m, watch, now) is Recast,
    ensures
        m.last_recast_at matches Some(t) ==> elapsed(t, now.mono) >= RECAST_COOLDOWN_SECS * 1000,
        watch.age(now) >= MIN_STREAM_AGE_FOR_RECAST_SECS,
        !past_share(watch.duration, m.last_known_absolute, HWM_CLEAR_PERCENT),
{
}

/// A receiver that plays, one that is starting up, and one that has buffered for less than the
/// timeout never bring a stream nearer to being given up.
pub proof fn transient_states_are_not_failures(
    before: Monitor,
    after: Monitor,
    watch: Watch,
    info: PlayerInfo,
    upper: Seq<char>,
    timeout: u64,
    now: Moment,
    save: Option<Save>,
)
    requires
        before.live(),
        observed(before, after, watch, info, upper, timeout, now, save),
        is_idle_class(upper) ==> !before.begun && info.media_session_id is None && watch.age(now)
            < MIN_STREAM_AGE_FOR_RECAST_SECS && (before.prev_player_state matches Some(p)
            ==> is_idle_class(p@)),
        upper == "BUFFERING"@ ==> watch.age(now) < MIN_STREAM_AGE_FOR_RECAST_SECS || elapsed(
            before.buffering_since(now),
            now.mono,
        ) / 1000 < timeout,
    ensures
        after.consecutive_failures <= before.consecutive_failures,
        after.live(),
        judged(after, watch, now) is KeepPolling,
{
}

/// Three idle looks in a row end a stream that was seen to play, however young it is: the grace
/// of its start is over. While it is too young to be loaded again it is given up.
pub proof fn a_stream_that_played_has_no_grace(
    before: Monitor,
    played: Monitor,
    first: Monitor,
    second: Monitor,
    third: Monitor,
    watch: Watch,
    infos: (PlayerInfo, PlayerInfo, PlayerInfo, PlayerInfo),
    states: (Seq<char>, Seq<char>, Seq<char>, Seq<char>),
    timeout: u64,
    times: (Moment, Moment, Moment, Moment),
    save: Option<Save>,
)
    requires
        before.live(),
        !is_idle_class(states.0),
        states.0 != "BUFFERING"@,
        is_idle_class(states.1),
        is_idle_class(states.2),
        is_idle_class(states.3),
        observed(before, played, watch, infos.0, states.0, timeout, times.0, save),
        observed(played, first, watch, infos.1, states.1, timeout, times.1, None),
        observed(first, second, watch, infos.2, states.2, timeout, times.2, None),
        observed(second, third, watch, infos.3, states.3, timeout, times.3, None),
    ensures
        first.consecutive_failures == 1,
        second.consecutive_failures == 2,
        third.consecutive_failures == 3,
        !(judged(third, watch, times.3) is KeepPolling),
        watch.age(times.3) < MIN_STREAM_AGE_FOR_RECAST_SECS ==> judged(third, watch, times.3)
            is GiveUp,
{
}

/// A stream is given up or loaded again only after three failed looks in a row, or after it has
/// stalled: one look adds at most one failure unless it finds a stall.
pub proof fn failures_add_up_one_by_one(
    before: Monitor,
    after: Monitor,
    watch: Watch,
    info: PlayerInfo,
    upper: Seq<char>,
    timeout: u64,
    now: Moment,
    save: Option<Save>,
)
    requires
        before.live(),
        observed(before, after, watch, info, upper, timeout, now, save),
    ensures
        after.consecutive_failures <= IDLE_FAILURE_THRESHOLD,
        after.consecutive_failures <= before.consecutive_failures + 1 || (upper == "BUFFERING"@
            && stalled(elapsed(before.buffering_since(now), now.mono), watch.age(now), timeout)),
{
}

/// A position that is saved has moved far enough, no faster than is possible, and is not at the
/// end; so a position once saved is not saved again in the same place.
pub proof fn saves_are_throttled_and_plausible(
    before: Monitor,
    after: Monitor,
    watch: Watch,
    info: PlayerInfo,
    upper: Seq<char>,
    timeout: u64,
    now: Moment,
    save: Save,
)
    requires
        observed(before, after, watch, info, upper, timeout, now, Some(save)),
    ensures
        !is_idle_class(upper),
        upper != "BUFFERING"@,
        save.position == watch.absolute(info),
        save.position > POSITION_SAVE_MINIMUM,
        distance(save.position, before.last_saved_position) >= POSITION_SAVE_INTERVAL,
        !impossible_jump(
            clamped(elapsed(before.last_saved_at, now.mono)),
            clamped(save.position - before.last_saved_position),
        ),
{
}

// -------------------------------------------------------------- loading again
/// What a receiver is told of a stream beside its address.
#[derive(Debug, Clone)]
pub struct CastMetadata {
    pub title: Option<String>,
    pub series_title: Option<String>,
    pub season: Option<u32>,
    pub episode: Option<u32>,
    pub poster_url: Option<String>,
    pub release_date: Option<String>,
}

/// How a stream is loaded again.
#[derive(Debug, Clone)]
pub struct RecastPlan {
    pub url: String,
    pub content_type: String,
    pub metadata: CastMetadata,
    /// Where to seek to within the stream, whose own time starts at the offset.
    pub seek: Option<Millis>,
}

/// The metadata of a stream: all that is known where the rich form is wanted, else none.
pub open spec fn metadata_of(m: CastMetadata, c: CurrentStream, rich: bool) -> bool {
    if rich {
        &&& opt(m.title) == (if c.title@.len() > 0 {
            Some(c.title@)
        } else {
            None
        })
        &&& m.series_title == c.show
        &&& m.season == c.season
        &&& m.episode == c.episode
        &&& m.poster_url == c.poster_url
        &&& m.release_date is None
    } else {
        m == (CastMetadata {
            title: None,
            series_title: None,
            season: None,
            episode: None,
            poster_url: None,
            release_date: None,
        })
    }
}

/// The content type of a stream at an address.
pub open spec fn content_type_for(url: Seq<char>) -> Seq<char> {
    if ends_with(url, ".m3u8"@) || contains(url, "/hls/"@) {
        "application/vnd.apple.mpegurl"@
    } else {
        "video/mp4"@
    }
}

/// `plan` loads a stream again, and returns to a position of the source where that is more than a
/// second into the stream.
pub open spec fn is_reload_of(
    plan: RecastPlan,
    current: CurrentStream,
    rich_metadata: bool,
    hwm: Millis,
    ss_offset: Millis,
) -> bool {
    &&& plan.url == current.url
    &&& plan.content_type@ == content_type_for(current.url@)
    &&& metadata_of(plan.metadata, current, rich_metadata)
    &&& plan.seek == if clamped(hwm - ss_offset) > 1000 {
        Some(clamped(hwm - ss_offset))
    } else {
        None
    }
}

/// Plans to load a stream again and to return to a position of the source.
pub fn recast_plan(current: &CurrentStream, rich_metadata: bool, hwm: Millis, ss_offset: Millis) -> (r:
    RecastPlan)
    ensures
        is_reload_of(r, *current, rich_metadata, hwm, ss_offset),
{
    let metadata = if rich_metadata {
        CastMetadata {
            title: if current.title.as_str().is_empty() {
                None
            } else {
                Some(current.title.clone())
            },
            series_title: copy_opt(&current.show),
            season: current.season,
            episode: current.episode,
            poster_url: copy_opt(&current.poster_url),
            release_date: None,
        }
    } else {
        CastMetadata {
            title: None,
            series_title: None,
            season: None,
            episode: None,
            poster_url: None,
            release_date: None,
        }
    };
    let url = current.url.clone();
    let content_type = if ends(url.as_str(), ".m3u8") || mentions(url.as_str(), "/hls/") {
        "application/vnd.apple.mpegurl".to_owned()
    } else {
        "video/mp4".to_owned()
    };
    let within = sub_millis(hwm, ss_offset);
    RecastPlan {
        url,
        content_type,
        metadata,
        seek: if within > 1000 {
            Some(within)
        } else {
            None
        },
    }
}

// ------------------------------------------------------------------ the queue
/// `after` is `before` without the front of its queue, which is `taken`.
pub open spec fn front_taken(before: AppState, after: AppState, taken: Option<QueuedItem>) -> bool {
    match taken {
        Some(item) => {
            &&& before.queue@.len() > 0
            &&& item == before.queue@[0]
            &&& after == (AppState { queue: after.queue, ..before })
            &&& after.queue@ == before.queue@.drop_first()
        },
        None => before.queue@.len() == 0 && after == before,
    }
}

/// Takes the front of the queue, if there is one.
pub fn take_next(state: &mut AppState) -> (r: Option<QueuedItem>)
    ensures
        front_taken(*old(state), *final(state), r),
{
    if state.queue.len() == 0 {
        None
    } else {
        let item = state.queue.remove(0);
        assert(state.queue@ =~= old(state).queue@.drop_first());
        Some(item)
    }
}

/// The address at which the server reaches its own `/play`: the host that it is bound to, or
/// loopback where that is every host.
pub open spec fn own_play_url(host: Seq<char>, port: u16) -> Seq<char> {
    "http://"@ + (if host.len() == 0 || host == "0.0.0.0"@ {
        "127.0.0.1"@
    } else {
        host
    }) + ":"@ + dec(port as nat) + "/play"@
}

/// Builds [`own_play_url`].
pub fn self_call_url(host: &str, port: u16) -> (r: String)
    ensures
        r@ == own_play_url(host@, port),
{
    let mut url = "http://".to_owned();
    if host.is_empty() || same(host, "0.0.0.0") {
        url.append("127.0.0.1");
    } else {
        url.append(host);
    }
    url.append(":");
    push_dec(&mut url, port as u64);
    url.append("/play");
    url
}

} // verus!
