//! What holds of the watch over a cast stream from its first look to its last.
use vstd::prelude::*;

use crate::cast_health::{
    buffering_judged, buffering_timeout, front_taken, is_reload_of, judged, metadata_of, observed,
    own_play_url, CastMetadata, Monitor, PlayerInfo, RecastPlan, Save, Verdict, Watch,
};
use crate::requests::enqueued;
use crate::state::{AppState, CurrentStream, QueuedItem};
use crate::text::{contains, dec, ends_with, starts_with};
use crate::time::{Millis, Moment};
use crate::titles::opt;

verus! {

/// Something that the watch takes in.
pub enum Event {
    /// A look at which the receiver gave its state, in upper case, and what was to be saved then.
    Look(PlayerInfo, Seq<char>, u64, Moment, Option<Save>),
    /// A look at which it could not be asked.
    Failure,
    /// A position was saved.
    Saved(Millis, Moment),
    /// The stream was loaded again.
    Reload(Moment),
}

/// The watch takes something in.
pub open spec fn takes_in(before: Monitor, after: Monitor, watch: Watch, event: Event) -> bool {
    match event {
        Event::Look(info, upper, timeout, now, save) => observed(
            before,
            after,
            watch,
            info,
            upper,
            timeout,
            now,
            save,
        ),
        Event::Failure => after == before.after_failure(),
        Event::Saved(position, now) => after == before.after_saving(position, now),
        Event::Reload(now) => after == before.after_reload(now),
    }
}

/// The receiver says that it plays: it gives a state, and it is none of these.
pub open spec fn says_playing(upper: Seq<char>) -> bool {
    upper.len() > 0 && upper != "IDLE"@ && upper != "UNKNOWN"@ && upper != "BUFFERING"@
}

/// The receiver plays, and has got anywhere.
pub open spec fn plays_on(event: Event) -> bool {
    event matches Event::Look(info, upper, _, _, _) && says_playing(upper) && info.current_time > 0
}

/// The monitors of a course: each comes of the one before it by an event.
pub open spec fn is_course(course: Seq<Monitor>, watch: Watch, events: Seq<Event>) -> bool {
    &&& course.len() == events.len() + 1
    &&& forall|i: int|
        0 <= i < events.len() ==> takes_in(
            #[trigger] course[i],
            course[i + 1],
            watch,
            events[i],
        )
}

proof fn lemma_position_stays(
    course: Seq<Monitor>,
    watch: Watch,
    events: Seq<Event>,
    from: int,
    to: int,
)
    requires
        is_course(course, watch, events),
        0 <= from <= to <= events.len(),
        forall|i: int| from <= i < to ==> !plays_on(#[trigger] events[i]),
    ensures
        course[to].last_known_absolute == course[from].last_known_absolute,
    decreases to - from,
{
    reveal_strlit("IDLE");
    reveal_strlit("UNKNOWN");
    reveal_strlit("BUFFERING");
    if from < to {
        lemma_position_stays(course, watch, events, from, to - 1);
        assert(takes_in(course[to - 1], course[to - 1 + 1], watch, events[to - 1]));
        assert(!plays_on(events[to - 1]));
    }
}

/// A stream that is loaded again goes on where it was: the position that the watch gives is the
/// one in the source of the last look at which the receiver played, its own time and the offset
/// of the stream together; and what the reload seeks to within the stream is the receiver's own
/// time at that look, whatever the offset.
pub proof fn a_reload_goes_on_where_it_was(
    course: Seq<Monitor>,
    watch: Watch,
    events: Seq<Event>,
    last: int,
    info: PlayerInfo,
    now: Moment,
    hwm: Millis,
    plan: RecastPlan,
    current: CurrentStream,
    rich_metadata: bool,
)
    requires
        is_course(course, watch, events),
        0 <= last < events.len(),
        plays_on(events[last]),
        events[last]->Look_0 == info,
        i64::MIN <= info.current_time + watch.ss_offset <= i64::MAX,
        forall|i: int| last < i < events.len() ==> !plays_on(#[trigger] events[i]),
        judged(course.last(), watch, now) == Verdict::Recast(hwm),
        is_reload_of(plan, current, rich_metadata, hwm, watch.ss_offset),
    ensures
        hwm == info.current_time + watch.ss_offset,
        info.current_time > 1000 ==> plan.seek == Some(info.current_time),
        info.current_time <= 1000 ==> plan.seek is None,
{
    reveal_strlit("IDLE");
    reveal_strlit("UNKNOWN");
    reveal_strlit("BUFFERING");
    assert(takes_in(course[last], course[last + 1], watch, events[last]));
    lemma_position_stays(course, watch, events, last + 1, events.len() as int);
}

/// A stream of which the receiver never played anything is not loaded again: there is nothing to
/// return to.
pub proof fn what_never_played_is_not_loaded_again(
    course: Seq<Monitor>,
    watch: Watch,
    events: Seq<Event>,
    begun: Moment,
    now: Moment,
)
    requires
        is_course(course, watch, events),
        course[0] == Monitor::fresh(watch, begun),
        forall|i: int| 0 <= i < events.len() ==> !plays_on(#[trigger] events[i]),
    ensures
        !(judged(course.last(), watch, now) is Recast),
{
    lemma_position_stays(course, watch, events, 0, events.len() as int);
}

/// How a stream is judged, by what is known of it: it is dead after three failures; a dead one of
/// which 96 of 100 parts have passed is at its end; another is loaded again where a position is
/// known, it has run for a minute, and the last reload is half a minute ago.
pub proof fn dead_streams_are_recovered_or_given_up(m: Monitor, watch: Watch, now: Moment)
    ensures
        judged(m, watch, now) is KeepPolling <==> m.consecutive_failures < 3,
        m.consecutive_failures >= 3 && m.last_known_absolute is None ==> judged(m, watch, now)
            == Verdict::GiveUp(false),
        m.consecutive_failures >= 3 && watch.duration is Some && watch.duration->0 > 0
            && m.last_known_absolute is Some && 100 * m.last_known_absolute->0 >= 96
            * watch.duration->0 ==> judged(m, watch, now) == Verdict::GiveUp(true),
        judged(m, watch, now) == Verdict::GiveUp(true) ==> watch.duration is Some
            && m.last_known_absolute is Some && 100 * m.last_known_absolute->0 >= 96
            * watch.duration->0,
        m.consecutive_failures >= 3 && m.last_known_absolute is Some && (watch.duration is None
            || watch.duration->0 <= 0 || 100 * m.last_known_absolute->0 < 96 * watch.duration->0)
            && now.wall.total_nanos() - watch.started_at.total_nanos() >= 60_000_000_000 && (
        m.last_recast_at is None || now.mono >= m.last_recast_at->0 + 30_000) ==> judged(
            m,
            watch,
            now,
        ) == Verdict::Recast(m.last_known_absolute->0),
        judged(m, watch, now) is Recast ==> now.wall.total_nanos()
            - watch.started_at.total_nanos() >= 60_000_000_000 && (m.last_recast_at is None
            || now.mono >= m.last_recast_at->0 + 30_000),
{
}

/// A reload starts the count of failures anew and is remembered, and the watch goes on; what was
/// known of the position stays known.
pub proof fn a_reload_is_one_more_chance(m: Monitor, watch: Watch, now: Moment, later: Moment)
    ensures
        m.after_reload(now).consecutive_failures == 0,
        m.after_reload(now).last_recast_at == Some(now.mono),
        m.recast_attempts < u32::MAX ==> m.after_reload(now).recast_attempts == m.recast_attempts
            + 1,
        m.after_reload(now).last_known_absolute == m.last_known_absolute,
        m.after_reload(now).last_saved_position == m.last_saved_position,
        !m.after_reload(now).begun,
        m.after_reload(now).prev_player_state is None,
        judged(m.after_reload(now), watch, later) is KeepPolling,
{
}

/// What a look counts. A receiver that plays clears all failures. One that is idle adds one, but
/// for one that was never past its start and has no session within the first minute. One that
/// buffers adds none until it has buffered for the timeout past that minute: then the stream is
/// dead at once.
pub proof fn looks_are_counted(
    before: Monitor,
    after: Monitor,
    watch: Watch,
    info: PlayerInfo,
    upper: Seq<char>,
    timeout: u64,
    now: Moment,
    save: Option<Save>,
)
    requires
        before.live(),
        observed(before, after, watch, info, upper, timeout, now, save),
    ensures
        ({
            let age = now.wall.total_nanos() - watch.started_at.total_nanos();
            let idle = upper.len() == 0 || upper == "IDLE"@ || upper == "UNKNOWN"@;
            let since = match before.buffering_started_at {
                Some(t) => t,
                None => now.mono,
            };
            let buffered = if now.mono >= since {
                now.mono - since
            } else {
                0
            };
            &&& says_playing(upper) ==> after.consecutive_failures == 0 && judged(
                after,
                watch,
                now,
            ) is KeepPolling
            &&& idle && (before.begun || info.media_session_id is Some || age >= 60_000_000_000)
                ==> after.consecutive_failures == before.consecutive_failures + 1
            &&& idle && before.prev_player_state is Some && says_playing(
                before.prev_player_state->0@,
            ) ==> after.consecutive_failures == before.consecutive_failures + 1
            &&& idle && !before.begun && info.media_session_id is None && age < 60_000_000_000
                && before.prev_player_state is None ==> after.consecutive_failures
                == before.consecutive_failures
            &&& upper == "BUFFERING"@ && buffered / 1000 < timeout ==> after.consecutive_failures
                == before.consecutive_failures && after.buffering_started_at == Some(since)
            &&& upper == "BUFFERING"@ && age < 60_000_000_000 ==> after.consecutive_failures
                == before.consecutive_failures
            &&& upper == "BUFFERING"@ && buffered / 1000 >= timeout && age >= 60_000_000_000
                ==> after.consecutive_failures == 3 && !(judged(after, watch, now) is KeepPolling)
            &&& upper != "BUFFERING"@ ==> after.buffering_started_at is None
            &&& !idle || info.media_session_id is Some || before.begun ==> after.begun
        }),
{
    reveal_strlit("IDLE");
    reveal_strlit("UNKNOWN");
    reveal_strlit("BUFFERING");
    assert("IDLE"@.len() == 4 && "UNKNOWN"@.len() == 7 && "BUFFERING"@.len() == 9);
}

/// A look that fails altogether adds one failure and tells nothing else.
pub proof fn a_failed_look_adds_one(m: Monitor)
    requires
        m.live(),
    ensures
        m.after_failure().consecutive_failures == m.consecutive_failures + 1,
        m.after_failure().last_known_absolute == m.last_known_absolute,
        m.after_failure().last_saved_position == m.last_saved_position,
{
}

/// The position of a receiver that plays is saved exactly where it is past the first half minute,
/// half a minute away from the one saved last, no further than twice the time since then and a
/// minute, and not within the last 4 of 100 parts; and what is saved is the position in the
/// source, with the duration as far as it is known. Nothing is saved of a receiver that does not
/// play.
pub proof fn positions_are_saved_as_they_pass(
    before: Monitor,
    after: Monitor,
    watch: Watch,
    info: PlayerInfo,
    upper: Seq<char>,
    timeout: u64,
    now: Moment,
    save: Option<Save>,
)
    requires
        observed(before, after, watch, info, upper, timeout, now, save),
        i64::MIN <= info.current_time + watch.ss_offset <= i64::MAX,
        i64::MIN <= info.current_time + watch.ss_offset - before.last_saved_position <= i64::MAX,
        now.mono <= i64::MAX,
    ensures
        ({
            let at = info.current_time + watch.ss_offset;
            let moved = at - before.last_saved_position;
            let passed = if now.mono >= before.last_saved_at {
                now.mono - before.last_saved_at
            } else {
                0
            };
            let length: Option<Millis> = if watch.duration is Some {
                watch.duration
            } else if info.duration > 0 {
                Some(info.duration)
            } else {
                None
            };
            let due = at > 30_000 && (moved >= 30_000 || moved <= -30_000) && (passed == 0 || moved
                <= 2 * passed + 60_000) && (length is None || 100 * at < 96 * length->0);
            &&& !says_playing(upper) ==> save is None
            &&& says_playing(upper) && due ==> save is Some && save->0.position == at
                && save->0.duration == length
            &&& says_playing(upper) && !due ==> save is None
        }),
{
    reveal_strlit("IDLE");
    reveal_strlit("UNKNOWN");
    reveal_strlit("BUFFERING");
}

/// A watch begins at the offset of its stream: a receiver that has not moved on from there has
/// nothing to save, and one that has is measured from there.
pub proof fn a_watch_begins_at_the_offset(watch: Watch, now: Moment)
    ensures
        Monitor::fresh(watch, now).last_saved_position == watch.ss_offset,
        Monitor::fresh(watch, now).last_saved_at == now.mono,
        Monitor::fresh(watch, now).consecutive_failures == 0,
        Monitor::fresh(watch, now).last_known_absolute is None,
        Monitor::fresh(watch, now).last_recast_at is None,
        Monitor::fresh(watch, now).recast_attempts == 0,
        Monitor::fresh(watch, now).buffering_started_at is None,
        Monitor::fresh(watch, now).prev_player_state is None,
        !Monitor::fresh(watch, now).begun,
{
}

/// What is saved is what the next position is measured from.
pub proof fn saves_are_measured_from_the_last(m: Monitor, position: Millis, now: Moment)
    ensures
        m.after_saving(position, now).last_saved_position == position,
        m.after_saving(position, now).last_saved_at == now.mono,
        m.after_saving(position, now).consecutive_failures == m.consecutive_failures,
        m.after_saving(position, now).last_known_absolute == m.last_known_absolute,
{
}

/// How long a stream may buffer: a quarter of a minute where it goes to a Chromecast as HLS that
/// was complete before, a third of one where it was not, and half a minute anywhere else.
pub proof fn buffering_is_borne_by_kind(current: Option<CurrentStream>)
    ensures
        ({
            let cast_hls = current is Some && starts_with(current->0.target@, "chromecast:"@)
                && contains(current->0.url@, "/hls/"@);
            &&& cast_hls && current->0.prepared_hls ==> buffering_timeout(current) == 15
            &&& cast_hls && !current->0.prepared_hls ==> buffering_timeout(current) == 20
            &&& !cast_hls ==> buffering_timeout(current) == 30
        }),
{
}

/// A stream is loaded again from the address that it plays from, as what it is, and with all that
/// is known of it where that is wanted and nothing where it is not.
pub proof fn a_reload_is_of_the_same_stream(
    plan: RecastPlan,
    current: CurrentStream,
    rich_metadata: bool,
    hwm: Millis,
    ss_offset: Millis,
)
    requires
        is_reload_of(plan, current, rich_metadata, hwm, ss_offset),
    ensures
        plan.url@ == current.url@,
        ends_with(current.url@, ".m3u8"@) || contains(current.url@, "/hls/"@)
            ==> plan.content_type@ == "application/vnd.apple.mpegurl"@,
        !ends_with(current.url@, ".m3u8"@) && !contains(current.url@, "/hls/"@)
            ==> plan.content_type@ == "video/mp4"@,
        rich_metadata && current.title@.len() > 0 ==> opt(plan.metadata.title) == Some(
            current.title@,
        ),
        rich_metadata ==> plan.metadata.series_title == current.show && plan.metadata.season
            == current.season && plan.metadata.episode == current.episode
            && plan.metadata.poster_url == current.poster_url,
        !rich_metadata ==> plan.metadata.title is None && plan.metadata.series_title is None
            && plan.metadata.season is None && plan.metadata.episode is None
            && plan.metadata.poster_url is None,
{
}

/// The queue is first in, first out, call by call: what is queued is taken when all that was there
/// before it has been, and nothing but the queue changes.
pub proof fn what_is_queued_plays_in_order(
    before: AppState,
    queued: AppState,
    after: AppState,
    item: QueuedItem,
    length: usize,
    taken: Option<QueuedItem>,
)
    requires
        enqueued(before, queued, item, length),
        front_taken(queued, after, taken),
    ensures
        length == before.queue@.len() + 1,
        before.queue@.len() == 0 ==> taken == Some(item) && after.queue@.len() == 0,
        before.queue@.len() > 0 ==> taken == Some(before.queue@[0]) && after.queue@.len()
            == before.queue@.len() && after.queue@.last() == item,
        forall|i: int|
            1 <= i < before.queue@.len() ==> (#[trigger] before.queue@[i]) == after.queue@[i - 1],
        after.current == before.current,
        after.history == before.history,
        after.watched == before.watched,
        after.resume_positions == before.resume_positions,
{
}

/// The server calls itself where it listens: at the host that it is bound to, and at the loopback
/// where that is none or every host; always at its own port, and always to play.
pub proof fn the_server_calls_itself(host: Seq<char>, port: u16)
    ensures
        host.len() > 0 && host != "0.0.0.0"@ ==> own_play_url(host, port) == "http://"@ + host
            + ":"@ + dec(port as nat) + "/play"@,
        host.len() == 0 || host == "0.0.0.0"@ ==> own_play_url(host, port)
            == "http://127.0.0.1:"@ + dec(port as nat) + "/play"@,
{
    reveal_strlit("http://");
    reveal_strlit("127.0.0.1");
    reveal_strlit(":");
    reveal_strlit("http://127.0.0.1:");
    if host.len() == 0 || host == "0.0.0.0"@ {
        assert("http://"@ + "127.0.0.1"@ + ":"@ =~= "http://127.0.0.1:"@);
    }
}

/// A receiver that has buffered for less than is borne is left alone; one that has buffered for
/// longer ends the stream, unless the stream is too young.
pub proof fn buffering_is_judged_by_its_length(secs: u64, age: u64, borne: u64, young: u64)
    ensures
        buffering_judged(secs, age, borne, young) is Transient <==> secs < borne,
        buffering_judged(secs, age, borne, young) is InStartupWindow <==> secs >= borne && age
            < young,
        buffering_judged(secs, age, borne, young) is EscalateToCleanup <==> secs >= borne && age
            >= young,
{
}

/// A look remembers the state that the receiver gave, and that a session has begun where it gave
/// one or a state that is not idle; once begun it stays so.
pub proof fn looks_remember_what_was_said(
    before: Monitor,
    after: Monitor,
    watch: Watch,
    info: PlayerInfo,
    upper: Seq<char>,
    timeout: u64,
    now: Moment,
    save: Option<Save>,
)
    requires
        observed(before, after, watch, info, upper, timeout, now, save),
    ensures
        opt(after.prev_player_state) == Some(upper),
        before.begun ==> after.begun,
        info.media_session_id is Some ==> after.begun,
        upper == "PLAYING"@ || upper == "PAUSED"@ || upper == "BUFFERING"@ ==> after.begun,
        info.current_time <= 0 ==> after.last_known_absolute == before.last_known_absolute,
        after.recast_attempts == before.recast_attempts,
        after.last_recast_at == before.last_recast_at,
        after.last_saved_position == before.last_saved_position,
{
    reveal_strlit("IDLE");
    reveal_strlit("UNKNOWN");
    reveal_strlit("PLAYING");
    reveal_strlit("PAUSED");
    reveal_strlit("BUFFERING");
    assert("PLAYING"@[0] == 'P' && "PAUSED"@[0] == 'P' && "BUFFERING"@[0] == 'B');
    assert("IDLE"@[0] == 'I' && "UNKNOWN"@[0] == 'U');
}

/// A receiver is told all that is known of a stream or nothing, and never a date.
pub proof fn metadata_is_all_or_nothing(m: CastMetadata, c: CurrentStream, rich: bool)
    requires
        metadata_of(m, c, rich),
    ensures
        m.release_date is None,
        rich ==> m.series_title == c.show && m.season == c.season && m.episode == c.episode
            && m.poster_url == c.poster_url,
        rich && c.title@.len() > 0 ==> opt(m.title) == Some(c.title@),
        rich && c.title@.len() == 0 ==> m.title is None,
        !rich ==> m.title is None && m.series_title is None && m.season is None && m.episode is None
            && m.poster_url is None,
{
}

/// Nothing is taken from a queue that holds nothing, and nothing is changed by that.
pub proof fn an_empty_queue_gives_nothing(
    before: AppState,
    after: AppState,
    taken: Option<QueuedItem>,
)
    requires
        front_taken(before, after, taken),
    ensures
        taken is None <==> before.queue@.len() == 0,
        taken is None ==> after == before,
        taken is Some ==> before.queue@ == seq![taken->0] + after.queue@,
{
    if taken is Some {
        assert(before.queue@ =~= seq![taken->0] + after.queue@);
    }
}

} // verus!
