//! What holds of the smaller requests: what is set is kept, what is asked for is told, what is noted
//! is found again, and what has ended is cleaned up and kept where it can serve again.
use vstd::prelude::*;

use crate::hosts::last_index_of;
use crate::log_ring::path_in_ring;
use crate::reaper::{
    any_ended, bytes_in_cap, corruption_noted, is_current, key_to_keep, step_of_reaper, ReaperStep,
};
use crate::requests::{
    is_hostname, is_short_name, position_checked, preferences_set, query_asked, queue_emptied,
    reset_checked, restarted_at, runs_on, shown_of, status_of, stream_forgotten, tells_receiver,
    PositionError, QueueError, ReceiverConfig,
};
use crate::show_notes::{note_for, notes_file, notes_with, verdict, ShowNote};
use crate::state::{position_in, AppState, CurrentStream, Preferences};
use crate::text::{ascii_lower, contains, dec, lemma_dec, lowercase, starts_with, trim};
use crate::text_laws::prefixes_come_off;
use crate::time::Millis;
use crate::titles::{common_form, opt};
use crate::transcode::corruption;
use crate::validation::is_imdb_id;

verus! {

// ------------------------------------------------------------------ preferences
/// A preference that is given is set, and one that is not stays: so does one of more than 256 bytes.
pub proof fn preferences_are_set_as_given(
    before: Preferences,
    after: Preferences,
    target: Option<&str>,
    name: Option<&str>,
    quality: Option<&str>,
)
    requires
        preferences_set(before, after, target, name, quality),
    ensures
        target is Some && target->0.len() <= 256 ==> after.default_target@ == target->0@,
        target is None || target->0.len() > 256 ==> after.default_target@ == before.default_target@,
        name is Some && name->0.len() <= 256 ==> opt(after.chromecast_name) == Some(name->0@),
        name is None || name->0.len() > 256 ==> opt(after.chromecast_name) == opt(
            before.chromecast_name,
        ),
        quality is Some && quality->0.len() <= 256 ==> after.preferred_quality@ == quality->0@,
        quality is None || quality->0.len() > 256 ==> after.preferred_quality@
            == before.preferred_quality@,
{
}

// -------------------------------------------------------------------- positions
/// A position is taken exactly where it is named by an id of the right form or a title of at most
/// 256 bytes, and is a number; and it is taken as it is.
pub proof fn positions_are_taken_as_they_are(
    imdb_id: Option<&str>,
    title: Option<&str>,
    t: Option<Millis>,
)
    ensures
        position_checked(imdb_id, title, t) is Ok <==> (imdb_id is Some || title is Some) && (imdb_id
            is Some ==> is_imdb_id(imdb_id->0@)) && (title is Some ==> title->0.len() <= 256) && t
            is Some,
        position_checked(imdb_id, title, t) is Ok ==> t == Some(
            position_checked(imdb_id, title, t)->Ok_0,
        ),
        imdb_id is None && title is None ==> position_checked(imdb_id, title, t) == Err::<
            Millis,
            PositionError,
        >(PositionError::MissingKeys),
        imdb_id is Some && !is_imdb_id(imdb_id->0@) ==> position_checked(imdb_id, title, t) == Err::<
            Millis,
            PositionError,
        >(PositionError::InvalidImdbId),
        reset_checked(imdb_id, title) is Ok <==> imdb_id is Some || title is Some,
        t is Some && t->0 >= 0 ==> restarted_at(t) == t,
        t is Some && t->0 < 0 ==> restarted_at(t) == Some(0i64),
        t is None ==> restarted_at(t) is None,
{
}

/// A receiver is told what plays, and where it was left where that is known; where nothing plays it
/// is told nothing.
pub proof fn receivers_are_told_what_plays(c: ReceiverConfig, state: AppState)
    requires
        tells_receiver(c, state),
    ensures
        state.current is None ==> c.title@.len() == 0 && c.imdb_id@.len() == 0 && c.duration is None
            && c.resume_position is None,
        state.current is Some && state.current->0.title@.len() > 0 && (state.current->0.imdb_id
            is Some ==> state.current->0.imdb_id->0@.len() > 0) ==> {
            let s = state.current->0;
            let at = position_in(state, opt(s.imdb_id), Some(s.title@));
            &&& c.title@ == s.title@
            &&& c.duration == s.duration
            &&& s.imdb_id is Some ==> c.imdb_id@ == s.imdb_id->0@
            &&& at > 0 ==> c.resume_position == Some(at)
            &&& at <= 0 ==> c.resume_position is None
        },
{
}

// ------------------------------------------------------------------------ status
/// Nothing plays, or it does, or what was to play it is gone: a stream needs both its transcode and
/// its torrent.
pub proof fn the_status_is_told(has_current: bool, ffmpeg_alive: bool, torrent_alive: bool)
    ensures
        !has_current ==> status_of(has_current, runs_on(ffmpeg_alive, torrent_alive)) == "idle"@,
        has_current && ffmpeg_alive && torrent_alive ==> status_of(
            has_current,
            runs_on(ffmpeg_alive, torrent_alive),
        ) == "streaming"@,
        has_current && !(ffmpeg_alive && torrent_alive) ==> status_of(
            has_current,
            runs_on(ffmpeg_alive, torrent_alive),
        ) == "process_dead"@,
{
}

/// A restart forgets what played and nothing else.
pub proof fn a_restart_forgets_what_played(before: AppState, after: AppState, stale: bool)
    requires
        stream_forgotten(before, after, stale),
    ensures
        after.current is None,
        stale <==> before.current is Some,
        after.history == before.history,
        after.queue == before.queue,
        after.watched == before.watched,
        after.resume_positions == before.resume_positions,
        after.preferences == before.preferences,
        after.in_progress == before.in_progress,
{
}

/// A queue that is emptied holds nothing, and nothing else is touched.
pub proof fn an_emptied_queue_holds_nothing(before: AppState, after: AppState, held: usize)
    requires
        queue_emptied(before, after, held),
    ensures
        after.queue@.len() == 0,
        held == before.queue@.len(),
        after.current == before.current,
        after.history == before.history,
        after.watched == before.watched,
        after.resume_positions == before.resume_positions,
{
}

/// Of the history the newest twenty are shown, and all where there are fewer.
pub proof fn the_newest_of_the_history_are_shown(held: nat)
    ensures
        held <= 20 ==> shown_of(held) == held,
        held > 20 ==> shown_of(held) == 20,
{
}

/// A host with a letter in it is a name, which receivers cannot look up; an address of numbers and
/// one in brackets are not.
pub proof fn names_are_told_from_addresses(host: Seq<char>, i: int)
    ensures
        0 <= i < host.len() && ('a' <= host[i] <= 'z' || 'A' <= host[i] <= 'Z') && host[0] != '['
            ==> is_hostname(host),
        host.len() > 0 && host[0] == '[' ==> !is_hostname(host),
        (forall|j: int| 0 <= j < host.len() ==> !('a' <= #[trigger] host[j] <= 'z' || 'A' <= host[j]
            <= 'Z')) ==> !is_hostname(host),
{
    if 0 <= i < host.len() && ('a' <= host[i] <= 'z' || 'A' <= host[i] <= 'Z') {
        assert(crate::requests::is_ascii_letter(host[i]));
    }
}

// ------------------------------------------------------------------------ reaping
/// The reaper of a stream leaves another's alone, sleeps while the transcode runs, cleans up where
/// nothing runs, and where only the torrent does gives the viewer the time that is left and ten
/// minutes; three quarters of an hour where that is not known.
pub proof fn streams_are_reaped_when_they_are_over(
    c: CurrentStream,
    pid: u32,
    ffmpeg_alive: bool,
    torrent_alive: bool,
)
    ensures
        step_of_reaper(None, pid, ffmpeg_alive, torrent_alive) is Leave,
        c.pid != pid ==> step_of_reaper(Some(c), pid, ffmpeg_alive, torrent_alive) is Leave,
        c.pid == pid ==> step_of_reaper(Some(c), pid, true, torrent_alive) is Sleep,
        c.pid == pid ==> step_of_reaper(Some(c), pid, false, false) is CleanUp,
        c.pid == pid && c.duration is Some && c.duration->0 > c.ss_offset && c.duration->0 > 0
            && c.ss_offset >= 0 ==> step_of_reaper(Some(c), pid, false, true) == ReaperStep::Grace(
            (600 + (c.duration->0 - c.ss_offset) / 1000) as u64,
        ),
        c.pid == pid && c.duration is Some && 0 < c.duration->0 <= c.ss_offset ==> step_of_reaper(
            Some(c),
            pid,
            false,
            true,
        ) == ReaperStep::Grace(600),
        c.pid == pid && (c.duration is None || c.duration->0 <= 0) ==> step_of_reaper(
            Some(c),
            pid,
            false,
            true,
        ) == ReaperStep::Grace(2700),
        is_current(Some(c), pid) <==> c.pid == pid,
        !is_current(None, pid),
{
}

/// A local source whose log tells of corruption is remembered as corrupt, by its path, and the
/// reason is told the first time; one that is not local, and one whose log tells of none, are not.
pub proof fn corrupt_sources_are_remembered(
    before: AppState,
    after: AppState,
    path: Seq<char>,
    log: Seq<char>,
    reason: Option<Seq<char>>,
    other: Seq<char>,
)
    requires
        corruption_noted(before, after, "file://"@ + path, log, reason),
    ensures
        corruption(log) is Some ==> after.corrupt_files@.contains(path),
        corruption(log) is Some && !before.corrupt_files@.contains(path) ==> reason == corruption(
            log,
        ),
        before.corrupt_files@.contains(path) ==> reason is None,
        corruption(log) is None ==> after == before && reason is None,
        other != path ==> (after.corrupt_files@.contains(other) <==> before.corrupt_files@.contains(
            other,
        )),
        after.watched == before.watched,
        after.current == before.current,
{
    reveal_strlit("file://");
    prefixes_come_off("file://"@, path);
}

/// A source that is no file of ours is never remembered as corrupt.
pub proof fn other_sources_are_not_remembered(
    before: AppState,
    after: AppState,
    url: Seq<char>,
    log: Seq<char>,
    reason: Option<Seq<char>>,
)
    requires
        corruption_noted(before, after, url, log, reason),
        !starts_with(url, "file://"@),
    ensures
        after == before,
        reason is None,
{
}

/// A transcode is kept under its key exactly where keeping is on, it ran from the beginning to the
/// end, and none is kept under the key yet.
pub proof fn whole_transcodes_are_kept(
    c: CurrentStream,
    cap_mb: u64,
    ended: bool,
    kept_already: bool,
)
    ensures
        cap_mb > 0 && c.ss_offset == 0 && ended && !kept_already ==> key_to_keep(
            Some(c),
            cap_mb,
            ended,
            kept_already,
        ) == c.cache_key,
        cap_mb == 0 || c.ss_offset != 0 || !ended || kept_already ==> key_to_keep(
            Some(c),
            cap_mb,
            ended,
            kept_already,
        ) is None,
        key_to_keep(None, cap_mb, ended, kept_already) is None,
{
}

/// A transcode has ended where any of its playlists that could be read says so.
pub proof fn any_playlist_tells_the_end(bodies: Seq<Option<String>>, i: int)
    ensures
        0 <= i < bodies.len() && bodies[i] is Some && contains(bodies[i]->0@, "#EXT-X-ENDLIST"@)
            ==> any_ended(bodies),
        (forall|j: int|
            0 <= j < bodies.len() ==> ((#[trigger] bodies[j]) is None || !contains(
                bodies[j]->0@,
                "#EXT-X-ENDLIST"@,
            ))) ==> !any_ended(bodies),
{
}

/// A limit in megabytes is as many times 1048576 bytes.
pub proof fn caps_are_in_megabytes(cap_mb: u64)
    ensures
        cap_mb <= 0xfff_ffff_ffff ==> bytes_in_cap(cap_mb) == cap_mb * 1_048_576,
        cap_mb > 0xfff_ffff_ffff ==> bytes_in_cap(cap_mb) == u64::MAX,
{
}

/// Each log of the ring has a path of its own: the current one its own, and the others their number
/// behind it.
pub proof fn logs_have_paths_of_their_own(current: Seq<char>, a: usize, b: usize)
    ensures
        path_in_ring(current, 0) == current,
        a > 0 ==> path_in_ring(current, a) == current + "."@ + dec(a as nat),
        a != b ==> path_in_ring(current, a) != path_in_ring(current, b),
{
    reveal_strlit(".");
    lemma_dec(a as nat);
    lemma_dec(b as nat);
    if a != b && path_in_ring(current, a) == path_in_ring(current, b) {
        if a == 0 {
            assert(path_in_ring(current, b).len() > current.len());
        } else if b == 0 {
            assert(path_in_ring(current, a).len() > current.len());
        } else {
            let n = current.len() as int + 1;
            assert(path_in_ring(current, a).skip(n) =~= dec(a as nat));
            assert(path_in_ring(current, b).skip(n) =~= dec(b as nat));
        }
    }
}

// -------------------------------------------------------------------------- notes
proof fn lemma_last_place(s: Seq<char>, c: char)
    ensures
        -1 <= last_index_of(s, c) < s.len(),
        last_index_of(s, c) >= 0 ==> s[last_index_of(s, c)] == c,
        forall|j: int| last_index_of(s, c) < j < s.len() ==> s[j] != c,
    decreases s.len(),
{
    if s.len() > 0 && s.last() != c {
        let before = s.drop_last();
        lemma_last_place(before, c);
        assert forall|j: int| last_index_of(s, c) < j < s.len() implies s[j] != c by {
            if j < before.len() {
                assert(s[j] == before[j]);
            }
        }
    }
}

/// The notes are kept in the directory of the configuration.
pub proof fn notes_are_kept_beside_the_configuration(dir: Seq<char>, file: Seq<char>)
    requires
        dir.len() > 0 ==> dir.last() == '/',
        forall|j: int| 0 <= j < file.len() ==> file[j] != '/',
    ensures
        notes_file(dir + file) == dir + "show_notes.json"@,
{
    let s = dir + file;
    let k = last_index_of(s, '/');
    lemma_last_place(s, '/');
    if dir.len() > 0 {
        assert(s[dir.len() - 1] == '/');
    }
    if k >= dir.len() {
        assert(s[k] == file[k - dir.len()]);
    }
    assert(k == dir.len() - 1);
    assert(s.take(k + 1) =~= dir);
}

/// A note is kept as it was set, under an id as it is and under a title by its form; and no other
/// note is touched.
pub proof fn notes_are_kept_as_they_were_set(
    before: Map<Seq<char>, ShowNote>,
    key: Seq<char>,
    note: ShowNote,
    other: Seq<char>,
)
    requires
        trim(note.note@).len() > 0,
    ensures
        ({
            let place = if starts_with(key, "tt"@) {
                key
            } else {
                lowercase(common_form(key))
            };
            let after = notes_with(before, key, note);
            &&& after.contains_key(place)
            &&& after[place] == note
            &&& other != place ==> after.contains_key(other) == before.contains_key(other)
            &&& other != place && before.contains_key(other) ==> after[other] == before[other]
        }),
{
}

/// A note is looked for under the id first, and under the title where the id has none.
pub proof fn notes_are_looked_for_by_id_first(
    notes: Map<Seq<char>, ShowNote>,
    id: Seq<char>,
    title: Seq<char>,
)
    ensures
        trim(id).len() > 0 && notes.contains_key(trim(id)) ==> note_for(notes, Some(id), title)
            == Some(notes[trim(id)]),
        trim(id).len() > 0 && !notes.contains_key(trim(id)) ==> note_for(notes, Some(id), title)
            == note_for(notes, None, title),
        notes.contains_key(lowercase(common_form(title))) ==> note_for(notes, None, title) == Some(
            notes[lowercase(common_form(title))],
        ),
        !notes.contains_key(lowercase(common_form(title))) ==> note_for(notes, None, title) is None,
{
}

/// A source says a word, in any case and with white space round it.
pub open spec fn says(status: Option<Seq<char>>, word: Seq<char>) -> bool {
    status is Some && ascii_lower(trim(status->0)) == ascii_lower(word)
}

/// The one word for a show: a cancellation is told before anything else, an end that either source
/// tells before a question, a question before a return, and a return before a production; and where
/// neither source says any of these, none is told.
pub proof fn the_gravest_word_is_told(tmdb: Option<Seq<char>>, tvmaze: Option<Seq<char>>)
    ensures
        ({
            let cancelled = says(tmdb, "Canceled"@) || says(tmdb, "Cancelled"@);
            let ended = says(tmdb, "Ended"@) || says(tvmaze, "Ended"@);
            let open = says(tvmaze, "To Be Determined"@);
            let returning = says(tmdb, "Returning Series"@) || says(tvmaze, "Running"@);
            let made = says(tmdb, "In Production"@) || says(tmdb, "Planned"@);
            &&& cancelled ==> verdict(tmdb, tvmaze) == Some("Cancelled"@)
            &&& !cancelled && ended ==> verdict(tmdb, tvmaze) == Some("Ended"@)
            &&& !cancelled && !ended && open ==> verdict(tmdb, tvmaze) == Some("Renewal undecided"@)
            &&& !cancelled && !ended && !open && returning ==> verdict(tmdb, tvmaze) == Some(
                "Returning"@,
            )
            &&& !cancelled && !ended && !open && !returning && made ==> verdict(tmdb, tvmaze)
                == Some("In production"@)
            &&& !cancelled && !ended && !open && !returning && !made ==> verdict(tmdb, tvmaze)
                is None
        }),
{
    reveal_strlit("Canceled");
    reveal_strlit("Cancelled");
    reveal_strlit("Ended");
    reveal_strlit("To Be Determined");
    reveal_strlit("Returning Series");
    reveal_strlit("Running");
    reveal_strlit("In Production");
    reveal_strlit("Planned");
    let e = Seq::<char>::empty();
    assert(ascii_lower(e).len() == 0);
    assert(ascii_lower("Canceled"@).len() > 0 && ascii_lower("Cancelled"@).len() > 0
        && ascii_lower("Ended"@).len() > 0 && ascii_lower("To Be Determined"@).len() > 0
        && ascii_lower("Returning Series"@).len() > 0 && ascii_lower("Running"@).len() > 0
        && ascii_lower("In Production"@).len() > 0 && ascii_lower("Planned"@).len() > 0);
}

/// A device whose name has at most 256 bytes is looked up, and a search is made for any text but
/// the empty one.
pub proof fn names_and_queries_are_taken(device: &str, q: &str)
    ensures
        is_short_name(device) <==> device.len() <= 256,
        q@.len() > 0 ==> query_asked(Some(q)) == Some(q),
        q@.len() == 0 ==> query_asked(Some(q)) is None,
        query_asked(None) is None,
{
}

/// A refusal tells what was asked for.
pub proof fn requests_are_refused_in_words(id: usize)
    ensures
        QueueError::ResultNotFound(id).text() == "Result #"@ + dec(id as nat)
            + " not found in last search"@,
        QueueError::NoSearch.text() == "No previous search results — run `spela search` first."@,
        QueueError::InvalidMagnet.text() == "Invalid magnet: magnet URI must start with 'magnet:'"@,
        QueueError::NothingNamed.text()
            == "Need either `result_id` or `magnet` to queue an item."@,
        PositionError::MissingKeys.text() == "Missing imdb_id and title"@,
        PositionError::InvalidImdbId.text() == "Invalid imdb_id format"@,
        PositionError::TitleTooLong.text() == "Title too long (max 256 chars)"@,
        PositionError::NotFinite.text() == "Position must be finite"@,
{
}

/// An empty id is none: what plays is then looked for by its title.
pub proof fn empty_ids_are_none(c: ReceiverConfig, state: AppState)
    requires
        tells_receiver(c, state),
        state.current is Some,
        state.current->0.imdb_id is Some,
        state.current->0.imdb_id->0@.len() == 0,
        state.current->0.title@.len() > 0,
    ensures
        ({
            let at = position_in(state, None, Some(state.current->0.title@));
            &&& at > 0 ==> c.resume_position == Some(at)
            &&& at <= 0 ==> c.resume_position is None
        }),
{
}

} // verus!
