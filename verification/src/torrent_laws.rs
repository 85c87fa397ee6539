//! What holds of torrents: one that is there is used, one that is not is fetched and no more of it
//! than was asked for, what runs is known and can be stopped, and nothing that is on disk is lost.
use vstd::prelude::*;

use crate::magnet::{
    a_link_without_selection_is_safe, hex_bytes, hex_value, is_hex, is_readable, is_safe_magnet,
    last_hash, link_hash, magnet_id, without_selection,
};
use crate::numbers::words;
use crate::text::{dec, parse_up_to, starts_with};
use crate::text_laws::prefixes_come_off;
use crate::torrent::{is_doomed, pids_in};
use crate::torrent_engine::{
    bytes_in, counts_as_alive, dead_remembered, download_status, empty_on_disk, is_held, is_owner,
    is_place_of, is_progress_of, is_start_info, life_judged, opt_seq, our_id, owns, running,
    seeding, session_id, speed, start_planned, stop_planned, tail_of, widened, window_behind,
    DownloadStatus, DownloadWait, EngineStats, FileList, HeldTorrent, ListedTorrent,
    RestoredTorrent, StartPlan, StopPlan, TorrentProgress, TorrentStartInfo,
};

verus! {

// ------------------------------------------------------------------------- ids
/// Our ids and the session's lead to one another: ours are one more, so that none is 0, and every
/// one of ours but 0 is of one torrent of the session.
pub proof fn our_ids_are_the_sessions_and_one(librqbit_id: usize, spela_id: u32)
    ensures
        librqbit_id < u32::MAX ==> our_id(librqbit_id) is Some && our_id(librqbit_id)->0
            == librqbit_id + 1 && session_id(our_id(librqbit_id)->0) == Some(librqbit_id as int),
        librqbit_id >= u32::MAX ==> our_id(librqbit_id) is None,
        session_id(0) is None,
        spela_id > 0 ==> session_id(spela_id) == Some(spela_id - 1),
{
}

/// A torrent that is started is told by our id, and streamed from the loopback under that id: the
/// file that was asked for, and the first where none was.
pub proof fn started_torrents_are_streamed_by_our_id(
    info: TorrentStartInfo,
    librqbit_id: usize,
    file_index: Option<u32>,
    port: u16,
)
    requires
        is_start_info(info, librqbit_id, file_index, port),
    ensures
        info.id == librqbit_id + 1,
        file_index is Some ==> info.file_index == file_index->0,
        file_index is None ==> info.file_index == 0,
        info.url@ == "http://127.0.0.1:"@ + dec(port as nat) + "/torrent/"@ + dec(info.id as nat)
            + "/stream/"@ + dec(info.file_index as nat),
{
    reveal_strlit("http://");
    reveal_strlit("127.0.0.1");
    reveal_strlit(":");
    reveal_strlit("http://127.0.0.1:");
    assert("http://"@ + "127.0.0.1"@ + ":"@ =~= "http://127.0.0.1:"@);
}

// -------------------------------------------------------------------- starting
/// A start ends in one of four ways. What is no link is refused. A torrent that the session holds
/// is used, also where its link is remembered as dead. Else a link that was found dead within the
/// last ten minutes is not tried, and any other is fetched, with the file that is wanted alone.
pub proof fn torrents_are_started_as_they_can_be(
    magnet: Seq<char>,
    file_index: Option<u32>,
    held: Seq<HeldTorrent>,
    dead: Map<Seq<char>, u64>,
    after: Map<Seq<char>, u64>,
    now: u64,
    plan: StartPlan,
    i: int,
)
    requires
        start_planned(magnet, file_index, held, dead, after, now, plan),
    ensures
        !starts_with(magnet, "magnet:"@) ==> plan is Refused && after == dead,
        starts_with(magnet, "magnet:"@) ==> !(plan is Refused),
        starts_with(magnet, "magnet:"@) && link_hash(magnet) is Some && 0 <= i < held.len()
            && held[i].info_hash@ == link_hash(magnet)->0 && (forall|j: int|
            0 <= j < i ==> (#[trigger] held[j]).info_hash@ != link_hash(magnet)->0) ==> plan is Reuse
            && plan->Reuse_0 == i && (plan->Reuse_1).unpause == held[i].paused && opt_seq(
            (plan->Reuse_1).widen,
        ) == widened(
            held[i].only_files,
            (if file_index is Some {
                Some(file_index->0 as usize)
            } else {
                None
            }),
        ) && after == dead,
        starts_with(magnet, "magnet:"@) && (link_hash(magnet) is None || forall|j: int|
            0 <= j < held.len() ==> (#[trigger] held[j]).info_hash@ != link_hash(magnet)->0) ==> {
            &&& dead.contains_key(magnet) && now < dead[magnet] + 600_000 ==> plan is KnownDead
                && after == dead
            &&& !dead.contains_key(magnet) || now >= dead[magnet] + 600_000 ==> plan is Fetch
                && !after.contains_key(magnet) && opt_seq(plan->Fetch_0) == (
            if file_index is Some {
                Some(seq![file_index->0 as usize])
            } else {
                None
            })
        },
{
    if starts_with(magnet, "magnet:"@) && link_hash(magnet) is Some && 0 <= i < held.len()
        && held[i].info_hash@ == link_hash(magnet)->0 && (forall|j: int|
        0 <= j < i ==> (#[trigger] held[j]).info_hash@ != link_hash(magnet)->0) {
        assert(crate::torrent_engine::is_held(held, magnet));
        let k = plan->Reuse_0 as int;
        if k < i {
            assert(held[k].info_hash@ != link_hash(magnet)->0);
        }
        if i < k {
            assert(held[i].info_hash@ != link_hash(magnet)->0);
        }
    }
}

/// A file that is wanted of a torrent that is held is fetched when it is resumed, and whatever was
/// fetched of it before is fetched on; nothing is changed where it is fetched already.
pub proof fn wanted_files_are_fetched(only_files: Vec<usize>, want: usize)
    ensures
        only_files@.contains(want) ==> widened(Some(only_files), Some(want)) is None,
        !only_files@.contains(want) ==> widened(Some(only_files), Some(want)) is Some && widened(
            Some(only_files),
            Some(want),
        )->0.contains(want) && forall|f: usize|
            only_files@.contains(f) ==> #[trigger] widened(Some(only_files), Some(want))->0.contains(
                f,
            ),
        widened(None, Some(want)) is None,
        widened(Some(only_files), None) is None,
{
    if !only_files@.contains(want) {
        let w = widened(Some(only_files), Some(want))->0;
        assert(w == only_files@.push(want));
        assert(w[only_files@.len() as int] == want);
        assert forall|f: usize| only_files@.contains(f) implies #[trigger] w.contains(f) by {
            let k = choose|k: int| 0 <= k < only_files@.len() && only_files@[k] == f;
            assert(w[k] == f);
        }
    }
}

/// A link that was found dead is remembered with the time, and no other is forgotten for it.
pub proof fn dead_links_are_remembered(
    dead: Map<Seq<char>, u64>,
    magnet: Seq<char>,
    now: u64,
    other: Seq<char>,
)
    ensures
        dead_remembered(dead, magnet, now).contains_key(magnet),
        dead_remembered(dead, magnet, now)[magnet] == now,
        other != magnet && dead.contains_key(other) ==> dead_remembered(
            dead,
            magnet,
            now,
        ).contains_key(other) && dead_remembered(dead, magnet, now)[other] == dead[other],
{
}

// -------------------------------------------------------------------- stopping
/// A torrent that is stopped is thrown away where that is asked for, and else paused where it runs;
/// a local file, which is no torrent, is neither.
pub proof fn torrents_are_stopped_as_asked(id: u32, paused: Option<bool>)
    ensures
        stop_planned(0, true, paused) is Nothing,
        stop_planned(0, false, paused) is Nothing,
        id > 0 ==> stop_planned(id, true, paused) == StopPlan::Delete((id - 1) as usize),
        id > 0 && paused == Some(false) ==> stop_planned(id, false, paused) == StopPlan::Pause(
            (id - 1) as usize,
        ),
        id > 0 && paused != Some(false) ==> stop_planned(id, false, paused) is Nothing,
{
}

/// Every torrent that is paused after a restart was running, and one whose files are known and hold
/// not a block is forgotten.
pub proof fn only_running_torrents_are_paused(list: Seq<RestoredTorrent>)
    ensures
        forall|id: usize| #[trigger]
            running(list).contains(id) ==> exists|i: int|
                0 <= i < list.len() && (#[trigger] list[i]).id == id && !list[i].paused,
        forall|i: int|
            0 <= i < list.len() && (#[trigger] list[i]).blocks is Some && (forall|b: int|
                0 <= b < list[i].blocks->0@.len() ==> (#[trigger] list[i].blocks->0@[b] is None
                    || list[i].blocks->0@[b] == Some(0u64))) ==> empty_on_disk(list).contains(
                list[i].id,
            ),
    decreases list.len(),
{
    if list.len() > 0 {
        let t = list.drop_last();
        let last = list.last();
        only_running_torrents_are_paused(t);
        assert forall|id: usize| #[trigger] running(list).contains(id) implies exists|i: int|
            0 <= i < list.len() && (#[trigger] list[i]).id == id && !list[i].paused by {
            let k = choose|k: int| 0 <= k < running(list).len() && running(list)[k] == id;
            if k < running(t).len() {
                assert(running(t)[k] == id);
                assert(running(t).contains(id));
                let i = choose|i: int|
                    0 <= i < t.len() && (#[trigger] t[i]).id == id && !t[i].paused;
                assert(list[i] == t[i]);
            } else {
                assert(list[list.len() - 1] == last);
            }
        }
        assert forall|i: int|
            0 <= i < list.len() && (#[trigger] list[i]).blocks is Some && (forall|b: int|
                0 <= b < list[i].blocks->0@.len() ==> (#[trigger] list[i].blocks->0@[b] is None
                    || list[i].blocks->0@[b] == Some(0u64))) implies empty_on_disk(list).contains(
            list[i].id,
        ) by {
            if i < t.len() {
                assert(t[i] == list[i]);
                let k = choose|k: int|
                    0 <= k < empty_on_disk(t).len() && empty_on_disk(t)[k] == list[i].id;
                assert(empty_on_disk(list)[k] == list[i].id);
            } else {
                crate::torrent_engine::nothing_held_means_no_block(last.blocks->0@);
                assert(crate::torrent_engine::is_empty_on_disk(last));
                assert(empty_on_disk(list)[empty_on_disk(list).len() - 1] == last.id);
            }
        }
    }
}

/// The bytes on disk are 512 for each block, of all files together.
pub proof fn blocks_add_up(blocks: Seq<Option<u64>>, b: Option<u64>)
    ensures
        bytes_in(Seq::empty()) == 0,
        b is Some ==> bytes_in(blocks.push(b)) == bytes_in(blocks) + 512 * b->0,
        b is None ==> bytes_in(blocks.push(b)) == bytes_in(blocks),
{
    assert(blocks.push(b).drop_last() =~= blocks);
}

/// The torrents that are told to be uploading are the finished ones that are not paused, each by our
/// id and its name.
pub proof fn uploads_are_told(list: Seq<ListedTorrent>, t: ListedTorrent)
    ensures
        seeding(Seq::empty()).len() == 0,
        t.finished && !t.paused && t.id < u32::MAX ==> seeding(list.push(t)).len() == seeding(
            list,
        ).len() + 1 && seeding(list.push(t)).last().0 == t.id + 1 && (t.name is Some ==> seeding(
            list.push(t),
        ).last().1 == t.name->0@) && seeding(list.push(t)).drop_last() == seeding(list),
        !t.finished || t.paused ==> seeding(list.push(t)) == seeding(list),
{
    assert(list.push(t).drop_last() =~= list);
    if t.finished && !t.paused && t.id < u32::MAX {
        assert(seeding(list.push(t)).drop_last() =~= seeding(list));
    }
}

/// A torrent before one, or a file of that one before a place, has the path.
pub open spec fn has_before(lists: Seq<FileList>, target: Seq<char>, t: int, f: int) -> bool {
    exists|v: int, w: int|
        ((0 <= v < t && 0 <= w < lists[v].paths@.len()) || (v == t && 0 <= w < f)) && (
        #[trigger] lists[v].paths@[w]) is Some && lists[v].paths@[w]->0@ == target
}

/// The owner of a path is the first torrent that has it, by our id, with the place of the file in
/// it; a path that none has is owned by none.
pub proof fn paths_are_owned_by_their_torrent(
    owner: Option<(u32, usize)>,
    lists: Seq<FileList>,
    target: Seq<char>,
    t: int,
    f: int,
)
    requires
        is_owner(owner, lists, target),
    ensures
        owner is Some ==> exists|u: int|
            0 <= u < lists.len() && (#[trigger] lists[u]).id + 1 == (owner->0).0 && (owner->0).1
                < lists[u].paths@.len() && lists[u].paths@[(owner->0).1 as int] is Some
                && lists[u].paths@[(owner->0).1 as int]->0@ == target && !has_before(
                lists,
                target,
                u,
                (owner->0).1 as int,
            ),
        0 <= t < lists.len() && 0 <= f < lists[t].paths@.len() && lists[t].paths@[f] is Some
            && lists[t].paths@[f]->0@ == target && (forall|u: int|
            0 <= u < lists.len() ==> (#[trigger] lists[u]).id < u32::MAX) ==> owner is Some,
{
    if owner is Some {
        let u = choose|u: int|
            #[trigger] owns(lists, target, u, (owner->0).1 as int) && (owner->0).0 == lists[u].id
                + 1;
        assert(crate::torrent_engine::is_path(lists[u].paths@, (owner->0).1 as int, target));
        assert(lists[u].id + 1 == (owner->0).0);
        let g = (owner->0).1 as int;
        assert forall|v: int, w: int|
            (0 <= v < u && 0 <= w < lists[v].paths@.len()) || (v == u && 0 <= w < g) implies !(
        (#[trigger] lists[v].paths@[w]) is Some && lists[v].paths@[w]->0@ == target) by {
            if v < u {
                assert(crate::torrent_engine::lacks(lists[v], target));
            }
            assert(!crate::torrent_engine::is_path(lists[v].paths@, w, target));
        }
    }
    if 0 <= t < lists.len() && 0 <= f < lists[t].paths@.len() && lists[t].paths@[f] is Some
        && lists[t].paths@[f]->0@ == target && (forall|u: int|
        0 <= u < lists.len() ==> (#[trigger] lists[u]).id < u32::MAX) {
        assert(crate::torrent_engine::is_path(lists[t].paths@, f, target));
        assert(!crate::torrent_engine::lacks(lists[t], target));
    }
}

// -------------------------------------------------------------------- progress
/// Progress is what the session's figures say: a torrent that is not live has no peers and no
/// speed, and a speed in megabits is an eighth of a million bytes for each.
pub proof fn figures_are_told_as_they_are(p: TorrentProgress, stats: EngineStats)
    requires
        is_progress_of(p, stats),
    ensures
        p.bytes_downloaded == stats.progress_bytes,
        p.bytes_total == stats.total_bytes,
        p.finished == stats.finished,
        p.state == stats.state,
        stats.live is None ==> p.peers_connected == 0 && p.speed_bps == 0,
        stats.live is Some ==> p.peers_connected == stats.live->0.live_peers && p.speed_bps == speed(
            stats.live->0.download_speed@,
            125_000,
        ),
{
}

/// A torrent shows life by a byte, a peer or a speed, and any one of them ends the wait for it; it
/// is looked at again until its time is up, and is dead then.
pub proof fn any_sign_of_life_will_do(
    elapsed_millis: u64,
    timeout_secs: u64,
    last: Option<TorrentProgress>,
)
    ensures
        ({
            let alive = last is Some && (last->0.bytes_downloaded > 0 || last->0.peers_connected > 0
                || last->0.speed_bps > 0);
            let r = life_judged(elapsed_millis, timeout_secs, last);
            &&& r is Alive <==> alive
            &&& r is Look <==> !alive && elapsed_millis < timeout_secs * 1000
            &&& r is Dead <==> !alive && elapsed_millis >= timeout_secs * 1000
        }),
{
}

/// A download is complete when the session says so, or when all its bytes are there; it has failed
/// when its time is up, when the session no longer has it, or when five minutes have brought no
/// byte; else it goes on, and every byte starts the five minutes anew.
pub proof fn downloads_are_judged_by_their_bytes(
    w: DownloadWait,
    progress: Option<TorrentProgress>,
    now: u64,
)
    requires
        now >= w.started_at,
        now >= w.last_progress_at,
    ensures
        ({
            let r = download_status(w, progress, now);
            let late = now - w.started_at > w.timeout_secs * 1000;
            let complete = progress is Some && (progress->0.finished || progress->0.bytes_total > 0
                && progress->0.bytes_downloaded >= progress->0.bytes_total);
            let more = progress is Some && progress->0.bytes_downloaded > w.last_bytes;
            let stuck = now - w.last_progress_at >= 300_000;
            &&& late ==> r is TimedOut
            &&& !late && progress is None ==> r is Disappeared
            &&& !late && complete ==> r is Complete
            &&& !late && progress is Some && !complete && !more && stuck ==> r is Stalled
            &&& !late && progress is Some && !complete && (more || !stuck) ==> r is Downloading
            &&& r is Downloading && more ==> w.after_look(progress, now).last_bytes
                == progress->0.bytes_downloaded && w.after_look(progress, now).last_progress_at
                == now
            &&& !(r is Downloading && more) ==> w.after_look(progress, now) == w
            &&& w.after_look(progress, now).started_at == w.started_at
            &&& w.after_look(progress, now).timeout_secs == w.timeout_secs
        }),
        DownloadWait::fresh(w.timeout_secs, now).started_at == now,
        DownloadWait::fresh(w.timeout_secs, now).timeout_secs == w.timeout_secs,
        DownloadWait::fresh(w.timeout_secs, now).last_bytes == 0,
        DownloadWait::fresh(w.timeout_secs, now).last_progress_at == now,
{
}

/// What is fetched first lies within the file: its last bytes, and eight megabytes behind a seek, or
/// what is left there.
pub proof fn windows_lie_within_the_file(len: u64, window: u64, offset: u64)
    ensures
        len > window ==> tail_of(len, window) is Some && tail_of(len, window)->0 + window == len,
        len <= window ==> tail_of(len, window) is None,
        offset >= len ==> window_behind(len, offset) is None,
        offset < len ==> window_behind(len, offset) is Some && window_behind(len, offset)->0 > 0
            && offset + window_behind(len, offset)->0 <= len && window_behind(len, offset)->0
            <= 8_388_608,
        offset < len && len - offset >= 8_388_608 ==> window_behind(len, offset)->0 == 8_388_608,
        offset < len && len - offset < 8_388_608 ==> offset + window_behind(len, offset)->0 == len,
{
}

// ------------------------------------------------------------------- processes
/// A process is ended exactly where it is alive, is not the server and is not to stay.
pub proof fn strangers_are_ended(pid: u32, alive: bool, allowed: Seq<u32>, self_pid: u32)
    ensures
        alive && pid != self_pid && !allowed.contains(pid) ==> is_doomed(
            pid,
            alive,
            allowed,
            self_pid,
        ),
        !alive || pid == self_pid || pid > 0 && allowed.contains(pid) ==> !is_doomed(
            pid,
            alive,
            allowed,
            self_pid,
        ),
{
}

/// A listing names a process on each line whose first word is a number above 0, in the order of its
/// lines.
pub proof fn listings_name_a_process_a_line(ls: Seq<Seq<char>>, line: Seq<char>, p: u32)
    ensures
        pids_in(Seq::empty()).len() == 0,
        words(line).len() > 0 && parse_up_to(words(line)[0], u32::MAX as nat) == Some(p as nat) && p
            > 0 ==> pids_in(ls.push(line)) == pids_in(ls).push(p),
        words(line).len() == 0 || parse_up_to(words(line)[0], u32::MAX as nat) is None
            || parse_up_to(words(line)[0], u32::MAX as nat) == Some(0nat) ==> pids_in(ls.push(line))
            == pids_in(ls),
{
    assert(ls.push(line).drop_last() =~= ls);
}

/// A stream of a local file counts as alive, and one of a torrent where the session holds it.
pub proof fn torrents_live_while_they_are_held(torrent_id: u32, held: bool)
    ensures
        counts_as_alive(0, held),
        torrent_id > 0 ==> (counts_as_alive(torrent_id, held) <==> held),
{
}

/// Forty hexadecimal digits are twenty bytes, two digits for each; and a plain link is of the last
/// hash that it names, whatever trackers and names it has besides.
pub proof fn plain_links_name_their_hash(
    before: Seq<Seq<char>>,
    digits: Seq<char>,
    after: Seq<Seq<char>>,
    i: int,
)
    requires
        digits.len() == 40,
        forall|j: int| 0 <= j < 40 ==> is_hex(#[trigger] digits[j]),
        forall|j: int| 0 <= j < after.len() ==> !starts_with(#[trigger] after[j], "xt="@),
        0 <= i < 20,
    ensures
        last_hash(before.push("xt=urn:btih:"@ + digits) + after) == Some(hex_bytes(digits)),
        hex_bytes(digits).len() == 20,
        hex_bytes(digits)[i] == 16 * hex_value(digits[2 * i]) + hex_value(digits[2 * i + 1]),
    decreases after.len(),
{
    reveal_strlit("xt=urn:btih:");
    reveal_strlit("xt=");
    let p = "xt=urn:btih:"@ + digits;
    let ps = before.push(p) + after;
    assert(is_hex(digits[2 * i]) && is_hex(digits[2 * i + 1]));
    if after.len() == 0 {
        assert(ps.last() == p);
        prefixes_come_off("xt=urn:btih:"@, digits);
        assert forall|j: int| 12 <= j < p.len() implies is_hex(#[trigger] p[j]) by {
            assert(is_hex(digits[j - 12]));
        }
        assert(p.skip(12) =~= digits);
    } else {
        let q = after.last();
        assert(ps.last() == q);
        assert(!starts_with(q, "xt="@));
        if starts_with(q, "xt=urn:btih:"@) {
            assert(q.subrange(0, 12) =~= "xt=urn:btih:"@);
            assert(q.subrange(0, 3) =~= q.subrange(0, 12).subrange(0, 3));
            assert(q.subrange(0, 3) =~= "xt="@);
        }
        assert(ps.drop_last() =~= before.push(p) + after.drop_last());
        assert forall|j: int| 0 <= j < after.drop_last().len() implies !starts_with(
            #[trigger] after.drop_last()[j],
            "xt="@,
        ) by {
            assert(after.drop_last()[j] == after[j]);
        }
        plain_links_name_their_hash(before, digits, after.drop_last(), i);
    }
}

/// A hexadecimal digit counts as it reads, in either case.
pub proof fn digits_count_in_either_case(c: char)
    ensures
        '0' <= c <= '9' ==> is_hex(c) && hex_value(c) == c as int - '0' as int,
        'a' <= c <= 'f' ==> is_hex(c) && hex_value(c) == 10 + (c as int - 'a' as int),
        'A' <= c <= 'F' ==> is_hex(c) && hex_value(c) == 10 + (c as int - 'A' as int),
        is_hex(c) ==> 0 <= hex_value(c) < 16,
{
}

/// A torrent that the session holds is found by its hash, and the first of them where there are
/// more.
pub proof fn held_torrents_are_found_by_their_hash(
    place: Option<usize>,
    held: Seq<HeldTorrent>,
    hash: Seq<u8>,
    i: int,
)
    requires
        is_place_of(place, held, Some(hash)),
        0 <= i < held.len(),
        held[i].info_hash@ == hash,
    ensures
        place is Some,
        place->0 <= i,
        held[place->0 as int].info_hash@ == hash,
{
}

/// Without a hash nothing is found.
pub proof fn nothing_is_found_without_a_hash(place: Option<usize>, held: Seq<HeldTorrent>)
    requires
        is_place_of(place, held, None),
    ensures
        place is None,
{
}

/// A link is of the hash that is read from it, whatever files it selects; one that is safe to read
/// is read as it is, and one that is not is of none.
pub proof fn links_are_of_the_hash_that_is_read(m: Seq<char>)
    ensures
        is_safe_magnet(m) ==> link_hash(m) == magnet_id(m),
        is_readable(m) ==> link_hash(m) == link_hash(without_selection(m)),
        !is_readable(m) ==> link_hash(m) is None,
{
    if is_readable(m) {
        a_link_without_selection_is_safe(m);
        let n = without_selection(m);
        a_link_without_selection_is_safe(n);
    }
}

/// Every torrent that is not paused counts as running, in the order of the list, and no other does.
pub proof fn torrents_run_unless_they_are_paused(list: Seq<RestoredTorrent>, t: RestoredTorrent)
    ensures
        running(Seq::empty()).len() == 0,
        t.paused ==> running(list.push(t)) == running(list),
        !t.paused ==> running(list.push(t)) == running(list).push(t.id),
{
    assert(list.push(t).drop_last() =~= list);
}

/// A download that failed tells why: how long it was waited for, or how far it had come.
pub proof fn failed_downloads_tell_why(secs: u64, p: TorrentProgress)
    ensures
        DownloadStatus::Complete.text(secs, Some(p)) is None,
        DownloadStatus::Downloading.text(secs, Some(p)) is None,
        DownloadStatus::TimedOut.text(secs, Some(p)) == Some(
            "timed out after "@ + dec(secs as nat) + "s waiting for torrent download to finish"@,
        ),
        DownloadStatus::Disappeared.text(secs, None) == Some(
            "torrent disappeared from session before finishing"@,
        ),
        DownloadStatus::Stalled.text(secs, Some(p)) == Some(
            "torrent download stalled for 300s before finishing ("@ + dec(p.bytes_downloaded as nat)
                + " / "@ + dec(p.bytes_total as nat) + " bytes)"@,
        ),
{
}

/// The session holds a link exactly where it holds a torrent of its hash.
pub proof fn links_are_held_by_their_hash(held: Seq<HeldTorrent>, magnet: Seq<char>, i: int)
    ensures
        0 <= i < held.len() && link_hash(magnet) == Some(held[i].info_hash@) ==> is_held(
            held,
            magnet,
        ),
        is_held(held, magnet) ==> link_hash(magnet) is Some && exists|j: int|
            0 <= j < held.len() && (#[trigger] held[j]).info_hash@ == link_hash(magnet)->0,
{
}

} // verus!
