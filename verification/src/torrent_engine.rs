//! The decisions around the embedded BitTorrent session: which magnets are let in, how its ids
//! map to ours, what it takes to start, resume or stop a torrent, and what its figures mean.
use vstd::prelude::*;

use crate::collections::StringMap;
use crate::magnet::{hash_in, is_plain_magnet, is_safe_magnet, link_hash, magnet_id, read_link_hash};
use crate::numbers::{numeral, read_times, split_words, times, words};
use crate::text::{begins, chars_of, dec, pieces, push_dec, same, starts_with};
use crate::time::{elapsed, elapsed_millis};
use crate::titles::opt;

verus! {

/// How long metadata is waited for before a source counts as dead, in seconds.
pub const METADATA_TIMEOUT_SECS: u64 = 20;

/// How long a dead source is remembered, in seconds.
pub const DEAD_MAGNET_MEMORY_SECS: u64 = 600;

/// Said of a source that nobody serves.
pub const NO_PEERS_ERROR: &'static str = "no peers — this source appears dead";

/// The ceiling on uploads, in bytes per second.
pub const MAX_UPLOAD_BYTES_PER_SEC: u32 = 100_000_000 / 8;

/// What a caller learns of a torrent that was started.
#[derive(Debug, Clone)]
pub struct TorrentStartInfo {
    pub id: u32,
    pub url: String,
    pub file_index: usize,
}

/// How far a torrent has come.
#[derive(Debug, Clone, Copy)]
pub struct TorrentProgress {
    pub bytes_downloaded: u64,
    pub bytes_total: u64,
    pub peers_connected: usize,
    pub speed_bps: u64,
    pub finished: bool,
    pub state: TorrentState,
}

/// What a torrent is doing.
#[derive(Debug, Clone, Copy, PartialEq, Eq, Structural)]
pub enum TorrentState {
    Initializing,
    Live,
    Paused,
    Error,
}

// ------------------------------------------------------------------- magnets
/// Lets only magnet links pass: the session would fetch any other scheme.
pub fn validate_magnet_uri(s: &str) -> (r: Result<&str, &'static str>)
    ensures
        match r {
            Ok(t) => starts_with(s@, "magnet:"@) && t == s,
            Err(e) => !starts_with(s@, "magnet:"@) && e@ == "magnet URI must start with 'magnet:'"@,
        },
{
    if begins(s, "magnet:") {
        Ok(s)
    } else {
        Err("magnet URI must start with 'magnet:'")
    }
}

// ----------------------------------------------------------------------- ids
/// An id that does not fit into 32 bits.
#[derive(Debug, Clone, Copy, PartialEq, Eq, Structural)]
pub struct IdOutOfRange {
    pub librqbit_id: usize,
}

/// Our id for a torrent of the session: one more than the session's, so that 0 is free to mean
/// a local file; none where 32 bits do not hold it.
pub open spec fn our_id(librqbit_id: usize) -> Option<u32> {
    if librqbit_id + 1 > u32::MAX {
        None
    } else {
        Some((librqbit_id + 1) as u32)
    }
}

/// Gives [`our_id`].
pub fn shift_librqbit_id(librqbit_id: usize) -> (r: Result<u32, IdOutOfRange>)
    ensures
        match r {
            Ok(id) => our_id(librqbit_id) == Some(id),
            Err(e) => our_id(librqbit_id) is None && e.librqbit_id == librqbit_id,
        },
{
    if librqbit_id as u64 >= u32::MAX as u64 {
        Err(IdOutOfRange { librqbit_id })
    } else {
        Ok((librqbit_id as u64 + 1) as u32)
    }
}

/// The session's id for one of ours; none for 0.
pub fn unshift_librqbit_id(spela_id: u32) -> (r: Option<usize>)
    ensures
        match r {
            Some(id) => session_id(spela_id) == Some(id as int),
            None => session_id(spela_id) is None,
        },
{
    if spela_id == 0 {
        None
    } else {
        Some((spela_id - 1) as usize)
    }
}

/// The session's id of a torrent that we know under `spela_id`.
pub open spec fn session_id(spela_id: u32) -> Option<int> {
    if spela_id == 0 {
        None
    } else {
        Some(spela_id - 1)
    }
}

/// An id taken over from the session is never 0, and leads back to the torrent it stands for.
pub proof fn ids_lead_back(librqbit_id: usize, spela_id: u32)
    requires
        spela_id == librqbit_id + 1,
    ensures
        spela_id != 0,
        session_id(spela_id) == Some(librqbit_id as int),
{
}

/// The address at which a file of a torrent is served.
pub open spec fn stream_url(host: Seq<char>, port: u16, id: u32, file_idx: usize) -> Seq<char> {
    "http://"@ + host + ":"@ + dec(port as nat) + "/torrent/"@ + dec(id as nat) + "/stream/"@ + dec(
        file_idx as nat,
    )
}

/// Builds [`stream_url`].
pub fn build_stream_url(host: &str, port: u16, id: u32, file_idx: usize) -> (r: String)
    ensures
        r@ == stream_url(host@, port, id, file_idx),
{
    let mut url = "http://".to_owned();
    url.append(host);
    url.append(":");
    push_dec(&mut url, port as u64);
    url.append("/torrent/");
    push_dec(&mut url, id as u64);
    url.append("/stream/");
    push_dec(&mut url, file_idx as u64);
    url
}

// --------------------------------------------------------------------- stats
/// The session's figures on a torrent that is live.
#[derive(Debug, Clone)]
pub struct LiveStats {
    /// The speed as the session words it, a number and a unit.
    pub download_speed: String,
    pub live_peers: usize,
}

/// The session's figures on a torrent.
#[derive(Debug, Clone)]
pub struct EngineStats {
    pub state: TorrentState,
    pub progress_bytes: u64,
    pub total_bytes: u64,
    pub finished: bool,
    pub live: Option<LiveStats>,
}

/// The number at the head of a worded speed, in units of which there are `unit` to one; 0 where
/// there is none.
pub open spec fn speed(s: Seq<char>, unit: nat) -> u64 {
    let w = words(s);
    if w.len() == 0 {
        0
    } else {
        match numeral(w[0]) {
            Some(n) => times(n, unit),
            None => 0,
        }
    }
}

fn read_speed(s: &str, unit: u64) -> (r: u64)
    requires
        unit <= 0x100_0000_0000,
    ensures
        r == speed(s@, unit as nat),
{
    let v = chars_of(s);
    let w = split_words(&v);
    assert(pieces(w@).len() == w@.len());
    if w.len() == 0 {
        return 0;
    }
    assert(pieces(w@)[0] == w@[0]@);
    match read_times(&w[0], unit) {
        Some(n) => n,
        None => 0,
    }
}

/// The number at the head of a worded speed, in millionths.
pub fn parse_mbps_string(s: &str) -> (r: u64)
    ensures
        r == speed(s@, 1_000_000),
{
    read_speed(s, 1_000_000)
}

/// How many bytes a megabit is.
pub const BYTES_PER_MEGABIT: u64 = 125_000;

/// `p` is what the session's figures say of a torrent's progress.
pub open spec fn is_progress_of(p: TorrentProgress, stats: EngineStats) -> bool {
    &&& p.bytes_downloaded == stats.progress_bytes
    &&& p.bytes_total == stats.total_bytes
    &&& p.finished == stats.finished
    &&& p.state == stats.state
    &&& p.peers_connected == match stats.live {
        Some(live) => live.live_peers,
        None => 0,
    }
    &&& p.speed_bps == match stats.live {
        Some(live) => speed(live.download_speed@, BYTES_PER_MEGABIT as nat),
        None => 0,
    }
}

/// The session's figures as progress: a speed in megabits becomes one in bytes.
pub fn stats_to_progress(stats: &EngineStats) -> (r: TorrentProgress)
    ensures
        is_progress_of(r, *stats),
{
    let (peers_connected, speed_bps) = match &stats.live {
        Some(live) => (live.live_peers, read_speed(live.download_speed.as_str(), BYTES_PER_MEGABIT)),
        None => (0, 0),
    };
    TorrentProgress {
        bytes_downloaded: stats.progress_bytes,
        bytes_total: stats.total_bytes,
        peers_connected,
        speed_bps,
        finished: stats.finished,
        state: stats.state,
    }
}

// ------------------------------------------------------- starting a torrent
/// A torrent that the session holds.
#[derive(Debug)]
pub struct HeldTorrent {
    pub id: usize,
    pub info_hash: Vec<u8>,
    /// The files that it fetches; all of them where none are picked.
    pub only_files: Option<Vec<usize>>,
    pub paused: bool,
}

/// `i` is the first of the held torrents with this info hash.
pub open spec fn is_first_held(held: Seq<HeldTorrent>, hash: Seq<u8>, i: int) -> bool {
    &&& 0 <= i < held.len()
    &&& held[i].info_hash@ == hash
    &&& forall|j: int| 0 <= j < i ==> (#[trigger] held[j]).info_hash@ != hash
}

/// `place` is where the session holds a torrent of a hash; none where it holds none, or there is
/// no hash.
pub open spec fn is_place_of(
    place: Option<usize>,
    held: Seq<HeldTorrent>,
    hash: Option<Seq<u8>>,
) -> bool {
    match place {
        Some(i) => hash is Some && is_first_held(held, hash->0, i as int),
        None => hash is None || forall|i: int|
            0 <= i < held.len() ==> (#[trigger] held[i]).info_hash@ != hash->0,
    }
}

/// The torrent that the session holds for a magnet link, without asking the swarm; none for a
/// link that names no hash, or a misfit.
pub fn already_managed(magnet: &str, held: &Vec<HeldTorrent>) -> (r: Option<usize>)
    ensures
        is_place_of(r, held@, link_hash(magnet@)),
        is_safe_magnet(magnet@) ==> is_place_of(r, held@, magnet_id(magnet@)),
        is_plain_magnet(magnet@) ==> is_place_of(r, held@, hash_in(magnet@)),
{
    match read_link_hash(magnet) {
        Some(hash) => find_held(&hash, held),
        None => None,
    }
}

/// The first of the held torrents with an info hash.
pub fn find_held(hash: &Vec<u8>, held: &Vec<HeldTorrent>) -> (r: Option<usize>)
    ensures
        match r {
            Some(i) => is_first_held(held@, hash@, i as int),
            None => forall|i: int|
                0 <= i < held@.len() ==> (#[trigger] held@[i]).info_hash@ != hash@,
        },
{
    let n: usize = held.len();
    let mut i: usize = 0;
    while i < n
        invariant
            n == held@.len(),
            i <= n,
            forall|j: int| 0 <= j < i ==> (#[trigger] held@[j]).info_hash@ != hash@,
        decreases n - i,
    {
        if same_bytes(&held[i].info_hash, hash) {
            return Some(i);
        }
        i += 1;
    }
    None
}

fn same_bytes(a: &Vec<u8>, b: &Vec<u8>) -> (r: bool)
    ensures
        r == (a@ == b@),
{
    if a.len() != b.len() {
        return false;
    }
    let n: usize = a.len();
    let mut i: usize = 0;
    while i < n
        invariant
            n == a@.len(),
            n == b@.len(),
            i <= n,
            forall|j: int| 0 <= j < i ==> a@[j] == b@[j],
        decreases n - i,
    {
        if a[i] != b[i] {
            return false;
        }
        i += 1;
    }
    assert(a@ =~= b@);
    true
}

/// What must be done to a held torrent before a file of it is streamed.
#[derive(Debug)]
pub struct ResumePlan {
    /// The files to fetch, where the selection must be widened.
    pub widen: Option<Vec<usize>>,
    pub unpause: bool,
}

/// A selection of files that leaves the wanted one out, and the same with it.
pub open spec fn widened(only_files: Option<Vec<usize>>, want: Option<usize>) -> Option<Seq<usize>> {
    match (only_files, want) {
        (Some(files), Some(idx)) => if files@.contains(idx) {
            None
        } else {
            Some(files@.push(idx))
        },
        _ => None,
    }
}

/// The view of a list that may be absent.
pub open spec fn opt_seq(v: Option<Vec<usize>>) -> Option<Seq<usize>> {
    match v {
        Some(s) => Some(s@),
        None => None,
    }
}

/// Plans how a held torrent comes to serve a file: the selection is widened where it leaves the
/// file out, and a pause is ended.
pub fn resume_for(held: &HeldTorrent, file_idx: Option<usize>) -> (r: ResumePlan)
    ensures
        opt_seq(r.widen) == widened(held.only_files, file_idx),
        r.unpause == held.paused,
{
    let widen = match (&held.only_files, file_idx) {
        (Some(files), Some(idx)) => {
            let n: usize = files.len();
            let mut found = false;
            let mut all: Vec<usize> = Vec::new();
            let mut i: usize = 0;
            while i < n
                invariant
                    n == files@.len(),
                    i <= n,
                    all@ == files@.take(i as int),
                    found == files@.take(i as int).contains(idx),
                decreases n - i,
            {
                assert(files@.take(i + 1) =~= files@.take(i as int).push(files@[i as int]));
                assert(files@.take(i + 1)[i as int] == files@[i as int]);
                if files[i] == idx {
                    found = true;
                }
                proof {
                    if files@.take(i as int).contains(idx) {
                        let j = choose|j: int|
                            0 <= j < files@.take(i as int).len() && files@.take(i as int)[j] == idx;
                        assert(files@.take(i + 1)[j] == idx);
                    }
                }
                all.push(files[i]);
                i += 1;
            }
            assert(files@.take(n as int) =~= files@);
            if found {
                None
            } else {
                all.push(idx);
                Some(all)
            }
        },
        _ => None,
    };
    ResumePlan { widen, unpause: held.paused }
}

/// What a caller is told of a torrent with the session's id.
pub fn start_info(librqbit_id: usize, file_index: Option<u32>, stream_port: u16) -> (r: Result<
    TorrentStartInfo,
    IdOutOfRange,
>)
    ensures
        match r {
            Ok(info) => is_start_info(info, librqbit_id, file_index, stream_port),
            Err(e) => librqbit_id + 1 > u32::MAX && e.librqbit_id == librqbit_id,
        },
{
    let id = match shift_librqbit_id(librqbit_id) {
        Ok(id) => id,
        Err(e) => {
            return Err(e);
        },
    };
    let file: u32 = match file_index {
        Some(f) => f,
        None => 0,
    };
    Ok(
        TorrentStartInfo {
            id,
            url: build_stream_url("127.0.0.1", stream_port, id, file as usize),
            file_index: file as usize,
        },
    )
}

/// `info` tells of the torrent with the session's id: our id of it, the first file where none is
/// asked for, and its address on the loopback.
pub open spec fn is_start_info(
    info: TorrentStartInfo,
    librqbit_id: usize,
    file_index: Option<u32>,
    stream_port: u16,
) -> bool {
    &&& info.id == librqbit_id + 1
    &&& info.file_index == match file_index {
        Some(f) => f as usize,
        None => 0,
    }
    &&& info.url@ == stream_url("127.0.0.1"@, stream_port, info.id, info.file_index)
}

/// How a torrent is started.
#[derive(Debug)]
pub enum StartPlan {
    /// No magnet link.
    Refused,
    /// The session holds it, at this place.
    Reuse(usize, ResumePlan),
    /// It was found dead a moment ago.
    KnownDead,
    /// The session has to fetch it, and these files of it.
    Fetch(Option<Vec<usize>>),
}

/// A magnet that is remembered as dead at `now`.
pub open spec fn is_dead(dead: Map<Seq<char>, u64>, magnet: Seq<char>, now: u64) -> bool {
    dead.contains_key(magnet) && elapsed(dead[magnet], now) < DEAD_MAGNET_MEMORY_SECS * 1000
}

/// The session holds a torrent for the magnet, as far as that shows without asking the swarm.
pub open spec fn is_held(held: Seq<HeldTorrent>, magnet: Seq<char>) -> bool {
    link_hash(magnet) is Some && exists|i: int|
        0 <= i < held.len() && (#[trigger] held[i]).info_hash@ == link_hash(magnet)->0
}

/// What [`plan_start`] decides.
pub open spec fn start_planned(
    magnet: Seq<char>,
    file_index: Option<u32>,
    held: Seq<HeldTorrent>,
    dead: Map<Seq<char>, u64>,
    dead_after: Map<Seq<char>, u64>,
    now: u64,
    plan: StartPlan,
) -> bool {
    let want = match file_index {
        Some(f) => Some(f as usize),
        None => None,
    };
    if !starts_with(magnet, "magnet:"@) {
        plan is Refused && dead_after == dead
    } else if is_held(held, magnet) {
        &&& dead_after == dead
        &&& plan matches StartPlan::Reuse(i, resume)
        &&& is_first_held(held, link_hash(magnet)->0, i as int)
        &&& opt_seq(resume.widen) == widened(held[i as int].only_files, want)
        &&& resume.unpause == held[i as int].paused
    } else if is_dead(dead, magnet, now) {
        plan is KnownDead && dead_after == dead
    } else {
        &&& dead_after == dead.remove(magnet)
        &&& plan matches StartPlan::Fetch(only)
        &&& opt_seq(only) == match want {
            Some(f) => Some(seq![f]),
            None => None,
        }
    }
}

/// Plans the start of a torrent. One that the session holds is resumed without asking the swarm;
/// one that was found dead a moment ago is not tried again.
pub fn plan_start(
    magnet: &str,
    file_index: Option<u32>,
    held: &Vec<HeldTorrent>,
    dead: &mut StringMap<u64>,
    now: u64,
) -> (r: StartPlan)
    ensures
        start_planned(magnet@, file_index, held@, old(dead)@, final(dead)@, now, r),
{
    let want: Option<usize> = match file_index {
        Some(f) => Some(f as usize),
        None => None,
    };
    if validate_magnet_uri(magnet).is_err() {
        return StartPlan::Refused;
    }
    if let Some(i) = already_managed(magnet, held) {
        assert(is_held(held@, magnet@)) by {
            assert(held@[i as int].info_hash@ == link_hash(magnet@)->0);
        }
        return StartPlan::Reuse(i, resume_for(&held[i], want));
    }
    if let Some(at) = dead.get(magnet) {
        if elapsed_millis(*at, now) < DEAD_MAGNET_MEMORY_SECS * 1000 {
            return StartPlan::KnownDead;
        }
    }
    dead.remove(magnet);
    StartPlan::Fetch(
        match want {
            Some(f) => {
                let mut only: Vec<usize> = Vec::new();
                only.push(f);
                assert(only@ =~= seq![f]);
                Some(only)
            },
            None => None,
        },
    )
}

/// What is remembered of dead magnets, with one more.
pub open spec fn dead_remembered(
    dead: Map<Seq<char>, u64>,
    magnet: Seq<char>,
    now: u64,
) -> Map<Seq<char>, u64> {
    dead.insert(magnet, now)
}

/// Remembers that a magnet was found dead.
pub fn remember_dead(dead: &mut StringMap<u64>, magnet: &str, now: u64)
    ensures
        final(dead)@ == dead_remembered(old(dead)@, magnet@, now),
{
    dead.insert(magnet.to_owned(), now);
}

/// A source found dead costs one wait: until the memory of it ends it is refused at once, and
/// then it is tried again.
pub proof fn a_dead_source_is_waited_for_once(
    magnet: Seq<char>,
    file_index: Option<u32>,
    held: Seq<HeldTorrent>,
    dead: Map<Seq<char>, u64>,
    found_at: u64,
    after: Map<Seq<char>, u64>,
    now: u64,
    plan: StartPlan,
)
    requires
        starts_with(magnet, "magnet:"@),
        !is_held(held, magnet),
        start_planned(
            magnet,
            file_index,
            held,
            dead.insert(magnet, found_at),
            after,
            now,
            plan,
        ),
    ensures
        elapsed(found_at, now) < DEAD_MAGNET_MEMORY_SECS * 1000 ==> plan is KnownDead,
        elapsed(found_at, now) >= DEAD_MAGNET_MEMORY_SECS * 1000 ==> plan is Fetch
            && !after.contains_key(magnet),
{
}

/// What ends a torrent's activity.
#[derive(Debug, Clone, Copy, PartialEq, Eq, Structural)]
pub enum StopPlan {
    Nothing,
    /// Throw the files and the record away.
    Delete(usize),
    /// Keep both, and fetch nothing more.
    Pause(usize),
}

/// What ends the activity of a torrent that we know under an id.
pub open spec fn stop_planned(id: u32, delete_files: bool, paused: Option<bool>) -> StopPlan {
    match session_id(id) {
        None => StopPlan::Nothing,
        Some(s) => if delete_files {
            StopPlan::Delete(s as usize)
        } else if paused == Some(false) {
            StopPlan::Pause(s as usize)
        } else {
            StopPlan::Nothing
        },
    }
}

/// Plans to stop a torrent. `paused` is whether the session has it paused; none where the
/// session does not hold it.
pub fn plan_stop(id: u32, delete_files: bool, paused: Option<bool>) -> (r: StopPlan)
    ensures
        r == stop_planned(id, delete_files, paused),
{
    match unshift_librqbit_id(id) {
        None => StopPlan::Nothing,
        Some(s) => if delete_files {
            StopPlan::Delete(s)
        } else {
            match paused {
                Some(p) => if p {
                    StopPlan::Nothing
                } else {
                    StopPlan::Pause(s)
                },
                None => StopPlan::Nothing,
            }
        },
    }
}

// ------------------------------------------------------------- housekeeping
/// The bytes in some counts of blocks, each of 512 bytes; a count that could not be had adds
/// nothing.
pub open spec fn bytes_in(blocks: Seq<Option<u64>>) -> nat
    decreases blocks.len(),
{
    if blocks.len() == 0 {
        0
    } else {
        bytes_in(blocks.drop_last()) + match blocks.last() {
            Some(b) => 512 * b as nat,
            None => 0,
        }
    }
}

/// The bytes that files hold on disk, by their counts of blocks, as far as 64 bits count them.
pub fn physical_bytes(blocks: &Vec<Option<u64>>) -> (r: u64)
    ensures
        r == if bytes_in(blocks@) > u64::MAX {
            u64::MAX as nat
        } else {
            bytes_in(blocks@)
        },
{
    let n: usize = blocks.len();
    let bound: u128 = 0x1_0000_0000_0000_0000;
    let mut total: u128 = 0;
    let mut i: usize = 0;
    assert(blocks@.take(0) =~= Seq::<Option<u64>>::empty());
    while i < n
        invariant
            n == blocks@.len(),
            i <= n,
            bound == 0x1_0000_0000_0000_0000,
            total <= bound,
            total < bound ==> total == bytes_in(blocks@.take(i as int)),
            total == bound ==> bytes_in(blocks@.take(i as int)) >= bound,
        decreases n - i,
    {
        assert(blocks@.take(i + 1).drop_last() =~= blocks@.take(i as int));
        assert(blocks@.take(i + 1).last() == blocks@[i as int]);
        if let Some(b) = blocks[i] {
            if total < bound {
                let sum: u128 = total + 512 * b as u128;
                total = if sum < bound { sum } else { bound };
            }
        }
        i += 1;
    }
    assert(blocks@.take(n as int) =~= blocks@);
    if total >= bound {
        u64::MAX
    } else {
        total as u64
    }
}

/// Files hold nothing exactly where each of them holds no block.
pub proof fn nothing_held_means_no_block(blocks: Seq<Option<u64>>)
    ensures
        bytes_in(blocks) == 0 <==> forall|i: int|
            0 <= i < blocks.len() ==> (#[trigger] blocks[i] is None || blocks[i] == Some(0u64)),
    decreases blocks.len(),
{
    if blocks.len() > 0 {
        let t = blocks.drop_last();
        nothing_held_means_no_block(t);
        if bytes_in(blocks) == 0 {
            assert forall|i: int| 0 <= i < blocks.len() implies (#[trigger] blocks[i] is None
                || blocks[i] == Some(0u64)) by {
                if i < t.len() {
                    assert(t[i] == blocks[i]);
                }
            }
        }
        if forall|i: int|
            0 <= i < blocks.len() ==> (#[trigger] blocks[i] is None || blocks[i] == Some(0u64)) {
            assert forall|i: int| 0 <= i < t.len() implies (#[trigger] t[i] is None || t[i] == Some(
                0u64,
            )) by {
                assert(t[i] == blocks[i]);
            }
            assert(blocks[blocks.len() - 1] == blocks.last());
        }
    }
}

/// A torrent that the session has restored.
#[derive(Debug)]
pub struct RestoredTorrent {
    pub id: usize,
    pub paused: bool,
    /// The counts of blocks of its files; none where its files are not known yet.
    pub blocks: Option<Vec<Option<u64>>>,
}

/// A torrent whose files are known and hold nothing.
pub open spec fn is_empty_on_disk(t: RestoredTorrent) -> bool {
    t.blocks matches Some(b) && bytes_in(b@) == 0
}

/// The torrents that are not paused.
pub open spec fn running(list: Seq<RestoredTorrent>) -> Seq<usize>
    decreases list.len(),
{
    if list.len() == 0 {
        seq![]
    } else if list.last().paused {
        running(list.drop_last())
    } else {
        running(list.drop_last()).push(list.last().id)
    }
}

/// The torrents of which nothing is on disk.
pub open spec fn empty_on_disk(list: Seq<RestoredTorrent>) -> Seq<usize>
    decreases list.len(),
{
    if list.len() == 0 {
        seq![]
    } else if is_empty_on_disk(list.last()) {
        empty_on_disk(list.drop_last()).push(list.last().id)
    } else {
        empty_on_disk(list.drop_last())
    }
}

/// What is done to the restored torrents.
#[derive(Debug)]
pub struct SettlePlan {
    pub pause: Vec<usize>,
    /// To be forgotten, with the files left alone.
    pub forget: Vec<usize>,
}

/// Plans what is done to the restored torrents: all are paused, since nothing plays yet, and
/// those of which nothing is on disk are forgotten.
pub fn plan_settle(list: &Vec<RestoredTorrent>) -> (r: SettlePlan)
    ensures
        r.pause@ == running(list@),
        r.forget@ == empty_on_disk(list@),
{
    let n: usize = list.len();
    let mut pause: Vec<usize> = Vec::new();
    let mut forget: Vec<usize> = Vec::new();
    let mut i: usize = 0;
    assert(list@.take(0) =~= Seq::<RestoredTorrent>::empty());
    while i < n
        invariant
            n == list@.len(),
            i <= n,
            pause@ == running(list@.take(i as int)),
            forget@ == empty_on_disk(list@.take(i as int)),
        decreases n - i,
    {
        assert(list@.take(i + 1).drop_last() =~= list@.take(i as int));
        assert(list@.take(i + 1).last() == list@[i as int]);
        let t = &list[i];
        if !t.paused {
            pause.push(t.id);
        }
        if let Some(blocks) = &t.blocks {
            if physical_bytes(blocks) == 0 {
                forget.push(t.id);
            }
        }
        i += 1;
    }
    assert(list@.take(n as int) =~= list@);
    SettlePlan { pause, forget }
}

/// After a restart nothing is fetched unasked, and nothing that is on disk is forgotten: every
/// torrent that runs is paused, and one is forgotten only where its files are known and hold not
/// a block.
pub proof fn settling_stops_all_and_loses_nothing(list: Seq<RestoredTorrent>)
    ensures
        forall|i: int|
            0 <= i < list.len() && !(#[trigger] list[i]).paused ==> running(list).contains(
                list[i].id,
            ),
        forall|id: usize| #[trigger]
            empty_on_disk(list).contains(id) ==> exists|i: int|
                0 <= i < list.len() && (#[trigger] list[i]).id == id && is_empty_on_disk(list[i]),
    decreases list.len(),
{
    if list.len() > 0 {
        let t = list.drop_last();
        let last = list.last();
        settling_stops_all_and_loses_nothing(t);
        assert forall|i: int| 0 <= i < list.len() && !(#[trigger] list[i]).paused implies running(
            list,
        ).contains(list[i].id) by {
            if i < t.len() {
                assert(t[i] == list[i]);
                let k = choose|k: int| 0 <= k < running(t).len() && running(t)[k] == list[i].id;
                assert(running(list)[k] == list[i].id);
            } else {
                assert(running(list)[running(list).len() - 1] == last.id);
            }
        }
        assert forall|id: usize| #[trigger] empty_on_disk(list).contains(id) implies exists|i: int|
            0 <= i < list.len() && (#[trigger] list[i]).id == id && is_empty_on_disk(list[i]) by {
            let k = choose|k: int|
                0 <= k < empty_on_disk(list).len() && empty_on_disk(list)[k] == id;
            if k < empty_on_disk(t).len() {
                assert(empty_on_disk(t)[k] == id);
                assert(empty_on_disk(t).contains(id));
                let i = choose|i: int|
                    0 <= i < t.len() && (#[trigger] t[i]).id == id && is_empty_on_disk(t[i]);
                assert(list[i] == t[i]);
            } else {
                assert(list[list.len() - 1] == last);
            }
        }
    }
}

/// A torrent as the session lists it.
#[derive(Debug)]
pub struct ListedTorrent {
    pub id: usize,
    pub paused: bool,
    pub finished: bool,
    pub name: Option<String>,
}

/// The listed torrents that are finished and still uploading, with our ids and their names.
pub open spec fn seeding(list: Seq<ListedTorrent>) -> Seq<(u32, Seq<char>)>
    decreases list.len(),
{
    if list.len() == 0 {
        seq![]
    } else {
        let rest = seeding(list.drop_last());
        let t = list.last();
        if !t.paused && t.finished && t.id < u32::MAX {
            rest.push(
                (
                    (t.id + 1) as u32,
                    match t.name {
                        Some(name) => name@,
                        None => Seq::empty(),
                    },
                ),
            )
        } else {
            rest
        }
    }
}

/// The views of numbered names.
pub open spec fn named(v: Seq<(u32, String)>) -> Seq<(u32, Seq<char>)> {
    v.map_values(|e: (u32, String)| (e.0, e.1@))
}

/// Computes [`seeding`].
pub fn finished_and_seeding(list: &Vec<ListedTorrent>) -> (r: Vec<(u32, String)>)
    ensures
        named(r@) == seeding(list@),
{
    let n: usize = list.len();
    let mut out: Vec<(u32, String)> = Vec::new();
    let mut i: usize = 0;
    assert(list@.take(0) =~= Seq::<ListedTorrent>::empty());
    assert(named(out@) =~= Seq::<(u32, Seq<char>)>::empty());
    while i < n
        invariant
            n == list@.len(),
            i <= n,
            named(out@) == seeding(list@.take(i as int)),
        decreases n - i,
    {
        let ghost before = named(out@);
        let t = &list[i];
        assert(list@.take(i + 1).drop_last() =~= list@.take(i as int));
        assert(list@.take(i + 1).last() == *t);
        if !t.paused && t.finished {
            if let Ok(id) = shift_librqbit_id(t.id) {
                let name = match &t.name {
                    Some(name) => name.clone(),
                    None => String::new(),
                };
                out.push((id, name));
                assert(named(out@) =~= before.push((id, name@)));
            }
        }
        i += 1;
    }
    assert(list@.take(n as int) =~= list@);
    out
}

/// The files of a torrent of the session, by their paths; none where a path could not be had.
#[derive(Debug)]
pub struct FileList {
    pub id: usize,
    pub paths: Vec<Option<String>>,
}

/// The path at a place of a list is the one that is looked for.
pub open spec fn is_path(paths: Seq<Option<String>>, i: int, target: Seq<char>) -> bool {
    paths[i] matches Some(p) && p@ == target
}

/// The torrent that owns a path, and the file's place in it: the first of them that has it.
pub open spec fn owns(
    lists: Seq<FileList>,
    target: Seq<char>,
    t: int,
    f: int,
) -> bool {
    &&& 0 <= t < lists.len()
    &&& 0 <= f < lists[t].paths@.len()
    &&& is_path(lists[t].paths@, f, target)
    &&& forall|g: int| 0 <= g < f ==> !#[trigger] is_path(lists[t].paths@, g, target)
    &&& forall|u: int| 0 <= u < t ==> lacks(#[trigger] lists[u], target)
}

/// A torrent has no file at the path.
pub open spec fn lacks(list: FileList, target: Seq<char>) -> bool {
    forall|g: int| 0 <= g < list.paths@.len() ==> !#[trigger] is_path(list.paths@, g, target)
}

/// The torrent that owns a path has this id of ours, and the file this place in it.
pub open spec fn owned_by(lists: Seq<FileList>, target: Seq<char>, id: u32, f: usize) -> bool {
    exists|t: int| #[trigger] owns(lists, target, t, f as int) && id == lists[t].id + 1
}

/// `owner` is the torrent that owns a path, by our id, and the file's place in it; none where no
/// torrent has the path, or the one that has it has no id of ours.
pub open spec fn is_owner(
    owner: Option<(u32, usize)>,
    lists: Seq<FileList>,
    target: Seq<char>,
) -> bool {
    match owner {
        Some(found) => owned_by(lists, target, found.0, found.1),
        None => (forall|t: int| 0 <= t < lists.len() ==> lacks(#[trigger] lists[t], target)) || (
        exists|t: int, f: int| #[trigger] owns(lists, target, t, f) && lists[t].id + 1 > u32::MAX),
    }
}

/// Finds which torrent owns a path.
pub fn owner_of(target: &str, lists: &Vec<FileList>) -> (r: Option<(u32, usize)>)
    ensures
        is_owner(r, lists@, target@),
{
    let n: usize = lists.len();
    let mut t: usize = 0;
    while t < n
        invariant
            n == lists@.len(),
            t <= n,
            forall|u: int| 0 <= u < t ==> lacks(#[trigger] lists@[u], target@),
        decreases n - t,
    {
        let list = &lists[t];
        let m: usize = list.paths.len();
        let mut f: usize = 0;
        while f < m
            invariant
                t < n,
                n == lists@.len(),
                *list == lists@[t as int],
                m == list.paths@.len(),
                f <= m,
                forall|u: int| 0 <= u < t ==> lacks(#[trigger] lists@[u], target@),
                forall|g: int| 0 <= g < f ==> !#[trigger] is_path(list.paths@, g, target@),
            decreases m - f,
        {
            if let Some(p) = &list.paths[f] {
                if same(p.as_str(), target) {
                    assert(owns(lists@, target@, t as int, f as int));
                    match shift_librqbit_id(list.id) {
                        Ok(id) => {
                            assert(id == lists@[t as int].id + 1);
                            assert(owned_by(lists@, target@, id, f));
                            return Some((id, f));
                        },
                        Err(e) => {
                            assert(lists@[t as int].id + 1 > u32::MAX);
                            return None;
                        },
                    }
                }
            }
            f += 1;
        }
        assert(lacks(lists@[t as int], target@));
        t += 1;
    }
    None
}

// ------------------------------------------------------------------- windows
/// How much of either end of a file is fetched first, in bytes.
pub const PREFETCH_END_BYTES: u64 = 2_097_152;

/// How much is fetched first behind a seek, in bytes.
pub const PREFETCH_SEEK_BYTES: u64 = 8_388_608;

/// How much of either end of a file is probed, in bytes.
pub const PROBE_END_BYTES: u64 = 65_536;

/// Where the last `window` bytes of a file begin; none where the file is no longer than that.
pub open spec fn tail_of(len: u64, window: u64) -> Option<u64> {
    if len > window {
        Some((len - window) as u64)
    } else {
        None
    }
}

/// Gives [`tail_of`].
pub fn tail_start(len: u64, window: u64) -> (r: Option<u64>)
    ensures
        r == tail_of(len, window),
{
    if len > window {
        Some(len - window)
    } else {
        None
    }
}

/// How many bytes behind an offset are fetched first; none where the offset is past the end.
pub open spec fn window_behind(len: u64, byte_offset: u64) -> Option<u64> {
    if byte_offset >= len {
        None
    } else if len - byte_offset < PREFETCH_SEEK_BYTES {
        Some((len - byte_offset) as u64)
    } else {
        Some(PREFETCH_SEEK_BYTES)
    }
}

/// Gives [`window_behind`].
pub fn seek_window(len: u64, byte_offset: u64) -> (r: Option<u64>)
    ensures
        r == window_behind(len, byte_offset),
{
    if byte_offset >= len {
        None
    } else if len - byte_offset < PREFETCH_SEEK_BYTES {
        Some(len - byte_offset)
    } else {
        Some(PREFETCH_SEEK_BYTES)
    }
}

// ------------------------------------------------------------------- waiting
/// A torrent that has fetched anything, or is about to.
pub open spec fn is_alive(p: TorrentProgress) -> bool {
    p.bytes_downloaded > 0 || p.peers_connected > 0 || p.speed_bps > 0
}

/// Decides [`is_alive`].
pub fn shows_life(p: &TorrentProgress) -> (r: bool)
    ensures
        r == is_alive(*p),
{
    p.bytes_downloaded > 0 || p.peers_connected > 0 || p.speed_bps > 0
}

/// How the wait for a torrent's first sign of life goes on.
#[derive(Debug, Clone, Copy, PartialEq, Eq, Structural)]
pub enum LifeStep {
    Alive,
    /// Wait a moment, and look at the torrent again.
    Look,
    Dead,
}

/// How the wait for a sign of life goes on, by the progress seen last: it ends with the first one,
/// or when no time is left.
pub open spec fn life_judged(
    elapsed_millis: u64,
    timeout_secs: u64,
    last: Option<TorrentProgress>,
) -> LifeStep {
    if last is Some && is_alive(last->0) {
        LifeStep::Alive
    } else if elapsed_millis < timeout_secs * 1000 {
        LifeStep::Look
    } else {
        LifeStep::Dead
    }
}

/// Goes on with the wait for a sign of life, as [`life_judged`].
pub fn life_step(elapsed_millis: u64, timeout_secs: u64, last: Option<TorrentProgress>) -> (r:
    LifeStep)
    ensures
        r == life_judged(elapsed_millis, timeout_secs, last),
{
    if let Some(p) = last {
        if shows_life(&p) {
            return LifeStep::Alive;
        }
    }
    if (elapsed_millis as u128) < timeout_secs as u128 * 1000 {
        LifeStep::Look
    } else {
        LifeStep::Dead
    }
}

/// A torrent's worker counts as alive: it is a local file, or the session holds it.
pub open spec fn counts_as_alive(torrent_id: u32, held: bool) -> bool {
    torrent_id == 0 || held
}

/// Decides [`counts_as_alive`].
pub fn is_torrent_alive(torrent_id: u32, held: bool) -> (r: bool)
    ensures
        r == counts_as_alive(torrent_id, held),
{
    torrent_id == 0 || held
}

/// After so many seconds without a byte a download counts as stalled.
pub const DOWNLOAD_STALL_SECS: u64 = 300;

/// The wait for a download to finish. Times are milliseconds on a clock that never runs back.
#[derive(Debug, Clone, Copy)]
pub struct DownloadWait {
    pub started_at: u64,
    pub timeout_secs: u64,
    pub last_bytes: u64,
    pub last_progress_at: u64,
}

/// How a look at a download ends.
#[derive(Debug, Clone, Copy, PartialEq, Eq, Structural)]
pub enum DownloadStatus {
    Complete,
    Downloading,
    TimedOut,
    Disappeared,
    Stalled,
}

impl DownloadStatus {
    /// What is said of a wait of so many seconds that failed, by the last progress seen.
    pub open spec fn text(self, timeout_secs: u64, progress: Option<TorrentProgress>) -> Option<
        Seq<char>,
    > {
        match self {
            DownloadStatus::TimedOut => Some(
                "timed out after "@ + dec(timeout_secs as nat)
                    + "s waiting for torrent download to finish"@,
            ),
            DownloadStatus::Disappeared => Some(
                "torrent disappeared from session before finishing"@,
            ),
            DownloadStatus::Stalled => Some(
                "torrent download stalled for 300s before finishing ("@ + dec(
                    match progress {
                        Some(p) => p.bytes_downloaded as nat,
                        None => 0,
                    },
                ) + " / "@ + dec(
                    match progress {
                        Some(p) => p.bytes_total as nat,
                        None => 0,
                    },
                ) + " bytes)"@,
            ),
            DownloadStatus::Complete | DownloadStatus::Downloading => None,
        }
    }

    /// Writes what is said of a wait that failed; none of one that did not.
    pub fn complaint(&self, timeout_secs: u64, progress: Option<TorrentProgress>) -> (r: Option<
        String,
    >)
        ensures
            opt(r) == self.text(timeout_secs, progress),
    {
        match self {
            DownloadStatus::TimedOut => {
                let mut m = "timed out after ".to_owned();
                push_dec(&mut m, timeout_secs);
                m.append("s waiting for torrent download to finish");
                Some(m)
            },
            DownloadStatus::Disappeared => Some(
                "torrent disappeared from session before finishing".to_owned(),
            ),
            DownloadStatus::Stalled => {
                let (fetched, total) = match progress {
                    Some(p) => (p.bytes_downloaded, p.bytes_total),
                    None => (0, 0),
                };
                let mut m = "torrent download stalled for 300s before finishing (".to_owned();
                push_dec(&mut m, fetched);
                m.append(" / ");
                push_dec(&mut m, total);
                m.append(" bytes)");
                Some(m)
            },
            DownloadStatus::Complete | DownloadStatus::Downloading => None,
        }
    }
}

/// All of a torrent is here.
pub open spec fn is_complete(p: TorrentProgress) -> bool {
    p.finished || (p.bytes_total > 0 && p.bytes_downloaded >= p.bytes_total)
}

/// What a look at a download finds.
pub open spec fn download_status(
    w: DownloadWait,
    progress: Option<TorrentProgress>,
    now: u64,
) -> DownloadStatus {
    if elapsed(w.started_at, now) > w.timeout_secs * 1000 {
        DownloadStatus::TimedOut
    } else {
        match progress {
            None => DownloadStatus::Disappeared,
            Some(p) => if is_complete(p) {
                DownloadStatus::Complete
            } else if p.bytes_downloaded <= w.last_bytes && elapsed(w.last_progress_at, now) / 1000
                >= DOWNLOAD_STALL_SECS {
                DownloadStatus::Stalled
            } else {
                DownloadStatus::Downloading
            },
        }
    }
}

impl DownloadWait {
    /// The wait at its start.
    pub open spec fn fresh(timeout_secs: u64, now: u64) -> DownloadWait {
        DownloadWait { started_at: now, timeout_secs, last_bytes: 0, last_progress_at: now }
    }

    /// The wait after a look. More bytes than before start the stall clock anew.
    pub open spec fn after_look(self, progress: Option<TorrentProgress>, now: u64) -> DownloadWait {
        if download_status(self, progress, now) is Downloading && progress->0.bytes_downloaded
            > self.last_bytes {
            DownloadWait {
                last_bytes: progress->0.bytes_downloaded,
                last_progress_at: now,
                ..self
            }
        } else {
            self
        }
    }

    /// The wait at its start.
    pub fn new(timeout_secs: u64, now: u64) -> (r: DownloadWait)
        ensures
            r == DownloadWait::fresh(timeout_secs, now),
    {
        DownloadWait { started_at: now, timeout_secs, last_bytes: 0, last_progress_at: now }
    }

    /// Takes a look. More bytes than before start the stall clock anew.
    pub fn look(&mut self, progress: Option<TorrentProgress>, now: u64) -> (r: DownloadStatus)
        ensures
            r == download_status(*old(self), progress, now),
            *final(self) == old(self).after_look(progress, now),
    {
        if elapsed_millis(self.started_at, now) as u128 > self.timeout_secs as u128 * 1000 {
            return DownloadStatus::TimedOut;
        }
        match progress {
            None => DownloadStatus::Disappeared,
            Some(p) => {
                if p.finished || (p.bytes_total > 0 && p.bytes_downloaded >= p.bytes_total) {
                    return DownloadStatus::Complete;
                }
                if p.bytes_downloaded > self.last_bytes {
                    self.last_bytes = p.bytes_downloaded;
                    self.last_progress_at = now;
                } else if elapsed_millis(self.last_progress_at, now) / 1000 >= DOWNLOAD_STALL_SECS {
                    return DownloadStatus::Stalled;
                }
                DownloadStatus::Downloading
            },
        }
    }
}

} // verus!
