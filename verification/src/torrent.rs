//! The worker processes: which of the running ones are ours, and which of those are to end.
use vstd::prelude::*;

use crate::numbers::{split_words, words};
use crate::text::{chars_of, lines, parse_up_to, pieces, read_u32, split_lines};

verus! {

/// What the command line of a transcode of ours matches.
pub const SPELA_FFMPEG_PROCESS_PATTERN: &'static str =
    "ffmpeg.*transcoded_aac\\.mp4|transcoded_aac\\.mp4|ffmpeg.*transcoded_hls|transcoded_hls/playlist\\.m3u8";

/// What the command line of a torrent worker of earlier releases matches.
pub const LEGACY_WEBTORRENT_PROCESS_PATTERN: &'static str = "WebTorrent|webtorrent";

/// The process that a line of a listing names: its first word, where that is a number above 0.
pub open spec fn pid_in(line: Seq<char>) -> Option<u32> {
    let w = words(line);
    if w.len() == 0 {
        None
    } else {
        match parse_up_to(w[0], u32::MAX as nat) {
            Some(p) => if p > 0 {
                Some(p as u32)
            } else {
                None
            },
            None => None,
        }
    }
}

/// The processes that the lines of a listing name.
pub open spec fn pids_in(ls: Seq<Seq<char>>) -> Seq<u32>
    decreases ls.len(),
{
    if ls.len() == 0 {
        seq![]
    } else {
        match pid_in(ls.last()) {
            Some(p) => pids_in(ls.drop_last()).push(p),
            None => pids_in(ls.drop_last()),
        }
    }
}

/// Reads a listing of processes.
pub fn parse_pgrep_pids(output: &str) -> (r: Vec<u32>)
    ensures
        r@ == pids_in(lines(output@)),
{
    let v = chars_of(output);
    let ls = split_lines(&v);
    let n: usize = ls.len();
    let ghost all = lines(output@);
    let mut out: Vec<u32> = Vec::new();
    let mut i: usize = 0;
    assert(pieces(ls@).len() == n);
    assert(all.take(0) =~= Seq::<Seq<char>>::empty());
    while i < n
        invariant
            n == ls@.len(),
            n == all.len(),
            i <= n,
            pieces(ls@) == all,
            out@ == pids_in(all.take(i as int)),
        decreases n - i,
    {
        assert(all.take(i + 1).drop_last() =~= all.take(i as int));
        assert(all.take(i + 1).last() == ls@[i as int]@);
        let w = split_words(&ls[i]);
        assert(pieces(w@).len() == w@.len());
        if w.len() > 0 {
            assert(pieces(w@)[0] == w@[0]@);
            if let Some(p) = read_u32(&w[0]) {
                if p > 0 {
                    out.push(p);
                }
            }
        }
        i += 1;
    }
    assert(all.take(n as int) =~= all);
    out
}

/// A process is to end: it is not our own, it is alive, and it is not among those that may stay.
pub open spec fn is_doomed(pid: u32, alive: bool, allowed: Seq<u32>, self_pid: u32) -> bool {
    pid != self_pid && alive && !(pid > 0 && allowed.contains(pid))
}

/// Decides [`is_doomed`].
pub fn should_kill(pid: u32, alive: bool, allowed: &Vec<u32>, self_pid: u32) -> (r: bool)
    ensures
        r == is_doomed(pid, alive, allowed@, self_pid),
{
    if pid == self_pid || !alive {
        return false;
    }
    let n: usize = allowed.len();
    let mut i: usize = 0;
    while i < n
        invariant
            n == allowed@.len(),
            i <= n,
            pid != self_pid,
            alive,
            forall|j: int| 0 <= j < i ==> !(pid > 0 && allowed@[j] == pid),
        decreases n - i,
    {
        if allowed[i] == pid && pid > 0 {
            assert(allowed@.contains(pid));
            return false;
        }
        i += 1;
    }
    true
}

/// The server never ends itself, nor a process that is gone, nor one that may stay.
pub proof fn the_server_never_ends_itself(pid: u32, alive: bool, allowed: Seq<u32>, self_pid: u32)
    requires
        is_doomed(pid, alive, allowed, self_pid),
    ensures
        pid != self_pid,
        alive,
        pid > 0 ==> !allowed.contains(pid),
{
}

} // verus!
