//! The ring of past transcode logs: the newest is `.1`, and the oldest gives way.
use vstd::prelude::*;

use crate::text::{dec, push_dec};

verus! {

/// How many past logs are kept.
pub const KEPT_LOGS: usize = 5;

/// What is done to the files of the ring. The current log is 0, the past ones count from 1.
#[derive(Debug, Clone, Copy, PartialEq, Eq, Structural)]
pub enum RotateStep {
    Remove(usize),
    Rename(usize, usize),
}

/// A step that is taken where its file is there.
pub open spec fn if_there(there: bool, step: RotateStep) -> Seq<RotateStep> {
    if there {
        seq![step]
    } else {
        seq![]
    }
}

/// The steps that rotate a ring, of which `present` says which files are there: nothing without
/// a current log; else the oldest is removed and each other moves on by one.
pub open spec fn rotation(present: Seq<bool>) -> Seq<RotateStep> {
    if !present[0] {
        seq![]
    } else {
        if_there(present[5], RotateStep::Remove(5)) + if_there(present[4], RotateStep::Rename(4, 5))
            + if_there(present[3], RotateStep::Rename(3, 4)) + if_there(
            present[2],
            RotateStep::Rename(2, 3),
        ) + if_there(present[1], RotateStep::Rename(1, 2)) + seq![RotateStep::Rename(0, 1)]
    }
}

/// Computes [`rotation`].
pub fn plan_rotation(present: &Vec<bool>) -> (r: Vec<RotateStep>)
    requires
        present@.len() == KEPT_LOGS + 1,
    ensures
        r@ == rotation(present@),
{
    let mut steps: Vec<RotateStep> = Vec::new();
    if !present[0] {
        return steps;
    }
    if present[5] {
        steps.push(RotateStep::Remove(5));
    }
    if present[4] {
        steps.push(RotateStep::Rename(4, 5));
    }
    if present[3] {
        steps.push(RotateStep::Rename(3, 4));
    }
    if present[2] {
        steps.push(RotateStep::Rename(2, 3));
    }
    if present[1] {
        steps.push(RotateStep::Rename(1, 2));
    }
    steps.push(RotateStep::Rename(0, 1));
    assert(steps@ =~= rotation(present@));
    steps
}

/// The files of a ring after a step; each file is known by a number.
pub open spec fn after_step(files: Seq<Option<int>>, step: RotateStep) -> Seq<Option<int>> {
    match step {
        RotateStep::Remove(n) => files.update(n as int, None),
        RotateStep::Rename(a, b) => files.update(b as int, files[a as int]).update(a as int, None),
    }
}

/// The files of a ring after some steps.
pub open spec fn after_steps(files: Seq<Option<int>>, steps: Seq<RotateStep>) -> Seq<Option<int>>
    decreases steps.len(),
{
    if steps.len() == 0 {
        files
    } else {
        after_step(after_steps(files, steps.drop_last()), steps.last())
    }
}

/// Which files of a ring are there.
pub open spec fn presence(files: Seq<Option<int>>) -> Seq<bool> {
    files.map_values(|f: Option<int>| f is Some)
}

proof fn lemma_more_steps(files: Seq<Option<int>>, steps: Seq<RotateStep>, there: bool, step: RotateStep)
    ensures
        after_steps(files, steps + if_there(there, step)) == if there {
            after_step(after_steps(files, steps), step)
        } else {
            after_steps(files, steps)
        },
{
    if there {
        assert((steps + seq![step]).drop_last() =~= steps);
        assert((steps + seq![step]).last() == step);
    } else {
        assert(steps + Seq::<RotateStep>::empty() =~= steps);
    }
}

/// Rotating a ring that has a current log moves every log on by one place, drops the oldest, and
/// leaves the current place free: no log but the oldest is lost, and no more than five are kept.
pub proof fn rotation_moves_every_log_on(files: Seq<Option<int>>)
    requires
        files.len() == KEPT_LOGS + 1,
        files[0] is Some,
    ensures
        ({
            let after = after_steps(files, rotation(presence(files)));
            &&& after.len() == files.len()
            &&& after[0] is None
            &&& forall|k: int| 1 <= k <= KEPT_LOGS ==> after[k] == files[k - 1]
        }),
{
    let p = presence(files);
    let s0 = Seq::<RotateStep>::empty();
    let s1 = s0 + if_there(p[5], RotateStep::Remove(5));
    let s2 = s1 + if_there(p[4], RotateStep::Rename(4, 5));
    let s3 = s2 + if_there(p[3], RotateStep::Rename(3, 4));
    let s4 = s3 + if_there(p[2], RotateStep::Rename(2, 3));
    let s5 = s4 + if_there(p[1], RotateStep::Rename(1, 2));
    let s6 = s5 + if_there(true, RotateStep::Rename(0, 1));
    lemma_more_steps(files, s0, p[5], RotateStep::Remove(5));
    lemma_more_steps(files, s1, p[4], RotateStep::Rename(4, 5));
    lemma_more_steps(files, s2, p[3], RotateStep::Rename(3, 4));
    lemma_more_steps(files, s3, p[2], RotateStep::Rename(2, 3));
    lemma_more_steps(files, s4, p[1], RotateStep::Rename(1, 2));
    lemma_more_steps(files, s5, true, RotateStep::Rename(0, 1));
    assert(rotation(p) =~= s6);
    assert(after_steps(files, s0) == files);
    let f1 = after_steps(files, s1);
    assert(f1 =~= files.update(5, None));
    let f2 = after_steps(files, s2);
    assert(f2 =~= files.update(5, files[4]).update(4, None));
    let f3 = after_steps(files, s3);
    assert(f3 =~= files.update(5, files[4]).update(4, files[3]).update(3, None));
    let f4 = after_steps(files, s4);
    assert(f4 =~= files.update(5, files[4]).update(4, files[3]).update(3, files[2]).update(2, None));
    let f5 = after_steps(files, s5);
    assert(f5 =~= files.update(5, files[4]).update(4, files[3]).update(3, files[2]).update(
        2,
        files[1],
    ).update(1, None));
}

/// The path of a file of the ring.
pub open spec fn path_in_ring(current: Seq<char>, n: usize) -> Seq<char> {
    if n == 0 {
        current
    } else {
        current + "."@ + dec(n as nat)
    }
}

/// Writes [`path_in_ring`].
pub fn ring_path(current: &str, n: usize) -> (r: String)
    ensures
        r@ == path_in_ring(current@, n),
{
    let mut p = current.to_owned();
    if n > 0 {
        p.append(".");
        push_dec(&mut p, n as u64);
    }
    p
}

} // verus!
