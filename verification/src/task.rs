//! The counter of pending SRD work and the share of it that one turn of
//! the enclave's main loop hands to the host.
use vstd::prelude::*;
use crate::status::SGX_SUCCESS;

verus! {

/// Most SRD units one turn hands out.
pub const SRD_MAX_PER_TURN: i32 = 64;

/// Pending SRD work: positive to reserve more space, negative to release.
pub struct SrdTasks {
    pub task_num: i32,
}

/// What one turn hands out when `pending` units wait: everything up to
/// `SRD_MAX_PER_TURN` (a release, being negative, goes out whole).
pub open spec fn turn_amount(pending: int) -> int {
    if pending > SRD_MAX_PER_TURN {
        SRD_MAX_PER_TURN as int
    } else {
        pending
    }
}

/// The backlog left after `turns` consecutive turns starting from `pending`.
pub open spec fn backlog_after(pending: int, turns: nat) -> int
    decreases turns,
{
    if turns == 0 {
        pending
    } else {
        let left = backlog_after(pending, (turns - 1) as nat);
        left - turn_amount(left)
    }
}

/// The sum of what `turns` consecutive turns hand out, starting from `pending`.
pub open spec fn handed_out(pending: int, turns: nat) -> int
    decreases turns,
{
    if turns == 0 {
        0
    } else {
        handed_out(pending, (turns - 1) as nat) + turn_amount(
            backlog_after(pending, (turns - 1) as nat),
        )
    }
}

impl SrdTasks {
    /// No pending work.
    pub fn new() -> (t: SrdTasks)
        ensures
            t.task_num == 0,
    {
        SrdTasks { task_num: 0 }
    }
}

/// Queues `num` more units of SRD work (negative to release space).
pub fn srd_change_task(tasks: &mut SrdTasks, num: i32) -> (status: u32)
    requires
        i32::MIN <= old(tasks).task_num + num <= i32::MAX,
    ensures
        final(tasks).task_num == old(tasks).task_num + num,
        status == SGX_SUCCESS,
{
    tasks.task_num = tasks.task_num + num;
    SGX_SUCCESS
}

/// Takes this turn's share of the pending work off the counter and returns
/// it; the host is asked to act only when it is not zero.
pub fn srd_change(tasks: &mut SrdTasks) -> (change: i32)
    ensures
        change == turn_amount(old(tasks).task_num as int),
        final(tasks).task_num == old(tasks).task_num - change,
        change <= SRD_MAX_PER_TURN,
        final(tasks).task_num >= 0,
{
    let change = if tasks.task_num > SRD_MAX_PER_TURN {
        SRD_MAX_PER_TURN
    } else {
        tasks.task_num
    };
    tasks.task_num = tasks.task_num - change;
    change
}

/// No work is lost or invented: over any number of turns, what was handed
/// out plus what is still pending equals what was pending at the start.
pub proof fn lemma_turns_conserve_work(pending: int, turns: nat)
    ensures
        handed_out(pending, turns) + backlog_after(pending, turns) == pending,
    decreases turns,
{
    if turns > 0 {
        lemma_turns_conserve_work(pending, (turns - 1) as nat);
    }
}

/// After at least one turn the backlog is never negative, and it never
/// grows from one turn to the next.
pub proof fn lemma_backlog_shrinks(pending: int, turns: nat)
    requires
        turns > 0,
    ensures
        backlog_after(pending, turns) >= 0,
        backlog_after(pending, turns) <= backlog_after(pending, (turns - 1) as nat)
            || backlog_after(pending, (turns - 1) as nat) < 0,
{
}

/// Pending work drains: starting from `pending` units, `turns` turns with
/// `turns * SRD_MAX_PER_TURN >= pending` leave nothing behind and have
/// handed out exactly `pending` units, at most `SRD_MAX_PER_TURN` per turn.
pub proof fn lemma_turns_drain(pending: int, turns: nat)
    requires
        turns * SRD_MAX_PER_TURN >= pending,
        turns > 0 || pending == 0,
    ensures
        backlog_after(pending, turns) == 0,
        handed_out(pending, turns) == pending,
    decreases turns,
{
    lemma_turns_conserve_work(pending, turns);
    if turns > 0 {
        if pending > SRD_MAX_PER_TURN {
            lemma_shift(pending, (turns - 1) as nat);
            lemma_turns_drain(pending - SRD_MAX_PER_TURN, (turns - 1) as nat);
        } else {
            lemma_zero_stays(pending, turns);
        }
    }
}

proof fn lemma_shift(pending: int, turns: nat)
    requires
        pending > SRD_MAX_PER_TURN,
    ensures
        backlog_after(pending, turns + 1) == backlog_after(pending - SRD_MAX_PER_TURN, turns),
    decreases turns,
{
    if turns > 0 {
        lemma_shift(pending, (turns - 1) as nat);
        assert(backlog_after(pending, turns + 1) == backlog_after(pending, turns) - turn_amount(
            backlog_after(pending, turns),
        ));
        assert(backlog_after(pending - SRD_MAX_PER_TURN, turns) == backlog_after(
            pending - SRD_MAX_PER_TURN,
            (turns - 1) as nat,
        ) - turn_amount(backlog_after(pending - SRD_MAX_PER_TURN, (turns - 1) as nat)));
    } else {
        assert(backlog_after(pending, 1) == backlog_after(pending, 0) - turn_amount(
            backlog_after(pending, 0),
        ));
    }
}

proof fn lemma_zero_stays(pending: int, turns: nat)
    requires
        pending <= SRD_MAX_PER_TURN,
        turns > 0,
    ensures
        backlog_after(pending, turns) == 0,
    decreases turns,
{
    if turns > 1 {
        lemma_zero_stays(pending, (turns - 1) as nat);
    } else {
        assert(backlog_after(pending, 0) == pending);
    }
    assert(backlog_after(pending, turns) == backlog_after(pending, (turns - 1) as nat)
        - turn_amount(backlog_after(pending, (turns - 1) as nat)));
}

} // verus!
