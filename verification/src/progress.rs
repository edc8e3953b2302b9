//! Every run ends: a measure of the work left in a run, in natural
//! numbers, that each transition which does not end the run lowers.
use vstd::prelude::*;

use crate::exec::{
    advance_top, at_task, current_task, frames_after, frames_wf, lemma_runner_at_same,
    next_move, phase_after, runner_at, top, until_at, Frame, Move, Phase,
};
use crate::runner::Task;
use crate::value::ValueView;

verus! {

/// The work a task stands for: a `run` or `ask` task is started and then
/// completed; an `until` task is entered, and each of its iterations runs
/// the body and checks the condition.
pub open spec fn task_cost(t: Task) -> nat
    decreases t, 0nat,
{
    match t {
        Task::Until(u) => 1 + (u.max_iterations as nat) * (suffix_cost(u.body.tasks@, 0) + 1),
        _ => 2,
    }
}

/// The work of the tasks of `ts` from position `i` on.
pub open spec fn suffix_cost(ts: Seq<Task>, i: int) -> nat
    decreases ts, ts.len() - i,
{
    if 0 <= i < ts.len() {
        task_cost(ts[i]) + suffix_cost(ts, i + 1)
    } else {
        0
    }
}

/// The work left at a depth that is not the innermost: the tasks after the
/// `until` task in progress, the end of this list, and the iterations of
/// that task not yet begun.
pub open spec fn inner_level(root: Seq<Task>, frames: Seq<Frame>, d: nat) -> nat {
    let r = runner_at(root, frames, d);
    let i = frames[d as int].index as int;
    let u = r[i]->Until_0;
    suffix_cost(r, i + 1) + 1 + ((u.max_iterations - frames[d as int + 1].iteration) as nat) * (
    suffix_cost(u.body.tasks@, 0) + 1)
}

/// The work left at the depths above `k`.
pub open spec fn levels_sum(root: Seq<Task>, frames: Seq<Frame>, k: nat) -> nat
    decreases k,
{
    if k == 0 {
        0
    } else {
        levels_sum(root, frames, (k - 1) as nat) + inner_level(root, frames, (k - 1) as nat)
    }
}

/// The work left at the innermost depth: its remaining tasks and its end.
pub open spec fn top_level(root: Seq<Task>, frames: Seq<Frame>) -> nat {
    suffix_cost(runner_at(root, frames, top(frames)), frames.last().index as int) + 1
}

/// The work left in a run: all depths, less the half of the task under
/// the cursor already done when the engine waits for its outcome.
pub open spec fn work_left(root: Seq<Task>, frames: Seq<Frame>, phase: Phase) -> int {
    levels_sum(root, frames, top(frames)) + top_level(root, frames) - if phase
        == Phase::AwaitingShell || phase == Phase::AwaitingModel {
        1int
    } else {
        0int
    }
}

proof fn lemma_levels_same(root: Seq<Task>, f1: Seq<Frame>, f2: Seq<Frame>, k: nat)
    requires
        k < f1.len(),
        k < f2.len(),
        forall|j: int| 0 <= j < k ==> (#[trigger] f1[j]).index == f2[j].index,
        forall|j: int| 0 <= j <= k ==> (#[trigger] f1[j]).iteration == f2[j].iteration,
    ensures
        levels_sum(root, f1, k) == levels_sum(root, f2, k),
    decreases k,
{
    if k > 0 {
        lemma_levels_same(root, f1, f2, (k - 1) as nat);
        lemma_runner_at_same(root, f1, f2, (k - 1) as nat);
        assert(f1[k - 1].index == f2[k - 1].index);
        assert(f1[k as int].iteration == f2[k as int].iteration);
    }
}

proof fn lemma_mul_step(m: int, b: int)
    by (nonlinear_arith)
    requires
        m >= 1,
        b >= 0,
    ensures
        (m - 1) * b + b == m * b,
{
}

proof fn lemma_mul_nonneg(m: int, b: int)
    by (nonlinear_arith)
    requires
        m >= 0,
        b >= 0,
    ensures
        m * b >= 0,
{
}

/// Every transition from a `Ready` state that does not end the run lowers
/// the work left; so a run takes at most as many transitions as the work
/// its plan stands for, and always ends.
pub proof fn law_step_makes_progress(
    root: Seq<Task>,
    frames: Seq<Frame>,
    entries: Seq<(Seq<char>, ValueView)>,
)
    requires
        frames_wf(root, frames),
        !(next_move(root, frames, entries) is Finish),
        !(next_move(root, frames, entries) is Fail),
    ensures
        work_left(
            root,
            frames_after(frames, next_move(root, frames, entries)),
            phase_after(next_move(root, frames, entries)),
        ) < work_left(root, frames, Phase::Ready),
{
    let m = next_move(root, frames, entries);
    let t = top(frames);
    let f2 = frames_after(frames, m);
    crate::exec::lemma_wf_top(root, frames);
    match m {
        Move::Shell { .. } | Move::Ask { .. } => {
            let r = runner_at(root, frames, t);
            let i = frames.last().index as int;
            assert(at_task(root, frames));
            assert(r[i] == current_task(root, frames));
            assert(!(r[i] is Until));
            assert(task_cost(r[i]) == 2);
            assert(suffix_cost(r, i) == task_cost(r[i]) + suffix_cost(r, i + 1));
        },
        Move::Enter => {
            let r = runner_at(root, frames, t);
            let i = frames.last().index as int;
            let u = r[i]->Until_0;
            let b = suffix_cost(u.body.tasks@, 0) + 1;
            assert(suffix_cost(r, i) == task_cost(r[i]) + suffix_cost(r, i + 1));
            lemma_levels_same(root, frames, f2, t);
            lemma_runner_at_same(root, frames, f2, t);
            assert(levels_sum(root, f2, t + 1) == levels_sum(root, f2, t) + inner_level(root, f2, t));
            assert(runner_at(root, f2, t + 1) == u.body.tasks@);
            lemma_mul_step(u.max_iterations as int, b as int);
        },
        Move::Repeat => {
            let u = until_at(root, frames, t);
            let it = frames.last().iteration;
            let b = suffix_cost(u.body.tasks@, 0) + 1;
            crate::exec::lemma_wf_at(root, frames, t - 1);
            lemma_levels_same(root, frames, f2, (t - 1) as nat);
            lemma_runner_at_same(root, frames, f2, (t - 1) as nat);
            lemma_runner_at_same(root, frames, f2, t);
            assert(levels_sum(root, frames, t) == levels_sum(root, frames, (t - 1) as nat)
                + inner_level(root, frames, (t - 1) as nat));
            assert(levels_sum(root, f2, t) == levels_sum(root, f2, (t - 1) as nat) + inner_level(
                root,
                f2,
                (t - 1) as nat,
            ));
            assert(runner_at(root, f2, t) == u.body.tasks@);
            lemma_mul_step((u.max_iterations - it) as int, b as int);
        },
        Move::Leave => {
            let u = until_at(root, frames, t);
            let it = frames.last().iteration;
            let b = suffix_cost(u.body.tasks@, 0) + 1;
            crate::exec::lemma_wf_at(root, frames, t - 1);
            lemma_levels_same(root, frames, f2, (t - 1) as nat);
            lemma_runner_at_same(root, frames, f2, (t - 1) as nat);
            assert(levels_sum(root, frames, t) == levels_sum(root, frames, (t - 1) as nat)
                + inner_level(root, frames, (t - 1) as nat));
            lemma_mul_nonneg((u.max_iterations - it) as int, b as int);
        },
        _ => {
            assert(false);
        },
    }
}

/// Taking the outcome of the task under the cursor (and moving past it)
/// lowers the work left.
pub proof fn law_completion_makes_progress(root: Seq<Task>, frames: Seq<Frame>, phase: Phase)
    requires
        frames_wf(root, frames),
        at_task(root, frames),
        (phase == Phase::AwaitingShell && current_task(root, frames) is Run) || (phase
            == Phase::AwaitingModel && current_task(root, frames) is Ask),
    ensures
        work_left(root, advance_top(frames), Phase::Ready) < work_left(root, frames, phase),
{
    let t = top(frames);
    let f2 = advance_top(frames);
    crate::exec::lemma_wf_top(root, frames);
    let r = runner_at(root, frames, t);
    let i = frames.last().index as int;
    assert(r[i] == current_task(root, frames));
    assert(task_cost(r[i]) == 2);
    assert(suffix_cost(r, i) == task_cost(r[i]) + suffix_cost(r, i + 1));
    lemma_levels_same(root, frames, f2, t);
    lemma_runner_at_same(root, frames, f2, t);
}

/// A fresh run stands for the work of its plan's tasks, and its end.
pub proof fn law_initial_work(root: Seq<Task>)
    ensures
        work_left(root, seq![Frame { index: 0, iteration: 0 }], Phase::Ready) == suffix_cost(root, 0)
            + 1,
{
}

} // verus!
