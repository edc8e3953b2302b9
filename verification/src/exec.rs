//! The execution engine: a plan walked one transition at a time. The
//! engine decides; the caller performs the outside work it asks for (run a
//! shell command, ask a model) and hands back the outcome.
use vstd::prelude::*;

use crate::context::{bare_expr, object_json, put, Context};
use crate::error::{ModelError, StepError};
use crate::models::CompletionResponse;
use crate::runner::{Runner, Task, TaskOutput, UntilTask};
use crate::template::{expression_truth, rendered};
use crate::text::{decimal, decimal_string, trim_back, chars_of, string_of};
use crate::value::{Value, ValueView};

verus! {

/// Where the walk stands in one list of tasks: the position of the task
/// to run next and, for the body of an `until` task, which iteration this
/// is (counted from 1).
#[derive(Debug, Clone, Copy, PartialEq, Eq, Structural)]
pub struct Frame {
    pub index: usize,
    pub iteration: u32,
}

/// What the engine is waiting for.
#[derive(Debug, Clone, Copy, PartialEq, Eq, Structural)]
pub enum Phase {
    /// Ready to take the next step.
    Ready,
    /// Waiting for the outcome of the shell command it asked for.
    AwaitingShell,
    /// Waiting for the reply of the model it asked.
    AwaitingModel,
    /// The plan ran to its end.
    Finished,
    /// A task failed; nothing more runs.
    Failed,
}

/// How a shell command ended.
#[derive(Debug)]
pub enum ShellOutcome {
    /// The command ran; `stdout` and `stderr` are its captured output with
    /// trailing whitespace removed, `status` its exit code (`-1` when it
    /// had none).
    Exited { stdout: String, stderr: String, status: i32 },
    /// The command could not be started.
    SpawnFailed { message: String },
}

impl ShellOutcome {
    /// The outcome of a command that ran, from its decoded output: trailing
    /// whitespace is removed from both streams.
    pub fn exited(stdout: &str, stderr: &str, status: i32) -> (r: ShellOutcome)
        ensures
            r matches ShellOutcome::Exited { stdout: o, stderr: e, status: s } && o@ == trim_back(
                stdout@,
            ) && e@ == trim_back(stderr@) && s == status,
    {
        let o = string_of(&trim_end_chars(&chars_of(stdout)));
        let e = string_of(&trim_end_chars(&chars_of(stderr)));
        ShellOutcome::Exited { stdout: o, stderr: e, status }
    }
}

/// `str::trim_end`, on characters.
fn trim_end_chars(s: &Vec<char>) -> (r: Vec<char>)
    ensures
        r@ == trim_back(s@),
{
    let mut k: usize = s.len();
    assert(s@.take(k as int) == s@);
    while k > 0 && crate::text::is_whitespace(s[k - 1])
        invariant
            k <= s@.len(),
            trim_back(s@) == trim_back(s@.take(k as int)),
        decreases k,
    {
        assert(s@.take(k as int).drop_last() == s@.take(k - 1));
        k = k - 1;
    }
    let mut out: Vec<char> = Vec::new();
    let mut p: usize = 0;
    while p < k
        invariant
            p <= k <= s@.len(),
            out@ == s@.take(p as int),
        decreases k - p,
    {
        out.push(s[p]);
        assert(s@.take(p + 1) == s@.take(p as int).push(s@[p as int]));
        p = p + 1;
    }
    out
}

/// What the engine asks of its caller, or reports, after a transition.
#[derive(Debug)]
pub enum Action {
    /// Run `command` in a shell for the task `task`, then call
    /// [`Execution::shell_finished`].
    RunShell { task: String, command: String },
    /// Ask the model declared as `model` to complete `prompt`, then call
    /// [`Execution::model_finished`].
    AskModel { task: String, model: String, prompt: String },
    /// Internal progress (a loop iteration began); call
    /// [`Execution::step`] again.
    Continue,
    /// A task completed with this output; call [`Execution::step`] again.
    Completed(TaskOutput),
    /// The plan ran to its end.
    Finished,
    /// A task failed; the run stops here.
    Failed(StepError),
}

/// Failure, as the transition relation describes it.
pub enum Failure {
    /// `StepError::Failed` with exactly this message.
    Failed { task: Seq<char>, message: Seq<char> },
    /// `StepError::Template` carrying the template engine's error text.
    Template { task: Seq<char>, message: Seq<char> },
}

/// One transition from a `Ready` state.
pub enum Move {
    /// Run this command for the task named.
    Shell { task: Seq<char>, command: Seq<char> },
    /// Ask this model this prompt, for the task named.
    Ask { task: Seq<char>, model: Seq<char>, prompt: Seq<char> },
    /// Start the first iteration of the `until` task at the cursor.
    Enter,
    /// The loop condition is false: start the next iteration.
    Repeat,
    /// The loop condition is true: the `until` task is done.
    Leave,
    /// The plan is done.
    Finish,
    /// Stop with this failure.
    Fail(Failure),
}

/// The list of tasks the frame at depth `d` walks: the plan at depth 0,
/// and below it the body of the `until` task the frame above stands on.
pub open spec fn runner_at(root: Seq<Task>, frames: Seq<Frame>, d: nat) -> Seq<Task>
    decreases d,
{
    if d == 0 {
        root
    } else {
        let parent = runner_at(root, frames, (d - 1) as nat);
        let idx = frames[d - 1].index as int;
        if 0 <= idx < parent.len() && parent[idx] is Until {
            parent[idx]->Until_0.body.tasks@
        } else {
            Seq::empty()
        }
    }
}

/// The `until` task whose body the frame at depth `d` (at least 1) walks.
pub open spec fn until_at(root: Seq<Task>, frames: Seq<Frame>, d: nat) -> UntilTask {
    runner_at(root, frames, (d - 1) as nat)[frames[d - 1].index as int]->Until_0
}

/// A well-formed stack of frames: every frame but the last stands on an
/// `until` task whose body the next frame walks, in an iteration between
/// 1 and its `max_iterations`; the last frame is at most one past its
/// list's end; and every list walked fits in memory.
#[verifier::opaque]
pub open spec fn frames_wf(root: Seq<Task>, frames: Seq<Frame>) -> bool {
    &&& frames.len() >= 1
    &&& forall|d: int|
        #![trigger frames[d]]
        0 <= d < frames.len() - 1 ==> {
            let r = runner_at(root, frames, d as nat);
            &&& frames[d].index < r.len()
            &&& r[frames[d].index as int] is Until
            &&& 1 <= frames[d + 1].iteration <= r[frames[d].index as int]->Until_0.max_iterations
        }
    &&& frames.last().index <= runner_at(root, frames, (frames.len() - 1) as nat).len()
    &&& forall|d: int|
        #![trigger runner_at(root, frames, d as nat)]
        0 <= d < frames.len() ==> runner_at(root, frames, d as nat).len() <= usize::MAX
}

/// The depth of the innermost frame.
pub open spec fn top(frames: Seq<Frame>) -> nat {
    (frames.len() - 1) as nat
}

/// The task under the innermost frame.
pub open spec fn current_task(root: Seq<Task>, frames: Seq<Frame>) -> Task {
    runner_at(root, frames, top(frames))[frames.last().index as int]
}

/// The innermost frame stands on a task (not past the end of its list).
pub open spec fn at_task(root: Seq<Task>, frames: Seq<Frame>) -> bool {
    frames.last().index < runner_at(root, frames, top(frames)).len()
}

/// The message a refused interpolating command fails with.
pub open spec fn deny_message() -> Seq<char> {
    "command contains interpolated variables; set `allow_agent_output: true` on this "@
        + "task to permit it"@
}

/// The message an `until` task fails with when its condition never held.
pub open spec fn not_met_message(condition: Seq<char>, n: int) -> Seq<char> {
    "condition `"@ + condition + "` not met after "@ + decimal(n) + " iteration(s)"@
}

/// The transition the engine takes from a `Ready` state, given the
/// registered variables `entries`.
pub open spec fn next_move(
    root: Seq<Task>,
    frames: Seq<Frame>,
    entries: Seq<(Seq<char>, ValueView)>,
) -> Move {
    let d = top(frames);
    let f = frames.last();
    let ctx = object_json(entries);
    if at_task(root, frames) {
        match current_task(root, frames) {
            Task::Run(t) => match rendered(t.command_template@, ctx) {
                Err(m) => Move::Fail(Failure::Template { task: t.name@, message: m }),
                Ok(c) => if c != t.command_template@ && !t.allow_agent_output {
                    Move::Fail(Failure::Failed { task: t.name@, message: deny_message() })
                } else {
                    Move::Shell { task: t.name@, command: c }
                },
            },
            Task::Ask(t) => match rendered(t.prompt_template@, ctx) {
                Err(m) => Move::Fail(Failure::Template { task: t.name@, message: m }),
                Ok(p) => Move::Ask { task: t.name@, model: t.model@, prompt: p },
            },
            Task::Until(u) => if u.max_iterations == 0 {
                Move::Fail(
                    Failure::Failed { task: u.name@, message: not_met_message(u.condition@, 0) },
                )
            } else {
                Move::Enter
            },
        }
    } else if d == 0 {
        Move::Finish
    } else {
        let u = until_at(root, frames, d);
        match expression_truth(bare_expr(u.condition@), ctx) {
            Err(m) => Move::Fail(Failure::Template { task: u.name@, message: m }),
            Ok(true) => Move::Leave,
            Ok(false) => if f.iteration < u.max_iterations {
                Move::Repeat
            } else {
                Move::Fail(
                    Failure::Failed {
                        task: u.name@,
                        message: not_met_message(u.condition@, u.max_iterations as int),
                    },
                )
            },
        }
    }
}

/// The innermost frame moved one task on.
pub open spec fn advance_top(frames: Seq<Frame>) -> Seq<Frame> {
    let d = top(frames) as int;
    frames.update(d, Frame { index: (frames[d].index + 1) as usize, iteration: frames[d].iteration })
}

/// The frames after a move.
pub open spec fn frames_after(frames: Seq<Frame>, m: Move) -> Seq<Frame> {
    let d = top(frames) as int;
    match m {
        Move::Enter => frames.push(Frame { index: 0, iteration: 1 }),
        Move::Repeat => frames.update(
            d,
            Frame { index: 0, iteration: (frames[d].iteration + 1) as u32 },
        ),
        Move::Leave => advance_top(frames.drop_last()),
        _ => frames,
    }
}

/// The phase after a move.
pub open spec fn phase_after(m: Move) -> Phase {
    match m {
        Move::Shell { .. } => Phase::AwaitingShell,
        Move::Ask { .. } => Phase::AwaitingModel,
        Move::Finish => Phase::Finished,
        Move::Fail(_) => Phase::Failed,
        _ => Phase::Ready,
    }
}

/// `e` is the step error a failure describes.
pub open spec fn error_is(e: StepError, f: Failure) -> bool {
    match f {
        Failure::Failed { task, message } => e matches StepError::Failed { task: t, message: m }
            && t@ == task && m@ == message,
        Failure::Template { task, message } => e matches StepError::Template { task: t, source }
            && t@ == task && source.message@ == message,
    }
}

/// `a` is the action a move reports.
pub open spec fn action_is(a: Action, m: Move) -> bool {
    match m {
        Move::Shell { task, command } => a matches Action::RunShell { task: t, command: c } && t@
            == task && c@ == command,
        Move::Ask { task, model, prompt } => a matches Action::AskModel {
            task: t,
            model: md,
            prompt: p,
        } && t@ == task && md@ == model && p@ == prompt,
        Move::Enter => a is Continue,
        Move::Repeat => a is Continue,
        Move::Leave => a matches Action::Completed(out) && out.value@ == ValueView::Null
            && out.raw_text is None,
        Move::Finish => a is Finished,
        Move::Fail(f) => a matches Action::Failed(e) && error_is(e, f),
    }
}

/// What a successful command registers: `{"stdout", "stderr", "status"}`.
pub open spec fn run_value(stdout: Seq<char>, stderr: Seq<char>, status: int) -> ValueView {
    ValueView::Object(
        seq![
            ("stdout"@, ValueView::Str(stdout)),
            ("stderr"@, ValueView::Str(stderr)),
            ("status"@, ValueView::Int(status)),
        ],
    )
}

/// The variables after a task produced `v`: bound under its `register:`
/// name if it has one, unchanged otherwise.
pub open spec fn registered(
    entries: Seq<(Seq<char>, ValueView)>,
    register: Option<String>,
    v: ValueView,
) -> Seq<(Seq<char>, ValueView)> {
    match register {
        Some(r) => put(entries, r@, v),
        None => entries,
    }
}

/// `register` names `k`.
pub open spec fn registers_name(register: Option<String>, k: Seq<char>) -> bool {
    match register {
        Some(r) => r@ == k,
        None => false,
    }
}

/// A plan being run, one transition at a time.
#[derive(Debug)]
pub struct Execution {
    plan: Runner,
    frames: Vec<Frame>,
    phase: Phase,
}

impl Execution {
    #[verifier::type_invariant]
    spec fn consistent(self) -> bool {
        &&& frames_wf(self.plan.tasks@, self.frames@)
        &&& (self.phase == Phase::AwaitingShell) ==> at_task(self.plan.tasks@, self.frames@)
            && current_task(self.plan.tasks@, self.frames@) is Run
        &&& (self.phase == Phase::AwaitingModel) ==> at_task(self.plan.tasks@, self.frames@)
            && current_task(self.plan.tasks@, self.frames@) is Ask
    }

    /// The tasks of the plan.
    pub closed spec fn plan_tasks(self) -> Seq<Task> {
        self.plan.tasks@
    }

    /// The stack of frames, outermost first.
    pub closed spec fn frames(self) -> Seq<Frame> {
        self.frames@
    }

    /// The phase.
    pub closed spec fn state(self) -> Phase {
        self.phase
    }

    /// The phase.
    pub fn phase(&self) -> (r: Phase)
        ensures
            r == self.state(),
    {
        self.phase
    }

    /// A fresh run of `plan`, ready at its first task.
    pub fn new(plan: Runner) -> (r: Execution)
        ensures
            r.plan_tasks() == plan.tasks@,
            r.frames() == seq![Frame { index: 0, iteration: 0 }],
            r.state() == Phase::Ready,
            frames_wf(r.plan_tasks(), r.frames()),
    {
        let mut frames: Vec<Frame> = Vec::new();
        frames.push(Frame { index: 0, iteration: 0 });
        proof {
            reveal(frames_wf);
            assert(plan.tasks.len() == plan.tasks@.len());
            assert(runner_at(plan.tasks@, frames@, 0) == plan.tasks@);
        }
        Execution { plan, frames, phase: Phase::Ready }
    }
}

/// `runner_at` depends only on the positions of the frames above depth
/// `d`.
pub proof fn lemma_runner_at_same(root: Seq<Task>, f1: Seq<Frame>, f2: Seq<Frame>, d: nat)
    requires
        d <= f1.len(),
        d <= f2.len(),
        forall|j: int| 0 <= j < d ==> (#[trigger] f1[j]).index == f2[j].index,
    ensures
        runner_at(root, f1, d) == runner_at(root, f2, d),
    decreases d,
{
    if d > 0 {
        lemma_runner_at_same(root, f1, f2, (d - 1) as nat);
        assert(f1[d - 1].index == f2[d - 1].index);
    }
}

/// What a well-formed stack says of the frame at depth `d`.
pub proof fn lemma_wf_at(root: Seq<Task>, frames: Seq<Frame>, d: int)
    requires
        frames_wf(root, frames),
        0 <= d < frames.len() - 1,
    ensures
        frames[d].index < runner_at(root, frames, d as nat).len(),
        runner_at(root, frames, d as nat)[frames[d].index as int] is Until,
        1 <= frames[d + 1].iteration <= runner_at(root, frames, d as nat)[frames[
            d].index as int]->Until_0.max_iterations,
        runner_at(root, frames, d as nat).len() <= usize::MAX,
{
    reveal(frames_wf);
    assert(frames[d] == frames[d]);
}

/// A well-formed stack is not empty, and its innermost frame is at most one
/// past the end of its list.
pub proof fn lemma_wf_top(root: Seq<Task>, frames: Seq<Frame>)
    requires
        frames_wf(root, frames),
    ensures
        frames.len() >= 1,
        frames.last().index <= runner_at(root, frames, top(frames)).len(),
        runner_at(root, frames, top(frames)).len() <= usize::MAX,
{
    reveal(frames_wf);
}

/// Frames that keep the positions of a well-formed stack's outer frames
/// walk lists that fit in memory.
proof fn lemma_lens_kept(root: Seq<Task>, frames: Seq<Frame>, f2: Seq<Frame>)
    requires
        frames_wf(root, frames),
        1 <= f2.len() <= frames.len(),
        forall|j: int| 0 <= j < f2.len() - 1 ==> (#[trigger] f2[j]).index == frames[j].index,
    ensures
        forall|d: int|
            0 <= d < f2.len() ==> #[trigger] runner_at(root, f2, d as nat).len() <= usize::MAX,
{
    reveal(frames_wf);
    assert forall|d: int| 0 <= d < f2.len() implies #[trigger] runner_at(root, f2, d as nat).len()
        <= usize::MAX by {
        lemma_runner_at_same(root, frames, f2, d as nat);
    }
}

/// Moving the innermost frame one task on keeps the stack well formed.
#[verifier::rlimit(50)]
proof fn lemma_wf_advance(root: Seq<Task>, frames: Seq<Frame>)
    requires
        frames_wf(root, frames),
        at_task(root, frames),
    ensures
        frames_wf(root, advance_top(frames)),
{
    reveal(frames_wf);
    let f2 = advance_top(frames);
    let t = top(frames);
    assert forall|d: int| 0 <= d < f2.len() - 1 implies {
        let r = runner_at(root, f2, d as nat);
        &&& #[trigger] f2[d].index < r.len()
        &&& r[f2[d].index as int] is Until
        &&& 1 <= f2[d + 1].iteration <= r[f2[d].index as int]->Until_0.max_iterations
    } by {
        lemma_runner_at_same(root, frames, f2, d as nat);
        assert(frames[d] == f2[d]);
    }
    lemma_runner_at_same(root, frames, f2, t);
    lemma_lens_kept(root, frames, f2);
}

/// Entering a loop body keeps the stack well formed.
#[verifier::rlimit(50)]
proof fn lemma_wf_enter(root: Seq<Task>, frames: Seq<Frame>)
    requires
        frames_wf(root, frames),
        at_task(root, frames),
        current_task(root, frames) is Until,
        current_task(root, frames)->Until_0.max_iterations > 0,
    ensures
        frames_wf(root, frames.push(Frame { index: 0, iteration: 1 })),
{
    reveal(frames_wf);
    let f2 = frames.push(Frame { index: 0, iteration: 1 });
    assert forall|d: int| 0 <= d < f2.len() - 1 implies {
        let r = runner_at(root, f2, d as nat);
        &&& #[trigger] f2[d].index < r.len()
        &&& r[f2[d].index as int] is Until
        &&& 1 <= f2[d + 1].iteration <= r[f2[d].index as int]->Until_0.max_iterations
    } by {
        lemma_runner_at_same(root, frames, f2, d as nat);
        assert(frames[d] == f2[d]);
    }
    assert forall|d: int| 0 <= d < f2.len() implies #[trigger] runner_at(root, f2, d as nat).len()
        <= usize::MAX by {
        if d < frames.len() as int {
            lemma_runner_at_same(root, frames, f2, d as nat);
        }
        if d == frames.len() {
            let u = current_task(root, frames)->Until_0;
            assert(u.body.tasks.len() == u.body.tasks@.len());
            lemma_runner_at_same(root, frames, f2, top(frames));
        }
    }
}

/// Starting the next iteration of a loop body keeps the stack well formed.
#[verifier::rlimit(50)]
proof fn lemma_wf_repeat(root: Seq<Task>, frames: Seq<Frame>)
    requires
        frames_wf(root, frames),
        top(frames) >= 1,
        frames.last().iteration < until_at(root, frames, top(frames)).max_iterations,
    ensures
        frames_wf(
            root,
            frames.update(
                top(frames) as int,
                Frame { index: 0, iteration: (frames.last().iteration + 1) as u32 },
            ),
        ),
{
    reveal(frames_wf);
    let t = top(frames);
    let f2 = frames.update(t as int, Frame { index: 0, iteration: (frames.last().iteration + 1) as u32 });
    assert forall|d: int| 0 <= d < f2.len() - 1 implies {
        let r = runner_at(root, f2, d as nat);
        &&& #[trigger] f2[d].index < r.len()
        &&& r[f2[d].index as int] is Until
        &&& 1 <= f2[d + 1].iteration <= r[f2[d].index as int]->Until_0.max_iterations
    } by {
        lemma_runner_at_same(root, frames, f2, d as nat);
        assert(frames[d] == f2[d]);
    }
    lemma_runner_at_same(root, frames, f2, t);
    lemma_lens_kept(root, frames, f2);
}

/// Leaving a finished loop (and moving past the loop task) keeps the stack
/// well formed.
#[verifier::rlimit(50)]
proof fn lemma_wf_leave(root: Seq<Task>, frames: Seq<Frame>)
    requires
        frames_wf(root, frames),
        top(frames) >= 1,
    ensures
        frames_wf(root, advance_top(frames.drop_last())),
{
    reveal(frames_wf);
    let t = top(frames);
    let f1 = frames.drop_last();
    let f2 = advance_top(f1);
    assert forall|d: int| 0 <= d < f2.len() - 1 implies {
        let r = runner_at(root, f2, d as nat);
        &&& #[trigger] f2[d].index < r.len()
        &&& r[f2[d].index as int] is Until
        &&& 1 <= f2[d + 1].iteration <= r[f2[d].index as int]->Until_0.max_iterations
    } by {
        lemma_runner_at_same(root, frames, f2, d as nat);
        assert(frames[d] == f2[d]);
        assert(frames[d + 1].iteration == f2[d + 1].iteration);
    }
    lemma_runner_at_same(root, frames, f2, (t - 1) as nat);
    assert(frames[t - 1].index < runner_at(root, frames, (t - 1) as nat).len());
    lemma_lens_kept(root, frames, f2);
}

/// The list of tasks that the frame at `depth` walks.
fn runner_at_depth<'a>(plan: &'a Runner, frames: &Vec<Frame>, depth: usize) -> (r: &'a Runner)
    requires
        frames_wf(plan.tasks@, frames@),
        depth < frames@.len(),
    ensures
        r.tasks@ == runner_at(plan.tasks@, frames@, depth as nat),
{
    let mut cur: &Runner = plan;
    let mut d: usize = 0;
    while d < depth
        invariant
            d <= depth < frames@.len(),
            frames_wf(plan.tasks@, frames@),
            cur.tasks@ == runner_at(plan.tasks@, frames@, d as nat),
        decreases depth - d,
    {
        let idx = frames[d].index;
        proof {
            lemma_wf_at(plan.tasks@, frames@, d as int);
        }
        match &cur.tasks[idx] {
            Task::Until(u) => {
                cur = &u.body;
            },
            _ => {
                proof {
                    assert(false);
                }
            },
        }
        d = d + 1;
    }
    cur
}

/// A copy of the stack of frames.
fn copy_frames(v: &Vec<Frame>) -> (r: Vec<Frame>)
    ensures
        r@ == v@,
{
    let mut out: Vec<Frame> = Vec::new();
    let n = v.len();
    for i in 0..n
        invariant
            n == v@.len(),
            out@ == v@.take(i as int),
    {
        out.push(v[i]);
        assert(v@.take(i + 1) == v@.take(i as int).push(v@[i as int]));
    }
    assert(v@.take(n as int) == v@);
    out
}

fn not_met(condition: &String, n: u32) -> (r: String)
    ensures
        r@ == not_met_message(condition@, n as int),
{
    let mut s = String::from_str("condition `");
    s.append(condition.as_str());
    s.append("` not met after ");
    let num = decimal_string(n as i64);
    s.append(num.as_str());
    s.append(" iteration(s)");
    s
}

impl Execution {
    /// Take the next transition from a `Ready` state: start the task under
    /// the cursor (asking for a shell command or a model reply, or entering
    /// a loop), or, at the end of a loop body, evaluate the loop's
    /// condition. The context is read, never written.
    pub fn step(&mut self, ctx: &Context) -> (r: Action)
        requires
            old(self).state() == Phase::Ready,
        ensures
            final(self).plan_tasks() == old(self).plan_tasks(),
            action_is(r, next_move(old(self).plan_tasks(), old(self).frames(), ctx.entries())),
            final(self).frames() == frames_after(
                old(self).frames(),
                next_move(old(self).plan_tasks(), old(self).frames(), ctx.entries()),
            ),
            final(self).state() == phase_after(
                next_move(old(self).plan_tasks(), old(self).frames(), ctx.entries()),
            ),
            frames_wf(final(self).plan_tasks(), final(self).frames()),
    {
        proof {
            use_type_invariant(&*self);
            lemma_wf_top(self.plan.tasks@, self.frames@);
        }
        let depth = self.frames.len() - 1;
        let f = self.frames[depth];
        let r = runner_at_depth(&self.plan, &self.frames, depth);
        if f.index < r.tasks.len() {
            let a = self.step_at_task(ctx);
            proof {
                use_type_invariant(&*self);
            }
            a
        } else {
            let a = self.step_at_end(ctx);
            proof {
                use_type_invariant(&*self);
            }
            a
        }
    }

    #[verifier::rlimit(40)]
    fn step_at_task(&mut self, ctx: &Context) -> (r: Action)
        requires
            old(self).state() == Phase::Ready,
            at_task(old(self).plan_tasks(), old(self).frames()),
        ensures
            final(self).plan_tasks() == old(self).plan_tasks(),
            action_is(r, next_move(old(self).plan_tasks(), old(self).frames(), ctx.entries())),
            final(self).frames() == frames_after(
                old(self).frames(),
                next_move(old(self).plan_tasks(), old(self).frames(), ctx.entries()),
            ),
            final(self).state() == phase_after(
                next_move(old(self).plan_tasks(), old(self).frames(), ctx.entries()),
            ),
    {
        proof {
            use_type_invariant(&*self);
            lemma_wf_top(self.plan.tasks@, self.frames@);
        }
        let ghost root = self.plan.tasks@;
        let ghost frames = self.frames@;
        let depth = self.frames.len() - 1;
        let f = self.frames[depth];
        let r = runner_at_depth(&self.plan, &self.frames, depth);
        match &r.tasks[f.index] {
            Task::Run(t) => {
                match ctx.render(t.command_template.as_str()) {
                    Err(source) => {
                        self.phase = Phase::Failed;
                        Action::Failed(StepError::Template { task: t.name.clone(), source })
                    },
                    Ok(cmd) => {
                        if !(cmd == t.command_template) && !t.allow_agent_output {
                            self.phase = Phase::Failed;
                            Action::Failed(
                                StepError::Failed {
                                    task: t.name.clone(),
                                    message: crate::text::concat(
                                        "command contains interpolated variables; set `allow_agent_output: true` on this ",
                                        "task to permit it",
                                    ),
                                },
                            )
                        } else {
                            self.phase = Phase::AwaitingShell;
                            Action::RunShell { task: t.name.clone(), command: cmd }
                        }
                    },
                }
            },
            Task::Ask(t) => {
                match ctx.render(t.prompt_template.as_str()) {
                    Err(source) => {
                        self.phase = Phase::Failed;
                        Action::Failed(StepError::Template { task: t.name.clone(), source })
                    },
                    Ok(prompt) => {
                        self.phase = Phase::AwaitingModel;
                        Action::AskModel { task: t.name.clone(), model: t.model.clone(), prompt }
                    },
                }
            },
            Task::Until(u) => {
                if u.max_iterations == 0 {
                    self.phase = Phase::Failed;
                    Action::Failed(
                        StepError::Failed { task: u.name.clone(), message: not_met(&u.condition, 0) },
                    )
                } else {
                    proof {
                        lemma_wf_enter(root, frames);
                    }
                    let mut nf = copy_frames(&self.frames);
                    nf.push(Frame { index: 0, iteration: 1 });
                    self.frames = nf;
                    Action::Continue
                }
            },
        }
    }

    #[verifier::rlimit(40)]
    fn step_at_end(&mut self, ctx: &Context) -> (r: Action)
        requires
            old(self).state() == Phase::Ready,
            !at_task(old(self).plan_tasks(), old(self).frames()),
        ensures
            final(self).plan_tasks() == old(self).plan_tasks(),
            action_is(r, next_move(old(self).plan_tasks(), old(self).frames(), ctx.entries())),
            final(self).frames() == frames_after(
                old(self).frames(),
                next_move(old(self).plan_tasks(), old(self).frames(), ctx.entries()),
            ),
            final(self).state() == phase_after(
                next_move(old(self).plan_tasks(), old(self).frames(), ctx.entries()),
            ),
    {
        proof {
            use_type_invariant(&*self);
            lemma_wf_top(self.plan.tasks@, self.frames@);
        }
        let ghost root = self.plan.tasks@;
        let ghost frames = self.frames@;
        let depth = self.frames.len() - 1;
        let f = self.frames[depth];
        let r = runner_at_depth(&self.plan, &self.frames, depth);
        if depth == 0 {
            self.phase = Phase::Finished;
            Action::Finished
        } else {
            let parent = runner_at_depth(&self.plan, &self.frames, depth - 1);
            let pf = self.frames[depth - 1];
            let plen = parent.tasks.len();
            proof {
                lemma_wf_at(root, frames, depth - 1);
            }
            assert(pf.index < plen);
            match &parent.tasks[pf.index] {
                Task::Until(u) => {
                    match ctx.eval_bool(u.condition.as_str()) {
                        Err(source) => {
                            self.phase = Phase::Failed;
                            Action::Failed(StepError::Template { task: u.name.clone(), source })
                        },
                        Ok(true) => {
                            proof {
                                lemma_wf_leave(root, frames);
                            }
                            let mut nf = copy_frames(&self.frames);
                            nf.pop();
                            nf.set(depth - 1, Frame { index: pf.index + 1, iteration: pf.iteration });
                            self.frames = nf;
                            Action::Completed(TaskOutput::none())
                        },
                        Ok(false) => {
                            if f.iteration < u.max_iterations {
                                proof {
                                    lemma_wf_repeat(root, frames);
                                }
                                let mut nf = copy_frames(&self.frames);
                                nf.set(depth, Frame { index: 0, iteration: f.iteration + 1 });
                                self.frames = nf;
                                Action::Continue
                            } else {
                                self.phase = Phase::Failed;
                                Action::Failed(
                                    StepError::Failed {
                                        task: u.name.clone(),
                                        message: not_met(&u.condition, u.max_iterations),
                                    },
                                )
                            }
                        },
                    }
                },
                _ => {
                    proof {
                        assert(false);
                    }
                    Action::Finished
                },
            }
        }
    }

    /// Take the outcome of the shell command asked for. A command that
    /// could not start, or exited with a non-zero status, fails the task;
    /// otherwise `{stdout, stderr, status}` is the task's value, registered
    /// under its `register:` name if it has one, and the cursor moves on.
    #[verifier::rlimit(40)]
    pub fn shell_finished(&mut self, ctx: &mut Context, outcome: ShellOutcome) -> (r: Action)
        requires
            old(self).state() == Phase::AwaitingShell,
        ensures
            final(self).plan_tasks() == old(self).plan_tasks(),
            final(ctx).env_entries() == old(ctx).env_entries(),
            ({
                let t = current_task(old(self).plan_tasks(), old(self).frames())->Run_0;
                match outcome {
                    ShellOutcome::SpawnFailed { message } => {
                        &&& r matches Action::Failed(StepError::Failed { task, message: m })
                        &&& task@ == t.name@
                        &&& m@ == "failed to spawn command: "@ + message@
                        &&& final(self).state() == Phase::Failed
                        &&& final(self).frames() == old(self).frames()
                        &&& final(ctx).entries() == old(ctx).entries()
                    },
                    ShellOutcome::Exited { stdout, stderr, status } => if status != 0 {
                        &&& r matches Action::Failed(StepError::Failed { task, message: m })
                        &&& task@ == t.name@
                        &&& m@ == "command exited with status "@ + decimal(status as int)
                            + ": "@ + stderr@
                        &&& final(self).state() == Phase::Failed
                        &&& final(self).frames() == old(self).frames()
                        &&& final(ctx).entries() == old(ctx).entries()
                    } else {
                        &&& r matches Action::Completed(out)
                        &&& out.value@ == run_value(stdout@, stderr@, status as int)
                        &&& out.raw_text matches Some(text) && text@ == stdout@
                        &&& final(ctx).entries() == registered(
                            old(ctx).entries(),
                            t.register,
                            out.value@,
                        )
                        &&& forall|k: Seq<char>| #[trigger]
                            final(ctx).var(k) == if registers_name(t.register, k) {
                                Some(out.value@)
                            } else {
                                old(ctx).var(k)
                            }
                        &&& final(self).state() == Phase::Ready
                        &&& final(self).frames() == advance_top(old(self).frames())
                    },
                }
            }),
    {
        proof {
            use_type_invariant(&*self);
            lemma_wf_top(self.plan.tasks@, self.frames@);
        }
        let ghost root = self.plan.tasks@;
        let ghost frames = self.frames@;
        let depth = self.frames.len() - 1;
        let f = self.frames[depth];
        let r = runner_at_depth(&self.plan, &self.frames, depth);
        let rlen = r.tasks.len();
        assert(f.index < rlen);
        let t = match &r.tasks[f.index] {
            Task::Run(t) => t,
            _ => {
                proof {
                    assert(false);
                }
                return Action::Finished;
            },
        };
        match outcome {
            ShellOutcome::SpawnFailed { message } => {
                self.phase = Phase::Failed;
                Action::Failed(
                    StepError::Failed {
                        task: t.name.clone(),
                        message: crate::text::concat("failed to spawn command: ", message.as_str()),
                    },
                )
            },
            ShellOutcome::Exited { stdout, stderr, status } => {
                if status != 0 {
                    let mut m = String::from_str("command exited with status ");
                    let num = decimal_string(status as i64);
                    m.append(num.as_str());
                    m.append(": ");
                    m.append(stderr.as_str());
                    self.phase = Phase::Failed;
                    Action::Failed(StepError::Failed { task: t.name.clone(), message: m })
                } else {
                    let value = run_output_value(&stdout, &stderr, status);
                    match &t.register {
                        Some(name) => {
                            ctx.register(name.as_str(), value.duplicate());
                        },
                        None => {},
                    }
                    proof {
                        lemma_wf_advance(root, frames);
                    }
                    self.phase = Phase::Ready;
                    let mut nf = copy_frames(&self.frames);
                    nf.set(depth, Frame { index: f.index + 1, iteration: f.iteration });
                    self.frames = nf;
                    Action::Completed(TaskOutput { value, raw_text: Some(stdout) })
                }
            },
        }
    }

    /// Take the reply of the model asked. An error fails the task;
    /// otherwise the reply's text is the task's value, registered under its
    /// `register:` name if it has one, and the cursor moves on.
    #[verifier::rlimit(40)]
    pub fn model_finished(
        &mut self,
        ctx: &mut Context,
        reply: Result<CompletionResponse, ModelError>,
    ) -> (r: Action)
        requires
            old(self).state() == Phase::AwaitingModel,
        ensures
            final(self).plan_tasks() == old(self).plan_tasks(),
            final(ctx).env_entries() == old(ctx).env_entries(),
            ({
                let t = current_task(old(self).plan_tasks(), old(self).frames())->Ask_0;
                match reply {
                    Err(e) => {
                        &&& r matches Action::Failed(StepError::Model { task, source })
                        &&& task@ == t.name@
                        &&& source == e
                        &&& final(self).state() == Phase::Failed
                        &&& final(self).frames() == old(self).frames()
                        &&& final(ctx).entries() == old(ctx).entries()
                    },
                    Ok(resp) => {
                        &&& r matches Action::Completed(out)
                        &&& out.value@ == ValueView::Str(resp.text@)
                        &&& out.raw_text matches Some(text) && text@ == resp.text@
                        &&& final(ctx).entries() == registered(
                            old(ctx).entries(),
                            t.register,
                            ValueView::Str(resp.text@),
                        )
                        &&& forall|k: Seq<char>| #[trigger]
                            final(ctx).var(k) == if registers_name(t.register, k) {
                                Some(ValueView::Str(resp.text@))
                            } else {
                                old(ctx).var(k)
                            }
                        &&& final(self).state() == Phase::Ready
                        &&& final(self).frames() == advance_top(old(self).frames())
                    },
                }
            }),
    {
        proof {
            use_type_invariant(&*self);
            lemma_wf_top(self.plan.tasks@, self.frames@);
        }
        let ghost root = self.plan.tasks@;
        let ghost frames = self.frames@;
        let depth = self.frames.len() - 1;
        let f = self.frames[depth];
        let r = runner_at_depth(&self.plan, &self.frames, depth);
        let rlen = r.tasks.len();
        assert(f.index < rlen);
        let t = match &r.tasks[f.index] {
            Task::Ask(t) => t,
            _ => {
                proof {
                    assert(false);
                }
                return Action::Finished;
            },
        };
        match reply {
            Err(e) => {
                self.phase = Phase::Failed;
                Action::Failed(StepError::Model { task: t.name.clone(), source: e })
            },
            Ok(resp) => {
                let out = TaskOutput::text(resp.text);
                match &t.register {
                    Some(name) => {
                        ctx.register(name.as_str(), out.value.duplicate());
                    },
                    None => {},
                }
                proof {
                    lemma_wf_advance(root, frames);
                }
                self.phase = Phase::Ready;
                let mut nf = copy_frames(&self.frames);
                nf.set(depth, Frame { index: f.index + 1, iteration: f.iteration });
                self.frames = nf;
                Action::Completed(out)
            },
        }
    }
}

/// The value a successful command registers.
fn run_output_value(stdout: &String, stderr: &String, status: i32) -> (r: Value)
    ensures
        r@ == run_value(stdout@, stderr@, status as int),
{
    let mut fields: Vec<(String, Value)> = Vec::new();
    let k0 = String::from_str("stdout");
    let v0 = Value::Str(stdout.clone());
    let k1 = String::from_str("stderr");
    let v1 = Value::Str(stderr.clone());
    let k2 = String::from_str("status");
    let v2 = Value::Int(status as i64);
    let ghost e0 = (k0@, v0@);
    let ghost e1 = (k1@, v1@);
    let ghost e2 = (k2@, v2@);
    fields.push((k0, v0));
    fields.push((k1, v1));
    fields.push((k2, v2));
    let r = Value::Object(fields);
    proof {
        let s = fields@;
        let s2 = s.drop_last();
        let s1 = s2.drop_last();
        let s0 = s1.drop_last();
        assert(s0 =~= Seq::<(String, Value)>::empty());
        assert(crate::value::fields_view(s0) =~= Seq::empty());
        assert(s1.last().0@ == e0.0 && s1.last().1@ == e0.1);
        assert(crate::value::fields_view(s1) =~= seq![("stdout"@, ValueView::Str(stdout@))]);
        assert(s2.last().0@ == e1.0 && s2.last().1@ == e1.1);
        assert(s.last().0@ == e2.0 && s.last().1@ == e2.1);
        assert(crate::value::fields_view(s2) =~= seq![
            ("stdout"@, ValueView::Str(stdout@)),
            ("stderr"@, ValueView::Str(stderr@)),
        ]);
        assert(crate::value::fields_view(s) =~= seq![
            ("stdout"@, ValueView::Str(stdout@)),
            ("stderr"@, ValueView::Str(stderr@)),
            ("status"@, ValueView::Int(status as int)),
        ]);
    }
    r
}

/// Deny by default: from a `Ready` state on a `run` task, the engine asks
/// for exactly the rendered command, and only when that command equals
/// the task's template or the task opted in with `allow_agent_output`; a
/// rendered command that differs from the template without the opt-in is
/// refused with the deny message, and nothing is run.
pub proof fn law_interpolation_needs_opt_in(
    root: Seq<Task>,
    frames: Seq<Frame>,
    entries: Seq<(Seq<char>, ValueView)>,
)
    requires
        at_task(root, frames),
        current_task(root, frames) is Run,
    ensures
        ({
            let t = current_task(root, frames)->Run_0;
            let rendered_command = rendered(t.command_template@, object_json(entries));
            &&& next_move(root, frames, entries) matches Move::Shell { command, .. } ==> {
                &&& rendered_command == Ok::<Seq<char>, Seq<char>>(command)
                &&& (command != t.command_template@ ==> t.allow_agent_output)
            }
            &&& (rendered_command matches Ok(c) && c != t.command_template@
                && !t.allow_agent_output) ==> next_move(root, frames, entries) == Move::Fail(
                Failure::Failed { task: t.name@, message: deny_message() },
            )
        }),
{
}

/// An `ask` task hands its model the prompt template rendered against the
/// registered variables, and nothing else: the engine asks exactly when the
/// template renders, with the rendered text, under the task's name and
/// model; when it does not render, the task fails with the engine's error.
pub proof fn law_ask_prompt_is_rendered(
    root: Seq<Task>,
    frames: Seq<Frame>,
    entries: Seq<(Seq<char>, ValueView)>,
)
    requires
        at_task(root, frames),
        current_task(root, frames) is Ask,
    ensures
        ({
            let t = current_task(root, frames)->Ask_0;
            let rendered_prompt = rendered(t.prompt_template@, object_json(entries));
            &&& next_move(root, frames, entries) matches Move::Ask { task, model, prompt } ==> {
                &&& rendered_prompt == Ok::<Seq<char>, Seq<char>>(prompt)
                &&& task == t.name@
                &&& model == t.model@
            }
            &&& forall|p: Seq<char>|
                rendered_prompt == Ok::<Seq<char>, Seq<char>>(p) ==> #[trigger] next_move(
                    root,
                    frames,
                    entries,
                ) == (Move::Ask { task: t.name@, model: t.model@, prompt: p })
            &&& forall|m: Seq<char>|
                rendered_prompt == Err::<Seq<char>, Seq<char>>(m) ==> #[trigger] next_move(
                    root,
                    frames,
                    entries,
                ) == Move::Fail(Failure::Template { task: t.name@, message: m })
        }),
{
}

/// A loop body never runs more than `max_iterations` times: in a
/// well-formed stack every loop body is in an iteration between 1 and its
/// task's `max_iterations`, and a new iteration starts only while the
/// current one is below that bound.
pub proof fn law_iterations_bounded(
    root: Seq<Task>,
    frames: Seq<Frame>,
    entries: Seq<(Seq<char>, ValueView)>,
)
    requires
        frames_wf(root, frames),
    ensures
        forall|d: int|
            1 <= d < frames.len() ==> 1 <= (#[trigger] frames[d]).iteration <= until_at(
                root,
                frames,
                d as nat,
            ).max_iterations,
        next_move(root, frames, entries) is Repeat ==> frames.last().iteration < until_at(
            root,
            frames,
            top(frames),
        ).max_iterations,
{
    assert forall|d: int| 1 <= d < frames.len() implies 1 <= (#[trigger] frames[d]).iteration
        <= until_at(root, frames, d as nat).max_iterations by {
        lemma_wf_at(root, frames, d - 1);
    }
}

/// A failure is final: every failing move leaves the engine `Failed`, a
/// phase from which no method can be called, and reports the failure.
pub proof fn law_failure_is_final(m: Move, a: Action)
    requires
        m is Fail,
        action_is(a, m),
    ensures
        phase_after(m) == Phase::Failed,
        a is Failed,
{
}

/// At the end of a loop body, at any depth: an `until` task whose condition
/// holds is left, and the cursor moves past it; one whose condition is
/// false runs its body again from the start, one iteration further, while
/// fewer than `max_iterations` iterations have run, and fails with the
/// "not met" message once `max_iterations` have.
pub proof fn law_until_exit(root: Seq<Task>, frames: Seq<Frame>, entries: Seq<(Seq<char>, ValueView)>)
    requires
        frames_wf(root, frames),
        !at_task(root, frames),
        top(frames) >= 1,
    ensures
        ({
            let u = until_at(root, frames, top(frames));
            let truth = expression_truth(bare_expr(u.condition@), object_json(entries));
            &&& truth == Ok::<bool, Seq<char>>(true) ==> next_move(root, frames, entries) == Move::Leave
                && frames_after(frames, Move::Leave) == advance_top(frames.drop_last())
            &&& (truth == Ok::<bool, Seq<char>>(false) && frames.last().iteration < u.max_iterations)
                ==> next_move(root, frames, entries) == Move::Repeat && frames_after(
                frames,
                Move::Repeat,
            ) == frames.update(
                top(frames) as int,
                Frame { index: 0, iteration: (frames.last().iteration + 1) as u32 },
            )
            &&& (truth == Ok::<bool, Seq<char>>(false) && frames.last().iteration == u.max_iterations)
                ==> next_move(root, frames, entries) == Move::Fail(
                Failure::Failed {
                    task: u.name@,
                    message: not_met_message(u.condition@, u.max_iterations as int),
                },
            )
        }),
{
    lemma_wf_top(root, frames);
}

} // verus!
