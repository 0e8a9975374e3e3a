//! The order of a creation run: its seven steps, each reported as running
//! and as completed around its work, and the points at which a cancelled
//! task stops. The work itself (files, provider calls, waiting for the user)
//! is done by the caller, which hands back what it saw after each action.
use vstd::prelude::*;

verus! {

/// A piece of work of a creation run.
#[derive(Debug, Clone, Copy, PartialEq, Eq, Structural)]
pub enum RunStage {
    /// Step 1: the work directory and the saved progress.
    Prepare,
    /// Step 2: the base image, generated or reused.
    GenerateBase,
    /// Step 2: the user's confirmation of a new base image, where asked for.
    ConfirmBase,
    /// Step 3: the strip of one atlas row.
    Strip(usize),
    /// Step 4: strips cut into frames.
    ProcessImages,
    /// Step 5: the frame count of every row.
    QualityCheck,
    /// Step 6: the atlas.
    ComposeAtlas,
    /// Step 7: the pet folder and package.
    Package,
}

/// How a step is reported.
#[derive(Debug, Clone, Copy, PartialEq, Eq, Structural)]
pub enum StepStatus {
    Running,
    Completed,
}

/// Why a run stopped before its end.
#[derive(Debug, Clone, Copy, PartialEq, Eq, Structural)]
pub enum RunStop {
    /// The task was cancelled.
    Cancelled,
    /// The user turned the base image down; the task is to be cancelled.
    Declined,
}

/// What the caller does next.
#[derive(Debug, Clone, Copy, PartialEq, Eq, Structural)]
pub enum RunAction {
    /// Report a step with the given status.
    Report(u32, StepStatus),
    /// Carry out a piece of work.
    Work(RunStage),
    /// The run is complete.
    Finish,
    /// The run ends with an error.
    Stop(RunStop),
}

/// What the caller saw after carrying out the last action.
#[derive(Debug, Clone, Copy, PartialEq, Eq, Structural)]
pub enum RunEvent {
    /// Go on.
    Proceed,
    /// The task has been cancelled.
    Cancelled,
    /// The user turned the base image down.
    Declined,
}

/// Number of actions of a run over `rows` atlas rows, `Finish` included.
pub open spec fn schedule_len(rows: int) -> int {
    22 + rows
}

/// Position of the report of step 3 as completed.
pub open spec fn strips_end(rows: int) -> int {
    8 + rows
}

/// The action at position `pos` of a run over `rows` atlas rows.
pub open spec fn scheduled(rows: int, pos: int) -> RunAction {
    let s = strips_end(rows);
    if pos == 0 {
        RunAction::Report(1, StepStatus::Running)
    } else if pos == 1 {
        RunAction::Work(RunStage::Prepare)
    } else if pos == 2 {
        RunAction::Report(1, StepStatus::Completed)
    } else if pos == 3 {
        RunAction::Report(2, StepStatus::Running)
    } else if pos == 4 {
        RunAction::Work(RunStage::GenerateBase)
    } else if pos == 5 {
        RunAction::Report(2, StepStatus::Completed)
    } else if pos == 6 {
        RunAction::Work(RunStage::ConfirmBase)
    } else if pos == 7 {
        RunAction::Report(3, StepStatus::Running)
    } else if pos < s {
        RunAction::Work(RunStage::Strip((pos - 8) as usize))
    } else if pos == s {
        RunAction::Report(3, StepStatus::Completed)
    } else if pos == s + 1 {
        RunAction::Report(4, StepStatus::Running)
    } else if pos == s + 2 {
        RunAction::Work(RunStage::ProcessImages)
    } else if pos == s + 3 {
        RunAction::Report(4, StepStatus::Completed)
    } else if pos == s + 4 {
        RunAction::Report(5, StepStatus::Running)
    } else if pos == s + 5 {
        RunAction::Work(RunStage::QualityCheck)
    } else if pos == s + 6 {
        RunAction::Report(5, StepStatus::Completed)
    } else if pos == s + 7 {
        RunAction::Report(6, StepStatus::Running)
    } else if pos == s + 8 {
        RunAction::Work(RunStage::ComposeAtlas)
    } else if pos == s + 9 {
        RunAction::Report(6, StepStatus::Completed)
    } else if pos == s + 10 {
        RunAction::Report(7, StepStatus::Running)
    } else if pos == s + 11 {
        RunAction::Work(RunStage::Package)
    } else if pos == s + 12 {
        RunAction::Report(7, StepStatus::Completed)
    } else {
        RunAction::Finish
    }
}

/// Whether the run stops on a cancelled task right after the action at
/// `pos`: after step 1, after the base image's confirmation, before each
/// strip, and after steps 3 to 6.
pub open spec fn checks_after(rows: int, pos: int) -> bool {
    let s = strips_end(rows);
    ||| pos == 2
    ||| pos == 6
    ||| (7 <= pos < s && pos + 1 < s)
    ||| pos == s
    ||| pos == s + 3
    ||| pos == s + 6
    ||| pos == s + 9
}

/// The step an action belongs to; the end counts as step 8.
pub open spec fn step_of(a: RunAction) -> int {
    match a {
        RunAction::Report(n, _) => n as int,
        RunAction::Work(stage) => match stage {
            RunStage::Prepare => 1,
            RunStage::GenerateBase => 2,
            RunStage::ConfirmBase => 2,
            RunStage::Strip(_) => 3,
            RunStage::ProcessImages => 4,
            RunStage::QualityCheck => 5,
            RunStage::ComposeAtlas => 6,
            RunStage::Package => 7,
        },
        RunAction::Finish => 8,
        RunAction::Stop(_) => 8,
    }
}

/// One call of `RunSchedule::next`: from the position of the next action
/// and the stop, if any, given what the caller saw, the new position, the
/// new stop and the action handed out.
pub open spec fn schedule_step(rows: int, pos: int, stopped: Option<RunStop>, event: RunEvent) -> (
    int,
    Option<RunStop>,
    RunAction,
) {
    match stopped {
        Some(why) => (pos, stopped, RunAction::Stop(why)),
        None => if pos > 0 && scheduled(rows, pos - 1) == RunAction::Work(RunStage::ConfirmBase)
            && event == RunEvent::Declined {
            (pos, Some(RunStop::Declined), RunAction::Stop(RunStop::Declined))
        } else if pos > 0 && checks_after(rows, pos - 1) && event == RunEvent::Cancelled {
            (pos, Some(RunStop::Cancelled), RunAction::Stop(RunStop::Cancelled))
        } else if pos < schedule_len(rows) {
            (pos + 1, None, scheduled(rows, pos))
        } else {
            (pos, None, RunAction::Finish)
        },
    }
}

/// The actions a run hands out, from the given position and stop, for
/// these successive events.
pub open spec fn schedule_actions(
    rows: int,
    pos: int,
    stopped: Option<RunStop>,
    events: Seq<RunEvent>,
) -> Seq<RunAction>
    decreases events.len(),
{
    if events.len() == 0 {
        Seq::empty()
    } else {
        let (p, st, a) = schedule_step(rows, pos, stopped, events[0]);
        seq![a] + schedule_actions(rows, p, st, events.drop_first())
    }
}

/// A run on which nothing is cancelled or turned down hands out exactly the
/// scheduled actions, in order, and then `Finish` for good.
pub proof fn undisturbed_run_follows_schedule(rows: int, pos: int, events: Seq<RunEvent>)
    requires
        0 <= rows,
        0 <= pos <= schedule_len(rows),
        forall|k: int| 0 <= k < events.len() ==> #[trigger] events[k] == RunEvent::Proceed,
    ensures
        schedule_actions(rows, pos, None, events).len() == events.len(),
        forall|k: int|
            0 <= k < events.len() ==> #[trigger] schedule_actions(rows, pos, None, events)[k] == (
            if pos + k < schedule_len(rows) {
                scheduled(rows, pos + k)
            } else {
                RunAction::Finish
            }),
    decreases events.len(),
{
    if events.len() > 0 {
        let rest = events.drop_first();
        assert forall|k: int| 0 <= k < rest.len() implies #[trigger] rest[k] == RunEvent::Proceed by {
            assert(rest[k] == events[k + 1]);
        }
        assert(events[0] == RunEvent::Proceed);
        let next = if pos < schedule_len(rows) {
            pos + 1
        } else {
            pos
        };
        undisturbed_run_follows_schedule(rows, next, rest);
        let all = schedule_actions(rows, pos, None, events);
        let tail = schedule_actions(rows, next, None, rest);
        assert forall|k: int| 0 <= k < events.len() implies #[trigger] all[k] == (if pos + k
            < schedule_len(rows) {
            scheduled(rows, pos + k)
        } else {
            RunAction::Finish
        }) by {
            if k > 0 {
                assert(all[k] == tail[k - 1]);
            }
        }
    }
}

/// A stopped run stays stopped: once a stop is handed out, every later
/// action is that same stop, whatever the caller reports.
pub proof fn stop_is_final(rows: int, pos: int, stopped: Option<RunStop>, events: Seq<RunEvent>, k: int)
    requires
        0 <= k < events.len(),
        schedule_actions(rows, pos, stopped, events)[k] is Stop,
    ensures
        forall|j: int|
            k <= j < events.len() ==> #[trigger] schedule_actions(rows, pos, stopped, events)[j]
                == schedule_actions(rows, pos, stopped, events)[k],
    decreases events.len(),
{
    let (p, st, a) = schedule_step(rows, pos, stopped, events[0]);
    let rest = events.drop_first();
    let all = schedule_actions(rows, pos, stopped, events);
    let tail = schedule_actions(rows, p, st, rest);
    lemma_schedule_actions_len(rows, p, st, rest);
    assert(all == seq![a] + tail);
    if k > 0 {
        assert(all[k] == tail[k - 1]);
        stop_is_final(rows, p, st, rest, k - 1);
        assert forall|j: int| k <= j < events.len() implies #[trigger] all[j] == all[k] by {
            assert(all[j] == tail[j - 1]);
        }
    } else {
        assert(a is Stop);
        let w = a->0;
        assert(st == Some(w));
        lemma_stopped_run(rows, p, w, rest);
        assert forall|j: int| k <= j < events.len() implies #[trigger] all[j] == all[k] by {
            if j > 0 {
                assert(all[j] == tail[j - 1]);
            }
        }
    }
}

/// A run hands out one action per event.
proof fn lemma_schedule_actions_len(rows: int, pos: int, stopped: Option<RunStop>, events: Seq<RunEvent>)
    ensures
        schedule_actions(rows, pos, stopped, events).len() == events.len(),
    decreases events.len(),
{
    if events.len() > 0 {
        let (p, st, a) = schedule_step(rows, pos, stopped, events[0]);
        lemma_schedule_actions_len(rows, p, st, events.drop_first());
    }
}

/// A run that has stopped hands out nothing but its stop.
proof fn lemma_stopped_run(rows: int, pos: int, why: RunStop, events: Seq<RunEvent>)
    ensures
        schedule_actions(rows, pos, Some(why), events).len() == events.len(),
        forall|j: int|
            0 <= j < events.len() ==> #[trigger] schedule_actions(rows, pos, Some(why), events)[j]
                == RunAction::Stop(why),
    decreases events.len(),
{
    if events.len() > 0 {
        let rest = events.drop_first();
        lemma_stopped_run(rows, pos, why, rest);
        let all = schedule_actions(rows, pos, Some(why), events);
        let tail = schedule_actions(rows, pos, Some(why), rest);
        assert forall|j: int| 0 <= j < events.len() implies #[trigger] all[j] == RunAction::Stop(
            why,
        ) by {
            if j > 0 {
                assert(all[j] == tail[j - 1]);
            }
        }
    }
}

/// Where a run over `rows` atlas rows stands.
pub struct RunSchedule {
    pub rows: usize,
    /// Position of the next action.
    pub pos: usize,
    /// Set once the run has stopped.
    pub stopped: Option<RunStop>,
}

impl RunSchedule {
    /// A run stays within its actions.
    pub open spec fn wf(&self) -> bool {
        &&& self.pos <= schedule_len(self.rows as int)
        &&& schedule_len(self.rows as int) <= usize::MAX
    }

    /// A run over `rows` atlas rows, at its start.
    pub fn new(rows: usize) -> (r: Self)
        requires
            schedule_len(rows as int) <= usize::MAX,
        ensures
            r.wf(),
            r.rows == rows,
            r.pos == 0,
            r.stopped is None,
    {
        RunSchedule { rows, pos: 0, stopped: None }
    }

    /// The next action, given what the caller saw after the last one. A
    /// cancelled task stops the run at the points of `checks_after`; a
    /// turned-down base image stops it after the confirmation; a stopped run
    /// stays stopped and a complete one stays complete.
    pub fn next(&mut self, event: RunEvent) -> (r: RunAction)
        requires
            old(self).wf(),
        ensures
            final(self).wf(),
            final(self).rows == old(self).rows,
            (final(self).pos as int, final(self).stopped, r) == schedule_step(
                old(self).rows as int,
                old(self).pos as int,
                old(self).stopped,
                event,
            ),
    {
        match self.stopped {
            Some(why) => {
                return RunAction::Stop(why);
            },
            None => {},
        }
        let rows = self.rows;
        let p = self.pos;
        let s = 8 + rows;
        if p > 0 && p == 7 && event == RunEvent::Declined {
            self.stopped = Some(RunStop::Declined);
            return RunAction::Stop(RunStop::Declined);
        }
        if p > 0 && event == RunEvent::Cancelled {
            let q = p - 1;
            let check = q == 2 || q == 6 || (7 <= q && q + 1 < s) || q == s || q == s + 3 || q
                == s + 6 || q == s + 9;
            if check {
                self.stopped = Some(RunStop::Cancelled);
                return RunAction::Stop(RunStop::Cancelled);
            }
        }
        if p >= s + 14 {
            return RunAction::Finish;
        }
        self.pos = p + 1;
        if p == 0 {
            RunAction::Report(1, StepStatus::Running)
        } else if p == 1 {
            RunAction::Work(RunStage::Prepare)
        } else if p == 2 {
            RunAction::Report(1, StepStatus::Completed)
        } else if p == 3 {
            RunAction::Report(2, StepStatus::Running)
        } else if p == 4 {
            RunAction::Work(RunStage::GenerateBase)
        } else if p == 5 {
            RunAction::Report(2, StepStatus::Completed)
        } else if p == 6 {
            RunAction::Work(RunStage::ConfirmBase)
        } else if p == 7 {
            RunAction::Report(3, StepStatus::Running)
        } else if p < s {
            RunAction::Work(RunStage::Strip(p - 8))
        } else if p == s {
            RunAction::Report(3, StepStatus::Completed)
        } else if p == s + 1 {
            RunAction::Report(4, StepStatus::Running)
        } else if p == s + 2 {
            RunAction::Work(RunStage::ProcessImages)
        } else if p == s + 3 {
            RunAction::Report(4, StepStatus::Completed)
        } else if p == s + 4 {
            RunAction::Report(5, StepStatus::Running)
        } else if p == s + 5 {
            RunAction::Work(RunStage::QualityCheck)
        } else if p == s + 6 {
            RunAction::Report(5, StepStatus::Completed)
        } else if p == s + 7 {
            RunAction::Report(6, StepStatus::Running)
        } else if p == s + 8 {
            RunAction::Work(RunStage::ComposeAtlas)
        } else if p == s + 9 {
            RunAction::Report(6, StepStatus::Completed)
        } else if p == s + 10 {
            RunAction::Report(7, StepStatus::Running)
        } else if p == s + 11 {
            RunAction::Work(RunStage::Package)
        } else if p == s + 12 {
            RunAction::Report(7, StepStatus::Completed)
        } else {
            RunAction::Finish
        }
    }
}

/// Position of the report of step `n` as running.
pub open spec fn running_report_pos(rows: int, n: int) -> int {
    let s = strips_end(rows);
    if n == 1 {
        0
    } else if n == 2 {
        3
    } else if n == 3 {
        7
    } else {
        s + 1 + 3 * (n - 4)
    }
}

/// Position of the report of step `n` as completed.
pub open spec fn completed_report_pos(rows: int, n: int) -> int {
    let s = strips_end(rows);
    if n == 1 {
        2
    } else if n == 2 {
        5
    } else {
        s + 3 * (n - 3)
    }
}

/// The cancel check that comes last before the work at `q`.
pub open spec fn check_before(rows: int, q: int) -> int {
    let s = strips_end(rows);
    if q == 4 {
        2
    } else if 8 <= q < s {
        q - 1
    } else if q == s + 2 || q == s + 5 || q == s + 8 || q == s + 11 {
        q - 2
    } else {
        0
    }
}

/// The steps of a run come in order: no action belongs to an earlier step
/// than an action before it, and the run ends after step 7.
pub proof fn schedule_steps_in_order(rows: int, p: int, q: int)
    requires
        0 <= rows,
        0 <= p <= q < schedule_len(rows),
    ensures
        step_of(scheduled(rows, p)) <= step_of(scheduled(rows, q)),
        scheduled(rows, schedule_len(rows) - 1) == RunAction::Finish,
{
}

/// Every step is reported as running before its work and as completed after
/// it; the one piece of work after its step's completed report is the
/// confirmation of the base image, which comes before step 3 starts.
pub proof fn work_inside_step_reports(rows: int, q: int)
    requires
        0 <= rows,
        0 <= q < schedule_len(rows),
        scheduled(rows, q) is Work,
        scheduled(rows, q) != RunAction::Work(RunStage::ConfirmBase),
    ensures
        1 <= step_of(scheduled(rows, q)) <= 7,
        running_report_pos(rows, step_of(scheduled(rows, q))) < q,
        q < completed_report_pos(rows, step_of(scheduled(rows, q))),
        scheduled(rows, running_report_pos(rows, step_of(scheduled(rows, q)))) == RunAction::Report(
            step_of(scheduled(rows, q)) as u32,
            StepStatus::Running,
        ),
        scheduled(rows, completed_report_pos(rows, step_of(scheduled(rows, q)))) == RunAction::Report(
            step_of(scheduled(rows, q)) as u32,
            StepStatus::Completed,
        ),
{
}

/// Between any two pieces of work a cancelled task is looked for, so that
/// no new work starts on a cancelled task; the one exception is the base
/// image's confirmation, which directly follows the base image.
pub proof fn cancel_checked_between_work(rows: int, p: int, q: int)
    requires
        0 <= rows,
        0 <= p < q < schedule_len(rows),
        scheduled(rows, p) is Work,
        scheduled(rows, q) is Work,
        scheduled(rows, q) != RunAction::Work(RunStage::ConfirmBase),
    ensures
        p <= check_before(rows, q) < q,
        checks_after(rows, check_before(rows, q)),
{
}

/// The message a step is reported with.
pub open spec fn step_message(step: u32, status: StepStatus) -> Seq<char> {
    match status {
        StepStatus::Running => if step == 1 {
            "prepare workdir"@
        } else if step == 2 {
            "generate base image"@
        } else if step == 3 {
            "generate strips"@
        } else if step == 4 {
            "process images"@
        } else if step == 5 {
            "quality check"@
        } else if step == 6 {
            "compose atlas"@
        } else {
            "package pet"@
        },
        StepStatus::Completed => if step == 1 {
            "workdir ready"@
        } else if step == 2 {
            "base image ready"@
        } else if step == 3 {
            "all strips done"@
        } else if step == 4 {
            "images processed"@
        } else if step == 5 {
            "quality ok"@
        } else if step == 6 {
            "atlas ready"@
        } else {
            "package done"@
        },
    }
}

/// The message of a step report.
pub fn report_message(step: u32, status: StepStatus) -> (r: &'static str)
    ensures
        r@ == step_message(step, status),
{
    match status {
        StepStatus::Running => if step == 1 {
            "prepare workdir"
        } else if step == 2 {
            "generate base image"
        } else if step == 3 {
            "generate strips"
        } else if step == 4 {
            "process images"
        } else if step == 5 {
            "quality check"
        } else if step == 6 {
            "compose atlas"
        } else {
            "package pet"
        },
        StepStatus::Completed => if step == 1 {
            "workdir ready"
        } else if step == 2 {
            "base image ready"
        } else if step == 3 {
            "all strips done"
        } else if step == 4 {
            "images processed"
        } else if step == 5 {
            "quality ok"
        } else if step == 6 {
            "atlas ready"
        } else {
            "package done"
        },
    }
}

/// The status word of a step report.
pub fn status_word(status: StepStatus) -> (r: &'static str)
    ensures
        status == StepStatus::Running ==> r@ == "running"@,
        status == StepStatus::Completed ==> r@ == "completed"@,
{
    match status {
        StepStatus::Running => "running",
        StepStatus::Completed => "completed",
    }
}

/// The error a stopped run ends with.
pub fn stop_message(why: RunStop) -> (r: &'static str)
    ensures
        why == RunStop::Cancelled ==> r@ == "cancelled"@,
        why == RunStop::Declined ==> r@ == "用户取消"@,
{
    match why {
        RunStop::Cancelled => "cancelled",
        RunStop::Declined => "用户取消",
    }
}

} // verus!
