//! The generation server's task state: one task at a time, its phase, its
//! bounded log, base-image confirmation and cancellation, and how a finished
//! run is recorded.
use vstd::prelude::*;
use crate::text::{append_str, contains_seq, contains_vec, chars_of, decimal, push_decimal, string_of, str_eq};
use crate::types::{copy_opt_string, PetCreationProgress};

verus! {

/// What `/status` reports.
#[derive(Debug, Clone, Copy, PartialEq, Eq, Structural)]
pub enum ServerState {
    Idle,
    Busy,
    AwaitingConfirmation,
}

/// The phase of a generation task.
#[derive(Debug, Clone, Copy, PartialEq, Eq, Structural)]
pub enum TaskPhase {
    Running,
    AwaitingConfirmation,
    Succeeded,
    Failed,
    Cancelled,
}

/// One line of a task's log.
#[derive(Debug, Clone)]
pub struct LogEntry {
    pub time: String,
    pub level: String,
    pub message: String,
}

/// What a client sees of a task.
#[derive(Debug, Clone)]
pub struct TaskSnapshot {
    pub task_id: String,
    pub pet_name: String,
    pub phase: TaskPhase,
    /// RFC 3339 start time.
    pub started_at: String,
    pub progress: Option<PetCreationProgress>,
    pub logs: Vec<LogEntry>,
    pub base_image_b64: Option<String>,
    pub pet_id: Option<String>,
    pub artifact_sha256: Option<String>,
    pub error: Option<String>,
    pub client_ip: Option<String>,
}

/// The task the server runs: its snapshot, whether it was cancelled, and the
/// answer to the base-image question once given.
#[derive(Debug, Clone)]
pub struct ActiveTask {
    pub snapshot: TaskSnapshot,
    pub cancelled: bool,
    pub confirmed: Option<bool>,
}

/// Why a task could not be started.
#[derive(Debug, Clone)]
pub enum StartError {
    /// Another task is running or waiting for confirmation.
    Busy { task_id: String, pet_name: String },
    /// The server is not configured to generate.
    Config(String),
}

/// The answer to `/status`.
#[derive(Debug, Clone)]
pub struct StatusResponse {
    pub state: ServerState,
    pub active_task_id: Option<String>,
    pub pet_name: Option<String>,
    pub started_at: Option<String>,
    pub phase: Option<TaskPhase>,
    pub client_ip: Option<String>,
}

/// A task keeps at most this many log lines.
pub const MAX_TASK_LOGS: usize = 500;

/// The task is still going: running or waiting for the base image answer.
pub open spec fn in_progress(phase: TaskPhase) -> bool {
    phase == TaskPhase::Running || phase == TaskPhase::AwaitingConfirmation
}

/// What `/status` says for the phase of the last task, if any.
pub open spec fn state_for(phase: Option<TaskPhase>) -> ServerState {
    match phase {
        Some(TaskPhase::Running) => ServerState::Busy,
        Some(TaskPhase::AwaitingConfirmation) => ServerState::AwaitingConfirmation,
        _ => ServerState::Idle,
    }
}

/// A new task may start when there is no task in progress.
pub open spec fn accepts_new_task(phase: Option<TaskPhase>) -> bool {
    match phase {
        Some(p) => !in_progress(p),
        None => true,
    }
}

/// The phase of the last task, if any.
pub open spec fn last_phase(active: Option<ActiveTask>) -> Option<TaskPhase> {
    match active {
        Some(t) => Some(t.snapshot.phase),
        None => None,
    }
}

/// One task at a time: the server takes a new task exactly when `/status`
/// reports it idle, and refuses one while a task runs or waits for the base
/// image answer.
pub proof fn one_task_at_a_time(phase: Option<TaskPhase>)
    ensures
        accepts_new_task(phase) <==> state_for(phase) == ServerState::Idle,
        phase matches Some(p) && in_progress(p) ==> !accepts_new_task(phase),
{
}

/// The `/status` answer.
pub fn status_of(active: &Option<ActiveTask>) -> (r: StatusResponse)
    ensures
        r.state == state_for(last_phase(*active)),
        match *active {
            Some(t) => r.active_task_id == Some(t.snapshot.task_id) && r.pet_name == Some(
                t.snapshot.pet_name,
            ) && r.started_at == Some(t.snapshot.started_at) && r.phase == Some(t.snapshot.phase)
                && r.client_ip == t.snapshot.client_ip,
            None => r.active_task_id is None && r.pet_name is None && r.started_at is None
                && r.phase is None && r.client_ip is None,
        },
{
    match active {
        None => StatusResponse {
            state: ServerState::Idle,
            active_task_id: None,
            pet_name: None,
            started_at: None,
            phase: None,
            client_ip: None,
        },
        Some(t) => {
            let s = &t.snapshot;
            let state = match s.phase {
                TaskPhase::Running => ServerState::Busy,
                TaskPhase::AwaitingConfirmation => ServerState::AwaitingConfirmation,
                _ => ServerState::Idle,
            };
            StatusResponse {
                state,
                active_task_id: Some(s.task_id.clone()),
                pet_name: Some(s.pet_name.clone()),
                started_at: Some(s.started_at.clone()),
                phase: Some(s.phase),
                client_ip: copy_opt_string(&s.client_ip),
            }
        },
    }
}

/// Whether a new task may start; while one is in progress the answer names it.
pub fn check_can_start(active: &Option<ActiveTask>) -> (r: Result<(), StartError>)
    ensures
        r is Ok <==> accepts_new_task(last_phase(*active)),
        r matches Err(e) ==> (e matches StartError::Busy { task_id, pet_name } && active matches Some(
            t,
        ) && task_id == t.snapshot.task_id && pet_name == t.snapshot.pet_name),
{
    match active {
        Some(t) => match t.snapshot.phase {
            TaskPhase::Running | TaskPhase::AwaitingConfirmation => Err(
                StartError::Busy {
                    task_id: t.snapshot.task_id.clone(),
                    pet_name: t.snapshot.pet_name.clone(),
                },
            ),
            _ => Ok(()),
        },
        None => Ok(()),
    }
}

/// The snapshot of a task that has just started.
pub fn new_task_snapshot(task_id: String, pet_name: String, started_at: String, client_ip: String) -> (r:
    TaskSnapshot)
    ensures
        r.task_id == task_id,
        r.pet_name == pet_name,
        r.started_at == started_at,
        r.phase == TaskPhase::Running,
        r.client_ip == Some(client_ip),
        r.logs@.len() == 0,
        r.progress is None && r.base_image_b64 is None && r.pet_id is None
            && r.artifact_sha256 is None && r.error is None,
{
    TaskSnapshot {
        task_id,
        pet_name,
        phase: TaskPhase::Running,
        started_at,
        progress: None,
        logs: Vec::new(),
        base_image_b64: None,
        pet_id: None,
        artifact_sha256: None,
        error: None,
        client_ip: Some(client_ip),
    }
}

/// The last `MAX_TASK_LOGS` lines of a log.
pub open spec fn bounded_log(logs: Seq<LogEntry>) -> Seq<LogEntry> {
    if logs.len() > MAX_TASK_LOGS {
        logs.subrange(logs.len() - MAX_TASK_LOGS, logs.len() as int)
    } else {
        logs
    }
}

/// A copy of a log line.
fn copy_entry(e: &LogEntry) -> (r: LogEntry)
    ensures
        r == *e,
{
    LogEntry { time: e.time.clone(), level: e.level.clone(), message: e.message.clone() }
}

/// The other fields of the snapshot are as before.
pub open spec fn same_but_logs(a: TaskSnapshot, b: TaskSnapshot) -> bool {
    &&& a.task_id == b.task_id
    &&& a.pet_name == b.pet_name
    &&& a.phase == b.phase
    &&& a.started_at == b.started_at
    &&& a.progress == b.progress
    &&& a.base_image_b64 == b.base_image_b64
    &&& a.pet_id == b.pet_id
    &&& a.artifact_sha256 == b.artifact_sha256
    &&& a.error == b.error
    &&& a.client_ip == b.client_ip
}

/// Add a line to a task's log, dropping the oldest lines beyond the limit.
pub fn push_log(snapshot: &mut TaskSnapshot, time: String, level: &str, message: &str)
    ensures
        ({
            let e = final(snapshot).logs@.last();
            &&& final(snapshot).logs@.len() > 0
            &&& e.time == time && e.level@ == level@ && e.message@ == message@
            &&& final(snapshot).logs@ == bounded_log(old(snapshot).logs@.push(e))
        }),
        same_but_logs(*final(snapshot), *old(snapshot)),
{
    let entry = LogEntry { time, level: string_of(level), message: string_of(message) };
    let mut logs = Vec::new();
    std::mem::swap(&mut logs, &mut snapshot.logs);
    logs.push(entry);
    let n = logs.len();
    if n > MAX_TASK_LOGS {
        let start = n - MAX_TASK_LOGS;
        let mut kept: Vec<LogEntry> = Vec::new();
        let mut i: usize = start;
        while i < n
            invariant
                n == logs@.len(),
                start == n - MAX_TASK_LOGS,
                start <= i <= n,
                kept@ == logs@.subrange(start as int, i as int),
            decreases n - i,
        {
            kept.push(copy_entry(&logs[i]));
            assert(kept@ =~= logs@.subrange(start as int, i + 1));
            i = i + 1;
        }
        snapshot.logs = kept;
    } else {
        snapshot.logs = logs;
    }
}

/// The log line added last has this level and message.
pub open spec fn last_logged(snapshot: TaskSnapshot, level: Seq<char>, message: Seq<char>) -> bool {
    snapshot.logs@.len() > 0 && snapshot.logs@.last().level@ == level && snapshot.logs@.last().message@
        == message
}

/// The log of `after` is that of `before` with one line added (and the
/// oldest dropped beyond the limit).
pub open spec fn log_grew(before: TaskSnapshot, after: TaskSnapshot) -> bool {
    after.logs@.len() > 0 && after.logs@ == bounded_log(before.logs@.push(after.logs@.last()))
}

/// The text logged for a progress report.
pub open spec fn progress_log_message(p: PetCreationProgress) -> Seq<char> {
    "progress step="@ + decimal(p.step as nat) + " sub="@ + p.sub_step@ + " status="@ + p.status@
        + " msg="@ + p.message@
}

/// A progress report from the pipeline: it becomes the task's progress and
/// is logged.
pub fn record_progress(task: &mut ActiveTask, progress: PetCreationProgress, time: String)
    ensures
        final(task).snapshot.progress == Some(progress),
        final(task).snapshot.phase == old(task).snapshot.phase,
        final(task).snapshot.task_id == old(task).snapshot.task_id,
        final(task).cancelled == old(task).cancelled,
        final(task).confirmed == old(task).confirmed,
        log_grew(old(task).snapshot, final(task).snapshot),
        last_logged(final(task).snapshot, "info"@, progress_log_message(progress)),
{
    let mut msg = string_of("progress step=");
    push_decimal(&mut msg, progress.step as u64);
    append_str(&mut msg, " sub=");
    append_str(&mut msg, progress.sub_step.as_str());
    append_str(&mut msg, " status=");
    append_str(&mut msg, progress.status.as_str());
    append_str(&mut msg, " msg=");
    append_str(&mut msg, progress.message.as_str());
    task.snapshot.progress = Some(progress);
    push_log(&mut task.snapshot, time, "info", msg.as_str());
}

/// The base image is ready: the task waits for the user's answer.
pub fn record_base_ready(task: &mut ActiveTask, base_image_b64: String, time: String)
    ensures
        final(task).snapshot.base_image_b64 == Some(base_image_b64),
        final(task).snapshot.phase == TaskPhase::AwaitingConfirmation,
        final(task).confirmed is None,
        final(task).cancelled == old(task).cancelled,
        final(task).snapshot.task_id == old(task).snapshot.task_id,
        log_grew(old(task).snapshot, final(task).snapshot),
        last_logged(final(task).snapshot, "info"@, "基础形象已生成，等待确认"@),
{
    task.snapshot.base_image_b64 = Some(base_image_b64);
    task.snapshot.phase = TaskPhase::AwaitingConfirmation;
    task.confirmed = None;
    push_log(&mut task.snapshot, time, "info", "基础形象已生成，等待确认");
}

/// The answer to the base image question, once there is one: the user's
/// answer, or no when the task was cancelled.
pub fn base_confirmation(task: &ActiveTask) -> (r: Option<bool>)
    ensures
        r == (if task.confirmed is Some {
            task.confirmed
        } else if task.cancelled {
            Some(false)
        } else {
            None
        }),
{
    match task.confirmed {
        Some(v) => Some(v),
        None => if task.cancelled {
            Some(false)
        } else {
            None
        },
    }
}

/// The user did not answer in time: the task is cancelled with an error.
pub fn confirm_timed_out(task: &mut ActiveTask, time: String) -> (r: String)
    ensures
        r@ == "基础形象确认超时"@,
        final(task).cancelled,
        final(task).snapshot.phase == TaskPhase::Cancelled,
        final(task).snapshot.error matches Some(e) && e@ == "基础形象确认超时"@,
        final(task).snapshot.task_id == old(task).snapshot.task_id,
        log_grew(old(task).snapshot, final(task).snapshot),
        last_logged(final(task).snapshot, "error"@, "基础形象确认超时（30分钟）"@),
{
    task.cancelled = true;
    task.snapshot.phase = TaskPhase::Cancelled;
    task.snapshot.error = Some(string_of("基础形象确认超时"));
    push_log(&mut task.snapshot, time, "error", "基础形象确认超时（30分钟）");
    string_of("基础形象确认超时")
}

/// The answer for a task that is not the current one.
pub open spec fn no_such_task_message() -> Seq<char> {
    "任务不存在或已完成"@
}

/// The current task has this id.
pub open spec fn is_current(active: Option<ActiveTask>, task_id: Seq<char>) -> bool {
    active matches Some(t) && t.snapshot.task_id@ == task_id
}

/// The user's answer to the base image: only for the current task while it
/// waits for one. Yes resumes the run; no cancels it.
pub fn confirm_base(active: &mut Option<ActiveTask>, task_id: &str, confirmed: bool, time: String) -> (r:
    Result<(), String>)
    ensures
        !is_current(*old(active), task_id@) ==> (r matches Err(e) && e@ == no_such_task_message()
            && *final(active) == *old(active)),
        is_current(*old(active), task_id@) && old(active).unwrap().snapshot.phase
            != TaskPhase::AwaitingConfirmation ==> (r matches Err(e) && e@
            == "当前不在等待基础形象确认状态"@ && *final(active) == *old(active)),
        is_current(*old(active), task_id@) && old(active).unwrap().snapshot.phase
            == TaskPhase::AwaitingConfirmation ==> ({
            let before = old(active).unwrap();
            &&& r is Ok
            &&& *final(active) matches Some(t) && {
                &&& t.confirmed == Some(confirmed)
                &&& t.cancelled == (before.cancelled || !confirmed)
                &&& t.snapshot.phase == (if confirmed {
                    TaskPhase::Running
                } else {
                    TaskPhase::Cancelled
                })
                &&& t.snapshot.task_id == before.snapshot.task_id
                &&& log_grew(before.snapshot, t.snapshot)
                &&& if confirmed {
                    last_logged(t.snapshot, "info"@, "用户已确认基础形象"@)
                } else {
                    last_logged(t.snapshot, "warn"@, "用户拒绝基础形象"@)
                }
            }
        }),
{
    match active {
        None => Err(string_of("任务不存在或已完成")),
        Some(t) => {
            if !str_eq(t.snapshot.task_id.as_str(), task_id) {
                return Err(string_of("任务不存在或已完成"));
            }
            if t.snapshot.phase != TaskPhase::AwaitingConfirmation {
                return Err(string_of("当前不在等待基础形象确认状态"));
            }
            if !confirmed {
                t.cancelled = true;
            }
            t.confirmed = Some(confirmed);
            if confirmed {
                t.snapshot.phase = TaskPhase::Running;
                push_log(&mut t.snapshot, time, "info", "用户已确认基础形象");
            } else {
                t.snapshot.phase = TaskPhase::Cancelled;
                push_log(&mut t.snapshot, time, "warn", "用户拒绝基础形象");
            }
            Ok(())
        },
    }
}

/// Cancel the current task: it is marked cancelled and any pending base image
/// question is answered no; the pipeline then stops.
pub fn cancel_task(active: &mut Option<ActiveTask>, task_id: &str, time: String) -> (r: Result<(), String>)
    ensures
        !is_current(*old(active), task_id@) ==> (r matches Err(e) && e@ == no_such_task_message()
            && *final(active) == *old(active)),
        is_current(*old(active), task_id@) ==> ({
            let before = old(active).unwrap();
            &&& r is Ok
            &&& *final(active) matches Some(t) && {
                &&& t.cancelled
                &&& t.confirmed == Some(false)
                &&& t.snapshot.phase == before.snapshot.phase
                &&& t.snapshot.task_id == before.snapshot.task_id
                &&& log_grew(before.snapshot, t.snapshot)
                &&& last_logged(t.snapshot, "warn"@, "收到取消请求"@)
            }
        }),
{
    match active {
        None => Err(string_of("任务不存在或已完成")),
        Some(t) => {
            if !str_eq(t.snapshot.task_id.as_str(), task_id) {
                return Err(string_of("任务不存在或已完成"));
            }
            t.cancelled = true;
            t.confirmed = Some(false);
            push_log(&mut t.snapshot, time, "warn", "收到取消请求");
            Ok(())
        },
    }
}

/// What a successful pipeline run produced, as recorded.
#[derive(Debug, Clone)]
pub struct PipelineResult {
    pub pet_id: String,
    pub pet_dir: String,
    pub zip_path: Option<String>,
    pub zip_sha256: Option<String>,
}

/// How a run ended, as written to its record.
#[derive(Debug, Clone)]
pub struct RunOutcome {
    pub status: String,
    pub pet_id: Option<String>,
    pub artifact_sha256: Option<String>,
    pub error: Option<String>,
    pub pet_dir: Option<String>,
    pub artifact_path: Option<String>,
}

/// A failed run counts as cancelled when the task was cancelled, or its
/// error says the user cancelled.
pub open spec fn ended_by_cancel(cancelled: bool, error: Seq<char>) -> bool {
    cancelled || contains_seq(error, "用户取消"@) || contains_seq(error, "cancelled"@)
}

/// The text logged for a finished run.
pub open spec fn done_message(s: PipelineResult) -> Seq<char> {
    "任务完成 pet_id="@ + s.pet_id@ + " zip="@ + match s.zip_path {
        Some(z) => z@,
        None => "-"@,
    }
}

/// The pipeline has ended: the task's phase, result and log, and the outcome
/// to record.
pub fn finish_task(task: &mut ActiveTask, result: Result<PipelineResult, String>, time: String) -> (r:
    RunOutcome)
    ensures
        final(task).snapshot.task_id == old(task).snapshot.task_id,
        log_grew(old(task).snapshot, final(task).snapshot),
        match result {
            Ok(s) => {
                &&& r.status@ == "succeeded"@
                &&& r.pet_id == Some(s.pet_id) && r.artifact_sha256 == s.zip_sha256
                &&& r.error is None && r.pet_dir == Some(s.pet_dir) && r.artifact_path == s.zip_path
                &&& final(task).snapshot.phase == TaskPhase::Succeeded
                &&& final(task).snapshot.pet_id == Some(s.pet_id)
                &&& final(task).snapshot.artifact_sha256 == s.zip_sha256
                &&& last_logged(final(task).snapshot, "info"@, done_message(s))
            },
            Err(e) => if ended_by_cancel(old(task).cancelled, e@) {
                &&& r.status@ == "cancelled"@
                &&& r.error matches Some(m) && m@ == "用户取消"@
                &&& r.pet_id is None && r.artifact_sha256 is None && r.pet_dir is None
                    && r.artifact_path is None
                &&& final(task).snapshot.phase == TaskPhase::Cancelled
                &&& final(task).snapshot.error matches Some(m) && m@ == "用户取消"@
                &&& last_logged(final(task).snapshot, "warn"@, "任务已取消"@)
            } else {
                &&& r.status@ == "failed"@
                &&& r.error == Some(e)
                &&& r.pet_id is None && r.artifact_sha256 is None && r.pet_dir is None
                    && r.artifact_path is None
                &&& final(task).snapshot.phase == TaskPhase::Failed
                &&& final(task).snapshot.error == Some(e)
                &&& last_logged(final(task).snapshot, "error"@, e@)
            },
        },
{
    match result {
        Ok(s) => {
            task.snapshot.phase = TaskPhase::Succeeded;
            task.snapshot.pet_id = Some(s.pet_id.clone());
            task.snapshot.artifact_sha256 = copy_opt_string(&s.zip_sha256);
            let mut msg = string_of("任务完成 pet_id=");
            append_str(&mut msg, s.pet_id.as_str());
            append_str(&mut msg, " zip=");
            match &s.zip_path {
                Some(z) => append_str(&mut msg, z.as_str()),
                None => append_str(&mut msg, "-"),
            }
            push_log(&mut task.snapshot, time, "info", msg.as_str());
            RunOutcome {
                status: string_of("succeeded"),
                pet_id: Some(s.pet_id),
                artifact_sha256: s.zip_sha256,
                error: None,
                pet_dir: Some(s.pet_dir),
                artifact_path: s.zip_path,
            }
        },
        Err(e) => {
            let ev = chars_of(e.as_str());
            let by_cancel = task.cancelled || contains_vec(&ev, &chars_of("用户取消")) || contains_vec(
                &ev,
                &chars_of("cancelled"),
            );
            if by_cancel {
                task.snapshot.phase = TaskPhase::Cancelled;
                task.snapshot.error = Some(string_of("用户取消"));
                push_log(&mut task.snapshot, time, "warn", "任务已取消");
                RunOutcome {
                    status: string_of("cancelled"),
                    pet_id: None,
                    artifact_sha256: None,
                    error: Some(string_of("用户取消")),
                    pet_dir: None,
                    artifact_path: None,
                }
            } else {
                task.snapshot.phase = TaskPhase::Failed;
                task.snapshot.error = Some(e.clone());
                push_log(&mut task.snapshot, time, "error", e.as_str());
                RunOutcome {
                    status: string_of("failed"),
                    pet_id: None,
                    artifact_sha256: None,
                    error: Some(e),
                    pet_dir: None,
                    artifact_path: None,
                }
            }
        },
    }
}

} // verus!
