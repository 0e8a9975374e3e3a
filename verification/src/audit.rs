//! The generation server's records of its runs: who asked for what, how each
//! run ended, and the history listing.
use vstd::prelude::*;
use crate::server_state::{RunOutcome, TaskPhase, TaskSnapshot};
use crate::text::{append_str, string_of, str_eq};
use crate::types::{copy_opt_string, PetCreationRequest};

verus! {

/// Who made a request.
#[derive(Debug, Clone)]
pub struct ClientInfo {
    pub ip: String,
    pub user_agent: Option<String>,
    pub forwarded_for: Option<String>,
}

/// What was asked for, without the reference image itself.
#[derive(Debug, Clone)]
pub struct RunRequestSummary {
    pub pet_name: String,
    pub description: String,
    pub style_preset: String,
    pub has_reference_image: bool,
}

/// The record of one run (`meta.json`, one line of `history.jsonl`). Times
/// are RFC 3339 text.
#[derive(Debug, Clone)]
pub struct RunRecord {
    pub task_id: String,
    pub status: String,
    pub client: ClientInfo,
    pub request: RunRequestSummary,
    pub started_at: String,
    pub finished_at: Option<String>,
    pub pet_id: Option<String>,
    pub artifact_sha256: Option<String>,
    pub error: Option<String>,
    pub run_dir: String,
    pub work_dir: Option<String>,
    pub pet_dir: Option<String>,
    pub artifact_path: Option<String>,
    pub reference_path: Option<String>,
}

/// The request has a non-empty reference image.
pub open spec fn has_reference(request: PetCreationRequest) -> bool {
    request.reference_image matches Some(r) && r@.len() > 0
}

/// The summary of a request kept with its run.
pub fn summarize_request(request: &PetCreationRequest) -> (r: RunRequestSummary)
    ensures
        r.pet_name == request.pet_name,
        r.description == request.description,
        r.style_preset == request.style_preset,
        r.has_reference_image == has_reference(*request),
{
    let has_reference_image = match &request.reference_image {
        Some(r) => !r.as_str().is_empty(),
        None => false,
    };
    RunRequestSummary {
        pet_name: request.pet_name.clone(),
        description: request.description.clone(),
        style_preset: request.style_preset.clone(),
        has_reference_image,
    }
}

/// The record of a run that has just started.
pub fn new_run_record(
    task_id: String,
    client: ClientInfo,
    request: RunRequestSummary,
    started_at: String,
    run_dir: String,
    work_dir: String,
    reference_path: Option<String>,
) -> (r: RunRecord)
    ensures
        r.task_id == task_id,
        r.status@ == "running"@,
        r.client == client,
        r.request == request,
        r.started_at == started_at,
        r.finished_at is None && r.pet_id is None && r.artifact_sha256 is None && r.error is None,
        r.run_dir == run_dir,
        r.work_dir == Some(work_dir),
        r.pet_dir is None && r.artifact_path is None,
        r.reference_path == reference_path,
{
    RunRecord {
        task_id,
        status: string_of("running"),
        client,
        request,
        started_at,
        finished_at: None,
        pet_id: None,
        artifact_sha256: None,
        error: None,
        run_dir,
        work_dir: Some(work_dir),
        pet_dir: None,
        artifact_path: None,
        reference_path,
    }
}

/// The record of a run once it has ended.
pub fn finalize_record(record: RunRecord, outcome: RunOutcome, finished_at: String) -> (r: RunRecord)
    ensures
        r.status == outcome.status,
        r.finished_at == Some(finished_at),
        r.pet_id == outcome.pet_id,
        r.artifact_sha256 == outcome.artifact_sha256,
        r.error == outcome.error,
        r.pet_dir == outcome.pet_dir,
        r.artifact_path == outcome.artifact_path,
        r.task_id == record.task_id && r.client == record.client && r.request == record.request
            && r.started_at == record.started_at && r.run_dir == record.run_dir && r.work_dir
            == record.work_dir && r.reference_path == record.reference_path,
{
    let mut r = record;
    r.status = outcome.status;
    r.finished_at = Some(finished_at);
    r.pet_id = outcome.pet_id;
    r.artifact_sha256 = outcome.artifact_sha256;
    r.error = outcome.error;
    r.pet_dir = outcome.pet_dir;
    r.artifact_path = outcome.artifact_path;
    r
}

/// The log level of a run's final line.
pub open spec fn final_level(status: Seq<char>) -> Seq<char> {
    if status == "succeeded"@ {
        "info"@
    } else if status == "cancelled"@ {
        "warn"@
    } else {
        "error"@
    }
}

/// `value`, or `-` when there is none.
pub open spec fn or_dash(value: Option<String>) -> Seq<char> {
    match value {
        Some(v) => v@,
        None => "-"@,
    }
}

/// The final log line of a run: its level and text.
pub fn final_log_line(record: &RunRecord) -> (r: (String, String))
    ensures
        r.0@ == final_level(record.status@),
        r.1@ == "FINAL status="@ + record.status@ + " pet_id="@ + or_dash(record.pet_id) + " error="@
            + or_dash(record.error),
{
    let level = if str_eq(record.status.as_str(), "succeeded") {
        string_of("info")
    } else if str_eq(record.status.as_str(), "cancelled") {
        string_of("warn")
    } else {
        string_of("error")
    };
    let mut msg = string_of("FINAL status=");
    append_str(&mut msg, record.status.as_str());
    append_str(&mut msg, " pet_id=");
    match &record.pet_id {
        Some(p) => append_str(&mut msg, p.as_str()),
        None => append_str(&mut msg, "-"),
    }
    append_str(&mut msg, " error=");
    match &record.error {
        Some(e) => append_str(&mut msg, e.as_str()),
        None => append_str(&mut msg, "-"),
    }
    (level, msg)
}

/// The first `limit` readable records of the history, newest first.
pub open spec fn newest_first(lines: Seq<Option<RunRecord>>, limit: nat) -> Seq<RunRecord>
    decreases lines.len(),
{
    if lines.len() == 0 || limit == 0 {
        Seq::empty()
    } else {
        match lines.last() {
            Some(rec) => seq![rec] + newest_first(lines.drop_last(), (limit - 1) as nat),
            None => newest_first(lines.drop_last(), limit),
        }
    }
}

/// The history listing: the records of `history.jsonl`, one per line in the
/// order written (nothing for a blank or unreadable line), newest first, at
/// most `limit` of them.
pub fn select_history(lines: Vec<Option<RunRecord>>, limit: usize) -> (r: Vec<RunRecord>)
    ensures
        r@ == newest_first(lines@, limit as nat),
{
    let mut items: Vec<RunRecord> = Vec::new();
    let mut rest = lines;
    let ghost all = rest@;
    if limit == 0 {
        return items;
    }
    while rest.len() > 0
        invariant
            all == lines@,
            limit > 0,
            items@.len() < limit,
            newest_first(all, limit as nat) == items@ + newest_first(
                rest@,
                (limit - items@.len()) as nat,
            ),
        decreases rest@.len(),
    {
        let ghost before = rest@;
        let line = rest.pop().unwrap();
        proof {
            assert(rest@ == before.drop_last());
        }
        match line {
            Some(rec) => {
                let ghost pre = items@;
                items.push(rec);
                proof {
                    assert(items@ + newest_first(rest@, (limit - items@.len()) as nat) =~= pre + (
                    seq![rec] + newest_first(rest@, (limit - pre.len() - 1) as nat)));
                }
                if items.len() >= limit {
                    proof {
                        assert(newest_first(rest@, 0) == Seq::<RunRecord>::empty());
                        assert(items@ + Seq::<RunRecord>::empty() =~= items@);
                    }
                    return items;
                }
            },
            None => {},
        }
    }
    proof {
        assert(items@ + Seq::<RunRecord>::empty() =~= items@);
    }
    items
}

/// The phase of a recorded run, from its status.
pub open spec fn phase_of_status(status: Seq<char>) -> TaskPhase {
    if status == "succeeded"@ {
        TaskPhase::Succeeded
    } else if status == "cancelled"@ {
        TaskPhase::Cancelled
    } else if status == "failed"@ {
        TaskPhase::Failed
    } else if status == "awaiting_confirmation"@ {
        TaskPhase::AwaitingConfirmation
    } else {
        TaskPhase::Running
    }
}

/// What a client sees of a past run that is no longer in memory.
pub fn task_from_record(record: RunRecord) -> (r: TaskSnapshot)
    ensures
        r.task_id == record.task_id,
        r.pet_name == record.request.pet_name,
        r.phase == phase_of_status(record.status@),
        r.started_at == record.started_at,
        r.progress is None,
        r.logs@.len() == 0,
        r.base_image_b64 is None,
        r.pet_id == record.pet_id,
        r.artifact_sha256 == record.artifact_sha256,
        r.error == record.error,
        r.client_ip == Some(record.client.ip),
{
    let status = record.status.as_str();
    let phase = if str_eq(status, "succeeded") {
        TaskPhase::Succeeded
    } else if str_eq(status, "cancelled") {
        TaskPhase::Cancelled
    } else if str_eq(status, "failed") {
        TaskPhase::Failed
    } else if str_eq(status, "awaiting_confirmation") {
        TaskPhase::AwaitingConfirmation
    } else {
        TaskPhase::Running
    };
    TaskSnapshot {
        task_id: record.task_id,
        pet_name: record.request.pet_name,
        phase,
        started_at: record.started_at,
        progress: None,
        logs: Vec::new(),
        base_image_b64: None,
        pet_id: record.pet_id,
        artifact_sha256: record.artifact_sha256,
        error: record.error,
        client_ip: Some(record.client.ip),
    }
}

} // verus!
