//! Creating pets on a remote generation server: the server address setting,
//! reading the server's replies, and following a remote task by polling its
//! snapshots.
use vstd::prelude::*;
use crate::text::{
    append_str, chars_of, contains_seq, decimal, is_unicode_whitespace, join_message, push_decimal,
    starts_with, string_from_chars, string_of, str_eq, trim_back, trim_both, trim_vec, TrimClass,
    contains_vec,
};
use crate::types::PetCreationProgress;

verus! {

/// Where pets are generated.
#[derive(Debug, Clone, Copy, PartialEq, Eq, Structural)]
pub enum CreationMode {
    Local,
    Remote,
}

impl Default for CreationMode {
    fn default() -> (r: Self)
        ensures
            r == CreationMode::Local,
    {
        CreationMode::Local
    }
}

/// The remote generation server setting (`remote-server.json`).
#[derive(Debug, Clone)]
pub struct RemoteServerConfig {
    pub mode: CreationMode,
    pub base_url: String,
}

/// The server address used when none is configured.
pub fn default_base_url() -> (r: String)
    ensures
        r@ == "http://127.0.0.1:8787"@,
{
    string_of("http://127.0.0.1:8787")
}

impl Default for RemoteServerConfig {
    fn default() -> (r: Self)
        ensures
            r.mode == CreationMode::Local,
            r.base_url@ == "http://127.0.0.1:8787"@,
    {
        RemoteServerConfig { mode: CreationMode::Local, base_url: default_base_url() }
    }
}

/// A server address without surrounding whitespace and trailing slashes.
pub open spec fn normalized_url(url: Seq<char>) -> Seq<char> {
    trim_back(trim_both(url, TrimClass::Whitespace), TrimClass::Exactly('/'))
}

/// Trim whitespace, then trailing slashes, from a server address.
pub fn normalize_base_url(url: &str) -> (r: String)
    ensures
        r@ == normalized_url(url@),
{
    let v = chars_of(url);
    let t = trim_vec(&v, TrimClass::Whitespace, true, true);
    let u = trim_vec(&t, TrimClass::Exactly('/'), false, true);
    string_from_chars(u.as_slice())
}

/// Normalizing an address again changes nothing, unless removing the
/// trailing slashes left whitespace at its end.
pub proof fn normalize_base_url_stable(url: Seq<char>)
    requires
        normalized_url(url).len() == 0 || !is_unicode_whitespace(normalized_url(url).last()),
    ensures
        normalized_url(normalized_url(url)) == normalized_url(url),
{
    let n = normalized_url(url);
    let f = crate::text::trim_front(url, TrimClass::Whitespace);
    let t = trim_both(url, TrimClass::Whitespace);
    crate::text::lemma_trim_front_clean(url, TrimClass::Whitespace);
    crate::text::lemma_trim_back_prefix(f, TrimClass::Whitespace);
    crate::text::lemma_trim_back_prefix(t, TrimClass::Exactly('/'));
    if n.len() > 0 {
        assert(n[0] == t[0]);
        assert(t[0] == f[0]);
    }
    assert(crate::text::trim_front(n, TrimClass::Whitespace) == n);
    assert(trim_back(n, TrimClass::Whitespace) == n);
    assert(trim_back(n, TrimClass::Exactly('/')) == n);
}

/// The message for an empty server address.
pub open spec fn empty_url_message() -> Seq<char> {
    "服务地址不能为空"@
}

/// The message for an address that is not HTTP.
pub open spec fn scheme_message() -> Seq<char> {
    "服务地址必须以 http:// 或 https:// 开头"@
}

/// Check a server setting before it is saved: the address is normalized, may
/// not be empty, and must start with `http://` or `https://`. The setting to
/// save is returned.
pub fn validate_remote_config(config: RemoteServerConfig) -> (r: Result<RemoteServerConfig, String>)
    ensures
        ({
            let url = normalized_url(config.base_url@);
            if url.len() == 0 {
                r matches Err(e) && e@ == empty_url_message()
            } else if !(starts_with(url, "http://"@) || starts_with(url, "https://"@)) {
                r matches Err(e) && e@ == scheme_message()
            } else {
                r matches Ok(c) && c.mode == config.mode && c.base_url@ == url
            }
        }),
{
    let url = normalize_base_url(config.base_url.as_str());
    let v = chars_of(url.as_str());
    if v.len() == 0 {
        return Err(string_of("服务地址不能为空"));
    }
    let http = chars_of("http://");
    let https = chars_of("https://");
    if !(crate::text::starts_with_vec(&v, &http) || crate::text::starts_with_vec(&v, &https)) {
        return Err(string_of("服务地址必须以 http:// 或 https:// 开头"));
    }
    Ok(RemoteServerConfig { mode: config.mode, base_url: url })
}

/// What the desktop shows about the remote server.
#[derive(Debug, Clone)]
pub struct RemoteServerStatus {
    pub online: bool,
    pub state: String,
    pub active_task_id: Option<String>,
    pub pet_name: Option<String>,
    pub phase: Option<String>,
    pub error: Option<String>,
}

/// The server's answer to `GET /status`.
#[derive(Debug, Clone)]
pub struct StatusDto {
    pub state: String,
    pub active_task_id: Option<String>,
    pub pet_name: Option<String>,
    pub phase: Option<String>,
}

/// How the status request went.
pub enum StatusReply {
    /// The request failed; the error text.
    Unreachable(String),
    /// The server answered with an unsuccessful HTTP status; its text.
    HttpError(String),
    /// The server answered.
    Answered(StatusDto),
}

/// The status to show for a reply.
pub fn remote_status(reply: StatusReply) -> (r: RemoteServerStatus)
    ensures
        match reply {
            StatusReply::Unreachable(e) => !r.online && r.state@ == "offline"@ && r.error == Some(e)
                && r.active_task_id is None && r.pet_name is None && r.phase is None,
            StatusReply::HttpError(s) => !r.online && r.state@ == "offline"@ && (r.error matches Some(
                m,
            ) && m@ == "status HTTP "@ + s@) && r.active_task_id is None && r.pet_name is None
                && r.phase is None,
            StatusReply::Answered(d) => r.online && r.state == d.state && r.active_task_id
                == d.active_task_id && r.pet_name == d.pet_name && r.phase == d.phase
                && r.error is None,
        },
{
    match reply {
        StatusReply::Unreachable(e) => RemoteServerStatus {
            online: false,
            state: string_of("offline"),
            active_task_id: None,
            pet_name: None,
            phase: None,
            error: Some(e),
        },
        StatusReply::HttpError(s) => RemoteServerStatus {
            online: false,
            state: string_of("offline"),
            active_task_id: None,
            pet_name: None,
            phase: None,
            error: Some(join_message("status HTTP ", s.as_str())),
        },
        StatusReply::Answered(d) => RemoteServerStatus {
            online: true,
            state: d.state,
            active_task_id: d.active_task_id,
            pet_name: d.pet_name,
            phase: d.phase,
            error: None,
        },
    }
}

/// An HTTP status code in the success range.
pub open spec fn http_success(code: u16) -> bool {
    200 <= code <= 299
}

/// `head` + `status` + ": " + `body`.
pub open spec fn reply_message(head: Seq<char>, status: Seq<char>, body: Seq<char>) -> Seq<char> {
    head + status + ": "@ + body
}

fn reply_error(head: &str, status: &str, body: &str) -> (r: String)
    ensures
        r@ == reply_message(head@, status@, body@),
{
    let mut m = string_of(head);
    append_str(&mut m, status);
    append_str(&mut m, ": ");
    append_str(&mut m, body);
    m
}

/// The reply to creating a remote task: 409 means the server is busy with
/// another task; any other unsuccessful status fails the creation.
pub fn check_create_reply(code: u16, status: &str, body: &str) -> (r: Result<(), String>)
    ensures
        code == 409 ==> (r matches Err(e) && e@ == "服务端忙碌: "@ + body@),
        code != 409 && !http_success(code) ==> (r matches Err(e) && e@ == reply_message(
            "创建远程任务失败 "@,
            status@,
            body@,
        )),
        http_success(code) ==> r is Ok,
{
    if code == 409 {
        return Err(join_message("服务端忙碌: ", body));
    }
    if !(200 <= code && code <= 299) {
        return Err(reply_error("创建远程任务失败 ", status, body));
    }
    Ok(())
}

/// The reply to confirming or rejecting the base image.
pub fn check_confirm_reply(code: u16, status: &str, body: &str) -> (r: Result<(), String>)
    ensures
        http_success(code) ==> r is Ok,
        !http_success(code) ==> (r matches Err(e) && e@ == reply_message("确认失败 "@, status@, body@)),
{
    if !(200 <= code && code <= 299) {
        return Err(reply_error("确认失败 ", status, body));
    }
    Ok(())
}

/// The reply to downloading the finished package.
pub fn check_download_reply(code: u16, status: &str, body: &str) -> (r: Result<(), String>)
    ensures
        http_success(code) ==> r is Ok,
        !http_success(code) ==> (r matches Err(e) && e@ == reply_message(
            "下载产物失败 "@,
            status@,
            body@,
        )),
{
    if !(200 <= code && code <= 299) {
        return Err(reply_error("下载产物失败 ", status, body));
    }
    Ok(())
}

/// The reply to polling a task: `Ok(true)` to poll again (404: the server
/// does not know the task yet), `Ok(false)` for a snapshot to read.
pub fn check_poll_reply(code: u16, status: &str, body: &str) -> (r: Result<bool, String>)
    ensures
        code == 404 ==> r == Ok::<bool, String>(true),
        code != 404 && http_success(code) ==> r == Ok::<bool, String>(false),
        code != 404 && !http_success(code) ==> (r matches Err(e) && e@ == reply_message(
            "查询任务失败 "@,
            status@,
            body@,
        )),
{
    if code == 404 {
        return Ok(true);
    }
    if !(200 <= code && code <= 299) {
        return Err(reply_error("查询任务失败 ", status, body));
    }
    Ok(false)
}

/// The checksum a downloaded package is checked against: the one the task
/// snapshot gave, else the one in the download's `x-aipet-sha256` header.
pub fn artifact_checksum(from_snapshot: Option<String>, from_header: Option<String>) -> (r: Option<
    String,
>)
    ensures
        r == (if from_snapshot is Some {
            from_snapshot
        } else {
            from_header
        }),
{
    match from_snapshot {
        Some(s) => Some(s),
        None => from_header,
    }
}

/// A finished remote task counts as cancelled when it was cancelled here,
/// or its error says the user cancelled.
pub open spec fn is_cancellation(cancelled: bool, error: Seq<char>) -> bool {
    cancelled || contains_seq(error, "用户取消"@) || contains_seq(error, "cancelled"@)
}

/// Whether a failed remote task is reported as cancelled.
pub fn remote_error_is_cancellation(cancelled: bool, error: &str) -> (r: bool)
    ensures
        r == is_cancellation(cancelled, error@),
{
    if cancelled {
        return true;
    }
    let e = chars_of(error);
    contains_vec(&e, &chars_of("用户取消")) || contains_vec(&e, &chars_of("cancelled"))
}

/// A snapshot of a remote task, as polled.
#[derive(Debug, Clone)]
pub struct RemoteSnapshot {
    pub phase: String,
    pub progress: Option<PetCreationProgress>,
    pub log_count: usize,
    pub base_image_b64: Option<String>,
    pub artifact_sha256: Option<String>,
    pub error: Option<String>,
}

/// What to do after a snapshot.
#[derive(Debug, Clone)]
pub enum PollOutcome {
    /// Wait and poll again.
    KeepPolling,
    /// The task succeeded: download the package, checked against this checksum.
    Download(Option<String>),
    /// The task failed with this error.
    Failed(String),
    /// The task was cancelled.
    Cancelled,
}

/// What one snapshot asks the desktop to report, and what comes next.
#[derive(Debug, Clone)]
pub struct PollStep {
    /// Report the log entries `logs_from..logs_to` of the snapshot.
    pub logs_from: usize,
    pub logs_to: usize,
    /// Report this progress.
    pub progress: Option<PetCreationProgress>,
    /// Report the base image of the snapshot.
    pub emit_base: bool,
    pub outcome: PollOutcome,
}

/// What has been reported of a remote task so far.
#[derive(Debug, Clone)]
pub struct PollTracker {
    pub last_log_len: usize,
    pub base_emitted: bool,
    pub last_progress_key: String,
}

/// The text that tells progress reports apart: step, sub-step, status and
/// message joined by colons.
pub open spec fn progress_key(p: PetCreationProgress) -> Seq<char> {
    decimal(p.step as nat) + ":"@ + p.sub_step@ + ":"@ + p.status@ + ":"@ + p.message@
}

fn progress_key_exec(p: &PetCreationProgress) -> (r: String)
    ensures
        r@ == progress_key(*p),
{
    let mut k = String::new();
    push_decimal(&mut k, p.step as u64);
    append_str(&mut k, ":");
    append_str(&mut k, p.sub_step.as_str());
    append_str(&mut k, ":");
    append_str(&mut k, p.status.as_str());
    append_str(&mut k, ":");
    append_str(&mut k, p.message.as_str());
    assert(Seq::<char>::empty() + decimal(p.step as nat) =~= decimal(p.step as nat));
    k
}

/// What a failed snapshot reports: its error, or a generic message.
pub open spec fn failure_message(error: Option<String>) -> Seq<char> {
    match error {
        Some(e) => e@,
        None => "远程生成失败"@,
    }
}

/// The log entries a poll reports, `from..to`: those past the ones reported
/// before, up to the snapshot's count. A snapshot with no more entries than
/// were reported gives an empty range.
pub open spec fn poll_log_range(reported: int, count: int) -> (int, int) {
    if count > reported {
        (reported, count)
    } else {
        (reported, reported)
    }
}

/// How many log entries a fresh tracker has reported after polls whose
/// snapshots held these counts.
pub open spec fn logs_reported_after(counts: Seq<usize>) -> int
    decreases counts.len(),
{
    if counts.len() == 0 {
        0
    } else {
        poll_log_range(logs_reported_after(counts.drop_last()), counts.last() as int).1
    }
}

/// The indices of the log entries a fresh tracker reports, in the order it
/// reports them, over polls whose snapshots held these counts.
pub open spec fn reported_log_indices(counts: Seq<usize>) -> Seq<int>
    decreases counts.len(),
{
    if counts.len() == 0 {
        Seq::empty()
    } else {
        let range = poll_log_range(logs_reported_after(counts.drop_last()), counts.last() as int);
        reported_log_indices(counts.drop_last()) + Seq::new(
            (range.1 - range.0) as nat,
            |i: int| range.0 + i,
        )
    }
}

/// Over any run of polls, every remote log entry up to the largest count
/// seen is reported exactly once, and in order: the reported indices are
/// `0, 1, ..` up to that count.
pub proof fn poll_logs_reported_once_in_order(counts: Seq<usize>)
    ensures
        reported_log_indices(counts) == Seq::new(logs_reported_after(counts) as nat, |i: int| i),
        logs_reported_after(counts) >= 0,
        forall|i: int| 0 <= i < counts.len() ==> counts[i] <= logs_reported_after(counts),
        counts.len() == 0 || exists|i: int|
            0 <= i < counts.len() && counts[i] == logs_reported_after(counts),
    decreases counts.len(),
{
    if counts.len() > 0 {
        let prev = counts.drop_last();
        poll_logs_reported_once_in_order(prev);
        let m = logs_reported_after(prev);
        let range = poll_log_range(m, counts.last() as int);
        assert(reported_log_indices(counts) =~= Seq::new(range.1 as nat, |i: int| i));
        assert forall|i: int| 0 <= i < counts.len() implies counts[i] <= logs_reported_after(
            counts,
        ) by {
            if i < prev.len() {
                assert(counts[i] == prev[i]);
            }
        }
        if counts.last() as int > m {
            assert(counts[counts.len() - 1] == logs_reported_after(counts));
        } else if prev.len() > 0 {
            let j = choose|j: int| 0 <= j < prev.len() && prev[j] == m;
            assert(counts[j] == prev[j]);
        } else {
            assert(counts[0] == 0);
        }
    }
}

/// Whether a fresh tracker has reported the base image after polls whose
/// snapshots did or did not carry one.
pub open spec fn base_reported_after(carried: Seq<bool>) -> bool
    decreases carried.len(),
{
    if carried.len() == 0 {
        false
    } else {
        base_reported_after(carried.drop_last()) || carried.last()
    }
}

/// How many times a fresh tracker reports the base image over polls whose
/// snapshots did or did not carry one.
pub open spec fn base_reports(carried: Seq<bool>) -> nat
    decreases carried.len(),
{
    if carried.len() == 0 {
        0
    } else {
        base_reports(carried.drop_last()) + if !base_reported_after(carried.drop_last())
            && carried.last() {
            1nat
        } else {
            0nat
        }
    }
}

/// Over any run of polls the base image is reported at most once: once if
/// some snapshot carried it, never otherwise.
pub proof fn base_image_reported_once(carried: Seq<bool>)
    ensures
        base_reports(carried) == (if base_reported_after(carried) {
            1nat
        } else {
            0nat
        }),
        base_reported_after(carried) == exists|i: int| 0 <= i < carried.len() && carried[i],
    decreases carried.len(),
{
    if carried.len() > 0 {
        let prev = carried.drop_last();
        base_image_reported_once(prev);
        if base_reported_after(prev) {
            let j = choose|j: int| 0 <= j < prev.len() && prev[j];
            assert(carried[j] == prev[j]);
        }
        if exists|i: int| 0 <= i < carried.len() && carried[i] {
            let j = choose|j: int| 0 <= j < carried.len() && carried[j];
            if j < prev.len() {
                assert(prev[j] == carried[j]);
            }
        }
    }
}

impl PollTracker {
    /// Nothing reported yet.
    pub fn new() -> (r: Self)
        ensures
            r.last_log_len == 0,
            !r.base_emitted,
            r.last_progress_key@ == Seq::<char>::empty(),
    {
        PollTracker { last_log_len: 0, base_emitted: false, last_progress_key: String::new() }
    }

    /// Take in a snapshot: new log entries are reported once each and in
    /// order, a progress report only when it differs from the last one, the
    /// base image once, and the task's phase decides what comes next.
    pub fn observe(&mut self, snap: RemoteSnapshot, local_task_id: &str) -> (r: PollStep)
        ensures
            (r.logs_from as int, r.logs_to as int) == poll_log_range(
                old(self).last_log_len as int,
                snap.log_count as int,
            ),
            final(self).last_log_len == r.logs_to,
            match snap.progress {
                Some(p) => if progress_key(p) != old(self).last_progress_key@ {
                    (r.progress matches Some(q) && q.task_id@ == local_task_id@ && q.step == p.step
                        && q.sub_step == p.sub_step && q.status == p.status && q.message
                        == p.message && q.error == p.error)
                        && final(self).last_progress_key@ == progress_key(p)
                } else {
                    r.progress is None && final(self).last_progress_key@ == old(
                        self,
                    ).last_progress_key@
                },
                None => r.progress is None && final(self).last_progress_key@ == old(
                    self,
                ).last_progress_key@,
            },
            r.emit_base == (!old(self).base_emitted && (snap.base_image_b64 matches Some(b)
                && b@.len() > 0)),
            final(self).base_emitted == (old(self).base_emitted || r.emit_base),
            snap.phase@ == "succeeded"@ ==> r.outcome == PollOutcome::Download(snap.artifact_sha256),
            snap.phase@ == "failed"@ ==> (r.outcome matches PollOutcome::Failed(e) && e@
                == failure_message(snap.error)),
            snap.phase@ == "cancelled"@ ==> r.outcome is Cancelled,
            snap.phase@ != "succeeded"@ && snap.phase@ != "failed"@ && snap.phase@
                != "cancelled"@ ==> r.outcome is KeepPolling,
    {
        let (logs_from, logs_to) = if snap.log_count > self.last_log_len {
            let from = self.last_log_len;
            self.last_log_len = snap.log_count;
            (from, snap.log_count)
        } else {
            (self.last_log_len, self.last_log_len)
        };
        let progress = match snap.progress {
            Some(p) => {
                let key = progress_key_exec(&p);
                if !str_eq(key.as_str(), self.last_progress_key.as_str()) {
                    self.last_progress_key = key;
                    let mut q = p;
                    q.task_id = string_of(local_task_id);
                    Some(q)
                } else {
                    None
                }
            },
            None => None,
        };
        let mut emit_base = false;
        if !self.base_emitted {
            match &snap.base_image_b64 {
                Some(b) => {
                    if !b.as_str().is_empty() {
                        emit_base = true;
                        self.base_emitted = true;
                    }
                },
                None => {},
            }
        }
        proof {
            reveal_strlit("succeeded");
            reveal_strlit("failed");
            reveal_strlit("cancelled");
            assert("failed"@.len() != "succeeded"@.len());
            assert("cancelled"@[0] != "succeeded"@[0]);
            assert("cancelled"@.len() != "failed"@.len());
        }
        let outcome = if str_eq(snap.phase.as_str(), "succeeded") {
            PollOutcome::Download(snap.artifact_sha256)
        } else if str_eq(snap.phase.as_str(), "failed") {
            match snap.error {
                Some(e) => PollOutcome::Failed(e),
                None => PollOutcome::Failed(string_of("远程生成失败")),
            }
        } else if str_eq(snap.phase.as_str(), "cancelled") {
            PollOutcome::Cancelled
        } else {
            PollOutcome::KeepPolling
        };
        PollStep { logs_from, logs_to, progress, emit_base, outcome }
    }
}

} // verus!
