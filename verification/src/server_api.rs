//! What the generation server's HTTP endpoints decide: who is asking, whether
//! a creation request is accepted, how many history records to list, and
//! where a finished package is served from.
use vstd::prelude::*;
use crate::ai_config::{normalized, AiApiConfig};
use crate::audit::ClientInfo;
use crate::server_state::{
    accepts_new_task, check_can_start, last_phase, ActiveTask, StartError, TaskPhase, TaskSnapshot,
};
use crate::text::{chars_of, string_from_chars, string_of, trim_both, trim_vec, TrimClass, str_eq};
use crate::types::PetCreationRequest;

verus! {

/// The text before the first comma (all of it when there is none).
pub open spec fn first_segment(s: Seq<char>) -> Seq<char>
    decreases s.len(),
{
    if s.len() == 0 {
        s
    } else if s[0] == ',' {
        Seq::empty()
    } else {
        seq![s[0]] + first_segment(s.drop_first())
    }
}

fn first_segment_exec(v: &Vec<char>) -> (r: Vec<char>)
    ensures
        r@ == first_segment(v@),
{
    let n = v.len();
    let mut out: Vec<char> = Vec::new();
    let mut i: usize = 0;
    assert(v@.subrange(0, n as int) =~= v@);
    assert(out@ + first_segment(v@) =~= first_segment(v@));
    while i < n && v[i] != ','
        invariant
            n == v@.len(),
            i <= n,
            out@ == v@.subrange(0, i as int),
            first_segment(v@) == out@ + first_segment(v@.subrange(i as int, n as int)),
        decreases n - i,
    {
        let ghost rest = v@.subrange(i as int, n as int);
        assert(rest.drop_first() =~= v@.subrange(i + 1, n as int));
        assert(out@ + (seq![v@[i as int]] + first_segment(rest.drop_first())) =~= out@.push(v@[i as int])
            + first_segment(v@.subrange(i + 1, n as int)));
        out.push(v[i]);
        i = i + 1;
    }
    assert(out@ + Seq::<char>::empty() =~= out@);
    out
}

/// The client address given by a proxy in `X-Forwarded-For`: its first entry,
/// trimmed, unless that is empty.
pub open spec fn forwarded_client(header: Option<Seq<char>>) -> Option<Seq<char>> {
    match header {
        Some(h) => {
            let f = trim_both(first_segment(h), TrimClass::Whitespace);
            if f.len() > 0 {
                Some(f)
            } else {
                None
            }
        },
        None => None,
    }
}

/// Who is asking: the forwarded address when a proxy gives one, else the
/// peer's address.
pub fn client_info(peer_ip: String, forwarded_header: Option<&str>, user_agent: Option<String>) -> (r:
    ClientInfo)
    ensures
        ({
            let fwd = forwarded_client(
                match forwarded_header {
                    Some(h) => Some(h@),
                    None => None,
                },
            );
            &&& fwd is Some ==> (r.forwarded_for matches Some(f) && f@ == fwd.unwrap() && r.ip@ == f@)
            &&& fwd is None ==> r.forwarded_for is None && r.ip == peer_ip
            &&& r.user_agent == user_agent
        }),
{
    let forwarded: Option<String> = match forwarded_header {
        Some(h) => {
            let seg = first_segment_exec(&chars_of(h));
            let t = trim_vec(&seg, TrimClass::Whitespace, true, true);
            if t.len() > 0 {
                Some(string_from_chars(t.as_slice()))
            } else {
                None
            }
        },
        None => None,
    };
    let ip = match &forwarded {
        Some(f) => f.clone(),
        None => peer_ip,
    };
    ClientInfo { ip, user_agent, forwarded_for: forwarded }
}

/// The text is empty or only whitespace.
pub open spec fn blank(s: Seq<char>) -> bool {
    trim_both(s, TrimClass::Whitespace).len() == 0
}

fn is_blank(s: &str) -> (r: bool)
    ensures
        r == blank(s@),
{
    let t = trim_vec(&chars_of(s), TrimClass::Whitespace, true, true);
    t.len() == 0
}

/// Why a creation request is refused: the HTTP status, the error text, and
/// for a busy server the task in progress.
#[derive(Debug, Clone)]
pub struct CreateRefusal {
    pub status: u16,
    pub error: String,
    pub busy_task: Option<(String, String)>,
}

/// The request can be worked on: it has a name, and a description or a
/// reference image.
pub open spec fn request_valid(request: PetCreationRequest) -> bool {
    &&& !blank(request.pet_name@)
    &&& !(blank(request.description@) && !(request.reference_image matches Some(r) && r@.len() > 0))
}

/// Whether `POST /tasks` may start the request now: a request without a pet
/// name, or with neither description nor reference image, is refused with
/// 400; while a task is in progress any other request is refused with 409
/// and the task in progress.
pub fn check_create_request(request: &PetCreationRequest, active: &Option<ActiveTask>) -> (r: Result<
    (),
    CreateRefusal,
>)
    ensures
        blank(request.pet_name@) ==> (r matches Err(e) && e.status == 400 && e.error@
            == "宠物名称不能为空"@ && e.busy_task is None),
        !blank(request.pet_name@) && !request_valid(*request) ==> (r matches Err(e) && e.status == 400
            && e.error@ == "请提供描述或参考图"@ && e.busy_task is None),
        request_valid(*request) && !accepts_new_task(last_phase(*active)) ==> (r matches Err(e)
            && e.status == 409 && e.error@ == "服务端正在生成中"@ && e.busy_task == Some(
            (active.unwrap().snapshot.task_id, active.unwrap().snapshot.pet_name),
        )),
        request_valid(*request) && accepts_new_task(last_phase(*active)) ==> r is Ok,
{
    if is_blank(request.pet_name.as_str()) {
        return Err(
            CreateRefusal { status: 400, error: string_of("宠物名称不能为空"), busy_task: None },
        );
    }
    let no_reference = match &request.reference_image {
        Some(r) => r.as_str().is_empty(),
        None => true,
    };
    if is_blank(request.description.as_str()) && no_reference {
        return Err(
            CreateRefusal { status: 400, error: string_of("请提供描述或参考图"), busy_task: None },
        );
    }
    match check_can_start(active) {
        Ok(()) => Ok(()),
        Err(StartError::Busy { task_id, pet_name }) => Err(
            CreateRefusal {
                status: 409,
                error: string_of("服务端正在生成中"),
                busy_task: Some((task_id, pet_name)),
            },
        ),
        Err(StartError::Config(m)) => Err(CreateRefusal { status: 503, error: m, busy_task: None }),
    }
}

/// The number of history records listed when the query gives none.
pub fn default_history_limit() -> (r: usize)
    ensures
        r == 50,
{
    50
}

/// The number of history records listed for a requested limit: between 1
/// and 200.
pub fn history_limit(requested: usize) -> (r: usize)
    ensures
        r == (if requested < 1 {
            1
        } else if requested > 200 {
            200
        } else {
            requested
        }),
{
    if requested < 1 {
        1
    } else if requested > 200 {
        200
    } else {
        requested
    }
}

/// The base image of a task, or the 404 answer.
pub fn base_image_reply(task: Option<TaskSnapshot>) -> (r: Result<String, String>)
    ensures
        match task {
            None => r matches Err(e) && e@ == "任务不存在"@,
            Some(t) => match t.base_image_b64 {
                Some(b) => r == Ok::<String, String>(b),
                None => r matches Err(e) && e@ == "基础形象尚未就绪"@,
            },
        },
{
    match task {
        None => Err(string_of("任务不存在")),
        Some(t) => match t.base_image_b64 {
            Some(b) => Ok(b),
            None => Err(string_of("基础形象尚未就绪")),
        },
    }
}

/// Where a finished package is served from.
#[derive(Debug, Clone, Copy, PartialEq, Eq, Structural)]
pub enum ArtifactSource {
    /// The zip of the task in memory, with its checksum.
    CurrentTask,
    /// `runs/<taskId>/artifact.zip`.
    RunDirectory,
    /// `artifacts/<taskId>.zip`.
    Mirror,
}

/// Choose the package file for a download: the current task's, once it has
/// succeeded; else the run directory's copy; else the mirror.
pub fn artifact_source(
    active: &Option<ActiveTask>,
    task_id: &str,
    current_zip_exists: bool,
    run_zip_exists: bool,
    mirror_exists: bool,
) -> (r: Result<ArtifactSource, String>)
    ensures
        ({
            let current = active matches Some(t) && t.snapshot.task_id@ == task_id@;
            if current && active.unwrap().snapshot.phase != TaskPhase::Succeeded {
                r matches Err(e) && e@ == "任务尚未成功完成"@
            } else if current && current_zip_exists {
                r == Ok::<ArtifactSource, String>(ArtifactSource::CurrentTask)
            } else if run_zip_exists {
                r == Ok::<ArtifactSource, String>(ArtifactSource::RunDirectory)
            } else if mirror_exists {
                r == Ok::<ArtifactSource, String>(ArtifactSource::Mirror)
            } else {
                r matches Err(e) && e@ == "任务不存在或产物不可用"@
            }
        }),
{
    match active {
        Some(t) => {
            if str_eq(t.snapshot.task_id.as_str(), task_id) {
                if t.snapshot.phase != TaskPhase::Succeeded {
                    return Err(string_of("任务尚未成功完成"));
                }
                if current_zip_exists {
                    return Ok(ArtifactSource::CurrentTask);
                }
            }
        },
        None => {},
    }
    if run_zip_exists {
        return Ok(ArtifactSource::RunDirectory);
    }
    if mirror_exists {
        return Ok(ArtifactSource::Mirror);
    }
    Err(string_of("任务不存在或产物不可用"))
}

/// The AI configuration the server generates with: normalized, and refused
/// when it has no API key.
pub fn check_server_ai_config(config: AiApiConfig) -> (r: Result<AiApiConfig, String>)
    ensures
        normalized(config@).api_key.len() == 0 ==> (r matches Err(e) && e@ == "AI API Key 未配置"@),
        normalized(config@).api_key.len() > 0 ==> (r matches Ok(c) && c@ == normalized(config@)),
{
    let c = config.normalize_cache();
    if c.api_key.as_str().is_empty() {
        return Err(string_of("AI API Key 未配置"));
    }
    Ok(c)
}

} // verus!
