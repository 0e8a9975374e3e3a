use aipet::ai_config::{AiApiConfig, ProviderCache};
use aipet::audit::{
    final_log_line, finalize_record, new_run_record, select_history, summarize_request,
    task_from_record, ClientInfo, RunRecord,
};
use aipet::server_api::{
    artifact_source, base_image_reply, check_create_request, check_server_ai_config, client_info,
    default_history_limit, history_limit, ArtifactSource,
};
use aipet::server_state::{
    base_confirmation, cancel_task, check_can_start, confirm_base, confirm_timed_out,
    finish_task, new_task_snapshot, push_log, record_base_ready, record_progress, status_of,
    ActiveTask, PipelineResult, ServerState, StartError, TaskPhase,
};
use aipet::types::{PetCreationProgress, PetCreationRequest};

fn task(id: &str, phase: TaskPhase) -> ActiveTask {
    let mut snapshot = new_task_snapshot(id.into(), "Cat".into(), "2024-01-01T00:00:00Z".into(), "10.0.0.2".into());
    snapshot.phase = phase;
    ActiveTask { snapshot, cancelled: false, confirmed: None }
}

fn request(name: &str, description: &str, reference: Option<&str>) -> PetCreationRequest {
    PetCreationRequest {
        pet_name: name.into(),
        description: description.into(),
        reference_image: reference.map(|s| s.to_string()),
        style_preset: "pixel".into(),
    }
}

fn record(id: &str, status: &str) -> RunRecord {
    let client = ClientInfo { ip: "1.2.3.4".into(), user_agent: None, forwarded_for: None };
    let mut r = new_run_record(
        id.into(),
        client,
        summarize_request(&request("Cat", "d", None)),
        "t0".into(),
        "runs/x".into(),
        "runs/x/work".into(),
        None,
    );
    r.status = status.into();
    r
}

#[test]
fn one_task_at_a_time() {
    assert!(check_can_start(&None).is_ok());
    for phase in [TaskPhase::Running, TaskPhase::AwaitingConfirmation] {
        match check_can_start(&Some(task("t1", phase))) {
            Err(StartError::Busy { task_id, pet_name }) => {
                assert_eq!(task_id, "t1");
                assert_eq!(pet_name, "Cat");
            }
            _ => panic!("a running task must block a new one"),
        }
    }
    for phase in [TaskPhase::Succeeded, TaskPhase::Failed, TaskPhase::Cancelled] {
        assert!(check_can_start(&Some(task("t1", phase))).is_ok());
    }
}

#[test]
fn status_follows_the_phase() {
    assert_eq!(status_of(&None).state, ServerState::Idle);
    let s = status_of(&Some(task("t1", TaskPhase::Running)));
    assert_eq!(s.state, ServerState::Busy);
    assert_eq!(s.active_task_id.as_deref(), Some("t1"));
    assert_eq!(s.client_ip.as_deref(), Some("10.0.0.2"));
    assert_eq!(status_of(&Some(task("t1", TaskPhase::AwaitingConfirmation))).state, ServerState::AwaitingConfirmation);
    assert_eq!(status_of(&Some(task("t1", TaskPhase::Failed))).state, ServerState::Idle);
}

#[test]
fn task_log_keeps_the_last_500_lines() {
    let mut t = task("t", TaskPhase::Running);
    for i in 0..505 {
        push_log(&mut t.snapshot, format!("{i}"), "info", &format!("line {i}"));
    }
    assert_eq!(t.snapshot.logs.len(), 500);
    assert_eq!(t.snapshot.logs[0].message, "line 5");
    assert_eq!(t.snapshot.logs[499].message, "line 504");
    assert_eq!(t.snapshot.logs[499].time, "504");
}

#[test]
fn base_image_confirmation_flow() {
    let mut t = task("t", TaskPhase::Running);
    record_base_ready(&mut t, "b64".into(), "now".into());
    assert_eq!(t.snapshot.phase, TaskPhase::AwaitingConfirmation);
    assert_eq!(base_confirmation(&t), None);
    let mut active = Some(t);
    assert_eq!(confirm_base(&mut active, "other", true, "now".into()).unwrap_err(), "任务不存在或已完成");
    confirm_base(&mut active, "t", true, "now".into()).unwrap();
    let t = active.as_ref().unwrap();
    assert_eq!(t.snapshot.phase, TaskPhase::Running);
    assert_eq!(base_confirmation(t), Some(true));
    assert_eq!(t.snapshot.logs.last().unwrap().message, "用户已确认基础形象");
    assert_eq!(
        confirm_base(&mut active, "t", true, "now".into()).unwrap_err(),
        "当前不在等待基础形象确认状态"
    );
}

#[test]
fn rejecting_the_base_image_cancels() {
    let mut active = Some(task("t", TaskPhase::AwaitingConfirmation));
    confirm_base(&mut active, "t", false, "now".into()).unwrap();
    let t = active.unwrap();
    assert!(t.cancelled);
    assert_eq!(t.snapshot.phase, TaskPhase::Cancelled);
    assert_eq!(t.snapshot.logs.last().unwrap().level, "warn");
}

#[test]
fn cancelling_a_task() {
    let mut none: Option<ActiveTask> = None;
    assert_eq!(cancel_task(&mut none, "t", "now".into()).unwrap_err(), "任务不存在或已完成");
    let mut active = Some(task("t", TaskPhase::Running));
    cancel_task(&mut active, "t", "now".into()).unwrap();
    let t = active.unwrap();
    assert!(t.cancelled);
    assert_eq!(t.confirmed, Some(false));
    assert_eq!(t.snapshot.logs.last().unwrap().message, "收到取消请求");
}

#[test]
fn confirmation_times_out() {
    let mut t = task("t", TaskPhase::AwaitingConfirmation);
    assert_eq!(confirm_timed_out(&mut t, "now".into()), "基础形象确认超时");
    assert_eq!(t.snapshot.phase, TaskPhase::Cancelled);
    assert_eq!(t.snapshot.logs.last().unwrap().message, "基础形象确认超时（30分钟）");
}

#[test]
fn progress_is_recorded_and_logged() {
    let mut t = task("t", TaskPhase::Running);
    let p = PetCreationProgress {
        task_id: "t".into(),
        step: 3,
        sub_step: "idle".into(),
        status: "running".into(),
        message: "go".into(),
        error: None,
    };
    record_progress(&mut t, p, "now".into());
    assert_eq!(t.snapshot.progress.as_ref().unwrap().step, 3);
    assert_eq!(t.snapshot.logs.last().unwrap().message, "progress step=3 sub=idle status=running msg=go");
}

#[test]
fn finished_runs_are_classified() {
    let mut t = task("t", TaskPhase::Running);
    let ok = finish_task(
        &mut t,
        Ok(PipelineResult {
            pet_id: "cat".into(),
            pet_dir: "pets/cat".into(),
            zip_path: Some("a.zip".into()),
            zip_sha256: Some("ff".into()),
        }),
        "now".into(),
    );
    assert_eq!(ok.status, "succeeded");
    assert_eq!(t.snapshot.phase, TaskPhase::Succeeded);
    assert_eq!(t.snapshot.logs.last().unwrap().message, "任务完成 pet_id=cat zip=a.zip");
    let mut t = task("t", TaskPhase::Running);
    let c = finish_task(&mut t, Err("x cancelled".into()), "now".into());
    assert_eq!(c.status, "cancelled");
    assert_eq!(c.error.as_deref(), Some("用户取消"));
    let mut t = task("t", TaskPhase::Running);
    let f = finish_task(&mut t, Err("boom".into()), "now".into());
    assert_eq!(f.status, "failed");
    assert_eq!(t.snapshot.error.as_deref(), Some("boom"));
    let mut t = task("t", TaskPhase::Running);
    t.cancelled = true;
    assert_eq!(finish_task(&mut t, Err("boom".into()), "now".into()).status, "cancelled");
}

#[test]
fn records_of_runs() {
    let r = record("t", "running");
    assert_eq!(r.status, "running");
    assert!(!r.request.has_reference_image);
    assert!(summarize_request(&request("a", "", Some("xx"))).has_reference_image);
    assert!(!summarize_request(&request("a", "", Some(""))).has_reference_image);
    let mut t = task("t", TaskPhase::Running);
    let out = finish_task(&mut t, Err("boom".into()), "now".into());
    let done = finalize_record(r, out, "t1".into());
    assert_eq!(done.status, "failed");
    assert_eq!(done.finished_at.as_deref(), Some("t1"));
    let (level, line) = final_log_line(&done);
    assert_eq!(level, "error");
    assert_eq!(line, "FINAL status=failed pet_id=- error=boom");
}

#[test]
fn history_is_newest_first() {
    let lines = vec![Some(record("a", "failed")), None, Some(record("b", "succeeded")), Some(record("c", "cancelled"))];
    let h = select_history(lines, 2);
    let ids: Vec<&str> = h.iter().map(|r| r.task_id.as_str()).collect();
    assert_eq!(ids, vec!["c", "b"]);
    let all = select_history(vec![Some(record("a", "x")), None], 50);
    assert_eq!(all.len(), 1);
    assert!(select_history(vec![Some(record("a", "x"))], 0).is_empty());
}

#[test]
fn past_runs_are_shown_from_their_record() {
    let s = task_from_record(record("a", "succeeded"));
    assert_eq!(s.phase, TaskPhase::Succeeded);
    assert_eq!(s.client_ip.as_deref(), Some("1.2.3.4"));
    assert_eq!(task_from_record(record("a", "awaiting_confirmation")).phase, TaskPhase::AwaitingConfirmation);
    assert_eq!(task_from_record(record("a", "whatever")).phase, TaskPhase::Running);
}

#[test]
fn client_addresses() {
    let c = client_info("9.9.9.9".into(), Some(" 1.1.1.1 , 2.2.2.2"), Some("curl".into()));
    assert_eq!(c.ip, "1.1.1.1");
    assert_eq!(c.forwarded_for.as_deref(), Some("1.1.1.1"));
    assert_eq!(c.user_agent.as_deref(), Some("curl"));
    let c = client_info("9.9.9.9".into(), Some(" , 2.2.2.2"), None);
    assert_eq!(c.ip, "9.9.9.9");
    assert!(c.forwarded_for.is_none());
    assert_eq!(client_info("9.9.9.9".into(), None, None).ip, "9.9.9.9");
}

#[test]
fn creation_requests_are_checked() {
    let e = check_create_request(&request("  ", "d", None), &None).unwrap_err();
    assert_eq!((e.status, e.error.as_str()), (400, "宠物名称不能为空"));
    let e = check_create_request(&request("Cat", " ", Some("")), &None).unwrap_err();
    assert_eq!((e.status, e.error.as_str()), (400, "请提供描述或参考图"));
    assert!(check_create_request(&request("Cat", " ", Some("abc")), &None).is_ok());
    let busy = Some(task("t9", TaskPhase::AwaitingConfirmation));
    let e = check_create_request(&request("Cat", "d", None), &busy).unwrap_err();
    assert_eq!((e.status, e.error.as_str()), (409, "服务端正在生成中"));
    assert_eq!(e.busy_task, Some(("t9".to_string(), "Cat".to_string())));
    assert!(check_create_request(&request("Cat", "d", None), &Some(task("t9", TaskPhase::Failed))).is_ok());
}

#[test]
fn history_limits() {
    assert_eq!(default_history_limit(), 50);
    assert_eq!(history_limit(0), 1);
    assert_eq!(history_limit(75), 75);
    assert_eq!(history_limit(1000), 200);
}

#[test]
fn base_image_endpoint() {
    assert_eq!(base_image_reply(None).unwrap_err(), "任务不存在");
    let mut t = task("t", TaskPhase::Running);
    assert_eq!(base_image_reply(Some(t.snapshot.clone())).unwrap_err(), "基础形象尚未就绪");
    t.snapshot.base_image_b64 = Some("b64".into());
    assert_eq!(base_image_reply(Some(t.snapshot)).unwrap(), "b64");
}

#[test]
fn artifact_download_source() {
    let running = Some(task("t", TaskPhase::Running));
    assert_eq!(artifact_source(&running, "t", true, true, true).unwrap_err(), "任务尚未成功完成");
    let done = Some(task("t", TaskPhase::Succeeded));
    assert_eq!(artifact_source(&done, "t", true, true, true), Ok(ArtifactSource::CurrentTask));
    assert_eq!(artifact_source(&done, "t", false, true, true), Ok(ArtifactSource::RunDirectory));
    assert_eq!(artifact_source(&done, "other", true, false, true), Ok(ArtifactSource::Mirror));
    assert_eq!(artifact_source(&None, "x", false, false, false).unwrap_err(), "任务不存在或产物不可用");
}

#[test]
fn server_needs_an_api_key() {
    let c = AiApiConfig::default();
    assert_eq!(check_server_ai_config(c).err(), Some("AI API Key 未配置".to_string()));
    let c = AiApiConfig {
        provider: "openai".into(),
        api_key: "k".into(),
        base_url: "u".into(),
        model: "m".into(),
        provider_cache: ProviderCache::new(),
    };
    let ok = check_server_ai_config(c).unwrap();
    assert!(ok.provider_cache.contains_key("openai"));
}
