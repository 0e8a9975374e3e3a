use aipet::ai_config::{loaded_ai_config, AiApiConfig, ProviderCache, ProviderSettings};
use aipet::remote::{
    artifact_checksum, check_confirm_reply, check_create_reply, check_download_reply,
    check_poll_reply, default_base_url, normalize_base_url, remote_error_is_cancellation,
    remote_status, validate_remote_config, CreationMode, PollOutcome, PollTracker,
    RemoteServerConfig, RemoteSnapshot, StatusDto, StatusReply,
};
use aipet::state_config::{
    load_or_create_atlas, migrate_legacy_config, sort_pet_list, LegacyStateConfig,
    LegacyStateMapping, PetListItem, StateConfig, TriggerConfig,
};
use aipet::types::{PetAtlas, PetCreationProgress};

fn settings(k: &str, u: &str, m: &str) -> ProviderSettings {
    ProviderSettings { api_key: k.into(), base_url: u.into(), model: m.into() }
}

fn config(provider: &str, key: &str, url: &str, model: &str, cache: &[(&str, ProviderSettings)]) -> AiApiConfig {
    let mut c = ProviderCache::new();
    for (p, s) in cache {
        c.insert(p.to_string(), s.clone());
    }
    AiApiConfig {
        provider: provider.into(),
        api_key: key.into(),
        base_url: url.into(),
        model: model.into(),
        provider_cache: c,
    }
}

#[test]
fn default_state_config() {
    let c = StateConfig::default();
    let states: Vec<&str> = c.mappings.iter().map(|m| m.state.as_str()).collect();
    assert_eq!(states, vec!["jumping", "waiting", "idle", "failed", "waving", "running", "review"]);
    assert!(matches!(c.mappings[1].trigger, TriggerConfig::ComputerIdle { minutes: 5 }));
    assert!(matches!(c.mappings[2].trigger, TriggerConfig::ContinuousFocus { minutes: 60 }));
    match &c.mappings[3].trigger {
        TriggerConfig::HighResource { resource, threshold } => {
            assert_eq!(resource, "cpu");
            assert_eq!(*threshold, 90);
        }
        _ => panic!("expected a resource trigger"),
    }
    match &c.mappings[5].trigger {
        TriggerConfig::ProcessFocus { processes } => {
            assert_eq!(processes, &vec!["cursor.exe", "code.exe", "rider.exe", "unity.exe", "devenv.exe"]);
        }
        _ => panic!("expected a process trigger"),
    }
}

#[test]
fn legacy_config_is_migrated() {
    let legacy = LegacyStateConfig {
        mappings: vec![
            LegacyStateMapping { state: "running".into(), processes: vec!["code.exe".into()], trigger: None },
            LegacyStateMapping { state: "idle".into(), processes: vec![], trigger: None },
            LegacyStateMapping {
                state: "waving".into(),
                processes: vec!["x.exe".into()],
                trigger: Some(TriggerConfig::AudioPlaying),
            },
        ],
    };
    let c = migrate_legacy_config(legacy);
    assert_eq!(c.mappings.len(), 2);
    assert_eq!(c.mappings[0].state, "running");
    match &c.mappings[0].trigger {
        TriggerConfig::ProcessFocus { processes } => assert_eq!(processes, &vec!["code.exe"]),
        _ => panic!("expected a process trigger"),
    }
    assert_eq!(c.mappings[1].state, "waving");
    assert!(matches!(c.mappings[1].trigger, TriggerConfig::AudioPlaying));
}

#[test]
fn empty_legacy_config_becomes_the_default() {
    let legacy = LegacyStateConfig {
        mappings: vec![LegacyStateMapping { state: "idle".into(), processes: vec![], trigger: None }],
    };
    assert_eq!(migrate_legacy_config(legacy).mappings.len(), 7);
}

#[test]
fn pet_list_is_sorted_by_name() {
    let mk = |f: &str, n: &str| PetListItem {
        folder_id: f.into(),
        display_name: n.into(),
        description: String::new(),
        spritesheet_path: String::new(),
    };
    let list = sort_pet_list(vec![mk("3", "Zed"), mk("1", "Bob"), mk("2", "Amy"), mk("4", "Bob")]);
    let ids: Vec<&str> = list.iter().map(|p| p.folder_id.as_str()).collect();
    assert_eq!(ids, vec!["2", "1", "4", "3"]);
}

#[test]
fn missing_atlas_is_created() {
    let l = load_or_create_atlas(None);
    assert!(l.write_default);
    assert_eq!(l.atlas.unwrap().rows.len(), 9);
    let stored = PetAtlas { cell_width: 1, cell_height: 2, rows: vec![] };
    let l = load_or_create_atlas(Some(Ok(stored)));
    assert!(!l.write_default);
    assert_eq!(l.atlas.unwrap().cell_width, 1);
    let l = load_or_create_atlas(Some(Err("parse".into())));
    assert_eq!(l.atlas.unwrap_err(), "parse");
}

#[test]
fn default_ai_config() {
    let c = AiApiConfig::default();
    assert_eq!(c.provider, "dashscope");
    assert_eq!(c.api_key, "");
    assert_eq!(c.base_url, "https://dashscope.aliyuncs.com/api/v1");
    assert_eq!(c.model, "wan2.7-image");
    assert!(c.provider_cache.is_empty());
}

#[test]
fn empty_cache_gets_the_current_provider() {
    let c = config("openai", "k", "https://api", "gpt", &[]).normalize_cache();
    let cached = c.provider_cache.get("openai").unwrap();
    assert_eq!((cached.api_key.as_str(), cached.base_url.as_str(), cached.model.as_str()), ("k", "https://api", "gpt"));
}

#[test]
fn empty_fields_are_filled_from_the_cache() {
    let c = config("gemini", "", "", "m2", &[("gemini", settings("gk", "gu", "gm"))]).normalize_cache();
    assert_eq!((c.api_key.as_str(), c.base_url.as_str(), c.model.as_str()), ("gk", "gu", "m2"));
    let other = config("openai", "ok", "", "", &[("gemini", settings("gk", "gu", "gm"))]).normalize_cache();
    assert_eq!(other.api_key, "ok");
    assert!(other.provider_cache.contains_key("openai"));
    assert!(other.provider_cache.contains_key("gemini"));
}

#[test]
fn saved_config_loads_back_unchanged() {
    let c = config("openai", "new", "", "m", &[("openai", settings("old", "u", "x"))]);
    let saved = c.for_saving();
    let cached = saved.provider_cache.get("openai").unwrap();
    assert_eq!((cached.api_key.as_str(), cached.base_url.as_str(), cached.model.as_str()), ("new", "", "m"));
    let loaded = loaded_ai_config(Some(saved.for_saving()));
    assert_eq!((loaded.api_key.as_str(), loaded.base_url.as_str(), loaded.model.as_str()), ("new", "", "m"));
    assert_eq!(loaded.provider_cache.entries().len(), 1);
}

#[test]
fn normalizing_twice_is_normalizing_once() {
    let once = config("gemini", "", "", "", &[("gemini", settings("", "gu", ""))]).normalize_cache();
    let twice = config("gemini", "", "", "", &[("gemini", settings("", "gu", ""))])
        .normalize_cache()
        .normalize_cache();
    assert_eq!(once.base_url, twice.base_url);
    assert_eq!(once.api_key, twice.api_key);
    assert_eq!(once.provider_cache.entries().len(), twice.provider_cache.entries().len());
}

#[test]
fn provider_cache_replaces_entries() {
    let mut c = ProviderCache::new();
    c.insert("a".into(), settings("1", "", ""));
    c.insert("b".into(), settings("2", "", ""));
    c.insert("a".into(), settings("3", "", ""));
    assert_eq!(c.entries().len(), 2);
    assert_eq!(c.get("a").unwrap().api_key, "3");
    assert!(c.get("z").is_none());
}

#[test]
fn remote_server_setting() {
    assert_eq!(default_base_url(), "http://127.0.0.1:8787");
    let d = RemoteServerConfig::default();
    assert_eq!(d.mode, CreationMode::Local);
    assert_eq!(normalize_base_url("  http://host:8787/// "), "http://host:8787");
    let ok = validate_remote_config(RemoteServerConfig { mode: CreationMode::Remote, base_url: " https://x/ ".into() })
        .unwrap();
    assert_eq!(ok.base_url, "https://x");
    assert_eq!(ok.mode, CreationMode::Remote);
    let e = validate_remote_config(RemoteServerConfig { mode: CreationMode::Remote, base_url: " // ".into() })
        .unwrap_err();
    assert_eq!(e, "服务地址不能为空");
    let e = validate_remote_config(RemoteServerConfig { mode: CreationMode::Remote, base_url: "ftp://x".into() })
        .unwrap_err();
    assert_eq!(e, "服务地址必须以 http:// 或 https:// 开头");
}

#[test]
fn normalized_address_is_stable() {
    for u in ["http://a/", " https://b:1//", "x"] {
        let once = normalize_base_url(u);
        assert_eq!(normalize_base_url(&once), once);
    }
    assert_eq!(normalize_base_url("a /"), "a ");
    assert_eq!(normalize_base_url("a "), "a");
}

#[test]
fn server_status_replies() {
    let s = remote_status(StatusReply::Unreachable("refused".into()));
    assert!(!s.online);
    assert_eq!(s.state, "offline");
    assert_eq!(s.error.as_deref(), Some("refused"));
    let s = remote_status(StatusReply::HttpError("500 Internal Server Error".into()));
    assert_eq!(s.error.as_deref(), Some("status HTTP 500 Internal Server Error"));
    let s = remote_status(StatusReply::Answered(StatusDto {
        state: "busy".into(),
        active_task_id: Some("t".into()),
        pet_name: Some("Cat".into()),
        phase: Some("running".into()),
    }));
    assert!(s.online);
    assert_eq!(s.state, "busy");
    assert!(s.error.is_none());
}

#[test]
fn http_replies_are_checked() {
    assert_eq!(check_create_reply(409, "409 Conflict", "busy").unwrap_err(), "服务端忙碌: busy");
    assert_eq!(
        check_create_reply(500, "500 Internal Server Error", "x").unwrap_err(),
        "创建远程任务失败 500 Internal Server Error: x"
    );
    assert!(check_create_reply(200, "200 OK", "").is_ok());
    assert_eq!(check_confirm_reply(400, "400 Bad Request", "no").unwrap_err(), "确认失败 400 Bad Request: no");
    assert_eq!(check_download_reply(404, "404 Not Found", "").unwrap_err(), "下载产物失败 404 Not Found: ");
    assert_eq!(check_poll_reply(404, "404 Not Found", ""), Ok(true));
    assert_eq!(check_poll_reply(200, "200 OK", ""), Ok(false));
    assert_eq!(check_poll_reply(502, "502 Bad Gateway", "e").unwrap_err(), "查询任务失败 502 Bad Gateway: e");
}

#[test]
fn checksum_and_cancellation() {
    assert_eq!(artifact_checksum(Some("a".into()), Some("b".into())).as_deref(), Some("a"));
    assert_eq!(artifact_checksum(None, Some("b".into())).as_deref(), Some("b"));
    assert!(remote_error_is_cancellation(false, "用户取消"));
    assert!(remote_error_is_cancellation(false, "task cancelled"));
    assert!(remote_error_is_cancellation(true, "boom"));
    assert!(!remote_error_is_cancellation(false, "boom"));
}

fn snapshot(phase: &str, logs: usize, step: u32, base: Option<&str>) -> RemoteSnapshot {
    RemoteSnapshot {
        phase: phase.into(),
        progress: Some(PetCreationProgress {
            task_id: "remote".into(),
            step,
            sub_step: String::new(),
            status: "running".into(),
            message: "m".into(),
            error: None,
        }),
        log_count: logs,
        base_image_b64: base.map(|s| s.to_string()),
        artifact_sha256: Some("abc".into()),
        error: None,
    }
}

#[test]
fn polling_reports_each_thing_once() {
    let mut t = PollTracker::new();
    let s = t.observe(snapshot("running", 3, 1, Some("")), "local");
    assert_eq!((s.logs_from, s.logs_to), (0, 3));
    assert_eq!(s.progress.as_ref().unwrap().task_id, "local");
    assert!(!s.emit_base);
    assert!(matches!(s.outcome, PollOutcome::KeepPolling));
    let s = t.observe(snapshot("awaiting_confirmation", 3, 1, Some("b64")), "local");
    assert_eq!(s.logs_from, s.logs_to);
    assert!(s.progress.is_none());
    assert!(s.emit_base);
    let s = t.observe(snapshot("running", 5, 2, Some("b64")), "local");
    assert_eq!((s.logs_from, s.logs_to), (3, 5));
    assert_eq!(s.progress.unwrap().step, 2);
    assert!(!s.emit_base);
    let s = t.observe(snapshot("succeeded", 5, 2, None), "local");
    assert!(matches!(s.outcome, PollOutcome::Download(Some(ref x)) if x == "abc"));
    let mut failed = snapshot("failed", 0, 1, None);
    failed.error = None;
    let s = PollTracker::new().observe(failed, "l");
    assert!(matches!(s.outcome, PollOutcome::Failed(ref e) if e == "远程生成失败"));
    let s = PollTracker::new().observe(snapshot("cancelled", 0, 1, None), "l");
    assert!(matches!(s.outcome, PollOutcome::Cancelled));
}

#[test]
fn no_stored_ai_config_loads_the_default() {
    let c = loaded_ai_config(None);
    assert_eq!(c.provider, "dashscope");
    assert_eq!(c.api_key, "");
    assert_eq!(c.base_url, "https://dashscope.aliyuncs.com/api/v1");
    assert_eq!(c.model, "wan2.7-image");
    assert!(c.provider_cache.is_empty());
}

#[test]
fn logs_reported_once_over_many_polls() {
    let mut t = PollTracker::new();
    let mut seen: Vec<usize> = Vec::new();
    let mut base_reports = 0;
    for (count, base) in [(2, None), (2, Some("")), (5, Some("QUJD")), (4, Some("QUJD")), (7, None)] {
        let s = t.observe(snapshot("running", count, 1, base), "local");
        seen.extend(s.logs_from..s.logs_to);
        if s.emit_base {
            base_reports += 1;
        }
    }
    assert_eq!(seen, (0..7).collect::<Vec<usize>>());
    assert_eq!(base_reports, 1);
}
