use aipet::creation::{
    check_frame_counts, check_resumable, incomplete_task_entry, needs_base_confirmation,
    plan_base_image, plan_strip, prepare_progress, sort_incomplete_tasks, BaseImageSource,
    BatchRunner, BatchStep, IncompleteCreationTask, StripSource,
};
use aipet::pipeline::{
    build_pet_atlas, check_cancelled, compute_batches, create_initial_progress,
    is_rate_limit_error, make_progress, mark_strip_completed, max_frames_for_provider,
};
use aipet::types::{
    default_atlas, fallback_pet_id, row_count, row_frame_count, row_state_name, sanitize_pet_id,
    PetCreationRequest,
};

fn request(name: &str) -> PetCreationRequest {
    PetCreationRequest {
        pet_name: name.to_string(),
        description: "a small cat".to_string(),
        reference_image: None,
        style_preset: "pixel".to_string(),
    }
}

#[test]
fn batches_split_evenly() {
    assert_eq!(compute_batches(6, 4), vec![3, 3]);
    assert_eq!(compute_batches(8, 4), vec![4, 4]);
    assert_eq!(compute_batches(4, 4), vec![4]);
    assert_eq!(compute_batches(8, 3), vec![3, 3, 2]);
    assert_eq!(compute_batches(5, 3), vec![3, 2]);
    assert_eq!(compute_batches(0, 4), vec![0]);
}

#[test]
fn batches_cover_every_frame_once() {
    for total in 0..=8u32 {
        for max in 1..=4u32 {
            let b = compute_batches(total, max);
            assert_eq!(b.iter().sum::<u32>(), total);
            assert!(b.iter().all(|&x| x <= max));
        }
    }
}

#[test]
fn provider_batch_limits() {
    assert_eq!(max_frames_for_provider("openai"), 3);
    assert_eq!(max_frames_for_provider("dashscope"), 4);
    assert_eq!(max_frames_for_provider("gemini"), 4);
}

#[test]
fn rate_limit_errors_are_recognized() {
    assert!(is_rate_limit_error("HTTP 429: slow down"));
    assert!(is_rate_limit_error("Too Many Requests"));
    assert!(is_rate_limit_error("code=EngineOverloaded"));
    assert!(!is_rate_limit_error("500 Internal Server Error"));
    assert!(!is_rate_limit_error(""));
}

#[test]
fn cancellation_stops_the_pipeline() {
    assert_eq!(check_cancelled(true), Err("cancelled".to_string()));
    assert_eq!(check_cancelled(false), Ok(()));
}

#[test]
fn progress_reports() {
    let p = make_progress("t1", 3, "idle", "running", "go");
    assert_eq!(p.task_id, "t1");
    assert_eq!(p.step, 3);
    assert_eq!(p.sub_step, "idle");
    assert_eq!(p.status, "running");
    assert_eq!(p.message, "go");
    assert!(p.error.is_none());
}

#[test]
fn completed_strips_are_recorded_once() {
    let mut p = create_initial_progress("t1", &request("Cat"), 9);
    assert!(!p.base_image_done);
    assert!(p.completed_strips.is_empty());
    mark_strip_completed(&mut p, "idle");
    mark_strip_completed(&mut p, "waving");
    mark_strip_completed(&mut p, "idle");
    assert_eq!(p.completed_strips, vec!["idle".to_string(), "waving".to_string()]);
    assert_eq!(p.total_rows, 9);
}

#[test]
fn generated_atlas_is_the_default_layout() {
    let a = build_pet_atlas(9);
    let d = default_atlas();
    assert_eq!(a.cell_width, 192);
    assert_eq!(a.cell_height, 208);
    assert_eq!(a.rows.len(), 9);
    for (x, y) in a.rows.iter().zip(d.rows.iter()) {
        assert_eq!(x.state, y.state);
        assert_eq!(x.display_name, y.display_name);
        assert_eq!(x.frames, y.frames);
    }
    assert_eq!(d.rows[0].state, "idle");
    assert_eq!(d.rows[0].display_name, "待机");
    assert_eq!(d.rows[1].frames, 8);
    assert_eq!(d.rows[8].state, "review");
    assert_eq!(d.rows[8].display_name, "审视");
}

#[test]
fn atlas_rows() {
    assert_eq!(row_count(), 9);
    let names: Vec<&str> = (0..9).map(row_state_name).collect();
    assert_eq!(
        names,
        vec![
            "idle",
            "running-right",
            "running-left",
            "waving",
            "jumping",
            "failed",
            "waiting",
            "running",
            "review"
        ]
    );
    let frames: Vec<u32> = (0..9).map(row_frame_count).collect();
    assert_eq!(frames, vec![6, 8, 8, 4, 5, 8, 6, 6, 6]);
}

#[test]
fn pet_ids_are_sanitized() {
    assert_eq!(sanitize_pet_id("My Cat"), "my-cat");
    assert_eq!(sanitize_pet_id("--Hello_World!--"), "hello_world");
    assert_eq!(sanitize_pet_id("小猫"), "小猫");
    assert_eq!(sanitize_pet_id("a.b"), "a-b");
}

#[test]
fn empty_names_get_a_random_id() {
    let id = sanitize_pet_id("!!!");
    assert_eq!(id.len(), 12);
    assert!(id.starts_with("pet-"));
    assert!(id[4..].chars().all(|c| c.is_ascii_hexdigit() && !c.is_ascii_uppercase()));
}

#[test]
fn sanitizing_twice_changes_nothing() {
    for name in ["My Cat", "A--b", "Ünïcödé Pet", "x_y-z"] {
        let once = sanitize_pet_id(name);
        assert_eq!(sanitize_pet_id(&once), once);
    }
}

#[test]
fn base_image_plan() {
    assert_eq!(plan_base_image(true, &Some("abc".into())), BaseImageSource::Cached);
    assert_eq!(plan_base_image(false, &Some("abc".into())), BaseImageSource::WithReference);
    assert_eq!(plan_base_image(false, &Some(String::new())), BaseImageSource::TextOnly);
    assert_eq!(plan_base_image(false, &None), BaseImageSource::TextOnly);
    assert!(!needs_base_confirmation(BaseImageSource::Cached));
    assert!(needs_base_confirmation(BaseImageSource::TextOnly));
}

#[test]
fn strip_plan() {
    let mut p = create_initial_progress("t", &request("Cat"), 9);
    mark_strip_completed(&mut p, "idle");
    assert_eq!(plan_strip(&p, "idle", true), StripSource::Cached);
    assert_eq!(plan_strip(&p, "idle", false), StripSource::Generate);
    assert_eq!(plan_strip(&p, "running-left", true), StripSource::Mirror);
    assert_eq!(plan_strip(&p, "waving", true), StripSource::Generate);
}

#[test]
fn batch_runner_retries_and_backs_off() {
    let mut r = BatchRunner::new(8, "dashscope");
    assert!(!r.is_done());
    let q = r.request();
    assert_eq!((q.index, q.count, q.frames, q.frames_done, q.width, q.height), (0, 2, 4, 0, 768, 208));
    assert_eq!(r.record(Some("HTTP 429")), BatchStep::RetryAfter(5));
    assert_eq!(r.record(Some("timeout")), BatchStep::RetryNow);
    assert_eq!(r.record(Some("Too Many Requests")), BatchStep::RetryAfter(30));
    assert_eq!(r.record(Some("timeout")), BatchStep::Failed);
}

#[test]
fn batch_runner_walks_all_batches() {
    let mut r = BatchRunner::new(6, "openai");
    assert_eq!(r.request().frames, 3);
    assert_eq!(r.record(None), BatchStep::Continue);
    let q = r.request();
    assert_eq!((q.index, q.frames_done, q.frames), (1, 3, 3));
    assert_eq!(r.record(Some("429")), BatchStep::RetryAfter(5));
    assert_eq!(r.record(None), BatchStep::Continue);
    assert!(r.is_done());
}

#[test]
fn frame_counts_are_checked() {
    assert_eq!(check_frame_counts(&vec![6, 8, 8, 4, 5, 8, 6, 6, 6]), Ok(()));
    let e = check_frame_counts(&vec![6, 7]).unwrap_err();
    assert_eq!((e.row, e.expected, e.got), (1, 8, 7));
}

#[test]
fn progress_is_relabelled_for_the_run() {
    let mut old = create_initial_progress("old", &request("Old"), 3);
    old.base_image_done = true;
    mark_strip_completed(&mut old, "idle");
    let p = prepare_progress(Some(old), "new", &request("Cat"), 9);
    assert_eq!(p.task_id, "new");
    assert_eq!(p.request.pet_name, "Cat");
    assert_eq!(p.total_rows, 9);
    assert!(p.base_image_done);
    assert_eq!(p.completed_strips, vec!["idle".to_string()]);
    let fresh = prepare_progress(None, "new", &request("Cat"), 9);
    assert!(!fresh.base_image_done);
    assert!(fresh.completed_strips.is_empty());
}

#[test]
fn incomplete_tasks_are_listed_in_name_order() {
    let mut p = create_initial_progress("t", &request("Cat"), 2);
    mark_strip_completed(&mut p, "idle");
    let e = incomplete_task_entry("pet-creation-b", &p).unwrap();
    assert_eq!(e.completed_count, 1);
    assert_eq!(e.total_rows, 2);
    assert_eq!(e.pet_name, "Cat");
    mark_strip_completed(&mut p, "waving");
    assert!(incomplete_task_entry("pet-creation-c", &p).is_none());
    assert_eq!(check_resumable(&p), Err("该任务已全部完成，无需续跑".to_string()));
    let mk = |n: &str| IncompleteCreationTask {
        work_dir_name: n.to_string(),
        pet_name: String::new(),
        base_image_done: false,
        completed_count: 0,
        total_rows: 9,
    };
    let sorted = sort_incomplete_tasks(vec![mk("b"), mk("a"), mk("c")]);
    let names: Vec<String> = sorted.into_iter().map(|t| t.work_dir_name).collect();
    assert_eq!(names, vec!["a", "b", "c"]);
}


#[test]
fn fallback_id_takes_the_drawn_prefix() {
    assert_eq!(fallback_pet_id("1b4e28ba-2fa1-11d2-883f-0016d3cca427"), "pet-1b4e28ba");
    let id = sanitize_pet_id("!!!");
    assert!(id.starts_with("pet-") && id.len() == 12);
}

#[test]
fn pet_ids_have_folder_safe_shape() {
    for name in ["My Cat", "--Über Katze 2--", "小猫 (beta)", "__x__", "!!!", "", "A-B_C"] {
        let id = sanitize_pet_id(name);
        assert!(!id.is_empty());
        assert!(!id.starts_with('-') && !id.ends_with('-'));
        assert!(id.chars().all(|c| c == '-' || c == '_' || (c.is_alphanumeric() && !c.is_ascii_uppercase())));
    }
    assert_eq!(sanitize_pet_id("--Über Katze 2--"), "Über-katze-2");
    assert_eq!(sanitize_pet_id("__x__"), "__x__");
    assert!(sanitize_pet_id("").starts_with("pet-"));
}
