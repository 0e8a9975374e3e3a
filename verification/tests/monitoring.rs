use aipet::monitor::{frontmost_window_owner, on_screen_window_pids, WindowEntry};
use aipet::window_place::{clamp_window_to_screen, MonitorArea};
use aipet::layout_guides::get;
use aipet::monitor::{
    display_name_without_exe, get_active_process_name, get_idle_seconds,
    get_visible_window_pids, is_audio_playing, is_microphone_active, normalize_process_name,
    resolve_process_display_name, running_process_list, FocusTracker, ProcessCandidate,
};

#[test]
fn focus_time_counts_active_seconds() {
    let mut f = FocusTracker::new();
    assert_eq!(f.update(0, 100), 0);
    assert_eq!(f.update(5, 160), 60);
    assert_eq!(f.update(29, 200), 100);
    assert_eq!(f.update(30, 201), 0);
    assert_eq!(f.last_idle_secs, 30);
    assert_eq!(f.update(0, 300), 0);
    assert_eq!(f.update(0, 310), 10);
}

#[test]
fn process_names_are_normalized() {
    assert_eq!(normalize_process_name("C:\\Program Files\\Code.EXE").as_deref(), Some("code.exe"));
    assert_eq!(normalize_process_name("  chrome ").as_deref(), Some("chrome.exe"));
    assert_eq!(normalize_process_name("/usr/bin/Firefox").as_deref(), Some("firefox.exe"));
    assert_eq!(normalize_process_name("dir/").as_deref(), Some(".exe"));
    assert_eq!(normalize_process_name("   "), None);
    assert_eq!(normalize_process_name("ÉDITEUR").as_deref(), Some("éditeur.exe"));
}

#[test]
fn exe_suffix_is_dropped_for_display() {
    assert_eq!(display_name_without_exe(" Code.EXE "), "Code");
    assert_eq!(display_name_without_exe(".exe"), ".exe");
    assert_eq!(display_name_without_exe("notepad"), "notepad");
    assert_eq!(display_name_without_exe("  "), "");
}

#[test]
fn display_names_prefer_the_description() {
    assert_eq!(resolve_process_display_name(Some("Visual Studio Code".into()), "Code.exe", "code.exe"), "Visual Studio Code");
    assert_eq!(resolve_process_display_name(None, "Code.exe", "code.exe"), "Code");
    assert_eq!(resolve_process_display_name(None, " ", "code.exe"), "code");
    assert_eq!(resolve_process_display_name(None, "", ".exe"), ".exe");
}

#[test]
fn running_applications_are_listed_once_each() {
    let c = |n: &str, d: Option<&str>| ProcessCandidate { name: n.into(), description: d.map(|s| s.to_string()) };
    let list = running_process_list(vec![
        c("Zed.exe", None),
        c("code.exe", Some("Visual Studio Code")),
        c("CODE.EXE", Some("other")),
        c("  ", None),
        c("alpha", None),
    ]);
    let got: Vec<(&str, &str)> = list.iter().map(|i| (i.exe.as_str(), i.display_name.as_str())).collect();
    assert_eq!(got, vec![("alpha.exe", "alpha"), ("code.exe", "Visual Studio Code"), ("zed.exe", "Zed")]);
}

#[test]
fn platform_without_window_detection() {
    assert!(get_visible_window_pids().is_empty());
    assert!(get_active_process_name().is_none());
    assert!(get_idle_seconds().is_none());
    assert!(!is_audio_playing());
    assert!(!is_microphone_active());
}

#[test]
fn layout_guides_exist_for_every_row() {
    assert_eq!(get("idle"), Some("layout-guides/idle.png"));
    assert_eq!(get("running-left"), Some("layout-guides/running-left.png"));
    assert_eq!(get("review"), Some("layout-guides/review.png"));
    assert_eq!(get("dancing"), None);
}


#[test]
fn window_stays_on_nearest_monitor() {
    let left = MonitorArea { x: 0, y: 0, width: 1920, height: 1080 };
    let right = MonitorArea { x: 1920, y: 200, width: 1280, height: 1024 };
    let ms = vec![left, right];
    // Already inside the left monitor: nothing to do.
    assert_eq!(clamp_window_to_screen(100, 100, 200, 200, &ms), None);
    // Hanging off the bottom right of the left monitor: the right monitor's
    // edge (distance 120) is nearer than the left one's corner (80, 120).
    assert_eq!(clamp_window_to_screen(1800, 1000, 200, 200, &ms), Some((1920, 1000)));
    // Off the bottom of the left monitor, far from the right one.
    assert_eq!(clamp_window_to_screen(500, 1000, 200, 200, &ms), Some((500, 880)));
    // Above the right monitor: moved down onto it.
    assert_eq!(clamp_window_to_screen(2500, 0, 200, 200, &ms), Some((2500, 200)));
    // No monitors: stay.
    assert_eq!(clamp_window_to_screen(-5000, -5000, 200, 200, &Vec::new()), None);
    // A window larger than the monitor goes to its top-left corner.
    assert_eq!(
        clamp_window_to_screen(50, 50, 4000, 4000, &vec![left]),
        Some((0, 0))
    );
}

fn win(layer: Option<i32>, pid: Option<i32>, name: Option<&str>) -> WindowEntry {
    WindowEntry { layer, owner_pid: pid, owner_name: name.map(|s| s.to_string()) }
}

#[test]
fn on_screen_pids_of_application_windows() {
    let entries = vec![
        win(Some(25), Some(7), Some("Dock")),
        win(Some(0), Some(42), Some("Code")),
        win(Some(0), Some(42), Some("Code")),
        win(Some(0), Some(0), Some("Kernel")),
        win(None, Some(9), None),
        win(Some(0), Some(11), Some("Safari")),
        win(Some(0), None, Some("Ghost")),
    ];
    assert_eq!(on_screen_window_pids(&entries), vec![42, 11]);
    assert_eq!(on_screen_window_pids(&Vec::new()), Vec::<u32>::new());
}

#[test]
fn frontmost_owner_is_first_application_window() {
    let entries = vec![
        win(Some(25), Some(7), Some("Dock")),
        win(Some(0), Some(42), Some("Code")),
        win(Some(0), Some(11), Some("Safari")),
    ];
    assert_eq!(frontmost_window_owner(&entries), Some("Code".to_string()));
    let unnamed = vec![win(Some(0), Some(3), None), win(Some(0), Some(4), Some("B"))];
    assert_eq!(frontmost_window_owner(&unnamed), None);
    assert_eq!(frontmost_window_owner(&vec![win(Some(3), Some(1), Some("x"))]), None);
}

#[test]
fn focus_seconds_grow_along_active_run() {
    let mut f = FocusTracker::new();
    let times = [50u64, 50, 51, 75, 120];
    let got: Vec<u64> = times.iter().map(|&t| f.update(3, t)).collect();
    assert_eq!(got, vec![0, 0, 1, 25, 70]);
    assert_eq!(f.update(45, 130), 0);
    assert_eq!(f.update(0, 140), 0);
    assert_eq!(f.update(0, 142), 2);
}
