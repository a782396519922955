use radium_textures::game::Game;
use radium_textures::gui::worker::{Step, STEP_TOTAL};
use radium_textures::gui::{
    backend_label, custom_from_text, parse_number,
    clamp_custom, default_backend, default_diffuse, default_material, default_normal,
    default_parallax, AppSettings, ControlMessage, OptimizationWorker, ProgressState,
    WorkerMessage, MAX_CUSTOM, MIN_CUSTOM,
};

fn settings(preset: &str) -> AppSettings {
    AppSettings {
        profile_path: "/mo2/profiles/Default".to_string(),
        mods_path: "/mo2/mods".to_string(),
        data_path: "/game/Data".to_string(),
        output_path: "/out".to_string(),
        preset: preset.to_string(),
        game: Game::SkyrimSE,
        custom_diffuse: 4096,
        custom_normal: 256,
        custom_parallax: 128,
        custom_material: 8192,
        thread_count: 4,
        backend: "auto".to_string(),
    }
}

fn limits(preset: &str) -> (u32, u32, u32, u32) {
    let p = OptimizationWorker::preset_for(&settings(preset));
    (p.diffuse_max, p.normal_max, p.parallax_max, p.material_max)
}

#[test]
fn settings_begin_with_the_usual_preset() {
    let s = AppSettings::default();
    assert_eq!(s.profile_path, "");
    assert_eq!(s.mods_path, "");
    assert_eq!(s.data_path, "");
    assert_eq!(s.output_path, "");
    assert_eq!(s.preset, "Optimum");
    assert_eq!(s.game, Game::SkyrimSE);
    assert_eq!(
        (s.custom_diffuse, s.custom_normal, s.custom_parallax, s.custom_material),
        (2048, 1024, 512, 512)
    );
    assert_eq!(s.backend, "auto");
    assert!(s.thread_count >= 1);
    assert_eq!(s.thread_count, num_cpus::get());
}

#[test]
fn defaults_of_the_custom_limits() {
    assert_eq!(default_backend(), "auto");
    assert_eq!(default_diffuse(), 2048);
    assert_eq!(default_normal(), 1024);
    assert_eq!(default_parallax(), 512);
    assert_eq!(default_material(), 512);
}

#[test]
fn custom_limits_are_kept_in_range() {
    assert_eq!((MIN_CUSTOM, MAX_CUSTOM), (128, 8192));
    assert_eq!(clamp_custom(0), 128);
    assert_eq!(clamp_custom(127), 128);
    assert_eq!(clamp_custom(128), 128);
    assert_eq!(clamp_custom(1000), 1000);
    assert_eq!(clamp_custom(8192), 8192);
    assert_eq!(clamp_custom(8193), 8192);
    assert_eq!(clamp_custom(u32::MAX), 8192);
}

#[test]
fn stored_paths_are_made_absolute() {
    let cwd = Some("/work");
    assert_eq!(AppSettings::normalize_path("", cwd), "");
    assert_eq!(AppSettings::normalize_path("/mnt/games", cwd), "/mnt/games");
    assert_eq!(AppSettings::normalize_path("home/user/mods", cwd), "/home/user/mods");
    assert_eq!(AppSettings::normalize_path("mnt/d/mods", cwd), "/mnt/d/mods");
    assert_eq!(AppSettings::normalize_path("usr/share", cwd), "/usr/share");
    assert_eq!(AppSettings::normalize_path("opt/mo2", cwd), "/opt/mo2");
    assert_eq!(AppSettings::normalize_path("var/tmp", cwd), "/var/tmp");
    assert_eq!(AppSettings::normalize_path("mods/a", cwd), "/work/mods/a");
    assert_eq!(AppSettings::normalize_path("home", cwd), "/work/home");
    assert_eq!(AppSettings::normalize_path("homes/x", cwd), "/work/homes/x");
    assert_eq!(AppSettings::normalize_path("mods/a", None), "mods/a");
    assert_eq!(AppSettings::normalize_path("home/u", None), "/home/u");
}

#[test]
fn all_four_paths_of_the_settings_are_made_absolute() {
    let mut s = settings("Quality");
    s.profile_path = "home/u/profile".to_string();
    s.mods_path = "mods".to_string();
    s.data_path = "".to_string();
    let fixed = s.clone().with_absolute_paths(Some("/cwd/"));
    assert_eq!(fixed.profile_path, "/home/u/profile");
    assert_eq!(fixed.mods_path, "/cwd/mods");
    assert_eq!(fixed.data_path, "");
    assert_eq!(fixed.output_path, "/out");
    let mut expected = s;
    expected.profile_path = "/home/u/profile".to_string();
    expected.mods_path = "/cwd/mods".to_string();
    assert_eq!(fixed, expected);
}

#[test]
fn run_needs_all_paths_and_no_run_under_way() {
    let s = settings("Optimum");
    assert!(s.start_enabled(false));
    assert!(!s.start_enabled(true));
    for clear in 0..4 {
        let mut t = s.clone();
        match clear {
            0 => t.profile_path.clear(),
            1 => t.mods_path.clear(),
            2 => t.data_path.clear(),
            _ => t.output_path.clear(),
        }
        assert!(!t.start_enabled(false));
    }
    assert!(!AppSettings::default().start_enabled(false));
}

#[test]
fn display_starts_ready() {
    let state = ProgressState::new();
    assert!(!state.is_running);
    assert_eq!((state.progress_current, state.progress_total), (0, 0));
    assert_eq!(state.progress_message, "Ready");
    assert!(state.log_messages.is_empty());
    assert!(!state.scroll_to_bottom);
}

#[test]
fn display_follows_the_worker() {
    let mut state = ProgressState::new();
    state.log_messages.push("old".to_string());
    state.start();
    assert!(state.is_running);
    assert_eq!(state.progress_message, "Starting...");
    assert!(state.log_messages.is_empty());

    let done = state.apply(WorkerMessage::Progress {
        current: 2,
        total: 6,
        message: "Discovering textures...".to_string(),
    });
    assert!(!done);
    assert_eq!((state.progress_current, state.progress_total), (2, 6));
    assert_eq!(state.progress_message, "Discovering textures...");
    assert!(state.log_messages.is_empty());
    assert!(!state.scroll_to_bottom);
    assert!(state.is_running);

    let done = state.apply(WorkerMessage::Log("Found 10 textures".to_string()));
    assert!(!done);
    assert_eq!(state.log_messages, vec!["Found 10 textures"]);
    assert!(state.scroll_to_bottom);
    assert_eq!(state.progress_message, "Discovering textures...");

    state.scroll_to_bottom = false;
    let done = state.apply(WorkerMessage::Complete {
        success: true,
        message: "Optimization complete!".to_string(),
    });
    assert!(done);
    assert!(!state.is_running);
    assert_eq!(state.progress_message, "Optimization complete!");
    assert_eq!(state.log_messages, vec!["Found 10 textures", "=== Optimization complete! ==="]);
    assert!(state.scroll_to_bottom);
    assert_eq!((state.progress_current, state.progress_total), (2, 6));
}

#[test]
fn failure_ends_the_run_too() {
    let mut state = ProgressState::new();
    state.start();
    let done = state.apply(WorkerMessage::Complete { success: false, message: "Error: x".into() });
    assert!(done);
    assert!(!state.is_running);
    assert_eq!(state.log_messages, vec!["=== Error: x ==="]);
}

#[test]
fn control_message_cancels() {
    assert_eq!(ControlMessage::Cancel, ControlMessage::Cancel);
}

#[test]
fn preset_names_of_the_settings() {
    assert_eq!(limits("HighQuality"), (2048, 2048, 1024, 1024));
    assert_eq!(limits("Quality"), (2048, 1024, 1024, 1024));
    assert_eq!(limits("Optimum"), (2048, 1024, 512, 512));
    assert_eq!(limits("Performance"), (2048, 512, 512, 512));
    assert_eq!(limits("Vanilla"), (512, 512, 512, 512));
    assert_eq!(limits("Custom"), (4096, 256, 128, 8192));
    assert_eq!(limits("custom"), (2048, 1024, 512, 512));
    assert_eq!(limits(""), (2048, 1024, 512, 512));
    assert_eq!(limits("High Quality"), (2048, 1024, 512, 512));
}

#[test]
fn paths_of_the_settings_are_expanded() {
    let home = Some("/home/user");
    assert_eq!(OptimizationWorker::expand_path("~/mods", home, "/cwd"), "/home/user/mods");
    assert_eq!(OptimizationWorker::expand_path("~", home, "/cwd"), "/home/user/");
    assert_eq!(OptimizationWorker::expand_path("~mods", home, "/cwd"), "/home/user/mods");
    assert_eq!(OptimizationWorker::expand_path("/abs/path", home, "/cwd"), "/abs/path");
    assert_eq!(OptimizationWorker::expand_path("rel/path", home, "/cwd"), "/cwd/rel/path");
    assert_eq!(OptimizationWorker::expand_path("~/mods", None, "/cwd"), "/cwd/~/mods");
    assert_eq!(OptimizationWorker::expand_path("~/mods", Some("home"), "/cwd"), "/cwd/home/mods");
    assert_eq!(OptimizationWorker::expand_path("", home, "/cwd"), "/cwd/");
}

#[test]
fn steps_come_in_order() {
    let mut step = Step::LoadProfile;
    let mut seen = vec![(step.number(), step.message())];
    while let Some(next) = step.next(false) {
        step = next;
        seen.push((step.number(), step.message()));
    }
    assert_eq!(
        seen,
        vec![
            (0, "Loading MO2 profile..."),
            (1, "Building virtual file system..."),
            (2, "Discovering textures..."),
            (3, "Loading exclusions..."),
            (4, "Filtering textures..."),
            (5, "Extracting textures..."),
            (6, "Optimizing textures..."),
        ]
    );
    assert_eq!(STEP_TOTAL, 6);
}

#[test]
fn cancelled_run_takes_no_further_step() {
    assert_eq!(Step::LoadProfile.next(true), None);
    assert_eq!(Step::Filter.next(true), None);
    assert_eq!(Step::Optimize.next(false), None);
    assert_eq!(Step::Discover.next(false), Some(Step::LoadExclusions));
}

#[test]
fn each_step_is_announced() {
    assert_eq!(
        Step::Filter.announce(),
        vec![
            WorkerMessage::Progress {
                current: 4,
                total: 6,
                message: "Filtering textures...".to_string(),
            },
            WorkerMessage::Log("Step 5/6: Filtering textures for optimization...".to_string()),
        ]
    );
    assert_eq!(Step::LoadProfile.log_line(), "Step 1/6: Loading MO2 profile...");
    assert_eq!(Step::BuildNamespace.log_line(), "Step 2/6: Building virtual file system...");
    assert_eq!(Step::Discover.log_line(), "Step 3/6: Discovering textures...");
    assert_eq!(Step::LoadExclusions.log_line(), "Step 4/6: Loading exclusions...");
    assert_eq!(Step::Extract.log_line(), "Step 6/6: Extracting and optimizing textures...");
    assert_eq!(Step::Optimize.log_line(), "Running texconv optimization...");
}

#[test]
fn run_ends_with_success_or_failure() {
    assert_eq!(
        OptimizationWorker::closing_messages(None),
        vec![WorkerMessage::Complete {
            success: true,
            message: "Optimization completed successfully!".to_string(),
        }]
    );
    assert_eq!(
        OptimizationWorker::closing_messages(Some("modlist.txt not found")),
        vec![
            WorkerMessage::Log("Error: modlist.txt not found".to_string()),
            WorkerMessage::Complete {
                success: false,
                message: "Optimization failed: modlist.txt not found".to_string(),
            },
        ]
    );
}

#[test]
fn rule_file_lies_in_the_exclusions_directory() {
    assert_eq!(
        OptimizationWorker::exclusions_path(Game::SkyrimSE),
        "./exclusions/SkyrimSE_Exclusions.txt"
    );
    assert_eq!(
        OptimizationWorker::exclusions_path(Game::Fallout4),
        "./exclusions/Fallout4_Exclusions.txt"
    );
}

#[test]
fn converter_is_looked_for_here_and_beside_the_program() {
    let find = OptimizationWorker::locate_converter;
    assert_eq!(find("/cwd", true, Some("/opt/app"), true), Some("/cwd/texconv.exe".to_string()));
    assert_eq!(find("/cwd", true, None, false), Some("/cwd/texconv.exe".to_string()));
    assert_eq!(find("/cwd", false, Some("/opt/app"), true), Some("/opt/app/texconv.exe".to_string()));
    assert_eq!(find("/cwd", false, Some("/opt/app"), false), None);
    assert_eq!(find("/cwd", false, None, true), None);
}

#[test]
fn typed_numbers_are_read_like_the_standard_library_reads_them() {
    for text in [
        "0", "7", "128", "0128", "+5", "4294967295", "4294967296", "99999999999999999999", "",
        "+", "-1", "12a", " 12", "12 ", "++1", "1+", "1_000", "٣",
    ] {
        assert_eq!(parse_number(text), text.parse::<u32>().ok(), "{text:?}");
    }
    assert_eq!(parse_number("2048"), Some(2048));
    assert_eq!(parse_number("+0010"), Some(10));
    assert_eq!(parse_number("4294967296"), None);
}

#[test]
fn typed_limit_is_clamped_or_ignored() {
    assert_eq!(custom_from_text("1024", 512), 1024);
    assert_eq!(custom_from_text("1", 512), 128);
    assert_eq!(custom_from_text("100000", 512), 8192);
    assert_eq!(custom_from_text("", 512), 512);
    assert_eq!(custom_from_text("2k", 2048), 2048);
    assert_eq!(custom_from_text("99999999999", 2048), 2048);
}

#[test]
fn backends_have_their_labels() {
    assert_eq!(backend_label("nvtt3"), "NVTT3 (CUDA) - Fast");
    assert_eq!(backend_label("texconv"), "texconv (Wine)");
    assert_eq!(backend_label("auto"), "Auto (Best Available)");
    assert_eq!(backend_label(""), "Auto (Best Available)");
    assert_eq!(backend_label("NVTT3"), "Auto (Best Available)");
}
