use ketikin::error::AppError;
use ketikin::storage::{
    adopt_if_saved, backup_candidate, unused_backup, json_file_name, log_file_stem_from, remaining_timeout_ms,
    rotated_logs_to_prune, sanitize_user, save_failure, BaseDir, Level, ProbeAttempt, ReadOutcome,
    Storage, APP_DIR_NAME, LOG_KEEP_FILES, MAX_LOG_USER_CHARS, PROBE_MIN_TIMEOUT_MS,
    PROBE_TIMEOUT_MS,
};

fn ok(source: &str, dir: &str) -> ProbeAttempt {
    ProbeAttempt {
        source: source.to_string(),
        dir: dir.to_string(),
        log_dir: format!("{dir}/logs"),
        data: Ok(()),
        logs: Ok(()),
    }
}

fn rejected(source: &str, dir: &str, err: &str) -> ProbeAttempt {
    ProbeAttempt {
        source: source.to_string(),
        dir: dir.to_string(),
        log_dir: format!("{dir}/logs"),
        data: Err(err.to_string()),
        logs: Ok(()),
    }
}

fn storage_in(dir: &str) -> Storage {
    Storage::resolve(vec![ok("appData", dir)], "Ketikin".to_string(), false)
}

#[derive(Debug, Default, PartialEq, Eq)]
struct Sample {
    value: u32,
    label: String,
}

#[test]
fn resolves_first_writable_candidate() {
    let storage = Storage::resolve(
        vec![
            rejected("appData", "/tmp/nested/file-not-dir", "Not a directory (os error 20)"),
            ok("localAppDataEnv", "/tmp/good"),
            ok("temp", "/tmp/never-reached"),
        ],
        "Ketikin".to_string(),
        false,
    );

    assert_eq!(storage.info().source, "localAppDataEnv");
    assert!(storage.info().writable);
    assert!(!storage.is_degraded());
    assert_eq!(storage.dir(), Some("/tmp/good"));
    assert_eq!(storage.log_dir(), Some("/tmp/good/logs"));
}

#[test]
fn falls_back_to_memory_when_nothing_is_writable() {
    let mut storage = Storage::resolve(Vec::new(), "Ketikin".to_string(), false);
    let info = storage.info();

    assert_eq!(info.source, "memory");
    assert!(!info.writable);
    assert!(info.error.is_some());
    assert!(!info.notices.is_empty(), "memory mode must explain itself");
    assert!(storage.is_degraded());

    assert_eq!(
        storage.read(
            "settings",
            "defaults",
            ReadOutcome::Parsed(Sample {
                value: 3,
                label: "x".into()
            }),
            Sample::default()
        ),
        Sample::default()
    );
    assert_eq!(storage.log_dir(), None);
    assert_eq!(storage.dir(), None);
}

#[test]
fn the_in_memory_error_lists_every_rejected_candidate() {
    let storage = Storage::resolve(
        vec![
            rejected("appData", "/a", "denied"),
            rejected("temp", "/t", "full"),
        ],
        "Ketikin".to_string(),
        false,
    );
    assert_eq!(
        storage.info().error.as_deref(),
        Some("no writable data directory found — appData (/a): denied; temp (/t): full")
    );
    assert_eq!(
        Storage::resolve(Vec::new(), "Ketikin".to_string(), false)
            .info()
            .error
            .as_deref(),
        Some("no data directory candidates were available")
    );
}

#[test]
fn a_portable_install_warns_that_the_folder_is_shared() {
    let storage = Storage::resolve(
        vec![ok("nextToExe", "/opt/ketikin/portable")],
        "Ketikin".to_string(),
        false,
    );
    let info = storage.info();

    assert!(info.writable, "a portable install is still usable");
    assert!(
        info.notices
            .iter()
            .any(|n| n.contains("shared with other users")),
        "got {:?}",
        info.notices
    );
}

#[test]
fn the_temp_notice_is_accurate_for_the_platform_it_runs_on() {
    for on_windows in [true, false] {
        let storage = Storage::resolve(
            vec![ok("temp", "/tmp/ketikin")],
            "Ketikin".to_string(),
            on_windows,
        );
        let info = storage.info();

        assert!(info.writable);
        let notice = info
            .notices
            .iter()
            .find(|n| n.contains("temporary folder"))
            .expect("temp must explain itself")
            .clone();

        if on_windows {
            assert!(
                !notice.contains("shared with other users"),
                "temp is per-user on Windows: {notice}"
            );
            assert!(notice.contains("inside your own user profile"), "{notice}");
            assert!(notice.contains("not an independent fallback"), "{notice}");
            assert!(notice.contains("reboot"), "{notice}");
        } else {
            assert!(notice.contains("shared with other users"), "{notice}");
        }
    }
}

#[test]
fn temp_raises_the_banner_but_next_to_exe_does_not() {
    let portable = Storage::resolve(
        vec![ok("nextToExe", "/opt/portable")],
        "Ketikin".to_string(),
        false,
    );
    assert!(!portable.is_degraded(), "portable installs must not nag");
    assert!(
        !portable.info().notices.is_empty(),
        "but they must still explain themselves in Settings"
    );

    let temp = Storage::resolve(vec![ok("temp", "/tmp/k")], "Ketikin".to_string(), false);
    assert!(temp.is_degraded(), "temp must raise the banner");
}

#[test]
fn a_corrupt_file_raises_the_banner_even_on_a_healthy_path() {
    let mut storage = storage_in("/data");
    assert!(!storage.is_degraded(), "a healthy appData dir starts quiet");

    storage.read::<Sample>(
        "sample",
        "empty",
        ReadOutcome::Corrupt {
            error: "expected value".into(),
            backup: "sample.json.bak".into(),
            moved: Ok(()),
        },
        Sample::default(),
    );

    assert!(storage.is_degraded());
}

#[test]
fn a_usable_data_dir_survives_an_unusable_log_dir() {
    let storage = Storage::resolve(
        vec![ProbeAttempt {
            logs: Err("File exists (os error 17)".to_string()),
            ..ok("appData", "/data")
        }],
        "Ketikin".to_string(),
        false,
    );

    assert_eq!(storage.dir(), Some("/data"));
    assert!(storage.info().writable);
    assert_eq!(storage.log_dir(), None, "no folder target may be attached");
    assert!(storage
        .info()
        .notices
        .iter()
        .any(|n| n.contains("log folder")));
    assert!(!storage.is_degraded());
}

#[test]
fn degraded_field_matches_is_degraded_in_every_state() {
    let mut healthy = storage_in("/healthy");
    assert_eq!(healthy.info().degraded, healthy.is_degraded());
    assert!(!healthy.info().degraded);

    let portable = Storage::resolve(
        vec![ok("nextToExe", "/portable")],
        "Ketikin".to_string(),
        false,
    );
    assert_eq!(portable.info().degraded, portable.is_degraded());
    assert!(!portable.info().degraded, "notices alone must not degrade");

    let temp = Storage::resolve(vec![ok("temp", "/temp")], "Ketikin".to_string(), false);
    assert_eq!(temp.info().degraded, temp.is_degraded());
    assert!(temp.info().degraded);

    let memory = Storage::resolve(Vec::new(), "Ketikin".to_string(), false);
    assert_eq!(memory.info().degraded, memory.is_degraded());
    assert!(memory.info().degraded);

    healthy.read::<Sample>(
        "sample",
        "empty",
        ReadOutcome::Corrupt {
            error: "bad".into(),
            backup: "sample.json.bak".into(),
            moved: Ok(()),
        },
        Sample::default(),
    );
    assert!(
        healthy.info().degraded,
        "a reset must degrade a healthy dir"
    );
    assert_eq!(healthy.info().degraded, healthy.is_degraded());
}

#[test]
fn probe_budget_clamps_between_floor_and_ceiling() {
    let now: u64 = 1_000_000;

    assert_eq!(remaining_timeout_ms(now + 60_000, now), PROBE_TIMEOUT_MS);
    assert_eq!(remaining_timeout_ms(now, now), PROBE_MIN_TIMEOUT_MS);
    assert_eq!(remaining_timeout_ms(now - 60_000, now), PROBE_MIN_TIMEOUT_MS);
    let mid = remaining_timeout_ms(now + 1_200, now);
    assert!(
        mid > PROBE_MIN_TIMEOUT_MS && mid <= PROBE_TIMEOUT_MS,
        "got {mid:?}"
    );
    assert_eq!(mid, 1_200);
}

#[test]
fn next_to_exe_warns_about_elevation() {
    let storage = Storage::resolve(vec![ok("nextToExe", "/data")], "Ketikin".to_string(), false);

    assert!(storage
        .info()
        .notices
        .iter()
        .any(|n| n.contains("administrator")));
}

#[test]
fn ordinary_locations_carry_no_notices() {
    let storage = storage_in("/data");

    assert!(storage.info().notices.is_empty());
    assert!(!storage.is_degraded());
}

#[test]
fn missing_file_reads_as_default() {
    let mut storage = storage_in("/data");

    assert_eq!(
        storage.read("nope", "defaults", ReadOutcome::Missing, Sample::default()),
        Sample::default()
    );
    assert!(
        storage.info().notices.is_empty(),
        "a first run is not a notice-worthy event"
    );
}

#[test]
fn a_parsed_file_is_returned_as_read() {
    let mut storage = storage_in("/data");
    let sample = Sample {
        value: 7,
        label: "hei".to_string(),
    };

    assert_eq!(
        storage.read(
            "sample",
            "defaults",
            ReadOutcome::Parsed(Sample {
                value: 7,
                label: "hei".to_string()
            }),
            Sample::default()
        ),
        sample
    );
    assert!(!storage.is_degraded());
}

#[test]
fn corrupt_file_is_moved_aside_reset_and_announced() {
    let mut storage = storage_in("/data");

    assert_eq!(
        storage.read(
            "sample",
            "empty",
            ReadOutcome::Corrupt {
                error: "key must be a string at line 1 column 3".into(),
                backup: "sample.json.bak".into(),
                moved: Ok(()),
            },
            Sample::default()
        ),
        Sample::default()
    );

    let notices = storage.info().notices;
    assert_eq!(notices.len(), 1, "got {notices:?}");
    assert!(notices[0].contains("sample.json"));
    assert!(notices[0].contains("reset to empty"));
    assert!(notices[0].contains("sample.json.bak"));
    assert!(
        storage.is_degraded(),
        "a silent reset must raise the warning"
    );
}

#[test]
fn a_corrupt_file_that_cannot_be_moved_says_so() {
    let mut storage = storage_in("/data");
    storage.read(
        "templates",
        "empty",
        ReadOutcome::Corrupt {
            error: "EOF while parsing".into(),
            backup: "templates.json.bak".into(),
            moved: Err("Permission denied".into()),
        },
        Sample::default(),
    );
    assert_eq!(
        storage.info().notices,
        vec![
            "templates.json could not be read (EOF while parsing) and could not be moved aside \
             (Permission denied), so Ketikin started from empty."
                .to_string()
        ]
    );
}

#[test]
fn an_unopenable_file_is_left_alone_and_announced() {
    let mut storage = storage_in("/data");
    storage.read(
        "settings",
        "the built-in defaults",
        ReadOutcome::Unreadable("Permission denied (os error 13)".into()),
        Sample::default(),
    );
    assert_eq!(
        storage.info().notices,
        vec![
            "settings.json could not be opened (Permission denied (os error 13)), so Ketikin \
             started from the built-in defaults. Your existing file was left untouched."
                .to_string()
        ]
    );
    assert!(storage.is_degraded());
}

#[test]
fn the_log_file_name_carries_the_user() {
    assert_eq!(log_file_stem_from(Some("alice")), "Ketikin-alice");
    assert_eq!(log_file_stem_from(Some("Alice_2")), "Ketikin-Alice_2");
}

#[test]
fn the_log_file_name_sanitises_anything_a_path_would_choke_on() {
    assert_eq!(
        log_file_stem_from(Some(r"CORP\alice")),
        "Ketikin-CORP-alice"
    );
    assert_eq!(
        log_file_stem_from(Some("ada lovelace")),
        "Ketikin-ada-lovelace"
    );
    assert_eq!(log_file_stem_from(Some("../../etc")), "Ketikin-etc");
    assert_eq!(log_file_stem_from(Some("a/b")), "Ketikin-a-b");
    assert_ne!(
        log_file_stem_from(Some("a b")),
        log_file_stem_from(Some("ab"))
    );
}

#[test]
fn the_log_file_name_is_bounded_and_falls_back_when_there_is_no_user() {
    let long = "u".repeat(MAX_LOG_USER_CHARS * 3);
    assert_eq!(
        log_file_stem_from(Some(&long)),
        format!("Ketikin-{}", "u".repeat(MAX_LOG_USER_CHARS))
    );

    for user in [None, Some(""), Some("   "), Some("///")] {
        assert_eq!(log_file_stem_from(user), "Ketikin", "for {user:?}");
    }
}

#[test]
fn sanitize_user_keeps_only_file_name_safe_characters() {
    assert_eq!(sanitize_user("--é--x--").as_deref(), Some("x"));
    assert_eq!(sanitize_user("José").as_deref(), Some("Jos"));
    assert_eq!(sanitize_user("-_-").as_deref(), Some("_"));
    assert_eq!(sanitize_user(""), None);
}

#[test]
fn resolution_diagnostics_are_buffered_in_order_for_replay() {
    let mut storage = Storage::resolve(
        vec![
            rejected("appData", "/tmp/in-the-way", "File exists (os error 17)"),
            ok("nextToExe", "/tmp/good"),
        ],
        "Ketikin".to_string(),
        false,
    );

    let diagnostics = storage.take_diagnostics();
    let messages: Vec<&str> = diagnostics.iter().map(|(_, m)| m.as_str()).collect();

    assert!(
        messages[0].contains("appData candidate") && messages[0].contains("rejected"),
        "the rejection and its error must come first: {messages:?}"
    );
    assert!(messages[0].contains("/tmp/in-the-way"));
    assert!(messages[1].contains("using") && messages[1].contains("nextToExe"));
    assert!(messages[2].contains("shared with other users"));
    assert!(messages[3].contains("administrator"));
    assert_eq!(messages.len(), 4, "got {messages:?}");

    assert_eq!(diagnostics[0].0, Level::Warn);
    assert_eq!(diagnostics[1].0, Level::Info);
    assert_eq!(
        messages[0],
        "storage: appData candidate /tmp/in-the-way rejected: File exists (os error 17)"
    );
    assert_eq!(messages[1], "storage: using /tmp/good (source: nextToExe)");
}

#[test]
fn the_in_memory_fallback_explains_itself_to_the_log_too() {
    let mut storage = Storage::resolve(
        vec![rejected("appData", "/tmp/file-not-dir", "Not a directory")],
        "Ketikin".to_string(),
        false,
    );
    let diagnostics = storage.take_diagnostics();
    let messages: Vec<String> = diagnostics.iter().map(|(_, m)| m.clone()).collect();

    assert!(messages
        .iter()
        .any(|m| m.contains("falling back to in-memory state")));
    assert!(
        messages.iter().any(|m| m.contains("lost when you close it")),
        "the user-facing notice belongs in the log as well: {messages:?}"
    );
    assert_eq!(diagnostics[1].0, Level::Error);
}

#[test]
fn draining_the_buffer_hands_later_diagnostics_straight_to_the_logger() {
    let mut storage = storage_in("/data");
    assert_eq!(
        storage.take_diagnostics().len(),
        1,
        "a clean start records only which candidate won"
    );

    storage.read::<Sample>(
        "sample",
        "empty",
        ReadOutcome::Corrupt {
            error: "not json".into(),
            backup: "sample.json.bak".into(),
            moved: Ok(()),
        },
        Sample::default(),
    );

    assert!(!storage.info().notices.is_empty(), "the notice still lands");
    assert!(storage.take_diagnostics().is_empty(), "but is not buffered");
}

#[test]
fn a_failed_log_folder_is_logged_before_the_notice() {
    let mut storage = Storage::resolve(
        vec![ProbeAttempt {
            logs: Err("denied".to_string()),
            ..ok("appData", "/d")
        }],
        "Ketikin-bob".to_string(),
        false,
    );
    assert_eq!(storage.log_file(), "Ketikin-bob");
    let messages: Vec<String> = storage
        .take_diagnostics()
        .into_iter()
        .map(|(_, m)| m)
        .collect();
    assert_eq!(messages.len(), 3, "got {messages:?}");
    assert_eq!(messages[1], "storage: log directory /d/logs unusable: denied");
    assert!(messages[2].starts_with("storage: Ketikin could not create its log folder"));
}

#[test]
fn write_failures_name_the_file() {
    assert_eq!(
        save_failure("settings", "No space left on device"),
        AppError::Storage("could not save settings.json: No space left on device".to_string())
    );
    assert_eq!(json_file_name("templates"), "templates.json");
    assert_eq!(
        AppError::storage("a", "b").message(),
        "a: b",
        "storage errors read context first"
    );
}

#[test]
fn old_rotated_logs_are_pruned_oldest_first() {
    let stem = "ketikin-test";
    let mut names: Vec<String> = Vec::new();
    for day in [3, 1, 4, 2] {
        names.push(format!("{stem}_2026-01-0{day}_00-00-00.log"));
    }
    names.push("ketikin-someone-else_2026-01-01_00-00-00.log".to_string());
    names.push(format!("{stem}.log.bak"));
    names.push(format!("{stem}.log"));

    assert_eq!(
        rotated_logs_to_prune(&names, stem, LOG_KEEP_FILES),
        vec![
            format!("{stem}_2026-01-01_00-00-00.log"),
            format!("{stem}_2026-01-02_00-00-00.log"),
        ],
        "the newest {LOG_KEEP_FILES} survive"
    );
}

#[test]
fn nothing_is_pruned_within_the_allowance() {
    let names = vec![
        "Ketikin_2026-01-02_00-00-00.log".to_string(),
        "Ketikin_2026-01-01_00-00-00.log".to_string(),
        "other.log".to_string(),
    ];
    assert!(rotated_logs_to_prune(&names, "Ketikin", 2).is_empty());
    assert!(rotated_logs_to_prune(&Vec::new(), "Ketikin", 0).is_empty());
    assert_eq!(
        rotated_logs_to_prune(&names, "Ketikin", 0),
        vec![
            "Ketikin_2026-01-01_00-00-00.log".to_string(),
            "Ketikin_2026-01-02_00-00-00.log".to_string(),
        ]
    );
}

#[test]
fn a_same_second_archive_sorts_after_its_plain_twin() {
    let names = vec![
        "K_2026-01-01_00-00-00-77-1.log".to_string(),
        "K_2026-01-01_00-00-00.log".to_string(),
        "K_2026-01-02_00-00-00.log".to_string(),
    ];
    assert_eq!(
        rotated_logs_to_prune(&names, "K", 1),
        vec![
            "K_2026-01-01_00-00-00-77-1.log".to_string(),
            "K_2026-01-01_00-00-00.log".to_string(),
        ]
    );
}

#[test]
fn backups_are_tried_under_numbered_names() {
    assert_eq!(backup_candidate("settings", 1), Some("settings.json.bak".to_string()));
    assert_eq!(backup_candidate("settings", 2), Some("settings.json.bak2".to_string()));
    assert_eq!(backup_candidate("templates", 20), Some("templates.json.bak20".to_string()));
    assert_eq!(backup_candidate("settings", 21), None);
    assert_eq!(backup_candidate("settings", 0), None);
}

#[test]
fn the_candidate_chain_is_in_priority_order() {
    let all = Storage::candidates(true, true, true, true);
    let plan: Vec<(String, BaseDir, String)> = all
        .into_iter()
        .map(|c| (c.source, c.base, c.leaf))
        .collect();
    assert_eq!(
        plan,
        vec![
            ("appData".to_string(), BaseDir::DataDir, APP_DIR_NAME.to_string()),
            ("appDataEnv".to_string(), BaseDir::AppDataEnv, APP_DIR_NAME.to_string()),
            ("localAppDataEnv".to_string(), BaseDir::LocalAppDataEnv, APP_DIR_NAME.to_string()),
            ("nextToExe".to_string(), BaseDir::ExeDir, "data".to_string()),
            ("temp".to_string(), BaseDir::Temp, APP_DIR_NAME.to_string()),
        ]
    );

    let bare = Storage::candidates(false, false, false, false);
    assert_eq!(bare.len(), 1);
    assert_eq!(bare[0].source, "temp");

    let unix = Storage::candidates(true, false, false, true);
    let sources: Vec<String> = unix.into_iter().map(|c| c.source).collect();
    assert_eq!(sources, vec!["appData", "nextToExe", "temp"]);
}

#[test]
fn a_failed_save_leaves_memory_alone() {
    let mut current = vec![1, 2];
    let err = AppError::Storage("could not save sample.json: disk full".to_string());

    assert_eq!(adopt_if_saved(&mut current, vec![3], Err(err.clone())), Err(err));
    assert_eq!(current, vec![1, 2]);

    assert_eq!(adopt_if_saved(&mut current, vec![3], Ok(())), Ok(()));
    assert_eq!(current, vec![3]);
}

#[test]
fn a_failed_write_is_reported_as_a_save_failure() {
    let storage = storage_in("/data");
    assert_eq!(storage.write("sample", Ok(())), Ok(()));
    assert_eq!(
        storage.write("sample", Err("disk full".to_string())),
        Err(AppError::Storage("could not save sample.json: disk full".to_string()))
    );
}

#[test]
fn in_memory_mode_writes_nothing_and_reports_no_failure() {
    let storage = Storage::resolve(Vec::new(), "Ketikin".to_string(), false);
    assert_eq!(storage.write("sample", Err("not attempted".to_string())), Ok(()));
}

#[test]
fn log_dir_is_a_subdirectory_of_the_resolved_directory() {
    let storage = storage_in("/home/ada/.local/share/com.rendyuwu.ketikin");

    let logs = storage.log_dir().expect("log dir");
    assert_eq!(logs, "/home/ada/.local/share/com.rendyuwu.ketikin/logs");
}

#[test]
fn the_probed_file_name_is_the_one_the_plugin_is_given() {
    let stem = log_file_stem_from(Some("ada"));
    let storage = Storage::resolve(vec![ok("appData", "/d")], stem.clone(), false);

    assert_eq!(storage.log_file(), stem);
    assert_eq!(storage.log_file(), "Ketikin-ada");
}

#[test]
fn the_first_backup_takes_the_plain_name() {
    assert_eq!(unused_backup("settings", &vec![]), Some("settings.json.bak".to_string()));
}

#[test]
fn a_second_backup_never_overwrites_the_first() {
    let taken = vec!["settings.json.bak".to_string(), "settings.json.bak2".to_string()];
    assert_eq!(unused_backup("settings", &taken), Some("settings.json.bak3".to_string()));
    let gap = vec!["templates.json.bak".to_string(), "templates.json.bak3".to_string()];
    assert_eq!(unused_backup("templates", &gap), Some("templates.json.bak2".to_string()));
}

#[test]
fn other_files_do_not_count_as_taken() {
    let taken = vec!["templates.json.bak".to_string(), "settings.json".to_string()];
    assert_eq!(unused_backup("settings", &taken), Some("settings.json.bak".to_string()));
}

#[test]
fn no_backup_name_is_offered_once_all_are_taken() {
    let taken: Vec<String> = (1..=20).map(|n| backup_candidate("settings", n).unwrap()).collect();
    assert_eq!(unused_backup("settings", &taken), None);
    let all_but_last: Vec<String> = taken[..19].to_vec();
    assert_eq!(unused_backup("settings", &all_but_last), Some("settings.json.bak20".to_string()));
}
