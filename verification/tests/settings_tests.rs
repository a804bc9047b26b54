use ketikin::settings::{Settings, DEFAULT_START_HOTKEY, DEFAULT_STOP_HOTKEY};
use ketikin::storage::{ProbeAttempt, ReadOutcome, Storage};

fn storage_in(dir: &str) -> Storage {
    Storage::resolve(
        vec![ProbeAttempt {
            source: "appData".to_string(),
            dir: dir.to_string(),
            log_dir: format!("{dir}/logs"),
            data: Ok(()),
            logs: Ok(()),
        }],
        "Ketikin".to_string(),
        false,
    )
}

#[test]
fn defaults_match_the_documented_contract() {
    let settings = Settings::default();

    assert_eq!(settings.typing_delay_ms, 25);
    assert_eq!(settings.start_delay_secs, 3);
    assert_eq!(settings.theme, "system");
    assert!(settings.minimize_to_tray);
    assert!(settings.close_to_tray);
    assert!(!settings.always_on_top);
    assert!(settings.hotkeys_enabled);
    assert_eq!(settings.start_hotkey, "CommandOrControl+Alt+T");
    assert_eq!(settings.stop_hotkey, "CommandOrControl+Alt+X");
    assert_eq!(settings.newline_mode, "enter");
    assert!(settings.auto_check_updates);
}

#[test]
fn normalize_clamps_numbers_and_rejects_unknown_enums() {
    let mut settings = Settings {
        typing_delay_ms: 0,
        start_delay_secs: 99,
        theme: "neon".to_string(),
        newline_mode: "carriage-pigeon".to_string(),
        start_hotkey: "   ".to_string(),
        stop_hotkey: "  Alt+Q  ".to_string(),
        ..Settings::default()
    };
    settings.normalize();

    assert_eq!(settings.typing_delay_ms, 1);
    assert_eq!(settings.start_delay_secs, 10);
    assert_eq!(settings.theme, "system");
    assert_eq!(settings.newline_mode, "enter");
    assert_eq!(settings.start_hotkey, DEFAULT_START_HOTKEY);
    assert_eq!(settings.stop_hotkey, "Alt+Q");

    let mut high = Settings {
        typing_delay_ms: 5_000,
        ..Settings::default()
    };
    high.normalize();
    assert_eq!(high.typing_delay_ms, 1000);
}

#[test]
fn normalize_keeps_valid_values_untouched() {
    let given = Settings {
        typing_delay_ms: 250,
        start_delay_secs: 0,
        theme: "dark".to_string(),
        newline_mode: "shiftEnter".to_string(),
        ..Settings::default()
    };
    let mut normalized = given.clone();
    normalized.normalize();

    assert_eq!(given, normalized);
}

#[test]
fn normalize_is_idempotent() {
    let mut once = Settings {
        typing_delay_ms: 70_000,
        start_delay_secs: 11,
        theme: "Dark".to_string(),
        newline_mode: "skip".to_string(),
        start_hotkey: "\u{3000}Alt+1\t".to_string(),
        stop_hotkey: "\n".to_string(),
        ..Settings::default()
    };
    once.normalize();
    let mut twice = once.clone();
    twice.normalize();

    assert_eq!(once, twice);
    assert_eq!(once.typing_delay_ms, 1000);
    assert_eq!(once.start_delay_secs, 10);
    assert_eq!(once.theme, "system", "theme names are case-sensitive");
    assert_eq!(once.newline_mode, "skip");
    assert_eq!(once.start_hotkey, "Alt+1", "unicode whitespace is trimmed too");
    assert_eq!(once.stop_hotkey, "CommandOrControl+Alt+X");
}

#[test]
fn normalize_keeps_delays_at_the_edges_of_their_ranges() {
    let mut edges = Settings {
        typing_delay_ms: 1,
        start_delay_secs: 10,
        ..Settings::default()
    };
    edges.normalize();
    assert_eq!(edges.typing_delay_ms, 1);
    assert_eq!(edges.start_delay_secs, 10);

    let mut top = Settings {
        typing_delay_ms: 1000,
        ..Settings::default()
    };
    top.normalize();
    assert_eq!(top.typing_delay_ms, 1000);
}

#[test]
fn validate_rejects_two_slots_sharing_one_accelerator() {
    let settings = Settings {
        start_hotkey: "Alt+K".to_string(),
        stop_hotkey: "Alt+K".to_string(),
        ..Settings::default()
    };

    let err = settings.validate().expect_err("must reject");
    let message = err.message();

    assert!(message.contains("Alt+K"));
    assert!(message.contains("start and stop"));
    assert!(!message.contains("another application"));
    assert_eq!(
        message,
        "the start and stop shortcuts are both set to Alt+K — give them different keys"
    );
}

#[test]
fn validate_ignores_case_when_comparing_accelerators() {
    let settings = Settings {
        start_hotkey: "Alt+K".to_string(),
        stop_hotkey: "alt+k".to_string(),
        ..Settings::default()
    };

    assert!(settings.validate().is_err());
}

#[test]
fn validate_only_folds_ascii_case() {
    let settings = Settings {
        start_hotkey: "Alt+É".to_string(),
        stop_hotkey: "Alt+é".to_string(),
        ..Settings::default()
    };

    assert!(settings.validate().is_ok());
}

#[test]
fn validate_allows_a_clash_while_hotkeys_are_disabled() {
    let settings = Settings {
        hotkeys_enabled: false,
        start_hotkey: "Alt+K".to_string(),
        stop_hotkey: "Alt+K".to_string(),
        ..Settings::default()
    };

    settings
        .validate()
        .expect("disabled hotkeys cannot conflict");
}

#[test]
fn validate_accepts_the_defaults() {
    Settings::default()
        .validate()
        .expect("defaults must be valid");
}

#[test]
fn round_trips_through_storage() {
    let mut storage = storage_in("/data");

    assert_eq!(
        Settings::load(&mut storage, ReadOutcome::Missing),
        Settings::default()
    );

    let settings = Settings {
        typing_delay_ms: 40,
        theme: "light".to_string(),
        hotkeys_enabled: false,
        ..Settings::default()
    };
    assert_eq!(
        Settings::load(&mut storage, ReadOutcome::Parsed(settings.clone())),
        settings
    );
    assert!(storage.info().notices.is_empty());
}

#[test]
fn load_normalizes_an_out_of_range_file() {
    let mut storage = storage_in("/data");
    let on_disk = Settings {
        typing_delay_ms: 99999,
        start_delay_secs: 60,
        theme: "puce".to_string(),
        ..Settings::default()
    };

    let settings = Settings::load(&mut storage, ReadOutcome::Parsed(on_disk));
    assert_eq!(settings.typing_delay_ms, 1000);
    assert_eq!(settings.start_delay_secs, 10);
    assert_eq!(settings.theme, "system");
}

#[test]
fn corrupt_settings_file_recovers_to_defaults() {
    let mut storage = storage_in("/data");

    let loaded = Settings::load(
        &mut storage,
        ReadOutcome::Corrupt {
            error: "expected value at line 1 column 1".to_string(),
            backup: "settings.json.bak".to_string(),
            moved: Ok(()),
        },
    );

    assert_eq!(loaded, Settings::default());
    let notices = storage.info().notices;
    assert_eq!(
        notices,
        vec![
            "settings.json could not be read and was reset to the built-in defaults. The \
             unreadable file was kept as settings.json.bak."
                .to_string()
        ]
    );
    assert!(storage.is_degraded());
}

#[test]
fn in_memory_storage_loads_the_defaults_whatever_is_read() {
    let mut storage = Storage::resolve(Vec::new(), "Ketikin".to_string(), false);
    let on_disk = Settings {
        typing_delay_ms: 300,
        ..Settings::default()
    };

    assert_eq!(
        Settings::load(&mut storage, ReadOutcome::Parsed(on_disk)),
        Settings::default()
    );
    assert_eq!(storage.info().notices.len(), 1);
}

#[test]
fn a_file_with_one_accelerator_in_both_slots_is_repaired_on_load() {
    let mut storage = storage_in("/data");
    let on_disk = Settings {
        start_hotkey: "Alt+K".to_string(),
        stop_hotkey: " alt+k ".to_string(),
        ..Settings::default()
    };

    let loaded = Settings::load(&mut storage, ReadOutcome::Parsed(on_disk));
    assert_eq!(loaded.start_hotkey, "Alt+K");
    assert_eq!(loaded.stop_hotkey, DEFAULT_STOP_HOTKEY);
    loaded.validate().expect("what loads can be saved again");
}

#[test]
fn a_clash_on_the_stop_default_falls_back_to_both_defaults() {
    let mut storage = storage_in("/data");
    let on_disk = Settings {
        start_hotkey: "commandorcontrol+alt+x".to_string(),
        stop_hotkey: DEFAULT_STOP_HOTKEY.to_string(),
        ..Settings::default()
    };

    let loaded = Settings::load(&mut storage, ReadOutcome::Parsed(on_disk));
    assert_eq!(loaded.start_hotkey, DEFAULT_START_HOTKEY);
    assert_eq!(loaded.stop_hotkey, DEFAULT_STOP_HOTKEY);
}

#[test]
fn a_clash_with_hotkeys_off_is_left_as_stored() {
    let mut settings = Settings {
        hotkeys_enabled: false,
        start_hotkey: "Alt+K".to_string(),
        stop_hotkey: "Alt+K".to_string(),
        ..Settings::default()
    };
    let before = settings.clone();

    settings.repair_clash();
    assert_eq!(settings, before);
}

#[test]
fn saving_settings_reports_a_failed_write_against_their_file() {
    let storage = storage_in("/data");
    let settings = Settings::default();
    assert_eq!(settings.save(&storage, Ok(())), Ok(()));
    assert_eq!(
        settings.save(&storage, Err("denied".to_string())),
        Err(ketikin::error::AppError::Storage("could not save settings.json: denied".to_string()))
    );
}
