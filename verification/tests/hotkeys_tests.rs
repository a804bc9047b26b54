use std::cell::RefCell;
use std::collections::HashSet;

use ketikin::error::AppError;
use ketikin::hotkeys::{
    after_register, after_restore, begin_move, refused_message, unparsable_message, validate,
    AfterRegister, Applying, Bound, HotkeyCall, HotkeyError, HotkeyHandle, MoveStart, Slot,
    SlotOutcome,
};
use ketikin::settings::Settings;

/// Fake OS registry: refuses anything in `blocked`, tracks what is grabbed.
struct FakeRegistry {
    grabbed: RefCell<HashSet<String>>,
    blocked: HashSet<String>,
    calls: RefCell<usize>,
}

impl FakeRegistry {
    fn new(blocked: &[&str]) -> Self {
        Self {
            grabbed: RefCell::new(HashSet::new()),
            blocked: blocked.iter().map(|s| s.to_string()).collect(),
            calls: RefCell::new(0),
        }
    }

    fn register(&self, accelerator: &str) -> Result<(), String> {
        *self.calls.borrow_mut() += 1;
        if self.blocked.contains(accelerator) {
            return Err(format!("{accelerator} is taken."));
        }
        self.grabbed.borrow_mut().insert(accelerator.to_string());
        Ok(())
    }

    fn unregister(&self, accelerator: &str) {
        *self.calls.borrow_mut() += 1;
        self.grabbed.borrow_mut().remove(accelerator);
    }

    /// Drive one slot move through the library's decisions.
    fn run(&self, current: Option<&str>, desired: &str, fallback: Option<&str>) -> SlotOutcome {
        match begin_move(current, desired) {
            MoveStart::Unchanged(outcome) => outcome,
            MoveStart::Register { release } => {
                if let Some(old) = release {
                    self.unregister(&old);
                }
                let result = self.register(desired);
                match after_register(desired, fallback, result) {
                    AfterRegister::Done(outcome) => outcome,
                    AfterRegister::Restore { previous, error } => {
                        let restored = self.register(&previous);
                        after_restore(&previous, &error, restored)
                    }
                }
            }
        }
    }

    /// Run a whole apply, making each OS call it asks for.
    fn apply(
        &self,
        handle: HotkeyHandle,
        previous: &Settings,
        desired: &Settings,
    ) -> (HotkeyHandle, Settings, Vec<HotkeyError>) {
        let (mut applying, mut call) = Applying::start(handle, previous.clone(), desired.clone());
        loop {
            match call {
                HotkeyCall::Register { release, accelerator, .. } => {
                    if let Some(old) = release {
                        self.unregister(&old);
                    }
                    assert!(applying.awaiting());
                    let result = self.register(&accelerator);
                    (applying, call) = applying.answer(result);
                }
                HotkeyCall::Finish { release } => {
                    for accelerator in release {
                        self.unregister(&accelerator);
                    }
                    break;
                }
            }
        }
        assert!(applying.is_finished());
        applying.finish()
    }

    fn grabbed(&self) -> Vec<String> {
        let mut all: Vec<String> = self.grabbed.borrow().iter().cloned().collect();
        all.sort();
        all
    }
}

#[test]
fn accepts_the_default_accelerators() {
    validate("CommandOrControl+Alt+T").expect("start default should parse");
    validate("CommandOrControl+Alt+X").expect("stop default should parse");
    validate("  Alt+Shift+K  ").expect("surrounding whitespace should be ignored");
}

#[test]
fn rejects_nonsense() {
    assert!(validate("").is_err());
    assert!(validate("   ").is_err());
    assert!(validate("NotAKey").is_err());
    assert!(validate("Ctrl+").is_err());
}

#[test]
fn rejection_message_names_the_accelerator() {
    let err = validate("Meta+Nope").expect_err("must fail");
    assert!(err.message().contains("Meta+Nope"));
}

#[test]
fn an_empty_accelerator_asks_for_one() {
    assert_eq!(
        validate(" \t ").expect_err("blank"),
        AppError::Hotkey("enter a shortcut".to_string())
    );
}

#[test]
fn a_parse_failure_is_prefixed_with_the_trimmed_accelerator() {
    let err = validate("  Ctrl+  ").expect_err("empty token");
    let message = err.message();
    assert!(
        message.starts_with("Ctrl+ is not a valid shortcut: "),
        "got {message}"
    );
    // The parser's own words follow, so the message is longer than the prefix.
    assert!(message.len() > "Ctrl+ is not a valid shortcut: ".len());
}

#[test]
fn a_successful_rebind_replaces_the_old_grab() {
    let os = FakeRegistry::new(&[]);
    let outcome = os.run(Some("Alt+A"), "Alt+B", Some("Alt+A"));

    assert_eq!(outcome.bound.as_deref(), Some("Alt+B"));
    assert_eq!(outcome.error, None);
    assert_eq!(os.grabbed(), vec!["Alt+B"]);
}

#[test]
fn rebinding_to_the_same_accelerator_does_not_touch_the_os() {
    let os = FakeRegistry::new(&["Alt+A"]);
    let outcome = os.run(Some("Alt+A"), "Alt+A", Some("Alt+A"));

    assert_eq!(outcome.bound.as_deref(), Some("Alt+A"));
    assert_eq!(outcome.error, None);
    assert_eq!(*os.calls.borrow(), 0);
}

#[test]
fn a_refused_rebind_restores_the_previous_binding() {
    let os = FakeRegistry::new(&["Alt+TAKEN"]);
    let outcome = os.run(Some("Alt+A"), "Alt+TAKEN", Some("Alt+A"));

    assert_eq!(outcome.bound.as_deref(), Some("Alt+A"));
    assert_eq!(os.grabbed(), vec!["Alt+A"]);

    let message = outcome.error.expect("must report the failure");
    assert!(message.contains("Alt+TAKEN"));
    assert!(message.contains("Alt+A is still active"));
    assert_eq!(
        message,
        "Alt+TAKEN is taken. Your previous shortcut Alt+A is still active."
    );
}

#[test]
fn a_refused_rebind_with_an_unrestorable_previous_is_reported_distinctly() {
    let os = FakeRegistry::new(&["Alt+TAKEN", "Alt+A"]);
    let outcome = os.run(Some("Alt+A"), "Alt+TAKEN", Some("Alt+A"));

    assert_eq!(outcome.bound, None);
    let message = outcome.error.expect("must report the failure");
    assert!(message.contains("Restoring the previous shortcut Alt+A also failed"));
    assert!(message.contains("currently unavailable"));
    assert!(os.grabbed().is_empty());
    assert_eq!(
        message,
        "Alt+TAKEN is taken. Restoring the previous shortcut Alt+A also failed \
         (Alt+A is taken.), so this shortcut is currently unavailable."
    );
}

#[test]
fn a_refused_first_registration_has_nothing_to_restore() {
    let os = FakeRegistry::new(&["Alt+TAKEN"]);
    let outcome = os.run(None, "Alt+TAKEN", Some("Alt+TAKEN"));

    assert_eq!(outcome.bound, None);
    let message = outcome.error.expect("must report the failure");
    assert!(message.contains("Alt+TAKEN is taken"));
    assert!(!message.contains("still active"));
}

#[test]
fn binding_a_slot_for_the_first_time_succeeds_cleanly() {
    let os = FakeRegistry::new(&[]);
    let outcome = os.run(None, "Alt+A", Some("Alt+A"));

    assert_eq!(outcome.bound.as_deref(), Some("Alt+A"));
    assert_eq!(outcome.error, None);
    assert_eq!(os.grabbed(), vec!["Alt+A"]);
}

#[test]
fn a_refusal_without_any_fallback_ends_unbound() {
    match after_register("Alt+Z", None, Err("nope".to_string())) {
        AfterRegister::Done(outcome) => {
            assert_eq!(outcome.bound, None);
            assert_eq!(outcome.error.as_deref(), Some("nope"));
        }
        AfterRegister::Restore { .. } => panic!("nothing to restore"),
    }
}

#[test]
fn bound_tracks_slots_independently() {
    let mut bound = Bound::default();
    assert_eq!(bound.get(Slot::Start), None);
    assert_eq!(bound.get(Slot::Stop), None);

    bound.set(Slot::Start, Some("Alt+A".to_string()));
    assert_eq!(bound.get(Slot::Start), Some("Alt+A"));
    assert_eq!(bound.get(Slot::Stop), None, "slots must not alias");

    bound.set(Slot::Stop, Some("Alt+B".to_string()));
    bound.set(Slot::Start, None);
    assert_eq!(bound.get(Slot::Start), None);
    assert_eq!(bound.get(Slot::Stop), Some("Alt+B"));
}

#[test]
fn slot_accessors_map_to_the_right_settings_field() {
    let mut settings = Settings::default();
    assert_eq!(Slot::Start.accelerator(&settings), "CommandOrControl+Alt+T");
    assert_eq!(Slot::Stop.accelerator(&settings), "CommandOrControl+Alt+X");

    Slot::Start.set_accelerator(&mut settings, "Alt+1".to_string());
    Slot::Stop.set_accelerator(&mut settings, "Alt+2".to_string());

    assert_eq!(settings.start_hotkey, "Alt+1");
    assert_eq!(settings.stop_hotkey, "Alt+2");
    assert_eq!(Slot::Start.as_str(), "start");
    assert_eq!(Slot::Stop.as_str(), "stop");
}

#[test]
fn a_refused_slot_persists_the_previous_accelerator() {
    let mut handle = HotkeyHandle::new();
    let previous = Settings::default();
    let desired = Settings {
        start_hotkey: "Alt+TAKEN".to_string(),
        ..Settings::default()
    };
    let mut effective = desired.clone();

    let targets = handle.targets(Slot::Start, &previous, &desired);
    assert_eq!(targets.current, None);
    assert_eq!(targets.wanted, "Alt+TAKEN");
    assert_eq!(targets.fallback, "CommandOrControl+Alt+T");

    let os = FakeRegistry::new(&["Alt+TAKEN", "CommandOrControl+Alt+T"]);
    let outcome = os.run(
        targets.current.as_deref(),
        &targets.wanted,
        Some(&targets.fallback),
    );
    handle.record(Slot::Start, &outcome, &previous, &mut effective);

    assert_eq!(handle.bound().get(Slot::Start), None);
    assert_eq!(effective.start_hotkey, "CommandOrControl+Alt+T");
    assert_eq!(effective.stop_hotkey, desired.stop_hotkey);
}

#[test]
fn a_successful_slot_persists_the_new_accelerator() {
    let mut handle = HotkeyHandle::new();
    let previous = Settings::default();
    let desired = Settings {
        stop_hotkey: "Alt+Q".to_string(),
        ..Settings::default()
    };
    let mut effective = desired.clone();
    let os = FakeRegistry::new(&[]);

    let targets = handle.targets(Slot::Stop, &previous, &desired);
    let outcome = os.run(
        targets.current.as_deref(),
        &targets.wanted,
        Some(&targets.fallback),
    );
    handle.record(Slot::Stop, &outcome, &previous, &mut effective);

    assert_eq!(handle.bound().get(Slot::Stop), Some("Alt+Q"));
    assert_eq!(effective.stop_hotkey, "Alt+Q");
}

#[test]
fn suspend_then_resume_rearms_what_was_bound() {
    let mut handle = HotkeyHandle::new();
    let settings = Settings::default();
    let mut effective = settings.clone();
    handle.record(
        Slot::Start,
        &SlotOutcome {
            bound: Some("Alt+S".to_string()),
            error: None,
        },
        &settings,
        &mut effective,
    );

    assert_eq!(handle.suspend(), vec!["Alt+S".to_string()]);
    assert!(handle.bound().is_suspended());
    assert!(handle.suspend().is_empty(), "a second suspend releases nothing");

    assert_eq!(handle.resume(), vec![Slot::Start]);
    assert!(!handle.bound().is_suspended());
    assert_eq!(handle.bound().get(Slot::Start), Some("Alt+S"));
    assert!(handle.resume().is_empty(), "resume is idempotent");
}

#[test]
fn release_all_unbinds_both_slots_and_keeps_the_suspension() {
    let mut handle = HotkeyHandle::new();
    let settings = Settings::default();
    let mut effective = settings.clone();
    for (slot, accelerator) in [(Slot::Start, "Alt+1"), (Slot::Stop, "Alt+2")] {
        handle.record(
            slot,
            &SlotOutcome {
                bound: Some(accelerator.to_string()),
                error: None,
            },
            &settings,
            &mut effective,
        );
    }
    handle.suspend();
    let was = handle.lift_suspension();
    assert!(was);

    assert_eq!(
        handle.release_all(),
        vec!["Alt+1".to_string(), "Alt+2".to_string()]
    );
    handle.reinstate_suspension(was);
    assert!(handle.bound().is_suspended());
    assert_eq!(handle.bound().get(Slot::Start), None);
    assert_eq!(handle.bound().get(Slot::Stop), None);
}

#[test]
fn a_failed_resume_forgets_the_slot() {
    let mut handle = HotkeyHandle::new();
    let settings = Settings::default();
    let mut effective = settings.clone();
    handle.record(
        Slot::Stop,
        &SlotOutcome {
            bound: Some("Alt+X".to_string()),
            error: None,
        },
        &settings,
        &mut effective,
    );
    handle.suspend();
    assert_eq!(handle.resume(), vec![Slot::Stop]);
    handle.forget(Slot::Stop);
    assert_eq!(handle.bound().get(Slot::Stop), None);
}

#[test]
fn registration_messages_name_the_accelerator() {
    assert_eq!(
        unparsable_message("Alt+?", "bad key"),
        "Alt+? is not a valid shortcut (bad key)."
    );
    assert_eq!(
        refused_message("Alt+K", "already registered"),
        "Alt+K could not be registered — another application may already be using it \
         (already registered)."
    );
}

#[test]
fn a_failed_move_is_reported_against_the_asked_accelerator() {
    let failed = SlotOutcome { bound: Some("Alt+A".to_string()), error: Some("taken".to_string()) };
    let report = ketikin::hotkeys::failure_report(Slot::Stop, "Alt+B", &failed).expect("reported");
    assert_eq!(report.which, "stop");
    assert_eq!(report.accelerator, "Alt+B");
    assert_eq!(report.message, "taken");

    let fine = SlotOutcome { bound: Some("Alt+B".to_string()), error: None };
    assert!(ketikin::hotkeys::failure_report(Slot::Start, "Alt+B", &fine).is_none());
}

#[test]
fn an_apply_binds_both_slots_from_nothing() {
    let os = FakeRegistry::new(&[]);
    let settings = Settings::default();
    let (handle, effective, errors) = os.apply(HotkeyHandle::new(), &settings, &settings);
    assert!(errors.is_empty());
    assert_eq!(effective, settings);
    assert_eq!(handle.bound().get(Slot::Start), Some("CommandOrControl+Alt+T"));
    assert_eq!(handle.bound().get(Slot::Stop), Some("CommandOrControl+Alt+X"));
    assert_eq!(
        os.grabbed(),
        vec!["CommandOrControl+Alt+T".to_string(), "CommandOrControl+Alt+X".to_string()]
    );
}

#[test]
fn an_apply_with_a_refused_rebind_keeps_the_previous_shortcut() {
    let os = FakeRegistry::new(&["Alt+TAKEN"]);
    let previous = Settings::default();
    let (handle, _, _) = os.apply(HotkeyHandle::new(), &previous, &previous);
    let desired = Settings { start_hotkey: "Alt+TAKEN".to_string(), stop_hotkey: "Alt+Q".to_string(), ..previous.clone() };

    let (handle, effective, errors) = os.apply(handle, &previous, &desired);

    assert_eq!(effective.start_hotkey, "CommandOrControl+Alt+T");
    assert_eq!(effective.stop_hotkey, "Alt+Q");
    assert_eq!(handle.bound().get(Slot::Start), Some("CommandOrControl+Alt+T"));
    assert_eq!(handle.bound().get(Slot::Stop), Some("Alt+Q"));
    assert_eq!(errors.len(), 1);
    assert_eq!(errors[0].which, "start");
    assert_eq!(errors[0].accelerator, "Alt+TAKEN");
    assert_eq!(
        errors[0].message,
        "Alt+TAKEN is taken. Your previous shortcut CommandOrControl+Alt+T is still active."
    );
    assert_eq!(
        os.grabbed(),
        vec!["Alt+Q".to_string(), "CommandOrControl+Alt+T".to_string()]
    );
}

#[test]
fn an_apply_with_an_unrestorable_slot_persists_the_previous_value_unbound() {
    let os = FakeRegistry::new(&["Alt+TAKEN", "CommandOrControl+Alt+T"]);
    let previous = Settings::default();
    let desired = Settings { start_hotkey: "Alt+TAKEN".to_string(), ..previous.clone() };

    let (handle, effective, errors) = os.apply(HotkeyHandle::new(), &previous, &desired);

    assert_eq!(handle.bound().get(Slot::Start), None);
    assert_eq!(effective.start_hotkey, "CommandOrControl+Alt+T");
    assert_eq!(errors.len(), 1);
    assert!(errors[0].message.contains("also failed"));
}

#[test]
fn an_apply_with_hotkeys_off_releases_everything_and_keeps_the_request() {
    let os = FakeRegistry::new(&[]);
    let previous = Settings::default();
    let (handle, _, _) = os.apply(HotkeyHandle::new(), &previous, &previous);
    let desired = Settings { hotkeys_enabled: false, start_hotkey: "Alt+Z".to_string(), ..previous.clone() };

    let (handle, effective, errors) = os.apply(handle, &previous, &desired);

    assert!(errors.is_empty());
    assert_eq!(effective, desired);
    assert_eq!(handle.bound().get(Slot::Start), None);
    assert_eq!(handle.bound().get(Slot::Stop), None);
    assert!(os.grabbed().is_empty());
}

#[test]
fn an_apply_during_a_capture_leaves_the_capture_suspended() {
    let os = FakeRegistry::new(&[]);
    let previous = Settings::default();
    let (mut handle, _, _) = os.apply(HotkeyHandle::new(), &previous, &previous);
    for accelerator in handle.suspend() {
        os.unregister(&accelerator);
    }
    let desired = Settings { stop_hotkey: "Alt+Q".to_string(), ..previous.clone() };

    let (mut handle, effective, errors) = os.apply(handle, &previous, &desired);

    assert!(errors.is_empty());
    assert_eq!(effective.stop_hotkey, "Alt+Q");
    assert!(handle.bound().is_suspended());
    assert!(os.grabbed().is_empty(), "nothing stays grabbed while capturing");
    assert_eq!(handle.resume(), vec![Slot::Start, Slot::Stop]);
    assert_eq!(handle.bound().get(Slot::Stop), Some("Alt+Q"));
}

#[test]
fn an_unchanged_apply_makes_no_os_calls() {
    let os = FakeRegistry::new(&[]);
    let settings = Settings::default();
    let (handle, _, _) = os.apply(HotkeyHandle::new(), &settings, &settings);
    let before = *os.calls.borrow();
    let (_, effective, errors) = os.apply(handle, &settings, &settings);
    assert!(errors.is_empty());
    assert_eq!(effective, settings);
    assert_eq!(*os.calls.borrow(), before);
}
