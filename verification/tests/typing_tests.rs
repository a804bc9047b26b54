use ketikin::error::AppError;
use ketikin::settings::Settings;
use ketikin::typing::{
    connection_error_message, key_for, normalize_text, start, Done, KeyAction, NewlineMode,
    Platform, RunClaim, Step, TypingHandle, TypingRun, TypingState, ALREADY_TYPING, MAX_CHARS,
};

fn settings(delay_ms: u32, start_delay_secs: u32, newline: &str) -> Settings {
    Settings {
        typing_delay_ms: delay_ms,
        start_delay_secs,
        newline_mode: newline.to_string(),
        ..Settings::default()
    }
}

fn state(phase: &str, typed: u32, total: u32, countdown: u32) -> TypingState {
    TypingState { phase: phase.to_string(), typed, total, countdown }
}

fn done_reason(step: &Step) -> Option<(String, Option<String>)> {
    match step {
        Step::Finish(Done { reason, message }, _) => Some((reason.clone(), message.clone())),
        _ => None,
    }
}

#[test]
fn normalize_collapses_crlf_and_lone_cr() {
    assert_eq!(normalize_text("a\r\nb"), "a\nb");
    assert_eq!(normalize_text("a\rb"), "a\nb");
    assert_eq!(normalize_text("a\r\n\r\nb"), "a\n\nb");
    assert_eq!(normalize_text("a\n\rb"), "a\n\nb");
    assert_eq!(normalize_text("a\r\rb"), "a\n\nb");
}

#[test]
fn normalize_leaves_clean_text_alone() {
    assert_eq!(normalize_text("a\nb\tc"), "a\nb\tc");
    assert_eq!(normalize_text(""), "");
    assert_eq!(normalize_text("halo dunia"), "halo dunia");
}

#[test]
fn normalize_preserves_non_ascii() {
    assert_eq!(normalize_text("café ☕\r\nselesai"), "café ☕\nselesai");
}

#[test]
fn normalize_is_idempotent_and_leaves_no_carriage_return() {
    for text in ["\r", "\r\r\n\n\r", "x\r\n", "\r\n\r", "plain"] {
        let once = normalize_text(text);
        assert!(!once.contains('\r'));
        assert_eq!(normalize_text(&once), once);
    }
}

#[test]
fn newline_mode_parses_known_values_and_defaults_the_rest() {
    assert_eq!(NewlineMode::parse("enter"), NewlineMode::Enter);
    assert_eq!(NewlineMode::parse("shiftEnter"), NewlineMode::ShiftEnter);
    assert_eq!(NewlineMode::parse("skip"), NewlineMode::Skip);
    assert_eq!(NewlineMode::parse("shift_enter"), NewlineMode::Enter);
    assert_eq!(NewlineMode::parse(""), NewlineMode::Enter);
}

#[test]
fn typing_state_defaults_to_idle() {
    let state = TypingState::default();

    assert_eq!(state.phase, "idle");
    assert_eq!(state.typed, 0);
    assert_eq!(state.total, 0);
    assert_eq!(state.countdown, 0);
}

#[test]
fn handle_admits_one_run_at_a_time() {
    let mut handle = TypingHandle::default();

    let claim = handle.begin(10, 3).expect("first run should be accepted");
    assert_eq!(claim, RunClaim { total: 10, countdown: 3 });
    assert_eq!(handle.status().phase, "countdown");
    assert_eq!(handle.status().total, 10);
    assert_eq!(handle.status().countdown, 3);

    assert!(handle.begin(5, 0).is_none(), "second run must be refused");

    assert!(handle.request_stop());
    assert!(handle.is_cancelled());

    handle.release();
    assert_eq!(handle.status(), TypingState::idle());
    assert!(!handle.request_stop(), "stop while idle reports no run");
    assert!(handle.begin(1, 0).is_some(), "engine is reusable after release");
}

#[test]
fn a_new_run_clears_an_old_stop_request() {
    let mut handle = TypingHandle::default();
    handle.begin(2, 0).expect("accepted");
    assert!(handle.request_stop());
    handle.release();
    assert!(!handle.is_cancelled());

    handle.begin(2, 0).expect("accepted");
    assert!(!handle.is_cancelled());
}

#[test]
fn stored_progress_is_what_status_reports() {
    let mut handle = TypingHandle::default();
    handle.begin(4, 0).expect("accepted");
    handle.store(&state("typing", 2, 4, 0));

    assert_eq!(handle.status(), state("typing", 2, 4, 0));
}

#[test]
fn connection_error_message_is_actionable() {
    let mac = connection_error_message("no permission", Platform::MacOs);
    let linux = connection_error_message("no permission", Platform::Linux);
    let other = connection_error_message("no permission", Platform::Other);

    for message in [&mac, &linux, &other] {
        assert!(message.starts_with("Ketikin could not connect to the system keyboard"));
        assert!(message.contains("(no permission)"));
    }
    assert!(mac.contains("Accessibility"));
    assert!(linux.contains("X11"));
    assert_eq!(
        other,
        "Ketikin could not connect to the system keyboard (no permission)."
    );
}

#[test]
fn keys_follow_the_newline_mode() {
    assert_eq!(key_for('\n', NewlineMode::Enter), KeyAction::Enter);
    assert_eq!(key_for('\n', NewlineMode::ShiftEnter), KeyAction::ShiftEnter);
    assert_eq!(key_for('\n', NewlineMode::Skip), KeyAction::Nothing);
    assert_eq!(key_for('\t', NewlineMode::Skip), KeyAction::Tab);
    assert_eq!(key_for('é', NewlineMode::Enter), KeyAction::Text('é'));
}

#[test]
fn a_run_counts_down_then_types_every_character() {
    let mut handle = TypingHandle::default();
    let mut run = start(&mut handle, "a\r\nb", &settings(40, 2, "enter")).expect("accepted");
    assert_eq!(handle.status(), state("countdown", 0, 3, 2));

    match run.next(false) {
        Step::Countdown(s) => assert_eq!(s, state("countdown", 0, 3, 2)),
        other => panic!("unexpected {other:?}"),
    }
    match run.next(false) {
        Step::Countdown(s) => assert_eq!(s, state("countdown", 0, 3, 1)),
        other => panic!("unexpected {other:?}"),
    }
    match run.next(false) {
        Step::BeginTyping(s) => assert_eq!(s, state("typing", 0, 3, 0)),
        other => panic!("unexpected {other:?}"),
    }

    let mut keys = Vec::new();
    let mut typed: u32 = 0;
    while run.ready() {
        match run.next(false) {
            Step::Key(key) => {
                keys.push(key);
                assert!(run.awaiting_send());
                typed += 1;
                match run.sent(Ok(()), false) {
                    Step::Progress(s, delay) => {
                        assert_eq!(s, state("typing", typed, 3, 0));
                        assert_eq!(delay, 40);
                    }
                    other => panic!("unexpected {other:?}"),
                }
            }
            Step::Finish(done, shown) => {
                assert_eq!(done.reason, "completed");
                assert_eq!(done.message, None);
                assert_eq!(shown, Some(state("typing", 3, 3, 0)));
            }
            other => panic!("unexpected {other:?}"),
        }
    }

    assert!(run.is_over());
    assert_eq!(keys, vec![KeyAction::Text('a'), KeyAction::Enter, KeyAction::Text('b')]);
}

#[test]
fn a_run_without_a_countdown_starts_typing_at_once() {
    let mut handle = TypingHandle::default();
    let mut run = start(&mut handle, "", &settings(25, 0, "enter")).expect("accepted");

    assert!(matches!(run.next(false), Step::BeginTyping(_)));
    let finish = run.next(false);
    assert_eq!(done_reason(&finish), Some(("completed".to_string(), None)));
    assert!(run.is_over());
}

#[test]
fn a_stop_during_the_countdown_ends_the_run_quietly() {
    let mut handle = TypingHandle::default();
    let mut run = start(&mut handle, "abc", &settings(25, 3, "enter")).expect("accepted");

    let step = run.next(true);
    assert_eq!(done_reason(&step), Some(("stopped".to_string(), None)));
    assert!(matches!(step, Step::Finish(_, None)));
    assert!(run.is_over());
}

#[test]
fn a_stop_while_shift_is_held_releases_it_first() {
    let mut handle = TypingHandle::default();
    let mut run = start(&mut handle, "\nx", &settings(25, 0, "shiftEnter")).expect("accepted");

    assert!(matches!(run.next(false), Step::BeginTyping(_)));
    assert!(matches!(run.next(false), Step::Key(KeyAction::ShiftEnter)));
    assert!(matches!(run.sent(Ok(()), true), Step::Progress(_, _)));

    assert!(matches!(run.next(true), Step::ReleaseShift));
    assert!(!run.is_over());
    let step = run.next(false);
    assert_eq!(done_reason(&step), Some(("stopped".to_string(), None)));
    assert!(run.is_over());
}

#[test]
fn a_refused_keystroke_ends_the_run_with_its_reason() {
    let mut handle = TypingHandle::default();
    let mut run = start(&mut handle, "ab", &settings(25, 0, "enter")).expect("accepted");

    assert!(matches!(run.next(false), Step::BeginTyping(_)));
    assert!(matches!(run.next(false), Step::Key(KeyAction::Text('a'))));
    let step = run.sent(Err("denied".to_string()), false);

    assert_eq!(
        done_reason(&step),
        Some((
            "error".to_string(),
            Some("could not send a keystroke to the focused window: denied".to_string())
        ))
    );
    assert!(matches!(step, Step::Finish(_, None)));
    assert!(run.is_over());
}

#[test]
fn start_refuses_a_second_run() {
    let mut handle = TypingHandle::default();
    start(&mut handle, "one", &settings(25, 0, "enter")).expect("accepted");

    let err = start(&mut handle, "two", &settings(25, 0, "enter")).expect_err("must refuse");
    assert_eq!(err, AppError::Typing(ALREADY_TYPING.to_string()));
    assert_eq!(handle.status(), state("countdown", 0, 3, 0));
}

#[test]
fn start_refuses_text_over_the_limit() {
    let mut handle = TypingHandle::default();
    let text = "é".repeat(MAX_CHARS + 1);

    let err = start(&mut handle, &text, &settings(25, 0, "enter")).expect_err("must refuse");
    assert_eq!(
        err,
        AppError::Invalid(
            "that text is too long to type: 1000001 characters (limit is 1000000)".to_string()
        )
    );
    assert_eq!(handle.status(), TypingState::idle());
}

#[test]
fn the_limit_counts_the_normalized_text() {
    let mut handle = TypingHandle::default();
    let text = "\r\n".repeat(MAX_CHARS);

    let run = start(&mut handle, &text, &settings(25, 0, "enter")).expect("accepted");
    assert!(!run.is_over());
    assert_eq!(handle.status().total, MAX_CHARS as u32);
}

#[test]
fn a_fresh_run_follows_the_settings() {
    let run = TypingRun::new("ab", 2, &settings(25, 0, "skip"));
    assert!(run.ready());
    assert!(!run.awaiting_send());
    assert!(!run.is_over());
}

#[test]
fn a_run_ends_within_its_step_budget() {
    for (text, countdown, stop_after) in [("abc", 2u32, None), ("a\nb", 0, None), ("xyz", 3, Some(4usize))] {
        let mut handle = TypingHandle::default();
        let mut run = start(&mut handle, text, &settings(1, countdown, "shiftEnter")).expect("accepted");
        let budget = countdown as usize + 1 + 2 * text.chars().count() + 2;
        let mut steps: usize = 0;
        while run.ready() {
            let cancelled = stop_after.map_or(false, |n| steps >= n);
            let step = run.next(cancelled);
            steps += 1;
            if matches!(step, Step::Key(_)) {
                run.sent(Ok(()), false);
                steps += 1;
            }
        }
        assert!(run.is_over());
        assert!(steps <= budget, "{steps} steps for {text:?}, budget {budget}");
    }
}
