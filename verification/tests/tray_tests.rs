use ketikin::tray::{
    describe_failure, menu_action, toggle_action, window_response, TrayAction, WindowEvent,
    WindowResponse,
};
use ketikin::{hide_to_tray_allowed, TrayUnavailable};

#[test]
fn hide_to_tray_needs_both_the_setting_and_a_working_tray() {
    assert!(hide_to_tray_allowed(true, true, false));
    assert!(!hide_to_tray_allowed(true, false, false));
    assert!(!hide_to_tray_allowed(false, true, false));
    assert!(!hide_to_tray_allowed(true, true, true));
    assert!(!hide_to_tray_allowed(true, false, true));
}

#[test]
fn tray_availability_defaults_to_the_safe_direction() {
    let mut available = false;
    assert!(
        !hide_to_tray_allowed(true, available, false),
        "before tray::create succeeds, close must exit rather than hide"
    );

    available = true;
    assert!(hide_to_tray_allowed(true, available, false));
}

#[test]
fn tray_unavailable_payload_carries_a_message() {
    let payload = TrayUnavailable { message: "no tray".to_string() };
    assert_eq!(payload.message, "no tray");
}

#[test]
fn a_tray_failure_is_explained_for_the_platform() {
    let linux = describe_failure("no host", true);
    let other = describe_failure("no host", false);

    assert!(linux.starts_with("Ketikin could not create a system tray icon (no host)"));
    assert!(linux.contains("libayatana-appindicator3-1"));
    assert_eq!(
        other,
        "Ketikin could not create a system tray icon (no host). Close and minimize will not \
         hide Ketikin to the tray until this is resolved."
    );
}

#[test]
fn close_hides_only_when_close_to_tray_is_honoured() {
    let close = WindowEvent::CloseRequested;
    assert_eq!(window_response(close, true, false, true, false), WindowResponse::HideInsteadOfClosing);
    assert_eq!(window_response(close, false, true, true, false), WindowResponse::Proceed);
    assert_eq!(window_response(close, true, true, false, false), WindowResponse::Proceed);
    assert_eq!(window_response(close, true, true, true, true), WindowResponse::Proceed);
}

#[test]
fn minimize_hides_only_a_minimized_window() {
    let minimized = WindowEvent::Resized { minimized: true };
    let resized = WindowEvent::Resized { minimized: false };
    assert_eq!(window_response(minimized, false, true, true, false), WindowResponse::Hide);
    assert_eq!(window_response(resized, false, true, true, false), WindowResponse::Proceed);
    assert_eq!(window_response(minimized, true, false, true, false), WindowResponse::Proceed);
    assert_eq!(window_response(minimized, true, true, false, false), WindowResponse::Proceed);
    assert_eq!(window_response(WindowEvent::Other, true, true, true, false), WindowResponse::Proceed);
}

#[test]
fn the_tray_menu_maps_each_item_to_its_action() {
    assert_eq!(menu_action("show"), Some(TrayAction::ShowWindow));
    assert_eq!(menu_action("hide"), Some(TrayAction::HideWindow));
    assert_eq!(menu_action("quit"), Some(TrayAction::Quit));
    assert_eq!(menu_action("Quit"), None);
    assert_eq!(menu_action(""), None);
}

#[test]
fn a_tray_click_toggles_the_window_and_shows_it_when_in_doubt() {
    assert_eq!(toggle_action(Some(true)), TrayAction::HideWindow);
    assert_eq!(toggle_action(Some(false)), TrayAction::ShowWindow);
    assert_eq!(toggle_action(None), TrayAction::ShowWindow);
}
