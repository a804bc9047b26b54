//! What the tray reports about itself, when hiding to it is allowed, and
//! what its menu and its icon ask of the window.

use vstd::prelude::*;

use crate::text::same;

verus! {

/// Emitted once at startup when the tray could not be created.
pub const EVENT_UNAVAILABLE: &'static str = "tray://unavailable";

/// Reply from the `tray_status` command.
#[derive(Debug, Clone)]
pub struct TrayStatus {
    pub available: bool,
    /// Explanation when `available` is false, otherwise `None`.
    pub message: Option<String>,
}

/// Payload of `tray://unavailable`.
#[derive(Debug, Clone)]
pub struct TrayUnavailable {
    pub message: String,
}

/// Whether a hide-to-tray setting is honoured right now: only with a working
/// tray to come back from, and never once the user chose to quit.
pub fn hide_to_tray_allowed(setting: bool, tray_available: bool, quitting: bool) -> (b: bool)
    ensures
        b == (setting && tray_available && !quitting),
{
    setting && tray_available && !quitting
}

pub open spec fn failure_message(err: Seq<char>, on_linux: bool) -> Seq<char> {
    let base = "Ketikin could not create a system tray icon ("@ + err + ")"@;
    if on_linux {
        base
            + ". Your desktop may have no system tray (StatusNotifier host) running, or libayatana-appindicator3-1 may not be installed. Close and minimize will not hide Ketikin to the tray until this is resolved."@
    } else {
        base + ". Close and minimize will not hide Ketikin to the tray until this is resolved."@
    }
}

/// Explain a tray construction failure in terms the user can act on.
pub fn describe_failure(err: &str, on_linux: bool) -> (m: String)
    ensures
        m@ == failure_message(err@, on_linux),
{
    let mut m = String::from_str("Ketikin could not create a system tray icon (");
    m.append(err);
    m.append(")");
    if on_linux {
        m.append(
            ". Your desktop may have no system tray (StatusNotifier host) running, or libayatana-appindicator3-1 may not be installed. Close and minimize will not hide Ketikin to the tray until this is resolved.",
        );
    } else {
        m.append(". Close and minimize will not hide Ketikin to the tray until this is resolved.");
    }
    m
}

/// A window event the hide-to-tray rules look at.
#[derive(Debug, Clone, Copy, PartialEq, Eq, Structural)]
pub enum WindowEvent {
    /// The user asked to close the window.
    CloseRequested,
    /// The window changed size; `minimized` says whether it is now minimized.
    Resized { minimized: bool },
    /// Anything else.
    Other,
}

/// What the window should do about an event.
#[derive(Debug, Clone, Copy, PartialEq, Eq, Structural)]
pub enum WindowResponse {
    /// Let the event take its ordinary course.
    Proceed,
    /// Cancel the close and hide the window to the tray instead.
    HideInsteadOfClosing,
    /// Hide the (minimized) window to the tray.
    Hide,
}

pub open spec fn response_to(
    event: WindowEvent,
    close_to_tray: bool,
    minimize_to_tray: bool,
    tray_available: bool,
    quitting: bool,
) -> WindowResponse {
    match event {
        WindowEvent::CloseRequested => if close_to_tray && tray_available && !quitting {
            WindowResponse::HideInsteadOfClosing
        } else {
            WindowResponse::Proceed
        },
        WindowEvent::Resized { minimized } => if minimize_to_tray && tray_available && !quitting
            && minimized {
            WindowResponse::Hide
        } else {
            WindowResponse::Proceed
        },
        WindowEvent::Other => WindowResponse::Proceed,
    }
}

/// Close and minimize hide the window to the tray when the matching setting
/// asks for it and hiding is allowed; otherwise the window behaves as usual.
pub fn window_response(
    event: WindowEvent,
    close_to_tray: bool,
    minimize_to_tray: bool,
    tray_available: bool,
    quitting: bool,
) -> (r: WindowResponse)
    ensures
        r == response_to(event, close_to_tray, minimize_to_tray, tray_available, quitting),
{
    match event {
        WindowEvent::CloseRequested => {
            if hide_to_tray_allowed(close_to_tray, tray_available, quitting) {
                WindowResponse::HideInsteadOfClosing
            } else {
                WindowResponse::Proceed
            }
        },
        WindowEvent::Resized { minimized } => {
            if hide_to_tray_allowed(minimize_to_tray, tray_available, quitting) && minimized {
                WindowResponse::Hide
            } else {
                WindowResponse::Proceed
            }
        },
        WindowEvent::Other => WindowResponse::Proceed,
    }
}

/// Without a working tray, or once the user chose to quit, no event ever
/// hides the window: there would be nothing to bring it back from.
pub proof fn law_no_tray_never_hides(
    event: WindowEvent,
    close_to_tray: bool,
    minimize_to_tray: bool,
    tray_available: bool,
    quitting: bool,
)
    requires
        !tray_available || quitting,
    ensures
        response_to(event, close_to_tray, minimize_to_tray, tray_available, quitting)
            == WindowResponse::Proceed,
{
}

/// Menu item ids of the tray menu.
pub const MENU_SHOW: &'static str = "show";
pub const MENU_HIDE: &'static str = "hide";
pub const MENU_QUIT: &'static str = "quit";

/// What a tray interaction asks of the window.
#[derive(Debug, Clone, Copy, PartialEq, Eq, Structural)]
pub enum TrayAction {
    /// Reveal, unminimize and focus the main window.
    ShowWindow,
    /// Hide the main window.
    HideWindow,
    /// Exit for real, past any close-to-tray interception.
    Quit,
}

pub open spec fn menu_action_of(id: Seq<char>) -> Option<TrayAction> {
    if id == MENU_SHOW@ {
        Some(TrayAction::ShowWindow)
    } else if id == MENU_HIDE@ {
        Some(TrayAction::HideWindow)
    } else if id == MENU_QUIT@ {
        Some(TrayAction::Quit)
    } else {
        None
    }
}

/// The action behind a tray menu item; `None` for an id the menu does not
/// have.
pub fn menu_action(id: &str) -> (r: Option<TrayAction>)
    ensures
        r == menu_action_of(id@),
{
    if same(id, MENU_SHOW) {
        Some(TrayAction::ShowWindow)
    } else if same(id, MENU_HIDE) {
        Some(TrayAction::HideWindow)
    } else if same(id, MENU_QUIT) {
        Some(TrayAction::Quit)
    } else {
        None
    }
}

/// A left click on the tray icon toggles the window: a visible window is
/// hidden, and a hidden one, or one whose visibility cannot be read, is shown.
pub fn toggle_action(visible: Option<bool>) -> (r: TrayAction)
    ensures
        r == if visible == Some(true) {
            TrayAction::HideWindow
        } else {
            TrayAction::ShowWindow
        },
{
    match visible {
        Some(true) => TrayAction::HideWindow,
        _ => TrayAction::ShowWindow,
    }
}

} // verus!
