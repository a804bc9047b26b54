//! Global shortcut bookkeeping and the rollback policy for rebinding.
//!
//! Two slots exist, start and stop, each managed independently. A rebind
//! that the operating system refuses never destroys a working binding: the
//! previous accelerator is put back, and the settings that get persisted only
//! ever name accelerators that are really bound.
//!
//! The operating-system calls themselves are made by the caller; the functions
//! here decide which call comes next and what the outcome is.

use vstd::prelude::*;

use crate::error::AppError;
use crate::settings::{Settings, same_but_hotkeys, settings_eq};
use crate::text::{concat, concat3, opt_str_view, opt_view, same, strings_view, trim, trimmed};

verus! {

/// Fired when the start shortcut is pressed.
pub const EVENT_START: &'static str = "hotkey://start";

/// Fired when the stop shortcut is pressed, after the stop has happened.
pub const EVENT_STOP: &'static str = "hotkey://stop";

/// Fired when an accelerator could not be registered.
pub const EVENT_ERROR: &'static str = "hotkey://error";

/// Payload of [`EVENT_ERROR`].
#[derive(Debug, Clone)]
pub struct HotkeyError {
    /// `"start"` or `"stop"`.
    pub which: String,
    pub accelerator: String,
    pub message: String,
}

/// One of the two shortcut slots.
#[derive(Debug, Clone, Copy, PartialEq, Eq, Structural)]
pub enum Slot {
    Start,
    Stop,
}

/// Both slots, start first.
pub const ALL_SLOTS: [Slot; 2] = [Slot::Start, Slot::Stop];

pub open spec fn slot_name(slot: Slot) -> Seq<char> {
    match slot {
        Slot::Start => "start"@,
        Slot::Stop => "stop"@,
    }
}

/// The accelerator a slot takes from the settings.
pub open spec fn slot_accelerator(slot: Slot, s: Settings) -> Seq<char> {
    match slot {
        Slot::Start => s.start_hotkey@,
        Slot::Stop => s.stop_hotkey@,
    }
}

/// `s` with `slot`'s accelerator replaced by `value` and nothing else changed.
pub open spec fn with_accelerator(s: Settings, slot: Slot, value: String) -> Settings {
    match slot {
        Slot::Start => Settings { start_hotkey: value, ..s },
        Slot::Stop => Settings { stop_hotkey: value, ..s },
    }
}

impl Slot {
    pub fn as_str(self) -> (r: &'static str)
        ensures
            r@ == slot_name(self),
    {
        match self {
            Slot::Start => "start",
            Slot::Stop => "stop",
        }
    }

    pub fn accelerator(self, settings: &Settings) -> (r: &str)
        ensures
            r@ == slot_accelerator(self, *settings),
    {
        match self {
            Slot::Start => settings.start_hotkey.as_str(),
            Slot::Stop => settings.stop_hotkey.as_str(),
        }
    }

    pub fn set_accelerator(self, settings: &mut Settings, value: String)
        ensures
            *final(settings) == with_accelerator(*old(settings), self, value),
    {
        match self {
            Slot::Start => settings.start_hotkey = value,
            Slot::Stop => settings.stop_hotkey = value,
        }
    }
}

/// What is actually bound right now.
#[derive(Debug, Default)]
pub struct Bound {
    start: Option<String>,
    stop: Option<String>,
    /// While true the OS grabs are released so the user can capture a
    /// replacement without the current hotkey firing at them.
    suspended: bool,
}

/// The accelerators a [`Bound`] holds, and whether they are suspended.
#[verifier::ext_equal]
pub struct BoundView {
    pub start: Option<Seq<char>>,
    pub stop: Option<Seq<char>>,
    pub suspended: bool,
}

impl View for Bound {
    type V = BoundView;

    closed spec fn view(&self) -> BoundView {
        BoundView { start: opt_view(self.start), stop: opt_view(self.stop), suspended: self.suspended }
    }
}

impl BoundView {
    pub open spec fn slot(self, slot: Slot) -> Option<Seq<char>> {
        match slot {
            Slot::Start => self.start,
            Slot::Stop => self.stop,
        }
    }

    pub open spec fn with_slot(self, slot: Slot, value: Option<Seq<char>>) -> BoundView {
        match slot {
            Slot::Start => BoundView { start: value, ..self },
            Slot::Stop => BoundView { stop: value, ..self },
        }
    }

    /// The accelerators currently bound, start first.
    pub open spec fn bound_list(self) -> Seq<Seq<char>> {
        (match self.start {
            Some(a) => seq![a],
            None => Seq::empty(),
        }) + (match self.stop {
            Some(a) => seq![a],
            None => Seq::empty(),
        })
    }
}

impl Bound {
    pub fn get(&self, slot: Slot) -> (r: Option<&str>)
        ensures
            opt_str_view(r) == self@.slot(slot),
    {
        match slot {
            Slot::Start => match &self.start {
                Some(a) => Some(a.as_str()),
                None => None,
            },
            Slot::Stop => match &self.stop {
                Some(a) => Some(a.as_str()),
                None => None,
            },
        }
    }

    pub fn set(&mut self, slot: Slot, value: Option<String>)
        ensures
            final(self)@ == old(self)@.with_slot(slot, opt_view(value)),
    {
        match slot {
            Slot::Start => self.start = value,
            Slot::Stop => self.stop = value,
        }
    }

    /// Whether the OS grabs are currently released for a capture.
    pub fn is_suspended(&self) -> (b: bool)
        ensures
            b == self@.suspended,
    {
        self.suspended
    }
}

/// Result of moving one slot to a new accelerator.
#[derive(Debug, Clone)]
pub struct SlotOutcome {
    /// Accelerator actually bound now; `None` means the slot ended up unbound.
    pub bound: Option<String>,
    /// User-facing failure, if the desired accelerator did not take.
    pub error: Option<String>,
}

/// The first decision of a move: done already, or release and register.
#[derive(Debug)]
pub enum MoveStart {
    /// Already bound to exactly the desired accelerator; the OS is not touched.
    Unchanged(SlotOutcome),
    /// Release `release` (when present), then register the desired accelerator.
    Register { release: Option<String> },
}

/// The decision after registering the desired accelerator.
#[derive(Debug)]
pub enum AfterRegister {
    /// The move is over with this outcome.
    Done(SlotOutcome),
    /// The desired accelerator was refused with `error`; try to put `previous`
    /// back.
    Restore { previous: String, error: String },
}

pub open spec fn outcome_is(o: SlotOutcome, bound: Option<Seq<char>>, error: Option<Seq<char>>) -> bool {
    opt_view(o.bound) == bound && opt_view(o.error) == error
}

pub open spec fn still_active_message(error: Seq<char>, previous: Seq<char>) -> Seq<char> {
    error + " Your previous shortcut "@ + previous + " is still active."@
}

pub open spec fn restore_failed_message(error: Seq<char>, previous: Seq<char>, restore_error: Seq<char>) -> Seq<char> {
    error + " Restoring the previous shortcut "@ + previous + " also failed ("@ + restore_error
        + "), so this shortcut is currently unavailable."@
}

/// What a slot move that ended with an error reports on [`EVENT_ERROR`]:
/// the slot, the accelerator that was asked for, and the outcome's message;
/// nothing when the move went through.
pub fn failure_report(slot: Slot, wanted: &str, outcome: &SlotOutcome) -> (r: Option<HotkeyError>)
    ensures
        match outcome.error {
            None => r is None,
            Some(m) => r matches Some(e) && e.which@ == slot_name(slot) && e.accelerator@ == wanted@
                && e.message@ == m@,
        },
{
    match &outcome.error {
        None => None,
        Some(m) => Some(
            HotkeyError {
                which: String::from_str(slot.as_str()),
                accelerator: String::from_str(wanted),
                message: m.clone(),
            },
        ),
    }
}

/// Begin moving a slot from `current` to `desired`.
pub fn begin_move(current: Option<&str>, desired: &str) -> (r: MoveStart)
    ensures
        opt_str_view(current) == Some(desired@) ==> (r matches MoveStart::Unchanged(o)
            && outcome_is(o, Some(desired@), None)),
        opt_str_view(current) != Some(desired@) ==> (r matches MoveStart::Register { release }
            && opt_view(release) == opt_str_view(current)),
{
    match current {
        Some(c) => {
            if same(c, desired) {
                MoveStart::Unchanged(SlotOutcome { bound: Some(String::from_str(desired)), error: None })
            } else {
                MoveStart::Register { release: Some(String::from_str(c)) }
            }
        },
        None => MoveStart::Register { release: None },
    }
}

/// Decide what follows the registration of `desired`, given what the OS said.
///
/// A refusal puts back `fallback` when it is a different accelerator;
/// otherwise there is nothing better to restore and the slot ends unbound.
pub fn after_register(desired: &str, fallback: Option<&str>, result: Result<(), String>) -> (r: AfterRegister)
    ensures
        match result {
            Ok(_) => r matches AfterRegister::Done(o) && outcome_is(o, Some(desired@), None),
            Err(e) => match fallback {
                Some(old) => if old@ != desired@ {
                    r matches AfterRegister::Restore { previous, error } && previous@ == old@
                        && error == e
                } else {
                    r matches AfterRegister::Done(o) && outcome_is(o, None, Some(e@))
                },
                None => r matches AfterRegister::Done(o) && outcome_is(o, None, Some(e@)),
            },
        },
{
    match result {
        Ok(()) => AfterRegister::Done(SlotOutcome { bound: Some(String::from_str(desired)), error: None }),
        Err(error) => match fallback {
            Some(old) => {
                if same(old, desired) {
                    AfterRegister::Done(SlotOutcome { bound: None, error: Some(error) })
                } else {
                    AfterRegister::Restore { previous: String::from_str(old), error }
                }
            },
            None => AfterRegister::Done(SlotOutcome { bound: None, error: Some(error) }),
        },
    }
}

/// The outcome once the OS has answered the attempt to put `previous` back
/// after `desired` was refused with `error`.
pub fn after_restore(previous: &str, error: &str, result: Result<(), String>) -> (o: SlotOutcome)
    ensures
        match result {
            Ok(_) => outcome_is(o, Some(previous@), Some(still_active_message(error@, previous@))),
            Err(r) => outcome_is(o, None, Some(restore_failed_message(error@, previous@, r@))),
        },
{
    match result {
        Ok(()) => {
            let mut m = String::from_str(error);
            m.append(" Your previous shortcut ");
            m.append(previous);
            m.append(" is still active.");
            SlotOutcome { bound: Some(String::from_str(previous)), error: Some(m) }
        },
        Err(restore_error) => {
            let mut m = String::from_str(error);
            m.append(" Restoring the previous shortcut ");
            m.append(previous);
            m.append(" also failed (");
            m.append(restore_error.as_str());
            m.append("), so this shortcut is currently unavailable.");
            SlotOutcome { bound: None, error: Some(m) }
        },
    }
}

/// What `HotKey::from_str` of the `global-hotkey` crate answers for an
/// accelerator: success, or the text of its parse error.
pub uninterp spec fn accelerator_parse(s: Seq<char>) -> Result<(), Seq<char>>;

/// Parse an accelerator with `global_hotkey::hotkey::HotKey::from_str`, the
/// parser behind the shortcuts this application registers. The verdict and
/// the error's text are whatever that parser gives for these characters.
#[verifier::external_body]
fn parse_accelerator(s: &str) -> (r: Result<(), String>)
    ensures
        match (r, accelerator_parse(s@)) {
            (Ok(_), Ok(_)) => true,
            (Err(e), Err(m)) => e@ == m,
            _ => false,
        },
{
    match s.parse::<global_hotkey::hotkey::HotKey>() {
        Ok(_) => Ok(()),
        Err(err) => Err(err.to_string()),
    }
}

/// What checking an accelerator answers, given the parser's verdict on its
/// trimmed form.
pub open spec fn accelerator_check(t: Seq<char>, parsed: Result<(), Seq<char>>) -> Result<(), Seq<char>> {
    if t.len() == 0 {
        Err("enter a shortcut"@)
    } else {
        match parsed {
            Ok(_) => Ok(()),
            Err(m) => Err(t + " is not a valid shortcut: "@ + m),
        }
    }
}

pub open spec fn hotkey_result(r: Result<(), AppError>) -> Result<(), Seq<char>> {
    match r {
        Ok(_) => Ok(()),
        Err(AppError::Hotkey(m)) => Err(m@),
        Err(_) => Err(Seq::empty()),
    }
}

pub open spec fn parsed_view(p: Result<(), String>) -> Result<(), Seq<char>> {
    match p {
        Ok(_) => Ok(()),
        Err(m) => Err(m@),
    }
}

/// The answer to a validation request for the trimmed accelerator `t`,
/// given what the parser said about it.
pub fn accelerator_verdict(t: &str, parsed: Result<(), String>) -> (r: Result<(), AppError>)
    ensures
        r matches Err(e) ==> e is Hotkey,
        hotkey_result(r) == accelerator_check(t@, parsed_view(parsed)),
        r is Ok <==> (t@.len() > 0 && parsed is Ok),
{
    if t.unicode_len() == 0 {
        return Err(AppError::Hotkey(String::from_str("enter a shortcut")));
    }
    match parsed {
        Ok(()) => Ok(()),
        Err(m) => Err(AppError::Hotkey(concat3(t, " is not a valid shortcut: ", m.as_str()))),
    }
}

/// Checking an accelerator refuses only what is empty, or what the parser
/// refuses, and then with the parser's own reason; everything the parser
/// accepts is accepted.
pub proof fn law_validation_only_refuses_empty_or_unparsable(t: Seq<char>, parsed: Result<(), Seq<char>>)
    ensures
        accelerator_check(t, parsed) is Ok <==> (t.len() > 0 && parsed is Ok),
        t.len() == 0 ==> accelerator_check(t, parsed) == Err::<(), Seq<char>>("enter a shortcut"@),
        t.len() > 0 ==> match parsed {
            Ok(_) => accelerator_check(t, parsed) == Ok::<(), Seq<char>>(()),
            Err(m) => accelerator_check(t, parsed) == Err::<(), Seq<char>>(
                t + " is not a valid shortcut: "@ + m,
            ),
        },
{
}

/// Parse an accelerator without registering it, so the settings panel can
/// validate as the user types.
pub fn validate(accelerator: &str) -> (r: Result<(), AppError>)
    ensures
        r matches Err(e) ==> e is Hotkey,
        hotkey_result(r) == accelerator_check(
            trimmed(accelerator@),
            accelerator_parse(trimmed(accelerator@)),
        ),
        r is Ok <==> (trimmed(accelerator@).len() > 0 && accelerator_parse(trimmed(accelerator@)) is Ok),
{
    let t = trim(accelerator);
    if t.unicode_len() == 0 {
        return accelerator_verdict(t.as_str(), Ok(()));
    }
    let parsed = parse_accelerator(t.as_str());
    accelerator_verdict(t.as_str(), parsed)
}

/// Why an accelerator could not even be parsed for registration.
pub fn unparsable_message(accelerator: &str, err: &str) -> (m: String)
    ensures
        m@ == accelerator@ + " is not a valid shortcut ("@ + err@ + ")."@,
{
    let mut m = String::from_str(accelerator);
    m.append(" is not a valid shortcut (");
    m.append(err);
    m.append(").");
    m
}

/// Why the OS refused to register an accelerator.
pub fn refused_message(accelerator: &str, err: &str) -> (m: String)
    ensures
        m@ == accelerator@ + " could not be registered — another application may already be using it ("@
            + err@ + ")."@,
{
    let mut m = String::from_str(accelerator);
    m.append(" could not be registered — another application may already be using it (");
    m.append(err);
    m.append(").");
    m
}

/// `a` and `b` agree on everything except possibly `slot`'s accelerator.
pub open spec fn agree_except(a: Settings, b: Settings, slot: Slot) -> bool {
    &&& a.typing_delay_ms == b.typing_delay_ms
    &&& a.start_delay_secs == b.start_delay_secs
    &&& a.theme == b.theme
    &&& a.minimize_to_tray == b.minimize_to_tray
    &&& a.close_to_tray == b.close_to_tray
    &&& a.always_on_top == b.always_on_top
    &&& a.hotkeys_enabled == b.hotkeys_enabled
    &&& slot != Slot::Start ==> a.start_hotkey == b.start_hotkey
    &&& slot != Slot::Stop ==> a.stop_hotkey == b.stop_hotkey
    &&& a.newline_mode == b.newline_mode
    &&& a.auto_check_updates == b.auto_check_updates
}

/// What one slot is moved with during an apply.
#[derive(Debug)]
pub struct SlotTargets {
    /// What is bound in the slot right now.
    pub current: Option<String>,
    /// The accelerator the new settings ask for.
    pub wanted: String,
    /// What to put back if `wanted` is refused: whatever is bound, or the
    /// previously stored accelerator when nothing is.
    pub fallback: String,
}

/// Which accelerators are live, as the application's managed state.
#[derive(Debug, Default)]
pub struct HotkeyHandle {
    bound: Bound,
}

impl View for HotkeyHandle {
    type V = BoundView;

    closed spec fn view(&self) -> BoundView {
        self.bound@
    }
}

impl HotkeyHandle {
    /// Nothing bound and nothing suspended.
    pub fn new() -> (h: HotkeyHandle)
        ensures
            h@ == (BoundView { start: None, stop: None, suspended: false }),
    {
        HotkeyHandle { bound: Bound { start: None, stop: None, suspended: false } }
    }

    /// What is bound right now.
    pub fn bound(&self) -> (b: &Bound)
        ensures
            b@ == self@,
    {
        &self.bound
    }

    /// Lift a capture suspension so an apply can register, reporting whether
    /// one was in force so it can be reinstated afterwards.
    pub fn lift_suspension(&mut self) -> (was: bool)
        ensures
            was == old(self)@.suspended,
            final(self)@ == (BoundView { suspended: false, ..old(self)@ }),
    {
        let was = self.bound.suspended;
        self.bound.suspended = false;
        was
    }

    /// Put a capture suspension back as it was before an apply.
    pub fn reinstate_suspension(&mut self, was: bool)
        ensures
            final(self)@ == (BoundView { suspended: was, ..old(self)@ }),
    {
        self.bound.suspended = was;
    }

    /// Forget every binding, returning the accelerators to release, start
    /// first. Used when the settings switch hotkeys off.
    pub fn release_all(&mut self) -> (released: Vec<String>)
        ensures
            strings_view(released@) == old(self)@.bound_list(),
            final(self)@ == (BoundView { start: None, stop: None, ..old(self)@ }),
    {
        let mut released: Vec<String> = Vec::new();
        let start = self.bound.start.take();
        let stop = self.bound.stop.take();
        if let Some(a) = start {
            released.push(a);
        }
        if let Some(a) = stop {
            released.push(a);
        }
        proof {
            assert(strings_view(released@) =~= old(self)@.bound_list());
        }
        released
    }

    /// What `slot` moves from and to when `previous` settings give way to
    /// `desired`.
    pub fn targets(&self, slot: Slot, previous: &Settings, desired: &Settings) -> (t: SlotTargets)
        ensures
            opt_view(t.current) == self@.slot(slot),
            t.wanted@ == slot_accelerator(slot, *desired),
            t.fallback@ == match self@.slot(slot) {
                Some(a) => a,
                None => slot_accelerator(slot, *previous),
            },
    {
        let current = match self.bound.get(slot) {
            Some(a) => Some(String::from_str(a)),
            None => None,
        };
        let fallback = match &current {
            Some(a) => a.clone(),
            None => String::from_str(slot.accelerator(previous)),
        };
        SlotTargets { current, wanted: String::from_str(slot.accelerator(desired)), fallback }
    }

    /// Record how a slot's move ended, and write into `effective` the
    /// accelerator that should be persisted for it: the one bound now, or the
    /// previously stored one when the slot ended unbound.
    pub fn record(&mut self, slot: Slot, outcome: &SlotOutcome, previous: &Settings, effective: &mut Settings)
        ensures
            final(self)@ == old(self)@.with_slot(slot, opt_view(outcome.bound)),
            agree_except(*old(effective), *final(effective), slot),
            slot_accelerator(slot, *final(effective)) == match outcome.bound {
                Some(a) => a@,
                None => slot_accelerator(slot, *previous),
            },
    {
        let bound = match &outcome.bound {
            Some(a) => Some(a.clone()),
            None => None,
        };
        self.bound.set(slot, bound);
        let value = match &outcome.bound {
            Some(a) => a.clone(),
            None => String::from_str(slot.accelerator(previous)),
        };
        slot.set_accelerator(effective, value);
    }

    /// Release the OS grabs so the user can press their current hotkey into a
    /// capture field; returns the accelerators to release, none when already
    /// suspended.
    pub fn suspend(&mut self) -> (released: Vec<String>)
        ensures
            old(self)@.suspended ==> released@.len() == 0 && final(self)@ == old(self)@,
            !old(self)@.suspended ==> strings_view(released@) == old(self)@.bound_list()
                && final(self)@ == (BoundView { suspended: true, ..old(self)@ }),
    {
        let mut released: Vec<String> = Vec::new();
        if self.bound.suspended {
            return released;
        }
        if let Some(a) = &self.bound.start {
            released.push(a.clone());
        }
        if let Some(a) = &self.bound.stop {
            released.push(a.clone());
        }
        self.bound.suspended = true;
        proof {
            assert(strings_view(released@) =~= old(self)@.bound_list());
        }
        released
    }

    /// End a capture suspension; returns the slots whose accelerators must be
    /// registered again, none when nothing was suspended.
    pub fn resume(&mut self) -> (slots: Vec<Slot>)
        ensures
            !old(self)@.suspended ==> slots@.len() == 0 && final(self)@ == old(self)@,
            old(self)@.suspended ==> final(self)@ == (BoundView { suspended: false, ..old(self)@ })
                && slots@ == (if old(self)@.start is Some {
                seq![Slot::Start]
            } else {
                Seq::empty()
            }) + (if old(self)@.stop is Some {
                seq![Slot::Stop]
            } else {
                Seq::empty()
            }),
    {
        let mut slots: Vec<Slot> = Vec::new();
        if !self.bound.suspended {
            return slots;
        }
        self.bound.suspended = false;
        if self.bound.start.is_some() {
            slots.push(Slot::Start);
        }
        if self.bound.stop.is_some() {
            slots.push(Slot::Stop);
        }
        proof {
            assert(slots@ =~= (if old(self)@.start is Some {
                seq![Slot::Start]
            } else {
                Seq::empty()
            }) + (if old(self)@.stop is Some {
                seq![Slot::Stop]
            } else {
                Seq::empty()
            }));
        }
        slots
    }

    /// A slot whose accelerator could not be registered again ends unbound.
    pub fn forget(&mut self, slot: Slot)
        ensures
            final(self)@ == old(self)@.with_slot(slot, None),
    {
        self.bound.set(slot, None);
    }
}

/// The slot an apply handles `k`-th: start, then stop.
pub open spec fn slot_at(k: int) -> Slot {
    if k == 0 {
        Slot::Start
    } else {
        Slot::Stop
    }
}

/// The accelerator persisted for `slot` is the one bound to it, or the
/// previously stored one when the slot is unbound.
pub open spec fn slot_persisted(effective: Settings, bound: BoundView, previous: Settings, slot: Slot) -> bool {
    slot_accelerator(slot, effective) == match bound.slot(slot) {
        Some(a) => a,
        None => slot_accelerator(slot, previous),
    }
}

/// The first `n` slots of an apply are settled.
pub open spec fn slots_done(effective: Settings, bound: BoundView, previous: Settings, n: int) -> bool {
    &&& n > 0 ==> slot_persisted(effective, bound, previous, Slot::Start)
    &&& n > 1 ==> slot_persisted(effective, bound, previous, Slot::Stop)
}

/// What applying `desired` over `previous` ends with, for a handle whose
/// capture suspension stood at `was_suspended`: the settings to persist are
/// `desired` with each hotkey replaced by what is really in force (the bound
/// accelerator, or the previously stored one for an unbound slot); with
/// hotkeys switched off nothing stays bound and `desired` is persisted as
/// given; and a capture suspension in force before is in force after.
pub open spec fn applied(
    previous: Settings,
    desired: Settings,
    was_suspended: bool,
    effective: Settings,
    after: BoundView,
) -> bool {
    &&& same_but_hotkeys(desired, effective)
    &&& after.suspended == was_suspended
    &&& if desired.hotkeys_enabled {
        slots_done(effective, after, previous, 2)
    } else {
        &&& settings_eq(effective, desired)
        &&& after.start is None
        &&& after.stop is None
    }
}

/// What the OS is asked to do next while settings are applied.
#[derive(Debug)]
pub enum HotkeyCall {
    /// Release `release` when there is one, then register `accelerator` for
    /// `slot`, and hand the result to [`Applying::answer`].
    Register { release: Option<String>, slot: Slot, accelerator: String },
    /// Release these accelerators; the apply is over, see [`Applying::finish`].
    Finish { release: Vec<String> },
}

/// The registration an apply is waiting to hear about.
#[derive(Debug)]
enum Pending {
    Idle,
    /// `wanted` was asked for; `fallback` is put back if it is refused.
    Registering { wanted: String, fallback: String },
    /// `wanted` was refused with `error`, and `restore` was asked for again.
    Restoring { wanted: String, restore: String, error: String },
}

/// The registration an apply is waiting to hear about, as values.
pub enum PendingView {
    Idle,
    Registering { wanted: Seq<char>, fallback: Seq<char> },
    Restoring { wanted: Seq<char>, restore: Seq<char>, error: Seq<char> },
}

spec fn pending_view(p: Pending) -> PendingView {
    match p {
        Pending::Idle => PendingView::Idle,
        Pending::Registering { wanted, fallback } => PendingView::Registering {
            wanted: wanted@,
            fallback: fallback@,
        },
        Pending::Restoring { wanted, restore, error } => PendingView::Restoring {
            wanted: wanted@,
            restore: restore@,
            error: error@,
        },
    }
}

/// An apply of new settings to the global shortcuts, in progress: it hands
/// out the OS calls to make one at a time and settles each slot from their
/// results.
#[derive(Debug)]
pub struct Applying {
    handle: HotkeyHandle,
    previous: Settings,
    desired: Settings,
    effective: Settings,
    was_suspended: bool,
    next_slot: usize,
    pending: Pending,
    errors: Vec<HotkeyError>,
    finished: bool,
}

/// An apply as values.
pub struct ApplyView {
    pub previous: Settings,
    pub desired: Settings,
    pub was_suspended: bool,
    pub finished: bool,
    pub awaiting: bool,
    /// What the handle holds.
    pub bound: BoundView,
    /// The settings to persist, as far as the slots are settled.
    pub effective: Settings,
    /// How many slots are settled, start first.
    pub next_slot: int,
    /// The registration waiting for its result.
    pub pending: PendingView,
    /// The failures to report, in order.
    pub errors: Seq<HotkeyError>,
}

/// Where a slot stands in the order an apply settles them.
pub open spec fn slot_index(slot: Slot) -> int {
    match slot {
        Slot::Start => 0,
        Slot::Stop => 1,
    }
}

/// What a refused slot is put back to: the accelerator bound in it, or the
/// previously stored one when nothing is bound.
pub open spec fn fallback_of(v: ApplyView, slot: Slot) -> Seq<char> {
    match v.bound.slot(slot) {
        Some(a) => a,
        None => slot_accelerator(slot, v.previous),
    }
}

/// A registration in flight is for the slot being settled: it asks for the
/// desired accelerator, which is not bound there already, and a restore puts
/// back the fallback, which differs from it.
pub open spec fn pending_targets(v: ApplyView) -> bool {
    let slot = slot_at(v.next_slot);
    &&& v.pending matches PendingView::Registering { wanted, fallback } ==> {
        &&& wanted == slot_accelerator(slot, v.desired)
        &&& fallback == fallback_of(v, slot)
        &&& v.bound.slot(slot) != Some(wanted)
    }
    &&& v.pending matches PendingView::Restoring { wanted, restore, .. } ==> {
        &&& wanted == slot_accelerator(slot, v.desired)
        &&& restore == fallback_of(v, slot)
        &&& restore != wanted
    }
}

/// The call handed out is the one the pending registration stands for: the
/// desired accelerator, after releasing what the slot held, or the restore
/// with nothing to release; and the end only when nothing is pending.
pub open spec fn call_fits(v: ApplyView, c: HotkeyCall) -> bool {
    match c {
        HotkeyCall::Register { release, slot, accelerator } => {
            &&& slot == slot_at(v.next_slot)
            &&& match v.pending {
                PendingView::Registering { wanted, .. } => accelerator@ == wanted && opt_view(release)
                    == v.bound.slot(slot),
                PendingView::Restoring { restore, .. } => accelerator@ == restore && release is None,
                PendingView::Idle => false,
            }
        },
        HotkeyCall::Finish { .. } => v.pending is Idle,
    }
}

/// The slots from the `from`-th up to where `w` stands were settled without
/// asking the OS, which an apply only does for a slot that `before` already
/// had bound to exactly the desired accelerator; it stays bound and is
/// persisted as that.
pub open spec fn skipped_only_when_bound(before: BoundView, w: ApplyView, from: int) -> bool {
    forall|slot: Slot|
        from <= slot_index(slot) < w.next_slot ==> {
            &&& #[trigger] w.bound.slot(slot) == Some(slot_accelerator(slot, w.desired))
            &&& before.slot(slot) == Some(slot_accelerator(slot, w.desired))
            &&& slot_accelerator(slot, w.effective) == slot_accelerator(slot, w.desired)
        }
}

/// What an apply releases as it ends with hotkeys on: the bindings again when
/// a capture suspension is to be put back, nothing otherwise.
pub open spec fn finish_releases(v: ApplyView, released: Seq<Seq<char>>) -> bool {
    v.desired.hotkeys_enabled ==> released == if v.was_suspended {
        v.bound.bound_list()
    } else {
        Seq::empty()
    }
}

/// Slots settled before the `n`-th keep in `w` what they had in `v`.
pub open spec fn keeps_settled(v: ApplyView, w: ApplyView, n: int) -> bool {
    forall|slot: Slot|
        slot_index(slot) < n ==> #[trigger] w.bound.slot(slot) == v.bound.slot(slot) && slot_accelerator(
            slot,
            w.effective,
        ) == slot_accelerator(slot, v.effective)
}

/// The slot `v` was settling is settled in `w`: bound to `bound`, persisted
/// as that accelerator (the previously stored one when unbound), reported
/// against `wanted` when there is an `error`, and the slots settled before
/// are left alone.
pub open spec fn settles(
    v: ApplyView,
    w: ApplyView,
    wanted: Seq<char>,
    bound: Option<Seq<char>>,
    error: Option<Seq<char>>,
) -> bool {
    let slot = slot_at(v.next_slot);
    &&& w.next_slot > v.next_slot
    &&& keeps_settled(v, w, v.next_slot)
    &&& w.bound.slot(slot) == bound
    &&& slot_accelerator(slot, w.effective) == match bound {
        Some(a) => a,
        None => slot_accelerator(slot, v.previous),
    }
    &&& match error {
        None => w.errors == v.errors,
        Some(m) => {
            &&& w.errors.len() == v.errors.len() + 1
            &&& w.errors.drop_last() == v.errors
            &&& w.errors.last().which@ == slot_name(slot)
            &&& w.errors.last().accelerator@ == wanted
            &&& w.errors.last().message@ == m
        },
    }
}

impl View for Applying {
    type V = ApplyView;

    closed spec fn view(&self) -> ApplyView {
        ApplyView {
            previous: self.previous,
            desired: self.desired,
            was_suspended: self.was_suspended,
            finished: self.finished,
            awaiting: !(self.pending is Idle),
            bound: self.handle@,
            effective: self.effective,
            next_slot: self.next_slot as int,
            pending: pending_view(self.pending),
            errors: self.errors@,
        }
    }
}

fn copy_settings(s: &Settings) -> (r: Settings)
    ensures
        settings_eq(r, *s),
{
    Settings {
        typing_delay_ms: s.typing_delay_ms,
        start_delay_secs: s.start_delay_secs,
        theme: s.theme.clone(),
        minimize_to_tray: s.minimize_to_tray,
        close_to_tray: s.close_to_tray,
        always_on_top: s.always_on_top,
        hotkeys_enabled: s.hotkeys_enabled,
        start_hotkey: s.start_hotkey.clone(),
        stop_hotkey: s.stop_hotkey.clone(),
        newline_mode: s.newline_mode.clone(),
        auto_check_updates: s.auto_check_updates,
    }
}

impl Applying {
    /// What every apply keeps: the slots handled so far are settled, the
    /// other settings are the desired ones, and the suspension is lifted
    /// while the OS is asked, and back as it was once the apply is over.
    #[verifier::type_invariant]
    spec fn consistent(self) -> bool {
        &&& self.next_slot <= 2
        &&& pending_targets(self@)
        &&& same_but_hotkeys(self.desired, self.effective)
        &&& slots_done(self.effective, self.handle@, self.previous, self.next_slot as int)
        &&& if !self.desired.hotkeys_enabled {
            &&& self.finished
            &&& self.pending is Idle
            &&& self.handle@.start is None
            &&& self.handle@.stop is None
            &&& self.handle@.suspended == self.was_suspended
            &&& settings_eq(self.effective, self.desired)
        } else if self.finished {
            &&& self.next_slot == 2
            &&& self.pending is Idle
            &&& self.handle@.suspended == self.was_suspended
        } else {
            &&& !self.handle@.suspended
            &&& !(self.pending is Idle) ==> self.next_slot < 2
        }
    }

    /// Start applying `desired` over `previous` on `handle`, and return the
    /// first call to make. A capture suspension is lifted for the work and
    /// put back at the end; with hotkeys switched off, every binding is
    /// released at once.
    pub fn start(handle: HotkeyHandle, previous: Settings, desired: Settings) -> (r: (Applying, HotkeyCall))
        ensures
            r.0@.previous == previous,
            r.0@.desired == desired,
            r.0@.was_suspended == handle@.suspended,
            r.1 is Register <==> r.0@.awaiting,
            r.1 is Finish <==> r.0@.finished,
            r.0@.errors.len() == 0,
            pending_targets(r.0@),
            call_fits(r.0@, r.1),
            desired.hotkeys_enabled ==> skipped_only_when_bound(handle@, r.0@, 0),
            r.1 matches HotkeyCall::Finish { release } ==> finish_releases(r.0@, strings_view(release@)),
            r.0@.finished && desired.hotkeys_enabled ==> r.0@.next_slot == 2,
            !desired.hotkeys_enabled ==> r.0@.finished,
            !desired.hotkeys_enabled ==> (r.1 matches HotkeyCall::Finish { release } && strings_view(
                release@,
            ) == handle@.bound_list()),
    {
        let mut handle = handle;
        let was = handle.lift_suspension();
        let effective = copy_settings(&desired);
        if !desired.hotkeys_enabled {
            let release = handle.release_all();
            handle.reinstate_suspension(was);
            let a = Applying {
                handle,
                previous,
                desired,
                effective,
                was_suspended: was,
                next_slot: 0,
                pending: Pending::Idle,
                errors: Vec::new(),
                finished: true,
            };
            return (a, HotkeyCall::Finish { release });
        }
        Self::advance(handle, previous, desired, effective, was, 0, Vec::new())
    }

    /// Settle slots whose accelerator is already bound, up to the first one
    /// that needs the OS; finish when both are settled.
    #[verifier::loop_isolation(false)]
    fn advance(
        handle: HotkeyHandle,
        previous: Settings,
        desired: Settings,
        effective: Settings,
        was_suspended: bool,
        next_slot: usize,
        errors: Vec<HotkeyError>,
    ) -> (r: (Applying, HotkeyCall))
        requires
            desired.hotkeys_enabled,
            next_slot <= 2,
            !handle@.suspended,
            same_but_hotkeys(desired, effective),
            slots_done(effective, handle@, previous, next_slot as int),
        ensures
            r.0@.previous == previous,
            r.0@.desired == desired,
            r.0@.was_suspended == was_suspended,
            r.1 is Register <==> r.0@.awaiting,
            r.1 is Finish <==> r.0@.finished,
            r.0@.next_slot >= next_slot,
            forall|slot: Slot|
                slot_index(slot) < next_slot ==> #[trigger] r.0@.bound.slot(slot) == handle@.slot(slot)
                    && slot_accelerator(slot, r.0@.effective) == slot_accelerator(slot, effective),
            r.0@.errors == errors@,
            pending_targets(r.0@),
            call_fits(r.0@, r.1),
            skipped_only_when_bound(handle@, r.0@, next_slot as int),
            r.1 matches HotkeyCall::Finish { release } ==> finish_releases(r.0@, strings_view(release@)),
            r.0@.finished ==> r.0@.next_slot == 2,
    {
        let ghost h0 = handle@;
        let ghost e0 = effective;
        let ghost n0 = next_slot;
        let mut handle = handle;
        let mut effective = effective;
        let mut next_slot = next_slot;
        while next_slot < 2
            invariant
                desired.hotkeys_enabled,
                n0 <= next_slot <= 2,
                forall|slot: Slot|
                    slot_index(slot) < n0 ==> #[trigger] handle@.slot(slot) == h0.slot(slot)
                        && slot_accelerator(slot, effective) == slot_accelerator(slot, e0),
                forall|slot: Slot|
                    slot_index(slot) >= next_slot ==> #[trigger] handle@.slot(slot) == h0.slot(slot),
                forall|slot: Slot|
                    n0 <= slot_index(slot) < next_slot ==> {
                        &&& #[trigger] handle@.slot(slot) == Some(slot_accelerator(slot, desired))
                        &&& h0.slot(slot) == Some(slot_accelerator(slot, desired))
                        &&& slot_accelerator(slot, effective) == slot_accelerator(slot, desired)
                    },
                !handle@.suspended,
                same_but_hotkeys(desired, effective),
                slots_done(effective, handle@, previous, next_slot as int),
            decreases 2 - next_slot,
        {
            let slot = if next_slot == 0 {
                Slot::Start
            } else {
                Slot::Stop
            };
            let targets = handle.targets(slot, &previous, &desired);
            let current = match &targets.current {
                Some(a) => Some(a.as_str()),
                None => None,
            };
            match begin_move(current, targets.wanted.as_str()) {
                MoveStart::Unchanged(outcome) => {
                    handle.record(slot, &outcome, &previous, &mut effective);
                    next_slot = next_slot + 1;
                },
                MoveStart::Register { release } => {
                    let call = HotkeyCall::Register {
                        release,
                        slot,
                        accelerator: targets.wanted.clone(),
                    };
                    let a = Applying {
                        handle,
                        previous,
                        desired,
                        effective,
                        was_suspended,
                        next_slot,
                        pending: Pending::Registering {
                            wanted: targets.wanted,
                            fallback: targets.fallback,
                        },
                        errors,
                        finished: false,
                    };
                    return (a, call);
                },
            }
        }
        let ghost before = handle@;
        let release = if was_suspended {
            handle.suspend()
        } else {
            Vec::new()
        };
        proof {
            if was_suspended {
                assert(handle@.bound_list() == before.bound_list());
            } else {
                assert(strings_view(release@) =~= Seq::<Seq<char>>::empty());
            }
        }
        let a = Applying {
            handle,
            previous,
            desired,
            effective,
            was_suspended,
            next_slot,
            pending: Pending::Idle,
            errors,
            finished: true,
        };
        (a, HotkeyCall::Finish { release })
    }

    /// Hand over how the registration asked for last went, and get the next
    /// call.
    pub fn answer(self, result: Result<(), String>) -> (r: (Applying, HotkeyCall))
        requires
            self@.awaiting,
        ensures
            r.0@.previous == self@.previous,
            r.0@.desired == self@.desired,
            r.0@.was_suspended == self@.was_suspended,
            r.1 is Register <==> r.0@.awaiting,
            r.1 is Finish <==> r.0@.finished,
            pending_targets(r.0@),
            call_fits(r.0@, r.1),
            skipped_only_when_bound(self@.bound, r.0@, self@.next_slot + 1),
            r.1 matches HotkeyCall::Finish { release } ==> finish_releases(r.0@, strings_view(release@)),
            r.0@.finished ==> r.0@.next_slot == 2,
            self@.pending matches PendingView::Registering { wanted, fallback } ==> match result {
                Ok(_) => settles(self@, r.0@, wanted, Some(wanted), None),
                Err(e) => if fallback != wanted {
                    &&& r.1 matches HotkeyCall::Register { release, slot, accelerator } && release is None
                        && slot == slot_at(self@.next_slot) && accelerator@ == fallback
                    &&& r.0@.pending == (PendingView::Restoring { wanted, restore: fallback, error: e@ })
                    &&& r.0@.next_slot == self@.next_slot
                    &&& r.0@.bound == self@.bound
                    &&& r.0@.effective == self@.effective
                    &&& r.0@.errors == self@.errors
                } else {
                    settles(self@, r.0@, wanted, None, Some(e@))
                },
            },
            self@.pending matches PendingView::Restoring { wanted, restore, error } ==> match result {
                Ok(_) => settles(
                    self@,
                    r.0@,
                    wanted,
                    Some(restore),
                    Some(still_active_message(error, restore)),
                ),
                Err(e) => settles(
                    self@,
                    r.0@,
                    wanted,
                    None,
                    Some(restore_failed_message(error, restore, e@)),
                ),
            },
    {
        proof {
            use_type_invariant(&self);
        }
        let ghost v = self@;
        let ghost res = result;
        let Applying {
            handle,
            previous,
            desired,
            effective,
            was_suspended,
            next_slot,
            pending,
            errors,
            finished,
        } = self;
        let mut handle = handle;
        let mut effective = effective;
        let mut errors = errors;
        let slot = if next_slot == 0 {
            Slot::Start
        } else {
            Slot::Stop
        };
        match pending {
            Pending::Registering { wanted, fallback } => {
                match after_register(wanted.as_str(), Some(fallback.as_str()), result) {
                    AfterRegister::Done(outcome) => {
                        handle.record(slot, &outcome, &previous, &mut effective);
                        if let Some(e) = failure_report(slot, wanted.as_str(), &outcome) {
                            errors.push(e);
                        }
                        let ghost h = handle@;
                        let ghost eff = effective;
                        let ghost errs = errors@;
                        let r = Self::advance(handle, previous, desired, effective, was_suspended, next_slot + 1, errors);
                        proof {
                            Self::lemma_settled(v, r.0@, slot, h, eff);
                            assert(v.pending matches PendingView::Registering { wanted: w, fallback: f } && w == wanted@ && f == fallback@);
                            assert(h.slot(slot) == opt_view(outcome.bound));
                            assert(r.0@.errors == errs);
                            match res {
                                Ok(_) => {
                                    assert(r.0@.bound.slot(slot) == Some(wanted@));
                                    assert(errs == v.errors);
                                },
                                Err(e) => {
                                    assert(fallback@ == wanted@);
                                    assert(r.0@.bound.slot(slot) == None::<Seq<char>>);
                                    assert(errs.drop_last() == v.errors);
                                    assert(errs.last().message@ == e@);
                                    assert(settles(v, r.0@, wanted@, None, Some(e@)));
                                },
                            }
                        }
                        r
                    },
                    AfterRegister::Restore { previous: restore, error } => {
                        let call = HotkeyCall::Register {
                            release: None,
                            slot,
                            accelerator: restore.clone(),
                        };
                        let a = Applying {
                            handle,
                            previous,
                            desired,
                            effective,
                            was_suspended,
                            next_slot,
                            pending: Pending::Restoring { wanted, restore, error },
                            errors,
                            finished,
                        };
                        (a, call)
                    },
                }
            },
            Pending::Restoring { wanted, restore, error } => {
                let outcome = after_restore(restore.as_str(), error.as_str(), result);
                handle.record(slot, &outcome, &previous, &mut effective);
                if let Some(e) = failure_report(slot, wanted.as_str(), &outcome) {
                    errors.push(e);
                }
                let ghost h = handle@;
                let ghost eff = effective;
                let ghost errs = errors@;
                let r = Self::advance(handle, previous, desired, effective, was_suspended, next_slot + 1, errors);
                proof {
                    Self::lemma_settled(v, r.0@, slot, h, eff);
                    assert(v.pending matches PendingView::Restoring { wanted: w, restore: rs, error: er } && w == wanted@ && rs == restore@ && er == error@);
                    assert(h.slot(slot) == opt_view(outcome.bound));
                    assert(r.0@.errors == errs);
                    assert(slot == slot_at(v.next_slot));
                    match res {
                        Ok(_) => {
                            assert(r.0@.bound.slot(slot) == Some(restore@));
                            assert(errs.drop_last() == v.errors);
                            assert(errs.last().message@ == still_active_message(error@, restore@));
                            assert(settles(v, r.0@, wanted@, Some(restore@), Some(still_active_message(error@, restore@))));
                        },
                        Err(e) => {
                            assert(r.0@.bound.slot(slot) == None::<Seq<char>>);
                            assert(errs.drop_last() == v.errors);
                            assert(errs.last().message@ == restore_failed_message(error@, restore@, e@));
                            assert(settles(v, r.0@, wanted@, None, Some(restore_failed_message(error@, restore@, e@))));
                        },
                    }
                }
                r
            },
            Pending::Idle => {
                let a = Applying {
                    handle,
                    previous,
                    desired,
                    effective,
                    was_suspended,
                    next_slot,
                    pending: Pending::Idle,
                    errors,
                    finished,
                };
                (a, HotkeyCall::Finish { release: Vec::new() })
            },
        }
    }

    /// Slots settled before the one just recorded keep their state through
    /// the rest of an apply, and the one recorded keeps what it was given.
    proof fn lemma_settled(v: ApplyView, w: ApplyView, slot: Slot, h: BoundView, eff: Settings)
        requires
            0 <= v.next_slot < 2,
            slot == slot_at(v.next_slot),
            h == v.bound.with_slot(slot, h.slot(slot)),
            agree_except(v.effective, eff, slot),
            w.next_slot >= v.next_slot + 1,
            forall|s: Slot|
                slot_index(s) < v.next_slot + 1 ==> #[trigger] w.bound.slot(s) == h.slot(s)
                    && slot_accelerator(s, w.effective) == slot_accelerator(s, eff),
        ensures
            keeps_settled(v, w, v.next_slot),
            w.next_slot > v.next_slot,
            w.bound.slot(slot) == h.slot(slot),
            slot_accelerator(slot, w.effective) == slot_accelerator(slot, eff),
    {
        assert(w.bound.slot(slot) == h.slot(slot));
        assert forall|s: Slot| slot_index(s) < v.next_slot implies #[trigger] w.bound.slot(s) == v.bound.slot(
            s,
        ) && slot_accelerator(s, w.effective) == slot_accelerator(s, v.effective) by {
            assert(w.bound.slot(s) == h.slot(s));
        }
    }

    /// Whether a registration is waiting for its result.
    pub fn awaiting(&self) -> (b: bool)
        ensures
            b == self@.awaiting,
    {
        match self.pending {
            Pending::Idle => false,
            _ => true,
        }
    }

    /// Whether the apply is over.
    pub fn is_finished(&self) -> (b: bool)
        ensures
            b == self@.finished,
    {
        self.finished
    }

    /// The handle, the settings to persist, and the failures to report on
    /// [`EVENT_ERROR`], once the apply is over.
    pub fn finish(self) -> (r: (HotkeyHandle, Settings, Vec<HotkeyError>))
        requires
            self@.finished,
        ensures
            applied(self@.previous, self@.desired, self@.was_suspended, r.1, r.0@),
            r.0@ == self@.bound,
            r.1 == self@.effective,
            r.2@ == self@.errors,
    {
        proof {
            use_type_invariant(&self);
        }
        let Applying { handle, effective, errors, .. } = self;
        (handle, effective, errors)
    }
}


/// Setting one slot never disturbs the other, nor the suspension.
pub proof fn law_slots_are_independent(v: BoundView, slot: Slot, value: Option<Seq<char>>)
    ensures
        v.with_slot(slot, value).slot(slot) == value,
        v.with_slot(slot, value).slot(
            match slot {
                Slot::Start => Slot::Stop,
                Slot::Stop => Slot::Start,
            },
        ) == v.slot(
            match slot {
                Slot::Start => Slot::Stop,
                Slot::Stop => Slot::Start,
            },
        ),
        v.with_slot(slot, value).suspended == v.suspended,
{
}

/// Suspending for a capture and resuming afterwards comes back to the same
/// bindings, and resuming re-registers exactly what suspending released.
pub proof fn law_resume_undoes_suspend(v: BoundView)
    requires
        !v.suspended,
    ensures
        ({
            let s = BoundView { suspended: true, ..v };
            &&& BoundView { suspended: false, ..s } == v
            &&& s.bound_list() == v.bound_list()
            &&& s.bound_list().len() == (if s.start is Some {
                1int
            } else {
                0
            }) + (if s.stop is Some {
                1int
            } else {
                0
            })
        }),
{
}

/// The accelerator persisted for a slot is never one that failed to bind:
/// it is the bound one, or the previously stored one when nothing is bound.
pub proof fn law_persisted_accelerator_is_live_or_previous(
    before: Settings,
    after: Settings,
    previous: Settings,
    slot: Slot,
    bound: Option<Seq<char>>,
)
    requires
        slot_accelerator(slot, after) == match bound {
            Some(a) => a,
            None => slot_accelerator(slot, previous),
        },
        agree_except(before, after, slot),
    ensures
        bound is Some ==> Some(slot_accelerator(slot, after)) == bound,
        bound is None ==> slot_accelerator(slot, after) == slot_accelerator(slot, previous),
        after.hotkeys_enabled == before.hotkeys_enabled,
{
}

} // verus!
