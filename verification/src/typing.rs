//! The typing engine's decisions: which runs are admitted, how text is
//! prepared, and, step by step, what a run does next.
//!
//! A run is driven by a worker that owns the keyboard connection and the
//! clock. It asks [`TypingRun::next`] what to do, performs it (publish a
//! state, sleep, send keys), and reports back. The run decides when to stop:
//! a stop request observed at any step ends it, a failed keystroke ends it,
//! a held Shift is always released before it ends, and exactly one terminal
//! [`Done`] is produced.

use vstd::prelude::*;

use crate::error::AppError;
use crate::settings::Settings;
use crate::text::{chars_of, concat, decimal, decimal_string, from_chars, same};

verus! {

pub const EVENT_STATE: &'static str = "typing://state";

pub const EVENT_DONE: &'static str = "typing://done";

/// Refuse anything larger; at the default 25 ms this is already ~7 hours.
pub const MAX_CHARS: usize = 1000000;

/// Upper bound on how often `typing://state` is emitted while typing, in ms.
pub const EMIT_INTERVAL_MS: u64 = 50;

/// Longest a sleep runs before the stop flag is re-checked, in ms.
pub const CANCEL_SLICE_MS: u64 = 25;

/// How long starting waits for the keyboard backend to come up, in ms.
pub const INIT_TIMEOUT_MS: u64 = 5000;

/// How long each countdown step lasts, in ms.
pub const COUNTDOWN_STEP_MS: u64 = 1000;

pub const ALREADY_TYPING: &'static str = "Ketikin is already typing. Stop the current run before starting another one.";

pub const STATE_MISSING: &'static str = "Ketikin is still starting up. Try again in a moment.";

/// Progress snapshot mirrored to the frontend.
#[derive(Debug, Clone)]
pub struct TypingState {
    /// `"idle" | "countdown" | "typing"`.
    pub phase: String,
    pub typed: u32,
    pub total: u32,
    pub countdown: u32,
}

/// A typing state as values.
pub struct StateView {
    pub phase: Seq<char>,
    pub typed: u32,
    pub total: u32,
    pub countdown: u32,
}

pub open spec fn state_view(s: TypingState) -> StateView {
    StateView { phase: s.phase@, typed: s.typed, total: s.total, countdown: s.countdown }
}

pub open spec fn state_is(s: TypingState, phase: Seq<char>, typed: u32, total: u32, countdown: u32) -> bool {
    s.phase@ == phase && s.typed == typed && s.total == total && s.countdown == countdown
}

impl PartialEq for TypingState {
    fn eq(&self, other: &Self) -> (r: bool) {
        self.phase == other.phase && self.typed == other.typed && self.total == other.total
            && self.countdown == other.countdown
    }
}

impl vstd::std_specs::cmp::PartialEqSpecImpl for TypingState {
    open spec fn obeys_eq_spec() -> bool {
        true
    }

    open spec fn eq_spec(&self, other: &Self) -> bool {
        state_view(*self) == state_view(*other)
    }
}

impl Eq for TypingState {
}

impl TypingState {
    /// Nothing running.
    pub fn idle() -> (s: Self)
        ensures
            state_is(s, "idle"@, 0, 0, 0),
    {
        TypingState { phase: String::from_str("idle"), typed: 0, total: 0, countdown: 0 }
    }

    fn make(phase: &str, typed: u32, total: u32, countdown: u32) -> (s: Self)
        ensures
            state_is(s, phase@, typed, total, countdown),
    {
        TypingState { phase: String::from_str(phase), typed, total, countdown }
    }

    fn copy(&self) -> (s: Self)
        ensures
            s == *self,
    {
        TypingState {
            phase: self.phase.clone(),
            typed: self.typed,
            total: self.total,
            countdown: self.countdown,
        }
    }
}

impl Default for TypingState {
    fn default() -> (s: Self)
        ensures
            state_is(s, "idle"@, 0, 0, 0),
    {
        Self::idle()
    }
}

/// Terminal `typing://done` payload.
#[derive(Debug, Clone)]
pub struct Done {
    /// `"completed" | "stopped" | "error"`.
    pub reason: String,
    pub message: Option<String>,
}

pub open spec fn done_is(d: Done, reason: Seq<char>, message: Option<Seq<char>>) -> bool {
    d.reason@ == reason && match (d.message, message) {
        (Some(m), Some(x)) => m@ == x,
        (None, None) => true,
        _ => false,
    }
}

impl Done {
    pub fn completed() -> (d: Self)
        ensures
            done_is(d, "completed"@, None),
    {
        Done { reason: String::from_str("completed"), message: None }
    }

    pub fn stopped() -> (d: Self)
        ensures
            done_is(d, "stopped"@, None),
    {
        Done { reason: String::from_str("stopped"), message: None }
    }

    pub fn error(message: String) -> (d: Self)
        ensures
            done_is(d, "error"@, Some(message@)),
    {
        Done { reason: String::from_str("error"), message: Some(message) }
    }
}

/// The engine's shared state: the snapshot the frontend polls, and whether a
/// run is in flight and has been asked to stop.
#[derive(Debug)]
pub struct TypingHandle {
    state: TypingState,
    active: bool,
    cancelled: bool,
}

/// A typing handle as values.
pub struct HandleView {
    pub state: StateView,
    pub active: bool,
    pub cancelled: bool,
}

impl View for TypingHandle {
    type V = HandleView;

    closed spec fn view(&self) -> HandleView {
        HandleView { state: state_view(self.state), active: self.active, cancelled: self.cancelled }
    }
}

pub open spec fn idle_view() -> StateView {
    StateView { phase: "idle"@, typed: 0, total: 0, countdown: 0 }
}

/// The claim on the engine an accepted run holds.
#[derive(Debug, Clone, Copy, PartialEq, Eq)]
pub struct RunClaim {
    pub total: u32,
    pub countdown: u32,
}

impl Default for TypingHandle {
    fn default() -> (h: Self)
        ensures
            h@ == (HandleView { state: idle_view(), active: false, cancelled: false }),
    {
        TypingHandle { state: TypingState::idle(), active: false, cancelled: false }
    }
}

impl TypingHandle {
    /// Claim the engine for a new run, or `None` if one is already in flight.
    pub fn begin(&mut self, total: u32, countdown: u32) -> (r: Option<RunClaim>)
        ensures
            old(self)@.active ==> r is None && final(self)@ == old(self)@,
            !old(self)@.active ==> r == Some(RunClaim { total, countdown }) && final(self)@ == (
            HandleView {
                state: StateView { phase: "countdown"@, typed: 0, total, countdown },
                active: true,
                cancelled: false,
            }),
    {
        if self.active {
            return None;
        }
        self.active = true;
        self.cancelled = false;
        self.state = TypingState::make("countdown", 0, total, countdown);
        Some(RunClaim { total, countdown })
    }

    /// Release the claim and go back to idle.
    pub fn release(&mut self)
        ensures
            final(self)@ == (HandleView { state: idle_view(), active: false, cancelled: false }),
    {
        self.active = false;
        self.cancelled = false;
        self.state = TypingState::idle();
    }

    /// Remember the latest progress snapshot.
    pub fn store(&mut self, state: &TypingState)
        ensures
            final(self)@ == (HandleView { state: state_view(*state), ..old(self)@ }),
    {
        self.state = state.copy();
    }

    /// Ask the run in flight to stop. Returns whether a run was in flight.
    pub fn request_stop(&mut self) -> (r: bool)
        ensures
            r == old(self)@.active,
            final(self)@ == (HandleView { cancelled: old(self)@.cancelled || old(self)@.active, ..old(self)@ }),
    {
        if self.active {
            self.cancelled = true;
            true
        } else {
            false
        }
    }

    /// Whether the run in flight has been asked to stop.
    pub fn is_cancelled(&self) -> (b: bool)
        ensures
            b == self@.cancelled,
    {
        self.cancelled
    }

    /// The latest progress snapshot.
    pub fn status(&self) -> (s: TypingState)
        ensures
            state_view(s) == self@.state,
    {
        self.state.copy()
    }
}

/// How a line break is delivered.
#[derive(Debug, Clone, Copy, PartialEq, Eq, Structural)]
pub enum NewlineMode {
    Enter,
    ShiftEnter,
    Skip,
}

pub open spec fn newline_mode_of(value: Seq<char>) -> NewlineMode {
    if value == "shiftEnter"@ {
        NewlineMode::ShiftEnter
    } else if value == "skip"@ {
        NewlineMode::Skip
    } else {
        NewlineMode::Enter
    }
}

impl NewlineMode {
    /// `"shiftEnter"` and `"skip"` are recognised; everything else is Enter.
    pub fn parse(value: &str) -> (m: Self)
        ensures
            m == newline_mode_of(value@),
    {
        if same(value, "shiftEnter") {
            NewlineMode::ShiftEnter
        } else if same(value, "skip") {
            NewlineMode::Skip
        } else {
            NewlineMode::Enter
        }
    }
}

/// `s` with CRLF and lone CR collapsed into LF.
pub open spec fn normalized_text(s: Seq<char>) -> Seq<char>
    decreases s.len(),
{
    if s.len() == 0 {
        Seq::empty()
    } else if s[0] == '\r' {
        if s.len() > 1 && s[1] == '\n' {
            seq!['\n'] + normalized_text(s.subrange(2, s.len() as int))
        } else {
            seq!['\n'] + normalized_text(s.drop_first())
        }
    } else {
        seq![s[0]] + normalized_text(s.drop_first())
    }
}

/// Collapse CRLF and lone CR into LF so newline handling has one shape.
pub fn normalize_text(text: &str) -> (r: String)
    ensures
        r@ == normalized_text(text@),
{
    let v = chars_of(text);
    let n = v.len();
    let mut out: Vec<char> = Vec::new();
    let mut i: usize = 0;
    assert(v@.subrange(0, n as int) =~= v@);
    while i < n
        invariant
            v@ == text@,
            n == v@.len(),
            i <= n,
            out@ + normalized_text(v@.subrange(i as int, n as int)) == normalized_text(v@),
        decreases n - i,
    {
        let ghost rest = v@.subrange(i as int, n as int);
        if v[i] == '\r' {
            out.push('\n');
            if i + 1 < n && v[i + 1] == '\n' {
                proof {
                    assert(rest.subrange(2, rest.len() as int) =~= v@.subrange(i + 2, n as int));
                    assert(out@ + normalized_text(v@.subrange(i + 2, n as int)) =~= out@.drop_last()
                        + normalized_text(rest));
                }
                i = i + 2;
            } else {
                proof {
                    assert(rest.drop_first() =~= v@.subrange(i + 1, n as int));
                    assert(out@ + normalized_text(v@.subrange(i + 1, n as int)) =~= out@.drop_last()
                        + normalized_text(rest));
                }
                i = i + 1;
            }
        } else {
            out.push(v[i]);
            proof {
                assert(rest.drop_first() =~= v@.subrange(i + 1, n as int));
                assert(out@ + normalized_text(v@.subrange(i + 1, n as int)) =~= out@.drop_last()
                    + normalized_text(rest));
            }
            i = i + 1;
        }
    }
    proof {
        assert(v@.subrange(n as int, n as int) =~= Seq::<char>::empty());
        assert(out@ =~= normalized_text(v@));
    }
    from_chars(out.as_slice())
}

/// What delivering one character takes.
#[derive(Debug, Clone, Copy, PartialEq, Eq, Structural)]
pub enum KeyAction {
    /// Nothing: a line break in skip mode.
    Nothing,
    /// Click Return.
    Enter,
    /// Press Shift, click Return, release Shift, reporting the first failure;
    /// Shift is released even when the click fails.
    ShiftEnter,
    /// Click Tab.
    Tab,
    /// Enter the character as Unicode text, whatever the keyboard layout.
    Text(char),
}

pub open spec fn key_action(ch: char, newline: NewlineMode) -> KeyAction {
    if ch == '\n' {
        match newline {
            NewlineMode::Skip => KeyAction::Nothing,
            NewlineMode::Enter => KeyAction::Enter,
            NewlineMode::ShiftEnter => KeyAction::ShiftEnter,
        }
    } else if ch == '\t' {
        KeyAction::Tab
    } else {
        KeyAction::Text(ch)
    }
}

/// The characters a run of `keys` enters as text, in order.
pub open spec fn typed_as_text(keys: Seq<KeyAction>) -> Seq<char>
    decreases keys.len(),
{
    if keys.len() == 0 {
        Seq::empty()
    } else {
        match keys.last() {
            KeyAction::Text(c) => typed_as_text(keys.drop_last()).push(c),
            _ => typed_as_text(keys.drop_last()),
        }
    }
}

/// Every character other than a line break or a tab is entered as itself,
/// as text, whatever the newline mode.
pub proof fn law_plain_characters_are_typed_as_themselves(ch: char, newline: NewlineMode)
    requires
        ch != '\n',
        ch != '\t',
    ensures
        key_action(ch, newline) == KeyAction::Text(ch),
{
}

/// A line break follows the newline mode and a tab is a Tab key: neither is
/// ever entered as text.
pub proof fn law_line_breaks_and_tabs_are_keys(newline: NewlineMode)
    ensures
        key_action('\t', newline) == KeyAction::Tab,
        key_action('\n', newline) == match newline {
            NewlineMode::Skip => KeyAction::Nothing,
            NewlineMode::Enter => KeyAction::Enter,
            NewlineMode::ShiftEnter => KeyAction::ShiftEnter,
        },
{
}

/// What the keys of a text enter as text is the text itself with its line
/// breaks and tabs taken out, in order: nothing else is dropped, added or
/// moved.
pub proof fn law_the_text_reaches_the_console(text: Seq<char>, newline: NewlineMode)
    ensures
        typed_as_text(text.map_values(|c: char| key_action(c, newline))) == text.filter(
            |c: char| c != '\n' && c != '\t',
        ),
    decreases text.len(),
{
    reveal(Seq::filter);
    let keys = text.map_values(|c: char| key_action(c, newline));
    if text.len() > 0 {
        law_the_text_reaches_the_console(text.drop_last(), newline);
        assert(keys.drop_last() =~= text.drop_last().map_values(|c: char| key_action(c, newline)));
        assert(keys.last() == key_action(text.last(), newline));
    } else {
        assert(keys =~= Seq::<KeyAction>::empty());
    }
}

/// How `ch` is delivered under `newline`.
pub fn key_for(ch: char, newline: NewlineMode) -> (k: KeyAction)
    ensures
        k == key_action(ch, newline),
{
    if ch == '\n' {
        match newline {
            NewlineMode::Skip => KeyAction::Nothing,
            NewlineMode::Enter => KeyAction::Enter,
            NewlineMode::ShiftEnter => KeyAction::ShiftEnter,
        }
    } else if ch == '\t' {
        KeyAction::Tab
    } else {
        KeyAction::Text(ch)
    }
}

/// How a run ends.
#[derive(Debug, Clone)]
pub enum Ending {
    Completed,
    Stopped,
    Failed(String),
}

fn copy_ending(e: &Ending) -> (r: Ending)
    ensures
        r == *e,
{
    match e {
        Ending::Completed => Ending::Completed,
        Ending::Stopped => Ending::Stopped,
        Ending::Failed(m) => Ending::Failed(m.clone()),
    }
}

/// Where a run is.
#[derive(Debug, Clone)]
pub enum Stage {
    /// Counting down; this many seconds remain.
    Countdown(u32),
    /// The countdown is over and typing has not been announced yet.
    BeginTyping,
    /// About to deliver the character at this index.
    Typing(usize),
    /// Waiting to hear how the character at this index went.
    AwaitSend(usize),
    /// Shift is held and must be released before ending like this.
    Releasing(Ending),
    /// The terminal event has been handed out.
    Over,
}

/// What the worker does next.
#[derive(Debug)]
pub enum Step {
    /// Publish this countdown state, then sleep a second, waking for a stop.
    Countdown(TypingState),
    /// Publish this state: typing begins.
    BeginTyping(TypingState),
    /// Deliver this key, then report with [`TypingRun::sent`].
    Key(KeyAction),
    /// Remember this progress (emitting it when the coalescing interval has
    /// passed), then sleep this many milliseconds, waking for a stop.
    Progress(TypingState, u64),
    /// Release the Shift key that is still held.
    ReleaseShift,
    /// The run is over: publish the state when there is one, then emit `Done`.
    Finish(Done, Option<TypingState>),
}

/// One typing run, from countdown to its terminal event.
#[derive(Debug)]
pub struct TypingRun {
    text: Vec<char>,
    total: u32,
    delay_ms: u64,
    newline: NewlineMode,
    /// The stage, and how many characters have been typed so far; one field,
    /// so that both change in a single step.
    at: (Stage, u32),
    shift_held: bool,
}

/// A run as values.
pub struct RunView {
    pub text: Seq<char>,
    pub total: u32,
    pub delay_ms: u64,
    pub newline: NewlineMode,
    pub stage: Stage,
    pub typed: u32,
    pub shift_held: bool,
}

impl View for TypingRun {
    type V = RunView;

    closed spec fn view(&self) -> RunView {
        RunView {
            text: self.text@,
            total: self.total,
            delay_ms: self.delay_ms,
            newline: self.newline,
            stage: self.at.0,
            typed: self.at.1,
            shift_held: self.shift_held,
        }
    }
}

pub open spec fn saturating_inc(x: u32) -> u32 {
    if x == u32::MAX {
        x
    } else {
        (x + 1) as u32
    }
}

pub open spec fn send_failure_message(e: Seq<char>) -> Seq<char> {
    "could not send a keystroke to the focused window: "@ + e
}

/// The terminal event an ending is announced with.
pub open spec fn ending_done(d: Done, e: Ending) -> bool {
    match e {
        Ending::Completed => done_is(d, "completed"@, None),
        Ending::Stopped => done_is(d, "stopped"@, None),
        Ending::Failed(m) => done_is(d, "error"@, Some(m@)),
    }
}

/// The state a run publishes as it ends, if any: completed runs show their
/// final progress.
pub open spec fn ending_state(st: Option<TypingState>, e: Ending, v: RunView) -> bool {
    match e {
        Ending::Completed => st matches Some(s) && state_is(s, "typing"@, v.typed, v.total, 0),
        _ => st is None,
    }
}

/// What ending a run in state `v` like `e` looks like.
pub open spec fn ends(v: RunView, e: Ending, w: RunView, step: Step) -> bool {
    if v.shift_held {
        &&& step is ReleaseShift
        &&& w == RunView { stage: Stage::Releasing(e), ..v }
    } else {
        &&& step matches Step::Finish(d, st) && ending_done(d, e) && ending_state(st, e, v)
        &&& w == RunView { stage: Stage::Over, ..v }
    }
}

/// `i` as a progress count, saturating at `u32::MAX`.
pub open spec fn capped(i: int) -> u32 {
    if i >= u32::MAX {
        u32::MAX
    } else {
        i as u32
    }
}

/// What holds of a run at every step.
pub open spec fn run_consistent(v: RunView) -> bool {
    match v.stage {
        Stage::Countdown(r) => r > 0 && v.typed == 0 && !v.shift_held,
        Stage::BeginTyping => v.typed == 0 && !v.shift_held,
        Stage::Typing(i) => i <= v.text.len() && v.typed == capped(i as int),
        Stage::AwaitSend(i) => i < v.text.len() && v.typed == capped(i as int),
        Stage::Releasing(e) => e is Completed ==> v.typed == capped(v.text.len() as int),
        Stage::Over => !v.shift_held,
    }
}

/// The worker may ask for its next step in this state.
pub open spec fn can_step(v: RunView) -> bool {
    !(v.stage is AwaitSend) && !(v.stage is Over)
}

/// What [`TypingRun::next`] does from state `v` when the stop flag reads
/// `cancelled`: the new state `w` and the step handed out.
pub open spec fn next_spec(v: RunView, cancelled: bool, w: RunView, step: Step) -> bool {
    match v.stage {
        Stage::Countdown(r) => if cancelled {
            ends(v, Ending::Stopped, w, step)
        } else {
            &&& step matches Step::Countdown(s) && state_is(s, "countdown"@, 0, v.total, r)
            &&& w == RunView {
                stage: if r > 1 {
                    Stage::Countdown((r - 1) as u32)
                } else {
                    Stage::BeginTyping
                },
                ..v
            }
        },
        Stage::BeginTyping => if cancelled {
            ends(v, Ending::Stopped, w, step)
        } else {
            &&& step matches Step::BeginTyping(s) && state_is(s, "typing"@, 0, v.total, 0)
            &&& w == RunView { stage: Stage::Typing(0), ..v }
        },
        Stage::Typing(i) => if cancelled {
            ends(v, Ending::Stopped, w, step)
        } else if i >= v.text.len() {
            ends(v, Ending::Completed, w, step)
        } else {
            &&& step == Step::Key(key_action(v.text[i as int], v.newline))
            &&& w == RunView { stage: Stage::AwaitSend(i), ..v }
        },
        Stage::Releasing(e) => {
            let released = RunView { shift_held: false, ..v };
            &&& step matches Step::Finish(d, st) && ending_done(d, e) && ending_state(st, e, released)
            &&& w == RunView { stage: Stage::Over, ..released }
        },
        _ => false,
    }
}

/// What reporting a keystroke's fate does to a run awaiting it: progress
/// and a pause, or the end of the run with the reason.
pub open spec fn sent_spec(v: RunView, result: Result<(), String>, shift_held: bool, w: RunView, step: Step) -> bool {
    match result {
        Ok(_) => {
            let i = v.stage->AwaitSend_0;
            let typed = saturating_inc(v.typed);
            &&& step matches Step::Progress(s, ms) && state_is(s, "typing"@, typed, v.total, 0) && ms
                == v.delay_ms
            &&& w == RunView { stage: Stage::Typing((i + 1) as usize), typed, shift_held, ..v }
        },
        Err(e) => exists|m: String|
            m@ == send_failure_message(e@) && ends(
                RunView { shift_held, ..v },
                Ending::Failed(m),
                w,
                step,
            ),
    }
}

/// How many more steps a run can take at most: the countdown, the start of
/// typing, two per character left (the key and its report), and the end,
/// which may first release Shift.
pub open spec fn steps_left(v: RunView) -> nat {
    let n = v.text.len();
    match v.stage {
        Stage::Countdown(r) => (r + 1 + 2 * n + 2) as nat,
        Stage::BeginTyping => (1 + 2 * n + 2) as nat,
        Stage::Typing(i) => (2 * (n - i) + 2) as nat,
        Stage::AwaitSend(i) => (2 * (n - i) + 1) as nat,
        Stage::Releasing(_) => 1,
        Stage::Over => 0,
    }
}

impl TypingRun {
    /// Every run keeps its stage, progress and Shift state consistent.
    #[verifier::type_invariant]
    spec fn consistent(self) -> bool {
        run_consistent(self@)
    }

    /// A run of `text` (already normalized) with the settings' countdown,
    /// delay and newline handling; `total` is what progress counts towards.
    pub fn new(text: &str, total: u32, settings: &Settings) -> (r: TypingRun)
        ensures
            r@.text == text@,
            r@.total == total,
            r@.delay_ms == settings.typing_delay_ms as u64,
            r@.newline == newline_mode_of(settings.newline_mode@),
            r@.typed == 0,
            !r@.shift_held,
            r@.stage == if settings.start_delay_secs > 0 {
                Stage::Countdown(settings.start_delay_secs)
            } else {
                Stage::BeginTyping
            },
            run_consistent(r@),
    {
        TypingRun {
            text: chars_of(text),
            total,
            delay_ms: settings.typing_delay_ms as u64,
            newline: NewlineMode::parse(settings.newline_mode.as_str()),
            at: (
                if settings.start_delay_secs > 0 {
                    Stage::Countdown(settings.start_delay_secs)
                } else {
                    Stage::BeginTyping
                },
                0,
            ),
            shift_held: false,
        }
    }

    /// Whether the worker may ask for its next step.
    pub fn ready(&self) -> (b: bool)
        ensures
            b == can_step(self@),
    {
        match self.at.0 {
            Stage::AwaitSend(_) => false,
            Stage::Over => false,
            _ => true,
        }
    }

    /// Whether the run has handed out its terminal event.
    pub fn is_over(&self) -> (b: bool)
        ensures
            b == (self@.stage is Over),
    {
        match self.at.0 {
            Stage::Over => true,
            _ => false,
        }
    }

    /// Whether the run is waiting to hear how a key went.
    pub fn awaiting_send(&self) -> (b: bool)
        ensures
            b == (self@.stage is AwaitSend),
    {
        match self.at.0 {
            Stage::AwaitSend(_) => true,
            _ => false,
        }
    }

    fn current(&self) -> (s: TypingState)
        ensures
            state_is(s, "typing"@, self@.typed, self@.total, 0),
    {
        TypingState::make("typing", self.at.1, self.total, 0)
    }

    /// End the run like `e`, releasing Shift first when it is held.
    fn end(&mut self, e: Ending) -> (step: Step)
        requires
            e is Completed ==> old(self)@.typed == capped(old(self)@.text.len() as int),
        ensures
            ends(old(self)@, e, final(self)@, step),
    {
        if self.shift_held {
            self.at = (Stage::Releasing(e), self.at.1);
            return Step::ReleaseShift;
        }
        let done = match &e {
            Ending::Completed => Done::completed(),
            Ending::Stopped => Done::stopped(),
            Ending::Failed(m) => Done::error(m.clone()),
        };
        let shown = match &e {
            Ending::Completed => Some(self.current()),
            _ => None,
        };
        self.at = (Stage::Over, self.at.1);
        Step::Finish(done, shown)
    }

    /// The next step, given whether a stop has been requested: after a sleep,
    /// whether it was cut short; otherwise, the stop flag as it reads now.
    pub fn next(&mut self, cancelled: bool) -> (step: Step)
        requires
            can_step(old(self)@),
        ensures
            next_spec(old(self)@, cancelled, final(self)@, step),
            run_consistent(old(self)@),
            run_consistent(final(self)@),
    {
        proof {
            use_type_invariant(&*self);
        }
        match &self.at.0 {
            Stage::Countdown(r) => {
                let r = *r;
                if cancelled {
                    return self.end(Ending::Stopped);
                }
                self.at = (
                    if r > 1 {
                        Stage::Countdown(r - 1)
                    } else {
                        Stage::BeginTyping
                    },
                    self.at.1,
                );
                Step::Countdown(TypingState::make("countdown", 0, self.total, r))
            },
            Stage::BeginTyping => {
                if cancelled {
                    return self.end(Ending::Stopped);
                }
                self.at = (Stage::Typing(0), self.at.1);
                Step::BeginTyping(TypingState::make("typing", 0, self.total, 0))
            },
            Stage::Typing(i) => {
                let i = *i;
                if cancelled {
                    return self.end(Ending::Stopped);
                }
                if i >= self.text.len() {
                    return self.end(Ending::Completed);
                }
                self.at = (Stage::AwaitSend(i), self.at.1);
                Step::Key(key_for(self.text[i], self.newline))
            },
            Stage::Releasing(e) => {
                let e = copy_ending(e);
                self.shift_held = false;
                self.end(e)
            },
            _ => Step::Finish(Done::stopped(), None),
        }
    }

    /// Report how the key handed out last went, and whether Shift is still
    /// held afterwards; returns the next step.
    pub fn sent(&mut self, result: Result<(), String>, shift_held: bool) -> (step: Step)
        requires
            old(self)@.stage is AwaitSend,
        ensures
            run_consistent(old(self)@),
            run_consistent(final(self)@),
            sent_spec(old(self)@, result, shift_held, final(self)@, step),
    {
        proof {
            use_type_invariant(&*self);
        }
        let n = self.text.len();
        let i = match &self.at.0 {
            Stage::AwaitSend(i) => *i,
            _ => 0,
        };
        assert(i < n);
        self.shift_held = shift_held;
        match result {
            Ok(()) => {
                let typed = if self.at.1 == u32::MAX {
                    self.at.1
                } else {
                    self.at.1 + 1
                };
                self.at = (Stage::Typing(i + 1), typed);
                Step::Progress(self.current(), self.delay_ms)
            },
            Err(e) => {
                let m = concat("could not send a keystroke to the focused window: ", e.as_str());
                let ghost mm = m;
                let step = self.end(Ending::Failed(m));
                proof {
                    assert(mm@ == send_failure_message(e@));
                }
                step
            },
        }
    }
}

pub open spec fn too_long_message(count: nat) -> Seq<char> {
    "that text is too long to type: "@ + decimal(count) + " characters (limit is 1000000)"@
}

/// Accept a new run of `text` on `handle`, or explain why it was refused.
///
/// The text is normalized first, and its length in characters decides both
/// the refusal of oversized text and the total progress counts towards. On
/// success the engine is claimed for the run, with the settings' countdown.
pub fn start(handle: &mut TypingHandle, text: &str, settings: &Settings) -> (r: Result<TypingRun, AppError>)
    ensures
        ({
            let t = normalized_text(text@);
            if t.len() > MAX_CHARS {
                &&& r matches Err(e) && e matches AppError::Invalid(m) && m@ == too_long_message(t.len())
                &&& final(handle)@ == old(handle)@
            } else if old(handle)@.active {
                &&& r matches Err(e) && e matches AppError::Typing(m) && m@ == ALREADY_TYPING@
                &&& final(handle)@ == old(handle)@
            } else {
                &&& r matches Ok(run) && run@.text == t && run@.total == t.len()
                    && run@.typed == 0 && !run@.shift_held
                    && run@.delay_ms == settings.typing_delay_ms as u64
                    && run@.newline == newline_mode_of(settings.newline_mode@)
                    && run@.stage == if settings.start_delay_secs > 0 {
                    Stage::Countdown(settings.start_delay_secs)
                } else {
                    Stage::BeginTyping
                }
                &&& final(handle)@ == (HandleView {
                    state: StateView {
                        phase: "countdown"@,
                        typed: 0,
                        total: t.len() as u32,
                        countdown: settings.start_delay_secs,
                    },
                    active: true,
                    cancelled: false,
                })
            }
        }),
{
    let normalized = normalize_text(text);
    let count = normalized.unicode_len();
    if count > MAX_CHARS {
        let mut m = String::from_str("that text is too long to type: ");
        m.append(decimal_string(count).as_str());
        m.append(" characters (limit is 1000000)");
        return Err(AppError::Invalid(m));
    }
    let total = count as u32;
    match handle.begin(total, settings.start_delay_secs) {
        Some(_) => Ok(TypingRun::new(normalized.as_str(), total, settings)),
        None => Err(AppError::Typing(String::from_str(ALREADY_TYPING))),
    }
}

/// The platform a message is written for.
#[derive(Debug, Clone, Copy, PartialEq, Eq, Structural)]
pub enum Platform {
    MacOs,
    Linux,
    Other,
}

pub open spec fn connection_message(err: Seq<char>, platform: Platform) -> Seq<char> {
    let base = "Ketikin could not connect to the system keyboard ("@ + err + ")"@;
    match platform {
        Platform::MacOs => base
            + ". Grant Ketikin permission under System Settings > Privacy & Security > Accessibility, then restart the app."@,
        Platform::Linux => base
            + ". Ketikin needs an X11 display: run it under X11 or XWayland (a native Wayland session blocks synthetic keystrokes), and make sure DISPLAY is set."@,
        Platform::Other => base + "."@,
    }
}

/// Turn a keyboard connection failure into something the user can act on.
pub fn connection_error_message(err: &str, platform: Platform) -> (m: String)
    ensures
        m@ == connection_message(err@, platform),
{
    let mut m = String::from_str("Ketikin could not connect to the system keyboard (");
    m.append(err);
    m.append(")");
    match platform {
        Platform::MacOs => m.append(
            ". Grant Ketikin permission under System Settings > Privacy & Security > Accessibility, then restart the app.",
        ),
        Platform::Linux => m.append(
            ". Ketikin needs an X11 display: run it under X11 or XWayland (a native Wayland session blocks synthetic keystrokes), and make sure DISPLAY is set.",
        ),
        Platform::Other => m.append("."),
    }
    m
}

/// A run never hands out its terminal event with Shift still held, and after
/// it nothing more is asked of the worker.
pub proof fn law_finish_leaves_no_key_held(v: RunView, cancelled: bool, w: RunView, step: Step)
    requires
        run_consistent(v),
        can_step(v),
        next_spec(v, cancelled, w, step),
        step is Finish,
    ensures
        !w.shift_held,
        w.stage is Over,
        !can_step(w),
{
}

/// The same holds when a failed keystroke ends the run.
pub proof fn law_failed_key_leaves_no_key_held(v: RunView, e: Ending, w: RunView, step: Step)
    requires
        ends(v, e, w, step),
        step is Finish,
    ensures
        !w.shift_held,
        w.stage is Over,
{
}

/// A stop request observed at any step before the end stops the run: Shift
/// is released if held, and the run ends as stopped without a final state.
pub proof fn law_stop_is_honoured(v: RunView, w: RunView, step: Step)
    requires
        run_consistent(v),
        can_step(v),
        !(v.stage is Releasing),
        next_spec(v, true, w, step),
    ensures
        step is ReleaseShift || (step matches Step::Finish(d, st) && done_is(d, "stopped"@, None)
            && st is None),
{
}

/// A run that completes has delivered every character: its final state
/// counts the whole text.
pub proof fn law_completed_run_counts_every_character(
    v: RunView,
    cancelled: bool,
    w: RunView,
    d: Done,
    st: Option<TypingState>,
)
    requires
        run_consistent(v),
        can_step(v),
        next_spec(v, cancelled, w, Step::Finish(d, st)),
        d.reason@ == "completed"@,
    ensures
        st matches Some(s) && s.typed == capped(v.text.len() as int) && s.phase@ == "typing"@,
{
    reveal_strlit("completed");
    reveal_strlit("stopped");
    reveal_strlit("error");
    assert("completed"@.len() != "stopped"@.len());
    assert("completed"@.len() != "error"@.len());
}

proof fn lemma_normalized_text_shape(s: Seq<char>)
    ensures
        normalized_text(s).len() <= s.len(),
        forall|i: int| 0 <= i < normalized_text(s).len() ==> #[trigger] normalized_text(s)[i] != '\r',
    decreases s.len(),
{
    if s.len() > 0 {
        if s[0] == '\r' && s.len() > 1 && s[1] == '\n' {
            lemma_normalized_text_shape(s.subrange(2, s.len() as int));
        } else {
            lemma_normalized_text_shape(s.drop_first());
        }
        let n = normalized_text(s);
        assert forall|i: int| 0 <= i < n.len() implies #[trigger] n[i] != '\r' by {
            if i > 0 {
                if s[0] == '\r' && s.len() > 1 && s[1] == '\n' {
                    assert(n[i] == normalized_text(s.subrange(2, s.len() as int))[i - 1]);
                } else {
                    assert(n[i] == normalized_text(s.drop_first())[i - 1]);
                }
            }
        }
    }
}

proof fn lemma_normalized_text_fixed(s: Seq<char>)
    requires
        forall|i: int| 0 <= i < s.len() ==> #[trigger] s[i] != '\r',
    ensures
        normalized_text(s) == s,
    decreases s.len(),
{
    if s.len() > 0 {
        assert(s[0] != '\r');
        assert forall|i: int| 0 <= i < s.drop_first().len() implies #[trigger] s.drop_first()[i]
            != '\r' by {
            assert(s.drop_first()[i] == s[i + 1]);
        }
        lemma_normalized_text_fixed(s.drop_first());
        assert(seq![s[0]] + s.drop_first() =~= s);
    }
}

/// Normalized text holds no carriage return and is never longer than the
/// input.
pub proof fn law_normalized_text_has_no_carriage_return(s: Seq<char>)
    ensures
        normalized_text(s).len() <= s.len(),
        !normalized_text(s).contains('\r'),
{
    lemma_normalized_text_shape(s);
}

/// Normalizing twice is normalizing once.
pub proof fn law_normalize_text_is_idempotent(s: Seq<char>)
    ensures
        normalized_text(normalized_text(s)) == normalized_text(s),
{
    lemma_normalized_text_shape(s);
    lemma_normalized_text_fixed(normalized_text(s));
}

/// Text without carriage returns is left exactly as it is.
pub proof fn law_clean_text_is_untouched(s: Seq<char>)
    requires
        !s.contains('\r'),
    ensures
        normalized_text(s) == s,
{
    assert forall|i: int| 0 <= i < s.len() implies #[trigger] s[i] != '\r' by {
        if s[i] == '\r' {
            assert(s.contains('\r'));
        }
    }
    lemma_normalized_text_fixed(s);
}

/// Every step of a run brings its end closer, so a run always ends: it
/// takes at most the countdown, two steps per character and two more.
pub proof fn law_every_step_brings_the_end_closer(v: RunView, cancelled: bool, w: RunView, step: Step)
    requires
        run_consistent(v),
        can_step(v),
        next_spec(v, cancelled, w, step),
    ensures
        steps_left(w) < steps_left(v),
{
}

/// Reporting a keystroke brings the end closer too (for a text whose length
/// fits in a `usize`, as a run's always does).
pub proof fn law_each_keystroke_brings_the_end_closer(
    v: RunView,
    result: Result<(), String>,
    shift_held: bool,
    w: RunView,
    step: Step,
)
    requires
        run_consistent(v),
        v.text.len() <= usize::MAX,
        v.stage is AwaitSend,
        sent_spec(v, result, shift_held, w, step),
    ensures
        steps_left(w) < steps_left(v),
{
    if let Err(e) = result {
        let m = choose|m: String|
            m@ == send_failure_message(e@) && ends(RunView { shift_held, ..v }, Ending::Failed(m), w, step);
        assert(w.stage is Releasing || w.stage is Over);
    }
}

} // verus!
