//! User settings: shape, defaults, and normalization.
//!
//! Any value a hand-edited file can hold is brought back into the range the
//! interface can represent by [`Settings::normalize`], and
//! [`Settings::validate`] rejects combinations that are nonsense together.

use vstd::prelude::*;

use crate::error::AppError;
use crate::storage::{ReadOutcome, Storage, read_notice, storage_error_view, with_notice, write_result};
use crate::text::{lemma_trim_fixed, lemma_trim_idempotent, concat3, same, same_ignoring_ascii_case, trim, trimmed, eq_ignore_ascii_case, law_ignoring_case_joins_only_ascii_letters, upper_and_lower};

verus! {

/// File name (without extension) inside the resolved data directory.
pub const FILE: &'static str = "settings";

/// How a reset is described in the notice it leaves.
pub const RESET_TO: &'static str = "the built-in defaults";

pub const DEFAULT_TYPING_DELAY_MS: u32 = 25;
pub const DEFAULT_START_DELAY_SECS: u32 = 3;
pub const DEFAULT_START_HOTKEY: &'static str = "CommandOrControl+Alt+T";
pub const DEFAULT_STOP_HOTKEY: &'static str = "CommandOrControl+Alt+X";

pub const MIN_TYPING_DELAY_MS: u32 = 1;
pub const MAX_TYPING_DELAY_MS: u32 = 1000;
pub const MAX_START_DELAY_SECS: u32 = 10;

/// Everything the user can configure.
#[derive(Debug, Clone)]
pub struct Settings {
    pub typing_delay_ms: u32,
    pub start_delay_secs: u32,
    pub theme: String,
    pub minimize_to_tray: bool,
    pub close_to_tray: bool,
    pub always_on_top: bool,
    pub hotkeys_enabled: bool,
    pub start_hotkey: String,
    pub stop_hotkey: String,
    pub newline_mode: String,
    pub auto_check_updates: bool,
}

/// The themes the interface knows how to draw.
pub open spec fn known_theme(t: Seq<char>) -> bool {
    t == "system"@ || t == "dark"@ || t == "light"@
}

/// The newline modes the typing engine understands.
pub open spec fn known_newline_mode(m: Seq<char>) -> bool {
    m == "enter"@ || m == "shiftEnter"@ || m == "skip"@
}

/// A hotkey after normalization: trimmed, or `default` when nothing is left.
pub open spec fn normalized_hotkey(h: Seq<char>, default: Seq<char>) -> Seq<char> {
    if trimmed(h).len() == 0 {
        default
    } else {
        trimmed(h)
    }
}

/// `v` clamped into `lo..=hi`.
pub open spec fn clamp(v: u32, lo: u32, hi: u32) -> u32 {
    if v < lo {
        lo
    } else if v > hi {
        hi
    } else {
        v
    }
}

/// Field-by-field equality of the settings' observable values.
pub open spec fn settings_eq(a: Settings, b: Settings) -> bool {
    &&& a.typing_delay_ms == b.typing_delay_ms
    &&& a.start_delay_secs == b.start_delay_secs
    &&& a.theme@ == b.theme@
    &&& a.minimize_to_tray == b.minimize_to_tray
    &&& a.close_to_tray == b.close_to_tray
    &&& a.always_on_top == b.always_on_top
    &&& a.hotkeys_enabled == b.hotkeys_enabled
    &&& a.start_hotkey@ == b.start_hotkey@
    &&& a.stop_hotkey@ == b.stop_hotkey@
    &&& a.newline_mode@ == b.newline_mode@
    &&& a.auto_check_updates == b.auto_check_updates
}

/// The documented defaults.
pub open spec fn is_default(s: Settings) -> bool {
    &&& s.typing_delay_ms == DEFAULT_TYPING_DELAY_MS
    &&& s.start_delay_secs == DEFAULT_START_DELAY_SECS
    &&& s.theme@ == "system"@
    &&& s.minimize_to_tray
    &&& s.close_to_tray
    &&& !s.always_on_top
    &&& s.hotkeys_enabled
    &&& s.start_hotkey@ == DEFAULT_START_HOTKEY@
    &&& s.stop_hotkey@ == DEFAULT_STOP_HOTKEY@
    &&& s.newline_mode@ == "enter"@
    &&& s.auto_check_updates
}

/// What [`Settings::normalize`] turns `s` into, stated against `n`.
pub open spec fn normalizes_to(s: Settings, n: Settings) -> bool {
    &&& n.typing_delay_ms == clamp(s.typing_delay_ms, MIN_TYPING_DELAY_MS, MAX_TYPING_DELAY_MS)
    &&& n.start_delay_secs == if s.start_delay_secs > MAX_START_DELAY_SECS {
        MAX_START_DELAY_SECS
    } else {
        s.start_delay_secs
    }
    &&& n.theme@ == if known_theme(s.theme@) {
        s.theme@
    } else {
        "system"@
    }
    &&& n.newline_mode@ == if known_newline_mode(s.newline_mode@) {
        s.newline_mode@
    } else {
        "enter"@
    }
    &&& n.start_hotkey@ == normalized_hotkey(s.start_hotkey@, DEFAULT_START_HOTKEY@)
    &&& n.stop_hotkey@ == normalized_hotkey(s.stop_hotkey@, DEFAULT_STOP_HOTKEY@)
    &&& n.minimize_to_tray == s.minimize_to_tray
    &&& n.close_to_tray == s.close_to_tray
    &&& n.always_on_top == s.always_on_top
    &&& n.hotkeys_enabled == s.hotkeys_enabled
    &&& n.auto_check_updates == s.auto_check_updates
}

/// Whether `s` is already in the shape normalization produces.
pub open spec fn is_normal(s: Settings) -> bool {
    &&& MIN_TYPING_DELAY_MS <= s.typing_delay_ms <= MAX_TYPING_DELAY_MS
    &&& s.start_delay_secs <= MAX_START_DELAY_SECS
    &&& known_theme(s.theme@)
    &&& known_newline_mode(s.newline_mode@)
    &&& trimmed(s.start_hotkey@) == s.start_hotkey@ && s.start_hotkey@.len() > 0
    &&& trimmed(s.stop_hotkey@) == s.stop_hotkey@ && s.stop_hotkey@.len() > 0
}

/// Whether `validate` refuses `s`: both hotkeys active on one accelerator.
pub open spec fn hotkeys_clash(s: Settings) -> bool {
    s.hotkeys_enabled && eq_ignore_ascii_case(s.start_hotkey@, s.stop_hotkey@)
}

/// Two shortcuts that differ at some position by more than the case of an
/// ASCII letter (say `Alt+1` and `Alt+2`) never clash, and neither do
/// shortcuts of different lengths.
pub proof fn law_different_shortcuts_never_clash(s: Settings, k: int)
    requires
        s.start_hotkey@.len() != s.stop_hotkey@.len() || ({
            &&& 0 <= k < s.start_hotkey@.len()
            &&& k < s.stop_hotkey@.len()
            &&& s.start_hotkey@[k] != s.stop_hotkey@[k]
            &&& !upper_and_lower(s.start_hotkey@[k], s.stop_hotkey@[k])
            &&& !upper_and_lower(s.stop_hotkey@[k], s.start_hotkey@[k])
        }),
    ensures
        !hotkeys_clash(s),
{
    law_ignoring_case_joins_only_ascii_letters(s.start_hotkey@, s.stop_hotkey@);
    if s.start_hotkey@.len() == s.stop_hotkey@.len() {
        let a = s.start_hotkey@;
        let b = s.stop_hotkey@;
        assert(!(a[k] == b[k] || upper_and_lower(a[k], b[k]) || upper_and_lower(b[k], a[k])));
    }
}

/// The sentence `validate` answers a clash with.
pub open spec fn clash_message(start: Seq<char>) -> Seq<char> {
    "the start and stop shortcuts are both set to "@ + start + " — give them different keys"@
}

/// The start and stop hotkeys after a clash is repaired: nothing changes
/// without a clash; with one, the stop hotkey goes back to its default, and
/// the start hotkey too when it would clash with that default.
pub open spec fn repaired_hotkeys(enabled: bool, start: Seq<char>, stop: Seq<char>) -> (Seq<char>, Seq<char>) {
    if enabled && eq_ignore_ascii_case(start, stop) {
        if eq_ignore_ascii_case(start, DEFAULT_STOP_HOTKEY@) {
            (DEFAULT_START_HOTKEY@, DEFAULT_STOP_HOTKEY@)
        } else {
            (start, DEFAULT_STOP_HOTKEY@)
        }
    } else {
        (start, stop)
    }
}

/// `r` and `s` agree on everything but the two hotkeys.
pub open spec fn same_but_hotkeys(s: Settings, r: Settings) -> bool {
    &&& r.typing_delay_ms == s.typing_delay_ms
    &&& r.start_delay_secs == s.start_delay_secs
    &&& r.theme@ == s.theme@
    &&& r.minimize_to_tray == s.minimize_to_tray
    &&& r.close_to_tray == s.close_to_tray
    &&& r.always_on_top == s.always_on_top
    &&& r.hotkeys_enabled == s.hotkeys_enabled
    &&& r.newline_mode@ == s.newline_mode@
    &&& r.auto_check_updates == s.auto_check_updates
}

/// What repairing a clash turns `s` into, stated against `r`.
pub open spec fn repairs_to(s: Settings, r: Settings) -> bool {
    &&& same_but_hotkeys(s, r)
    &&& (r.start_hotkey@, r.stop_hotkey@) == repaired_hotkeys(
        s.hotkeys_enabled,
        s.start_hotkey@,
        s.stop_hotkey@,
    )
}

/// What loading the stored settings `v` yields, stated against `s`: `v`
/// normalized, with a clash between its hotkeys repaired.
pub open spec fn loads_to(v: Settings, s: Settings) -> bool {
    &&& s.typing_delay_ms == clamp(v.typing_delay_ms, MIN_TYPING_DELAY_MS, MAX_TYPING_DELAY_MS)
    &&& s.start_delay_secs == if v.start_delay_secs > MAX_START_DELAY_SECS {
        MAX_START_DELAY_SECS
    } else {
        v.start_delay_secs
    }
    &&& s.theme@ == if known_theme(v.theme@) {
        v.theme@
    } else {
        "system"@
    }
    &&& s.newline_mode@ == if known_newline_mode(v.newline_mode@) {
        v.newline_mode@
    } else {
        "enter"@
    }
    &&& s.minimize_to_tray == v.minimize_to_tray
    &&& s.close_to_tray == v.close_to_tray
    &&& s.always_on_top == v.always_on_top
    &&& s.hotkeys_enabled == v.hotkeys_enabled
    &&& s.auto_check_updates == v.auto_check_updates
    &&& (s.start_hotkey@, s.stop_hotkey@) == repaired_hotkeys(
        v.hotkeys_enabled,
        normalized_hotkey(v.start_hotkey@, DEFAULT_START_HOTKEY@),
        normalized_hotkey(v.stop_hotkey@, DEFAULT_STOP_HOTKEY@),
    )
}

/// The two default hotkeys never clash.
proof fn lemma_defaults_differ()
    ensures
        !eq_ignore_ascii_case(DEFAULT_START_HOTKEY@, DEFAULT_STOP_HOTKEY@),
{
    reveal_strlit("CommandOrControl+Alt+T");
    reveal_strlit("CommandOrControl+Alt+X");
    let a = DEFAULT_START_HOTKEY@;
    let b = DEFAULT_STOP_HOTKEY@;
    assert(a[21] == 'T' && b[21] == 'X');
    assert(crate::text::ascii_fold(a[21]) != crate::text::ascii_fold(b[21]));
}

/// A repair only ever puts in the default hotkeys, which are normal.
proof fn lemma_repair_keeps_normal(s: Settings, r: Settings)
    requires
        is_normal(s),
        repairs_to(s, r),
    ensures
        is_normal(r),
{
    reveal_strlit("CommandOrControl+Alt+T");
    reveal_strlit("CommandOrControl+Alt+X");
    lemma_trim_fixed(DEFAULT_START_HOTKEY@, false);
    lemma_trim_fixed(DEFAULT_STOP_HOTKEY@, false);
}

proof fn lemma_normalized_hotkey_is_normal(h: Seq<char>, default: Seq<char>)
    requires
        default == DEFAULT_START_HOTKEY@ || default == DEFAULT_STOP_HOTKEY@,
    ensures
        trimmed(normalized_hotkey(h, default)) == normalized_hotkey(h, default),
        normalized_hotkey(h, default).len() > 0,
{
    reveal_strlit("CommandOrControl+Alt+T");
    reveal_strlit("CommandOrControl+Alt+X");
    lemma_trim_idempotent(h, false);
    lemma_trim_fixed(default, false);
}

/// The defaults are already normal, so normalizing them changes nothing.
pub proof fn lemma_default_is_normal(d: Settings, n: Settings)
    requires
        is_default(d),
        normalizes_to(d, n),
    ensures
        is_default(n),
        is_normal(d),
{
    reveal_strlit("CommandOrControl+Alt+T");
    reveal_strlit("CommandOrControl+Alt+X");
    lemma_trim_fixed(d.start_hotkey@, false);
    lemma_trim_fixed(d.stop_hotkey@, false);
}

impl Default for Settings {
    fn default() -> (s: Self)
        ensures
            is_default(s),
    {
        Settings {
            typing_delay_ms: DEFAULT_TYPING_DELAY_MS,
            start_delay_secs: DEFAULT_START_DELAY_SECS,
            theme: String::from_str("system"),
            minimize_to_tray: true,
            close_to_tray: true,
            always_on_top: false,
            hotkeys_enabled: true,
            start_hotkey: String::from_str(DEFAULT_START_HOTKEY),
            stop_hotkey: String::from_str(DEFAULT_STOP_HOTKEY),
            newline_mode: String::from_str("enter"),
            auto_check_updates: true,
        }
    }
}

impl PartialEq for Settings {
    fn eq(&self, other: &Self) -> (r: bool) {
        self.typing_delay_ms == other.typing_delay_ms && self.start_delay_secs
            == other.start_delay_secs && self.theme == other.theme && self.minimize_to_tray
            == other.minimize_to_tray && self.close_to_tray == other.close_to_tray
            && self.always_on_top == other.always_on_top && self.hotkeys_enabled
            == other.hotkeys_enabled && self.start_hotkey == other.start_hotkey
            && self.stop_hotkey == other.stop_hotkey && self.newline_mode == other.newline_mode
            && self.auto_check_updates == other.auto_check_updates
    }
}

impl vstd::std_specs::cmp::PartialEqSpecImpl for Settings {
    open spec fn obeys_eq_spec() -> bool {
        true
    }

    open spec fn eq_spec(&self, other: &Self) -> bool {
        settings_eq(*self, *other)
    }
}

fn is_known_theme(t: &str) -> (b: bool)
    ensures
        b == known_theme(t@),
{
    same(t, "system") || same(t, "dark") || same(t, "light")
}

fn is_known_newline_mode(m: &str) -> (b: bool)
    ensures
        b == known_newline_mode(m@),
{
    same(m, "enter") || same(m, "shiftEnter") || same(m, "skip")
}

fn normalize_hotkey(h: &str, default: &str) -> (r: String)
    ensures
        r@ == normalized_hotkey(h@, default@),
{
    let t = trim(h);
    if t.unicode_len() == 0 {
        String::from_str(default)
    } else {
        t
    }
}

impl Settings {
    /// Clamp numbers into range and replace unrecognised enum-ish strings and
    /// blank hotkeys with their defaults.
    pub fn normalize(&mut self)
        ensures
            normalizes_to(*old(self), *final(self)),
            is_normal(*final(self)),
    {
        if self.typing_delay_ms < MIN_TYPING_DELAY_MS {
            self.typing_delay_ms = MIN_TYPING_DELAY_MS;
        } else if self.typing_delay_ms > MAX_TYPING_DELAY_MS {
            self.typing_delay_ms = MAX_TYPING_DELAY_MS;
        }
        if self.start_delay_secs > MAX_START_DELAY_SECS {
            self.start_delay_secs = MAX_START_DELAY_SECS;
        }
        if !is_known_theme(self.theme.as_str()) {
            self.theme = String::from_str("system");
        }
        if !is_known_newline_mode(self.newline_mode.as_str()) {
            self.newline_mode = String::from_str("enter");
        }
        self.start_hotkey = normalize_hotkey(self.start_hotkey.as_str(), DEFAULT_START_HOTKEY);
        self.stop_hotkey = normalize_hotkey(self.stop_hotkey.as_str(), DEFAULT_STOP_HOTKEY);
        proof {
            lemma_normalized_hotkey_is_normal(old(self).start_hotkey@, DEFAULT_START_HOTKEY@);
            lemma_normalized_hotkey_is_normal(old(self).stop_hotkey@, DEFAULT_STOP_HOTKEY@);
        }
    }

    /// Reject the two hotkeys sharing one accelerator while hotkeys are on.
    pub fn validate(&self) -> (r: Result<(), AppError>)
        ensures
            r is Ok <==> !hotkeys_clash(*self),
            r matches Err(e) ==> e matches AppError::Invalid(m) && m@ == clash_message(
                self.start_hotkey@,
            ),
    {
        if self.hotkeys_enabled && same_ignoring_ascii_case(
            self.start_hotkey.as_str(),
            self.stop_hotkey.as_str(),
        ) {
            return Err(
                AppError::Invalid(
                    concat3(
                        "the start and stop shortcuts are both set to ",
                        self.start_hotkey.as_str(),
                        " — give them different keys",
                    ),
                ),
            );
        }
        Ok(())
    }

    /// Repair a start/stop clash, so that what was loaded can be saved
    /// again: see [`repairs_to`].
    pub fn repair_clash(&mut self)
        ensures
            repairs_to(*old(self), *final(self)),
            !hotkeys_clash(*final(self)),
    {
        if self.validate().is_ok() {
            return;
        }
        self.stop_hotkey = String::from_str(DEFAULT_STOP_HOTKEY);
        if same_ignoring_ascii_case(self.start_hotkey.as_str(), DEFAULT_STOP_HOTKEY) {
            self.start_hotkey = String::from_str(DEFAULT_START_HOTKEY);
            proof {
                lemma_defaults_differ();
            }
        }
    }

    /// Settle saving the settings to their file; `written` is what writing
    /// them reported (see [`Storage::write`]).
    pub fn save(&self, storage: &Storage, written: Result<(), String>) -> (r: Result<(), AppError>)
        ensures
            r matches Err(e) ==> e is Storage,
            storage_error_view(r) == write_result(storage@, FILE@, written),
    {
        storage.write(FILE, written)
    }

    /// Read settings, normalized. Never fails: a missing or unusable file
    /// yields the defaults, and the storage records why.
    pub fn load(storage: &mut Storage, outcome: ReadOutcome<Settings>) -> (s: Settings)
        ensures
            match (old(storage)@.dir, outcome) {
                (Some(_), ReadOutcome::Parsed(v)) => loads_to(v, s),
                _ => is_default(s),
            },
            is_normal(s),
            !hotkeys_clash(s),
            old(storage)@.dir is None ==> final(storage)@ == old(storage)@,
            old(storage)@.dir is Some ==> final(storage)@ == match read_notice(
                FILE@,
                RESET_TO@,
                outcome,
            ) {
                Some(n) => with_notice(old(storage)@, n, true),
                None => old(storage)@,
            },
    {
        let ghost parsed = storage@.dir is Some && outcome is Parsed;
        let mut settings = storage.read(FILE, RESET_TO, outcome, Settings::default());
        let ghost before = settings;
        settings.normalize();
        let ghost normal = settings;
        proof {
            if !parsed {
                lemma_default_is_normal(before, settings);
                lemma_defaults_differ();
            }
        }
        settings.repair_clash();
        proof {
            lemma_repair_keeps_normal(normal, settings);
        }
        settings
    }
}

/// Normalizing always yields settings in normal shape.
pub proof fn law_normalize_yields_normal(s: Settings, n: Settings)
    requires
        normalizes_to(s, n),
    ensures
        is_normal(n),
{
    lemma_normalized_hotkey_is_normal(s.start_hotkey@, DEFAULT_START_HOTKEY@);
    lemma_normalized_hotkey_is_normal(s.stop_hotkey@, DEFAULT_STOP_HOTKEY@);
}

/// Settings already in range, with known enums and trimmed non-empty hotkeys,
/// come out of normalization untouched.
pub proof fn law_normal_settings_are_untouched(s: Settings, n: Settings)
    requires
        is_normal(s),
        normalizes_to(s, n),
    ensures
        settings_eq(s, n),
{
}

/// Normalizing twice is normalizing once.
pub proof fn law_normalize_is_idempotent(s: Settings, n: Settings, m: Settings)
    requires
        normalizes_to(s, n),
        normalizes_to(n, m),
    ensures
        settings_eq(n, m),
{
    law_normalize_yields_normal(s, n);
    law_normal_settings_are_untouched(n, m);
}

/// The start/stop clash rule does not care which slot is which.
pub proof fn law_clash_is_symmetric(a: Settings, b: Settings)
    requires
        a.hotkeys_enabled == b.hotkeys_enabled,
        a.start_hotkey@ == b.stop_hotkey@,
        a.stop_hotkey@ == b.start_hotkey@,
    ensures
        hotkeys_clash(a) == hotkeys_clash(b),
{
    if hotkeys_clash(a) {
        assert forall|k: int| 0 <= k < b.start_hotkey@.len() implies crate::text::ascii_fold(
            #[trigger] b.start_hotkey@[k],
        ) == crate::text::ascii_fold(b.stop_hotkey@[k]) by {
            assert(crate::text::ascii_fold(a.start_hotkey@[k]) == crate::text::ascii_fold(
                a.stop_hotkey@[k],
            ));
        }
    }
    if hotkeys_clash(b) {
        assert forall|k: int| 0 <= k < a.start_hotkey@.len() implies crate::text::ascii_fold(
            #[trigger] a.start_hotkey@[k],
        ) == crate::text::ascii_fold(a.stop_hotkey@[k]) by {
            assert(crate::text::ascii_fold(b.start_hotkey@[k]) == crate::text::ascii_fold(
                b.stop_hotkey@[k],
            ));
        }
    }
}

/// With hotkeys switched off nothing is bound, so nothing can clash.
pub proof fn law_disabled_hotkeys_never_clash(s: Settings)
    requires
        !s.hotkeys_enabled,
    ensures
        !hotkeys_clash(s),
{
}

/// Whatever a settings file holds, what loading it yields passes validation,
/// so a file carrying one accelerator in both slots does not load cleanly
/// only to have every later save refused.
pub proof fn law_loaded_settings_pass_validation(v: Settings, s: Settings)
    requires
        loads_to(v, s),
    ensures
        !hotkeys_clash(s),
{
    lemma_defaults_differ();
}

/// Repairing settings that do not clash changes nothing.
pub proof fn law_repair_leaves_valid_settings_alone(s: Settings, r: Settings)
    requires
        !hotkeys_clash(s),
        repairs_to(s, r),
    ensures
        settings_eq(s, r),
{
}

/// What save writes, load gives back: settings in normal shape whose
/// hotkeys do not clash load as exactly those settings.
pub proof fn law_saved_settings_load_back(s: Settings, r: Settings)
    requires
        is_normal(s),
        !hotkeys_clash(s),
        loads_to(s, r),
    ensures
        settings_eq(s, r),
{
}

} // verus!
