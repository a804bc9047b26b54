//! Data-directory resolution, the user-facing storage report, and the
//! policy for reading and writing the JSON files.
//!
//! The file system itself is touched by the caller: it probes each candidate
//! directory in priority order and hands the outcomes to [`Storage::resolve`],
//! which decides where data lives, what the user must be told, and which
//! diagnostics are buffered until a logger exists. Reads and writes follow the
//! same split: the caller performs the I/O, [`Storage::read`] decides what the
//! application continues with and what it announces.

use vstd::prelude::*;

use crate::error::AppError;
use crate::text::{
    opt_str_view, opt_view, strings_view,
    chars_of, char_is_ascii_alnum, concat, concat3, from_chars, is_ascii_alnum, join, joined,
    same, trim_chars, trim_end_by, trim_start_by, decimal, decimal_string, has_prefix,
    has_suffix, lex_le, str_le, str_order, lemma_str_order_is_total,
};
use vstd::relations::sorted_by;

verus! {

/// Bundle identifier, used as the directory name for every candidate.
pub const APP_DIR_NAME: &'static str = "com.rendyuwu.ketikin";

/// Emitted once at startup when storage is degraded or carries notices.
pub const EVENT_WARNING: &'static str = "storage://warning";

/// Cap per log file, before rotation.
pub const LOG_MAX_FILE_SIZE: u64 = 1048576;

/// How many rotated log files to keep, excluding the active one.
pub const LOG_KEEP_FILES: usize = 2;

/// Stem of the log file, before the per-user suffix and the `.log` extension.
pub const LOG_FILE_BASE: &'static str = "Ketikin";

/// Longest user-name fragment appended to [`LOG_FILE_BASE`].
pub const MAX_LOG_USER_CHARS: usize = 32;

/// Per-candidate ceiling on the writability probe, in milliseconds.
pub const PROBE_TIMEOUT_MS: u64 = 2000;

/// Ceiling on all probing combined, in milliseconds.
pub const PROBE_BUDGET_MS: u64 = 8000;

/// Never give a candidate less than this, in milliseconds.
pub const PROBE_MIN_TIMEOUT_MS: u64 = 500;

pub const NOTICE_SHARED_NEXT_TO_EXE: &'static str = "Ketikin is saving next to its own program files. That location may be shared with other users of this machine, so avoid storing passwords or licence keys in templates.";

pub const NOTICE_ELEVATION: &'static str = "This location also depends on how Ketikin was launched — running as administrator and running normally can resolve to different folders, so settings saved one way may not appear the other.";

pub const NOTICE_TEMP_WINDOWS: &'static str = "Ketikin is saving to the temporary folder. On Windows that folder lives inside your own user profile, so other users of this machine cannot reach it — but it is not an independent fallback from that profile either, and Windows can clear it, so your settings and templates may not survive a reboot.";

pub const NOTICE_TEMP_SHARED: &'static str = "Ketikin is saving to the temporary folder. That location may be shared with other users of this machine and can be cleared automatically, so avoid storing passwords or licence keys in templates.";

pub const NOTICE_NO_LOG_FOLDER: &'static str = "Ketikin could not create its log folder, so no log file will be written this run. Your settings and templates are unaffected.";

pub const NOTICE_MEMORY: &'static str = "Ketikin could not find anywhere to save data, so settings and templates will be lost when you close it.";

pub const NO_CANDIDATES: &'static str = "no data directory candidates were available";

/// Severity of a buffered diagnostic.
#[derive(Debug, Clone, Copy, PartialEq, Eq, Structural)]
pub enum Level {
    Error,
    Warn,
    Info,
}

/// The directory a candidate sits in, which the caller looks up.
#[derive(Debug, Clone, Copy, PartialEq, Eq, Structural)]
pub enum BaseDir {
    /// The platform's per-user data directory.
    DataDir,
    /// `%APPDATA%`.
    AppDataEnv,
    /// `%LOCALAPPDATA%`.
    LocalAppDataEnv,
    /// The folder the executable sits in.
    ExeDir,
    /// The temporary folder.
    Temp,
}

/// One place data may live: the name it is reported under, the directory it
/// sits in, and the folder to use inside that directory.
#[derive(Debug)]
pub struct Candidate {
    pub source: String,
    pub base: BaseDir,
    pub leaf: String,
}

pub open spec fn candidate_view(c: Candidate) -> (Seq<char>, BaseDir, Seq<char>) {
    (c.source@, c.base, c.leaf@)
}

/// `(source, base, leaf)` when the base exists, nothing otherwise.
pub open spec fn optional_candidate(present: bool, source: Seq<char>, base: BaseDir, leaf: Seq<char>) -> Seq<
    (Seq<char>, BaseDir, Seq<char>),
> {
    if present {
        seq![(source, base, leaf)]
    } else {
        Seq::empty()
    }
}

/// The candidate chain in priority order: the data directory, `%APPDATA%`,
/// `%LOCALAPPDATA%` (each with the application's folder), a `data` folder
/// next to the executable, and last the temporary folder, which always
/// exists.
pub open spec fn candidate_chain(data_dir: bool, app_data: bool, local_app_data: bool, exe_dir: bool) -> Seq<
    (Seq<char>, BaseDir, Seq<char>),
> {
    optional_candidate(data_dir, "appData"@, BaseDir::DataDir, APP_DIR_NAME@) + optional_candidate(
        app_data,
        "appDataEnv"@,
        BaseDir::AppDataEnv,
        APP_DIR_NAME@,
    ) + optional_candidate(local_app_data, "localAppDataEnv"@, BaseDir::LocalAppDataEnv, APP_DIR_NAME@)
        + optional_candidate(exe_dir, "nextToExe"@, BaseDir::ExeDir, "data"@) + seq![
        ("temp"@, BaseDir::Temp, APP_DIR_NAME@),
    ]
}

/// What the caller found when it tried one candidate directory.
#[derive(Debug)]
pub struct ProbeAttempt {
    /// Which entry of the chain this is, such as `appData` or `temp`.
    pub source: String,
    /// The candidate directory, as displayed.
    pub dir: String,
    /// `<dir>/logs`, as displayed.
    pub log_dir: String,
    /// Whether a real create, write, sync and delete succeeded in `dir`.
    pub data: Result<(), String>,
    /// Whether the log folder could be prepared; only read when `data` is `Ok`.
    pub logs: Result<(), String>,
}

/// Where the data ended up, and whether that actually worked.
#[derive(Debug, Clone)]
pub struct StorageInfo {
    pub path: String,
    pub source: String,
    pub writable: bool,
    pub error: Option<String>,
    /// Plain-English things the user should be told.
    pub notices: Vec<String>,
    /// Whether the startup banner is warranted.
    pub degraded: bool,
}

/// A resolved data directory, the report about it, and buffered diagnostics.
#[derive(Debug)]
pub struct Storage {
    dir: Option<String>,
    log_dir: Option<String>,
    log_file: String,
    diagnostics: Vec<(Level, String)>,
    buffering: bool,
    info: StorageInfo,
    alarming: bool,
}

/// What a storage holds, as mathematical values.
#[verifier::ext_equal]
pub struct StorageView {
    pub dir: Option<Seq<char>>,
    pub log_dir: Option<Seq<char>>,
    pub log_file: Seq<char>,
    pub diagnostics: Seq<(Level, Seq<char>)>,
    pub buffering: bool,
    pub path: Seq<char>,
    pub source: Seq<char>,
    pub writable: bool,
    pub error: Option<Seq<char>>,
    pub notices: Seq<Seq<char>>,
    pub alarming: bool,
}

pub open spec fn diagnostics_view(v: Seq<(Level, String)>) -> Seq<(Level, Seq<char>)> {
    v.map_values(|d: (Level, String)| (d.0, d.1@))
}

impl View for Storage {
    type V = StorageView;

    closed spec fn view(&self) -> StorageView {
        StorageView {
            dir: opt_view(self.dir),
            log_dir: opt_view(self.log_dir),
            log_file: self.log_file@,
            diagnostics: diagnostics_view(self.diagnostics@),
            buffering: self.buffering,
            path: self.info.path@,
            source: self.info.source@,
            writable: self.info.writable,
            error: opt_view(self.info.error),
            notices: strings_view(self.info.notices@),
            alarming: self.alarming,
        }
    }
}

/// The banner rule: an unwritable or fallback location, or anything alarming.
pub open spec fn is_degraded_view(v: StorageView) -> bool {
    !v.writable || v.source == "memory"@ || v.source == "temp"@ || v.alarming
}

/// The text of a failed probe, or nothing when it succeeded.
pub open spec fn err_text(r: Result<(), String>) -> Seq<char> {
    match r {
        Ok(_) => Seq::empty(),
        Err(e) => e@,
    }
}

/// Index of the first attempt whose data probe succeeded at or after `i`, or
/// the number of attempts when none did.
pub open spec fn first_writable_from(a: Seq<ProbeAttempt>, i: int) -> int
    decreases a.len() - i,
{
    if i < 0 || i >= a.len() {
        a.len() as int
    } else if a[i].data is Ok {
        i
    } else {
        first_writable_from(a, i + 1)
    }
}

pub open spec fn first_writable(a: Seq<ProbeAttempt>) -> int {
    first_writable_from(a, 0)
}

pub open spec fn rejection_message(p: ProbeAttempt) -> Seq<char> {
    "storage: "@ + p.source@ + " candidate "@ + p.dir@ + " rejected: "@ + err_text(p.data)
}

pub open spec fn failure_message(p: ProbeAttempt) -> Seq<char> {
    p.source@ + " ("@ + p.dir@ + "): "@ + err_text(p.data)
}

pub open spec fn using_message(p: ProbeAttempt) -> Seq<char> {
    "storage: using "@ + p.dir@ + " (source: "@ + p.source@ + ")"@
}

pub open spec fn log_dir_message(p: ProbeAttempt) -> Seq<char> {
    "storage: log directory "@ + p.log_dir@ + " unusable: "@ + err_text(p.logs)
}

/// How a notice is recorded among the diagnostics.
pub open spec fn notice_diagnostic(n: Seq<char>) -> (Level, Seq<char>) {
    (Level::Warn, "storage: "@ + n)
}

/// One warning per rejected candidate, in the order they were tried.
pub open spec fn rejections(a: Seq<ProbeAttempt>, k: int) -> Seq<(Level, Seq<char>)> {
    Seq::new(k as nat, |i: int| (Level::Warn, rejection_message(a[i])))
}

/// The notices a location carries by itself.
pub open spec fn location_notices(source: Seq<char>, on_windows: bool) -> Seq<Seq<char>> {
    if source == "nextToExe"@ {
        seq![NOTICE_SHARED_NEXT_TO_EXE@, NOTICE_ELEVATION@]
    } else if source == "temp"@ {
        if on_windows {
            seq![NOTICE_TEMP_WINDOWS@]
        } else {
            seq![NOTICE_TEMP_SHARED@]
        }
    } else {
        Seq::empty()
    }
}

/// Every notice a storage resolved to `p` starts with.
pub open spec fn accepted_notices(p: ProbeAttempt, on_windows: bool) -> Seq<Seq<char>> {
    location_notices(p.source@, on_windows) + if p.logs is Err {
        seq![NOTICE_NO_LOG_FOLDER@]
    } else {
        Seq::empty()
    }
}

/// The error reported when no candidate was writable.
pub open spec fn exhausted_error(a: Seq<ProbeAttempt>) -> Seq<char> {
    if a.len() == 0 {
        NO_CANDIDATES@
    } else {
        "no writable data directory found — "@ + joined(
            Seq::new(a.len(), |i: int| failure_message(a[i])),
            "; "@,
        )
    }
}

/// A storage view with one more notice recorded.
pub open spec fn with_notice(v: StorageView, notice: Seq<char>, alarming: bool) -> StorageView {
    StorageView {
        diagnostics: if v.buffering {
            v.diagnostics.push(notice_diagnostic(notice))
        } else {
            v.diagnostics
        },
        notices: v.notices.push(notice),
        alarming: v.alarming || alarming,
        ..v
    }
}

/// The storage resolved to the writable attempt `p`, after the diagnostics
/// `before` were recorded for the candidates rejected ahead of it.
pub open spec fn accepted(
    before: Seq<(Level, Seq<char>)>,
    p: ProbeAttempt,
    log_file: Seq<char>,
    on_windows: bool,
) -> StorageView {
    let notices = accepted_notices(p, on_windows);
    StorageView {
        dir: Some(p.dir@),
        log_dir: if p.logs is Ok {
            Some(p.log_dir@)
        } else {
            None
        },
        log_file,
        diagnostics: before + seq![(Level::Info, using_message(p))] + (if p.logs is Err {
            seq![(Level::Warn, log_dir_message(p))]
        } else {
            Seq::empty()
        }) + notices.map_values(|n: Seq<char>| notice_diagnostic(n)),
        buffering: true,
        path: p.dir@,
        source: p.source@,
        writable: true,
        error: None,
        notices,
        alarming: p.source@ == "temp"@,
    }
}

/// The in-memory storage left when no attempt was writable.
pub open spec fn exhausted(a: Seq<ProbeAttempt>, log_file: Seq<char>) -> StorageView {
    let error = exhausted_error(a);
    StorageView {
        dir: None,
        log_dir: None,
        log_file,
        diagnostics: rejections(a, a.len() as int) + seq![
            (Level::Error, "storage: "@ + error + "; falling back to in-memory state"@),
            notice_diagnostic(NOTICE_MEMORY@),
        ],
        buffering: true,
        path: Seq::empty(),
        source: "memory"@,
        writable: false,
        error: Some(error),
        notices: seq![NOTICE_MEMORY@],
        alarming: true,
    }
}

/// What [`Storage::resolve`] produces from the attempts: the first writable
/// candidate wins, and with none the storage runs in memory.
pub open spec fn resolved(a: Seq<ProbeAttempt>, log_file: Seq<char>, on_windows: bool) -> StorageView {
    let k = first_writable(a);
    if k < a.len() {
        accepted(rejections(a, k), a[k], log_file, on_windows)
    } else {
        exhausted(a, log_file)
    }
}

/// Whether a returned report matches the storage it was taken from.
pub open spec fn reports(r: StorageInfo, v: StorageView) -> bool {
    &&& r.path@ == v.path
    &&& r.source@ == v.source
    &&& r.writable == v.writable
    &&& opt_view(r.error) == v.error
    &&& strings_view(r.notices@) == v.notices
    &&& r.degraded == is_degraded_view(v)
}

/// What the caller found when it tried to read `<name>.json`.
pub enum ReadOutcome<T> {
    /// There is no such file: a first run.
    Missing,
    /// The file exists but could not be opened; holds the error.
    Unreadable(String),
    /// The file parsed.
    Parsed(T),
    /// The file did not parse; the caller tried to move it aside to `backup`.
    Corrupt { error: String, backup: String, moved: Result<(), String> },
}

pub open spec fn unreadable_notice(name: Seq<char>, err: Seq<char>, reset_to: Seq<char>) -> Seq<char> {
    name + ".json could not be opened ("@ + err + "), so Ketikin started from "@ + reset_to
        + ". Your existing file was left untouched."@
}

pub open spec fn reset_notice(name: Seq<char>, reset_to: Seq<char>, backup: Seq<char>) -> Seq<char> {
    name + ".json could not be read and was reset to "@ + reset_to
        + ". The unreadable file was kept as "@ + backup + "."@
}

pub open spec fn reset_failed_notice(
    name: Seq<char>,
    err: Seq<char>,
    rename_err: Seq<char>,
    reset_to: Seq<char>,
) -> Seq<char> {
    name + ".json could not be read ("@ + err + ") and could not be moved aside ("@ + rename_err
        + "), so Ketikin started from "@ + reset_to + "."@
}

/// The notice a read outcome leaves, if any.
pub open spec fn read_notice<T>(name: Seq<char>, reset_to: Seq<char>, outcome: ReadOutcome<T>) -> Option<Seq<char>> {
    match outcome {
        ReadOutcome::Unreadable(e) => Some(unreadable_notice(name, e@, reset_to)),
        ReadOutcome::Corrupt { error, backup, moved } => match moved {
            Ok(_) => Some(reset_notice(name, reset_to, backup@)),
            Err(r) => Some(reset_failed_notice(name, error@, r@, reset_to)),
        },
        _ => None,
    }
}

fn copy_strings(v: &Vec<String>) -> (r: Vec<String>)
    ensures
        r@ == v@,
{
    let mut r: Vec<String> = Vec::new();
    let mut i: usize = 0;
    while i < v.len()
        invariant
            i <= v.len(),
            r@ == v@.take(i as int),
        decreases v.len() - i,
    {
        r.push(v[i].clone());
        i = i + 1;
        assert(r@ =~= v@.take(i as int));
    }
    assert(v@.take(v.len() as int) =~= v@);
    r
}

fn copy_opt(o: &Option<String>) -> (r: Option<String>)
    ensures
        r == *o,
{
    match o {
        Some(s) => Some(s.clone()),
        None => None,
    }
}

proof fn lemma_first_writable_skip(a: Seq<ProbeAttempt>, i: int)
    requires
        0 <= i < a.len(),
        a[i].data is Err,
    ensures
        first_writable_from(a, i) == first_writable_from(a, i + 1),
{
}

impl Storage {
    /// The candidate chain, in priority order, given which of the base
    /// directories exist on this machine.
    pub fn candidates(data_dir: bool, app_data: bool, local_app_data: bool, exe_dir: bool) -> (r: Vec<
        Candidate,
    >)
        ensures
            r@.map_values(|c: Candidate| candidate_view(c)) == candidate_chain(
                data_dir,
                app_data,
                local_app_data,
                exe_dir,
            ),
    {
        let mut r: Vec<Candidate> = Vec::new();
        if data_dir {
            r.push(
                Candidate {
                    source: String::from_str("appData"),
                    base: BaseDir::DataDir,
                    leaf: String::from_str(APP_DIR_NAME),
                },
            );
        }
        if app_data {
            r.push(
                Candidate {
                    source: String::from_str("appDataEnv"),
                    base: BaseDir::AppDataEnv,
                    leaf: String::from_str(APP_DIR_NAME),
                },
            );
        }
        if local_app_data {
            r.push(
                Candidate {
                    source: String::from_str("localAppDataEnv"),
                    base: BaseDir::LocalAppDataEnv,
                    leaf: String::from_str(APP_DIR_NAME),
                },
            );
        }
        if exe_dir {
            r.push(
                Candidate {
                    source: String::from_str("nextToExe"),
                    base: BaseDir::ExeDir,
                    leaf: String::from_str("data"),
                },
            );
        }
        r.push(
            Candidate {
                source: String::from_str("temp"),
                base: BaseDir::Temp,
                leaf: String::from_str(APP_DIR_NAME),
            },
        );
        assert(r@.map_values(|c: Candidate| candidate_view(c)) =~= candidate_chain(
            data_dir,
            app_data,
            local_app_data,
            exe_dir,
        ));
        r
    }

    /// Record a diagnostic while there is no logger yet.
    fn record(&mut self, level: Level, message: String)
        ensures
            final(self)@ == (StorageView {
                diagnostics: if old(self)@.buffering {
                    old(self)@.diagnostics.push((level, message@))
                } else {
                    old(self)@.diagnostics
                },
                ..old(self)@
            }),
    {
        if self.buffering {
            self.diagnostics.push((level, message));
            proof {
                assert(diagnostics_view(self.diagnostics@) =~= diagnostics_view(
                    old(self).diagnostics@,
                ).push((level, message@)));
            }
        }
    }

    /// Record something the user should see; `alarming` also raises the banner.
    fn push_notice(&mut self, notice: String, alarming: bool)
        ensures
            final(self)@ == with_notice(old(self)@, notice@, alarming),
    {
        let line = concat("storage: ", notice.as_str());
        self.record(Level::Warn, line);
        self.info.notices.push(notice);
        proof {
            assert(strings_view(self.info.notices@) =~= strings_view(
                old(self).info.notices@,
            ).push(notice@));
        }
        if alarming {
            self.alarming = true;
        }
    }

    /// Warn about locations that are per-machine rather than per-user.
    fn add_location_notices(&mut self, source: &str, on_windows: bool)
        requires
            old(self)@.buffering,
        ensures
            final(self)@ == (StorageView {
                diagnostics: old(self)@.diagnostics + location_notices(source@, on_windows).map_values(
                    |n: Seq<char>| notice_diagnostic(n),
                ),
                notices: old(self)@.notices + location_notices(source@, on_windows),
                alarming: old(self)@.alarming || source@ == "temp"@,
                ..old(self)@
            }),
    {
        let ghost before = self@;
        if same(source, "nextToExe") {
            self.push_notice(String::from_str(NOTICE_SHARED_NEXT_TO_EXE), false);
            self.push_notice(String::from_str(NOTICE_ELEVATION), false);
            proof {
                reveal_strlit("nextToExe");
                reveal_strlit("temp");
                assert("nextToExe"@.len() != "temp"@.len());
                let ns = location_notices(source@, on_windows);
                assert(ns == seq![NOTICE_SHARED_NEXT_TO_EXE@, NOTICE_ELEVATION@]);
                assert(self@.notices =~= before.notices + ns);
                assert(self@.diagnostics =~= before.diagnostics + ns.map_values(
                    |n: Seq<char>| notice_diagnostic(n),
                ));
                assert(self@.alarming == (before.alarming || source@ == "temp"@));
            }
        } else if same(source, "temp") {
            if on_windows {
                self.push_notice(String::from_str(NOTICE_TEMP_WINDOWS), true);
            } else {
                self.push_notice(String::from_str(NOTICE_TEMP_SHARED), true);
            }
            proof {
                let ns = location_notices(source@, on_windows);
                assert(self@.notices =~= before.notices + ns);
                assert(self@.diagnostics =~= before.diagnostics + ns.map_values(
                    |n: Seq<char>| notice_diagnostic(n),
                ));
                assert(self@.alarming == (before.alarming || source@ == "temp"@));
            }
        } else {
            proof {
                let ns = location_notices(source@, on_windows);
                assert(ns =~= Seq::<Seq<char>>::empty());
                assert(self@.notices =~= before.notices + ns);
                assert(self@.diagnostics =~= before.diagnostics + ns.map_values(
                    |n: Seq<char>| notice_diagnostic(n),
                ));
                assert(self@.alarming == (before.alarming || source@ == "temp"@));
            }
        }
    }

    /// Settle on the writable attempt `p`, after `diagnostics` recorded the
    /// candidates rejected ahead of it.
    fn accept(
        diagnostics: Vec<(Level, String)>,
        p: &ProbeAttempt,
        log_file: String,
        on_windows: bool,
    ) -> (s: Storage)
        ensures
            s@ == accepted(diagnostics_view(diagnostics@), *p, log_file@, on_windows),
    {
        let ghost before = diagnostics_view(diagnostics@);
        let mut diagnostics = diagnostics;
        let mut using = String::from_str("storage: using ");
        using.append(p.dir.as_str());
        using.append(" (source: ");
        using.append(p.source.as_str());
        using.append(")");
        diagnostics.push((Level::Info, using));
        let log_dir = match &p.logs {
            Ok(()) => Some(p.log_dir.clone()),
            Err(e) => {
                let mut line = String::from_str("storage: log directory ");
                line.append(p.log_dir.as_str());
                line.append(" unusable: ");
                line.append(e.as_str());
                diagnostics.push((Level::Warn, line));
                None
            },
        };
        let ghost head = diagnostics_view(diagnostics@);
        proof {
            assert(head =~= before + seq![(Level::Info, using_message(*p))] + (if p.logs is Err {
                seq![(Level::Warn, log_dir_message(*p))]
            } else {
                Seq::empty()
            }));
        }
        let mut storage = Storage {
            dir: Some(p.dir.clone()),
            log_dir,
            log_file,
            diagnostics,
            buffering: true,
            info: StorageInfo {
                path: p.dir.clone(),
                source: p.source.clone(),
                writable: true,
                error: None,
                notices: Vec::new(),
                degraded: false,
            },
            alarming: false,
        };
        proof {
            assert(storage@.notices =~= Seq::<Seq<char>>::empty());
        }
        storage.add_location_notices(p.source.as_str(), on_windows);
        if p.logs.is_err() {
            storage.push_notice(String::from_str(NOTICE_NO_LOG_FOLDER), false);
        }
        proof {
            let target = accepted(before, *p, log_file@, on_windows);
            let ns = accepted_notices(*p, on_windows);
            let ls = location_notices(p.source@, on_windows);
            assert(storage@.notices =~= target.notices);
            assert(ns.map_values(|n: Seq<char>| notice_diagnostic(n)) =~= ls.map_values(
                |n: Seq<char>| notice_diagnostic(n),
            ) + (if p.logs is Err {
                seq![notice_diagnostic(NOTICE_NO_LOG_FOLDER@)]
            } else {
                Seq::empty()
            }));
            assert(storage@.diagnostics =~= target.diagnostics);
            assert(storage@ =~= target);
        }
        storage
    }

    /// Take the first writable candidate, or fall back to memory when none is.
    ///
    /// `attempts` are the candidates the caller probed, in priority order; only
    /// the first attempt whose data probe succeeded matters, so the caller may
    /// stop probing there. `log_file` is the file-name stem handed to the log
    /// plugin, and `on_windows` picks the wording of the temp-folder notice.
    pub fn resolve(attempts: Vec<ProbeAttempt>, log_file: String, on_windows: bool) -> (s: Storage)
        ensures
            s@ == resolved(attempts@, log_file@, on_windows),
    {
        let ghost a = attempts@;
        let mut diagnostics: Vec<(Level, String)> = Vec::new();
        let mut failures: Vec<String> = Vec::new();
        let mut i: usize = 0;
        while i < attempts.len()
            invariant
                a == attempts@,
                i <= a.len(),
                first_writable(a) == first_writable_from(a, i as int),
                diagnostics_view(diagnostics@) == rejections(a, i as int),
                strings_view(failures@) == Seq::new(i as nat, |j: int| failure_message(a[j])),
            decreases a.len() - i,
        {
            let p = &attempts[i];
            match &p.data {
                Ok(()) => {
                    proof {
                        assert(first_writable_from(a, i as int) == i);
                    }
                    return Self::accept(diagnostics, p, log_file, on_windows);
                },
                Err(e) => {
                    let mut line = String::from_str("storage: ");
                    line.append(p.source.as_str());
                    line.append(" candidate ");
                    line.append(p.dir.as_str());
                    line.append(" rejected: ");
                    line.append(e.as_str());
                    let ghost d0 = diagnostics@;
                    let ghost lv = line@;
                    diagnostics.push((Level::Warn, line));
                    proof {
                        assert(diagnostics_view(diagnostics@) =~= diagnostics_view(d0).push(
                            (Level::Warn, lv),
                        ));
                    }
                    let mut failure = p.source.clone();
                    failure.append(" (");
                    failure.append(p.dir.as_str());
                    failure.append("): ");
                    failure.append(e.as_str());
                    let ghost f0 = failures@;
                    let ghost fv = failure@;
                    failures.push(failure);
                    proof {
                        assert(strings_view(failures@) =~= strings_view(f0).push(fv));
                    }
                    proof {
                        lemma_first_writable_skip(a, i as int);
                        assert(p.data == Err::<(), String>(*e));
                        assert(lv == rejection_message(a[i as int]));
                        assert(fv == failure_message(a[i as int]));
                        assert(diagnostics_view(diagnostics@) =~= rejections(a, i + 1));
                        assert(strings_view(failures@) =~= Seq::new(
                            (i + 1) as nat,
                            |j: int| failure_message(a[j]),
                        ));
                    }
                },
            }
            i = i + 1;
        }
        let error = if attempts.len() == 0 {
            String::from_str(NO_CANDIDATES)
        } else {
            concat("no writable data directory found — ", join(&failures, "; ").as_str())
        };
        let mut line = String::from_str("storage: ");
        line.append(error.as_str());
        line.append("; falling back to in-memory state");
        diagnostics.push((Level::Error, line));
        let mut storage = Storage {
            dir: None,
            log_dir: None,
            log_file,
            diagnostics,
            buffering: true,
            info: StorageInfo {
                path: String::new(),
                source: String::from_str("memory"),
                writable: false,
                error: Some(error),
                notices: Vec::new(),
                degraded: true,
            },
            alarming: true,
        };
        storage.push_notice(String::from_str(NOTICE_MEMORY), true);
        proof {
            let target = exhausted(a, log_file@);
            assert(storage@.notices =~= target.notices);
            assert(storage@.diagnostics =~= target.diagnostics);
            assert(storage@ =~= target);
        }
        storage
    }

    /// Snapshot of the storage report, with the banner verdict derived now.
    pub fn info(&self) -> (r: StorageInfo)
        ensures
            reports(r, self@),
    {
        let source = self.info.source.as_str();
        let degraded = !self.info.writable || same(source, "memory") || same(source, "temp")
            || self.alarming;
        StorageInfo {
            path: self.info.path.clone(),
            source: self.info.source.clone(),
            writable: self.info.writable,
            error: copy_opt(&self.info.error),
            notices: copy_strings(&self.info.notices),
            degraded,
        }
    }

    /// True when the startup banner is warranted; the same verdict as
    /// [`Storage::info`]'s `degraded`.
    pub fn is_degraded(&self) -> (b: bool)
        ensures
            b == is_degraded_view(self@),
    {
        self.info().degraded
    }

    /// Settle a write of `<name>.json`: `written` is what the atomic write
    /// reported, which the caller only attempts when there is a directory.
    pub fn write(&self, name: &str, written: Result<(), String>) -> (r: Result<(), AppError>)
        ensures
            r matches Err(e) ==> e is Storage,
            storage_error_view(r) == write_result(self@, name@, written),
    {
        if self.dir.is_none() {
            return Ok(());
        }
        match written {
            Err(e) => Err(save_failure(name, e.as_str())),
            _ => Ok(()),
        }
    }

    /// The resolved directory, if there is one.
    pub fn dir(&self) -> (r: Option<&str>)
        ensures
            opt_str_view(r) == self@.dir,
    {
        match &self.dir {
            Some(d) => Some(d.as_str()),
            None => None,
        }
    }

    /// A directory proven writable for log files, or `None`.
    pub fn log_dir(&self) -> (r: Option<&str>)
        ensures
            opt_str_view(r) == self@.log_dir,
    {
        match &self.log_dir {
            Some(d) => Some(d.as_str()),
            None => None,
        }
    }

    /// File-name stem for the log plugin's folder target, without `.log`.
    pub fn log_file(&self) -> (r: &str)
        ensures
            r@ == self@.log_file,
    {
        self.log_file.as_str()
    }

    /// Drain the buffered diagnostics and stop buffering.
    pub fn take_diagnostics(&mut self) -> (r: Vec<(Level, String)>)
        ensures
            diagnostics_view(r@) == old(self)@.diagnostics,
            final(self)@ == (StorageView {
                diagnostics: Seq::empty(),
                buffering: false,
                ..old(self)@
            }),
    {
        self.buffering = false;
        let mut out: Vec<(Level, String)> = Vec::new();
        std::mem::swap(&mut out, &mut self.diagnostics);
        proof {
            assert(diagnostics_view(self.diagnostics@) =~= Seq::<(Level, Seq<char>)>::empty());
        }
        out
    }

    /// Settle a read of `<name>.json`: the value to continue with, and the
    /// notice that a reset or an unopenable file leaves for the user.
    ///
    /// `reset_to` describes `default` in that notice, such as `"empty"`. In
    /// memory-only mode there is no file, so `default` is returned untouched.
    pub fn read<T>(&mut self, name: &str, reset_to: &str, outcome: ReadOutcome<T>, default: T) -> (r: T)
        ensures
            old(self)@.dir is None ==> r == default && final(self)@ == old(self)@,
            old(self)@.dir is Some ==> {
                &&& r == (match outcome {
                    ReadOutcome::Parsed(v) => v,
                    _ => default,
                })
                &&& final(self)@ == match read_notice(name@, reset_to@, outcome) {
                    Some(n) => with_notice(old(self)@, n, true),
                    None => old(self)@,
                }
            },
    {
        if self.dir.is_none() {
            return default;
        }
        match outcome {
            ReadOutcome::Missing => default,
            ReadOutcome::Parsed(v) => v,
            ReadOutcome::Unreadable(e) => {
                let mut n = String::from_str(name);
                n.append(".json could not be opened (");
                n.append(e.as_str());
                n.append("), so Ketikin started from ");
                n.append(reset_to);
                n.append(". Your existing file was left untouched.");
                self.push_notice(n, true);
                default
            },
            ReadOutcome::Corrupt { error, backup, moved } => {
                let mut n = String::from_str(name);
                match moved {
                    Ok(()) => {
                        n.append(".json could not be read and was reset to ");
                        n.append(reset_to);
                        n.append(". The unreadable file was kept as ");
                        n.append(backup.as_str());
                        n.append(".");
                    },
                    Err(rename_err) => {
                        n.append(".json could not be read (");
                        n.append(error.as_str());
                        n.append(") and could not be moved aside (");
                        n.append(rename_err.as_str());
                        n.append("), so Ketikin started from ");
                        n.append(reset_to);
                        n.append(".");
                    },
                }
                self.push_notice(n, true);
                default
            },
        }
    }
}

/// What persisting `<name>.json` comes to, given what the write reported:
/// nothing is written in memory-only mode, where the in-process state stays
/// authoritative; otherwise a failed write is reported as a save failure.
pub open spec fn write_result(v: StorageView, name: Seq<char>, written: Result<(), String>) -> Result<(), Seq<char>> {
    match (v.dir, written) {
        (Some(_), Err(e)) => Err("could not save "@ + name + ".json"@ + ": "@ + e@),
        _ => Ok(()),
    }
}

pub open spec fn storage_error_view(r: Result<(), AppError>) -> Result<(), Seq<char>> {
    match r {
        Ok(_) => Ok(()),
        Err(AppError::Storage(m)) => Err(m@),
        Err(_) => Err(Seq::empty()),
    }
}

/// The error a failed atomic write of `<name>.json` is reported as.
pub fn save_failure(name: &str, err: &str) -> (e: AppError)
    ensures
        e matches AppError::Storage(m) && m@ == "could not save "@ + name@ + ".json"@ + ": "@ + err@,
{
    let context = concat3("could not save ", name, ".json");
    AppError::storage(context.as_str(), err)
}

/// Characters a log file name may carry from the user name unchanged.
pub open spec fn user_char_allowed(c: char) -> bool {
    is_ascii_alnum(c) || c == '_' || c == '-'
}

/// The first `MAX_LOG_USER_CHARS` characters of `raw`, each disallowed one
/// replaced by `-`, with leading and trailing `-` trimmed.
pub open spec fn sanitized_user(raw: Seq<char>) -> Seq<char> {
    let head = raw.subrange(
        0,
        if raw.len() < MAX_LOG_USER_CHARS {
            raw.len() as int
        } else {
            MAX_LOG_USER_CHARS as int
        },
    );
    trim_end_by(
        trim_start_by(
            head.map_values(|c: char| if user_char_allowed(c) { c } else { '-' }),
            true,
        ),
        true,
    )
}

/// The log file stem for an optional user name.
pub open spec fn log_stem(user: Option<Seq<char>>) -> Seq<char> {
    match user {
        Some(u) => if sanitized_user(u).len() > 0 {
            LOG_FILE_BASE@ + "-"@ + sanitized_user(u)
        } else {
            LOG_FILE_BASE@
        },
        None => LOG_FILE_BASE@,
    }
}

/// Reduce a user name to something safe in a file name, or `None` when
/// nothing usable is left.
pub fn sanitize_user(raw: &str) -> (r: Option<String>)
    ensures
        match r {
            Some(s) => s@ == sanitized_user(raw@) && s@.len() > 0,
            None => sanitized_user(raw@).len() == 0,
        },
{
    let v = chars_of(raw);
    let n = if v.len() < MAX_LOG_USER_CHARS {
        v.len()
    } else {
        MAX_LOG_USER_CHARS
    };
    let ghost head = raw@.subrange(0, n as int);
    let mut mapped: Vec<char> = Vec::new();
    let mut i: usize = 0;
    while i < n
        invariant
            v@ == raw@,
            n <= v.len(),
            head == raw@.subrange(0, n as int),
            i <= n,
            mapped@ == head.take(i as int).map_values(
                |c: char| if user_char_allowed(c) { c } else { '-' },
            ),
        decreases n - i,
    {
        let c = v[i];
        if char_is_ascii_alnum(c) || c == '_' || c == '-' {
            mapped.push(c);
        } else {
            mapped.push('-');
        }
        i = i + 1;
        assert(mapped@ =~= head.take(i as int).map_values(
            |c: char| if user_char_allowed(c) { c } else { '-' },
        ));
    }
    assert(head.take(n as int) =~= head);
    let t = trim_chars(&mapped, true);
    if t.len() == 0 {
        None
    } else {
        Some(from_chars(t.as_slice()))
    }
}

/// Per-user log file stem, with the user name injected.
pub fn log_file_stem_from(user: Option<&str>) -> (r: String)
    ensures
        r@ == log_stem(opt_str_view(user)),
{
    match user {
        Some(u) => match sanitize_user(u) {
            Some(clean) => concat3(LOG_FILE_BASE, "-", clean.as_str()),
            None => String::from_str(LOG_FILE_BASE),
        },
        None => String::from_str(LOG_FILE_BASE),
    }
}

/// How long the next probe may take, in milliseconds: whatever is left of the
/// shared budget, kept between the floor and the per-candidate ceiling.
pub fn remaining_timeout_ms(deadline_ms: u64, now_ms: u64) -> (t: u64)
    ensures
        t == clamp_ms(if deadline_ms > now_ms {
            (deadline_ms - now_ms) as u64
        } else {
            0
        }),
{
    let left = if deadline_ms > now_ms {
        deadline_ms - now_ms
    } else {
        0
    };
    if left < PROBE_MIN_TIMEOUT_MS {
        PROBE_MIN_TIMEOUT_MS
    } else if left > PROBE_TIMEOUT_MS {
        PROBE_TIMEOUT_MS
    } else {
        left
    }
}

/// `left` clamped between the probe floor and ceiling.
pub open spec fn clamp_ms(left: u64) -> u64 {
    if left < PROBE_MIN_TIMEOUT_MS {
        PROBE_MIN_TIMEOUT_MS
    } else if left > PROBE_TIMEOUT_MS {
        PROBE_TIMEOUT_MS
    } else {
        left
    }
}

/// Adopt `next` in place of `current` only once it has been written: a failed
/// write leaves memory as it was, so memory never holds what the disk does
/// not.
pub fn adopt_if_saved<T>(current: &mut T, next: T, saved: Result<(), AppError>) -> (r: Result<
    (),
    AppError,
>)
    ensures
        r == saved,
        saved is Ok ==> *final(current) == next,
        saved is Err ==> *final(current) == *old(current),
{
    if saved.is_ok() {
        *current = next;
    }
    saved
}

/// `<name>.json`, the file a named value is stored in.
pub fn json_file_name(name: &str) -> (r: String)
    ensures
        r@ == name@ + ".json"@,
{
    concat(name, ".json")
}

/// Whether `name` is an archived log of `stem`: `<stem>_<timestamp>.log`,
/// the shape the log plugin gives a log it rotates.
pub open spec fn is_rotated_log(name: Seq<char>, stem: Seq<char>) -> bool {
    (stem + "_"@).is_prefix_of(name) && ".log"@.is_suffix_of(name)
}

/// The archived logs of `stem` among `names`, in the order given.
pub open spec fn rotated_logs(names: Seq<Seq<char>>, stem: Seq<char>) -> Seq<Seq<char>> {
    names.filter(|n: Seq<char>| is_rotated_log(n, stem))
}

/// The archived logs to delete so that only the newest `keep` remain: the
/// timestamp sorts by name, so these are the first in name order.
pub open spec fn logs_to_prune(names: Seq<Seq<char>>, stem: Seq<char>, keep: nat) -> Seq<Seq<char>> {
    let r = rotated_logs(names, stem);
    if r.len() <= keep {
        Seq::empty()
    } else {
        r.sort_by(str_order()).take(r.len() - keep)
    }
}

/// Which of the file names in the log folder to delete, oldest first, so
/// that at most `keep` archives of `stem` survive.
pub fn rotated_logs_to_prune(names: &Vec<String>, stem: &str, keep: usize) -> (r: Vec<String>)
    ensures
        strings_view(r@) == logs_to_prune(strings_view(names@), stem@, keep as nat),
{
    let prefix = concat(stem, "_");
    let ghost all = strings_view(names@);
    let ghost pred = |n: Seq<char>| is_rotated_log(n, stem@);
    let mut sorted: Vec<String> = Vec::new();
    let mut i: usize = 0;
    assert(all.take(0).filter(pred) =~= Seq::<Seq<char>>::empty()) by {
        reveal(Seq::filter);
    }
    assert(strings_view(sorted@) =~= all.take(0).filter(pred));
    while i < names.len()
        invariant
            prefix@ == stem@ + "_"@,
            all == strings_view(names@),
            pred == (|n: Seq<char>| is_rotated_log(n, stem@)),
            i <= names.len(),
            sorted_by(strings_view(sorted@), str_order()),
            strings_view(sorted@).to_multiset() == all.take(i as int).filter(pred).to_multiset(),
        decreases names.len() - i,
    {
        let ghost before = strings_view(sorted@);
        let ghost taken = all.take(i as int);
        proof {
            assert(all.take(i + 1).drop_last() =~= taken);
            assert(all.take(i + 1).last() == names@[i as int]@);
            reveal(Seq::filter);
        }
        let name = names[i].as_str();
        if has_prefix(name, prefix.as_str()) && has_suffix(name, ".log") {
            let mut p: usize = 0;
            while p < sorted.len() && !str_le(name, sorted[p].as_str())
                invariant
                    p <= sorted.len(),
                    before == strings_view(sorted@),
                    forall|j: int| 0 <= j < p ==> !lex_le(name@, #[trigger] before[j]),
                decreases sorted.len() - p,
            {
                p = p + 1;
            }
            sorted.insert(p, names[i].clone());
            proof {
                let x = name@;
                assert(strings_view(sorted@) =~= before.insert(p as int, x));
                lemma_insert_keeps_order(before, p as int, x);
                broadcast use vstd::seq_lib::group_to_multiset_ensures;
                assert(all.take(i + 1).filter(pred) == taken.filter(pred).push(x));
            }
        } else {
            proof {
                assert(all.take(i + 1).filter(pred) == taken.filter(pred));
            }
        }
        i = i + 1;
    }
    let ghost found = rotated_logs(all, stem@);
    proof {
        assert(all.take(names.len() as int) =~= all);
        lemma_str_order_is_total();
        found.lemma_sort_by_ensures(str_order());
        vstd::seq_lib::lemma_sorted_unique(strings_view(sorted@), found.sort_by(str_order()), str_order());
        broadcast use vstd::seq_lib::group_to_multiset_ensures;
        assert(found.len() == sorted.len()) by {
            vstd::seq_lib::to_multiset_len(found);
            vstd::seq_lib::to_multiset_len(strings_view(sorted@));
        }
    }
    let n = sorted.len();
    if n <= keep {
        return Vec::new();
    }
    sorted.truncate(n - keep);
    proof {
        assert(strings_view(sorted@) =~= found.sort_by(str_order()).take(n - keep));
    }
    sorted
}

/// Inserting `x` before the first element it does not follow keeps a sorted
/// sequence sorted.
proof fn lemma_insert_keeps_order(s: Seq<Seq<char>>, p: int, x: Seq<char>)
    requires
        0 <= p <= s.len(),
        sorted_by(s, str_order()),
        forall|j: int| 0 <= j < p ==> !lex_le(x, #[trigger] s[j]),
        p < s.len() ==> lex_le(x, s[p]),
    ensures
        sorted_by(s.insert(p, x), str_order()),
{
    lemma_str_order_is_total();
    let t = s.insert(p, x);
    let r = str_order();
    assert forall|i: int, j: int| 0 <= i < j < t.len() implies #[trigger] r(t[i], t[j]) by {
        if j < p {
            assert(r(s[i], s[j]));
        } else if j == p {
            assert(!lex_le(x, s[i]));
            assert(r(s[i], x) || r(x, s[i]));
        } else if i == p {
            assert(r(x, s[p]));
            if j - 1 > p {
                assert(r(s[p], s[j - 1]));
                assert(r(x, s[p]) && r(s[p], s[j - 1]));
            }
        } else if i < p {
            assert(r(s[i], s[j - 1]));
        } else {
            assert(r(s[i - 1], s[j - 1]));
        }
    }
}

/// Pruning deletes only archives of the stem, exactly as many as exceed
/// `keep`, and never one that sorts after an archive it keeps: the newest
/// `keep` archives survive.
pub proof fn law_pruning_keeps_the_newest(names: Seq<Seq<char>>, stem: Seq<char>, keep: nat)
    ensures
        ({
            let r = rotated_logs(names, stem);
            let d = logs_to_prune(names, stem, keep);
            &&& d.len() == if r.len() <= keep {
                0
            } else {
                r.len() - keep
            }
            &&& forall|i: int| 0 <= i < d.len() ==> #[trigger] r.contains(d[i]) && is_rotated_log(d[i], stem)
            &&& forall|x: Seq<char>, y: Seq<char>|
                #[trigger] d.contains(x) && #[trigger] r.contains(y) && !d.contains(y) ==> lex_le(x, y)
        }),
{
    let r = rotated_logs(names, stem);
    let d = logs_to_prune(names, stem, keep);
    let pred = |n: Seq<char>| is_rotated_log(n, stem);
    if r.len() > keep {
        let sorted = r.sort_by(str_order());
        lemma_str_order_is_total();
        r.lemma_sort_by_ensures(str_order());
        broadcast use vstd::seq_lib::group_to_multiset_ensures;
        assert(sorted.len() == r.len()) by {
            vstd::seq_lib::to_multiset_len(r);
            vstd::seq_lib::to_multiset_len(sorted);
        }
        let m = r.len() - keep;
        assert forall|i: int| 0 <= i < d.len() implies #[trigger] r.contains(d[i]) && is_rotated_log(
            d[i],
            stem,
        ) by {
            assert(d[i] == sorted[i]);
            assert(sorted.contains(sorted[i]));
            let k = choose|k: int| 0 <= k < r.len() && r[k] == d[i];
            names.lemma_filter_pred(pred, k);
            assert(pred(r[k]));
        }
        assert forall|x: Seq<char>, y: Seq<char>|
            #[trigger] d.contains(x) && #[trigger] r.contains(y) && !d.contains(y) implies lex_le(x, y) by {
            let i = choose|i: int| 0 <= i < d.len() && d[i] == x;
            assert(r.to_multiset().count(y) > 0);
            assert(sorted.to_multiset().count(y) > 0);
            assert(sorted.contains(y));
            let j = choose|j: int| 0 <= j < sorted.len() && sorted[j] == y;
            if j < m {
                assert(d[j] == y);
            }
            assert(sorted[i] == x);
            assert(str_order()(sorted[i], sorted[j]));
        }
    }
}

/// The name the `attempt`-th backup of `name` is tried under: `.json.bak`
/// first, then `.json.bak2` up to `.json.bak20`.
pub open spec fn backup_name(name: Seq<char>, attempt: nat) -> Option<Seq<char>> {
    if attempt == 1 {
        Some(name + ".json.bak"@)
    } else if 2 <= attempt <= 20 {
        Some(name + ".json.bak"@ + decimal(attempt))
    } else {
        None
    }
}

/// The file name to try for the `attempt`-th backup of a corrupt file, or
/// `None` once the numbered names are used up.
pub fn backup_candidate(name: &str, attempt: usize) -> (r: Option<String>)
    ensures
        match backup_name(name@, attempt as nat) {
            Some(b) => r matches Some(s) && s@ == b,
            None => r is None,
        },
{
    if attempt == 1 {
        Some(concat(name, ".json.bak"))
    } else if 2 <= attempt && attempt <= 20 {
        let mut s = concat(name, ".json.bak");
        s.append(decimal_string(attempt).as_str());
        Some(s)
    } else {
        None
    }
}

/// The backup name a corrupt `name` file is moved to when the names in
/// `taken` already exist: the first of the numbered candidates from
/// `attempt` on that is not taken, or `None` when all of them are.
pub open spec fn first_free_backup(name: Seq<char>, taken: Seq<Seq<char>>, attempt: nat) -> Option<
    Seq<char>,
>
    decreases 21 - attempt,
{
    if attempt < 1 || attempt > 20 {
        None
    } else {
        match backup_name(name, attempt) {
            Some(b) => if taken.contains(b) {
                first_free_backup(name, taken, attempt + 1)
            } else {
                Some(b)
            },
            None => None,
        }
    }
}

/// Whether `v` holds a string equal to `s`.
fn holds(v: &Vec<String>, s: &str) -> (r: bool)
    ensures
        r == strings_view(v@).contains(s@),
{
    let mut i: usize = 0;
    while i < v.len()
        invariant
            i <= v.len(),
            forall|k: int| 0 <= k < i ==> v@[k]@ != s@,
        decreases v.len() - i,
    {
        if same(v[i].as_str(), s) {
            assert(strings_view(v@)[i as int] == s@);
            return true;
        }
        i = i + 1;
    }
    assert forall|k: int| 0 <= k < strings_view(v@).len() implies strings_view(v@)[k] != s@ by {
        assert(strings_view(v@)[k] == v@[k]@);
    }
    false
}

/// Where to move a corrupt `name` file, given the file names that already
/// exist beside it: `.json.bak`, or the first free one of `.json.bak2` to
/// `.json.bak20`, so a second corruption never overwrites the first backup;
/// `None` when all of them exist.
pub fn unused_backup(name: &str, taken: &Vec<String>) -> (r: Option<String>)
    ensures
        opt_view(r) == first_free_backup(name@, strings_view(taken@), 1),
{
    let ghost t = strings_view(taken@);
    let mut attempt: usize = 1;
    while attempt <= 20
        invariant
            1 <= attempt <= 21,
            t == strings_view(taken@),
            first_free_backup(name@, t, 1) == first_free_backup(name@, t, attempt as nat),
        decreases 21 - attempt,
    {
        match backup_candidate(name, attempt) {
            Some(candidate) => {
                if !holds(taken, candidate.as_str()) {
                    return Some(candidate);
                }
            },
            None => {
                return None;
            },
        }
        attempt = attempt + 1;
    }
    None
}

/// A backup never lands on a name that is already taken, and it is one of
/// the numbered backup names of the file.
pub proof fn law_backup_never_overwrites(name: Seq<char>, taken: Seq<Seq<char>>, attempt: nat)
    ensures
        first_free_backup(name, taken, attempt) matches Some(b) ==> {
            &&& !taken.contains(b)
            &&& exists|k: nat| attempt <= k <= 20 && backup_name(name, k) == Some(b)
        },
    decreases 21 - attempt,
{
    if 1 <= attempt <= 20 {
        if let Some(b) = backup_name(name, attempt) {
            if taken.contains(b) {
                law_backup_never_overwrites(name, taken, attempt + 1);
            } else {
                assert(backup_name(name, attempt) == Some(b));
            }
        }
    }
}

/// The first candidate whose probe succeeded is where the data lives,
/// whatever follows it in the chain.
pub proof fn law_first_writable_candidate_wins(
    a: Seq<ProbeAttempt>,
    k: int,
    log_file: Seq<char>,
    on_windows: bool,
)
    requires
        0 <= k < a.len(),
        a[k].data is Ok,
        forall|j: int| 0 <= j < k ==> a[j].data is Err,
    ensures
        resolved(a, log_file, on_windows).dir == Some(a[k].dir@),
        resolved(a, log_file, on_windows).source == a[k].source@,
        resolved(a, log_file, on_windows).writable,
{
    lemma_first_writable_is(a, k, 0);
}

proof fn lemma_first_writable_is(a: Seq<ProbeAttempt>, k: int, i: int)
    requires
        0 <= i <= k < a.len(),
        a[k].data is Ok,
        forall|j: int| 0 <= j < k ==> a[j].data is Err,
    ensures
        first_writable_from(a, i) == k,
    decreases k - i,
{
    if i < k {
        lemma_first_writable_is(a, k, i + 1);
    }
}

proof fn lemma_none_writable(a: Seq<ProbeAttempt>, i: int)
    requires
        0 <= i <= a.len(),
        forall|j: int| 0 <= j < a.len() ==> a[j].data is Err,
    ensures
        first_writable_from(a, i) == a.len(),
    decreases a.len() - i,
{
    if i < a.len() {
        lemma_none_writable(a, i + 1);
    }
}

proof fn lemma_first_writable_bounds(a: Seq<ProbeAttempt>, i: int)
    requires
        0 <= i <= a.len(),
    ensures
        i <= first_writable_from(a, i) <= a.len(),
        first_writable_from(a, i) < a.len() ==> a[first_writable_from(a, i)].data is Ok,
        forall|j: int| i <= j < first_writable_from(a, i) ==> #[trigger] a[j].data is Err,
    decreases a.len() - i,
{
    if i < a.len() && a[i].data is Err {
        lemma_first_writable_bounds(a, i + 1);
    }
}

/// Storage runs in memory exactly when no candidate could be written to, and
/// then it is degraded and says so.
pub proof fn law_memory_only_when_nothing_is_writable(
    a: Seq<ProbeAttempt>,
    log_file: Seq<char>,
    on_windows: bool,
)
    ensures
        resolved(a, log_file, on_windows).dir is None <==> forall|j: int|
            0 <= j < a.len() ==> #[trigger] a[j].data is Err,
        resolved(a, log_file, on_windows).dir is None ==> is_degraded_view(
            resolved(a, log_file, on_windows),
        ) && resolved(a, log_file, on_windows).notices.len() > 0,
{
    lemma_first_writable_bounds(a, 0);
    if forall|j: int| 0 <= j < a.len() ==> #[trigger] a[j].data is Err {
        lemma_none_writable(a, 0);
    }
}

/// Right after resolution the banner is up only for the temporary folder or
/// in-memory mode; a portable folder beside the executable, or a data
/// directory whose log folder failed, stays quiet.
pub proof fn law_banner_at_resolution(a: Seq<ProbeAttempt>, log_file: Seq<char>, on_windows: bool)
    ensures
        ({
            let v = resolved(a, log_file, on_windows);
            is_degraded_view(v) <==> (v.dir is None || v.source == "temp"@ || v.source
                == "memory"@)
        }),
{
    lemma_first_writable_bounds(a, 0);
}

/// The banner verdict a report carries is the storage's own verdict.
pub proof fn law_report_carries_the_verdict(r: StorageInfo, v: StorageView, b: bool)
    requires
        reports(r, v),
        b == is_degraded_view(v),
    ensures
        r.degraded == b,
{
}

/// A file that had to be reset always raises the banner, on any location,
/// and the earlier notices stay.
pub proof fn law_reset_raises_the_banner(v: StorageView, notice: Seq<char>)
    ensures
        is_degraded_view(with_notice(v, notice, true)),
        with_notice(v, notice, true).notices == v.notices.push(notice),
{
}

/// Once raised, the banner stays: notices never lower it.
pub proof fn law_banner_is_sticky(v: StorageView, notice: Seq<char>, alarming: bool)
    requires
        is_degraded_view(v),
    ensures
        is_degraded_view(with_notice(v, notice, alarming)),
{
}

/// The user name part of a log file name only holds `[A-Za-z0-9_-]`, is at
/// most `MAX_LOG_USER_CHARS` long, and neither starts nor ends with `-`.
pub proof fn law_sanitized_user_is_file_name_safe(raw: Seq<char>)
    ensures
        sanitized_user(raw).len() <= MAX_LOG_USER_CHARS,
        forall|i: int| 0 <= i < sanitized_user(raw).len() ==> user_char_allowed(
            #[trigger] sanitized_user(raw)[i],
        ),
        sanitized_user(raw).len() > 0 ==> sanitized_user(raw)[0] != '-' && sanitized_user(
            raw,
        ).last() != '-',
{
    let head = raw.subrange(
        0,
        if raw.len() < MAX_LOG_USER_CHARS {
            raw.len() as int
        } else {
            MAX_LOG_USER_CHARS as int
        },
    );
    let mapped = head.map_values(|c: char| if user_char_allowed(c) { c } else { '-' });
    assert forall|i: int| 0 <= i < mapped.len() implies user_char_allowed(#[trigger] mapped[i]) by {
    }
    let off = crate::text::lemma_trim_shape(mapped, true);
    let t = sanitized_user(raw);
    assert forall|i: int| 0 <= i < t.len() implies user_char_allowed(#[trigger] t[i]) by {
        assert(t[i] == mapped[off + i]);
    }
}

/// A probe always gets at least the floor and at most the per-candidate
/// ceiling.
pub proof fn law_probe_timeout_is_bounded(left: u64)
    ensures
        PROBE_MIN_TIMEOUT_MS <= clamp_ms(left) <= PROBE_TIMEOUT_MS,
{
}

} // verus!
