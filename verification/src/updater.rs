//! The rules around updating: which version strings may become part of a
//! release URL, where manual updates are pointed, and when a build can
//! replace itself in place.

use vstd::prelude::*;

use crate::error::AppError;
use crate::text::{chars_of, char_is_ascii_alnum, concat, concat3, from_chars, is_ascii_alnum, trim, trimmed};

verus! {

/// Single source of truth for the GitHub repository this app updates from.
pub const REPO_SLUG: &'static str = "rendyuwu/ketikin";

/// Emitted when a background check finds a newer version.
pub const EVENT_AVAILABLE: &'static str = "update://available";

/// Ceiling on a single update check, in milliseconds.
pub const CHECK_TIMEOUT_MS: u64 = 30000;

/// What the frontend needs to describe an available update.
#[derive(Debug, Clone)]
pub struct UpdateInfo {
    pub version: String,
    pub current_version: String,
    pub notes: Option<String>,
    pub date: Option<String>,
    /// Whether the build can apply this update in place.
    pub can_install: bool,
}

/// Can a build replace itself in place? Only Linux outside an AppImage
/// cannot.
pub fn install_supported_for(is_linux: bool, has_appimage: bool) -> (b: bool)
    ensures
        b == (!is_linux || has_appimage),
{
    !is_linux || has_appimage
}

pub open spec fn releases_url_spec() -> Seq<char> {
    "https://github.com/"@ + REPO_SLUG@ + "/releases"@
}

/// Where to send someone who has to update by hand.
pub fn releases_url() -> (u: String)
    ensures
        u@ == releases_url_spec(),
{
    concat3("https://github.com/", REPO_SLUG, "/releases")
}

/// `s` without any of its leading `v`s (`trim_start_matches('v')`).
pub open spec fn without_leading_v(s: Seq<char>) -> Seq<char>
    decreases s.len(),
{
    if s.len() > 0 && s[0] == 'v' {
        without_leading_v(s.drop_first())
    } else {
        s
    }
}

/// Characters a version tag may carry into a URL.
pub open spec fn version_char(c: char) -> bool {
    is_ascii_alnum(c) || c == '.' || c == '-' || c == '+'
}

/// The tag `version` stands for, or `None` when it could reshape a URL.
pub open spec fn version_tag(version: Seq<char>) -> Option<Seq<char>> {
    let t = without_leading_v(trimmed(version));
    if t.len() > 0 && forall|i: int| 0 <= i < t.len() ==> version_char(#[trigger] t[i]) {
        Some(t)
    } else {
        None
    }
}

pub open spec fn invalid_version_message(version: Seq<char>) -> Seq<char> {
    version + " is not a valid version number"@
}

/// Keep the version out of the URL's structure: semver tags only ever
/// contain ASCII letters, digits, `.`, `-` and `+`.
pub fn sanitize_version(version: &str) -> (r: Result<String, AppError>)
    ensures
        match version_tag(version@) {
            Some(t) => r matches Ok(s) && s@ == t,
            None => r matches Err(e) && e matches AppError::Invalid(m) && m@
                == invalid_version_message(version@),
        },
{
    let t = trim(version);
    let v = chars_of(t.as_str());
    let mut start: usize = 0;
    assert(v@.subrange(0, v.len() as int) =~= v@);
    while start < v.len() && v[start] == 'v'
        invariant
            v@ == trimmed(version@),
            start <= v.len(),
            without_leading_v(v@) == without_leading_v(v@.subrange(start as int, v.len() as int)),
        decreases v.len() - start,
    {
        proof {
            assert(v@.subrange(start as int, v.len() as int).drop_first() =~= v@.subrange(
                start + 1,
                v.len() as int,
            ));
        }
        start = start + 1;
    }
    let ghost tag = v@.subrange(start as int, v.len() as int);
    proof {
        assert(without_leading_v(tag) == tag);
    }
    let mut ok = start < v.len();
    let mut i: usize = start;
    while i < v.len()
        invariant
            start <= i <= v.len(),
            tag == v@.subrange(start as int, v.len() as int),
            ok == (start < v.len() && forall|k: int| start <= k < i ==> version_char(#[trigger] v@[k])),
        decreases v.len() - i,
    {
        let c = v[i];
        if !(char_is_ascii_alnum(c) || c == '.' || c == '-' || c == '+') {
            ok = false;
        }
        i = i + 1;
    }
    proof {
        if ok {
            assert forall|k: int| 0 <= k < tag.len() implies version_char(#[trigger] tag[k]) by {
                assert(tag[k] == v@[start + k]);
            }
        } else if tag.len() > 0 {
            let k = choose|k: int| start <= k < v.len() && !version_char(#[trigger] v@[k]);
            assert(tag[k - start] == v@[k]);
        }
    }
    if !ok {
        return Err(AppError::Invalid(concat(version, " is not a valid version number")));
    }
    Ok(from_chars(vstd::slice::slice_subrange(v.as_slice(), start, v.len())))
}

pub open spec fn release_notes_url_spec(tag: Seq<char>) -> Seq<char> {
    "https://github.com/"@ + REPO_SLUG@ + "/releases/tag/v"@ + tag
}

/// The GitHub release page for `version`, refused when the version could
/// reshape the URL.
pub fn release_notes_url(version: &str) -> (r: Result<String, AppError>)
    ensures
        match version_tag(version@) {
            Some(t) => r matches Ok(u) && u@ == release_notes_url_spec(t),
            None => r matches Err(e) && e matches AppError::Invalid(m) && m@
                == invalid_version_message(version@),
        },
{
    let tag = sanitize_version(version)?;
    let mut url = concat3("https://github.com/", REPO_SLUG, "/releases/tag/v");
    url.append(tag.as_str());
    Ok(url)
}

pub open spec fn package_install_message() -> Seq<char> {
    "Ketikin was installed from a system package (.deb or .rpm) and cannot update itself. Download the new version from "@
        + releases_url_spec() + " and install it with your package manager."@
}

/// Why a package-manager install refuses to update itself.
pub fn package_install_refusal() -> (e: AppError)
    ensures
        e matches AppError::Updater(m) && m@ == package_install_message(),
{
    let mut m = String::from_str(
        "Ketikin was installed from a system package (.deb or .rpm) and cannot update itself. Download the new version from ",
    );
    m.append(releases_url().as_str());
    m.append(" and install it with your package manager.");
    AppError::Updater(m)
}

/// A step of checking for or installing an update that went wrong.
#[derive(Debug, Clone, Copy, PartialEq, Eq, Structural)]
pub enum UpdateFailure {
    /// The updater has no endpoint or key configured.
    NotConfigured,
    /// The check did not answer within [`CHECK_TIMEOUT_MS`].
    TimedOut,
    /// The check answered with an error.
    CheckFailed,
    /// Downloading or applying the update failed.
    InstallFailed,
}

pub open spec fn failure_message(kind: UpdateFailure, err: Seq<char>) -> Seq<char> {
    match kind {
        UpdateFailure::NotConfigured => "the updater is not configured: "@ + err,
        UpdateFailure::TimedOut => "the update check timed out — check your network connection and try again"@,
        UpdateFailure::CheckFailed => "could not check for updates: "@ + err,
        UpdateFailure::InstallFailed => "could not install the update: "@ + err,
    }
}

/// The error the user sees for a failed update step; `err` is what the
/// updater reported (unused for a timeout, which has nothing to add).
pub fn update_failure(kind: UpdateFailure, err: &str) -> (e: AppError)
    ensures
        e matches AppError::Updater(m) && m@ == failure_message(kind, err@),
{
    let m = match kind {
        UpdateFailure::NotConfigured => concat("the updater is not configured: ", err),
        UpdateFailure::TimedOut => String::from_str(
            "the update check timed out — check your network connection and try again",
        ),
        UpdateFailure::CheckFailed => concat("could not check for updates: ", err),
        UpdateFailure::InstallFailed => concat("could not install the update: ", err),
    };
    AppError::Updater(m)
}

/// The error for a release page the browser could not be asked to open.
pub fn open_failure(url: &str, err: &str) -> (e: AppError)
    ensures
        e matches AppError::Updater(m) && m@ == "could not open "@ + url@ + ": "@ + err@,
{
    let mut m = concat3("could not open ", url, ": ");
    m.append(err);
    AppError::Updater(m)
}

/// Nothing to install yet.
pub const NOTHING_PENDING: &'static str = "no update is ready to install — check for updates first";

/// Whether an install may start: refused up front for a package-manager
/// install, before anything is downloaded, and refused when no check has
/// found an update yet.
pub fn install_precheck(supported: bool, pending: bool) -> (r: Result<(), AppError>)
    ensures
        !supported ==> (r matches Err(e) && e matches AppError::Updater(m) && m@
            == package_install_message()),
        supported && !pending ==> (r matches Err(e) && e matches AppError::Updater(m) && m@
            == NOTHING_PENDING@),
        supported && pending ==> r is Ok,
{
    if !supported {
        return Err(package_install_refusal());
    }
    if !pending {
        return Err(AppError::Updater(String::from_str(NOTHING_PENDING)));
    }
    Ok(())
}

proof fn lemma_without_leading_v_shape(s: Seq<char>)
    ensures
        without_leading_v(s).len() <= s.len(),
        without_leading_v(s) == s.subrange(s.len() - without_leading_v(s).len(), s.len() as int),
        without_leading_v(s).len() > 0 ==> without_leading_v(s)[0] != 'v',
    decreases s.len(),
{
    if s.len() > 0 && s[0] == 'v' {
        lemma_without_leading_v_shape(s.drop_first());
        let r = without_leading_v(s.drop_first());
        assert(s.drop_first().subrange(s.len() - 1 - r.len(), s.len() - 1) =~= s.subrange(
            s.len() - r.len(),
            s.len() as int,
        ));
    } else {
        assert(s.subrange(0, s.len() as int) =~= s);
    }
}

/// A version tag is safe inside a URL path segment: non-empty, only ASCII
/// letters, digits, `.`, `-` and `+`, without the `v` prefix; and sanitizing
/// it again gives it back unchanged.
pub proof fn law_version_tag_is_url_safe(version: Seq<char>, t: Seq<char>)
    requires
        version_tag(version) == Some(t),
    ensures
        t.len() > 0,
        forall|i: int| 0 <= i < t.len() ==> version_char(#[trigger] t[i]),
        t[0] != 'v',
        version_tag(t) == Some(t),
{
    lemma_without_leading_v_shape(trimmed(version));
    assert(version_char(t[0]));
    assert(version_char(t.last())) by {
        assert(t.last() == t[t.len() - 1]);
    }
    crate::text::lemma_trim_fixed(t, false);
    assert(without_leading_v(t) == t);
}

} // verus!
