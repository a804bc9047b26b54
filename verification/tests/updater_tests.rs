use ketikin::error::AppError;
use ketikin::updater::{
    install_precheck, install_supported_for, open_failure, package_install_refusal,
    release_notes_url, releases_url, sanitize_version, update_failure, UpdateFailure,
    NOTHING_PENDING, REPO_SLUG,
};

#[test]
fn sanitize_accepts_semver_with_or_without_the_v_prefix() {
    assert_eq!(sanitize_version("1.2.3").expect("valid"), "1.2.3");
    assert_eq!(sanitize_version("v1.2.3").expect("valid"), "1.2.3");
    assert_eq!(sanitize_version(" 1.2.3-rc.1 ").expect("valid"), "1.2.3-rc.1");
    assert_eq!(sanitize_version("1.2.3+build7").expect("valid"), "1.2.3+build7");
}

#[test]
fn sanitize_rejects_anything_that_could_reshape_the_url() {
    assert!(sanitize_version("").is_err());
    assert!(sanitize_version("v").is_err());
    assert!(sanitize_version("1.2.3/../../evil").is_err());
    assert!(sanitize_version("1.2.3?x=1").is_err());
    assert!(sanitize_version("1.2.3 4").is_err());
}

#[test]
fn sanitize_strips_every_leading_v_and_names_what_it_refused() {
    assert_eq!(sanitize_version("vv2.0").expect("valid"), "2.0");
    assert_eq!(
        sanitize_version("1.2.3?x=1"),
        Err(AppError::Invalid("1.2.3?x=1 is not a valid version number".to_string()))
    );
    assert_eq!(
        sanitize_version("  "),
        Err(AppError::Invalid("   is not a valid version number".to_string()))
    );
}

#[test]
fn sanitizing_a_tag_again_gives_it_back() {
    for raw in ["v1.0.0", " 2.0.0-beta.1 ", "3+x"] {
        let tag = sanitize_version(raw).expect("valid");
        assert_eq!(sanitize_version(&tag).expect("valid"), tag);
    }
}

#[test]
fn release_url_is_built_from_the_single_repo_constant() {
    let tag = sanitize_version("v0.1.0").expect("valid");
    assert_eq!(
        format!("https://github.com/{REPO_SLUG}/releases/tag/v{tag}"),
        "https://github.com/rendyuwu/ketikin/releases/tag/v0.1.0"
    );
    assert_eq!(
        release_notes_url("v0.1.0").expect("valid"),
        "https://github.com/rendyuwu/ketikin/releases/tag/v0.1.0"
    );
    assert!(release_notes_url("0.1.0#frag").is_err());
}

#[test]
fn self_install_is_unavailable_on_linux_outside_an_appimage() {
    assert!(!install_supported_for(true, false));
    assert!(install_supported_for(true, true));
    assert!(install_supported_for(false, false));
    assert!(install_supported_for(false, true));
}

#[test]
fn manual_update_message_points_at_the_releases_index() {
    assert_eq!(releases_url(), "https://github.com/rendyuwu/ketikin/releases");
}

#[test]
fn a_package_install_is_told_where_to_download() {
    match package_install_refusal() {
        AppError::Updater(message) => {
            assert!(message.contains("https://github.com/rendyuwu/ketikin/releases"));
            assert!(message.contains(".deb or .rpm"));
        }
        other => panic!("unexpected {other:?}"),
    }
}

#[test]
fn an_install_is_refused_before_anything_is_downloaded() {
    assert_eq!(install_precheck(false, true), Err(package_install_refusal()));
    assert_eq!(install_precheck(false, false), Err(package_install_refusal()));
    assert_eq!(
        install_precheck(true, false),
        Err(AppError::Updater(NOTHING_PENDING.to_string()))
    );
    assert_eq!(install_precheck(true, true), Ok(()));
}

#[test]
fn update_failures_say_which_step_failed() {
    assert_eq!(
        update_failure(UpdateFailure::CheckFailed, "404"),
        AppError::Updater("could not check for updates: 404".to_string())
    );
    assert_eq!(
        update_failure(UpdateFailure::NotConfigured, "no pubkey"),
        AppError::Updater("the updater is not configured: no pubkey".to_string())
    );
    assert_eq!(
        update_failure(UpdateFailure::InstallFailed, "bad signature"),
        AppError::Updater("could not install the update: bad signature".to_string())
    );
    assert_eq!(
        update_failure(UpdateFailure::TimedOut, "elapsed"),
        AppError::Updater(
            "the update check timed out — check your network connection and try again"
                .to_string()
        )
    );
    assert_eq!(
        open_failure("https://example.invalid", "no browser"),
        AppError::Updater("could not open https://example.invalid: no browser".to_string())
    );
}
