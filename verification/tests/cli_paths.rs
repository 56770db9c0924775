use ghostftp::cli::{
    check_mangled_remote_path, is_collapsed_windows_path, is_windows_drive_path, parse_semver,
    MangledPath,
};

#[test]
fn mangled_path_rejected_only_on_non_windows_target() {
    let err = check_mangled_remote_path("C:/Program Files/Git/var/www", false)
        .expect_err("should reject a mangled path on a POSIX target");
    let msg = err.to_string();
    assert!(msg.contains("MSYS_NO_PATHCONV=1"));
    assert!(msg.contains("agent write"));
    assert!(check_mangled_remote_path("C:/Users/me/app", true).is_ok());
    assert!(check_mangled_remote_path("/var/www/html", false).is_ok());
    assert!(check_mangled_remote_path("//var/www", false).is_ok());
}

#[test]
fn collapsed_windows_path_is_rejected_on_any_target() {
    for target_is_windows in [true, false] {
        let err = check_mangled_remote_path("C:UsersUser", target_is_windows)
            .expect_err("collapsed drive path should be rejected");
        assert!(err.to_string().contains("missing its path separators"));
    }
    assert!(check_mangled_remote_path(r"C:\Users\User", true).is_ok());
    assert!(check_mangled_remote_path("C:/Users/User", true).is_ok());
    assert!(check_mangled_remote_path("public_html/wp-content", false).is_ok());
}

#[test]
fn detects_windows_drive_paths() {
    assert!(is_windows_drive_path("C:/Program Files/Git/var/www"));
    assert!(is_windows_drive_path(r"C:\Users\me"));
    assert!(is_windows_drive_path("D:/data"));
    assert!(!is_windows_drive_path("/var/www/html"));
    assert!(!is_windows_drive_path("//var/www"));
    assert!(!is_windows_drive_path("./rel"));
    assert!(!is_windows_drive_path("home/user"));
    assert!(!is_windows_drive_path("C:"));
}

#[test]
fn semver_parses_and_orders() {
    assert_eq!(parse_semver("1.3.19"), Some((1, 3, 19)));
    assert_eq!(parse_semver("1.4.0"), Some((1, 4, 0)));
    assert_eq!(parse_semver("2.0.0-rc1"), Some((2, 0, 0)));
    assert_eq!(parse_semver("2.0.0+build.7"), Some((2, 0, 0)));
    assert_eq!(parse_semver("3"), Some((3, 0, 0)));
    assert_eq!(parse_semver("3.2"), Some((3, 2, 0)));
    assert_eq!(parse_semver("nightly"), None);
}

#[test]
fn stale_when_cli_older_than_app() {
    assert!(parse_semver("1.3.10") < parse_semver("1.3.19"));
    assert!(parse_semver("1.2.99") < parse_semver("1.3.0"));
    assert!(!(parse_semver("1.3.19") < parse_semver("1.3.19")));
    assert!(!(parse_semver("1.4.0") < parse_semver("1.3.19")));
}

#[test]
fn collapsed_paths_have_a_drive_and_no_separator() {
    assert!(is_collapsed_windows_path("C:UsersUser"));
    assert!(!is_collapsed_windows_path("C:/Users"));
    assert!(!is_collapsed_windows_path("C:"));
    assert!(!is_collapsed_windows_path("/C:Users"));
    assert!(matches!(
        check_mangled_remote_path("C:UsersUser", true),
        Err(MangledPath::Collapsed { .. })
    ));
    assert!(matches!(
        check_mangled_remote_path("C:/Users", false),
        Err(MangledPath::Converted { .. })
    ));
}

#[test]
fn semver_refuses_what_is_no_number() {
    assert_eq!(parse_semver(""), None);
    assert_eq!(parse_semver("1.x.3"), None);
    assert_eq!(parse_semver("18446744073709551615.0.0"), Some((u64::MAX, 0, 0)));
    assert_eq!(parse_semver("18446744073709551616"), None);
}
