use ghostftp::settings::{
    as_count, build_settings_init_script, known_view, settings_script, transfer_settings,
    window_override, ScriptEntry, Setting, TransferSettings,
};

fn settings(rows: &[(&str, &str)]) -> Vec<Setting> {
    rows.iter()
        .map(|(key, value)| Setting {
            key: key.to_string(),
            value: value.to_string(),
        })
        .collect()
}

#[test]
fn injects_theme_and_snapshot() {
    let db = settings(&[("appTheme", "\"nord\""), ("terminalFontSize", "15")]);
    let script = build_settings_init_script(&db, None);
    assert!(script.contains("window.__GHOSTFTP_SETTINGS__"));
    assert!(script.contains("setAttribute('data-theme'"));
    assert!(script.contains("\"appTheme\":\"nord\""));
    assert!(script.contains("\"terminalFontSize\":15"));
}

#[test]
fn defaults_theme_to_dark_on_empty_db() {
    let script = build_settings_init_script(&settings(&[]), None);
    assert!(script.contains("\"appTheme\":\"dark\""));
}

#[test]
fn skips_corrupt_rows_without_breaking() {
    // A value that isn't valid JSON must be dropped, not emitted raw (which
    // would break the whole object literal and leave the window unthemed).
    let db = settings(&[("appTheme", "\"dracula\""), ("broken", "not json")]);
    let script = build_settings_init_script(&db, None);
    assert!(script.contains("\"appTheme\":\"dracula\""));
    assert!(!script.contains("not json"));
}

#[test]
fn the_whole_script_is_as_expected() {
    let db = settings(&[("a\"b", "1"), ("bad", "{")]);
    assert_eq!(
        build_settings_init_script(&db, Some("settings".to_string())),
        "(function(){try{var s={\"a\\\"b\":1,\"appTheme\":\"dark\"};window.__GHOSTFTP_SETTINGS__=s;window.__GHOSTFTP_QA_VIEW__=\"settings\";var el=document.documentElement;if(el&&typeof s.appTheme==='string'){el.setAttribute('data-theme',s.appTheme);}}catch(e){}})();"
    );
}

#[test]
fn an_unknown_view_is_not_passed_on() {
    let script = build_settings_init_script(&settings(&[]), Some("evil\"".to_string()));
    assert!(script.contains("window.__GHOSTFTP_QA_VIEW__=\"\";"));
    for view in [
        "main",
        "siteManager",
        "settings",
        "transferCenter",
        "about",
        "newConnection",
        "properties",
    ] {
        assert!(known_view(view));
    }
    assert!(!known_view("Main"));
}

#[test]
fn a_corrupt_row_leaves_the_script_as_it_is_without_it() {
    let good = |key: &str, value: &str| ScriptEntry {
        key_json: key.to_string(),
        value: value.to_string(),
        valid: true,
    };
    let bad = ScriptEntry {
        key_json: "\"x\"".to_string(),
        value: "oops".to_string(),
        valid: false,
    };
    let with = settings_script(&vec![good("\"a\"", "1"), bad, good("\"b\"", "2")], "\"\"");
    let without = settings_script(&vec![good("\"a\"", "1"), good("\"b\"", "2")], "\"\"");
    assert_eq!(with, without);
    assert!(with.contains("{\"a\":1,\"b\":2}"));
    assert!(settings_script(&vec![], "\"\"").contains("var s={};"));
}

#[test]
fn window_overrides_need_a_known_view_and_a_value() {
    let main = Some("main".to_string());
    let value = Some("--x".to_string());
    assert_eq!(window_override(&main, value.clone()), value);
    assert_eq!(window_override(&None, value.clone()), None);
    assert_eq!(window_override(&Some("no".to_string()), value), None);
    assert_eq!(window_override(&main, Some("  ".to_string())), None);
    assert_eq!(window_override(&main, None), None);
}

#[test]
fn transfer_settings_are_read_from_json() {
    let some = |s: &str| Some(s.to_string());
    assert_eq!(
        transfer_settings(&some("4"), &some(" 512 "), &some("false")),
        TransferSettings {
            concurrency: Some(4),
            throttle_kbps: Some(512),
            delta_sync: Some(false)
        }
    );
    assert_eq!(
        transfer_settings(&some("-1"), &some("1.5"), &some("\"true\"")),
        TransferSettings {
            concurrency: None,
            throttle_kbps: None,
            delta_sync: None
        }
    );
    assert_eq!(
        transfer_settings(&None, &None, &None),
        TransferSettings {
            concurrency: None,
            throttle_kbps: None,
            delta_sync: None
        }
    );
    assert_eq!(as_count(Some(7)), Some(7));
    assert_eq!(as_count(None), None);
}
