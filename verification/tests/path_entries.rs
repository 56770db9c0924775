use ghostftp::marker::{insert_marker_block, remove_marker_block};
use ghostftp::path_integration::{
    cli_exe_name, cli_on_path, compute_status, link_target, linked_detail, local_bin_on_path,
    make_value, path_add, path_remove, profile_with_path, profile_without_path, read_path,
    shell_profile, vtype_u32, RegType, RegValue,
};
use ghostftp::path_list::{add_dir, contains_dir, remove_dir};

#[test]
fn contains_is_case_and_slash_insensitive() {
    let v = r"C:\Windows;C:\Users\me\AppData\Local\Ghost FTP\bin";
    assert!(contains_dir(v, r"c:\users\me\appdata\local\ghostftp\bin"));
    assert!(contains_dir(v, r"C:\Users\me\AppData\Local\Ghost FTP\bin\")); // trailing slash
    assert!(!contains_dir(
        v,
        r"C:\Users\me\AppData\Local\Ghost FTP\bin2"
    ));
    assert!(!contains_dir("", r"C:\x"));
}

#[test]
fn add_is_idempotent_and_preserves_entries() {
    let v = r"C:\Windows;C:\Windows\System32";
    let added = add_dir(v, r"C:\Ghost FTP\bin");
    assert_eq!(added, r"C:\Windows;C:\Windows\System32;C:\Ghost FTP\bin");
    // Re-adding is a no-op (even with different case / trailing slash).
    assert_eq!(add_dir(&added, r"c:\ghostftp\bin\"), added);
}

#[test]
fn add_into_empty_value() {
    assert_eq!(add_dir("", r"C:\Ghost FTP\bin"), r"C:\Ghost FTP\bin");
}

#[test]
fn remove_is_surgical_and_byte_identical_round_trip() {
    let original = r"C:\Windows;C:\Windows\System32;%JAVA_HOME%\bin";
    let bin = r"C:\Ghost FTP\bin";
    let added = add_dir(original, bin);
    // Removing our entry restores the original value byte-for-byte.
    assert_eq!(remove_dir(&added, bin), original);
    // Removing when absent leaves the value untouched.
    assert_eq!(remove_dir(original, bin), original);
    // %VARS% are preserved unexpanded throughout.
    assert!(remove_dir(&added, bin).contains("%JAVA_HOME%"));
}

#[test]
fn remove_preserves_empty_trailing_entry() {
    // A trailing ';' (empty entry) is preserved through an add/remove cycle.
    let original = "C:\\A;C:\\B;";
    let bin = "C:\\Ghost FTP\\bin";
    let added = add_dir(original, bin);
    assert_eq!(added, "C:\\A;C:\\B;;C:\\Ghost FTP\\bin");
    assert_eq!(remove_dir(&added, bin), original);
}

#[test]
fn marker_block_insert_and_remove_round_trip() {
    let begin = "# >>> ghostftp-cli PATH >>>";
    let end = "# <<< ghostftp-cli PATH <<<";
    let profile = "export EDITOR=vim\nalias ll='ls -la'\n";
    let body = "export PATH=\"$HOME/.local/bin:$PATH\"";

    let with = insert_marker_block(profile, begin, end, body);
    assert!(with.contains(begin) && with.contains(end) && with.contains(body));
    assert!(with.contains("export EDITOR=vim"));

    // Inserting again replaces (doesn't duplicate) the block.
    let with2 = insert_marker_block(&with, begin, end, body);
    assert_eq!(with2.matches(begin).count(), 1);

    // Removing restores the original untouched content.
    let without = remove_marker_block(&with, begin, end);
    assert_eq!(without, profile);
}

#[test]
fn remove_marker_block_absent_is_noop() {
    let begin = "# >>> ghostftp-cli PATH >>>";
    let end = "# <<< ghostftp-cli PATH <<<";
    let profile = "export EDITOR=vim\n";
    assert_eq!(remove_marker_block(profile, begin, end), profile);
}

#[test]
fn remove_leaves_carriage_returns_and_missing_newlines_alone() {
    assert_eq!(remove_marker_block("a\r\nb", "<<", ">>"), "a\r\nb");
    assert_eq!(remove_marker_block("a\r\n  <<  \nx\n>>\nb\r\n", "<<", ">>"), "a\r\nb\r\n");
}

#[test]
fn an_unclosed_block_runs_to_the_end() {
    assert_eq!(remove_marker_block("a\n<<\nb\nc\n", "<<", ">>"), "a\n");
}

#[test]
fn inserting_into_nothing_gives_the_block() {
    assert_eq!(insert_marker_block("", "<<", ">>", "x"), "<<\nx\n>>\n");
    assert_eq!(insert_marker_block("a\n\n", "<<", ">>", "x"), "a\n<<\nx\n>>\n");
}

#[test]
fn path_is_changed_only_where_needed() {
    let edit = path_add("", r"C:\bin");
    assert_eq!(edit.backup, None);
    assert_eq!(edit.next, Some(r"C:\bin".to_string()));
    let edit = path_add(r"C:\A", r"C:\bin");
    assert_eq!(edit.backup, Some(r"C:\A".to_string()));
    assert_eq!(edit.next, Some(r"C:\A;C:\bin".to_string()));
    assert_eq!(path_add(r"C:\A;C:\BIN\", r"C:\bin").next, None);
    assert_eq!(path_remove(r"C:\A;C:\bin", r"C:\bin"), Some(r"C:\A".to_string()));
    assert_eq!(path_remove(r"C:\A", r"C:\bin"), None);
}

#[test]
fn registry_values_are_utf16_with_a_terminator() {
    let value = make_value("a\u{e9}\u{1f600}", RegType::ExpandSz);
    assert_eq!(value.bytes, vec![0x61, 0, 0xe9, 0, 0x3d, 0xd8, 0x00, 0xde, 0, 0]);
    assert_eq!(value.vtype, RegType::ExpandSz);
    assert_eq!(make_value("", RegType::Sz).bytes, vec![0, 0]);
}

/// A value as the registry gives it back: its text and its type.
fn read_back(value: &RegValue) -> (String, RegType) {
    let units: Vec<u16> = value
        .bytes
        .chunks(2)
        .map(|pair| u16::from_le_bytes([pair[0], pair[1]]))
        .collect();
    let text = String::from_utf16(&units[..units.len() - 1]).unwrap();
    read_path(Some((text, value.vtype)))
}

#[test]
fn scratch_key_preserves_type_and_round_trips() {
    // Seed an expand-string value with an unexpanded %VAR% (like a real Path).
    let original = r"C:\Windows;%JAVA_HOME%\bin";
    let key = make_value(original, RegType::ExpandSz);

    // Read it back: value + type must survive.
    let (read, vtype) = read_back(&key);
    assert_eq!(read, original);
    assert_eq!(vtype, RegType::ExpandSz, "type must stay REG_EXPAND_SZ");

    // Add our bin dir, write with the SAME type, read back.
    let bin = r"C:\Ghost FTP\bin";
    let added = add_dir(&read, bin);
    let key = make_value(&added, vtype);
    let (after_add, vtype2) = read_back(&key);
    assert_eq!(after_add, format!("{original};{bin}"));
    assert_eq!(vtype2, RegType::ExpandSz, "type preserved after add");
    assert!(after_add.contains("%JAVA_HOME%"), "%VARS% stay unexpanded");

    // Re-add is a no-op (no duplicate).
    assert_eq!(add_dir(&after_add, bin), after_add);

    // Remove restores the value byte-for-byte, still expand-string.
    let removed = remove_dir(&after_add, bin);
    let key = make_value(&removed, vtype2);
    let (after_remove, vtype3) = read_back(&key);
    assert_eq!(after_remove, original, "remove is byte-identical");
    assert_eq!(vtype3, RegType::ExpandSz);
}

#[test]
fn registry_types_have_their_numbers() {
    assert_eq!(vtype_u32(RegType::Untyped), 0);
    assert_eq!(vtype_u32(RegType::Sz), 1);
    assert_eq!(vtype_u32(RegType::ExpandSz), 2);
    assert_eq!(vtype_u32(RegType::Binary), 3);
    assert_eq!(vtype_u32(RegType::Dword), 4);
    assert_eq!(vtype_u32(RegType::MultiSz), 7);
    assert_eq!(vtype_u32(RegType::Qword), 2);
    assert_eq!(read_path(None), (String::new(), RegType::ExpandSz));
    assert_eq!(
        read_path(Some(("x".to_string(), RegType::Sz))),
        ("x".to_string(), RegType::Sz)
    );
}

#[test]
fn the_tool_is_looked_up_in_order() {
    assert_eq!(cli_exe_name(true), "ghostftp-cli.exe");
    assert_eq!(cli_exe_name(false), "ghostftp-cli");
    let candidates = vec![
        ("/a/ghostftp-cli".to_string(), false),
        ("/b/ghostftp-cli".to_string(), true),
        ("/c/ghostftp-cli".to_string(), true),
    ];
    assert_eq!(cli_on_path(&candidates), Some("/b/ghostftp-cli".to_string()));
    assert_eq!(cli_on_path(&vec![]), None);
    let status = compute_status("/bin".to_string(), true, None, false);
    assert!(!status.on_path && status.bin_has_cli && !status.managed);
}

#[test]
fn the_link_points_to_what_is_there() {
    assert_eq!(
        link_target(Some("/usr/bin/x".to_string()), "/own".to_string(), true),
        Ok("/usr/bin/x".to_string())
    );
    assert_eq!(link_target(None, "/own".to_string(), true), Ok("/own".to_string()));
    assert_eq!(
        link_target(None, "/own".to_string(), false),
        Err("ghostftp-cli isn't installed yet — install it first".to_string())
    );
}

#[test]
fn profiles_go_by_the_shell() {
    assert_eq!(shell_profile("/bin/zsh"), ".zshrc");
    assert_eq!(shell_profile("/usr/bin/bash"), ".bashrc");
    assert_eq!(shell_profile("/bin/fish"), ".profile");
    assert_eq!(shell_profile(""), ".profile");
    assert!(local_bin_on_path("/usr/bin:/home/me/.local/bin/", "/home/me/.local/bin"));
    assert!(!local_bin_on_path("/usr/bin", "/home/me/.local/bin"));
}

#[test]
fn the_profile_line_comes_and_goes() {
    let with = profile_with_path("x=1\n", "/home/me/.local/bin");
    assert_eq!(
        with,
        "x=1\n# >>> ghostftp-cli PATH >>>\nexport PATH=\"/home/me/.local/bin:$PATH\"\n# <<< ghostftp-cli PATH <<<\n"
    );
    assert_eq!(profile_without_path(&with), Some("x=1\n".to_string()));
    assert_eq!(profile_without_path("x=1\n"), None);
    assert_eq!(linked_detail("/b", None), "Linked ghostftp-cli into /b.");
    assert_eq!(
        linked_detail("/b", Some("/p")),
        "Linked ghostftp-cli into /b and added it to /p. Open a new terminal (or `source` your profile) to pick it up."
    );
}
