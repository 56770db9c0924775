use ghostftp::cli::{is_collapsed_windows_path, is_windows_drive_path, parse_semver};
use ghostftp::known_hosts::{append, rewrite_matching_lines, HostKey};
use ghostftp::marker::{insert_marker_block, remove_marker_block};
use ghostftp::path_list::{add_dir, contains_dir, normalize_entry, remove_dir};
use ghostftp::profile_copies::duplicate_as;
use ghostftp::profile_store::{delete_profile, save_profile, Step};
use ghostftp::profiles::{
    hydrate_profile_secrets, protect_profile_secrets, secret_to_fetch, AuthMethod,
    ConnectionProfile,
};
use ghostftp::recovery::quarantine_files;
use ghostftp::remote_paths::{copy_name, export_attempt, export_name, split_remote};
use ghostftp::rollback::{FileAction, Rollback};
use ghostftp::step_run::StepRun;
use std::collections::{BTreeMap, BTreeSet};

fn profile(id: &str, auth: AuthMethod) -> ConnectionProfile {
    ConnectionProfile {
        id: id.to_string(),
        name: "Web".to_string(),
        protocol: "sftp".to_string(),
        host: "example.org".to_string(),
        port: 22,
        username: "me".to_string(),
        auth,
        default_remote_path: None,
        description: None,
        color: None,
        auto_connect: None,
        bucket: None,
        region: None,
        endpoint: None,
        account: None,
        agent_key: None,
        group: None,
        favorite: None,
        bookmarked: None,
        tags: None,
        last_used: None,
        sort_order: None,
        icon: None,
        jump_host: None,
        jump_port: None,
        jump_username: None,
    }
}

fn password(text: &str) -> AuthMethod {
    AuthMethod::Password {
        password: text.to_string(),
    }
}

fn key_file(path: &str, passphrase: Option<&str>) -> AuthMethod {
    AuthMethod::Key {
        path: path.to_string(),
        passphrase: passphrase.map(|p| p.to_string()),
    }
}

/// Performs the steps; writing and removing metadata works or not.
fn perform(
    secrets: &mut BTreeMap<String, String>,
    steps: &Vec<Step>,
    undo: &Vec<Step>,
    metadata_works: bool,
) -> StepRun {
    let mut run = StepRun::start(steps);
    while let Some(step) = run.action(steps, undo) {
        let mut outcome = Ok(());
        match step {
            Step::Store(entry) => {
                secrets.insert(entry.key.clone(), entry.value.clone());
            }
            Step::Write | Step::Remove if !metadata_works => outcome = Err("full".to_string()),
            Step::Forget(key) => {
                secrets.remove(key);
            }
            _ => {}
        }
        run = run.next(steps, undo, outcome);
    }
    run
}

fn stored(pairs: &[(&str, &str)]) -> BTreeMap<String, String> {
    pairs.iter().map(|(k, v)| (k.to_string(), v.to_string())).collect()
}

#[test]
fn a_saved_profile_logs_in_with_what_it_was_saved_with() {
    for old in [None, Some(profile("7", AuthMethod::Agent))] {
        for fresh in [|| password("hush"), || key_file("/k", Some("hush"))] {
            let mut secrets = stored(&[("profile-password:8", "other")]);
            let plan = save_profile(&old, profile("7", fresh()));
            perform(&mut secrets, &plan.steps, &vec![], true);
            let key = secret_to_fetch(&plan.profile).unwrap();
            let back = hydrate_profile_secrets(plan.profile, secrets.get(&key).cloned());
            assert_eq!(back.auth, fresh());
            assert_eq!(secrets.get("profile-password:8"), Some(&"other".to_string()));
        }
    }
}

#[test]
fn saving_without_the_secret_keeps_the_stored_one() {
    let mut secrets = stored(&[("profile-key-passphrase:7", "hush")]);
    let old = Some(profile("7", key_file("/k", None)));
    let plan = save_profile(&old, profile("7", key_file("/k", None)));
    perform(&mut secrets, &plan.steps, &vec![], true);
    assert_eq!(secrets.len(), 1);
    let plan = save_profile(&old, profile("7", key_file("/other", None)));
    perform(&mut secrets, &plan.steps, &vec![], true);
    assert!(secrets.is_empty());
}

#[test]
fn a_failed_save_removes_no_secret() {
    let all = [("profile-password:7", "a"), ("profile-key-passphrase:7", "b")];
    for auth in [AuthMethod::Agent, password("new"), key_file("/k", None)] {
        let mut secrets = stored(&all);
        let plan = save_profile(&None, profile("7", auth));
        let run = perform(&mut secrets, &plan.steps, &vec![], false);
        assert_eq!(run, StepRun::Failed("full".to_string()));
        assert_eq!(secrets.len(), 2);
    }
}

#[test]
fn deleting_leaves_no_secret() {
    let mut secrets = stored(&[
        ("profile-password:7", "a"),
        ("profile-key-passphrase:7", "b"),
        ("profile-password:8", "c"),
    ]);
    let before = secrets.clone();
    let run = perform(&mut secrets, &delete_profile("7", &None), &vec![], false);
    assert_eq!(run, StepRun::Failed("full".to_string()));
    assert_eq!(secrets, before);
    let run = perform(&mut secrets, &delete_profile("7", &None), &vec![], true);
    assert_eq!(run, StepRun::Done);
    assert_eq!(secrets, stored(&[("profile-password:8", "c")]));
}

#[test]
fn a_failed_copy_leaves_its_source_alone() {
    let before = stored(&[("profile-password:7", "hush")]);
    let mut secrets = before.clone();
    let copy = duplicate_as(profile("7", password("hush")), &vec![], "8".to_string());
    let run = perform(&mut secrets, &copy.plan.steps, &copy.undo, false);
    assert_eq!(run, StepRun::Failed("full".to_string()));
    assert_eq!(secrets, before);
    let run = perform(&mut secrets, &copy.plan.steps, &copy.undo, true);
    assert_eq!(run, StepRun::Done);
    assert_eq!(secrets.len(), 2);
}

#[test]
fn protecting_twice_is_protecting_once() {
    let once = protect_profile_secrets(profile("7", key_file("/k", Some("hush")))).profile;
    let twice = protect_profile_secrets(once);
    assert!(twice.secret.is_none());
    assert_eq!(twice.profile, profile("7", key_file("/k", None)));
}

/// The files that take part in a replacement.
#[derive(Default)]
struct Files {
    original: Option<&'static str>,
    temp: Option<&'static str>,
    backup: Option<&'static str>,
}

impl Files {
    fn apply(&mut self, action: FileAction) {
        match action {
            FileAction::CreateTemp => self.temp = Some(""),
            FileAction::WriteTemp => self.temp = Some("new"),
            FileAction::MoveOriginalAside => self.backup = self.original.take(),
            FileAction::Install => self.original = self.temp.take(),
            FileAction::Restore => self.original = self.backup.take(),
            FileAction::RemoveTemp => self.temp = None,
            FileAction::RemoveBackup => self.backup = None,
            _ => {}
        }
    }
}

#[test]
fn the_original_survives_every_failure() {
    // Each number is a set of steps that fail, by their position in the run.
    for failing in 0..4096u32 {
        let mut files = Files {
            original: Some("old"),
            ..Files::default()
        };
        let mut state = Rollback::start();
        let mut position = 0;
        while let Some(action) = state.action() {
            let works = failing & (1 << position) == 0;
            if works {
                files.apply(action);
            }
            state = state.next(if works { Ok(()) } else { Err("no".to_string()) }, true);
            position += 1;
            assert!(position <= 12);
        }
        match state {
            Rollback::Done => assert_eq!(files.original, Some("new")),
            _ => assert!(
                files.original == Some("old")
                    || files.original == Some("new")
                    || files.backup == Some("old")
            ),
        }
    }
}

#[test]
fn an_entry_is_one_row_of_its_own() {
    let key = HostKey {
        algorithm: "ssh-ed25519".to_string(),
        base64: "YWJj".to_string(),
        blob: b"abc".to_vec(),
    };
    let entry = append("host", 2022, &key);
    assert_eq!(entry.lines().count(), 1);
    assert!(entry.ends_with('\n'));
    let rewritten =
        rewrite_matching_lines("a\nb\nc", &BTreeSet::from([2usize, 3usize]), &entry).unwrap();
    assert_eq!(rewritten.lines().collect::<Vec<&str>>(), ["a", entry.trim_end()]);
}

#[test]
fn blocks_are_removed_once_and_for_all() {
    let with = insert_marker_block("a\n", "<<", ">>", "x");
    let gone = remove_marker_block(&with, "<<", ">>");
    assert_eq!(gone, "a\n");
    assert_eq!(remove_marker_block(&gone, "<<", ">>"), gone);
    assert_eq!(
        insert_marker_block(&with, "<<", ">>", "y"),
        insert_marker_block("a\n", "<<", ">>", "y")
    );
}

#[test]
fn entries_compare_whatever_their_case_slashes_and_spelling() {
    assert_eq!(normalize_entry("C:\\Bin\\"), normalize_entry("c:/bin"));
    assert!(contains_dir("C:/Users/Me/Bin/", "c:\\users\\me\\bin"));
    let value = "C:\\A;C:\\Bin;c:/bin/;D:\\B";
    let removed = remove_dir(value, "C:\\BIN");
    assert_eq!(removed, "C:\\A;D:\\B");
    assert!(!contains_dir(&removed, "C:\\Bin"));
    assert!(contains_dir(&add_dir(&removed, "C:\\Bin"), "C:\\Bin"));
}

#[test]
fn copies_and_exports_have_names_of_their_own() {
    let copies: BTreeSet<String> = (1..=30).map(|n| copy_name("a.txt", n)).collect();
    assert_eq!(copies.len(), 30);
    assert!(!copies.contains("a.txt"));
    let exports: BTreeSet<String> = (0..30).map(|n| export_attempt("a.txt", n)).collect();
    assert_eq!(exports.len(), 30);
    assert!(exports.iter().all(|e| !e.contains('/') && !e.contains('\\')));
    assert!(!export_name("/\\a/").contains(['/', '\\']));
    let (parent, name) = split_remote("/a/b/c");
    assert_eq!(format!("{parent}/{name}"), "/a/b/c");
}

#[test]
fn recoveries_do_not_collide() {
    let first = quarantine_files("db", Some(1));
    let second = quarantine_files("db", Some(2));
    let all: BTreeSet<&String> = first.iter().chain(&second).map(|m| &m.to).collect();
    assert_eq!(all.len(), 6);
    assert!(first.iter().all(|m| !all.contains(&m.from)));
}

#[test]
fn versions_ignore_metadata_and_fill_up() {
    assert_eq!(parse_semver("1.2.3-x+y"), parse_semver("1.2.3"));
    assert_eq!(parse_semver("4"), parse_semver("4.0.0"));
    for path in ["C:/x", "C:x", "x", "/C:x", "C:"] {
        assert!(!(is_windows_drive_path(path) && is_collapsed_windows_path(path)));
    }
}

#[test]
fn a_step_that_must_succeed_ends_the_command() {
    let plan = save_profile(&None, profile("7", password("hush")));
    let none = vec![];
    let no = || Err("no".to_string());
    let failed = StepRun::Failed("no".to_string());
    assert_eq!(StepRun::start(&plan.steps).next(&plan.steps, &none, no()), failed);
    let recording = StepRun::start(&plan.steps).next(&plan.steps, &none, Ok(()));
    assert_eq!(recording, StepRun::At(1));
    assert_eq!(recording.next(&plan.steps, &none, no()), failed);
    assert_eq!(StepRun::At(2).next(&plan.steps, &none, no()), failed);
    // Forgetting is best-effort.
    assert_eq!(StepRun::At(3).next(&plan.steps, &none, no()), StepRun::Done);
    assert_eq!(StepRun::start(&none), StepRun::Done);
}
