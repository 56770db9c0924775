use ghostftp::connections::{load_profile, record_use, Purpose, Stage};
use ghostftp::error::ErrorKind;
use ghostftp::ids::fresh_id;
use ghostftp::profile_copies::{
    account_bound_message, duplicate_as, duplicate_profile, duplicate_source, free_copy_name,
};
use ghostftp::profile_store::{
    delete_profile, export_profiles, export_target, list_profiles, save_imported_profiles, save_profile,
    write_profile, Step, TokenService,
};
use ghostftp::profiles::{
    hydrate_profile_secrets, profile_key_passphrase_key, profile_password_key,
    protect_profile_secrets, secret_to_fetch, AuthMethod, ConnectionProfile, SecretEntry,
};

fn profile(id: &str, name: &str, protocol: &str, auth: AuthMethod) -> ConnectionProfile {
    ConnectionProfile {
        id: id.to_string(),
        name: name.to_string(),
        protocol: protocol.to_string(),
        host: "example.org".to_string(),
        port: 22,
        username: "me".to_string(),
        auth,
        default_remote_path: None,
        description: None,
        color: None,
        auto_connect: None,
        bucket: None,
        region: None,
        endpoint: None,
        account: None,
        agent_key: None,
        group: None,
        favorite: Some(true),
        bookmarked: None,
        tags: None,
        last_used: Some(5),
        sort_order: Some(3),
        icon: None,
        jump_host: None,
        jump_port: None,
        jump_username: None,
    }
}

fn password(text: &str) -> AuthMethod {
    AuthMethod::Password {
        password: text.to_string(),
    }
}

fn key_file(path: &str, passphrase: Option<&str>) -> AuthMethod {
    AuthMethod::Key {
        path: path.to_string(),
        passphrase: passphrase.map(|p| p.to_string()),
    }
}

fn key_ref(name: &str) -> AuthMethod {
    AuthMethod::KeyRef {
        key_ref: name.to_string(),
    }
}

fn store(key: &str, value: &str) -> Step {
    Step::Store(SecretEntry {
        key: key.to_string(),
        value: value.to_string(),
    })
}

fn record(key: &str) -> Step {
    Step::Record(key.to_string())
}

fn forget(key: &str) -> Step {
    Step::Forget(key.to_string())
}

#[test]
fn secrets_have_names_of_their_own() {
    assert_eq!(profile_password_key("7"), "profile-password:7");
    assert_eq!(profile_key_passphrase_key("7"), "profile-key-passphrase:7");
}

#[test]
fn protecting_moves_the_secret_out() {
    let p = protect_profile_secrets(profile("7", "n", "sftp", password("hush")));
    assert_eq!(p.profile, profile("7", "n", "sftp", password("")));
    assert_eq!(
        p.secret,
        Some(SecretEntry {
            key: "profile-password:7".to_string(),
            value: "hush".to_string()
        })
    );
    let p = protect_profile_secrets(profile("7", "n", "sftp", key_file("/k", Some("hush"))));
    assert_eq!(p.profile, profile("7", "n", "sftp", key_file("/k", None)));
    assert_eq!(p.secret.unwrap().key, "profile-key-passphrase:7");
    for auth in [password(""), key_file("/k", None), key_file("/k", Some("")), AuthMethod::Agent] {
        assert!(protect_profile_secrets(profile("7", "n", "sftp", auth)).secret.is_none());
    }
    assert!(protect_profile_secrets(profile("7", "n", "sftp", key_ref("r"))).secret.is_none());
}

#[test]
fn hydrating_undoes_protecting() {
    for auth in [password("hush"), key_file("/k", Some("hush"))] {
        let p = protect_profile_secrets(profile("7", "n", "sftp", auth));
        let entry = p.secret.unwrap();
        assert_eq!(secret_to_fetch(&p.profile), Some(entry.key));
        let back = hydrate_profile_secrets(p.profile, Some(entry.value));
        assert!(match back.auth {
            AuthMethod::Password { password } => password == "hush",
            AuthMethod::Key { passphrase, .. } => passphrase == Some("hush".to_string()),
            _ => false,
        });
    }
}

#[test]
fn a_given_secret_is_not_overwritten() {
    let p = profile("7", "n", "sftp", password("mine"));
    assert_eq!(secret_to_fetch(&p), None);
    let p = hydrate_profile_secrets(p, Some("other".to_string()));
    assert_eq!(p.auth, password("mine"));
    let p = hydrate_profile_secrets(profile("7", "n", "sftp", AuthMethod::Agent), None);
    assert_eq!(p.auth, AuthMethod::Agent);
}

#[test]
fn saving_stores_writes_and_only_then_forgets() {
    let plan = save_profile(&None, profile("7", "n", "sftp", password("hush")));
    assert_eq!(plan.profile.auth, password(""));
    assert_eq!(
        plan.steps,
        vec![
            store("profile-password:7", "hush"), record("profile-password:7"),
            Step::Write,
            forget("profile-key-passphrase:7")
        ]
    );
    let plan = save_profile(&None, profile("7", "n", "sftp", AuthMethod::Agent));
    assert_eq!(
        plan.steps,
        vec![
            Step::Write,
            forget("profile-password:7"),
            forget("profile-key-passphrase:7")
        ]
    );
}

#[test]
fn a_changed_key_file_loses_the_old_passphrase() {
    let old = Some(profile("7", "n", "sftp", key_file("/old", None)));
    let plan = save_profile(&old, profile("7", "n", "sftp", key_file("/new", None)));
    assert_eq!(
        plan.steps,
        vec![
            Step::Write,
            forget("profile-password:7"),
            forget("profile-key-passphrase:7")
        ]
    );
    let plan = save_profile(&old, profile("7", "n", "sftp", key_file("/old", None)));
    assert_eq!(plan.steps, vec![Step::Write, forget("profile-password:7")]);
    let plan = save_profile(&old, profile("7", "n", "sftp", key_file("/new", Some("hush"))));
    assert_eq!(
        plan.steps,
        vec![
            store("profile-key-passphrase:7", "hush"), record("profile-key-passphrase:7"),
            Step::Write,
            forget("profile-password:7")
        ]
    );
}

#[test]
fn listing_takes_secrets_out_of_old_rows() {
    let plans = list_profiles(vec![
        profile("1", "a", "sftp", password("hush")),
        profile("2", "b", "sftp", AuthMethod::Agent),
    ]);
    assert_eq!(plans.len(), 2);
    assert_eq!(plans[0].steps, vec![store("profile-password:1", "hush"), record("profile-password:1"), Step::Write]);
    assert_eq!(plans[0].profile.auth, password(""));
    assert!(plans[1].steps.is_empty());
}

#[test]
fn imported_profiles_are_all_written() {
    let plans = save_imported_profiles(vec![
        profile("1", "a", "sftp", password("hush")),
        profile("2", "b", "sftp", AuthMethod::Agent),
    ]);
    assert_eq!(plans[0].steps, vec![store("profile-password:1", "hush"), record("profile-password:1"), Step::Write]);
    assert_eq!(plans[1].steps, vec![Step::Write]);
    assert_eq!(
        write_profile(profile("2", "b", "sftp", AuthMethod::Agent)).steps,
        vec![Step::Write]
    );
}

#[test]
fn exports_need_a_file() {
    let refused = Err("export destination must identify a file".to_string());
    for path in ["/tmp/x.json", "x", "a/b/", "a/."] {
        assert_eq!(export_profiles(path), Ok(()));
    }
    for path in ["", "  ", "/", "///", "/.", "..", "a/..", "."] {
        assert_eq!(export_profiles(path), refused);
    }
    assert_eq!(export_target("x", true), Ok(()));
    assert_eq!(export_target("x", false), refused);
    assert_eq!(export_target(" ", true), refused);
}

#[test]
fn deleting_removes_metadata_first() {
    let kept = ["profile-password:7", "profile-key-passphrase:7"];
    let ends = |steps: &Vec<Step>| {
        steps[0] == Step::Remove
            && steps[steps.len() - 2] == forget(kept[0])
            && steps[steps.len() - 1] == forget(kept[1])
    };
    for (protocol, step) in [
        ("dropbox", Step::DropTokens(TokenService::Dropbox)),
        ("onedrive", Step::DropTokens(TokenService::OneDrive)),
        ("gdrive", Step::DropTokens(TokenService::GDrive)),
        ("box", Step::DropTokens(TokenService::Box)),
        ("shopify", Step::DropShopifyCredential),
    ] {
        let steps = delete_profile("7", &Some(profile("7", "n", protocol, password(""))));
        assert_eq!(steps.len(), 4);
        assert_eq!(steps[1], step);
        assert!(ends(&steps));
    }
    let steps = delete_profile("7", &Some(profile("7", "n", "sftp", key_ref("grant-key:7"))));
    assert_eq!(steps.len(), 4);
    assert_eq!(steps[1], forget("grant-key:7"));
    assert!(ends(&steps));
    assert_eq!(delete_profile("7", &None).len(), 3);
}

#[test]
fn only_profiles_that_log_in_by_themselves_are_copied() {
    assert_eq!(
        duplicate_source("9", None),
        Err("profile 9 not found".to_string())
    );
    assert_eq!(
        duplicate_source("7", Some(profile("7", "n", "dropbox", password("")))),
        Err("Duplicate is not available for DROPBOX profiles because their authorization is account-bound. Create a new profile instead.".to_string())
    );
    assert_eq!(
        account_bound_message("BOX"),
        "Duplicate is not available for BOX profiles because their authorization is account-bound. Create a new profile instead."
    );
    assert_eq!(
        duplicate_source("7", Some(profile("7", "n", "ssh", key_ref("r")))),
        Err("Duplicate is not available for grant-managed key profiles. Import or grant a separate profile instead.".to_string())
    );
    for protocol in ["sftp", "ssh", "ftp", "ftps"] {
        assert!(duplicate_source("7", Some(profile("7", "n", protocol, password("")))).is_ok());
    }
}

#[test]
fn copies_get_the_first_free_name() {
    let names = |list: &[&str]| list.iter().map(|n| n.to_string()).collect::<Vec<String>>();
    assert_eq!(free_copy_name(&names(&[]), "Web"), "Web Copy");
    assert_eq!(free_copy_name(&names(&["web copy"]), "Web"), "Web Copy 2");
    assert_eq!(
        free_copy_name(&names(&["WEB COPY 2", "Web Copy", "Web Copy 4"]), "Web"),
        "Web Copy 3"
    );
}

#[test]
fn a_copy_keeps_its_secret_under_its_own_id() {
    let copy = duplicate_as(
        profile("7", "Web", "sftp", password("hush")),
        &vec!["Web".to_string()],
        "8".to_string(),
    );
    assert_eq!(copy.plan.profile.id, "8");
    assert_eq!(copy.plan.profile.name, "Web Copy");
    assert_eq!(copy.plan.profile.last_used, None);
    assert_eq!(copy.plan.profile.sort_order, None);
    assert_eq!(copy.plan.profile.favorite, Some(false));
    assert_eq!(copy.plan.steps, vec![store("profile-password:8", "hush"), record("profile-password:8"), Step::Write]);
    assert_eq!(
        copy.undo,
        vec![forget("profile-password:8"), forget("profile-key-passphrase:8")]
    );
}

#[test]
fn fresh_ids_are_random_uuids() {
    let a = fresh_id();
    let b = fresh_id();
    assert_ne!(a, b);
    for id in [&a, &b] {
        assert_eq!(id.len(), 36);
        for (i, c) in id.chars().enumerate() {
            match i {
                8 | 13 | 18 | 23 => assert_eq!(c, '-'),
                14 => assert_eq!(c, '4'),
                19 => assert!("89ab".contains(c)),
                _ => assert!(c.is_ascii_digit() || ('a'..='f').contains(&c)),
            }
        }
    }
    let copy = duplicate_profile(profile("7", "Web", "sftp", password("")), &vec![]);
    assert_eq!(copy.plan.profile.id.len(), 36);
    assert_ne!(copy.plan.profile.id, "7");
}

#[test]
fn a_missing_profile_is_not_found() {
    let e = load_profile("9", None).unwrap_err();
    assert_eq!(e.kind, ErrorKind::NotFound);
    assert_eq!(e.message, "profile 9 not found");
    assert!(load_profile("7", Some(profile("7", "n", "sftp", password("")))).is_ok());
}

#[test]
fn a_use_is_recorded_without_the_secret() {
    let plan = record_use(profile("7", "n", "sftp", password("hush")), Some(99));
    assert_eq!(plan.profile.last_used, Some(99));
    assert_eq!(plan.profile.auth, password(""));
    assert_eq!(plan.steps, vec![store("profile-password:7", "hush"), record("profile-password:7"), Step::Write]);
}

#[test]
fn a_connection_goes_through_its_stages() {
    let ok = || Ok(());
    let no = || Err("no".to_string());
    let p = Purpose::Use;
    let s = Stage::start(p);
    assert_eq!(s, Stage::Fetching);
    let s = s.next(p, ok());
    assert_eq!(s, Stage::Opening);
    let s = s.next(p, ok());
    assert_eq!(s, Stage::Storing);
    let s = s.next(p, ok());
    assert_eq!(s, Stage::Writing);
    let s = s.next(p, ok());
    assert_eq!(s, Stage::Announcing);
    assert_eq!(s.next(p, ok()), Stage::Finished);

    assert_eq!(Stage::Fetching.next(p, no()), Stage::Failed("no".to_string()));
    assert_eq!(Stage::Opening.next(p, no()), Stage::Failed("no".to_string()));
    assert_eq!(Stage::Storing.next(p, no()), Stage::Failed("no".to_string()));
    let closing = Stage::Writing.next(p, no());
    assert_eq!(closing, Stage::Closing("no".to_string()));
    assert_eq!(closing.next(p, ok()), Stage::Failed("no".to_string()));

    assert_eq!(Stage::start(Purpose::Probe), Stage::Fetching);
    assert_eq!(Stage::Opening.next(Purpose::Probe, ok()), Stage::Leaving);
    assert_eq!(Stage::Leaving.next(Purpose::Probe, no()), Stage::Finished);
    assert_eq!(Stage::start(Purpose::QuickUse), Stage::Opening);
    assert_eq!(Stage::Opening.next(Purpose::QuickUse, ok()), Stage::Announcing);
    assert_eq!(Stage::Opening.next(Purpose::QuickProbe, ok()), Stage::Leaving);
}
