use ghostftp::agents::{
    discover_agents, pair_agent, pairing_host, Discovered, PairOutcome, PinnedKey, SystemInfo,
};
use ghostftp::bridge::{
    bridge_register_mcp, bridge_run_skill, mcp_client, skill_outcome, McpClient, Registration, RunOutcome,
};
use ghostftp::cloud::{
    authorized, box_authorize, dropbox_authorize, dynamics_authorize, dynamics_host,
    gdrive_authorize, onedrive_authorize, Authorizing, CloudAction, CloudService,
};
use ghostftp::external_url::{
    approve_url, browser_command, browser_failed, open_external_url, ParsedUrl, Platform,
};
use ghostftp::importers::{import_filezilla, import_openssh, importer_default_paths};
use ghostftp::profiles::AuthMethod;
use ghostftp::recovery::{quarantine_files, DbOpening};
use ghostftp::rollback::{
    backup_name, sibling_names, temp_name, FileAction, FileNames, Rollback, RollbackError,
};
use ghostftp::sync::{
    execute_sync_plan, OverwritePolicy, SyncAction, SyncCopy, SyncDelete, SyncDirection, SyncPlan,
    SyncReply, SyncRun,
};
use ghostftp::text::{is_whitespace, leading_word, trim};
use ghostftp::transfers::{
    set_api_key, snippet_save, transfer_move, transfer_set_concurrency, transfer_set_max_retries,
    ManifestChange,
};
use ghostftp::uninstall::{
    desktop_shortcut, powershell_args, powershell_missing, powershell_path,
    run_uninstaller_if_requested, start_menu_application, start_menu_uninstaller, uninstall_failed,
    uninstall_script, windows_dir, Installation, StartMenu, Uninstall,
};

fn text(s: &str) -> String {
    s.to_string()
}

#[test]
fn white_space_is_what_unicode_says() {
    for code in 0..=0x10ffffu32 {
        if let Some(c) = char::from_u32(code) {
            assert_eq!(is_whitespace(c), c.is_whitespace());
        }
    }
    assert_eq!(trim(" \u{3000}a b\t"), "a b");
    assert_eq!(leading_word("  ab cd"), "ab");
    assert_eq!(leading_word("  "), "");
}

#[test]
fn probes_reach_the_right_service() {
    for (start, service, protocol, host) in [
        (dropbox_authorize(text("7")), CloudService::Dropbox, "dropbox", "dropbox.com"),
        (onedrive_authorize(text("7")), CloudService::OneDrive, "onedrive", "onedrive.com"),
        (gdrive_authorize(text("7")), CloudService::GDrive, "gdrive", "drive.google.com"),
        (box_authorize(text("7")), CloudService::Box, "box", "box.com"),
        (
            dynamics_authorize(text("7"), " https://org.crm.dynamics.com/ "),
            CloudService::Dynamics,
            "dynamics",
            "org.crm.dynamics.com",
        ),
    ] {
        assert_eq!(start.stage, Authorizing::Authorize);
        assert_eq!(start.service, service);
        let probe = &start.probe;
        assert_eq!(probe.id, "7");
        assert_eq!(probe.protocol, protocol);
        assert_eq!(probe.host, host);
        assert_eq!(probe.port, 443);
        assert_eq!(probe.name, "");
        assert_eq!(probe.username, "");
        assert_eq!(probe.auth, AuthMethod::Password { password: text("") });
        assert_eq!(probe.last_used, None);
        assert_eq!(start.action(), CloudAction::Authorize { service, host });
        let stored = start.next(Ok(None));
        assert_eq!(stored.action(), CloudAction::Store { service, profile_id: "7" });
        let probed = stored.next(Ok(None));
        assert!(matches!(probed.action(), CloudAction::Probe(p) if p.host == host));
    }
    assert_eq!(authorized(Some(text("me"))).account_label, "me");
    assert_eq!(authorized(None).account_label, "");
}

#[test]
fn an_authorization_fails_where_authorizing_or_storing_fails() {
    let start = || dynamics_authorize(text("7"), "org");
    let no = |e: &str| Err::<Option<String>, String>(text(e));
    assert_eq!(start().next(no("cancelled")).action(), CloudAction::Failed("cancelled"));
    let store = || start().next(Ok(None));
    assert_eq!(store().next(no("locked")).action(), CloudAction::Failed("locked"));
    let probe = || store().next(Ok(None));
    for (fetched, label) in [(Ok(Some(text("me"))), "me"), (Ok(None), ""), (no("offline"), "")] {
        let result = authorized(Some(text(label)));
        assert_eq!(probe().next(fetched).action(), CloudAction::Done(&result));
    }
}

#[test]
fn environment_hosts_lose_scheme_and_slashes() {
    assert_eq!(dynamics_host("org.crm.dynamics.com"), "org.crm.dynamics.com");
    assert_eq!(dynamics_host("https://https://org//"), "org");
    assert_eq!(dynamics_host("https://http://org"), "org");
    assert_eq!(dynamics_host("http://https://org"), "https://org");
    assert_eq!(dynamics_host("https://"), "");
    assert_eq!(dynamics_host(&format!("{}org", "https://".repeat(1000))), "org");
}

#[test]
fn discovered_machines_know_their_profile() {
    let found = vec![
        Discovered { fingerprint: text("aa") },
        Discovered { fingerprint: text("bb") },
    ];
    let pin = |id: &str, fingerprint: Option<&str>| PinnedKey {
        profile_id: text(id),
        fingerprint: fingerprint.map(|f| f.to_string()),
    };
    let agents = discover_agents(found, &vec![pin("1", Some("bb")), pin("2", None), pin("3", Some("bb"))]);
    assert_eq!(agents[0].agent.fingerprint, "aa");
    assert_eq!(agents[0].paired_profile_id, None);
    assert_eq!(agents[1].paired_profile_id, Some(text("3")));
}

#[test]
fn pairing_shows_the_machine() {
    assert_eq!(pairing_host(" host "), "host");
    let r = pair_agent(PairOutcome {
        server_key: text("k"),
        fingerprint: text("f"),
        system_info: SystemInfo {
            hostname: text("h"),
            os: text("o"),
        },
    });
    assert_eq!((&r.server_key[..], &r.fingerprint[..]), ("k", "f"));
    assert_eq!((&r.hostname[..], &r.os[..]), ("h", "o"));
}

#[test]
fn a_skill_fails_with_the_error_of_its_reply() {
    assert_eq!(bridge_run_skill(200, "{\"error\":\"x\"}"), Ok(()));
    assert_eq!(bridge_run_skill(404, "{\"error\":\"unknown\"}"), Err(text("unknown")));
    assert_eq!(bridge_run_skill(500, "{\"error\":3}"), Err(text("skill run failed")));
    assert_eq!(bridge_run_skill(500, "oops"), Err(text("skill run failed")));
    assert_eq!(skill_outcome(400, Some(text("no"))), Err(text("no")));
    assert_eq!(skill_outcome(400, None), Err(text("skill run failed")));
}

#[test]
fn the_bridge_is_registered_with_the_first_program_that_works() {
    assert_eq!(
        bridge_register_mcp("http://x", "t"),
        vec![
            "mcp", "add", "--transport", "http", "ghostftp", "http://x", "--header",
            "Authorization: Bearer t"
        ]
    );
    let client = mcp_client("Agent", "agent", true);
    assert_eq!(
        client,
        McpClient {
            product: text("Agent"),
            programs: vec![text("agent.exe"), text("agent")],
        }
    );
    assert_eq!(mcp_client("Agent", "agent", false).programs, vec!["agent"]);
    let failed = RunOutcome::Exited {
        status: text("exit code: 1"),
        stderr: text("bad"),
    };
    let start = || Registration::start(&client);
    assert_eq!(start(), Registration::Try(0));
    assert_eq!(
        start().next(&client, &RunOutcome::Succeeded),
        Registration::Registered(text(
            "Ghost FTP MCP server registered as 'ghostftp'. Agent can now use it."
        ))
    );
    let missing = RunOutcome::NotRun(text("missing"));
    assert_eq!(start().next(&client, &missing), Registration::Try(1));
    assert_eq!(
        start().next(&client, &missing).next(&client, &RunOutcome::Succeeded),
        Registration::Registered(text(
            "Ghost FTP MCP server registered as 'ghostftp'. Agent can now use it."
        ))
    );
    assert_eq!(
        start().next(&client, &missing).next(&client, &missing),
        Registration::Failed(text("couldn't run agent: missing"))
    );
    let second = start().next(&client, &failed);
    assert_eq!(second, Registration::Try(1));
    assert_eq!(
        second.next(&client, &failed),
        Registration::Failed(text(
            "Couldn't register the MCP server automatically. Make sure Agent is installed and on your PATH. agent exited with exit code: 1: bad"
        ))
    );
    let nobody = McpClient {
        product: text("Agent"),
        programs: vec![],
    };
    assert_eq!(
        Registration::start(&nobody),
        Registration::Failed(text(
            "Couldn't register the MCP server automatically. Make sure Agent is installed and on your PATH. "
        ))
    );
}

#[test]
fn only_our_https_links_are_opened() {
    assert_eq!(
        open_external_url("https://GhostFTP.com"),
        Ok(text("https://ghostftp.com/"))
    );
    assert_eq!(
        open_external_url("https://docs.ghostftp.com/a b"),
        Ok(text("https://docs.ghostftp.com/a%20b"))
    );
    let refused = Err(text("Ghost FTP only opens approved ghostftp.com HTTPS links"));
    assert_eq!(open_external_url("http://ghostftp.com"), refused);
    assert_eq!(open_external_url("https://evilghostftp.com"), refused);
    assert_eq!(open_external_url("https://ghostftp.com.evil.org"), refused);
    assert_eq!(open_external_url("mailto:me@ghostftp.com"), refused);
    assert_eq!(open_external_url("not a url"), Err(text("Invalid external URL")));
    assert_eq!(approve_url(None), Err(text("Invalid external URL")));
    let url = |scheme: &str, host: Option<&str>| {
        approve_url(Some(ParsedUrl {
            scheme: text(scheme),
            host: host.map(|h| h.to_string()),
            text: text("T"),
        }))
    };
    assert_eq!(url("https", Some("GHOSTFTP.com")), Ok(text("T")));
    assert_eq!(url("https", Some(".ghostftp.com")), Ok(text("T")));
    assert_eq!(url("https", None), refused);
    assert_eq!(url("ftp", Some("ghostftp.com")), refused);
}

#[test]
fn each_platform_has_its_browser_command() {
    let command = |platform: Platform| {
        let c = browser_command(platform, "U").unwrap();
        (c.program, c.args)
    };
    assert_eq!(
        command(Platform::Windows),
        (text("rundll32.exe"), vec![text("url.dll,FileProtocolHandler"), text("U")])
    );
    assert_eq!(command(Platform::Linux), (text("xdg-open"), vec![text("U")]));
    assert_eq!(command(Platform::MacOs), (text("open"), vec![text("U")]));
    assert_eq!(
        browser_command(Platform::Other, "U"),
        Err(text("Opening external links is unsupported on this platform"))
    );
    assert_eq!(browser_failed("x"), "Could not open the default browser: x");
}

#[test]
fn imports_prefer_the_given_path() {
    assert_eq!(import_openssh(Some(text("a")), Some(text("b"))), Ok(text("a")));
    assert_eq!(import_openssh(None, Some(text("b"))), Ok(text("b")));
    assert_eq!(
        import_openssh(None, None),
        Err(text("could not determine ~/.ssh/config location"))
    );
    assert_eq!(import_filezilla(None, Some(text("b"))), Ok(text("b")));
    assert_eq!(
        import_filezilla(None, None),
        Err(text("could not determine FileZilla sitemanager.xml location"))
    );
    let paths = importer_default_paths(Some(text("o")), None, Some(text("p")));
    assert_eq!((paths.openssh, paths.filezilla, paths.putty), (Some(text("o")), None, Some(text("p"))));
}

#[test]
fn a_broken_database_is_set_aside_once() {
    let moves = quarantine_files("/d/ghostftp.db", Some(12));
    let pairs: Vec<(&str, &str)> = moves.iter().map(|m| (&m.from[..], &m.to[..])).collect();
    assert_eq!(
        pairs,
        vec![
            ("/d/ghostftp.db", "/d/ghostftp.db.corrupt.12"),
            ("/d/ghostftp.db-wal", "/d/ghostftp.db.corrupt.12-wal"),
            ("/d/ghostftp.db-shm", "/d/ghostftp.db.corrupt.12-shm"),
        ]
    );
    assert_eq!(quarantine_files("x", None)[0].to, "x.corrupt.0");
    assert_eq!(DbOpening::First.next(Ok(())), DbOpening::Opened);
    let retry = DbOpening::First.next(Err(text("a")));
    assert_eq!(retry, DbOpening::Retry(text("a")));
    assert_eq!(
        retry.next(Err(text("b"))),
        DbOpening::Failed(text("ghostftp.db recovery failed after initial error: a; retry: b"))
    );
    assert_eq!(DbOpening::Retry(text("a")).next(Ok(())), DbOpening::Opened);
}

#[test]
fn a_plan_copies_before_it_deletes() {
    let plan = |direction: SyncDirection| SyncPlan {
        direction,
        copies: vec![SyncCopy {
            source_path: text("/src/a"),
            destination_path: text("/dst/a"),
        }],
        deletes: vec![SyncDelete { path: text("/dst/b") }],
    };
    assert_eq!(
        execute_sync_plan(plan(SyncDirection::LocalToRemote)),
        vec![
            SyncAction::Upload {
                source: text("/src/a"),
                directory: text("/dst"),
                policy: OverwritePolicy::Overwrite
            },
            SyncAction::DeleteRemote(text("/dst/b")),
        ]
    );
    assert_eq!(
        execute_sync_plan(plan(SyncDirection::RemoteToLocal)),
        vec![
            SyncAction::Download {
                source: text("/src/a"),
                directory: text("/dst"),
                policy: OverwritePolicy::Overwrite
            },
            SyncAction::DeleteLocal(text("/dst/b")),
        ]
    );
}

#[test]
fn a_transfer_that_cannot_be_queued_keeps_everything_from_being_deleted() {
    let actions = execute_sync_plan(SyncPlan {
        direction: SyncDirection::LocalToRemote,
        copies: vec![SyncCopy {
            source_path: text("/src/a"),
            destination_path: text("/dst/a"),
        }],
        deletes: vec![SyncDelete { path: text("/dst/b") }],
    });
    let start = || SyncRun::start(&actions);
    assert_eq!(start().action(&actions), Some(&actions[0]));
    assert_eq!(
        start().next(&actions, SyncReply::Queued(Err(text("no")))),
        SyncRun::Failed(text("no"))
    );
    let run = start().next(&actions, SyncReply::Queued(Ok(text("t1"))));
    assert_eq!(run.action(&actions), Some(&actions[1]));
    // A file that cannot be deleted does not matter.
    let run = run.next(&actions, SyncReply::Deleted(Err(text("busy"))));
    assert_eq!(run, SyncRun::Done(vec![text("t1")]));
    assert_eq!(SyncRun::start(&vec![]), SyncRun::Done(vec![]));
}

#[test]
fn queue_settings_are_bounded() {
    assert_eq!(transfer_set_concurrency(1), Ok(1));
    assert_eq!(transfer_set_concurrency(32), Ok(32));
    for count in [0, 33, u32::MAX] {
        assert_eq!(
            transfer_set_concurrency(count),
            Err(text("transfer concurrency must be between 1 and 32"))
        );
    }
    assert_eq!(transfer_set_max_retries(0), Ok(0));
    assert_eq!(transfer_set_max_retries(8), Ok(8));
    assert_eq!(
        transfer_set_max_retries(9),
        Err(text("automatic retry attempts must be between 0 and 8"))
    );
    assert!(transfer_move("up"));
    assert!(!transfer_move("down"));
    assert_eq!(snippet_save(Some(text(""))), None);
    assert_eq!(snippet_save(Some(text("f"))), Some(text("f")));
    assert_eq!(snippet_save(None), None);
    assert_eq!(set_api_key(""), ManifestChange::Forget);
    assert_eq!(set_api_key("k"), ManifestChange::Record);
}

#[test]
fn the_uninstall_script_names_only_what_is_installed() {
    let bare = Installation {
        pid: 42,
        exe: text("C:\\it's\\Ghost FTP.exe"),
        install_dir: text("C:\\it's"),
        desktop: None,
        start_menu: None,
    };
    assert_eq!(
        uninstall_script(&bare),
        "$ErrorActionPreference='SilentlyContinue'; Wait-Process -Id 42; Remove-Item -LiteralPath 'C:\\it''s\\Ghost FTP.exe' -Force; Remove-Item -LiteralPath 'HKCU:\\Software\\Microsoft\\Windows\\CurrentVersion\\Uninstall\\GhostFTP' -Recurse -Force; if ((Test-Path -LiteralPath 'C:\\it''s') -and -not (Get-ChildItem -LiteralPath 'C:\\it''s' -Force | Select-Object -First 1)) { Remove-Item -LiteralPath 'C:\\it''s' -Force -Confirm:$false -ErrorAction SilentlyContinue; }"
    );
    let full = Installation {
        desktop: Some(text("D.lnk")),
        start_menu: Some(StartMenu {
            application: text("A.lnk"),
            uninstaller: text("U.lnk"),
        }),
        ..bare
    };
    assert!(uninstall_script(&full).contains(
        "' -Force; Remove-Item -LiteralPath 'D.lnk' -Force; Remove-Item -LiteralPath 'A.lnk' -Force; Remove-Item -LiteralPath 'U.lnk' -Force; Remove-Item -LiteralPath 'HKCU:"
    ));
}

#[test]
fn shortcuts_and_powershell_are_where_windows_keeps_them() {
    assert_eq!(desktop_shortcut(), ["Desktop", "Ghost FTP.lnk"]);
    assert_eq!(
        start_menu_application(),
        ["Microsoft", "Windows", "Start Menu", "Programs", "Ghost FTP.lnk"]
    );
    assert_eq!(
        start_menu_uninstaller(),
        ["Microsoft", "Windows", "Start Menu", "Programs", "Uninstall Ghost FTP.lnk"]
    );
    assert_eq!(
        powershell_path(),
        ["System32", "WindowsPowerShell", "v1.0", "powershell.exe"]
    );
    assert_eq!(
        powershell_args("S"),
        ["-NoProfile", "-NonInteractive", "-WindowStyle", "Hidden", "-Command", "S"]
    );
}

#[test]
fn uninstalling_is_asked_for_by_an_argument() {
    let args = |list: &[&str]| list.iter().map(|a| a.to_string()).collect::<Vec<String>>();
    let what = || {
        Some(Installation {
            pid: 1,
            exe: text("e"),
            install_dir: text("d"),
            desktop: None,
            start_menu: None,
        })
    };
    let run = |list: &[&str], what: Option<Installation>| {
        run_uninstaller_if_requested(&args(list), &what)
    };
    assert_eq!(run(&["--uninstall"], what()), Uninstall::NotRequested);
    assert_eq!(run(&[], what()), Uninstall::NotRequested);
    assert_eq!(run(&["app", "x", "--uninstall"], None), Uninstall::Unknown);
    assert!(matches!(run(&["app", "--uninstall"], what()), Uninstall::Run(_)));
    assert_eq!(windows_dir(Some(text("a")), Some(text("b"))), Ok(text("a")));
    assert_eq!(windows_dir(None, Some(text("b"))), Ok(text("b")));
    assert_eq!(
        windows_dir(None, None),
        Err(text("Windows system directory is unavailable"))
    );
    assert_eq!(powershell_missing("p"), "system PowerShell was not found at p");
    assert_eq!(
        uninstall_failed("e"),
        "Ghost FTP could not start the uninstall helper. No application files were removed.\n\ne"
    );
}

fn names() -> FileNames {
    FileNames {
        original: text("/h/known_hosts"),
        directory: text("/h"),
        temp: text("/h/t"),
        backup: text("/h/b"),
    }
}

#[test]
fn a_file_is_replaced_step_by_step() {
    let mut state = Rollback::start();
    let mut steps: Vec<FileAction> = Vec::new();
    while let Some(action) = state.action() {
        steps.push(action);
        state = state.next(Ok(()), true);
    }
    assert_eq!(
        steps,
        vec![
            FileAction::CreateTemp,
            FileAction::WriteTemp,
            FileAction::SyncTemp,
            FileAction::SetPermissions,
            FileAction::MoveOriginalAside,
            FileAction::Install,
            FileAction::RemoveBackup,
            FileAction::SyncDirectory,
        ]
    );
    assert_eq!(state, Rollback::Done);
    assert_eq!(temp_name("known_hosts", "I"), ".known_hosts.ghostftp-I.new");
    assert_eq!(backup_name("known_hosts", "I"), ".known_hosts.ghostftp-I.previous");
    let (temp, backup) = sibling_names("known_hosts");
    assert_eq!(temp.len(), ".known_hosts.ghostftp-".len() + 36 + ".new".len());
    assert!(temp.starts_with(".known_hosts.ghostftp-") && temp.ends_with(".new"));
    assert!(backup.starts_with(".known_hosts.ghostftp-") && backup.ends_with(".previous"));
    assert_ne!(temp[22..58], backup[22..58]);
}

#[test]
fn a_failed_installation_restores_the_original() {
    let mut state = Rollback::start();
    while state.action() != Some(FileAction::Install) {
        state = state.next(Ok(()), true);
    }
    state = state.next(Err(text("disk")), true);
    assert_eq!(state.action(), Some(FileAction::Restore));
    state = state.next(Ok(()), true);
    assert_eq!(state.action(), Some(FileAction::RemoveTemp));
    state = state.next(Ok(()), true);
    match &state {
        Rollback::Failed { error } => {
            assert_eq!(*error, RollbackError::Install { cause: text("disk") });
            assert_eq!(error.message(&names()), "installing replacement known_hosts");
        }
        _ => panic!("the replacement should have failed"),
    }
}

#[test]
fn rollback_errors_say_what_failed() {
    let both = RollbackError::InstallAndRestore {
        install: text("a"),
        restore: text("b"),
    };
    assert_eq!(
        both.message(&names()),
        "installing new known_hosts failed (a); restoring the original also failed (b)"
    );
    let create = Rollback::start().next(Err(text("full")), true);
    assert_eq!(create, Rollback::Failed { error: RollbackError::Create { cause: text("full") } });
    let aside = RollbackError::MoveAside { cause: text("busy") };
    assert_eq!(
        aside.message(&names()),
        "moving /h/known_hosts to rollback backup /h/b"
    );
}
