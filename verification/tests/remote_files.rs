use ghostftp::archive::{
    archive_outcome, archive_plan, archive_source, start_archive_download, Settling, TransferStatus,
    MAX_POLLS,
};
use ghostftp::archive_run::{ArchiveAction, ArchiveReply, ArchiveRun};
use ghostftp::checksums::{checksum_local, checksum_outcome, checksum_path, ChecksumSource};
use ghostftp::digest::Checksum;
use ghostftp::duplicates::{
    copy_outcome, duplicate_local, duplicate_path, duplicate_ssh, local_source, too_many_copies,
    CopyRun, CopySearch, Duplicate,
};
use ghostftp::error::ErrorKind;
use ghostftp::file_ops::{
    create_directory, preview_fits, preview_text, read_file_preview, rename_path, MAX_PREVIEW_BYTES,
};
use ghostftp::permissions::{
    chmod_local, chmod_outcome, chmod_path, chmod_path_recursive, refuse_root, RecursiveChmod,
};
use ghostftp::remote_commands::ExecOutput;
use ghostftp::remote_paths::{
    copy_name, export_agent_log, export_attempt, export_name, parent_of, split_remote,
};
use ghostftp::sessions::{
    find_session, fs_for, fs_for_public, fs_for_session, is_local, kill_agent_job, list_agent_jobs,
    open_terminal, RemoteFs, Session, LOCAL_SESSION,
};
use ghostftp::sync::OverwritePolicy;
use ghostftp::shell::{powershell_quote, sh_quote};
use ghostftp::tree_walk::{Action, Entry, Listing, Reply, Walk};

fn output(exit_code: Option<u32>, stdout: &str, stderr: &str) -> ExecOutput {
    ExecOutput {
        exit_code,
        stdout: stdout.to_string(),
        stderr: stderr.to_string(),
    }
}

fn failed<T>(text: &str) -> Result<T, String> {
    Err(text.to_string())
}

#[test]
fn quoting_survives_quotes_and_blanks() {
    assert_eq!(sh_quote("a b"), "'a b'");
    assert_eq!(sh_quote("it's"), "'it'\\''s'");
    assert_eq!(sh_quote(""), "''");
    assert_eq!(powershell_quote("it's"), "it''s");
}

#[test]
fn remote_paths_split_at_the_last_slash() {
    assert_eq!(split_remote("/foo"), ("", "foo"));
    assert_eq!(split_remote("/a/b"), ("/a", "b"));
    assert_eq!(split_remote("rel"), (".", "rel"));
    assert_eq!(parent_of("/foo"), "/");
    assert_eq!(parent_of("C:\\a\\b"), "C:\\a");
    assert_eq!(parent_of("a/b\\c"), "a/b");
    assert_eq!(parent_of("x"), ".");
}

#[test]
fn copies_keep_their_extension() {
    assert_eq!(copy_name("foo.txt", 1), "foo copy.txt");
    assert_eq!(copy_name("foo.txt", 2), "foo copy 2.txt");
    assert_eq!(copy_name(".bashrc", 1), ".bashrc copy");
    assert_eq!(copy_name("Makefile", 3), "Makefile copy 3");
    assert_eq!(copy_name("a.tar.gz", 1), "a.tar copy.gz");
}

#[test]
fn exports_never_leave_their_directory_or_overwrite() {
    assert_eq!(export_name("../a\\b.txt"), "..ab.txt");
    assert_eq!(export_name(" / "), "ghostftp-agent-console.txt");
    assert_eq!(export_attempt("log.txt", 0), "log.txt");
    assert_eq!(export_attempt("log.txt", 2), "log (2).txt");
    assert_eq!(export_attempt("log", 1), "log (1)");
    let search = export_agent_log("a/log.txt");
    assert_eq!(search.candidate(), "alog.txt");
    assert_eq!(search.next().candidate(), "alog (1).txt");
}

#[test]
fn sessions_have_their_file_systems() {
    assert_eq!(LOCAL_SESSION, "local");
    assert!(is_local("local") && !is_local("Local"));
    for (session, fs) in [
        (Session::Ssh, RemoteFs::SftpFs),
        (Session::Ftp, RemoteFs::FtpFs),
        (Session::Object, RemoteFs::ObjectFs),
        (Session::Webdav, RemoteFs::WebdavFs),
        (Session::Http, RemoteFs::HttpFs),
        (Session::Dropbox, RemoteFs::DropboxFs),
        (Session::OneDrive, RemoteFs::OneDriveFs),
        (Session::GDrive, RemoteFs::GDriveFs),
        (Session::Box, RemoteFs::BoxFs),
        (Session::Shopify, RemoteFs::ShopifyFs),
        (Session::HubSpot, RemoteFs::HubSpotFs),
        (Session::Dynamics, RemoteFs::DynamicsFs),
        (Session::Agent, RemoteFs::AgentFs),
    ] {
        assert_eq!(fs_for_session(&session), fs);
        assert_eq!(fs_for("s", Some(session)), Ok(fs));
    }
    assert_eq!(fs_for("local", None), Ok(RemoteFs::LocalFs));
    assert_eq!(fs_for_public("x", None), failed("session x not found"));
    assert_eq!(find_session::<u8>("x", None), failed("session x not found"));
    assert_eq!(find_session("x", Some(3u8)), Ok(3u8));
}

#[test]
fn only_ssh_sessions_have_a_shell() {
    assert_eq!(open_terminal("local", true), failed("Local terminal is not supported"));
    assert_eq!(open_terminal("s", false), failed("FTP sessions have no shell"));
    assert_eq!(open_terminal("s", true), Ok(()));
    assert_eq!(
        kill_agent_job("s", false),
        failed("session s is not a live SSH connection")
    );
    assert_eq!(kill_agent_job("s", true), Ok(()));
    assert_eq!(list_agent_jobs::<u8>(None), Vec::<u8>::new());
    assert_eq!(list_agent_jobs(Some(vec![1u8])), vec![1u8]);
}

#[test]
fn renaming_needs_two_paths() {
    assert_eq!(rename_path("a", "b"), Ok(true));
    assert_eq!(rename_path("a", "a"), Ok(false));
    let e = rename_path("a", " ").unwrap_err();
    assert_eq!(e.kind, ErrorKind::InvalidInput);
    assert_eq!(e.message, "rename source and destination must not be empty");
}

#[test]
fn directories_need_a_name() {
    assert!(create_directory("a/b").is_ok());
    for path in ["", "  ", ".", " .. "] {
        let e = create_directory(path).unwrap_err();
        assert_eq!(e.message, "directory path must identify a named directory");
    }
}

#[test]
fn previews_are_local_small_and_in_base64() {
    assert_eq!(
        read_file_preview("s"),
        failed("preview is only supported for local files")
    );
    assert_eq!(read_file_preview("local"), Ok(()));
    assert_eq!(MAX_PREVIEW_BYTES, 4 * 1024 * 1024);
    assert_eq!(preview_fits(MAX_PREVIEW_BYTES), Ok(()));
    assert_eq!(
        preview_fits(MAX_PREVIEW_BYTES + 1),
        failed("file too large for preview")
    );
    assert_eq!(preview_text(&b"hello".to_vec()), "aGVsbG8=");
    assert_eq!(preview_text(&vec![0xfb, 0xff]), "+/8=");
    assert_eq!(preview_text(&vec![]), "");
}

#[test]
fn permissions_are_checked() {
    assert!(chmod_path("a", 0o777).is_ok());
    assert!(chmod_path("a", 0o1000).is_err());
    let e = chmod_path("..", 0o644).unwrap_err();
    assert_eq!(
        e.message,
        "permissions require a named path and a POSIX mode between 000 and 777"
    );
    assert_eq!(
        chmod_path_recursive("s", "it's", 0o750, Some(Session::Ssh)),
        Ok(RecursiveChmod::Remote("chmod -R 750 -- 'it'\\''s'".to_string()))
    );
    assert_eq!(
        chmod_path_recursive("s", "x", 0, Some(Session::Ssh)),
        Ok(RecursiveChmod::Remote("chmod -R 0 -- 'x'".to_string()))
    );
    assert_eq!(chmod_path_recursive("local", "x", 0o644, None), Ok(RecursiveChmod::Local));
    assert_eq!(
        chmod_path_recursive("s", "x", 0o644, None),
        failed("session s not found")
    );
    assert_eq!(
        chmod_path_recursive("s", "x", 0o644, Some(Session::Ftp)),
        failed("Recursive permissions are supported only for local files and SFTP/SSH connections")
    );
    assert_eq!(
        chmod_path_recursive("s", ".", 0o644, Some(Session::Ssh)),
        failed("Recursive permissions require a named path and a POSIX mode between 000 and 777")
    );
}

#[test]
fn the_local_root_is_refused() {
    let refused = "Recursive permissions refuse the local filesystem root";
    for path in ["/", "//", "///", "/.", "/./"] {
        assert_eq!(chmod_path_recursive("local", path, 0o755, None), failed(refused));
    }
    for path in ["/x", "x", "./x", "x/..", "/x/.", "/x:y", "12:30"] {
        assert_eq!(
            chmod_path_recursive("local", path, 0o755, None),
            Ok(RecursiveChmod::Local)
        );
    }
    assert_eq!(refuse_root(false, true), failed(refused));
    assert_eq!(refuse_root(true, true), Ok(()));
    assert_eq!(refuse_root(false, false), Ok(()));
    assert_eq!(chmod_local("/x", "/x", true, true), Ok(Walk::start("/x")));
    assert_eq!(chmod_local("/x", "/x", false, true), failed("/x does not exist"));
    assert_eq!(
        chmod_local("/x", "/x", true, false),
        failed("Recursive POSIX permissions are not supported on this local platform")
    );
}

#[test]
fn remote_failures_carry_what_the_server_said() {
    assert_eq!(chmod_outcome(&output(Some(0), "", "warn")), Ok(()));
    assert_eq!(chmod_outcome(&output(Some(1), "", " denied\n")), failed("denied"));
    assert_eq!(chmod_outcome(&output(None, "", "")), failed("recursive chmod failed"));
    assert_eq!(copy_outcome(&output(Some(0), "", "")), Ok(()));
    assert_eq!(copy_outcome(&output(Some(1), "", "full")), failed("copy failed: full"));
    assert_eq!(copy_outcome(&output(Some(1), "", "")), failed("copy failed"));
}

/// A tree: a directory `r` with a file, a link and a directory with a file in it.
fn listing(item: &str) -> Listing<String> {
    let entry = |name: &str, leaf: bool| {
        Ok(Entry {
            item: name.to_string(),
            leaf,
        })
    };
    match item {
        "r" => Listing::Entries(vec![
            entry("r/a", false),
            entry("r/link", true),
            entry("r/d", false),
        ]),
        "r/d" => Listing::Entries(vec![entry("r/d/x", false)]),
        _ => Listing::NotDirectory,
    }
}

#[test]
fn the_walk_visits_parents_first_and_follows_no_links() {
    let mut walk = Walk::start("r".to_string());
    let mut seen: Vec<String> = Vec::new();
    let mut listed: Vec<String> = Vec::new();
    loop {
        let reply = match walk.action() {
            Action::Apply(item) => {
                seen.push(item.clone());
                Reply::Applied(Ok(()))
            }
            Action::List(item) => {
                listed.push(item.clone());
                Reply::Listed(listing(item))
            }
            Action::Done => break,
            Action::Failed(_) => panic!("the walk failed"),
        };
        walk = walk.next(reply);
    }
    assert_eq!(seen, ["r", "r/a", "r/link", "r/d", "r/d/x"]);
    assert_eq!(listed, ["r", "r/a", "r/d", "r/d/x"]);
}

#[test]
fn the_first_failure_ends_the_walk() {
    let walk = Walk::start("r".to_string()).next(Reply::Applied(Err("no".to_string())));
    assert_eq!(walk, Walk::Failed("no".to_string()));
    let walk = Walk::start("r".to_string())
        .next(Reply::Applied(Ok(())))
        .next(Reply::Listed(Listing::Failed("unreadable".to_string())));
    assert_eq!(walk.action(), Action::Failed(&"unreadable".to_string()));
    // An entry that cannot be read ends the walk when its turn comes.
    let walk = Walk::start("r".to_string())
        .next(Reply::Applied(Ok(())))
        .next(Reply::Listed(Listing::Entries(vec![
            Ok(Entry {
                item: "r/a".to_string(),
                leaf: true,
            }),
            Err("bad entry".to_string()),
        ])));
    assert_eq!(walk.action(), Action::Apply(&"r/a".to_string()));
    let walk = walk.next(Reply::Applied(Ok(())));
    assert_eq!(walk, Walk::Failed("bad entry".to_string()));
}

#[test]
fn checksums_come_from_the_file_or_the_server() {
    assert_eq!(checksum_path("local", "x", None), Ok(ChecksumSource::Local));
    assert_eq!(
        checksum_path("s", "a b", Some(Session::Ssh)),
        Ok(ChecksumSource::Remote("sha256sum -b -- 'a b'".to_string()))
    );
    assert_eq!(checksum_path("s", "x", None), failed("session s not found"));
    assert_eq!(
        checksum_path("s", "x", Some(Session::Http)),
        failed("SHA-256 is currently supported for local files and SFTP/SSH connections")
    );
    assert!(matches!(checksum_local(true), Err(e) if e == "Checksums are available for files only"));
    assert!(checksum_local(false).is_ok());
}

#[test]
fn a_checksum_does_not_depend_on_how_the_data_is_cut() {
    let whole = {
        let mut c = Checksum::new();
        c.update(b"abc");
        c.finish()
    };
    assert_eq!(
        whole,
        "ba7816bf8f01cfea414140de5dae2223b00361a396177a9cb410ff61f20015ad"
    );
    let mut c = Checksum::new();
    c.update(b"a");
    c.update(b"");
    c.update(b"bc");
    assert_eq!(c.finish(), whole);
    assert_eq!(
        Checksum::new().finish(),
        "e3b0c44298fc1c149afbf4c8996fb92427ae41e4649b934ca495991b7852b855"
    );
}

#[test]
fn the_servers_checksum_is_checked() {
    let sum = "ba7816bf8f01cfea414140de5dae2223b00361a396177a9cb410ff61f20015ad";
    let printed = format!("{sum} *file\n");
    assert_eq!(checksum_outcome(&output(Some(0), &printed, "")), Ok(sum.to_string()));
    let invalid = failed("server returned an invalid SHA-256 result");
    assert_eq!(checksum_outcome(&output(Some(0), "abc *file", "")), invalid);
    assert_eq!(checksum_outcome(&output(Some(0), "", "")), invalid);
    assert_eq!(checksum_outcome(&output(Some(1), "", " gone ")), failed("gone"));
    assert_eq!(checksum_outcome(&output(None, &printed, "")), failed("checksum failed"));
}

#[test]
fn the_search_for_a_copy_stops_at_the_first_free_name() {
    let mut search = CopySearch::start();
    search = search.next(true);
    search = search.next(true);
    assert_eq!(search, CopySearch::Try(3));
    assert_eq!(search.next(false), CopySearch::Found(3));
    for _ in 0..997 {
        search = search.next(true);
    }
    assert_eq!(search, CopySearch::Try(1000));
    assert_eq!(search.next(true), CopySearch::TooMany);
    assert_eq!(search.next(false), CopySearch::Found(1000));
    assert_eq!(too_many_copies(), "too many copies already exist");
}

#[test]
fn remote_copies_stand_beside_their_source() {
    let source = duplicate_ssh("/var/www/it's.txt//").unwrap();
    assert_eq!(source.path, "/var/www/it's.txt");
    assert_eq!(source.copy(1), "/var/www/it's copy.txt");
    assert_eq!(source.probe_command(1), "test -e '/var/www/it'\\''s copy.txt'");
    assert_eq!(
        source.copy_command(2),
        "cp -a -- '/var/www/it'\\''s.txt' '/var/www/it'\\''s copy 2.txt'"
    );
    assert_eq!(duplicate_ssh("/foo").unwrap().copy(1), "/foo copy");
    assert_eq!(duplicate_ssh("rel").unwrap().copy(1), "./rel copy");
    for path in ["", "/", ".", "..", "a/..", "a/./"] {
        assert_eq!(
            duplicate_ssh(path),
            failed("Duplicate requires a named remote file or directory")
        );
    }
}

#[test]
fn a_remote_copy_is_made_under_the_first_free_name() {
    let source = duplicate_ssh("/foo").unwrap();
    let taken = || Ok(output(Some(0), "", ""));
    let free = || Ok(output(Some(1), "", ""));
    let run = CopyRun::start();
    assert_eq!(run.action(&source), Some("test -e '/foo copy'".to_string()));
    let run = run.next(taken());
    assert_eq!(run.action(&source), Some("test -e '/foo copy 2'".to_string()));
    let run = run.next(free());
    assert_eq!(
        run.action(&source),
        Some("cp -a -- '/foo' '/foo copy 2'".to_string())
    );
    assert_eq!(run.next(taken()), CopyRun::Done);
    assert_eq!(
        CopyRun::Copy(2).next(Ok(output(Some(1), "", "full"))),
        CopyRun::Failed("copy failed: full".to_string())
    );
    assert_eq!(
        CopyRun::Probe(1).next(Err("gone".to_string())),
        CopyRun::Failed("gone".to_string())
    );
    assert_eq!(
        CopyRun::Probe(1000).next(taken()),
        CopyRun::Failed("too many copies already exist".to_string())
    );
}

#[test]
fn duplicating_goes_by_the_session() {
    assert_eq!(duplicate_path("local", "x", None), Ok(Duplicate::Local));
    assert!(matches!(
        duplicate_path("s", "x", Some(Session::Ssh)),
        Ok(Duplicate::Remote(_))
    ));
    assert_eq!(duplicate_path("s", "x", None), failed("session s not found"));
    assert_eq!(
        duplicate_path("s", "x", Some(Session::Ftp)),
        failed("Duplicate isn't supported on this connection yet")
    );
    let name = Some("n".to_string());
    assert_eq!(local_source("/n", true, true, name.clone()), Ok("n".to_string()));
    assert_eq!(local_source("/n", false, true, name.clone()), failed("/n does not exist"));
    assert_eq!(
        local_source("/", true, false, name),
        failed("can't duplicate this path")
    );
    assert_eq!(local_source("/n", true, true, None), failed("invalid file name"));
    for path in ["n", "/n", "a/n", "a//n/", "a/n/."] {
        assert_eq!(duplicate_local(path, true), Ok("n".to_string()));
        assert_eq!(duplicate_local(path, false), Err(format!("{path} does not exist")));
    }
    assert_eq!(duplicate_local("a/b:c", true), Ok("b:c".to_string()));
    assert_eq!(duplicate_local("/", true), failed("can't duplicate this path"));
    assert_eq!(duplicate_local("//", true), failed("can't duplicate this path"));
    assert_eq!(duplicate_local("", true), failed("can't duplicate this path"));
    assert_eq!(duplicate_local("a/..", true), failed("invalid file name"));
    assert_eq!(duplicate_local(".", true), failed("invalid file name"));
}

#[test]
fn archives_are_built_beside_nothing_else() {
    let source = archive_source("/var/www/").unwrap();
    let tar = archive_plan(&source, "tar.gz", "ID");
    assert!(!tar.is_zip);
    assert_eq!(tar.tmp_dir, "/tmp/ghostftp-archive-ID");
    assert_eq!(tar.archive, "/tmp/ghostftp-archive-ID/www.tar.gz");
    assert_eq!(
        tar.build,
        "mkdir -p '/tmp/ghostftp-archive-ID' && tar -czf '/tmp/ghostftp-archive-ID/www.tar.gz' -C '/var' -- 'www'"
    );
    assert_eq!(tar.cleanup, "rm -rf '/tmp/ghostftp-archive-ID'");
    let zip = archive_plan(&archive_source("/www").unwrap(), "zip", "ID");
    assert!(zip.is_zip);
    assert_eq!(
        zip.build,
        "mkdir -p '/tmp/ghostftp-archive-ID' && cd '/' && zip -r -q '/tmp/ghostftp-archive-ID/www.zip' './www'"
    );
}

#[test]
fn archiving_is_refused_where_it_makes_no_sense() {
    let start = |ssh: bool, found: Option<Session>, path: &str| {
        start_archive_download("s", ssh, found, path, "zip")
    };
    assert_eq!(
        start(false, Some(Session::Ssh), "/a"),
        failed("Archiving requires an SSH/SFTP connection")
    );
    assert_eq!(start(true, None, "/a"), failed("session s not found"));
    assert_eq!(
        start(true, Some(Session::Ssh), "//"),
        failed("Can't archive a filesystem root or dot path")
    );
    assert_eq!(
        start(true, Some(Session::Ssh), "a/.."),
        failed("Archive requires a named remote directory")
    );
    let plan = start(true, Some(Session::Ssh), "/a").unwrap();
    assert!(plan.is_zip);
    assert!(plan.archive.starts_with("/tmp/ghostftp-archive-"));
    assert!(plan.archive.ends_with("/a.zip"));
    let other = start(true, Some(Session::Ssh), "/a").unwrap();
    assert_ne!(plan.tmp_dir, other.tmp_dir);
}

#[test]
fn a_failed_archive_says_why() {
    assert_eq!(archive_outcome(&output(Some(0), "", ""), true), Ok(()));
    assert_eq!(
        archive_outcome(&output(Some(127), "", "zip: command not found\n"), true),
        failed("Archive failed: zip: command not found  (the `zip` command may not be installed on the server — try .tar.gz)")
    );
    assert_eq!(
        archive_outcome(&output(Some(2), "", "tar: not found"), false),
        failed("Archive failed: tar: not found")
    );
    assert_eq!(
        archive_outcome(&output(None, "", " "), true),
        failed("Archive failed: non-zero exit")
    );
}

#[test]
fn the_archive_goes_once_the_transfer_has_settled() {
    let underway = Some(TransferStatus::Underway);
    for status in [
        None,
        Some(TransferStatus::Done),
        Some(TransferStatus::Error),
        Some(TransferStatus::Skipped),
        Some(TransferStatus::Canceled),
    ] {
        assert_eq!(Settling::start().next(underway).next(status), Settling::Cleanup);
    }
    let mut state = Settling::start();
    for _ in 1..MAX_POLLS {
        state = state.next(underway);
    }
    assert_eq!(state, Settling::Waiting(MAX_POLLS - 1));
    assert_eq!(state.next(underway), Settling::Cleanup);
}

#[test]
fn a_failed_build_is_cleaned_up_and_not_downloaded() {
    let plan = archive_plan(&archive_source("/www").unwrap(), "zip", "ID");
    let run = ArchiveRun::start();
    assert_eq!(run.action(&plan), ArchiveAction::Run(&plan.build));
    let run = run.next(true, ArchiveReply::Ran(Ok(output(Some(1), "", " full "))));
    assert_eq!(run.action(&plan), ArchiveAction::Run("rm -rf '/tmp/ghostftp-archive-ID'"));
    assert_eq!(run.result(), None);
    let run = run.next(true, ArchiveReply::Ran(Err("gone".to_string())));
    assert_eq!(run.action(&plan), ArchiveAction::Over);
    assert_eq!(run.result(), Some(Err("Archive failed: full")));
}

#[test]
fn a_complete_archive_is_downloaded_and_then_removed() {
    let plan = archive_plan(&archive_source("/www").unwrap(), "tar.gz", "ID");
    let run = ArchiveRun::start().next(false, ArchiveReply::Ran(Ok(output(Some(0), "", ""))));
    assert_eq!(run.action(&plan), ArchiveAction::MakeDirectory);
    let run = run.next(false, ArchiveReply::Made(Ok(())));
    assert_eq!(
        run.action(&plan),
        ArchiveAction::Download {
            path: "/tmp/ghostftp-archive-ID/www.tar.gz",
            policy: OverwritePolicy::Rename
        }
    );
    let run = run.next(false, ArchiveReply::Queued(Ok("t1".to_string())));
    assert_eq!(run.result(), Some(Ok("t1")));
    let run = run.next(false, ArchiveReply::Seen(Some(TransferStatus::Underway)));
    assert_eq!(run.action(&plan), ArchiveAction::Look("t1"));
    let run = run.next(false, ArchiveReply::Seen(Some(TransferStatus::Canceled)));
    assert_eq!(run.action(&plan), ArchiveAction::Run(&plan.cleanup));
    let run = run.next(false, ArchiveReply::Ran(Ok(output(Some(0), "", ""))));
    assert_eq!(run, ArchiveRun::Done("t1".to_string()));
}

#[test]
fn what_keeps_a_download_from_starting_is_the_error() {
    let no = || "no".to_string();
    let failed = ArchiveRun::Failed(no());
    assert_eq!(ArchiveRun::Build.next(true, ArchiveReply::Ran(Err(no()))), failed);
    assert_eq!(ArchiveRun::Prepare.next(true, ArchiveReply::Made(Err(no()))), failed);
    assert_eq!(ArchiveRun::Download.next(true, ArchiveReply::Queued(Err(no()))), failed);
    // A reply that does not answer the action changes nothing.
    assert_eq!(ArchiveRun::Build.next(true, ArchiveReply::Made(Ok(()))), ArchiveRun::Build);
}
