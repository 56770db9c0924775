//! Archiving a remote directory on the server and downloading the archive.
//!
//! The archive is built in a directory of its own under `/tmp`, so that the downloaded
//! file keeps the name of the directory; that directory is removed once the transfer
//! has settled.

use crate::duplicates::{bare, is_nameless, names_nothing};
use crate::error::missing;
use crate::ids::{fresh_id, is_uuid, law_ids_are_plain};
use crate::remote_commands::{law_said_or, said_or, succeeded, ExecOutput};
use crate::remote_paths::{
    is_char, law_split_path, law_split_rejoins, name_part, parent_part, split_remote,
};
use crate::search::{contains, lemma_last_index_is, occurs, stands_at};
use crate::sessions::{find_session, Session};
use crate::shell::{
    is_plain_word, lemma_words_last_quoted, lemma_words_next, lemma_words_next_quoted, quoted,
    sh_quote, sh_words,
};
use crate::text::{all_white, is_white, law_trimmed, same, trim, trim_end_of, trimmed};
use vstd::prelude::*;
use vstd::string::*;

verus! {

/// The directory to archive: the directory it is in, and its name.
#[derive(Debug, PartialEq, Eq)]
pub struct ArchiveSource {
    pub parent: String,
    pub base: String,
}

/// The directory that a directory is in: `/` for one at the root.
pub open spec fn archive_parent(folder: Seq<char>) -> Seq<char> {
    if parent_part(folder).len() == 0 {
        "/"@
    } else {
        parent_part(folder)
    }
}

/// The directory at `remote_path`, where that can be archived.
pub fn archive_source(remote_path: &str) -> (r: Result<ArchiveSource, String>)
    ensures
        ({
            let folder = bare(remote_path@);
            if is_nameless(folder) {
                r matches Err(e) && e@ == "Can't archive a filesystem root or dot path"@
            } else if is_nameless(name_part(folder)) {
                r matches Err(e) && e@ == "Archive requires a named remote directory"@
            } else {
                r matches Ok(s) && s.parent@ == archive_parent(folder) && s.base@ == name_part(
                    folder,
                )
            }
        }),
{
    let folder = trim_end_of(remote_path, '/', '/');
    if names_nothing(folder) {
        return Err("Can't archive a filesystem root or dot path".to_owned());
    }
    let (parent, base) = split_remote(folder);
    if names_nothing(base) {
        return Err("Archive requires a named remote directory".to_owned());
    }
    let parent = if parent.is_empty() {
        "/"
    } else {
        parent
    };
    Ok(ArchiveSource { parent: parent.to_owned(), base: base.to_owned() })
}

/// What archiving a directory takes.
#[derive(Debug, PartialEq, Eq)]
pub struct ArchivePlan {
    /// Whether the archive is a zip file; else it is a compressed tar file.
    pub is_zip: bool,
    /// The directory in which the archive is built.
    pub tmp_dir: String,
    /// The path of the archive.
    pub archive: String,
    /// The command that builds it.
    pub build: String,
    /// The command that removes it again.
    pub cleanup: String,
}

/// The directory in which an archive is built.
pub open spec fn archive_dir(id: Seq<char>) -> Seq<char> {
    "/tmp/ghostftp-archive-"@ + id
}

/// The ending of an archive's name.
pub open spec fn extension(zip: bool) -> Seq<char> {
    if zip {
        "zip"@
    } else {
        "tar.gz"@
    }
}

/// The path of an archive.
pub open spec fn archive_path(base: Seq<char>, zip: bool, id: Seq<char>) -> Seq<char> {
    archive_dir(id) + "/"@ + base + "."@ + extension(zip)
}

/// The command that builds an archive. The paths in it are relative to the directory
/// that `base` is in.
pub open spec fn build_command(parent: Seq<char>, base: Seq<char>, zip: bool, id: Seq<char>) -> Seq<
    char,
> {
    if zip {
        "mkdir -p "@ + quoted(archive_dir(id)) + " && cd "@ + quoted(parent) + " && zip -r -q "@
            + quoted(archive_path(base, zip, id)) + " "@ + quoted("./"@ + base)
    } else {
        "mkdir -p "@ + quoted(archive_dir(id)) + " && tar -czf "@ + quoted(
            archive_path(base, zip, id),
        ) + " -C "@ + quoted(parent) + " -- "@ + quoted(base)
    }
}

/// The command that removes an archive and its directory.
pub open spec fn cleanup_command(id: Seq<char>) -> Seq<char> {
    "rm -rf "@ + quoted(archive_dir(id))
}

/// Whether a plan is that of archiving `base` in `parent` in the directory named by `id`.
pub open spec fn is_plan(
    plan: ArchivePlan,
    parent: Seq<char>,
    base: Seq<char>,
    zip: bool,
    id: Seq<char>,
) -> bool {
    &&& plan.is_zip == zip
    &&& plan.tmp_dir@ == archive_dir(id)
    &&& plan.archive@ == archive_path(base, zip, id)
    &&& plan.build@ == build_command(parent, base, zip, id)
    &&& plan.cleanup@ == cleanup_command(id)
}

/// What archiving a directory takes, in the format `zip` or else as a compressed tar
/// file, in a temporary directory named by `id`.
pub fn archive_plan(source: &ArchiveSource, format: &str, id: &str) -> (r: ArchivePlan)
    ensures
        is_plan(r, source.parent@, source.base@, format@ == "zip"@, id@),
{
    let is_zip = same(format, "zip");
    let mut tmp_dir = "/tmp/ghostftp-archive-".to_owned();
    tmp_dir.append(id);
    let mut archive = tmp_dir.clone();
    archive.append("/");
    archive.append(source.base.as_str());
    archive.append(".");
    archive.append(
        if is_zip {
            "zip"
        } else {
            "tar.gz"
        },
    );
    let mut build = "mkdir -p ".to_owned();
    build.append(sh_quote(tmp_dir.as_str()).as_str());
    if is_zip {
        build.append(" && cd ");
        build.append(sh_quote(source.parent.as_str()).as_str());
        build.append(" && zip -r -q ");
        build.append(sh_quote(archive.as_str()).as_str());
        build.append(" ");
        let mut inner = "./".to_owned();
        inner.append(source.base.as_str());
        build.append(sh_quote(inner.as_str()).as_str());
    } else {
        build.append(" && tar -czf ");
        build.append(sh_quote(archive.as_str()).as_str());
        build.append(" -C ");
        build.append(sh_quote(source.parent.as_str()).as_str());
        build.append(" -- ");
        build.append(sh_quote(source.base.as_str()).as_str());
    }
    let mut cleanup = "rm -rf ".to_owned();
    cleanup.append(sh_quote(tmp_dir.as_str()).as_str());
    ArchivePlan { is_zip, tmp_dir, archive, build, cleanup }
}

/// Whether a plan is that of archiving the directory at `path`, in a directory of its own.
pub open spec fn plans(plan: ArchivePlan, path: Seq<char>, zip: bool) -> bool {
    exists|id: Seq<char>|
        is_uuid(id) && #[trigger] is_plan(
            plan,
            archive_parent(bare(path)),
            name_part(bare(path)),
            zip,
            id,
        )
}

/// What archiving a remote directory takes, given whether the session is an open SSH
/// session and the session that was looked up.
pub fn start_archive_download(
    session_id: &str,
    is_ssh: bool,
    found: Option<Session>,
    remote_path: &str,
    format: &str,
) -> (r: Result<ArchivePlan, String>)
    ensures
        ({
            let folder = bare(remote_path@);
            if !is_ssh {
                r matches Err(e) && e@ == "Archiving requires an SSH/SFTP connection"@
            } else if found is None {
                r matches Err(e) && e@ == missing("session"@, session_id@)
            } else if is_nameless(folder) {
                r matches Err(e) && e@ == "Can't archive a filesystem root or dot path"@
            } else if is_nameless(name_part(folder)) {
                r matches Err(e) && e@ == "Archive requires a named remote directory"@
            } else {
                r matches Ok(plan) && plans(plan, remote_path@, format@ == "zip"@)
            }
        }),
{
    if !is_ssh {
        return Err("Archiving requires an SSH/SFTP connection".to_owned());
    }
    if let Err(e) = find_session(session_id, found) {
        return Err(e);
    }
    match archive_source(remote_path) {
        Err(e) => Err(e),
        Ok(source) => {
            let id = fresh_id();
            let plan = archive_plan(&source, format, id.as_str());
            assert(is_plan(
                plan,
                archive_parent(bare(remote_path@)),
                name_part(bare(remote_path@)),
                format@ == "zip"@,
                id@,
            ));
            Ok(plan)
        },
    }
}

/// What is added to the error where the server seems to lack the `zip` command.
pub open spec fn zip_hint(stderr: Seq<char>, zip: bool) -> Seq<char> {
    if zip && (occurs(trimmed(stderr), "not found"@) || occurs(
        trimmed(stderr),
        "command not found"@,
    )) {
        "  (the `zip` command may not be installed on the server — try .tar.gz)"@
    } else {
        ""@
    }
}

/// The message where the archive could not be built.
pub open spec fn build_failed(stderr: Seq<char>, zip: bool) -> Seq<char> {
    "Archive failed: "@ + said_or(stderr, "non-zero exit"@) + zip_hint(stderr, zip)
}

/// What came of building the archive.
pub fn archive_outcome(out: &ExecOutput, is_zip: bool) -> (r: Result<(), String>)
    ensures
        r is Ok <==> succeeded(*out),
        r matches Err(e) ==> e@ == build_failed(out.stderr@, is_zip),
{
    if out.success() {
        return Ok(());
    }
    let said = trim(out.stderr.as_str());
    let hint = if is_zip && (contains(said, "not found") || contains(said, "command not found")) {
        "  (the `zip` command may not be installed on the server — try .tar.gz)"
    } else {
        ""
    };
    let mut e = "Archive failed: ".to_owned();
    e.append(out.error_or("non-zero exit").as_str());
    e.append(hint);
    Err(e)
}

// ---------------------------------------------------------------- settling
/// Where a transfer stands, as far as it matters here.
#[derive(Debug, Clone, Copy, PartialEq, Eq, Structural)]
pub enum TransferStatus {
    /// Waiting, running or paused.
    Underway,
    Done,
    Error,
    Skipped,
    Canceled,
}

/// How often a transfer is looked at before its archive is removed anyway.
pub const MAX_POLLS: u32 = 14400;

/// Waiting for a transfer to settle.
#[derive(Debug, Clone, Copy, PartialEq, Eq, Structural)]
pub enum Settling {
    /// Look at the transfer again in a while; it has been looked at so often.
    Waiting(u32),
    /// Remove the archive.
    Cleanup,
}

impl Settling {
    /// The transfer has just been started.
    pub fn start() -> (r: Self)
        ensures
            r == Settling::Waiting(0),
    {
        Settling::Waiting(0)
    }

    /// The state after the transfer has been looked at; a transfer that is gone has no
    /// status.
    pub open spec fn after(self, status: Option<TransferStatus>) -> Settling {
        match self {
            Settling::Waiting(polls) => if status != Some(TransferStatus::Underway) || polls + 1
                >= MAX_POLLS {
                Settling::Cleanup
            } else {
                Settling::Waiting((polls + 1) as u32)
            },
            Settling::Cleanup => Settling::Cleanup,
        }
    }

    /// Goes on after the transfer has been looked at.
    pub fn next(self, status: Option<TransferStatus>) -> (r: Self)
        ensures
            r == self.after(status),
    {
        match self {
            Settling::Waiting(polls) => {
                let underway = match status {
                    Some(TransferStatus::Underway) => true,
                    _ => false,
                };
                if !underway || polls >= MAX_POLLS - 1 {
                    Settling::Cleanup
                } else {
                    Settling::Waiting(polls + 1)
                }
            },
            Settling::Cleanup => Settling::Cleanup,
        }
    }
}

// ---------------------------------------------------------------- laws
/// The archive has the name of the directory, and lies in a temporary directory that is
/// its own.
pub proof fn law_archive_keeps_folder_name(path: Seq<char>, zip: bool, id: Seq<char>)
    ensures
        ({
            let base = name_part(bare(path));
            let archive = archive_path(base, zip, id);
            &&& name_part(archive) == base + "."@ + extension(zip)
            &&& parent_part(archive) == archive_dir(id)
        }),
{
    let base = name_part(bare(path));
    let archive = archive_path(base, zip, id);
    let name = base + "."@ + extension(zip);
    law_split_rejoins(bare(path));
    reveal_strlit("/");
    reveal_strlit(".");
    reveal_strlit("zip");
    reveal_strlit("tar.gz");
    let k = archive_dir(id).len() as int;
    assert(archive == archive_dir(id) + "/"@ + name);
    assert(archive[k] == '/');
    assert forall|i: int| k < i < archive.len() implies !is_char('/')(#[trigger] archive[i]) by {
        let j = i - k - 1;
        assert(archive[i] == name[j]);
        if j < base.len() {
            assert(name[j] == base[j]);
        } else if j > base.len() {
            assert(name[j] == extension(zip)[j - base.len() - 1]);
        }
    }
    lemma_last_index_is(archive, is_char('/'), k);
    assert(archive.take(k) == archive_dir(id));
    assert(archive.skip(k + 1) == name);
}

/// The temporary directory lies directly under `/tmp`.
pub proof fn law_archive_dir_is_under_tmp(id: Seq<char>)
    requires
        is_uuid(id),
    ensures
        parent_part(archive_dir(id)) == "/tmp"@,
        name_part(archive_dir(id)) == "ghostftp-archive-"@ + id,
{
    reveal_strlit("/tmp/ghostftp-archive-");
    reveal_strlit("/tmp");
    reveal_strlit("ghostftp-archive-");
    law_ids_are_plain(id);
    let dir = archive_dir(id);
    assert forall|i: int| 4 < i < dir.len() implies !is_char('/')(#[trigger] dir[i]) by {
        if i >= 22 {
            assert(dir[i] == id[i - 22]);
            assert(id.contains(id[i - 22]));
        }
    }
    lemma_last_index_is(dir, is_char('/'), 4);
    assert(dir.take(4) == "/tmp"@);
    assert(dir.skip(5) == "ghostftp-archive-"@ + id);
}

/// The state after a sequence of looks at the transfer.
pub open spec fn polled(statuses: Seq<Option<TransferStatus>>) -> Settling
    decreases statuses.len(),
{
    if statuses.len() == 0 {
        Settling::Waiting(0)
    } else {
        polled(statuses.drop_last()).after(statuses.last())
    }
}

/// The archive is removed once the transfer has settled or is gone, or after the last
/// look, and not before.
pub proof fn law_archive_is_removed_when_settled(statuses: Seq<Option<TransferStatus>>)
    ensures
        polled(statuses) is Cleanup <==> statuses.len() >= MAX_POLLS || exists|i: int|
            0 <= i < statuses.len() && #[trigger] statuses[i] != Some(TransferStatus::Underway),
        polled(statuses) matches Settling::Waiting(n) ==> n == statuses.len(),
    decreases statuses.len(),
{
    if statuses.len() > 0 {
        let before = statuses.drop_last();
        law_archive_is_removed_when_settled(before);
        let last = statuses.len() - 1;
        assert(statuses[last] == statuses.last());
        assert forall|i: int| 0 <= i < before.len() implies before[i] == statuses[i] by {}
        if polled(before) is Cleanup {
            if before.len() < MAX_POLLS {
                let i = choose|i: int|
                    0 <= i < before.len() && #[trigger] before[i] != Some(TransferStatus::Underway);
                assert(statuses[i] != Some(TransferStatus::Underway));
            }
        } else {
            if statuses.last() == Some(TransferStatus::Underway) {
                assert forall|i: int| 0 <= i < statuses.len() implies #[trigger] statuses[i]
                    == Some(TransferStatus::Underway) by {
                    if i < last {
                        assert(before[i] == statuses[i]);
                    }
                }
            }
        }
    }
}

/// The hint is given exactly where a zip file was asked for and the server said that
/// something was not found.
pub proof fn law_hint_is_for_missing_zip(stderr: Seq<char>, zip: bool)
    ensures
        zip_hint(stderr, zip).len() > 0 <==> zip && occurs(trimmed(stderr), "not found"@),
{
    reveal_strlit("  (the `zip` command may not be installed on the server — try .tar.gz)");
    reveal_strlit("");
    reveal_strlit("not found");
    reveal_strlit("command not found");
    let said = trimmed(stderr);
    let long = "command not found"@;
    let short = "not found"@;
    if occurs(said, long) {
        let i = choose|i: int| #[trigger] stands_at(said, long, i);
        assert(long.skip(8) == short);
        assert(said.subrange(i + 8, i + 17) == said.subrange(i, i + 17).skip(8));
        assert(stands_at(said, short, i + 8));
    }
}

/// Concatenation is associative.
proof fn lemma_assoc(a: Seq<char>, b: Seq<char>, c: Seq<char>)
    ensures
        a + b + c == a + (b + c),
{
}

/// The words between the quoted texts of the command that builds a zip file.
proof fn lemma_zip_literals()
    ensures
        " && cd "@ == " "@ + ("&&"@ + (" "@ + ("cd"@ + " "@))),
        " && zip -r -q "@ == " "@ + ("&&"@ + (" "@ + ("zip"@ + (" "@ + ("-r"@ + (" "@ + ("-q"@
            + " "@))))))),
        is_plain_word("&&"@),
        is_plain_word("cd"@),
        is_plain_word("zip"@),
        is_plain_word("-r"@),
        is_plain_word("-q"@),
        "./"@ == seq!['.', '/'],
{
    reveal(is_plain_word);
    reveal_strlit(" ");
    reveal_strlit("&&");
    reveal_strlit("cd");
    reveal_strlit("zip");
    reveal_strlit("-r");
    reveal_strlit("-q");
    reveal_strlit("./");
    reveal_strlit(" && cd ");
    reveal_strlit(" && zip -r -q ");
}

/// The words between the quoted texts of the command that builds a compressed tar file.
proof fn lemma_tar_literals()
    ensures
        " && tar -czf "@ == " "@ + ("&&"@ + (" "@ + ("tar"@ + (" "@ + ("-czf"@ + " "@))))),
        " -C "@ == " "@ + ("-C"@ + " "@),
        " -- "@ == " "@ + ("--"@ + " "@),
        is_plain_word("&&"@),
        is_plain_word("tar"@),
        is_plain_word("-czf"@),
        is_plain_word("-C"@),
        is_plain_word("--"@),
{
    reveal(is_plain_word);
    reveal_strlit(" ");
    reveal_strlit("&&");
    reveal_strlit("tar");
    reveal_strlit("-czf");
    reveal_strlit("-C");
    reveal_strlit("--");
    reveal_strlit(" && tar -czf ");
    reveal_strlit(" -C ");
    reveal_strlit(" -- ");
}

/// The words at the beginning of a command that builds an archive.
proof fn lemma_mkdir_literals()
    ensures
        "mkdir -p "@ == "mkdir"@ + (" "@ + ("-p"@ + " "@)),
        is_plain_word("mkdir"@),
        is_plain_word("-p"@),
{
    reveal(is_plain_word);
    reveal_strlit(" ");
    reveal_strlit("mkdir");
    reveal_strlit("-p");
    reveal_strlit("mkdir -p ");
}

/// How `sh` reads the beginning of a command that builds an archive.
proof fn lemma_mkdir_words(dir: Seq<char>, rest: Seq<char>, words: Seq<Seq<char>>)
    requires
        sh_words(rest) == Some(words),
    ensures
        sh_words("mkdir -p "@ + (quoted(dir) + (" "@ + rest))) == Some(
            seq!["mkdir"@] + (seq!["-p"@] + (seq![dir] + words)),
        ),
{
    lemma_mkdir_literals();
    let tail = quoted(dir) + (" "@ + rest);
    lemma_words_next_quoted(dir, rest);
    lemma_words_next("-p"@, tail);
    lemma_words_next("mkdir"@, "-p"@ + (" "@ + tail));
    lemma_assoc("mkdir"@, " "@ + ("-p"@ + " "@), tail);
    lemma_assoc(" "@, "-p"@ + " "@, tail);
    lemma_assoc("-p"@, " "@, tail);
}

/// How `sh` reads the command that builds a zip file.
proof fn lemma_zip_words(dir: Seq<char>, parent: Seq<char>, archive: Seq<char>, member: Seq<char>)
    ensures
        sh_words(
            "mkdir -p "@ + quoted(dir) + " && cd "@ + quoted(parent) + " && zip -r -q "@ + quoted(
                archive,
            ) + " "@ + quoted(member),
        ) == Some(
            seq![
                "mkdir"@,
                "-p"@,
                dir,
                "&&"@,
                "cd"@,
                parent,
                "&&"@,
                "zip"@,
                "-r"@,
                "-q"@,
                archive,
                member,
            ],
        ),
{
    lemma_zip_literals();
    let a = "mkdir -p "@;
    let b = " && cd "@;
    let c = " && zip -r -q "@;
    let sp = " "@;
    let q1 = quoted(dir);
    let q2 = quoted(parent);
    let q3 = quoted(archive);
    let q4 = quoted(member);
    // from the end of the command to its beginning
    lemma_words_last_quoted(member);
    let r1 = q3 + (sp + q4);
    lemma_words_next_quoted(archive, q4);
    let w1 = seq![archive] + seq![member];
    let r2 = "-q"@ + (sp + r1);
    lemma_words_next("-q"@, r1);
    let r3 = "-r"@ + (sp + r2);
    lemma_words_next("-r"@, r2);
    let r4 = "zip"@ + (sp + r3);
    lemma_words_next("zip"@, r3);
    let r5 = "&&"@ + (sp + r4);
    lemma_words_next("&&"@, r4);
    let w5 = seq!["&&"@] + (seq!["zip"@] + (seq!["-r"@] + (seq!["-q"@] + w1)));
    assert(sh_words(r5) == Some(w5));
    lemma_assoc(sp, "&&"@ + (sp + ("zip"@ + (sp + ("-r"@ + (sp + ("-q"@ + sp)))))), r1);
    lemma_assoc("&&"@, sp + ("zip"@ + (sp + ("-r"@ + (sp + ("-q"@ + sp))))), r1);
    lemma_assoc(sp, "zip"@ + (sp + ("-r"@ + (sp + ("-q"@ + sp)))), r1);
    lemma_assoc("zip"@, sp + ("-r"@ + (sp + ("-q"@ + sp))), r1);
    lemma_assoc(sp, "-r"@ + (sp + ("-q"@ + sp)), r1);
    lemma_assoc("-r"@, sp + ("-q"@ + sp), r1);
    lemma_assoc(sp, "-q"@ + sp, r1);
    lemma_assoc("-q"@, sp, r1);
    assert(c + r1 == sp + r5);
    let r6 = q2 + (sp + r5);
    lemma_words_next_quoted(parent, r5);
    let r7 = "cd"@ + (sp + r6);
    lemma_words_next("cd"@, r6);
    let r8 = "&&"@ + (sp + r7);
    lemma_words_next("&&"@, r7);
    let w8 = seq!["&&"@] + (seq!["cd"@] + (seq![parent] + w5));
    assert(sh_words(r8) == Some(w8));
    lemma_assoc(sp, "&&"@ + (sp + ("cd"@ + sp)), r6);
    lemma_assoc("&&"@, sp + ("cd"@ + sp), r6);
    lemma_assoc(sp, "cd"@ + sp, r6);
    lemma_assoc("cd"@, sp, r6);
    assert(b + r6 == sp + r8);
    lemma_mkdir_words(dir, r8, w8);
    // the command as it is composed
    lemma_assoc(a + q1 + b + q2 + c + q3, sp, q4);
    lemma_assoc(a + q1 + b + q2 + c, q3, sp + q4);
    lemma_assoc(a + q1 + b + q2, c, r1);
    lemma_assoc(a + q1 + b, q2, c + r1);
    lemma_assoc(a + q1, b, r6);
    lemma_assoc(a, q1, b + r6);
    assert(seq!["mkdir"@] + (seq!["-p"@] + (seq![dir] + w8)) == seq![
        "mkdir"@,
        "-p"@,
        dir,
        "&&"@,
        "cd"@,
        parent,
        "&&"@,
        "zip"@,
        "-r"@,
        "-q"@,
        archive,
        member,
    ]);
}

/// How `sh` reads the command that builds a compressed tar file.
proof fn lemma_tar_words(dir: Seq<char>, archive: Seq<char>, parent: Seq<char>, base: Seq<char>)
    ensures
        sh_words(
            "mkdir -p "@ + quoted(dir) + " && tar -czf "@ + quoted(archive) + " -C "@ + quoted(
                parent,
            ) + " -- "@ + quoted(base),
        ) == Some(
            seq![
                "mkdir"@,
                "-p"@,
                dir,
                "&&"@,
                "tar"@,
                "-czf"@,
                archive,
                "-C"@,
                parent,
                "--"@,
                base,
            ],
        ),
{
    lemma_tar_literals();
    let a = "mkdir -p "@;
    let b = " && tar -czf "@;
    let c = " -C "@;
    let d = " -- "@;
    let sp = " "@;
    let q1 = quoted(dir);
    let q2 = quoted(archive);
    let q3 = quoted(parent);
    let q4 = quoted(base);
    // from the end of the command to its beginning
    lemma_words_last_quoted(base);
    let r1 = "--"@ + (sp + q4);
    lemma_words_next("--"@, q4);
    lemma_assoc(sp, "--"@ + sp, q4);
    lemma_assoc("--"@, sp, q4);
    assert(d + q4 == sp + r1);
    let r2 = q3 + (sp + r1);
    lemma_words_next_quoted(parent, r1);
    let r3 = "-C"@ + (sp + r2);
    lemma_words_next("-C"@, r2);
    let w3 = seq!["-C"@] + (seq![parent] + (seq!["--"@] + seq![base]));
    assert(sh_words(r3) == Some(w3));
    lemma_assoc(sp, "-C"@ + sp, r2);
    lemma_assoc("-C"@, sp, r2);
    assert(c + r2 == sp + r3);
    let r4 = q2 + (sp + r3);
    lemma_words_next_quoted(archive, r3);
    let r5 = "-czf"@ + (sp + r4);
    lemma_words_next("-czf"@, r4);
    let r6 = "tar"@ + (sp + r5);
    lemma_words_next("tar"@, r5);
    let r7 = "&&"@ + (sp + r6);
    lemma_words_next("&&"@, r6);
    let w7 = seq!["&&"@] + (seq!["tar"@] + (seq!["-czf"@] + (seq![archive] + w3)));
    assert(sh_words(r7) == Some(w7));
    lemma_assoc(sp, "&&"@ + (sp + ("tar"@ + (sp + ("-czf"@ + sp)))), r4);
    lemma_assoc("&&"@, sp + ("tar"@ + (sp + ("-czf"@ + sp))), r4);
    lemma_assoc(sp, "tar"@ + (sp + ("-czf"@ + sp)), r4);
    lemma_assoc("tar"@, sp + ("-czf"@ + sp), r4);
    lemma_assoc(sp, "-czf"@ + sp, r4);
    lemma_assoc("-czf"@, sp, r4);
    assert(b + r4 == sp + r7);
    lemma_mkdir_words(dir, r7, w7);
    // the command as it is composed
    lemma_assoc(a + q1 + b + q2 + c + q3, d, q4);
    lemma_assoc(a + q1 + b + q2 + c, q3, d + q4);
    lemma_assoc(a + q1 + b + q2, c, r2);
    lemma_assoc(a + q1 + b, q2, c + r2);
    lemma_assoc(a + q1, b, r4);
    lemma_assoc(a, q1, b + r4);
    assert(seq!["mkdir"@] + (seq!["-p"@] + (seq![dir] + w7)) == seq![
        "mkdir"@,
        "-p"@,
        dir,
        "&&"@,
        "tar"@,
        "-czf"@,
        archive,
        "-C"@,
        parent,
        "--"@,
        base,
    ]);
}

/// How `sh` reads the command that builds an archive: it makes the temporary directory,
/// then enters the directory that the archived one is in, by `cd` or `-C`, and archives
/// that by its name.
pub proof fn law_build_command_words(parent: Seq<char>, base: Seq<char>, zip: bool, id: Seq<char>)
    ensures
        sh_words(build_command(parent, base, zip, id)) == Some(
            if zip {
                seq![
                    "mkdir"@,
                    "-p"@,
                    archive_dir(id),
                    "&&"@,
                    "cd"@,
                    parent,
                    "&&"@,
                    "zip"@,
                    "-r"@,
                    "-q"@,
                    archive_path(base, zip, id),
                    seq!['.', '/'] + base,
                ]
            } else {
                seq![
                    "mkdir"@,
                    "-p"@,
                    archive_dir(id),
                    "&&"@,
                    "tar"@,
                    "-czf"@,
                    archive_path(base, zip, id),
                    "-C"@,
                    parent,
                    "--"@,
                    base,
                ]
            },
        ),
{
    lemma_zip_literals();
    if zip {
        lemma_zip_words(archive_dir(id), parent, archive_path(base, zip, id), "./"@ + base);
    } else {
        lemma_tar_words(archive_dir(id), archive_path(base, zip, id), parent, base);
    }
}

/// Whether `path` is the path of `name` in `dir`.
pub open spec fn is_path_of(path: Seq<char>, dir: Seq<char>, name: Seq<char>) -> bool {
    ||| path == dir + seq!['/'] + name
    ||| dir == seq!['/'] && path == dir + name
    ||| dir == seq!['.'] && path == name
}

/// The directory that is archived is the one that was asked for: the path without the
/// slashes behind it is the path of the name that the build command archives, in the
/// directory that it enters.
pub proof fn law_archive_is_of_the_directory(
    plan: ArchivePlan,
    path: Seq<char>,
    zip: bool,
    id: Seq<char>,
)
    requires
        is_plan(plan, archive_parent(bare(path)), name_part(bare(path)), zip, id),
    ensures
        sh_words(plan.build@) is Some,
        ({
            let words = sh_words(plan.build@)->Some_0;
            if zip {
                &&& words.len() == 12
                &&& words[4] == "cd"@
                &&& words[7] == "zip"@
                &&& words[11].take(2) == seq!['.', '/']
                &&& is_path_of(bare(path), words[5], words[11].skip(2))
                &&& words[10] == plan.archive@
            } else {
                &&& words.len() == 11
                &&& words[4] == "tar"@
                &&& words[7] == "-C"@
                &&& is_path_of(bare(path), words[8], words[10])
                &&& words[6] == plan.archive@
            }
        }),
        sh_words(plan.build@)->Some_0[2] == plan.tmp_dir@,
{
    let folder = bare(path);
    let parent = archive_parent(folder);
    let base = name_part(folder);
    law_build_command_words(parent, base, zip, id);
    law_split_rejoins(folder);
    reveal_strlit("/");
    reveal_strlit(".");
    assert("/"@ == seq!['/']);
    assert("."@ == seq!['.']);
    assert((seq!['.', '/'] + base).skip(2) == base);
    assert((seq!['.', '/'] + base).take(2) == seq!['.', '/']);
    if folder.contains('/') && parent_part(folder).len() == 0 {
        assert(folder == seq!['/'] + base);
    }
    assert(is_path_of(folder, parent, base));
}

/// The command that removes an archive removes the directory in which it was built, and
/// nothing else.
pub proof fn law_cleanup_command_words(id: Seq<char>)
    ensures
        sh_words(cleanup_command(id)) == Some(seq!["rm"@, "-rf"@, archive_dir(id)]),
{
    reveal(is_plain_word);
    reveal_strlit("rm -rf ");
    reveal_strlit("rm");
    reveal_strlit("-rf");
    reveal_strlit(" ");
    let q = quoted(archive_dir(id));
    assert("rm -rf "@ == "rm"@ + (" "@ + ("-rf"@ + " "@)));
    let tail = "-rf"@ + (" "@ + q);
    lemma_words_last_quoted(archive_dir(id));
    lemma_words_next("-rf"@, q);
    lemma_words_next("rm"@, tail);
    assert(cleanup_command(id) == "rm"@ + (" "@ + tail));
    assert(seq!["-rf"@] + seq![archive_dir(id)] == seq!["-rf"@, archive_dir(id)]);
    assert(seq!["rm"@] + seq!["-rf"@, archive_dir(id)] == seq!["rm"@, "-rf"@, archive_dir(id)]);
}

/// A transfer is looked at up to 14400 times while it is under way.
pub proof fn law_polling_is_bounded(statuses: Seq<Option<TransferStatus>>)
    requires
        forall|i: int|
            0 <= i < statuses.len() ==> #[trigger] statuses[i] == Some(TransferStatus::Underway),
    ensures
        polled(statuses) is Cleanup <==> statuses.len() >= 14400,
{
    law_archive_is_removed_when_settled(statuses);
}

/// The name of an archive ends in `.zip` or in `.tar.gz`, by its format.
pub proof fn law_archive_extension()
    ensures
        extension(true) == seq!['z', 'i', 'p'],
        extension(false) == seq!['t', 'a', 'r', '.', 'g', 'z'],
{
    reveal_strlit("zip");
    reveal_strlit("tar.gz");
    assert("zip"@ == seq!['z', 'i', 'p']);
    assert("tar.gz"@ == seq!['t', 'a', 'r', '.', 'g', 'z']);
}

/// What is told of a failed build is what the server printed, without the white space
/// round it, or that it ended so; a tar file never brings the hint.
pub proof fn law_build_failure_tells_what_was_said(
    before: Seq<char>,
    text: Seq<char>,
    after: Seq<char>,
)
    requires
        all_white(before),
        all_white(after),
        text.len() > 0 ==> !is_white(text[0]) && !is_white(text.last()),
    ensures
        build_failed(before + text + after, false) == "Archive failed: "@ + (if text.len() > 0 {
            text
        } else {
            "non-zero exit"@
        }),
        text.len() > 0 && occurs(text, "not found"@) ==> build_failed(before + text + after, true)
            == "Archive failed: "@ + text
            + "  (the `zip` command may not be installed on the server — try .tar.gz)"@,
        !occurs(text, "not found"@) ==> build_failed(before + text + after, true) == build_failed(
            before + text + after,
            false,
        ),
{
    law_trimmed(before, text, after);
    law_said_or(before, text, after, "non-zero exit"@);
    let stderr = before + text + after;
    law_hint_is_for_missing_zip(stderr, true);
    law_hint_is_for_missing_zip(stderr, false);
    reveal_strlit("");
    assert(zip_hint(stderr, false) == Seq::<char>::empty());
    if !occurs(text, "not found"@) {
        assert(zip_hint(stderr, true) == Seq::<char>::empty());
    }
}

/// The directory that a directory is in is what stands before the last slash of its path;
/// the root, where that is nothing; and the current one, where there is no slash.
pub proof fn law_archive_parent(dir: Seq<char>, name: Seq<char>)
    requires
        !name.contains('/'),
    ensures
        archive_parent(dir + seq!['/'] + name) == if dir.len() > 0 {
            dir
        } else {
            seq!['/']
        },
        archive_parent(name) == seq!['.'],
{
    law_split_path(dir, name);
    reveal_strlit("/");
    assert("/"@ == seq!['/']);
}

} // verus!
