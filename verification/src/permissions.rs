//! Changing the permissions of files, and of everything in a directory.

use crate::error::{missing, ErrorKind, GhostFTPError};
use crate::file_ops::{is_named, names_something};
use crate::local_paths::{
    has_parent, has_root, is_portable, is_root, is_slashes, lemma_slashes_begin,
};
use crate::numerals::{digits, in_base, law_digits_denote, numeral_value};
use crate::remote_commands::{said_or, succeeded, ExecOutput};
use crate::sessions::{find_session, is_local, Session, LOCAL_SESSION};
use crate::shell::{
    is_plain, is_plain_word, lemma_words_last_quoted, lemma_words_next, quoted, sh_quote, sh_words,
};
use crate::tree_walk::{Task, Walk, WalkView};
use vstd::prelude::*;
use vstd::string::*;

verus! {

/// The largest POSIX mode: read, write and execute for everyone.
pub const MAX_MODE: u32 = 0o777;

/// Whether the permissions of `path` can be set to `mode`.
pub fn chmod_path(path: &str, mode: u32) -> (r: Result<(), GhostFTPError>)
    ensures
        r is Ok <==> is_named(path@) && mode <= MAX_MODE,
        r matches Err(e) ==> e.kind is InvalidInput && e.message@
            == "permissions require a named path and a POSIX mode between 000 and 777"@,
{
    if !names_something(path) || mode > MAX_MODE {
        return Err(
            GhostFTPError::new(
                ErrorKind::InvalidInput,
                "permissions require a named path and a POSIX mode between 000 and 777",
            ),
        );
    }
    Ok(())
}

/// How the permissions of a tree are changed.
#[derive(Debug, PartialEq, Eq)]
pub enum RecursiveChmod {
    /// By a walk through the local tree.
    Local,
    /// By this command on the server.
    Remote(String),
}

/// The command that changes the permissions of a remote tree.
pub open spec fn chmod_command(path: Seq<char>, mode: u32) -> Seq<char> {
    "chmod -R "@ + digits((mode & 0o777) as nat, 8) + " -- "@ + quoted(path)
}

fn write_chmod_command(path: &str, mode: u32) -> (r: String)
    ensures
        r@ == chmod_command(path@, mode),
{
    let mut r = "chmod -R ".to_owned();
    r.append(in_base((mode & 0o777) as u64, 8).as_str());
    r.append(" -- ");
    r.append(sh_quote(path).as_str());
    r
}

/// Refuses the root of the local file system: a path that has a root and no parent.
pub fn refuse_root(has_parent: bool, has_root: bool) -> (r: Result<(), String>)
    ensures
        r is Err <==> !has_parent && has_root,
        r matches Err(e) ==> e@ == "Recursive permissions refuse the local filesystem root"@,
{
    if !has_parent && has_root {
        Err("Recursive permissions refuse the local filesystem root".to_owned())
    } else {
        Ok(())
    }
}

/// Whether a result refuses the root of the local file system.
pub open spec fn refuses_root(r: Result<RecursiveChmod, String>) -> bool {
    r matches Err(e) && e@ == "Recursive permissions refuse the local filesystem root"@
}

/// How the permissions of everything in `path` can be changed on this session, given
/// the session that was looked up. The root of the local file system is refused, and so
/// is a transport that cannot guarantee it.
pub fn chmod_path_recursive(
    session_id: &str,
    path: &str,
    mode: u32,
    found: Option<Session>,
) -> (r: Result<RecursiveChmod, String>)
    ensures
        if !is_named(path@) || mode > MAX_MODE {
            r matches Err(e) && e@
                == "Recursive permissions require a named path and a POSIX mode between 000 and 777"@
        } else if session_id@ == LOCAL_SESSION@ {
            &&& refuses_root(r) || r == Ok::<RecursiveChmod, String>(RecursiveChmod::Local)
            &&& is_portable(path@) ==> (refuses_root(r) <==> is_root(path@))
            &&& is_slashes(path@) ==> refuses_root(r)
            &&& !path@.contains('/') && !path@.contains('\\') ==> !refuses_root(r)
        } else {
            match found {
                None => r matches Err(e) && e@ == missing("session"@, session_id@),
                Some(Session::Ssh) => r matches Ok(RecursiveChmod::Remote(command)) && command@
                    == chmod_command(path@, mode),
                Some(_) => r matches Err(e) && e@
                    == "Recursive permissions are supported only for local files and SFTP/SSH connections"@,
            }
        },
{
    if !names_something(path) || mode > MAX_MODE {
        return Err(
            "Recursive permissions require a named path and a POSIX mode between 000 and 777".to_owned(),
        );
    }
    if is_local(session_id) {
        proof {
            if is_slashes(path@) {
                lemma_slashes_begin(path@);
            }
        }
        return match refuse_root(has_parent(path), has_root(path)) {
            Err(e) => Err(e),
            Ok(_) => Ok(RecursiveChmod::Local),
        };
    }
    match find_session(session_id, found) {
        Err(e) => Err(e),
        Ok(session) => match session {
            Session::Ssh => Ok(RecursiveChmod::Remote(write_chmod_command(path, mode))),
            _ => Err(
                "Recursive permissions are supported only for local files and SFTP/SSH connections".to_owned(),
            ),
        },
    }
}

/// The walk that changes the permissions of the local tree at `path`, which begins with
/// `item`: where the path is there, and the platform has POSIX permissions.
pub fn chmod_local<T>(path: &str, item: T, present: bool, unix: bool) -> (r: Result<
    Walk<T>,
    String,
>)
    ensures
        if !present {
            r matches Err(e) && e@ == path@ + " does not exist"@
        } else if !unix {
            r matches Err(e) && e@
                == "Recursive POSIX permissions are not supported on this local platform"@
        } else {
            &&& r matches Ok(walk)
            &&& walk.wf()
            &&& walk@ == WalkView::Active(seq![Task::Visit(item)])
        },
{
    if !present {
        let mut e = path.to_owned();
        e.append(" does not exist");
        return Err(e);
    }
    if !unix {
        return Err(
            "Recursive POSIX permissions are not supported on this local platform".to_owned(),
        );
    }
    Ok(Walk::start(item))
}

/// What came of changing the permissions of a remote tree.
pub fn chmod_outcome(out: &ExecOutput) -> (r: Result<(), String>)
    ensures
        r is Ok <==> succeeded(*out),
        r matches Err(e) ==> e@ == said_or(out.stderr@, "recursive chmod failed"@),
{
    if out.success() {
        Ok(())
    } else {
        Err(out.error_or("recursive chmod failed"))
    }
}

/// The command names the mode that was asked for.
pub proof fn law_command_keeps_mode(path: Seq<char>, mode: u32)
    requires
        mode <= MAX_MODE,
    ensures
        chmod_command(path, mode) == "chmod -R "@ + digits(mode as nat, 8) + " -- "@ + quoted(path),
{
    assert(mode & 0o777 == mode) by (bit_vector)
        requires
            mode <= 0o777,
    ;
}

proof fn lemma_chmod_literals()
    ensures
        "chmod -R "@ == "chmod"@ + (" "@ + ("-R"@ + " "@)),
        " -- "@ == " "@ + ("--"@ + " "@),
        is_plain_word("chmod"@),
        is_plain_word("-R"@),
        is_plain_word("--"@),
{
    reveal(is_plain_word);
    reveal_strlit(" ");
    reveal_strlit("chmod");
    reveal_strlit("-R");
    reveal_strlit("--");
    reveal_strlit("chmod -R ");
    reveal_strlit(" -- ");
}

/// How `sh` reads the command that changes the permissions of a remote tree: the mode in
/// octal digits, and the path as one word that is no option.
pub proof fn law_chmod_command_words(path: Seq<char>, mode: u32)
    requires
        mode <= 0o777,
    ensures
        sh_words(chmod_command(path, mode)) == Some(
            seq!["chmod"@, "-R"@, digits(mode as nat, 8), "--"@, path],
        ),
        numeral_value(digits(mode as nat, 8), 8) == mode,
        MAX_MODE == 511,
{
    lemma_chmod_literals();
    law_command_keeps_mode(path, mode);
    law_digits_denote(mode as nat, 8, 0);
    let d = digits(mode as nat, 8);
    let q = quoted(path);
    let sp = " "@;
    assert(is_plain_word(d)) by {
        reveal(is_plain_word);
        assert forall|i: int| 0 <= i < d.len() implies is_plain(#[trigger] d[i]) by {
            law_digits_denote(mode as nat, 8, i);
        }
    }
    lemma_words_last_quoted(path);
    let r1 = "--"@ + (sp + q);
    lemma_words_next("--"@, q);
    let r2 = d + (sp + r1);
    lemma_words_next(d, r1);
    let r3 = "-R"@ + (sp + r2);
    lemma_words_next("-R"@, r2);
    lemma_words_next("chmod"@, r3);
    assert(chmod_command(path, mode) == "chmod"@ + (sp + r3));
    assert(seq!["chmod"@] + (seq!["-R"@] + (seq![d] + (seq!["--"@] + seq![path]))) == seq![
        "chmod"@,
        "-R"@,
        d,
        "--"@,
        path,
    ]);
}

} // verus!
