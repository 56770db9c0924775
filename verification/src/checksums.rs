//! SHA-256 checksums of local and remote files.

use crate::digest::Checksum;
use crate::error::missing;
use crate::remote_commands::{said_or, succeeded, ExecOutput};
use crate::sessions::{find_session, is_local, Session, LOCAL_SESSION};
use crate::shell::{quoted, sh_quote};
use crate::text::{first_word, leading_word};
use vstd::prelude::*;
use vstd::string::*;

verus! {

/// Where a checksum comes from.
#[derive(Debug, PartialEq, Eq)]
pub enum ChecksumSource {
    /// From reading the local file.
    Local,
    /// From this command on the server.
    Remote(String),
}

/// Where the checksum of `path` on this session comes from, given the session that was
/// looked up. A transport that cannot compute it is refused.
pub fn checksum_path(session_id: &str, path: &str, found: Option<Session>) -> (r: Result<
    ChecksumSource,
    String,
>)
    ensures
        if session_id@ == LOCAL_SESSION@ {
            r == Ok::<ChecksumSource, String>(ChecksumSource::Local)
        } else {
            match found {
                None => r matches Err(e) && e@ == missing("session"@, session_id@),
                Some(Session::Ssh) => r matches Ok(ChecksumSource::Remote(command)) && command@
                    == "sha256sum -b -- "@ + quoted(path@),
                Some(_) => r matches Err(e) && e@
                    == "SHA-256 is currently supported for local files and SFTP/SSH connections"@,
            }
        },
{
    if is_local(session_id) {
        return Ok(ChecksumSource::Local);
    }
    match find_session(session_id, found) {
        Err(e) => Err(e),
        Ok(session) => match session {
            Session::Ssh => {
                let mut command = "sha256sum -b -- ".to_owned();
                command.append(sh_quote(path).as_str());
                Ok(ChecksumSource::Remote(command))
            },
            _ => Err(
                "SHA-256 is currently supported for local files and SFTP/SSH connections".to_owned(),
            ),
        },
    }
}

/// The checksum of a local file, to be fed with what is read of it. A directory has
/// none.
pub fn checksum_local(is_dir: bool) -> (r: Result<Checksum, String>)
    ensures
        r is Ok <==> !is_dir,
        r matches Ok(c) ==> c@ == Seq::<u8>::empty(),
        r matches Err(e) ==> e@ == "Checksums are available for files only"@,
{
    if is_dir {
        Err("Checksums are available for files only".to_owned())
    } else {
        Ok(Checksum::new())
    }
}

/// Whether a word has the length of a SHA-256 checksum: 64 bytes.
pub open spec fn has_checksum_length(word: Seq<char>) -> bool {
    vstd::utf8::encode_utf8(word).len() == 64
}

/// The checksum that the server computed: the first word it printed, where that has
/// the length of one.
pub fn checksum_outcome(out: &ExecOutput) -> (r: Result<String, String>)
    ensures
        if !succeeded(*out) {
            r matches Err(e) && e@ == said_or(out.stderr@, "checksum failed"@)
        } else if has_checksum_length(first_word(out.stdout@)) {
            r matches Ok(word) && word@ == first_word(out.stdout@)
        } else {
            r matches Err(e) && e@ == "server returned an invalid SHA-256 result"@
        },
{
    if !out.success() {
        return Err(out.error_or("checksum failed"));
    }
    let word = leading_word(out.stdout.as_str());
    if word.as_bytes().len() == 64 {
        Ok(word.to_owned())
    } else {
        Err("server returned an invalid SHA-256 result".to_owned())
    }
}

/// A word of ASCII characters has the length of a checksum where it has 64 of them.
pub proof fn law_checksum_has_64_characters(word: Seq<char>)
    requires
        vstd::utf8::is_ascii_chars(word),
    ensures
        has_checksum_length(word) <==> word.len() == 64,
{
    vstd::utf8::is_ascii_chars_encode_utf8(word);
}

} // verus!
