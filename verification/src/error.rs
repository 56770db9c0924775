//! Errors that cross to the user interface.

use vstd::prelude::*;
use vstd::string::*;

verus! {

/// What went wrong, as far as the interface tells it apart.
#[derive(Debug, Clone, Copy, PartialEq, Eq)]
pub enum ErrorKind {
    NotFound,
    InvalidInput,
}

/// An error with a message for the user.
#[derive(Debug, PartialEq, Eq)]
pub struct GhostFTPError {
    pub kind: ErrorKind,
    pub message: String,
}

impl GhostFTPError {
    /// An error of this kind with this message.
    pub fn new(kind: ErrorKind, message: &str) -> (r: Self)
        ensures
            r.kind == kind,
            r.message@ == message@,
    {
        GhostFTPError { kind, message: message.to_owned() }
    }
}

/// The message for a thing that is not there: `<what> <id> not found`.
pub open spec fn missing(what: Seq<char>, id: Seq<char>) -> Seq<char> {
    what + " "@ + id + " not found"@
}

/// The message for a profile that is not saved.
pub fn profile_not_found(id: &str) -> (r: String)
    ensures
        r@ == missing("profile"@, id@),
{
    let mut r = "profile".to_owned();
    r.append(" ");
    r.append(id);
    r.append(" not found");
    r
}

/// The message for a session that is not open.
pub fn session_not_found(id: &str) -> (r: String)
    ensures
        r@ == missing("session"@, id@),
{
    let mut r = "session".to_owned();
    r.append(" ");
    r.append(id);
    r.append(" not found");
    r
}

/// The message names what is missing, and its id, a blank between them.
pub proof fn law_missing_names_the_id(what: Seq<char>, id: Seq<char>)
    ensures
        missing(what, id).take(what.len() as int) == what,
        missing(what, id)[what.len() as int] == ' ',
        missing(what, id).skip(what.len() as int + 1).take(id.len() as int) == id,
        missing(what, id).skip(what.len() as int + 1 + id.len()) == " not found"@,
{
    reveal_strlit(" ");
    reveal_strlit(" not found");
}

} // verus!
