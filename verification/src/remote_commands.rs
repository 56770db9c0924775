//! What remote commands give back.

use crate::text::{all_white, is_white, law_trimmed, trim, trimmed};
use vstd::prelude::*;
use vstd::string::*;

verus! {

/// What a command on the server gave back.
#[derive(Debug, PartialEq, Eq)]
pub struct ExecOutput {
    /// The exit code, where the server sent one.
    pub exit_code: Option<u32>,
    pub stdout: String,
    pub stderr: String,
}

/// Whether a command succeeded: it ended with exit code 0.
pub open spec fn succeeded(out: ExecOutput) -> bool {
    out.exit_code == Some(0u32)
}

/// What a command printed as its error, without blanks around it; `otherwise` where
/// it printed none.
pub open spec fn said_or(stderr: Seq<char>, otherwise: Seq<char>) -> Seq<char> {
    if trimmed(stderr).len() == 0 {
        otherwise
    } else {
        trimmed(stderr)
    }
}

impl ExecOutput {
    /// Whether the command succeeded.
    pub fn success(&self) -> (r: bool)
        ensures
            r == succeeded(*self),
    {
        match self.exit_code {
            Some(code) => code == 0,
            None => false,
        }
    }

    /// What the command printed as its error, or `otherwise`.
    pub fn error_or(&self, otherwise: &str) -> (r: String)
        ensures
            r@ == said_or(self.stderr@, otherwise@),
    {
        let said = trim(self.stderr.as_str());
        if said.is_empty() {
            otherwise.to_owned()
        } else {
            said.to_owned()
        }
    }
}

/// A command succeeded where it ended with exit code 0, not with another one and not
/// without any.
pub proof fn law_only_exit_code_zero_is_success(out: ExecOutput, code: u32)
    ensures
        out.exit_code is None ==> !succeeded(out),
        out.exit_code == Some(code) ==> (succeeded(out) <==> code == 0),
{
}

/// What is told of a failed command is what it printed, without the white space round it;
/// the other text only where it printed white space alone.
pub proof fn law_said_or(before: Seq<char>, text: Seq<char>, after: Seq<char>, otherwise: Seq<char>)
    requires
        all_white(before),
        all_white(after),
        text.len() > 0 ==> !is_white(text[0]) && !is_white(text.last()),
    ensures
        said_or(before + text + after, otherwise) == if text.len() > 0 {
            text
        } else {
            otherwise
        },
{
    law_trimmed(before, text, after);
}

} // verus!
