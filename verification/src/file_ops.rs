//! Renaming, creating directories and previewing files.

use crate::digest::{base64_standard, base64_text};
use crate::error::{ErrorKind, GhostFTPError};
use crate::sessions::{is_local, LOCAL_SESSION};
use crate::text::{all_white, is_white, law_trimmed, same, trim, trimmed};
use vstd::prelude::*;
use vstd::string::*;

verus! {

/// Whether a path names something: it is neither blank nor a dot path.
pub open spec fn is_named(path: Seq<char>) -> bool {
    let p = trimmed(path);
    p.len() > 0 && p != "."@ && p != ".."@
}

/// Whether a path names something.
pub fn names_something(path: &str) -> (r: bool)
    ensures
        r == is_named(path@),
{
    let p = trim(path);
    !(p.is_empty() || same(p, ".") || same(p, ".."))
}

/// Whether there is anything to rename: nothing where both paths are the same.
pub fn rename_path(from: &str, to: &str) -> (r: Result<bool, GhostFTPError>)
    ensures
        r is Ok <==> trimmed(from@).len() > 0 && trimmed(to@).len() > 0,
        r matches Ok(needed) ==> (needed <==> from@ != to@),
        r matches Err(e) ==> e.kind is InvalidInput && e.message@
            == "rename source and destination must not be empty"@,
{
    if trim(from).is_empty() || trim(to).is_empty() {
        return Err(
            GhostFTPError::new(
                ErrorKind::InvalidInput,
                "rename source and destination must not be empty",
            ),
        );
    }
    Ok(!same(from, to))
}

/// Whether a directory can be created at `path`.
pub fn create_directory(path: &str) -> (r: Result<(), GhostFTPError>)
    ensures
        r is Ok <==> is_named(path@),
        r matches Err(e) ==> e.kind is InvalidInput && e.message@
            == "directory path must identify a named directory"@,
{
    if !names_something(path) {
        return Err(
            GhostFTPError::new(
                ErrorKind::InvalidInput,
                "directory path must identify a named directory",
            ),
        );
    }
    Ok(())
}

/// The largest file that is read for a preview: 4 MiB.
pub const MAX_PREVIEW_BYTES: u64 = 4194304;

/// Whether files on this session can be previewed: local ones only.
pub fn read_file_preview(session_id: &str) -> (r: Result<(), String>)
    ensures
        r is Ok <==> session_id@ == LOCAL_SESSION@,
        r matches Err(e) ==> e@ == "preview is only supported for local files"@,
{
    if is_local(session_id) {
        Ok(())
    } else {
        Err("preview is only supported for local files".to_owned())
    }
}

/// Whether a file of `len` bytes is small enough for a preview.
pub fn preview_fits(len: u64) -> (r: Result<(), String>)
    ensures
        r is Ok <==> len <= MAX_PREVIEW_BYTES,
        r matches Err(e) ==> e@ == "file too large for preview"@,
{
    if len > MAX_PREVIEW_BYTES {
        Err("file too large for preview".to_owned())
    } else {
        Ok(())
    }
}

/// The contents of a file as they are handed to the interface: in base64.
pub fn preview_text(data: &Vec<u8>) -> (r: String)
    requires
        data@.len() <= isize::MAX / 2,
    ensures
        r@ == base64_text(data@),
{
    base64_standard(data.as_slice())
}

/// A path names nothing where there is nothing in it between the white space at its ends
/// but at most two dots.
pub proof fn law_named(before: Seq<char>, text: Seq<char>, after: Seq<char>)
    requires
        all_white(before),
        all_white(after),
        text.len() > 0 ==> !is_white(text[0]) && !is_white(text.last()),
    ensures
        is_named(before + text + after) <==> text.len() > 2 || exists|i: int|
            0 <= i < text.len() && #[trigger] text[i] != '.',
{
    law_trimmed(before, text, after);
    reveal_strlit(".");
    reveal_strlit("..");
    if text.len() == 1 && text[0] == '.' {
        assert(text == "."@);
    }
    if text.len() == 2 && text[0] == '.' && text[1] == '.' {
        assert(text == ".."@);
    }
}

} // verus!
