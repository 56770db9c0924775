//! Settings of the transfer queue, and of saved snippets and keys, as they are checked
//! before they are applied.

use crate::text::same;
use vstd::prelude::*;
use vstd::string::*;

verus! {

/// How many transfers may run at once, from 1 to 32.
pub fn transfer_set_concurrency(count: u32) -> (r: Result<usize, String>)
    ensures
        r is Ok <==> 1 <= count <= 32,
        r matches Ok(n) ==> n == count,
        r matches Err(e) ==> e@ == "transfer concurrency must be between 1 and 32"@,
{
    if count < 1 || count > 32 {
        return Err("transfer concurrency must be between 1 and 32".to_owned());
    }
    Ok(count as usize)
}

/// How often a failed transfer is tried again by itself, up to 8 times.
pub fn transfer_set_max_retries(attempts: u32) -> (r: Result<usize, String>)
    ensures
        r is Ok <==> attempts <= 8,
        r matches Ok(n) ==> n == attempts,
        r matches Err(e) ==> e@ == "automatic retry attempts must be between 0 and 8"@,
{
    if attempts > 8 {
        return Err("automatic retry attempts must be between 0 and 8".to_owned());
    }
    Ok(attempts as usize)
}

/// Whether a waiting transfer is moved forward in the queue; else it is moved back.
pub fn transfer_move(direction: &str) -> (up: bool)
    ensures
        up <==> direction@ == "up"@,
{
    same(direction, "up")
}

/// The folder that a snippet is saved in: none where its name is empty.
pub fn snippet_save(folder: Option<String>) -> (r: Option<String>)
    ensures
        r == if folder matches Some(name) && name@.len() > 0 {
            folder
        } else {
            None
        },
{
    match folder {
        Some(name) => if name.as_str().is_empty() {
            None
        } else {
            Some(name)
        },
        None => None,
    }
}

/// What happens to the name of a credential in the keychain manifest.
#[derive(Debug, Clone, Copy, PartialEq, Eq, Structural)]
pub enum ManifestChange {
    Record,
    Forget,
}

/// What storing a credential does to the manifest: an empty value clears it.
pub fn set_api_key(value: &str) -> (r: ManifestChange)
    ensures
        r == if value@.len() == 0 {
            ManifestChange::Forget
        } else {
            ManifestChange::Record
        },
{
    if value.is_empty() {
        ManifestChange::Forget
    } else {
        ManifestChange::Record
    }
}

} // verus!
