//! Where profiles of other programs are imported from.

use vstd::prelude::*;
use vstd::string::*;

verus! {

/// Where the profiles of other programs usually are.
#[derive(Debug, PartialEq, Eq)]
pub struct ImporterPaths {
    pub openssh: Option<String>,
    pub filezilla: Option<String>,
    pub putty: Option<String>,
}

/// Where the profiles of other programs usually are, from what is known of each.
pub fn importer_default_paths(
    openssh: Option<String>,
    filezilla: Option<String>,
    putty: Option<String>,
) -> (r: ImporterPaths)
    ensures
        r == (ImporterPaths { openssh, filezilla, putty }),
{
    ImporterPaths { openssh, filezilla, putty }
}

/// The path that was given; else the usual one.
pub open spec fn chosen(given: Option<String>, usual: Option<String>) -> Option<String> {
    match given {
        Some(path) => Some(path),
        None => usual,
    }
}

/// The OpenSSH configuration to import: the given one, else the usual one.
pub fn import_openssh(given: Option<String>, usual: Option<String>) -> (r: Result<String, String>)
    ensures
        match chosen(given, usual) {
            Some(path) => r == Ok::<String, String>(path),
            None => r matches Err(e) && e@ == "could not determine ~/.ssh/config location"@,
        },
{
    match given {
        Some(path) => Ok(path),
        None => match usual {
            Some(path) => Ok(path),
            None => Err("could not determine ~/.ssh/config location".to_owned()),
        },
    }
}

/// The FileZilla site list to import: the given one, else the usual one.
pub fn import_filezilla(given: Option<String>, usual: Option<String>) -> (r: Result<
    String,
    String,
>)
    ensures
        match chosen(given, usual) {
            Some(path) => r == Ok::<String, String>(path),
            None => r matches Err(e) && e@
                == "could not determine FileZilla sitemanager.xml location"@,
        },
{
    match given {
        Some(path) => Ok(path),
        None => match usual {
            Some(path) => Ok(path),
            None => Err("could not determine FileZilla sitemanager.xml location".to_owned()),
        },
    }
}

/// A path that is given is taken, whatever the usual one is; the usual one is taken only
/// where none is given.
pub proof fn law_given_path_is_taken(path: String, usual: Option<String>)
    ensures
        chosen(Some(path), usual) == Some(path),
        chosen(None, usual) == usual,
{
}

} // verus!
