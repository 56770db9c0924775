//! Sessions and what they can do.

use crate::error::{missing, session_not_found};
use crate::text::same;
use vstd::prelude::*;
use vstd::string::*;

verus! {

/// The id of the session that stands for the local file system.
pub const LOCAL_SESSION: &'static str = "local";

/// The transport of an open session.
#[derive(Debug, Clone, Copy, PartialEq, Eq, Structural)]
pub enum Session {
    Ssh,
    Ftp,
    Object,
    Webdav,
    Http,
    Dropbox,
    OneDrive,
    GDrive,
    Box,
    Shopify,
    HubSpot,
    Dynamics,
    Agent,
}

/// The file system through which a session is worked with.
#[derive(Debug, Clone, Copy, PartialEq, Eq, Structural)]
pub enum RemoteFs {
    LocalFs,
    SftpFs,
    FtpFs,
    ObjectFs,
    WebdavFs,
    HttpFs,
    DropboxFs,
    OneDriveFs,
    GDriveFs,
    BoxFs,
    ShopifyFs,
    HubSpotFs,
    DynamicsFs,
    AgentFs,
}

/// The file system of a session.
pub open spec fn fs_of(session: Session) -> RemoteFs {
    match session {
        Session::Ssh => RemoteFs::SftpFs,
        Session::Ftp => RemoteFs::FtpFs,
        Session::Object => RemoteFs::ObjectFs,
        Session::Webdav => RemoteFs::WebdavFs,
        Session::Http => RemoteFs::HttpFs,
        Session::Dropbox => RemoteFs::DropboxFs,
        Session::OneDrive => RemoteFs::OneDriveFs,
        Session::GDrive => RemoteFs::GDriveFs,
        Session::Box => RemoteFs::BoxFs,
        Session::Shopify => RemoteFs::ShopifyFs,
        Session::HubSpot => RemoteFs::HubSpotFs,
        Session::Dynamics => RemoteFs::DynamicsFs,
        Session::Agent => RemoteFs::AgentFs,
    }
}

/// The file system of a session.
pub fn fs_for_session(session: &Session) -> (r: RemoteFs)
    ensures
        r == fs_of(*session),
{
    match session {
        Session::Ssh => RemoteFs::SftpFs,
        Session::Ftp => RemoteFs::FtpFs,
        Session::Object => RemoteFs::ObjectFs,
        Session::Webdav => RemoteFs::WebdavFs,
        Session::Http => RemoteFs::HttpFs,
        Session::Dropbox => RemoteFs::DropboxFs,
        Session::OneDrive => RemoteFs::OneDriveFs,
        Session::GDrive => RemoteFs::GDriveFs,
        Session::Box => RemoteFs::BoxFs,
        Session::Shopify => RemoteFs::ShopifyFs,
        Session::HubSpot => RemoteFs::HubSpotFs,
        Session::Dynamics => RemoteFs::DynamicsFs,
        Session::Agent => RemoteFs::AgentFs,
    }
}

/// Whether an id is that of the local file system.
pub fn is_local(session_id: &str) -> (r: bool)
    ensures
        r == (session_id@ == LOCAL_SESSION@),
{
    same(session_id, LOCAL_SESSION)
}

/// The session that was looked up under `session_id`, or the error that there is none.
pub fn find_session<T>(session_id: &str, found: Option<T>) -> (r: Result<T, String>)
    ensures
        match found {
            Some(session) => r == Ok::<T, String>(session),
            None => r matches Err(e) && e@ == missing("session"@, session_id@),
        },
{
    match found {
        Some(session) => Ok(session),
        None => Err(session_not_found(session_id)),
    }
}

/// The file system under a session id, given the session that was looked up under it.
pub fn fs_for(session_id: &str, found: Option<Session>) -> (r: Result<RemoteFs, String>)
    ensures
        if session_id@ == LOCAL_SESSION@ {
            r == Ok::<RemoteFs, String>(RemoteFs::LocalFs)
        } else {
            match found {
                Some(session) => r == Ok::<RemoteFs, String>(fs_of(session)),
                None => r matches Err(e) && e@ == missing("session"@, session_id@),
            }
        },
{
    if is_local(session_id) {
        return Ok(RemoteFs::LocalFs);
    }
    match find_session(session_id, found) {
        Ok(session) => Ok(fs_for_session(&session)),
        Err(e) => Err(e),
    }
}

/// The file system under a session id, for other parts of the application.
pub fn fs_for_public(session_id: &str, found: Option<Session>) -> (r: Result<RemoteFs, String>)
    ensures
        if session_id@ == LOCAL_SESSION@ {
            r == Ok::<RemoteFs, String>(RemoteFs::LocalFs)
        } else {
            match found {
                Some(session) => r == Ok::<RemoteFs, String>(fs_of(session)),
                None => r matches Err(e) && e@ == missing("session"@, session_id@),
            }
        },
{
    fs_for(session_id, found)
}

/// Whether a terminal can be opened on a session, of which `is_ssh` says whether it
/// is an open SSH session.
pub fn open_terminal(session_id: &str, is_ssh: bool) -> (r: Result<(), String>)
    ensures
        if session_id@ == LOCAL_SESSION@ {
            r matches Err(e) && e@ == "Local terminal is not supported"@
        } else if !is_ssh {
            r matches Err(e) && e@ == "FTP sessions have no shell"@
        } else {
            r is Ok
        },
{
    if is_local(session_id) {
        Err("Local terminal is not supported".to_owned())
    } else if !is_ssh {
        Err("FTP sessions have no shell".to_owned())
    } else {
        Ok(())
    }
}

/// The jobs of a session: none for one that is unknown or has no shell.
pub fn list_agent_jobs<T>(jobs: Option<Vec<T>>) -> (r: Vec<T>)
    ensures
        match jobs {
            Some(v) => r == v,
            None => r@.len() == 0,
        },
{
    match jobs {
        Some(v) => v,
        None => Vec::new(),
    }
}

/// Whether a job can be killed on a session, of which `is_ssh` says whether it is an
/// open SSH session.
pub fn kill_agent_job(session_id: &str, is_ssh: bool) -> (r: Result<(), String>)
    ensures
        r is Ok <==> is_ssh,
        r matches Err(e) ==> e@ == "session "@ + session_id@ + " is not a live SSH connection"@,
{
    if is_ssh {
        return Ok(());
    }
    let mut e = "session ".to_owned();
    e.append(session_id);
    e.append(" is not a live SSH connection");
    Err(e)
}

/// Two sessions share a file system only where they share a transport, and none of
/// them has the local one.
pub proof fn law_each_transport_has_its_own_fs(a: Session, b: Session)
    ensures
        fs_of(a) == fs_of(b) ==> a == b,
        fs_of(a) != RemoteFs::LocalFs,
{
}

/// Each transport has the file system that is named after it, SSH that of SFTP.
pub proof fn law_fs_of_transport(s: Session)
    ensures
        fs_of(s) is SftpFs <==> s is Ssh,
        fs_of(s) is FtpFs <==> s is Ftp,
        fs_of(s) is ObjectFs <==> s is Object,
        fs_of(s) is WebdavFs <==> s is Webdav,
        fs_of(s) is HttpFs <==> s is Http,
        fs_of(s) is DropboxFs <==> s is Dropbox,
        fs_of(s) is OneDriveFs <==> s is OneDrive,
        fs_of(s) is GDriveFs <==> s is GDrive,
        fs_of(s) is BoxFs <==> s is Box,
        fs_of(s) is ShopifyFs <==> s is Shopify,
        fs_of(s) is HubSpotFs <==> s is HubSpot,
        fs_of(s) is DynamicsFs <==> s is Dynamics,
        fs_of(s) is AgentFs <==> s is Agent,
{
}

/// The local file system is the one with the id `local`.
pub proof fn law_local_session_id()
    ensures
        LOCAL_SESSION@ == seq!['l', 'o', 'c', 'a', 'l'],
{
    reveal_strlit("local");
    assert("local"@ == seq!['l', 'o', 'c', 'a', 'l']);
}

} // verus!
