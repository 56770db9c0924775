//! Authorizing cloud accounts.
//!
//! The user authorizes the account in the browser; its tokens are stored under the
//! profile's id; and a throwaway session over them fetches the account's label. A
//! cancelled authorization leaves nothing behind, and a label that cannot be fetched
//! does not undo one that succeeded.

use crate::profiles::{AuthMethod, AuthView, ConnectionProfile};
use crate::search::{begins, starts_with};
use crate::text::{
    all_white, chars_of, drop_end, either, is_white, law_drop_end, law_trimmed,
    lemma_drop_end_shape, trim, trim_end_of, trimmed,
};
use vstd::prelude::*;
use vstd::string::*;

verus! {

/// The account that was authorized, shown to the user to confirm it.
#[derive(Debug, PartialEq, Eq)]
pub struct DropboxAuthResult {
    pub account_label: String,
}

/// The result for an account whose label was fetched, or could not be: the
/// authorization stands either way.
pub fn authorized(label: Option<String>) -> (r: DropboxAuthResult)
    ensures
        match label {
            Some(text) => r.account_label == text,
            None => r.account_label@ == Seq::<char>::empty(),
        },
{
    DropboxAuthResult {
        account_label: match label {
            Some(text) => text,
            None => String::new(),
        },
    }
}

/// Whether `p` is the profile of a throwaway session: nothing in it but whom to
/// reach, at the HTTPS port.
pub open spec fn is_probe(
    p: ConnectionProfile,
    id: Seq<char>,
    protocol: Seq<char>,
    host: Seq<char>,
) -> bool {
    &&& p.id@ == id
    &&& p.name@ == Seq::<char>::empty()
    &&& p.protocol@ == protocol
    &&& p.host@ == host
    &&& p.port == 443
    &&& p.username@ == Seq::<char>::empty()
    &&& p.auth@ == AuthView::Password { password: seq![] }
    &&& p == (ConnectionProfile {
        id: p.id,
        name: p.name,
        protocol: p.protocol,
        host: p.host,
        port: 443,
        username: p.username,
        auth: p.auth,
        default_remote_path: None,
        description: None,
        color: None,
        auto_connect: None,
        bucket: None,
        region: None,
        endpoint: None,
        account: None,
        agent_key: None,
        group: None,
        favorite: None,
        bookmarked: None,
        tags: None,
        last_used: None,
        sort_order: None,
        icon: None,
        jump_host: None,
        jump_port: None,
        jump_username: None,
    })
}

fn probe(id: String, protocol: &str, host: &str) -> (r: ConnectionProfile)
    ensures
        is_probe(r, id@, protocol@, host@),
{
    let password = String::new();
    assert(password@ == Seq::<char>::empty());
    ConnectionProfile {
        id,
        name: String::new(),
        protocol: protocol.to_owned(),
        host: host.to_owned(),
        port: 443,
        username: String::new(),
        auth: AuthMethod::Password { password },
        default_remote_path: None,
        description: None,
        color: None,
        auto_connect: None,
        bucket: None,
        region: None,
        endpoint: None,
        account: None,
        agent_key: None,
        group: None,
        favorite: None,
        bookmarked: None,
        tags: None,
        last_used: None,
        sort_order: None,
        icon: None,
        jump_host: None,
        jump_port: None,
        jump_username: None,
    }
}

/// A cloud service.
#[derive(Debug, Clone, Copy, PartialEq, Eq, Structural)]
pub enum CloudService {
    Dropbox,
    OneDrive,
    GDrive,
    Box,
    Dynamics,
}

/// How far an authorization has come.
#[derive(Debug, PartialEq, Eq)]
pub enum Authorizing {
    /// Let the user authorize the account.
    Authorize,
    /// Store the tokens.
    Store,
    /// Fetch the account's label.
    Probe,
    /// The account is authorized.
    Done(DropboxAuthResult),
    /// The command fails with this error.
    Failed(String),
}

/// How far an authorization has come, as its texts.
pub enum AuthorizingView {
    Authorize,
    Store,
    Probe,
    Done { account_label: Seq<char> },
    Failed(Seq<char>),
}

impl View for Authorizing {
    type V = AuthorizingView;

    open spec fn view(&self) -> AuthorizingView {
        match self {
            Authorizing::Authorize => AuthorizingView::Authorize,
            Authorizing::Store => AuthorizingView::Store,
            Authorizing::Probe => AuthorizingView::Probe,
            Authorizing::Done(result) => AuthorizingView::Done {
                account_label: result.account_label@,
            },
            Authorizing::Failed(e) => AuthorizingView::Failed(e@),
        }
    }
}

/// The label that is shown: the one that was fetched, or none.
pub open spec fn shown_label(fetched: Result<Option<String>, String>) -> Seq<char> {
    match fetched {
        Ok(Some(label)) => label@,
        _ => seq![],
    }
}

impl AuthorizingView {
    /// The stage after this one has been carried out. The label comes with the outcome of
    /// the probe; of the other stages only success or failure counts.
    pub open spec fn after(self, outcome: Result<Option<String>, String>) -> AuthorizingView {
        match self {
            AuthorizingView::Authorize => match outcome {
                Ok(_) => AuthorizingView::Store,
                Err(e) => AuthorizingView::Failed(e@),
            },
            AuthorizingView::Store => match outcome {
                Ok(_) => AuthorizingView::Probe,
                Err(e) => AuthorizingView::Failed(e@),
            },
            AuthorizingView::Probe => AuthorizingView::Done { account_label: shown_label(outcome) },
            other => other,
        }
    }
}

impl Authorizing {
    /// Goes on after the stage has been carried out.
    pub fn next(self, outcome: Result<Option<String>, String>) -> (r: Self)
        ensures
            r@ == self@.after(outcome),
    {
        match self {
            Authorizing::Authorize => match outcome {
                Ok(_) => Authorizing::Store,
                Err(e) => Authorizing::Failed(e),
            },
            Authorizing::Store => match outcome {
                Ok(_) => Authorizing::Probe,
                Err(e) => Authorizing::Failed(e),
            },
            Authorizing::Probe => Authorizing::Done(
                authorized(
                    match outcome {
                        Ok(label) => label,
                        Err(_) => None,
                    },
                ),
            ),
            other => other,
        }
    }
}

/// An authorization under way.
#[derive(Debug, PartialEq, Eq)]
pub struct Authorization {
    pub service: CloudService,
    /// The profile of the throwaway session.
    pub probe: ConnectionProfile,
    pub stage: Authorizing,
}

/// What is to be done next.
#[derive(Debug, PartialEq, Eq)]
pub enum CloudAction<'a> {
    /// Let the user authorize an account of the service at this host.
    Authorize { service: CloudService, host: &'a str },
    /// Store the tokens for the service under this profile's id.
    Store { service: CloudService, profile_id: &'a str },
    /// Open a session with this profile and fetch the account's label.
    Probe(&'a ConnectionProfile),
    /// Nothing: the command succeeds with this result.
    Done(&'a DropboxAuthResult),
    /// Nothing: the command fails with this error.
    Failed(&'a str),
}

/// Whether an authorization begins: for this service and host, with nothing done yet.
pub open spec fn begins_with(
    r: Authorization,
    service: CloudService,
    id: Seq<char>,
    protocol: Seq<char>,
    host: Seq<char>,
) -> bool {
    &&& r.service == service
    &&& is_probe(r.probe, id, protocol, host)
    &&& r.stage is Authorize
}

impl Authorization {
    /// What is to be done next. The account is authorized at the host that the probe
    /// reaches, and its tokens are kept under the id of the profile.
    pub fn action(&self) -> (r: CloudAction<'_>)
        ensures
            match self.stage {
                Authorizing::Authorize => r matches CloudAction::Authorize { service, host }
                    && service == self.service && host@ == self.probe.host@,
                Authorizing::Store => r matches CloudAction::Store { service, profile_id }
                    && service == self.service && profile_id@ == self.probe.id@,
                Authorizing::Probe => r matches CloudAction::Probe(p) && *p == self.probe,
                Authorizing::Done(result) => r matches CloudAction::Done(x) && *x == result,
                Authorizing::Failed(e) => r matches CloudAction::Failed(x) && x@ == e@,
            },
    {
        match &self.stage {
            Authorizing::Authorize => CloudAction::Authorize {
                service: self.service,
                host: self.probe.host.as_str(),
            },
            Authorizing::Store => CloudAction::Store {
                service: self.service,
                profile_id: self.probe.id.as_str(),
            },
            Authorizing::Probe => CloudAction::Probe(&self.probe),
            Authorizing::Done(result) => CloudAction::Done(result),
            Authorizing::Failed(e) => CloudAction::Failed(e.as_str()),
        }
    }

    /// Goes on after the action has been carried out.
    pub fn next(self, outcome: Result<Option<String>, String>) -> (r: Self)
        ensures
            r.service == self.service,
            r.probe == self.probe,
            r.stage@ == self.stage@.after(outcome),
    {
        Authorization {
            service: self.service,
            probe: self.probe,
            stage: self.stage.next(outcome),
        }
    }
}

/// Begins to authorize a Dropbox account.
pub fn dropbox_authorize(profile_id: String) -> (r: Authorization)
    ensures
        begins_with(r, CloudService::Dropbox, profile_id@, "dropbox"@, "dropbox.com"@),
{
    Authorization {
        service: CloudService::Dropbox,
        probe: probe(profile_id, "dropbox", "dropbox.com"),
        stage: Authorizing::Authorize,
    }
}

/// Begins to authorize a OneDrive account.
pub fn onedrive_authorize(profile_id: String) -> (r: Authorization)
    ensures
        begins_with(r, CloudService::OneDrive, profile_id@, "onedrive"@, "onedrive.com"@),
{
    Authorization {
        service: CloudService::OneDrive,
        probe: probe(profile_id, "onedrive", "onedrive.com"),
        stage: Authorizing::Authorize,
    }
}

/// Begins to authorize a Google Drive account.
pub fn gdrive_authorize(profile_id: String) -> (r: Authorization)
    ensures
        begins_with(r, CloudService::GDrive, profile_id@, "gdrive"@, "drive.google.com"@),
{
    Authorization {
        service: CloudService::GDrive,
        probe: probe(profile_id, "gdrive", "drive.google.com"),
        stage: Authorizing::Authorize,
    }
}

/// Begins to authorize a Box account.
pub fn box_authorize(profile_id: String) -> (r: Authorization)
    ensures
        begins_with(r, CloudService::Box, profile_id@, "box"@, "box.com"@),
{
    Authorization {
        service: CloudService::Box,
        probe: probe(profile_id, "box", "box.com"),
        stage: Authorizing::Authorize,
    }
}

// ---------------------------------------------------------------- Dynamics
/// `s` without the prefix `p`, as often as it stands there.
pub open spec fn without_prefix(s: Seq<char>, p: Seq<char>) -> Seq<char>
    decreases s.len(),
{
    if p.len() > 0 && begins(s, p) {
        without_prefix(s.skip(p.len() as int), p)
    } else {
        s
    }
}

/// Strips the prefix `p`, as often as it stands there.
fn strip_prefix<'a>(s: &'a str, p: &str) -> (r: &'a str)
    requires
        p@.len() > 0,
    ensures
        r@ == without_prefix(s@, p@),
{
    let from: usize = chars_of(p).len();
    let mut rest = s;
    while starts_with(rest, p)
        invariant
            p@.len() > 0,
            from == p@.len(),
            without_prefix(rest@, p@) == without_prefix(s@, p@),
        decreases rest@.len(),
    {
        let len: usize = chars_of(rest).len();
        let ghost before = rest@;
        rest = rest.substring_char(from, len);
        assert(rest@ == before.skip(p@.len() as int));
    }
    rest
}

/// The host of a Dynamics environment, from the URL that was typed in: without
/// blanks around it, without its scheme and without slashes behind it.
pub open spec fn environment_host(typed: Seq<char>) -> Seq<char> {
    drop_end(
        without_prefix(without_prefix(trimmed(typed), "https://"@), "http://"@),
        either('/', '/'),
    )
}

/// The host of a Dynamics environment, from the URL that was typed in.
pub fn dynamics_host(typed: &str) -> (r: String)
    ensures
        r@ == environment_host(typed@),
{
    proof {
        reveal_strlit("https://");
        reveal_strlit("http://");
    }
    trim_end_of(strip_prefix(strip_prefix(trim(typed), "https://"), "http://"), '/', '/').to_owned()
}

/// Begins to authorize a Dynamics account in the environment whose URL was typed in. The
/// account is authorized, and its label fetched, at the environment's host.
pub fn dynamics_authorize(profile_id: String, host: &str) -> (r: Authorization)
    ensures
        begins_with(
            r,
            CloudService::Dynamics,
            profile_id@,
            "dynamics"@,
            environment_host(host@),
        ),
{
    let host = dynamics_host(host);
    Authorization {
        service: CloudService::Dynamics,
        probe: probe(profile_id, "dynamics", host.as_str()),
        stage: Authorizing::Authorize,
    }
}

// ---------------------------------------------------------------- laws
proof fn lemma_without_prefix(s: Seq<char>, p: Seq<char>)
    requires
        p.len() > 0,
    ensures
        !begins(without_prefix(s, p), p),
    decreases s.len(),
{
    if begins(s, p) {
        lemma_without_prefix(s.skip(p.len() as int), p);
    }
}

/// The host of an environment neither begins with `http://` nor ends in a slash.
pub proof fn law_environment_host_is_bare(typed: Seq<char>)
    ensures
        !begins(environment_host(typed), "http://"@),
        environment_host(typed).len() > 0 ==> environment_host(typed).last() != '/',
{
    reveal_strlit("http://");
    let p = "http://"@;
    let s = without_prefix(without_prefix(trimmed(typed), "https://"@), p);
    let host = environment_host(typed);
    lemma_without_prefix(without_prefix(trimmed(typed), "https://"@), p);
    lemma_drop_end_shape(s, either('/', '/'));
    if begins(host, p) {
        assert(s.take(p.len() as int) == host.take(p.len() as int));
    }
}

/// How far an authorization has come after some stages.
pub open spec fn authorizing(outcomes: Seq<Result<Option<String>, String>>) -> AuthorizingView
    decreases outcomes.len(),
{
    if outcomes.len() == 0 {
        AuthorizingView::Authorize
    } else {
        authorizing(outcomes.drop_last()).after(outcomes.last())
    }
}

/// Whether tokens have been stored after some stages.
pub open spec fn tokens_stored(outcomes: Seq<Result<Option<String>, String>>) -> bool
    decreases outcomes.len(),
{
    outcomes.len() > 0 && (tokens_stored(outcomes.drop_last()) || (authorizing(
        outcomes.drop_last(),
    ) is Store && outcomes.last() is Ok))
}

/// How every authorization goes: the tokens are stored only once the account is
/// authorized; the command fails with the error of authorizing or of storing, and with
/// no other; and once the tokens are stored it succeeds, with the label that the probe
/// fetched, or none where the probe failed or had none.
pub proof fn law_authorization_outcome(outcomes: Seq<Result<Option<String>, String>>)
    ensures
        authorizing(outcomes) == if outcomes.len() == 0 {
            AuthorizingView::Authorize
        } else if outcomes[0] is Err {
            AuthorizingView::Failed(outcomes[0]->Err_0@)
        } else if outcomes.len() == 1 {
            AuthorizingView::Store
        } else if outcomes[1] is Err {
            AuthorizingView::Failed(outcomes[1]->Err_0@)
        } else if outcomes.len() == 2 {
            AuthorizingView::Probe
        } else {
            AuthorizingView::Done { account_label: shown_label(outcomes[2]) }
        },
        tokens_stored(outcomes) <==> outcomes.len() >= 2 && outcomes[0] is Ok && outcomes[1] is Ok,
    decreases outcomes.len(),
{
    if outcomes.len() > 0 {
        let before = outcomes.drop_last();
        law_authorization_outcome(before);
        assert forall|i: int| 0 <= i < before.len() implies #[trigger] outcomes[i] == before[i] by {}
    }
}

/// A failed or cancelled authorization stores nothing, and a failed command leaves no
/// tokens in store.
pub proof fn law_failed_authorization_stores_nothing(outcomes: Seq<Result<Option<String>, String>>)
    ensures
        outcomes.len() > 0 && outcomes[0] is Err ==> !tokens_stored(outcomes),
        authorizing(outcomes) is Failed ==> !tokens_stored(outcomes),
        authorizing(outcomes) is Done ==> tokens_stored(outcomes),
{
    law_authorization_outcome(outcomes);
}

/// The outcome of the probe never makes the command fail.
pub proof fn law_failed_probe_is_no_failure(outcome: Result<Option<String>, String>)
    ensures
        AuthorizingView::Probe.after(outcome) == (AuthorizingView::Done {
            account_label: shown_label(outcome),
        }),
        outcome is Err ==> shown_label(outcome) == Seq::<char>::empty(),
{
}

/// The label that is shown is the one that was fetched; where none was, an empty one.
pub proof fn law_shown_label(label: String, error: String)
    ensures
        shown_label(Ok(Some(label))) == label@,
        shown_label(Ok(None)) == Seq::<char>::empty(),
        shown_label(Err(error)) == Seq::<char>::empty(),
{
}

/// The host of an environment is what stands between the scheme and the slashes at the
/// end of the URL, whatever white space is round it. It must not look like a scheme
/// itself.
pub proof fn law_environment_host(
    before: Seq<char>,
    scheme: Seq<char>,
    host: Seq<char>,
    slashes: Seq<char>,
    after: Seq<char>,
)
    requires
        all_white(before),
        all_white(after),
        scheme.len() == 0 || scheme == "http://"@ || scheme == "https://"@,
        host.len() > 0,
        !is_white(host[0]),
        !is_white(host.last()),
        host.last() != '/',
        forall|i: int| 0 <= i < slashes.len() ==> slashes[i] == '/',
        !begins(host + slashes, "http://"@),
        !begins(host + slashes, "https://"@),
    ensures
        environment_host(before + (scheme + host + slashes) + after) == host,
{
    reveal_strlit("http://");
    reveal_strlit("https://");
    let p = "https://"@;
    let q = "http://"@;
    let rest = host + slashes;
    let text = scheme + host + slashes;
    assert(text == scheme + rest);
    if scheme.len() > 0 {
        assert(text[0] == 'h');
    } else {
        assert(text[0] == host[0]);
    }
    if slashes.len() > 0 {
        assert(text.last() == slashes[slashes.len() - 1]);
    } else {
        assert(text.last() == host.last());
    }
    law_trimmed(before, text, after);
    assert(without_prefix(rest, q) == rest);
    assert(without_prefix(rest, p) == rest);
    if scheme.len() == 0 {
        assert(text == rest);
    } else if scheme == q {
        assert(text.take(8)[4] == ':');
        assert(p[4] == 's');
        assert(!begins(text, p));
        assert(text.take(7) == q);
        assert(text.skip(7) == rest);
    } else {
        assert(text.take(8) == p);
        assert(text.skip(8) == rest);
    }
    law_drop_end(host, slashes, either('/', '/'));
}

/// A throwaway session reaches the host under the profile's id, at the HTTPS port, and
/// brings neither a login nor anything else along.
pub proof fn law_probe_brings_nothing(
    p: ConnectionProfile,
    id: Seq<char>,
    protocol: Seq<char>,
    host: Seq<char>,
)
    requires
        is_probe(p, id, protocol, host),
    ensures
        p.id@ == id,
        p.protocol@ == protocol,
        p.host@ == host,
        p.port == 443,
        p.name@.len() == 0,
        p.username@.len() == 0,
        p.auth@ is Password,
        p.auth@->password.len() == 0,
        p.agent_key is None,
        p.account is None,
        p.bucket is None,
        p.region is None,
        p.endpoint is None,
        p.default_remote_path is None,
        p.auto_connect is None,
        p.jump_host is None,
        p.jump_port is None,
        p.jump_username is None,
        p.last_used is None,
        p.favorite is None,
        p.sort_order is None,
{
}

/// An authorization begins with letting the user authorize the account, at the host that
/// its throwaway session reaches.
pub proof fn law_authorization_begins(
    r: Authorization,
    service: CloudService,
    id: Seq<char>,
    protocol: Seq<char>,
    host: Seq<char>,
)
    requires
        begins_with(r, service, id, protocol, host),
    ensures
        r.service == service,
        r.stage@ == authorizing(seq![]),
        r.probe.id@ == id,
        r.probe.protocol@ == protocol,
        r.probe.host@ == host,
{
}

} // verus!
