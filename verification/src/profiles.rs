//! Saved connection profiles and the secrets that belong to them.
//!
//! Secrets never stay in a saved profile: they are moved to the credential store
//! before a profile is written, and fetched from there when a connection is made.

use vstd::prelude::*;
use vstd::string::*;

verus! {

/// How a profile logs in.
#[derive(Debug, PartialEq, Eq)]
pub enum AuthMethod {
    Password { password: String },
    Key { path: String, passphrase: Option<String> },
    Agent,
    KeyRef { key_ref: String },
}

/// A login method as its texts.
pub enum AuthView {
    Password { password: Seq<char> },
    Key { path: Seq<char>, passphrase: Option<Seq<char>> },
    Agent,
    KeyRef { key_ref: Seq<char> },
}

/// A text, where there is one.
pub open spec fn opt_view(s: Option<String>) -> Option<Seq<char>> {
    match s {
        Some(t) => Some(t@),
        None => None,
    }
}

impl View for AuthMethod {
    type V = AuthView;

    open spec fn view(&self) -> AuthView {
        match self {
            AuthMethod::Password { password } => AuthView::Password { password: password@ },
            AuthMethod::Key { path, passphrase } => AuthView::Key {
                path: path@,
                passphrase: opt_view(*passphrase),
            },
            AuthMethod::Agent => AuthView::Agent,
            AuthMethod::KeyRef { key_ref } => AuthView::KeyRef { key_ref: key_ref@ },
        }
    }
}

/// A saved connection.
#[derive(Debug, PartialEq, Eq)]
pub struct ConnectionProfile {
    pub id: String,
    pub name: String,
    pub protocol: String,
    pub host: String,
    pub port: u16,
    pub username: String,
    pub auth: AuthMethod,
    pub default_remote_path: Option<String>,
    pub description: Option<String>,
    pub color: Option<String>,
    pub auto_connect: Option<bool>,
    pub bucket: Option<String>,
    pub region: Option<String>,
    pub endpoint: Option<String>,
    pub account: Option<String>,
    pub agent_key: Option<String>,
    pub group: Option<String>,
    pub favorite: Option<bool>,
    pub bookmarked: Option<bool>,
    pub tags: Option<Vec<String>>,
    pub last_used: Option<u64>,
    pub sort_order: Option<u64>,
    pub icon: Option<String>,
    pub jump_host: Option<String>,
    pub jump_port: Option<u16>,
    pub jump_username: Option<String>,
}

// ---------------------------------------------------------------- secrets
/// Where the password of profile `id` is stored.
pub open spec fn password_key(id: Seq<char>) -> Seq<char> {
    "profile-password:"@ + id
}

/// Where the key passphrase of profile `id` is stored.
pub open spec fn passphrase_key(id: Seq<char>) -> Seq<char> {
    "profile-key-passphrase:"@ + id
}

/// The name under which the password of profile `id` is stored.
pub fn profile_password_key(id: &str) -> (r: String)
    ensures
        r@ == password_key(id@),
{
    let mut r = "profile-password:".to_owned();
    r.append(id);
    r
}

/// The name under which the key passphrase of profile `id` is stored.
pub fn profile_key_passphrase_key(id: &str) -> (r: String)
    ensures
        r@ == passphrase_key(id@),
{
    let mut r = "profile-key-passphrase:".to_owned();
    r.append(id);
    r
}

/// The secret that a login method carries: a password or a passphrase that is
/// not empty.
pub open spec fn secret_of(auth: AuthView) -> Option<Seq<char>> {
    match auth {
        AuthView::Password { password } if password.len() > 0 => Some(password),
        AuthView::Key { passphrase: Some(value), .. } if value.len() > 0 => Some(value),
        _ => None,
    }
}

/// Where the secret of a login method is stored: by the kind of the method.
pub open spec fn secret_key(auth: AuthView, id: Seq<char>) -> Seq<char> {
    match auth {
        AuthView::Password { .. } => password_key(id),
        _ => passphrase_key(id),
    }
}

/// The login method without the secret it carries.
pub open spec fn protected(auth: AuthView) -> AuthView {
    if secret_of(auth) is None {
        auth
    } else {
        match auth {
            AuthView::Password { .. } => AuthView::Password { password: seq![] },
            AuthView::Key { path, .. } => AuthView::Key { path, passphrase: None },
            other => other,
        }
    }
}

/// A secret and the name under which it is to be stored.
#[derive(Debug, PartialEq, Eq)]
pub struct SecretEntry {
    pub key: String,
    pub value: String,
}

/// A profile fit to be written, and the secret that must be stored, and recorded
/// as stored, before it is.
#[derive(Debug, PartialEq, Eq)]
pub struct Protected {
    pub profile: ConnectionProfile,
    pub secret: Option<SecretEntry>,
}

/// Whether `p` is `profile` with its secret moved out into an entry of its own.
pub open spec fn protects(p: Protected, profile: ConnectionProfile) -> bool {
    &&& p.profile == (ConnectionProfile { auth: p.profile.auth, ..profile })
    &&& p.profile.auth@ == protected(profile.auth@)
    &&& p.secret is Some <==> secret_of(profile.auth@) is Some
    &&& p.secret matches Some(entry) ==> {
        &&& entry.key@ == secret_key(profile.auth@, profile.id@)
        &&& Some(entry.value@) == secret_of(profile.auth@)
    }
}

/// Moves the secret of a profile out of it. The profile counts as changed exactly
/// when there was a secret to move.
pub fn protect_profile_secrets(profile: ConnectionProfile) -> (r: Protected)
    ensures
        protects(r, profile),
{
    match profile.auth {
        AuthMethod::Password { password } => {
            if password.as_str().is_empty() {
                Protected {
                    profile: ConnectionProfile {
                        auth: AuthMethod::Password { password },
                        ..profile
                    },
                    secret: None,
                }
            } else {
                let key = profile_password_key(profile.id.as_str());
                let cleared = AuthMethod::Password { password: String::new() };
                Protected {
                    profile: ConnectionProfile { auth: cleared, ..profile },
                    secret: Some(SecretEntry { key, value: password }),
                }
            }
        },
        AuthMethod::Key { path, passphrase } => match passphrase {
            Some(value) => {
                if value.as_str().is_empty() {
                    let auth = AuthMethod::Key { path, passphrase: Some(value) };
                    Protected { profile: ConnectionProfile { auth, ..profile }, secret: None }
                } else {
                    let key = profile_key_passphrase_key(profile.id.as_str());
                    let auth = AuthMethod::Key { path, passphrase: None };
                    Protected {
                        profile: ConnectionProfile { auth, ..profile },
                        secret: Some(SecretEntry { key, value }),
                    }
                }
            },
            None => {
                let auth = AuthMethod::Key { path, passphrase: None };
                Protected { profile: ConnectionProfile { auth, ..profile }, secret: None }
            },
        },
        AuthMethod::Agent => Protected {
            profile: ConnectionProfile { auth: AuthMethod::Agent, ..profile },
            secret: None,
        },
        AuthMethod::KeyRef { key_ref } => Protected {
            profile: ConnectionProfile { auth: AuthMethod::KeyRef { key_ref }, ..profile },
            secret: None,
        },
    }
}

/// Whether a login method lacks a secret that may be in store.
pub open spec fn lacks_secret(auth: AuthView) -> bool {
    match auth {
        AuthView::Password { password } => password.len() == 0,
        AuthView::Key { passphrase, .. } => passphrase is None,
        _ => false,
    }
}

/// The login method with a fetched secret filled in where one is lacking.
pub open spec fn hydrated(auth: AuthView, fetched: Option<Seq<char>>) -> AuthView {
    match fetched {
        Some(value) if lacks_secret(auth) => match auth {
            AuthView::Password { .. } => AuthView::Password { password: value },
            AuthView::Key { path, .. } => AuthView::Key { path, passphrase: Some(value) },
            other => other,
        },
        _ => auth,
    }
}

/// The name of the stored secret that a connection with this profile needs, if it
/// lacks one.
pub fn secret_to_fetch(profile: &ConnectionProfile) -> (r: Option<String>)
    ensures
        r is Some <==> lacks_secret(profile.auth@),
        r matches Some(key) ==> key@ == secret_key(profile.auth@, profile.id@),
{
    match &profile.auth {
        AuthMethod::Password { password } => if password.as_str().is_empty() {
            Some(profile_password_key(profile.id.as_str()))
        } else {
            None
        },
        AuthMethod::Key { passphrase, .. } => if passphrase.is_none() {
            Some(profile_key_passphrase_key(profile.id.as_str()))
        } else {
            None
        },
        _ => None,
    }
}

/// Fills in the fetched secret where the profile lacks one.
pub fn hydrate_profile_secrets(profile: ConnectionProfile, fetched: Option<String>) -> (r:
    ConnectionProfile)
    ensures
        r == (ConnectionProfile { auth: r.auth, ..profile }),
        r.auth@ == hydrated(profile.auth@, opt_view(fetched)),
{
    match profile.auth {
        AuthMethod::Password { password } => {
            let empty = password.as_str().is_empty();
            let password = match fetched {
                Some(value) => if empty {
                    value
                } else {
                    password
                },
                None => password,
            };
            ConnectionProfile { auth: AuthMethod::Password { password }, ..profile }
        },
        AuthMethod::Key { path, passphrase } => {
            let passphrase = match passphrase {
                Some(value) => Some(value),
                None => fetched,
            };
            ConnectionProfile { auth: AuthMethod::Key { path, passphrase }, ..profile }
        },
        other => ConnectionProfile { auth: other, ..profile },
    }
}

// ---------------------------------------------------------------- laws
/// A protected profile carries no secret, and protecting it again changes nothing.
pub proof fn law_protected_holds_no_secret(auth: AuthView)
    ensures
        secret_of(protected(auth)) is None,
        protected(protected(auth)) == protected(auth),
{
}

/// Protecting a profile that carries no secret leaves it as it is.
pub proof fn law_protect_without_secret_is_noop(auth: AuthView)
    requires
        secret_of(auth) is None,
    ensures
        protected(auth) == auth,
{
}

/// A connection looks for a stored secret under the name under which protecting
/// the profile stored it, and filling it in gives back the login method as it was.
pub proof fn law_hydrate_undoes_protect(auth: AuthView, id: Seq<char>)
    requires
        secret_of(auth) is Some,
    ensures
        lacks_secret(protected(auth)),
        secret_key(protected(auth), id) == secret_key(auth, id),
        hydrated(protected(auth), secret_of(auth)) == auth,
{
}

/// A login method that has its secret is never changed by a stored one.
pub proof fn law_hydrate_keeps_given_secret(auth: AuthView, fetched: Option<Seq<char>>)
    requires
        secret_of(auth) is Some,
    ensures
        hydrated(auth, fetched) == auth,
{
}

/// Two different secrets are never stored under one name: the names differ by
/// profile, and within a profile by what is stored.
pub proof fn law_secret_names_differ(a: Seq<char>, b: Seq<char>)
    ensures
        password_key(a) != passphrase_key(b),
        password_key(a) == password_key(b) ==> a == b,
        passphrase_key(a) == passphrase_key(b) ==> a == b,
{
    reveal_strlit("profile-password:");
    reveal_strlit("profile-key-passphrase:");
    assert(password_key(a)[8] == 'p' && password_key(a)[9] == 'a');
    assert(passphrase_key(b)[8] == 'k');
    assert(password_key(a).skip(17) == a && password_key(b).skip(17) == b);
    assert(passphrase_key(a).skip(23) == a && passphrase_key(b).skip(23) == b);
}

/// A password or a passphrase that is not empty is taken out of the login method, and
/// nothing else of it changes.
pub proof fn law_what_is_secret(text: Seq<char>, path: Seq<char>, key_ref: Seq<char>)
    ensures
        text.len() > 0 ==> {
            &&& secret_of(AuthView::Password { password: text }) == Some(text)
            &&& protected(AuthView::Password { password: text }) == (AuthView::Password {
                password: seq![],
            })
            &&& secret_of(AuthView::Key { path, passphrase: Some(text) }) == Some(text)
            &&& protected(AuthView::Key { path, passphrase: Some(text) }) == (AuthView::Key {
                path,
                passphrase: None,
            })
        },
        text.len() == 0 ==> {
            &&& secret_of(AuthView::Password { password: text }) is None
            &&& secret_of(AuthView::Key { path, passphrase: Some(text) }) is None
            &&& protected(AuthView::Key { path, passphrase: Some(text) }) == (AuthView::Key {
                path,
                passphrase: Some(text),
            })
        },
        secret_of(AuthView::Key { path, passphrase: None }) is None,
        protected(AuthView::Key { path, passphrase: None }) == (AuthView::Key {
            path,
            passphrase: None,
        }),
        secret_of(AuthView::Agent) is None,
        protected(AuthView::Agent) is Agent,
        secret_of(AuthView::KeyRef { key_ref }) is None,
        protected(AuthView::KeyRef { key_ref }) == (AuthView::KeyRef { key_ref }),
{
}

/// A stored secret fills in an empty password or a missing passphrase, and nothing else.
pub proof fn law_what_is_filled_in(
    value: Seq<char>,
    given: Seq<char>,
    path: Seq<char>,
    key_ref: Seq<char>,
    auth: AuthView,
)
    ensures
        hydrated(AuthView::Password { password: given }, Some(value)) == (AuthView::Password {
            password: if given.len() == 0 {
                value
            } else {
                given
            },
        }),
        hydrated(AuthView::Key { path, passphrase: None }, Some(value)) == (AuthView::Key {
            path,
            passphrase: Some(value),
        }),
        hydrated(AuthView::Key { path, passphrase: Some(given) }, Some(value)) == (AuthView::Key {
            path,
            passphrase: Some(given),
        }),
        hydrated(AuthView::Agent, Some(value)) is Agent,
        hydrated(AuthView::KeyRef { key_ref }, Some(value)) == (AuthView::KeyRef { key_ref }),
        hydrated(auth, None) == auth,
        lacks_secret(auth) <==> hydrated(auth, Some(seq!['a'])) != hydrated(auth, Some(seq!['b'])),
{
    assert(seq!['a'][0] != seq!['b'][0]);
    let a = hydrated(auth, Some(seq!['a']));
    let b = hydrated(auth, Some(seq!['b']));
    if lacks_secret(auth) {
        match auth {
            AuthView::Password { .. } => {
                assert(a->password[0] != b->password[0]);
            },
            AuthView::Key { .. } => {
                assert(a->passphrase->Some_0[0] != b->passphrase->Some_0[0]);
            },
            _ => {},
        }
    }
}

/// A secret is stored under the id of its profile behind a word for what it is: a
/// password, or for every other login method a passphrase.
pub proof fn law_secret_names(id: Seq<char>, auth: AuthView)
    ensures
        password_key(id).len() == 17 + id.len(),
        password_key(id).take(17) == "profile-password:"@,
        password_key(id).skip(17) == id,
        passphrase_key(id).len() == 23 + id.len(),
        passphrase_key(id).take(23) == "profile-key-passphrase:"@,
        passphrase_key(id).skip(23) == id,
        secret_key(auth, id) == password_key(id) <==> auth is Password,
        secret_key(auth, id) == passphrase_key(id) <==> !(auth is Password),
{
    reveal_strlit("profile-password:");
    reveal_strlit("profile-key-passphrase:");
    law_secret_names_differ(id, id);
}

/// Whether two profiles are the same but for their ids, names and login methods, and what
/// the user does with them.
pub open spec fn same_connection(a: ConnectionProfile, b: ConnectionProfile) -> bool {
    &&& a.protocol == b.protocol
    &&& a.host == b.host
    &&& a.port == b.port
    &&& a.username == b.username
    &&& a.default_remote_path == b.default_remote_path
    &&& a.description == b.description
    &&& a.color == b.color
    &&& a.auto_connect == b.auto_connect
    &&& a.bucket == b.bucket
    &&& a.region == b.region
    &&& a.endpoint == b.endpoint
    &&& a.account == b.account
    &&& a.agent_key == b.agent_key
    &&& a.group == b.group
    &&& a.bookmarked == b.bookmarked
    &&& a.tags == b.tags
    &&& a.icon == b.icon
    &&& a.jump_host == b.jump_host
    &&& a.jump_port == b.jump_port
    &&& a.jump_username == b.jump_username
}

/// Protecting a profile changes nothing in it but its login method, and what it takes out
/// is stored as it was.
pub proof fn law_protecting_keeps_the_rest(p: Protected, profile: ConnectionProfile)
    requires
        protects(p, profile),
    ensures
        same_connection(p.profile, profile),
        p.profile.id == profile.id,
        p.profile.name == profile.name,
        p.profile.favorite == profile.favorite,
        p.profile.last_used == profile.last_used,
        p.profile.sort_order == profile.sort_order,
        match profile.auth@ {
            AuthView::Password { password } if password.len() > 0 => p.secret is Some
                && p.secret->Some_0.value@ == password && p.secret->Some_0.key@ == password_key(
                profile.id@,
            ),
            AuthView::Key { passphrase: Some(value), .. } if value.len() > 0 => p.secret is Some
                && p.secret->Some_0.value@ == value && p.secret->Some_0.key@ == passphrase_key(
                profile.id@,
            ),
            _ => p.secret is None,
        },
{
}

} // verus!
