//! The order in which profiles and their secrets are written and removed.
//!
//! Each command on saved profiles is a list of steps on the profile file and on
//! the credential store.

use crate::local_paths::{file_name, file_name_of, is_portable, is_slashes};
use crate::profiles::{
    hydrated, lacks_secret, law_hydrate_undoes_protect, law_secret_names_differ, passphrase_key,
    password_key, profile_key_passphrase_key, profile_password_key, protect_profile_secrets,
    protected, same_connection, secret_key, secret_of, AuthMethod, AuthView, ConnectionProfile, Protected,
    SecretEntry,
};
use crate::text::{same, trim, trimmed};
use vstd::prelude::*;
use vstd::string::*;

verus! {

/// A service that keeps OAuth tokens for a profile.
#[derive(Debug, Clone, Copy, PartialEq, Eq, Structural)]
pub enum TokenService {
    Dropbox,
    OneDrive,
    GDrive,
    Box,
}

/// One step on the profile file or on the credential store.
#[derive(Debug, PartialEq, Eq)]
pub enum Step {
    /// Store a secret.
    Store(SecretEntry),
    /// Record the name of a stored secret in the keychain manifest.
    Record(String),
    /// Write the plan's profile to the profile file.
    Write,
    /// Remove the profile from the profile file.
    Remove,
    /// Delete the OAuth tokens of the profile.
    DropTokens(TokenService),
    /// Delete the stored Shopify credential of the profile.
    DropShopifyCredential,
    /// Delete a stored secret and its name in the keychain manifest.
    Forget(String),
}

/// A step as its texts.
pub enum StepView {
    Store { key: Seq<char>, value: Seq<char> },
    Record { key: Seq<char> },
    Write,
    Remove,
    DropTokens { service: TokenService },
    DropShopifyCredential,
    Forget { key: Seq<char> },
}

impl View for Step {
    type V = StepView;

    open spec fn view(&self) -> StepView {
        match self {
            Step::Store(entry) => StepView::Store { key: entry.key@, value: entry.value@ },
            Step::Record(key) => StepView::Record { key: key@ },
            Step::Write => StepView::Write,
            Step::Remove => StepView::Remove,
            Step::DropTokens(service) => StepView::DropTokens { service: *service },
            Step::DropShopifyCredential => StepView::DropShopifyCredential,
            Step::Forget(key) => StepView::Forget { key: key@ },
        }
    }
}

/// Steps as their texts.
pub open spec fn step_views(steps: Seq<Step>) -> Seq<StepView> {
    steps.map_values(|s: Step| s@)
}

/// A profile to write and the steps that write it.
#[derive(Debug, PartialEq, Eq)]
pub struct Plan {
    pub profile: ConnectionProfile,
    pub steps: Vec<Step>,
}

/// The steps that move the secret of `auth` to the credential store, if it has one.
pub open spec fn storing(auth: AuthView, id: Seq<char>) -> Seq<StepView> {
    match secret_of(auth) {
        Some(value) => seq![
            StepView::Store { key: secret_key(auth, id), value },
            StepView::Record { key: secret_key(auth, id) },
        ],
        None => seq![],
    }
}

/// Whether `written` is `profile` without its secret.
pub open spec fn is_protected_form(written: ConnectionProfile, profile: ConnectionProfile) -> bool {
    &&& written == (ConnectionProfile { auth: written.auth, ..profile })
    &&& written.auth@ == protected(profile.auth@)
}

/// Pushes a step.
pub(crate) fn add_step(steps: &mut Vec<Step>, step: Step)
    ensures
        step_views(final(steps)@) == step_views(old(steps)@).push(step@),
{
    steps.push(step);
    assert(step_views(steps@) == step_views(old(steps)@).push(step@));
}

/// The steps that write a profile: its secret first, and only then its metadata.
pub fn write_profile(profile: ConnectionProfile) -> (r: Plan)
    ensures
        is_protected_form(r.profile, profile),
        step_views(r.steps@) == storing(profile.auth@, profile.id@).push(StepView::Write),
{
    let Protected { profile: written, secret } = protect_profile_secrets(profile);
    let mut steps: Vec<Step> = Vec::new();
    assert(step_views(steps@) == Seq::<StepView>::empty());
    if let Some(entry) = secret {
        let key = entry.key.clone();
        add_step(&mut steps, Step::Store(entry));
        add_step(&mut steps, Step::Record(key));
    }
    assert(step_views(steps@) == storing(profile.auth@, profile.id@));
    add_step(&mut steps, Step::Write);
    Plan { profile: written, steps }
}

/// The steps that take a secret out of a profile that was saved with it: none for
/// a profile without one.
pub open spec fn sanitizing(auth: AuthView, id: Seq<char>) -> Seq<StepView> {
    if secret_of(auth) is Some {
        storing(auth, id).push(StepView::Write)
    } else {
        seq![]
    }
}

/// Takes the secret out of a saved profile.
pub fn sanitize_profile(profile: ConnectionProfile) -> (r: Plan)
    ensures
        is_protected_form(r.profile, profile),
        step_views(r.steps@) == sanitizing(profile.auth@, profile.id@),
{
    let Protected { profile: written, secret } = protect_profile_secrets(profile);
    let mut steps: Vec<Step> = Vec::new();
    assert(step_views(steps@) == Seq::<StepView>::empty());
    if let Some(entry) = secret {
        let key = entry.key.clone();
        add_step(&mut steps, Step::Store(entry));
        add_step(&mut steps, Step::Record(key));
        assert(step_views(steps@) == storing(profile.auth@, profile.id@));
        add_step(&mut steps, Step::Write);
    }
    Plan { profile: written, steps }
}

/// The saved profiles as the interface may see them, in their order, each with the
/// steps that its sanitizing takes.
pub fn list_profiles(profiles: Vec<ConnectionProfile>) -> (r: Vec<Plan>)
    ensures
        r@.len() == profiles@.len(),
        forall|i: int|
            0 <= i < profiles@.len() ==> {
                &&& is_protected_form((#[trigger] r@[i]).profile, profiles@[i])
                &&& step_views(r@[i].steps@) == sanitizing(profiles@[i].auth@, profiles@[i].id@)
            },
{
    let mut plans: Vec<Plan> = Vec::new();
    let ghost all = profiles@;
    for profile in it: profiles
        invariant
            it.seq() == all,
            plans@.len() == it.index(),
            forall|i: int|
                0 <= i < plans@.len() ==> {
                    &&& is_protected_form((#[trigger] plans@[i]).profile, all[i])
                    &&& step_views(plans@[i].steps@) == sanitizing(all[i].auth@, all[i].id@)
                },
    {
        plans.push(sanitize_profile(profile));
    }
    plans
}

/// The steps that write imported profiles, in their order.
pub fn save_imported_profiles(profiles: Vec<ConnectionProfile>) -> (r: Vec<Plan>)
    ensures
        r@.len() == profiles@.len(),
        forall|i: int|
            0 <= i < profiles@.len() ==> {
                &&& is_protected_form((#[trigger] r@[i]).profile, profiles@[i])
                &&& step_views(r@[i].steps@) == storing(
                    profiles@[i].auth@,
                    profiles@[i].id@,
                ).push(StepView::Write)
            },
{
    let mut plans: Vec<Plan> = Vec::new();
    let ghost all = profiles@;
    for profile in it: profiles
        invariant
            it.seq() == all,
            plans@.len() == it.index(),
            forall|i: int|
                0 <= i < plans@.len() ==> {
                    &&& is_protected_form((#[trigger] plans@[i]).profile, all[i])
                    &&& step_views(plans@[i].steps@) == storing(all[i].auth@, all[i].id@).push(
                        StepView::Write,
                    )
                },
    {
        plans.push(write_profile(profile));
    }
    plans
}

/// Whether profiles may be exported to `path`, of which `has_file_name` says whether it
/// ends in the name of a file.
pub fn export_target(path: &str, has_file_name: bool) -> (r: Result<(), String>)
    ensures
        r is Ok <==> trimmed(path@).len() > 0 && has_file_name,
        r matches Err(e) ==> e@ == "export destination must identify a file"@,
{
    if trim(path).is_empty() || !has_file_name {
        Err("export destination must identify a file".to_owned())
    } else {
        Ok(())
    }
}

/// Whether profiles may be exported to `path`: it must end in the name of a file.
pub fn export_profiles(path: &str) -> (r: Result<(), String>)
    ensures
        trimmed(path@).len() == 0 || is_slashes(path@) ==> r is Err,
        is_portable(path@) ==> (r is Ok <==> trimmed(path@).len() > 0 && file_name_of(
            path@,
        ) is Some),
        r matches Err(e) ==> e@ == "export destination must identify a file"@,
{
    export_target(path, file_name(path).is_some())
}

// ---------------------------------------------------------------- saving
/// Whether the new login method names another key file than the old one and comes
/// without a passphrase.
pub open spec fn key_changed(old: Option<AuthView>, new: AuthView) -> bool {
    match (old, new) {
        (
            Some(AuthView::Key { path: old_path, .. }),
            AuthView::Key { path: new_path, passphrase: None },
        ) => old_path != new_path,
        _ => false,
    }
}

/// The names of the stored secrets that a saved login method has no use for.
pub open spec fn stale(old: Option<AuthView>, new: AuthView, id: Seq<char>) -> Seq<Seq<char>> {
    match new {
        AuthView::Password { .. } => seq![passphrase_key(id)],
        AuthView::Key { .. } => if key_changed(old, new) {
            seq![password_key(id), passphrase_key(id)]
        } else {
            seq![password_key(id)]
        },
        _ => seq![password_key(id), passphrase_key(id)],
    }
}

/// The steps that delete the secrets stored under these names.
pub open spec fn forgetting(keys: Seq<Seq<char>>) -> Seq<StepView> {
    keys.map_values(|key: Seq<char>| StepView::Forget { key })
}

/// The login method of a profile, where there is one.
pub open spec fn auth_of(profile: Option<ConnectionProfile>) -> Option<AuthView> {
    match profile {
        Some(p) => Some(p.auth@),
        None => None,
    }
}

/// The steps of saving a profile over the one that was saved under its id, if any.
pub open spec fn saving(old: Option<AuthView>, new: AuthView, id: Seq<char>) -> Seq<StepView> {
    storing(new, id).push(StepView::Write) + forgetting(stale(old, new, id))
}

fn is_key_changed(existing: &Option<ConnectionProfile>, auth: &AuthMethod) -> (r: bool)
    ensures
        r == key_changed(auth_of(*existing), auth@),
{
    match existing {
        Some(old) => match (&old.auth, auth) {
            (
                AuthMethod::Key { path: old_path, .. },
                AuthMethod::Key { path: new_path, passphrase },
            ) => passphrase.is_none() && !same(old_path.as_str(), new_path.as_str()),
            _ => false,
        },
        None => false,
    }
}

/// Saves a profile. Its secret is stored before its metadata is written, and the
/// secrets of the login method it had before are removed only after that, so that
/// a failed write leaves the saved profile usable.
pub fn save_profile(existing: &Option<ConnectionProfile>, profile: ConnectionProfile) -> (r: Plan)
    ensures
        is_protected_form(r.profile, profile),
        step_views(r.steps@) == saving(auth_of(*existing), profile.auth@, profile.id@),
{
    let changed = is_key_changed(existing, &profile.auth);
    let ghost old = auth_of(*existing);
    let ghost new = profile.auth@;
    let ghost id = profile.id@;
    let Plan { profile: written, steps: mut steps } = write_profile(profile);
    let ghost first = step_views(steps@);
    match &written.auth {
        AuthMethod::Password { .. } => {
            add_step(
                &mut steps,
                Step::Forget(profile_key_passphrase_key(written.id.as_str())),
            );
        },
        AuthMethod::Key { .. } => {
            add_step(&mut steps, Step::Forget(profile_password_key(written.id.as_str())));
            if changed {
                add_step(
                    &mut steps,
                    Step::Forget(profile_key_passphrase_key(written.id.as_str())),
                );
            }
        },
        _ => {
            add_step(&mut steps, Step::Forget(profile_password_key(written.id.as_str())));
            add_step(
                &mut steps,
                Step::Forget(profile_key_passphrase_key(written.id.as_str())),
            );
        },
    }
    assert(step_views(steps@) == first + forgetting(stale(old, new, id)));
    Plan { profile: written, steps }
}

// ---------------------------------------------------------------- deleting
/// The steps that delete what the services keep for a profile of this protocol.
pub open spec fn dropping(protocol: Seq<char>) -> Seq<StepView> {
    if protocol == "dropbox"@ {
        seq![StepView::DropTokens { service: TokenService::Dropbox }]
    } else if protocol == "onedrive"@ {
        seq![StepView::DropTokens { service: TokenService::OneDrive }]
    } else if protocol == "gdrive"@ {
        seq![StepView::DropTokens { service: TokenService::GDrive }]
    } else if protocol == "box"@ {
        seq![StepView::DropTokens { service: TokenService::Box }]
    } else if protocol == "shopify"@ {
        seq![StepView::DropShopifyCredential]
    } else {
        seq![]
    }
}

/// The step that deletes a private key held in the credential store.
pub open spec fn dropping_key(auth: AuthView) -> Seq<StepView> {
    match auth {
        AuthView::KeyRef { key_ref } => seq![StepView::Forget { key: key_ref }],
        _ => seq![],
    }
}

/// What is deleted besides the two secrets of the profile itself.
pub open spec fn dropping_all(profile: Option<ConnectionProfile>) -> Seq<StepView> {
    match profile {
        Some(p) => dropping(p.protocol@) + dropping_key(p.auth@),
        None => seq![],
    }
}

/// The steps of deleting profile `id`.
pub open spec fn deleting(profile: Option<ConnectionProfile>, id: Seq<char>) -> Seq<StepView> {
    seq![StepView::Remove] + dropping_all(profile) + forgetting(
        seq![password_key(id), passphrase_key(id)],
    )
}

/// Deletes a profile. Its metadata goes first: if that fails, all credentials are
/// kept and the saved profile remains usable.
pub fn delete_profile(id: &str, profile: &Option<ConnectionProfile>) -> (r: Vec<Step>)
    ensures
        step_views(r@) == deleting(*profile, id@),
{
    let mut steps: Vec<Step> = Vec::new();
    assert(step_views(steps@) == Seq::<StepView>::empty());
    add_step(&mut steps, Step::Remove);
    assert(step_views(steps@) == seq![StepView::Remove]);
    if let Some(p) = profile {
        let protocol = p.protocol.as_str();
        if same(protocol, "dropbox") {
            add_step(&mut steps, Step::DropTokens(TokenService::Dropbox));
        } else if same(protocol, "onedrive") {
            add_step(&mut steps, Step::DropTokens(TokenService::OneDrive));
        } else if same(protocol, "gdrive") {
            add_step(&mut steps, Step::DropTokens(TokenService::GDrive));
        } else if same(protocol, "box") {
            add_step(&mut steps, Step::DropTokens(TokenService::Box));
        } else if same(protocol, "shopify") {
            add_step(&mut steps, Step::DropShopifyCredential);
        }
        assert(step_views(steps@) == seq![StepView::Remove] + dropping(p.protocol@));
        if let AuthMethod::KeyRef { key_ref } = &p.auth {
            add_step(&mut steps, Step::Forget(key_ref.clone()));
        }
        assert(step_views(steps@) == seq![StepView::Remove] + dropping_all(*profile));
    }
    assert(step_views(steps@) == seq![StepView::Remove] + dropping_all(*profile));
    let ghost first = step_views(steps@);
    add_step(&mut steps, Step::Forget(profile_password_key(id)));
    add_step(&mut steps, Step::Forget(profile_key_passphrase_key(id)));
    assert(step_views(steps@) == first + forgetting(seq![password_key(id@), passphrase_key(id@)]));
    steps
}

// ---------------------------------------------------------------- laws
/// The stored secrets, by name.
pub type Secrets = Map<Seq<char>, Seq<char>>;

/// The stored secrets after a step.
pub open spec fn effect(secrets: Secrets, step: StepView) -> Secrets {
    match step {
        StepView::Store { key, value } => secrets.insert(key, value),
        StepView::Forget { key } => secrets.remove(key),
        _ => secrets,
    }
}

/// The stored secrets after some steps.
pub open spec fn performed(secrets: Secrets, steps: Seq<StepView>) -> Secrets
    decreases steps.len(),
{
    if steps.len() == 0 {
        secrets
    } else {
        effect(performed(secrets, steps.drop_last()), steps.last())
    }
}

/// The secret stored under a name, if any.
pub open spec fn lookup(secrets: Secrets, key: Seq<char>) -> Option<Seq<char>> {
    if secrets.contains_key(key) {
        Some(secrets[key])
    } else {
        None
    }
}

/// What the steps of saving do to the stored secrets, one after another.
proof fn lemma_saving(secrets: Secrets, old: Option<AuthView>, new: AuthView, id: Seq<char>)
    ensures
        ({
            let kept = match secret_of(new) {
                Some(value) => secrets.insert(secret_key(new, id), value),
                None => secrets,
            };
            &&& performed(secrets, storing(new, id)) == kept
            &&& performed(secrets, saving(old, new, id)) == match new {
                AuthView::Password { .. } => kept.remove(passphrase_key(id)),
                AuthView::Key { .. } => if key_changed(old, new) {
                    kept.remove(password_key(id)).remove(passphrase_key(id))
                } else {
                    kept.remove(password_key(id))
                },
                _ => kept.remove(password_key(id)).remove(passphrase_key(id)),
            }
        }),
{
    let first = storing(new, id);
    let kept = match secret_of(new) {
        Some(value) => secrets.insert(secret_key(new, id), value),
        None => secrets,
    };
    assert(performed(secrets, Seq::<StepView>::empty()) == secrets);
    if first.len() > 0 {
        assert(first.drop_last().drop_last() == Seq::<StepView>::empty());
        assert(performed(secrets, first.drop_last()) == kept);
    }
    assert(performed(secrets, first) == kept);
    let written = first.push(StepView::Write);
    assert(written.drop_last() == first);
    assert(performed(secrets, written) == kept);
    let all = saving(old, new, id);
    let gone = stale(old, new, id);
    if gone.len() == 1 {
        assert(all.drop_last() == written);
        assert(all.last() == StepView::Forget { key: gone[0] });
    } else {
        let most = all.drop_last();
        assert(most.drop_last() == written);
        assert(most.last() == StepView::Forget { key: gone[0] });
        assert(performed(secrets, most) == kept.remove(gone[0]));
        assert(all.last() == StepView::Forget { key: gone[1] });
    }
}

/// A connection with a saved profile logs in with what it was saved with: the
/// secret that saving stored is there, and filling it in restores the login method.
pub proof fn law_saved_profile_logs_in(
    secrets: Secrets,
    old: Option<AuthView>,
    new: AuthView,
    id: Seq<char>,
)
    requires
        secret_of(new) is Some,
    ensures
        ({
            let after = performed(secrets, saving(old, new, id));
            hydrated(protected(new), lookup(after, secret_key(protected(new), id))) == new
        }),
{
    lemma_saving(secrets, old, new, id);
    law_secret_names_differ(id, id);
    law_hydrate_undoes_protect(new, id);
}

/// Saving a profile without entering its secret again keeps the stored one, unless
/// the key file has changed.
pub proof fn law_save_keeps_stored_secret(
    secrets: Secrets,
    old: Option<AuthView>,
    new: AuthView,
    id: Seq<char>,
)
    requires
        secret_of(new) is None,
        lacks_secret(new),
        !key_changed(old, new),
    ensures
        lookup(performed(secrets, saving(old, new, id)), secret_key(new, id)) == lookup(
            secrets,
            secret_key(new, id),
        ),
{
    lemma_saving(secrets, old, new, id);
    law_secret_names_differ(id, id);
}

/// The passphrase of one key file is never offered to another.
pub proof fn law_changed_key_loses_old_passphrase(
    secrets: Secrets,
    old: Option<AuthView>,
    new: AuthView,
    id: Seq<char>,
)
    requires
        key_changed(old, new),
    ensures
        lookup(performed(secrets, saving(old, new, id)), secret_key(new, id)) is None,
{
    lemma_saving(secrets, old, new, id);
}

/// Saving a profile touches no secret but its own two.
pub proof fn law_save_leaves_others_alone(
    secrets: Secrets,
    old: Option<AuthView>,
    new: AuthView,
    id: Seq<char>,
    key: Seq<char>,
)
    requires
        key != password_key(id),
        key != passphrase_key(id),
    ensures
        lookup(performed(secrets, saving(old, new, id)), key) == lookup(secrets, key),
{
    lemma_saving(secrets, old, new, id);
}

/// Deleting a profile removes its metadata before anything else, and leaves neither
/// of its secrets in store.
pub proof fn law_deleted_profile_leaves_no_secret(
    secrets: Secrets,
    profile: Option<ConnectionProfile>,
    id: Seq<char>,
)
    ensures
        deleting(profile, id)[0] is Remove,
        lookup(performed(secrets, deleting(profile, id)), password_key(id)) is None,
        lookup(performed(secrets, deleting(profile, id)), passphrase_key(id)) is None,
{
    reveal_with_fuel(performed, 3);
    let all = deleting(profile, id);
    assert(all.last() == StepView::Forget { key: passphrase_key(id) });
    assert(all.drop_last().last() == StepView::Forget { key: password_key(id) });
}

/// Before a profile is written its secret is stored and its name recorded, and nothing
/// else is done; after that stored secrets are deleted, and nothing else is done.
pub proof fn law_order_of_saving(old: Option<AuthView>, new: AuthView, id: Seq<char>, i: int)
    ensures
        ({
            let steps = saving(old, new, id);
            let secret = match new {
                AuthView::Password { password } => password.len() > 0,
                AuthView::Key { passphrase: Some(value), .. } => value.len() > 0,
                _ => false,
            };
            let at: int = if secret {
                2
            } else {
                0
            };
            &&& steps.len() > at
            &&& steps[at] is Write
            &&& secret ==> steps[0] is Store && steps[1] is Record && steps[0]->Store_key
                == steps[1]->Record_key
            &&& at < i < steps.len() ==> steps[i] is Forget
        }),
{
}

/// What saving leaves in store of the two secrets of a profile. A password that was typed
/// in is stored, and an empty one keeps what is stored; there is no passphrase then. With
/// a key file it is the passphrase that is stored or kept, and there is no password; what
/// was stored for another key file is not kept. Any other login method leaves neither.
pub proof fn law_secrets_after_saving(
    secrets: Secrets,
    old: Option<AuthView>,
    new: AuthView,
    id: Seq<char>,
)
    ensures
        ({
            let after = performed(secrets, saving(old, new, id));
            let password = lookup(after, password_key(id));
            let passphrase = lookup(after, passphrase_key(id));
            match new {
                AuthView::Password { password: typed } => {
                    &&& password == if typed.len() > 0 {
                        Some(typed)
                    } else {
                        lookup(secrets, password_key(id))
                    }
                    &&& passphrase is None
                },
                AuthView::Key { path, passphrase: typed } => {
                    &&& password is None
                    &&& typed is Some && typed->Some_0.len() > 0 ==> passphrase == typed
                    &&& typed is Some && typed->Some_0.len() == 0 ==> passphrase == lookup(
                        secrets,
                        passphrase_key(id),
                    )
                    &&& typed is None && old is Some && old->Some_0 is Key && old->Some_0->Key_path
                        != path ==> passphrase is None
                    &&& typed is None && !(old is Some && old->Some_0 is Key
                        && old->Some_0->Key_path != path) ==> passphrase == lookup(
                        secrets,
                        passphrase_key(id),
                    )
                },
                _ => password is None && passphrase is None,
            }
        }),
{
    lemma_saving(secrets, old, new, id);
    law_secret_names_differ(id, id);
}

/// A profile is written without its secret and is the same in everything else.
pub proof fn law_written_profile_keeps_the_rest(
    written: ConnectionProfile,
    profile: ConnectionProfile,
)
    requires
        is_protected_form(written, profile),
    ensures
        same_connection(written, profile),
        written.id == profile.id,
        written.name == profile.name,
        written.favorite == profile.favorite,
        written.last_used == profile.last_used,
        written.sort_order == profile.sort_order,
        written.auth@ is Password ==> written.auth@->password.len() == 0,
        written.auth@ is Key ==> written.auth@->passphrase is None
            || written.auth@->passphrase->Some_0.len() == 0,
{
}

/// A saved profile is written again only where it holds a secret, which is then stored
/// first.
pub proof fn law_sanitizing(text: Seq<char>, path: Seq<char>, key_ref: Seq<char>, id: Seq<char>)
    ensures
        text.len() > 0 ==> {
            &&& sanitizing(AuthView::Password { password: text }, id) == seq![
                StepView::Store { key: password_key(id), value: text },
                StepView::Record { key: password_key(id) },
                StepView::Write,
            ]
            &&& sanitizing(AuthView::Key { path, passphrase: Some(text) }, id) == seq![
                StepView::Store { key: passphrase_key(id), value: text },
                StepView::Record { key: passphrase_key(id) },
                StepView::Write,
            ]
        },
        text.len() == 0 ==> {
            &&& sanitizing(AuthView::Password { password: text }, id).len() == 0
            &&& sanitizing(AuthView::Key { path, passphrase: Some(text) }, id).len() == 0
        },
        sanitizing(AuthView::Key { path, passphrase: None }, id).len() == 0,
        sanitizing(AuthView::Agent, id).len() == 0,
        sanitizing(AuthView::KeyRef { key_ref }, id).len() == 0,
{
}

/// Deleting a profile deletes the tokens of the service that its protocol is, and of no
/// other; its private key where the credential store holds that; and its two secrets.
pub proof fn law_what_deleting_drops(profile: ConnectionProfile, id: Seq<char>)
    ensures
        ({
            let steps = deleting(Some(profile), id);
            let p = profile.protocol@;
            &&& steps.contains(StepView::DropTokens { service: TokenService::Dropbox }) <==> p
                == "dropbox"@
            &&& steps.contains(StepView::DropTokens { service: TokenService::OneDrive }) <==> p
                == "onedrive"@
            &&& steps.contains(StepView::DropTokens { service: TokenService::GDrive }) <==> p
                == "gdrive"@
            &&& steps.contains(StepView::DropTokens { service: TokenService::Box }) <==> p
                == "box"@
            &&& steps.contains(StepView::DropShopifyCredential) <==> p == "shopify"@
            &&& profile.auth@ is KeyRef ==> steps.contains(
                StepView::Forget { key: profile.auth@->key_ref },
            )
            &&& steps.contains(StepView::Forget { key: password_key(id) })
            &&& steps.contains(StepView::Forget { key: passphrase_key(id) })
        }),
{
    reveal_strlit("dropbox");
    reveal_strlit("onedrive");
    reveal_strlit("gdrive");
    reveal_strlit("box");
    reveal_strlit("shopify");
    let steps = deleting(Some(profile), id);
    let a = dropping(profile.protocol@);
    let b = dropping_key(profile.auth@);
    let n = steps.len() as int;
    assert("dropbox"@[0] == 'd' && "onedrive"@[0] == 'o' && "gdrive"@[0] == 'g');
    assert("box"@[0] == 'b' && "shopify"@[0] == 's');
    if a.len() > 0 {
        assert(steps[1] == a[0]);
    }
    if b.len() > 0 {
        assert(steps[a.len() as int + 1] == b[0]);
    }
    assert(steps[n - 2] == StepView::Forget { key: password_key(id) });
    assert(steps[n - 1] == StepView::Forget { key: passphrase_key(id) });
}

/// Deleting a profile deletes no stored secret but its own two and, where the credential
/// store holds its private key, that.
pub proof fn law_delete_leaves_others_alone(
    secrets: Secrets,
    profile: Option<ConnectionProfile>,
    id: Seq<char>,
    key: Seq<char>,
)
    requires
        key != password_key(id),
        key != passphrase_key(id),
        profile is Some && profile->Some_0.auth@ is KeyRef ==> profile->Some_0.auth@->key_ref
            != key,
    ensures
        lookup(performed(secrets, deleting(profile, id)), key) == lookup(secrets, key),
{
    let steps = deleting(profile, id);
    let gone = forgetting(seq![password_key(id), passphrase_key(id)]);
    assert forall|i: int| 0 <= i < steps.len() implies {
        let step = #[trigger] steps[i];
        !(step is Store) && (step is Forget ==> step->Forget_key != key)
    } by {
        let k = i - (steps.len() - 2);
        if k >= 0 {
            assert(steps[i] == gone[k]);
        } else if i > 0 {
            assert(steps[i] == dropping_all(profile)[i - 1]);
        }
    }
    lemma_untouched(secrets, steps, key);
}

/// Steps that neither store nor delete a secret leave it as it is.
proof fn lemma_untouched(secrets: Secrets, steps: Seq<StepView>, key: Seq<char>)
    requires
        forall|i: int|
            0 <= i < steps.len() ==> {
                let step = #[trigger] steps[i];
                !(step is Store) && (step is Forget ==> step->Forget_key != key)
            },
    ensures
        lookup(performed(secrets, steps), key) == lookup(secrets, key),
    decreases steps.len(),
{
    if steps.len() > 0 {
        let rest = steps.drop_last();
        assert forall|i: int| 0 <= i < rest.len() implies {
            let step = #[trigger] rest[i];
            !(step is Store) && (step is Forget ==> step->Forget_key != key)
        } by {
            assert(rest[i] == steps[i]);
        }
        lemma_untouched(secrets, rest, key);
        assert(steps.last() == steps[steps.len() - 1]);
    }
}

} // verus!
