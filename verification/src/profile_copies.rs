//! Duplicating saved profiles.

use crate::error::{missing, profile_not_found};
use crate::ids::{fresh_id, is_uuid};
use crate::numerals::{decimal, lemma_decimal_injective, lemma_decimal_shape, to_decimal};
use crate::pieces::views;
use crate::profile_store::{
    add_step, forgetting, step_views, storing, write_profile, Plan, Step, StepView,
};
use crate::profiles::{
    passphrase_key, password_key, profile_key_passphrase_key, profile_password_key, protected,
    same_connection, AuthMethod, ConnectionProfile,
};
use crate::search::{law_occurs, occurs, parts_round, same_ignoring_case};
use crate::text::{lower, lower_all, same};
use vstd::prelude::*;
use vstd::string::*;

verus! {

/// What `str::to_uppercase` makes of a text.
pub uninterp spec fn upper_case(s: Seq<char>) -> Seq<char>;

/// `str::to_uppercase`: the text with its letters in upper case, by the Unicode
/// rules. The result depends on the text alone.
#[verifier::external_body]
fn to_upper(s: &str) -> (r: String)
    ensures
        r@ == upper_case(s@),
{
    s.to_uppercase()
}

/// Whether profiles of this protocol log in by themselves, so that a copy can.
pub open spec fn can_copy(protocol: Seq<char>) -> bool {
    protocol == "sftp"@ || protocol == "ssh"@ || protocol == "ftp"@ || protocol == "ftps"@
}

/// Why a profile of a protocol that is named `shown` cannot be duplicated.
pub open spec fn account_bound(shown: Seq<char>) -> Seq<char> {
    "Duplicate is not available for "@ + shown
        + " profiles because their authorization is account-bound. Create a new profile instead."@
}

/// The message for a profile of a protocol that cannot be duplicated, with the
/// protocol's name as it is shown.
pub fn account_bound_message(shown: &str) -> (r: String)
    ensures
        r@ == account_bound(shown@),
{
    let mut r = "Duplicate is not available for ".to_owned();
    r.append(shown);
    r.append(
        " profiles because their authorization is account-bound. Create a new profile instead.",
    );
    r
}

/// The profile to duplicate, or why it cannot be.
pub fn duplicate_source(id: &str, profile: Option<ConnectionProfile>) -> (r: Result<
    ConnectionProfile,
    String,
>)
    ensures
        match profile {
            None => r matches Err(e) && e@ == missing("profile"@, id@),
            Some(p) => if !can_copy(p.protocol@) {
                r matches Err(e) && e@ == account_bound(upper_case(p.protocol@))
            } else if p.auth is KeyRef {
                r matches Err(e) && e@
                    == "Duplicate is not available for grant-managed key profiles. Import or grant a separate profile instead."@
            } else {
                r == Ok::<ConnectionProfile, String>(p)
            },
        },
{
    match profile {
        None => Err(profile_not_found(id)),
        Some(p) => {
            let protocol = p.protocol.as_str();
            if !(same(protocol, "sftp") || same(protocol, "ssh") || same(protocol, "ftp") || same(
                protocol,
                "ftps",
            )) {
                return Err(account_bound_message(to_upper(protocol).as_str()));
            }
            match &p.auth {
                AuthMethod::KeyRef { .. } => {
                    return Err(
                        "Duplicate is not available for grant-managed key profiles. Import or grant a separate profile instead.".to_owned(),
                    );
                },
                _ => {},
            }
            Ok(p)
        },
    }
}

// ---------------------------------------------------------------- names
/// Whether one of the names is `name`, whatever the case of its ASCII letters.
pub open spec fn taken(names: Seq<Seq<char>>, name: Seq<char>) -> bool {
    exists|i: int| 0 <= i < names.len() && lower_all(#[trigger] names[i]) == lower_all(name)
}

/// The `n`th name that a copy of `name` may have: `name Copy`, `name Copy 2`, and so on.
pub open spec fn copied(name: Seq<char>, n: nat) -> Seq<char> {
    if n <= 1 {
        name + " Copy"@
    } else {
        name + " Copy"@ + " "@ + decimal(n)
    }
}

/// Whether `r` is the first of the names for a copy of `name` that is not taken.
pub open spec fn is_first_free(names: Seq<Seq<char>>, name: Seq<char>, r: Seq<char>) -> bool {
    exists|n: nat|
        {
            &&& n >= 1
            &&& r == #[trigger] copied(name, n)
            &&& !taken(names, copied(name, n))
            &&& forall|m: nat| 1 <= m < n ==> taken(names, #[trigger] copied(name, m))
        }
}

/// The names for copies differ, whatever the case of their letters.
pub proof fn law_copies_differ(name: Seq<char>, m: nat, n: nat)
    requires
        1 <= m < n,
    ensures
        lower_all(copied(name, m)) != lower_all(copied(name, n)),
{
    let base = name + " Copy"@;
    reveal_strlit(" ");
    lemma_decimal_shape(n);
    lemma_decimal_shape(m);
    assert(copied(name, n).len() == base.len() + 1 + decimal(n).len());
    assert(lower_all(copied(name, n)).len() == copied(name, n).len());
    if m > 1 && lower_all(copied(name, m)) == lower_all(copied(name, n)) {
        let start = base.len() + 1;
        assert(lower_all(copied(name, m)).len() == copied(name, m).len());
        assert(decimal(m).len() == decimal(n).len());
        assert forall|i: int| 0 <= i < decimal(m).len() implies #[trigger] decimal(m)[i] == decimal(
            n,
        )[i] by {
            assert(lower_all(copied(name, m))[start + i] == lower(copied(name, m)[start + i]));
            assert(lower_all(copied(name, n))[start + i] == lower(copied(name, n)[start + i]));
            assert(copied(name, m)[start + i] == decimal(m)[i]);
            assert(copied(name, n)[start + i] == decimal(n)[i]);
        }
        assert(decimal(m) == decimal(n));
        lemma_decimal_injective(m, n);
    }
}

/// The position of the name that takes `name`.
spec fn taker(names: Seq<Seq<char>>, name: Seq<char>) -> int {
    choose|i: int| 0 <= i < names.len() && lower_all(#[trigger] names[i]) == lower_all(name)
}

/// No more names for copies can be taken than there are names.
proof fn lemma_taken_at_most(names: Seq<Seq<char>>, name: Seq<char>, n: nat)
    requires
        forall|m: nat| 1 <= m <= n ==> taken(names, #[trigger] copied(name, m)),
    ensures
        n <= names.len(),
{
    let numbers = vstd::set_lib::set_int_range(1, n as int + 1);
    let positions = vstd::set_lib::set_int_range(0, names.len() as int);
    let f = |m: int| taker(names, copied(name, m as nat));
    vstd::set_lib::lemma_int_range(1, n as int + 1);
    vstd::set_lib::lemma_int_range(0, names.len() as int);
    assert forall|m: int| numbers.contains(m) implies {
        &&& 0 <= #[trigger] f(m) < names.len()
        &&& lower_all(names[f(m)]) == lower_all(copied(name, m as nat))
    } by {
        assert(taken(names, copied(name, m as nat)));
    }
    assert forall|a: int, b: int|
        numbers.contains(a) && numbers.contains(b) && #[trigger] f(a) == #[trigger] f(b) implies a
        == b by {
        if a < b {
            law_copies_differ(name, a as nat, b as nat);
        } else if b < a {
            law_copies_differ(name, b as nat, a as nat);
        }
    }
    vstd::set_lib::lemma_map_size(numbers, numbers.map(f), f);
    assert(numbers.map(f).subset_of(positions));
    vstd::set_lib::lemma_len_subset(numbers.map(f), positions);
}

fn is_taken(names: &Vec<String>, name: &str) -> (r: bool)
    ensures
        r == taken(views(names@), name@),
{
    let mut i: usize = 0;
    while i < names.len()
        invariant
            i <= names.len(),
            forall|j: int|
                0 <= j < i ==> lower_all(#[trigger] views(names@)[j]) != lower_all(name@),
        decreases names.len() - i,
    {
        assert(views(names@)[i as int] == names@[i as int]@);
        if same_ignoring_case(names[i].as_str(), name) {
            return true;
        }
        i = i + 1;
    }
    false
}

/// The first of the names for a copy of `name` that none of `names` is.
pub fn free_copy_name(names: &Vec<String>, name: &str) -> (r: String)
    requires
        names@.len() < usize::MAX,
    ensures
        is_first_free(views(names@), name@, r@),
{
    let mut base = name.to_owned();
    base.append(" Copy");
    let mut found = base.clone();
    let mut n: usize = 1;
    while is_taken(names, found.as_str())
        invariant
            1 <= n <= names@.len() + 1,
            names@.len() < usize::MAX,
            base@ == name@ + " Copy"@,
            found@ == copied(name@, n as nat),
            forall|m: nat| 1 <= m < n ==> taken(views(names@), #[trigger] copied(name@, m)),
        decreases names@.len() + 1 - n,
    {
        proof {
            lemma_taken_at_most(views(names@), name@, n as nat);
        }
        n = n + 1;
        found = base.clone();
        found.append(" ");
        found.append(to_decimal(n as u64).as_str());
    }
    assert(!taken(views(names@), copied(name@, n as nat)));
    found
}

// ---------------------------------------------------------------- copies
/// A copy of a profile, the steps that write it, and the steps that clean up after
/// a failed write.
#[derive(Debug, PartialEq, Eq)]
pub struct CopyPlan {
    pub plan: Plan,
    pub undo: Vec<Step>,
}

/// Whether `copy` holds what a copy of `profile` is saved with, beside its id and name.
pub open spec fn is_copy(copy: ConnectionProfile, profile: ConnectionProfile) -> bool {
    &&& copy == (ConnectionProfile {
        id: copy.id,
        name: copy.name,
        auth: copy.auth,
        last_used: None,
        sort_order: None,
        favorite: Some(false),
        ..profile
    })
    &&& copy.auth@ == protected(profile.auth@)
}

/// Copies a profile, whose secret has been filled in, under a new id and a free
/// name. The copy's secret is stored under the new id; a failed write removes both
/// of that id's secrets and nothing of the source.
pub fn duplicate_as(profile: ConnectionProfile, names: &Vec<String>, id: String) -> (r: CopyPlan)
    requires
        names@.len() < usize::MAX,
    ensures
        is_copy(r.plan.profile, profile),
        r.plan.profile.id@ == id@,
        is_first_free(views(names@), profile.name@, r.plan.profile.name@),
        step_views(r.plan.steps@) == storing(profile.auth@, id@).push(StepView::Write),
        step_views(r.undo@) == forgetting(seq![password_key(id@), passphrase_key(id@)]),
{
    let name = free_copy_name(names, profile.name.as_str());
    let mut undo: Vec<Step> = Vec::new();
    assert(step_views(undo@) == Seq::<StepView>::empty());
    add_step(&mut undo, Step::Forget(profile_password_key(id.as_str())));
    add_step(&mut undo, Step::Forget(profile_key_passphrase_key(id.as_str())));
    assert(step_views(undo@) == forgetting(seq![password_key(id@), passphrase_key(id@)]));
    let copy = ConnectionProfile {
        id,
        name,
        last_used: None,
        sort_order: None,
        favorite: Some(false),
        ..profile
    };
    CopyPlan { plan: write_profile(copy), undo }
}

/// Copies a profile, whose secret has been filled in, under a fresh id and a free
/// name.
pub fn duplicate_profile(profile: ConnectionProfile, names: &Vec<String>) -> (r: CopyPlan)
    requires
        names@.len() < usize::MAX,
    ensures
        is_copy(r.plan.profile, profile),
        is_uuid(r.plan.profile.id@),
        is_first_free(views(names@), profile.name@, r.plan.profile.name@),
        step_views(r.plan.steps@) == storing(profile.auth@, r.plan.profile.id@).push(
            StepView::Write,
        ),
        step_views(r.undo@) == forgetting(
            seq![password_key(r.plan.profile.id@), passphrase_key(r.plan.profile.id@)],
        ),
{
    duplicate_as(profile, names, fresh_id())
}

/// A name that is given to a copy is nobody else's.
pub proof fn law_copy_name_is_free(names: Seq<Seq<char>>, name: Seq<char>, r: Seq<char>)
    requires
        is_first_free(names, name, r),
    ensures
        !taken(names, r),
        !names.contains(r),
{
    if names.contains(r) {
        let i = choose|i: int| 0 <= i < names.len() && names[i] == r;
        assert(lower_all(names[i]) == lower_all(r));
    }
}

/// Profiles of four protocols can be copied, and of no other.
pub proof fn law_what_can_be_copied(protocol: Seq<char>)
    ensures
        can_copy(protocol) <==> (seq!["sftp"@, "ssh"@, "ftp"@, "ftps"@]).contains(protocol),
{
    let known = seq!["sftp"@, "ssh"@, "ftp"@, "ftps"@];
    assert(known[0] == "sftp"@ && known[1] == "ssh"@ && known[2] == "ftp"@ && known[3] == "ftps"@);
}

/// The message names the protocol as it is shown.
pub proof fn law_account_bound_names_the_protocol(shown: Seq<char>)
    ensures
        occurs(account_bound(shown), shown),
{
    let text = account_bound(shown);
    law_occurs(text, shown);
    assert(parts_round(
        text,
        "Duplicate is not available for "@,
        shown,
        " profiles because their authorization is account-bound. Create a new profile instead."@,
    ));
}

/// A name is taken by each of the names that differs from it at most in the case of its
/// letters, and by nothing else.
pub proof fn law_taken(a: Seq<Seq<char>>, b: Seq<Seq<char>>, other: Seq<char>, name: Seq<char>)
    ensures
        taken(a + b, name) <==> taken(a, name) || taken(b, name),
        taken(seq![other], name) <==> lower_all(other) == lower_all(name),
        !taken(seq![], name),
{
    let all = a + b;
    if taken(a, name) {
        let i = choose|i: int| 0 <= i < a.len() && lower_all(#[trigger] a[i]) == lower_all(name);
        assert(all[i] == a[i]);
    }
    if taken(b, name) {
        let i = choose|i: int| 0 <= i < b.len() && lower_all(#[trigger] b[i]) == lower_all(name);
        assert(all[a.len() + i] == b[i]);
    }
    if taken(all, name) {
        let i = choose|i: int|
            0 <= i < all.len() && lower_all(#[trigger] all[i]) == lower_all(name);
        if i < a.len() {
            assert(all[i] == a[i]);
        } else {
            assert(all[i] == b[i - a.len()]);
        }
    }
    assert(seq![other][0] == other);
}

/// A copy is named after its source: with ` Copy` behind the name, or ` Copy` and the
/// lowest number from two on that makes it free.
pub proof fn law_name_of_copy(names: Seq<Seq<char>>, name: Seq<char>, n: nat, r: Seq<char>)
    requires
        is_first_free(names, name, r),
    ensures
        ({
            let base = name + seq![' ', 'C', 'o', 'p', 'y'];
            &&& !taken(names, base) ==> r == base
            &&& taken(names, base) && n >= 2 && !taken(names, base + seq![' '] + decimal(n)) && (
            forall|m: nat|
                2 <= m < n ==> taken(names, #[trigger] (base + seq![' '] + decimal(m)))) ==> r
                == base + seq![' '] + decimal(n)
        }),
{
    reveal_strlit(" Copy");
    reveal_strlit(" ");
    assert(" Copy"@ == seq![' ', 'C', 'o', 'p', 'y']);
    assert(" "@ == seq![' ']);
    let base = name + seq![' ', 'C', 'o', 'p', 'y'];
    assert(copied(name, 1) == base);
    let k = choose|k: nat|
        {
            &&& k >= 1
            &&& r == #[trigger] copied(name, k)
            &&& !taken(names, copied(name, k))
            &&& forall|m: nat| 1 <= m < k ==> taken(names, #[trigger] copied(name, m))
        };
    if k > 1 {
        assert(taken(names, copied(name, 1)));
        assert(copied(name, k) == base + seq![' '] + decimal(k));
        if n >= 2 && n < k {
            assert(taken(names, copied(name, n)));
        }
    }
    if n >= 2 {
        assert(copied(name, n) == base + seq![' '] + decimal(n));
    }
}

/// A copy connects as its source does. It starts without what the user did with the source.
pub proof fn law_copy_connects_alike(copy: ConnectionProfile, profile: ConnectionProfile)
    requires
        is_copy(copy, profile),
    ensures
        same_connection(copy, profile),
        copy.last_used is None,
        copy.sort_order is None,
        copy.favorite == Some(false),
        copy.auth@ is Password <==> profile.auth@ is Password,
        copy.auth@ is Key <==> profile.auth@ is Key,
        copy.auth@ is Key ==> copy.auth@->path == profile.auth@->path,
        copy.auth@ is Password ==> copy.auth@->password.len() == 0,
        copy.auth@ is Agent <==> profile.auth@ is Agent,
{
}

} // verus!
