//! Machines that run the Ghost FTP agent: which are on the network, which of them
//! are paired already, and pairing with one.

use crate::text::{same, trim, trimmed};
use vstd::prelude::*;
use vstd::string::*;

verus! {

/// A machine that advertises itself on the network.
#[derive(Debug, PartialEq, Eq)]
pub struct Discovered {
    /// The fingerprint of the machine's key.
    pub fingerprint: String,
}

/// A discovered machine, and the saved profile that is paired with it, if any.
#[derive(Debug, PartialEq, Eq)]
pub struct DiscoveredAgent {
    pub agent: Discovered,
    pub paired_profile_id: Option<String>,
}

/// A saved profile and the fingerprint of the key that it has pinned; none where it
/// has pinned no key or one that cannot be read.
#[derive(Debug, PartialEq, Eq)]
pub struct PinnedKey {
    pub profile_id: String,
    pub fingerprint: Option<String>,
}

/// Whether a profile has pinned the key with this fingerprint.
pub open spec fn pins(key: PinnedKey, fingerprint: Seq<char>) -> bool {
    key.fingerprint matches Some(f) && f@ == fingerprint
}

/// The profile that is paired with a machine: the last that has pinned its key.
pub open spec fn paired_with(keys: Seq<PinnedKey>, fingerprint: Seq<char>) -> Option<Seq<char>>
    decreases keys.len(),
{
    if keys.len() == 0 {
        None
    } else if pins(keys.last(), fingerprint) {
        Some(keys.last().profile_id@)
    } else {
        paired_with(keys.drop_last(), fingerprint)
    }
}

fn find_paired(keys: &Vec<PinnedKey>, fingerprint: &str) -> (r: Option<String>)
    ensures
        match r {
            Some(id) => paired_with(keys@, fingerprint@) == Some(id@),
            None => paired_with(keys@, fingerprint@) is None,
        },
{
    let mut i: usize = keys.len();
    assert(keys@.take(i as int) == keys@);
    while i > 0
        invariant
            i <= keys.len(),
            paired_with(keys@.take(i as int), fingerprint@) == paired_with(keys@, fingerprint@),
        decreases i,
    {
        let key = &keys[i - 1];
        assert(keys@.take(i as int).last() == *key);
        assert(keys@.take(i as int).drop_last() == keys@.take(i - 1));
        if let Some(f) = &key.fingerprint {
            if same(f.as_str(), fingerprint) {
                return Some(key.profile_id.clone());
            }
        }
        i = i - 1;
    }
    None
}

/// The machines that were found, in their order, each with the saved profile that is
/// paired with it.
pub fn discover_agents(found: Vec<Discovered>, keys: &Vec<PinnedKey>) -> (r: Vec<DiscoveredAgent>)
    ensures
        r@.len() == found@.len(),
        forall|i: int|
            0 <= i < found@.len() ==> {
                &&& (#[trigger] r@[i]).agent == found@[i]
                &&& match r@[i].paired_profile_id {
                    Some(id) => paired_with(keys@, found@[i].fingerprint@) == Some(id@),
                    None => paired_with(keys@, found@[i].fingerprint@) is None,
                }
            },
{
    let mut out: Vec<DiscoveredAgent> = Vec::new();
    let ghost all = found@;
    for agent in it: found
        invariant
            it.seq() == all,
            out@.len() == it.index(),
            forall|i: int|
                0 <= i < out@.len() ==> {
                    &&& (#[trigger] out@[i]).agent == all[i]
                    &&& match out@[i].paired_profile_id {
                        Some(id) => paired_with(keys@, all[i].fingerprint@) == Some(id@),
                        None => paired_with(keys@, all[i].fingerprint@) is None,
                    }
                },
    {
        let paired_profile_id = find_paired(keys, agent.fingerprint.as_str());
        out.push(DiscoveredAgent { agent, paired_profile_id });
    }
    out
}

/// A machine counts as paired exactly where a saved profile has pinned its key.
pub proof fn law_paired_iff_pinned(keys: Seq<PinnedKey>, fingerprint: Seq<char>)
    ensures
        paired_with(keys, fingerprint) is Some <==> exists|i: int|
            0 <= i < keys.len() && pins(#[trigger] keys[i], fingerprint),
    decreases keys.len(),
{
    if keys.len() > 0 {
        let rest = keys.drop_last();
        law_paired_iff_pinned(rest, fingerprint);
        if pins(keys.last(), fingerprint) {
            assert(pins(keys[keys.len() - 1], fingerprint));
        } else if exists|i: int| 0 <= i < keys.len() && pins(#[trigger] keys[i], fingerprint) {
            let i = choose|i: int| 0 <= i < keys.len() && pins(#[trigger] keys[i], fingerprint);
            assert(rest[i] == keys[i]);
        } else if exists|i: int| 0 <= i < rest.len() && pins(#[trigger] rest[i], fingerprint) {
            let i = choose|i: int| 0 <= i < rest.len() && pins(#[trigger] rest[i], fingerprint);
            assert(rest[i] == keys[i]);
        }
    }
}

// ---------------------------------------------------------------- pairing
/// What a machine says of itself.
#[derive(Debug, PartialEq, Eq)]
pub struct SystemInfo {
    pub hostname: String,
    pub os: String,
}

/// What a successful pairing yields.
#[derive(Debug, PartialEq, Eq)]
pub struct PairOutcome {
    pub server_key: String,
    pub fingerprint: String,
    pub system_info: SystemInfo,
}

/// The machine that was paired with, shown to the user to confirm it. It carries the
/// machine's key for the profile that is saved next.
#[derive(Debug, PartialEq, Eq)]
pub struct AgentPairResult {
    pub server_key: String,
    pub fingerprint: String,
    pub hostname: String,
    pub os: String,
}

/// The host to pair with, from what was typed in.
pub fn pairing_host(typed: &str) -> (r: &str)
    ensures
        r@ == trimmed(typed@),
{
    trim(typed)
}

/// What is shown of a pairing.
pub fn pair_agent(outcome: PairOutcome) -> (r: AgentPairResult)
    ensures
        r == (AgentPairResult {
            server_key: outcome.server_key,
            fingerprint: outcome.fingerprint,
            hostname: outcome.system_info.hostname,
            os: outcome.system_info.os,
        }),
{
    AgentPairResult {
        server_key: outcome.server_key,
        fingerprint: outcome.fingerprint,
        hostname: outcome.system_info.hostname,
        os: outcome.system_info.os,
    }
}

/// Of the profiles that have pinned the key of a machine, the last one is paired with it.
pub proof fn law_last_pinned_is_paired(
    before: Seq<PinnedKey>,
    key: PinnedKey,
    after: Seq<PinnedKey>,
    fingerprint: Seq<char>,
)
    requires
        key.fingerprint is Some && key.fingerprint->Some_0@ == fingerprint,
        forall|i: int|
            0 <= i < after.len() ==> !((#[trigger] after[i]).fingerprint is Some
                && after[i].fingerprint->Some_0@ == fingerprint),
    ensures
        paired_with(before + seq![key] + after, fingerprint) == Some(key.profile_id@),
        paired_with(after, fingerprint) is None,
    decreases after.len(),
{
    let all = before + seq![key] + after;
    if after.len() == 0 {
        assert(all.last() == key);
    } else {
        let rest = after.drop_last();
        assert(all.drop_last() == before + seq![key] + rest);
        assert(all.last() == after[after.len() - 1]);
        assert forall|i: int| 0 <= i < rest.len() implies !((#[trigger] rest[i]).fingerprint is Some
            && rest[i].fingerprint->Some_0@ == fingerprint) by {
            assert(rest[i] == after[i]);
        }
        law_last_pinned_is_paired(before, key, rest, fingerprint);
    }
}

} // verus!
