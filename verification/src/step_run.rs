//! Performing the steps of a plan: which step is next, and what a failure leads to.
//!
//! A secret that cannot be stored or recorded, or metadata that cannot be written or
//! removed, ends the command. Deleting credentials is best-effort. A copy of a profile whose metadata cannot
//! be written takes the secrets back that were stored for it.

use crate::profile_store::{
    deleting, effect, forgetting, lookup, performed, saving, stale, step_views, storing, Secrets, Step,
    StepView,
};
use crate::profiles::{
    law_secret_names_differ, passphrase_key, password_key, secret_key, secret_of, AuthView,
    ConnectionProfile,
};
use vstd::prelude::*;

verus! {

/// Where the performing of steps stands.
#[derive(Debug, PartialEq, Eq)]
pub enum StepRun {
    /// Perform the step with this number.
    At(usize),
    /// Metadata could not be written, for this reason: perform the step with this number
    /// of those that take back what was done.
    Undo(usize, String),
    /// All steps have been performed.
    Done,
    /// The command fails with this error.
    Failed(String),
}

/// Whether a step must succeed for the command to go on.
pub open spec fn is_required(step: StepView) -> bool {
    step is Store || step is Record || step is Write || step is Remove
}

/// Where the performing of `n` steps begins.
pub open spec fn first_step(n: int) -> StepRun {
    if n > 0 {
        StepRun::At(0)
    } else {
        StepRun::Done
    }
}

impl StepRun {
    /// Whether the number of the next step is that of one.
    pub open spec fn wf(self, steps: Seq<StepView>, undo: Seq<StepView>) -> bool {
        match self {
            StepRun::At(i) => i < steps.len(),
            StepRun::Undo(i, _) => i < undo.len(),
            _ => true,
        }
    }

    /// Where the performing stands after the next step. A step that takes something back
    /// is best-effort.
    pub open spec fn after(
        self,
        steps: Seq<StepView>,
        undo: Seq<StepView>,
        outcome: Result<(), String>,
    ) -> StepRun {
        match self {
            StepRun::At(i) => match outcome {
                Err(e) if is_required(steps[i as int]) => if steps[i as int] is Write && undo.len()
                    > 0 {
                    StepRun::Undo(0, e)
                } else {
                    StepRun::Failed(e)
                },
                _ => if i + 1 < steps.len() {
                    StepRun::At((i + 1) as usize)
                } else {
                    StepRun::Done
                },
            },
            StepRun::Undo(i, e) => if i + 1 < undo.len() {
                StepRun::Undo((i + 1) as usize, e)
            } else {
                StepRun::Failed(e)
            },
            other => other,
        }
    }

    /// The first step is performed first.
    pub fn start(steps: &Vec<Step>) -> (r: Self)
        ensures
            r == first_step(steps@.len() as int),
            r.wf(step_views(steps@), Seq::<StepView>::empty()),
    {
        if steps.len() > 0 {
            StepRun::At(0)
        } else {
            StepRun::Done
        }
    }

    /// The next step, while there is one.
    pub fn action<'a>(&self, steps: &'a Vec<Step>, undo: &'a Vec<Step>) -> (r: Option<&'a Step>)
        requires
            self.wf(step_views(steps@), step_views(undo@)),
        ensures
            match *self {
                StepRun::At(i) => r matches Some(step) && *step == steps@[i as int],
                StepRun::Undo(i, _) => r matches Some(step) && *step == undo@[i as int],
                _ => r is None,
            },
    {
        match self {
            StepRun::At(i) => Some(&steps[*i]),
            StepRun::Undo(i, _) => Some(&undo[*i]),
            _ => None,
        }
    }

    /// Goes on after the step has been performed.
    pub fn next(self, steps: &Vec<Step>, undo: &Vec<Step>, outcome: Result<(), String>) -> (r: Self)
        requires
            self.wf(step_views(steps@), step_views(undo@)),
        ensures
            r == self.after(step_views(steps@), step_views(undo@), outcome),
            r.wf(step_views(steps@), step_views(undo@)),
    {
        match self {
            StepRun::At(i) => {
                assert(step_views(steps@)[i as int] == steps@[i as int]@);
                let (required, writes) = match &steps[i] {
                    Step::Store(_) => (true, false),
                    Step::Record(_) => (true, false),
                    Step::Write => (true, true),
                    Step::Remove => (true, false),
                    _ => (false, false),
                };
                if let Err(e) = outcome {
                    if required {
                        return if writes && undo.len() > 0 {
                            StepRun::Undo(0, e)
                        } else {
                            StepRun::Failed(e)
                        };
                    }
                }
                if i < steps.len() - 1 {
                    StepRun::At(i + 1)
                } else {
                    StepRun::Done
                }
            },
            StepRun::Undo(i, e) => {
                if i < undo.len() - 1 {
                    StepRun::Undo(i + 1, e)
                } else {
                    StepRun::Failed(e)
                }
            },
            other => other,
        }
    }
}

// ---------------------------------------------------------------- laws
/// Where the performing stands after some outcomes, and the steps that have taken effect:
/// one that failed and was required has not.
pub open spec fn followed(
    steps: Seq<StepView>,
    undo: Seq<StepView>,
    outcomes: Seq<Result<(), String>>,
) -> (StepRun, Seq<StepView>)
    decreases outcomes.len(),
{
    if outcomes.len() == 0 {
        (first_step(steps.len() as int), seq![])
    } else {
        let (s, done) = followed(steps, undo, outcomes.drop_last());
        let outcome = outcomes.last();
        let done_now = match s {
            StepRun::At(i) => if outcome is Ok || !is_required(steps[i as int]) {
                done.push(steps[i as int])
            } else {
                done
            },
            StepRun::Undo(i, _) => done.push(undo[i as int]),
            _ => done,
        };
        (s.after(steps, undo, outcome), done_now)
    }
}

/// Whether step `k` is required and failed with `error`.
pub open spec fn failed_at(
    steps: Seq<StepView>,
    outcomes: Seq<Result<(), String>>,
    k: int,
    error: String,
) -> bool {
    &&& 0 <= k < steps.len()
    &&& k < outcomes.len()
    &&& is_required(steps[k])
    &&& outcomes[k] == Err::<(), String>(error)
}

/// What has taken effect where step `k` failed, and what was to be taken back has been.
pub open spec fn effect_of_failure(steps: Seq<StepView>, undo: Seq<StepView>, k: int) -> Seq<
    StepView,
> {
    if steps[k] is Write {
        steps.take(k) + undo
    } else {
        steps.take(k)
    }
}

/// Whether step `k` was to write metadata and failed with `error`, and `n` of the steps
/// that take back what was done have followed.
pub open spec fn undone(
    steps: Seq<StepView>,
    undo: Seq<StepView>,
    outcomes: Seq<Result<(), String>>,
    done: Seq<StepView>,
    n: int,
    error: String,
) -> bool {
    exists|k: int|
        {
            &&& #[trigger] failed_at(steps, outcomes, k, error)
            &&& steps[k] is Write
            &&& done == steps.take(k) + undo.take(n)
        }
}

/// Whether a required step failed with `error`, and all has been taken back that was to be.
pub open spec fn stopped(
    steps: Seq<StepView>,
    undo: Seq<StepView>,
    outcomes: Seq<Result<(), String>>,
    done: Seq<StepView>,
    error: String,
) -> bool {
    exists|k: int|
        {
            &&& #[trigger] failed_at(steps, outcomes, k, error)
            &&& done == effect_of_failure(steps, undo, k)
        }
}

/// Steps are performed in their order up to the first required one that fails, and the
/// command fails with its error. Where that was to write metadata, what was to be taken
/// back is taken back; nothing else is done.
pub proof fn law_steps_stop_at_first_failure(
    steps: Seq<StepView>,
    undo: Seq<StepView>,
    outcomes: Seq<Result<(), String>>,
)
    requires
        steps.len() <= usize::MAX,
        undo.len() <= usize::MAX,
    ensures
        ({
            let (s, done) = followed(steps, undo, outcomes);
            match s {
                StepRun::At(i) => {
                    &&& i < steps.len()
                    &&& i == outcomes.len()
                    &&& done == steps.take(i as int)
                },
                StepRun::Done => done == steps,
                StepRun::Undo(i, e) => {
                    &&& i < undo.len()
                    &&& undone(steps, undo, outcomes, done, i as int, e)
                },
                StepRun::Failed(e) => stopped(steps, undo, outcomes, done, e),
            }
        }),
    decreases outcomes.len(),
{
    if outcomes.len() == 0 {
        assert(steps.take(0) == Seq::<StepView>::empty());
        if steps.len() == 0 {
            assert(steps == Seq::<StepView>::empty());
        }
    } else {
        let before = outcomes.drop_last();
        law_steps_stop_at_first_failure(steps, undo, before);
        let (s, done) = followed(steps, undo, before);
        let (next, after) = followed(steps, undo, outcomes);
        match s {
            StepRun::At(i) => {
                let k = i as int;
                assert(outcomes[k] == outcomes.last());
                if outcomes.last() is Ok || !is_required(steps[k]) {
                    assert(after == steps.take(k).push(steps[k]));
                    assert(after == steps.take(k + 1));
                    if k + 1 == steps.len() {
                        assert(after == steps);
                    }
                } else {
                    let e = outcomes.last()->Err_0;
                    assert(failed_at(steps, outcomes, k, e));
                    assert(after == steps.take(k));
                    if next is Undo {
                        assert(after == steps.take(k) + undo.take(0));
                        assert(undone(steps, undo, outcomes, after, 0, e));
                    } else {
                        assert(after == effect_of_failure(steps, undo, k));
                        assert(stopped(steps, undo, outcomes, after, e));
                    }
                }
            },
            StepRun::Undo(i, e) => {
                let k = choose|k: int|
                    {
                        &&& #[trigger] failed_at(steps, before, k, e)
                        &&& steps[k] is Write
                        &&& done == steps.take(k) + undo.take(i as int)
                    };
                assert(outcomes[k] == before[k]);
                assert(failed_at(steps, outcomes, k, e));
                assert(after == (steps.take(k) + undo.take(i as int)).push(undo[i as int]));
                assert(after == steps.take(k) + undo.take(i + 1));
                if i + 1 == undo.len() {
                    assert(undo.take(i + 1) == undo);
                    assert(after == effect_of_failure(steps, undo, k));
                    assert(stopped(steps, undo, outcomes, after, e));
                } else {
                    assert(undone(steps, undo, outcomes, after, i + 1, e));
                }
            },
            StepRun::Done => {},
            StepRun::Failed(e) => {
                let k = choose|k: int|
                    {
                        &&& #[trigger] failed_at(steps, before, k, e)
                        &&& done == effect_of_failure(steps, undo, k)
                    };
                assert(outcomes[k] == before[k]);
                assert(failed_at(steps, outcomes, k, e));
                assert(stopped(steps, undo, outcomes, after, e));
            },
        }
    }
}

/// What storing and recording a secret do to the stored secrets.
proof fn lemma_storing(secrets: Secrets, auth: AuthView, id: Seq<char>)
    ensures
        performed(secrets, Seq::<StepView>::empty()) == secrets,
        storing(auth, id).len() == 0 || storing(auth, id).len() == 2,
        storing(auth, id).len() == 2 ==> {
            let stored = secrets.insert(secret_key(auth, id), secret_of(auth)->Some_0);
            &&& performed(secrets, storing(auth, id).take(1)) == stored
            &&& performed(secrets, storing(auth, id)) == stored
        },
{
    let steps = storing(auth, id);
    if steps.len() > 0 {
        let first = steps.take(1);
        assert(first.drop_last() == Seq::<StepView>::empty());
        assert(performed(secrets, first.drop_last()) == secrets);
        assert(performed(secrets, first) == effect(secrets, steps[0]));
        assert(steps.drop_last() == first);
        assert(performed(secrets, steps) == effect(performed(secrets, first), steps[1]));
    }
}

/// Where saving a profile fails, no stored secret has been removed: the profile that was
/// saved before remains usable.
pub proof fn law_failed_save_removes_nothing(
    secrets: Secrets,
    old: Option<AuthView>,
    new: AuthView,
    id: Seq<char>,
    outcomes: Seq<Result<(), String>>,
    key: Seq<char>,
)
    ensures
        ({
            let (s, done) = followed(saving(old, new, id), seq![], outcomes);
            s is Failed && secrets.contains_key(key) ==> performed(secrets, done).contains_key(key)
        }),
{
    let steps = saving(old, new, id);
    let none = Seq::<StepView>::empty();
    let first = storing(new, id);
    assert(first.len() <= 2 && stale(old, new, id).len() <= 2);
    law_steps_stop_at_first_failure(steps, none, outcomes);
    let (s, done) = followed(steps, none, outcomes);
    if s is Failed {
        let e = s->Failed_0;
        let k = choose|k: int|
            #[trigger] failed_at(steps, outcomes, k, e) && done == effect_of_failure(steps, none, k);
        assert(steps.take(k) + none == steps.take(k));
        if k > first.len() {
            assert(steps[k] == forgetting(stale(old, new, id))[k - first.len() - 1]);
        }
        assert(k <= first.len());
        assert(performed(secrets, none) == secrets);
        if k == 0 {
            assert(done == none);
        } else {
            lemma_storing(secrets, new, id);
            if k == 1 {
                assert(done == first.take(1));
            } else {
                assert(done == first);
            }
        }
    }
}

/// Where deleting a profile fails, nothing has been deleted.
pub proof fn law_failed_delete_removes_nothing(
    profile: Option<ConnectionProfile>,
    id: Seq<char>,
    outcomes: Seq<Result<(), String>>,
)
    ensures
        ({
            let (s, done) = followed(deleting(profile, id), seq![], outcomes);
            s is Failed ==> done == Seq::<StepView>::empty()
        }),
{
    let steps = deleting(profile, id);
    let none = Seq::<StepView>::empty();
    assert(steps.len() <= 5);
    law_steps_stop_at_first_failure(steps, none, outcomes);
    let (s, done) = followed(steps, none, outcomes);
    assert forall|i: int| 0 < i < steps.len() implies !is_required(#[trigger] steps[i]) by {}
    if s is Failed {
        let e = s->Failed_0;
        let k = choose|k: int|
            #[trigger] failed_at(steps, outcomes, k, e) && done == effect_of_failure(steps, none, k);
        assert(k == 0);
        assert(done == none);
    }
}

/// Where copying a profile fails, every secret of the source is as it was; and where it
/// fails because the copy's metadata cannot be written, none of the copy's secrets stays
/// behind.
pub proof fn law_failed_copy_leaves_source_alone(
    secrets: Secrets,
    auth: AuthView,
    source: Seq<char>,
    id: Seq<char>,
    outcomes: Seq<Result<(), String>>,
)
    requires
        id != source,
    ensures
        ({
            let first = storing(auth, id);
            let undo = forgetting(seq![password_key(id), passphrase_key(id)]);
            let (s, done) = followed(first.push(StepView::Write), undo, outcomes);
            let after = performed(secrets, done);
            &&& s is Failed ==> {
                &&& lookup(after, password_key(source)) == lookup(secrets, password_key(source))
                &&& lookup(after, passphrase_key(source)) == lookup(secrets, passphrase_key(source))
            }
            &&& s is Failed && (forall|i: int|
                0 <= i < first.len() ==> #[trigger] outcomes[i] is Ok) ==> {
                &&& lookup(after, password_key(id)) is None
                &&& lookup(after, passphrase_key(id)) is None
            }
        }),
{
    law_secret_names_differ(id, source);
    law_secret_names_differ(source, id);
    law_secret_names_differ(id, id);
    let none = Seq::<StepView>::empty();
    let undo = forgetting(seq![password_key(id), passphrase_key(id)]);
    let first = storing(auth, id);
    let steps = first.push(StepView::Write);
    law_steps_stop_at_first_failure(steps, undo, outcomes);
    let (s, done) = followed(steps, undo, outcomes);
    lemma_storing(secrets, auth, id);
    if s is Failed {
        let e = s->Failed_0;
        let k = choose|k: int|
            #[trigger] failed_at(steps, outcomes, k, e) && done == effect_of_failure(
                steps,
                undo,
                k,
            );
        if k == first.len() {
            assert(steps.take(k) == first);
            let stored = performed(secrets, first);
            let most = first + undo.take(1);
            assert(done.drop_last() == most);
            assert(done.last() == StepView::Forget { key: passphrase_key(id) });
            assert(most.drop_last() == first);
            assert(most.last() == StepView::Forget { key: password_key(id) });
            assert(performed(secrets, most) == stored.remove(password_key(id)));
            assert(performed(secrets, done) == stored.remove(password_key(id)).remove(
                passphrase_key(id),
            ));
        } else {
            assert(outcomes[k] is Err);
            if k == 0 {
                assert(done == none);
            } else {
                assert(done == first.take(1));
            }
        }
    }
}

/// A secret that cannot be stored or recorded, and a profile that cannot be removed, end
/// the command with the error; so does a profile that cannot be written, once what was
/// stored for it has been taken back. Deleting a credential that cannot be deleted is as
/// good as deleting it.
pub proof fn law_failing_step(
    steps: Seq<StepView>,
    undo: Seq<StepView>,
    i: usize,
    error: String,
    outcome: Result<(), String>,
)
    requires
        i < steps.len() <= usize::MAX,
        undo.len() <= usize::MAX,
    ensures
        ({
            let failed = StepRun::At(i).after(steps, undo, Err(error));
            let worked = StepRun::At(i).after(steps, undo, Ok(()));
            &&& match steps[i as int] {
                StepView::Store { .. } => failed == StepRun::Failed(error),
                StepView::Record { .. } => failed == StepRun::Failed(error),
                StepView::Remove => failed == StepRun::Failed(error),
                StepView::Write => failed == (if undo.len() > 0 {
                    StepRun::Undo(0, error)
                } else {
                    StepRun::Failed(error)
                }),
                StepView::Forget { .. } => failed == worked,
                StepView::DropTokens { .. } => failed == worked,
                StepView::DropShopifyCredential => failed == worked,
            }
            &&& i + 1 < steps.len() ==> worked == StepRun::At((i + 1) as usize)
            &&& i + 1 == steps.len() ==> worked is Done
            &&& i + 1 < undo.len() ==> StepRun::Undo(i, error).after(steps, undo, outcome)
                == StepRun::Undo((i + 1) as usize, error)
            &&& i + 1 >= undo.len() ==> StepRun::Undo(i, error).after(steps, undo, outcome)
                == StepRun::Failed(error)
        }),
{
}

} // verus!
