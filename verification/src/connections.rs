//! Opening connections: with a saved profile or with one that is used once, to
//! work with or only to see whether it can be opened.

use crate::error::{missing, profile_not_found, ErrorKind, GhostFTPError};
use crate::profile_store::{is_protected_form, step_views, storing, write_profile, Plan, StepView};
use crate::profiles::ConnectionProfile;
use vstd::prelude::*;
use vstd::string::*;

verus! {

/// The saved profile, or the error that there is none.
pub fn load_profile(id: &str, found: Option<ConnectionProfile>) -> (r: Result<
    ConnectionProfile,
    GhostFTPError,
>)
    ensures
        match found {
            Some(profile) => r == Ok::<ConnectionProfile, GhostFTPError>(profile),
            None => r matches Err(e) && e.kind is NotFound && e.message@ == missing(
                "profile"@,
                id@,
            ),
        },
{
    match found {
        Some(profile) => Ok(profile),
        None => Err(GhostFTPError::new(ErrorKind::NotFound, profile_not_found(id).as_str())),
    }
}

/// The steps that record that a profile has been connected with at time `now`, in
/// seconds since 1970, or at no known time. Only what holds no secret is written.
pub fn record_use(profile: ConnectionProfile, now: Option<u64>) -> (r: Plan)
    ensures
        is_protected_form(r.profile, (ConnectionProfile { last_used: now, ..profile })),
        step_views(r.steps@) == storing(profile.auth@, profile.id@).push(StepView::Write),
{
    write_profile(ConnectionProfile { last_used: now, ..profile })
}

/// What a connection is opened for.
#[derive(Debug, Clone, Copy, PartialEq, Eq, Structural)]
pub enum Purpose {
    /// To work with, from a saved profile.
    Use,
    /// To see whether a saved profile connects.
    Probe,
    /// To work with, from a profile that is not saved.
    QuickUse,
    /// To see whether a profile that is not saved connects.
    QuickProbe,
}

/// What is to be done next.
#[derive(Debug, PartialEq, Eq)]
pub enum Stage {
    /// Fetch the secret that the profile lacks, if any.
    Fetching,
    /// Open the transport.
    Opening,
    /// Store the secret of the profile, if it has one.
    Storing,
    /// Write the time of use to the profile file.
    Writing,
    /// Close the transport after a failed write.
    Closing(String),
    /// Tell the Agent Bridge of the session.
    Announcing,
    /// Close the transport of a probe.
    Leaving,
    /// Nothing: the command succeeds.
    Finished,
    /// Nothing: the command fails with this error.
    Failed(String),
}

/// Where a command begins.
pub open spec fn first_stage(purpose: Purpose) -> Stage {
    match purpose {
        Purpose::Use | Purpose::Probe => Stage::Fetching,
        _ => Stage::Opening,
    }
}

impl Stage {
    /// The first stage.
    pub fn start(purpose: Purpose) -> (r: Self)
        ensures
            r == first_stage(purpose),
    {
        match purpose {
            Purpose::Use | Purpose::Probe => Stage::Fetching,
            Purpose::QuickUse | Purpose::QuickProbe => Stage::Opening,
        }
    }

    /// Whether the command is over.
    pub open spec fn over(self) -> bool {
        self is Finished || self is Failed
    }

    /// The stage after this one has been carried out with the given outcome.
    pub open spec fn after(self, purpose: Purpose, outcome: Result<(), String>) -> Stage {
        match self {
            Stage::Fetching => match outcome {
                Ok(_) => Stage::Opening,
                Err(e) => Stage::Failed(e),
            },
            Stage::Opening => match outcome {
                Ok(_) => match purpose {
                    Purpose::Use => Stage::Storing,
                    Purpose::QuickUse => Stage::Announcing,
                    _ => Stage::Leaving,
                },
                Err(e) => Stage::Failed(e),
            },
            Stage::Storing => match outcome {
                Ok(_) => Stage::Writing,
                Err(e) => Stage::Failed(e),
            },
            Stage::Writing => match outcome {
                Ok(_) => Stage::Announcing,
                Err(e) => Stage::Closing(e),
            },
            Stage::Closing(e) => Stage::Failed(e),
            Stage::Announcing => Stage::Finished,
            Stage::Leaving => Stage::Finished,
            other => other,
        }
    }

    /// Goes on after this stage has been carried out. The outcomes of closing and of
    /// announcing are best-effort and change nothing.
    pub fn next(self, purpose: Purpose, outcome: Result<(), String>) -> (r: Self)
        ensures
            r == self.after(purpose, outcome),
    {
        match self {
            Stage::Fetching => match outcome {
                Ok(_) => Stage::Opening,
                Err(e) => Stage::Failed(e),
            },
            Stage::Opening => match outcome {
                Ok(_) => match purpose {
                    Purpose::Use => Stage::Storing,
                    Purpose::QuickUse => Stage::Announcing,
                    Purpose::Probe | Purpose::QuickProbe => Stage::Leaving,
                },
                Err(e) => Stage::Failed(e),
            },
            Stage::Storing => match outcome {
                Ok(_) => Stage::Writing,
                Err(e) => Stage::Failed(e),
            },
            Stage::Writing => match outcome {
                Ok(_) => Stage::Announcing,
                Err(e) => Stage::Closing(e),
            },
            Stage::Closing(e) => Stage::Failed(e),
            Stage::Announcing => Stage::Finished,
            Stage::Leaving => Stage::Finished,
            Stage::Finished => Stage::Finished,
            Stage::Failed(e) => Stage::Failed(e),
        }
    }
}

// ---------------------------------------------------------------- laws
/// What a command has done to the world.
pub struct Trace {
    /// Whether a transport that it opened is open.
    pub open: bool,
    /// Whether the profile's time of use has been written.
    pub recorded: bool,
    /// Whether the Agent Bridge knows of the session.
    pub announced: bool,
}

/// What carrying out a stage with the given outcome does.
pub open spec fn carried_out(stage: Stage, outcome: Result<(), String>, trace: Trace) -> Trace {
    match stage {
        Stage::Opening => Trace { open: outcome is Ok, ..trace },
        Stage::Writing => Trace { recorded: outcome is Ok, ..trace },
        Stage::Closing(_) => Trace { open: false, ..trace },
        Stage::Leaving => Trace { open: false, ..trace },
        Stage::Announcing => Trace { announced: true, ..trace },
        _ => trace,
    }
}

/// The stage and the trace that a sequence of outcomes leads to.
pub open spec fn followed(
    purpose: Purpose,
    stage: Stage,
    trace: Trace,
    outcomes: Seq<Result<(), String>>,
) -> (Stage, Trace)
    decreases outcomes.len(),
{
    if outcomes.len() == 0 {
        (stage, trace)
    } else {
        let (s, t) = followed(purpose, stage, trace, outcomes.drop_last());
        (s.after(purpose, outcomes.last()), carried_out(s, outcomes.last(), t))
    }
}

/// What a command has done before it begins.
pub open spec fn nothing_done() -> Trace {
    Trace { open: false, recorded: false, announced: false }
}

/// What has been done by the time each stage is reached.
pub open spec fn done_by(purpose: Purpose, stage: Stage) -> spec_fn(Trace) -> bool {
    |trace: Trace|
        match stage {
            Stage::Fetching | Stage::Opening => trace == nothing_done(),
            Stage::Storing | Stage::Writing | Stage::Closing(_) => purpose is Use && trace
                == (Trace { open: true, ..nothing_done() }),
            Stage::Announcing => (purpose is Use || purpose is QuickUse) && trace == (Trace {
                open: true,
                recorded: purpose is Use,
                announced: false,
            }),
            Stage::Leaving => (purpose is Probe || purpose is QuickProbe) && trace == (Trace {
                open: true,
                ..nothing_done()
            }),
            Stage::Finished => if purpose is Use || purpose is QuickUse {
                trace == (Trace { open: true, recorded: purpose is Use, announced: true })
            } else {
                trace == nothing_done()
            },
            Stage::Failed(_) => !trace.recorded && !trace.announced,
        }
}

proof fn lemma_done_by(purpose: Purpose, outcomes: Seq<Result<(), String>>)
    ensures
        ({
            let (s, t) = followed(purpose, first_stage(purpose), nothing_done(), outcomes);
            done_by(purpose, s)(t)
        }),
    decreases outcomes.len(),
{
    if outcomes.len() > 0 {
        lemma_done_by(purpose, outcomes.drop_last());
    }
}

/// A connection that could not be opened is never recorded as used, nor announced,
/// whatever failed.
pub proof fn law_failed_connection_is_not_recorded(
    purpose: Purpose,
    outcomes: Seq<Result<(), String>>,
)
    ensures
        ({
            let (s, t) = followed(purpose, first_stage(purpose), nothing_done(), outcomes);
            s is Failed ==> !t.recorded && !t.announced
        }),
{
    lemma_done_by(purpose, outcomes);
}

/// A time of use is written only for a saved profile that is used, and only while its
/// connection is open.
pub proof fn law_recorded_means_open(purpose: Purpose, outcomes: Seq<Result<(), String>>)
    ensures
        ({
            let (s, t) = followed(purpose, first_stage(purpose), nothing_done(), outcomes);
            t.recorded ==> purpose is Use && t.open
        }),
{
    lemma_done_by(purpose, outcomes);
}

/// A connection that is used is open and announced, and it is recorded exactly where
/// its profile is a saved one.
pub proof fn law_connected_means_open(purpose: Purpose, outcomes: Seq<Result<(), String>>)
    requires
        purpose is Use || purpose is QuickUse,
    ensures
        ({
            let (s, t) = followed(purpose, first_stage(purpose), nothing_done(), outcomes);
            s is Finished ==> t.open && t.announced && (t.recorded <==> purpose is Use)
        }),
{
    lemma_done_by(purpose, outcomes);
}

/// A probe that succeeds leaves nothing behind.
pub proof fn law_probe_leaves_nothing(purpose: Purpose, outcomes: Seq<Result<(), String>>)
    requires
        purpose is Probe || purpose is QuickProbe,
    ensures
        ({
            let (s, t) = followed(purpose, first_stage(purpose), nothing_done(), outcomes);
            s is Finished ==> t == nothing_done()
        }),
{
    lemma_done_by(purpose, outcomes);
}

/// A server that drops while the probe's session closes does not turn a successful probe
/// into a failure.
pub proof fn law_probe_succeeds_once_opened(
    purpose: Purpose,
    opened: Result<(), String>,
    closing: Result<(), String>,
)
    requires
        purpose is Probe || purpose is QuickProbe,
        opened is Ok,
    ensures
        Stage::Opening.after(purpose, opened).after(purpose, closing) is Finished,
{
}

/// Where the time of use cannot be written, the transport is closed before that error
/// is returned.
pub proof fn law_failed_write_closes(
    error: String,
    closing: Result<(), String>,
    trace: Trace,
)
    ensures
        ({
            let failed = Err::<(), String>(error);
            let stage = Stage::Writing.after(Purpose::Use, failed);
            let t = carried_out(stage, closing, carried_out(Stage::Writing, failed, trace));
            &&& stage.after(Purpose::Use, closing) == Stage::Failed(error)
            &&& !t.open
        }),
{
}

/// How many stages a command can still go through.
pub open spec fn stages_left(stage: Stage) -> nat {
    match stage {
        Stage::Fetching => 5,
        Stage::Opening => 4,
        Stage::Storing => 3,
        Stage::Writing => 2,
        Stage::Closing(_) | Stage::Announcing | Stage::Leaving => 1,
        _ => 0,
    }
}

/// Every command ends: each stage that is not the last one brings it nearer its end.
pub proof fn law_connecting_ends(stage: Stage, purpose: Purpose, outcome: Result<(), String>)
    ensures
        stages_left(stage) == 0 <==> stage.over(),
        !stage.over() ==> stages_left(stage.after(purpose, outcome)) < stages_left(stage),
{
}

/// How every command goes, from the outcomes of its stages. A saved profile's secret is
/// fetched first. Where fetching or opening fails, the command fails with that error,
/// whatever it is for; only an opened connection leads anywhere else. A probe then ends
/// well however closing goes; an announced session too; and the use of a saved profile is
/// stored and written before it is announced, each failure ending the command with its
/// error.
pub proof fn law_connection_outcome(purpose: Purpose, outcomes: Seq<Result<(), String>>)
    ensures
        ({
            let stage = followed(purpose, first_stage(purpose), nothing_done(), outcomes).0;
            let n = outcomes.len();
            let saved = purpose == Purpose::Use || purpose == Purpose::Probe;
            let open = if saved {
                1int
            } else {
                0int
            };
            if saved && n == 0 {
                stage == Stage::Fetching
            } else if saved && outcomes[0] is Err {
                stage == Stage::Failed(outcomes[0]->Err_0)
            } else if n == open {
                stage == Stage::Opening
            } else if outcomes[open] is Err {
                stage == Stage::Failed(outcomes[open]->Err_0)
            } else if purpose == Purpose::Probe || purpose == Purpose::QuickProbe {
                stage == if n == open + 1 {
                    Stage::Leaving
                } else {
                    Stage::Finished
                }
            } else if purpose == Purpose::QuickUse {
                stage == if n == open + 1 {
                    Stage::Announcing
                } else {
                    Stage::Finished
                }
            } else if n == 2 {
                stage == Stage::Storing
            } else if outcomes[2] is Err {
                stage == Stage::Failed(outcomes[2]->Err_0)
            } else if n == 3 {
                stage == Stage::Writing
            } else if outcomes[3] is Err {
                stage == if n == 4 {
                    Stage::Closing(outcomes[3]->Err_0)
                } else {
                    Stage::Failed(outcomes[3]->Err_0)
                }
            } else {
                stage == if n == 4 {
                    Stage::Announcing
                } else {
                    Stage::Finished
                }
            }
        }),
    decreases outcomes.len(),
{
    if outcomes.len() > 0 {
        let before = outcomes.drop_last();
        law_connection_outcome(purpose, before);
        assert forall|i: int| 0 <= i < before.len() implies #[trigger] outcomes[i] == before[i] by {}
        assert(outcomes[outcomes.len() - 1] == outcomes.last());
    }
}

/// No command, a probe neither, ends well unless its connection was opened.
pub proof fn law_finished_means_opened(purpose: Purpose, outcomes: Seq<Result<(), String>>)
    requires
        followed(purpose, first_stage(purpose), nothing_done(), outcomes).0 is Finished,
    ensures
        ({
            let open = if purpose == Purpose::Use || purpose == Purpose::Probe {
                1int
            } else {
                0int
            };
            open < outcomes.len() && outcomes[open] is Ok
        }),
{
    law_connection_outcome(purpose, outcomes);
}

/// Where fetching the secret or opening the transport fails, the command fails with that
/// error, whatever it is for.
pub proof fn law_failure_to_open_is_the_error(purpose: Purpose, error: String)
    ensures
        Stage::Fetching.after(purpose, Err(error)) == Stage::Failed(error),
        Stage::Opening.after(purpose, Err(error)) == Stage::Failed(error),
{
}

} // verus!
