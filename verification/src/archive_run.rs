//! The download of a remote directory as an archive, from building the archive to
//! removing it again.

use crate::archive::{
    archive_outcome, build_failed, ArchivePlan, Settling, TransferStatus, MAX_POLLS,
};
use crate::remote_commands::{succeeded, ExecOutput};
use crate::sync::OverwritePolicy;
use vstd::prelude::*;
use vstd::string::*;

verus! {

/// How far the download of an archive has come.
#[derive(Debug, PartialEq, Eq)]
pub enum ArchiveRun {
    /// Build the archive.
    Build,
    /// Remove what was built: building failed with this message.
    Discard(String),
    /// Make the local directory.
    Prepare,
    /// Queue the download.
    Download,
    /// See how the transfer with this id stands; it has been looked at so often.
    Watch(String, u32),
    /// Remove the archive: the transfer with this id has settled.
    Remove(String),
    /// All is done; the transfer had this id.
    Done(String),
    /// The command fails with this message.
    Failed(String),
}

/// How far the download of an archive has come, as its texts.
pub enum ArchiveRunView {
    Build,
    Discard(Seq<char>),
    Prepare,
    Download,
    Watch(Seq<char>, u32),
    Remove(Seq<char>),
    Done(Seq<char>),
    Failed(Seq<char>),
}

impl View for ArchiveRun {
    type V = ArchiveRunView;

    open spec fn view(&self) -> ArchiveRunView {
        match self {
            ArchiveRun::Build => ArchiveRunView::Build,
            ArchiveRun::Discard(e) => ArchiveRunView::Discard(e@),
            ArchiveRun::Prepare => ArchiveRunView::Prepare,
            ArchiveRun::Download => ArchiveRunView::Download,
            ArchiveRun::Watch(id, n) => ArchiveRunView::Watch(id@, *n),
            ArchiveRun::Remove(id) => ArchiveRunView::Remove(id@),
            ArchiveRun::Done(id) => ArchiveRunView::Done(id@),
            ArchiveRun::Failed(e) => ArchiveRunView::Failed(e@),
        }
    }
}

/// What is to be done next.
#[derive(Debug, PartialEq, Eq)]
pub enum ArchiveAction<'a> {
    /// Run this command on the server.
    Run(&'a str),
    /// Make the local directory that the archive goes to.
    MakeDirectory,
    /// Queue the download of this file.
    Download { path: &'a str, policy: OverwritePolicy },
    /// Wait a while, then see how the transfer with this id stands.
    Look(&'a str),
    /// Nothing.
    Over,
}

/// How the last action went.
#[derive(Debug, PartialEq, Eq)]
pub enum ArchiveReply {
    /// What the command gave back, or why it could not be run.
    Ran(Result<ExecOutput, String>),
    /// Whether the directory is there.
    Made(Result<(), String>),
    /// The id of the transfer, or why it could not be queued.
    Queued(Result<String, String>),
    /// How the transfer stands; a transfer that is gone has no status.
    Seen(Option<TransferStatus>),
}

impl ArchiveRunView {
    /// Whether the command is over.
    pub open spec fn over(self) -> bool {
        self is Done || self is Failed
    }

    /// Whether a reply answers the action of this stage.
    pub open spec fn answered_by(self, reply: ArchiveReply) -> bool {
        match self {
            ArchiveRunView::Build => reply is Ran,
            ArchiveRunView::Discard(_) => reply is Ran,
            ArchiveRunView::Prepare => reply is Made,
            ArchiveRunView::Download => reply is Queued,
            ArchiveRunView::Watch(..) => reply is Seen,
            ArchiveRunView::Remove(_) => reply is Ran,
            _ => false,
        }
    }

    /// The stage after this one has been carried out. An archive that could not be built
    /// is removed and not downloaded. What comes of removing it changes nothing. A reply
    /// that does not answer the action changes nothing either.
    pub open spec fn after(self, is_zip: bool, reply: ArchiveReply) -> ArchiveRunView {
        match (self, reply) {
            (ArchiveRunView::Build, ArchiveReply::Ran(Ok(out))) => if succeeded(out) {
                ArchiveRunView::Prepare
            } else {
                ArchiveRunView::Discard(build_failed(out.stderr@, is_zip))
            },
            (ArchiveRunView::Build, ArchiveReply::Ran(Err(e))) => ArchiveRunView::Failed(e@),
            (ArchiveRunView::Discard(e), ArchiveReply::Ran(_)) => ArchiveRunView::Failed(e),
            (ArchiveRunView::Prepare, ArchiveReply::Made(Ok(_))) => ArchiveRunView::Download,
            (ArchiveRunView::Prepare, ArchiveReply::Made(Err(e))) => ArchiveRunView::Failed(e@),
            (ArchiveRunView::Download, ArchiveReply::Queued(Ok(id))) => ArchiveRunView::Watch(
                id@,
                0,
            ),
            (ArchiveRunView::Download, ArchiveReply::Queued(Err(e))) => ArchiveRunView::Failed(e@),
            (ArchiveRunView::Watch(id, n), ArchiveReply::Seen(status)) => match Settling::Waiting(
                n,
            ).after(status) {
                Settling::Waiting(m) => ArchiveRunView::Watch(id, m),
                Settling::Cleanup => ArchiveRunView::Remove(id),
            },
            (ArchiveRunView::Remove(id), ArchiveReply::Ran(_)) => ArchiveRunView::Done(id),
            (other, _) => other,
        }
    }
}

impl ArchiveRun {
    /// The archive is built first.
    pub fn start() -> (r: Self)
        ensures
            r@ == ArchiveRunView::Build,
    {
        ArchiveRun::Build
    }

    /// What is to be done next. A download never overwrites a file.
    pub fn action<'a>(&'a self, plan: &'a ArchivePlan) -> (r: ArchiveAction<'a>)
        ensures
            match self@ {
                ArchiveRunView::Build => r matches ArchiveAction::Run(c) && c@ == plan.build@,
                ArchiveRunView::Discard(_) => r matches ArchiveAction::Run(c) && c@
                    == plan.cleanup@,
                ArchiveRunView::Prepare => r is MakeDirectory,
                ArchiveRunView::Download => r matches ArchiveAction::Download { path, policy }
                    && path@ == plan.archive@ && policy is Rename,
                ArchiveRunView::Watch(id, _) => r matches ArchiveAction::Look(x) && x@ == id,
                ArchiveRunView::Remove(_) => r matches ArchiveAction::Run(c) && c@ == plan.cleanup@,
                ArchiveRunView::Done(_) => r is Over,
                ArchiveRunView::Failed(_) => r is Over,
            },
    {
        match self {
            ArchiveRun::Build => ArchiveAction::Run(plan.build.as_str()),
            ArchiveRun::Discard(_) => ArchiveAction::Run(plan.cleanup.as_str()),
            ArchiveRun::Prepare => ArchiveAction::MakeDirectory,
            ArchiveRun::Download => ArchiveAction::Download {
                path: plan.archive.as_str(),
                policy: OverwritePolicy::Rename,
            },
            ArchiveRun::Watch(id, _) => ArchiveAction::Look(id.as_str()),
            ArchiveRun::Remove(_) => ArchiveAction::Run(plan.cleanup.as_str()),
            ArchiveRun::Done(_) => ArchiveAction::Over,
            ArchiveRun::Failed(_) => ArchiveAction::Over,
        }
    }

    /// What the command returns, once that is known: the id of the transfer as soon as it
    /// is queued, while the rest goes on behind it; or the error.
    pub fn result(&self) -> (r: Option<Result<&str, &str>>)
        ensures
            match self@ {
                ArchiveRunView::Watch(id, _) => r matches Some(Ok(x)) && x@ == id,
                ArchiveRunView::Remove(id) => r matches Some(Ok(x)) && x@ == id,
                ArchiveRunView::Done(id) => r matches Some(Ok(x)) && x@ == id,
                ArchiveRunView::Failed(e) => r matches Some(Err(x)) && x@ == e,
                _ => r is None,
            },
    {
        match self {
            ArchiveRun::Watch(id, _) => Some(Ok(id.as_str())),
            ArchiveRun::Remove(id) => Some(Ok(id.as_str())),
            ArchiveRun::Done(id) => Some(Ok(id.as_str())),
            ArchiveRun::Failed(e) => Some(Err(e.as_str())),
            _ => None,
        }
    }

    /// Goes on after the action has been carried out.
    pub fn next(self, is_zip: bool, reply: ArchiveReply) -> (r: Self)
        ensures
            r@ == self@.after(is_zip, reply),
    {
        match (self, reply) {
            (ArchiveRun::Build, ArchiveReply::Ran(Ok(out))) => match archive_outcome(
                &out,
                is_zip,
            ) {
                Ok(_) => ArchiveRun::Prepare,
                Err(e) => ArchiveRun::Discard(e),
            },
            (ArchiveRun::Build, ArchiveReply::Ran(Err(e))) => ArchiveRun::Failed(e),
            (ArchiveRun::Discard(e), ArchiveReply::Ran(_)) => ArchiveRun::Failed(e),
            (ArchiveRun::Prepare, ArchiveReply::Made(Ok(_))) => ArchiveRun::Download,
            (ArchiveRun::Prepare, ArchiveReply::Made(Err(e))) => ArchiveRun::Failed(e),
            (ArchiveRun::Download, ArchiveReply::Queued(Ok(id))) => ArchiveRun::Watch(id, 0),
            (ArchiveRun::Download, ArchiveReply::Queued(Err(e))) => ArchiveRun::Failed(e),
            (ArchiveRun::Watch(id, n), ArchiveReply::Seen(status)) => {
                match Settling::Waiting(n).next(status) {
                    Settling::Waiting(m) => ArchiveRun::Watch(id, m),
                    Settling::Cleanup => ArchiveRun::Remove(id),
                }
            },
            (ArchiveRun::Remove(id), ArchiveReply::Ran(_)) => ArchiveRun::Done(id),
            (other, _) => other,
        }
    }
}

// ---------------------------------------------------------------- laws
/// What a command has done.
pub struct ArchiveTrace {
    /// Whether the build command was run.
    pub built: bool,
    /// Whether that succeeded.
    pub complete: bool,
    /// Whether a download was queued.
    pub queued: bool,
    /// Whether the command that removes the directory was run.
    pub removed: bool,
    /// Whether building could not be asked for, or the local directory could not be made,
    /// or the download could not be queued.
    pub stuck: bool,
}

/// What carrying out a stage with the given reply does.
pub open spec fn carried_out(
    stage: ArchiveRunView,
    reply: ArchiveReply,
    trace: ArchiveTrace,
) -> ArchiveTrace {
    match (stage, reply) {
        (ArchiveRunView::Build, ArchiveReply::Ran(Ok(out))) => ArchiveTrace {
            built: true,
            complete: succeeded(out),
            ..trace
        },
        (ArchiveRunView::Build, ArchiveReply::Ran(Err(_))) => ArchiveTrace { stuck: true, ..trace },
        (ArchiveRunView::Prepare, ArchiveReply::Made(Err(_))) => ArchiveTrace {
            stuck: true,
            ..trace
        },
        (ArchiveRunView::Download, ArchiveReply::Queued(Ok(_))) => ArchiveTrace {
            queued: true,
            ..trace
        },
        (ArchiveRunView::Download, ArchiveReply::Queued(Err(_))) => ArchiveTrace {
            stuck: true,
            ..trace
        },
        (ArchiveRunView::Discard(_), ArchiveReply::Ran(_)) => ArchiveTrace {
            removed: true,
            ..trace
        },
        (ArchiveRunView::Remove(_), ArchiveReply::Ran(_)) => ArchiveTrace {
            removed: true,
            ..trace
        },
        _ => trace,
    }
}

/// What a command has done before it begins.
pub open spec fn nothing_done() -> ArchiveTrace {
    ArchiveTrace { built: false, complete: false, queued: false, removed: false, stuck: false }
}

/// The stage and the trace that a sequence of replies leads to.
pub open spec fn followed(is_zip: bool, replies: Seq<ArchiveReply>) -> (
    ArchiveRunView,
    ArchiveTrace,
)
    decreases replies.len(),
{
    if replies.len() == 0 {
        (ArchiveRunView::Build, nothing_done())
    } else {
        let (s, t) = followed(is_zip, replies.drop_last());
        (s.after(is_zip, replies.last()), carried_out(s, replies.last(), t))
    }
}

/// What has been done by the time a stage is reached.
pub open spec fn done_by(stage: ArchiveRunView, trace: ArchiveTrace) -> bool {
    let built = ArchiveTrace { built: true, ..nothing_done() };
    let complete = ArchiveTrace { complete: true, ..built };
    let queued = ArchiveTrace { queued: true, ..complete };
    match stage {
        ArchiveRunView::Build => trace == nothing_done(),
        ArchiveRunView::Discard(_) => trace == built,
        ArchiveRunView::Prepare => trace == complete,
        ArchiveRunView::Download => trace == complete,
        ArchiveRunView::Watch(..) => trace == queued,
        ArchiveRunView::Remove(_) => trace == queued,
        ArchiveRunView::Done(_) => trace == (ArchiveTrace { removed: true, ..queued }),
        ArchiveRunView::Failed(_) => {
            ||| trace == (ArchiveTrace { removed: true, ..built })
            ||| trace == (ArchiveTrace { stuck: true, ..nothing_done() })
            ||| trace == (ArchiveTrace { stuck: true, ..complete })
        },
    }
}

proof fn lemma_done_by(is_zip: bool, replies: Seq<ArchiveReply>)
    ensures
        done_by(followed(is_zip, replies).0, followed(is_zip, replies).1),
    decreases replies.len(),
{
    if replies.len() > 0 {
        lemma_done_by(is_zip, replies.drop_last());
    }
}

/// The temporary directory is removed by the time the command is over, whether the
/// archive could be built or not and however the transfer went. It stays behind only
/// where the server could not be asked to build the archive, or the download could not
/// be queued or had no directory to go to.
pub proof fn law_directory_is_removed(is_zip: bool, replies: Seq<ArchiveReply>)
    ensures
        ({
            let (s, t) = followed(is_zip, replies);
            s.over() && !t.stuck ==> t.removed
        }),
{
    lemma_done_by(is_zip, replies);
}

/// An archive is downloaded only once it is complete, and it is removed only where it is
/// not complete or its download has been queued.
pub proof fn law_only_complete_archives_are_downloaded(is_zip: bool, replies: Seq<ArchiveReply>)
    ensures
        ({
            let (s, t) = followed(is_zip, replies);
            &&& t.queued ==> t.complete
            &&& t.removed ==> t.queued || !t.complete
            &&& s is Failed ==> !t.queued
            &&& s is Done ==> t.queued && t.removed
        }),
{
    lemma_done_by(is_zip, replies);
}

/// Where the archive cannot be built, the directory is removed, no download is queued, and
/// the command fails with what the server said, whatever comes of removing the directory.
pub proof fn law_failed_build_is_cleaned_up(
    is_zip: bool,
    out: ExecOutput,
    cleanup: Result<ExecOutput, String>,
)
    requires
        !succeeded(out),
    ensures
        ({
            let replies = seq![ArchiveReply::Ran(Ok(out)), ArchiveReply::Ran(cleanup)];
            let (s, t) = followed(is_zip, replies);
            &&& followed(is_zip, replies.take(1)).0 == ArchiveRunView::Discard(
                build_failed(out.stderr@, is_zip),
            )
            &&& s == ArchiveRunView::Failed(build_failed(out.stderr@, is_zip))
            &&& t.removed
            &&& !t.queued
        }),
{
    let replies = seq![ArchiveReply::Ran(Ok(out)), ArchiveReply::Ran(cleanup)];
    let first = replies.take(1);
    assert(replies.drop_last() == first);
    assert(first.drop_last() == Seq::<ArchiveReply>::empty());
    assert(followed(is_zip, Seq::<ArchiveReply>::empty()) == (
        ArchiveRunView::Build,
        nothing_done(),
    ));
    assert(first.last() == ArchiveReply::Ran(Ok(out)));
    assert(replies.last() == ArchiveReply::Ran(cleanup));
}

/// How many stages a command can still go through.
pub open spec fn stages_left(stage: ArchiveRunView) -> nat {
    match stage {
        ArchiveRunView::Build => (MAX_POLLS + 5) as nat,
        ArchiveRunView::Prepare => (MAX_POLLS + 4) as nat,
        ArchiveRunView::Download => (MAX_POLLS + 3) as nat,
        ArchiveRunView::Watch(_, n) => if n < MAX_POLLS {
            (MAX_POLLS - n + 2) as nat
        } else {
            2
        },
        ArchiveRunView::Discard(_) => 1,
        ArchiveRunView::Remove(_) => 1,
        _ => 0,
    }
}

/// Every command ends: each answer to its action brings it nearer its end.
pub proof fn law_archive_run_ends(stage: ArchiveRunView, is_zip: bool, reply: ArchiveReply)
    ensures
        stages_left(stage) == 0 <==> stage.over(),
        stage.answered_by(reply) ==> stages_left(stage.after(is_zip, reply)) < stages_left(stage),
{
}

/// An error is passed on as it came, whichever stage it came from; the id of the transfer
/// is the one under which it was queued, to the end.
pub proof fn law_archive_run_step(
    is_zip: bool,
    out: ExecOutput,
    error: String,
    id: String,
    text: Seq<char>,
    n: u32,
    removal: Result<ExecOutput, String>,
)
    ensures
        ArchiveRunView::Build.after(is_zip, ArchiveReply::Ran(Err(error)))
            == ArchiveRunView::Failed(error@),
        out.exit_code == Some(0u32) ==> ArchiveRunView::Build.after(
            is_zip,
            ArchiveReply::Ran(Ok(out)),
        ) is Prepare,
        out.exit_code != Some(0u32) ==> ArchiveRunView::Build.after(
            is_zip,
            ArchiveReply::Ran(Ok(out)),
        ) is Discard,
        ArchiveRunView::Discard(text).after(is_zip, ArchiveReply::Ran(removal))
            == ArchiveRunView::Failed(text),
        ArchiveRunView::Prepare.after(is_zip, ArchiveReply::Made(Ok(()))) is Download,
        ArchiveRunView::Prepare.after(is_zip, ArchiveReply::Made(Err(error)))
            == ArchiveRunView::Failed(error@),
        ArchiveRunView::Download.after(is_zip, ArchiveReply::Queued(Ok(id)))
            == ArchiveRunView::Watch(id@, 0),
        ArchiveRunView::Download.after(is_zip, ArchiveReply::Queued(Err(error)))
            == ArchiveRunView::Failed(error@),
        n < 14399 ==> ArchiveRunView::Watch(text, n).after(
            is_zip,
            ArchiveReply::Seen(Some(TransferStatus::Underway)),
        ) == ArchiveRunView::Watch(text, (n + 1) as u32),
        ArchiveRunView::Watch(text, n).after(is_zip, ArchiveReply::Seen(None))
            == ArchiveRunView::Remove(text),
        ArchiveRunView::Remove(text).after(is_zip, ArchiveReply::Ran(removal))
            == ArchiveRunView::Done(text),
{
}

} // verus!
