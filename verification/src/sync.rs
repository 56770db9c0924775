//! Carrying out a plan that brings one directory in line with another.

use crate::remote_paths::{parent_dir, parent_of};
use vstd::prelude::*;
use vstd::string::*;

verus! {

/// What happens to a file that is in the way of a transfer.
#[derive(Debug, Clone, Copy, PartialEq, Eq, Structural)]
pub enum OverwritePolicy {
    Overwrite,
    Rename,
}

/// Which side is brought in line with the other.
#[derive(Debug, Clone, Copy, PartialEq, Eq, Structural)]
pub enum SyncDirection {
    LocalToRemote,
    RemoteToLocal,
}

/// A file to copy.
#[derive(Debug, PartialEq, Eq)]
pub struct SyncCopy {
    pub source_path: String,
    pub destination_path: String,
}

/// A file to delete at the destination.
#[derive(Debug, PartialEq, Eq)]
pub struct SyncDelete {
    pub path: String,
}

/// What is to be done, as the user has confirmed it.
#[derive(Debug, PartialEq, Eq)]
pub struct SyncPlan {
    pub direction: SyncDirection,
    pub copies: Vec<SyncCopy>,
    pub deletes: Vec<SyncDelete>,
}

/// One thing to do. A delete takes no directory with contents.
#[derive(Debug, PartialEq, Eq)]
pub enum SyncAction {
    Upload { source: String, directory: String, policy: OverwritePolicy },
    Download { source: String, directory: String, policy: OverwritePolicy },
    DeleteRemote(String),
    DeleteLocal(String),
}

/// Whether an action queues a copy: from its source to the directory of its destination,
/// over what is there.
pub open spec fn queues(action: SyncAction, copy: SyncCopy, direction: SyncDirection) -> bool {
    match direction {
        SyncDirection::LocalToRemote => {
            &&& action matches SyncAction::Upload { source, directory, policy }
            &&& source == copy.source_path
            &&& directory@ == parent_dir(copy.destination_path@)
            &&& policy is Overwrite
        },
        SyncDirection::RemoteToLocal => {
            &&& action matches SyncAction::Download { source, directory, policy }
            &&& source == copy.source_path
            &&& directory@ == parent_dir(copy.destination_path@)
            &&& policy is Overwrite
        },
    }
}

/// The action that deletes a file at the destination.
pub open spec fn deletion(delete: SyncDelete, direction: SyncDirection) -> SyncAction {
    match direction {
        SyncDirection::LocalToRemote => SyncAction::DeleteRemote(delete.path),
        SyncDirection::RemoteToLocal => SyncAction::DeleteLocal(delete.path),
    }
}

/// What carries out a plan: its copies in their order, then its deletes in theirs, which
/// are all at the destination.
pub fn execute_sync_plan(plan: SyncPlan) -> (r: Vec<SyncAction>)
    ensures
        r@.len() == plan.copies@.len() + plan.deletes@.len(),
        forall|i: int|
            0 <= i < plan.copies@.len() ==> queues(
                #[trigger] r@[i],
                plan.copies@[i],
                plan.direction,
            ),
        forall|i: int|
            plan.copies@.len() <= i < r@.len() ==> #[trigger] r@[i] == deletion(
                plan.deletes@[i - plan.copies@.len()],
                plan.direction,
            ),
{
    let mut actions: Vec<SyncAction> = Vec::new();
    let direction = plan.direction;
    let ghost copies = plan.copies@;
    let ghost deletes = plan.deletes@;
    for copy in it: plan.copies
        invariant
            it.seq() == copies,
            actions@.len() == it.index(),
            forall|i: int|
                0 <= i < actions@.len() ==> queues(#[trigger] actions@[i], copies[i], direction),
    {
        let directory = parent_of(copy.destination_path.as_str());
        let source = copy.source_path;
        let policy = OverwritePolicy::Overwrite;
        match direction {
            SyncDirection::LocalToRemote => {
                actions.push(SyncAction::Upload { source, directory, policy });
            },
            SyncDirection::RemoteToLocal => {
                actions.push(SyncAction::Download { source, directory, policy });
            },
        }
    }
    for delete in it: plan.deletes
        invariant
            it.seq() == deletes,
            actions@.len() == copies.len() + it.index(),
            forall|i: int|
                0 <= i < copies.len() ==> queues(#[trigger] actions@[i], copies[i], direction),
            forall|i: int|
                copies.len() <= i < actions@.len() ==> #[trigger] actions@[i] == deletion(
                    deletes[i - copies.len()],
                    direction,
                ),
    {
        match direction {
            SyncDirection::LocalToRemote => {
                actions.push(SyncAction::DeleteRemote(delete.path));
            },
            SyncDirection::RemoteToLocal => {
                actions.push(SyncAction::DeleteLocal(delete.path));
            },
        }
    }
    actions
}

// ---------------------------------------------------------------- carrying out
/// How far a synchronization has come.
#[derive(Debug, PartialEq, Eq)]
pub enum SyncRun {
    /// Do the thing with this number; these transfers have been queued.
    At(usize, Vec<String>),
    /// All is done; these transfers have been queued.
    Done(Vec<String>),
    /// The command fails with this error.
    Failed(String),
}

/// How far a synchronization has come, with its transfers as a sequence.
pub enum SyncRunView {
    At(int, Seq<String>),
    Done(Seq<String>),
    Failed(String),
}

impl View for SyncRun {
    type V = SyncRunView;

    open spec fn view(&self) -> SyncRunView {
        match self {
            SyncRun::At(i, ids) => SyncRunView::At(*i as int, ids@),
            SyncRun::Done(ids) => SyncRunView::Done(ids@),
            SyncRun::Failed(e) => SyncRunView::Failed(*e),
        }
    }
}

/// How the last thing went.
#[derive(Debug, PartialEq, Eq)]
pub enum SyncReply {
    /// The id of the transfer, or why it could not be queued.
    Queued(Result<String, String>),
    /// Whether the file is deleted.
    Deleted(Result<(), String>),
}

/// Whether an action queues a transfer.
pub open spec fn is_transfer(action: SyncAction) -> bool {
    action is Upload || action is Download
}

/// Where a synchronization of `n` actions stands with action `i` to do next.
pub open spec fn standing(n: int, i: int, ids: Seq<String>) -> SyncRunView {
    if i < n {
        SyncRunView::At(i, ids)
    } else {
        SyncRunView::Done(ids)
    }
}

impl SyncRunView {
    /// Where it stands after the next thing. A transfer that cannot be queued ends the
    /// command; a file that cannot be deleted does not. A reply that does not answer the
    /// action changes nothing.
    pub open spec fn after(self, actions: Seq<SyncAction>, reply: SyncReply) -> SyncRunView {
        match self {
            SyncRunView::At(i, ids) => match reply {
                SyncReply::Queued(outcome) => if !is_transfer(actions[i]) {
                    self
                } else {
                    match outcome {
                        Ok(id) => standing(actions.len() as int, i + 1, ids.push(id)),
                        Err(e) => SyncRunView::Failed(e),
                    }
                },
                SyncReply::Deleted(_) => if is_transfer(actions[i]) {
                    self
                } else {
                    standing(actions.len() as int, i + 1, ids)
                },
            },
            other => other,
        }
    }
}

impl SyncRun {
    /// Whether the number of the next action is that of one.
    pub open spec fn wf(self, actions: Seq<SyncAction>) -> bool {
        self matches SyncRun::At(i, _) ==> i < actions.len()
    }

    /// The first action comes first.
    pub fn start(actions: &Vec<SyncAction>) -> (r: Self)
        ensures
            r.wf(actions@),
            r@ == standing(actions@.len() as int, 0, seq![]),
    {
        let ids: Vec<String> = Vec::new();
        assert(ids@ == Seq::<String>::empty());
        if actions.len() > 0 {
            SyncRun::At(0, ids)
        } else {
            SyncRun::Done(ids)
        }
    }

    /// The next action, while there is one.
    pub fn action<'a>(&self, actions: &'a Vec<SyncAction>) -> (r: Option<&'a SyncAction>)
        requires
            self.wf(actions@),
        ensures
            match *self {
                SyncRun::At(i, _) => r matches Some(a) && *a == actions@[i as int],
                _ => r is None,
            },
    {
        match self {
            SyncRun::At(i, _) => Some(&actions[*i]),
            _ => None,
        }
    }

    /// Goes on after the action has been done.
    pub fn next(self, actions: &Vec<SyncAction>, reply: SyncReply) -> (r: Self)
        requires
            self.wf(actions@),
        ensures
            r.wf(actions@),
            r@ == self@.after(actions@, reply),
    {
        let (i, mut ids) = match self {
            SyncRun::At(i, ids) => (i, ids),
            other => {
                return other;
            },
        };
        let transfer = match &actions[i] {
            SyncAction::Upload { .. } => true,
            SyncAction::Download { .. } => true,
            _ => false,
        };
        match reply {
            SyncReply::Queued(outcome) => {
                if !transfer {
                    return SyncRun::At(i, ids);
                }
                match outcome {
                    Ok(id) => {
                        ids.push(id);
                    },
                    Err(e) => {
                        return SyncRun::Failed(e);
                    },
                }
            },
            SyncReply::Deleted(_) => {
                if transfer {
                    return SyncRun::At(i, ids);
                }
            },
        }
        if i < actions.len() - 1 {
            SyncRun::At(i + 1, ids)
        } else {
            SyncRun::Done(ids)
        }
    }
}

// ---------------------------------------------------------------- laws
/// Where a synchronization stands after some replies.
pub open spec fn replied(actions: Seq<SyncAction>, replies: Seq<SyncReply>) -> SyncRunView
    decreases replies.len(),
{
    if replies.len() == 0 {
        standing(actions.len() as int, 0, seq![])
    } else {
        replied(actions, replies.drop_last()).after(actions, replies.last())
    }
}

/// Whether each reply answers the action with its number.
pub open spec fn all_answered(actions: Seq<SyncAction>, replies: Seq<SyncReply>) -> bool {
    forall|i: int|
        0 <= i < replies.len() && i < actions.len() ==> (is_transfer(actions[i])
            <==> #[trigger] replies[i] is Queued)
}

/// Whether the first `n` replies queued the transfers `ids`.
pub open spec fn queued(replies: Seq<SyncReply>, ids: Seq<String>, n: int) -> bool {
    &&& ids.len() == n
    &&& n <= replies.len()
    &&& forall|i: int|
        0 <= i < n ==> #[trigger] replies[i] == SyncReply::Queued(Ok::<String, String>(ids[i]))
}

/// How every synchronization goes whose transfers come before its deletes: it returns the
/// ids of all transfers in the order of the copies; it fails only where a transfer cannot
/// be queued, with that error; and then nothing has been deleted, since every delete comes
/// after every transfer.
pub proof fn law_sync_outcome(actions: Seq<SyncAction>, copies: int, replies: Seq<SyncReply>)
    requires
        0 <= copies <= actions.len(),
        forall|i: int| 0 <= i < actions.len() ==> (is_transfer(#[trigger] actions[i]) <==> i < copies),
        all_answered(actions, replies),
    ensures
        match replied(actions, replies) {
            SyncRunView::At(i, ids) => {
                &&& i == replies.len()
                &&& i < actions.len()
                &&& queued(replies, ids, if i < copies { i } else { copies })
            },
            SyncRunView::Done(ids) => {
                &&& replies.len() >= actions.len()
                &&& queued(replies, ids, copies)
            },
            SyncRunView::Failed(e) => exists|k: int|
                {
                    &&& 0 <= k < copies
                    &&& k < replies.len()
                    &&& #[trigger] replies[k] == SyncReply::Queued(Err::<String, String>(e))
                },
        },
    decreases replies.len(),
{
    if replies.len() > 0 {
        let before = replies.drop_last();
        assert(all_answered(actions, before)) by {
            assert forall|i: int| 0 <= i < before.len() && i < actions.len() implies (is_transfer(
                actions[i],
            ) <==> #[trigger] before[i] is Queued) by {
                assert(before[i] == replies[i]);
            }
        }
        law_sync_outcome(actions, copies, before);
        let last = replies.len() - 1;
        assert(replies[last] == replies.last());
        assert forall|i: int| 0 <= i < before.len() implies #[trigger] replies[i] == before[i] by {}
        match replied(actions, before) {
            SyncRunView::Failed(e) => {
                let k = choose|k: int|
                    {
                        &&& 0 <= k < copies
                        &&& k < before.len()
                        &&& #[trigger] before[k] == SyncReply::Queued(Err::<String, String>(e))
                    };
                assert(replies[k] == SyncReply::Queued(Err::<String, String>(e)));
            },
            _ => {},
        }
    }
}

/// The actions of a plan have their transfers before their deletes.
pub proof fn law_transfers_come_first(plan: SyncPlan, actions: Seq<SyncAction>)
    requires
        actions.len() == plan.copies@.len() + plan.deletes@.len(),
        forall|i: int|
            0 <= i < plan.copies@.len() ==> queues(
                #[trigger] actions[i],
                plan.copies@[i],
                plan.direction,
            ),
        forall|i: int|
            plan.copies@.len() <= i < actions.len() ==> #[trigger] actions[i] == deletion(
                plan.deletes@[i - plan.copies@.len()],
                plan.direction,
            ),
    ensures
        forall|i: int|
            0 <= i < actions.len() ==> (is_transfer(#[trigger] actions[i]) <==> i
                < plan.copies@.len()),
{
    assert forall|i: int| 0 <= i < actions.len() implies (is_transfer(#[trigger] actions[i]) <==> i
        < plan.copies@.len()) by {
        if i < plan.copies@.len() {
            assert(queues(actions[i], plan.copies@[i], plan.direction));
        }
    }
}

/// A copy goes the way that the plan goes, from the source of the copy to the directory
/// that its destination is in, over what is there.
pub proof fn law_copy_goes_to_its_directory(
    action: SyncAction,
    copy: SyncCopy,
    direction: SyncDirection,
    dir: Seq<char>,
    name: Seq<char>,
)
    requires
        queues(action, copy, direction),
        copy.destination_path@ == dir + seq!['/'] + name,
        !name.contains('/'),
        !name.contains('\\'),
    ensures
        action is Upload <==> direction is LocalToRemote,
        action is Download <==> direction is RemoteToLocal,
        match action {
            SyncAction::Upload { source, directory, policy } => source@ == copy.source_path@
                && directory@ == (if dir.len() > 0 {
                dir
            } else {
                seq!['/']
            }) && policy is Overwrite,
            SyncAction::Download { source, directory, policy } => source@ == copy.source_path@
                && directory@ == (if dir.len() > 0 {
                dir
            } else {
                seq!['/']
            }) && policy is Overwrite,
            _ => false,
        },
{
    crate::remote_paths::law_parent_dir(dir, '/', name);
}

/// What is deleted is deleted on the side that is brought in line with the other.
pub proof fn law_deletes_are_at_the_destination(delete: SyncDelete, direction: SyncDirection)
    ensures
        match deletion(delete, direction) {
            SyncAction::DeleteRemote(path) => direction is LocalToRemote && path == delete.path,
            SyncAction::DeleteLocal(path) => direction is RemoteToLocal && path == delete.path,
            _ => false,
        },
{
}

/// A transfer that cannot be queued ends the synchronization with its error; a file that
/// cannot be deleted does not.
pub proof fn law_sync_step(
    actions: Seq<SyncAction>,
    i: int,
    ids: Seq<String>,
    id: String,
    error: String,
)
    requires
        0 <= i < actions.len(),
    ensures
        ({
            let at = SyncRunView::At(i, ids);
            let transfer = actions[i] is Upload || actions[i] is Download;
            &&& transfer ==> at.after(actions, SyncReply::Queued(Err(error)))
                == SyncRunView::Failed(error)
            &&& transfer && i + 1 < actions.len() ==> at.after(actions, SyncReply::Queued(Ok(id)))
                == SyncRunView::At(i + 1, ids.push(id))
            &&& transfer && i + 1 == actions.len() ==> at.after(actions, SyncReply::Queued(Ok(id)))
                == SyncRunView::Done(ids.push(id))
            &&& !transfer ==> at.after(actions, SyncReply::Deleted(Err(error))) == at.after(
                actions,
                SyncReply::Deleted(Ok(())),
            )
            &&& !transfer && i + 1 < actions.len() ==> at.after(
                actions,
                SyncReply::Deleted(Ok(())),
            ) == SyncRunView::At(i + 1, ids)
            &&& !transfer && i + 1 == actions.len() ==> at.after(
                actions,
                SyncReply::Deleted(Ok(())),
            ) == SyncRunView::Done(ids)
        }),
{
}

} // verus!
