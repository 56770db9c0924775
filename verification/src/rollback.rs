//! Replacing a file so that the original survives every failure.
//!
//! The new contents go to a temporary sibling; the original is moved aside as a
//! backup; the temporary file takes its place; the backup goes. [`Rollback`] says
//! after each step, from whether it worked, which step is next.

use crate::ids::{fresh_id, is_uuid};
use crate::search::{ends, law_begins_and_ends, law_occurs, occurs, parts_round};
use vstd::prelude::*;
use vstd::string::*;

verus! {

/// One step on the file system.
#[derive(Debug, Clone, Copy, PartialEq, Eq)]
pub enum FileAction {
    /// Create the temporary file, which must not exist yet.
    CreateTemp,
    /// Write the new contents to the temporary file.
    WriteTemp,
    /// Flush the temporary file to disk.
    SyncTemp,
    /// Give the temporary file the permissions of the original.
    SetPermissions,
    /// Rename the original to the backup.
    MoveOriginalAside,
    /// Rename the temporary file to the original's name.
    Install,
    /// Rename the backup to the original's name.
    Restore,
    /// Remove the temporary file; a failure does not matter.
    RemoveTemp,
    /// Remove the backup; a failure leaves it behind and is only worth a warning.
    RemoveBackup,
    /// Flush the directory to disk.
    SyncDirectory,
}

/// Why the file was not replaced. The texts are the failed steps' own errors.
#[derive(Debug, PartialEq, Eq)]
pub enum RollbackError {
    Create { cause: String },
    Write { cause: String },
    MoveAside { cause: String },
    Install { cause: String },
    InstallAndRestore { install: String, restore: String },
    SyncDirectory { cause: String },
}

/// Where a replacement stands.
#[derive(Debug, PartialEq, Eq)]
pub enum Rollback {
    /// The next step is this one, and nothing has failed.
    Going { step: FileAction },
    /// The original is moved aside and the installation failed: restore it.
    Restoring { install: String },
    /// A step failed: the temporary file is to be removed.
    CleaningUp { error: RollbackError },
    /// The new contents are in place.
    Done,
    /// The replacement failed.
    Failed { error: RollbackError },
}

impl Rollback {
    /// A replacement that has not begun.
    pub fn start() -> (r: Self)
        ensures
            r == (Rollback::Going { step: FileAction::CreateTemp }),
    {
        Rollback::Going { step: FileAction::CreateTemp }
    }

    /// The step to take, while there is one.
    pub open spec fn pending(self) -> Option<FileAction> {
        match self {
            Rollback::Going { step } => Some(step),
            Rollback::Restoring { .. } => Some(FileAction::Restore),
            Rollback::CleaningUp { .. } => Some(FileAction::RemoveTemp),
            Rollback::Done => None,
            Rollback::Failed { .. } => None,
        }
    }

    /// The step to take; `None` when the replacement is over.
    pub fn action(&self) -> (r: Option<FileAction>)
        ensures
            r == self.pending(),
    {
        match self {
            Rollback::Going { step } => Some(*step),
            Rollback::Restoring { .. } => Some(FileAction::Restore),
            Rollback::CleaningUp { .. } => Some(FileAction::RemoveTemp),
            Rollback::Done => None,
            Rollback::Failed { .. } => None,
        }
    }

    /// Where the replacement stands once its pending step has worked (`Ok`) or
    /// failed with a message (`Err`). `unix` says whether directories can be
    /// flushed; where they cannot, the replacement is done without it.
    pub open spec fn after(self, outcome: Result<(), String>, unix: bool) -> Rollback {
        match (self, outcome) {
            (Rollback::Going { step }, Ok(_)) => match step {
                FileAction::CreateTemp => Rollback::Going { step: FileAction::WriteTemp },
                FileAction::WriteTemp => Rollback::Going { step: FileAction::SyncTemp },
                FileAction::SyncTemp => Rollback::Going { step: FileAction::SetPermissions },
                FileAction::SetPermissions => Rollback::Going {
                    step: FileAction::MoveOriginalAside,
                },
                FileAction::MoveOriginalAside => Rollback::Going { step: FileAction::Install },
                FileAction::Install => Rollback::Going { step: FileAction::RemoveBackup },
                FileAction::RemoveBackup => if unix {
                    Rollback::Going { step: FileAction::SyncDirectory }
                } else {
                    Rollback::Done
                },
                _ => Rollback::Done,
            },
            (Rollback::Going { step }, Err(cause)) => match step {
                FileAction::CreateTemp => Rollback::Failed {
                    error: RollbackError::Create { cause },
                },
                FileAction::MoveOriginalAside => Rollback::CleaningUp {
                    error: RollbackError::MoveAside { cause },
                },
                FileAction::Install => Rollback::Restoring { install: cause },
                FileAction::RemoveBackup => if unix {
                    Rollback::Going { step: FileAction::SyncDirectory }
                } else {
                    Rollback::Done
                },
                FileAction::SyncDirectory => Rollback::CleaningUp {
                    error: RollbackError::SyncDirectory { cause },
                },
                _ => Rollback::CleaningUp { error: RollbackError::Write { cause } },
            },
            (Rollback::Restoring { install }, Ok(_)) => Rollback::CleaningUp {
                error: RollbackError::Install { cause: install },
            },
            (Rollback::Restoring { install }, Err(restore)) => Rollback::CleaningUp {
                error: RollbackError::InstallAndRestore { install, restore },
            },
            (Rollback::CleaningUp { error }, _) => Rollback::Failed { error },
            (over, _) => over,
        }
    }

    /// Takes note of how the pending step went.
    pub fn next(self, outcome: Result<(), String>, unix: bool) -> (r: Self)
        ensures
            r == self.after(outcome, unix),
    {
        match self {
            Rollback::Going { step } => match outcome {
                Ok(_) => match step {
                    FileAction::CreateTemp => Rollback::Going { step: FileAction::WriteTemp },
                    FileAction::WriteTemp => Rollback::Going { step: FileAction::SyncTemp },
                    FileAction::SyncTemp => Rollback::Going { step: FileAction::SetPermissions },
                    FileAction::SetPermissions => Rollback::Going {
                        step: FileAction::MoveOriginalAside,
                    },
                    FileAction::MoveOriginalAside => Rollback::Going { step: FileAction::Install },
                    FileAction::Install => Rollback::Going { step: FileAction::RemoveBackup },
                    FileAction::RemoveBackup => if unix {
                        Rollback::Going { step: FileAction::SyncDirectory }
                    } else {
                        Rollback::Done
                    },
                    _ => Rollback::Done,
                },
                Err(cause) => match step {
                    FileAction::CreateTemp => Rollback::Failed {
                        error: RollbackError::Create { cause },
                    },
                    FileAction::MoveOriginalAside => Rollback::CleaningUp {
                        error: RollbackError::MoveAside { cause },
                    },
                    FileAction::Install => Rollback::Restoring { install: cause },
                    FileAction::RemoveBackup => if unix {
                        Rollback::Going { step: FileAction::SyncDirectory }
                    } else {
                        Rollback::Done
                    },
                    FileAction::SyncDirectory => Rollback::CleaningUp {
                        error: RollbackError::SyncDirectory { cause },
                    },
                    _ => Rollback::CleaningUp { error: RollbackError::Write { cause } },
                },
            },
            Rollback::Restoring { install } => match outcome {
                Ok(_) => Rollback::CleaningUp { error: RollbackError::Install { cause: install } },
                Err(restore) => Rollback::CleaningUp {
                    error: RollbackError::InstallAndRestore { install, restore },
                },
            },
            Rollback::CleaningUp { error } => Rollback::Failed { error },
            Rollback::Done => Rollback::Done,
            Rollback::Failed { error } => Rollback::Failed { error },
        }
    }
}

/// The names of the files that take part, as messages show them.
#[derive(Debug, PartialEq, Eq)]
pub struct FileNames {
    pub original: String,
    pub temp: String,
    pub backup: String,
    pub directory: String,
}

impl RollbackError {
    /// The message for the user.
    pub open spec fn text(self, names: FileNames) -> Seq<char> {
        match self {
            RollbackError::Create { .. } => "creating "@ + names.temp@,
            RollbackError::Write { cause } => cause@,
            RollbackError::MoveAside { .. } => "moving "@ + names.original@
                + " to rollback backup "@ + names.backup@,
            RollbackError::Install { .. } => "installing replacement known_hosts"@,
            RollbackError::InstallAndRestore { install, restore } =>
                "installing new known_hosts failed ("@ + install@
                + "); restoring the original also failed ("@ + restore@ + ")"@,
            RollbackError::SyncDirectory { .. } => "syncing "@ + names.directory@,
        }
    }

    /// The message for the user.
    pub fn message(&self, names: &FileNames) -> (r: String)
        ensures
            r@ == self.text(*names),
    {
        match self {
            RollbackError::Create { .. } => {
                let mut r = "creating ".to_owned();
                r.append(names.temp.as_str());
                r
            },
            RollbackError::Write { cause } => cause.clone(),
            RollbackError::MoveAside { .. } => {
                let mut r = "moving ".to_owned();
                r.append(names.original.as_str());
                r.append(" to rollback backup ");
                r.append(names.backup.as_str());
                r
            },
            RollbackError::Install { .. } => "installing replacement known_hosts".to_owned(),
            RollbackError::InstallAndRestore { install, restore } => {
                let mut r = "installing new known_hosts failed (".to_owned();
                r.append(install.as_str());
                r.append("); restoring the original also failed (");
                r.append(restore.as_str());
                r.append(")");
                r
            },
            RollbackError::SyncDirectory { .. } => {
                let mut r = "syncing ".to_owned();
                r.append(names.directory.as_str());
                r
            },
        }
    }
}

/// The sibling names for one replacement: `.<name>.ghostftp-<id>.new` for the
/// temporary file and `.<name>.ghostftp-<id>.previous` for the backup.
pub open spec fn sibling(file_name: Seq<char>, id: Seq<char>, ending: Seq<char>) -> Seq<char> {
    "."@ + file_name + ".ghostftp-"@ + id + ending
}

/// The name of the temporary file next to `file_name`.
pub fn temp_name(file_name: &str, id: &str) -> (r: String)
    ensures
        r@ == sibling(file_name@, id@, ".new"@),
{
    let mut r = ".".to_owned();
    r.append(file_name);
    r.append(".ghostftp-");
    r.append(id);
    r.append(".new");
    r
}

/// The name of the backup next to `file_name`.
pub fn backup_name(file_name: &str, id: &str) -> (r: String)
    ensures
        r@ == sibling(file_name@, id@, ".previous"@),
{
    let mut r = ".".to_owned();
    r.append(file_name);
    r.append(".ghostftp-");
    r.append(id);
    r.append(".previous");
    r
}

/// Fresh names for the temporary file and the backup next to `file_name`.
pub fn sibling_names(file_name: &str) -> (r: (String, String))
    ensures
        exists|id: Seq<char>|
            is_uuid(id) && r.0@ == #[trigger] sibling(file_name@, id, ".new"@),
        exists|id: Seq<char>|
            is_uuid(id) && r.1@ == #[trigger] sibling(file_name@, id, ".previous"@),
{
    let first = fresh_id();
    let second = fresh_id();
    (temp_name(file_name, first.as_str()), backup_name(file_name, second.as_str()))
}

// ---------------------------------------------------------------- laws
/// The temporary file and the backup are never one file, nor the original.
pub proof fn law_siblings_are_other_files(file_name: Seq<char>, a: Seq<char>, b: Seq<char>)
    ensures
        sibling(file_name, a, ".new"@) != sibling(file_name, b, ".previous"@),
        sibling(file_name, a, ".new"@) != file_name,
        sibling(file_name, b, ".previous"@) != file_name,
{
    reveal_strlit(".");
    reveal_strlit(".ghostftp-");
    reveal_strlit(".new");
    reveal_strlit(".previous");
    let x = sibling(file_name, a, ".new"@);
    let y = sibling(file_name, b, ".previous"@);
    assert(x.last() == 'w');
    assert(y.last() == 's');
    assert(x.len() > file_name.len());
    assert(y.len() > file_name.len());
}

/// The three files that take part and what each holds, where it exists.
pub struct Files {
    pub original: Option<Seq<u8>>,
    pub temp: Option<Seq<u8>>,
    pub backup: Option<Seq<u8>>,
}

/// How a step that worked, or did not, changes the files. A failed write may
/// leave any part of the contents behind: `partial` stands for it. Every other
/// failed step leaves the files as they are.
pub open spec fn effect(
    files: Files,
    step: FileAction,
    worked: bool,
    new: Seq<u8>,
    partial: Seq<u8>,
) -> Files {
    match step {
        FileAction::WriteTemp => Files { temp: Some(if worked { new } else { partial }), ..files },
        _ => if !worked {
            files
        } else {
            match step {
                FileAction::CreateTemp => Files { temp: Some(seq![]), ..files },
                FileAction::MoveOriginalAside => Files {
                    original: None,
                    backup: files.original,
                    ..files
                },
                FileAction::Install => Files { original: files.temp, temp: None, ..files },
                FileAction::Restore => Files { original: files.backup, backup: None, ..files },
                FileAction::RemoveTemp => Files { temp: None, ..files },
                FileAction::RemoveBackup => Files { backup: None, ..files },
                _ => files,
            }
        },
    }
}

/// What the files hold at each stage of a replacement of `old` by `new`.
pub open spec fn consistent(stage: Rollback, files: Files, old: Seq<u8>, new: Seq<u8>) -> bool {
    match stage {
        Rollback::Going { step } => match step {
            FileAction::CreateTemp | FileAction::WriteTemp => files.original == Some(old),
            FileAction::SyncTemp | FileAction::SetPermissions | FileAction::MoveOriginalAside =>
                files.original == Some(old) && files.temp == Some(new),
            FileAction::Install => files.backup == Some(old) && files.temp == Some(new),
            FileAction::RemoveBackup | FileAction::SyncDirectory => files.original == Some(new),
            _ => false,
        },
        Rollback::Restoring { .. } => files.backup == Some(old),
        Rollback::CleaningUp { error } | Rollback::Failed { error } => match error {
            RollbackError::InstallAndRestore { .. } => files.backup == Some(old),
            RollbackError::SyncDirectory { .. } => files.original == Some(new),
            _ => files.original == Some(old),
        },
        Rollback::Done => files.original == Some(new),
    }
}

/// Every step, whether it works or fails, leads from a consistent stage to a
/// consistent one.
pub proof fn law_step_keeps_contents(
    stage: Rollback,
    files: Files,
    old: Seq<u8>,
    new: Seq<u8>,
    outcome: Result<(), String>,
    unix: bool,
    partial: Seq<u8>,
)
    requires
        consistent(stage, files, old, new),
        stage.pending() is Some,
    ensures
        consistent(
            stage.after(outcome, unix),
            effect(files, stage.pending()->0, outcome is Ok, new, partial),
            old,
            new,
        ),
{
}

/// At every stage the original contents are still under the original name or in
/// the backup, unless the new contents have taken their place.
pub proof fn law_nothing_is_lost(stage: Rollback, files: Files, old: Seq<u8>, new: Seq<u8>)
    requires
        consistent(stage, files, old, new),
    ensures
        files.original == Some(old) || files.backup == Some(old) || files.original == Some(new),
        stage is Done ==> files.original == Some(new),
        stage matches Rollback::Failed { error } && error !is InstallAndRestore && error
            !is SyncDirectory ==> files.original == Some(old),
{
}

/// One answered step: how it went, and what a failed write left.
pub struct Reply {
    pub outcome: Result<(), String>,
    pub partial: Seq<u8>,
}

/// The stage and the files after a whole series of answered steps.
pub open spec fn run(
    stage: Rollback,
    files: Files,
    new: Seq<u8>,
    unix: bool,
    replies: Seq<Reply>,
) -> (Rollback, Files)
    decreases replies.len(),
{
    if replies.len() == 0 || stage.pending() is None {
        (stage, files)
    } else {
        run(
            stage.after(replies[0].outcome, unix),
            effect(files, stage.pending()->0, replies[0].outcome is Ok, new, replies[0].partial),
            new,
            unix,
            replies.drop_first(),
        )
    }
}

/// Whatever fails and when: a replacement started on a file that holds `old`
/// never loses those contents without having installed `new`; one that ends well
/// has installed `new`; and one that fails has left `old` in place, unless
/// restoring it failed too (it is then in the backup) or only flushing the
/// directory failed (`new` is then in place).
pub proof fn law_original_survives(
    files: Files,
    old: Seq<u8>,
    new: Seq<u8>,
    unix: bool,
    replies: Seq<Reply>,
)
    requires
        files.original == Some(old),
    ensures
        ({
            let (stage, left) = run(
                Rollback::Going { step: FileAction::CreateTemp },
                files,
                new,
                unix,
                replies,
            );
            &&& left.original == Some(old) || left.backup == Some(old) || left.original == Some(new)
            &&& stage is Done ==> left.original == Some(new)
            &&& stage matches Rollback::Failed { error } ==> match error {
                RollbackError::InstallAndRestore { .. } => left.backup == Some(old),
                RollbackError::SyncDirectory { .. } => left.original == Some(new),
                _ => left.original == Some(old),
            }
        }),
{
    let begun = Rollback::Going { step: FileAction::CreateTemp };
    lemma_run_consistent(begun, files, old, new, unix, replies);
    let (stage, left) = run(begun, files, new, unix, replies);
    law_nothing_is_lost(stage, left, old, new);
}

proof fn lemma_run_consistent(
    stage: Rollback,
    files: Files,
    old: Seq<u8>,
    new: Seq<u8>,
    unix: bool,
    replies: Seq<Reply>,
)
    requires
        consistent(stage, files, old, new),
    ensures
        ({
            let (end, left) = run(stage, files, new, unix, replies);
            consistent(end, left, old, new)
        }),
    decreases replies.len(),
{
    if replies.len() > 0 && stage.pending() is Some {
        law_step_keeps_contents(
            stage,
            files,
            old,
            new,
            replies[0].outcome,
            unix,
            replies[0].partial,
        );
        lemma_run_consistent(
            stage.after(replies[0].outcome, unix),
            effect(files, stage.pending()->0, replies[0].outcome is Ok, new, replies[0].partial),
            old,
            new,
            unix,
            replies.drop_first(),
        );
    }
}

/// How many steps a replacement may still take.
pub open spec fn steps_left(stage: Rollback) -> nat {
    match stage {
        Rollback::Going { step } => match step {
            FileAction::CreateTemp => 9,
            FileAction::WriteTemp => 8,
            FileAction::SyncTemp => 7,
            FileAction::SetPermissions => 6,
            FileAction::MoveOriginalAside => 5,
            FileAction::Install => 4,
            FileAction::RemoveBackup => 3,
            _ => 2,
        },
        Rollback::Restoring { .. } => 2,
        Rollback::CleaningUp { .. } => 1,
        Rollback::Done => 0,
        Rollback::Failed { .. } => 0,
    }
}

/// Every step brings the replacement nearer to its end, and it is over
/// exactly when there is no step left.
pub proof fn law_replacement_ends(stage: Rollback, outcome: Result<(), String>, unix: bool)
    ensures
        stage.pending() is None <==> steps_left(stage) == 0,
        stage.pending() is Some ==> steps_left(stage.after(outcome, unix)) < steps_left(stage),
{
}

/// The stage after so many steps that have all worked.
pub open spec fn all_worked(n: nat, unix: bool) -> Rollback
    decreases n,
{
    if n == 0 {
        Rollback::Going { step: FileAction::CreateTemp }
    } else {
        all_worked((n - 1) as nat, unix).after(Ok(()), unix)
    }
}

/// Where nothing fails, the steps are taken in this order: the new contents are written,
/// flushed and given their permissions before the original is moved, the backup is removed
/// only once they are in place, and on Unix the directory is flushed last.
pub proof fn law_order_of_steps(unix: bool)
    ensures
        all_worked(0, unix).pending() == Some(FileAction::CreateTemp),
        all_worked(1, unix).pending() == Some(FileAction::WriteTemp),
        all_worked(2, unix).pending() == Some(FileAction::SyncTemp),
        all_worked(3, unix).pending() == Some(FileAction::SetPermissions),
        all_worked(4, unix).pending() == Some(FileAction::MoveOriginalAside),
        all_worked(5, unix).pending() == Some(FileAction::Install),
        all_worked(6, unix).pending() == Some(FileAction::RemoveBackup),
        unix ==> all_worked(7, unix).pending() == Some(FileAction::SyncDirectory),
        unix ==> all_worked(8, unix) is Done,
        !unix ==> all_worked(7, unix) is Done,
{
    reveal_with_fuel(all_worked, 9);
}

/// A failed step never lets the replacement end well, but for removing the backup, whose
/// failure changes nothing. Its error is the one that the replacement fails with; the
/// original is restored where it has been moved and not yet replaced, and the temporary
/// file is removed where it has been created.
pub proof fn law_failed_step(
    cause: String,
    other: String,
    step: FileAction,
    outcome: Result<(), String>,
    unix: bool,
)
    ensures
        ({
            let going = Rollback::Going { step };
            let failed = going.after(Err(cause), unix);
            match step {
                FileAction::CreateTemp => failed == (Rollback::Failed {
                    error: RollbackError::Create { cause },
                }),
                FileAction::Install => {
                    &&& failed.pending() == Some(FileAction::Restore)
                    &&& failed.after(Ok(()), unix).pending() == Some(FileAction::RemoveTemp)
                    &&& failed.after(Ok(()), unix).after(outcome, unix) == (Rollback::Failed {
                        error: RollbackError::Install { cause },
                    })
                    &&& failed.after(Err(other), unix).pending() == Some(FileAction::RemoveTemp)
                    &&& failed.after(Err(other), unix).after(outcome, unix) == (Rollback::Failed {
                        error: RollbackError::InstallAndRestore { install: cause, restore: other },
                    })
                },
                FileAction::RemoveBackup => failed == going.after(Ok(()), unix),
                _ => {
                    &&& failed.pending() == Some(FileAction::RemoveTemp)
                    &&& failed.after(outcome, unix) is Failed
                    &&& match failed.after(outcome, unix)->Failed_error {
                        RollbackError::MoveAside { cause: c } => step is MoveOriginalAside && c
                            == cause,
                        RollbackError::SyncDirectory { cause: c } => step is SyncDirectory && c
                            == cause,
                        RollbackError::Write { cause: c } => !(step is MoveOriginalAside)
                            && !(step is SyncDirectory) && c == cause,
                        _ => false,
                    }
                },
            }
        }),
{
}

/// The messages name the files that they are about, or the errors of the failed steps.
pub proof fn law_messages_name_the_files(
    names: FileNames,
    cause: String,
    install: String,
    restore: String,
)
    ensures
        ends((RollbackError::Create { cause }).text(names), names.temp@),
        (RollbackError::Write { cause }).text(names) == cause@,
        occurs((RollbackError::MoveAside { cause }).text(names), names.original@),
        ends((RollbackError::MoveAside { cause }).text(names), names.backup@),
        occurs((RollbackError::InstallAndRestore { install, restore }).text(names), install@),
        occurs((RollbackError::InstallAndRestore { install, restore }).text(names), restore@),
        ends((RollbackError::SyncDirectory { cause }).text(names), names.directory@),
{
    law_begins_and_ends("creating "@, names.temp@);
    law_begins_and_ends("syncing "@, names.directory@);
    let moving = (RollbackError::MoveAside { cause }).text(names);
    let to = " to rollback backup "@;
    law_begins_and_ends("moving "@ + names.original@ + to, names.backup@);
    law_occurs(moving, names.original@);
    assert(moving == "moving "@ + names.original@ + (to + names.backup@));
    assert(parts_round(moving, "moving "@, names.original@, to + names.backup@));
    let both = (RollbackError::InstallAndRestore { install, restore }).text(names);
    let a = "installing new known_hosts failed ("@;
    let b = "); restoring the original also failed ("@;
    law_occurs(both, install@);
    law_occurs(both, restore@);
    assert(both == a + install@ + (b + restore@ + ")"@));
    assert(parts_round(both, a, install@, b + restore@ + ")"@));
    assert(parts_round(both, a + install@ + b, restore@, ")"@));
}

/// The name of a sibling is hidden by a dot, holds the name of the file and the id, and
/// has its own ending.
pub proof fn law_sibling_name(file_name: Seq<char>, id: Seq<char>, ending: Seq<char>)
    ensures
        sibling(file_name, id, ending)[0] == '.',
        sibling(file_name, id, ending).drop_first().take(file_name.len() as int) == file_name,
        ends(sibling(file_name, id, ending), id + ending),
        sibling(file_name, id, ending).len() == file_name.len() + id.len() + ending.len() + 11,
{
    reveal_strlit(".");
    reveal_strlit(".ghostftp-");
    let s = sibling(file_name, id, ending);
    law_begins_and_ends("."@ + file_name + ".ghostftp-"@, id + ending);
    assert(s == "."@ + file_name + ".ghostftp-"@ + (id + ending));
    assert(s.drop_first().take(file_name.len() as int) == file_name);
}

} // verus!
