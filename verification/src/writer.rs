//! Saving a file so that a reader never sees half of it: the new text goes
//! to a temporary file beside the target, which then takes the target's
//! place by one rename. The file system is the caller's; what is written
//! where, in which order, and what a failure means is decided here.

use crate::paths::{custom_filename, get_custom_filename, ConfigPath, ConfigPathModel};
use crate::text::{decimal, push_decimal};
use crate::tree::Tree;
use crate::yaml_utils::{patch_text, serialize_patch};
use vstd::prelude::*;

verus! {

/// What a save writes, and where.
#[derive(Debug, PartialEq, Eq)]
pub struct WritePlan {
    /// The directory that must exist before anything is written.
    pub directory: ConfigPath,
    /// The file that the save replaces.
    pub target: ConfigPath,
    /// Where the target's old content is copied to.
    pub backup: ConfigPath,
    /// Where the new content is written before it takes the target's place.
    pub temporary: ConfigPath,
    /// The new content.
    pub content: String,
}

/// The mathematical value of a [`WritePlan`].
pub struct WritePlanModel {
    pub directory: ConfigPathModel,
    pub target: ConfigPathModel,
    pub backup: ConfigPathModel,
    pub temporary: ConfigPathModel,
    pub content: Seq<char>,
}

impl View for WritePlan {
    type V = WritePlanModel;

    open spec fn view(&self) -> WritePlanModel {
        WritePlanModel {
            directory: self.directory@,
            target: self.target@,
            backup: self.backup@,
            temporary: self.temporary@,
            content: self.content@,
        }
    }
}

/// The name of the backup of the file `filename`.
pub open spec fn backup_name(filename: Seq<char>) -> Seq<char> {
    filename + ".bak"@
}

/// The name of the temporary file for `filename` at the time `millis`,
/// in milliseconds.
pub open spec fn temporary_name(filename: Seq<char>, millis: nat) -> Seq<char> {
    filename + ".tmp."@ + decimal(millis)
}

/// The plan to save `content` as the file `filename` in the directory
/// `root`, at the time `millis`.
pub open spec fn plan_of(
    root: ConfigPathModel,
    filename: Seq<char>,
    content: Seq<char>,
    millis: nat,
) -> WritePlanModel {
    WritePlanModel {
        directory: root,
        target: root.join(filename),
        backup: root.join(backup_name(filename)),
        temporary: root.join(temporary_name(filename, millis)),
        content,
    }
}

/// The plan to save `content` as the file `filename` in the directory
/// `root`, at the time `millis`.
pub fn plan_write(root: &ConfigPath, filename: &str, content: String, millis: u128) -> (plan:
    WritePlan)
    ensures
        plan@ == plan_of(root@, filename@, content@, millis as nat),
{
    let backup = String::from_str(filename).concat(".bak");
    let mut temporary = String::from_str(filename).concat(".tmp.");
    push_decimal(&mut temporary, millis);
    WritePlan {
        directory: root.clone(),
        target: root.join(filename),
        backup: root.join(backup.as_str()),
        temporary: root.join(temporary.as_str()),
        content,
    }
}

/// The plan to save `patch` as the custom file of `basename` in the
/// configuration root `root`, at the time `millis` in milliseconds since
/// the epoch.
pub fn write_custom_config(root: &ConfigPath, basename: &str, patch: &Tree, millis: u128) -> (plan:
    WritePlan)
    ensures
        plan@ == plan_of(root@, custom_filename(basename@), patch_text(patch@), millis as nat),
{
    let filename = get_custom_filename(basename);
    plan_write(root, filename.as_str(), serialize_patch(patch), millis)
}

/// The actions of a save, in their order.
#[derive(Debug, Clone, Copy, PartialEq, Eq, Structural)]
pub enum WriteAction {
    /// Create the plan's directory and those above it.
    CreateDirectory,
    /// Find out whether the target exists.
    ProbeTarget,
    /// Copy the target to the backup.
    CopyToBackup,
    /// Write the content to the temporary file.
    WriteTemporary,
    /// Rename the temporary file to the target.
    RenameTemporary,
}

/// How an action ended.
#[derive(Debug, PartialEq, Eq)]
pub enum WriteEvent {
    /// It was done.
    Succeeded,
    /// It failed, for this reason.
    Failed(String),
    /// The target exists, or does not.
    Found(bool),
}

/// The failures that a save reports.
#[derive(Debug, Clone, Copy, PartialEq, Eq, Structural)]
pub enum WriteErrorKind {
    DirectoryCreate,
    TempWrite,
    Rename,
}

/// A failed save: what failed, and the reason that the file system gave.
#[derive(Debug, PartialEq, Eq)]
pub struct WriteError {
    pub kind: WriteErrorKind,
    pub detail: String,
}

/// What follows an action: the next action, or the end of the save.
#[derive(Debug, PartialEq, Eq)]
pub enum WriteProgress {
    Next(WriteAction),
    Finished(Result<(), WriteError>),
}

/// The mathematical value of a [`WriteEvent`].
pub enum EventModel {
    Succeeded,
    Failed(Seq<char>),
    Found(bool),
}

impl View for WriteEvent {
    type V = EventModel;

    open spec fn view(&self) -> EventModel {
        match self {
            WriteEvent::Succeeded => EventModel::Succeeded,
            WriteEvent::Failed(reason) => EventModel::Failed(reason@),
            WriteEvent::Found(found) => EventModel::Found(*found),
        }
    }
}

/// The mathematical value of a [`WriteProgress`].
pub enum ProgressModel {
    Next(WriteAction),
    Saved,
    Failed(WriteErrorKind, Seq<char>),
}

impl View for WriteProgress {
    type V = ProgressModel;

    open spec fn view(&self) -> ProgressModel {
        match self {
            WriteProgress::Next(action) => ProgressModel::Next(*action),
            WriteProgress::Finished(Ok(_)) => ProgressModel::Saved,
            WriteProgress::Finished(Err(error)) => ProgressModel::Failed(error.kind, error.detail@),
        }
    }
}

/// What follows the action `action` that ended with `event`. A directory
/// that cannot be created, a temporary file that cannot be written and a
/// rename that fails end the save with their failure. The backup is made
/// only where the target exists, and its failure is passed over.
pub open spec fn progress_after(action: WriteAction, event: EventModel) -> ProgressModel {
    match action {
        WriteAction::CreateDirectory => match event {
            EventModel::Failed(reason) => ProgressModel::Failed(
                WriteErrorKind::DirectoryCreate,
                reason,
            ),
            _ => ProgressModel::Next(WriteAction::ProbeTarget),
        },
        WriteAction::ProbeTarget => match event {
            EventModel::Found(true) => ProgressModel::Next(WriteAction::CopyToBackup),
            _ => ProgressModel::Next(WriteAction::WriteTemporary),
        },
        WriteAction::CopyToBackup => ProgressModel::Next(WriteAction::WriteTemporary),
        WriteAction::WriteTemporary => match event {
            EventModel::Failed(reason) => ProgressModel::Failed(WriteErrorKind::TempWrite, reason),
            _ => ProgressModel::Next(WriteAction::RenameTemporary),
        },
        WriteAction::RenameTemporary => match event {
            EventModel::Failed(reason) => ProgressModel::Failed(WriteErrorKind::Rename, reason),
            _ => ProgressModel::Saved,
        },
    }
}

/// The action that a save begins with.
pub fn first_write_action() -> (action: WriteAction)
    ensures
        action == WriteAction::CreateDirectory,
{
    WriteAction::CreateDirectory
}

fn fail(kind: WriteErrorKind, detail: String) -> (progress: WriteProgress)
    ensures
        progress@ == ProgressModel::Failed(kind, detail@),
{
    WriteProgress::Finished(Err(WriteError { kind, detail }))
}

/// What follows the action `action` that ended with `event`.
pub fn next_write_step(action: WriteAction, event: WriteEvent) -> (progress: WriteProgress)
    ensures
        progress@ == progress_after(action, event@),
{
    match action {
        WriteAction::CreateDirectory => match event {
            WriteEvent::Failed(reason) => fail(WriteErrorKind::DirectoryCreate, reason),
            _ => WriteProgress::Next(WriteAction::ProbeTarget),
        },
        WriteAction::ProbeTarget => match event {
            WriteEvent::Found(true) => WriteProgress::Next(WriteAction::CopyToBackup),
            _ => WriteProgress::Next(WriteAction::WriteTemporary),
        },
        WriteAction::CopyToBackup => WriteProgress::Next(WriteAction::WriteTemporary),
        WriteAction::WriteTemporary => match event {
            WriteEvent::Failed(reason) => fail(WriteErrorKind::TempWrite, reason),
            _ => WriteProgress::Next(WriteAction::RenameTemporary),
        },
        WriteAction::RenameTemporary => match event {
            WriteEvent::Failed(reason) => fail(WriteErrorKind::Rename, reason),
            _ => WriteProgress::Finished(Ok(())),
        },
    }
}

/// The message of a failed save.
pub open spec fn error_message(kind: WriteErrorKind, detail: Seq<char>) -> Seq<char> {
    match kind {
        WriteErrorKind::DirectoryCreate => "Failed to create directory: "@ + detail,
        WriteErrorKind::TempWrite => "Failed to write temp file: "@ + detail,
        WriteErrorKind::Rename => "Failed to rename temp file: "@ + detail,
    }
}

impl WriteError {
    /// The message of this failure.
    pub fn message(&self) -> (text: String)
        ensures
            text@ == error_message(self.kind, self.detail@),
    {
        let lead = match self.kind {
            WriteErrorKind::DirectoryCreate => "Failed to create directory: ",
            WriteErrorKind::TempWrite => "Failed to write temp file: ",
            WriteErrorKind::Rename => "Failed to rename temp file: ",
        };
        String::from_str(lead).concat(self.detail.as_str())
    }
}

/// The place of an action in the order of a save.
pub open spec fn rank(action: WriteAction) -> int {
    match action {
        WriteAction::CreateDirectory => 0,
        WriteAction::ProbeTarget => 1,
        WriteAction::CopyToBackup => 2,
        WriteAction::WriteTemporary => 3,
        WriteAction::RenameTemporary => 4,
    }
}

/// The actions of a save follow each other in their order, so a save ends
/// after at most five. The rename comes only after the temporary file was
/// written without failure, and a save is reported as done only after the
/// rename went through: the target is never written piece by piece, it is
/// only ever replaced by a file that is complete.
pub proof fn lemma_write_order(action: WriteAction, event: EventModel)
    ensures
        progress_after(action, event) matches ProgressModel::Next(next) ==> rank(next) > rank(
            action,
        ),
        progress_after(action, event) == ProgressModel::Next(WriteAction::RenameTemporary) ==> action
            == WriteAction::WriteTemporary && !(event is Failed),
        progress_after(action, event) is Saved ==> action == WriteAction::RenameTemporary && !(event
            is Failed),
        progress_after(action, event) matches ProgressModel::Next(next) && next
            == WriteAction::CopyToBackup ==> event == EventModel::Found(true),
{
}

/// The content of a save goes to a file that is neither the target nor the
/// backup, and the backup is not the target.
pub proof fn lemma_plan_paths_differ(
    root: ConfigPathModel,
    filename: Seq<char>,
    content: Seq<char>,
    millis: nat,
)
    ensures
        plan_of(root, filename, content, millis).temporary != plan_of(
            root,
            filename,
            content,
            millis,
        ).target,
        plan_of(root, filename, content, millis).temporary != plan_of(
            root,
            filename,
            content,
            millis,
        ).backup,
        plan_of(root, filename, content, millis).backup != plan_of(
            root,
            filename,
            content,
            millis,
        ).target,
{
    reveal_strlit(".bak");
    reveal_strlit(".tmp.");
    let plan = plan_of(root, filename, content, millis);
    let n = root.segments.len() as int;
    let backup = backup_name(filename);
    let temporary = temporary_name(filename, millis);
    assert(plan.target.segments[n] == filename);
    assert(plan.backup.segments[n] == backup);
    assert(plan.temporary.segments[n] == temporary);
    let k = filename.len() as int;
    assert(backup.len() == k + 4);
    assert(temporary.len() >= k + 5);
    assert(backup[k + 1] == 'b');
    assert(temporary[k + 1] == 't');
}

} // verus!
