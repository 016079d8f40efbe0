//! How the settings file is written: into a new file beside it, which then
//! takes its place.

use vstd::prelude::*;

use crate::error::{AppError, AppResult, ErrorModel};
use crate::paths;
use crate::text;

verus! {

pub const TEMP_FILE_ATTEMPTS: u32 = 100;

pub const NO_FILE_NAME: &'static str = "settings file name is missing";

pub const TEMPORARY_EXISTS: &'static str = "temporary settings file path already exists";

pub const CREATE_DIRECTORY: &'static str = "create settings directory";

pub const CREATE_TEMPORARY: &'static str = "create temporary settings file";

pub const WRITE_TEMPORARY: &'static str = "write temporary settings file";

pub const SYNC_TEMPORARY: &'static str = "sync temporary settings file";

pub const REPLACE_FILE: &'static str = "replace settings file";

pub const DOT: &'static str = ".";

pub const NEW_SUFFIX: &'static str = ".new";

/// The directory that a settings file is in.
pub open spec fn directory_of(path: Seq<char>) -> Seq<char> {
    match paths::parent_of(path) {
        Some(parent) => if parent.len() > 0 {
            parent
        } else {
            DOT@
        },
        None => DOT@,
    }
}

pub fn settings_directory(path: &str) -> (directory: String)
    ensures
        directory@ == directory_of(path@),
{
    match paths::parent(path) {
        Some(parent) => if parent.as_str().unicode_len() > 0 {
            parent
        } else {
            DOT.to_owned()
        },
        None => DOT.to_owned(),
    }
}

/// What the new file beside a file is called, on one attempt of one process.
pub open spec fn temporary_name(file_name: Seq<char>, process: nat, attempt: nat) -> Seq<char> {
    DOT@ + file_name + DOT@ + text::decimal(process) + DOT@ + text::decimal(attempt) + NEW_SUFFIX@
}

pub fn temporary_file_name(file_name: &str, process: u32, attempt: u32) -> (name: String)
    ensures
        name@ == temporary_name(file_name@, process as nat, attempt as nat),
{
    let mut name = text::join3(DOT, file_name, DOT);
    name.append(text::decimal_text(process as u64).as_str());
    name.append(DOT);
    name.append(text::decimal_text(attempt as u64).as_str());
    name.append(NEW_SUFFIX);
    name
}

/// Two numbers with the same digits are the same.
proof fn lemma_decimal_tells(left: nat, right: nat)
    requires
        text::decimal(left) == text::decimal(right),
    ensures
        left == right,
    decreases left + right,
{
    let digits = text::decimal(left);
    if left < 10 && right < 10 {
        assert(digits[0] == text::digit_char(left));
        assert(digits[0] == text::digit_char(right));
    } else if left < 10 || right < 10 {
        lemma_decimal_len(left);
        lemma_decimal_len(right);
    } else {
        assert(digits.drop_last() =~= text::decimal(left / 10));
        assert(digits.drop_last() =~= text::decimal(right / 10));
        assert(digits.last() == text::digit_char(left % 10));
        assert(digits.last() == text::digit_char(right % 10));
        lemma_decimal_tells(left / 10, right / 10);
    }
}

proof fn lemma_decimal_len(number: nat)
    ensures
        text::decimal(number).len() >= 1,
        number < 10 <==> text::decimal(number).len() == 1,
    decreases number,
{
    if number >= 10 {
        lemma_decimal_len(number / 10);
    }
}

/// A name that was taken is not tried again: each attempt has a name of its
/// own.
pub proof fn law_attempts_have_names_of_their_own(
    file_name: Seq<char>,
    process: nat,
    first: nat,
    second: nat,
)
    requires
        first != second,
    ensures
        temporary_name(file_name, process, first) != temporary_name(file_name, process, second),
{
    let head = DOT@ + file_name + DOT@ + text::decimal(process) + DOT@;
    let one = temporary_name(file_name, process, first);
    let other = temporary_name(file_name, process, second);
    if one == other {
        let tail = NEW_SUFFIX@.len() as int;
        assert(one.len() == head.len() + text::decimal(first).len() + tail);
        assert(other.len() == head.len() + text::decimal(second).len() + tail);
        assert(one.subrange(head.len() as int, one.len() - tail) =~= text::decimal(first));
        assert(other.subrange(head.len() as int, other.len() - tail) =~= text::decimal(second));
        lemma_decimal_tells(first, second);
    }
}

/// What is to be done next.
#[derive(Clone, Copy, Debug, PartialEq, Eq, Structural)]
pub enum WriteStage {
    /// Create the directory and those above it where they are missing.
    CreateDirectory,
    /// Create the new file; it must not exist yet.
    CreateTemporary,
    /// Write the whole content into the new file.
    WriteContent,
    /// Bring the new file's content to the disk.
    SyncContent,
    /// Put the new file in the place of the settings file.
    Replace,
    /// Bring the directory to the disk.
    SyncDirectory,
    /// Remove the new file.
    RemoveTemporary,
    Finished,
}

/// How a step went.
#[derive(Debug, PartialEq, Eq)]
pub enum StepOutcome {
    Done,
    /// The file that was to be created exists.
    AlreadyExists(String),
    Failed(String),
}

/// How a step went, as a value.
pub enum StepModel {
    Done,
    AlreadyExists(Seq<char>),
    Failed(Seq<char>),
}

impl View for StepOutcome {
    type V = StepModel;

    open spec fn view(&self) -> StepModel {
        match self {
            StepOutcome::Done => StepModel::Done,
            StepOutcome::AlreadyExists(cause) => StepModel::AlreadyExists(cause@),
            StepOutcome::Failed(cause) => StepModel::Failed(cause@),
        }
    }
}

impl StepModel {
    pub open spec fn cause(self) -> Seq<char> {
        match self {
            StepModel::Done => Seq::empty(),
            StepModel::AlreadyExists(cause) => cause,
            StepModel::Failed(cause) => cause,
        }
    }
}

/// A write in progress, as a value.
#[verifier::ext_equal]
pub struct WriteModel {
    pub path: Seq<char>,
    pub content: Seq<char>,
    pub process: nat,
    pub attempt: nat,
    pub stage: WriteStage,
    pub error: Option<ErrorModel>,
}

impl WriteModel {
    /// The write of a content to a path, before its first step.
    pub open spec fn begun(path: Seq<char>, content: Seq<char>, process: nat) -> WriteModel {
        WriteModel {
            path,
            content,
            process,
            attempt: 0,
            stage: WriteStage::CreateDirectory,
            error: None,
        }
    }

    pub open spec fn consistent(self) -> bool {
        &&& self.attempt < TEMP_FILE_ATTEMPTS
        &&& self.stage is RemoveTemporary ==> self.error is Some
        &&& !(self.stage is RemoveTemporary || self.stage is Finished) ==> self.error is None
    }

    pub open spec fn at(self, stage: WriteStage) -> WriteModel {
        WriteModel { stage, ..self }
    }

    pub open spec fn failed(self, stage: WriteStage, operation: Seq<char>, cause: Seq<char>) -> WriteModel {
        WriteModel { stage, error: Some(ErrorModel::Io(operation, cause)), ..self }
    }

    /// The write after a step.
    pub open spec fn after(self, outcome: StepModel) -> WriteModel {
        match self.stage {
            WriteStage::CreateDirectory => if outcome is Done {
                self.at(WriteStage::CreateTemporary)
            } else {
                self.failed(WriteStage::Finished, CREATE_DIRECTORY@, outcome.cause())
            },
            WriteStage::CreateTemporary => match outcome {
                StepModel::Done => self.at(WriteStage::WriteContent),
                StepModel::AlreadyExists(_) => if self.attempt + 1 < TEMP_FILE_ATTEMPTS {
                    WriteModel { attempt: self.attempt + 1, ..self }
                } else {
                    self.failed(WriteStage::Finished, CREATE_TEMPORARY@, TEMPORARY_EXISTS@)
                },
                StepModel::Failed(cause) => self.failed(
                    WriteStage::Finished,
                    CREATE_TEMPORARY@,
                    cause,
                ),
            },
            WriteStage::WriteContent => if outcome is Done {
                self.at(WriteStage::SyncContent)
            } else {
                self.failed(WriteStage::RemoveTemporary, WRITE_TEMPORARY@, outcome.cause())
            },
            WriteStage::SyncContent => if outcome is Done {
                self.at(WriteStage::Replace)
            } else {
                self.failed(WriteStage::RemoveTemporary, SYNC_TEMPORARY@, outcome.cause())
            },
            WriteStage::Replace => if outcome is Done {
                self.at(WriteStage::SyncDirectory)
            } else {
                self.failed(WriteStage::RemoveTemporary, REPLACE_FILE@, outcome.cause())
            },
            WriteStage::SyncDirectory => self.at(WriteStage::Finished),
            WriteStage::RemoveTemporary => self.at(WriteStage::Finished),
            WriteStage::Finished => self,
        }
    }

    /// The write after some steps.
    pub open spec fn run(self, outcomes: Seq<StepModel>) -> WriteModel
        decreases outcomes.len(),
    {
        if outcomes.len() == 0 {
            self
        } else {
            self.after(outcomes[0]).run(outcomes.skip(1))
        }
    }

    /// Whether a step succeeds in the course of a write.
    pub open spec fn succeeds(self, stage: WriteStage, outcomes: Seq<StepModel>) -> bool
        decreases outcomes.len(),
    {
        outcomes.len() > 0 && (self.stage == stage && outcomes[0] is Done || self.after(
            outcomes[0],
        ).succeeds(stage, outcomes.skip(1)))
    }

    /// Whether a step is tried in the course of a write.
    pub open spec fn tries(self, stage: WriteStage, outcomes: Seq<StepModel>) -> bool
        decreases outcomes.len(),
    {
        outcomes.len() > 0 && (self.stage == stage || self.after(outcomes[0]).tries(
            stage,
            outcomes.skip(1),
        ))
    }
}

/// A settings file being written.
#[derive(Debug)]
pub struct SettingsWrite {
    path: String,
    content: String,
    file_name: String,
    process: u32,
    attempt: u32,
    stage: WriteStage,
    error: Option<AppError>,
}

impl View for SettingsWrite {
    type V = WriteModel;

    closed spec fn view(&self) -> WriteModel {
        WriteModel {
            path: self.path@,
            content: self.content@,
            process: self.process as nat,
            attempt: self.attempt as nat,
            stage: self.stage,
            error: match self.error {
                Some(error) => Some(error@),
                None => None,
            },
        }
    }
}

impl SettingsWrite {
    pub closed spec fn wf(&self) -> bool {
        &&& self@.consistent()
        &&& paths::file_name_of(self.path@) == Some(self.file_name@)
    }

    /// Begins to write a file, in the process that has this id.
    pub fn new(path: String, content: String, process: u32) -> (write: AppResult<Self>)
        ensures
            write is Ok == paths::file_name_of(path@) is Some,
            write is Ok ==> (write->Ok_0).wf() && (write->Ok_0)@ == WriteModel::begun(
                path@,
                content@,
                process as nat,
            ),
            write is Err ==> (write->Err_0)@ == ErrorModel::InvalidState(NO_FILE_NAME@),
    {
        match paths::file_name(path.as_str()) {
            Some(file_name) => Ok(
                SettingsWrite {
                    path,
                    content,
                    file_name,
                    process,
                    attempt: 0,
                    stage: WriteStage::CreateDirectory,
                    error: None,
                },
            ),
            None => Err(AppError::InvalidState(NO_FILE_NAME)),
        }
    }

    pub fn stage(&self) -> (stage: WriteStage)
        ensures
            stage == self@.stage,
    {
        self.stage
    }

    pub fn content(&self) -> (content: &str)
        ensures
            content@ == self@.content,
    {
        self.content.as_str()
    }

    pub fn target_path(&self) -> (path: &str)
        ensures
            path@ == self@.path,
    {
        self.path.as_str()
    }

    pub fn directory(&self) -> (directory: String)
        ensures
            directory@ == directory_of(self@.path),
    {
        settings_directory(self.path.as_str())
    }

    /// The new file of the current attempt.
    pub fn temporary_path(&self) -> (path: String)
        requires
            self.wf(),
        ensures
            path@ == paths::joined(
                directory_of(self@.path),
                temporary_name(
                    paths::file_name_of(self@.path)->0,
                    self@.process,
                    self@.attempt,
                ),
            ),
    {
        let name = temporary_file_name(self.file_name.as_str(), self.process, self.attempt);
        paths::join(self.directory().as_str(), name.as_str())
    }

    fn fail(&mut self, stage: WriteStage, operation: &'static str, cause: String)
        ensures
            final(self)@ == old(self)@.failed(stage, operation@, cause@),
            final(self).file_name == old(self).file_name,
    {
        self.stage = stage;
        self.error = Some(AppError::io(operation, cause));
    }

    /// Takes note of how the current step went.
    pub fn step(&mut self, outcome: StepOutcome)
        requires
            old(self).wf(),
        ensures
            final(self).wf(),
            final(self)@ == old(self)@.after(outcome@),
    {
        match self.stage {
            WriteStage::CreateDirectory => match outcome {
                StepOutcome::Done => self.stage = WriteStage::CreateTemporary,
                StepOutcome::AlreadyExists(cause) => self.fail(
                    WriteStage::Finished,
                    CREATE_DIRECTORY,
                    cause,
                ),
                StepOutcome::Failed(cause) => self.fail(
                    WriteStage::Finished,
                    CREATE_DIRECTORY,
                    cause,
                ),
            },
            WriteStage::CreateTemporary => match outcome {
                StepOutcome::Done => self.stage = WriteStage::WriteContent,
                StepOutcome::AlreadyExists(_) => {
                    if self.attempt + 1 < TEMP_FILE_ATTEMPTS {
                        self.attempt = self.attempt + 1;
                    } else {
                        self.fail(
                            WriteStage::Finished,
                            CREATE_TEMPORARY,
                            TEMPORARY_EXISTS.to_owned(),
                        );
                    }
                },
                StepOutcome::Failed(cause) => self.fail(
                    WriteStage::Finished,
                    CREATE_TEMPORARY,
                    cause,
                ),
            },
            WriteStage::WriteContent => self.proceed(
                outcome,
                WriteStage::SyncContent,
                WRITE_TEMPORARY,
            ),
            WriteStage::SyncContent => self.proceed(outcome, WriteStage::Replace, SYNC_TEMPORARY),
            WriteStage::Replace => self.proceed(outcome, WriteStage::SyncDirectory, REPLACE_FILE),
            WriteStage::SyncDirectory => self.stage = WriteStage::Finished,
            WriteStage::RemoveTemporary => self.stage = WriteStage::Finished,
            WriteStage::Finished => {},
        }
    }

    fn proceed(&mut self, outcome: StepOutcome, next: WriteStage, operation: &'static str)
        ensures
            final(self)@ == (if outcome@ is Done {
                old(self)@.at(next)
            } else {
                old(self)@.failed(WriteStage::RemoveTemporary, operation@, outcome@.cause())
            }),
            final(self).file_name == old(self).file_name,
    {
        match outcome {
            StepOutcome::Done => self.stage = next,
            StepOutcome::AlreadyExists(cause) => self.fail(
                WriteStage::RemoveTemporary,
                operation,
                cause,
            ),
            StepOutcome::Failed(cause) => self.fail(WriteStage::RemoveTemporary, operation, cause),
        }
    }

    /// How a finished write ended.
    pub fn finish(self) -> (result: AppResult<()>)
        requires
            self@.stage is Finished,
        ensures
            result is Ok == self@.error is None,
            result is Err ==> self@.error == Some((result->Err_0)@),
    {
        match self.error {
            Some(error) => Err(error),
            None => Ok(()),
        }
    }
}

/// How many steps can still follow, at most.
pub open spec fn steps_left(write: WriteModel) -> int {
    match write.stage {
        WriteStage::CreateDirectory => 6 + TEMP_FILE_ATTEMPTS - write.attempt,
        WriteStage::CreateTemporary => 5 + TEMP_FILE_ATTEMPTS - write.attempt,
        WriteStage::WriteContent => 5,
        WriteStage::SyncContent => 4,
        WriteStage::Replace => 3,
        WriteStage::SyncDirectory => 1,
        WriteStage::RemoveTemporary => 1,
        WriteStage::Finished => 0,
    }
}

/// Every write comes to an end.
pub proof fn law_write_ends(write: WriteModel, outcome: StepModel)
    requires
        write.consistent(),
        !(write.stage is Finished),
    ensures
        write.after(outcome).consistent(),
        0 <= steps_left(write.after(outcome)) < steps_left(write),
{
}

/// Nothing but a new file whose content was written and brought to the disk
/// takes the place of the settings file.
pub proof fn law_only_complete_content_replaces(write: WriteModel, outcome: StepModel)
    requires
        write.consistent(),
        write.after(outcome).stage != write.stage,
    ensures
        write.after(outcome).stage is Replace ==> write.stage is SyncContent && outcome is Done,
        write.after(outcome).stage is SyncContent ==> write.stage is WriteContent && outcome is Done,
        write.after(outcome).stage is WriteContent ==> write.stage is CreateTemporary
            && outcome is Done,
{
}

proof fn lemma_outcome(write: WriteModel, outcomes: Seq<StepModel>)
    requires
        write.consistent(),
        write.run(outcomes).stage is Finished,
    ensures
        write.run(outcomes).error is None <==> {
            ||| write.succeeds(WriteStage::Replace, outcomes)
            ||| write.stage is SyncDirectory
            ||| write.stage is Finished && write.error is None
        },
    decreases outcomes.len(),
{
    if outcomes.len() > 0 {
        lemma_outcome(write.after(outcomes[0]), outcomes.skip(1));
    }
}

/// A write reports success exactly where the settings file was replaced: what
/// follows the replacement cannot turn it into a failure.
pub proof fn law_success_means_replaced(
    path: Seq<char>,
    content: Seq<char>,
    process: nat,
    outcomes: Seq<StepModel>,
)
    requires
        WriteModel::begun(path, content, process).run(outcomes).stage is Finished,
    ensures
        WriteModel::begun(path, content, process).run(outcomes).error is None
            <==> WriteModel::begun(path, content, process).succeeds(WriteStage::Replace, outcomes),
{
    lemma_outcome(WriteModel::begun(path, content, process), outcomes);
}

/// Whether the new file exists when a stage is reached.
pub open spec fn has_temporary(stage: WriteStage) -> bool {
    ||| stage is WriteContent
    ||| stage is SyncContent
    ||| stage is Replace
    ||| stage is RemoveTemporary
}

proof fn lemma_removal(write: WriteModel, outcomes: Seq<StepModel>)
    requires
        write.consistent(),
        write.run(outcomes).stage is Finished,
        write.run(outcomes).error is Some,
        write.succeeds(WriteStage::CreateTemporary, outcomes) || has_temporary(write.stage),
    ensures
        write.tries(WriteStage::RemoveTemporary, outcomes),
    decreases outcomes.len(),
{
    lemma_outcome(write, outcomes);
    if outcomes.len() > 0 {
        if !(write.stage is RemoveTemporary) {
            lemma_no_creation(write.after(outcomes[0]), outcomes.skip(1));
            lemma_removal(write.after(outcomes[0]), outcomes.skip(1));
        }
    }
}

/// Only a write that has not gone beyond it creates the new file.
proof fn lemma_no_creation(write: WriteModel, outcomes: Seq<StepModel>)
    ensures
        write.succeeds(WriteStage::CreateTemporary, outcomes) ==> write.stage is CreateDirectory
            || write.stage is CreateTemporary,
    decreases outcomes.len(),
{
    if outcomes.len() > 0 {
        lemma_no_creation(write.after(outcomes[0]), outcomes.skip(1));
    }
}

/// A write that created its new file and failed tries to remove it.
pub proof fn law_failed_write_removes_its_file(
    path: Seq<char>,
    content: Seq<char>,
    process: nat,
    outcomes: Seq<StepModel>,
)
    requires
        WriteModel::begun(path, content, process).run(outcomes).stage is Finished,
        WriteModel::begun(path, content, process).run(outcomes).error is Some,
        WriteModel::begun(path, content, process).succeeds(WriteStage::CreateTemporary, outcomes),
    ensures
        WriteModel::begun(path, content, process).tries(WriteStage::RemoveTemporary, outcomes),
{
    lemma_removal(WriteModel::begun(path, content, process), outcomes);
}

/// How the settings file is replaced where renaming cannot replace a file.
#[derive(Debug, PartialEq, Eq)]
pub enum ReplaceStep {
    /// Replace the file that exists.
    ReplaceExisting,
    /// Rename the new file.
    Rename,
    Done,
    Fail(String),
}

/// What to do once it is known whether the settings file exists.
pub fn begin_replace(target_exists: Result<bool, String>) -> (step: ReplaceStep)
    ensures
        match target_exists {
            Ok(true) => step is ReplaceExisting,
            Ok(false) => step is Rename,
            Err(cause) => step is Fail && step->Fail_0@ == cause@,
        },
{
    match target_exists {
        Ok(true) => ReplaceStep::ReplaceExisting,
        Ok(false) => ReplaceStep::Rename,
        Err(cause) => ReplaceStep::Fail(cause),
    }
}

/// What to do after renaming; a file that came up in the meantime is replaced.
pub fn after_rename(renamed: Result<(), String>, target_exists: Result<bool, String>) -> (step:
    ReplaceStep)
    ensures
        match renamed {
            Ok(_) => step is Done,
            Err(cause) => if target_exists == Ok::<bool, String>(true) {
                step is ReplaceExisting
            } else {
                step is Fail && step->Fail_0@ == cause@
            },
        },
{
    match renamed {
        Ok(()) => ReplaceStep::Done,
        Err(cause) => match target_exists {
            Ok(true) => ReplaceStep::ReplaceExisting,
            _ => ReplaceStep::Fail(cause),
        },
    }
}

/// A write whose steps all succeed makes the directory, creates the new file, writes its
/// content, brings it to the disk, puts it in place of the settings file and brings the
/// directory to the disk, in that order, and ends without an error.
pub proof fn law_write_takes_its_steps_in_order(path: Seq<char>, content: Seq<char>, process: nat)
    ensures
        ({
            let begun = WriteModel::begun(path, content, process);
            let created = begun.after(StepModel::Done);
            let opened = created.after(StepModel::Done);
            let written = opened.after(StepModel::Done);
            let synced = written.after(StepModel::Done);
            let replaced = synced.after(StepModel::Done);
            let ended = replaced.after(StepModel::Done);
            &&& begun.stage is CreateDirectory
            &&& created.stage is CreateTemporary
            &&& opened.stage is WriteContent
            &&& written.stage is SyncContent
            &&& synced.stage is Replace
            &&& replaced.stage is SyncDirectory
            &&& ended.stage is Finished
            &&& ended.error is None
            &&& ended.path == path
            &&& ended.content == content
        }),
{
}

/// A name that is taken makes the next one be tried, a hundred of them at most. A step that
/// fails ends the write with its own cause: after the new file was created, that file is
/// removed first. What follows the replacement cannot fail it.
pub proof fn law_failed_steps_end_the_write(write: WriteModel, cause: Seq<char>, outcome: StepModel)
    requires
        write.consistent(),
    ensures
        ({
            let failed = write.after(StepModel::Failed(cause));
            let taken = write.after(StepModel::AlreadyExists(cause));
            &&& write.stage is CreateDirectory || write.stage is CreateTemporary
                ==> failed.stage is Finished
            &&& write.stage is WriteContent || write.stage is SyncContent || write.stage is Replace
                ==> failed.stage is RemoveTemporary
            &&& write.stage is CreateDirectory || write.stage is CreateTemporary
                || write.stage is WriteContent || write.stage is SyncContent
                || write.stage is Replace ==> (failed.error matches Some(
                ErrorModel::Io(_, told),
            ) && told == cause)
            &&& write.stage is CreateTemporary && write.attempt < 99 ==> taken.stage
                is CreateTemporary && taken.attempt == write.attempt + 1 && taken.error is None
            &&& write.stage is CreateTemporary && write.attempt == 99 ==> taken.stage is Finished
                && taken.error is Some
            &&& write.stage is SyncDirectory || write.stage is RemoveTemporary ==> write.after(
                outcome,
            ).stage is Finished && write.after(outcome).error == write.error
            &&& write.stage is Finished ==> write.after(outcome) == write
            &&& write.after(outcome).path == write.path
            &&& write.after(outcome).content == write.content
        }),
{
}

/// The new file is never the settings file itself: its name is longer, and holds the other.
pub proof fn law_new_file_has_a_name_of_its_own(file_name: Seq<char>, process: nat, attempt: nat)
    ensures
        temporary_name(file_name, process, attempt).len() > file_name.len(),
        temporary_name(file_name, process, attempt) != file_name,
        text::holds_text(temporary_name(file_name, process, attempt), file_name),
        temporary_name(file_name, process, attempt)[0] == '.',
{
    reveal_strlit(".");
    reveal_strlit(".new");
    let name = temporary_name(file_name, process, attempt);
    let behind = name.skip(1 + file_name.len() as int);
    assert(name =~= DOT@ + file_name + behind);
    text::lemma_holds_text(DOT@, file_name, behind);
}

/// A settings file is in the directory that its path names, or in the current one where it
/// names none.
pub proof fn law_directory_of_a_settings_file(path: Seq<char>)
    ensures
        paths::parent_of(path) matches Some(parent) ==> (parent.len() > 0 ==> directory_of(path)
            == parent),
        paths::parent_of(path) is None || paths::parent_of(path)->0.len() == 0 ==> directory_of(path)
            == "."@,
{
}

/// A write begins with its directory and the first name for the new file, and nothing has failed
/// yet.
pub proof fn law_write_begins_at_its_first_step(path: Seq<char>, content: Seq<char>, process: nat)
    ensures
        ({
            let write = WriteModel::begun(path, content, process);
            &&& write.path == path
            &&& write.content == content
            &&& write.process == process
            &&& write.attempt == 0
            &&& write.stage is CreateDirectory
            &&& write.error is None
        }),
{
}

} // verus!
