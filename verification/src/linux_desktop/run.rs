//! Carrying out changes to the desktop's files.

use vstd::prelude::*;
use vstd::string::*;

use crate::error::{AppError, AppResult, ErrorModel};
use crate::linux_desktop::entry::{self, DesktopEnvironment, DesktopInstallPaths};
use crate::linux_desktop::install::{
    self, ChangeModel, ChangePlan, DesktopApplication, DesktopInstallRequest, FileChange,
};
use crate::paths;

verus! {

pub const READ_SOURCE: &'static str = "read icon source";

pub const READ_INSTALLED: &'static str = "read installed Linux desktop file";

pub const CREATE_DIRECTORY: &'static str = "create Linux desktop directory";

pub const WRITE_FILE: &'static str = "write Linux desktop file";

pub const REMOVE_FILE: &'static str = "remove Linux desktop file";

/// How many files were written and removed.
#[derive(Clone, Copy, Debug, PartialEq, Eq, Structural)]
pub struct DesktopInstallReport {
    pub written_files: usize,
    pub removed_files: usize,
}

/// How far the change of one file is.
#[derive(Clone, Copy, Debug, PartialEq, Eq, Structural)]
pub enum ChangePhase {
    Start,
    /// The content to be installed is known.
    Compare,
    Directory,
    Store,
}

/// What is to be done next.
#[derive(Clone, Debug, PartialEq, Eq)]
pub enum DesktopAction {
    ReadSource { path: String },
    ReadInstalled { path: String },
    CreateDirectory { path: String },
    WriteFile { path: String, content: Vec<u8> },
    RemoveFile { path: String },
    Finish,
}

/// What is to be done next, as a value.
pub enum ActionModel {
    ReadSource(Seq<char>),
    ReadInstalled(Seq<char>),
    CreateDirectory(Seq<char>),
    WriteFile(Seq<char>, Seq<u8>),
    RemoveFile(Seq<char>),
    Finish,
}

impl View for DesktopAction {
    type V = ActionModel;

    open spec fn view(&self) -> ActionModel {
        match self {
            DesktopAction::ReadSource { path } => ActionModel::ReadSource(path@),
            DesktopAction::ReadInstalled { path } => ActionModel::ReadInstalled(path@),
            DesktopAction::CreateDirectory { path } => ActionModel::CreateDirectory(path@),
            DesktopAction::WriteFile { path, content } => ActionModel::WriteFile(path@, content@),
            DesktopAction::RemoveFile { path } => ActionModel::RemoveFile(path@),
            DesktopAction::Finish => ActionModel::Finish,
        }
    }
}

/// How an action went.
#[derive(Debug, PartialEq, Eq)]
pub enum FileEvent {
    Content(Vec<u8>),
    Done,
    NotFound,
    Failed(String),
}

/// How an action went, as a value.
pub enum EventModel {
    Content(Seq<u8>),
    Done,
    NotFound,
    Failed(Seq<char>),
}

impl View for FileEvent {
    type V = EventModel;

    open spec fn view(&self) -> EventModel {
        match self {
            FileEvent::Content(content) => EventModel::Content(content@),
            FileEvent::Done => EventModel::Done,
            FileEvent::NotFound => EventModel::NotFound,
            FileEvent::Failed(cause) => EventModel::Failed(cause@),
        }
    }
}

/// Which events can follow an action.
pub open spec fn fits(action: ActionModel, event: EventModel) -> bool {
    match action {
        ActionModel::ReadSource(_) => event is Content || event is Failed,
        ActionModel::ReadInstalled(_) => event is Content || event is NotFound || event is Failed,
        ActionModel::CreateDirectory(_) => event is Done || event is Failed,
        ActionModel::WriteFile(_, _) => event is Done || event is Failed,
        ActionModel::RemoveFile(_) => event is Done || event is NotFound || event is Failed,
        ActionModel::Finish => false,
    }
}

/// Changes being carried out, as a value.
#[verifier::ext_equal]
pub struct RunModel {
    pub changes: Seq<ChangeModel>,
    pub next: int,
    pub phase: ChangePhase,
    /// What was read from the file that is copied.
    pub source: Seq<u8>,
    pub written: int,
    pub removed: int,
    pub error: Option<ErrorModel>,
    /// The error that follows the changes, if one does.
    pub ending: Option<ErrorModel>,
}

impl RunModel {
    pub open spec fn stopped(self) -> bool {
        self.error is Some || self.next >= self.changes.len()
    }

    /// The content that the current file is to have.
    pub open spec fn wanted(self) -> Seq<u8> {
        match self.changes[self.next] {
            ChangeModel::Write(_, content) => vstd::utf8::encode_utf8(content),
            _ => self.source,
        }
    }

    pub open spec fn action(self) -> ActionModel {
        if self.stopped() {
            ActionModel::Finish
        } else {
            let path = install::changed_path(self.changes[self.next]);
            match self.changes[self.next] {
                ChangeModel::Remove(_) => ActionModel::RemoveFile(path),
                _ => match self.phase {
                    ChangePhase::Start => match self.changes[self.next] {
                        ChangeModel::Copy(source, _) => ActionModel::ReadSource(source),
                        _ => ActionModel::ReadInstalled(path),
                    },
                    ChangePhase::Compare => ActionModel::ReadInstalled(path),
                    ChangePhase::Directory => ActionModel::CreateDirectory(
                        paths::parent_of(path)->0,
                    ),
                    ChangePhase::Store => ActionModel::WriteFile(path, self.wanted()),
                },
            }
        }
    }

    pub open spec fn at(self, phase: ChangePhase) -> RunModel {
        RunModel { phase, ..self }
    }

    /// On to the next file.
    pub open spec fn onwards(self, written: int, removed: int) -> RunModel {
        RunModel {
            next: self.next + 1,
            phase: ChangePhase::Start,
            written: self.written + written,
            removed: self.removed + removed,
            ..self
        }
    }

    pub open spec fn failed(self, operation: Seq<char>, event: EventModel) -> RunModel {
        RunModel { error: Some(ErrorModel::Io(operation, event->Failed_0)), ..self }
    }

    /// The file is to be written: its directory first, where it has one.
    pub open spec fn writing(self) -> RunModel {
        if paths::parent_of(install::changed_path(self.changes[self.next])) is Some {
            self.at(ChangePhase::Directory)
        } else {
            self.at(ChangePhase::Store)
        }
    }

    /// The run after an action went in some way.
    pub open spec fn after(self, event: EventModel) -> RunModel {
        match self.action() {
            ActionModel::ReadSource(_) => match event {
                EventModel::Content(content) => RunModel {
                    source: content,
                    phase: ChangePhase::Compare,
                    ..self
                },
                _ => self.failed(READ_SOURCE@, event),
            },
            ActionModel::ReadInstalled(_) => match event {
                EventModel::Content(content) => if content == self.wanted() {
                    self.onwards(0, 0)
                } else {
                    self.writing()
                },
                EventModel::NotFound => self.writing(),
                _ => self.failed(READ_INSTALLED@, event),
            },
            ActionModel::CreateDirectory(_) => match event {
                EventModel::Done => self.at(ChangePhase::Store),
                _ => self.failed(CREATE_DIRECTORY@, event),
            },
            ActionModel::WriteFile(_, _) => match event {
                EventModel::Done => self.onwards(1, 0),
                _ => self.failed(WRITE_FILE@, event),
            },
            ActionModel::RemoveFile(_) => match event {
                EventModel::Done => self.onwards(0, 1),
                EventModel::NotFound => self.onwards(0, 0),
                _ => self.failed(REMOVE_FILE@, event),
            },
            ActionModel::Finish => self,
        }
    }

    /// The changes of a plan, before the first of them.
    pub open spec fn begun(changes: Seq<ChangeModel>, ending: Option<ErrorModel>) -> RunModel {
        RunModel {
            changes,
            next: 0,
            phase: ChangePhase::Start,
            source: Seq::empty(),
            written: 0,
            removed: 0,
            error: None,
            ending,
        }
    }
}

pub open spec fn optional_error(error: Option<AppError>) -> Option<ErrorModel> {
    match error {
        Some(error) => Some(error@),
        None => None,
    }
}

/// Changes being carried out.
#[derive(Debug)]
pub struct DesktopRun {
    changes: Vec<FileChange>,
    next: usize,
    phase: ChangePhase,
    source: Vec<u8>,
    report: DesktopInstallReport,
    error: Option<AppError>,
    ending: Option<AppError>,
}

impl View for DesktopRun {
    type V = RunModel;

    closed spec fn view(&self) -> RunModel {
        RunModel {
            changes: install::changes(self.changes@),
            next: self.next as int,
            phase: self.phase,
            source: self.source@,
            written: self.report.written_files as int,
            removed: self.report.removed_files as int,
            error: optional_error(self.error),
            ending: optional_error(self.ending),
        }
    }
}

fn bytes_equal(left: &Vec<u8>, right: &Vec<u8>) -> (equal: bool)
    ensures
        equal == (left@ == right@),
{
    if left.len() != right.len() {
        return false;
    }
    let mut index: usize = 0;
    while index < left.len()
        invariant
            left@.len() == right@.len(),
            index <= left@.len(),
            forall|i: int| 0 <= i < index ==> left@[i] == right@[i],
        decreases left@.len() - index,
    {
        if left[index] != right[index] {
            return false;
        }
        index += 1;
    }
    assert(left@ =~= right@);
    true
}

impl DesktopRun {
    pub closed spec fn wf(&self) -> bool {
        &&& self.next <= self.changes@.len()
        &&& self.report.written_files + self.report.removed_files <= self.next
        &&& self.phase is Directory && self.next < self.changes@.len() ==> paths::parent_of(
            install::changed_path(self.changes@[self.next as int]@),
        ) is Some
    }

    pub fn new(plan: ChangePlan) -> (run: Self)
        ensures
            run.wf(),
            run@ == RunModel::begun(install::changes(plan.changes@), optional_error(plan.error)),
    {
        DesktopRun {
            changes: plan.changes,
            next: 0,
            phase: ChangePhase::Start,
            source: Vec::new(),
            report: DesktopInstallReport { written_files: 0, removed_files: 0 },
            error: None,
            ending: plan.error,
        }
    }

    fn wanted(&self) -> (content: Vec<u8>)
        requires
            self.next < self.changes@.len(),
        ensures
            content@ == self@.wanted(),
    {
        assert(self@.changes[self.next as int] == self.changes@[self.next as int]@);
        match &self.changes[self.next] {
            FileChange::Write { content, .. } => content.as_str().as_bytes_vec(),
            _ => self.source.clone(),
        }
    }

    fn path(&self) -> (path: &str)
        requires
            self.next < self.changes@.len(),
        ensures
            path@ == install::changed_path(self@.changes[self@.next]),
    {
        match &self.changes[self.next] {
            FileChange::Remove { path } => path.as_str(),
            FileChange::Write { path, .. } => path.as_str(),
            FileChange::Copy { path, .. } => path.as_str(),
        }
    }

    /// What is to be done next.
    pub fn action(&self) -> (action: DesktopAction)
        requires
            self.wf(),
        ensures
            action@ == self@.action(),
    {
        if self.error.is_some() || self.next >= self.changes.len() {
            return DesktopAction::Finish;
        }
        let path = self.path().to_owned();
        assert(self@.changes[self.next as int] == self.changes@[self.next as int]@);
        match &self.changes[self.next] {
            FileChange::Remove { .. } => DesktopAction::RemoveFile { path },
            FileChange::Copy { source, .. } if self.phase == ChangePhase::Start => {
                DesktopAction::ReadSource { path: source.clone() }
            },
            _ => match self.phase {
                ChangePhase::Start => DesktopAction::ReadInstalled { path },
                ChangePhase::Compare => DesktopAction::ReadInstalled { path },
                ChangePhase::Directory => match paths::parent(path.as_str()) {
                    Some(parent) => DesktopAction::CreateDirectory { path: parent },
                    None => DesktopAction::Finish,
                },
                ChangePhase::Store => DesktopAction::WriteFile { path, content: self.wanted() },
            },
        }
    }
}

impl DesktopRun {
    fn fail(&mut self, operation: &'static str, event: FileEvent)
        requires
            old(self).wf(),
            event@ is Failed,
        ensures
            final(self).wf(),
            final(self)@ == old(self)@.failed(operation@, event@),
    {
        match event {
            FileEvent::Failed(cause) => {
                self.error = Some(AppError::io(operation, cause));
            },
            _ => {},
        }
    }

    fn onwards(&mut self)
        requires
            old(self).wf(),
            old(self)@.next < old(self)@.changes.len(),
        ensures
            final(self).wf(),
            final(self)@ == old(self)@.onwards(0, 0),
            final(self).report == old(self).report,
            final(self).next == old(self).next + 1,
    {
        let count = self.changes.len();
        assert(self@.changes.len() == count);
        self.next = self.next + 1;
        self.phase = ChangePhase::Start;
    }

    fn begin_writing(&mut self)
        requires
            old(self).wf(),
            old(self)@.next < old(self)@.changes.len(),
        ensures
            final(self).wf(),
            final(self)@ == old(self)@.writing(),
    {
        assert(self@.changes[self.next as int] == self.changes@[self.next as int]@);
        match paths::parent(self.path()) {
            Some(_) => {
                self.phase = ChangePhase::Directory;
            },
            None => {
                self.phase = ChangePhase::Store;
            },
        }
    }

    /// Takes note of how the current action went.
    pub fn step(&mut self, event: FileEvent)
        requires
            old(self).wf(),
            fits(old(self)@.action(), event@),
        ensures
            final(self).wf(),
            final(self)@ == old(self)@.after(event@),
    {
        match self.action() {
            DesktopAction::ReadSource { .. } => match event {
                FileEvent::Content(content) => {
                    self.source = content;
                    self.phase = ChangePhase::Compare;
                },
                other => self.fail(READ_SOURCE, other),
            },
            DesktopAction::ReadInstalled { .. } => match event {
                FileEvent::Content(content) => {
                    if bytes_equal(&content, &self.wanted()) {
                        self.onwards();
                    } else {
                        self.begin_writing();
                    }
                },
                FileEvent::NotFound => self.begin_writing(),
                other => self.fail(READ_INSTALLED, other),
            },
            DesktopAction::CreateDirectory { .. } => match event {
                FileEvent::Done => {
                    self.phase = ChangePhase::Store;
                },
                other => self.fail(CREATE_DIRECTORY, other),
            },
            DesktopAction::WriteFile { .. } => match event {
                FileEvent::Done => {
                    self.onwards();
                    self.report.written_files = self.report.written_files + 1;
                },
                other => self.fail(WRITE_FILE, other),
            },
            DesktopAction::RemoveFile { .. } => match event {
                FileEvent::Done => {
                    self.onwards();
                    self.report.removed_files = self.report.removed_files + 1;
                },
                FileEvent::NotFound => self.onwards(),
                other => self.fail(REMOVE_FILE, other),
            },
            DesktopAction::Finish => {},
        }
    }

    /// How many files a finished run changed, or what stopped it.
    pub fn finish(self) -> (report: AppResult<DesktopInstallReport>)
        requires
            self@.action() is Finish,
        ensures
            report is Ok == (self@.error is None && self@.ending is None),
            report is Ok ==> (report->Ok_0).written_files == self@.written
                && (report->Ok_0).removed_files == self@.removed,
            report is Err ==> Some((report->Err_0)@) == (if self@.error is Some {
                self@.error
            } else {
                self@.ending
            }),
    {
        match self.error {
            Some(error) => Err(error),
            None => match self.ending {
                Some(error) => Err(error),
                None => Ok(self.report),
            },
        }
    }
}

/// Begins to put the application into the desktop; `is_file` says of each
/// candidate for the icon whether it is a file.
pub fn install_for_current_exe(
    application: &DesktopApplication,
    request: &DesktopInstallRequest,
    is_file: &Vec<bool>,
) -> (run: AppResult<DesktopRun>)
    ensures
        match entry::data_home_of(request.environment) {
            Err(error) => run is Err && (run->Err_0)@ == error,
            Ok(home) => {
                &&& run is Ok
                &&& (run->Ok_0).wf()
                &&& (run->Ok_0)@ == match entry::entry_executable(
                    request.executable_path@,
                    request.executable_is_utf8,
                ) {
                    Ok(executable) => RunModel::begun(
                        install::install_changes(
                            home,
                            *application,
                            executable,
                            entry::first_icon(
                                entry::icon_candidates_of(
                                    request.executable_path@,
                                    request.current_directory@,
                                ),
                                is_file@,
                            ),
                        ),
                        None,
                    ),
                    Err(error) => RunModel::begun(
                        install::all_removals(home, install::legacy_ids()),
                        Some(error),
                    ),
                }
            },
        },
{
    let paths = match request.install_paths() {
        Ok(paths) => paths,
        Err(error) => return Err(error),
    };
    let icon = entry::find_icon_source(
        request.executable_path.as_str(),
        request.current_directory.as_str(),
        is_file,
    );
    Ok(DesktopRun::new(install::install_with_request(application, request, &paths, &icon)))
}

/// Begins to take the application out of the desktop.
pub fn uninstall(application: &DesktopApplication, environment: &DesktopEnvironment) -> (run:
    AppResult<DesktopRun>)
    ensures
        match entry::data_home_of(*environment) {
            Err(error) => run is Err && (run->Err_0)@ == error,
            Ok(home) => {
                &&& run is Ok
                &&& (run->Ok_0).wf()
                &&& (run->Ok_0)@ == RunModel::begun(
                    install::uninstall_changes(home, application.id@),
                    None,
                )
            },
        },
{
    match environment.data_home() {
        Ok(data_home) => {
            let paths = DesktopInstallPaths::new(data_home);
            Ok(DesktopRun::new(install::uninstall_from_paths(application, &paths)))
        },
        Err(error) => Err(error),
    }
}

/// A file that has the content it is to have is left alone: once it was read,
/// nothing is written and the run goes on to its next change.
pub proof fn law_files_that_are_right_are_left_alone(run: RunModel)
    requires
        !run.stopped(),
        run.action() is ReadInstalled,
    ensures
        run.after(EventModel::Content(run.wanted())) == run.onwards(0, 0),
{
}

/// An upper bound of the actions that can still follow.
pub open spec fn actions_left(run: RunModel) -> int {
    if run.stopped() {
        0
    } else {
        5 * (run.changes.len() - run.next) - (match run.phase {
            ChangePhase::Start => 0int,
            ChangePhase::Compare => 1,
            ChangePhase::Directory => 2,
            ChangePhase::Store => 3,
        })
    }
}

/// Every run comes to an end.
pub proof fn law_run_ends(run: RunModel, event: EventModel)
    requires
        !run.stopped(),
        fits(run.action(), event),
    ensures
        0 <= actions_left(run.after(event)) < actions_left(run),
{
}

/// A program that tells the desktop of the changes.
#[derive(Clone, Debug, PartialEq, Eq)]
pub struct CacheCommand {
    pub program: &'static str,
    pub arguments: Vec<String>,
}

pub open spec fn arguments_of(command: CacheCommand) -> Seq<Seq<char>> {
    command.arguments@.map_values(|argument: String| argument@)
}

/// The directory of the icon theme.
pub open spec fn theme_of(data_home: Seq<char>) -> Seq<char> {
    paths::joined(paths::joined(data_home, "icons"@), "hicolor"@)
}

/// The program that follows those that were run; the last one stands in for the
/// one before it where that is not installed.
pub fn cache_command(data_home: &str, step: usize, previous_installed: bool) -> (command: Option<
    CacheCommand,
>)
    ensures
        command is Some == (step < 3 || step == 3 && !previous_installed),
        step == 0 ==> (command->0).program@ == "update-desktop-database"@ && arguments_of(
            command->0,
        ) == Seq::<Seq<char>>::empty(),
        step == 1 ==> (command->0).program@ == "gtk-update-icon-cache"@ && arguments_of(command->0)
            == seq!["-f"@, "-t"@, theme_of(data_home@)],
        step == 1 ==> arguments_of(command->0)[2] == paths::joined(
            paths::joined(data_home@, "icons"@),
            "hicolor"@,
        ),
        step == 2 ==> (command->0).program@ == "kbuildsycoca6"@ && arguments_of(command->0)
            == seq!["--noincremental"@],
        step == 3 && !previous_installed ==> (command->0).program@ == "kbuildsycoca5"@
            && arguments_of(command->0) == seq!["--noincremental"@],
{
    let mut arguments: Vec<String> = Vec::new();
    if step == 0 {
        let command = CacheCommand { program: "update-desktop-database", arguments };
        assert(arguments_of(command) =~= Seq::<Seq<char>>::empty());
        Some(command)
    } else if step == 1 {
        arguments.push("-f".to_owned());
        arguments.push("-t".to_owned());
        let icons = paths::join(data_home, "icons");
        arguments.push(paths::join(icons.as_str(), "hicolor"));
        let command = CacheCommand { program: "gtk-update-icon-cache", arguments };
        assert(arguments_of(command) =~= seq!["-f"@, "-t"@, theme_of(data_home@)]);
        Some(command)
    } else if step == 2 || step == 3 && !previous_installed {
        arguments.push("--noincremental".to_owned());
        let program = if step == 2 {
            "kbuildsycoca6"
        } else {
            "kbuildsycoca5"
        };
        let command = CacheCommand { program, arguments };
        assert(arguments_of(command) =~= seq!["--noincremental"@]);
        Some(command)
    } else {
        None
    }
}

/// A file that is to be written is read first. Where it is missing, or holds something else, its
/// directory is made, where it has one, and it is written with its content; it counts as
/// written then, and the run goes on to the next file.
pub proof fn law_missing_file_is_written(run: RunModel, path: Seq<char>, content: Seq<char>, held: Seq<u8>)
    requires
        !run.stopped(),
        run.changes[run.next] == ChangeModel::Write(path, content),
        run.phase is Start,
        held != vstd::utf8::encode_utf8(content),
    ensures
        ({
            let missing = run.after(EventModel::NotFound);
            let store = if paths::parent_of(path) is Some {
                missing.after(EventModel::Done)
            } else {
                missing
            };
            let written = store.after(EventModel::Done);
            &&& run.action() == ActionModel::ReadInstalled(path)
            &&& run.after(EventModel::Content(held)) == missing
            &&& paths::parent_of(path) matches Some(parent) ==> missing.action()
                == ActionModel::CreateDirectory(parent)
            &&& store.action() == ActionModel::WriteFile(path, vstd::utf8::encode_utf8(content))
            &&& written.next == run.next + 1
            &&& written.written == run.written + 1
            &&& written.removed == run.removed
            &&& written.phase is Start
            &&& written.error is None
            &&& written.changes == run.changes
        }),
{
}

/// A file that is to be copied is read where it is copied from, and then as one that is to be
/// written: what was read is what it is to hold.
pub proof fn law_copied_file_gets_what_was_read(
    run: RunModel,
    source: Seq<char>,
    path: Seq<char>,
    content: Seq<u8>,
    held: Seq<u8>,
)
    requires
        !run.stopped(),
        run.changes[run.next] == ChangeModel::Copy(source, path),
        run.phase is Start,
        held != content,
    ensures
        ({
            let read = run.after(EventModel::Content(content));
            let missing = read.after(EventModel::NotFound);
            let store = if paths::parent_of(path) is Some {
                missing.after(EventModel::Done)
            } else {
                missing
            };
            let written = store.after(EventModel::Done);
            &&& run.action() == ActionModel::ReadSource(source)
            &&& read.action() == ActionModel::ReadInstalled(path)
            &&& read.after(EventModel::Content(held)) == missing
            &&& read.after(EventModel::Content(content)).next == run.next + 1
            &&& read.after(EventModel::Content(content)).written == run.written
            &&& store.action() == ActionModel::WriteFile(path, content)
            &&& written.next == run.next + 1
            &&& written.written == run.written + 1
            &&& written.removed == run.removed
        }),
{
}

/// A file that is to be removed is; it counts as removed where it was there. Whatever fails ends
/// the run with its cause, and no further file is touched.
pub proof fn law_removed_files_are_counted(run: RunModel, path: Seq<char>, cause: Seq<char>)
    requires
        !run.stopped(),
    ensures
        run.changes[run.next] == ChangeModel::Remove(path) ==> {
            &&& run.action() == ActionModel::RemoveFile(path)
            &&& run.after(EventModel::Done).next == run.next + 1
            &&& run.after(EventModel::Done).removed == run.removed + 1
            &&& run.after(EventModel::Done).written == run.written
            &&& run.after(EventModel::NotFound).next == run.next + 1
            &&& run.after(EventModel::NotFound).removed == run.removed
            &&& run.after(EventModel::NotFound).written == run.written
        },
        run.after(EventModel::Failed(cause)).stopped(),
        run.after(EventModel::Failed(cause)).action() is Finish,
        run.after(EventModel::Failed(cause)).error matches Some(ErrorModel::Io(_, told)) && told
            == cause,
        run.after(EventModel::Failed(cause)).written == run.written,
        run.after(EventModel::Failed(cause)).removed == run.removed,
{
}

/// Every action can fail, and nothing follows the end. What is read gives its content, what is
/// done is done, and only a file that need not be there can be missing.
pub proof fn law_events_that_follow_an_action(action: ActionModel, event: EventModel)
    ensures
        action is Finish ==> !fits(action, event),
        !(action is Finish) && event is Failed ==> fits(action, event),
        event is Content ==> (fits(action, event) <==> action is ReadSource
            || action is ReadInstalled),
        event is Done ==> (fits(action, event) <==> action is CreateDirectory
            || action is WriteFile || action is RemoveFile),
        event is NotFound ==> (fits(action, event) <==> action is ReadInstalled
            || action is RemoveFile),
{
}

/// A run begins at its first change; nothing is written, removed or wrong yet.
pub proof fn law_run_begins_at_its_first_change(
    changes: Seq<ChangeModel>,
    ending: Option<ErrorModel>,
)
    ensures
        ({
            let run = RunModel::begun(changes, ending);
            &&& run.changes == changes
            &&& run.next == 0
            &&& run.phase is Start
            &&& run.written == 0
            &&& run.removed == 0
            &&& run.error is None
            &&& run.ending == ending
            &&& run.stopped() <==> changes.len() == 0
        }),
{
}

} // verus!
