//! How a session's shell is started.

use vstd::prelude::*;

use crate::error::AppResult;

verus! {

/// The directory that a shell starts in.
#[derive(Clone, Debug, PartialEq, Eq)]
pub struct StartupDirectory {
    pub path: String,
}

impl StartupDirectory {
    pub fn new(path: &str) -> (directory: Self)
        ensures
            directory.path@ == path@,
    {
        StartupDirectory { path: path.to_owned() }
    }

    pub fn path(&self) -> (path: &str)
        ensures
            path@ == self.path@,
    {
        self.path.as_str()
    }
}

/// How commands are written for a shell.
#[derive(Clone, Copy, Debug, PartialEq, Eq, Structural)]
pub enum ShellCommandDialect {
    CommandPrompt,
    PowerShell,
    Posix,
}

/// The command that a session runs once it has started.
#[derive(Clone, Debug, PartialEq, Eq)]
pub struct StartupInvocation {
    command: Option<String>,
}

impl StartupInvocation {
    pub closed spec fn spec_command(&self) -> Option<Seq<char>> {
        match self.command {
            Some(command) => Some(command@),
            None => None,
        }
    }

    pub fn new(command: Option<String>) -> (startup: Self)
        ensures
            startup.spec_command() == (match command {
                Some(command) => Some(command@),
                None => None,
            }),
    {
        StartupInvocation { command }
    }

    pub fn command(&self) -> (command: Option<&str>)
        ensures
            command is Some == self.spec_command() is Some,
            command is Some ==> (command->0)@ == self.spec_command()->0,
    {
        match &self.command {
            Some(command) => Some(command.as_str()),
            None => None,
        }
    }

    /// Takes note of how running the command went, where there is one: one that
    /// could not be run is kept for another time.
    pub fn run_startup_command(&mut self, run: AppResult<()>) -> (result: AppResult<()>)
        ensures
            old(self).spec_command() is None ==> result is Ok && final(self).spec_command() is None,
            old(self).spec_command() is Some ==> {
                &&& result == run
                &&& final(self).spec_command() == (if run is Ok {
                    None
                } else {
                    old(self).spec_command()
                })
            },
    {
        if self.command.is_none() {
            return Ok(());
        }
        if run.is_ok() {
            self.command = None;
        }
        run
    }
}

} // verus!
