//! The shell that a session runs.

use portable_pty::CommandBuilder;
use vstd::prelude::*;

use crate::domain::startup::{ShellCommandDialect, StartupDirectory};
use crate::paths;
use crate::text;

verus! {

/// Makes the command prompt use UTF-8.
pub const CMD_UTF8_INIT_COMMAND: &'static str = "chcp 65001 >NUL";

/// Makes PowerShell use UTF-8.
pub const POWERSHELL_UTF8_INIT_COMMAND: &'static str = "$utf8 = New-Object System.Text.UTF8Encoding $false; [Console]::InputEncoding = $utf8; [Console]::OutputEncoding = $utf8; $OutputEncoding = $utf8";

/// A command to be run on a PTY.
#[verifier::external_type_specification]
#[verifier::external_body]
pub struct ExCommandBuilder(portable_pty::CommandBuilder);

/// The program and arguments that a command holds.
pub uninterp spec fn command_argv(command: CommandBuilder) -> Seq<Seq<char>>;

/// The environment variables that a command sets itself, beside those it has
/// from the process that makes it.
pub uninterp spec fn command_env(command: CommandBuilder) -> Map<Seq<char>, Seq<char>>;

/// No environment variable.
pub open spec fn no_variables() -> Map<Seq<char>, Seq<char>> {
    Map::empty()
}

/// The directory that a command is to run in, where it names one.
pub uninterp spec fn command_cwd(command: CommandBuilder) -> Option<Seq<char>>;

/// `CommandBuilder::new`: holds the program alone, sets no variable itself and
/// names no directory.
#[verifier::external_body]
fn new_command(program: &str) -> (command: CommandBuilder)
    ensures
        command_argv(command) == seq![program@],
        command_env(command) == no_variables(),
        command_cwd(command) == None::<Seq<char>>,
{
    CommandBuilder::new(program)
}

/// `CommandBuilder::arg`: appends the argument. It refuses a command without a
/// program.
#[verifier::external_body]
fn add_argument(command: &mut CommandBuilder, argument: &str)
    requires
        command_argv(*old(command)).len() > 0,
    ensures
        command_argv(*final(command)) == command_argv(*old(command)).push(argument@),
        command_env(*final(command)) == command_env(*old(command)),
        command_cwd(*final(command)) == command_cwd(*old(command)),
{
    command.arg(argument);
}

/// `CommandBuilder::env`: sets the variable; one that was set before under
/// another name is not spoken of, since some platforms ignore case.
#[verifier::external_body]
fn set_variable(command: &mut CommandBuilder, key: &str, value: &str)
    ensures
        command_argv(*final(command)) == command_argv(*old(command)),
        command_env(*final(command)).contains_pair(key@, value@),
        command_env(*old(command)) == no_variables() ==> command_env(*final(command))
            == no_variables().insert(key@, value@),
        command_cwd(*final(command)) == command_cwd(*old(command)),
{
    command.env(key, value);
}

/// `CommandBuilder::cwd`: names the directory.
#[verifier::external_body]
fn set_directory(command: &mut CommandBuilder, directory: &str)
    ensures
        command_argv(*final(command)) == command_argv(*old(command)),
        command_env(*final(command)) == command_env(*old(command)),
        command_cwd(*final(command)) == Some(directory@),
{
    command.cwd(directory);
}

/// A shell, with the path of its program.
#[derive(Clone, Debug, PartialEq, Eq)]
pub enum DefaultShell {
    CommandPrompt(String),
    PowerShell(String),
    Posix(String),
}

/// A shell's kind and path.
pub open spec fn shell_argv(shell: DefaultShell) -> Seq<Seq<char>> {
    match shell {
        DefaultShell::CommandPrompt(path) => seq![path@, "/K"@, CMD_UTF8_INIT_COMMAND@],
        DefaultShell::PowerShell(path) => seq![
            path@,
            "-NoLogo"@,
            "-NoExit"@,
            "-Command"@,
            POWERSHELL_UTF8_INIT_COMMAND@,
        ],
        DefaultShell::Posix(path) => seq![path@],
    }
}

pub open spec fn shell_env(shell: DefaultShell) -> Map<Seq<char>, Seq<char>> {
    match shell {
        DefaultShell::Posix(_) => map!["TERM"@ => "xterm-256color"@],
        _ => no_variables(),
    }
}

impl DefaultShell {
    /// The command that runs the shell, in the given directory where there is
    /// one.
    pub fn command_builder(&self, startup_directory: Option<&StartupDirectory>) -> (command:
        CommandBuilder)
        ensures
            command_argv(command) == shell_argv(*self),
            command_env(command) == shell_env(*self),
            command_cwd(command) == (match startup_directory {
                Some(directory) => Some(directory.path@),
                None => None,
            }),
    {
        let mut command = match self {
            DefaultShell::CommandPrompt(path) => {
                let mut command = new_command(path.as_str());
                add_argument(&mut command, "/K");
                add_argument(&mut command, CMD_UTF8_INIT_COMMAND);
                command
            },
            DefaultShell::PowerShell(path) => {
                let mut command = new_command(path.as_str());
                add_argument(&mut command, "-NoLogo");
                add_argument(&mut command, "-NoExit");
                add_argument(&mut command, "-Command");
                add_argument(&mut command, POWERSHELL_UTF8_INIT_COMMAND);
                command
            },
            DefaultShell::Posix(path) => {
                let mut command = new_command(path.as_str());
                set_variable(&mut command, "TERM", "xterm-256color");
                command
            },
        };
        assert(command_argv(command) =~= shell_argv(*self));
        assert(command_env(command) =~= shell_env(*self));
        if let Some(directory) = startup_directory {
            set_directory(&mut command, directory.path.as_str());
        }
        command
    }

    /// What is typed to make the shell exit.
    pub fn graceful_exit_sequence(&self) -> (bytes: Vec<u8>)
        ensures
            bytes@ == (match self {
                DefaultShell::Posix(_) => seq![101u8, 120, 105, 116, 10],
                _ => seq![101u8, 120, 105, 116, 13],
            }),
    {
        match self {
            DefaultShell::Posix(_) => vec![101, 120, 105, 116, 10],
            _ => vec![101, 120, 105, 116, 13],
        }
    }

    pub fn command_dialect(&self) -> (dialect: ShellCommandDialect)
        ensures
            dialect == (match self {
                DefaultShell::CommandPrompt(_) => ShellCommandDialect::CommandPrompt,
                DefaultShell::PowerShell(_) => ShellCommandDialect::PowerShell,
                DefaultShell::Posix(_) => ShellCommandDialect::Posix,
            }),
    {
        match self {
            DefaultShell::CommandPrompt(_) => ShellCommandDialect::CommandPrompt,
            DefaultShell::PowerShell(_) => ShellCommandDialect::PowerShell,
            DefaultShell::Posix(_) => ShellCommandDialect::Posix,
        }
    }
}

/// Whether any of a file's execute permissions is set.
pub fn has_execute_permission(mode: u32) -> (executable: bool)
    ensures
        executable == (mode & 0o111 != 0),
{
    mode & 0o111 != 0
}

/// A value that is not empty.
pub fn non_empty(value: Option<String>) -> (kept: Option<String>)
    ensures
        kept == (match value {
            Some(text) => if text@.len() == 0 {
                None
            } else {
                Some(text)
            },
            None => None,
        }),
{
    match value {
        Some(value) => {
            if text::text_equal(value.as_str(), "") {
                proof {
                    reveal_strlit("");
                }
                None
            } else {
                proof {
                    reveal_strlit("");
                    if value@.len() == 0 {
                        assert(value@ =~= ""@);
                    }
                }
                Some(value)
            }
        },
        None => None,
    }
}

/// The shell on systems other than Windows: the one that the environment
/// names, where it names an executable file, else `/bin/sh`.
pub fn detect_posix_shell(shell: Option<String>, is_executable_file: bool) -> (found: DefaultShell)
    ensures
        found is Posix,
        (found->Posix_0)@ == (match shell {
            Some(path) => if path@.len() > 0 && is_executable_file {
                path@
            } else {
                "/bin/sh"@
            },
            None => "/bin/sh"@,
        }),
{
    match non_empty(shell) {
        Some(path) if is_executable_file => DefaultShell::Posix(path),
        _ => DefaultShell::Posix("/bin/sh".to_owned()),
    }
}

pub open spec fn powershell_file_name(name: Seq<char>) -> bool {
    text::ascii_lower_text(name) == text::ascii_lower_text("powershell.exe"@)
        || text::ascii_lower_text(name) == text::ascii_lower_text("pwsh.exe"@)
}

/// Whether a program's file name is PowerShell's.
pub fn is_powershell_file_name(name: &str) -> (is: bool)
    ensures
        is == powershell_file_name(name@),
{
    text::equal_ignoring_ascii_case(name, "powershell.exe") || text::equal_ignoring_ascii_case(
        name,
        "pwsh.exe",
    )
}

pub open spec fn powershell_path(path: Seq<char>) -> bool {
    paths::file_name_of(path) matches Some(name) && powershell_file_name(name)
}

/// Whether a path leads to PowerShell.
pub fn is_powershell_path(path: &str) -> (is: bool)
    ensures
        is == powershell_path(path@),
{
    match paths::file_name(path) {
        Some(name) => is_powershell_file_name(name.as_str()),
        None => false,
    }
}

/// Where Windows keeps PowerShell.
pub fn windows_powershell_candidate(system_root: &str) -> (path: String)
    ensures
        path@ == paths::joined(
            paths::joined(
                paths::joined(paths::joined(system_root@, "System32"@), "WindowsPowerShell"@),
                "v1.0"@,
            ),
            "powershell.exe"@,
        ),
{
    let system = paths::join(system_root, "System32");
    let powershell = paths::join(system.as_str(), "WindowsPowerShell");
    let version = paths::join(powershell.as_str(), "v1.0");
    paths::join(version.as_str(), "powershell.exe")
}

/// The shell on Windows: the one that the environment names, else PowerShell
/// where it was found, else the command prompt.
pub fn detect_windows_shell(comspec: Option<String>, powershell: Option<String>) -> (found:
    DefaultShell)
    ensures
        comspec is Some && (comspec->0)@.len() > 0 ==> found == (if powershell_path(
            (comspec->0)@,
        ) {
            DefaultShell::PowerShell(comspec->0)
        } else {
            DefaultShell::CommandPrompt(comspec->0)
        }),
        comspec is None || (comspec->0)@.len() == 0 ==> (match powershell {
            Some(path) => found == DefaultShell::PowerShell(path),
            None => found matches DefaultShell::CommandPrompt(path) && path@ == "cmd.exe"@,
        }),
{
    if let Some(path) = non_empty(comspec) {
        if is_powershell_path(path.as_str()) {
            return DefaultShell::PowerShell(path);
        }
        return DefaultShell::CommandPrompt(path);
    }
    match powershell {
        Some(path) => DefaultShell::PowerShell(path),
        None => DefaultShell::CommandPrompt("cmd.exe".to_owned()),
    }
}

/// A shell is run by its own path, which comes first; only the two shells of Windows get
/// arguments, the last of which makes them use UTF-8.
pub proof fn law_shell_is_run_by_its_path(shell: DefaultShell, path: String)
    ensures
        shell_argv(DefaultShell::CommandPrompt(path))[0] == path@,
        shell_argv(DefaultShell::PowerShell(path))[0] == path@,
        shell_argv(DefaultShell::Posix(path))[0] == path@,
        shell is Posix ==> shell_argv(shell).len() == 1,
        shell is CommandPrompt ==> shell_argv(shell).len() == 3 && shell_argv(shell)[1] == "/K"@
            && shell_argv(shell).last() == CMD_UTF8_INIT_COMMAND@,
        shell is PowerShell ==> shell_argv(shell).len() == 5 && shell_argv(shell)[1] == "-NoLogo"@
            && shell_argv(shell)[2] == "-NoExit"@ && shell_argv(shell)[3] == "-Command"@
            && shell_argv(shell).last() == POWERSHELL_UTF8_INIT_COMMAND@,
{
}

/// A shell of a system other than Windows is told what its terminal can do, and no other
/// variable is set; the shells of Windows are told nothing.
pub proof fn law_only_posix_shells_are_told_their_terminal(shell: DefaultShell, name: Seq<char>)
    ensures
        shell is Posix ==> (shell_env(shell).dom().contains(name) <==> name == "TERM"@),
        shell is Posix ==> shell_env(shell)["TERM"@] == "xterm-256color"@,
        !(shell is Posix) ==> !shell_env(shell).dom().contains(name),
{
}

/// A program is PowerShell by its name: that of either of its two programs, in capitals or not.
pub proof fn law_powershell_is_known_by_its_name(name: Seq<char>, other: Seq<char>)
    ensures
        powershell_file_name("powershell.exe"@),
        powershell_file_name("pwsh.exe"@),
        text::ascii_lower_text(name) == text::ascii_lower_text(other) ==> powershell_file_name(name)
            == powershell_file_name(other),
        powershell_file_name(name) ==> text::ascii_lower_text(name) == text::ascii_lower_text(
            "powershell.exe"@,
        ) || text::ascii_lower_text(name) == text::ascii_lower_text("pwsh.exe"@),
{
}

/// A path leads to PowerShell where it has a file name and that is PowerShell's.
pub proof fn law_powershell_is_known_by_its_path(path: Seq<char>)
    ensures
        paths::file_name_of(path) is None ==> !powershell_path(path),
        paths::file_name_of(path) matches Some(name) ==> powershell_path(path)
            == powershell_file_name(name),
{
}

} // verus!
