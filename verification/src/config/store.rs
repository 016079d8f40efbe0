//! Where the settings are kept, and loading and saving them.

use vstd::prelude::*;

use crate::config::file::{self, AppSettings, ConfigFile, FileModel, SettingsModel};
use crate::config::write::{SettingsWrite, WriteModel, NO_FILE_NAME};
use crate::domain::command_panel::CommandPanel;
use crate::domain::font::TerminalFont;
use crate::error::{AppError, AppResult, ErrorModel};
use crate::paths;
use crate::text;

verus! {

pub const SETTINGS_EXTENSION: &'static str = "toml";

pub const NO_EXECUTABLE_NAME: &'static str = "executable file name is missing";

pub const RESOLVE_EXECUTABLE: &'static str = "resolve executable path";

pub const CHECK_FILE: &'static str = "check settings file";

pub const CHECK_LEGACY_FILE: &'static str = "check legacy settings file";

pub const READ_FILE: &'static str = "read settings file";

pub const PARSE_FILE: &'static str = "parse settings file";

pub const SERIALIZE_FILE: &'static str = "serialize settings file";

/// The settings file that belongs to an executable.
pub open spec fn settings_path_of(executable: Seq<char>) -> Result<Seq<char>, ErrorModel> {
    if paths::file_name_of(executable) is None {
        Err(ErrorModel::InvalidState(NO_EXECUTABLE_NAME@))
    } else {
        Ok(paths::extension_replaced(executable, SETTINGS_EXTENSION@))
    }
}

/// Whether an outcome is the path, or the error, that is expected.
pub open spec fn path_outcome(outcome: AppResult<String>, expected: Result<Seq<char>, ErrorModel>) -> bool {
    match outcome {
        Ok(path) => expected == Ok::<Seq<char>, ErrorModel>(path@),
        Err(error) => expected == Err::<Seq<char>, ErrorModel>(error@),
    }
}

/// The file beside an executable, named like it with the extension of a
/// settings file.
pub fn executable_settings_path(executable_path: &str) -> (path: AppResult<String>)
    ensures
        path_outcome(path, settings_path_of(executable_path@)),
        path is Ok <==> paths::file_name_of(executable_path@) is Some,
        path matches Ok(settings) ==> settings@ == paths::extension_replaced(
            executable_path@,
            "toml"@,
        ),
        path matches Err(error) ==> error@ == ErrorModel::InvalidState(NO_EXECUTABLE_NAME@),
{
    proof {
        reveal_strlit("toml");
    }
    match paths::file_name(executable_path) {
        Some(_) => Ok(paths::with_extension(executable_path, SETTINGS_EXTENSION)),
        None => Err(AppError::InvalidState(NO_EXECUTABLE_NAME)),
    }
}

/// Where an executable's settings are written.
pub fn default_settings_path(executable_path: &str) -> (path: AppResult<String>)
    ensures
        path_outcome(path, settings_path_of(executable_path@)),
{
    executable_settings_path(executable_path)
}

/// Where an executable's settings may be from earlier.
pub fn legacy_settings_path_for_executable(executable_path: &str) -> (path: AppResult<String>)
    ensures
        path_outcome(path, settings_path_of(executable_path@)),
{
    executable_settings_path(executable_path)
}

/// What reading a settings file gave.
#[derive(Debug)]
pub enum SettingsRead {
    NotFound,
    Failed(String),
    Unparsable(String),
    Parsed(ConfigFile),
}

/// What reading a settings file gave, as a value.
pub enum ReadModel {
    NotFound,
    Failed(Seq<char>),
    Unparsable(Seq<char>),
    Parsed(FileModel),
}

impl View for SettingsRead {
    type V = ReadModel;

    open spec fn view(&self) -> ReadModel {
        match self {
            SettingsRead::NotFound => ReadModel::NotFound,
            SettingsRead::Failed(cause) => ReadModel::Failed(cause@),
            SettingsRead::Unparsable(cause) => ReadModel::Unparsable(cause@),
            SettingsRead::Parsed(config) => ReadModel::Parsed(config@),
        }
    }
}

/// The answer to the question whether a file exists, as a value.
pub open spec fn check_model(check: Result<bool, String>) -> Result<bool, Seq<char>> {
    match check {
        Ok(exists) => Ok(exists),
        Err(cause) => Err(cause@),
    }
}

/// Which of two files is read: the first that exists; the second is asked for
/// only where it is a file of its own and the first does not exist.
pub open spec fn existing_path(
    path: Seq<char>,
    legacy: Option<Seq<char>>,
    primary_check: Result<bool, Seq<char>>,
    legacy_check: Result<bool, Seq<char>>,
) -> Result<Option<Seq<char>>, ErrorModel> {
    match primary_check {
        Err(cause) => Err(ErrorModel::Io(CHECK_FILE@, cause)),
        Ok(true) => Ok(Some(path)),
        Ok(false) => match legacy {
            None => Ok(None),
            Some(legacy_path) => match legacy_check {
                Err(cause) => Err(ErrorModel::Io(CHECK_LEGACY_FILE@, cause)),
                Ok(true) => Ok(Some(legacy_path)),
                Ok(false) => Ok(None),
            },
        },
    }
}

/// The settings that are loaded: the defaults where there is no file.
pub open spec fn loaded_settings(
    existing: Result<Option<Seq<char>>, ErrorModel>,
    read: ReadModel,
    defaults: SettingsModel,
) -> Result<SettingsModel, ErrorModel> {
    match existing {
        Err(error) => Err(error),
        Ok(None) => Ok(defaults),
        Ok(Some(_)) => match read {
            ReadModel::NotFound => Ok(defaults),
            ReadModel::Failed(cause) => Err(ErrorModel::Io(READ_FILE@, cause)),
            ReadModel::Unparsable(cause) => Err(ErrorModel::Ui(PARSE_FILE@, cause)),
            ReadModel::Parsed(config) => match file::file_problem(config) {
                Some(problem) => Err(problem),
                None => Ok(file::settings_of(config)),
            },
        },
    }
}

/// A file as text, or why there is none, as a value.
pub open spec fn encoded_model(encoded: Result<String, String>) -> Result<Seq<char>, Seq<char>> {
    match encoded {
        Ok(content) => Ok(content@),
        Err(cause) => Err(cause@),
    }
}

/// Where the settings are kept.
#[derive(Clone, Debug)]
pub struct ConfigStore {
    path: String,
    legacy_load_path: Option<String>,
}

/// A settings file that is to be written.
#[derive(Debug)]
pub struct CommandPanelSaveRequest {
    path: String,
    config: ConfigFile,
}

impl CommandPanelSaveRequest {
    pub closed spec fn target(&self) -> Seq<char> {
        self.path@
    }

    pub closed spec fn file(&self) -> FileModel {
        self.config@
    }

    pub fn config(&self) -> (config: &ConfigFile)
        ensures
            config@ == self.file(),
    {
        &self.config
    }

    /// Begins to write the file; `encoded` is its content as text, or why
    /// there is none.
    pub fn save(self, encoded: Result<String, String>, process: u32) -> (write: AppResult<
        SettingsWrite,
    >)
        ensures
            save_outcome(
                write,
                self.target(),
                encoded_model(encoded),
                process as nat,
            ),
    {
        match encoded {
            Ok(content) => SettingsWrite::new(self.path, content, process),
            Err(cause) => Err(AppError::ui_message(SERIALIZE_FILE, cause)),
        }
    }
}

/// Whether a write is that of an encoded content to a path, or the right error
/// has come.
pub open spec fn save_outcome(
    write: AppResult<SettingsWrite>,
    path: Seq<char>,
    encoded: Result<Seq<char>, Seq<char>>,
    process: nat,
) -> bool {
    match encoded {
        Err(cause) => write is Err && (write->Err_0)@ == ErrorModel::Ui(SERIALIZE_FILE@, cause),
        Ok(content) => if paths::file_name_of(path) is None {
            write is Err && (write->Err_0)@ == ErrorModel::InvalidState(NO_FILE_NAME@)
        } else {
            write is Ok && (write->Ok_0).wf() && (write->Ok_0)@ == WriteModel::begun(
                path,
                content,
                process,
            )
        },
    }
}

/// Whether an encoder gave this text, or this failure, for a file.
pub open spec fn encodes<E: FnOnce(&ConfigFile) -> Result<String, String>>(
    encode: E,
    config: FileModel,
    encoded: Result<Seq<char>, Seq<char>>,
) -> bool {
    exists|given: ConfigFile, text: Result<String, String>|
        {
            &&& given@ == config
            &&& #[trigger] encode.ensures((&given,), text)
            &&& encoded == encoded_model(text)
        }
}

impl ConfigStore {
    pub closed spec fn spec_path(&self) -> Seq<char> {
        self.path@
    }

    pub closed spec fn spec_legacy(&self) -> Option<Seq<char>> {
        match self.legacy_load_path {
            Some(path) => Some(path@),
            None => None,
        }
    }

    /// The store at a path, with another file to load from where that one is
    /// missing.
    pub fn at_path(path: String, legacy_load_path: Option<String>) -> (store: Self)
        ensures
            store.spec_path() == path@,
            store.spec_legacy() == match legacy_load_path {
                Some(legacy) => Some(legacy@),
                None => None::<Seq<char>>,
            },
    {
        ConfigStore { path, legacy_load_path }
    }

    /// The store beside the running executable; `executable` is its path, or
    /// why it is not known.
    pub fn from_current_exe(executable: Result<String, String>) -> (store: AppResult<Self>)
        ensures
            match executable {
                Err(cause) => store is Err && (store->Err_0)@ == ErrorModel::Io(
                    RESOLVE_EXECUTABLE@,
                    cause@,
                ),
                Ok(path) => match settings_path_of(path@) {
                    Ok(settings_path) => {
                        &&& store is Ok
                        &&& (store->Ok_0).spec_path() == settings_path
                        &&& (store->Ok_0).spec_legacy() is None
                    },
                    Err(error) => store is Err && (store->Err_0)@ == error,
                },
            },
    {
        let executable_path = match executable {
            Ok(path) => path,
            Err(cause) => return Err(AppError::io(RESOLVE_EXECUTABLE, cause)),
        };
        let path = match default_settings_path(executable_path.as_str()) {
            Ok(path) => path,
            Err(error) => return Err(error),
        };
        let legacy = match legacy_settings_path_for_executable(executable_path.as_str()) {
            Ok(legacy) => legacy,
            Err(error) => return Err(error),
        };
        let legacy_load_path = if text::text_equal(legacy.as_str(), path.as_str()) {
            None
        } else {
            Some(legacy)
        };
        Ok(ConfigStore { path, legacy_load_path })
    }

    pub fn path(&self) -> (path: &str)
        ensures
            path@ == self.spec_path(),
    {
        self.path.as_str()
    }

    pub fn legacy_load_path(&self) -> (path: Option<&str>)
        ensures
            path is Some == self.spec_legacy() is Some,
            path is Some ==> (path->0)@ == self.spec_legacy()->0,
    {
        match &self.legacy_load_path {
            Some(path) => Some(path.as_str()),
            None => None,
        }
    }

    /// Which file is read, given what the checks for the two files said.
    pub fn existing_settings_file_path(
        &self,
        primary_check: Result<bool, String>,
        legacy_check: Result<bool, String>,
    ) -> (existing: AppResult<Option<&str>>)
        ensures
            match existing_path(
                self.spec_path(),
                self.spec_legacy(),
                check_model(primary_check),
                check_model(legacy_check),
            ) {
                Ok(Some(path)) => existing is Ok && existing->Ok_0 is Some && (existing->Ok_0->0)@
                    == path,
                Ok(None) => existing is Ok && existing->Ok_0 is None,
                Err(error) => existing is Err && (existing->Err_0)@ == error,
            },
    {
        match primary_check {
            Ok(true) => Ok(Some(self.path.as_str())),
            Ok(false) => match &self.legacy_load_path {
                Some(path) => match legacy_check {
                    Ok(true) => Ok(Some(path.as_str())),
                    Ok(false) => Ok(None),
                    Err(cause) => Err(AppError::io(CHECK_LEGACY_FILE, cause)),
                },
                None => Ok(None),
            },
            Err(cause) => Err(AppError::io(CHECK_FILE, cause)),
        }
    }

    /// The settings in the file that was found, the defaults where none was.
    pub fn load_settings_or_default(
        &self,
        primary_check: Result<bool, String>,
        legacy_check: Result<bool, String>,
        read: SettingsRead,
        defaults: AppSettings,
    ) -> (settings: AppResult<AppSettings>)
        ensures
            match loaded_settings(
                existing_path(
                    self.spec_path(),
                    self.spec_legacy(),
                    check_model(primary_check),
                    check_model(legacy_check),
                ),
                read@,
                defaults@,
            ) {
                Ok(loaded) => settings is Ok && (settings->Ok_0)@ == loaded,
                Err(error) => settings is Err && (settings->Err_0)@ == error,
            },
            defaults@.panel.valid() && settings is Ok ==> (settings->Ok_0)@.panel.valid(),
    {
        match self.existing_settings_file_path(primary_check, legacy_check) {
            Ok(Some(_)) => match read {
                SettingsRead::NotFound => Ok(defaults),
                SettingsRead::Failed(cause) => Err(AppError::io(READ_FILE, cause)),
                SettingsRead::Unparsable(cause) => Err(AppError::ui_message(PARSE_FILE, cause)),
                SettingsRead::Parsed(config) => config.into_app_settings(),
            },
            Ok(None) => Ok(defaults),
            Err(error) => Err(error),
        }
    }

    /// The panel in the file that was found, the default one where none was.
    pub fn load_or_default(
        &self,
        primary_check: Result<bool, String>,
        legacy_check: Result<bool, String>,
        read: SettingsRead,
        defaults: AppSettings,
    ) -> (panel: AppResult<CommandPanel>)
        ensures
            match loaded_settings(
                existing_path(
                    self.spec_path(),
                    self.spec_legacy(),
                    check_model(primary_check),
                    check_model(legacy_check),
                ),
                read@,
                defaults@,
            ) {
                Ok(loaded) => panel is Ok && (panel->Ok_0)@ == loaded.panel,
                Err(error) => panel is Err && (panel->Err_0)@ == error,
            },
    {
        match self.load_settings_or_default(primary_check, legacy_check, read, defaults) {
            Ok(settings) => Ok(settings.command_panel),
            Err(error) => Err(error),
        }
    }

    /// The file that keeps a panel, to be written to this store.
    pub fn prepare_command_panel_save(
        &self,
        command_panel: &CommandPanel,
        default_font: &TerminalFont,
    ) -> (request: CommandPanelSaveRequest)
        ensures
            request.target() == self.spec_path(),
            request.file() == file::file_of(
                SettingsModel { panel: command_panel@, font: default_font@ },
            ),
    {
        CommandPanelSaveRequest {
            path: self.path.clone(),
            config: ConfigFile::from_command_panel(command_panel, default_font),
        }
    }

    /// The file that keeps some settings, to be written to this store.
    pub fn prepare_settings_save(&self, settings: &AppSettings) -> (request: CommandPanelSaveRequest)
        ensures
            request.target() == self.spec_path(),
            request.file() == file::file_of(settings@),
    {
        CommandPanelSaveRequest {
            path: self.path.clone(),
            config: ConfigFile::from_app_settings(settings),
        }
    }

    /// Begins to save a panel; `encode` turns the file into text.
    pub fn save_command_panel<E: FnOnce(&ConfigFile) -> Result<String, String>>(
        &self,
        command_panel: &CommandPanel,
        default_font: &TerminalFont,
        encode: E,
        process: u32,
    ) -> (write: AppResult<SettingsWrite>)
        requires
            forall|config: ConfigFile| encode.requires((&config,)),
        ensures
            exists|encoded: Result<Seq<char>, Seq<char>>|
                {
                    &&& #[trigger] encodes(
                        encode,
                        file::file_of(
                            SettingsModel { panel: command_panel@, font: default_font@ },
                        ),
                        encoded,
                    )
                    &&& save_outcome(write, self.spec_path(), encoded, process as nat)
                },
    {
        let request = self.prepare_command_panel_save(command_panel, default_font);
        let config = request.config();
        let encoded = encode(config);
        proof {
            assert(encode.ensures((config,), encoded));
            assert(encodes(encode, request.file(), encoded_model(encoded)));
        }
        request.save(encoded, process)
    }

    /// Begins to save some settings; `encode` turns the file into text.
    pub fn save_settings<E: FnOnce(&ConfigFile) -> Result<String, String>>(
        &self,
        settings: &AppSettings,
        encode: E,
        process: u32,
    ) -> (write: AppResult<SettingsWrite>)
        requires
            forall|config: ConfigFile| encode.requires((&config,)),
        ensures
            exists|encoded: Result<Seq<char>, Seq<char>>|
                {
                    &&& #[trigger] encodes(encode, file::file_of(settings@), encoded)
                    &&& save_outcome(write, self.spec_path(), encoded, process as nat)
                },
    {
        let request = self.prepare_settings_save(settings);
        let config = request.config();
        let encoded = encode(config);
        proof {
            assert(encode.ensures((config,), encoded));
            assert(encodes(encode, request.file(), encoded_model(encoded)));
        }
        request.save(encoded, process)
    }
}

/// Settings are read from the store's own file where it exists, and from the earlier one only
/// where it does not; whether that one exists does not matter otherwise. Not knowing whether a
/// file exists that would be read is an error.
pub proof fn law_own_file_comes_first(
    path: Seq<char>,
    legacy: Option<Seq<char>>,
    primary_check: Result<bool, Seq<char>>,
    legacy_check: Result<bool, Seq<char>>,
)
    ensures
        ({
            let found = existing_path(path, legacy, primary_check, legacy_check);
            let absent = primary_check == Ok::<bool, Seq<char>>(false);
            &&& primary_check == Ok::<bool, Seq<char>>(true) ==> found == Ok::<
                Option<Seq<char>>,
                ErrorModel,
            >(Some(path))
            &&& primary_check is Err ==> found is Err
            &&& absent && legacy is None ==> found == Ok::<Option<Seq<char>>, ErrorModel>(None)
            &&& absent && legacy is Some && legacy_check == Ok::<bool, Seq<char>>(true) ==> found
                == Ok::<Option<Seq<char>>, ErrorModel>(legacy)
            &&& absent && legacy is Some && legacy_check == Ok::<bool, Seq<char>>(false) ==> found
                == Ok::<Option<Seq<char>>, ErrorModel>(None)
            &&& absent && legacy is Some && legacy_check is Err ==> found is Err
        }),
{
}

/// The defaults are used where there is no file, and only there: a file that cannot be read,
/// is no settings file or holds something that cannot be used is an error, and one that can
/// be used gives the settings that it holds.
pub proof fn law_defaults_stand_in_for_no_file(
    existing: Result<Option<Seq<char>>, ErrorModel>,
    read: ReadModel,
    defaults: SettingsModel,
)
    ensures
        ({
            let loaded = loaded_settings(existing, read, defaults);
            let there = existing is Ok && existing->Ok_0 is Some;
            &&& existing matches Err(error) ==> loaded == Err::<SettingsModel, ErrorModel>(error)
            &&& existing is Ok && existing->Ok_0 is None ==> loaded == Ok::<
                SettingsModel,
                ErrorModel,
            >(defaults)
            &&& there && read is NotFound ==> loaded == Ok::<SettingsModel, ErrorModel>(defaults)
            &&& there && (read is Failed || read is Unparsable) ==> loaded is Err
            &&& there && read is Parsed && file::file_problem(read->Parsed_0) is Some ==> loaded
                == Err::<SettingsModel, ErrorModel>(file::file_problem(read->Parsed_0)->0)
            &&& there && read is Parsed && file::file_problem(read->Parsed_0) is None ==> loaded
                == Ok::<SettingsModel, ErrorModel>(file::settings_of(read->Parsed_0))
        }),
{
}

/// Settings are kept beside the executable, in a file that is named like it but for the
/// extension; an executable without a name has none.
pub proof fn law_settings_are_beside_the_executable(executable: Seq<char>)
    ensures
        settings_path_of(executable) is Ok <==> paths::file_name_of(executable) is Some,
        settings_path_of(executable) matches Ok(path) ==> path == paths::extension_replaced(
            executable,
            "toml"@,
        ),
{
}

/// Settings are written where they could be encoded and the path names a file, and nowhere else:
/// the write is then of what they were encoded as.
pub proof fn law_encoded_settings_are_written(
    write: AppResult<SettingsWrite>,
    path: Seq<char>,
    encoded: Result<Seq<char>, Seq<char>>,
    process: nat,
)
    requires
        save_outcome(write, path, encoded, process),
    ensures
        write is Ok <==> encoded is Ok && paths::file_name_of(path) is Some,
        write matches Ok(begun) ==> begun@ == WriteModel::begun(path, encoded->Ok_0, process),
        encoded matches Err(cause) ==> (write->Err_0)@ == ErrorModel::Ui(SERIALIZE_FILE@, cause),
{
}

} // verus!
