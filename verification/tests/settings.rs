//! The settings file: where it is, what it holds, how it is loaded and saved.

use std::collections::BTreeMap;
use std::path::Path;

use j3term::config::file::{
    AppSettings, ConfigButton, ConfigCategory, ConfigFile, ConfigFont, CONFIG_VERSION,
};
use j3term::config::partial::{PartialButton, PartialCategory, PartialFile, PartialFont};
use j3term::config::store::{
    default_settings_path, executable_settings_path, legacy_settings_path_for_executable,
    ConfigStore, SettingsRead,
};
use j3term::config::write::{
    after_rename, begin_replace, ReplaceStep, SettingsWrite, StepOutcome, WriteStage,
};
use j3term::domain::command_button::{
    CommandArguments, CommandButtonDefinition, CommandCategoryDefinition,
};
use j3term::domain::command_panel::CommandPanel;
use j3term::domain::font::TerminalFont;
use j3term::error::{AppError, AppResult};

const PROCESS: u32 = 77;

fn button(label: &str, executable: &str, arguments: &str) -> AppResult<CommandButtonDefinition> {
    CommandButtonDefinition::new(
        label.to_string(),
        executable.to_string(),
        CommandArguments::new(arguments.to_string())?,
    )
}

fn category(
    name: &str,
    buttons: Vec<CommandButtonDefinition>,
) -> AppResult<CommandCategoryDefinition> {
    CommandCategoryDefinition::new(name.to_string(), buttons)
}

fn font() -> TerminalFont {
    TerminalFont::new("Mono".to_string(), 12).unwrap()
}

fn defaults() -> AppSettings {
    AppSettings {
        command_panel: CommandPanel::from_definitions(
            vec![category("Default", vec![button("list", "ls", "-l").unwrap()]).unwrap()],
            0,
        )
        .unwrap(),
        terminal_font: font(),
    }
}

fn one_button_panel(name: &str, label: &str, argument: &str) -> AppResult<CommandPanel> {
    CommandPanel::from_definitions(
        vec![category(name, vec![button(label, "echo", argument)?])?],
        0,
    )
}

fn path_text(directory: &str, name: &str) -> String {
    Path::new(directory).join(name).to_str().unwrap().to_string()
}

fn encode(config: &ConfigFile) -> Result<String, String> {
    let mut categories: Vec<toml::Value> = Vec::new();
    for category in &config.categories {
        let mut buttons: Vec<toml::Value> = Vec::new();
        for button in &category.buttons {
            let mut table = toml::Table::new();
            table.insert("label".to_string(), toml::Value::String(button.label.clone()));
            table.insert(
                "executable_path".to_string(),
                toml::Value::String(button.executable_path.clone()),
            );
            table.insert("arguments".to_string(), toml::Value::String(button.arguments.clone()));
            buttons.push(toml::Value::Table(table));
        }
        let mut table = toml::Table::new();
        table.insert("name".to_string(), toml::Value::String(category.name.clone()));
        table.insert("buttons".to_string(), toml::Value::Array(buttons));
        categories.push(toml::Value::Table(table));
    }
    let mut font = toml::Table::new();
    font.insert("family".to_string(), toml::Value::String(config.font.family.clone()));
    font.insert("size".to_string(), toml::Value::Integer(config.font.size as i64));
    let mut file = toml::Table::new();
    file.insert("version".to_string(), toml::Value::Integer(config.version as i64));
    file.insert(
        "selected_category".to_string(),
        toml::Value::Integer(config.selected_category as i64),
    );
    file.insert("categories".to_string(), toml::Value::Array(categories));
    file.insert("font".to_string(), toml::Value::Table(font));
    toml::to_string_pretty(&file).map_err(|error| error.to_string())
}

fn text_at(table: &toml::Value, key: &str) -> String {
    table.get(key).unwrap().as_str().unwrap().to_string()
}

fn decode(text: &str) -> SettingsRead {
    let file = match toml::from_str::<toml::Value>(text) {
        Ok(file) => file,
        Err(error) => return SettingsRead::Unparsable(error.to_string()),
    };
    let mut categories: Vec<ConfigCategory> = Vec::new();
    for category in file.get("categories").unwrap().as_array().unwrap() {
        let mut buttons: Vec<ConfigButton> = Vec::new();
        for button in category.get("buttons").unwrap().as_array().unwrap() {
            buttons.push(ConfigButton {
                label: text_at(button, "label"),
                executable_path: text_at(button, "executable_path"),
                arguments: text_at(button, "arguments"),
            });
        }
        categories.push(ConfigCategory { name: text_at(category, "name"), buttons });
    }
    let font = file.get("font").unwrap();
    SettingsRead::Parsed(ConfigFile {
        version: file.get("version").unwrap().as_integer().unwrap() as u32,
        selected_category: file.get("selected_category").unwrap().as_integer().unwrap() as usize,
        categories,
        font: ConfigFont {
            family: text_at(font, "family"),
            size: font.get("size").unwrap().as_integer().unwrap() as u16,
        },
    })
}

fn parsed(text: &str) -> ConfigFile {
    match decode(text) {
        SettingsRead::Parsed(config) => config,
        other => panic!("{:?}", other),
    }
}

/// Files and directories in memory.
struct Files {
    contents: BTreeMap<String, String>,
    directories: Vec<String>,
    fail_at: Option<WriteStage>,
}

impl Files {
    fn new() -> Self {
        Files { contents: BTreeMap::new(), directories: Vec::new(), fail_at: None }
    }

    fn perform(&mut self, write: &SettingsWrite) -> StepOutcome {
        if self.fail_at == Some(write.stage()) {
            return StepOutcome::Failed("forced failure".to_string());
        }
        let temporary = write.temporary_path();
        match write.stage() {
            WriteStage::CreateDirectory => self.directories.push(write.directory()),
            WriteStage::CreateTemporary => {
                if self.contents.contains_key(&temporary) {
                    return StepOutcome::AlreadyExists("exists".to_string());
                }
                self.contents.insert(temporary, String::new());
            }
            WriteStage::WriteContent => {
                self.contents.insert(temporary, write.content().to_string());
            }
            WriteStage::Replace => {
                let content = self.contents.remove(&temporary).unwrap();
                self.contents.insert(write.target_path().to_string(), content);
            }
            WriteStage::RemoveTemporary => {
                self.contents.remove(&temporary);
            }
            WriteStage::SyncContent | WriteStage::SyncDirectory | WriteStage::Finished => {}
        }
        StepOutcome::Done
    }

    fn run(&mut self, mut write: SettingsWrite) -> AppResult<()> {
        while write.stage() != WriteStage::Finished {
            let outcome = self.perform(&write);
            write.step(outcome);
        }
        write.finish()
    }

    fn holds(&self, path: &str) -> Result<bool, String> {
        Ok(self.contents.contains_key(path))
    }

    fn load(&self, store: &ConfigStore) -> AppResult<CommandPanel> {
        let legacy = store.legacy_load_path().unwrap_or("").to_string();
        let found = store
            .existing_settings_file_path(self.holds(store.path()), self.holds(&legacy))?
            .map(|path| path.to_string());
        let read = match found.and_then(|path| self.contents.get(&path)) {
            Some(text) => decode(text),
            None => SettingsRead::NotFound,
        };
        store.load_or_default(self.holds(store.path()), self.holds(&legacy), read, defaults())
    }
}

#[test]
fn executable_settings_path_uses_executable_directory_and_name_with_toml_extension(
) -> AppResult<()> {
    let executable = path_text("bin", "j3term.exe");

    assert_eq!(executable_settings_path(&executable)?, path_text("bin", "j3term.toml"));
    Ok(())
}

#[test]
fn default_settings_path_uses_executable_directory() -> AppResult<()> {
    let executable = path_text("/opt/j3term/bin", "j3term");

    assert_eq!(default_settings_path(&executable)?, path_text("/opt/j3term/bin", "j3term.toml"));
    Ok(())
}

#[test]
fn legacy_settings_path_uses_executable_directory() -> AppResult<()> {
    let executable = path_text("/opt/j3term/bin", "j3term");

    assert_eq!(
        legacy_settings_path_for_executable(&executable)?,
        path_text("/opt/j3term/bin", "j3term.toml")
    );
    Ok(())
}

#[test]
fn command_panel_round_trips_through_toml_config() -> AppResult<()> {
    let command_panel = CommandPanel::from_definitions(
        vec![
            category("Default", vec![button("echo hello", "echo", "hello")?])?,
            category("Tools", Vec::new())?,
        ],
        1,
    )?;

    let serialized = encode(&ConfigFile::from_command_panel(&command_panel, &font()))
        .map_err(|cause| AppError::ui_message("serialize settings file", cause))?;
    let loaded_panel = parsed(&serialized).into_command_panel()?;

    assert_eq!(
        loaded_panel.selected_category().map(|category| category.name.as_str()),
        Some("Tools")
    );
    assert_eq!(loaded_panel.categories()[0].buttons[0].label, "echo hello");
    assert_eq!(loaded_panel.categories()[0].buttons[0].arguments.value(), "hello");
    Ok(())
}

#[test]
fn app_settings_round_trips_font_through_toml_config() -> AppResult<()> {
    let settings = AppSettings {
        command_panel: CommandPanel::from_definitions(vec![category("Default", Vec::new())?], 0)?,
        terminal_font: TerminalFont::new("Fira Code".to_string(), 18)?,
    };

    let serialized = encode(&ConfigFile::from_app_settings(&settings))
        .map_err(|cause| AppError::ui_message("serialize settings file", cause))?;
    let loaded = parsed(&serialized).into_app_settings()?;

    assert_eq!(loaded.terminal_font.family(), "Fira Code");
    assert_eq!(loaded.terminal_font.size_points(), 18);
    Ok(())
}

#[test]
fn save_command_panel_replaces_existing_settings_file() -> AppResult<()> {
    let settings_path = path_text("/settings", "settings.toml");
    let store = ConfigStore::at_path(settings_path.clone(), None);
    let mut files = Files::new();
    files.contents.insert(settings_path.clone(), "not valid toml".to_string());

    let command_panel = one_button_panel("Default", "echo saved", "saved")?;

    files.run(store.save_command_panel(&command_panel, &font(), encode, PROCESS)?)?;
    let loaded_panel = files.load(&store)?;

    assert_eq!(loaded_panel.categories()[0].buttons[0].label, "echo saved");
    assert_eq!(files.contents.len(), 1);
    Ok(())
}

#[test]
fn save_command_panel_creates_missing_settings_directory() -> AppResult<()> {
    let settings_path = path_text("/settings", "settings.toml");
    let store = ConfigStore::at_path(settings_path.clone(), None);
    let mut files = Files::new();

    let command_panel = one_button_panel("Default", "echo saved", "saved")?;

    files.run(store.save_command_panel(&command_panel, &font(), encode, PROCESS)?)?;

    assert_eq!(files.directories, vec!["/settings".to_string()]);
    assert!(files.contents.contains_key(&settings_path));
    Ok(())
}

#[test]
fn write_settings_file_atomically_succeeds_when_directory_sync_fails_after_replace(
) -> AppResult<()> {
    let settings_path = path_text("/settings", "settings.toml");
    let mut files = Files::new();
    files.fail_at = Some(WriteStage::SyncDirectory);

    files.run(SettingsWrite::new(
        settings_path.clone(),
        "saved settings".to_string(),
        PROCESS,
    )?)?;

    assert_eq!(files.contents.get(&settings_path).map(|text| text.as_str()), Some("saved settings"));
    Ok(())
}

#[test]
fn load_or_default_returns_default_panel_without_creating_missing_settings_file() -> AppResult<()> {
    let store = ConfigStore::at_path(path_text("/settings", "settings.toml"), None);
    let files = Files::new();

    let loaded_panel = files.load(&store)?;
    let default_panel = defaults().command_panel;

    assert_eq!(
        loaded_panel.selected_category_index(),
        default_panel.selected_category_index()
    );
    assert_eq!(
        loaded_panel.categories()[0].name.as_str(),
        default_panel.categories()[0].name.as_str()
    );
    assert_eq!(
        loaded_panel.categories()[0].buttons.len(),
        default_panel.categories()[0].buttons.len()
    );
    assert!(files.contents.is_empty());
    Ok(())
}

#[test]
fn load_or_default_reads_legacy_settings_when_primary_is_missing() -> AppResult<()> {
    let settings_path = path_text("/primary", "settings.toml");
    let legacy_settings_path = path_text("/legacy", "settings.toml");
    let legacy_store = ConfigStore::at_path(legacy_settings_path.clone(), None);
    let store = ConfigStore::at_path(settings_path.clone(), Some(legacy_settings_path));
    let mut files = Files::new();
    let command_panel = one_button_panel("Legacy", "echo legacy", "legacy")?;
    files.run(legacy_store.save_command_panel(&command_panel, &font(), encode, PROCESS)?)?;

    let loaded_panel = files.load(&store)?;

    assert_eq!(loaded_panel.categories()[0].name, "Legacy");
    assert_eq!(loaded_panel.categories()[0].buttons[0].label, "echo legacy");
    assert!(!files.contents.contains_key(&settings_path));
    Ok(())
}

#[test]
fn executable_without_a_name_has_no_settings_path() {
    assert_eq!(
        executable_settings_path("/"),
        Err(AppError::InvalidState("executable file name is missing"))
    );
}

#[test]
fn store_is_beside_the_executable() -> AppResult<()> {
    let store = ConfigStore::from_current_exe(Ok("/opt/j3term/bin/j3term".to_string()))?;

    assert_eq!(store.path(), "/opt/j3term/bin/j3term.toml");
    assert_eq!(store.legacy_load_path(), None);
    assert_eq!(
        ConfigStore::from_current_exe(Err("gone".to_string())).unwrap_err(),
        AppError::io("resolve executable path", "gone".to_string())
    );
    Ok(())
}

#[test]
fn saved_settings_are_loaded_again() -> AppResult<()> {
    let settings = AppSettings {
        command_panel: CommandPanel::from_definitions(
            vec![
                category("One", vec![button("a", "b", "c")?, button("d", "e", "")?])?,
                category("Two", vec![button("f", "g", "h i")?])?,
            ],
            1,
        )?,
        terminal_font: TerminalFont::new("Fira Code".to_string(), 72)?,
    };
    let store = ConfigStore::at_path(path_text("/settings", "settings.toml"), None);
    let mut files = Files::new();

    files.run(store.save_settings(&settings, encode, PROCESS)?)?;
    let text = files.contents.get(store.path()).unwrap().clone();
    let loaded =
        store.load_settings_or_default(Ok(true), Ok(false), decode(&text), defaults())?;

    assert_eq!(loaded.command_panel, settings.command_panel);
    assert_eq!(loaded.terminal_font, settings.terminal_font);
    assert_eq!(encode(&ConfigFile::from_app_settings(&loaded)), Ok(text));
    Ok(())
}

#[test]
fn prepared_save_holds_the_file_of_its_store() -> AppResult<()> {
    let store = ConfigStore::at_path(path_text("/settings", "settings.toml"), None);
    let settings = defaults();
    let request = store.prepare_settings_save(&settings);

    assert_eq!(request.config(), &ConfigFile::from_app_settings(&settings));
    let write = request.save(Ok("text".to_string()), PROCESS)?;
    assert_eq!(write.target_path(), "/settings/settings.toml");
    assert_eq!(write.content(), "text");
    assert_eq!(write.temporary_path(), "/settings/.settings.toml.77.0.new");

    let request = store.prepare_command_panel_save(&settings.command_panel, &font());
    assert_eq!(request.config().font.family, "Mono");
    assert_eq!(
        request.save(Err("no text".to_string()), PROCESS).unwrap_err(),
        AppError::ui_message("serialize settings file", "no text".to_string())
    );
    assert_eq!(
        ConfigStore::at_path("/".to_string(), None)
            .prepare_settings_save(&settings)
            .save(Ok(String::new()), PROCESS)
            .unwrap_err(),
        AppError::InvalidState("settings file name is missing")
    );
    Ok(())
}

#[test]
fn settings_are_checked_when_they_are_loaded() {
    let store = ConfigStore::at_path("settings.toml".to_string(), Some("old.toml".to_string()));
    let load = |primary: Result<bool, String>, legacy: Result<bool, String>, read: SettingsRead| {
        store.load_settings_or_default(primary, legacy, read, defaults()).unwrap_err()
    };
    let file = || ConfigFile::from_app_settings(&defaults());

    assert_eq!(
        load(Err("denied".to_string()), Ok(false), SettingsRead::NotFound),
        AppError::io("check settings file", "denied".to_string())
    );
    assert_eq!(
        load(Ok(false), Err("denied".to_string()), SettingsRead::NotFound),
        AppError::io("check legacy settings file", "denied".to_string())
    );
    assert_eq!(
        load(Ok(true), Ok(false), SettingsRead::Failed("torn".to_string())),
        AppError::io("read settings file", "torn".to_string())
    );
    assert_eq!(
        load(Ok(true), Ok(false), SettingsRead::Unparsable("line 1".to_string())),
        AppError::ui_message("parse settings file", "line 1".to_string())
    );
    let mut config = file();
    config.version = CONFIG_VERSION + 1;
    assert_eq!(
        load(Ok(true), Ok(false), SettingsRead::Parsed(config)),
        AppError::InvalidInput("unsupported settings file version")
    );
    let mut config = file();
    config.selected_category = 1;
    assert_eq!(
        load(Ok(true), Ok(false), SettingsRead::Parsed(config)),
        AppError::InvalidInput("unknown command category")
    );
    let mut config = file();
    config.font.size = 5;
    assert_eq!(
        load(Ok(true), Ok(false), SettingsRead::Parsed(config)),
        AppError::InvalidInput("font size must be between 6 and 72 points")
    );
    let mut config = file();
    config.categories[0].buttons[0].arguments = "two\nlines".to_string();
    assert_eq!(
        load(Ok(true), Ok(false), SettingsRead::Parsed(config)),
        AppError::InvalidInput("command arguments must not contain line breaks")
    );
    let mut config = file();
    config.categories[0].name = String::new();
    assert_eq!(
        load(Ok(true), Ok(false), SettingsRead::Parsed(config)),
        AppError::InvalidInput("command category name must be a single line")
    );
}

#[test]
fn file_that_is_gone_between_check_and_read_means_defaults() -> AppResult<()> {
    let store = ConfigStore::at_path("settings.toml".to_string(), None);
    let loaded =
        store.load_settings_or_default(Ok(true), Ok(false), SettingsRead::NotFound, defaults())?;

    assert_eq!(loaded.command_panel, defaults().command_panel);
    Ok(())
}

#[test]
fn write_takes_another_name_where_one_is_taken() -> AppResult<()> {
    let mut files = Files::new();
    files.contents.insert("/d/.s.toml.77.0.new".to_string(), "other".to_string());
    files.contents.insert("/d/.s.toml.77.1.new".to_string(), "other".to_string());
    let mut write = SettingsWrite::new("/d/s.toml".to_string(), "new".to_string(), PROCESS)?;
    write.step(StepOutcome::Done);
    let first = files.perform(&write);
    write.step(first);
    let second = files.perform(&write);
    write.step(second);

    assert_eq!(write.temporary_path(), "/d/.s.toml.77.2.new");
    files.run(write)?;
    assert_eq!(files.contents.get("/d/s.toml").unwrap(), "new");
    assert_eq!(files.contents.len(), 3);
    Ok(())
}

#[test]
fn write_gives_up_when_all_names_are_taken() -> AppResult<()> {
    let mut write = SettingsWrite::new("s.toml".to_string(), "new".to_string(), PROCESS)?;
    assert_eq!(write.directory(), ".");
    write.step(StepOutcome::Done);
    for _ in 0..99 {
        write.step(StepOutcome::AlreadyExists("taken".to_string()));
        assert_eq!(write.stage(), WriteStage::CreateTemporary);
    }
    write.step(StepOutcome::AlreadyExists("taken".to_string()));

    assert_eq!(write.stage(), WriteStage::Finished);
    assert_eq!(
        write.finish(),
        Err(AppError::io(
            "create temporary settings file",
            "temporary settings file path already exists".to_string()
        ))
    );
    Ok(())
}

#[test]
fn failed_write_leaves_the_settings_file_and_no_other() -> AppResult<()> {
    for (stage, operation) in [
        (WriteStage::CreateDirectory, "create settings directory"),
        (WriteStage::CreateTemporary, "create temporary settings file"),
        (WriteStage::WriteContent, "write temporary settings file"),
        (WriteStage::SyncContent, "sync temporary settings file"),
        (WriteStage::Replace, "replace settings file"),
    ] {
        let mut files = Files::new();
        files.contents.insert("/d/s.toml".to_string(), "old".to_string());
        files.fail_at = Some(stage);
        let write = SettingsWrite::new("/d/s.toml".to_string(), "new".to_string(), PROCESS)?;

        assert_eq!(
            files.run(write),
            Err(AppError::io(operation, "forced failure".to_string()))
        );
        assert_eq!(files.contents.len(), 1);
        assert_eq!(files.contents.get("/d/s.toml").unwrap(), "old");
    }
    Ok(())
}

#[test]
fn file_that_exists_is_replaced_and_another_is_renamed() {
    assert_eq!(begin_replace(Ok(true)), ReplaceStep::ReplaceExisting);
    assert_eq!(begin_replace(Ok(false)), ReplaceStep::Rename);
    assert_eq!(begin_replace(Err("e".to_string())), ReplaceStep::Fail("e".to_string()));
    assert_eq!(after_rename(Ok(()), Ok(false)), ReplaceStep::Done);
    assert_eq!(after_rename(Err("e".to_string()), Ok(true)), ReplaceStep::ReplaceExisting);
    assert_eq!(
        after_rename(Err("e".to_string()), Err("f".to_string())),
        ReplaceStep::Fail("e".to_string())
    );
}

fn partial_file(text: &str) -> AppResult<PartialFile> {
    let file = toml::from_str::<toml::Value>(text)
        .map_err(|source| AppError::ui_message("parse settings file", source.to_string()))?;
    let texts = |table: &toml::Value, key: &str| {
        table.get(key).map(|value| value.as_str().unwrap().to_string())
    };
    let number = |table: &toml::Value, key: &str| {
        table.get(key).map(|value| value.as_integer().unwrap())
    };
    let button = |table: &toml::Value| PartialButton {
        label: text_at(table, "label"),
        executable_path: text_at(table, "executable_path"),
        arguments: texts(table, "arguments"),
    };
    let category = |table: &toml::Value| PartialCategory {
        name: text_at(table, "name"),
        buttons: table
            .get("buttons")
            .map(|buttons| buttons.as_array().unwrap().iter().map(button).collect()),
    };
    Ok(PartialFile {
        version: number(&file, "version").map(|version| version as u32),
        selected_category: number(&file, "selected_category").map(|index| index as usize),
        categories: file
            .get("categories")
            .map(|categories| categories.as_array().unwrap().iter().map(category).collect()),
        font: file.get("font").map(|font| PartialFont {
            family: texts(font, "family"),
            size: number(font, "size").map(|size| size as u16),
        }),
    })
}

#[test]
fn config_without_font_uses_default_terminal_font() -> AppResult<()> {
    let loaded = partial_file(
        r#"
version = 1
selected_category = 0

[[categories]]
name = "Default"
"#,
    )?
    .complete(&font());

    let loaded = loaded.into_app_settings()?;

    assert_eq!(loaded.terminal_font, font());
    Ok(())
}

#[test]
fn fields_that_are_missing_have_their_defaults() -> AppResult<()> {
    let empty = partial_file("")?.complete(&font());
    assert_eq!(empty.version, CONFIG_VERSION);
    assert_eq!(empty.selected_category, 0);
    assert!(empty.categories.is_empty());
    assert_eq!(empty.into_app_settings()?.terminal_font, font());

    let some = partial_file(
        r#"
version = 3

[font]
size = 20

[[categories]]
name = "Default"

[[categories.buttons]]
label = "list"
executable_path = "ls"
"#,
    )?
    .complete(&font());
    assert_eq!(some.version, 3);
    assert_eq!(some.font, ConfigFont { family: "Mono".to_string(), size: 20 });
    assert_eq!(
        some.categories[0].buttons,
        vec![ConfigButton {
            label: "list".to_string(),
            executable_path: "ls".to_string(),
            arguments: String::new(),
        }]
    );
    assert_eq!(
        some.into_app_settings().unwrap_err(),
        AppError::InvalidInput("unsupported settings file version")
    );
    Ok(())
}

#[test]
fn saving_twice_keeps_the_second_text_and_other_files() -> AppResult<()> {
    let store = ConfigStore::at_path("/d/s.toml".to_string(), Some("/d/old.toml".to_string()));
    let mut files = Files::new();
    files.contents.insert("/d/old.toml".to_string(), "not valid toml".to_string());
    let first = one_button_panel("A rather long first category", "echo first", "first")?;
    let second = one_button_panel("B", "echo second", "second")?;

    files.run(store.save_command_panel(&first, &font(), encode, PROCESS)?)?;
    assert_eq!(files.load(&store)?.categories()[0].name, "A rather long first category");
    files.run(store.save_command_panel(&second, &font(), encode, PROCESS)?)?;

    let loaded = files.load(&store)?;
    assert_eq!(loaded.categories().len(), 1);
    assert_eq!(loaded.categories()[0].name, "B");
    assert_eq!(loaded.categories()[0].buttons[0].label, "echo second");
    assert_eq!(files.contents.len(), 2);
    assert_eq!(files.contents.get("/d/old.toml").unwrap(), "not valid toml");
    Ok(())
}
