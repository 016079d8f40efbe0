//! What the settings file holds.

use vstd::prelude::*;

use crate::domain::command_button::{
    self, ButtonModel, CategoryDefinitionModel, CategoryModel, CommandArguments, CommandButton,
    CommandButtonDefinition, CommandCategory, CommandCategoryDefinition, PlacedButton,
    ARGUMENTS_MESSAGE, CATEGORY_MESSAGE, EXECUTABLE_MESSAGE, LABEL_MESSAGE,
};
use crate::domain::command_panel::{
    self, CommandPanel, PanelModel, TOO_MANY_BUTTONS, UNKNOWN_CATEGORY,
};
use crate::domain::font::{FontModel, TerminalFont, FONT_FAMILY_MESSAGE, FONT_SIZE_MESSAGE};
use crate::domain::layout::CommandButtonId;
use crate::error::{AppError, AppResult, ErrorModel};
use crate::text;

verus! {

pub const CONFIG_VERSION: u32 = 1;

pub const VERSION_MESSAGE: &'static str = "unsupported settings file version";

/// What is kept between two runs.
#[derive(Clone, Debug)]
pub struct AppSettings {
    pub command_panel: CommandPanel,
    pub terminal_font: TerminalFont,
}

/// Settings as a value.
#[verifier::ext_equal]
pub struct SettingsModel {
    pub panel: PanelModel,
    pub font: FontModel,
}

impl View for AppSettings {
    type V = SettingsModel;

    open spec fn view(&self) -> SettingsModel {
        SettingsModel { panel: self.command_panel@, font: self.terminal_font@ }
    }
}

#[derive(Clone, Debug, PartialEq, Eq)]
pub struct ConfigFont {
    pub family: String,
    pub size: u16,
}

impl View for ConfigFont {
    type V = FontModel;

    open spec fn view(&self) -> FontModel {
        FontModel { family: self.family@, size: self.size as int }
    }
}

impl ConfigFont {
    pub fn from_terminal_font(font: &TerminalFont) -> (config: Self)
        ensures
            config@ == font@,
    {
        ConfigFont { family: font.family().to_owned(), size: font.size_points() }
    }

    pub fn into_terminal_font(self) -> (font: AppResult<TerminalFont>)
        ensures
            font is Ok == self@.valid(),
            font is Ok ==> (font->Ok_0)@ == self@,
            font is Err ==> (font->Err_0)@ == font_problem(self@),
    {
        TerminalFont::new(self.family, self.size)
    }
}

/// What is wrong with a font that is not acceptable.
pub open spec fn font_problem(font: FontModel) -> ErrorModel {
    ErrorModel::InvalidInput(
        if font.family.len() == 0 {
            FONT_FAMILY_MESSAGE@
        } else {
            FONT_SIZE_MESSAGE@
        },
    )
}

#[derive(Clone, Debug, PartialEq, Eq)]
pub struct ConfigButton {
    pub label: String,
    pub executable_path: String,
    pub arguments: String,
}

impl View for ConfigButton {
    type V = ButtonModel;

    open spec fn view(&self) -> ButtonModel {
        ButtonModel {
            label: self.label@,
            executable_path: self.executable_path@,
            arguments: self.arguments@,
        }
    }
}

/// What is wrong with a button's definition, if anything is.
pub open spec fn button_problem(button: ButtonModel) -> Option<ErrorModel> {
    if !text::one_line(button.arguments) {
        Some(ErrorModel::InvalidInput(ARGUMENTS_MESSAGE@))
    } else if !command_button::names(button.label) {
        Some(ErrorModel::InvalidInput(LABEL_MESSAGE@))
    } else if !command_button::names(button.executable_path) {
        Some(ErrorModel::InvalidInput(EXECUTABLE_MESSAGE@))
    } else {
        None
    }
}

impl ConfigButton {
    pub fn from_command_button(button: &CommandButton) -> (config: Self)
        ensures
            config@ == button@.button,
    {
        ConfigButton {
            label: button.label.clone(),
            executable_path: button.executable_path.clone(),
            arguments: button.arguments.value().to_owned(),
        }
    }

    pub fn into_definition(self) -> (definition: AppResult<CommandButtonDefinition>)
        ensures
            definition is Ok == button_problem(self@) is None,
            definition is Ok ==> (definition->Ok_0)@ == self@,
            definition is Err ==> button_problem(self@) == Some((definition->Err_0)@),
    {
        match CommandArguments::new(self.arguments) {
            Ok(arguments) => CommandButtonDefinition::new(
                self.label,
                self.executable_path,
                arguments,
            ),
            Err(error) => Err(error),
        }
    }
}

#[derive(Clone, Debug, PartialEq, Eq)]
pub struct ConfigCategory {
    pub name: String,
    pub buttons: Vec<ConfigButton>,
}

pub open spec fn config_buttons(buttons: Seq<ConfigButton>) -> Seq<ButtonModel> {
    buttons.map_values(|button: ConfigButton| button@)
}

impl View for ConfigCategory {
    type V = CategoryDefinitionModel;

    open spec fn view(&self) -> CategoryDefinitionModel {
        CategoryDefinitionModel { name: self.name@, buttons: config_buttons(self.buttons@) }
    }
}

/// What is wrong with the first of some buttons with which anything is.
pub open spec fn buttons_problem(buttons: Seq<ButtonModel>) -> Option<ErrorModel>
    decreases buttons.len(),
{
    if buttons.len() == 0 {
        None
    } else {
        match buttons_problem(buttons.drop_last()) {
            Some(problem) => Some(problem),
            None => button_problem(buttons.last()),
        }
    }
}

/// What is wrong with a category: with its first bad button, else with its
/// name.
pub open spec fn category_problem(category: CategoryDefinitionModel) -> Option<ErrorModel> {
    match buttons_problem(category.buttons) {
        Some(problem) => Some(problem),
        None => if command_button::names(category.name) {
            None
        } else {
            Some(ErrorModel::InvalidInput(CATEGORY_MESSAGE@))
        },
    }
}

/// A problem among the first buttons is one of all of them.
proof fn lemma_buttons_problem(buttons: Seq<ButtonModel>, part: int)
    requires
        0 <= part <= buttons.len(),
        buttons_problem(buttons.take(part)) is Some,
    ensures
        buttons_problem(buttons) == buttons_problem(buttons.take(part)),
    decreases buttons.len() - part,
{
    if part == buttons.len() {
        assert(buttons.take(part) =~= buttons);
    } else {
        assert(buttons.take(part + 1).drop_last() =~= buttons.take(part));
        lemma_buttons_problem(buttons, part + 1);
    }
}

/// A category without its buttons' ids.
pub open spec fn definition_of(category: CategoryModel) -> CategoryDefinitionModel {
    CategoryDefinitionModel {
        name: category.name,
        buttons: category.buttons.map_values(|placed: PlacedButton| placed.button),
    }
}

impl ConfigCategory {
    pub fn from_command_category(category: &CommandCategory) -> (config: Self)
        ensures
            config@ == definition_of(category@),
    {
        let mut buttons: Vec<ConfigButton> = Vec::new();
        let mut index: usize = 0;
        while index < category.buttons.len()
            invariant
                index <= category.buttons@.len(),
                buttons@.len() == index,
                forall|i: int|
                    0 <= i < index ==> (#[trigger] buttons@[i])@ == category.buttons@[i]@.button,
            decreases category.buttons@.len() - index,
        {
            buttons.push(ConfigButton::from_command_button(&category.buttons[index]));
            index += 1;
        }
        let config = ConfigCategory { name: category.name.clone(), buttons };
        assert(config@.buttons =~= definition_of(category@).buttons);
        config
    }

    pub fn into_definition(self) -> (definition: AppResult<CommandCategoryDefinition>)
        ensures
            definition is Ok == category_problem(self@) is None,
            definition is Ok ==> (definition->Ok_0)@ == self@,
            definition is Err ==> category_problem(self@) == Some((definition->Err_0)@),
    {
        let ghost models = config_buttons(self.buttons@);
        let ghost all = self.buttons@;
        let name = self.name;
        let mut buttons: Vec<CommandButtonDefinition> = Vec::new();
        for button in iter: self.buttons
            invariant
                iter.seq() == all,
                models == config_buttons(all),
                self@.buttons == models,
                buttons@.len() == iter.index(),
                forall|i: int| 0 <= i < buttons@.len() ==> (#[trigger] buttons@[i])@ == models[i],
                buttons_problem(models.take(iter.index() as int)) is None,
        {
            let ghost index = buttons@.len() as int;
            proof {
                assert(models.take(index + 1).drop_last() =~= models.take(index));
                assert(models.take(index + 1).last() == button@);
            }
            match button.into_definition() {
                Ok(definition) => buttons.push(definition),
                Err(error) => {
                    proof {
                        lemma_buttons_problem(models, index + 1);
                    }
                    return Err(error);
                },
            }
        }
        proof {
            assert(models.take(models.len() as int) =~= models);
            assert(buttons@.map_values(|button: CommandButtonDefinition| button@) =~= models);
        }
        CommandCategoryDefinition::new(name, buttons)
    }
}

/// The settings file.
#[derive(Clone, Debug, PartialEq, Eq)]
pub struct ConfigFile {
    pub version: u32,
    pub selected_category: usize,
    pub categories: Vec<ConfigCategory>,
    pub font: ConfigFont,
}

/// The settings file as a value.
#[verifier::ext_equal]
pub struct FileModel {
    pub version: int,
    pub selected: int,
    pub categories: Seq<CategoryDefinitionModel>,
    pub font: FontModel,
}

pub open spec fn config_categories(categories: Seq<ConfigCategory>) -> Seq<CategoryDefinitionModel> {
    categories.map_values(|category: ConfigCategory| category@)
}

impl View for ConfigFile {
    type V = FileModel;

    open spec fn view(&self) -> FileModel {
        FileModel {
            version: self.version as int,
            selected: self.selected_category as int,
            categories: config_categories(self.categories@),
            font: self.font@,
        }
    }
}

/// The categories of a panel without their buttons' ids.
pub open spec fn definitions_of(panel: PanelModel) -> Seq<CategoryDefinitionModel> {
    panel.categories.map_values(|category: CategoryModel| definition_of(category))
}

/// The file that keeps some settings.
pub open spec fn file_of(settings: SettingsModel) -> FileModel {
    FileModel {
        version: CONFIG_VERSION as int,
        selected: match settings.panel.selected {
            Some(index) => index,
            None => 0,
        },
        categories: definitions_of(settings.panel),
        font: settings.font,
    }
}

/// What is wrong with the first of some categories with which anything is.
pub open spec fn categories_problem(categories: Seq<CategoryDefinitionModel>) -> Option<ErrorModel>
    decreases categories.len(),
{
    if categories.len() == 0 {
        None
    } else {
        match categories_problem(categories.drop_last()) {
            Some(problem) => Some(problem),
            None => category_problem(categories.last()),
        }
    }
}

/// What is wrong with a file, if anything is.
pub open spec fn file_problem(file: FileModel) -> Option<ErrorModel> {
    if file.version != CONFIG_VERSION {
        Some(ErrorModel::InvalidInput(VERSION_MESSAGE@))
    } else if categories_problem(file.categories) is Some {
        categories_problem(file.categories)
    } else if file.categories.len() > 0 && file.selected >= file.categories.len() {
        Some(ErrorModel::InvalidInput(UNKNOWN_CATEGORY@))
    } else if command_panel::button_count(file.categories) >= u64::MAX {
        Some(ErrorModel::InvalidInput(TOO_MANY_BUTTONS@))
    } else if !file.font.valid() {
        Some(font_problem(file.font))
    } else {
        None
    }
}

/// The settings that a file holds.
pub open spec fn settings_of(file: FileModel) -> SettingsModel {
    SettingsModel {
        panel: PanelModel {
            categories: command_panel::numbered(file.categories),
            selected: if file.categories.len() == 0 {
                None
            } else {
                Some(file.selected)
            },
            next_id: 1int + command_panel::button_count(file.categories),
        },
        font: file.font,
    }
}

/// A problem among the first categories is one of all of them.
proof fn lemma_categories_problem(categories: Seq<CategoryDefinitionModel>, part: int)
    requires
        0 <= part <= categories.len(),
        categories_problem(categories.take(part)) is Some,
    ensures
        categories_problem(categories) == categories_problem(categories.take(part)),
    decreases categories.len() - part,
{
    if part == categories.len() {
        assert(categories.take(part) =~= categories);
    } else {
        assert(categories.take(part + 1).drop_last() =~= categories.take(part));
        lemma_categories_problem(categories, part + 1);
    }
}

impl ConfigFile {
    /// The file that keeps a panel, with a font of its own.
    pub fn from_command_panel(command_panel: &CommandPanel, default_font: &TerminalFont) -> (file:
        Self)
        ensures
            file@ == file_of(SettingsModel { panel: command_panel@, font: default_font@ }),
    {
        Self::from_parts(command_panel, default_font)
    }

    /// The file that keeps some settings.
    pub fn from_app_settings(settings: &AppSettings) -> (file: Self)
        ensures
            file@ == file_of(settings@),
    {
        Self::from_parts(&settings.command_panel, &settings.terminal_font)
    }

    fn from_parts(command_panel: &CommandPanel, terminal_font: &TerminalFont) -> (file: Self)
        ensures
            file@ == file_of(SettingsModel { panel: command_panel@, font: terminal_font@ }),
    {
        let panel_categories = command_panel.categories();
        let mut categories: Vec<ConfigCategory> = Vec::new();
        let mut index: usize = 0;
        while index < panel_categories.len()
            invariant
                index <= panel_categories@.len(),
                categories@.len() == index,
                forall|i: int|
                    0 <= i < index ==> (#[trigger] categories@[i])@ == definition_of(
                        panel_categories@[i]@,
                    ),
            decreases panel_categories@.len() - index,
        {
            categories.push(ConfigCategory::from_command_category(&panel_categories[index]));
            index += 1;
        }
        let selected_category: usize = match command_panel.selected_category_index() {
            Some(selected) => selected,
            None => 0,
        };
        let file = ConfigFile {
            version: CONFIG_VERSION,
            selected_category,
            categories,
            font: ConfigFont::from_terminal_font(terminal_font),
        };
        proof {
            let ghost models = command_panel::category_models(panel_categories@);
            assert forall|i: int| 0 <= i < models.len() implies file@.categories[i]
                == definition_of(models[i]) by {
                assert(categories@[i]@ == definition_of(panel_categories@[i]@));
            }
            assert(file@.categories =~= definitions_of(command_panel@));
        }
        file
    }

    /// The panel that the file holds.
    pub fn into_command_panel(self) -> (panel: AppResult<CommandPanel>)
        ensures
            panel is Ok == file_problem(self@) is None,
            panel is Ok ==> (panel->Ok_0)@ == settings_of(self@).panel,
            panel is Err ==> file_problem(self@) == Some((panel->Err_0)@),
    {
        match self.into_app_settings() {
            Ok(settings) => Ok(settings.command_panel),
            Err(error) => Err(error),
        }
    }

    /// The settings that the file holds.
    pub fn into_app_settings(self) -> (settings: AppResult<AppSettings>)
        ensures
            settings is Ok == file_problem(self@) is None,
            settings is Ok ==> (settings->Ok_0)@ == settings_of(self@)
                && (settings->Ok_0).command_panel@.valid(),
            settings is Err ==> file_problem(self@) == Some((settings->Err_0)@),
    {
        if self.version != CONFIG_VERSION {
            return Err(AppError::InvalidInput(VERSION_MESSAGE));
        }
        let ghost models = config_categories(self.categories@);
        let ghost all = self.categories@;
        let selected = self.selected_category;
        let mut definitions: Vec<CommandCategoryDefinition> = Vec::new();
        for category in iter: self.categories
            invariant
                iter.seq() == all,
                models == config_categories(all),
                self@.categories == models,
                self@.version == CONFIG_VERSION,
                definitions@.len() == iter.index(),
                forall|i: int|
                    0 <= i < definitions@.len() ==> (#[trigger] definitions@[i])@ == models[i],
                categories_problem(models.take(iter.index() as int)) is None,
        {
            let ghost index = definitions@.len() as int;
            proof {
                assert(models.take(index + 1).drop_last() =~= models.take(index));
                assert(models.take(index + 1).last() == category@);
            }
            match category.into_definition() {
                Ok(definition) => definitions.push(definition),
                Err(error) => {
                    proof {
                        lemma_categories_problem(models, index + 1);
                    }
                    return Err(error);
                },
            }
        }
        proof {
            assert(models.take(models.len() as int) =~= models);
            assert(command_panel::definition_models(definitions@) =~= models);
        }
        let command_panel = match CommandPanel::from_definitions(definitions, selected) {
            Ok(panel) => panel,
            Err(error) => return Err(error),
        };
        match self.font.into_terminal_font() {
            Ok(terminal_font) => Ok(AppSettings { command_panel, terminal_font }),
            Err(error) => Err(error),
        }
    }
}

/// Numbering definitions keeps them.
proof fn lemma_numbered_definitions(categories: Seq<CategoryDefinitionModel>)
    ensures
        command_panel::numbered(categories).map_values(
            |category: CategoryModel| definition_of(category),
        ) =~= categories,
    decreases categories.len(),
{
    if categories.len() > 0 {
        let before = categories.drop_last();
        lemma_numbered_definitions(before);
        let first = 1int + command_panel::button_count(before);
        let last = command_panel::numbered_buttons(categories.last(), first);
        assert(definition_of(last).buttons =~= categories.last().buttons);
        let numbered = command_panel::numbered(categories);
        assert forall|i: int| 0 <= i < categories.len() implies definition_of(#[trigger] numbered[i])
            == categories[i] by {
            if i < before.len() {
                let mapped = command_panel::numbered(before).map_values(
                    |category: CategoryModel| definition_of(category),
                );
                assert(mapped[i] == before[i]);
            }
        }
    }
}

/// What is saved is what is loaded: the file that keeps some settings is
/// acceptable where their names and their font are, and holds the same
/// categories with the same buttons in the same order, the same selected
/// category and the same font.
pub proof fn law_saved_settings_are_loaded(settings: SettingsModel)
    requires
        settings.panel.selection_valid(),
        categories_problem(definitions_of(settings.panel)) is None,
        command_panel::button_count(definitions_of(settings.panel)) < u64::MAX,
        settings.font.valid(),
    ensures
        file_problem(file_of(settings)) is None,
        definitions_of(settings_of(file_of(settings)).panel) == definitions_of(settings.panel),
        settings_of(file_of(settings)).panel.selected == settings.panel.selected,
        settings_of(file_of(settings)).font == settings.font,
{
    lemma_numbered_definitions(definitions_of(settings.panel));
}

/// Loading and saving again does not change a file that could be loaded.
pub proof fn law_loaded_file_is_saved_unchanged(file: FileModel)
    requires
        file_problem(file) is None,
        file.categories.len() > 0 || file.selected == 0,
    ensures
        file_of(settings_of(file)) =~= file,
{
    lemma_numbered_definitions(file.categories);
}

/// Whether a button can be used: it has a name and a program, each a single line, and arguments
/// without line breaks.
pub open spec fn usable_button(button: ButtonModel) -> bool {
    &&& button.label.len() > 0 && text::one_line(button.label)
    &&& button.executable_path.len() > 0 && text::one_line(button.executable_path)
    &&& text::one_line(button.arguments)
}

/// Whether a category can be used: it has a name, which is a single line, and all its buttons
/// can be.
pub open spec fn usable_category(category: CategoryDefinitionModel) -> bool {
    &&& category.name.len() > 0 && text::one_line(category.name)
    &&& forall|i: int| 0 <= i < category.buttons.len() ==> usable_button(#[trigger] category.buttons[i])
}

/// There is nothing wrong with a button exactly where it can be used; what is wrong is told of
/// its arguments first, then of its name, then of its program.
pub proof fn law_usable_buttons_have_no_problem(button: ButtonModel)
    ensures
        button_problem(button) is None <==> usable_button(button),
        !text::one_line(button.arguments) ==> button_problem(button) == Some(
            ErrorModel::InvalidInput(ARGUMENTS_MESSAGE@),
        ),
        text::one_line(button.arguments) && !command_button::names(button.label)
            ==> button_problem(button) == Some(ErrorModel::InvalidInput(LABEL_MESSAGE@)),
{
}

/// There is nothing wrong with some buttons exactly where each of them can be used; otherwise
/// what is told is wrong with the first that cannot.
pub proof fn law_first_bad_button_is_told(buttons: Seq<ButtonModel>, i: int)
    ensures
        buttons_problem(buttons) is None <==> forall|j: int|
            0 <= j < buttons.len() ==> usable_button(#[trigger] buttons[j]),
        0 <= i < buttons.len() && !usable_button(buttons[i]) && (forall|j: int|
            0 <= j < i ==> usable_button(#[trigger] buttons[j])) ==> buttons_problem(buttons)
            == button_problem(buttons[i]),
    decreases buttons.len(),
{
    if buttons.len() > 0 {
        let rest = buttons.drop_last();
        law_first_bad_button_is_told(rest, i);
        law_usable_buttons_have_no_problem(buttons.last());
        assert(forall|j: int| 0 <= j < rest.len() ==> #[trigger] rest[j] == buttons[j]);
        if buttons_problem(rest) is None && usable_button(buttons.last()) {
            assert forall|j: int| 0 <= j < buttons.len() implies usable_button(
                #[trigger] buttons[j],
            ) by {
                if j < rest.len() {
                    assert(usable_button(rest[j]));
                }
            }
        }
        if forall|j: int| 0 <= j < buttons.len() ==> usable_button(#[trigger] buttons[j]) {
            assert(usable_button(buttons[buttons.len() - 1]));
            assert forall|j: int| 0 <= j < rest.len() implies usable_button(#[trigger] rest[j]) by {
                assert(usable_button(buttons[j]));
            }
        }
        if 0 <= i < buttons.len() {
            if i < rest.len() {
                if !usable_button(buttons[i]) {
                    assert(!usable_button(rest[i]));
                }
            } else if forall|j: int| 0 <= j < i ==> usable_button(#[trigger] buttons[j]) {
                assert forall|j: int| 0 <= j < rest.len() implies usable_button(
                    #[trigger] rest[j],
                ) by {
                    assert(usable_button(buttons[j]));
                }
            }
        }
    }
}

/// There is nothing wrong with some categories exactly where each of them can be used.
pub proof fn law_usable_categories_have_no_problem(categories: Seq<CategoryDefinitionModel>)
    ensures
        categories_problem(categories) is None <==> forall|i: int|
            0 <= i < categories.len() ==> usable_category(#[trigger] categories[i]),
    decreases categories.len(),
{
    if categories.len() > 0 {
        let rest = categories.drop_last();
        law_usable_categories_have_no_problem(rest);
        law_first_bad_button_is_told(categories.last().buttons, 0);
        assert(category_problem(categories.last()) is None <==> usable_category(categories.last()));
        assert(forall|i: int| 0 <= i < rest.len() ==> #[trigger] rest[i] == categories[i]);
        if categories_problem(categories) is None {
            assert forall|i: int| 0 <= i < categories.len() implies usable_category(
                #[trigger] categories[i],
            ) by {
                if i < rest.len() {
                    assert(usable_category(rest[i]));
                }
            }
        }
        if forall|i: int| 0 <= i < categories.len() ==> usable_category(#[trigger] categories[i]) {
            assert(usable_category(categories[categories.len() - 1]));
            assert forall|i: int| 0 <= i < rest.len() implies usable_category(#[trigger] rest[i]) by {
                assert(usable_category(categories[i]));
            }
        }
    }
}

/// A file can be used exactly where it is of this version, all its categories can be used, it
/// selects one of them or has none, its font has a family and a size that is offered, and its
/// buttons can be counted.
pub proof fn law_usable_files_have_no_problem(file: FileModel)
    ensures
        file_problem(file) is None <==> {
            &&& file.version == 1
            &&& forall|i: int|
                0 <= i < file.categories.len() ==> usable_category(#[trigger] file.categories[i])
            &&& file.categories.len() > 0 ==> file.selected < file.categories.len()
            &&& file.font.family.len() > 0
            &&& 6 <= file.font.size <= 72
            &&& command_panel::button_count(file.categories) < u64::MAX
        },
        file.version != 1 ==> file_problem(file) == Some(ErrorModel::InvalidInput(VERSION_MESSAGE@)),
{
    law_usable_categories_have_no_problem(file.categories);
}

/// The settings of a file have its font, select the category that it selects, and have each of
/// its categories, with the name and the buttons that it has there.
pub proof fn law_settings_hold_what_the_file_does(file: FileModel, category: int, button: int)
    requires
        file_problem(file) is None,
        0 <= category < file.categories.len(),
    ensures
        ({
            let panel = settings_of(file).panel;
            let read = file.categories[category];
            &&& settings_of(file).font == file.font
            &&& panel.selected == Some(file.selected)
            &&& panel.categories.len() == file.categories.len()
            &&& panel.categories[category].name == read.name
            &&& panel.categories[category].buttons.len() == read.buttons.len()
            &&& 0 <= button < read.buttons.len() ==> panel.categories[category].buttons[button].button
                == read.buttons[button]
        }),
{
    crate::domain::panel_laws::law_read_buttons_are_numbered(file.categories, category, button);
}

/// The panel of a file without a problem is valid: no two of its buttons have the same id, and
/// the id that the next button gets is none of theirs. The file's category is selected and its
/// font is used.
pub proof fn law_loaded_panel_is_valid(
    file: FileModel,
    id: CommandButtonId,
    category: int,
    button: int,
)
    requires
        file_problem(file) is None,
        0 <= file.selected,
    ensures
        settings_of(file).panel.valid(),
        settings_of(file).panel.categories.len() == file.categories.len(),
        settings_of(file).panel.has_at(id, category, button) ==> id.value
            < settings_of(file).panel.next_id,
        file.categories.len() > 0 ==> settings_of(file).panel.selected == Some(file.selected),
        file.categories.len() == 0 ==> settings_of(file).panel.selected is None,
        settings_of(file).font == file.font,
{
    let panel = settings_of(file).panel;
    let plain = PanelModel { selected: None, ..panel };
    command_panel::lemma_numbered(file.categories);
    assert(plain.ids_distinct());
    assert forall|id: CommandButtonId, c: int, b: int| #[trigger] panel.has_at(id, c, b) implies
        plain.has_at(id, c, b) by {}
    assert(panel.ids_distinct());
}

/// Of a font that cannot be used a missing family is told before the size.
pub proof fn law_font_problem_names_the_family_first(font: FontModel)
    ensures
        font.family.len() == 0 ==> font_problem(font) == ErrorModel::InvalidInput(
            FONT_FAMILY_MESSAGE@,
        ),
        font.family.len() > 0 ==> font_problem(font) == ErrorModel::InvalidInput(
            FONT_SIZE_MESSAGE@,
        ),
{
}

} // verus!
