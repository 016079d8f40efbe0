//! Menus and dialogs: what they offer and what they make of what is entered.

use vstd::prelude::*;

use crate::domain::command_button::{
    self, CommandArguments, CommandButtonDefinition, CommandCategoryDefinition, ButtonModel,
    CATEGORY_MESSAGE,
};
use crate::domain::command_panel::CommandPanel;
use crate::domain::font::{
    self, FontModel, TerminalFont, FONT_FAMILY_MESSAGE, FONT_SIZE_MESSAGE, MAX_FONT_SIZE_POINTS,
    MIN_FONT_SIZE_POINTS,
};
use crate::domain::layout::CommandButtonId;
use crate::config::file;
use crate::error::{AppError, AppResult, ErrorModel};
use crate::num;
use crate::renderer::encoding;
use crate::text;

verus! {

/// How many units of the font toolkit a point has.
pub const FONT_UNITS_PER_POINT: i32 = 1024;

pub const FONT_RANGE_MESSAGE: &'static str = "font size is outside supported range";

pub const NO_FONT_FAMILY_MESSAGE: &'static str = "selected font family is unavailable";

/// What a menu entry does.
#[derive(Clone, Copy, Debug, PartialEq, Eq, Structural)]
pub enum MenuCommand {
    NewCategory,
    RenameCategory,
    DeleteCategory,
    MoveCategoryUp,
    MoveCategoryDown,
    AddButton,
    RunCommand,
    EditButton,
    DeleteButton,
    MoveButtonUp,
    MoveButtonDown,
    FontSettings,
    About,
}

/// A line of a menu.
#[derive(Clone, Copy, Debug, PartialEq, Eq, Structural)]
pub enum MenuItem {
    Entry { command: MenuCommand, enabled: bool },
    Separator,
}

/// What an entry is called.
pub fn menu_label(command: MenuCommand) -> (label: &'static str)
    ensures
        label@ == (match command {
            MenuCommand::NewCategory => "New Category"@,
            MenuCommand::RenameCategory => "Rename Category"@,
            MenuCommand::DeleteCategory => "Delete Category"@,
            MenuCommand::MoveCategoryUp => "Move Category Up"@,
            MenuCommand::MoveCategoryDown => "Move Category Down"@,
            MenuCommand::AddButton => "Add Button"@,
            MenuCommand::RunCommand => "Run Command"@,
            MenuCommand::EditButton => "Edit Button"@,
            MenuCommand::DeleteButton => "Delete Button"@,
            MenuCommand::MoveButtonUp => "Move Button Up"@,
            MenuCommand::MoveButtonDown => "Move Button Down"@,
            MenuCommand::FontSettings => "Font Settings..."@,
            MenuCommand::About => "About j3Term..."@,
        }),
{
    match command {
        MenuCommand::NewCategory => "New Category",
        MenuCommand::RenameCategory => "Rename Category",
        MenuCommand::DeleteCategory => "Delete Category",
        MenuCommand::MoveCategoryUp => "Move Category Up",
        MenuCommand::MoveCategoryDown => "Move Category Down",
        MenuCommand::AddButton => "Add Button",
        MenuCommand::RunCommand => "Run Command",
        MenuCommand::EditButton => "Edit Button",
        MenuCommand::DeleteButton => "Delete Button",
        MenuCommand::MoveButtonUp => "Move Button Up",
        MenuCommand::MoveButtonDown => "Move Button Down",
        MenuCommand::FontSettings => "Font Settings...",
        MenuCommand::About => "About j3Term...",
    }
}

pub open spec fn item(command: MenuCommand, enabled: bool) -> MenuItem {
    MenuItem::Entry { command, enabled }
}

fn new_item(command: MenuCommand, enabled: bool) -> (line: MenuItem)
    ensures
        line == item(command, enabled),
{
    MenuItem::Entry { command, enabled }
}

/// What can be done with the selected category.
#[derive(Clone, Copy, Debug, PartialEq, Eq, Structural)]
pub struct CategoryMenuState {
    pub can_delete: bool,
    pub can_move_up: bool,
    pub can_move_down: bool,
}

/// What can be done with a button.
#[derive(Clone, Copy, Debug, PartialEq, Eq, Structural)]
pub struct ButtonMenuState {
    pub can_move_up: bool,
    pub can_move_down: bool,
}

pub fn category_menu_state(panel: &CommandPanel) -> (state: CategoryMenuState)
    requires
        panel@.valid(),
    ensures
        state.can_delete == (panel@.categories.len() > 1),
        state.can_move_up == panel@.can_move_category_up(),
        state.can_move_down == panel@.can_move_category_down(),
{
    CategoryMenuState {
        can_delete: panel.can_delete_selected_category(),
        can_move_up: panel.can_move_selected_category_up(),
        can_move_down: panel.can_move_selected_category_down(),
    }
}

pub fn button_menu_state(panel: &CommandPanel, id: CommandButtonId) -> (state: ButtonMenuState)
    requires
        panel@.valid(),
    ensures
        state.can_move_up == panel@.can_move_button_up(id),
        state.can_move_down == panel@.can_move_button_down(id),
{
    ButtonMenuState {
        can_move_up: panel.can_move_button_up(id),
        can_move_down: panel.can_move_button_down(id),
    }
}

/// The menu of the category selector.
pub open spec fn category_menu(state: CategoryMenuState) -> Seq<MenuItem> {
    seq![
        item(MenuCommand::NewCategory, true),
        item(MenuCommand::RenameCategory, true),
        item(MenuCommand::DeleteCategory, state.can_delete),
        MenuItem::Separator,
        item(MenuCommand::MoveCategoryUp, state.can_move_up),
        item(MenuCommand::MoveCategoryDown, state.can_move_down),
        MenuItem::Separator,
        item(MenuCommand::AddButton, true),
        MenuItem::Separator,
        item(MenuCommand::FontSettings, true),
        MenuItem::Separator,
        item(MenuCommand::About, true),
    ]
}

pub fn category_menu_items(state: CategoryMenuState) -> (items: Vec<MenuItem>)
    ensures
        items@ == category_menu(state),
{
    let mut items: Vec<MenuItem> = Vec::new();
    items.push(new_item(MenuCommand::NewCategory, true));
    items.push(new_item(MenuCommand::RenameCategory, true));
    items.push(new_item(MenuCommand::DeleteCategory, state.can_delete));
    items.push(MenuItem::Separator);
    items.push(new_item(MenuCommand::MoveCategoryUp, state.can_move_up));
    items.push(new_item(MenuCommand::MoveCategoryDown, state.can_move_down));
    items.push(MenuItem::Separator);
    items.push(new_item(MenuCommand::AddButton, true));
    items.push(MenuItem::Separator);
    items.push(new_item(MenuCommand::FontSettings, true));
    items.push(MenuItem::Separator);
    items.push(new_item(MenuCommand::About, true));
    assert(items@ =~= category_menu(state));
    items
}

/// The menu of a command button.
pub open spec fn button_menu(state: ButtonMenuState) -> Seq<MenuItem> {
    seq![
        item(MenuCommand::RunCommand, true),
        item(MenuCommand::EditButton, true),
        MenuItem::Separator,
        item(MenuCommand::DeleteButton, true),
        MenuItem::Separator,
        item(MenuCommand::MoveButtonUp, state.can_move_up),
        item(MenuCommand::MoveButtonDown, state.can_move_down),
        MenuItem::Separator,
        item(MenuCommand::FontSettings, true),
        MenuItem::Separator,
        item(MenuCommand::About, true),
    ]
}

pub fn button_menu_items(state: ButtonMenuState) -> (items: Vec<MenuItem>)
    ensures
        items@ == button_menu(state),
{
    let mut items: Vec<MenuItem> = Vec::new();
    items.push(new_item(MenuCommand::RunCommand, true));
    items.push(new_item(MenuCommand::EditButton, true));
    items.push(MenuItem::Separator);
    items.push(new_item(MenuCommand::DeleteButton, true));
    items.push(MenuItem::Separator);
    items.push(new_item(MenuCommand::MoveButtonUp, state.can_move_up));
    items.push(new_item(MenuCommand::MoveButtonDown, state.can_move_down));
    items.push(MenuItem::Separator);
    items.push(new_item(MenuCommand::FontSettings, true));
    items.push(MenuItem::Separator);
    items.push(new_item(MenuCommand::About, true));
    assert(items@ =~= button_menu(state));
    items
}

/// What is asked of an entered text.
#[derive(Clone, Copy, Debug, PartialEq, Eq, Structural)]
pub enum TextInputValidation {
    Anything,
    CategoryName,
}

/// Whether an entered text is acceptable; what is wrong otherwise.
pub fn validate_text_input(value: &str, validation: TextInputValidation) -> (checked: AppResult<()>)
    ensures
        checked is Ok == (validation is Anything || command_button::names(value@)),
        checked is Err ==> (checked->Err_0)@ == ErrorModel::InvalidInput(CATEGORY_MESSAGE@),
{
    match validation {
        TextInputValidation::Anything => Ok(()),
        TextInputValidation::CategoryName => CommandCategoryDefinition::check_name(value),
    }
}

/// What a dialog does after it was closed or confirmed.
#[derive(Debug)]
pub enum DialogStep<T> {
    /// The dialog was not confirmed.
    Cancelled,
    Accepted(T),
    /// The user is told what is wrong, and asked again.
    AskAgain(AppError),
}

/// What a text dialog does with what was entered.
pub fn prompt_step(confirmed: bool, value: String, validation: TextInputValidation) -> (step:
    DialogStep<String>)
    ensures
        !confirmed ==> step is Cancelled,
        confirmed && (validation is Anything || command_button::names(value@)) ==> step is Accepted
            && (step->Accepted_0)@ == value@,
        confirmed && !(validation is Anything || command_button::names(value@)) ==> step is AskAgain
            && (step->AskAgain_0)@ == ErrorModel::InvalidInput(CATEGORY_MESSAGE@),
{
    if !confirmed {
        return DialogStep::Cancelled;
    }
    match validate_text_input(value.as_str(), validation) {
        Ok(()) => DialogStep::Accepted(value),
        Err(error) => DialogStep::AskAgain(error),
    }
}

/// What the dialog for a button does with what was entered.
pub fn edit_button_step(
    confirmed: bool,
    label: String,
    executable_path: String,
    arguments: String,
) -> (step: DialogStep<CommandButtonDefinition>)
    ensures
        ({
            let entered = ButtonModel {
                label: label@,
                executable_path: executable_path@,
                arguments: arguments@,
            };
            &&& !confirmed ==> step is Cancelled
            &&& confirmed ==> match file::button_problem(entered) {
                None => step is Accepted && (step->Accepted_0)@ == entered,
                Some(problem) => step is AskAgain && (step->AskAgain_0)@ == problem,
            }
        }),
{
    if !confirmed {
        return DialogStep::Cancelled;
    }
    let arguments = match CommandArguments::new(arguments) {
        Ok(arguments) => arguments,
        Err(error) => return DialogStep::AskAgain(error),
    };
    match CommandButtonDefinition::new(label, executable_path, arguments) {
        Ok(definition) => DialogStep::Accepted(definition),
        Err(error) => DialogStep::AskAgain(error),
    }
}

/// The tokens that can be put into a button's arguments.
pub open spec fn tokens() -> Seq<Seq<char>> {
    seq!["{path}"@, "{name}"@, "{selectfile}"@, "{selectdir}"@, "{inputtext}"@]
}

pub fn argument_tokens() -> (list: Vec<&'static str>)
    ensures
        list@.map_values(|token: &'static str| token@) == tokens(),
        list@.len() == 5,
        list@[0]@ == "{path}"@,
        list@[1]@ == "{name}"@,
        list@[2]@ == "{selectfile}"@,
        list@[3]@ == "{selectdir}"@,
        list@[4]@ == "{inputtext}"@,
{
    let list: Vec<&'static str> = vec![
        "{path}",
        "{name}",
        "{selectfile}",
        "{selectdir}",
        "{inputtext}",
    ];
    assert(list@.map_values(|token: &'static str| token@) =~= tokens());
    list
}

/// A token behind some arguments, apart from them.
pub open spec fn with_token(arguments: Seq<char>, token: Seq<char>) -> Seq<char> {
    if arguments.len() > 0 && !encoding::whitespace(arguments.last()) {
        arguments.push(' ') + token
    } else {
        arguments + token
    }
}

pub fn insert_token(arguments: &str, token: &str) -> (result: String)
    ensures
        result@ == with_token(arguments@, token@),
{
    let chars = text::chars_of(arguments);
    let mut result = arguments.to_owned();
    if chars.len() > 0 && !encoding::is_whitespace(chars[chars.len() - 1]) {
        result.push(' ');
    }
    result.append(token);
    result
}

/// The button that the dialog for a new one starts with.
pub fn new_button_definition() -> (definition: AppResult<CommandButtonDefinition>)
    ensures
        definition is Ok,
        (definition->Ok_0)@ == (ButtonModel {
            label: "new command"@,
            executable_path: "echo"@,
            arguments: "{inputtext}"@,
        }),
{
    proof {
        reveal_strlit("new command");
        reveal_strlit("echo");
        reveal_strlit("{inputtext}");
    }
    match CommandArguments::new("{inputtext}".to_owned()) {
        Ok(arguments) => CommandButtonDefinition::new(
            "new command".to_owned(),
            "echo".to_owned(),
            arguments,
        ),
        Err(error) => Err(error),
    }
}

/// A character that a word of a font's name can have.
pub open spec fn word_character(character: char) -> bool {
    ||| '0' <= character && character <= '9'
    ||| 'A' <= character && character <= 'Z'
    ||| 'a' <= character && character <= 'z'
}

/// Whether the characters from `start` to `end` are a word: one that could not
/// be longer.
pub open spec fn is_word(name: Seq<char>, start: int, end: int) -> bool {
    &&& 0 <= start <= end <= name.len()
    &&& forall|i: int| start <= i < end ==> word_character(#[trigger] name[i])
    &&& start > 0 ==> !word_character(name[start - 1])
    &&& end < name.len() ==> !word_character(name[end])
}

/// Whether a word says that a font's characters have the same width.
pub open spec fn monospace_word(word: Seq<char>) -> bool {
    ||| text::ascii_lower_text(word) == text::ascii_lower_text("mono"@)
    ||| text::ascii_lower_text(word) == text::ascii_lower_text("monospace"@)
}

/// Whether a font's name has a word that says so.
pub open spec fn suggests_monospace(name: Seq<char>) -> bool {
    exists|start: int, end: int|
        #[trigger] is_word(name, start, end) && monospace_word(name.subrange(start, end))
}

fn is_word_character(character: char) -> (is_one: bool)
    ensures
        is_one == word_character(character),
{
    ('0' <= character && character <= '9') || ('A' <= character && character <= 'Z') || ('a'
        <= character && character <= 'z')
}

fn is_monospace_word(word: &str) -> (is_one: bool)
    ensures
        is_one == monospace_word(word@),
{
    text::equal_ignoring_ascii_case(word, "mono") || text::equal_ignoring_ascii_case(
        word,
        "monospace",
    )
}

/// Whether a font's name suggests that its characters have the same width.
pub fn font_family_name_suggests_monospace(name: &str) -> (suggests: bool)
    ensures
        suggests == suggests_monospace(name@),
{
    let chars = text::chars_of(name);
    let mut start: usize = 0;
    let mut end: usize = 0;
    let mut word = String::new();
    assert(name@.subrange(0, 0) =~= Seq::empty());
    while end < chars.len()
        invariant
            chars@ == name@,
            start <= end <= chars@.len(),
            word@ == name@.subrange(start as int, end as int),
            forall|i: int| start <= i < end ==> word_character(#[trigger] name@[i]),
            start > 0 ==> !word_character(name@[start - 1]),
            forall|s: int, e: int|
                e < start && #[trigger] is_word(name@, s, e) ==> !monospace_word(
                    name@.subrange(s, e),
                ),
        decreases chars@.len() - end,
    {
        if is_word_character(chars[end]) {
            word.push(chars[end]);
            assert(word@ =~= name@.subrange(start as int, end + 1));
        } else {
            proof {
                lemma_word_at(name@, start as int, end as int);
            }
            if is_monospace_word(word.as_str()) {
                assert(is_word(name@, start as int, end as int));
                return true;
            }
            start = end + 1;
            word.clear();
            assert(name@.subrange(start as int, start as int) =~= Seq::empty());
        }
        end += 1;
    }
    proof {
        lemma_word_at(name@, start as int, end as int);
    }
    let last = is_monospace_word(word.as_str());
    if last {
        assert(is_word(name@, start as int, end as int));
    }
    last
}

/// A word that ends no earlier than `start` and no later than `end` is the one
/// between them.
proof fn lemma_word_at(name: Seq<char>, start: int, end: int)
    requires
        0 <= start <= end <= name.len(),
        forall|i: int| start <= i < end ==> word_character(#[trigger] name[i]),
        start > 0 ==> !word_character(name[start - 1]),
        end < name.len() ==> !word_character(name[end]),
    ensures
        forall|s: int, e: int|
            start <= e <= end && #[trigger] is_word(name, s, e) ==> s == start && e == end,
{
    assert forall|s: int, e: int| start <= e <= end && #[trigger] is_word(name, s, e) implies s
        == start && e == end by {
        if e < end {
            assert(word_character(name[e]));
        }
        if s > start {
            assert(word_character(name[s - 1]));
        } else if s < start {
            assert(word_character(name[start - 1]));
        }
    }
}

/// The toolkit's font size in points, to the nearest one.
pub open spec fn rounded_points(size: int) -> int {
    let shifted = num::clamped(size + 512);
    if shifted < 0 {
        -((-shifted) / 1024)
    } else {
        shifted / 1024
    }
}

/// A font size that is offered, from the toolkit's.
pub fn font_size_points_from_pango_size(size: i32) -> (points: AppResult<u16>)
    ensures
        points is Ok == font::font_size_offered(rounded_points(size as int)),
        points is Ok ==> points->Ok_0 == rounded_points(size as int),
        points is Err ==> (points->Err_0)@ == ErrorModel::InvalidInput(
            if 0 <= rounded_points(size as int) <= u16::MAX {
                FONT_SIZE_MESSAGE@
            } else {
                FONT_RANGE_MESSAGE@
            },
        ),
{
    let shifted = num::saturating_add(size, FONT_UNITS_PER_POINT / 2);
    let rounded: i32 = if shifted < 0 {
        let magnitude: i64 = -(shifted as i64);
        (-(magnitude / FONT_UNITS_PER_POINT as i64)) as i32
    } else {
        shifted / FONT_UNITS_PER_POINT
    };
    if rounded < 0 || rounded > u16::MAX as i32 {
        return Err(AppError::InvalidInput(FONT_RANGE_MESSAGE));
    }
    let points = rounded as u16;
    if points < MIN_FONT_SIZE_POINTS || points > MAX_FONT_SIZE_POINTS {
        return Err(AppError::InvalidInput(FONT_SIZE_MESSAGE));
    }
    Ok(points)
}

/// Whether a font family is offered for the terminal: where the font toolkit
/// takes it for monospaced, or its name suggests it.
pub fn is_terminal_font_family_candidate(is_monospace: bool, name: &str) -> (offered: bool)
    ensures
        offered == (is_monospace || suggests_monospace(name@)),
{
    is_monospace || font_family_name_suggests_monospace(name)
}

/// What is wrong with a chosen font, if anything is: it has no family, its size
/// is not offered, or its family has no name.
pub open spec fn chosen_font_problem(family: Option<Seq<char>>, size: int) -> Option<Seq<char>> {
    if family is None {
        Some(NO_FONT_FAMILY_MESSAGE@)
    } else if !font::font_size_offered(rounded_points(size)) {
        Some(
            if 0 <= rounded_points(size) <= u16::MAX {
                FONT_SIZE_MESSAGE@
            } else {
                FONT_RANGE_MESSAGE@
            },
        )
    } else if (family->0).len() == 0 {
        Some(FONT_FAMILY_MESSAGE@)
    } else {
        None
    }
}

/// The font that was chosen, given its family and its size in the units of the
/// font toolkit.
pub fn terminal_font_from_pango_description(family: Option<String>, size: i32) -> (font: AppResult<
    TerminalFont,
>)
    ensures
        ({
            let name = match family {
                Some(family) => Some(family@),
                None => None,
            };
            match chosen_font_problem(name, size as int) {
                Some(problem) => font is Err && (font->Err_0)@ == ErrorModel::InvalidInput(problem),
                None => font is Ok && (font->Ok_0)@ == (FontModel {
                    family: name->0,
                    size: rounded_points(size as int),
                }),
            }
        }),
{
    let family = match family {
        Some(family) => family,
        None => return Err(AppError::InvalidInput(NO_FONT_FAMILY_MESSAGE)),
    };
    match font_size_points_from_pango_size(size) {
        Ok(points) => TerminalFont::new(family, points),
        Err(error) => Err(error),
    }
}

/// Whether a menu has an entry that does something, with what it says of being enabled.
pub open spec fn offers(items: Seq<MenuItem>, command: MenuCommand, enabled: bool) -> bool {
    exists|i: int| 0 <= i < items.len() && #[trigger] items[i] == item(command, enabled)
}

/// The menu of the category selector offers what can be done with categories, a button to
/// add, the font and what the program says of itself, each of them once. An entry can be
/// chosen wherever it is not forbidden, and only deleting and moving can be: they can be
/// chosen exactly where they can be done.
pub proof fn law_category_menu_offers_what_can_be_done(
    state: CategoryMenuState,
    command: MenuCommand,
    i: int,
    j: int,
)
    ensures
        ({
            let items = category_menu(state);
            let offered = command is NewCategory || command is RenameCategory
                || command is DeleteCategory || command is MoveCategoryUp
                || command is MoveCategoryDown || command is AddButton || command is FontSettings
                || command is About;
            let possible = (command is DeleteCategory ==> state.can_delete) && (
            command is MoveCategoryUp ==> state.can_move_up) && (command is MoveCategoryDown
                ==> state.can_move_down);
            &&& offers(items, command, possible) <==> offered
            &&& !offers(items, command, !possible)
            &&& 0 <= i < j < items.len() && items[i] is Entry && items[j] is Entry
                ==> items[i]->command != items[j]->command
        }),
{
    let items = category_menu(state);
    assert(items[0] == item(MenuCommand::NewCategory, true));
    assert(items[1] == item(MenuCommand::RenameCategory, true));
    assert(items[2] == item(MenuCommand::DeleteCategory, state.can_delete));
    assert(items[4] == item(MenuCommand::MoveCategoryUp, state.can_move_up));
    assert(items[5] == item(MenuCommand::MoveCategoryDown, state.can_move_down));
    assert(items[7] == item(MenuCommand::AddButton, true));
    assert(items[9] == item(MenuCommand::FontSettings, true));
    assert(items[11] == item(MenuCommand::About, true));
}

/// The menu of a command button offers to run, edit, delete and move it, the font and what
/// the program says of itself, each of them once. Only moving can be forbidden: it can be
/// chosen exactly where it can be done.
pub proof fn law_button_menu_offers_what_can_be_done(
    state: ButtonMenuState,
    command: MenuCommand,
    i: int,
    j: int,
)
    ensures
        ({
            let items = button_menu(state);
            let offered = command is RunCommand || command is EditButton || command is DeleteButton
                || command is MoveButtonUp || command is MoveButtonDown || command is FontSettings
                || command is About;
            let possible = (command is MoveButtonUp ==> state.can_move_up) && (
            command is MoveButtonDown ==> state.can_move_down);
            &&& offers(items, command, possible) <==> offered
            &&& !offers(items, command, !possible)
            &&& 0 <= i < j < items.len() && items[i] is Entry && items[j] is Entry
                ==> items[i]->command != items[j]->command
        }),
{
    let items = button_menu(state);
    assert(items[0] == item(MenuCommand::RunCommand, true));
    assert(items[1] == item(MenuCommand::EditButton, true));
    assert(items[3] == item(MenuCommand::DeleteButton, true));
    assert(items[5] == item(MenuCommand::MoveButtonUp, state.can_move_up));
    assert(items[6] == item(MenuCommand::MoveButtonDown, state.can_move_down));
    assert(items[8] == item(MenuCommand::FontSettings, true));
    assert(items[10] == item(MenuCommand::About, true));
}

/// A token is put behind the arguments, which stay as they are, with white space before it
/// unless it is the first; no more is put between than one blank.
pub proof fn law_token_is_put_apart(arguments: Seq<char>, token: Seq<char>)
    ensures
        ({
            let text = with_token(arguments, token);
            let between = text.len() - arguments.len() - token.len();
            &&& 0 <= between <= 1
            &&& text.take(arguments.len() as int) == arguments
            &&& text.skip(text.len() - token.len()) == token
            &&& between == 1 ==> text[arguments.len() as int] == ' '
            &&& arguments.len() > 0 ==> encoding::whitespace(text[text.len() - token.len() - 1])
            &&& arguments.len() == 0 ==> text == token
        }),
{
    let text = with_token(arguments, token);
    assert(text.take(arguments.len() as int) =~= arguments);
    assert(text.skip(text.len() - token.len()) =~= token);
    if arguments.len() == 0 {
        assert(text =~= token);
    }
}

/// A size of the toolkit's is taken for the number of points that is nearest to it.
pub proof fn law_points_are_the_nearest(size: int)
    requires
        0 <= size <= i32::MAX - 512,
    ensures
        -512 < 1024 * rounded_points(size) - size <= 512,
{
}

/// A chosen font is taken exactly where it has a family with a name and a size that is
/// offered.
pub proof fn law_chosen_font_has_a_name_and_a_size(family: Option<Seq<char>>, size: int)
    ensures
        chosen_font_problem(family, size) is None <==> family is Some && (family->0).len() > 0
            && MIN_FONT_SIZE_POINTS <= rounded_points(size) <= MAX_FONT_SIZE_POINTS,
{
}

/// A font's name suggests characters of the same width where "mono" or "monospace", in capitals
/// or not, stands in it as a word: with no letter or digit right before or right behind it.
pub proof fn law_monospace_is_a_word_of_its_own(before: Seq<char>, word: Seq<char>, behind: Seq<char>)
    requires
        before.len() > 0 ==> !word_character(before.last()),
        behind.len() > 0 ==> !word_character(behind[0]),
        text::ascii_lower_text(word) == text::ascii_lower_text("mono"@)
            || text::ascii_lower_text(word) == text::ascii_lower_text("monospace"@),
    ensures
        suggests_monospace(before + word + behind),
{
    let name = before + word + behind;
    let start = before.len() as int;
    let end = start + word.len();
    let lower = text::ascii_lower_text(word);
    reveal_strlit("mono");
    reveal_strlit("monospace");
    assert forall|i: int| start <= i < end implies word_character(#[trigger] name[i]) by {
        text::law_only_capitals_are_made_small(word, i - start);
        assert(name[i] == word[i - start]);
        if lower == text::ascii_lower_text("mono"@) {
            text::law_only_capitals_are_made_small("mono"@, i - start);
        } else {
            text::law_only_capitals_are_made_small("monospace"@, i - start);
        }
    }
    assert(name.subrange(start, end) =~= word);
    assert(is_word(name, start, end));
}

/// A font's name does not suggest characters of the same width unless "mono" or "monospace", in
/// capitals or not, stands somewhere in it as a word.
pub proof fn law_no_word_no_monospace(name: Seq<char>)
    requires
        suggests_monospace(name),
    ensures
        exists|start: int, end: int|
            {
                &&& 0 <= start <= end <= name.len()
                &&& start > 0 ==> !word_character(name[start - 1])
                &&& end < name.len() ==> !word_character(name[end])
                &&& {
                    ||| text::ascii_lower_text(#[trigger] name.subrange(start, end))
                        == text::ascii_lower_text("mono"@)
                    ||| text::ascii_lower_text(name.subrange(start, end))
                        == text::ascii_lower_text("monospace"@)
                }
            },
{
    let (start, end) = choose|start: int, end: int|
        #[trigger] is_word(name, start, end) && monospace_word(name.subrange(start, end));
    assert(is_word(name, start, end));
    assert(name.subrange(start, end) == name.subrange(start, end));
}

/// A word of a font's name is made of the letters and digits of ASCII.
pub proof fn law_words_are_letters_and_digits(character: char)
    ensures
        word_character(character) <==> ('0' <= character <= '9' || 'A' <= character <= 'Z' || 'a'
            <= character <= 'z'),
{
}

/// A font that cannot be used is told by the first thing that is wrong: it has no family, a size
/// that is no count of points, a size that is not offered, or a family without a name.
pub proof fn law_chosen_font_says_what_is_wrong(family: Option<Seq<char>>, size: int)
    ensures
        family is None ==> chosen_font_problem(family, size) == Some(NO_FONT_FAMILY_MESSAGE@),
        family is Some && (rounded_points(size) < 0 || rounded_points(size) > 65535)
            ==> chosen_font_problem(family, size) == Some(FONT_RANGE_MESSAGE@),
        family is Some && (0 <= rounded_points(size) < 6 || 72 < rounded_points(size) <= 65535)
            ==> chosen_font_problem(family, size) == Some(FONT_SIZE_MESSAGE@),
        family is Some && 6 <= rounded_points(size) <= 72 && (family->0).len() == 0
            ==> chosen_font_problem(family, size) == Some(FONT_FAMILY_MESSAGE@),
        chosen_font_problem(family, size) is None <==> family is Some && (family->0).len() > 0 && 6
            <= rounded_points(size) <= 72,
{
}

} // verus!
