//! Command buttons and categories as a user defines them.

use vstd::prelude::*;

use crate::domain::layout::CommandButtonId;
use crate::error::{AppError, AppResult, ErrorModel};
use crate::text;

verus! {

pub const ARGUMENTS_MESSAGE: &'static str = "command arguments must not contain line breaks";

pub const LABEL_MESSAGE: &'static str = "command button name must be a single line";

pub const EXECUTABLE_MESSAGE: &'static str = "command executable must be a single line";

pub const CATEGORY_MESSAGE: &'static str = "command category name must be a single line";

/// Whether a text can name something: it is one line, and not an empty one.
pub open spec fn names(text: Seq<char>) -> bool {
    text.len() > 0 && text::one_line(text)
}

fn is_name(text: &str) -> (is_one: bool)
    ensures
        is_one == names(text@),
{
    text.unicode_len() > 0 && text::is_one_line(text)
}

/// What is written behind a command.
#[derive(Clone, Debug, PartialEq, Eq)]
pub struct CommandArguments {
    value: String,
}

impl View for CommandArguments {
    type V = Seq<char>;

    closed spec fn view(&self) -> Seq<char> {
        self.value@
    }
}

impl CommandArguments {
    pub fn new(value: String) -> (arguments: AppResult<Self>)
        ensures
            arguments is Ok == text::one_line(value@),
            arguments is Ok ==> (arguments->Ok_0)@ == value@,
            arguments is Err ==> (arguments->Err_0)@ == ErrorModel::InvalidInput(
                ARGUMENTS_MESSAGE@,
            ),
    {
        if text::is_one_line(value.as_str()) {
            Ok(CommandArguments { value })
        } else {
            Err(AppError::InvalidInput(ARGUMENTS_MESSAGE))
        }
    }

    pub fn value(&self) -> (value: &str)
        ensures
            value@ == self@,
    {
        self.value.as_str()
    }

    pub fn copy(&self) -> (arguments: Self)
        ensures
            arguments@ == self@,
    {
        CommandArguments { value: self.value.clone() }
    }
}

/// What a button is called and what it runs, as a value.
pub struct ButtonModel {
    pub label: Seq<char>,
    pub executable_path: Seq<char>,
    pub arguments: Seq<char>,
}

/// What a button is called and what it runs.
#[derive(Clone, Debug, PartialEq, Eq)]
pub struct CommandButtonDefinition {
    pub label: String,
    pub executable_path: String,
    pub arguments: CommandArguments,
}

impl View for CommandButtonDefinition {
    type V = ButtonModel;

    open spec fn view(&self) -> ButtonModel {
        ButtonModel {
            label: self.label@,
            executable_path: self.executable_path@,
            arguments: self.arguments@,
        }
    }
}

impl CommandButtonDefinition {
    pub fn new(label: String, executable_path: String, arguments: CommandArguments) -> (definition:
        AppResult<Self>)
        ensures
            definition is Ok == (names(label@) && names(executable_path@)),
            definition is Ok ==> (definition->Ok_0)@ == (ButtonModel {
                label: label@,
                executable_path: executable_path@,
                arguments: arguments@,
            }),
            definition is Err ==> (definition->Err_0)@ == ErrorModel::InvalidInput(
                if !names(label@) {
                    LABEL_MESSAGE@
                } else {
                    EXECUTABLE_MESSAGE@
                },
            ),
    {
        if !is_name(label.as_str()) {
            return Err(AppError::InvalidInput(LABEL_MESSAGE));
        }
        if !is_name(executable_path.as_str()) {
            return Err(AppError::InvalidInput(EXECUTABLE_MESSAGE));
        }
        Ok(CommandButtonDefinition { label, executable_path, arguments })
    }
}

/// A category and the buttons in it, as a value.
pub struct CategoryDefinitionModel {
    pub name: Seq<char>,
    pub buttons: Seq<ButtonModel>,
}

/// A category and the buttons in it.
#[derive(Clone, Debug, PartialEq, Eq)]
pub struct CommandCategoryDefinition {
    pub name: String,
    pub buttons: Vec<CommandButtonDefinition>,
}

impl View for CommandCategoryDefinition {
    type V = CategoryDefinitionModel;

    open spec fn view(&self) -> CategoryDefinitionModel {
        CategoryDefinitionModel {
            name: self.name@,
            buttons: self.buttons@.map_values(|button: CommandButtonDefinition| button@),
        }
    }
}

impl CommandCategoryDefinition {
    pub fn new(name: String, buttons: Vec<CommandButtonDefinition>) -> (definition: AppResult<Self>)
        ensures
            definition is Ok == names(name@),
            definition is Ok ==> (definition->Ok_0)@ == (CategoryDefinitionModel {
                name: name@,
                buttons: buttons@.map_values(|button: CommandButtonDefinition| button@),
            }),
            definition is Err ==> (definition->Err_0)@ == ErrorModel::InvalidInput(
                CATEGORY_MESSAGE@,
            ),
    {
        if is_name(name.as_str()) {
            Ok(CommandCategoryDefinition { name, buttons })
        } else {
            Err(AppError::InvalidInput(CATEGORY_MESSAGE))
        }
    }

    /// Whether a category may have this name; what is wrong otherwise.
    pub fn check_name(name: &str) -> (checked: AppResult<()>)
        ensures
            checked is Ok == names(name@),
            checked is Err ==> (checked->Err_0)@ == ErrorModel::InvalidInput(CATEGORY_MESSAGE@),
    {
        if is_name(name) {
            Ok(())
        } else {
            Err(AppError::InvalidInput(CATEGORY_MESSAGE))
        }
    }
}

/// A button on the panel, as a value.
pub struct PlacedButton {
    pub id: CommandButtonId,
    pub button: ButtonModel,
}

/// A button on the panel.
#[derive(Clone, Debug, PartialEq, Eq)]
pub struct CommandButton {
    pub id: CommandButtonId,
    pub label: String,
    pub executable_path: String,
    pub arguments: CommandArguments,
}

impl View for CommandButton {
    type V = PlacedButton;

    open spec fn view(&self) -> PlacedButton {
        PlacedButton {
            id: self.id,
            button: ButtonModel {
                label: self.label@,
                executable_path: self.executable_path@,
                arguments: self.arguments@,
            },
        }
    }
}

impl CommandButton {
    pub fn from_definition(id: CommandButtonId, definition: CommandButtonDefinition) -> (button:
        Self)
        ensures
            button@ == (PlacedButton { id, button: definition@ }),
    {
        CommandButton {
            id,
            label: definition.label,
            executable_path: definition.executable_path,
            arguments: definition.arguments,
        }
    }

    /// What the button is called and what it runs.
    pub fn definition(&self) -> (definition: CommandButtonDefinition)
        ensures
            definition@ == self@.button,
    {
        CommandButtonDefinition {
            label: self.label.clone(),
            executable_path: self.executable_path.clone(),
            arguments: self.arguments.copy(),
        }
    }

    pub fn copy(&self) -> (button: Self)
        ensures
            button@ == self@,
    {
        CommandButton::from_definition(self.id, self.definition())
    }
}

/// A category of the panel, as a value.
pub struct CategoryModel {
    pub name: Seq<char>,
    pub buttons: Seq<PlacedButton>,
}

/// A category of the panel.
#[derive(Clone, Debug, PartialEq, Eq)]
pub struct CommandCategory {
    pub name: String,
    pub buttons: Vec<CommandButton>,
}

impl View for CommandCategory {
    type V = CategoryModel;

    open spec fn view(&self) -> CategoryModel {
        CategoryModel {
            name: self.name@,
            buttons: self.buttons@.map_values(|button: CommandButton| button@),
        }
    }
}

impl CommandCategory {
    pub fn copy(&self) -> (category: Self)
        ensures
            category@ == self@,
    {
        let mut buttons: Vec<CommandButton> = Vec::new();
        let mut index: usize = 0;
        while index < self.buttons.len()
            invariant
                index <= self.buttons@.len(),
                buttons@.len() == index,
                forall|i: int| 0 <= i < index ==> buttons@[i]@ == #[trigger] self.buttons@[i]@,
            decreases self.buttons@.len() - index,
        {
            buttons.push(self.buttons[index].copy());
            index += 1;
        }
        let category = CommandCategory { name: self.name.clone(), buttons };
        assert(category@.buttons =~= self@.buttons);
        category
    }
}

/// A text names something exactly where it has a character and none of its characters breaks
/// a line.
pub proof fn law_names_are_single_lines(content: Seq<char>)
    ensures
        names(content) <==> content.len() > 0 && forall|i: int|
            0 <= i < content.len() ==> (#[trigger] content[i]) != '\n' && content[i] != '\r',
{
    if names(content) {
        assert forall|i: int| 0 <= i < content.len() implies (#[trigger] content[i]) != '\n'
            && content[i] != '\r' by {
            assert(content.contains(content[i]));
        }
    }
}

} // verus!
