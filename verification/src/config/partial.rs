//! Settings files that leave fields out.

use vstd::prelude::*;

use crate::config::file::{
    self, ConfigButton, ConfigCategory, ConfigFile, ConfigFont, FileModel, CONFIG_VERSION,
};
use crate::domain::command_button::{ButtonModel, CategoryDefinitionModel};
use crate::domain::font::{FontModel, TerminalFont};

verus! {

/// A button as a file has it.
#[derive(Clone, Debug, PartialEq, Eq)]
pub struct PartialButton {
    pub label: String,
    pub executable_path: String,
    pub arguments: Option<String>,
}

/// A category as a file has it.
#[derive(Clone, Debug, PartialEq, Eq)]
pub struct PartialCategory {
    pub name: String,
    pub buttons: Option<Vec<PartialButton>>,
}

/// A font as a file has it.
#[derive(Clone, Debug, PartialEq, Eq)]
pub struct PartialFont {
    pub family: Option<String>,
    pub size: Option<u16>,
}

/// A settings file as it was written: everything but names may be missing.
#[derive(Clone, Debug, PartialEq, Eq)]
pub struct PartialFile {
    pub version: Option<u32>,
    pub selected_category: Option<usize>,
    pub categories: Option<Vec<PartialCategory>>,
    pub font: Option<PartialFont>,
}

/// A button without arguments has empty ones.
pub open spec fn completed_button(button: PartialButton) -> ButtonModel {
    ButtonModel {
        label: button.label@,
        executable_path: button.executable_path@,
        arguments: match button.arguments {
            Some(arguments) => arguments@,
            None => Seq::empty(),
        },
    }
}

/// A category that says nothing of buttons has none.
pub open spec fn completed_category(category: PartialCategory) -> CategoryDefinitionModel {
    CategoryDefinitionModel {
        name: category.name@,
        buttons: match category.buttons {
            Some(buttons) => buttons@.map_values(|button: PartialButton| completed_button(button)),
            None => Seq::empty(),
        },
    }
}

/// What a font does not say, another font does.
pub open spec fn completed_font(font: Option<PartialFont>, default: FontModel) -> FontModel {
    FontModel {
        family: match font {
            Some(PartialFont { family: Some(family), .. }) => family@,
            _ => default.family,
        },
        size: match font {
            Some(PartialFont { size: Some(size), .. }) => size as int,
            _ => default.size,
        },
    }
}

/// A file that leaves fields out is of this version, selects its first category and
/// has no categories and a font that is given.
pub open spec fn completed_file(partial: PartialFile, default_font: FontModel) -> FileModel {
    FileModel {
        version: match partial.version {
            Some(version) => version as int,
            None => CONFIG_VERSION as int,
        },
        selected: match partial.selected_category {
            Some(selected) => selected as int,
            None => 0,
        },
        categories: match partial.categories {
            Some(categories) => categories@.map_values(
                |category: PartialCategory| completed_category(category),
            ),
            None => Seq::empty(),
        },
        font: completed_font(partial.font, default_font),
    }
}

impl PartialButton {
    pub fn complete(&self) -> (button: ConfigButton)
        ensures
            button@ == completed_button(*self),
    {
        let arguments = match &self.arguments {
            Some(arguments) => arguments.clone(),
            None => String::new(),
        };
        let button = ConfigButton {
            label: self.label.clone(),
            executable_path: self.executable_path.clone(),
            arguments,
        };
        assert(button@.arguments =~= completed_button(*self).arguments);
        button
    }
}

impl PartialCategory {
    pub fn complete(&self) -> (category: ConfigCategory)
        ensures
            category@ == completed_category(*self),
    {
        let mut completed: Vec<ConfigButton> = Vec::new();
        if let Some(buttons) = &self.buttons {
            let mut index: usize = 0;
            while index < buttons.len()
                invariant
                    index <= buttons@.len(),
                    completed@.len() == index,
                    forall|i: int|
                        0 <= i < index ==> (#[trigger] completed@[i])@ == completed_button(
                            buttons@[i],
                        ),
                decreases buttons@.len() - index,
            {
                completed.push(buttons[index].complete());
                index += 1;
            }
        }
        let category = ConfigCategory { name: self.name.clone(), buttons: completed };
        assert(category@.buttons =~= completed_category(*self).buttons);
        category
    }
}

impl PartialFile {
    /// The file with all its fields.
    pub fn complete(&self, default_font: &TerminalFont) -> (completed: ConfigFile)
        ensures
            completed@ == completed_file(*self, default_font@),
    {
        let mut categories: Vec<ConfigCategory> = Vec::new();
        if let Some(partial) = &self.categories {
            let mut index: usize = 0;
            while index < partial.len()
                invariant
                    index <= partial@.len(),
                    categories@.len() == index,
                    forall|i: int|
                        0 <= i < index ==> (#[trigger] categories@[i])@ == completed_category(
                            partial@[i],
                        ),
                decreases partial@.len() - index,
            {
                categories.push(partial[index].complete());
                index += 1;
            }
        }
        let mut font = ConfigFont::from_terminal_font(default_font);
        if let Some(partial) = &self.font {
            if let Some(family) = &partial.family {
                font.family = family.clone();
            }
            if let Some(size) = partial.size {
                font.size = size;
            }
        }
        let completed = ConfigFile {
            version: match self.version {
                Some(version) => version,
                None => CONFIG_VERSION,
            },
            selected_category: match self.selected_category {
                Some(selected) => selected,
                None => 0,
            },
            categories,
            font,
        };
        assert(completed@.categories =~= completed_file(*self, default_font@).categories);
        completed
    }
}

/// A file that says nothing at all gives no categories and the font that is given,
/// and can be used as it is.
pub proof fn law_empty_file_is_acceptable(partial: PartialFile, default_font: FontModel)
    requires
        partial.version is None,
        partial.selected_category is None,
        partial.categories is None,
        partial.font is None,
        default_font.valid(),
    ensures
        completed_file(partial, default_font).version == CONFIG_VERSION,
        completed_file(partial, default_font).categories.len() == 0,
        completed_file(partial, default_font).font == default_font,
        file::file_problem(completed_file(partial, default_font)) is None,
{
}

/// What a file says is kept, in its order; only what it leaves out is filled in.
pub proof fn law_written_fields_are_kept(
    partial: PartialFile,
    default_font: FontModel,
    category: int,
    button: int,
)
    ensures
        ({
            let completed = completed_file(partial, default_font);
            &&& partial.version matches Some(version) ==> completed.version == version
            &&& partial.version is None ==> completed.version == 1
            &&& partial.selected_category matches Some(selected) ==> completed.selected == selected
            &&& partial.selected_category is None ==> completed.selected == 0
            &&& partial.categories is None ==> completed.categories.len() == 0
            &&& partial.categories is Some ==> {
                let written = partial.categories->0@;
                &&& completed.categories.len() == written.len()
                &&& 0 <= category < written.len() ==> {
                    let kept = completed.categories[category];
                    &&& kept.name == written[category].name@
                    &&& written[category].buttons is None ==> kept.buttons.len() == 0
                    &&& written[category].buttons is Some ==> {
                        let buttons = written[category].buttons->0@;
                        &&& kept.buttons.len() == buttons.len()
                        &&& 0 <= button < buttons.len() ==> {
                            &&& kept.buttons[button].label == buttons[button].label@
                            &&& kept.buttons[button].executable_path
                                == buttons[button].executable_path@
                            &&& buttons[button].arguments matches Some(arguments)
                                ==> kept.buttons[button].arguments == arguments@
                            &&& buttons[button].arguments is None
                                ==> kept.buttons[button].arguments.len() == 0
                        }
                    }
                }
            }
        }),
{
}

/// What a file says of the font is kept, the family and the size each by itself.
pub proof fn law_written_font_is_kept(font: PartialFont, default: FontModel)
    ensures
        completed_font(None, default) == default,
        font.family matches Some(family) ==> completed_font(Some(font), default).family == family@,
        font.family is None ==> completed_font(Some(font), default).family == default.family,
        font.size matches Some(size) ==> completed_font(Some(font), default).size == size,
        font.size is None ==> completed_font(Some(font), default).size == default.size,
{
}

} // verus!
