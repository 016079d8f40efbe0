//! The command panel: categories of command buttons, one of them selected.

use vstd::prelude::*;

use crate::domain::command_button::{
    self, ButtonModel, CategoryDefinitionModel, CategoryModel, CommandButton, CommandButtonDefinition, CommandCategory,
    CommandCategoryDefinition, PlacedButton, CATEGORY_MESSAGE,
};
use crate::domain::layout::CommandButtonId;
use crate::error::{AppError, AppResult, ErrorModel};

verus! {

pub const UNKNOWN_BUTTON: &'static str = "unknown command button";

pub const UNKNOWN_CATEGORY: &'static str = "unknown command category";

pub const NO_CATEGORY: &'static str = "selected command category is missing";

pub const LAST_CATEGORY: &'static str = "the last command category cannot be deleted";

pub const AT_THE_EDGE: &'static str = "the item cannot be moved further";

pub const TOO_MANY_BUTTONS: &'static str = "too many command buttons";

/// A panel as a value.
#[verifier::ext_equal]
pub struct PanelModel {
    pub categories: Seq<CategoryModel>,
    pub selected: Option<int>,
    /// What the next new button's id is.
    pub next_id: int,
}

/// Definitions as placed buttons, numbered from `first`.
pub open spec fn numbered_buttons(category: CategoryDefinitionModel, first: int) -> CategoryModel {
    CategoryModel {
        name: category.name,
        buttons: Seq::new(
            category.buttons.len(),
            |i: int|
                PlacedButton {
                    id: CommandButtonId { value: (first + i) as u64 },
                    button: category.buttons[i],
                },
        ),
    }
}

/// How many buttons there are in some categories.
pub open spec fn button_count(categories: Seq<CategoryDefinitionModel>) -> nat
    decreases categories.len(),
{
    if categories.len() == 0 {
        0
    } else {
        button_count(categories.drop_last()) + categories.last().buttons.len()
    }
}

/// Definitions as categories, their buttons numbered from 1 throughout.
pub open spec fn numbered(categories: Seq<CategoryDefinitionModel>) -> Seq<CategoryModel>
    decreases categories.len(),
{
    if categories.len() == 0 {
        Seq::empty()
    } else {
        numbered(categories.drop_last()).push(
            numbered_buttons(categories.last(), 1int + button_count(categories.drop_last())),
        )
    }
}

impl PanelModel {
    /// Whether the button in some place has an id.
    pub open spec fn has_at(self, id: CommandButtonId, category: int, button: int) -> bool {
        &&& 0 <= category < self.categories.len()
        &&& 0 <= button < self.categories[category].buttons.len()
        &&& self.categories[category].buttons[button].id == id
    }

    /// Whether a button has an id.
    pub open spec fn knows(self, id: CommandButtonId) -> bool {
        exists|category: int, button: int| self.has_at(id, category, button)
    }

    /// The place of the button that has an id.
    pub open spec fn place(self, id: CommandButtonId) -> (int, int) {
        choose|place: (int, int)| #[trigger] self.has_at(id, place.0, place.1)
    }

    /// No two buttons have the same id, and the next one is new.
    pub open spec fn ids_distinct(self) -> bool {
        &&& forall|id: CommandButtonId, c: int, b: int, d: int, e: int|
            #[trigger] self.has_at(id, c, b) && #[trigger] self.has_at(id, d, e) ==> c == d && b
                == e
        &&& forall|id: CommandButtonId, c: int, b: int| #[trigger]
            self.has_at(id, c, b) ==> id.value < self.next_id
    }

    /// A category is selected if there is one.
    pub open spec fn selection_valid(self) -> bool {
        match self.selected {
            Some(index) => 0 <= index < self.categories.len(),
            None => self.categories.len() == 0,
        }
    }

    pub open spec fn valid(self) -> bool {
        self.ids_distinct() && self.selection_valid() && 1 <= self.next_id <= u64::MAX
    }

    /// The buttons of one category replaced.
    pub open spec fn with_buttons(self, category: int, buttons: Seq<PlacedButton>) -> PanelModel {
        PanelModel {
            categories: self.categories.update(
                category,
                CategoryModel { name: self.categories[category].name, buttons },
            ),
            ..self
        }
    }

    /// The buttons of the category that holds a button.
    pub open spec fn siblings(self, id: CommandButtonId) -> Seq<PlacedButton> {
        self.categories[self.place(id).0].buttons
    }

    /// A button behind those of the selected category.
    pub open spec fn add_button(self, button: ButtonModel) -> PanelModel {
        let added = self.with_buttons(
            self.selected->0,
            self.categories[self.selected->0].buttons.push(
                PlacedButton { id: CommandButtonId { value: self.next_id as u64 }, button },
            ),
        );
        PanelModel { next_id: self.next_id + 1, ..added }
    }

    /// A button with another definition in its place.
    pub open spec fn update_button(
        self,
        id: CommandButtonId,
        button: ButtonModel,
    ) -> PanelModel {
        self.with_buttons(
            self.place(id).0,
            self.siblings(id).update(self.place(id).1, PlacedButton { id, button }),
        )
    }

    /// A button gone.
    pub open spec fn delete_button(self, id: CommandButtonId) -> PanelModel {
        self.with_buttons(self.place(id).0, self.siblings(id).remove(self.place(id).1))
    }

    /// Two neighbours in a button's category, exchanged.
    pub open spec fn swap_buttons(self, id: CommandButtonId, first: int) -> PanelModel {
        let buttons = self.siblings(id);
        self.with_buttons(
            self.place(id).0,
            buttons.update(first, buttons[first + 1]).update(first + 1, buttons[first]),
        )
    }

    /// Two neighbouring categories exchanged, and one of them selected.
    pub open spec fn swap_categories(self, first: int, selected: int) -> PanelModel {
        PanelModel {
            categories: self.categories.update(first, self.categories[first + 1]).update(
                first + 1,
                self.categories[first],
            ),
            selected: Some(selected),
            ..self
        }
    }
}

/// A button's id tells its place.
pub proof fn lemma_place(panel: PanelModel, id: CommandButtonId, category: int, button: int)
    requires
        panel.ids_distinct(),
        panel.has_at(id, category, button),
    ensures
        panel.knows(id),
        panel.place(id) == (category, button),
{
    let place = (category, button);
    assert(panel.has_at(id, place.0, place.1));
    let chosen = panel.place(id);
    assert(panel.has_at(id, chosen.0, chosen.1));
}

/// The ids of numbered definitions are those from 1 on, in order.
pub proof fn lemma_numbered(categories: Seq<CategoryDefinitionModel>)
    requires
        button_count(categories) < u64::MAX,
    ensures
        numbered(categories).len() == categories.len(),
        (PanelModel {
            categories: numbered(categories),
            selected: None,
            next_id: 1int + button_count(categories),
        }).ids_distinct(),
    decreases categories.len(),
{
    let next = 1int + button_count(categories);
    let panel = PanelModel { categories: numbered(categories), selected: None, next_id: next };
    if categories.len() > 0 {
        let before = categories.drop_last();
        lemma_numbered(before);
        let first = 1int + button_count(before);
        let earlier = PanelModel { categories: numbered(before), selected: None, next_id: first };
        let last = before.len() as int;
        assert forall|id: CommandButtonId, c: int, b: int| #[trigger] panel.has_at(id, c, b) implies {
            &&& c < last ==> earlier.has_at(id, c, b) && id.value < first
            &&& c == last ==> id.value == first + b && id.value < next
        } by {
            if c < last {
                assert(numbered(categories)[c] == numbered(before)[c]);
                assert(earlier.has_at(id, c, b));
            } else {
                assert(numbered(categories)[c] == numbered_buttons(categories.last(), first));
            }
        }
        assert forall|id: CommandButtonId, c: int, b: int, d: int, e: int| #[trigger]
            panel.has_at(id, c, b) && #[trigger] panel.has_at(id, d, e) implies c == d && b == e by {
            if c < last && d < last {
                assert(earlier.has_at(id, c, b) && earlier.has_at(id, d, e));
            }
        }
    }
}

/// Categories of command buttons, one of them selected.
#[derive(Clone, Debug, PartialEq, Eq)]
pub struct CommandPanel {
    categories: Vec<CommandCategory>,
    selected: Option<usize>,
    next_id: u64,
}

pub open spec fn category_models(categories: Seq<CommandCategory>) -> Seq<CategoryModel> {
    categories.map_values(|category: CommandCategory| category@)
}

pub open spec fn definition_models(definitions: Seq<CommandCategoryDefinition>) -> Seq<
    CategoryDefinitionModel,
> {
    definitions.map_values(|definition: CommandCategoryDefinition| definition@)
}

impl View for CommandPanel {
    type V = PanelModel;

    closed spec fn view(&self) -> PanelModel {
        PanelModel {
            categories: category_models(self.categories@),
            selected: match self.selected {
                Some(index) => Some(index as int),
                None => None,
            },
            next_id: self.next_id as int,
        }
    }
}

/// One category's buttons, numbered from `first`.
fn place_buttons(category: CommandCategoryDefinition, first: u64) -> (placed: CommandCategory)
    requires
        first + category.buttons@.len() <= u64::MAX,
    ensures
        placed@ == numbered_buttons(category@, first as int),
{
    let ghost model = category@;
    let name = category.name;
    let ghost definitions = category.buttons@;
    let mut buttons: Vec<CommandButton> = Vec::new();
    for definition in iter: category.buttons
        invariant
            iter.seq() == definitions,
            first + definitions.len() <= u64::MAX,
            buttons@.len() == iter.index(),
            forall|i: int|
                0 <= i < buttons@.len() ==> (#[trigger] buttons@[i])@ == (PlacedButton {
                    id: CommandButtonId { value: (first + i) as u64 },
                    button: definitions[i]@,
                }),
    {
        let id = CommandButtonId { value: first + buttons.len() as u64 };
        buttons.push(CommandButton::from_definition(id, definition));
    }
    let placed = CommandCategory { name, buttons };
    assert(placed@.buttons =~= numbered_buttons(model, first as int).buttons);
    placed
}

impl CommandPanel {
    /// A panel with these categories; `selected` is one of them, unless there
    /// is none.
    pub fn from_definitions(
        definitions: Vec<CommandCategoryDefinition>,
        selected: usize,
    ) -> (panel: AppResult<Self>)
        ensures
            panel is Ok == {
                &&& button_count(definition_models(definitions@)) < u64::MAX
                &&& definitions@.len() == 0 || selected < definitions@.len()
            },
            panel is Ok ==> (panel->Ok_0)@.valid() && (panel->Ok_0)@ == (PanelModel {
                categories: numbered(definition_models(definitions@)),
                selected: if definitions@.len() == 0 {
                    None
                } else {
                    Some(selected as int)
                },
                next_id: 1int + button_count(definition_models(definitions@)),
            }),
            panel is Err ==> (panel->Err_0)@ == ErrorModel::InvalidInput(
                if definitions@.len() > 0 && selected >= definitions@.len() {
                    UNKNOWN_CATEGORY@
                } else {
                    TOO_MANY_BUTTONS@
                },
            ),
    {
        let ghost models = definition_models(definitions@);
        let ghost all = definitions@;
        let chosen = if definitions.len() == 0 {
            None
        } else if selected < definitions.len() {
            Some(selected)
        } else {
            return Err(AppError::InvalidInput(UNKNOWN_CATEGORY));
        };
        let mut categories: Vec<CommandCategory> = Vec::new();
        let mut next_id: u64 = 1;
        assert(models.take(0) =~= Seq::<CategoryDefinitionModel>::empty());
        for definition in iter: definitions
            invariant
                iter.seq() == all,
                models == definition_models(all),
                all == definitions@,
                all.len() == 0 || selected < all.len(),
                categories@.len() == iter.index(),
                category_models(categories@) =~= numbered(models.take(iter.index() as int)),
                next_id == 1 + button_count(models.take(iter.index() as int)),
        {
            let ghost index = categories@.len() as int;
            let ghost done = models.take(index + 1);
            proof {
                assert(done.drop_last() =~= models.take(index));
                assert(done.last() == definition@);
            }
            let count = definition.buttons.len() as u64;
            if count > u64::MAX - next_id {
                proof {
                    lemma_count_grows(models, index + 1);
                }
                return Err(AppError::InvalidInput(TOO_MANY_BUTTONS));
            }
            let ghost before = category_models(categories@);
            categories.push(place_buttons(definition, next_id));
            proof {
                assert(category_models(categories@) =~= before.push(categories@[index]@));
            }
            next_id = next_id + count;
        }
        proof {
            assert(models.take(models.len() as int) =~= models);
            lemma_numbered(models);
        }
        let panel = CommandPanel { categories, selected: chosen, next_id };
        assert(panel@.ids_distinct()) by {
            let same = PanelModel {
                categories: numbered(models),
                selected: None,
                next_id: 1int + button_count(models),
            };
            assert forall|id: CommandButtonId, c: int, b: int| #[trigger]
                panel@.has_at(id, c, b) implies same.has_at(id, c, b) by {}
        }
        Ok(panel)
    }
}

/// More categories have no fewer buttons.
proof fn lemma_count_grows(categories: Seq<CategoryDefinitionModel>, part: int)
    requires
        0 <= part <= categories.len(),
    ensures
        button_count(categories.take(part)) <= button_count(categories),
    decreases categories.len() - part,
{
    if part == categories.len() {
        assert(categories.take(part) =~= categories);
    } else {
        assert(categories.take(part + 1).drop_last() =~= categories.take(part));
        lemma_count_grows(categories, part + 1);
    }
}

/// Changing a button in its place leaves the ids as they are.
proof fn lemma_update_button(panel: PanelModel, id: CommandButtonId, button: ButtonModel)
    requires
        panel.valid(),
        panel.knows(id),
    ensures
        panel.update_button(id, button).valid(),
{
    lemma_known(panel, id);
    let next = panel.update_button(id, button);
    assert forall|other: CommandButtonId, c: int, b: int| #[trigger]
        next.has_at(other, c, b) implies panel.has_at(other, c, b) by {}
}

/// A button that is gone leaves the other ids as they are.
proof fn lemma_delete_button(panel: PanelModel, id: CommandButtonId)
    requires
        panel.valid(),
        panel.knows(id),
    ensures
        panel.delete_button(id).valid(),
        !panel.delete_button(id).knows(id),
{
    lemma_known(panel, id);
    let place = panel.place(id);
    let next = panel.delete_button(id);
    assert forall|other: CommandButtonId, c: int, b: int| #[trigger]
        next.has_at(other, c, b) implies panel.has_at(
        other,
        c,
        if c == place.0 && b >= place.1 {
            b + 1
        } else {
            b
        },
    ) && other != id by {
        let from = if c == place.0 && b >= place.1 {
            b + 1
        } else {
            b
        };
        assert(panel.has_at(other, c, from));
        assert(panel.has_at(id, place.0, place.1));
    }
}

/// Exchanging two buttons leaves the ids as they are.
proof fn lemma_swap_buttons(panel: PanelModel, id: CommandButtonId, first: int)
    requires
        panel.valid(),
        panel.knows(id),
        0 <= first,
        first + 1 < panel.siblings(id).len(),
    ensures
        panel.swap_buttons(id, first).valid(),
{
    lemma_known(panel, id);
    let category = panel.place(id).0;
    let next = panel.swap_buttons(id, first);
    assert forall|other: CommandButtonId, c: int, b: int| #[trigger]
        next.has_at(other, c, b) implies panel.has_at(other, c, swapped(c == category, first, b)) by {}
}

/// Where an index comes from once `first` and its neighbour are exchanged.
spec fn swapped(exchanged: bool, first: int, index: int) -> int {
    if exchanged && index == first {
        first + 1
    } else if exchanged && index == first + 1 {
        first
    } else {
        index
    }
}

/// Exchanging two categories leaves the ids as they are.
proof fn lemma_swap_categories(panel: PanelModel, first: int, selected: int)
    requires
        panel.valid(),
        0 <= first,
        first + 1 < panel.categories.len(),
        0 <= selected < panel.categories.len(),
    ensures
        panel.swap_categories(first, selected).valid(),
{
    let next = panel.swap_categories(first, selected);
    assert forall|id: CommandButtonId, c: int, b: int| #[trigger]
        next.has_at(id, c, b) implies panel.has_at(id, swapped(true, first, c), b) by {}
}

/// A new button gets an id of its own.
proof fn lemma_add_button(panel: PanelModel, button: ButtonModel)
    requires
        panel.valid(),
        panel.selected is Some,
        panel.next_id < u64::MAX,
    ensures
        panel.add_button(button).valid(),
{
    let category = panel.selected->0;
    let count = panel.categories[category].buttons.len();
    let next = panel.add_button(button);
    assert forall|id: CommandButtonId, c: int, b: int| #[trigger] next.has_at(id, c, b) implies {
        ||| panel.has_at(id, c, b)
        ||| c == category && b == count && id.value == panel.next_id
    } by {}
}

/// The place of a known button.
proof fn lemma_known(panel: PanelModel, id: CommandButtonId)
    requires
        panel.ids_distinct(),
        panel.knows(id),
    ensures
        panel.has_at(id, panel.place(id).0, panel.place(id).1),
{
    let (category, button) = choose|category: int, button: int| panel.has_at(id, category, button);
    lemma_place(panel, id, category, button);
}

impl CommandPanel {
    pub fn categories(&self) -> (categories: &Vec<CommandCategory>)
        ensures
            category_models(categories@) == self@.categories,
    {
        &self.categories
    }

    pub fn selected_category_index(&self) -> (index: Option<usize>)
        ensures
            index is Some == self@.selected is Some,
            index is Some ==> index->0 == self@.selected->0,
    {
        self.selected
    }

    pub fn selected_category(&self) -> (category: Option<&CommandCategory>)
        requires
            self@.valid(),
        ensures
            category is Some == self@.selected is Some,
            category is Some ==> (category->0)@ == self@.categories[self@.selected->0],
    {
        match self.selected {
            Some(index) => Some(&self.categories[index]),
            None => None,
        }
    }

    /// A copy with the same categories and selection.
    pub fn copy(&self) -> (panel: Self)
        ensures
            panel@ == self@,
    {
        let mut categories: Vec<CommandCategory> = Vec::new();
        let mut index: usize = 0;
        while index < self.categories.len()
            invariant
                index <= self.categories@.len(),
                categories@.len() == index,
                forall|i: int|
                    0 <= i < index ==> categories@[i]@ == #[trigger] self.categories@[i]@,
            decreases self.categories@.len() - index,
        {
            categories.push(self.categories[index].copy());
            index += 1;
        }
        assert(category_models(categories@) =~= category_models(self.categories@));
        CommandPanel { categories, selected: self.selected, next_id: self.next_id }
    }

    fn find(&self, id: CommandButtonId) -> (place: Option<(usize, usize)>)
        requires
            self@.valid(),
        ensures
            place is Some == self@.knows(id),
            place is Some ==> {
                &&& self@.has_at(id, (place->0).0 as int, (place->0).1 as int)
                &&& self@.place(id) == ((place->0).0 as int, (place->0).1 as int)
            },
    {
        let mut category: usize = 0;
        while category < self.categories.len()
            invariant
                self@.valid(),
                category <= self.categories@.len(),
                forall|c: int, b: int| c < category ==> !#[trigger] self@.has_at(id, c, b),
            decreases self.categories@.len() - category,
        {
            let mut button: usize = 0;
            while button < self.categories[category].buttons.len()
                invariant
                    self@.valid(),
                    category < self.categories@.len(),
                    button <= self.categories@[category as int].buttons@.len(),
                    forall|c: int, b: int|
                        c < category || c == category && b < button ==> !#[trigger] self@.has_at(
                            id,
                            c,
                            b,
                        ),
                decreases self.categories@[category as int].buttons@.len() - button,
            {
                if self.categories[category].buttons[button].id == id {
                    proof {
                        assert(self@.has_at(id, category as int, button as int));
                        lemma_place(self@, id, category as int, button as int);
                    }
                    return Some((category, button));
                }
                button += 1;
            }
            category += 1;
        }
        None
    }

    pub fn button_by_id(&self, id: CommandButtonId) -> (button: Option<&CommandButton>)
        requires
            self@.valid(),
        ensures
            button is Some == self@.knows(id),
            button is Some ==> (button->0)@ == self@.siblings(id)[self@.place(id).1],
    {
        match self.find(id) {
            Some((category, button)) => Some(&self.categories[category].buttons[button]),
            None => None,
        }
    }
}

impl CommandPanel {
    /// Selects the category at an index.
    pub fn select_category_by_index(&mut self, index: usize) -> (result: AppResult<()>)
        requires
            old(self)@.valid(),
        ensures
            final(self)@.valid(),
            result is Ok == (index < old(self)@.categories.len()),
            result is Ok ==> final(self)@ == (PanelModel {
                selected: Some(index as int),
                ..old(self)@
            }),
            result is Err ==> final(self)@ == old(self)@ && (result->Err_0)@
                == ErrorModel::InvalidInput(UNKNOWN_CATEGORY@),
    {
        if index >= self.categories.len() {
            return Err(AppError::InvalidInput(UNKNOWN_CATEGORY));
        }
        self.selected = Some(index);
        proof {
            lemma_same_buttons(*old(self), *self);
        }
        Ok(())
    }

    /// Puts an empty category behind the others and selects it.
    pub fn add_category_named(&mut self, name: String) -> (result: AppResult<()>)
        requires
            old(self)@.valid(),
        ensures
            final(self)@.valid(),
            result is Ok == command_button::names(name@),
            result is Ok ==> final(self)@ == (PanelModel {
                categories: old(self)@.categories.push(
                    CategoryModel { name: name@, buttons: Seq::empty() },
                ),
                selected: Some(old(self)@.categories.len() as int),
                ..old(self)@
            }),
            result is Err ==> final(self)@ == old(self)@ && (result->Err_0)@
                == ErrorModel::InvalidInput(CATEGORY_MESSAGE@),
    {
        match CommandCategoryDefinition::check_name(name.as_str()) {
            Ok(()) => {},
            Err(error) => return Err(error),
        }
        let index = self.categories.len();
        self.categories.push(CommandCategory { name, buttons: Vec::new() });
        self.selected = Some(index);
        proof {
            let ghost added = CategoryModel { name: name@, buttons: Seq::empty() };
            assert(self.categories@[index as int]@.buttons =~= Seq::empty());
            assert(self@.categories =~= old(self)@.categories.push(added));
            assert forall|id: CommandButtonId, c: int, b: int| #[trigger]
                self@.has_at(id, c, b) implies old(self)@.has_at(id, c, b) by {}
        }
        Ok(())
    }

    /// Gives the selected category another name.
    pub fn rename_selected_category(&mut self, name: String) -> (result: AppResult<()>)
        requires
            old(self)@.valid(),
        ensures
            final(self)@.valid(),
            result is Ok == (command_button::names(name@) && old(self)@.selected is Some),
            result is Ok ==> final(self)@ == (PanelModel {
                categories: old(self)@.categories.update(
                    old(self)@.selected->0,
                    CategoryModel {
                        name: name@,
                        buttons: old(self)@.categories[old(self)@.selected->0].buttons,
                    },
                ),
                ..old(self)@
            }),
            result is Err ==> final(self)@ == old(self)@ && (result->Err_0)@ == (
            if !command_button::names(name@) {
                ErrorModel::InvalidInput(CATEGORY_MESSAGE@)
            } else {
                ErrorModel::InvalidState(NO_CATEGORY@)
            }),
    {
        match CommandCategoryDefinition::check_name(name.as_str()) {
            Ok(()) => {},
            Err(error) => return Err(error),
        }
        match self.selected {
            Some(index) => {
                self.categories[index].name = name;
                proof {
                    assert(self@.categories =~= old(self)@.categories.update(
                        index as int,
                        CategoryModel {
                            name: name@,
                            buttons: old(self)@.categories[index as int].buttons,
                        },
                    ));
                    assert forall|id: CommandButtonId, c: int, b: int| #[trigger]
                        self@.has_at(id, c, b) implies old(self)@.has_at(id, c, b) by {}
                }
                Ok(())
            },
            None => Err(AppError::InvalidState(NO_CATEGORY)),
        }
    }

    pub fn can_delete_selected_category(&self) -> (can: bool)
        ensures
            can == (self@.categories.len() > 1),
    {
        self.categories.len() > 1
    }

    /// Deletes the selected category unless it is the last one; the one behind
    /// it is selected then, or the one before it where there is none behind.
    pub fn delete_selected_category(&mut self) -> (result: AppResult<()>)
        requires
            old(self)@.valid(),
        ensures
            final(self)@.valid(),
            result is Ok == (old(self)@.categories.len() > 1),
            result is Ok ==> final(self)@ == (PanelModel {
                categories: old(self)@.categories.remove(old(self)@.selected->0),
                selected: Some(
                    if old(self)@.selected->0 + 1 == old(self)@.categories.len() {
                        old(self)@.selected->0 - 1
                    } else {
                        old(self)@.selected->0
                    },
                ),
                ..old(self)@
            }),
            result is Err ==> final(self)@ == old(self)@ && (result->Err_0)@
                == ErrorModel::InvalidState(LAST_CATEGORY@),
    {
        if self.categories.len() <= 1 {
            return Err(AppError::InvalidState(LAST_CATEGORY));
        }
        match self.selected {
            Some(index) => {
                let _ = self.categories.remove(index);
                self.selected = if index == self.categories.len() {
                    Some(index - 1)
                } else {
                    Some(index)
                };
                proof {
                    assert(self@.categories =~= old(self)@.categories.remove(index as int));
                    assert forall|id: CommandButtonId, c: int, b: int| #[trigger]
                        self@.has_at(id, c, b) implies old(self)@.has_at(
                        id,
                        if c >= index {
                            c + 1
                        } else {
                            c
                        },
                        b,
                    ) by {}
                }
            },
            None => {},
        }
        Ok(())
    }
}

/// A panel that differs in its selection only has the same ids.
proof fn lemma_same_buttons(before: CommandPanel, after: CommandPanel)
    requires
        before@.ids_distinct(),
        after@.categories == before@.categories,
        after@.next_id == before@.next_id,
    ensures
        after@.ids_distinct(),
{
    assert forall|id: CommandButtonId, c: int, b: int| #[trigger]
        after@.has_at(id, c, b) implies before@.has_at(id, c, b) by {}
}

impl PanelModel {
    pub open spec fn can_move_category_up(self) -> bool {
        self.selected is Some && self.selected->0 > 0
    }

    pub open spec fn can_move_category_down(self) -> bool {
        self.selected is Some && self.selected->0 + 1 < self.categories.len()
    }

    pub open spec fn can_move_button_up(self, id: CommandButtonId) -> bool {
        self.knows(id) && self.place(id).1 > 0
    }

    pub open spec fn can_move_button_down(self, id: CommandButtonId) -> bool {
        self.knows(id) && self.place(id).1 + 1 < self.siblings(id).len()
    }
}

impl CommandPanel {
    pub fn can_move_selected_category_up(&self) -> (can: bool)
        ensures
            can == self@.can_move_category_up(),
    {
        match self.selected {
            Some(index) => index > 0,
            None => false,
        }
    }

    pub fn can_move_selected_category_down(&self) -> (can: bool)
        requires
            self@.valid(),
        ensures
            can == self@.can_move_category_down(),
    {
        match self.selected {
            Some(index) => index < self.categories.len() - 1,
            None => false,
        }
    }

    fn swap_categories(&mut self, first: usize, selected: usize)
        requires
            old(self)@.valid(),
            first + 1 < old(self)@.categories.len(),
            selected < old(self)@.categories.len(),
        ensures
            final(self)@.valid(),
            final(self)@ == old(self)@.swap_categories(first as int, selected as int),
    {
        proof {
            lemma_swap_categories(self@, first as int, selected as int);
        }
        let moved = self.categories.remove(first);
        self.categories.insert(first + 1, moved);
        self.selected = Some(selected);
        assert(self@.categories =~= old(self)@.swap_categories(
            first as int,
            selected as int,
        ).categories);
    }

    /// Exchanges the selected category with the one before it; it stays
    /// selected.
    pub fn move_selected_category_up(&mut self) -> (result: AppResult<()>)
        requires
            old(self)@.valid(),
        ensures
            final(self)@.valid(),
            result is Ok == old(self)@.can_move_category_up(),
            result is Ok ==> final(self)@ == old(self)@.swap_categories(
                old(self)@.selected->0 - 1,
                old(self)@.selected->0 - 1,
            ),
            result is Err ==> final(self)@ == old(self)@ && (result->Err_0)@
                == ErrorModel::InvalidState(AT_THE_EDGE@),
    {
        match self.selected {
            Some(index) => {
                if index == 0 {
                    return Err(AppError::InvalidState(AT_THE_EDGE));
                }
                self.swap_categories(index - 1, index - 1);
                Ok(())
            },
            None => Err(AppError::InvalidState(AT_THE_EDGE)),
        }
    }

    /// Exchanges the selected category with the one behind it; it stays
    /// selected.
    pub fn move_selected_category_down(&mut self) -> (result: AppResult<()>)
        requires
            old(self)@.valid(),
        ensures
            final(self)@.valid(),
            result is Ok == old(self)@.can_move_category_down(),
            result is Ok ==> final(self)@ == old(self)@.swap_categories(
                old(self)@.selected->0,
                old(self)@.selected->0 + 1,
            ),
            result is Err ==> final(self)@ == old(self)@ && (result->Err_0)@
                == ErrorModel::InvalidState(AT_THE_EDGE@),
    {
        match self.selected {
            Some(index) => {
                if index >= self.categories.len() - 1 {
                    return Err(AppError::InvalidState(AT_THE_EDGE));
                }
                self.swap_categories(index, index + 1);
                Ok(())
            },
            None => Err(AppError::InvalidState(AT_THE_EDGE)),
        }
    }

    /// Puts a new button behind those of the selected category.
    pub fn add_button_to_selected_category(&mut self, definition: CommandButtonDefinition) -> (result:
        AppResult<()>)
        requires
            old(self)@.valid(),
        ensures
            final(self)@.valid(),
            result is Ok == (old(self)@.selected is Some && old(self)@.next_id < u64::MAX),
            result is Ok ==> final(self)@ == old(self)@.add_button(definition@),
            result is Err ==> final(self)@ == old(self)@ && (result->Err_0)@ == (
            if old(self)@.selected is None {
                ErrorModel::InvalidState(NO_CATEGORY@)
            } else {
                ErrorModel::InvalidInput(TOO_MANY_BUTTONS@)
            }),
    {
        match self.selected {
            Some(index) => {
                if self.next_id == u64::MAX {
                    return Err(AppError::InvalidInput(TOO_MANY_BUTTONS));
                }
                proof {
                    lemma_add_button(self@, definition@);
                }
                let id = CommandButtonId { value: self.next_id };
                self.categories[index].buttons.push(CommandButton::from_definition(id, definition));
                self.next_id = self.next_id + 1;
                proof {
                    let ghost expected = old(self)@.add_button(definition@);
                    assert(self@.categories[index as int].buttons
                        =~= expected.categories[index as int].buttons);
                    assert(self@.categories =~= expected.categories);
                }
                Ok(())
            },
            None => Err(AppError::InvalidState(NO_CATEGORY)),
        }
    }

    /// Gives a button another definition; its id and place stay.
    pub fn update_button(
        &mut self,
        id: CommandButtonId,
        definition: CommandButtonDefinition,
    ) -> (result: AppResult<()>)
        requires
            old(self)@.valid(),
        ensures
            final(self)@.valid(),
            result is Ok == old(self)@.knows(id),
            result is Ok ==> final(self)@ == old(self)@.update_button(id, definition@),
            result is Err ==> final(self)@ == old(self)@ && (result->Err_0)@
                == ErrorModel::InvalidInput(UNKNOWN_BUTTON@),
    {
        match self.find(id) {
            Some((category, button)) => {
                proof {
                    lemma_update_button(self@, id, definition@);
                }
                self.categories[category].buttons[button] = CommandButton::from_definition(
                    id,
                    definition,
                );
                proof {
                    let ghost expected = old(self)@.update_button(id, definition@);
                    assert(self@.categories[category as int].buttons
                        =~= expected.categories[category as int].buttons);
                    assert(self@.categories =~= expected.categories);
                }
                Ok(())
            },
            None => Err(AppError::InvalidInput(UNKNOWN_BUTTON)),
        }
    }

    pub fn delete_button(&mut self, id: CommandButtonId) -> (result: AppResult<()>)
        requires
            old(self)@.valid(),
        ensures
            final(self)@.valid(),
            result is Ok == old(self)@.knows(id),
            result is Ok ==> final(self)@ == old(self)@.delete_button(id),
            result is Err ==> final(self)@ == old(self)@ && (result->Err_0)@
                == ErrorModel::InvalidInput(UNKNOWN_BUTTON@),
    {
        match self.find(id) {
            Some((category, button)) => {
                proof {
                    lemma_delete_button(self@, id);
                }
                let _ = self.categories[category].buttons.remove(button);
                proof {
                    let ghost expected = old(self)@.delete_button(id);
                    assert(self@.categories[category as int].buttons
                        =~= expected.categories[category as int].buttons);
                    assert(self@.categories =~= expected.categories);
                }
                Ok(())
            },
            None => Err(AppError::InvalidInput(UNKNOWN_BUTTON)),
        }
    }

    pub fn can_move_button_up(&self, id: CommandButtonId) -> (can: bool)
        requires
            self@.valid(),
        ensures
            can == self@.can_move_button_up(id),
    {
        match self.find(id) {
            Some((_, button)) => button > 0,
            None => false,
        }
    }

    pub fn can_move_button_down(&self, id: CommandButtonId) -> (can: bool)
        requires
            self@.valid(),
        ensures
            can == self@.can_move_button_down(id),
    {
        match self.find(id) {
            Some((category, button)) => button < self.categories[category].buttons.len() - 1,
            None => false,
        }
    }

    fn swap_buttons(&mut self, id: CommandButtonId, category: usize, first: usize)
        requires
            old(self)@.valid(),
            old(self)@.knows(id),
            old(self)@.place(id).0 == category,
            first + 1 < old(self)@.siblings(id).len(),
            category < old(self)@.categories.len(),
        ensures
            final(self)@.valid(),
            final(self)@ == old(self)@.swap_buttons(id, first as int),
    {
        proof {
            lemma_swap_buttons(self@, id, first as int);
        }
        let count = self.categories[category].buttons.len();
        assert(count == self@.siblings(id).len());
        let moved = self.categories[category].buttons.remove(first);
        self.categories[category].buttons.insert(first + 1, moved);
        proof {
            let ghost expected = old(self)@.swap_buttons(id, first as int);
            assert(self@.categories[category as int].buttons
                =~= expected.categories[category as int].buttons);
            assert(self@.categories =~= expected.categories);
        }
    }

    /// Exchanges a button with the one before it.
    pub fn move_button_up(&mut self, id: CommandButtonId) -> (result: AppResult<()>)
        requires
            old(self)@.valid(),
        ensures
            final(self)@.valid(),
            result is Ok == old(self)@.can_move_button_up(id),
            result is Ok ==> final(self)@ == old(self)@.swap_buttons(
                id,
                old(self)@.place(id).1 - 1,
            ),
            result is Err ==> final(self)@ == old(self)@ && (result->Err_0)@ == move_error(
                old(self)@,
                id,
            ),
    {
        match self.find(id) {
            Some((category, button)) => {
                if button == 0 {
                    return Err(AppError::InvalidState(AT_THE_EDGE));
                }
                self.swap_buttons(id, category, button - 1);
                Ok(())
            },
            None => Err(AppError::InvalidInput(UNKNOWN_BUTTON)),
        }
    }

    /// Exchanges a button with the one behind it.
    pub fn move_button_down(&mut self, id: CommandButtonId) -> (result: AppResult<()>)
        requires
            old(self)@.valid(),
        ensures
            final(self)@.valid(),
            result is Ok == old(self)@.can_move_button_down(id),
            result is Ok ==> final(self)@ == old(self)@.swap_buttons(id, old(self)@.place(id).1),
            result is Err ==> final(self)@ == old(self)@ && (result->Err_0)@ == move_error(
                old(self)@,
                id,
            ),
    {
        match self.find(id) {
            Some((category, button)) => {
                if button >= self.categories[category].buttons.len() - 1 {
                    return Err(AppError::InvalidState(AT_THE_EDGE));
                }
                self.swap_buttons(id, category, button);
                Ok(())
            },
            None => Err(AppError::InvalidInput(UNKNOWN_BUTTON)),
        }
    }
}

/// Why a button cannot be moved.
pub open spec fn move_error(panel: PanelModel, id: CommandButtonId) -> ErrorModel {
    if panel.knows(id) {
        ErrorModel::InvalidState(AT_THE_EDGE@)
    } else {
        ErrorModel::InvalidInput(UNKNOWN_BUTTON@)
    }
}

/// Moving the selected category up and down again changes nothing.
pub proof fn law_category_moves_undo_each_other(panel: PanelModel)
    requires
        panel.valid(),
        panel.can_move_category_up(),
    ensures
        panel.swap_categories(panel.selected->0 - 1, panel.selected->0 - 1).swap_categories(
            panel.selected->0 - 1,
            panel.selected->0,
        ) =~= panel,
{
}

} // verus!
