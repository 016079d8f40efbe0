//! What holds of every change to a command panel.

use vstd::prelude::*;

use crate::domain::command_button::{ButtonModel, CategoryDefinitionModel};
use crate::domain::command_panel::{self, PanelModel};
use crate::domain::layout::CommandButtonId;

verus! {

/// A new button is the last one of the selected category, with an id that no button had. All
/// other buttons stay in their places, all categories keep their names, and the same one is
/// selected.
pub proof fn law_added_button_is_last_and_new(
    panel: PanelModel,
    button: ButtonModel,
    category: int,
    at: int,
    other: CommandButtonId,
)
    requires
        panel.valid(),
        panel.selected is Some,
        panel.next_id < u64::MAX,
    ensures
        ({
            let next = panel.add_button(button);
            let chosen = panel.selected->0;
            let added = next.categories[chosen].buttons.last();
            &&& next.selected == panel.selected
            &&& next.categories.len() == panel.categories.len()
            &&& next.categories[chosen].buttons.len() == panel.categories[chosen].buttons.len() + 1
            &&& added.button == button
            &&& !panel.knows(added.id)
            &&& next.knows(added.id)
            &&& next.next_id > added.id.value
            &&& 0 <= category < panel.categories.len() ==> next.categories[category].name
                == panel.categories[category].name
            &&& 0 <= category < panel.categories.len() && 0 <= at
                < panel.categories[category].buttons.len() ==> next.categories[category].buttons[at]
                == panel.categories[category].buttons[at]
            &&& 0 <= category < panel.categories.len() && category != chosen
                ==> next.categories[category] == panel.categories[category]
            &&& panel.knows(other) ==> next.knows(other)
        }),
{
    let next = panel.add_button(button);
    let chosen = panel.selected->0;
    let count = panel.categories[chosen].buttons.len() as int;
    let added = next.categories[chosen].buttons.last();
    assert(next.has_at(added.id, chosen, count));
    if panel.knows(added.id) {
        let (c, b) = choose|c: int, b: int| panel.has_at(added.id, c, b);
        assert(panel.has_at(added.id, c, b));
    }
    if panel.knows(other) {
        let (c, b) = choose|c: int, b: int| panel.has_at(other, c, b);
        assert(next.has_at(other, c, b));
    }
}

/// A button that is changed keeps its id and its place; nothing else changes.
pub proof fn law_changed_button_keeps_its_place(
    panel: PanelModel,
    id: CommandButtonId,
    button: ButtonModel,
    own_category: int,
    own: int,
    category: int,
    at: int,
)
    requires
        panel.valid(),
        panel.has_at(id, own_category, own),
    ensures
        ({
            let next = panel.update_button(id, button);
            &&& next.has_at(id, own_category, own)
            &&& next.categories[own_category].buttons[own].button == button
            &&& next.selected == panel.selected
            &&& next.next_id == panel.next_id
            &&& next.categories.len() == panel.categories.len()
            &&& 0 <= category < panel.categories.len() ==> {
                &&& next.categories[category].name == panel.categories[category].name
                &&& next.categories[category].buttons.len()
                    == panel.categories[category].buttons.len()
                &&& 0 <= at < panel.categories[category].buttons.len() && !(category == own_category
                    && at == own) ==> next.categories[category].buttons[at]
                    == panel.categories[category].buttons[at]
            }
        }),
{
    command_panel::lemma_place(panel, id, own_category, own);
}

/// A button that is deleted is gone; those behind it in its category move up by one place,
/// and nothing else changes.
pub proof fn law_deleted_button_is_gone(
    panel: PanelModel,
    id: CommandButtonId,
    own_category: int,
    own: int,
    category: int,
    at: int,
)
    requires
        panel.valid(),
        panel.has_at(id, own_category, own),
    ensures
        ({
            let next = panel.delete_button(id);
            let before = panel.categories[own_category].buttons;
            let after = next.categories[own_category].buttons;
            &&& !next.knows(id)
            &&& next.selected == panel.selected
            &&& next.next_id == panel.next_id
            &&& next.categories.len() == panel.categories.len()
            &&& next.categories[own_category].name == panel.categories[own_category].name
            &&& after.len() == before.len() - 1
            &&& 0 <= at < own ==> after[at] == before[at]
            &&& own <= at < after.len() ==> after[at] == before[at + 1]
            &&& 0 <= category < panel.categories.len() && category != own_category
                ==> next.categories[category] == panel.categories[category]
        }),
{
    command_panel::lemma_place(panel, id, own_category, own);
    let next = panel.delete_button(id);
    if next.knows(id) {
        let (c, b) = choose|c: int, b: int| next.has_at(id, c, b);
        assert(next.has_at(id, c, b));
        let from = if c == own_category && b >= own {
            b + 1
        } else {
            b
        };
        assert(panel.has_at(id, c, from));
    }
}

/// A button can be moved up exactly where another one of its category is before it, and down
/// exactly where another one is behind it; a button that is not there cannot be moved.
pub proof fn law_buttons_move_inside_their_category(
    panel: PanelModel,
    id: CommandButtonId,
    category: int,
    at: int,
)
    requires
        panel.valid(),
    ensures
        panel.has_at(id, category, at) ==> {
            &&& panel.can_move_button_up(id) <==> at > 0
            &&& panel.can_move_button_down(id) <==> at < panel.categories[category].buttons.len()
                - 1
        },
        !panel.knows(id) ==> !panel.can_move_button_up(id) && !panel.can_move_button_down(id),
{
    if panel.has_at(id, category, at) {
        command_panel::lemma_place(panel, id, category, at);
    }
}

/// A button that is exchanged with a neighbour is in the neighbour's place then and the
/// neighbour in its own; all others stay where they are. Exchanging the two again brings
/// everything back.
pub proof fn law_neighbours_are_exchanged(
    panel: PanelModel,
    id: CommandButtonId,
    category: int,
    own: int,
    first: int,
    at: int,
)
    requires
        panel.valid(),
        panel.has_at(id, category, own),
        0 <= first,
        first + 1 < panel.categories[category].buttons.len(),
        own == first || own == first + 1,
    ensures
        ({
            let next = panel.swap_buttons(id, first);
            let before = panel.categories[category].buttons;
            let after = next.categories[category].buttons;
            &&& after.len() == before.len()
            &&& after[first] == before[first + 1]
            &&& after[first + 1] == before[first]
            &&& 0 <= at < before.len() && at != first && at != first + 1 ==> after[at]
                == before[at]
            &&& next.has_at(
                id,
                category,
                if own == first {
                    first + 1
                } else {
                    first
                },
            )
            &&& next.selected == panel.selected
            &&& next.next_id == panel.next_id
            &&& next.categories.len() == panel.categories.len()
            &&& next.categories[category].name == panel.categories[category].name
            &&& forall|c: int|
                0 <= c < panel.categories.len() && c != category ==> #[trigger] next.categories[c]
                    == panel.categories[c]
        }),
{
    command_panel::lemma_place(panel, id, category, own);
}

/// The selected category can be moved up exactly where another one is before it, and down
/// exactly where another one is behind it.
pub proof fn law_categories_move_inside_the_panel(panel: PanelModel)
    requires
        panel.valid(),
    ensures
        panel.can_move_category_up() <==> panel.categories.len() > 0 && panel.selected->0 != 0,
        panel.can_move_category_down() <==> panel.categories.len() > 0 && panel.selected->0
            != panel.categories.len() - 1,
{
}

/// Two neighbouring categories that are exchanged are in each other's place then; all others
/// stay where they are, and no button changes.
pub proof fn law_categories_are_exchanged(panel: PanelModel, first: int, selected: int, at: int)
    requires
        panel.valid(),
        0 <= first,
        first + 1 < panel.categories.len(),
    ensures
        ({
            let next = panel.swap_categories(first, selected);
            &&& next.selected == Some(selected)
            &&& next.next_id == panel.next_id
            &&& next.categories.len() == panel.categories.len()
            &&& next.categories[first] == panel.categories[first + 1]
            &&& next.categories[first + 1] == panel.categories[first]
            &&& 0 <= at < panel.categories.len() && at != first && at != first + 1
                ==> next.categories[at] == panel.categories[at]
        }),
{
}

/// Categories that are read keep their names, their order and their buttons in order; the
/// buttons are numbered throughout, each with the number behind the one before it.
pub proof fn law_read_buttons_are_numbered(
    categories: Seq<CategoryDefinitionModel>,
    category: int,
    at: int,
)
    requires
        0 <= category < categories.len(),
        command_panel::button_count(categories) < u64::MAX,
    ensures
        ({
            let placed = command_panel::numbered(categories);
            let buttons = placed[category].buttons;
            let before = command_panel::button_count(categories.take(category));
            &&& placed.len() == categories.len()
            &&& placed[category].name == categories[category].name
            &&& buttons.len() == categories[category].buttons.len()
            &&& 0 <= at < buttons.len() ==> {
                &&& buttons[at].button == categories[category].buttons[at]
                &&& buttons[at].id.value == before + at + 1
            }
            &&& command_panel::button_count(categories.take(category + 1)) == before
                + categories[category].buttons.len()
            &&& before + categories[category].buttons.len() <= command_panel::button_count(
                categories,
            )
        }),
    decreases categories.len(),
{
    let rest = categories.drop_last();
    assert(categories.take(category + 1).drop_last() =~= categories.take(category));
    if category == rest.len() {
        assert(categories.take(category) =~= rest);
        assert(categories.take(category + 1) =~= categories);
        lemma_numbered_length(rest);
    } else {
        law_read_buttons_are_numbered(rest, category, at);
        assert(rest.take(category) =~= categories.take(category));
        assert(rest.take(category + 1) =~= categories.take(category + 1));
    }
}

proof fn lemma_numbered_length(categories: Seq<CategoryDefinitionModel>)
    ensures
        command_panel::numbered(categories).len() == categories.len(),
    decreases categories.len(),
{
    if categories.len() > 0 {
        lemma_numbered_length(categories.drop_last());
    }
}

/// A button that a panel knows is found in the place that its id tells, and nowhere else.
pub proof fn law_id_tells_the_place(
    panel: PanelModel,
    id: CommandButtonId,
    category: int,
    at: int,
)
    requires
        panel.valid(),
        0 <= category < panel.categories.len(),
        0 <= at < panel.categories[category].buttons.len(),
    ensures
        panel.categories[category].buttons[at].id == id ==> panel.knows(id) && panel.siblings(id)
            == panel.categories[category].buttons && panel.siblings(id)[panel.place(id).1]
            == panel.categories[category].buttons[at],
        !panel.knows(id) ==> panel.categories[category].buttons[at].id != id,
{
    if panel.categories[category].buttons[at].id == id {
        assert(panel.has_at(id, category, at));
        command_panel::lemma_place(panel, id, category, at);
    }
}

/// The buttons of all categories are counted: none are without a category, and one more category
/// adds its own.
pub proof fn law_buttons_are_counted(
    categories: Seq<CategoryDefinitionModel>,
    category: CategoryDefinitionModel,
)
    ensures
        categories.len() == 0 ==> command_panel::button_count(categories) == 0,
        command_panel::button_count(categories.push(category)) == command_panel::button_count(
            categories,
        ) + category.buttons.len(),
{
    assert(categories.push(category).drop_last() =~= categories);
}

} // verus!
