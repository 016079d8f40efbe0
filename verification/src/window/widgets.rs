//! The command buttons' widgets: which are kept, made and removed.

use vstd::prelude::*;

use crate::domain::geometry::UiRect;
use crate::domain::layout::{ButtonPlacement, CommandButtonId};
use crate::num;
use crate::text;

verus! {

/// A button's widget, as far as it matters here.
#[derive(Clone, Debug, PartialEq, Eq)]
pub struct CommandButtonWidget {
    pub id: CommandButtonId,
    pub label: String,
}

/// Where a button's widget comes from.
#[derive(Clone, Copy, Debug, PartialEq, Eq, Structural)]
pub enum WidgetSlot {
    /// The widget at an index is used again, with another label or not.
    Reuse { index: usize, relabel: bool },
    Create,
}

/// Which widgets the buttons get, and which widgets are left over.
#[derive(Debug)]
pub struct WidgetPlan {
    pub slots: Vec<WidgetSlot>,
    pub removed: Vec<usize>,
}

/// The last of the first `count` widgets that has an id.
pub open spec fn widget_for(widgets: Seq<CommandButtonWidget>, id: CommandButtonId, count: int) -> Option<
    int,
>
    decreases count,
{
    if count <= 0 {
        None
    } else if widgets[count - 1].id == id {
        Some(count - 1)
    } else {
        widget_for(widgets, id, count - 1)
    }
}

/// Whether one of the first `count` buttons has an id.
pub open spec fn placed_before(placements: Seq<ButtonPlacement>, id: CommandButtonId, count: int) -> bool {
    exists|i: int| 0 <= i < count && (#[trigger] placements[i]).id == id
}

/// The widget that a button gets: the one with its id, if no button before it
/// has that.
pub open spec fn slot_of(
    widgets: Seq<CommandButtonWidget>,
    placements: Seq<ButtonPlacement>,
    index: int,
) -> WidgetSlot {
    let placement = placements[index];
    match widget_for(widgets, placement.id, widgets.len() as int) {
        Some(found) if !placed_before(placements, placement.id, index) => WidgetSlot::Reuse {
            index: found as usize,
            relabel: widgets[found].label@ != placement.label@,
        },
        _ => WidgetSlot::Create,
    }
}

/// Whether a widget is left over: no button has its id, and no widget behind it
/// has.
pub open spec fn left_over(
    widgets: Seq<CommandButtonWidget>,
    placements: Seq<ButtonPlacement>,
    index: int,
) -> bool {
    &&& widget_for(widgets, widgets[index].id, widgets.len() as int) == Some(index)
    &&& !placed_before(placements, widgets[index].id, placements.len() as int)
}

fn find_widget(widgets: &Vec<CommandButtonWidget>, id: CommandButtonId) -> (found: Option<usize>)
    ensures
        found is Some == widget_for(widgets@, id, widgets@.len() as int) is Some,
        found is Some ==> found->0 < widgets@.len() && widgets@[found->0 as int].id == id
            && widget_for(widgets@, id, widgets@.len() as int) == Some(found->0 as int),
{
    let mut count = widgets.len();
    while count > 0
        invariant
            count <= widgets@.len(),
            widget_for(widgets@, id, count as int) == widget_for(
                widgets@,
                id,
                widgets@.len() as int,
            ),
        decreases count,
    {
        if widgets[count - 1].id == id {
            return Some(count - 1);
        }
        count -= 1;
    }
    None
}

fn is_placed(placements: &Vec<ButtonPlacement>, id: CommandButtonId, count: usize) -> (placed: bool)
    requires
        count <= placements@.len(),
    ensures
        placed == placed_before(placements@, id, count as int),
{
    let mut index: usize = 0;
    while index < count
        invariant
            index <= count <= placements@.len(),
            forall|i: int| 0 <= i < index ==> (#[trigger] placements@[i]).id != id,
        decreases count - index,
    {
        if placements[index].id == id {
            return true;
        }
        index += 1;
    }
    false
}

/// Keeps the widgets of the buttons that stay, whatever their order.
pub fn sync_command_widgets(widgets: &Vec<CommandButtonWidget>, placements: &Vec<ButtonPlacement>) -> (plan:
    WidgetPlan)
    ensures
        plan.slots@ == Seq::new(
            placements@.len(),
            |i: int| slot_of(widgets@, placements@, i),
        ),
        forall|i: int|
            0 <= i < plan.removed@.len() ==> (#[trigger] plan.removed@[i]) < widgets@.len()
                && left_over(widgets@, placements@, plan.removed@[i] as int),
        forall|index: int|
            0 <= index < widgets@.len() && #[trigger] left_over(widgets@, placements@, index)
                ==> plan.removed@.contains(index as usize),
        forall|i: int, j: int|
            0 <= i < j < plan.removed@.len() ==> plan.removed@[i] < plan.removed@[j],
{
    let mut slots: Vec<WidgetSlot> = Vec::new();
    let mut index: usize = 0;
    while index < placements.len()
        invariant
            index <= placements@.len(),
            slots@.len() == index,
            forall|i: int| 0 <= i < index ==> slots@[i] == #[trigger] slot_of(
                widgets@,
                placements@,
                i,
            ),
        decreases placements@.len() - index,
    {
        let id = placements[index].id;
        let slot = match find_widget(widgets, id) {
            Some(found) => if is_placed(placements, id, index) {
                WidgetSlot::Create
            } else {
                WidgetSlot::Reuse {
                    index: found,
                    relabel: !text::text_equal(
                        widgets[found].label.as_str(),
                        placements[index].label.as_str(),
                    ),
                }
            },
            None => WidgetSlot::Create,
        };
        assert(slot == slot_of(widgets@, placements@, index as int));
        slots.push(slot);
        index += 1;
    }
    assert(slots@ =~= Seq::new(placements@.len(), |i: int| slot_of(widgets@, placements@, i)));
    let mut removed: Vec<usize> = Vec::new();
    let mut widget: usize = 0;
    while widget < widgets.len()
        invariant
            widget <= widgets@.len(),
            forall|i: int|
                0 <= i < removed@.len() ==> (#[trigger] removed@[i]) < widget && left_over(
                    widgets@,
                    placements@,
                    removed@[i] as int,
                ),
            forall|i: int|
                0 <= i < widget && #[trigger] left_over(widgets@, placements@, i)
                    ==> removed@.contains(i as usize),
            forall|i: int, j: int| 0 <= i < j < removed@.len() ==> removed@[i] < removed@[j],
        decreases widgets@.len() - widget,
    {
        let id = widgets[widget].id;
        let is_last = match find_widget(widgets, id) {
            Some(found) => found == widget,
            None => false,
        };
        let gone = is_last && !is_placed(placements, id, placements.len());
        assert(gone == left_over(widgets@, placements@, widget as int));
        let ghost before = removed@;
        if gone {
            removed.push(widget);
            assert(removed@[before.len() as int] == widget);
        }
        proof {
            assert forall|i: int|
                0 <= i <= widget && #[trigger] left_over(
                    widgets@,
                    placements@,
                    i,
                ) implies removed@.contains(i as usize) by {
                if i < widget {
                    let at = choose|k: int| 0 <= k < before.len() && before[k] == i as usize;
                    assert(removed@[at] == i as usize);
                }
            }
        }
        widget += 1;
    }
    WidgetPlan { slots, removed }
}

/// Whether the widgets stand for the buttons as they are, one for one.
pub fn widgets_reusable(widgets: &Vec<CommandButtonWidget>, placements: &Vec<ButtonPlacement>) -> (reusable:
    bool)
    ensures
        reusable == (widgets@.len() == placements@.len() && forall|i: int|
            0 <= i < widgets@.len() ==> (#[trigger] widgets@[i]).id == placements@[i].id),
{
    if widgets.len() != placements.len() {
        return false;
    }
    let mut index: usize = 0;
    while index < widgets.len()
        invariant
            widgets@.len() == placements@.len(),
            index <= widgets@.len(),
            forall|i: int| 0 <= i < index ==> (#[trigger] widgets@[i]).id == placements@[i].id,
        decreases widgets@.len() - index,
    {
        if widgets[index].id != placements[index].id {
            return false;
        }
        index += 1;
    }
    true
}

/// What becomes of the widgets when the command panel has another width.
#[derive(Clone, Copy, Debug, PartialEq, Eq, Structural)]
pub enum SplitterResizeWidgetSync {
    Unchanged,
    GeometryOnly,
    RebuildCommandWidgets,
}

/// Where a widget goes: no further left or up than the window, and at least one
/// pixel in size.
pub fn widget_bounds(bounds: UiRect) -> (placed: UiRect)
    ensures
        placed.x == num::max_int(bounds.x as int, 0),
        placed.y == num::max_int(bounds.y as int, 0),
        placed.width == num::max_int(bounds.width as int, 1),
        placed.height == num::max_int(bounds.height as int, 1),
{
    UiRect {
        x: num::max_i32(bounds.x, 0),
        y: num::max_i32(bounds.y, 0),
        width: num::max_i32(bounds.width, 1),
        height: num::max_i32(bounds.height, 1),
    }
}

/// What follows for the widgets from a new width of the command panel: nothing
/// where it is the same, and new places where the layout could be kept.
pub fn splitter_resize_sync(previous_width: i32, width: i32, resized_in_place: bool) -> (sync:
    SplitterResizeWidgetSync)
    ensures
        sync == (if previous_width == width {
            SplitterResizeWidgetSync::Unchanged
        } else if resized_in_place {
            SplitterResizeWidgetSync::GeometryOnly
        } else {
            SplitterResizeWidgetSync::RebuildCommandWidgets
        }),
{
    if previous_width == width {
        SplitterResizeWidgetSync::Unchanged
    } else if resized_in_place {
        SplitterResizeWidgetSync::GeometryOnly
    } else {
        SplitterResizeWidgetSync::RebuildCommandWidgets
    }
}

/// No widget is used twice, and none that is used is removed.
pub proof fn law_widgets_are_used_once(
    widgets: Seq<CommandButtonWidget>,
    placements: Seq<ButtonPlacement>,
    first: int,
    second: int,
)
    requires
        0 <= first < second < placements.len(),
        widgets.len() <= usize::MAX,
        slot_of(widgets, placements, first) is Reuse,
        slot_of(widgets, placements, second) is Reuse,
    ensures
        slot_of(widgets, placements, first)->index != slot_of(widgets, placements, second)->index,
        !left_over(
            widgets,
            placements,
            slot_of(widgets, placements, first)->index as int,
        ),
{
    let one = placements[first].id;
    let other = placements[second].id;
    lemma_widget_for(widgets, one, widgets.len() as int);
    lemma_widget_for(widgets, other, widgets.len() as int);
    assert(placements[first].id == one);
}

proof fn lemma_widget_for(widgets: Seq<CommandButtonWidget>, id: CommandButtonId, count: int)
    requires
        0 <= count <= widgets.len(),
    ensures
        widget_for(widgets, id, count) is Some ==> 0 <= widget_for(widgets, id, count)->0 < count
            && widgets[widget_for(widgets, id, count)->0].id == id,
    decreases count,
{
    if count > 0 {
        lemma_widget_for(widgets, id, count - 1);
    }
}

/// A button whose id a widget has keeps that widget, unless a button before it has it already;
/// it gets another label exactly where the label has changed. Any other button gets a new one.
pub proof fn law_buttons_keep_their_widgets(
    widgets: Seq<CommandButtonWidget>,
    placements: Seq<ButtonPlacement>,
    index: int,
    widget: int,
)
    requires
        0 <= index < placements.len(),
        widgets.len() <= usize::MAX,
    ensures
        0 <= widget < widgets.len() && widgets[widget].id == placements[index].id && (forall|i: int|
            widget < i < widgets.len() ==> (#[trigger] widgets[i]).id != placements[index].id)
            && (forall|i: int| 0 <= i < index ==> (#[trigger] placements[i]).id
            != placements[index].id) ==> slot_of(widgets, placements, index) == (
        WidgetSlot::Reuse {
            index: widget as usize,
            relabel: widgets[widget].label@ != placements[index].label@,
        }),
        (forall|i: int| 0 <= i < widgets.len() ==> (#[trigger] widgets[i]).id
            != placements[index].id) ==> slot_of(widgets, placements, index) is Create,
        slot_of(widgets, placements, index) is Reuse ==> {
            let kept = slot_of(widgets, placements, index)->index as int;
            &&& 0 <= kept < widgets.len()
            &&& widgets[kept].id == placements[index].id
        },
{
    let id = placements[index].id;
    lemma_widget_for(widgets, id, widgets.len() as int);
    lemma_last_widget(widgets, id, widgets.len() as int, widget);
}

proof fn lemma_last_widget(
    widgets: Seq<CommandButtonWidget>,
    id: CommandButtonId,
    count: int,
    widget: int,
)
    requires
        0 <= count <= widgets.len(),
    ensures
        0 <= widget < count && widgets[widget].id == id && (forall|i: int|
            widget < i < count ==> (#[trigger] widgets[i]).id != id) ==> widget_for(
            widgets,
            id,
            count,
        ) == Some(widget),
    decreases count,
{
    if count > 0 {
        lemma_last_widget(widgets, id, count - 1, widget);
    }
}

/// A widget is removed exactly where no button has its id, where no two widgets have the same.
pub proof fn law_widgets_without_a_button_are_removed(
    widgets: Seq<CommandButtonWidget>,
    placements: Seq<ButtonPlacement>,
    index: int,
)
    requires
        0 <= index < widgets.len(),
        forall|i: int|
            0 <= i < widgets.len() && i != index ==> (#[trigger] widgets[i]).id
                != widgets[index].id,
    ensures
        left_over(widgets, placements, index) <==> forall|i: int|
            0 <= i < placements.len() ==> (#[trigger] placements[i]).id != widgets[index].id,
{
    lemma_last_widget(widgets, widgets[index].id, widgets.len() as int, index);
}

} // verus!
