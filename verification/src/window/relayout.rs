//! Placing the parts of a window anew.

use vstd::prelude::*;

use crate::domain::command_button::{CommandButton, PlacedButton};
use crate::domain::command_panel::{CommandPanel, PanelModel};
use crate::domain::layout::{TerminalTabView, WindowLayout};
use crate::num;
use crate::window::grid;
use crate::window::panel_view::{self, CommandPanelViewState};

verus! {

/// What the parts of a window are placed for.
#[derive(Clone, Copy, Debug)]
pub struct LayoutRequest<'a> {
    pub width: i32,
    pub height: i32,
    pub command_panel_width: i32,
    pub buttons: &'a Vec<CommandButton>,
    pub tabs: &'a Vec<TerminalTabView>,
    /// How far the buttons are to be scrolled, if there are as many.
    pub command_button_scroll_position: usize,
}

/// `LayoutRequest` as a value.
#[verifier::ext_equal]
pub struct LayoutRequestModel {
    pub width: int,
    pub height: int,
    pub command_panel_width: int,
    pub buttons: Seq<PlacedButton>,
    pub tabs: Seq<TerminalTabView>,
    pub scroll_position: int,
}

impl<'a> View for LayoutRequest<'a> {
    type V = LayoutRequestModel;

    open spec fn view(&self) -> LayoutRequestModel {
        LayoutRequestModel {
            width: self.width as int,
            height: self.height as int,
            command_panel_width: self.command_panel_width as int,
            buttons: self.buttons@.map_values(|button: CommandButton| button@),
            tabs: self.tabs@,
            scroll_position: self.command_button_scroll_position as int,
        }
    }
}

/// The buttons of the category that is selected.
pub open spec fn selected_buttons_of(panel: PanelModel) -> Seq<PlacedButton> {
    match panel.selected {
        Some(index) => panel.categories[index].buttons,
        None => Seq::empty(),
    }
}

/// What is asked for with this size of the window, which is at least 1 each way.
pub open spec fn asked_for(
    width: int,
    height: int,
    command_panel_width: int,
    panel: PanelModel,
    tabs: Seq<TerminalTabView>,
    scroll_position: int,
) -> LayoutRequestModel {
    LayoutRequestModel {
        width: num::max_int(width, 1),
        height: num::max_int(height, 1),
        command_panel_width,
        buttons: selected_buttons_of(panel),
        tabs,
        scroll_position,
    }
}

/// Whether a layout is what was given for a request.
pub open spec fn laid_out<F: Fn(LayoutRequest<'_>) -> WindowLayout>(
    lay_out: F,
    asked: LayoutRequestModel,
    layout: WindowLayout,
) -> bool {
    exists|request: LayoutRequest<'_>|
        {
            &&& request@ == asked
            &&& #[trigger] lay_out.ensures((request,), layout)
        }
}

/// Places a window's parts for a size of the window.
pub fn layout_from_client_size<F: Fn(LayoutRequest<'_>) -> WindowLayout>(
    width: i32,
    height: i32,
    command_panel_width: i32,
    panel: &CommandPanel,
    tabs: &Vec<TerminalTabView>,
    command_button_scroll_position: usize,
    lay_out: &F,
) -> (layout: WindowLayout)
    requires
        panel@.valid(),
        forall|request: LayoutRequest<'_>| lay_out.requires((request,)),
    ensures
        laid_out(
            *lay_out,
            asked_for(
                width as int,
                height as int,
                command_panel_width as int,
                panel@,
                tabs@,
                command_button_scroll_position as int,
            ),
            layout,
        ),
{
    let none: Vec<CommandButton> = Vec::new();
    let buttons = match panel.selected_category() {
        Some(category) => &category.buttons,
        None => &none,
    };
    let request = LayoutRequest {
        width: num::max_i32(width, 1),
        height: num::max_i32(height, 1),
        command_panel_width,
        buttons,
        tabs,
        command_button_scroll_position,
    };
    let layout = lay_out(request);
    proof {
        let asked = asked_for(
            width as int,
            height as int,
            command_panel_width as int,
            panel@,
            tabs@,
            command_button_scroll_position as int,
        );
        assert(request@ =~= asked);
    }
    layout
}

/// A view after its window was laid out: it keeps its panel, and its buttons are
/// scrolled as far as the layout says.
pub open spec fn relaid<F: Fn(LayoutRequest<'_>) -> WindowLayout>(
    lay_out: F,
    asked: LayoutRequestModel,
    before: CommandPanelViewState,
    after: CommandPanelViewState,
) -> bool {
    &&& laid_out(lay_out, asked, after.layout)
    &&& after.command_button_scroll_position == panel_view::scrolled_to(after.layout)
    &&& after.command_panel == before.command_panel
}

/// Lays a window out for another size, with its buttons scrolled as they are.
pub fn refresh_layout_for_client<F: Fn(LayoutRequest<'_>) -> WindowLayout>(
    view: &mut CommandPanelViewState,
    width: i32,
    height: i32,
    command_panel_width: i32,
    tabs: &Vec<TerminalTabView>,
    lay_out: &F,
)
    requires
        old(view).command_panel@.valid(),
        forall|request: LayoutRequest<'_>| lay_out.requires((request,)),
    ensures
        relaid(
            *lay_out,
            asked_for(
                width as int,
                height as int,
                command_panel_width as int,
                old(view).command_panel@,
                tabs@,
                old(view).command_button_scroll_position as int,
            ),
            *old(view),
            *final(view),
        ),
{
    let layout = layout_from_client_size(
        width,
        height,
        command_panel_width,
        &view.command_panel,
        tabs,
        view.command_button_scroll_position,
        lay_out,
    );
    view.refresh_layout(layout);
}

/// Lays a window out again, in its size, with its buttons scrolled as far as is
/// asked for.
pub fn relayout_command_panel<F: Fn(LayoutRequest<'_>) -> WindowLayout>(
    view: &mut CommandPanelViewState,
    command_panel_width: i32,
    tabs: &Vec<TerminalTabView>,
    requested_scroll_position: usize,
    lay_out: &F,
)
    requires
        old(view).command_panel@.valid(),
        forall|request: LayoutRequest<'_>| lay_out.requires((request,)),
    ensures
        relaid(
            *lay_out,
            asked_for(
                old(view).layout.tab_bar.width as int,
                num::clamped(old(view).layout.tab_bar.height + old(view).layout.terminal.height),
                command_panel_width as int,
                old(view).command_panel@,
                tabs@,
                requested_scroll_position as int,
            ),
            *old(view),
            *final(view),
        ),
{
    let (width, height) = grid::layout_client_size(&view.layout);
    let layout = layout_from_client_size(
        width,
        height,
        command_panel_width,
        &view.command_panel,
        tabs,
        requested_scroll_position,
        lay_out,
    );
    view.refresh_layout(layout);
}

/// Takes other tabs and lays the window out for them.
pub fn set_tab_views<F: Fn(LayoutRequest<'_>) -> WindowLayout>(
    view: &mut CommandPanelViewState,
    tab_views: &mut Vec<TerminalTabView>,
    next: Vec<TerminalTabView>,
    command_panel_width: i32,
    lay_out: &F,
)
    requires
        old(view).command_panel@.valid(),
        forall|request: LayoutRequest<'_>| lay_out.requires((request,)),
    ensures
        *final(tab_views) == next,
        relaid(
            *lay_out,
            asked_for(
                old(view).layout.tab_bar.width as int,
                num::clamped(old(view).layout.tab_bar.height + old(view).layout.terminal.height),
                command_panel_width as int,
                old(view).command_panel@,
                next@,
                old(view).command_button_scroll_position as int,
            ),
            *old(view),
            *final(view),
        ),
{
    *tab_views = next;
    let scroll_position = view.command_button_scroll_position;
    relayout_command_panel(view, command_panel_width, tab_views, scroll_position, lay_out);
}

/// A window is laid out for the size that it has, with the tabs that there are, and with the
/// buttons of the selected category in their order.
pub proof fn law_selected_category_is_laid_out(
    width: int,
    height: int,
    command_panel_width: int,
    panel: PanelModel,
    tabs: Seq<TerminalTabView>,
    scroll_position: int,
)
    requires
        panel.valid(),
    ensures
        ({
            let asked = asked_for(
                width,
                height,
                command_panel_width,
                panel,
                tabs,
                scroll_position,
            );
            &&& width >= 1 ==> asked.width == width
            &&& height >= 1 ==> asked.height == height
            &&& asked.width >= 1
            &&& asked.height >= 1
            &&& asked.command_panel_width == command_panel_width
            &&& asked.tabs == tabs
            &&& asked.scroll_position == scroll_position
            &&& panel.categories.len() > 0 ==> asked.buttons
                == panel.categories[panel.selected->0].buttons
            &&& panel.categories.len() == 0 ==> asked.buttons.len() == 0
        }),
{
}

/// A view that was laid out again keeps its panel, has a layout that was made for what was asked
/// for, and its buttons are scrolled as far as that layout's scroll bar says.
pub proof fn law_laid_out_view_keeps_its_panel<F: Fn(LayoutRequest<'_>) -> WindowLayout>(
    lay_out: F,
    asked: LayoutRequestModel,
    before: CommandPanelViewState,
    after: CommandPanelViewState,
)
    requires
        relaid(lay_out, asked, before, after),
    ensures
        after.command_panel == before.command_panel,
        after.layout.command_button_scroll matches Some(scroll)
            ==> after.command_button_scroll_position == scroll.position,
        after.layout.command_button_scroll is None ==> after.command_button_scroll_position == 0,
        exists|request: LayoutRequest<'_>|
            request@ == asked && #[trigger] lay_out.ensures((request,), after.layout),
{
}

} // verus!
