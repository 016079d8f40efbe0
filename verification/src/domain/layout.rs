//! Where the parts of a window are.

use vstd::prelude::*;

use crate::domain::geometry::{UiPoint, UiRect};

verus! {

/// Identifies a tab.
#[derive(Clone, Copy, Debug, PartialEq, Eq, Structural)]
pub struct TerminalTabId {
    pub value: u64,
}

/// Identifies a command button.
#[derive(Clone, Copy, Debug, PartialEq, Eq, Structural)]
pub struct CommandButtonId {
    pub value: u64,
}

/// A tab as the tab bar shows it.
#[derive(Clone, Debug, PartialEq, Eq)]
pub struct TerminalTabView {
    pub id: TerminalTabId,
    pub title: String,
    pub active: bool,
}

/// Where a tab is.
#[derive(Clone, Copy, Debug, PartialEq, Eq, Structural)]
pub struct TabPlacement {
    pub id: TerminalTabId,
    pub bounds: UiRect,
    pub close_bounds: Option<UiRect>,
    pub active: bool,
}

/// Where a command button is.
#[derive(Clone, Debug, PartialEq, Eq)]
pub struct ButtonPlacement {
    pub id: CommandButtonId,
    pub bounds: UiRect,
    pub label: String,
}

/// How far the command buttons are scrolled.
#[derive(Clone, Copy, Debug, PartialEq, Eq, Structural)]
pub struct ButtonScroll {
    pub bounds: UiRect,
    pub position: usize,
    pub max_position: usize,
    pub page_len: usize,
    pub total_len: usize,
}

/// Where the parts of a window are.
#[derive(Clone, Debug, PartialEq, Eq)]
pub struct WindowLayout {
    pub tab_bar: UiRect,
    pub tabs: Vec<TabPlacement>,
    pub new_tab_button: Option<UiRect>,
    pub terminal: UiRect,
    pub splitter: UiRect,
    pub command_panel: UiRect,
    pub command_category_selector: Option<UiRect>,
    pub command_button_viewport: UiRect,
    pub command_button_scroll: Option<ButtonScroll>,
    pub buttons: Vec<ButtonPlacement>,
}

/// The title of a tab, `fallback` where there is no such tab.
pub open spec fn title_of(tabs: Seq<TerminalTabView>, id: TerminalTabId, fallback: Seq<char>) -> Seq<char>
    decreases tabs.len(),
{
    if tabs.len() == 0 {
        fallback
    } else if tabs[0].id == id {
        tabs[0].title@
    } else {
        title_of(tabs.skip(1), id, fallback)
    }
}

pub fn tab_title<'a>(tabs: &'a Vec<TerminalTabView>, id: TerminalTabId, fallback: &'a str) -> (title:
    &'a str)
    ensures
        title@ == title_of(tabs@, id, fallback@),
{
    let mut index: usize = 0;
    assert(tabs@.skip(0) =~= tabs@);
    while index < tabs.len()
        invariant
            index <= tabs@.len(),
            title_of(tabs@, id, fallback@) == title_of(tabs@.skip(index as int), id, fallback@),
        decreases tabs@.len() - index,
    {
        assert(tabs@.skip(index as int)[0] == tabs@[index as int]);
        if tabs[index].id == id {
            return tabs[index].title.as_str();
        }
        assert(tabs@.skip(index as int).skip(1) =~= tabs@.skip(index + 1));
        index += 1;
    }
    fallback
}

/// Whether an optional rectangle is there and holds a point.
pub open spec fn holds_point(rect: Option<UiRect>, point: UiPoint) -> bool {
    rect matches Some(bounds) && bounds.covers(point.x as int, point.y as int)
}

/// The first tab, from `index` on, whose bounds (`close` false) or close
/// button (`close` true) holds a point.
pub open spec fn first_tab_at(tabs: Seq<TabPlacement>, point: UiPoint, close: bool) -> Option<
    TerminalTabId,
>
    decreases tabs.len(),
{
    if tabs.len() == 0 {
        None
    } else if holds_point(
        if close {
            tabs[0].close_bounds
        } else {
            Some(tabs[0].bounds)
        },
        point,
    ) {
        Some(tabs[0].id)
    } else {
        first_tab_at(tabs.skip(1), point, close)
    }
}

pub open spec fn first_button_at(buttons: Seq<ButtonPlacement>, point: UiPoint) -> Option<
    CommandButtonId,
>
    decreases buttons.len(),
{
    if buttons.len() == 0 {
        None
    } else if buttons[0].bounds.covers(point.x as int, point.y as int) {
        Some(buttons[0].id)
    } else {
        first_button_at(buttons.skip(1), point)
    }
}

fn rect_holds(rect: &Option<UiRect>, point: UiPoint) -> (holds: bool)
    ensures
        holds == holds_point(*rect, point),
{
    match rect {
        Some(bounds) => bounds.contains(point),
        None => false,
    }
}

impl WindowLayout {
    fn find_tab(&self, point: UiPoint, close: bool) -> (found: Option<TerminalTabId>)
        ensures
            found == first_tab_at(self.tabs@, point, close),
    {
        let mut index: usize = 0;
        assert(self.tabs@.skip(0) =~= self.tabs@);
        while index < self.tabs.len()
            invariant
                index <= self.tabs@.len(),
                first_tab_at(self.tabs@, point, close) == first_tab_at(
                    self.tabs@.skip(index as int),
                    point,
                    close,
                ),
            decreases self.tabs@.len() - index,
        {
            assert(self.tabs@.skip(index as int)[0] == self.tabs@[index as int]);
            let tab = self.tabs[index];
            let holds = if close {
                rect_holds(&tab.close_bounds, point)
            } else {
                tab.bounds.contains(point)
            };
            if holds {
                return Some(tab.id);
            }
            assert(self.tabs@.skip(index as int).skip(1) =~= self.tabs@.skip(index + 1));
            index += 1;
        }
        None
    }

    /// The tab at a point.
    pub fn tab_at(&self, point: UiPoint) -> (tab: Option<TerminalTabId>)
        ensures
            tab == first_tab_at(self.tabs@, point, false),
            tab is None <==> forall|i: int|
                0 <= i < self.tabs@.len() ==> !(#[trigger] self.tabs@[i]).bounds.covers(
                    point.x as int,
                    point.y as int,
                ),
            tab matches Some(id) ==> exists|i: int|
                0 <= i < self.tabs@.len() && (#[trigger] self.tabs@[i]).id == id
                    && self.tabs@[i].bounds.covers(point.x as int, point.y as int),
    {
        proof {
            law_first_tab_under_a_point(self.tabs@, point);
        }
        self.find_tab(point, false)
    }

    /// The tab whose close button is at a point.
    pub fn tab_close_at(&self, point: UiPoint) -> (tab: Option<TerminalTabId>)
        ensures
            tab == first_tab_at(self.tabs@, point, true),
            tab is None <==> forall|i: int|
                0 <= i < self.tabs@.len() ==> !((#[trigger] self.tabs@[i]).close_bounds matches Some(
                    bounds,
                ) && bounds.covers(point.x as int, point.y as int)),
            tab matches Some(id) ==> exists|i: int|
                0 <= i < self.tabs@.len() && (#[trigger] self.tabs@[i]).id == id && (
                self.tabs@[i].close_bounds matches Some(bounds) && bounds.covers(
                    point.x as int,
                    point.y as int,
                )),
    {
        proof {
            law_first_close_button_under_a_point(self.tabs@, point);
        }
        self.find_tab(point, true)
    }

    /// Whether the button for a new tab is at a point.
    pub fn new_tab_at(&self, point: UiPoint) -> (at: bool)
        ensures
            at == holds_point(self.new_tab_button, point),
            at == (self.new_tab_button matches Some(bounds) && bounds.covers(
                point.x as int,
                point.y as int,
            )),
    {
        rect_holds(&self.new_tab_button, point)
    }

    /// Whether the splitter is at a point.
    pub fn splitter_at(&self, point: UiPoint) -> (at: bool)
        ensures
            at == self.splitter.covers(point.x as int, point.y as int),
    {
        self.splitter.contains(point)
    }

    /// How far the command buttons are scrolled; not at all where they all fit.
    pub fn command_button_scroll_position(&self) -> (position: usize)
        ensures
            position == (match self.command_button_scroll {
                Some(scroll) => scroll.position,
                None => 0,
            }),
    {
        match self.command_button_scroll {
            Some(scroll) => scroll.position,
            None => 0,
        }
    }

    /// The command button at a point.
    pub fn command_button_at(&self, point: UiPoint) -> (button: Option<CommandButtonId>)
        ensures
            button == first_button_at(self.buttons@, point),
            button is None <==> forall|i: int|
                0 <= i < self.buttons@.len() ==> !(#[trigger] self.buttons@[i]).bounds.covers(
                    point.x as int,
                    point.y as int,
                ),
            button matches Some(id) ==> exists|i: int|
                0 <= i < self.buttons@.len() && (#[trigger] self.buttons@[i]).id == id
                    && self.buttons@[i].bounds.covers(point.x as int, point.y as int),
    {
        proof {
            law_first_button_under_a_point(self.buttons@, point);
        }
        let mut index: usize = 0;
        assert(self.buttons@.skip(0) =~= self.buttons@);
        while index < self.buttons.len()
            invariant
                index <= self.buttons@.len(),
                first_button_at(self.buttons@, point) == first_button_at(
                    self.buttons@.skip(index as int),
                    point,
                ),
            decreases self.buttons@.len() - index,
        {
            assert(self.buttons@.skip(index as int)[0] == self.buttons@[index as int]);
            if self.buttons[index].bounds.contains(point) {
                return Some(self.buttons[index].id);
            }
            assert(self.buttons@.skip(index as int).skip(1) =~= self.buttons@.skip(index + 1));
            index += 1;
        }
        None
    }
}

/// The tab at a point is the first one whose bounds hold the point. One is found
/// exactly where there is one.
pub proof fn law_first_tab_under_a_point(tabs: Seq<TabPlacement>, point: UiPoint)
    ensures
        first_tab_at(tabs, point, false) is None <==> forall|i: int|
            0 <= i < tabs.len() ==> !(#[trigger] tabs[i]).bounds.covers(
                point.x as int,
                point.y as int,
            ),
        first_tab_at(tabs, point, false) matches Some(id) ==> exists|i: int|
            {
                &&& 0 <= i < tabs.len()
                &&& (#[trigger] tabs[i]).id == id
                &&& tabs[i].bounds.covers(point.x as int, point.y as int)
                &&& forall|j: int|
                    0 <= j < i ==> !(#[trigger] tabs[j]).bounds.covers(
                        point.x as int,
                        point.y as int,
                    )
            },
    decreases tabs.len(),
{
    let x = point.x as int;
    let y = point.y as int;
    if tabs.len() > 0 {
        let rest = tabs.skip(1);
        law_first_tab_under_a_point(rest, point);
        assert(forall|i: int| 0 <= i < rest.len() ==> #[trigger] rest[i] == tabs[i + 1]);
        assert(forall|i: int| 1 <= i < tabs.len() ==> #[trigger] tabs[i] == rest[i - 1]);
        if tabs[0].bounds.covers(x, y) {
        } else if first_tab_at(rest, point, false) is Some {
            let id = first_tab_at(rest, point, false)->0;
            let i = choose|i: int|
                {
                    &&& 0 <= i < rest.len()
                    &&& (#[trigger] rest[i]).id == id
                    &&& rest[i].bounds.covers(x, y)
                    &&& forall|j: int| 0 <= j < i ==> !(#[trigger] rest[j]).bounds.covers(x, y)
                };
            assert(tabs[i + 1].id == id);
        }
    }
}

/// Whether a tab has a close button that holds a point.
pub open spec fn closes_at(tab: TabPlacement, point: UiPoint) -> bool {
    tab.close_bounds matches Some(bounds) && bounds.covers(point.x as int, point.y as int)
}

/// The tab that a point closes is the first one whose close button holds the point. One
/// is found exactly where there is one, be it the first tab of all or a later one.
pub proof fn law_first_close_button_under_a_point(tabs: Seq<TabPlacement>, point: UiPoint)
    ensures
        first_tab_at(tabs, point, true) is None <==> forall|i: int|
            0 <= i < tabs.len() ==> !closes_at(#[trigger] tabs[i], point),
        first_tab_at(tabs, point, true) matches Some(id) ==> exists|i: int|
            {
                &&& 0 <= i < tabs.len()
                &&& (#[trigger] tabs[i]).id == id
                &&& closes_at(tabs[i], point)
                &&& forall|j: int| 0 <= j < i ==> !closes_at(#[trigger] tabs[j], point)
            },
    decreases tabs.len(),
{
    if tabs.len() > 0 {
        let rest = tabs.skip(1);
        law_first_close_button_under_a_point(rest, point);
        assert(forall|i: int| 0 <= i < rest.len() ==> #[trigger] rest[i] == tabs[i + 1]);
        assert(forall|i: int| 1 <= i < tabs.len() ==> #[trigger] tabs[i] == rest[i - 1]);
        if closes_at(tabs[0], point) {
        } else if first_tab_at(rest, point, true) is Some {
            let id = first_tab_at(rest, point, true)->0;
            let i = choose|i: int|
                {
                    &&& 0 <= i < rest.len()
                    &&& (#[trigger] rest[i]).id == id
                    &&& closes_at(rest[i], point)
                    &&& forall|j: int| 0 <= j < i ==> !closes_at(#[trigger] rest[j], point)
                };
            assert(tabs[i + 1].id == id);
        }
    }
}

/// The command button at a point is the first one whose bounds hold the point. One is
/// found exactly where there is one.
pub proof fn law_first_button_under_a_point(buttons: Seq<ButtonPlacement>, point: UiPoint)
    ensures
        first_button_at(buttons, point) is None <==> forall|i: int|
            0 <= i < buttons.len() ==> !(#[trigger] buttons[i]).bounds.covers(
                point.x as int,
                point.y as int,
            ),
        first_button_at(buttons, point) matches Some(id) ==> exists|i: int|
            {
                &&& 0 <= i < buttons.len()
                &&& (#[trigger] buttons[i]).id == id
                &&& buttons[i].bounds.covers(point.x as int, point.y as int)
                &&& forall|j: int|
                    0 <= j < i ==> !(#[trigger] buttons[j]).bounds.covers(
                        point.x as int,
                        point.y as int,
                    )
            },
    decreases buttons.len(),
{
    let x = point.x as int;
    let y = point.y as int;
    if buttons.len() > 0 {
        let rest = buttons.skip(1);
        law_first_button_under_a_point(rest, point);
        assert(forall|i: int| 0 <= i < rest.len() ==> #[trigger] rest[i] == buttons[i + 1]);
        assert(forall|i: int| 1 <= i < buttons.len() ==> #[trigger] buttons[i] == rest[i - 1]);
        if buttons[0].bounds.covers(x, y) {
        } else if first_button_at(rest, point) is Some {
            let id = first_button_at(rest, point)->0;
            let i = choose|i: int|
                {
                    &&& 0 <= i < rest.len()
                    &&& (#[trigger] rest[i]).id == id
                    &&& rest[i].bounds.covers(x, y)
                    &&& forall|j: int| 0 <= j < i ==> !(#[trigger] rest[j]).bounds.covers(x, y)
                };
            assert(buttons[i + 1].id == id);
        }
    }
}

/// A tab is shown with its own title, that of the first tab with its id where several
/// have it; an id that no tab has is shown with the fallback.
pub proof fn law_tab_is_shown_with_its_title(
    tabs: Seq<TerminalTabView>,
    id: TerminalTabId,
    fallback: Seq<char>,
    i: int,
)
    ensures
        0 <= i < tabs.len() && tabs[i].id == id && (forall|j: int|
            0 <= j < i ==> (#[trigger] tabs[j]).id != id) ==> title_of(tabs, id, fallback)
            == tabs[i].title@,
        (forall|j: int| 0 <= j < tabs.len() ==> (#[trigger] tabs[j]).id != id) ==> title_of(
            tabs,
            id,
            fallback,
        ) == fallback,
    decreases tabs.len(),
{
    if tabs.len() > 0 && tabs[0].id != id {
        let rest = tabs.skip(1);
        law_tab_is_shown_with_its_title(rest, id, fallback, i - 1);
        assert(forall|j: int| 0 <= j < rest.len() ==> #[trigger] rest[j] == tabs[j + 1]);
    }
}

} // verus!
