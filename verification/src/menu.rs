//! Which of the window's menus is open: one at a time, and a press on the
//! trigger of the open one shuts it rather than opening it again.

use vstd::prelude::*;
use crate::text::same_text;

verus! {

/// Which menu is open.
pub enum Menu {
    /// The `+` on a project heading.
    Add(usize),
    /// A project heading.
    Project(usize),
    /// The `···` on an entry's row, by the row's key.
    Entry(String),
    /// The `···` in the pane header.
    Header,
    /// The `···` in one pane's bar, by the entry the pane is on.
    Pane(String),
    /// The `···` on a table's column heading.
    Column(usize),
    /// The `···` on a board's lane, by column id.
    Lane(String),
    /// The agents on offer under `New session`.
    Launch,
    /// The block picker on the article ribbon.
    Turn,
    /// The `···` on a card, by card id.
    Card(String),
    /// The menu bar's tree, off macOS.
    App,
}

/// Whether two menus are the same one.
pub open spec fn same_menu(a: Menu, b: Menu) -> bool {
    match (a, b) {
        (Menu::Add(x), Menu::Add(y)) => x == y,
        (Menu::Project(x), Menu::Project(y)) => x == y,
        (Menu::Entry(x), Menu::Entry(y)) => x@ == y@,
        (Menu::Header, Menu::Header) => true,
        (Menu::Pane(x), Menu::Pane(y)) => x@ == y@,
        (Menu::Column(x), Menu::Column(y)) => x == y,
        (Menu::Lane(x), Menu::Lane(y)) => x@ == y@,
        (Menu::Launch, Menu::Launch) => true,
        (Menu::Turn, Menu::Turn) => true,
        (Menu::Card(x), Menu::Card(y)) => x@ == y@,
        (Menu::App, Menu::App) => true,
        _ => false,
    }
}

/// Whether `a` and `b` are the same menu.
pub fn is_same(a: &Menu, b: &Menu) -> (same: bool)
    ensures
        same == same_menu(*a, *b),
{
    match (a, b) {
        (Menu::Add(x), Menu::Add(y)) => *x == *y,
        (Menu::Project(x), Menu::Project(y)) => *x == *y,
        (Menu::Entry(x), Menu::Entry(y)) => same_text(x.as_str(), y.as_str()),
        (Menu::Header, Menu::Header) => true,
        (Menu::Pane(x), Menu::Pane(y)) => same_text(x.as_str(), y.as_str()),
        (Menu::Column(x), Menu::Column(y)) => *x == *y,
        (Menu::Lane(x), Menu::Lane(y)) => same_text(x.as_str(), y.as_str()),
        (Menu::Launch, Menu::Launch) => true,
        (Menu::Turn, Menu::Turn) => true,
        (Menu::Card(x), Menu::Card(y)) => same_text(x.as_str(), y.as_str()),
        (Menu::App, Menu::App) => true,
        _ => false,
    }
}

/// Whether the open menu, if any, is `menu`.
pub open spec fn is_open(open: Option<Menu>, menu: Menu) -> bool {
    open matches Some(m) && same_menu(m, menu)
}

/// The window's menus: the one open, the point it was pressed at (`P`, where
/// its card stands), whether the press now ending went down on the open
/// menu's own trigger, and the row the menu is on.
pub struct Menus<P> {
    pub open: Option<Menu>,
    pub point: Option<P>,
    pub pressed: bool,
    pub cursor: Option<usize>,
}

impl<P: Copy> Menus<P> {
    /// No menu open.
    pub fn new() -> (m: Self)
        ensures
            m.open is None,
            m.point is None,
            !m.pressed,
            m.cursor is None,
    {
        Menus { open: None, point: None, pressed: false, cursor: None }
    }

    /// A press went down on `menu`'s trigger: note whether it is the menu
    /// open, which this press is then shutting.
    pub fn press(&mut self, menu: &Menu)
        ensures
            *final(self) == after_press(*old(self), *menu),
    {
        self.pressed = match &self.open {
            Some(m) => is_same(m, menu),
            None => false,
        };
    }

    /// Open `menu` at `at`, or shut it: a press that went down on the open
    /// menu's trigger, or a press on the menu already open, shuts; any other
    /// opens it in place of whatever was open. The row it was on is forgotten.
    pub fn toggle_at(&mut self, menu: Menu, at: Option<P>)
        ensures
            *final(self) == after_toggle(*old(self), menu, at),
    {
        let pressed = self.pressed;
        self.pressed = false;
        let open_already = match &self.open {
            Some(m) => is_same(m, &menu),
            None => false,
        };
        if pressed || open_already {
            self.open = None;
            self.point = None;
        } else {
            self.open = Some(menu);
            self.point = at;
        }
        self.cursor = None;
    }

    /// Where `menu` was pressed, while it is the one open.
    pub fn point_of(&self, menu: &Menu) -> (p: Option<P>)
        ensures
            is_open(self.open, *menu) ==> p == self.point,
            !is_open(self.open, *menu) ==> p is None,
    {
        match &self.open {
            Some(m) => if is_same(m, menu) {
                self.point
            } else {
                None
            },
            None => None,
        }
    }

    /// Shut whichever menu is open.
    pub fn shut(&mut self)
        ensures
            final(self).open is None,
            final(self).point is None,
            final(self).cursor is None,
            final(self).pressed == old(self).pressed,
    {
        self.open = None;
        self.point = None;
        self.cursor = None;
    }
}

/// The menus after a press went down on `menu`'s trigger.
pub open spec fn after_press<P>(m: Menus<P>, menu: Menu) -> Menus<P> {
    Menus { pressed: is_open(m.open, menu), ..m }
}

/// The menus after the press came up on `menu`'s trigger at `at`.
pub open spec fn after_toggle<P>(m: Menus<P>, menu: Menu, at: Option<P>) -> Menus<P> {
    if m.pressed || is_open(m.open, menu) {
        Menus { open: None, point: None, pressed: false, cursor: None }
    } else {
        Menus { open: Some(menu), point: at, pressed: false, cursor: None }
    }
}

/// A click on the trigger of the menu that is open shuts it, and a click on
/// any other trigger opens that one in its place.
pub proof fn lemma_click_toggles<P>(m: Menus<P>, menu: Menu, at: Option<P>)
    ensures
        is_open(m.open, menu) ==> after_toggle(after_press(m, menu), menu, at).open is None,
        !is_open(m.open, menu) ==> after_toggle(after_press(m, menu), menu, at).open == Some(menu),
{
}

} // verus!
