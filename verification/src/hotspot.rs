//! The column of buttons along the left edge of the window, and which of
//! them a press falls on.
//!
//! The origin of the coordinates is the centre of the window, so the left
//! edge lies at minus half the width and the top edge at half the height.
//! To stay exact for odd extents, every comparison is made on doubled values.

use vstd::prelude::*;
use crate::controls::{Action, Mode, PaletteColor};
use crate::geometry::{Point, Position};
use crate::units::UNITS_PER_POINT;

verus! {

/// Distance from the left edge of the window to the left side of the buttons.
pub const COLUMN_LEFT: i32 = 20 * UNITS_PER_POINT;

/// Distance from the left edge of the window to the right side of the
/// buttons.
pub const COLUMN_RIGHT: i32 = 80 * UNITS_PER_POINT;

/// The rectangle of one button and what a press on it asks for. All buttons
/// share the column; `top` and `bottom` are the distances from the top edge
/// of the window to the two sides of the button.
#[derive(Clone, Copy, Debug, PartialEq, Eq, Structural)]
pub struct Hotspot {
    pub top: i32,
    pub bottom: i32,
    pub action: Action,
}

/// Whether `x` lies in the column of the buttons of a window of the given
/// width, sides included.
pub open spec fn in_column(x: int, width: int) -> bool {
    2 * COLUMN_LEFT - width <= 2 * x <= 2 * COLUMN_RIGHT - width
}

impl Hotspot {
    /// Whether `y` lies between the two sides of the button in a window of
    /// the given height, sides included.
    pub open spec fn spans(self, y: int, height: int) -> bool {
        height - 2 * self.bottom <= 2 * y <= height - 2 * self.top
    }

    /// Whether a press lands on the button, sides included.
    pub open spec fn contains(self, press: Position, width: int, height: int) -> bool {
        in_column(press.x, width) && self.spans(press.y, height)
    }

    /// Tells whether a press lands on the button.
    pub fn is_hit(&self, press: Point, screen_width: i32, screen_height: i32) -> (inside: bool)
        ensures
            inside == self.contains(press@, screen_width as int, screen_height as int),
    {
        let x2: i64 = 2 * (press.x as i64);
        let y2: i64 = 2 * (press.y as i64);
        let left2: i64 = 2 * (COLUMN_LEFT as i64) - screen_width as i64;
        let right2: i64 = 2 * (COLUMN_RIGHT as i64) - screen_width as i64;
        let top2: i64 = screen_height as i64 - 2 * (self.top as i64);
        let bottom2: i64 = screen_height as i64 - 2 * (self.bottom as i64);
        left2 <= x2 && x2 <= right2 && bottom2 <= y2 && y2 <= top2
    }
}

/// The button whose sides lie `top` and `bottom` screen points below the top
/// edge of the window.
pub open spec fn button_at(top: int, bottom: int, action: Action) -> Hotspot {
    Hotspot {
        top: (top * UNITS_PER_POINT) as i32,
        bottom: (bottom * UNITS_PER_POINT) as i32,
        action,
    }
}

/// The buttons, from the top of the window down: the two modes, then the
/// four colours.
pub open spec fn hotspot_table() -> Seq<Hotspot> {
    seq![
        button_at(20, 80, Action::SetMode(Mode::Pull)),
        button_at(100, 160, Action::SetMode(Mode::Push)),
        button_at(260, 320, Action::SetColor(PaletteColor::White)),
        button_at(340, 400, Action::SetColor(PaletteColor::SpringGreen)),
        button_at(420, 480, Action::SetColor(PaletteColor::Cyan)),
        button_at(500, 560, Action::SetColor(PaletteColor::HotPink)),
    ]
}

/// The action of the first hotspot of `table`, from index `from` on, that
/// contains the press.
pub open spec fn first_hit(
    table: Seq<Hotspot>,
    from: int,
    press: Position,
    width: int,
    height: int,
) -> Option<Action>
    decreases table.len() - from,
{
    if from < 0 || from >= table.len() {
        None
    } else if table[from].contains(press, width, height) {
        Some(table[from].action)
    } else {
        first_hit(table, from + 1, press, width, height)
    }
}

/// What a press at `press` asks for in a window of the given extents: the
/// action of the first button that contains it, if any does.
pub open spec fn hit(press: Position, width: int, height: int) -> Option<Action> {
    first_hit(hotspot_table(), 0, press, width, height)
}

/// Makes the button whose sides lie `top` and `bottom` screen points below
/// the top edge of the window.
fn button(top: i16, bottom: i16, action: Action) -> (hotspot: Hotspot)
    ensures
        hotspot == button_at(top as int, bottom as int, action),
{
    Hotspot {
        top: (top as i32) * UNITS_PER_POINT,
        bottom: (bottom as i32) * UNITS_PER_POINT,
        action,
    }
}

/// The buttons, from the top of the window down.
pub fn hotspots() -> (table: Vec<Hotspot>)
    ensures
        table@ == hotspot_table(),
{
    let mut table: Vec<Hotspot> = Vec::new();
    table.push(button(20, 80, Action::SetMode(Mode::Pull)));
    table.push(button(100, 160, Action::SetMode(Mode::Push)));
    table.push(button(260, 320, Action::SetColor(PaletteColor::White)));
    table.push(button(340, 400, Action::SetColor(PaletteColor::SpringGreen)));
    table.push(button(420, 480, Action::SetColor(PaletteColor::Cyan)));
    table.push(button(500, 560, Action::SetColor(PaletteColor::HotPink)));
    table
}

/// Finds what a press asks for: the action of the first button that
/// contains it, or nothing if it lands on none.
pub fn hit_test(press: Point, screen_width: i32, screen_height: i32) -> (action: Option<Action>)
    ensures
        action == hit(press@, screen_width as int, screen_height as int),
{
    let table = hotspots();
    let mut i: usize = 0;
    while i < table.len()
        invariant
            i <= table.len(),
            table@ == hotspot_table(),
            hit(press@, screen_width as int, screen_height as int) == first_hit(
                table@,
                i as int,
                press@,
                screen_width as int,
                screen_height as int,
            ),
        decreases table.len() - i,
    {
        if table[i].is_hit(press, screen_width, screen_height) {
            return Some(table[i].action);
        }
        i = i + 1;
    }
    None
}

/// The buttons do not overlap: no press lands on two of them.
pub proof fn hotspots_do_not_overlap(i: int, j: int, press: Position, width: int, height: int)
    requires
        0 <= i < hotspot_table().len(),
        0 <= j < hotspot_table().len(),
        hotspot_table()[i].contains(press, width, height),
        hotspot_table()[j].contains(press, width, height),
    ensures
        i == j,
{
}

/// A press asks for an action exactly if it lands on a button with that
/// action, and for nothing exactly if it lands on no button.
pub proof fn hit_is_the_button_pressed(press: Position, width: int, height: int)
    ensures
        forall|a: Action|
            hit(press, width, height) == Some(a) <==> exists|i: int|
                0 <= i < hotspot_table().len() && (#[trigger] hotspot_table()[i]).contains(
                    press,
                    width,
                    height,
                ) && hotspot_table()[i].action == a,
        hit(press, width, height) is None <==> forall|i: int|
            0 <= i < hotspot_table().len() ==> !(#[trigger] hotspot_table()[i]).contains(
                press,
                width,
                height,
            ),
{
    reveal_with_fuel(first_hit, 7);
}

} // verus!
