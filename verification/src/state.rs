//! The state of the toy and how it changes from one frame to the next.

use vstd::pervasive::unreached;
use vstd::prelude::*;
use crate::controls::{Action, Mode, PaletteColor};
use crate::geometry::Point;
use crate::grid::{
    generate, generated, update, update_depends_on_rest_positions_alone, updated, Grid, GridView,
    GRID_COLUMNS, GRID_ROWS,
};
use crate::hotspot::{hit, hit_test, hotspot_table, hotspots};
use crate::numeric::floor_div;
use crate::units::UNITS_PER_POINT;

verus! {

/// The strength that a new state starts with, in screen points.
pub const DEFAULT_STRENGTH: u8 = 50;

/// What the pointer does during one frame: where the cursor is, and where
/// the primary button went down if it went down during this frame.
#[derive(Clone, Copy, Debug, PartialEq, Eq, Structural)]
pub struct PointerState {
    pub cursor: Point,
    pub pressed: Option<Point>,
}

/// The model of an [`ApplicationState`].
pub ghost struct StateView {
    pub grid: GridView,
    pub mode: Mode,
    pub color: PaletteColor,
    pub strength: nat,
}

impl StateView {
    /// The grid is well formed and the strength is positive.
    pub open spec fn wf(self) -> bool {
        self.grid.wf() && 0 < self.strength <= u8::MAX
    }

    /// The reach of the cursor in units.
    pub open spec fn reach(self) -> nat {
        self.strength * (UNITS_PER_POINT as nat)
    }
}

/// The spacing of the lattice in a window of the given height. The two modes
/// leave different margins and divide what is left differently.
pub open spec fn cell_size_for(mode: Mode, screen_height: int) -> int {
    match mode {
        Mode::Pull => (screen_height - 130 * UNITS_PER_POINT) / 13,
        Mode::Push => (screen_height - 150 * UNITS_PER_POINT) / 14,
    }
}

/// The grid that a mode lays out in a window of the given height.
pub open spec fn layout_for(mode: Mode, screen_height: int) -> GridView {
    generated(cell_size_for(mode, screen_height), GRID_COLUMNS as int, GRID_ROWS as int)
}

/// The state in which the toy starts in a window of the given height.
pub open spec fn initial(screen_height: int) -> StateView {
    StateView {
        grid: layout_for(Mode::Pull, screen_height),
        mode: Mode::Pull,
        color: PaletteColor::White,
        strength: DEFAULT_STRENGTH as nat,
    }
}

/// Whether an action asks for what is already selected.
pub open spec fn is_selected(state: StateView, action: Action) -> bool {
    match action {
        Action::SetMode(mode) => mode == state.mode,
        Action::SetColor(color) => color == state.color,
    }
}

/// For each button, from the top of the window down, whether it is shown as
/// active: whether what it asks for is selected.
pub open spec fn active_buttons(state: StateView) -> Seq<bool> {
    Seq::new(hotspot_table().len(), |i: int| is_selected(state, hotspot_table()[i].action))
}

/// The state after an action. An action that asks for what is already
/// selected changes nothing; a change of mode lays the grid out anew; a
/// change of colour leaves the grid alone.
pub open spec fn applied(state: StateView, action: Action, screen_height: int) -> StateView {
    if is_selected(state, action) {
        state
    } else {
        match action {
            Action::SetMode(mode) => StateView {
                mode,
                grid: layout_for(mode, screen_height),
                ..state
            },
            Action::SetColor(color) => StateView { color, ..state },
        }
    }
}

/// The state after a press, if there was one: the action of the button
/// pressed, if any, is applied.
pub open spec fn pressed(
    state: StateView,
    press: Option<Point>,
    screen_width: int,
    screen_height: int,
) -> StateView {
    match press {
        Some(at) => match hit(at@, screen_width, screen_height) {
            Some(action) => applied(state, action, screen_height),
            None => state,
        },
        None => state,
    }
}

/// The state after one frame: a press is handled first, then every point is
/// drawn anew for the cursor, whether a button is down or not.
pub open spec fn ticked(
    state: StateView,
    pointer: PointerState,
    screen_width: int,
    screen_height: int,
) -> StateView {
    let chosen = pressed(state, pointer.pressed, screen_width, screen_height);
    StateView {
        grid: updated(chosen.grid, pointer.cursor@, chosen.mode, chosen.reach()),
        ..chosen
    }
}

/// The grid, the mode, the colour and the strength of the toy.
#[derive(Clone, Debug, PartialEq, Eq)]
pub struct ApplicationState {
    grid: Grid,
    mode: Mode,
    color: PaletteColor,
    strength: u8,
}

impl View for ApplicationState {
    type V = StateView;

    closed spec fn view(&self) -> StateView {
        StateView {
            grid: self.grid@,
            mode: self.mode,
            color: self.color,
            strength: self.strength as nat,
        }
    }
}

/// Computes the spacing of the lattice in a window of the given height.
pub fn cell_size(mode: Mode, screen_height: i32) -> (cell: i32)
    ensures
        cell == cell_size_for(mode, screen_height as int),
{
    let height: i64 = screen_height as i64;
    let unit: i64 = UNITS_PER_POINT as i64;
    let cell: i64 = match mode {
        Mode::Pull => floor_div(height - 130 * unit, 13),
        Mode::Push => floor_div(height - 150 * unit, 14),
    };
    cell as i32
}

/// Lays out the grid of a mode in a window of the given height.
fn layout(mode: Mode, screen_height: i32) -> (grid: Grid)
    ensures
        grid.wf(),
        grid@ == layout_for(mode, screen_height as int),
{
    let cell: i32 = cell_size(mode, screen_height);
    match generate(cell, GRID_COLUMNS, GRID_ROWS) {
        Ok(grid) => grid,
        Err(_) => unreached(),
    }
}

impl ApplicationState {
    /// The grid is well formed and the strength is positive.
    pub open spec fn wf(&self) -> bool {
        self@.wf()
    }

    /// The state in which the toy starts in a window of the given height:
    /// pulling, white, with the default strength and the grid of that mode.
    pub fn new(screen_height: i32) -> (state: ApplicationState)
        ensures
            state.wf(),
            state@ == initial(screen_height as int),
    {
        ApplicationState {
            grid: layout(Mode::Pull, screen_height),
            mode: Mode::Pull,
            color: PaletteColor::White,
            strength: DEFAULT_STRENGTH,
        }
    }

    /// The grid.
    pub fn grid(&self) -> (grid: &Grid)
        ensures
            grid@ == self@.grid,
    {
        &self.grid
    }

    /// The mode.
    pub fn mode(&self) -> (mode: Mode)
        ensures
            mode == self@.mode,
    {
        self.mode
    }

    /// The colour.
    pub fn color(&self) -> (color: PaletteColor)
        ensures
            color == self@.color,
    {
        self.color
    }

    /// The strength, in screen points.
    pub fn strength(&self) -> (strength: u8)
        ensures
            strength == self@.strength,
    {
        self.strength
    }

    /// Tells whether an action asks for what is already selected, which is
    /// also whether its button is shown as active.
    pub fn selected(&self, action: Action) -> (active: bool)
        ensures
            active == is_selected(self@, action),
    {
        match action {
            Action::SetMode(mode) => mode == self.mode,
            Action::SetColor(color) => color == self.color,
        }
    }

    /// Tells for each button, from the top of the window down, whether it is
    /// shown as active.
    pub fn button_states(&self) -> (active: Vec<bool>)
        ensures
            active@ == active_buttons(self@),
    {
        let table = hotspots();
        let mut active: Vec<bool> = Vec::new();
        let mut i: usize = 0;
        while i < table.len()
            invariant
                i <= table.len(),
                table@ == hotspot_table(),
                active.len() == i,
                forall|j: int|
                    0 <= j < i ==> #[trigger] active[j] == is_selected(self@, table[j].action),
            decreases table.len() - i,
        {
            active.push(self.selected(table[i].action));
            i = i + 1;
        }
        active
    }

    /// Applies an action in a window of the given height.
    pub fn apply(&mut self, action: Action, screen_height: i32)
        requires
            old(self).wf(),
        ensures
            final(self).wf(),
            final(self)@ == applied(old(self)@, action, screen_height as int),
    {
        if !self.selected(action) {
            match action {
                Action::SetMode(mode) => {
                    self.grid = layout(mode, screen_height);
                    self.mode = mode;
                },
                Action::SetColor(color) => {
                    self.color = color;
                },
            }
        }
    }

    /// Advances the state by one frame in a window of the given extents: a
    /// press is handled first, then every point is drawn anew for the cursor.
    pub fn tick(&mut self, pointer: PointerState, screen_width: i32, screen_height: i32)
        requires
            old(self).wf(),
        ensures
            final(self).wf(),
            final(self)@ == ticked(old(self)@, pointer, screen_width as int, screen_height as int),
    {
        match pointer.pressed {
            Some(at) => {
                match hit_test(at, screen_width, screen_height) {
                    Some(action) => {
                        self.apply(action, screen_height);
                    },
                    None => {},
                }
            },
            None => {},
        }
        let reach: u32 = (self.strength as u32) * (UNITS_PER_POINT as u32);
        update(&mut self.grid, pointer.cursor, self.mode, reach);
    }
}

/// Selecting what is already selected leaves the whole state as it was: the
/// grid, with what it draws, the mode, the colour and the strength.
pub proof fn reselecting_changes_nothing(state: StateView, action: Action, screen_height: int)
    requires
        is_selected(state, action),
    ensures
        applied(state, action, screen_height) == state,
{
}

/// Only a press on a button changes what is selected: a frame without a
/// press, or with a press that lands on no button, keeps the mode, the
/// colour, the strength and the rest positions, and draws the points anew.
pub proof fn tick_without_a_hit_keeps_the_selection(
    state: StateView,
    pointer: PointerState,
    screen_width: int,
    screen_height: int,
)
    requires
        pointer.pressed matches Some(at) ==> hit(at@, screen_width, screen_height) is None,
    ensures
        ticked(state, pointer, screen_width, screen_height) == (StateView {
            grid: updated(state.grid, pointer.cursor@, state.mode, state.reach()),
            ..state
        }),
        ticked(state, pointer, screen_width, screen_height).grid.base == state.grid.base,
{
}

/// No frame changes the strength.
pub proof fn tick_keeps_the_strength(
    state: StateView,
    pointer: PointerState,
    screen_width: int,
    screen_height: int,
)
    ensures
        ticked(state, pointer, screen_width, screen_height).strength == state.strength,
{
}

/// A second frame with the same pointer and the same window changes nothing:
/// the press selects what the first frame selected, and the points are drawn
/// where the first frame drew them.
pub proof fn tick_twice_is_tick_once(
    state: StateView,
    pointer: PointerState,
    screen_width: int,
    screen_height: int,
)
    ensures
        ticked(
            ticked(state, pointer, screen_width, screen_height),
            pointer,
            screen_width,
            screen_height,
        ) == ticked(state, pointer, screen_width, screen_height),
{
    let once = ticked(state, pointer, screen_width, screen_height);
    let chosen = pressed(state, pointer.pressed, screen_width, screen_height);
    update_depends_on_rest_positions_alone(
        chosen.grid,
        once.grid,
        pointer.cursor@,
        chosen.mode,
        chosen.reach(),
    );
}

/// An action leaves the strength alone, a change of colour leaves the grid
/// and the mode alone, and after any action what it asked for is selected.
pub proof fn applied_selects(state: StateView, action: Action, screen_height: int)
    ensures
        is_selected(applied(state, action, screen_height), action),
        applied(state, action, screen_height).strength == state.strength,
        action is SetColor ==> applied(state, action, screen_height).grid == state.grid && applied(
            state,
            action,
            screen_height,
        ).mode == state.mode,
        action is SetMode ==> applied(state, action, screen_height).color == state.color,
{
}

/// Of the buttons that select a mode exactly one is active, and of the
/// buttons that select a colour exactly one is active.
pub proof fn one_button_of_each_kind_is_active(state: StateView)
    ensures
        exists|i: int|
            0 <= i < hotspot_table().len() && hotspot_table()[i].action is SetMode
                && #[trigger] active_buttons(state)[i],
        exists|i: int|
            0 <= i < hotspot_table().len() && hotspot_table()[i].action is SetColor
                && #[trigger] active_buttons(state)[i],
        forall|i: int, j: int|
            0 <= i < hotspot_table().len() && 0 <= j < hotspot_table().len()
                && #[trigger] active_buttons(state)[i] && #[trigger] active_buttons(state)[j] && (
            hotspot_table()[i].action is SetMode <==> hotspot_table()[j].action is SetMode) ==> i
                == j,
{
    let table = hotspot_table();
    let active = active_buttons(state);
    match state.mode {
        Mode::Pull => {
            assert(table[0].action is SetMode && active[0]);
        },
        Mode::Push => {
            assert(table[1].action is SetMode && active[1]);
        },
    }
    match state.color {
        PaletteColor::White => {
            assert(table[2].action is SetColor && active[2]);
        },
        PaletteColor::SpringGreen => {
            assert(table[3].action is SetColor && active[3]);
        },
        PaletteColor::Cyan => {
            assert(table[4].action is SetColor && active[4]);
        },
        PaletteColor::HotPink => {
            assert(table[5].action is SetColor && active[5]);
        },
    }
}

} // verus!
