use dot_grid::controls::{Action, Mode, PaletteColor};
use dot_grid::geometry::Point;
use dot_grid::grid::{generate, update, Grid};
use dot_grid::state::{cell_size, ApplicationState, PointerState, DEFAULT_STRENGTH};
use dot_grid::units::UNITS_PER_POINT;

const U: i32 = UNITS_PER_POINT;
const WIDTH: i32 = 1_000 * U;
const HEIGHT: i32 = 800 * U;

fn layout(cell: i32) -> Grid {
    generate(cell, 20, 14).unwrap()
}

fn hover(x: i32, y: i32) -> PointerState {
    PointerState { cursor: Point::new(x, y), pressed: None }
}

/// A press in the middle of the button column, `from_top` screen points
/// below the top edge, with the cursor still where the press began.
fn press(from_top: i32) -> PointerState {
    let at = Point::new(-WIDTH / 2 + 50 * U, HEIGHT / 2 - from_top * U);
    PointerState { cursor: at, pressed: Some(at) }
}

#[test]
fn cell_size_leaves_the_margin_of_the_mode() {
    assert_eq!(cell_size(Mode::Pull, HEIGHT), 13_193);
    assert_eq!(cell_size(Mode::Push, HEIGHT), 11_885);
    assert_eq!(cell_size(Mode::Pull, 130 * U + 13), 1);
    assert_eq!(cell_size(Mode::Pull, 130 * U + 12), 0);
    assert_eq!(cell_size(Mode::Push, 150 * U + 28), 2);
    assert_eq!(cell_size(Mode::Push, 150 * U + 27), 1);
}

#[test]
fn cell_size_rounds_down_in_a_window_smaller_than_the_margin() {
    assert_eq!(cell_size(Mode::Pull, 0), -2_560);
    assert_eq!(cell_size(Mode::Pull, 130 * U - 1), -1);
    assert_eq!(cell_size(Mode::Pull, 130 * U - 13), -1);
    assert_eq!(cell_size(Mode::Pull, 130 * U - 14), -2);
    assert_eq!(cell_size(Mode::Push, 0), -2_743);
    assert_eq!(cell_size(Mode::Pull, i32::MIN), -165_193_610);
    assert_eq!(cell_size(Mode::Pull, i32::MAX), 165_188_489);
}

#[test]
fn a_new_state_pulls_in_white_with_the_default_strength() {
    let state = ApplicationState::new(HEIGHT);
    assert_eq!(state.mode(), Mode::Pull);
    assert_eq!(state.color(), PaletteColor::White);
    assert_eq!(state.strength(), 50);
    assert_eq!(DEFAULT_STRENGTH, 50);
    assert_eq!(state.grid(), &layout(13_193));
}

#[test]
fn a_new_state_fits_any_window_height() {
    for height in [i32::MIN, -1, 0, 1, 130 * U, i32::MAX] {
        let state = ApplicationState::new(height);
        assert_eq!(state.grid().base().len(), 280);
        assert_eq!(state.grid(), &layout(cell_size(Mode::Pull, height)));
    }
}

#[test]
fn selecting_the_active_mode_changes_nothing() {
    let mut state = ApplicationState::new(HEIGHT);
    state.tick(hover(30_000, -4_000), WIDTH, HEIGHT);
    let before = state.clone();
    state.apply(Action::SetMode(Mode::Pull), HEIGHT);
    assert_eq!(state, before);
    state.apply(Action::SetMode(Mode::Pull), 500 * U);
    assert_eq!(state, before);

    state.apply(Action::SetMode(Mode::Push), HEIGHT);
    state.tick(hover(30_000, -4_000), WIDTH, HEIGHT);
    let pushed = state.clone();
    state.apply(Action::SetMode(Mode::Push), HEIGHT);
    assert_eq!(state, pushed);
}

#[test]
fn selecting_the_active_colour_changes_nothing() {
    let mut state = ApplicationState::new(HEIGHT);
    state.tick(hover(30_000, -4_000), WIDTH, HEIGHT);
    let before = state.clone();
    state.apply(Action::SetColor(PaletteColor::White), HEIGHT);
    assert_eq!(state, before);

    state.apply(Action::SetColor(PaletteColor::HotPink), HEIGHT);
    let pink = state.clone();
    state.apply(Action::SetColor(PaletteColor::HotPink), HEIGHT);
    assert_eq!(state, pink);
}

#[test]
fn a_press_on_the_active_button_keeps_the_grid() {
    let mut state = ApplicationState::new(HEIGHT);
    state.tick(press(50), WIDTH, HEIGHT);
    let mut expected = layout(13_193);
    update(&mut expected, press(50).cursor, Mode::Pull, 12_800);
    assert_eq!(state.mode(), Mode::Pull);
    assert_eq!(state.grid(), &expected);
    let before = state.clone();
    state.tick(press(290), WIDTH, HEIGHT);
    assert_eq!(state.color(), before.color());
    assert_eq!(state.mode(), before.mode());
    assert_eq!(state.grid().base(), before.grid().base());
}

#[test]
fn selecting_another_mode_lays_the_grid_out_anew() {
    let mut state = ApplicationState::new(HEIGHT);
    state.tick(hover(30_000, -4_000), WIDTH, HEIGHT);
    state.apply(Action::SetMode(Mode::Push), HEIGHT);
    assert_eq!(state.mode(), Mode::Push);
    assert_eq!(state.color(), PaletteColor::White);
    assert_eq!(state.strength(), 50);
    assert_eq!(state.grid(), &layout(11_885));
    assert_eq!(state.grid().base()[0], Point::new(-112_907, -77_252));
    assert_eq!(state.grid().base()[279], Point::new(112_908, 77_253));

    state.apply(Action::SetMode(Mode::Pull), HEIGHT);
    assert_eq!(state.mode(), Mode::Pull);
    assert_eq!(state.grid(), &layout(13_193));
}

#[test]
fn selecting_another_mode_uses_the_height_of_the_moment() {
    let mut state = ApplicationState::new(HEIGHT);
    state.apply(Action::SetMode(Mode::Push), 500 * U);
    assert_eq!(state.grid(), &layout((500 * U - 150 * U) / 14));
}

#[test]
fn selecting_another_colour_leaves_the_grid_alone() {
    let mut state = ApplicationState::new(HEIGHT);
    state.tick(hover(30_000, -4_000), WIDTH, HEIGHT);
    let before = state.clone();
    for color in [
        PaletteColor::Cyan,
        PaletteColor::HotPink,
        PaletteColor::SpringGreen,
        PaletteColor::White,
    ] {
        state.apply(Action::SetColor(color), HEIGHT);
        assert_eq!(state.color(), color);
        assert_eq!(state.mode(), before.mode());
        assert_eq!(state.strength(), before.strength());
        assert_eq!(state.grid(), before.grid());
    }
}

#[test]
fn selected_tells_what_is_active() {
    let mut state = ApplicationState::new(HEIGHT);
    assert!(state.selected(Action::SetMode(Mode::Pull)));
    assert!(!state.selected(Action::SetMode(Mode::Push)));
    assert!(state.selected(Action::SetColor(PaletteColor::White)));
    assert!(!state.selected(Action::SetColor(PaletteColor::Cyan)));
    state.apply(Action::SetMode(Mode::Push), HEIGHT);
    state.apply(Action::SetColor(PaletteColor::Cyan), HEIGHT);
    assert!(!state.selected(Action::SetMode(Mode::Pull)));
    assert!(state.selected(Action::SetMode(Mode::Push)));
    assert!(!state.selected(Action::SetColor(PaletteColor::White)));
    assert!(state.selected(Action::SetColor(PaletteColor::Cyan)));
}

#[test]
fn button_states_mark_one_mode_and_one_colour() {
    let mut state = ApplicationState::new(HEIGHT);
    assert_eq!(state.button_states(), vec![true, false, true, false, false, false]);
    state.apply(Action::SetMode(Mode::Push), HEIGHT);
    assert_eq!(state.button_states(), vec![false, true, true, false, false, false]);
    state.apply(Action::SetColor(PaletteColor::SpringGreen), HEIGHT);
    assert_eq!(state.button_states(), vec![false, true, false, true, false, false]);
    state.apply(Action::SetColor(PaletteColor::Cyan), HEIGHT);
    assert_eq!(state.button_states(), vec![false, true, false, false, true, false]);
    state.apply(Action::SetColor(PaletteColor::HotPink), HEIGHT);
    assert_eq!(state.button_states(), vec![false, true, false, false, false, true]);
    state.apply(Action::SetMode(Mode::Pull), HEIGHT);
    assert_eq!(state.button_states(), vec![true, false, false, false, false, true]);
}

#[test]
fn tick_without_a_press_only_draws_the_points_anew() {
    let mut state = ApplicationState::new(HEIGHT);
    state.tick(hover(1_000, -2_000), WIDTH, HEIGHT);
    let mut expected = layout(13_193);
    update(&mut expected, Point::new(1_000, -2_000), Mode::Pull, 50 * 256);
    assert_eq!(state.mode(), Mode::Pull);
    assert_eq!(state.color(), PaletteColor::White);
    assert_eq!(state.strength(), 50);
    assert_eq!(state.grid(), &expected);
}

#[test]
fn tick_follows_the_cursor_whether_a_button_is_down_or_not() {
    let mut state = ApplicationState::new(HEIGHT);
    let away = PointerState { cursor: Point::new(9_000, 9_000), pressed: Some(Point::new(0, 0)) };
    state.tick(away, WIDTH, HEIGHT);
    let mut other = ApplicationState::new(HEIGHT);
    other.tick(hover(9_000, 9_000), WIDTH, HEIGHT);
    assert_eq!(state, other);
}

#[test]
fn tick_handles_the_press_before_it_draws() {
    let mut state = ApplicationState::new(HEIGHT);
    state.tick(hover(1_000, -2_000), WIDTH, HEIGHT);
    let pointer = PointerState {
        cursor: Point::new(1_000, -2_000),
        pressed: Some(Point::new(-WIDTH / 2 + 50 * U, HEIGHT / 2 - 130 * U)),
    };
    state.tick(pointer, WIDTH, HEIGHT);
    let mut expected = layout(11_885);
    update(&mut expected, Point::new(1_000, -2_000), Mode::Push, 12_800);
    assert_eq!(state.mode(), Mode::Push);
    assert_eq!(state.grid(), &expected);
    assert_eq!(state.grid().current()[0], Some(Point::new(-123_586, -84_307)));
}

#[test]
fn tick_selects_the_colour_of_the_button_pressed() {
    let mut state = ApplicationState::new(HEIGHT);
    state.tick(press(450), WIDTH, HEIGHT);
    assert_eq!(state.color(), PaletteColor::Cyan);
    state.tick(press(530), WIDTH, HEIGHT);
    assert_eq!(state.color(), PaletteColor::HotPink);
    state.tick(press(370), WIDTH, HEIGHT);
    assert_eq!(state.color(), PaletteColor::SpringGreen);
    state.tick(press(290), WIDTH, HEIGHT);
    assert_eq!(state.color(), PaletteColor::White);
    assert_eq!(state.mode(), Mode::Pull);
    assert_eq!(state.grid().base(), layout(13_193).base());
}

#[test]
fn tick_twice_with_the_same_pointer_gives_the_same_as_once() {
    for from_top in [50, 130, 200, 450] {
        let mut state = ApplicationState::new(HEIGHT);
        state.tick(press(from_top), WIDTH, HEIGHT);
        let once = state.clone();
        state.tick(press(from_top), WIDTH, HEIGHT);
        assert_eq!(state, once);
    }
}

#[test]
fn pulling_at_the_centre_of_a_window_of_a_thousand_by_eight_hundred_points() {
    let mut state = ApplicationState::new(HEIGHT);
    state.tick(hover(0, 0), WIDTH, HEIGHT);
    let reach: i64 = 50 * 256;
    let mut collapsed = 0;
    for i in 0..280 {
        let rest = state.grid().base()[i];
        let drawn = state.grid().current()[i].unwrap();
        let far = (rest.x as i64) * (rest.x as i64) + (rest.y as i64) * (rest.y as i64);
        if far <= reach * reach {
            assert_eq!(drawn, Point::new(0, 0));
            collapsed += 1;
        } else {
            let ux = (drawn.x as i64 - rest.x as i64).abs();
            let uy = (drawn.y as i64 - rest.y as i64).abs();
            assert!(ux * ux + uy * uy <= reach * reach);
            assert!(reach * reach < (ux + 1) * (ux + 1) + (uy + 1) * (uy + 1));
            assert!((drawn.x as i64) * (rest.x as i64) >= 0);
            assert!((drawn.x as i64).abs() <= (rest.x as i64).abs());
            assert!((drawn.y as i64) * (rest.y as i64) >= 0);
            assert!((drawn.y as i64).abs() <= (rest.y as i64).abs());
        }
    }
    assert_eq!(collapsed, 4);
    assert_eq!(state.grid().current()[0], Some(Point::new(-114_770, -78_527)));
}
