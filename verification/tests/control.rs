use hexlife::control::{Input, Model, Spacing, INITIAL_RADIUS, INITIAL_SIZE, ZOOM_STEP};
use hexlife::coordinate::HexCoordinate;
use hexlife::grid::HexGrid;

fn at(x: i32, y: i32) -> HexCoordinate {
    HexCoordinate::new(x, y)
}

#[test]
fn initial_model() {
    let model = Model::new();
    assert!(!model.mouse_pressed);
    assert_eq!(model.grid, HexGrid::new(20).unwrap());
    assert_eq!(model.spacing, Spacing::FlatTop(15));
    assert_eq!(INITIAL_RADIUS, 20);
    assert_eq!(INITIAL_SIZE, 15);
    assert_eq!(ZOOM_STEP, 10);
}

#[test]
fn pointer_inputs_toggle_painting() {
    let mut model = Model::new();
    model.handle(&Input::PointerPressed);
    assert!(model.mouse_pressed);
    model.handle(&Input::PointerPressed);
    assert!(model.mouse_pressed);
    model.handle(&Input::PointerReleased);
    assert!(!model.mouse_pressed);
    assert_eq!(model.grid, HexGrid::new(20).unwrap());
    assert_eq!(model.spacing, Spacing::FlatTop(15));
}

#[test]
fn pointer_paints_only_while_pressed() {
    let mut model = Model::new();
    model.pointer_at(at(1, 1));
    assert_eq!(model.grid, HexGrid::new(20).unwrap());
    model.handle(&Input::PointerPressed);
    model.pointer_at(at(1, 1));
    model.pointer_at(at(1, 1));
    model.pointer_at(at(-3, 0));
    assert_eq!(model.grid.get(at(1, 1)), Ok(true));
    assert_eq!(model.grid.get(at(-3, 0)), Ok(true));
    assert_eq!(model.grid.iterate().iter().filter(|cell| cell.1).count(), 2);
    model.handle(&Input::PointerReleased);
    model.pointer_at(at(5, 5));
    assert_eq!(model.grid.get(at(5, 5)), Ok(false));
}

#[test]
fn pointer_outside_the_grid_paints_nothing() {
    let mut model = Model::new();
    model.handle(&Input::PointerPressed);
    model.pointer_at(at(20, 0));
    model.pointer_at(at(i32::MAX, i32::MAX));
    assert_eq!(model.grid, HexGrid::new(20).unwrap());
    assert_eq!(model.grid.len(), 1141);
}

#[test]
fn advance_ticks_once() {
    let mut model = Model::new();
    let mut expected = HexGrid::new(20).unwrap();
    for c in [at(0, 0), at(1, -1), at(2, -1)] {
        model.grid.set(c, true);
        expected.set(c, true);
    }
    expected.tick();
    model.handle(&Input::Advance);
    assert_eq!(model.grid, expected);
    assert_eq!(model.grid.get(at(1, 0)), Ok(true));
}

#[test]
fn randomize_applies_the_draws() {
    let mut model = Model::new();
    let draws: Vec<bool> = (0..1141).map(|i| i % 2 == 1).collect();
    model.handle(&Input::Randomize(draws.clone()));
    let states: Vec<bool> = model.grid.iterate().iter().map(|cell| cell.1).collect();
    assert_eq!(states, draws);
}

#[test]
fn clear_keeps_the_radius() {
    let mut model = Model::new();
    model.grid.reset(7).unwrap();
    model.handle(&Input::Randomize(vec![true; 127]));
    model.handle(&Input::Clear);
    assert_eq!(model.grid, HexGrid::new(7).unwrap());
}

#[test]
fn zoom_adds_ten() {
    let mut model = Model::new();
    model.handle(&Input::Zoom);
    assert_eq!(model.spacing, Spacing::FlatTop(25));
    model.handle(&Input::Zoom);
    assert_eq!(model.spacing, Spacing::FlatTop(35));
    assert_eq!(model.spacing.size(), 35);
    assert_eq!(Spacing::PointyTop(4).widened(), Spacing::PointyTop(14));
}

#[test]
fn zoom_stops_at_the_largest_size() {
    assert_eq!(Spacing::FlatTop(u32::MAX - 10).widened(), Spacing::FlatTop(u32::MAX));
    assert_eq!(Spacing::FlatTop(u32::MAX - 9).widened(), Spacing::FlatTop(u32::MAX));
    assert_eq!(Spacing::PointyTop(u32::MAX).widened(), Spacing::PointyTop(u32::MAX));
}
