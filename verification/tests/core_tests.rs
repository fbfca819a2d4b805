use grid_automata::grid::Grid;
use grid_automata::grid::GridError;
use grid_automata::options::Args;
use grid_automata::options::RunOptions;
use grid_automata::project::project_to_cell;
use grid_automata::rgb::RgbCycle;
use grid_automata::rgb::TransitionPhase;
use grid_automata::rgb::CHANNEL_FULL;

#[test]
fn grid_construction_and_access() {
    let mut grid: Grid<u32> = Grid::new(3, 2, 7).unwrap();
    assert_eq!(grid.dimensions(), (3, 2));
    for c in 0..3 {
        for r in 0..2 {
            assert_eq!(grid.get(c, r), 7);
        }
    }
    grid.set(2, 1, 99);
    assert_eq!(grid.get(2, 1), 99);
    assert_eq!(grid.get(2, 0), 7);
    assert_eq!(grid.get(0, 1), 7);
}

#[test]
fn grid_rejects_zero_dimensions() {
    assert_eq!(Grid::<u8>::new(0, 4, 0).err(), Some(GridError::InvalidDimensions));
    assert_eq!(Grid::<u8>::new(4, 0, 0).err(), Some(GridError::InvalidDimensions));
    assert_eq!(Grid::<u8>::new(0, 0, 0).err(), Some(GridError::InvalidDimensions));
}

#[test]
fn projection_maps_window_positions_to_cells() {
    // A 600-pixel window: positions range over [-300, 300], cells are 10
    // pixels wide.
    assert_eq!(project_to_cell(0, 300, 10), 30);
    assert_eq!(project_to_cell(5, 300, 10), 30);
    assert_eq!(project_to_cell(-300, 300, 10), 0);
    assert_eq!(project_to_cell(-291, 300, 10), 0);
    assert_eq!(project_to_cell(-290, 300, 10), 1);
    assert_eq!(project_to_cell(299, 300, 10), 59);
    assert_eq!(project_to_cell(300, 300, 10), 60);
}

#[test]
fn projection_takes_magnitude_below_window() {
    // Far off the window's left edge the floored quotient goes negative and
    // the projection reports its magnitude.
    assert_eq!(project_to_cell(-355, 300, 10), 6);
    assert_eq!(project_to_cell(-350, 300, 10), 5);
    assert_eq!(project_to_cell(-301, 300, 10), 1);
}

#[test]
fn rgb_cycle_walks_the_three_phases() {
    let mut cycle = RgbCycle::new();
    assert_eq!(cycle.channels(), (CHANNEL_FULL, 0, 0));
    assert_eq!(cycle.phase, TransitionPhase::RedToBlue);

    cycle.step();
    assert_eq!(cycle.channels(), (CHANNEL_FULL - 1, 0, 1));

    for _ in 1..400 {
        cycle.step();
    }
    assert_eq!(cycle.channels(), (0, 0, CHANNEL_FULL));
    assert_eq!(cycle.phase, TransitionPhase::BlueToGreen);

    for _ in 0..400 {
        cycle.step();
    }
    assert_eq!(cycle.channels(), (0, CHANNEL_FULL, 0));
    assert_eq!(cycle.phase, TransitionPhase::GreenToRed);

    for _ in 0..400 {
        cycle.step();
    }
    // A full circle of 1200 steps returns to the start.
    assert_eq!(cycle.channels(), (CHANNEL_FULL, 0, 0));
    assert_eq!(cycle.phase, TransitionPhase::RedToBlue);
}

#[test]
fn rgb_channels_keep_constant_total() {
    let mut cycle = RgbCycle::new();
    for _ in 0..1000 {
        cycle.step();
        let (red, green, blue) = cycle.channels();
        assert_eq!(red + green + blue, CHANNEL_FULL);
    }
}

#[test]
fn run_options_compare_and_default() {
    assert_eq!(RunOptions::default_option(), RunOptions::InitialShapes);
    let args = Args { name: RunOptions::FallingSand };
    assert_eq!(args.name, RunOptions::FallingSand);
    assert_ne!(args.name, RunOptions::GameOfLife);
}
