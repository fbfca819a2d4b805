use grid_automata::grid::GridError;
use grid_automata::life::GridStatus;
use grid_automata::life::LifeEngine;

struct NeighborsTest {
    neighbors: Vec<u8>,
    name: String,
    expected: GridStatus,
}

#[test]
fn grid_game_rules() {
    let neighbohr_blocks = [
        NeighborsTest {
            neighbors: vec![0, 0, 0, 0, 0, 0, 0, 0, 0],
            name: "all_dead".to_string(),
            expected: GridStatus::Dead,
        },
        NeighborsTest {
            neighbors: vec![0, 0, 0, 0, 1, 0, 0, 0, 0],
            name: "all_dead_core_alive".to_string(),
            expected: GridStatus::Dead,
        },
        NeighborsTest {
            neighbors: vec![1, 0, 0, 0, 1, 0, 0, 0, 0],
            name: "core_alive_rule_1".to_string(),
            expected: GridStatus::Dead,
        },
        NeighborsTest {
            neighbors: vec![1, 1, 0, 0, 1, 0, 0, 0, 0],
            name: "core_alive_rule_2_with_two".to_string(),
            expected: GridStatus::Alive,
        },
        NeighborsTest {
            neighbors: vec![1, 1, 0, 0, 1, 0, 0, 0, 0],
            name: "core_alive_rule_2_with_three".to_string(),
            expected: GridStatus::Alive,
        },
        NeighborsTest {
            neighbors: vec![1, 1, 1, 0, 1, 0, 1, 0, 0],
            name: "core_alive_rule_3".to_string(),
            expected: GridStatus::Dead,
        },
        NeighborsTest {
            neighbors: vec![1, 1, 1, 1, 1, 1, 1, 1, 1],
            name: "core_alive_all_alive".to_string(),
            expected: GridStatus::Dead,
        },
        NeighborsTest {
            neighbors: vec![1, 1, 0, 0, 0, 0, 1, 0, 0],
            name: "core_alive_rule_4".to_string(),
            expected: GridStatus::Alive,
        },
        NeighborsTest {
            neighbors: vec![1, 1, 1, 0, 0, 0, 1, 0, 0],
            name: "core_alive_rule_4_fail".to_string(),
            expected: GridStatus::Dead,
        },
    ];

    for n in neighbohr_blocks.iter() {
        let calculation = GridStatus::Dead.game_rules(&n.neighbors);
        assert_eq!(calculation, n.expected, "`{0}` `{calculation:?}`", n.name);
    }
}

fn engine_from_columns(columns: &[[GridStatus; 5]; 5]) -> LifeEngine {
    let mut engine = LifeEngine::new(5, 5).unwrap();
    for (c, column) in columns.iter().enumerate() {
        for (r, status) in column.iter().enumerate() {
            engine.paint(c, r, *status).unwrap();
        }
    }
    engine
}

#[test]
fn model_get_neighbors() {
    let model_calc = engine_from_columns(&[
        [
            GridStatus::Dead,
            GridStatus::Dead,
            GridStatus::Dead,
            GridStatus::Dead,
            GridStatus::Alive,
        ],
        [
            GridStatus::Dead,
            GridStatus::Alive,
            GridStatus::Alive,
            GridStatus::Alive,
            GridStatus::Dead,
        ],
        [
            GridStatus::Dead,
            GridStatus::Alive,
            GridStatus::Alive,
            GridStatus::Alive,
            GridStatus::Dead,
        ],
        [
            GridStatus::Dead,
            GridStatus::Alive,
            GridStatus::Alive,
            GridStatus::Alive,
            GridStatus::Dead,
        ],
        [
            GridStatus::Dead,
            GridStatus::Dead,
            GridStatus::Dead,
            GridStatus::Dead,
            GridStatus::Alive,
        ],
    ]);

    println!("First 2, 2");
    let neigh = model_calc.neighbors(2, 2);
    let model_expected = vec![1, 1, 1, 1, 1, 1, 1, 1, 1];
    assert_eq!(neigh, model_expected);

    println!("\n Second 0, 0");
    let neigh = model_calc.neighbors(0, 0);
    let model_expected = vec![0, 0, 0, 0, 0, 0, 0, 0, 1];
    assert_eq!(neigh, model_expected);

    println!("\n Third: 4,4");
    let neigh = model_calc.neighbors(4, 4);
    let model_expected = vec![1, 0, 0, 0, 1, 0, 0, 0, 0];
    assert_eq!(neigh, model_expected);

    println!("\n Fourth: 5, 5");
    let neigh = model_calc.neighbors(5, 5);
    let model_expected = vec![1, 0, 0, 0, 0, 0, 0, 0, 0];
    assert_eq!(neigh, model_expected);
}

fn count_live_slots(ns: &[u8]) -> u32 {
    let mut count = 0;
    for (i, v) in ns.iter().enumerate() {
        if i != 4 && *v > 0 {
            count += 1;
        }
    }
    count
}

#[test]
fn dead_outside_slot_counts() {
    // On a fully alive grid, the live neighbor slots are exactly the slots
    // that lie inside the grid: 3 for a corner, 5 for an edge, 8 inside.
    let mut engine = LifeEngine::new(6, 6).unwrap();
    for c in 0..6 {
        for r in 0..6 {
            engine.paint(c, r, GridStatus::Alive).unwrap();
        }
    }
    assert_eq!(count_live_slots(&engine.neighbors(0, 0)), 3);
    assert_eq!(count_live_slots(&engine.neighbors(5, 5)), 3);
    assert_eq!(count_live_slots(&engine.neighbors(0, 5)), 3);
    assert_eq!(count_live_slots(&engine.neighbors(3, 0)), 5);
    assert_eq!(count_live_slots(&engine.neighbors(0, 2)), 5);
    assert_eq!(count_live_slots(&engine.neighbors(5, 4)), 5);
    assert_eq!(count_live_slots(&engine.neighbors(2, 3)), 8);
    assert_eq!(count_live_slots(&engine.neighbors(1, 1)), 8);
}

fn build_rule_neighbors(center: u8, live: usize) -> Vec<u8> {
    let mut ns = vec![0u8; 9];
    ns[4] = center;
    let mut placed = 0;
    for i in 0..9 {
        if i != 4 && placed < live {
            ns[i] = 1;
            placed += 1;
        }
    }
    ns
}

#[test]
fn life_rule_exhaustive_table() {
    for live in 0..=8usize {
        let alive_result = GridStatus::Alive.game_rules(&build_rule_neighbors(1, live));
        let expected_alive = if live == 2 || live == 3 {
            GridStatus::Alive
        } else {
            GridStatus::Dead
        };
        assert_eq!(alive_result, expected_alive, "alive center, {live} live neighbors");

        let dead_result = GridStatus::Dead.game_rules(&build_rule_neighbors(0, live));
        let expected_dead = if live == 3 {
            GridStatus::Alive
        } else {
            GridStatus::Dead
        };
        assert_eq!(dead_result, expected_dead, "dead center, {live} live neighbors");
    }
}

#[test]
fn all_dead_grid_stays_dead() {
    let mut engine = LifeEngine::new(8, 8).unwrap();
    for _ in 0..5 {
        engine.step();
        let snapshot = engine.snapshot();
        let (cols, rows) = snapshot.dimensions();
        assert_eq!((cols, rows), (8, 8));
        for c in 0..cols {
            for r in 0..rows {
                assert_eq!(snapshot.get(c, r), GridStatus::Dead);
            }
        }
    }
}

#[test]
fn blinker_oscillates_and_dims_stay() {
    let mut engine = LifeEngine::new(5, 5).unwrap();
    assert_eq!(engine.generation(), 0);
    // A vertical blinker through the center.
    engine.paint(2, 1, GridStatus::Alive).unwrap();
    engine.paint(2, 2, GridStatus::Alive).unwrap();
    engine.paint(2, 3, GridStatus::Alive).unwrap();
    engine.step();
    let snapshot = engine.snapshot();
    assert_eq!(snapshot.dimensions(), (5, 5));
    // One step turns it into a horizontal blinker.
    assert_eq!(snapshot.get(1, 2), GridStatus::Alive);
    assert_eq!(snapshot.get(2, 2), GridStatus::Alive);
    assert_eq!(snapshot.get(3, 2), GridStatus::Alive);
    assert_eq!(snapshot.get(2, 1), GridStatus::Dead);
    assert_eq!(snapshot.get(2, 3), GridStatus::Dead);
    engine.step();
    assert_eq!(engine.generation(), 2);
    let snapshot = engine.snapshot();
    // The second step restores the vertical blinker.
    assert_eq!(snapshot.get(2, 1), GridStatus::Alive);
    assert_eq!(snapshot.get(2, 2), GridStatus::Alive);
    assert_eq!(snapshot.get(2, 3), GridStatus::Alive);
    assert_eq!(snapshot.get(1, 2), GridStatus::Dead);
    assert_eq!(snapshot.get(3, 2), GridStatus::Dead);
}

#[test]
fn toggle_flips_and_reports_out_of_range() {
    let mut engine = LifeEngine::new(4, 4).unwrap();
    assert_eq!(engine.toggle(1, 2), Ok(()));
    assert_eq!(engine.snapshot().get(1, 2), GridStatus::Alive);
    assert_eq!(engine.toggle(1, 2), Ok(()));
    assert_eq!(engine.snapshot().get(1, 2), GridStatus::Dead);
    assert_eq!(engine.toggle(4, 0), Err(GridError::OutOfRangeCoordinate));
    assert_eq!(engine.toggle(0, 9), Err(GridError::OutOfRangeCoordinate));
}

#[test]
fn paint_out_of_range_leaves_grid_intact() {
    let mut engine = LifeEngine::new(3, 3).unwrap();
    engine.paint(1, 1, GridStatus::Alive).unwrap();
    let result = engine.paint(3, 1, GridStatus::Alive);
    assert_eq!(result, Err(GridError::OutOfRangeCoordinate));
    let snapshot = engine.snapshot();
    assert_eq!(snapshot.dimensions(), (3, 3));
    for c in 0..3 {
        for r in 0..3 {
            let expected = if (c, r) == (1, 1) { GridStatus::Alive } else { GridStatus::Dead };
            assert_eq!(snapshot.get(c, r), expected);
        }
    }
}

#[test]
fn life_engine_rejects_zero_dimensions() {
    assert_eq!(LifeEngine::new(0, 5).err(), Some(GridError::InvalidDimensions));
    assert_eq!(LifeEngine::new(5, 0).err(), Some(GridError::InvalidDimensions));
    assert!(LifeEngine::new(1, 1).is_ok());
}

#[test]
fn status_helpers() {
    assert_eq!(GridStatus::Alive.grid_value(), 1);
    assert_eq!(GridStatus::Dead.grid_value(), 0);
    assert_eq!(GridStatus::Alive.toggle(), GridStatus::Dead);
    assert_eq!(GridStatus::Dead.toggle(), GridStatus::Alive);
}
