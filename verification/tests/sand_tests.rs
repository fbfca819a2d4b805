use grid_automata::grid::GridError;
use grid_automata::sand::match_boundaries;
use grid_automata::sand::SandEngine;

#[test]
fn single_particle_falls_straight_down() {
    // Whatever the seed, a lone particle with an empty cell below falls
    // exactly one row per step.
    for seed in [0u64, 1, 42, 0xdead_beef, u64::MAX] {
        let mut engine = SandEngine::new(5, 5, seed).unwrap();
        engine.paint(2, 3, 900).unwrap();
        engine.step();
        let snapshot = engine.snapshot();
        for c in 0..5 {
            for r in 0..5 {
                let expected = if (c, r) == (2, 2) { 900 } else { 0 };
                assert_eq!(snapshot.get(c, r), expected, "seed {seed}, cell ({c}, {r})");
            }
        }
    }
}

#[test]
fn particle_on_full_support_rests() {
    // A particle sitting on a fully occupied bottom row with both diagonals
    // occupied stays where it is.
    for seed in [0u64, 7, 1234] {
        let mut engine = SandEngine::new(4, 4, seed).unwrap();
        for c in 0..4 {
            engine.paint(c, 0, 100 + c as u32).unwrap();
        }
        engine.paint(2, 1, 500).unwrap();
        engine.step();
        let snapshot = engine.snapshot();
        assert_eq!(snapshot.get(2, 1), 500, "seed {seed}");
        for c in 0..4 {
            assert_eq!(snapshot.get(c, 0), 100 + c as u32, "seed {seed}");
        }
    }
}

#[test]
fn bottom_row_particle_never_moves() {
    let mut engine = SandEngine::new(3, 3, 99).unwrap();
    engine.paint(1, 0, 777).unwrap();
    engine.step();
    engine.step();
    let snapshot = engine.snapshot();
    assert_eq!(snapshot.get(1, 0), 777);
    for c in 0..3 {
        for r in 0..3 {
            if (c, r) != (1, 0) {
                assert_eq!(snapshot.get(c, r), 0);
            }
        }
    }
}

#[test]
fn step_keeps_dimensions_and_is_deterministic() {
    let mut first = SandEngine::new(6, 7, 2024).unwrap();
    let mut second = SandEngine::new(6, 7, 2024).unwrap();
    for engine in [&mut first, &mut second] {
        engine.paint(0, 6, 10).unwrap();
        engine.paint(3, 6, 20).unwrap();
        engine.paint(3, 5, 30).unwrap();
        engine.paint(5, 2, 40).unwrap();
    }
    assert_eq!(first.generation(), 0);
    for _ in 0..10 {
        first.step();
        second.step();
        let a = first.snapshot();
        let b = second.snapshot();
        assert_eq!(a.dimensions(), (6, 7));
        assert_eq!(b.dimensions(), (6, 7));
        for c in 0..6 {
            for r in 0..7 {
                assert_eq!(a.get(c, r), b.get(c, r), "cell ({c}, {r})");
            }
        }
    }
    assert_eq!(first.generation(), 10);
    assert_eq!(second.generation(), 10);
}

#[test]
fn particles_settle_into_a_pile() {
    // Three particles stacked in one column settle onto the bottom row and
    // its diagonals; none is lost on the way down.
    let mut engine = SandEngine::new(5, 5, 3).unwrap();
    engine.paint(2, 2, 11).unwrap();
    engine.paint(2, 3, 22).unwrap();
    engine.paint(2, 4, 33).unwrap();
    for _ in 0..6 {
        engine.step();
    }
    let snapshot = engine.snapshot();
    let mut occupied = 0;
    for c in 0..5 {
        for r in 0..5 {
            if snapshot.get(c, r) != 0 {
                occupied += 1;
                assert!(r <= 1, "everything must have settled near the bottom");
            }
        }
    }
    assert_eq!(occupied, 3);
}

#[test]
fn paint_out_of_range_reports_and_preserves_state() {
    let mut engine = SandEngine::new(3, 3, 5).unwrap();
    engine.paint(0, 0, 42).unwrap();
    assert_eq!(engine.paint(3, 0, 9), Err(GridError::OutOfRangeCoordinate));
    assert_eq!(engine.paint(0, 7, 9), Err(GridError::OutOfRangeCoordinate));
    let snapshot = engine.snapshot();
    assert_eq!(snapshot.dimensions(), (3, 3));
    for c in 0..3 {
        for r in 0..3 {
            let expected = if (c, r) == (0, 0) { 42 } else { 0 };
            assert_eq!(snapshot.get(c, r), expected);
        }
    }
}

#[test]
fn sand_engine_rejects_zero_dimensions() {
    assert_eq!(SandEngine::new(0, 3, 1).err(), Some(GridError::InvalidDimensions));
    assert_eq!(SandEngine::new(3, 0, 1).err(), Some(GridError::InvalidDimensions));
    assert!(SandEngine::new(3, 3, 1).is_ok());
}

#[test]
fn painting_with_hue_shades_forward_and_wraps() {
    let mut engine = SandEngine::new(2, 2, 0).unwrap();
    assert_eq!(engine.current_hue(), 200);
    engine.paint_with_hue(0, 0).unwrap();
    assert_eq!(engine.snapshot().get(0, 0), 200);
    assert_eq!(engine.current_hue(), 202);
    engine.paint_with_hue(0, 1).unwrap();
    assert_eq!(engine.snapshot().get(0, 1), 202);
    assert_eq!(engine.current_hue(), 204);
    // An out-of-range stroke changes nothing, not even the hue.
    assert_eq!(engine.paint_with_hue(5, 5), Err(GridError::OutOfRangeCoordinate));
    assert_eq!(engine.current_hue(), 204);
    // The hue wraps back to 1 once it passes 3580.
    for _ in 0..1688 {
        engine.paint_with_hue(1, 1).unwrap();
    }
    assert_eq!(engine.current_hue(), 3580);
    engine.paint_with_hue(1, 1).unwrap();
    assert_eq!(engine.snapshot().get(1, 1), 3580);
    assert_eq!(engine.current_hue(), 1);
}

#[test]
fn match_boundaries_clamps_to_walls() {
    assert_eq!(match_boundaries(-1, 60), 0);
    assert_eq!(match_boundaries(-100, 60), 0);
    assert_eq!(match_boundaries(0, 60), 0);
    assert_eq!(match_boundaries(59, 60), 59);
    assert_eq!(match_boundaries(60, 60), 59);
    assert_eq!(match_boundaries(1000, 60), 59);
    assert_eq!(match_boundaries(0, 1), 0);
    assert_eq!(match_boundaries(5, 1), 0);
}
