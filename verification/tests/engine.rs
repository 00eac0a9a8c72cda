//! Tests of the occupancy grid and the aggregation step.

use dla::grid::{dir_offset, Grid, FRAME_MS, PARTICLES_PER_FRAME, STICKINESS_SCALE};
use dla::source::{FastSource, RandomSource, ScriptedSource};

fn scripted(script: Vec<u64>) -> ScriptedSource {
    ScriptedSource::new(script)
}

#[test]
fn seeded_grid_has_single_center_cell() {
    let g = Grid::create_seeded(scripted(vec![]), 10, 8, 100_000);
    assert_eq!(g.count_occupied(), 1);
    assert!(g.is_occupied(5, 4));
    assert!(!g.is_occupied(4, 4));
    assert!(!g.is_occupied(5, 5));
}

#[test]
fn empty_grid_has_no_cells() {
    let g = Grid::create_empty(scripted(vec![]), 10, 8, 100_000);
    assert_eq!(g.count_occupied(), 0);
    assert!(!g.is_occupied(5, 4));
    assert!(g.running);
    assert_eq!(g.time_ms, 0);
}

#[test]
fn border_and_outside_queries_fail_closed() {
    let g = Grid::create_seeded(scripted(vec![]), 10, 8, 100_000);
    for y in -2..10 {
        assert!(!g.is_occupied(0, y));
        assert!(!g.is_occupied(10, y));
        assert!(!g.is_occupied(-3, y));
    }
    for x in -2..12 {
        assert!(!g.is_occupied(x, 0));
        assert!(!g.is_occupied(x, 8));
        assert!(!g.is_occupied(x, -1));
    }
}

#[test]
fn adjacency_covers_moore_neighbourhood() {
    let g = Grid::create_seeded(scripted(vec![]), 5, 5, 100_000);
    // all eight neighbours of the occupied centre (2, 2) see it
    for (x, y) in [(1, 1), (2, 1), (3, 1), (1, 2), (3, 2), (1, 3), (2, 3), (3, 3)] {
        assert!(g.is_adjacent_to_occupied(x, y), "({}, {})", x, y);
    }
    // the occupied cell itself has no occupied neighbour
    assert!(!g.is_adjacent_to_occupied(2, 2));
    // two steps away is not adjacent
    assert!(!g.is_adjacent_to_occupied(4, 4));
    // out-of-bounds coordinates may still be adjacent to an in-bounds cell
    let mut h = Grid::create_empty(scripted(vec![]), 5, 5, 100_000);
    h.occupy(4, 2);
    assert!(h.is_adjacent_to_occupied(5, 2));
}

#[test]
fn occupy_marks_exactly_one_cell() {
    let mut g = Grid::create_empty(scripted(vec![]), 6, 6, 100_000);
    g.occupy(3, 2);
    assert!(g.is_occupied(3, 2));
    assert_eq!(g.count_occupied(), 1);
    g.occupy(3, 2);
    assert_eq!(g.count_occupied(), 1);
}

#[test]
fn direction_table_matches_moore_offsets() {
    let expected: [(i64, i64); 8] = [
        (-1, -1),
        (0, -1),
        (1, -1),
        (-1, 0),
        (1, 0),
        (-1, 1),
        (0, 1),
        (1, 1),
    ];
    for d in 0..8u64 {
        assert_eq!(dir_offset(d), expected[d as usize]);
    }
}

#[test]
fn small_deltas_run_no_frame() {
    // 50 ms twice accumulates to one frame duration, which is not yet
    // exceeded, so no frame runs and no draw is consumed
    let mut g = Grid::create_seeded(scripted(vec![]), 5, 5, STICKINESS_SCALE);
    g.advance(50);
    assert_eq!(g.count_occupied(), 1);
    assert_eq!(g.time_ms, 50);
    g.advance(50);
    assert_eq!(g.count_occupied(), 1);
    assert_eq!(g.time_ms, 100);
    // one more millisecond exceeds the frame duration: one frame runs, and
    // its scripted particle starts at (1, 1), adjacent to the seed (2, 2)
    g.particles_per_frame = 1;
    let mut h = g;
    h.advance(1);
    assert_eq!(h.time_ms, 1);
    assert_eq!(h.count_occupied(), 2);
}

#[test]
fn split_advance_equals_single_advance() {
    // the same scripted draws, poured in as 75 + 75 ms and as 150 ms at
    // once: the same single frame runs and the same cells come out
    let script: Vec<u64> = (0..400).map(|i| (i * 7 + 3) % 97).collect();
    let mut a = Grid::create_seeded(scripted(script.clone()), 8, 8, STICKINESS_SCALE);
    a.particles_per_frame = 4;
    let mut b = Grid::create_seeded(scripted(script), 8, 8, STICKINESS_SCALE);
    b.particles_per_frame = 4;
    a.advance(75);
    a.advance(75);
    b.advance(150);
    assert_eq!(a.time_ms, b.time_ms);
    assert_eq!(a.count_occupied(), b.count_occupied());
    for y in 0..8 {
        for x in 0..8 {
            assert_eq!(a.is_occupied(x, y), b.is_occupied(x, y));
        }
    }
}

#[test]
fn full_stickiness_sticks_on_first_adjacent_step() {
    // one particle, started at (1, 1), adjacent to the centre seed (2, 2)
    // of a 5x5 grid: at full stickiness it must occupy (1, 1) at once
    let mut g = Grid::create_seeded(scripted(vec![0, 0, 0]), 5, 5, STICKINESS_SCALE);
    g.particles_per_frame = 1;
    g.update_one_frame();
    assert!(g.is_occupied(1, 1));
    assert_eq!(g.count_occupied(), 2);
}

#[test]
fn zero_stickiness_never_occupies() {
    let mut g = Grid::create_seeded(scripted((0..200).map(|i| i * 13).collect()), 6, 6, 0);
    g.particles_per_frame = 3;
    g.update_one_frame();
    assert_eq!(g.count_occupied(), 1);
    g.advance(1000);
    assert_eq!(g.count_occupied(), 1);
    let mut h = Grid::create_seeded(FastSource::from_seed(11), 16, 16, 0);
    h.advance(2000);
    assert_eq!(h.count_occupied(), 1);
}

#[test]
fn occupancy_is_monotonic_across_frames() {
    let mut g = Grid::create_seeded(FastSource::from_seed(3), 24, 24, STICKINESS_SCALE);
    let mut seen: Vec<(i64, i64)> = Vec::new();
    for _ in 0..10 {
        for &(x, y) in &seen {
            assert!(g.is_occupied(x, y));
        }
        seen.clear();
        for y in 0..24 {
            for x in 0..24 {
                if g.is_occupied(x, y) {
                    seen.push((x, y));
                }
            }
        }
        g.advance(101);
    }
    for &(x, y) in &seen {
        assert!(g.is_occupied(x, y));
    }
}

#[test]
fn border_cells_stay_clear_of_zero_row_and_column() {
    let mut g = Grid::create_seeded(FastSource::from_seed(5), 12, 12, STICKINESS_SCALE);
    for _ in 0..20 {
        g.advance(101);
    }
    for k in 0..12 {
        assert!(!g.is_occupied(0, k));
        assert!(!g.is_occupied(k, 0));
        assert!(!g.is_occupied(12, k));
        assert!(!g.is_occupied(k, 12));
    }
}

#[test]
fn toggle_running_flips_only_the_flag() {
    let mut g = Grid::create_seeded(scripted(vec![]), 6, 6, 100_000);
    assert!(g.running);
    g.toggle_running();
    assert!(!g.running);
    assert_eq!(g.count_occupied(), 1);
    assert_eq!(g.time_ms, 0);
    g.toggle_running();
    assert!(g.running);
}

#[test]
fn reset_keeps_the_random_stream_going() {
    // run one grid through a frame, rebuild a grid around its source, and
    // check the source continues exactly where a twin source, run through
    // the same frame but never handed to a new grid, continues
    let mut a = Grid::create_seeded(FastSource::from_seed(7), 8, 8, 500_000);
    let mut b = Grid::create_seeded(FastSource::from_seed(7), 8, 8, 500_000);
    a.advance(101);
    b.advance(101);
    let reset = Grid::create_seeded(a.rng, 8, 8, STICKINESS_SCALE);
    assert_eq!(reset.count_occupied(), 1);
    let mut continued = reset.rng;
    let mut twin = b.rng;
    for _ in 0..50 {
        assert_eq!(continued.next_below(1_000_000), twin.next_below(1_000_000));
    }
}

#[test]
fn reset_after_reset_still_continues_the_stream() {
    let mut a = Grid::create_seeded(FastSource::from_seed(9), 8, 8, 500_000);
    a.advance(101);
    let taken = a.rng;
    let spiral = Grid::create_spiral(taken, 8, 8, 100_000);
    let empty = Grid::create_empty(spiral.rng, 8, 8, 100_000);
    let mut c = Grid::create_seeded(FastSource::from_seed(9), 8, 8, 500_000);
    c.advance(101);
    let mut continued = empty.rng;
    let mut twin = c.rng;
    for _ in 0..50 {
        assert_eq!(continued.next_below(97), twin.next_below(97));
    }
}

#[test]
fn fast_source_draws_stay_below_the_bound() {
    let mut s = FastSource::from_seed(1);
    let mut all_equal = true;
    let first = s.next_below(5);
    assert!(first < 5);
    for _ in 0..200 {
        let v = s.next_below(5);
        assert!(v < 5);
        if v != first {
            all_equal = false;
        }
    }
    assert!(!all_equal);
    assert_eq!(s.next_below(1), 0);
}

#[test]
fn fast_source_is_deterministic_per_seed() {
    let mut a = FastSource::from_seed(42);
    let mut b = FastSource::from_seed(42);
    for _ in 0..20 {
        assert_eq!(a.next_below(1000), b.next_below(1000));
    }
}

#[test]
fn scripted_source_replays_its_script() {
    let mut s = scripted(vec![7, 9]);
    assert_eq!(s.next_below(5), 2);
    assert_eq!(s.next_below(5), 4);
    // exhausted scripts yield zero
    assert_eq!(s.next_below(5), 0);
    assert_eq!(s.next_below(3), 0);
}

#[test]
fn default_frame_constants() {
    assert_eq!(FRAME_MS, 100);
    assert_eq!(PARTICLES_PER_FRAME, 60);
    assert_eq!(STICKINESS_SCALE, 1_000_000);
    let g = Grid::create_seeded(scripted(vec![]), 6, 6, 100_000);
    assert_eq!(g.particles_per_frame, PARTICLES_PER_FRAME);
}
