//! Tests of the pattern seeders, checked against floating-point references.

use dla::grid::Grid;
use dla::source::ScriptedSource;
use dla::spiral::{sin_mag, sin_parts, spiral_point, spiral_points};

#[test]
fn spiral_places_exactly_one_hundred_points() {
    let pts = spiral_points(640, 480);
    assert_eq!(pts.len(), 100);
}

#[test]
fn spiral_points_stay_within_the_radius() {
    // nine tenths of the smaller half-size, as the seeder defines it
    let pts = spiral_points(640, 480);
    let (cx, cy) = (320.0_f64, 240.0_f64);
    let r = 0.9 * 240.0;
    for &(x, y) in pts.iter() {
        let dx = x as f64 - cx;
        let dy = y as f64 - cy;
        assert!(dx.abs() <= r, "({}, {})", x, y);
        assert!(dy.abs() <= r, "({}, {})", x, y);
        assert!((dx * dx + dy * dy).sqrt() <= r, "({}, {})", x, y);
    }
}

#[test]
fn spiral_points_track_the_true_spiral() {
    // the fixed-point sine stays close enough to the real spiral that every
    // cell lands within two cells of the floating-point reference
    let pts = spiral_points(640, 480);
    let pi = std::f64::consts::PI;
    let (cx, cy) = (320.0_f64, 240.0_f64);
    let r = 0.9 * 240.0;
    for (i, &(x, y)) in pts.iter().enumerate() {
        let t = i as f64 / 100.0;
        let a = 3.0 * pi * t;
        let fx = cx + t * r * a.cos();
        let fy = cy + t * r * a.sin();
        assert!((x as f64 - fx).abs() <= 2.0, "{}: ({}, {}) vs ({}, {})", i, x, y, fx, fy);
        assert!((y as f64 - fy).abs() <= 2.0, "{}: ({}, {}) vs ({}, {})", i, x, y, fx, fy);
    }
}

#[test]
fn spiral_points_stay_strictly_inside_small_grids() {
    for (w, h) in [(2, 2), (3, 5), (8, 6), (20, 21), (640, 480)] {
        let pts = spiral_points(w, h);
        assert_eq!(pts.len(), 100);
        for &(x, y) in pts.iter() {
            assert!(0 < x && x < w, "{}x{}: ({}, {})", w, h, x, y);
            assert!(0 < y && y < h, "{}x{}: ({}, {})", w, h, x, y);
        }
    }
}

#[test]
fn spiral_grid_occupies_the_distinct_points() {
    let pts = spiral_points(640, 480);
    let mut distinct: Vec<(usize, usize)> = Vec::new();
    for &p in pts.iter() {
        if !distinct.contains(&p) {
            distinct.push(p);
        }
    }
    let g = Grid::create_spiral(ScriptedSource::new(vec![]), 640, 480, 100_000);
    assert_eq!(g.count_occupied(), distinct.len());
    for &(x, y) in distinct.iter() {
        assert!(g.is_occupied(x as i64, y as i64));
    }
    assert!(!g.is_occupied(1, 1));
    assert_eq!(g.time_ms, 0);
    assert!(g.running);
}

#[test]
fn spiral_starts_at_the_centre() {
    let p = spiral_point(0, 640, 480);
    assert_eq!(p, (320, 240));
}

#[test]
fn fixed_point_sine_tracks_the_true_sine() {
    let pi = std::f64::consts::PI;
    for u in 0..=100u64 {
        let exact = (u as f64 * pi / 100.0).sin();
        let approx = sin_mag(u) as f64 / 1000.0;
        assert!((approx - exact).abs() <= 0.003, "{}: {} vs {}", u, approx, exact);
    }
    // the sign flips on the second half of each full turn
    let (neg, mag) = sin_parts(150);
    assert!(neg);
    assert_eq!(mag, sin_mag(50));
    let (neg2, _) = sin_parts(250);
    assert!(!neg2);
}
