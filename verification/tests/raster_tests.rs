use attractor::point::Point;
use attractor::raster::Raster;
use attractor::raster::RasterError;
use attractor::swarm::Swarm;

fn fixture_swarm() -> Swarm {
    let mut s = Swarm::new();
    s.add(Point::new(1, 2));
    s.add(Point::new(2, 1));
    s.add(Point::new(0, 3));
    s.add(Point::new(0, 3));
    s
}

fn normalized(r: &Raster) -> Vec<f64> {
    let m = r.max_count() as f64;
    r.intensities().iter().map(|c| *c as f64 / m).collect()
}

#[test]
fn raster_works() {
    let s = fixture_swarm();
    let x = Raster::new(&s, 2, 2).unwrap();
    let n = normalized(&x);
    assert_eq!(n[0], 0.0);
    assert_eq!(n[1], 0.5);
    assert_eq!(n[2], 1.0);
    assert_eq!(n[3], 0.5);
}

#[test]
fn raster_fixture_cells() {
    let s = fixture_swarm();
    let r = Raster::new(&s, 2, 2).unwrap();
    assert_eq!(r.width(), 2);
    assert_eq!(r.height(), 2);
    assert_eq!(r.intensities().len(), 4);
    assert_eq!(r.max_count(), 2);
    // row-major: (1,2) and (2,1) land in row 0 or 1 as counts 0,1,2,1
    assert_eq!(r.intensity(0, 0), 0);
    assert_eq!(r.intensity(1, 0), 1);
    assert_eq!(r.intensity(0, 1), 2);
    assert_eq!(r.intensity(1, 1), 1);
    assert_eq!(r.visited_cells(), 3);
}

#[test]
fn raster_normalization_bounds() {
    let mut s = Swarm::new();
    // a scattered cloud with repeats
    let coords = [
        (13, -7),
        (4, 22),
        (-9, 5),
        (4, 22),
        (0, 0),
        (31, 8),
        (-20, -20),
        (4, 22),
        (13, -7),
        (7, 7),
    ];
    for (x, y) in coords {
        s.add(Point::new(x, y));
    }
    let r = Raster::new(&s, 5, 4).unwrap();
    let n = normalized(&r);
    let mut saw_one = false;
    for v in n {
        assert!((0.0..=1.0).contains(&v));
        if v == 1.0 {
            saw_one = true;
        }
    }
    assert!(saw_one);
}

#[test]
fn rasterize_twice_is_identical() {
    let s = fixture_swarm();
    let r1 = Raster::new(&s, 7, 5).unwrap();
    let r2 = Raster::new(&s, 7, 5).unwrap();
    assert_eq!(r1.width(), r2.width());
    assert_eq!(r1.height(), r2.height());
    assert_eq!(r1.max_count(), r2.max_count());
    assert_eq!(r1.intensities(), r2.intensities());
}

#[test]
fn raster_counts_every_point_once() {
    let s = fixture_swarm();
    let r = Raster::new(&s, 2, 2).unwrap();
    let total: u64 = r.intensities().iter().sum();
    assert_eq!(total, 4);

    let r = Raster::new(&s, 13, 9).unwrap();
    let total: u64 = r.intensities().iter().sum();
    assert_eq!(total, 4);
}

#[test]
fn raster_ignores_coordinate_scale_and_origin() {
    let mut plain = Swarm::new();
    let mut moved = Swarm::new();
    let coords = [(1, 2), (2, 1), (0, 3), (0, 3), (-5, 14), (9, -2)];
    for (x, y) in coords {
        plain.add(Point::new(x, y));
        moved.add(Point::new(1000 * x - 77, 1000 * y + 31));
    }
    let r1 = Raster::new(&plain, 6, 7).unwrap();
    let r2 = Raster::new(&moved, 6, 7).unwrap();
    assert_eq!(r1.intensities(), r2.intensities());
    assert_eq!(r1.max_count(), r2.max_count());
}

#[test]
fn raster_rejects_empty_swarm() {
    let s = Swarm::new();
    assert_eq!(Raster::new(&s, 2, 2).unwrap_err(), RasterError::EmptySwarm);
}

#[test]
fn raster_rejects_zero_width() {
    let s = fixture_swarm();
    assert_eq!(Raster::new(&s, 0, 2).unwrap_err(), RasterError::ZeroDimension);
}

#[test]
fn raster_rejects_zero_height() {
    let s = fixture_swarm();
    assert_eq!(Raster::new(&s, 2, 0).unwrap_err(), RasterError::ZeroDimension);
}

#[test]
fn raster_degenerate_axis_collapses_to_one_column() {
    let mut s = Swarm::new();
    s.add(Point::new(5, 0));
    s.add(Point::new(5, 3));
    s.add(Point::new(5, 7));
    let r = Raster::new(&s, 3, 3).unwrap();
    // every point shares x = 5, so everything lands in column 0
    for y in 0..3 {
        for x in 1..3 {
            assert_eq!(r.intensity(x, y), 0);
        }
    }
    let total: u64 = r.intensities().iter().sum();
    assert_eq!(total, 3);
}

#[test]
fn raster_single_point() {
    let mut s = Swarm::new();
    s.add(Point::new(-4, 9));
    let r = Raster::new(&s, 4, 4).unwrap();
    assert_eq!(r.max_count(), 1);
    assert_eq!(r.visited_cells(), 1);
    // both axes are degenerate: the point sits in cell (0, 0)
    assert_eq!(r.intensity(0, 0), 1);
}
