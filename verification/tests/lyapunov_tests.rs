use attractor::lyapunov::ExponentClass;
use attractor::lyapunov::MIN_VISITED_CELLS;
use attractor::lyapunov::candidate_accepted;
use attractor::lyapunov::coverage_accepts;
use attractor::lyapunov::exponent_accepts;
use attractor::point::Point;
use attractor::raster::Raster;
use attractor::swarm::Swarm;

#[test]
fn exponent_works() {}

#[test]
fn exponent_filter_keeps_only_finite_nonnegative() {
    assert!(exponent_accepts(ExponentClass::NonNegative));
    assert!(!exponent_accepts(ExponentClass::Negative));
    assert!(!exponent_accepts(ExponentClass::Collapsed));
    assert!(!exponent_accepts(ExponentClass::Escaped));
}

#[test]
fn coverage_filter_uses_the_visited_cell_threshold() {
    assert!(coverage_accepts(MIN_VISITED_CELLS));
    assert!(coverage_accepts(MIN_VISITED_CELLS + 1));
    assert!(!coverage_accepts(MIN_VISITED_CELLS - 1));
    assert!(!coverage_accepts(0));
}

#[test]
fn candidate_rejected_on_sparse_raster() {
    // a swarm confined to a few cells fails the coverage filter even with a
    // chaotic exponent outcome
    let mut s = Swarm::new();
    s.add(Point::new(1, 2));
    s.add(Point::new(2, 1));
    s.add(Point::new(0, 3));
    let r = Raster::new(&s, 100, 100).unwrap();
    assert!(!candidate_accepted(ExponentClass::NonNegative, &r));
    assert!(!candidate_accepted(ExponentClass::Negative, &r));
}

#[test]
fn candidate_accepted_needs_both_filters() {
    // a 20 x 20 lattice whose cells stay distinct on the 100 x 100 grid
    let mut s = Swarm::new();
    for i in 0..20i64 {
        for j in 0..20i64 {
            s.add(Point::new(i * 7, j * 3));
        }
    }
    let r = Raster::new(&s, 100, 100).unwrap();
    assert!(usize::try_from(r.visited_cells()).unwrap() >= MIN_VISITED_CELLS);
    assert!(candidate_accepted(ExponentClass::NonNegative, &r));
    assert!(!candidate_accepted(ExponentClass::Negative, &r));
    assert!(!candidate_accepted(ExponentClass::Collapsed, &r));
    assert!(!candidate_accepted(ExponentClass::Escaped, &r));
}
