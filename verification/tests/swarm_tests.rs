use attractor::point::Point;
use attractor::swarm::Swarm;

#[test]
fn attractor_swarm_works() {
    let mut s = Swarm::new();
    s.add(Point::new(1, 2));
    assert_eq!(s.points().len(), 1);

    s.add(Point::new(2, 1));
    assert_eq!(s.points().len(), 2);

    s.add(Point::new(0, 3));
    assert_eq!(s.points().len(), 3);
}

#[test]
fn swarm_swarm_works() {
    let mut s = Swarm::new();
    s.add(Point::new(1, 2));
    assert_eq!(s.points().len(), 1);
    s.add(Point::new(2, 1));
    assert_eq!(s.points().len(), 2);
    s.add(Point::new(0, 3));
    assert_eq!(s.points().len(), 3);
}

#[test]
fn swarm_from_points_keeps_the_whole_trajectory() {
    let pts = vec![Point::new(1, 2), Point::new(2, 1), Point::new(0, 3), Point::new(0, 3)];
    let s = Swarm::from_points(&pts);
    assert_eq!(s.len(), 4);
    assert_eq!(s.points(), &pts);

    let empty = Swarm::from_points(&Vec::new());
    assert_eq!(empty.len(), 0);
}

#[test]
fn swarm_keeps_insertion_order() {
    let mut s = Swarm::new();
    s.add(Point::new(5, -7));
    s.add(Point::new(-3, 11));
    s.add(Point::new(0, 0));
    let pts = s.points();
    assert_eq!(pts[0], Point::new(5, -7));
    assert_eq!(pts[1], Point::new(-3, 11));
    assert_eq!(pts[2], Point::new(0, 0));
    assert_eq!(s.len(), 3);
}
