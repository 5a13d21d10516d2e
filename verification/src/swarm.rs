use vstd::prelude::*;

use crate::point::Point;

verus! {

/// An ordered, append-only cloud of generated points.
///
/// Insertion order is generation order; a swarm is only ever grown by
/// `add` and read through `points`, never reordered.
#[derive(Debug)]
pub struct Swarm {
    points: Vec<Point>,
}

impl View for Swarm {
    type V = Seq<Point>;

    closed spec fn view(&self) -> Seq<Point> {
        self.points@
    }
}

impl Swarm {
    pub fn new() -> (s: Swarm)
        ensures
            s@.len() == 0,
    {
        Swarm { points: Vec::new() }
    }

    /// Collects an already-generated trajectory, in its order.
    pub fn from_points(points: &Vec<Point>) -> (s: Swarm)
        ensures
            s@ == points@,
    {
        let mut swarm = Swarm::new();
        let mut i: usize = 0;
        while i < points.len()
            invariant
                i <= points@.len(),
                swarm@ == points@.take(i as int),
            decreases points@.len() - i,
        {
            swarm.add(points[i]);
            i = i + 1;
            proof {
                assert(points@.take(i as int).drop_last() =~= points@.take(i - 1));
                assert(swarm@ =~= points@.take(i as int));
            }
        }
        proof {
            assert(points@.take(points@.len() as int) =~= points@);
        }
        swarm
    }

    pub fn add(&mut self, p: Point)
        ensures
            final(self)@ == old(self)@.push(p),
    {
        self.points.push(p);
    }

    pub fn points(&self) -> (v: &Vec<Point>)
        ensures
            v@ == self@,
    {
        &self.points
    }

    pub fn len(&self) -> (n: usize)
        ensures
            n == self@.len(),
    {
        self.points.len()
    }
}

} // verus!
