use vstd::prelude::*;

use crate::raster::Raster;
use crate::raster::nonzero_count;

verus! {

/// Outcome of the Lyapunov-exponent estimate for one parameter set.
///
/// The estimator follows a reference trajectory and a perturbed one and
/// averages the log growth rate of their separation.  Two sentinel outcomes
/// short-circuit it: the trajectories collapsing onto each other (exponent
/// negative infinity) and their separation blowing up (positive infinity).
/// A finite average is classified by its sign, which is all the parameter
/// search reads.
#[derive(Clone, Copy, Debug, PartialEq, Eq, Structural)]
pub enum ExponentClass {
    /// The trajectories became identical: a fixed point or periodic orbit.
    Collapsed,
    /// The separation became infinite: an unstable, unbounded map.
    Escaped,
    /// A finite negative average: nearby trajectories converge.
    Negative,
    /// A finite nonnegative average: sensitive dependence, the chaotic case.
    NonNegative,
}

/// Grid width of the exploratory raster the search judges candidates on.
pub const SEARCH_GRID_WIDTH: usize = 100;

/// Grid height of the exploratory raster the search judges candidates on.
pub const SEARCH_GRID_HEIGHT: usize = 100;

/// Trajectory length generated for the exploratory raster.
pub const SEARCH_TRAJECTORY_POINTS: usize = 10000;

/// Iteration budget of the exponent estimate used by the search.
pub const SEARCH_EXPONENT_ITERATIONS: usize = 10000;

/// Fewest nonzero cells of the exploratory raster for a candidate to count
/// as visually rich rather than confined to a tiny region.
pub const MIN_VISITED_CELLS: usize = 200;

/// Whether the exponent outcome alone lets a candidate survive: only a
/// finite, nonnegative exponent does — collapse, escape and a negative
/// exponent are all rejected.
pub open spec fn exponent_passes(class: ExponentClass) -> bool {
    class == ExponentClass::NonNegative
}

pub fn exponent_accepts(class: ExponentClass) -> (r: bool)
    ensures
        r == exponent_passes(class),
{
    match class {
        ExponentClass::NonNegative => true,
        _ => false,
    }
}

/// Whether an exploratory raster with `visited` nonzero cells is rich
/// enough to keep its candidate.
pub open spec fn coverage_passes(visited: int) -> bool {
    visited >= MIN_VISITED_CELLS
}

pub fn coverage_accepts(visited: usize) -> (r: bool)
    ensures
        r == coverage_passes(visited as int),
{
    visited >= MIN_VISITED_CELLS
}

/// The search's whole acceptance rule for one candidate.
pub open spec fn candidate_passes(class: ExponentClass, visited: int) -> bool {
    exponent_passes(class) && coverage_passes(visited)
}

/// Decides one candidate of the rejection-sampling search: its exponent
/// outcome must be finite and nonnegative, and its exploratory raster must
/// touch at least `MIN_VISITED_CELLS` cells.
pub fn candidate_accepted(class: ExponentClass, raster: &Raster) -> (r: bool)
    ensures
        r == candidate_passes(class, nonzero_count(raster.counts_seq()) as int),
{
    let visited = raster.visited_cells();
    exponent_accepts(class) && coverage_accepts(visited)
}

/// A candidate the search accepts is never a collapsed, escaped or
/// negative-exponent one, and its exploratory raster has at least
/// `MIN_VISITED_CELLS` nonzero cells.
pub proof fn lemma_accepted_candidate_is_chaotic(class: ExponentClass, visited: int)
    requires
        candidate_passes(class, visited),
    ensures
        class != ExponentClass::Collapsed,
        class != ExponentClass::Escaped,
        class != ExponentClass::Negative,
        visited >= MIN_VISITED_CELLS,
{
}

} // verus!
