use vstd::prelude::*;

use rayon::iter::IntoParallelRefIterator;
use rayon::iter::ParallelIterator;

use crate::point::Point;
use crate::swarm::Swarm;

verus! {

/// Elementwise bounding box of a set of points: the smallest axis-aligned
/// rectangle holding them all.
#[derive(Clone, Copy, Debug, PartialEq, Eq, Structural)]
pub struct Bounds {
    pub xmin: i64,
    pub xmax: i64,
    pub ymin: i64,
    pub ymax: i64,
}

/// The bounding box of no points: the identity of `combine_bounds`.
pub open spec fn empty_bounds() -> Bounds {
    Bounds { xmin: i64::MAX, xmax: i64::MIN, ymin: i64::MAX, ymax: i64::MIN }
}

/// The bounding box of the single point `p`.
pub open spec fn point_bounds(p: Point) -> Bounds {
    Bounds { xmin: p.x, xmax: p.x, ymin: p.y, ymax: p.y }
}

/// The bounding box of everything either of `a` and `b` holds: the
/// elementwise min of the minima and max of the maxima.
pub open spec fn combine_bounds(a: Bounds, b: Bounds) -> Bounds {
    Bounds {
        xmin: if a.xmin <= b.xmin { a.xmin } else { b.xmin },
        xmax: if a.xmax >= b.xmax { a.xmax } else { b.xmax },
        ymin: if a.ymin <= b.ymin { a.ymin } else { b.ymin },
        ymax: if a.ymax >= b.ymax { a.ymax } else { b.ymax },
    }
}

/// The bounding box of a point sequence, as the left fold of
/// `combine_bounds` over the per-point boxes.
pub open spec fn seq_bounds(s: Seq<Point>) -> Bounds
    decreases s.len(),
{
    if s.len() == 0 {
        empty_bounds()
    } else {
        combine_bounds(seq_bounds(s.drop_last()), point_bounds(s.last()))
    }
}

/// `combine_bounds` is associative.
pub proof fn lemma_combine_bounds_associative(a: Bounds, b: Bounds, c: Bounds)
    ensures
        combine_bounds(combine_bounds(a, b), c) == combine_bounds(a, combine_bounds(b, c)),
{
}

/// `combine_bounds` is commutative.
pub proof fn lemma_combine_bounds_commutative(a: Bounds, b: Bounds)
    ensures
        combine_bounds(a, b) == combine_bounds(b, a),
{
}

/// `empty_bounds` is a two-sided identity of `combine_bounds`.
pub proof fn lemma_combine_bounds_identity(a: Bounds)
    ensures
        combine_bounds(empty_bounds(), a) == a,
        combine_bounds(a, empty_bounds()) == a,
{
}

/// Whether box `b` holds point `p`.
pub open spec fn bounds_contain(b: Bounds, p: Point) -> bool {
    b.xmin <= p.x <= b.xmax && b.ymin <= p.y <= b.ymax
}

/// The bounding box of a nonempty sequence holds each of its points.
pub proof fn lemma_seq_bounds_contains(s: Seq<Point>, i: int)
    requires
        0 <= i < s.len(),
    ensures
        seq_bounds(s).xmin <= s[i].x <= seq_bounds(s).xmax,
        seq_bounds(s).ymin <= s[i].y <= seq_bounds(s).ymax,
    decreases s.len(),
{
    if i < s.len() - 1 {
        lemma_seq_bounds_contains(s.drop_last(), i);
    }
}

impl Bounds {
    pub fn empty() -> (b: Bounds)
        ensures
            b == empty_bounds(),
    {
        Bounds { xmin: i64::MAX, xmax: i64::MIN, ymin: i64::MAX, ymax: i64::MIN }
    }

    pub fn of_point(p: &Point) -> (b: Bounds)
        ensures
            b == point_bounds(*p),
    {
        Bounds { xmin: p.x, xmax: p.x, ymin: p.y, ymax: p.y }
    }

    pub fn combine(self, other: Bounds) -> (b: Bounds)
        ensures
            b == combine_bounds(self, other),
    {
        Bounds {
            xmin: if self.xmin <= other.xmin { self.xmin } else { other.xmin },
            xmax: if self.xmax >= other.xmax { self.xmax } else { other.xmax },
            ymin: if self.ymin <= other.ymin { self.ymin } else { other.ymin },
            ymax: if self.ymax >= other.ymax { self.ymax } else { other.ymax },
        }
    }
}

/// Relies on rayon's `ParallelIterator::map` and `ParallelIterator::reduce`
/// over `Vec::par_iter`: `reduce` combines the per-point boxes in an
/// unspecified tree order, inserting the identity value where it splits the
/// work.  `combine_bounds` is associative and commutative with identity
/// `empty_bounds()` (`lemma_combine_bounds_associative`,
/// `lemma_combine_bounds_commutative`, `lemma_combine_bounds_identity`), so
/// every such tree evaluates to the sequential fold `seq_bounds`.
#[verifier::external_body]
fn par_bounds(points: &Vec<Point>) -> (b: Bounds)
    ensures
        b == seq_bounds(points@),
{
    points.par_iter().map(Bounds::of_point).reduce(Bounds::empty, |a, b| a.combine(b))
}

/// Grid column (or row) of coordinate `c` on an axis whose points span
/// `lo..=hi`, for a grid of `dim` cells.
///
/// The spanned range is padded by a tenth of its width on each side, giving
/// a padded range of `12*(hi - lo)/10`; the cell is then
/// `(c - padded_lo) / step` with `step = padded_range / dim`, rounded down,
/// which over the rationals is exactly the expression below.  The padding
/// keeps every cell strictly inside `[0, dim)`.  A degenerate axis, all
/// points sharing one coordinate, collapses into cell 0.
pub open spec fn axis_cell(c: int, lo: int, hi: int, dim: int) -> int {
    if hi <= lo {
        0
    } else {
        ((c - lo) * 10 + (hi - lo)) * dim / (12 * (hi - lo))
    }
}

/// A coordinate within the axis bounds lands on a cell within the grid.
pub proof fn lemma_axis_cell_in_range(c: int, lo: int, hi: int, dim: int)
    requires
        lo <= c <= hi,
        1 <= dim,
    ensures
        0 <= axis_cell(c, lo, hi, dim) < dim,
{
    if lo < hi {
        let r = hi - lo;
        let num = ((c - lo) * 10 + r) * dim;
        let den = 12 * r;
        assert(0 <= num && num < den * dim) by (nonlinear_arith)
            requires
                0 <= c - lo <= r,
                1 <= r,
                1 <= dim,
                num == ((c - lo) * 10 + r) * dim,
                den == 12 * r,
        ;
        vstd::arithmetic::div_mod::lemma_div_pos_is_pos(num, den);
        vstd::arithmetic::div_mod::lemma_multiply_divide_lt(num, den, dim);
    }
}

/// Row-major cell index of point `p` within bounding box `b` on a
/// `width` x `height` grid.
pub open spec fn cell_of(p: Point, b: Bounds, width: int, height: int) -> int {
    axis_cell(p.x as int, b.xmin as int, b.xmax as int, width) + axis_cell(
        p.y as int,
        b.ymin as int,
        b.ymax as int,
        height,
    ) * width
}

/// A point within the bounding box lands on a cell within the grid.
pub proof fn lemma_cell_of_in_range(p: Point, b: Bounds, width: int, height: int)
    requires
        b.xmin <= p.x <= b.xmax,
        b.ymin <= p.y <= b.ymax,
        1 <= width,
        1 <= height,
    ensures
        0 <= cell_of(p, b, width, height) < width * height,
{
    lemma_axis_cell_in_range(p.x as int, b.xmin as int, b.xmax as int, width);
    lemma_axis_cell_in_range(p.y as int, b.ymin as int, b.ymax as int, height);
    let cx = axis_cell(p.x as int, b.xmin as int, b.xmax as int, width);
    let cy = axis_cell(p.y as int, b.ymin as int, b.ymax as int, height);
    assert(0 <= cx + cy * width < width * height) by (nonlinear_arith)
        requires
            0 <= cx < width,
            0 <= cy < height,
    ;
}

/// Largest grid dimension the index arithmetic is sized for.
pub const DIM_LIMIT: usize = 0xFFFF_FFFF;

fn axis_index(c: i64, lo: i64, hi: i64, dim: usize) -> (idx: usize)
    requires
        lo <= c <= hi,
        1 <= dim <= DIM_LIMIT,
    ensures
        idx == axis_cell(c as int, lo as int, hi as int, dim as int),
        idx < dim,
{
    proof {
        lemma_axis_cell_in_range(c as int, lo as int, hi as int, dim as int);
    }
    if hi <= lo {
        0
    } else {
        let dx: u128 = ((c as i128) - (lo as i128)) as u128;
        let r: u128 = ((hi as i128) - (lo as i128)) as u128;
        assert((dx * 10 + r) * (dim as u128) < u128::MAX) by (nonlinear_arith)
            requires
                dx < 0x1_0000_0000_0000_0000,
                r < 0x1_0000_0000_0000_0000,
                dim <= 0xFFFF_FFFF,
        ;
        let num: u128 = (dx * 10 + r) * (dim as u128);
        let den: u128 = 12 * r;
        let q: u128 = num / den;
        q as usize
    }
}

fn cell_index(p: &Point, b: &Bounds, width: usize, height: usize) -> (idx: usize)
    requires
        b.xmin <= p.x <= b.xmax,
        b.ymin <= p.y <= b.ymax,
        1 <= width <= DIM_LIMIT,
        1 <= height <= DIM_LIMIT,
        width * height <= usize::MAX,
    ensures
        idx == cell_of(*p, *b, width as int, height as int),
        idx < width * height,
{
    proof {
        lemma_cell_of_in_range(*p, *b, width as int, height as int);
    }
    let cx = axis_index(p.x, b.xmin, b.xmax, width);
    let cy = axis_index(p.y, b.ymin, b.ymax, height);
    assert(cx + cy * width < width * height) by (nonlinear_arith)
        requires
            cx < width,
            cy < height,
    ;
    cx + cy * width
}

/// Relies on rayon's `ParallelIterator::map` and `ParallelIterator::collect`
/// over `Vec::par_iter`: collecting an indexed parallel iterator into a `Vec`
/// keeps every mapped item at the position of the element it came from, so
/// element `i` of the result is `cell_index` of point `i`.
#[verifier::external_body]
fn par_cell_indices(points: &Vec<Point>, b: &Bounds, width: usize, height: usize) -> (cells: Vec<
    usize,
>)
    requires
        forall|i: int| 0 <= i < points@.len() ==> bounds_contain(*b, #[trigger] points@[i]),
        1 <= width <= DIM_LIMIT,
        1 <= height <= DIM_LIMIT,
        width * height <= usize::MAX,
    ensures
        cells@.len() == points@.len(),
        forall|i: int|
            0 <= i < cells@.len() ==> cells@[i] == cell_of(
                points@[i],
                *b,
                width as int,
                height as int,
            ),
{
    points.par_iter().map(|p| cell_index(p, b, width, height)).collect()
}

/// Binning ignores a common translation of the coordinates and bounds.
pub proof fn lemma_axis_cell_translation(c: int, lo: int, hi: int, dim: int, t: int)
    ensures
        axis_cell(c + t, lo + t, hi + t, dim) == axis_cell(c, lo, hi, dim),
{
}

/// Binning ignores a common positive scale of the coordinates and bounds:
/// the grid does not depend on the quantization scale a caller picks.
pub proof fn lemma_axis_cell_scaling(c: int, lo: int, hi: int, dim: int, s: int)
    requires
        1 <= s,
        lo <= c <= hi,
        1 <= dim,
    ensures
        axis_cell(s * c, s * lo, s * hi, dim) == axis_cell(c, lo, hi, dim),
{
    if lo < hi {
        let num = ((c - lo) * 10 + (hi - lo)) * dim;
        let den = 12 * (hi - lo);
        assert(s * lo < s * hi) by (nonlinear_arith)
            requires
                lo < hi,
                1 <= s,
        ;
        assert(((s * c - s * lo) * 10 + (s * hi - s * lo)) * dim == s * num) by (nonlinear_arith)
            requires
                num == ((c - lo) * 10 + (hi - lo)) * dim,
        ;
        assert(12 * (s * hi - s * lo) == s * den) by (nonlinear_arith)
            requires
                den == 12 * (hi - lo),
        ;
        assert(0 <= num && 0 <= s * num && 0 < s * den) by (nonlinear_arith)
            requires
                0 <= c - lo,
                lo < hi,
                1 <= dim,
                1 <= s,
                num == ((c - lo) * 10 + (hi - lo)) * dim,
                den == 12 * (hi - lo),
        ;
        vstd::arithmetic::div_mod::lemma_div_denominator(s * num, s, den);
        vstd::arithmetic::div_mod::lemma_div_multiples_vanish(num, s);
        assert((s * num) / (s * den) == num / den);
    }
}

/// Binning a point within box `a` gives the same cell as binning its image
/// under `x -> s*x + tx`, `y -> s*y + ty` within the image of the box.
pub proof fn lemma_cell_of_scale_translate(
    p: Point,
    q: Point,
    a: Bounds,
    c: Bounds,
    width: int,
    height: int,
    s: int,
    tx: int,
    ty: int,
)
    requires
        1 <= s,
        1 <= width,
        1 <= height,
        bounds_contain(a, p),
        q.x == s * p.x + tx,
        q.y == s * p.y + ty,
        c.xmin == s * a.xmin + tx,
        c.xmax == s * a.xmax + tx,
        c.ymin == s * a.ymin + ty,
        c.ymax == s * a.ymax + ty,
    ensures
        cell_of(q, c, width, height) == cell_of(p, a, width, height),
{
    lemma_axis_cell_translation(s * p.x, s * a.xmin, s * a.xmax, width, tx);
    lemma_axis_cell_scaling(p.x as int, a.xmin as int, a.xmax as int, width, s);
    lemma_axis_cell_translation(s * p.y, s * a.ymin, s * a.ymax, height, ty);
    lemma_axis_cell_scaling(p.y as int, a.ymin as int, a.ymax as int, height, s);
}

/// The bounding box of the image of a nonempty point sequence under
/// `x -> s*x + tx`, `y -> s*y + ty` is the image of its bounding box.
pub proof fn lemma_seq_bounds_affine(
    points: Seq<Point>,
    mapped: Seq<Point>,
    s: int,
    tx: int,
    ty: int,
)
    requires
        1 <= s,
        1 <= points.len(),
        points.len() == mapped.len(),
        forall|i: int|
            0 <= i < points.len() ==> (#[trigger] mapped[i]).x == s * points[i].x + tx
                && mapped[i].y == s * points[i].y + ty,
    ensures
        seq_bounds(mapped).xmin == s * seq_bounds(points).xmin + tx,
        seq_bounds(mapped).xmax == s * seq_bounds(points).xmax + tx,
        seq_bounds(mapped).ymin == s * seq_bounds(points).ymin + ty,
        seq_bounds(mapped).ymax == s * seq_bounds(points).ymax + ty,
    decreases points.len(),
{
    if points.len() == 1 {
        assert(mapped[0].x == s * points[0].x + tx && mapped[0].y == s * points[0].y + ty);
        assert(seq_bounds(points.drop_last()) == empty_bounds());
        assert(seq_bounds(mapped.drop_last()) == empty_bounds());
        lemma_combine_bounds_identity(point_bounds(points.last()));
        lemma_combine_bounds_identity(point_bounds(mapped.last()));
    } else {
        assert forall|i: int| 0 <= i < points.drop_last().len() implies (#[trigger] mapped.drop_last()[i]).x
            == s * points.drop_last()[i].x + tx && mapped.drop_last()[i].y == s
            * points.drop_last()[i].y + ty by {
            assert(mapped[i].x == s * points[i].x + tx && mapped[i].y == s * points[i].y + ty);
        }
        lemma_seq_bounds_affine(points.drop_last(), mapped.drop_last(), s, tx, ty);
        let sub = seq_bounds(points.drop_last());
        let p = points.last();
        assert(mapped[points.len() - 1].x == s * p.x + tx && mapped[points.len() - 1].y == s * p.y
            + ty);
        assert((s * sub.xmin + tx <= s * p.x + tx) == (sub.xmin <= p.x)) by (nonlinear_arith)
            requires
                1 <= s,
        ;
        assert((s * sub.xmax + tx >= s * p.x + tx) == (sub.xmax >= p.x)) by (nonlinear_arith)
            requires
                1 <= s,
        ;
        assert((s * sub.ymin + ty <= s * p.y + ty) == (sub.ymin <= p.y)) by (nonlinear_arith)
            requires
                1 <= s,
        ;
        assert((s * sub.ymax + ty >= s * p.y + ty) == (sub.ymax >= p.y)) by (nonlinear_arith)
            requires
                1 <= s,
        ;
    }
}

/// Rasterization ignores a common positive scale and translation of every
/// coordinate: the grids built from a swarm and from its image under
/// `x -> s*x + tx`, `y -> s*y + ty` agree cell for cell.  A caller is
/// therefore free to pick any fixed-point quantization scale.
pub proof fn lemma_raster_scale_translate_invariant(
    r1: &Raster,
    r2: &Raster,
    points: Seq<Point>,
    mapped: Seq<Point>,
    width: int,
    height: int,
    s: int,
    tx: int,
    ty: int,
)
    requires
        1 <= s,
        1 <= width,
        1 <= height,
        1 <= points.len(),
        points.len() == mapped.len(),
        forall|i: int|
            0 <= i < points.len() ==> (#[trigger] mapped[i]).x == s * points[i].x + tx
                && mapped[i].y == s * points[i].y + ty,
        raster_matches(*r1, points, width, height),
        raster_matches(*r2, mapped, width, height),
    ensures
        r1.counts_seq() == r2.counts_seq(),
        r1.spec_max_count() == r2.spec_max_count(),
{
    let b1 = seq_bounds(points);
    let b2 = seq_bounds(mapped);
    lemma_seq_bounds_affine(points, mapped, s, tx, ty);
    assert forall|i: int| 0 <= i < points.len() implies #[trigger] cell_seq(
        mapped,
        b2,
        width,
        height,
    )[i] == cell_seq(points, b1, width, height)[i] by {
        lemma_seq_bounds_contains(points, i);
        lemma_cell_of_scale_translate(points[i], mapped[i], b1, b2, width, height, s, tx, ty);
    }
    assert(cell_seq(mapped, b2, width, height) =~= cell_seq(points, b1, width, height));
    assert forall|cell: int| 0 <= cell < width * height implies #[trigger] r1.counts_seq()[cell]
        == r2.counts_seq()[cell] by {
        assert(r1.counts_seq()[cell] == hit_count(cell_seq(points, b1, width, height), cell));
        assert(r2.counts_seq()[cell] == hit_count(cell_seq(mapped, b2, width, height), cell));
    }
    assert(r1.counts_seq() =~= r2.counts_seq());
    let j1 = choose|j: int|
        0 <= j < r1.counts_seq().len() && r1.counts_seq()[j] == r1.spec_max_count();
    let j2 = choose|j: int|
        0 <= j < r2.counts_seq().len() && r2.counts_seq()[j] == r2.spec_max_count();
    assert(r1.counts_seq()[j2] == r2.spec_max_count());
    assert(r2.counts_seq()[j1] == r1.spec_max_count());
}

/// How many entries of `cells` equal `cell`.
pub open spec fn hit_count(cells: Seq<int>, cell: int) -> nat
    decreases cells.len(),
{
    if cells.len() == 0 {
        0
    } else {
        hit_count(cells.drop_last(), cell) + if cells.last() == cell {
            1nat
        } else {
            0nat
        }
    }
}

/// No cell is hit more often than there are entries.
pub proof fn lemma_hit_count_le_len(cells: Seq<int>, cell: int)
    ensures
        hit_count(cells, cell) <= cells.len(),
    decreases cells.len(),
{
    if cells.len() > 0 {
        lemma_hit_count_le_len(cells.drop_last(), cell);
    }
}

/// A cell that occurs in the sequence is hit at least once.
pub proof fn lemma_hit_count_pos(cells: Seq<int>, i: int)
    requires
        0 <= i < cells.len(),
    ensures
        hit_count(cells, cells[i]) >= 1,
    decreases cells.len(),
{
    if i < cells.len() - 1 {
        lemma_hit_count_pos(cells.drop_last(), i);
    }
}

/// The total of all entries of `s`: for a histogram, how many hits it
/// recorded in all.
pub open spec fn total_hits(s: Seq<u64>) -> int
    decreases s.len(),
{
    if s.len() == 0 {
        0
    } else {
        total_hits(s.drop_last()) + s.last()
    }
}

/// A sequence of zeros totals zero.
proof fn lemma_total_hits_zero(s: Seq<u64>)
    requires
        forall|j: int| 0 <= j < s.len() ==> #[trigger] s[j] == 0,
    ensures
        total_hits(s) == 0,
    decreases s.len(),
{
    if s.len() > 0 {
        lemma_total_hits_zero(s.drop_last());
    }
}

/// Updating one entry changes the total by the difference.
proof fn lemma_total_hits_update(s: Seq<u64>, i: int, x: u64)
    requires
        0 <= i < s.len(),
    ensures
        total_hits(s.update(i, x)) == total_hits(s) - s[i] + x,
    decreases s.len(),
{
    if i == s.len() - 1 {
        assert(s.update(i, x).drop_last() =~= s.drop_last());
    } else {
        assert(s.update(i, x).drop_last() =~= s.drop_last().update(i, x));
        lemma_total_hits_update(s.drop_last(), i, x);
    }
}

/// The cell indices of a whole point sequence, in point order.
pub open spec fn cell_seq(points: Seq<Point>, b: Bounds, width: int, height: int) -> Seq<int> {
    points.map(|i: int, p: Point| cell_of(p, b, width, height))
}

/// A `Vec` of cell indices, seen as a sequence of mathematical integers.
pub open spec fn cells_as_ints(cells: Seq<usize>) -> Seq<int> {
    cells.map_values(|c: usize| c as int)
}

/// Builds the histogram: `counts[cell]` is the number of entries of `cells`
/// equal to `cell`.
fn accumulate(cells: &Vec<usize>, size: usize) -> (counts: Vec<u64>)
    requires
        forall|i: int| 0 <= i < cells@.len() ==> #[trigger] cells@[i] < size,
    ensures
        counts@.len() == size,
        forall|cell: int|
            0 <= cell < size ==> #[trigger] counts@[cell] == hit_count(cells_as_ints(cells@), cell),
        total_hits(counts@) == cells@.len(),
{
    let mut counts: Vec<u64> = Vec::new();
    while counts.len() < size
        invariant
            counts@.len() <= size,
            forall|j: int| 0 <= j < counts@.len() ==> #[trigger] counts@[j] == 0,
        decreases size - counts@.len(),
    {
        counts.push(0);
    }
    proof {
        lemma_total_hits_zero(counts@);
    }
    let mut i: usize = 0;
    while i < cells.len()
        invariant
            i <= cells@.len(),
            counts@.len() == size,
            forall|i2: int| 0 <= i2 < cells@.len() ==> #[trigger] cells@[i2] < size,
            forall|cell: int|
                0 <= cell < size ==> #[trigger] counts@[cell] == hit_count(
                    cells_as_ints(cells@.take(i as int)),
                    cell,
                ),
            total_hits(counts@) == i,
        decreases cells@.len() - i,
    {
        let c = cells[i];
        proof {
            lemma_hit_count_le_len(cells_as_ints(cells@.take(i as int)), c as int);
            assert(cells_as_ints(cells@.take(i as int)).len() == i);
        }
        let cur = counts[c];
        proof {
            lemma_total_hits_update(counts@, c as int, (cur + 1) as u64);
        }
        counts.set(c, cur + 1);
        i = i + 1;
        proof {
            let prev = cells_as_ints(cells@.take(i - 1));
            let now = cells_as_ints(cells@.take(i as int));
            assert(now.drop_last() =~= prev);
            assert(now.last() == c as int);
            assert forall|cell: int| 0 <= cell < size implies #[trigger] counts@[cell] == hit_count(
                now,
                cell,
            ) by {
                assert(hit_count(now, cell) == hit_count(prev, cell) + if c as int == cell {
                    1nat
                } else {
                    0nat
                });
            }
        }
    }
    proof {
        assert(cells@.take(cells@.len() as int) =~= cells@);
    }
    counts
}

/// The largest entry of a nonempty vector, together with the facts that make
/// it the maximum.
fn max_of(counts: &Vec<u64>) -> (m: u64)
    requires
        counts@.len() >= 1,
    ensures
        forall|j: int| 0 <= j < counts@.len() ==> #[trigger] counts@[j] <= m,
        exists|j: int| 0 <= j < counts@.len() && counts@[j] == m,
{
    let mut m: u64 = counts[0];
    let mut i: usize = 1;
    while i < counts.len()
        invariant
            1 <= i <= counts@.len(),
            forall|j: int| 0 <= j < i ==> #[trigger] counts@[j] <= m,
            exists|j: int| 0 <= j < i && counts@[j] == m,
        decreases counts@.len() - i,
    {
        if counts[i] > m {
            m = counts[i];
        }
        i = i + 1;
    }
    m
}

/// How many entries of `s` are nonzero.
pub open spec fn nonzero_count(s: Seq<u64>) -> nat
    decreases s.len(),
{
    if s.len() == 0 {
        0
    } else {
        nonzero_count(s.drop_last()) + if s.last() > 0 {
            1nat
        } else {
            0nat
        }
    }
}

/// No more entries are nonzero than there are entries.
pub proof fn lemma_nonzero_count_le_len(s: Seq<u64>)
    ensures
        nonzero_count(s) <= s.len(),
    decreases s.len(),
{
    if s.len() > 0 {
        lemma_nonzero_count_le_len(s.drop_last());
    }
}

/// Rejected rasterizer input.
#[derive(Clone, Copy, Debug, PartialEq, Eq, Structural)]
pub enum RasterError {
    /// The swarm holds no point, so no bounding box exists.
    EmptySwarm,
    /// The requested grid has a zero width or height.
    ZeroDimension,
}

/// A density grid: per-cell hit counts of a rasterized swarm, row-major
/// (`index = x + y * width`), with the maximum count kept beside them.
///
/// The normalized intensity of a cell is its count divided by `max_count`,
/// a rational in [0, 1] that reaches exactly 1 on the fullest cell; the
/// division itself is left to the consumer of the grid.
#[derive(Debug)]
pub struct Raster {
    counts: Vec<u64>,
    max_count: u64,
    width: usize,
    height: usize,
}

/// Everything `Raster::new` promises of a raster built from `points` on a
/// `width` x `height` grid: the dimensions are kept, every cell holds the
/// exact number of points whose padded-bounds bin is that cell, the counts
/// total to the number of points (each point binned exactly once), and the
/// kept maximum really is an attained maximum.
pub open spec fn raster_matches(r: Raster, points: Seq<Point>, width: int, height: int) -> bool {
    &&& r.spec_width() == width
    &&& r.spec_height() == height
    &&& r.counts_seq().len() == width * height
    &&& forall|cell: int|
        0 <= cell < width * height ==> #[trigger] r.counts_seq()[cell] == hit_count(
            cell_seq(points, seq_bounds(points), width, height),
            cell,
        )
    &&& total_hits(r.counts_seq()) == points.len()
    &&& 1 <= r.spec_max_count()
    &&& forall|j: int| 0 <= j < r.counts_seq().len() ==> #[trigger] r.counts_seq()[j] <= r.spec_max_count()
    &&& exists|j: int| 0 <= j < r.counts_seq().len() && r.counts_seq()[j] == r.spec_max_count()
}

impl Raster {
    /// The per-cell hit counts, row-major.
    pub closed spec fn counts_seq(&self) -> Seq<u64> {
        self.counts@
    }

    /// The largest per-cell hit count.
    pub closed spec fn spec_max_count(&self) -> u64 {
        self.max_count
    }

    pub closed spec fn spec_width(&self) -> int {
        self.width as int
    }

    pub closed spec fn spec_height(&self) -> int {
        self.height as int
    }

    #[verifier::type_invariant]
    spec fn inv(self) -> bool {
        &&& 1 <= self.spec_width()
        &&& 1 <= self.spec_height()
        &&& self.counts_seq().len() == self.spec_width() * self.spec_height()
        &&& 1 <= self.spec_max_count()
        &&& forall|j: int|
            0 <= j < self.counts_seq().len() ==> #[trigger] self.counts_seq()[j]
                <= self.spec_max_count()
        &&& exists|j: int|
            0 <= j < self.counts_seq().len() && self.counts_seq()[j] == self.spec_max_count()
    }

    fn assemble(counts: Vec<u64>, max_count: u64, width: usize, height: usize) -> (r: Raster)
        requires
            1 <= width,
            1 <= height,
            counts@.len() == width as int * height as int,
            1 <= max_count,
            forall|j: int| 0 <= j < counts@.len() ==> #[trigger] counts@[j] <= max_count,
            exists|j: int| 0 <= j < counts@.len() && counts@[j] == max_count,
        ensures
            r.counts_seq() == counts@,
            r.spec_max_count() == max_count,
            r.spec_width() == width,
            r.spec_height() == height,
    {
        Raster { counts, max_count, width, height }
    }

    /// Rasterizes a swarm onto a `width` x `height` grid.
    ///
    /// The bounding box of the points is computed in parallel, padded by a
    /// tenth of its range on each side per axis, and each point then binned
    /// into the cell its coordinates fall in; the per-cell hit counts and
    /// their maximum make up the raster.  An empty swarm or a zero grid
    /// dimension is rejected.
    pub fn new(swarm: &Swarm, width: usize, height: usize) -> (result: Result<Raster, RasterError>)
        requires
            width <= DIM_LIMIT,
            height <= DIM_LIMIT,
            width * height <= usize::MAX,
        ensures
            result matches Ok(r) ==> 1 <= width && 1 <= height && 1 <= swarm@.len()
                && raster_matches(r, swarm@, width as int, height as int),
            (width == 0 || height == 0) ==> result == Err::<Raster, RasterError>(
                RasterError::ZeroDimension,
            ),
            (1 <= width && 1 <= height && swarm@.len() == 0) ==> result == Err::<
                Raster,
                RasterError,
            >(RasterError::EmptySwarm),
            (1 <= width && 1 <= height && 1 <= swarm@.len()) ==> result is Ok,
    {
        if width == 0 || height == 0 {
            return Err(RasterError::ZeroDimension);
        }
        let points: &Vec<Point> = swarm.points();
        if points.len() == 0 {
            return Err(RasterError::EmptySwarm);
        }
        let b = par_bounds(points);
        proof {
            assert forall|i: int| 0 <= i < points@.len() implies bounds_contain(
                b,
                #[trigger] points@[i],
            ) by {
                lemma_seq_bounds_contains(points@, i);
            }
        }
        let cells = par_cell_indices(points, &b, width, height);
        proof {
            assert forall|i: int| 0 <= i < cells@.len() implies #[trigger] cells@[i] < width
                * height by {
                lemma_cell_of_in_range(points@[i], b, width as int, height as int);
            }
        }
        proof {
            assert(1 <= width * height) by (nonlinear_arith)
                requires
                    1 <= width,
                    1 <= height,
            ;
        }
        let counts = accumulate(&cells, width * height);
        let max_count = max_of(&counts);
        proof {
            assert(cells_as_ints(cells@) =~= cell_seq(points@, b, width as int, height as int));
            lemma_hit_count_pos(cells_as_ints(cells@), 0);
            let c0 = cells_as_ints(cells@)[0];
            lemma_cell_of_in_range(points@[0], b, width as int, height as int);
            assert(counts@[c0] >= 1);
        }
        Ok(Self::assemble(counts, max_count, width, height))
    }

    pub fn width(&self) -> (w: usize)
        ensures
            w == self.spec_width(),
    {
        self.width
    }

    pub fn height(&self) -> (h: usize)
        ensures
            h == self.spec_height(),
    {
        self.height
    }

    /// The raw per-cell hit counts, row-major; dividing each by
    /// `max_count()` yields the normalized intensities.
    pub fn intensities(&self) -> (v: &Vec<u64>)
        ensures
            v@ == self.counts_seq(),
    {
        &self.counts
    }

    /// The largest per-cell hit count: the normalization divisor.
    pub fn max_count(&self) -> (m: u64)
        ensures
            m == self.spec_max_count(),
            1 <= m,
    {
        proof {
            use_type_invariant(self);
        }
        self.max_count
    }

    /// The hit count of cell `(x, y)`.
    pub fn intensity(&self, x: u32, y: u32) -> (count: u64)
        requires
            x < self.spec_width(),
            y < self.spec_height(),
        ensures
            count == self.counts_seq()[x + y * self.spec_width()],
    {
        proof {
            use_type_invariant(self);
        }
        // ties the cell vector's length, and so width * height, to usize
        let _len: usize = self.counts.len();
        proof {
            assert(x + y * self.spec_width() < self.spec_width() * self.spec_height())
                by (nonlinear_arith)
                requires
                    x < self.spec_width(),
                    y < self.spec_height(),
            ;
        }
        self.counts[(x as usize) + (y as usize) * self.width]
    }

    /// How many cells at least one point fell into.
    pub fn visited_cells(&self) -> (n: usize)
        ensures
            n == nonzero_count(self.counts_seq()),
    {
        let mut n: usize = 0;
        let mut i: usize = 0;
        while i < self.counts.len()
            invariant
                i <= self.counts@.len(),
                n == nonzero_count(self.counts@.take(i as int)),
            decreases self.counts@.len() - i,
        {
            proof {
                lemma_nonzero_count_le_len(self.counts@.take(i as int));
                assert(self.counts@.take(i + 1).drop_last() =~= self.counts@.take(i as int));
            }
            if self.counts[i] > 0 {
                n = n + 1;
            }
            i = i + 1;
        }
        proof {
            assert(self.counts@.take(self.counts@.len() as int) =~= self.counts@);
        }
        n
    }
}

/// Every intensity of a freshly built raster lies in [0, 1] once divided by
/// the maximum count, and the maximum is attained: some cell normalizes to
/// exactly 1.
pub proof fn lemma_intensity_normalization(r: Raster, points: Seq<Point>, width: int, height: int)
    requires
        raster_matches(r, points, width, height),
    ensures
        1 <= r.spec_max_count(),
        forall|j: int|
            0 <= j < r.counts_seq().len() ==> #[trigger] r.counts_seq()[j] <= r.spec_max_count(),
        exists|j: int| 0 <= j < r.counts_seq().len() && r.counts_seq()[j] == r.spec_max_count(),
{
}

/// Rasterization is deterministic: two rasters built from the same swarm on
/// the same grid agree cell for cell, and in their normalization divisor.
pub proof fn lemma_rasterize_deterministic(
    r1: &Raster,
    r2: &Raster,
    points: Seq<Point>,
    width: int,
    height: int,
)
    requires
        raster_matches(*r1, points, width, height),
        raster_matches(*r2, points, width, height),
    ensures
        r1.counts_seq() == r2.counts_seq(),
        r1.spec_max_count() == r2.spec_max_count(),
        r1.spec_width() == r2.spec_width(),
        r1.spec_height() == r2.spec_height(),
{
    assert(r1.counts_seq() =~= r2.counts_seq());
    let j1 = choose|j: int| 0 <= j < r1.counts_seq().len() && r1.counts_seq()[j]
        == r1.spec_max_count();
    let j2 = choose|j: int| 0 <= j < r2.counts_seq().len() && r2.counts_seq()[j]
        == r2.spec_max_count();
    assert(r1.counts_seq()[j2] == r2.spec_max_count());
    assert(r2.counts_seq()[j1] == r1.spec_max_count());
}

} // verus!

