//! The decisions of the zoom search: boundary-complexity scoring of a coarse
//! grid, the choice of the most complex quadrant, and the bounds to retract.

use crate::coord::Coord;
use crate::mandelbrot::{Point, SearchError};
use vstd::prelude::*;

verus! {

/// Divisor from the final resolution to the coarse one the search works on.
pub const SHRINKAGE: usize = 4;

/// 1 where two pixels disagree on divergence, 0 where they agree.
pub open spec fn differs(a: Point, b: Point) -> int {
    if a.is_diverged != b.is_diverged {
        1
    } else {
        0
    }
}

/// Pixel `n` of a `w` by `h` grid is off its outermost rows and columns.
pub open spec fn is_interior(w: int, h: int, n: int) -> bool {
    &&& 0 < n % w < w - 1
    &&& 0 < n / w < h - 1
}

/// Quadrant of pixel `n`: `2 * row_half + column_half`, each axis split at
/// its midpoint.
pub open spec fn quadrant_of(w: int, h: int, n: int) -> int {
    2 * (if n / w < h / 2 {
        0int
    } else {
        1int
    }) + (if n % w < w / 2 {
        0int
    } else {
        1int
    })
}

/// Number of the four axis-neighbours of pixel `n` whose divergence differs
/// from its own.
pub open spec fn pixel_score(points: Seq<Point>, w: int, n: int) -> int {
    differs(points[n], points[n - 1]) + differs(points[n], points[n + 1]) + differs(
        points[n],
        points[n - w],
    ) + differs(points[n], points[n + w])
}

/// Sum of the scores of the interior pixels of quadrant `q` among the first
/// `n` pixels of a `w` by `h` grid.
pub open spec fn quadrant_score(points: Seq<Point>, w: int, h: int, q: int, n: int) -> int
    decreases n,
{
    if n <= 0 {
        0
    } else {
        quadrant_score(points, w, h, q, n - 1) + if is_interior(w, h, n - 1) && quadrant_of(
            w,
            h,
            n - 1,
        ) == q {
            pixel_score(points, w, n - 1)
        } else {
            0
        }
    }
}

/// The complexity of each quadrant of a whole grid.
pub open spec fn complexity(points: Seq<Point>, resols: Coord<usize>, q: int) -> int {
    quadrant_score(points, resols.x as int, resols.y as int, q, resols.x * resols.y)
}

/// The complexities of the four quadrants, in quadrant order.
pub open spec fn complexities(points: Seq<Point>, resols: Coord<usize>) -> Seq<u64> {
    seq![
        complexity(points, resols, 0) as u64,
        complexity(points, resols, 1) as u64,
        complexity(points, resols, 2) as u64,
        complexity(points, resols, 3) as u64,
    ]
}

proof fn lemma_quadrant_score_bounds(points: Seq<Point>, w: int, h: int, q: int, n: int)
    ensures
        0 <= quadrant_score(points, w, h, q, n) <= 4 * if n < 0 {
            0
        } else {
            n
        },
    decreases n,
{
    if n > 0 {
        lemma_quadrant_score_bounds(points, w, h, q, n - 1);
    }
}

/// The four neighbours of an interior pixel lie inside the grid, so scoring
/// reads no index out of bounds.
pub proof fn lemma_interior_neighbours(w: int, h: int, n: int)
    requires
        0 < w,
        0 <= n < w * h,
        is_interior(w, h, n),
    ensures
        0 <= n - w,
        n + w < w * h,
        0 <= n - 1,
        n + 1 < w * h,
{
    let i = n % w;
    let j = n / w;
    assert(n == j * w + i) by (nonlinear_arith)
        requires
            i == n % w,
            j == n / w,
            0 < w,
    ;
    assert((j + 2) * w <= w * h) by (nonlinear_arith)
        requires
            j + 2 <= h,
            0 < w,
    ;
    assert(n + w < (j + 2) * w) by (nonlinear_arith)
        requires
            n == j * w + i,
            i < w,
    ;
    assert(0 <= n - w) by (nonlinear_arith)
        requires
            n == j * w + i,
            0 <= i,
            1 <= j,
            0 < w,
    ;
}

/// Pixels on the outermost rows and columns are never scored: taking one of
/// them into the running sum leaves every quadrant's score as it was.
pub proof fn lemma_edge_pixels_add_nothing(points: Seq<Point>, w: int, h: int, q: int, n: int)
    requires
        0 <= n,
        !is_interior(w, h, n),
    ensures
        quadrant_score(points, w, h, q, n + 1) == quadrant_score(points, w, h, q, n),
{
}

/// Scores the boundary complexity of each quadrant of a solved grid.
///
/// Every interior pixel adds to its quadrant the number of its four
/// axis-neighbours that disagree with it on divergence; pixels on the
/// outermost rows and columns add nothing. The bound on the number of
/// pixels keeps every sum within `u64`.
pub fn quadrant_complexities(resols: &Coord<usize>, points: &Vec<Point>) -> (r: [u64; 4])
    requires
        points.len() == resols.x * resols.y,
        points.len() <= u64::MAX / 4,
    ensures
        forall|q: int| 0 <= q < 4 ==> r[q] == complexity(points@, *resols, q),
{
    let w: usize = resols.x;
    let h: usize = resols.y;
    let nitems: usize = points.len();
    let mut c0: u64 = 0;
    let mut c1: u64 = 0;
    let mut c2: u64 = 0;
    let mut c3: u64 = 0;
    let mut n: usize = 0;
    while n < nitems
        invariant
            nitems == points.len() == w * h,
            w == resols.x,
            h == resols.y,
            nitems <= u64::MAX / 4,
            n <= nitems,
            c0 == quadrant_score(points@, w as int, h as int, 0, n as int),
            c1 == quadrant_score(points@, w as int, h as int, 1, n as int),
            c2 == quadrant_score(points@, w as int, h as int, 2, n as int),
            c3 == quadrant_score(points@, w as int, h as int, 3, n as int),
        decreases nitems - n,
    {
        proof {
            lemma_quadrant_score_bounds(points@, w as int, h as int, 0, n as int);
            lemma_quadrant_score_bounds(points@, w as int, h as int, 1, n as int);
            lemma_quadrant_score_bounds(points@, w as int, h as int, 2, n as int);
            lemma_quadrant_score_bounds(points@, w as int, h as int, 3, n as int);
        }
        let i: usize = n % w;
        let j: usize = n / w;
        let ci: usize = if i < w / 2 {
            0
        } else {
            1
        };
        let cj: usize = if j < h / 2 {
            0
        } else {
            1
        };
        let q: usize = 2 * cj + ci;
        if 0 < i && i < w - 1 && 0 < j && j < h - 1 {
            proof {
                lemma_interior_neighbours(w as int, h as int, n as int);
            }
            let centre: bool = points[n].is_diverged;
            let mut score: u64 = 0;
            if points[n - 1].is_diverged != centre {
                score = score + 1;
            }
            if points[n + 1].is_diverged != centre {
                score = score + 1;
            }
            if points[n - w].is_diverged != centre {
                score = score + 1;
            }
            if points[n + w].is_diverged != centre {
                score = score + 1;
            }
            assert(score == pixel_score(points@, w as int, n as int));
            if q == 0 {
                c0 = c0 + score;
            } else if q == 1 {
                c1 = c1 + score;
            } else if q == 2 {
                c2 = c2 + score;
            } else {
                c3 = c3 + score;
            }
        }
        n = n + 1;
    }
    [c0, c1, c2, c3]
}

/// Quadrant `q` holds the strict maximum among the lower indices, at least
/// the maximum among the higher ones, and a nonzero score.
pub open spec fn is_selected(scores: Seq<u64>, q: int) -> bool {
    &&& 0 <= q < 4
    &&& scores[q] > 0
    &&& forall|k: int| 0 <= k < q ==> scores[k] < scores[q]
    &&& forall|k: int| q < k < 4 ==> scores[k] <= scores[q]
}

/// Picks the quadrant of highest complexity, the lowest index among equals;
/// `None` when every score is zero.
pub fn select_quadrant(scores: &[u64; 4]) -> (r: Option<usize>)
    ensures
        r is None <==> (forall|k: int| 0 <= k < 4 ==> scores[k] == 0),
        r matches Some(q) ==> is_selected(scores@, q as int),
{
    let mut best: usize = 0;
    let mut k: usize = 1;
    while k < 4
        invariant
            1 <= k <= 4,
            best < k,
            forall|m: int| 0 <= m < best ==> scores[m] < scores[best as int],
            forall|m: int| best < m < k ==> scores[m] <= scores[best as int],
        decreases 4 - k,
    {
        if scores[best] < scores[k] {
            best = k;
        }
        k = k + 1;
    }
    if scores[best] == 0 {
        None
    } else {
        Some(best)
    }
}

/// Which bounds of the current domain are pulled toward its center by the
/// zoom factor; a `false` bound stays at the full domain edge.
#[derive(Clone, Copy, Debug, PartialEq, Eq, Structural)]
pub struct Retraction {
    /// the lower bound on each axis
    pub lower: Coord<bool>,
    /// the upper bound on each axis
    pub upper: Coord<bool>,
}

/// The bounds to retract so that the next domain closes in on `quadrant`:
/// on each axis the bound away from the quadrant's half is retracted.
pub fn retraction(quadrant: usize) -> (r: Retraction)
    requires
        quadrant < 4,
    ensures
        r.lower.x == (quadrant % 2 == 1),
        r.upper.x == (quadrant % 2 == 0),
        r.lower.y == (quadrant / 2 == 1),
        r.upper.y == (quadrant / 2 == 0),
{
    let right: bool = quadrant % 2 == 1;
    let top: bool = quadrant / 2 == 1;
    Retraction { lower: Coord { x: right, y: top }, upper: Coord { x: !right, y: !top } }
}

/// What the zoom search does after solving its current coarse grid.
#[derive(Clone, Copy, Debug, PartialEq, Eq, Structural)]
pub enum ZoomAction {
    /// the spacing has reached the target: the current center is the answer
    Finish,
    /// recenter on `quadrant`, whose complexity was `complexity`, and zoom in
    Zoom { quadrant: usize, complexity: u64 },
}

/// Scores a solved coarse grid and picks the quadrant to zoom into, with its
/// complexity; fails when no quadrant shows any boundary.
pub fn choose_quadrant(resols: &Coord<usize>, points: &Vec<Point>) -> (r: Result<
    (usize, u64),
    SearchError,
>)
    requires
        points.len() == resols.x * resols.y,
        points.len() <= u64::MAX / 4,
    ensures
        r is Err <==> (forall|q: int| 0 <= q < 4 ==> complexities(points@, *resols)[q] == 0),
        r matches Err(e) ==> e == SearchError::NoStructureFound,
        r matches Ok((q, c)) ==> c == complexities(points@, *resols)[q as int] && is_selected(
            complexities(points@, *resols),
            q as int,
        ),
{
    let scores: [u64; 4] = quadrant_complexities(resols, points);
    assert(scores@ =~= complexities(points@, *resols));
    match select_quadrant(&scores) {
        Some(q) => Ok((q, scores[q])),
        None => Err(SearchError::NoStructureFound),
    }
}

/// One decision of the zoom loop, taken once the current coarse grid is
/// solved: finish when the spacing is already below the target, else zoom
/// into the chosen quadrant, or fail when there is no structure to follow.
pub fn next_action(resols: &Coord<usize>, points: &Vec<Point>, below_target: bool) -> (r: Result<
    ZoomAction,
    SearchError,
>)
    requires
        points.len() == resols.x * resols.y,
        points.len() <= u64::MAX / 4,
    ensures
        below_target ==> r == Ok::<ZoomAction, SearchError>(ZoomAction::Finish),
        !below_target ==> (r is Err <==> (forall|q: int|
            0 <= q < 4 ==> complexities(points@, *resols)[q] == 0)),
        !below_target ==> r != Ok::<ZoomAction, SearchError>(ZoomAction::Finish),
        r matches Err(e) ==> e == SearchError::NoStructureFound,
        r matches Ok(ZoomAction::Zoom { quadrant, complexity }) ==> complexity == complexities(
            points@,
            *resols,
        )[quadrant as int] && is_selected(complexities(points@, *resols), quadrant as int),
{
    if below_target {
        return Ok(ZoomAction::Finish);
    }
    match choose_quadrant(resols, points) {
        Ok((q, c)) => Ok(ZoomAction::Zoom { quadrant: q, complexity: c }),
        Err(e) => Err(e),
    }
}

/// The coarse resolution the search works on.
pub fn coarse_resolution(resols: &Coord<usize>) -> (r: Coord<usize>)
    ensures
        r.x == resols.x / SHRINKAGE,
        r.y == resols.y / SHRINKAGE,
{
    Coord { x: resols.x / SHRINKAGE, y: resols.y / SHRINKAGE }
}

/// Rejects a resolution with a zero axis before any solve.
pub fn check_resolution(resols: &Coord<usize>) -> (r: Result<(), SearchError>)
    ensures
        r is Ok <==> (resols.x > 0 && resols.y > 0),
        r matches Err(e) ==> e == SearchError::InvalidConfiguration,
{
    if resols.x == 0 || resols.y == 0 {
        Err(SearchError::InvalidConfiguration)
    } else {
        Ok(())
    }
}

} // verus!
