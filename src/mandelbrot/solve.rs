//! The escape-time test, and its application to every pixel of a grid.

use crate::coord::Coord;
use crate::mandelbrot::{Point, MAX_ITER};
use vstd::prelude::*;

verus! {

/// `zs` and `escaped` record `escaped.len()` successive calls of `step`
/// from `z0`: call `k` maps `zs[k]` to `zs[k + 1]` and reports `escaped[k]`.
pub open spec fn is_orbit<Z, F: Fn(Z) -> (Z, bool)>(
    step: F,
    z0: Z,
    zs: Seq<Z>,
    escaped: Seq<bool>,
) -> bool {
    &&& zs.len() == escaped.len() + 1
    &&& zs[0] == z0
    &&& forall|k: int|
        0 <= k < escaped.len() ==> #[trigger] step.ensures((zs[k],), (zs[k + 1], escaped[k]))
}

/// The escape flags of an orbit, read up to its first escape or to the cap,
/// give `p`: a diverged point at the first step that escaped, or a bounded
/// point when none of the first `MAX_ITER` steps did.
pub open spec fn escape_outcome(escaped: Seq<bool>, p: Point) -> bool {
    &&& escaped.len() == p.iter
    &&& forall|k: int| 0 <= k < escaped.len() - 1 ==> !#[trigger] escaped[k]
    &&& if p.is_diverged {
        1 <= p.iter <= MAX_ITER && escaped[p.iter - 1]
    } else {
        p.iter == MAX_ITER && !escaped[MAX_ITER - 1]
    }
}

/// Runs the escape-time test on the orbit that `step` generates from `z0`.
///
/// `step` maps the current orbit value to the next one and reports whether
/// the next one lies outside the escape radius.
pub fn kernel<Z, F: Fn(Z) -> (Z, bool)>(z0: Z, step: F) -> (r: Point)
    requires
        forall|z: Z| step.requires((z,)),
    ensures
        r.wf(),
        exists|zs: Seq<Z>, escaped: Seq<bool>|
            is_orbit(step, z0, zs, escaped) && escape_outcome(escaped, r),
{
    let mut z: Z = z0;
    let mut iter: u64 = 0;
    let ghost mut zs: Seq<Z> = seq![z0];
    let ghost mut escaped: Seq<bool> = Seq::empty();
    while iter < MAX_ITER
        invariant
            forall|z: Z| step.requires((z,)),
            iter <= MAX_ITER,
            escaped.len() == iter,
            is_orbit(step, z0, zs, escaped),
            zs.last() == z,
            forall|k: int| 0 <= k < escaped.len() ==> !#[trigger] escaped[k],
        decreases MAX_ITER - iter,
    {
        let ghost prev = z;
        let (next, out) = step(z);
        iter = iter + 1;
        proof {
            let old_zs = zs;
            zs = zs.push(next);
            escaped = escaped.push(out);
            assert forall|k: int| 0 <= k < escaped.len() implies #[trigger] step.ensures(
                (zs[k],),
                (zs[k + 1], escaped[k]),
            ) by {
                if k < escaped.len() - 1 {
                    assert(zs[k] == old_zs[k] && zs[k + 1] == old_zs[k + 1]);
                }
            }
        }
        if out {
            let r = Point { is_diverged: true, iter };
            assert(is_orbit(step, z0, zs, escaped) && escape_outcome(escaped, r));
            return r;
        }
        z = next;
    }
    let r = Point { is_diverged: false, iter: MAX_ITER };
    assert(escape_outcome(escaped, r));
    r
}

/// `step` gives at most one successor and flag for each orbit value.
pub open spec fn is_deterministic<Z, F: Fn(Z) -> (Z, bool)>(step: F) -> bool {
    forall|z: Z, a: (Z, bool), b: (Z, bool)|
        #[trigger] step.ensures((z,), a) && #[trigger] step.ensures((z,), b) ==> a == b
}

/// Two recorded orbits of a deterministic step from one start agree on
/// their common length.
proof fn lemma_orbits_agree<Z, F: Fn(Z) -> (Z, bool)>(
    step: F,
    z0: Z,
    zs1: Seq<Z>,
    es1: Seq<bool>,
    zs2: Seq<Z>,
    es2: Seq<bool>,
    n: int,
)
    requires
        is_deterministic(step),
        is_orbit(step, z0, zs1, es1),
        is_orbit(step, z0, zs2, es2),
        0 <= n <= es1.len(),
        n <= es2.len(),
    ensures
        zs1[n] == zs2[n],
        forall|k: int| 0 <= k < n ==> es1[k] == es2[k],
    decreases n,
{
    if n > 0 {
        lemma_orbits_agree(step, z0, zs1, es1, zs2, es2, n - 1);
        let k = n - 1;
        assert(step.ensures((zs1[k],), (zs1[k + 1], es1[k])));
        assert(step.ensures((zs2[k],), (zs2[k + 1], es2[k])));
    }
}

/// The escape-time test has no hidden state: with a deterministic step, every
/// outcome that `kernel` may return for one start is the same point.
pub proof fn lemma_kernel_deterministic<Z, F: Fn(Z) -> (Z, bool)>(
    step: F,
    z0: Z,
    p: Point,
    q: Point,
)
    requires
        is_deterministic(step),
        exists|zs: Seq<Z>, escaped: Seq<bool>|
            is_orbit(step, z0, zs, escaped) && escape_outcome(escaped, p),
        exists|zs: Seq<Z>, escaped: Seq<bool>|
            is_orbit(step, z0, zs, escaped) && escape_outcome(escaped, q),
    ensures
        p == q,
{
    let (zs1, es1) = choose|zs: Seq<Z>, escaped: Seq<bool>|
        is_orbit(step, z0, zs, escaped) && escape_outcome(escaped, p);
    let (zs2, es2) = choose|zs: Seq<Z>, escaped: Seq<bool>|
        is_orbit(step, z0, zs, escaped) && escape_outcome(escaped, q);
    if es1.len() <= es2.len() {
        lemma_orbits_agree(step, z0, zs1, es1, zs2, es2, es1.len() as int);
    } else {
        lemma_orbits_agree(step, z0, zs1, es1, zs2, es2, es2.len() as int);
    }
    if p.iter < q.iter {
        assert(es2[p.iter - 1] == es1[p.iter - 1]);
    } else if q.iter < p.iter {
        assert(es2[q.iter - 1] == es1[q.iter - 1]);
    } else {
        assert(es2[p.iter - 1] == es1[p.iter - 1]);
    }
}

/// `points` holds, row-major, one outcome of `kernel_at` for each pixel of a
/// grid of `resols.x` columns and `resols.y` rows.
pub open spec fn is_solved<F: Fn(usize, usize) -> Point>(
    resols: Coord<usize>,
    kernel_at: F,
    points: Seq<Point>,
) -> bool {
    &&& points.len() == resols.x * resols.y
    &&& forall|n: int|
        0 <= n < points.len() ==> kernel_at.ensures(
            ((n % resols.x as int) as usize, (n / resols.x as int) as usize),
            #[trigger] points[n],
        )
}

/// Applies `kernel_at(column, row)` to every pixel of the grid and returns
/// the outcomes in row-major order (`index = row * resols.x + column`).
pub fn solve_grid<F: Fn(usize, usize) -> Point>(resols: &Coord<usize>, kernel_at: F) -> (r: Vec<
    Point,
>)
    requires
        resols.x * resols.y <= usize::MAX,
        forall|i: usize, j: usize| i < resols.x && j < resols.y ==> kernel_at.requires((i, j)),
    ensures
        is_solved(*resols, kernel_at, r@),
{
    let nitems: usize = resols.x * resols.y;
    let mut points: Vec<Point> = Vec::with_capacity(nitems);
    let mut n: usize = 0;
    while n < nitems
        invariant
            nitems == resols.x * resols.y,
            n <= nitems,
            points.len() == n,
            forall|i: usize, j: usize|
                i < resols.x && j < resols.y ==> kernel_at.requires((i, j)),
            forall|m: int|
                0 <= m < n ==> kernel_at.ensures(
                    ((m % resols.x as int) as usize, (m / resols.x as int) as usize),
                    #[trigger] points@[m],
                ),
        decreases nitems - n,
    {
        let i: usize = n % resols.x;
        let j: usize = n / resols.x;
        proof {
            assert(j < resols.y) by (nonlinear_arith)
                requires
                    n < resols.x * resols.y,
                    j == n / resols.x,
                    resols.x > 0,
            ;
        }
        let p = kernel_at(i, j);
        points.push(p);
        n = n + 1;
    }
    points
}

/// Solving a grid has no hidden state: where the kernel gives one outcome
/// per pixel, two solves of the same grid hold identical results.
pub proof fn lemma_solve_deterministic<F: Fn(usize, usize) -> Point>(
    resols: Coord<usize>,
    kernel_at: F,
    a: Seq<Point>,
    b: Seq<Point>,
)
    requires
        forall|i: usize, j: usize, p: Point, q: Point|
            #[trigger] kernel_at.ensures((i, j), p) && #[trigger] kernel_at.ensures((i, j), q) ==> p
                == q,
        is_solved(resols, kernel_at, a),
        is_solved(resols, kernel_at, b),
    ensures
        a == b,
{
    assert forall|n: int| 0 <= n < a.len() implies a[n] == b[n] by {
        let i = (n % resols.x as int) as usize;
        let j = (n / resols.x as int) as usize;
        assert(kernel_at.ensures((i, j), a[n]));
        assert(kernel_at.ensures((i, j), b[n]));
    }
    assert(a =~= b);
}

} // verus!
