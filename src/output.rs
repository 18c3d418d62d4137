//! Framing of the final image: the range of iteration counts the colouring
//! normalises against, and the binary portable pixmap layout.

use crate::coord::Coord;
use crate::mandelbrot::Point;
use vstd::prelude::*;

verus! {

/// The smallest and the largest iteration count among `points`, or `None`
/// when there are no points.
pub fn iteration_range(points: &Vec<Point>) -> (r: Option<(u64, u64)>)
    ensures
        r is None <==> points.len() == 0,
        r matches Some((lo, hi)) ==> {
            &&& exists|i: int| 0 <= i < points.len() && points[i].iter == lo
            &&& exists|i: int| 0 <= i < points.len() && points[i].iter == hi
            &&& forall|i: int| 0 <= i < points.len() ==> lo <= #[trigger] points[i].iter <= hi
        },
{
    if points.len() == 0 {
        return None;
    }
    let mut lo: u64 = points[0].iter;
    let mut hi: u64 = points[0].iter;
    let mut n: usize = 1;
    while n < points.len()
        invariant
            1 <= n <= points.len(),
            exists|i: int| 0 <= i < n && points[i].iter == lo,
            exists|i: int| 0 <= i < n && points[i].iter == hi,
            forall|i: int| 0 <= i < n ==> lo <= #[trigger] points[i].iter <= hi,
        decreases points.len() - n,
    {
        let it: u64 = points[n].iter;
        if it < lo {
            lo = it;
        }
        if it > hi {
            hi = it;
        }
        n = n + 1;
    }
    Some((lo, hi))
}

/// ASCII decimal digits of `n`, most significant first, without leading zeros.
pub open spec fn decimal(n: nat) -> Seq<u8>
    decreases n,
{
    if n < 10 {
        seq![(48 + n) as u8]
    } else {
        decimal(n / 10).push((48 + n % 10) as u8)
    }
}

/// Appends the decimal digits of `n` to `out`.
fn push_decimal(out: &mut Vec<u8>, n: usize)
    ensures
        final(out)@ == old(out)@ + decimal(n as nat),
    decreases n,
{
    if n >= 10 {
        push_decimal(out, n / 10);
    }
    let digit: u8 = (n % 10) as u8;
    out.push(48u8 + digit);
    proof {
        assert(final(out)@ =~= old(out)@ + decimal(n as nat));
    }
}

/// The header of a binary portable pixmap of the given size: `P6`, the width
/// and the height, and the largest sample value 255, each line ended by `\n`.
pub open spec fn ppm_header_bytes(width: nat, height: nat) -> Seq<u8> {
    seq![80u8, 54u8, 10u8] + decimal(width) + seq![32u8] + decimal(height) + seq![
        10u8,
        50u8,
        53u8,
        53u8,
        10u8,
    ]
}

/// The complete image file: the header for `resols`, then the RGB samples.
pub fn encode_image(resols: &Coord<usize>, pixels: &Vec<u8>) -> (r: Vec<u8>)
    ensures
        r@ == ppm_header_bytes(resols.x as nat, resols.y as nat) + pixels@,
{
    let mut out: Vec<u8> = Vec::new();
    out.push(80u8);
    out.push(54u8);
    out.push(10u8);
    push_decimal(&mut out, resols.x);
    out.push(32u8);
    push_decimal(&mut out, resols.y);
    out.push(10u8);
    out.push(50u8);
    out.push(53u8);
    out.push(53u8);
    out.push(10u8);
    let mut n: usize = 0;
    let ghost head: Seq<u8> = out@;
    assert(head =~= ppm_header_bytes(resols.x as nat, resols.y as nat));
    while n < pixels.len()
        invariant
            n <= pixels.len(),
            out@ == head + pixels@.subrange(0, n as int),
        decreases pixels.len() - n,
    {
        out.push(pixels[n]);
        n = n + 1;
        assert(out@ =~= head + pixels@.subrange(0, n as int));
    }
    assert(pixels@.subrange(0, pixels.len() as int) =~= pixels@);
    out
}

} // verus!
