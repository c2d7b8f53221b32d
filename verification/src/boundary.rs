//! The cuts along one side of a display.
//!
//! A side with `count` LEDs and an inner span of `span` pixels is cut at the
//! boundaries `boundary(span, count, a)` for `a` in `0..=count`. Each boundary is
//! the exact product `span * a / count` rounded to the nearest integer on its
//! own, so no rounding error is carried from one LED to the next.

use crate::geometry::EdgeFault;
use crate::rounding::{
    lemma_round_div_exact, lemma_round_div_monotonic, lemma_round_div_nearest,
    lemma_round_div_strict, round_div,
};
use vstd::prelude::*;

verus! {

/// Distance of the `a`-th boundary from the start of an edge's inner span.
pub open spec fn boundary(span: int, count: int, a: int) -> int {
    round_div(span * a, count)
}

/// The first boundary lies at the start of the span and the last one at its end.
pub proof fn lemma_boundary_ends(span: int, count: int)
    requires
        0 < count,
    ensures
        boundary(span, count, 0) == 0,
        boundary(span, count, count) == span,
{
    assert(span * 0 == 0 * count) by (nonlinear_arith);
    lemma_round_div_exact(0, count);
    lemma_round_div_exact(span, count);
}

/// Boundaries never step backwards along the edge.
pub proof fn lemma_boundary_monotonic(span: int, count: int, a: int, b: int)
    requires
        0 <= span,
        0 < count,
        a <= b,
    ensures
        boundary(span, count, a) <= boundary(span, count, b),
{
    assert(span * a <= span * b) by (nonlinear_arith)
        requires
            0 <= span,
            a <= b,
    ;
    lemma_round_div_monotonic(span * a, span * b, count);
}

/// A boundary is within half a pixel of the exact product `span * a / count`:
/// it is that product rounded, whatever the boundaries before it are.
pub proof fn lemma_boundary_nearest(span: int, count: int, a: int)
    requires
        0 < count,
    ensures
        -count < 2 * count * boundary(span, count, a) - 2 * (span * a) <= count,
{
    lemma_round_div_nearest(span * a, count);
}

/// With no more LEDs than pixels, consecutive boundaries are at least one pixel
/// apart.
pub proof fn lemma_boundary_strict(span: int, count: int, a: int)
    requires
        0 < count <= span,
    ensures
        boundary(span, count, a) < boundary(span, count, a + 1),
{
    assert(span * (a + 1) == span * a + span) by (nonlinear_arith);
    lemma_round_div_strict(span * a, span * (a + 1), count);
}

/// The fault of a side of `dimension` pixels with the indents `near` and `far`
/// and `count` LEDs, if it has one. The count is looked at first, then the
/// indents, then the span.
pub open spec fn edge_fault(dimension: int, near: int, far: int, count: int) -> Option<EdgeFault> {
    if count <= 0 {
        Some(EdgeFault::LedCount)
    } else if near < 0 || far < 0 {
        Some(EdgeFault::Indent)
    } else if dimension - near - far <= 0 {
        Some(EdgeFault::Span)
    } else {
        None
    }
}

fn boundary_at(span: i32, count: i32, a: i32) -> (r: i32)
    requires
        0 <= span,
        0 < count,
        0 <= a <= count,
    ensures
        r == boundary(span as int, count as int, a as int),
        0 <= r <= span,
{
    proof {
        lemma_boundary_ends(span as int, count as int);
        lemma_boundary_monotonic(span as int, count as int, 0, a as int);
        lemma_boundary_monotonic(span as int, count as int, a as int, count as int);
        assert(0 <= span * a <= 0x7fff_ffff * 0x7fff_ffff) by (nonlinear_arith)
            requires
                0 <= span <= 0x7fff_ffff,
                0 <= a <= 0x7fff_ffff,
        ;
    }
    let product: i64 = (span as i64) * (a as i64);
    let half: i64 = (count / 2) as i64;
    ((product + half) / (count as i64)) as i32
}

/// The `count + 1` boundaries of one side, each measured along the side from
/// the corner where the walk starts: `near` is the indent at that corner and
/// `far` the indent at the other one.
pub fn edge_boundaries(dimension: i32, near: i32, far: i32, count: i32) -> (r: Result<
    Vec<i32>,
    EdgeFault,
>)
    ensures
        r is Ok <==> edge_fault(dimension as int, near as int, far as int, count as int) is None,
        r is Err ==> edge_fault(dimension as int, near as int, far as int, count as int) == Some(
            r->Err_0,
        ),
        r is Ok ==> r->Ok_0@.len() == count + 1,
        r is Ok ==> forall|a: int|
            0 <= a <= count ==> #[trigger] r->Ok_0@[a] == near + boundary(
                dimension - near - far,
                count as int,
                a,
            ),
        r is Ok ==> r->Ok_0@[0] == near,
        r is Ok ==> r->Ok_0@[count as int] == dimension - far,
        r is Ok ==> forall|a: int, b: int|
            0 <= a <= b <= count ==> r->Ok_0@[a] <= r->Ok_0@[b],
{
    if count <= 0 {
        return Err(EdgeFault::LedCount);
    }
    if near < 0 || far < 0 {
        return Err(EdgeFault::Indent);
    }
    if dimension as i64 - near as i64 - far as i64 <= 0 {
        return Err(EdgeFault::Span);
    }
    let span: i32 = dimension - near - far;
    let mut v: Vec<i32> = Vec::new();
    let mut a: i32 = 0;
    v.push(near + boundary_at(span, count, 0));
    while a < count
        invariant
            0 <= a <= count,
            0 < span,
            0 <= near,
            0 <= far,
            span == dimension - near - far,
            v@.len() == a + 1,
            forall|i: int|
                0 <= i <= a ==> #[trigger] v@[i] == near + boundary(span as int, count as int, i),
        decreases count - a,
    {
        a = a + 1;
        v.push(near + boundary_at(span, count, a));
    }
    proof {
        lemma_boundary_ends(span as int, count as int);
        assert forall|i: int, j: int| 0 <= i <= j <= count implies v@[i] <= v@[j] by {
            lemma_boundary_monotonic(span as int, count as int, i, j);
        }
    }
    Ok(v)
}

} // verus!
