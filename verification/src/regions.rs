//! Sampling rectangles: where along a display's perimeter each LED looks.
//!
//! The LEDs of a display are wired up the left side, along the top from left to
//! right, down the right side, and along the bottom from right to left. Each
//! LED samples a strip between two consecutive boundaries of its side.

use crate::boundary::{
    boundary, edge_boundaries, edge_fault, lemma_boundary_ends, lemma_boundary_monotonic,
    lemma_boundary_strict,
};
use crate::geometry::{
    ConfigurationError, Edge, EdgeFault, EdgeIndent, EdgeLeds, Fault, Indent, Led, MonitorRes,
    Rect, SamplingRectangle,
};
use vstd::prelude::*;

verus! {

/// Length in pixels of the display's extent along a side.
pub open spec fn edge_dimension(edge: Edge, m: MonitorRes) -> int {
    match edge {
        Edge::Left | Edge::Right => m.height as int,
        Edge::Up | Edge::Down => m.width as int,
    }
}

/// Number of LEDs on a side.
pub open spec fn edge_leds(edge: Edge, leds: EdgeLeds) -> int {
    match edge {
        Edge::Left => leds.left as int,
        Edge::Up => leds.up as int,
        Edge::Right => leds.right as int,
        Edge::Down => leds.down as int,
    }
}

/// The indent at the corner where the walk along a side starts.
pub open spec fn near_indent(edge: Edge, indent: EdgeIndent) -> int {
    match edge {
        Edge::Left => indent.left_down as int,
        Edge::Up => indent.up_left as int,
        Edge::Right => indent.right_up as int,
        Edge::Down => indent.down_right as int,
    }
}

/// The indent at the corner where the walk along a side ends.
pub open spec fn far_indent(edge: Edge, indent: EdgeIndent) -> int {
    match edge {
        Edge::Left => indent.left_up as int,
        Edge::Up => indent.up_right as int,
        Edge::Right => indent.right_down as int,
        Edge::Down => indent.down_left as int,
    }
}

/// Pixels of a side that lie between its two indents.
pub open spec fn inner_span(edge: Edge, m: MonitorRes, indent: EdgeIndent) -> int {
    edge_dimension(edge, m) - near_indent(edge, indent) - far_indent(edge, indent)
}

/// The fault of one side of a display, if it has one.
pub open spec fn side_fault(
    edge: Edge,
    m: MonitorRes,
    leds: EdgeLeds,
    indent: EdgeIndent,
) -> Option<EdgeFault> {
    edge_fault(
        edge_dimension(edge, m),
        near_indent(edge, indent),
        far_indent(edge, indent),
        edge_leds(edge, leds),
    )
}

/// The rectangle of LED `k` of a side, counted from 0 in wiring order.
///
/// With `lo` and `hi` the two boundaries around the LED, the top and the right
/// side sample the pixels `lo..hi` along the side. The left and the bottom side
/// are walked against the pixel axis, from the far end of the side: there a
/// boundary `d` lies at the coordinate `dimension - d`, so the LED samples
/// `dimension - hi..dimension - lo`. Either way the rectangles of a side lie
/// between its two indents. Across the side the strip is `size` pixels thick
/// and touches the display's border.
pub open spec fn edge_rect(
    edge: Edge,
    m: MonitorRes,
    leds: EdgeLeds,
    indent: EdgeIndent,
    size: int,
    k: int,
) -> Rect {
    let near = near_indent(edge, indent);
    let span = inner_span(edge, m, indent);
    let lo = near + boundary(span, edge_leds(edge, leds), k);
    let hi = near + boundary(span, edge_leds(edge, leds), k + 1);
    match edge {
        Edge::Left => Rect { x1: 0, y1: m.height - hi, x2: size, y2: m.height - lo },
        Edge::Up => Rect { x1: lo, y1: 0, x2: hi, y2: size },
        Edge::Right => Rect { x1: m.width - size, y1: lo, x2: m.width as int, y2: hi },
        Edge::Down => Rect {
            x1: m.width - hi,
            y1: m.height - size,
            x2: m.width - lo,
            y2: m.height as int,
        },
    }
}

/// Where along its side a rectangle starts, in the direction of the walk.
pub open spec fn walk_start(edge: Edge, rect: Rect) -> int {
    match edge {
        Edge::Left => rect.y2,
        Edge::Up => rect.x1,
        Edge::Right => rect.y1,
        Edge::Down => rect.x2,
    }
}

/// Where along its side a rectangle ends, in the direction of the walk.
pub open spec fn walk_end(edge: Edge, rect: Rect) -> int {
    match edge {
        Edge::Left => rect.y1,
        Edge::Up => rect.x2,
        Edge::Right => rect.y2,
        Edge::Down => rect.x1,
    }
}

/// Distance between two coordinates of a side, in the direction of the walk.
pub open spec fn walked(edge: Edge, from: int, to: int) -> int {
    match edge {
        Edge::Left | Edge::Down => from - to,
        Edge::Up | Edge::Right => to - from,
    }
}

/// A rectangle of a side without a fault is not inverted, and with no more
/// LEDs than pixels on the side it holds at least one pixel.
pub proof fn lemma_edge_rect_shape(
    edge: Edge,
    m: MonitorRes,
    leds: EdgeLeds,
    indent: EdgeIndent,
    size: int,
    k: int,
)
    requires
        0 < size,
        side_fault(edge, m, leds, indent) is None,
        0 <= k < edge_leds(edge, leds),
    ensures
        edge_rect(edge, m, leds, indent, size, k).not_inverted(),
        edge_leds(edge, leds) <= inner_span(edge, m, indent) ==> edge_rect(
            edge,
            m,
            leds,
            indent,
            size,
            k,
        ).has_pixels(),
{
    let span = inner_span(edge, m, indent);
    let count = edge_leds(edge, leds);
    lemma_boundary_monotonic(span, count, k, k + 1);
    if count <= span {
        lemma_boundary_strict(span, count, k);
    }
}

/// Along a side the rectangles leave no gap and do not overlap: each one
/// starts where the one before it ends.
pub proof fn lemma_edge_rects_adjacent(
    edge: Edge,
    m: MonitorRes,
    leds: EdgeLeds,
    indent: EdgeIndent,
    size: int,
    k: int,
)
    ensures
        walk_start(edge, edge_rect(edge, m, leds, indent, size, k + 1)) == walk_end(
            edge,
            edge_rect(edge, m, leds, indent, size, k),
        ),
{
}

/// Rectangle `k` of a side ends `boundary(span, count, k + 1)` pixels behind
/// the start of the first one, and the last one ends a whole span behind it.
pub proof fn lemma_edge_rects_cover_span(
    edge: Edge,
    m: MonitorRes,
    leds: EdgeLeds,
    indent: EdgeIndent,
    size: int,
    k: int,
)
    requires
        0 < edge_leds(edge, leds),
    ensures
        walked(
            edge,
            walk_start(edge, edge_rect(edge, m, leds, indent, size, 0)),
            walk_end(edge, edge_rect(edge, m, leds, indent, size, k)),
        ) == boundary(inner_span(edge, m, indent), edge_leds(edge, leds), k + 1),
        walked(
            edge,
            walk_start(edge, edge_rect(edge, m, leds, indent, size, 0)),
            walk_end(edge, edge_rect(edge, m, leds, indent, size, edge_leds(edge, leds) - 1)),
        ) == inner_span(edge, m, indent),
{
    lemma_boundary_ends(inner_span(edge, m, indent), edge_leds(edge, leds));
}

/// Where along the pixel axis of its side a rectangle starts.
pub open spec fn axis_low(edge: Edge, rect: Rect) -> int {
    match edge {
        Edge::Left | Edge::Right => rect.y1,
        Edge::Up | Edge::Down => rect.x1,
    }
}

/// Where along the pixel axis of its side a rectangle ends.
pub open spec fn axis_high(edge: Edge, rect: Rect) -> int {
    match edge {
        Edge::Left | Edge::Right => rect.y2,
        Edge::Up | Edge::Down => rect.x2,
    }
}

/// The indent of a side at the end where the pixel axis starts: the upper end
/// of the left and the right side, the left end of the top and the bottom.
pub open spec fn low_indent(edge: Edge, indent: EdgeIndent) -> int {
    match edge {
        Edge::Left => indent.left_up as int,
        Edge::Up => indent.up_left as int,
        Edge::Right => indent.right_up as int,
        Edge::Down => indent.down_left as int,
    }
}

/// The indent of a side at the end where the pixel axis ends: the lower end of
/// the left and the right side, the right end of the top and the bottom.
pub open spec fn high_indent(edge: Edge, indent: EdgeIndent) -> int {
    match edge {
        Edge::Left => indent.left_down as int,
        Edge::Up => indent.up_right as int,
        Edge::Right => indent.right_down as int,
        Edge::Down => indent.down_right as int,
    }
}

/// Every rectangle of a side lies between the side's two indents.
pub proof fn lemma_edge_rect_between_indents(
    edge: Edge,
    m: MonitorRes,
    leds: EdgeLeds,
    indent: EdgeIndent,
    size: int,
    k: int,
)
    requires
        side_fault(edge, m, leds, indent) is None,
        0 <= k < edge_leds(edge, leds),
    ensures
        low_indent(edge, indent) <= axis_low(edge, edge_rect(edge, m, leds, indent, size, k)),
        axis_low(edge, edge_rect(edge, m, leds, indent, size, k)) <= axis_high(
            edge,
            edge_rect(edge, m, leds, indent, size, k),
        ),
        axis_high(edge, edge_rect(edge, m, leds, indent, size, k)) <= edge_dimension(edge, m)
            - high_indent(edge, indent),
{
    lemma_boundaries_in_span(inner_span(edge, m, indent), edge_leds(edge, leds), k);
}

/// The rectangles of a side reach from one indent to the other: the side
/// samples the pixels `low_indent..dimension - high_indent` of its axis, and
/// by `lemma_edge_rects_adjacent` it samples each of them once.
pub proof fn lemma_edge_rects_cover_interior(
    edge: Edge,
    m: MonitorRes,
    leds: EdgeLeds,
    indent: EdgeIndent,
    size: int,
)
    requires
        0 < edge_leds(edge, leds),
    ensures
        (edge is Up || edge is Right) ==> axis_low(edge, edge_rect(edge, m, leds, indent, size, 0))
            == low_indent(edge, indent),
        (edge is Up || edge is Right) ==> axis_high(
            edge,
            edge_rect(edge, m, leds, indent, size, edge_leds(edge, leds) - 1),
        ) == edge_dimension(edge, m) - high_indent(edge, indent),
        (edge is Left || edge is Down) ==> axis_high(
            edge,
            edge_rect(edge, m, leds, indent, size, 0),
        ) == edge_dimension(edge, m) - high_indent(edge, indent),
        (edge is Left || edge is Down) ==> axis_low(
            edge,
            edge_rect(edge, m, leds, indent, size, edge_leds(edge, leds) - 1),
        ) == low_indent(edge, indent),
{
    lemma_boundary_ends(inner_span(edge, m, indent), edge_leds(edge, leds));
}

/// The fault of one display's layout, if it has one: the thickness is looked
/// at first, then the sides in wiring order.
pub open spec fn monitor_fault(
    m: MonitorRes,
    leds: EdgeLeds,
    indent: EdgeIndent,
    size: int,
) -> Option<Fault> {
    if size <= 0 {
        Some(Fault::Thickness)
    } else if side_fault(Edge::Left, m, leds, indent) is Some {
        Some(Fault::Side(Edge::Left, side_fault(Edge::Left, m, leds, indent)->0))
    } else if side_fault(Edge::Up, m, leds, indent) is Some {
        Some(Fault::Side(Edge::Up, side_fault(Edge::Up, m, leds, indent)->0))
    } else if side_fault(Edge::Right, m, leds, indent) is Some {
        Some(Fault::Side(Edge::Right, side_fault(Edge::Right, m, leds, indent)->0))
    } else if side_fault(Edge::Down, m, leds, indent) is Some {
        Some(Fault::Side(Edge::Down, side_fault(Edge::Down, m, leds, indent)->0))
    } else {
        None
    }
}

/// Number of LEDs around one display.
pub open spec fn total_leds(leds: EdgeLeds) -> int {
    leds.left + leds.up + leds.right + leds.down
}

/// The rectangle of LED `k` of a display, counted from 0 in wiring order: the
/// left side first, then the top, the right side and the bottom.
pub open spec fn monitor_rect(
    m: MonitorRes,
    leds: EdgeLeds,
    indent: EdgeIndent,
    size: int,
    k: int,
) -> Rect {
    if k < leds.left {
        edge_rect(Edge::Left, m, leds, indent, size, k)
    } else if k < leds.left + leds.up {
        edge_rect(Edge::Up, m, leds, indent, size, k - leds.left)
    } else if k < leds.left + leds.up + leds.right {
        edge_rect(Edge::Right, m, leds, indent, size, k - leds.left - leds.up)
    } else {
        edge_rect(Edge::Down, m, leds, indent, size, k - leds.left - leds.up - leds.right)
    }
}

/// No side of the display has more LEDs than pixels between its indents.
pub open spec fn leds_fit(m: MonitorRes, leds: EdgeLeds, indent: EdgeIndent) -> bool {
    &&& leds.left <= inner_span(Edge::Left, m, indent)
    &&& leds.up <= inner_span(Edge::Up, m, indent)
    &&& leds.right <= inner_span(Edge::Right, m, indent)
    &&& leds.down <= inner_span(Edge::Down, m, indent)
}

/// No rectangle of a layout without a fault is inverted, and where no side has
/// more LEDs than pixels every rectangle holds at least one pixel.
pub proof fn lemma_monitor_rect_shape(
    m: MonitorRes,
    leds: EdgeLeds,
    indent: EdgeIndent,
    size: int,
    k: int,
)
    requires
        monitor_fault(m, leds, indent, size) is None,
        0 <= k < total_leds(leds),
    ensures
        monitor_rect(m, leds, indent, size, k).not_inverted(),
        leds_fit(m, leds, indent) ==> monitor_rect(m, leds, indent, size, k).has_pixels(),
{
    if k < leds.left {
        lemma_edge_rect_shape(Edge::Left, m, leds, indent, size, k);
    } else if k < leds.left + leds.up {
        lemma_edge_rect_shape(Edge::Up, m, leds, indent, size, k - leds.left);
    } else if k < leds.left + leds.up + leds.right {
        lemma_edge_rect_shape(Edge::Right, m, leds, indent, size, k - leds.left - leds.up);
    } else {
        lemma_edge_rect_shape(
            Edge::Down,
            m,
            leds,
            indent,
            size,
            k - leds.left - leds.up - leds.right,
        );
    }
}

/// The rectangle lies on the display.
pub open spec fn within_display(m: MonitorRes, rect: Rect) -> bool {
    &&& 0 <= rect.x1 && rect.x2 <= m.width
    &&& 0 <= rect.y1 && rect.y2 <= m.height
}

/// Both boundaries around LED `k` lie within the span.
proof fn lemma_boundaries_in_span(span: int, count: int, k: int)
    requires
        0 < span,
        0 <= k < count,
    ensures
        0 <= boundary(span, count, k) <= boundary(span, count, k + 1) <= span,
{
    lemma_boundary_ends(span, count);
    lemma_boundary_monotonic(span, count, 0, k);
    lemma_boundary_monotonic(span, count, k, k + 1);
    lemma_boundary_monotonic(span, count, k + 1, count);
}

/// Every rectangle of a layout without a fault lies on the display, if the
/// strips are no thicker than the display is wide and high.
pub proof fn lemma_monitor_rect_within_display(
    m: MonitorRes,
    leds: EdgeLeds,
    indent: EdgeIndent,
    size: int,
    k: int,
)
    requires
        monitor_fault(m, leds, indent, size) is None,
        size <= m.width,
        size <= m.height,
        0 <= k < total_leds(leds),
    ensures
        monitor_rect(m, leds, indent, size, k).not_inverted(),
        within_display(m, monitor_rect(m, leds, indent, size, k)),
{
    if k < leds.left {
        lemma_boundaries_in_span(inner_span(Edge::Left, m, indent), leds.left as int, k);
    } else if k < leds.left + leds.up {
        lemma_boundaries_in_span(inner_span(Edge::Up, m, indent), leds.up as int, k - leds.left);
    } else if k < leds.left + leds.up + leds.right {
        lemma_boundaries_in_span(
            inner_span(Edge::Right, m, indent),
            leds.right as int,
            k - leds.left - leds.up,
        );
    } else {
        lemma_boundaries_in_span(
            inner_span(Edge::Down, m, indent),
            leds.down as int,
            k - leds.left - leds.up - leds.right,
        );
    }
}

fn side_dimension(edge: Edge, m: &MonitorRes) -> (r: i32)
    ensures
        r == edge_dimension(edge, *m),
{
    match edge {
        Edge::Left | Edge::Right => m.height,
        Edge::Up | Edge::Down => m.width,
    }
}

fn side_leds(edge: Edge, leds: &EdgeLeds) -> (r: i32)
    ensures
        r == edge_leds(edge, *leds),
{
    match edge {
        Edge::Left => leds.left,
        Edge::Up => leds.up,
        Edge::Right => leds.right,
        Edge::Down => leds.down,
    }
}

fn side_near(edge: Edge, indent: &EdgeIndent) -> (r: i32)
    ensures
        r == near_indent(edge, *indent),
{
    match edge {
        Edge::Left => indent.left_down,
        Edge::Up => indent.up_left,
        Edge::Right => indent.right_up,
        Edge::Down => indent.down_right,
    }
}

fn side_far(edge: Edge, indent: &EdgeIndent) -> (r: i32)
    ensures
        r == far_indent(edge, *indent),
{
    match edge {
        Edge::Left => indent.left_up,
        Edge::Up => indent.up_right,
        Edge::Right => indent.right_down,
        Edge::Down => indent.down_left,
    }
}

/// `bounds` holds the boundaries of one side: in place, in order, and between
/// the two indents.
pub open spec fn side_boundaries_hold(
    edge: Edge,
    m: MonitorRes,
    leds: EdgeLeds,
    indent: EdgeIndent,
    bounds: Seq<i32>,
) -> bool {
    let count = edge_leds(edge, leds);
    let near = near_indent(edge, indent);
    &&& bounds.len() == count + 1
    &&& forall|a: int|
        0 <= a <= count ==> #[trigger] bounds[a] == near + boundary(
            inner_span(edge, m, indent),
            count,
            a,
        )
    &&& forall|a: int|
        0 <= a <= count ==> near <= #[trigger] bounds[a] <= edge_dimension(edge, m) - far_indent(
            edge,
            indent,
        )
    &&& forall|a: int, b: int| 0 <= a <= b <= count ==> bounds[a] <= bounds[b]
}

/// The boundaries of one side of a display, or the side's fault.
fn side_boundaries(edge: Edge, m: &MonitorRes, leds: &EdgeLeds, indent: &EdgeIndent) -> (r: Result<
    Vec<i32>,
    EdgeFault,
>)
    ensures
        r is Ok <==> side_fault(edge, *m, *leds, *indent) is None,
        r is Ok ==> side_boundaries_hold(edge, *m, *leds, *indent, r->Ok_0@),
        r is Err ==> side_fault(edge, *m, *leds, *indent) == Some(r->Err_0),
{
    edge_boundaries(
        side_dimension(edge, m),
        side_near(edge, indent),
        side_far(edge, indent),
        side_leds(edge, leds),
    )
}

/// Appends the rectangles of one side, made from consecutive boundaries.
fn push_side(
    edge: Edge,
    m: &MonitorRes,
    leds: &EdgeLeds,
    indent: &EdgeIndent,
    size: i32,
    bounds: &Vec<i32>,
    out: &mut Vec<SamplingRectangle>,
)
    requires
        0 < size,
        0 < m.width,
        0 < m.height,
        side_fault(edge, *m, *leds, *indent) is None,
        side_boundaries_hold(edge, *m, *leds, *indent, bounds@),
    ensures
        final(out)@.len() == old(out)@.len() + edge_leds(edge, *leds),
        forall|i: int| 0 <= i < old(out)@.len() ==> final(out)@[i] == old(out)@[i],
        forall|i: int|
            old(out)@.len() <= i < final(out)@.len() ==> (#[trigger] final(out)@[i])@ == edge_rect(
                edge,
                *m,
                *leds,
                *indent,
                size as int,
                i - old(out)@.len(),
            ),
{
    let count = side_leds(edge, leds);
    // The sides walked against the pixel axis count from its far end.
    let length: i32 = side_dimension(edge, m);
    let ghost before = out@;
    let mut k: i32 = 0;
    while k < count
        invariant
            0 <= k <= count,
            count == edge_leds(edge, *leds),
            length == edge_dimension(edge, *m),
            0 < size,
            0 < m.width,
            0 < m.height,
            side_fault(edge, *m, *leds, *indent) is None,
            side_boundaries_hold(edge, *m, *leds, *indent, bounds@),
            out@.len() == before.len() + k,
            forall|i: int| 0 <= i < before.len() ==> out@[i] == before[i],
            forall|i: int|
                before.len() <= i < out@.len() ==> (#[trigger] out@[i])@ == edge_rect(
                    edge,
                    *m,
                    *leds,
                    *indent,
                    size as int,
                    i - before.len(),
                ),
        decreases count - k,
    {
        let lo = bounds[k as usize];
        let hi = bounds[(k + 1) as usize];
        assert(near_indent(edge, *indent) <= bounds@[k as int]);
        assert(bounds@[k as int] <= bounds@[k + 1]);
        assert(bounds@[k + 1] <= edge_dimension(edge, *m) - far_indent(edge, *indent));
        let rect = match edge {
            Edge::Left => SamplingRectangle { x1: 0, y1: length - hi, x2: size, y2: length - lo },
            Edge::Up => SamplingRectangle { x1: lo, y1: 0, x2: hi, y2: size },
            Edge::Right => SamplingRectangle { x1: m.width - size, y1: lo, x2: m.width, y2: hi },
            Edge::Down => SamplingRectangle {
                x1: length - hi,
                y1: m.height - size,
                x2: length - lo,
                y2: m.height,
            },
        };
        assert(rect@ == edge_rect(edge, *m, *leds, *indent, size as int, k as int));
        out.push(rect);
        k = k + 1;
    }
}

/// `regions` holds the rectangles of one display, one for each LED, in wiring
/// order.
pub open spec fn regions_of_monitor(
    regions: Seq<SamplingRectangle>,
    m: MonitorRes,
    leds: EdgeLeds,
    indent: EdgeIndent,
    size: int,
) -> bool {
    &&& regions.len() == total_leds(leds)
    &&& forall|k: int|
        0 <= k < regions.len() ==> (#[trigger] regions[k])@ == monitor_rect(
            m,
            leds,
            indent,
            size,
            k,
        )
}

/// The first and the last rectangle of each side end at the side's indents:
/// the left side samples the rows `left_up..height - left_down`, the top the
/// columns `up_left..width - up_right`, the right side the rows
/// `right_up..height - right_down`, and the bottom the columns
/// `down_left..width - down_right`.
pub open spec fn sides_reach_indents(
    regions: Seq<SamplingRectangle>,
    m: MonitorRes,
    leds: EdgeLeds,
    indent: EdgeIndent,
) -> bool {
    let up = leds.left as int;
    let right = leds.left + leds.up;
    let down = leds.left + leds.up + leds.right;
    let end = leds.left + leds.up + leds.right + leds.down;
    &&& regions[0].y2 == m.height - indent.left_down
    &&& regions[up - 1].y1 == indent.left_up
    &&& regions[up].x1 == indent.up_left
    &&& regions[right - 1].x2 == m.width - indent.up_right
    &&& regions[right].y1 == indent.right_up
    &&& regions[down - 1].y2 == m.height - indent.right_down
    &&& regions[down].x2 == m.width - indent.down_right
    &&& regions[end - 1].x1 == indent.down_left
}

/// What holds of the rectangles of a layout without a fault: each side is
/// sampled from one of its indents to the other; no rectangle is inverted;
/// where no side has more LEDs than pixels each holds at least one pixel; and
/// where the strips are no thicker than the display is wide and high each lies
/// on the display.
pub open spec fn regions_shaped(
    regions: Seq<SamplingRectangle>,
    m: MonitorRes,
    leds: EdgeLeds,
    indent: EdgeIndent,
    size: int,
) -> bool {
    &&& sides_reach_indents(regions, m, leds, indent)
    &&& forall|k: int| 0 <= k < regions.len() ==> (#[trigger] regions[k])@.not_inverted()
    &&& leds_fit(m, leds, indent) ==> forall|k: int|
        0 <= k < regions.len() ==> (#[trigger] regions[k])@.has_pixels()
    &&& size <= m.width && size <= m.height ==> forall|k: int|
        0 <= k < regions.len() ==> within_display(m, (#[trigger] regions[k])@)
}

/// `regions_of_monitor` gives `regions_shaped`.
pub proof fn lemma_regions_shaped(
    regions: Seq<SamplingRectangle>,
    m: MonitorRes,
    leds: EdgeLeds,
    indent: EdgeIndent,
    size: int,
)
    requires
        monitor_fault(m, leds, indent, size) is None,
        regions_of_monitor(regions, m, leds, indent, size),
    ensures
        regions_shaped(regions, m, leds, indent, size),
{
    lemma_edge_rects_cover_interior(Edge::Left, m, leds, indent, size);
    lemma_edge_rects_cover_interior(Edge::Up, m, leds, indent, size);
    lemma_edge_rects_cover_interior(Edge::Right, m, leds, indent, size);
    lemma_edge_rects_cover_interior(Edge::Down, m, leds, indent, size);
    let up = leds.left as int;
    let right = leds.left + leds.up;
    let down = leds.left + leds.up + leds.right;
    let end = leds.left + leds.up + leds.right + leds.down;
    assert(regions[0]@ == edge_rect(Edge::Left, m, leds, indent, size, 0));
    assert(regions[up - 1]@ == edge_rect(Edge::Left, m, leds, indent, size, leds.left - 1));
    assert(regions[up]@ == edge_rect(Edge::Up, m, leds, indent, size, 0));
    assert(regions[right - 1]@ == edge_rect(Edge::Up, m, leds, indent, size, leds.up - 1));
    assert(regions[right]@ == edge_rect(Edge::Right, m, leds, indent, size, 0));
    assert(regions[down - 1]@ == edge_rect(Edge::Right, m, leds, indent, size, leds.right - 1));
    assert(regions[down]@ == edge_rect(Edge::Down, m, leds, indent, size, 0));
    assert(regions[end - 1]@ == edge_rect(Edge::Down, m, leds, indent, size, leds.down - 1));
    assert forall|k: int| 0 <= k < regions.len() implies (#[trigger] regions[k])@.not_inverted()
        && (leds_fit(m, leds, indent) ==> regions[k]@.has_pixels()) && (size <= m.width && size
        <= m.height ==> within_display(m, regions[k]@)) by {
        lemma_monitor_rect_shape(m, leds, indent, size, k);
        if size <= m.width && size <= m.height {
            lemma_monitor_rect_within_display(m, leds, indent, size, k);
        }
    }
}

/// The sampling rectangles of one display in wiring order, or the fault of its
/// layout.
///
/// A layout without a fault may still have a side with more LEDs than pixels,
/// whose rectangles are then partly empty, or strips thicker than the display,
/// which then leave it: the contract says when neither happens.
pub fn monitor_regions(
    monitor: &MonitorRes,
    leds: &EdgeLeds,
    indent: &EdgeIndent,
    size: i32,
) -> (r: Result<Vec<SamplingRectangle>, Fault>)
    ensures
        r is Ok <==> monitor_fault(*monitor, *leds, *indent, size as int) is None,
        r is Ok ==> regions_of_monitor(r->Ok_0@, *monitor, *leds, *indent, size as int),
        r is Ok ==> regions_shaped(r->Ok_0@, *monitor, *leds, *indent, size as int),
        r is Err ==> monitor_fault(*monitor, *leds, *indent, size as int) == Some(r->Err_0),
{
    if size <= 0 {
        return Err(Fault::Thickness);
    }
    let left = match side_boundaries(Edge::Left, monitor, leds, indent) {
        Ok(b) => b,
        Err(f) => {
            return Err(Fault::Side(Edge::Left, f));
        },
    };
    let up = match side_boundaries(Edge::Up, monitor, leds, indent) {
        Ok(b) => b,
        Err(f) => {
            return Err(Fault::Side(Edge::Up, f));
        },
    };
    let right = match side_boundaries(Edge::Right, monitor, leds, indent) {
        Ok(b) => b,
        Err(f) => {
            return Err(Fault::Side(Edge::Right, f));
        },
    };
    let down = match side_boundaries(Edge::Down, monitor, leds, indent) {
        Ok(b) => b,
        Err(f) => {
            return Err(Fault::Side(Edge::Down, f));
        },
    };
    let mut v: Vec<SamplingRectangle> = Vec::new();
    push_side(Edge::Left, monitor, leds, indent, size, &left, &mut v);
    push_side(Edge::Up, monitor, leds, indent, size, &up, &mut v);
    push_side(Edge::Right, monitor, leds, indent, size, &right, &mut v);
    push_side(Edge::Down, monitor, leds, indent, size, &down, &mut v);
    proof {
        lemma_regions_shaped(v@, *monitor, *leds, *indent, size as int);
    }
    Ok(v)
}

/// The fault of display `i` in a layout, if it has one. A missing entry is
/// looked at first.
pub open spec fn layout_fault(
    monitors: Seq<MonitorRes>,
    led: &Led,
    indent: &Indent,
    size: int,
    i: int,
) -> Option<Fault> {
    if !led.covers(i) || !indent.covers(i) {
        Some(Fault::MissingEntry)
    } else {
        monitor_fault(monitors[i], led.at(i), indent.at(i), size)
    }
}

/// The sampling rectangles of every display, one list per display in the order
/// of `monitors`, each list in wiring order.
///
/// Fails on the first display whose layout has a fault, and names both.
pub fn calculate_regions(
    monitors: &Vec<MonitorRes>,
    led: &Led,
    indent: &Indent,
    size: i32,
) -> (r: Result<Vec<Vec<SamplingRectangle>>, ConfigurationError>)
    ensures
        r is Ok <==> forall|i: int|
            0 <= i < monitors@.len() ==> layout_fault(monitors@, led, indent, size as int, i)
                is None,
        r is Ok ==> r->Ok_0@.len() == monitors@.len(),
        r is Ok ==> forall|i: int|
            0 <= i < monitors@.len() ==> regions_of_monitor(
                (#[trigger] r->Ok_0@[i])@,
                monitors@[i],
                led.at(i),
                indent.at(i),
                size as int,
            ),
        r is Ok ==> forall|i: int|
            0 <= i < monitors@.len() ==> regions_shaped(
                (#[trigger] r->Ok_0@[i])@,
                monitors@[i],
                led.at(i),
                indent.at(i),
                size as int,
            ),
        r is Err ==> r->Err_0.monitor < monitors@.len(),
        r is Err ==> layout_fault(monitors@, led, indent, size as int, r->Err_0.monitor as int)
            == Some(r->Err_0.fault),
        r is Err ==> forall|j: int|
            0 <= j < r->Err_0.monitor ==> layout_fault(monitors@, led, indent, size as int, j)
                is None,
{
    let mut regions_list: Vec<Vec<SamplingRectangle>> = Vec::new();
    let mut i: usize = 0;
    while i < monitors.len()
        invariant
            0 <= i <= monitors@.len(),
            regions_list@.len() == i,
            forall|j: int|
                0 <= j < i ==> layout_fault(monitors@, led, indent, size as int, j) is None,
            forall|j: int|
                0 <= j < i ==> regions_of_monitor(
                    (#[trigger] regions_list@[j])@,
                    monitors@[j],
                    led.at(j),
                    indent.at(j),
                    size as int,
                ),
            forall|j: int|
                0 <= j < i ==> regions_shaped(
                    (#[trigger] regions_list@[j])@,
                    monitors@[j],
                    led.at(j),
                    indent.at(j),
                    size as int,
                ),
        decreases monitors@.len() - i,
    {
        let leds = match led.get(i) {
            Some(l) => l,
            None => {
                return Err(ConfigurationError { monitor: i, fault: Fault::MissingEntry });
            },
        };
        let indents = match indent.get(i) {
            Some(d) => d,
            None => {
                return Err(ConfigurationError { monitor: i, fault: Fault::MissingEntry });
            },
        };
        match monitor_regions(&monitors[i], &leds, &indents, size) {
            Ok(monitor_regions) => {
                regions_list.push(monitor_regions);
            },
            Err(fault) => {
                return Err(ConfigurationError { monitor: i, fault });
            },
        }
        i = i + 1;
    }
    Ok(regions_list)
}

} // verus!
