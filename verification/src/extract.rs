//! Colour extraction: one colour for each sampling rectangle of a frame.

use crate::color::{
    average_rgb, black, blend, lemma_blend_idempotent, lemma_scaled_channel_constant, round_rgb,
    scaled_channel, Brightness, ColorSample,
};
use crate::frame::{area, Channel, Frame};
use crate::geometry::{Rect, SamplingRectangle};
use vstd::prelude::*;

verus! {

/// A sampling rectangle that is empty or does not lie in the frame: its place
/// in the list of rectangles.
#[derive(Clone, Copy, Debug, PartialEq, Eq, Structural)]
pub struct RegionOutsideFrame {
    pub index: usize,
}

/// The colour that rectangle `i` had on the tick before, black if there is
/// none.
pub open spec fn previous_color(previous: Seq<ColorSample>, i: int) -> ColorSample {
    if 0 <= i < previous.len() {
        previous[i]
    } else {
        black()
    }
}

/// The mean colour of a rectangle of a frame under a brightness, each channel
/// rounded to the nearest whole number and capped at 255.
pub open spec fn raw_color(frame: Frame, rect: Rect, brightness: Brightness) -> ColorSample {
    ColorSample {
        r: scaled_channel(
            frame.rect_sum(rect, Channel::Red),
            area(rect),
            brightness.num(),
            brightness.den(),
        ) as u8,
        g: scaled_channel(
            frame.rect_sum(rect, Channel::Green),
            area(rect),
            brightness.num(),
            brightness.den(),
        ) as u8,
        b: scaled_channel(
            frame.rect_sum(rect, Channel::Blue),
            area(rect),
            brightness.num(),
            brightness.den(),
        ) as u8,
    }
}

/// The colour sent for a rectangle: its raw colour, blended with the previous
/// one where smoothing is on.
pub open spec fn region_color(
    frame: Frame,
    rect: Rect,
    previous: ColorSample,
    brightness: Brightness,
    smooth: bool,
) -> ColorSample {
    if smooth {
        blend(previous, raw_color(frame, rect, brightness))
    } else {
        raw_color(frame, rect, brightness)
    }
}

/// Every rectangle before `end` holds a pixel and lies in the frame.
pub open spec fn regions_inside(frame: Frame, regions: Seq<SamplingRectangle>, end: int) -> bool {
    forall|i: int| 0 <= i < end ==> frame.holds((#[trigger] regions[i])@)
}

/// A rectangle in one colour has that colour at a brightness of one.
pub proof fn lemma_uniform_region_keeps_its_color(
    frame: Frame,
    rect: Rect,
    color: ColorSample,
    brightness: Brightness,
)
    requires
        rect.x1 < rect.x2,
        rect.y1 < rect.y2,
        frame.uniform(rect, color),
        brightness.num() == brightness.den(),
        brightness.den() > 0,
    ensures
        raw_color(frame, rect, brightness) == color,
{
    assert(0 < area(rect)) by (nonlinear_arith)
        requires
            rect.x1 < rect.x2,
            rect.y1 < rect.y2,
    ;
    frame.lemma_uniform_rect(rect, color, Channel::Red);
    frame.lemma_uniform_rect(rect, color, Channel::Green);
    frame.lemma_uniform_rect(rect, color, Channel::Blue);
    lemma_scaled_channel_constant(color.r as int, area(rect), brightness.den());
    lemma_scaled_channel_constant(color.g as int, area(rect), brightness.den());
    lemma_scaled_channel_constant(color.b as int, area(rect), brightness.den());
}

/// With smoothing on, a rectangle whose raw colour equals its previous colour
/// keeps that colour.
pub proof fn lemma_constant_signal_is_kept(
    frame: Frame,
    rect: Rect,
    brightness: Brightness,
)
    ensures
        region_color(frame, rect, raw_color(frame, rect, brightness), brightness, true)
            == raw_color(frame, rect, brightness),
{
    lemma_blend_idempotent(raw_color(frame, rect, brightness));
}

/// The colour of one rectangle of a frame, if the rectangle holds a pixel and
/// lies in the frame.
pub fn extract_region(
    frame: &Frame,
    region: &SamplingRectangle,
    previous: ColorSample,
    brightness: &Brightness,
    smooth: bool,
) -> (r: Option<ColorSample>)
    ensures
        r is Some <==> frame.holds(region@),
        r is Some ==> r->0 == region_color(*frame, region@, previous, *brightness, smooth),
{
    match frame.region_mean(region) {
        Some(mean) => {
            let rounded = round_rgb(&mean, brightness);
            if smooth {
                Some(average_rgb(previous, rounded))
            } else {
                Some(rounded)
            }
        },
        None => None,
    }
}

/// One colour for each rectangle, in the order of the rectangles.
///
/// Without a frame there are no colours: the result is empty. With a frame,
/// each colour is the mean of the rectangle's pixels, scaled by the brightness
/// and rounded; where smoothing is on it is then blended with the colour at the
/// same place in `previous_avg_colors`, or with black where that list has no
/// such place. A rectangle that is empty or leaves the frame fails the whole
/// call, and the first such rectangle is named.
pub fn get_average_colors(
    regions: &Vec<SamplingRectangle>,
    frame: Option<&Frame>,
    previous_avg_colors: &Vec<ColorSample>,
    brightness: &Brightness,
    smooth: bool,
) -> (r: Result<Vec<ColorSample>, RegionOutsideFrame>)
    ensures
        frame is None ==> r is Ok && r->Ok_0@.len() == 0,
        frame is Some ==> (r is Ok <==> regions_inside(*frame->0, regions@, regions@.len() as int)),
        frame is Some && r is Ok ==> r->Ok_0@.len() == regions@.len(),
        frame is Some && r is Ok ==> forall|i: int|
            0 <= i < regions@.len() ==> #[trigger] r->Ok_0@[i] == region_color(
                *frame->0,
                regions@[i]@,
                previous_color(previous_avg_colors@, i),
                *brightness,
                smooth,
            ),
        r is Err ==> frame is Some && r->Err_0.index < regions@.len(),
        r is Err ==> !frame->0.holds(regions@[r->Err_0.index as int]@),
        r is Err ==> regions_inside(*frame->0, regions@, r->Err_0.index as int),
{
    let image = match frame {
        Some(f) => f,
        None => {
            return Ok(Vec::new());
        },
    };
    let mut avg_colors: Vec<ColorSample> = Vec::new();
    let mut i: usize = 0;
    while i < regions.len()
        invariant
            0 <= i <= regions@.len(),
            frame == Some(image),
            avg_colors@.len() == i,
            regions_inside(*image, regions@, i as int),
            forall|j: int|
                0 <= j < i ==> #[trigger] avg_colors@[j] == region_color(
                    *image,
                    regions@[j]@,
                    previous_color(previous_avg_colors@, j),
                    *brightness,
                    smooth,
                ),
        decreases regions@.len() - i,
    {
        let previous = if i < previous_avg_colors.len() {
            previous_avg_colors[i]
        } else {
            ColorSample { r: 0, g: 0, b: 0 }
        };
        match extract_region(image, &regions[i], previous, brightness, smooth) {
            Some(color) => {
                avg_colors.push(color);
            },
            None => {
                return Err(RegionOutsideFrame { index: i });
            },
        }
        i = i + 1;
    }
    Ok(avg_colors)
}

} // verus!
