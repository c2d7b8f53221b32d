//! A captured frame and the exact mean colour of a rectangle of it.
//!
//! A frame holds its pixels row by row, three bytes for each pixel in the order
//! blue, green, red, as capture devices deliver them.

use crate::color::{ColorSample, RegionMean};
use crate::geometry::{Rect, SamplingRectangle};
use vstd::prelude::*;

verus! {

/// One of the three channels of a colour.
#[derive(Clone, Copy, Debug, PartialEq, Eq, Structural)]
pub enum Channel {
    Red,
    Green,
    Blue,
}

/// The value of one channel of a colour.
pub open spec fn channel_of(color: ColorSample, channel: Channel) -> int {
    match channel {
        Channel::Red => color.r as int,
        Channel::Green => color.g as int,
        Channel::Blue => color.b as int,
    }
}

/// Number of pixels of a rectangle that is not inverted.
pub open spec fn area(rect: Rect) -> int {
    (rect.x2 - rect.x1) * (rect.y2 - rect.y1)
}

/// A raster of `columns() * rows()` pixels.
#[derive(Debug)]
pub struct Frame {
    width: usize,
    height: usize,
    data: Vec<u8>,
}

impl Frame {
    #[verifier::type_invariant]
    spec fn sized(self) -> bool {
        self.data@.len() == 3 * (self.width * self.height)
    }

    /// Number of pixels in a row.
    pub closed spec fn columns(self) -> int {
        self.width as int
    }

    /// Number of rows.
    pub closed spec fn rows(self) -> int {
        self.height as int
    }

    /// The bytes of the frame as they were captured.
    pub closed spec fn bytes(self) -> Seq<u8> {
        self.data@
    }

    /// The colour of the pixel in column `x` of row `y`.
    pub open spec fn pixel(self, x: int, y: int) -> ColorSample {
        let at = 3 * (y * self.columns() + x);
        ColorSample { r: self.bytes()[at + 2], g: self.bytes()[at + 1], b: self.bytes()[at] }
    }

    /// The rectangle holds at least one pixel, and all its pixels are pixels of
    /// the frame.
    pub open spec fn holds(self, rect: Rect) -> bool {
        &&& rect.has_pixels()
        &&& 0 <= rect.x1 && rect.x2 <= self.columns()
        &&& 0 <= rect.y1 && rect.y2 <= self.rows()
    }

    /// Sum of a channel over the pixels `x1..x2` of row `y`.
    pub open spec fn row_sum(self, y: int, x1: int, x2: int, channel: Channel) -> int
        decreases x2 - x1,
    {
        if x2 <= x1 {
            0
        } else {
            self.row_sum(y, x1, x2 - 1, channel) + channel_of(self.pixel(x2 - 1, y), channel)
        }
    }

    /// Sum of a channel over the pixels `x1..x2` of the rows `y1..y2`.
    pub open spec fn rows_sum(self, y1: int, y2: int, x1: int, x2: int, channel: Channel) -> int
        decreases y2 - y1,
    {
        if y2 <= y1 {
            0
        } else {
            self.rows_sum(y1, y2 - 1, x1, x2, channel) + self.row_sum(y2 - 1, x1, x2, channel)
        }
    }

    /// Sum of a channel over every pixel of a rectangle.
    pub open spec fn rect_sum(self, rect: Rect, channel: Channel) -> int {
        self.rows_sum(rect.y1, rect.y2, rect.x1, rect.x2, channel)
    }

    /// Every pixel of the rectangle has the colour `color`.
    pub open spec fn uniform(self, rect: Rect, color: ColorSample) -> bool {
        forall|x: int, y: int|
            rect.x1 <= x < rect.x2 && rect.y1 <= y < rect.y2 ==> #[trigger] self.pixel(x, y)
                == color
    }

    /// A stretch of a row in one colour adds up to that colour times its length.
    pub proof fn lemma_uniform_row(
        self,
        y: int,
        x1: int,
        x2: int,
        color: ColorSample,
        channel: Channel,
    )
        requires
            x1 <= x2,
            forall|x: int| x1 <= x < x2 ==> #[trigger] self.pixel(x, y) == color,
        ensures
            self.row_sum(y, x1, x2, channel) == channel_of(color, channel) * (x2 - x1),
        decreases x2 - x1,
    {
        if x1 < x2 {
            self.lemma_uniform_row(y, x1, x2 - 1, color, channel);
            assert(self.pixel(x2 - 1, y) == color);
            assert(channel_of(color, channel) * (x2 - 1 - x1) + channel_of(color, channel)
                == channel_of(color, channel) * (x2 - x1)) by (nonlinear_arith);
        } else {
            assert(channel_of(color, channel) * 0 == 0);
        }
    }

    /// A rectangle in one colour adds up to that colour times its area.
    pub proof fn lemma_uniform_rect(self, rect: Rect, color: ColorSample, channel: Channel)
        requires
            rect.x1 <= rect.x2,
            rect.y1 <= rect.y2,
            self.uniform(rect, color),
        ensures
            self.rect_sum(rect, channel) == channel_of(color, channel) * area(rect),
        decreases rect.y2 - rect.y1,
    {
        let value = channel_of(color, channel);
        let across = rect.x2 - rect.x1;
        if rect.y1 < rect.y2 {
            let above = Rect { y2: rect.y2 - 1, ..rect };
            self.lemma_uniform_rect(above, color, channel);
            assert forall|x: int| rect.x1 <= x < rect.x2 implies #[trigger] self.pixel(
                x,
                rect.y2 - 1,
            ) == color by {}
            self.lemma_uniform_row(rect.y2 - 1, rect.x1, rect.x2, color, channel);
            assert(value * (across * (rect.y2 - 1 - rect.y1)) + value * across == value * (across
                * (rect.y2 - rect.y1))) by (nonlinear_arith);
        } else {
            assert(value * (across * 0) == 0) by (nonlinear_arith);
        }
    }

    /// The frame of `width * height` pixels whose bytes are `data`, three for
    /// each pixel in the order blue, green, red, row after row. There is none
    /// if `data` has another length than `3 * width * height`.
    pub fn from_bgr(width: usize, height: usize, data: Vec<u8>) -> (r: Option<Frame>)
        ensures
            r is Some <==> data@.len() == 3 * (width * height),
            r is Some ==> r->0.columns() == width,
            r is Some ==> r->0.rows() == height,
            r is Some ==> r->0.bytes() == data@,
    {
        let len = data.len();
        let pixels = match width.checked_mul(height) {
            Some(p) => p,
            None => {
                return None;
            },
        };
        let bytes = match pixels.checked_mul(3) {
            Some(b) => b,
            None => {
                return None;
            },
        };
        if len == bytes {
            Some(Frame { width, height, data })
        } else {
            None
        }
    }

    /// Number of pixels in a row.
    pub fn width(&self) -> (r: usize)
        ensures
            r == self.columns(),
    {
        self.width
    }

    /// Number of rows.
    pub fn height(&self) -> (r: usize)
        ensures
            r == self.rows(),
    {
        self.height
    }

    /// The colour of the pixel in column `x` of row `y`, if the frame has such a
    /// pixel.
    pub fn pixel_at(&self, x: usize, y: usize) -> (r: Option<ColorSample>)
        ensures
            r is Some <==> x < self.columns() && y < self.rows(),
            r is Some ==> r->0 == self.pixel(x as int, y as int),
    {
        if x < self.width && y < self.height {
            proof {
                use_type_invariant(self);
                lemma_row_fits(y as int, self.width as int, self.height as int);
                assert(self.data@.len() == self.data.len());
            }
            let at: usize = 3 * (y * self.width + x);
            Some(ColorSample { r: self.data[at + 2], g: self.data[at + 1], b: self.data[at] })
        } else {
            None
        }
    }

    /// Whether the rectangle holds at least one pixel and lies in the frame.
    pub fn contains(&self, region: &SamplingRectangle) -> (r: bool)
        ensures
            r == self.holds(region@),
    {
        0 <= region.x1 && region.x1 < region.x2 && region.x2 as usize <= self.width && 0
            <= region.y1 && region.y1 < region.y2 && region.y2 as usize <= self.height
    }

    /// The three channel sums of the pixels `x1..x2` of row `y`, in the order
    /// red, green, blue.
    fn sum_row(&self, y: usize, x1: usize, x2: usize) -> (r: (u64, u64, u64))
        requires
            y < self.rows(),
            x1 <= x2 <= self.columns(),
            x2 <= i32::MAX,
        ensures
            r.0 == self.row_sum(y as int, x1 as int, x2 as int, Channel::Red),
            r.1 == self.row_sum(y as int, x1 as int, x2 as int, Channel::Green),
            r.2 == self.row_sum(y as int, x1 as int, x2 as int, Channel::Blue),
            r.0 <= 255 * (x2 - x1),
            r.1 <= 255 * (x2 - x1),
            r.2 <= 255 * (x2 - x1),
    {
        proof {
            use_type_invariant(self);
            lemma_row_fits(y as int, self.width as int, self.height as int);
            assert(self.data@.len() == self.data.len());
        }
        let start: usize = y * self.width;
        let mut red: u64 = 0;
        let mut green: u64 = 0;
        let mut blue: u64 = 0;
        let mut x: usize = x1;
        while x < x2
            invariant
                x1 <= x <= x2 <= self.width,
                x2 <= i32::MAX,
                start == y * self.width,
                start + self.width <= self.width * self.height,
                self.data@.len() == 3 * (self.width * self.height),
                self.data@.len() <= usize::MAX,
                red == self.row_sum(y as int, x1 as int, x as int, Channel::Red),
                green == self.row_sum(y as int, x1 as int, x as int, Channel::Green),
                blue == self.row_sum(y as int, x1 as int, x as int, Channel::Blue),
                red <= 255 * (x - x1),
                green <= 255 * (x - x1),
                blue <= 255 * (x - x1),
            decreases x2 - x,
        {
            let at: usize = 3 * (start + x);
            blue = blue + self.data[at] as u64;
            green = green + self.data[at + 1] as u64;
            red = red + self.data[at + 2] as u64;
            x = x + 1;
        }
        (red, green, blue)
    }

    /// The exact mean colour of a rectangle of the frame, if the rectangle holds
    /// at least one pixel and lies in the frame.
    pub fn region_mean(&self, region: &SamplingRectangle) -> (r: Option<RegionMean>)
        ensures
            r is Some <==> self.holds(region@),
            r is Some ==> r->0.red_sum() == self.rect_sum(region@, Channel::Red),
            r is Some ==> r->0.green_sum() == self.rect_sum(region@, Channel::Green),
            r is Some ==> r->0.blue_sum() == self.rect_sum(region@, Channel::Blue),
            r is Some ==> r->0.count() == area(region@),
    {
        if !self.contains(region) {
            return None;
        }
        let x1 = region.x1 as usize;
        let x2 = region.x2 as usize;
        let y1 = region.y1 as usize;
        let y2 = region.y2 as usize;
        let across: u64 = (x2 - x1) as u64;
        let mut red: u128 = 0;
        let mut green: u128 = 0;
        let mut blue: u128 = 0;
        let mut pixels: u64 = 0;
        let mut y: usize = y1;
        while y < y2
            invariant
                y1 <= y <= y2 <= self.rows(),
                x1 < x2 <= self.columns(),
                x2 <= i32::MAX,
                y2 <= i32::MAX,
                across == x2 - x1,
                pixels == across * (y - y1),
                red == self.rows_sum(y1 as int, y as int, x1 as int, x2 as int, Channel::Red),
                green == self.rows_sum(y1 as int, y as int, x1 as int, x2 as int, Channel::Green),
                blue == self.rows_sum(y1 as int, y as int, x1 as int, x2 as int, Channel::Blue),
                red <= 255 * pixels,
                green <= 255 * pixels,
                blue <= 255 * pixels,
            decreases y2 - y,
        {
            let row = self.sum_row(y, x1, x2);
            proof {
                assert(across * (y + 1 - y1) == across * (y - y1) + across) by (nonlinear_arith);
                assert(across * (y + 1 - y1) <= 0x7fff_ffff * 0x7fff_ffff) by (nonlinear_arith)
                    requires
                        0 <= across <= 0x7fff_ffff,
                        0 <= y + 1 - y1 <= 0x7fff_ffff,
                ;
            }
            red = red + row.0 as u128;
            green = green + row.1 as u128;
            blue = blue + row.2 as u128;
            pixels = pixels + across;
            y = y + 1;
        }
        proof {
            assert(0 < across * (y2 - y1)) by (nonlinear_arith)
                requires
                    0 < across,
                    0 < y2 - y1,
            ;
        }
        RegionMean::new(red, green, blue, pixels)
    }
}

/// Row `y` of a frame lies within the frame's pixels.
proof fn lemma_row_fits(y: int, width: int, height: int)
    requires
        0 <= y < height,
        0 <= width,
    ensures
        0 <= y * width,
        y * width + width <= width * height,
{
    assert(0 <= y * width && y * width + width <= width * height) by (nonlinear_arith)
        requires
            0 <= y < height,
            0 <= width,
    ;
}

} // verus!
