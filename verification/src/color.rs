//! Colours: the exact mean of a set of pixels, its scaling by a brightness, and
//! the blending of two consecutive outputs.

use crate::rounding::{lemma_round_div_exact, lemma_round_div_monotonic, round_div};
use vstd::prelude::*;

verus! {

/// One colour for one LED.
#[derive(Clone, Copy, Debug, PartialEq, Eq, Structural)]
pub struct ColorSample {
    pub r: u8,
    pub g: u8,
    pub b: u8,
}

/// The colour of an LED that is off.
pub open spec fn black() -> ColorSample {
    ColorSample { r: 0, g: 0, b: 0 }
}

/// The mean of two channel values, cut down to a whole number.
pub open spec fn blend_channel(a: u8, b: u8) -> u8 {
    ((a + b) / 2) as u8
}

/// The channel-wise mean of two colours, each cut down to a whole number.
pub open spec fn blend(a: ColorSample, b: ColorSample) -> ColorSample {
    ColorSample {
        r: blend_channel(a.r, b.r),
        g: blend_channel(a.g, b.g),
        b: blend_channel(a.b, b.b),
    }
}

/// Blends two colours channel by channel: `(a + b) / 2`, cut down to a whole
/// number.
pub fn average_rgb(rgb1: ColorSample, rgb2: ColorSample) -> (r: ColorSample)
    ensures
        r == blend(rgb1, rgb2),
        r.r == (rgb1.r + rgb2.r) / 2,
        r.g == (rgb1.g + rgb2.g) / 2,
        r.b == (rgb1.b + rgb2.b) / 2,
{
    ColorSample {
        r: ((rgb1.r as u16 + rgb2.r as u16) / 2) as u8,
        g: ((rgb1.g as u16 + rgb2.g as u16) / 2) as u8,
        b: ((rgb1.b as u16 + rgb2.b as u16) / 2) as u8,
    }
}

/// A colour blended with itself is that colour.
pub proof fn lemma_blend_idempotent(c: ColorSample)
    ensures
        blend(c, c) == c,
{
}

/// A blend lies between the two colours it is made of.
pub proof fn lemma_blend_between(a: u8, b: u8)
    ensures
        a <= b ==> a <= blend_channel(a, b) <= b,
        b <= a ==> b <= blend_channel(a, b) <= a,
{
}

/// Under a constant signal one blend arrives at the signal exactly when the
/// output before it was at the signal or one above it, and two blends in a row
/// arrive there exactly when it was at the signal or up to three above it.
/// From anywhere else, and so from black under any signal but black, the
/// signal is not reached that soon.
pub proof fn lemma_blend_settles(previous: u8, target: u8)
    ensures
        blend_channel(previous, target) == target <==> target <= previous <= target + 1,
        blend_channel(blend_channel(previous, target), target) == target <==> target <= previous
            <= target + 3,
{
}

/// Every channel of `previous` is at the channel of `signal` or up to three
/// above it.
pub open spec fn close_above(previous: ColorSample, signal: ColorSample) -> bool {
    &&& signal.r <= previous.r <= signal.r + 3
    &&& signal.g <= previous.g <= signal.g + 3
    &&& signal.b <= previous.b <= signal.b + 3
}

/// Under a constant signal the smoothed output is the signal after two ticks,
/// if the output before them was close above the signal.
pub proof fn lemma_constant_signal_settles(previous: ColorSample, signal: ColorSample)
    requires
        close_above(previous, signal),
    ensures
        blend(blend(previous, signal), signal) == signal,
{
    lemma_blend_settles(previous.r, signal.r);
    lemma_blend_settles(previous.g, signal.g);
    lemma_blend_settles(previous.b, signal.b);
}

/// Each blend with a constant signal halves the distance to it and never
/// crosses it. From below the signal half a step is rounded away from it, from
/// above towards it.
pub proof fn lemma_blend_approaches(previous: u8, target: u8)
    ensures
        previous <= target ==> target - blend_channel(previous, target) == (target - previous + 1)
            / 2,
        previous >= target ==> blend_channel(previous, target) - target == (previous - target) / 2,
{
}

/// Under a constant signal the output stays where it is exactly when it is at
/// the signal or one below it: coming from below, smoothing stops one short.
pub proof fn lemma_blend_rests(output: u8, target: u8)
    ensures
        blend_channel(output, target) == output <==> output <= target <= output + 1,
{
}

/// A multiplier for colours: the ratio of two whole numbers, the second one
/// positive.
#[derive(Clone, Copy, Debug)]
pub struct Brightness {
    numerator: u32,
    denominator: u32,
}

impl Brightness {
    #[verifier::type_invariant]
    spec fn positive_denominator(self) -> bool {
        self.denominator > 0
    }

    /// The number above the line.
    pub closed spec fn num(self) -> int {
        self.numerator as int
    }

    /// The number below the line.
    pub closed spec fn den(self) -> int {
        self.denominator as int
    }

    /// The brightness `numerator / denominator`, unless the denominator is 0.
    pub fn new(numerator: u32, denominator: u32) -> (r: Option<Brightness>)
        ensures
            r is Some <==> denominator > 0,
            r is Some ==> r->0.num() == numerator,
            r is Some ==> r->0.den() == denominator,
    {
        if denominator > 0 {
            Some(Brightness { numerator, denominator })
        } else {
            None
        }
    }

    /// The brightness that leaves every colour as it is.
    pub fn full() -> (r: Brightness)
        ensures
            r.num() == 1,
            r.den() == 1,
    {
        Brightness { numerator: 1, denominator: 1 }
    }

    /// The number above the line.
    pub fn numerator(&self) -> (r: u32)
        ensures
            r == self.num(),
    {
        self.numerator
    }

    /// The number below the line, which is never 0.
    pub fn denominator(&self) -> (r: u32)
        ensures
            r == self.den(),
            r > 0,
    {
        proof {
            use_type_invariant(self);
        }
        self.denominator
    }
}

/// The exact mean colour of a set of pixels: the sum of each channel and the
/// number of pixels, which is not 0. No sum is more than 255 times the number
/// of pixels.
#[derive(Clone, Copy, Debug)]
pub struct RegionMean {
    red: u128,
    green: u128,
    blue: u128,
    pixels: u64,
}

impl RegionMean {
    #[verifier::type_invariant]
    spec fn sums_in_range(self) -> bool {
        &&& self.pixels > 0
        &&& self.red <= 255 * self.pixels
        &&& self.green <= 255 * self.pixels
        &&& self.blue <= 255 * self.pixels
    }

    /// Sum of the red channel over the pixels.
    pub closed spec fn red_sum(self) -> int {
        self.red as int
    }

    /// Sum of the green channel over the pixels.
    pub closed spec fn green_sum(self) -> int {
        self.green as int
    }

    /// Sum of the blue channel over the pixels.
    pub closed spec fn blue_sum(self) -> int {
        self.blue as int
    }

    /// Number of pixels.
    pub closed spec fn count(self) -> int {
        self.pixels as int
    }

    /// Sum of the red channel over the pixels.
    pub fn red(&self) -> (r: u128)
        ensures
            r == self.red_sum(),
    {
        self.red
    }

    /// Sum of the green channel over the pixels.
    pub fn green(&self) -> (r: u128)
        ensures
            r == self.green_sum(),
    {
        self.green
    }

    /// Sum of the blue channel over the pixels.
    pub fn blue(&self) -> (r: u128)
        ensures
            r == self.blue_sum(),
    {
        self.blue
    }

    /// Number of pixels, which is never 0.
    pub fn pixels(&self) -> (r: u64)
        ensures
            r == self.count(),
            r > 0,
    {
        proof {
            use_type_invariant(self);
        }
        self.pixels
    }

    /// The sums are those of `count` pixels.
    pub open spec fn in_range(red: int, green: int, blue: int, count: int) -> bool {
        &&& 0 < count
        &&& 0 <= red <= 255 * count
        &&& 0 <= green <= 255 * count
        &&& 0 <= blue <= 255 * count
    }

    /// The mean of `pixels` pixels whose channels add up to `red`, `green` and
    /// `blue`, if there can be such pixels.
    pub fn new(red: u128, green: u128, blue: u128, pixels: u64) -> (r: Option<RegionMean>)
        ensures
            r is Some <==> Self::in_range(red as int, green as int, blue as int, pixels as int),
            r is Some ==> r->0.red_sum() == red,
            r is Some ==> r->0.green_sum() == green,
            r is Some ==> r->0.blue_sum() == blue,
            r is Some ==> r->0.count() == pixels,
    {
        let limit: u128 = 255 * (pixels as u128);
        if pixels > 0 && red <= limit && green <= limit && blue <= limit {
            Some(RegionMean { red, green, blue, pixels })
        } else {
            None
        }
    }
}

/// A channel's mean `sum / pixels` times the brightness `num / den`, rounded to
/// the nearest whole number, a tie going up, and capped at 255.
pub open spec fn scaled_channel(sum: int, pixels: int, num: int, den: int) -> int {
    let scaled = round_div(sum * num, pixels * den);
    if scaled >= 255 {
        255
    } else {
        scaled
    }
}

/// The colour of a mean under a brightness.
pub open spec fn scaled_color(mean: RegionMean, brightness: Brightness) -> ColorSample {
    ColorSample {
        r: scaled_channel(mean.red_sum(), mean.count(), brightness.num(), brightness.den()) as u8,
        g: scaled_channel(mean.green_sum(), mean.count(), brightness.num(), brightness.den()) as u8,
        b: scaled_channel(mean.blue_sum(), mean.count(), brightness.num(), brightness.den()) as u8,
    }
}

/// A scaled channel is a channel value.
pub proof fn lemma_scaled_channel_range(sum: int, pixels: int, num: int, den: int)
    requires
        0 <= sum,
        0 < pixels,
        0 <= num,
        0 < den,
    ensures
        0 <= scaled_channel(sum, pixels, num, den) <= 255,
{
    assert(0 <= sum * num) by (nonlinear_arith)
        requires
            0 <= sum,
            0 <= num,
    ;
    assert(0 < pixels * den) by (nonlinear_arith)
        requires
            0 < pixels,
            0 < den,
    ;
    lemma_round_div_exact(0, pixels * den);
    assert(0 * (pixels * den) == 0);
    lemma_round_div_monotonic(0, sum * num, pixels * den);
}

/// Pixels that all have the value `value` in a channel keep it under a
/// brightness of one.
pub proof fn lemma_scaled_channel_constant(value: int, pixels: int, den: int)
    requires
        0 <= value <= 255,
        0 < pixels,
        0 < den,
    ensures
        scaled_channel(value * pixels, pixels, den, den) == value,
{
    assert(0 < pixels * den) by (nonlinear_arith)
        requires
            0 < pixels,
            0 < den,
    ;
    assert((value * pixels) * den == value * (pixels * den)) by (nonlinear_arith);
    lemma_round_div_exact(value, pixels * den);
}

fn scale_channel(sum: u128, pixels: u64, brightness: &Brightness) -> (r: u8)
    requires
        0 < pixels,
        sum <= 255 * pixels,
    ensures
        r == scaled_channel(sum as int, pixels as int, brightness.num(), brightness.den()),
{
    let num = brightness.numerator();
    let den = brightness.denominator();
    proof {
        assert(sum * num <= (255 * 0xffff_ffff_ffff_ffff) * 0xffff_ffff) by (nonlinear_arith)
            requires
                0 <= sum <= 255 * 0xffff_ffff_ffff_ffff,
                0 <= num <= 0xffff_ffff,
        ;
        assert(0 < pixels * den <= 0xffff_ffff_ffff_ffff * 0xffff_ffff) by (nonlinear_arith)
            requires
                0 < pixels <= 0xffff_ffff_ffff_ffff,
                0 < den <= 0xffff_ffff,
        ;
    }
    let scaled_sum: u128 = sum * (num as u128);
    let weight: u128 = (pixels as u128) * (den as u128);
    let rounded: u128 = (scaled_sum + weight / 2) / weight;
    if rounded >= 255 {
        255
    } else {
        rounded as u8
    }
}

/// Scales a mean colour by the brightness and rounds each channel to the
/// nearest value that an LED can show.
pub fn round_rgb(mean: &RegionMean, brightness: &Brightness) -> (r: ColorSample)
    ensures
        r == scaled_color(*mean, *brightness),
{
    proof {
        use_type_invariant(mean);
        use_type_invariant(brightness);
        lemma_scaled_channel_range(
            mean.red_sum(),
            mean.count(),
            brightness.num(),
            brightness.den(),
        );
        lemma_scaled_channel_range(
            mean.green_sum(),
            mean.count(),
            brightness.num(),
            brightness.den(),
        );
        lemma_scaled_channel_range(
            mean.blue_sum(),
            mean.count(),
            brightness.num(),
            brightness.den(),
        );
    }
    ColorSample {
        r: scale_channel(mean.red, mean.pixels, brightness),
        g: scale_channel(mean.green, mean.pixels, brightness),
        b: scale_channel(mean.blue, mean.pixels, brightness),
    }
}

} // verus!
