use ambiway::color::{average_rgb, round_rgb, Brightness, ColorSample, RegionMean};

fn rgb(r: u8, g: u8, b: u8) -> ColorSample {
    ColorSample { r, g, b }
}

fn scaled(red: u128, green: u128, blue: u128, pixels: u64, num: u32, den: u32) -> ColorSample {
    let mean = RegionMean::new(red, green, blue, pixels).unwrap();
    round_rgb(&mean, &Brightness::new(num, den).unwrap())
}

#[test]
fn blend_is_the_mean_of_each_channel() {
    assert_eq!(average_rgb(rgb(100, 0, 0), rgb(200, 0, 0)), rgb(150, 0, 0));
    assert_eq!(average_rgb(rgb(10, 20, 30), rgb(30, 40, 50)), rgb(20, 30, 40));
    assert_eq!(average_rgb(rgb(255, 255, 255), rgb(255, 255, 255)), rgb(255, 255, 255));
}

#[test]
fn blend_cuts_a_half_off() {
    assert_eq!(average_rgb(rgb(1, 0, 255), rgb(2, 1, 254)), rgb(1, 0, 254));
    assert_eq!(average_rgb(rgb(0, 0, 0), rgb(255, 1, 3)), rgb(127, 0, 1));
}

#[test]
fn blend_with_itself_changes_nothing() {
    for v in [0u8, 1, 2, 127, 128, 254, 255] {
        let c = rgb(v, 255 - v, v / 2);
        assert_eq!(average_rgb(c, c), c);
    }
}

#[test]
fn constant_signal_from_black_stops_one_short() {
    let target = rgb(255, 200, 1);
    let mut out = rgb(0, 0, 0);
    let mut reds = Vec::new();
    for _ in 0..10 {
        out = average_rgb(out, target);
        reds.push(out.r);
    }
    assert_eq!(reds, vec![127, 191, 223, 239, 247, 251, 253, 254, 254, 254]);
    assert_eq!(out, rgb(254, 199, 0));
}

#[test]
fn constant_signal_is_reached_in_two_ticks_from_just_above() {
    for target in [0u8, 1, 100, 200, 251] {
        for above in 0..=3u8 {
            let t = rgb(target, target, target);
            let p = rgb(target + above, target, target + above);
            assert_eq!(average_rgb(average_rgb(p, t), t), t);
        }
        let t = rgb(target, target, target);
        let far = rgb(target + 4, target, target);
        assert_ne!(average_rgb(average_rgb(far, t), t), t);
    }
    let signal = rgb(200, 0, 0);
    assert_eq!(average_rgb(average_rgb(rgb(0, 0, 0), signal), signal), rgb(150, 0, 0));
}

#[test]
fn brightness_needs_a_denominator() {
    assert!(Brightness::new(1, 0).is_none());
    assert!(Brightness::new(0, 0).is_none());
    let b = Brightness::new(4, 5).unwrap();
    assert_eq!((b.numerator(), b.denominator()), (4, 5));
    let full = Brightness::full();
    assert_eq!((full.numerator(), full.denominator()), (1, 1));
}

#[test]
fn mean_needs_pixels_and_sums_in_range() {
    assert!(RegionMean::new(0, 0, 0, 0).is_none());
    assert!(RegionMean::new(256, 0, 0, 1).is_none());
    assert!(RegionMean::new(0, 511, 0, 2).is_none());
    assert!(RegionMean::new(0, 0, 766, 3).is_none());
    let m = RegionMean::new(255, 510, 0, 2).unwrap();
    assert_eq!((m.red(), m.green(), m.blue(), m.pixels()), (255, 510, 0, 2));
    assert!(RegionMean::new(255 * u64::MAX as u128, 0, 0, u64::MAX).is_some());
}

#[test]
fn full_brightness_keeps_a_whole_mean() {
    assert_eq!(scaled(800, 0, 1020, 4, 1, 1), rgb(200, 0, 255));
    assert_eq!(scaled(800, 0, 1020, 4, 7, 7), rgb(200, 0, 255));
}

#[test]
fn mean_is_rounded_to_the_nearest_value() {
    // 1/3, 2/3 and 1/2
    assert_eq!(scaled(1, 2, 0, 3, 1, 1), rgb(0, 1, 0));
    assert_eq!(scaled(1, 3, 5, 2, 1, 1), rgb(1, 2, 3));
    // 254.5 goes up to 255, 254.49.. goes down
    assert_eq!(scaled(509, 508, 507, 2, 1, 1), rgb(255, 254, 254));
}

#[test]
fn brightness_scales_each_channel() {
    assert_eq!(scaled(200, 100, 51, 1, 1, 2), rgb(100, 50, 26));
    assert_eq!(scaled(200, 100, 50, 1, 4, 5), rgb(160, 80, 40));
    assert_eq!(scaled(200, 100, 50, 1, 0, 1), rgb(0, 0, 0));
    // 10 * 13421773 / 16777216 = 8.0000001..
    assert_eq!(scaled(10, 0, 0, 1, 13_421_773, 16_777_216), rgb(8, 0, 0));
}

#[test]
fn scaled_channel_is_capped_at_255() {
    assert_eq!(scaled(200, 128, 127, 1, 2, 1), rgb(255, 255, 254));
    assert_eq!(scaled(1, 0, 255, 1, u32::MAX, 1), rgb(255, 0, 255));
}

#[test]
fn largest_mean_at_largest_brightness_does_not_overflow() {
    let sum = 255 * u64::MAX as u128;
    assert_eq!(scaled(sum, sum, 0, u64::MAX, u32::MAX, 1), rgb(255, 255, 0));
    assert_eq!(scaled(sum, 0, sum, u64::MAX, 1, u32::MAX), rgb(0, 0, 0));
    assert_eq!(scaled(sum, 0, sum, u64::MAX, u32::MAX, u32::MAX), rgb(255, 0, 255));
}
