use ambiway::color::ColorSample;
use ambiway::frame::Frame;
use ambiway::geometry::SamplingRectangle;

fn rect(x1: i32, y1: i32, x2: i32, y2: i32) -> SamplingRectangle {
    SamplingRectangle { x1, y1, x2, y2 }
}

/// A frame of 3 columns and 2 rows whose pixel in column x of row y is
/// (r, g, b) = (10 * (3 * y + x) + 1, + 2, + 3).
fn small() -> Frame {
    let mut data = Vec::new();
    for p in 0..6u8 {
        data.push(10 * p + 3);
        data.push(10 * p + 2);
        data.push(10 * p + 1);
    }
    Frame::from_bgr(3, 2, data).unwrap()
}

#[test]
fn frame_needs_three_bytes_for_each_pixel() {
    assert!(Frame::from_bgr(2, 2, vec![0; 12]).is_some());
    assert!(Frame::from_bgr(2, 2, vec![0; 11]).is_none());
    assert!(Frame::from_bgr(2, 2, vec![0; 13]).is_none());
    assert!(Frame::from_bgr(0, 5, vec![]).is_some());
    assert!(Frame::from_bgr(0, 5, vec![0; 3]).is_none());
    assert!(Frame::from_bgr(usize::MAX, usize::MAX, vec![0; 3]).is_none());
    assert!(Frame::from_bgr(usize::MAX, 1, vec![]).is_none());
}

#[test]
fn frame_keeps_its_size() {
    let f = small();
    assert_eq!((f.width(), f.height()), (3, 2));
}

#[test]
fn bytes_of_a_pixel_are_blue_green_red() {
    let f = Frame::from_bgr(1, 1, vec![1, 2, 3]).unwrap();
    assert_eq!(f.pixel_at(0, 0), Some(ColorSample { r: 3, g: 2, b: 1 }));
}

#[test]
fn pixels_are_stored_row_after_row() {
    let f = small();
    assert_eq!(f.pixel_at(0, 0), Some(ColorSample { r: 1, g: 2, b: 3 }));
    assert_eq!(f.pixel_at(2, 0), Some(ColorSample { r: 21, g: 22, b: 23 }));
    assert_eq!(f.pixel_at(0, 1), Some(ColorSample { r: 31, g: 32, b: 33 }));
    assert_eq!(f.pixel_at(2, 1), Some(ColorSample { r: 51, g: 52, b: 53 }));
    assert_eq!(f.pixel_at(3, 0), None);
    assert_eq!(f.pixel_at(0, 2), None);
}

#[test]
fn mean_adds_up_every_pixel_of_the_rectangle() {
    let f = small();
    let all = f.region_mean(&rect(0, 0, 3, 2)).unwrap();
    assert_eq!((all.red(), all.green(), all.blue(), all.pixels()), (156, 162, 168, 6));
    let right = f.region_mean(&rect(1, 0, 3, 2)).unwrap();
    assert_eq!((right.red(), right.green(), right.blue(), right.pixels()), (124, 128, 132, 4));
    let one = f.region_mean(&rect(1, 1, 2, 2)).unwrap();
    assert_eq!((one.red(), one.green(), one.blue(), one.pixels()), (41, 42, 43, 1));
    let row = f.region_mean(&rect(0, 1, 3, 2)).unwrap();
    assert_eq!((row.red(), row.green(), row.blue(), row.pixels()), (123, 126, 129, 3));
}

#[test]
fn rectangle_must_lie_in_the_frame() {
    let f = small();
    assert!(f.contains(&rect(0, 0, 3, 2)));
    assert!(f.contains(&rect(2, 1, 3, 2)));
    for r in [
        rect(-1, 0, 3, 2),
        rect(0, -1, 3, 2),
        rect(0, 0, 4, 2),
        rect(0, 0, 3, 3),
        rect(i32::MIN, i32::MIN, i32::MAX, i32::MAX),
    ] {
        assert!(!f.contains(&r));
        assert!(f.region_mean(&r).is_none());
    }
}

#[test]
fn rectangle_must_hold_a_pixel() {
    let f = small();
    for r in [rect(1, 0, 1, 2), rect(0, 1, 3, 1), rect(2, 0, 1, 2), rect(0, 2, 3, 0)] {
        assert!(!f.contains(&r));
        assert!(f.region_mean(&r).is_none());
    }
    let empty = Frame::from_bgr(0, 0, vec![]).unwrap();
    assert!(empty.region_mean(&rect(0, 0, 1, 1)).is_none());
    assert!(empty.region_mean(&rect(0, 0, 0, 0)).is_none());
}
