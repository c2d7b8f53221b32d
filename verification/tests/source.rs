use ambiway::color::ColorSample;
use ambiway::frame::Frame;
use ambiway::source::{FrameSource, ProducerAction};
use std::sync::Arc;

fn rgb(r: u8, g: u8, b: u8) -> ColorSample {
    ColorSample { r, g, b }
}

fn pixel(color: ColorSample) -> Frame {
    Frame::from_bgr(1, 1, vec![color.b, color.g, color.r]).unwrap()
}

#[test]
fn new_source_has_no_frame() {
    let source = FrameSource::new();
    let (frame, published) = source.read_latest();
    assert!(frame.is_none());
    assert_eq!(published, 0);
    assert!(!source.is_closed());
}

#[test]
fn reader_gets_the_frame_that_was_handed_in_last() {
    let mut source = FrameSource::new();
    assert_eq!(source.before_read(), ProducerAction::Read);
    assert_eq!(source.after_read(Some(pixel(rgb(1, 2, 3)))), ProducerAction::Read);
    let (frame, published) = source.read_latest();
    assert_eq!(frame.unwrap().pixel_at(0, 0), Some(rgb(1, 2, 3)));
    assert_eq!(published, 1);
    assert_eq!(source.before_read(), ProducerAction::Read);
    assert_eq!(source.after_read(Some(pixel(rgb(4, 5, 6)))), ProducerAction::Read);
    let (frame, published) = source.read_latest();
    assert_eq!(frame.unwrap().pixel_at(0, 0), Some(rgb(4, 5, 6)));
    assert_eq!(published, 2);
}

#[test]
fn reading_twice_gives_the_same_frame() {
    let mut source = FrameSource::new();
    source.after_read(Some(pixel(rgb(1, 2, 3))));
    let (first, n) = source.read_latest();
    let (second, m) = source.read_latest();
    assert!(Arc::ptr_eq(&first.unwrap(), &second.unwrap()));
    assert_eq!((n, m), (1, 1));
}

#[test]
fn frame_outlives_the_next_publish() {
    let mut source = FrameSource::new();
    source.after_read(Some(pixel(rgb(1, 2, 3))));
    let (held, _) = source.read_latest();
    source.after_read(Some(pixel(rgb(4, 5, 6))));
    source.after_read(None);
    assert_eq!(held.unwrap().pixel_at(0, 0), Some(rgb(1, 2, 3)));
}

#[test]
fn failed_read_leaves_no_frame_and_the_task_goes_on() {
    let mut source = FrameSource::new();
    source.after_read(Some(pixel(rgb(1, 2, 3))));
    assert_eq!(source.after_read(None), ProducerAction::Read);
    let (frame, published) = source.read_latest();
    assert!(frame.is_none());
    assert_eq!(published, 2);
    assert_eq!(source.before_read(), ProducerAction::Read);
    assert!(!source.is_closed());
    source.after_read(Some(pixel(rgb(7, 8, 9))));
    assert_eq!(source.read_latest().0.unwrap().pixel_at(0, 0), Some(rgb(7, 8, 9)));
}

#[test]
fn stop_is_seen_before_the_next_read() {
    let mut source = FrameSource::new();
    source.after_read(Some(pixel(rgb(1, 2, 3))));
    source.request_stop();
    assert!(!source.is_closed());
    assert_eq!(source.before_read(), ProducerAction::Exit);
    assert!(source.is_closed());
    assert_eq!(source.read_latest().1, 1);
}

#[test]
fn stop_is_seen_after_a_read_and_the_frame_is_dropped() {
    let mut source = FrameSource::new();
    source.after_read(Some(pixel(rgb(1, 2, 3))));
    assert_eq!(source.before_read(), ProducerAction::Read);
    source.request_stop();
    assert_eq!(source.after_read(Some(pixel(rgb(4, 5, 6)))), ProducerAction::Exit);
    assert!(source.is_closed());
    let (frame, published) = source.read_latest();
    assert_eq!(frame.unwrap().pixel_at(0, 0), Some(rgb(1, 2, 3)));
    assert_eq!(published, 1);
}
