use ambiway::color::{Brightness, ColorSample};
use ambiway::frame::Frame;
use ambiway::geometry::{EdgeIndent, EdgeLeds, MonitorRes, SamplingRectangle};
use ambiway::pipeline::{Pipeline, PipelineError, PipelineState, SkipReason, TickOutcome};
use ambiway::regions::monitor_regions;

fn rgb(r: u8, g: u8, b: u8) -> ColorSample {
    ColorSample { r, g, b }
}

fn rect(x1: i32, y1: i32, x2: i32, y2: i32) -> SamplingRectangle {
    SamplingRectangle { x1, y1, x2, y2 }
}

fn filled(width: usize, height: usize, color: ColorSample) -> Frame {
    let mut data = Vec::with_capacity(3 * width * height);
    for _ in 0..width * height {
        data.push(color.b);
        data.push(color.g);
        data.push(color.r);
    }
    Frame::from_bgr(width, height, data).unwrap()
}

fn two_regions() -> Vec<SamplingRectangle> {
    vec![rect(0, 0, 2, 2), rect(2, 0, 4, 2)]
}

fn running(smooth: bool, limit: u32) -> Pipeline {
    let mut p = Pipeline::new(two_regions(), 3, Brightness::full(), smooth, limit);
    p.opened();
    p
}

#[test]
fn new_pipeline_waits_for_its_device() {
    let mut p = Pipeline::new(two_regions(), 3, Brightness::full(), false, 5);
    assert_eq!(p.state(), PipelineState::Opening);
    assert_eq!(p.zone(), 3);
    assert_eq!(p.regions(), &two_regions());
    assert!(p.latest_colors().is_empty());
    assert!(p.previous_colors().is_empty());
    assert_eq!(p.failures(), 0);
    let frame = filled(4, 4, rgb(1, 2, 3));
    assert_eq!(p.tick(Some(&frame)), TickOutcome::Idle);
    assert_eq!(p.state(), PipelineState::Opening);
    assert_eq!(p.dispatched(false), Ok(()));
    assert_eq!(p.failures(), 0);
}

#[test]
fn device_that_does_not_open_ends_the_pipeline_before_any_dispatch() {
    let m = MonitorRes { width: 1920, height: 1080 };
    let leds = EdgeLeds { left: 4, up: 4, right: 4, down: 4 };
    let indent = EdgeIndent {
        left_up: 0,
        left_down: 0,
        up_left: 0,
        up_right: 0,
        right_up: 0,
        right_down: 0,
        down_left: 0,
        down_right: 0,
    };
    let regions = monitor_regions(&m, &leds, &indent, 20).unwrap();
    let mut p = Pipeline::new(regions, 0, Brightness::full(), false, 1);
    assert_eq!(p.open_failed(), Some(PipelineError::DeviceUnavailable));
    assert_eq!(p.state(), PipelineState::Stopped);
    let frame = filled(1920, 1080, rgb(255, 0, 0));
    for _ in 0..3 {
        assert_eq!(p.tick(Some(&frame)), TickOutcome::Idle);
        assert_eq!(p.tick(None), TickOutcome::Idle);
    }
    p.opened();
    assert_eq!(p.state(), PipelineState::Stopped);
    assert!(p.latest_colors().is_empty());
}

#[test]
fn open_failure_after_opening_is_ignored() {
    let mut p = running(false, 1);
    assert_eq!(p.open_failed(), None);
    assert_eq!(p.state(), PipelineState::Running);
}

#[test]
fn tick_with_a_frame_dispatches_one_color_for_each_region() {
    let mut p = running(false, 1);
    let frame = filled(4, 4, rgb(10, 20, 30));
    assert_eq!(p.tick(Some(&frame)), TickOutcome::Dispatch(vec![rgb(10, 20, 30); 2]));
    assert_eq!(p.state(), PipelineState::Running);
    assert_eq!(p.latest_colors(), &vec![rgb(10, 20, 30); 2]);
}

#[test]
fn full_hd_red_screen_end_to_end() {
    let m = MonitorRes { width: 1920, height: 1080 };
    let leds = EdgeLeds { left: 4, up: 4, right: 4, down: 4 };
    let indent = EdgeIndent {
        left_up: 0,
        left_down: 0,
        up_left: 0,
        up_right: 0,
        right_up: 0,
        right_down: 0,
        down_left: 0,
        down_right: 0,
    };
    let regions = monitor_regions(&m, &leds, &indent, 20).unwrap();
    let mut p = Pipeline::new(regions, 0, Brightness::full(), false, 1);
    p.opened();
    let frame = filled(1920, 1080, rgb(255, 0, 0));
    assert_eq!(p.tick(Some(&frame)), TickOutcome::Dispatch(vec![rgb(255, 0, 0); 16]));
}

#[test]
fn tick_without_a_frame_stalls_and_keeps_what_the_leds_show() {
    let mut p = running(true, 1);
    let frame = filled(4, 4, rgb(200, 0, 0));
    assert_eq!(p.tick(Some(&frame)), TickOutcome::Dispatch(vec![rgb(100, 0, 0); 2]));
    assert_eq!(p.tick(Some(&frame)), TickOutcome::Dispatch(vec![rgb(150, 0, 0); 2]));
    assert_eq!(p.previous_colors(), &vec![rgb(150, 0, 0); 2]);
    assert_eq!(p.tick(None), TickOutcome::Skipped(SkipReason::NoFrame));
    assert_eq!(p.state(), PipelineState::Stalled);
    assert_eq!(p.latest_colors(), &vec![rgb(150, 0, 0); 2]);
    assert!(p.previous_colors().is_empty());
}

#[test]
fn tick_after_a_skipped_one_is_smoothed_against_black() {
    let mut p = running(true, 1);
    let frame = filled(4, 4, rgb(200, 0, 0));
    assert_eq!(p.tick(Some(&frame)), TickOutcome::Dispatch(vec![rgb(100, 0, 0); 2]));
    assert_eq!(p.tick(Some(&frame)), TickOutcome::Dispatch(vec![rgb(150, 0, 0); 2]));
    assert_eq!(p.tick(None), TickOutcome::Skipped(SkipReason::NoFrame));
    assert_eq!(p.tick(Some(&frame)), TickOutcome::Dispatch(vec![rgb(100, 0, 0); 2]));
    assert_eq!(p.state(), PipelineState::Running);
    assert_eq!(p.latest_colors(), &vec![rgb(100, 0, 0); 2]);
    assert_eq!(p.previous_colors(), &vec![rgb(100, 0, 0); 2]);
}

#[test]
fn skipped_tick_changes_nothing_without_smoothing() {
    let mut p = running(false, 1);
    let frame = filled(4, 4, rgb(200, 0, 0));
    assert_eq!(p.tick(Some(&frame)), TickOutcome::Dispatch(vec![rgb(200, 0, 0); 2]));
    assert_eq!(p.tick(None), TickOutcome::Skipped(SkipReason::NoFrame));
    assert_eq!(p.latest_colors(), &vec![rgb(200, 0, 0); 2]);
    assert_eq!(p.tick(Some(&frame)), TickOutcome::Dispatch(vec![rgb(200, 0, 0); 2]));
}

#[test]
fn smoothing_uses_the_output_of_the_tick_before() {
    let mut p = running(true, 1);
    let dim = filled(4, 4, rgb(100, 0, 0));
    let bright = filled(4, 4, rgb(200, 0, 0));
    assert_eq!(p.tick(Some(&dim)), TickOutcome::Dispatch(vec![rgb(50, 0, 0); 2]));
    assert_eq!(p.tick(Some(&dim)), TickOutcome::Dispatch(vec![rgb(75, 0, 0); 2]));
    assert_eq!(p.tick(Some(&bright)), TickOutcome::Dispatch(vec![rgb(137, 0, 0); 2]));
}

#[test]
fn region_outside_the_frame_stalls_and_is_named() {
    let mut p = running(false, 1);
    let small = filled(3, 4, rgb(1, 1, 1));
    assert_eq!(p.tick(Some(&small)), TickOutcome::Skipped(SkipReason::RegionOutsideFrame(1)));
    assert_eq!(p.state(), PipelineState::Stalled);
    assert!(p.latest_colors().is_empty());
    assert!(p.previous_colors().is_empty());
    let frame = filled(4, 4, rgb(1, 1, 1));
    assert_eq!(p.tick(Some(&frame)), TickOutcome::Dispatch(vec![rgb(1, 1, 1); 2]));
    assert_eq!(p.state(), PipelineState::Running);
}

#[test]
fn ticks_alone_never_end_a_pipeline() {
    let mut p = running(false, 1);
    for _ in 0..100 {
        assert_eq!(p.tick(None), TickOutcome::Skipped(SkipReason::NoFrame));
        assert_eq!(p.state(), PipelineState::Stalled);
    }
}

#[test]
fn sink_may_refuse_fewer_updates_than_the_limit() {
    let mut p = running(false, 3);
    assert_eq!(p.dispatched(false), Ok(()));
    assert_eq!(p.dispatched(false), Ok(()));
    assert_eq!(p.failures(), 2);
    assert_eq!(p.state(), PipelineState::Running);
    assert_eq!(p.dispatched(false), Err(PipelineError::SinkFailed));
    assert_eq!(p.state(), PipelineState::Stopped);
    assert_eq!(p.failures(), 3);
    assert_eq!(p.dispatched(false), Ok(()));
    assert_eq!(p.failures(), 3);
}

#[test]
fn update_that_is_taken_clears_the_count() {
    let mut p = running(false, 3);
    assert_eq!(p.dispatched(false), Ok(()));
    assert_eq!(p.dispatched(false), Ok(()));
    assert_eq!(p.dispatched(true), Ok(()));
    assert_eq!(p.failures(), 0);
    assert_eq!(p.dispatched(false), Ok(()));
    assert_eq!(p.dispatched(false), Ok(()));
    assert_eq!(p.state(), PipelineState::Running);
}

#[test]
fn limit_of_one_ends_on_the_first_refusal() {
    let mut p = running(false, 1);
    assert_eq!(p.dispatched(false), Err(PipelineError::SinkFailed));
    assert_eq!(p.state(), PipelineState::Stopped);
    let mut q = running(false, 0);
    assert_eq!(q.dispatched(false), Err(PipelineError::SinkFailed));
    assert_eq!(q.state(), PipelineState::Stopped);
}

#[test]
fn largest_limit_does_not_overflow() {
    let mut p = running(false, u32::MAX);
    for _ in 0..1000 {
        assert_eq!(p.dispatched(false), Ok(()));
    }
    assert_eq!(p.failures(), 1000);
}

#[test]
fn shutdown_is_final() {
    let mut p = running(true, 2);
    let frame = filled(4, 4, rgb(200, 0, 0));
    assert_eq!(p.tick(Some(&frame)), TickOutcome::Dispatch(vec![rgb(100, 0, 0); 2]));
    p.shutdown();
    assert_eq!(p.state(), PipelineState::Stopped);
    assert_eq!(p.tick(Some(&frame)), TickOutcome::Idle);
    assert_eq!(p.tick(None), TickOutcome::Idle);
    p.opened();
    assert_eq!(p.open_failed(), None);
    assert_eq!(p.dispatched(true), Ok(()));
    assert_eq!(p.dispatched(false), Ok(()));
    p.shutdown();
    assert_eq!(p.state(), PipelineState::Stopped);
    assert_eq!(p.latest_colors(), &vec![rgb(100, 0, 0); 2]);
}

#[test]
fn shutdown_before_opening() {
    let mut p = Pipeline::new(two_regions(), 0, Brightness::full(), false, 1);
    p.shutdown();
    assert_eq!(p.state(), PipelineState::Stopped);
    assert_eq!(p.open_failed(), None);
}
