use ambiway::color::{Brightness, ColorSample};
use ambiway::geometry::SamplingRectangle;
use ambiway::orchestrator::{build_pipelines, shutdown_all, BindingError};
use ambiway::pipeline::PipelineState;
use ambiway::sink::{concat_colors, with_placeholder};

fn rgb(r: u8, g: u8, b: u8) -> ColorSample {
    ColorSample { r, g, b }
}

fn rect(x1: i32, y1: i32, x2: i32, y2: i32) -> SamplingRectangle {
    SamplingRectangle { x1, y1, x2, y2 }
}

fn regions() -> Vec<Vec<SamplingRectangle>> {
    vec![vec![rect(0, 0, 1, 1)], vec![rect(0, 0, 2, 2), rect(2, 0, 4, 2)], vec![]]
}

#[test]
fn each_source_gets_its_regions_and_its_zone() {
    let zones = vec![7, 5, 9];
    let pipelines = build_pipelines(2, &regions(), &zones, Brightness::full(), true, 4).unwrap();
    assert_eq!(pipelines.len(), 2);
    assert_eq!(pipelines[0].regions(), &regions()[0]);
    assert_eq!(pipelines[1].regions(), &regions()[1]);
    assert_eq!(pipelines[0].zone(), 7);
    assert_eq!(pipelines[1].zone(), 5);
    for p in &pipelines {
        assert_eq!(p.state(), PipelineState::Opening);
        assert!(p.latest_colors().is_empty());
    }
}

#[test]
fn no_source_gives_no_pipeline() {
    let pipelines = build_pipelines(0, &vec![], &vec![], Brightness::full(), true, 4).unwrap();
    assert!(pipelines.is_empty());
}

#[test]
fn source_without_regions_or_zone_is_named() {
    let full = Brightness::full();
    assert_eq!(
        build_pipelines(4, &regions(), &vec![1, 2, 3, 4], full, false, 1).err(),
        Some(BindingError::NoRegions(3))
    );
    assert_eq!(
        build_pipelines(3, &regions(), &vec![1, 2], full, false, 1).err(),
        Some(BindingError::NoZone(2))
    );
    assert_eq!(
        build_pipelines(5, &regions(), &vec![1, 2, 3], full, false, 1).err(),
        Some(BindingError::NoRegions(3))
    );
    assert_eq!(
        build_pipelines(1, &vec![], &vec![], full, false, 1).err(),
        Some(BindingError::NoRegions(0))
    );
}

#[test]
fn shutdown_ends_every_pipeline() {
    let zones = vec![7, 5, 9];
    let mut pipelines =
        build_pipelines(3, &regions(), &zones, Brightness::full(), true, 4).unwrap();
    pipelines[1].opened();
    shutdown_all(&mut pipelines);
    assert_eq!(pipelines.len(), 3);
    for p in &pipelines {
        assert_eq!(p.state(), PipelineState::Stopped);
    }
    assert_eq!(pipelines[2].zone(), 9);
}

#[test]
fn colors_are_joined_source_after_source() {
    let per_source =
        vec![vec![rgb(1, 1, 1), rgb(2, 2, 2)], vec![], vec![rgb(3, 3, 3)], vec![rgb(4, 4, 4)]];
    assert_eq!(
        concat_colors(&per_source),
        vec![rgb(1, 1, 1), rgb(2, 2, 2), rgb(3, 3, 3), rgb(4, 4, 4)]
    );
    assert_eq!(concat_colors(&vec![]), vec![]);
    assert_eq!(concat_colors(&vec![vec![], vec![]]), vec![]);
}

#[test]
fn placeholder_comes_first() {
    assert_eq!(
        with_placeholder(rgb(0, 0, 0), &vec![rgb(1, 1, 1), rgb(2, 2, 2)]),
        vec![rgb(0, 0, 0), rgb(1, 1, 1), rgb(2, 2, 2)]
    );
    assert_eq!(with_placeholder(rgb(9, 9, 9), &vec![]), vec![rgb(9, 9, 9)]);
}
