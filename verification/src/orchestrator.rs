//! Several pipelines side by side: one for each capture source, each bound to
//! its own rectangles and its own zone of the sink.

use crate::color::Brightness;
use crate::geometry::SamplingRectangle;
use crate::pipeline::{Event, Pipeline};
use vstd::prelude::*;

verus! {

/// A capture source that cannot be given a pipeline.
#[derive(Clone, Copy, Debug, PartialEq, Eq, Structural)]
pub enum BindingError {
    /// There is no list of rectangles for the source at this place.
    NoRegions(usize),
    /// There is no zone for the source at this place.
    NoZone(usize),
}

/// What is missing for the first source that cannot be given a pipeline, when
/// there are `regions` lists of rectangles and `zones` zones for more sources
/// than that. Missing rectangles are named before a missing zone.
pub open spec fn first_unbound(regions: nat, zones: nat) -> BindingError {
    if regions <= zones {
        BindingError::NoRegions(regions as usize)
    } else {
        BindingError::NoZone(zones as usize)
    }
}

/// `pipeline` is the fresh pipeline of a source with these rectangles and this
/// zone.
pub open spec fn bound_to(
    pipeline: Pipeline,
    regions: Seq<SamplingRectangle>,
    zone: usize,
    brightness: Brightness,
    smooth: bool,
    failure_limit: u32,
) -> bool {
    &&& pipeline@.wf()
    &&& pipeline@.state is Opening
    &&& pipeline@.regions == regions
    &&& pipeline@.previous.len() == 0
    &&& pipeline@.latest.len() == 0
    &&& pipeline@.zone == zone
    &&& pipeline@.brightness == brightness
    &&& pipeline@.smooth == smooth
    &&& pipeline@.failures == 0
    &&& pipeline@.failure_limit == (if failure_limit == 0 {
        1
    } else {
        failure_limit as int
    })
}

/// One pipeline for each of the first `sources` capture sources: source `i`
/// samples the rectangles `regions[i]` and sends to the zone `zones[i]`.
///
/// Fails on the first source that has no rectangles or no zone.
pub fn build_pipelines(
    sources: usize,
    regions: &Vec<Vec<SamplingRectangle>>,
    zones: &Vec<usize>,
    brightness: Brightness,
    smooth: bool,
    failure_limit: u32,
) -> (r: Result<Vec<Pipeline>, BindingError>)
    ensures
        r is Ok <==> sources <= regions@.len() && sources <= zones@.len(),
        r is Ok ==> r->Ok_0@.len() == sources,
        r is Ok ==> forall|i: int|
            0 <= i < sources ==> bound_to(
                #[trigger] r->Ok_0@[i],
                regions@[i]@,
                zones@[i],
                brightness,
                smooth,
                failure_limit,
            ),
        r is Err ==> r->Err_0 == first_unbound(regions@.len(), zones@.len()),
{
    let mut pipelines: Vec<Pipeline> = Vec::new();
    let mut i: usize = 0;
    while i < sources
        invariant
            0 <= i <= sources,
            i <= regions@.len(),
            i <= zones@.len(),
            pipelines@.len() == i,
            forall|j: int|
                0 <= j < i ==> bound_to(
                    #[trigger] pipelines@[j],
                    regions@[j]@,
                    zones@[j],
                    brightness,
                    smooth,
                    failure_limit,
                ),
        decreases sources - i,
    {
        if i >= regions.len() {
            return Err(BindingError::NoRegions(i));
        }
        if i >= zones.len() {
            return Err(BindingError::NoZone(i));
        }
        pipelines.push(
            Pipeline::new(regions[i].clone(), zones[i], brightness, smooth, failure_limit),
        );
        i = i + 1;
    }
    Ok(pipelines)
}

/// Ends every pipeline.
pub fn shutdown_all(pipelines: &mut Vec<Pipeline>)
    ensures
        final(pipelines)@.len() == old(pipelines)@.len(),
        forall|i: int|
            0 <= i < final(pipelines)@.len() ==> (#[trigger] final(pipelines)@[i])@ == old(
                pipelines,
            )@[i]@.step(Event::Shutdown),
{
    let mut i: usize = 0;
    while i < pipelines.len()
        invariant
            0 <= i <= pipelines@.len(),
            pipelines@.len() == old(pipelines)@.len(),
            forall|j: int|
                0 <= j < i ==> (#[trigger] pipelines@[j])@ == old(pipelines)@[j]@.step(
                    Event::Shutdown,
                ),
            forall|j: int|
                i <= j < pipelines@.len() ==> #[trigger] pipelines@[j] == old(pipelines)@[j],
        decreases pipelines@.len() - i,
    {
        pipelines[i].shutdown();
        i = i + 1;
    }
}

} // verus!
