//! The pipeline of one capture source: its sampling rectangles, the colours it
//! sent last, and the state that decides what a tick does.
//!
//! A pipeline never touches a device or the network. Whoever drives it opens
//! the device, reads frames and sends colours, and tells the pipeline how each
//! of these went; the pipeline answers with what to do next.

use crate::color::{black, Brightness, ColorSample};
use crate::extract::{get_average_colors, previous_color, region_color, regions_inside};
use crate::frame::Frame;
use crate::geometry::SamplingRectangle;
use vstd::prelude::*;

verus! {

/// Where a pipeline stands.
#[derive(Clone, Copy, Debug, PartialEq, Eq, Structural)]
pub enum PipelineState {
    /// The capture device has not been opened yet.
    Opening,
    /// The last tick sent colours, or none has happened since the device was
    /// opened.
    Running,
    /// The last tick had nothing to send.
    Stalled,
    /// The pipeline has ended and does nothing any more.
    Stopped,
}

/// Why a pipeline has ended.
#[derive(Clone, Copy, Debug, PartialEq, Eq, Structural)]
pub enum PipelineError {
    /// The capture device could not be opened.
    DeviceUnavailable,
    /// The sink refused as many updates in a row as the pipeline allows.
    SinkFailed,
}

/// Why a tick sent nothing.
#[derive(Clone, Copy, Debug, PartialEq, Eq, Structural)]
pub enum SkipReason {
    /// The capture source had no frame.
    NoFrame,
    /// The sampling rectangle at this place is empty or leaves the frame.
    RegionOutsideFrame(usize),
}

/// What a tick asks its caller to do.
#[derive(Debug, PartialEq, Eq)]
pub enum TickOutcome {
    /// Send these colours to the pipeline's zone.
    Dispatch(Vec<ColorSample>),
    /// Send nothing: the LEDs keep what they show.
    Skipped(SkipReason),
    /// The pipeline is not open, or it has ended: nothing was done.
    Idle,
}

/// What can happen to a pipeline.
pub enum Event {
    /// The capture device was opened.
    Opened,
    /// The capture device could not be opened.
    OpenFailed,
    /// A tick is due, and this is what the capture source has.
    Tick(Option<Frame>),
    /// The sink took the colours of the last tick.
    Sent,
    /// The sink did not take the colours of the last tick.
    SendFailed,
    /// The pipeline is told to end.
    Shutdown,
}

/// The contents of a pipeline.
pub struct PipelineView {
    pub state: PipelineState,
    pub regions: Seq<SamplingRectangle>,
    /// The colours of the tick before, if it sent any; empty if it sent none
    /// or if there was none. The next tick is smoothed against these.
    pub previous: Seq<ColorSample>,
    /// The colours of the last tick that sent any, which the LEDs still show;
    /// empty before the first.
    pub latest: Seq<ColorSample>,
    pub zone: usize,
    pub brightness: Brightness,
    pub smooth: bool,
    /// Updates that the sink refused since it last took one.
    pub failures: nat,
    /// Number of refused updates in a row that ends the pipeline.
    pub failure_limit: nat,
}

impl PipelineView {
    /// The pipeline takes ticks.
    pub open spec fn live(self) -> bool {
        self.state is Running || self.state is Stalled
    }

    /// The invariant of a pipeline: it keeps no colours or one for each
    /// rectangle, and while it has not ended the sink has refused fewer updates
    /// in a row than the limit.
    pub open spec fn wf(self) -> bool {
        &&& self.previous.len() == 0 || self.previous.len() == self.regions.len()
        &&& self.latest.len() == 0 || self.latest.len() == self.regions.len()
        &&& self.failure_limit >= 1
        &&& !(self.state is Stopped) ==> self.failures < self.failure_limit
    }

    /// The colours that a tick on this frame sends, if it sends any: one for
    /// each rectangle, each smoothed against the colour that the same
    /// rectangle had on the tick before, or against black if that tick sent
    /// nothing.
    pub open spec fn tick_colors(self, frame: Option<Frame>) -> Option<Seq<ColorSample>> {
        if self.live() && frame is Some && regions_inside(
            frame->0,
            self.regions,
            self.regions.len() as int,
        ) {
            Some(
                Seq::new(
                    self.regions.len(),
                    |i: int|
                        region_color(
                            frame->0,
                            self.regions[i]@,
                            previous_color(self.previous, i),
                            self.brightness,
                            self.smooth,
                        ),
                ),
            )
        } else {
            None
        }
    }

    /// The pipeline after an event.
    pub open spec fn step(self, event: Event) -> PipelineView {
        match event {
            Event::Opened => if self.state is Opening {
                PipelineView { state: PipelineState::Running, ..self }
            } else {
                self
            },
            Event::OpenFailed => if self.state is Opening {
                PipelineView { state: PipelineState::Stopped, ..self }
            } else {
                self
            },
            Event::Tick(frame) => if !self.live() {
                self
            } else if self.tick_colors(frame) is Some {
                PipelineView {
                    state: PipelineState::Running,
                    previous: self.tick_colors(frame)->0,
                    latest: self.tick_colors(frame)->0,
                    ..self
                }
            } else {
                PipelineView { state: PipelineState::Stalled, previous: Seq::empty(), ..self }
            },
            Event::Sent => if self.live() {
                PipelineView { failures: 0, ..self }
            } else {
                self
            },
            Event::SendFailed => if !self.live() {
                self
            } else if self.failures + 1 >= self.failure_limit {
                PipelineView {
                    state: PipelineState::Stopped,
                    failures: self.failures + 1,
                    ..self
                }
            } else {
                PipelineView { failures: self.failures + 1, ..self }
            },
            Event::Shutdown => PipelineView { state: PipelineState::Stopped, ..self },
        }
    }

    /// The pipeline after a run of events.
    pub open spec fn run(self, events: Seq<Event>) -> PipelineView
        decreases events.len(),
    {
        if events.len() == 0 {
            self
        } else {
            self.run(events.drop_last()).step(events.last())
        }
    }
}

/// The frame that a tick was given, as a value.
pub open spec fn given(frame: Option<&Frame>) -> Option<Frame> {
    match frame {
        Some(f) => Some(*f),
        None => None,
    }
}

/// The pipeline of one capture source.
#[derive(Debug)]
pub struct Pipeline {
    state: PipelineState,
    regions: Vec<SamplingRectangle>,
    previous: Vec<ColorSample>,
    latest: Vec<ColorSample>,
    zone: usize,
    brightness: Brightness,
    smooth: bool,
    failures: u32,
    failure_limit: u32,
}

impl View for Pipeline {
    type V = PipelineView;

    closed spec fn view(&self) -> PipelineView {
        PipelineView {
            state: self.state,
            regions: self.regions@,
            previous: self.previous@,
            latest: self.latest@,
            zone: self.zone,
            brightness: self.brightness,
            smooth: self.smooth,
            failures: self.failures as nat,
            failure_limit: self.failure_limit as nat,
        }
    }
}

impl Pipeline {
    #[verifier::type_invariant]
    spec fn well_formed(self) -> bool {
        self@.wf()
    }

    /// A pipeline that waits for its device to be opened.
    ///
    /// `failure_limit` is the number of updates in a row that the sink may
    /// refuse before the pipeline ends; 0 counts as 1.
    pub fn new(
        regions: Vec<SamplingRectangle>,
        zone: usize,
        brightness: Brightness,
        smooth: bool,
        failure_limit: u32,
    ) -> (p: Pipeline)
        ensures
            p@.wf(),
            p@.state is Opening,
            p@.regions == regions@,
            p@.previous.len() == 0,
            p@.latest.len() == 0,
            p@.zone == zone,
            p@.brightness == brightness,
            p@.smooth == smooth,
            p@.failures == 0,
            p@.failure_limit == (if failure_limit == 0 {
                1
            } else {
                failure_limit as int
            }),
    {
        Pipeline {
            state: PipelineState::Opening,
            regions,
            previous: Vec::new(),
            latest: Vec::new(),
            zone,
            brightness,
            smooth,
            failures: 0,
            failure_limit: if failure_limit == 0 {
                1
            } else {
                failure_limit
            },
        }
    }

    /// Where the pipeline stands.
    pub fn state(&self) -> (r: PipelineState)
        ensures
            r == self@.state,
    {
        self.state
    }

    /// The zone of the sink that the pipeline's colours are for.
    pub fn zone(&self) -> (r: usize)
        ensures
            r == self@.zone,
    {
        self.zone
    }

    /// The sampling rectangles, one for each LED.
    pub fn regions(&self) -> (r: &Vec<SamplingRectangle>)
        ensures
            r@ == self@.regions,
    {
        &self.regions
    }

    /// The colours of the last tick that sent any, which the LEDs still show;
    /// empty before the first.
    pub fn latest_colors(&self) -> (r: &Vec<ColorSample>)
        ensures
            r@ == self@.latest,
    {
        &self.latest
    }

    /// The colours that the next tick is smoothed against: those of the tick
    /// before, if it sent any, and none otherwise.
    pub fn previous_colors(&self) -> (r: &Vec<ColorSample>)
        ensures
            r@ == self@.previous,
    {
        &self.previous
    }

    /// Updates that the sink refused since it last took one.
    pub fn failures(&self) -> (r: u32)
        ensures
            r == self@.failures,
    {
        self.failures
    }

    /// The capture device was opened: a pipeline that waited for it now runs.
    pub fn opened(&mut self)
        ensures
            final(self)@.wf(),
            final(self)@ == old(self)@.step(Event::Opened),
    {
        proof {
            use_type_invariant(&*self);
        }
        if let PipelineState::Opening = self.state {
            self.state = PipelineState::Running;
        }
    }

    /// The capture device could not be opened: a pipeline that waited for it
    /// ends, and says why.
    pub fn open_failed(&mut self) -> (r: Option<PipelineError>)
        ensures
            final(self)@.wf(),
            final(self)@ == old(self)@.step(Event::OpenFailed),
            r == (if old(self)@.state is Opening {
                Some(PipelineError::DeviceUnavailable)
            } else {
                None
            }),
    {
        proof {
            use_type_invariant(&*self);
        }
        if let PipelineState::Opening = self.state {
            self.state = PipelineState::Stopped;
            Some(PipelineError::DeviceUnavailable)
        } else {
            None
        }
    }

    /// A tick: turns the frame into colours and says what to do with them.
    ///
    /// A pipeline that runs or is stalled extracts one colour for each
    /// rectangle. If that works it runs, keeps the colours for the next tick's
    /// smoothing and hands them out to be sent. Without a frame, or with a
    /// rectangle that is empty or leaves the frame, it is stalled and says why
    /// nothing is sent: the LEDs keep the colours of the last tick that sent
    /// any, and the next tick is smoothed against black.
    pub fn tick(&mut self, frame: Option<&Frame>) -> (r: TickOutcome)
        ensures
            final(self)@.wf(),
            final(self)@ == old(self)@.step(Event::Tick(given(frame))),
            r is Idle <==> !old(self)@.live(),
            r is Dispatch <==> old(self)@.tick_colors(given(frame)) is Some,
            r is Dispatch ==> r->Dispatch_0@ == old(self)@.tick_colors(given(frame))->0,
            r is Skipped && frame is None ==> r->Skipped_0 == SkipReason::NoFrame,
            r is Skipped && frame is Some ==> r->Skipped_0 is RegionOutsideFrame,
            r is Skipped && frame is Some ==> r->Skipped_0->RegionOutsideFrame_0
                < old(self)@.regions.len(),
            r is Skipped && frame is Some ==> !frame->0.holds(
                old(self)@.regions[r->Skipped_0->RegionOutsideFrame_0 as int]@,
            ),
            r is Skipped && frame is Some ==> regions_inside(
                *frame->0,
                old(self)@.regions,
                r->Skipped_0->RegionOutsideFrame_0 as int,
            ),
    {
        proof {
            use_type_invariant(&*self);
        }
        match self.state {
            PipelineState::Running | PipelineState::Stalled => {},
            _ => {
                return TickOutcome::Idle;
            },
        }
        let image = match frame {
            Some(f) => f,
            None => {
                self.state = PipelineState::Stalled;
                self.previous = Vec::new();
                return TickOutcome::Skipped(SkipReason::NoFrame);
            },
        };
        match get_average_colors(
            &self.regions,
            Some(image),
            &self.previous,
            &self.brightness,
            self.smooth,
        ) {
            Ok(colors) => {
                assert(colors@ =~= old(self)@.tick_colors(given(frame))->0);
                self.previous = colors.clone();
                self.latest = colors.clone();
                self.state = PipelineState::Running;
                TickOutcome::Dispatch(colors)
            },
            Err(outside) => {
                self.state = PipelineState::Stalled;
                self.previous = Vec::new();
                TickOutcome::Skipped(SkipReason::RegionOutsideFrame(outside.index))
            },
        }
    }

    /// The sink answered the last update.
    ///
    /// An update that was taken clears the count of refused ones. One that was
    /// refused is counted, and when the count reaches the limit the pipeline
    /// ends and says so. A pipeline that is not open or has ended is left as it
    /// is.
    pub fn dispatched(&mut self, taken: bool) -> (r: Result<(), PipelineError>)
        ensures
            final(self)@.wf(),
            final(self)@ == old(self)@.step(
                if taken {
                    Event::Sent
                } else {
                    Event::SendFailed
                },
            ),
            r is Err <==> old(self)@.live() && !taken && old(self)@.failures + 1 >= old(
                self,
            )@.failure_limit,
            r is Err ==> r->Err_0 == PipelineError::SinkFailed,
    {
        proof {
            use_type_invariant(&*self);
        }
        match self.state {
            PipelineState::Running | PipelineState::Stalled => {},
            _ => {
                return Ok(());
            },
        }
        if taken {
            self.failures = 0;
            return Ok(());
        }
        let failures = self.failures + 1;
        if failures >= self.failure_limit {
            self.state = PipelineState::Stopped;
            self.failures = failures;
            Err(PipelineError::SinkFailed)
        } else {
            self.failures = failures;
            Ok(())
        }
    }

    /// Ends the pipeline.
    pub fn shutdown(&mut self)
        ensures
            final(self)@.wf(),
            final(self)@ == old(self)@.step(Event::Shutdown),
    {
        proof {
            use_type_invariant(&*self);
        }
        self.state = PipelineState::Stopped;
    }
}

/// Every event keeps the invariant of a pipeline.
pub proof fn lemma_step_keeps_invariant(v: PipelineView, event: Event)
    requires
        v.wf(),
    ensures
        v.step(event).wf(),
{
}

/// No event changes the rectangles of a pipeline, its zone, its brightness,
/// its smoothing or its limit.
pub proof fn lemma_step_keeps_settings(v: PipelineView, event: Event)
    ensures
        v.step(event).regions == v.regions,
        v.step(event).zone == v.zone,
        v.step(event).brightness == v.brightness,
        v.step(event).smooth == v.smooth,
        v.step(event).failure_limit == v.failure_limit,
{
}

/// A pipeline that has ended stays as it is, whatever happens.
pub proof fn lemma_stopped_is_terminal(v: PipelineView, events: Seq<Event>)
    requires
        v.state is Stopped,
    ensures
        v.run(events) == v,
    decreases events.len(),
{
    if events.len() > 0 {
        lemma_stopped_is_terminal(v, events.drop_last());
    }
}

/// A pipeline ends only when it is told to, when its device cannot be opened,
/// or when the sink refuses an update. A tick never ends it.
pub proof fn lemma_only_these_end_a_pipeline(v: PipelineView, event: Event)
    requires
        !(v.state is Stopped),
        v.step(event).state is Stopped,
    ensures
        event is Shutdown || event is OpenFailed || event is SendFailed,
        event is OpenFailed ==> v.state is Opening,
        event is SendFailed ==> v.live() && v.failures + 1 >= v.failure_limit,
{
}

/// A pipeline whose device could not be opened has ended, and no tick after
/// that sends anything.
pub proof fn lemma_failed_open_never_dispatches(
    v: PipelineView,
    events: Seq<Event>,
    frame: Option<Frame>,
)
    requires
        v.state is Opening,
    ensures
        v.step(Event::OpenFailed).state is Stopped,
        v.step(Event::OpenFailed).run(events).tick_colors(frame) is None,
{
    lemma_stopped_is_terminal(v.step(Event::OpenFailed), events);
}

/// A tick without a usable frame stalls a running pipeline, and the next tick
/// with one makes it run again.
pub proof fn lemma_stall_and_recover(v: PipelineView, bad: Option<Frame>, good: Option<Frame>)
    requires
        v.live(),
        v.tick_colors(bad) is None,
        v.tick_colors(good) is Some,
    ensures
        v.step(Event::Tick(bad)).state is Stalled,
        v.step(Event::Tick(bad)).step(Event::Tick(good)).state is Running,
{
}

/// A tick that sends nothing leaves the colours that the LEDs show as they
/// are, and the tick after it is smoothed against black.
pub proof fn lemma_skipped_tick_keeps_output(v: PipelineView, frame: Option<Frame>, i: int)
    requires
        v.tick_colors(frame) is None,
    ensures
        v.step(Event::Tick(frame)).latest == v.latest,
        v.live() ==> previous_color(v.step(Event::Tick(frame)).previous, i) == black(),
{
}

/// Whatever happens to a pipeline, the colours that the LEDs show change only
/// on a tick that sends colours.
pub proof fn lemma_output_changes_only_on_dispatch(v: PipelineView, event: Event)
    requires
        !(event is Tick && v.tick_colors(event->Tick_0) is Some),
    ensures
        v.step(event).latest == v.latest,
{
}

/// A tick that sends colours sends one for each rectangle, and the colour at
/// place `i` is that of rectangle `i`, smoothed against the colour that was
/// kept at place `i`.
pub proof fn lemma_tick_is_aligned(v: PipelineView, frame: Frame, i: int)
    requires
        v.tick_colors(Some(frame)) is Some,
        0 <= i < v.regions.len(),
    ensures
        v.tick_colors(Some(frame))->0.len() == v.regions.len(),
        v.step(Event::Tick(Some(frame))).previous == v.tick_colors(Some(frame))->0,
        v.step(Event::Tick(Some(frame))).latest == v.tick_colors(Some(frame))->0,
        v.tick_colors(Some(frame))->0[i] == region_color(
            frame,
            v.regions[i]@,
            previous_color(v.previous, i),
            v.brightness,
            v.smooth,
        ),
{
}

/// The pipeline after `n` refused updates in a row.
pub open spec fn after_refusals(v: PipelineView, n: nat) -> PipelineView
    decreases n,
{
    if n == 0 {
        v
    } else {
        after_refusals(v, (n - 1) as nat).step(Event::SendFailed)
    }
}

/// A live pipeline outlasts fewer refused updates in a row than its limit
/// allows, and ends with the one that reaches the limit.
pub proof fn lemma_refusals_escalate(v: PipelineView, n: nat)
    requires
        v.wf(),
        v.live(),
        v.failures + n <= v.failure_limit,
    ensures
        after_refusals(v, n).failures == v.failures + n,
        after_refusals(v, n).failure_limit == v.failure_limit,
        v.failures + n < v.failure_limit ==> after_refusals(v, n).state == v.state,
        v.failures + n == v.failure_limit ==> after_refusals(v, n).state is Stopped,
    decreases n,
{
    if n > 0 {
        lemma_refusals_escalate(v, (n - 1) as nat);
    }
}

} // verus!
