//! The hand-over of frames from the task that captures them to the pipeline
//! that reads them.
//!
//! A `FrameSource` is the state that the two sides share. The capturing task
//! asks it before and after every read of the device whether to go on, and
//! hands it what the device gave. The reader takes the frame that was handed in
//! last. Neither side waits for the other: whoever owns the source keeps it
//! behind a lock that is held for one call at a time.

use crate::frame::Frame;
use std::sync::Arc;
use vstd::prelude::*;

verus! {

/// What the capturing task does next.
#[derive(Clone, Copy, Debug, PartialEq, Eq, Structural)]
pub enum ProducerAction {
    /// Read the next frame from the device.
    Read,
    /// Leave the loop and release the device.
    Exit,
}

/// The contents of a frame source.
pub struct FrameSourceView {
    /// The frame of the last publish cycle, if the device gave one in it.
    pub latest: Option<Frame>,
    /// Number of publish cycles so far; the count stops at `u64::MAX`.
    pub published: u64,
    /// The source was told to stop.
    pub stopping: bool,
    /// The capturing task has seen the stop signal and left its loop.
    pub exited: bool,
}

impl FrameSourceView {
    /// The source after the capturing task asked whether to read.
    pub open spec fn before_read(self) -> FrameSourceView {
        if self.stopping {
            FrameSourceView { exited: true, ..self }
        } else {
            self
        }
    }

    /// The source after the capturing task handed in what a read gave.
    pub open spec fn after_read(self, frame: Option<Frame>) -> FrameSourceView {
        if self.stopping {
            FrameSourceView { exited: true, ..self }
        } else {
            FrameSourceView {
                latest: frame,
                published: if self.published < u64::MAX {
                    (self.published + 1) as u64
                } else {
                    self.published
                },
                ..self
            }
        }
    }

    /// What the capturing task is told to do in this state.
    pub open spec fn action(self) -> ProducerAction {
        if self.stopping {
            ProducerAction::Exit
        } else {
            ProducerAction::Read
        }
    }
}

/// Another handle on the same frame.
///
/// Calls `Arc::clone`, which hands out a second pointer to the value that the
/// first one points to: the frame behind the result is the frame behind
/// `frame`.
#[verifier::external_body]
fn share(frame: &Arc<Frame>) -> (r: Arc<Frame>)
    ensures
        *r == **frame,
{
    Arc::clone(frame)
}

/// The state shared by a capturing task and the reader of its frames.
#[derive(Debug)]
pub struct FrameSource {
    latest: Option<Arc<Frame>>,
    published: u64,
    stopping: bool,
    exited: bool,
}

impl View for FrameSource {
    type V = FrameSourceView;

    closed spec fn view(&self) -> FrameSourceView {
        FrameSourceView {
            latest: match self.latest {
                Some(frame) => Some(*frame),
                None => None,
            },
            published: self.published,
            stopping: self.stopping,
            exited: self.exited,
        }
    }
}

impl FrameSource {
    /// The source of a device that was just opened: no frame yet, and no stop
    /// signal.
    pub fn new() -> (r: FrameSource)
        ensures
            r@.latest is None,
            r@.published == 0,
            !r@.stopping,
            !r@.exited,
    {
        FrameSource { latest: None, published: 0, stopping: false, exited: false }
    }

    /// Asked by the capturing task at the start of each turn of its loop,
    /// before it reads the device.
    pub fn before_read(&mut self) -> (r: ProducerAction)
        ensures
            final(self)@ == old(self)@.before_read(),
            r == old(self)@.action(),
    {
        if self.stopping {
            self.exited = true;
            ProducerAction::Exit
        } else {
            ProducerAction::Read
        }
    }

    /// Told by the capturing task what its read of the device gave: a frame, or
    /// nothing if the read failed.
    ///
    /// Unless the source was told to stop, this is one publish cycle: what the
    /// read gave replaces what the cycle before left, as a whole, and a failed
    /// read leaves no frame. The task then reads again. A source that was told
    /// to stop drops the frame and sends the task out of its loop.
    pub fn after_read(&mut self, frame: Option<Frame>) -> (r: ProducerAction)
        ensures
            final(self)@ == old(self)@.after_read(frame),
            r == old(self)@.action(),
    {
        if self.stopping {
            self.exited = true;
            return ProducerAction::Exit;
        }
        self.latest = match frame {
            Some(f) => Some(Arc::new(f)),
            None => None,
        };
        if self.published < u64::MAX {
            self.published = self.published + 1;
        }
        ProducerAction::Read
    }

    /// The frame of the last publish cycle, if the device gave one in it, and
    /// the number of publish cycles so far. Before the first cycle there is no
    /// frame.
    pub fn read_latest(&self) -> (r: (Option<Arc<Frame>>, u64))
        ensures
            r.0 is Some <==> self@.latest is Some,
            r.0 is Some ==> *r.0->0 == self@.latest->0,
            r.1 == self@.published,
    {
        let frame = match &self.latest {
            Some(f) => Some(share(f)),
            None => None,
        };
        (frame, self.published)
    }

    /// Tells the source to stop. The capturing task learns of it the next time
    /// it asks.
    pub fn request_stop(&mut self)
        ensures
            final(self)@ == (FrameSourceView { stopping: true, ..old(self)@ }),
    {
        self.stopping = true;
    }

    /// Whether the capturing task has left its loop: only then is the source
    /// closed.
    pub fn is_closed(&self) -> (r: bool)
        ensures
            r == self@.exited,
    {
        self.exited
    }
}

/// A publish cycle replaces what the cycle before left: after it the source
/// holds what the device gave in it, a frame or nothing, and one cycle more is
/// counted.
pub proof fn lemma_publish_replaces(v: FrameSourceView, frame: Option<Frame>)
    requires
        !v.stopping,
    ensures
        v.after_read(frame).latest == frame,
        v.published < u64::MAX ==> v.after_read(frame).published == v.published + 1,
        v.after_read(frame).published >= v.published,
        v.after_read(frame).action() == ProducerAction::Read,
        !v.after_read(frame).stopping,
{
}

/// A source that was told to stop sends the capturing task out of its loop the
/// next time the task asks, before a read or after one, and publishes nothing
/// more.
pub proof fn lemma_stop_is_seen_at_once(v: FrameSourceView, frame: Option<Frame>)
    requires
        v.stopping,
    ensures
        v.action() == ProducerAction::Exit,
        v.before_read().exited,
        v.after_read(frame).exited,
        v.before_read().latest == v.latest,
        v.after_read(frame).latest == v.latest,
        v.after_read(frame).published == v.published,
{
}

} // verus!
