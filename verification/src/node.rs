//! The audio node capability: the interface every audio-producing or
//! -transforming unit implements, consumed by the graph evaluator.
//!
//! Next to the executable state, every node keeps a ghost history of the
//! calls made on it, so the evaluator's sample-accurate slicing can be
//! stated and proved as a property of that history.

use vstd::prelude::*;

use crate::buffer::AudioBuffer;
use crate::events::Event;

verus! {

/// One recorded interaction between the evaluator and a node.
pub enum NodeCall {
    Render { start: int, end: int },
    Apply { event: Event },
    Reset,
}

/// Universal interface for anything that produces or transforms audio.
/// Nodes never handle event timing: the evaluator slices the buffer and
/// interleaves `render` and `handle_event` in the correct order.
///
/// All three operations run on the audio thread and must stay real-time
/// safe: no allocation, locking, blocking, or failure.
pub trait AudioNode: Sized {
    /// The node's internal well-formedness.
    spec fn inv(&self) -> bool;

    /// Ghost history of the calls made on this node, oldest first.
    spec fn calls(&self) -> Seq<NodeCall>;

    /// Write samples into frames `start..end` of `output`, optionally
    /// reading `inputs`; every frame outside that range is left untouched.
    fn render(
        &mut self,
        inputs: &[&AudioBuffer],
        output: &mut AudioBuffer,
        start: usize,
        end: usize,
        sample_rate: u32,
    )
        requires
            old(self).inv(),
            old(output).wf(),
            old(output).channel_count() >= 2,
            start <= end,
            end as int <= old(output).frame_count(),
            sample_rate >= 1,
        ensures
            final(self).inv(),
            final(self).calls() == old(self).calls().push(
                NodeCall::Render { start: start as int, end: end as int },
            ),
            final(output).wf(),
            final(output).shape_preserved(old(output)),
            forall|c: int, i: int|
                0 <= c < final(output).channel_count() && 0 <= i < final(output).capacity() && !(
                start <= i < end) ==> #[trigger] final(output).chans()[c][i] == old(
                    output,
                ).chans()[c][i],
    ;

    /// Apply one unscheduled event's effect to internal state
    /// instantaneously; no buffer access.
    fn handle_event(&mut self, event: &Event)
        requires
            old(self).inv(),
            event.wf(),
        ensures
            final(self).inv(),
            final(self).calls() == old(self).calls().push(NodeCall::Apply { event: *event }),
    ;

    /// Force all internal state back to the idle/silent baseline.
    fn reset(&mut self)
        requires
            old(self).inv(),
        ensures
            final(self).inv(),
            final(self).calls() == old(self).calls().push(NodeCall::Reset),
    ;
}

/// Executable mirror of a `NodeCall`, for inspecting a node's history at
/// run time (the ghost history itself is erased).
#[derive(Debug, Clone, Copy, PartialEq, Eq, Structural)]
pub enum RecordedCall {
    Render { start: usize, end: usize },
    Apply,
    Reset,
}

/// An executable record agrees with a ghost call.
pub open spec fn records(rc: RecordedCall, nc: NodeCall) -> bool {
    match rc {
        RecordedCall::Render { start, end } => nc matches NodeCall::Render {
            start: s,
            end: e,
        } && s == start && e == end,
        RecordedCall::Apply => nc matches NodeCall::Apply { .. },
        RecordedCall::Reset => nc matches NodeCall::Reset,
    }
}

/// A node that produces nothing and only records how it was driven: its
/// executable log provably mirrors the ghost call history, so a runtime
/// check of the log checks the evaluator's slicing.
pub struct CallRecorder {
    pub log: Vec<RecordedCall>,
    pub history: Ghost<Seq<NodeCall>>,
}

impl CallRecorder {
    pub fn new() -> (r: CallRecorder)
        ensures
            r.inv(),
            r.calls() == Seq::<NodeCall>::empty(),
            r.log@.len() == 0,
    {
        CallRecorder { log: Vec::new(), history: Ghost(Seq::empty()) }
    }
}

impl AudioNode for CallRecorder {
    /// The executable log entry-for-entry mirrors the ghost history.
    open spec fn inv(&self) -> bool {
        &&& self.log@.len() == self.history@.len()
        &&& forall|i: int|
            0 <= i < self.log@.len() ==> records(#[trigger] self.log@[i], self.history@[i])
    }

    open spec fn calls(&self) -> Seq<NodeCall> {
        self.history@
    }

    fn render(
        &mut self,
        inputs: &[&AudioBuffer],
        output: &mut AudioBuffer,
        start: usize,
        end: usize,
        sample_rate: u32,
    ) {
        self.log.push(RecordedCall::Render { start, end });
        proof {
            self.history@ = self.history@.push(
                NodeCall::Render { start: start as int, end: end as int },
            );
        }
    }

    fn handle_event(&mut self, event: &Event) {
        self.log.push(RecordedCall::Apply);
        proof {
            self.history@ = self.history@.push(NodeCall::Apply { event: *event });
        }
    }

    fn reset(&mut self) {
        self.log.push(RecordedCall::Reset);
        proof {
            self.history@ = self.history@.push(NodeCall::Reset);
        }
    }
}

} // verus!
