//! The sample-accurate event slicing loop.
//!
//! `evaluate_node` walks a sorted event list and interleaves `render` and
//! `handle_event` so every state change lands on its exact sample:
//! `eval_plan` is the specification of that interleaving, and the
//! evaluator's contract says the node saw exactly that call sequence.

use vstd::prelude::*;

use crate::buffer::AudioBuffer;
use crate::events::ScheduledEvent;
use crate::node::{AudioNode, NodeCall};

verus! {

/// The calls the evaluator makes from event index `k` on, with the render
/// cursor at `cursor`, in a buffer of `total` frames: render up to each
/// event (never an empty range), apply it, and render whatever remains
/// after the last event.
pub open spec fn eval_plan_from(
    events: Seq<ScheduledEvent>,
    k: int,
    cursor: int,
    total: int,
) -> Seq<NodeCall>
    decreases events.len() - k,
{
    if k < 0 || k >= events.len() {
        if cursor < total {
            seq![NodeCall::Render { start: cursor, end: total }]
        } else {
            seq![]
        }
    } else {
        let o = events[k].sample_offset as int;
        let rest = eval_plan_from(events, k + 1, o, total);
        if o > cursor {
            seq![
                NodeCall::Render { start: cursor, end: o },
                NodeCall::Apply { event: events[k].event },
            ] + rest
        } else {
            seq![NodeCall::Apply { event: events[k].event }] + rest
        }
    }
}

/// The full call sequence for one buffer: cursor starts at frame zero.
pub open spec fn eval_plan(events: Seq<ScheduledEvent>, total: int) -> Seq<NodeCall> {
    eval_plan_from(events, 0, 0, total)
}

/// Offsets are ascending and each lies within `0..=total`.
pub open spec fn events_schedulable(events: Seq<ScheduledEvent>, total: int) -> bool {
    &&& forall|i: int, j: int|
        0 <= i < j < events.len() ==> (#[trigger] events[i]).sample_offset <= (
        #[trigger] events[j]).sample_offset
    &&& forall|i: int| 0 <= i < events.len() ==> (#[trigger] events[i]).sample_offset <= total
    &&& forall|i: int| 0 <= i < events.len() ==> (#[trigger] events[i]).event.wf()
}

/// Drive `node` through one buffer: for each event, render the frames up
/// to its offset (skipping empty ranges), apply the event, and finally
/// render the tail. Events sharing an offset apply back-to-back with no
/// render between them; the evaluator never sorts — `events` must already
/// be ascending.
pub fn evaluate_node<N: AudioNode>(
    node: &mut N,
    inputs: &[&AudioBuffer],
    output: &mut AudioBuffer,
    events: &[ScheduledEvent],
    sample_rate: u32,
)
    requires
        old(node).inv(),
        old(output).wf(),
        old(output).channel_count() >= 2,
        sample_rate >= 1,
        events_schedulable(events@, old(output).frame_count()),
    ensures
        final(node).inv(),
        final(node).calls() == old(node).calls() + eval_plan(events@, old(output).frame_count()),
        final(output).wf(),
        final(output).shape_preserved(old(output)),
{
    let total_frames = output.frames();
    let event_count = events.len();
    let mut cursor: usize = 0;
    let mut k: usize = 0;
    proof {
        assert(old(node).calls() + eval_plan(events@, total_frames as int) == old(node).calls()
            + eval_plan_from(events@, 0, 0, total_frames as int));
    }
    while k < event_count
        invariant
            node.inv(),
            output.wf(),
            output.shape_preserved(old(output)),
            output.channel_count() >= 2,
            sample_rate >= 1,
            k <= event_count,
            event_count == events@.len(),
            events_schedulable(events@, total_frames as int),
            total_frames == output.frame_count(),
            cursor <= total_frames,
            k > 0 ==> cursor == events@[k - 1].sample_offset,
            k == 0 ==> cursor == 0,
            old(node).calls() + eval_plan(events@, total_frames as int) == node.calls()
                + eval_plan_from(events@, k as int, cursor as int, total_frames as int),
        decreases event_count - k,
    {
        let offset = events[k].sample_offset as usize;
        proof {
            assert(events@[k as int].sample_offset <= total_frames);
        }
        let ghost calls_before = node.calls();
        let ghost rest = eval_plan_from(
            events@,
            k as int + 1,
            offset as int,
            total_frames as int,
        );
        if offset > cursor {
            node.render(inputs, output, cursor, offset, sample_rate);
        }
        node.handle_event(&events[k].event);
        proof {
            if offset > cursor {
                assert(calls_before.push(
                    NodeCall::Render { start: cursor as int, end: offset as int },
                ).push(NodeCall::Apply { event: events@[k as int].event }) =~= calls_before + (seq![
                    NodeCall::Render { start: cursor as int, end: offset as int },
                    NodeCall::Apply { event: events@[k as int].event },
                ]));
                assert(calls_before + (seq![
                    NodeCall::Render { start: cursor as int, end: offset as int },
                    NodeCall::Apply { event: events@[k as int].event },
                ] + rest) =~= (calls_before + seq![
                    NodeCall::Render { start: cursor as int, end: offset as int },
                    NodeCall::Apply { event: events@[k as int].event },
                ]) + rest);
            } else {
                assert(calls_before.push(NodeCall::Apply { event: events@[k as int].event })
                    =~= calls_before + seq![NodeCall::Apply { event: events@[k as int].event }]);
                assert(calls_before + (seq![NodeCall::Apply { event: events@[k as int].event }]
                    + rest) =~= (calls_before + seq![
                    NodeCall::Apply { event: events@[k as int].event },
                ]) + rest);
            }
        }
        cursor = offset;
        k = k + 1;
    }
    if cursor < total_frames {
        let ghost calls_before = node.calls();
        node.render(inputs, output, cursor, total_frames, sample_rate);
        proof {
            assert(calls_before.push(
                NodeCall::Render { start: cursor as int, end: total_frames as int },
            ) =~= calls_before + seq![
                NodeCall::Render { start: cursor as int, end: total_frames as int },
            ]);
        }
    }
}

} // verus!
