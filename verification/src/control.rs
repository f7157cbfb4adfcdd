//! The control transport: the sole channel from the non-real-time control
//! context to the audio thread.
//!
//! Events travel through a bounded lock-free single-producer
//! single-consumer ring (rtrb). The producer side never blocks: a full
//! ring fails immediately with `BufferFull` and the event is simply not
//! delivered. The consumer side drains available events at the start of
//! each audio callback, before any rendering.

use vstd::prelude::*;

use crate::events::{Event, MidiEvent, RoutedEvent, ScheduledEvent};
use crate::id::TrackId;

verus! {

/// The only recoverable, caller-visible error: the control transport had
/// no free slot at send time. Never retried automatically.
#[derive(Debug, Clone, Copy, PartialEq, Eq, Structural)]
pub enum EngineError {
    BufferFull,
}

#[verifier::external_type_specification]
#[verifier::external_body]
#[verifier::reject_recursive_types(T)]
pub struct ExProducer<T>(rtrb::Producer<T>);

#[verifier::external_type_specification]
#[verifier::external_body]
#[verifier::reject_recursive_types(T)]
pub struct ExConsumer<T>(rtrb::Consumer<T>);

/// Relies on rtrb::Producer::push: a non-blocking attempt to move one
/// element into the ring; on a full ring it returns the element back
/// immediately. Whether a slot is free depends on the concurrent
/// consumer, so success cannot be promised.
#[verifier::external_body]
fn push_routed(producer: &mut rtrb::Producer<RoutedEvent>, event: RoutedEvent) -> (r: Result<
    (),
    RoutedEvent,
>)
    ensures
        r is Err ==> r->Err_0 == event,
{
    match producer.push(event) {
        Ok(()) => Ok(()),
        Err(rtrb::PushError::Full(e)) => Err(e),
    }
}

/// Relies on rtrb::Consumer::pop: a non-blocking attempt to take the next
/// element out of the ring; `None` when none is currently available. What
/// comes out depends on the concurrent producer, so nothing can be
/// promised about the element.
#[verifier::external_body]
fn pop_routed(consumer: &mut rtrb::Consumer<RoutedEvent>) -> (r: Option<RoutedEvent>) {
    consumer.pop().ok()
}

/// UI-facing handle for sending real-time events to the audio thread.
/// Keeps the ring-buffer details out of the control code, so transport
/// semantics live in one place.
pub struct PlaybackControl {
    producer: rtrb::Producer<RoutedEvent>,
}

impl PlaybackControl {
    pub fn new(producer: rtrb::Producer<RoutedEvent>) -> (r: PlaybackControl) {
        PlaybackControl { producer }
    }

    /// Enqueue a live MIDI event for the next audio callback. Never
    /// blocks and never retries: with no free slot the event is dropped
    /// and the caller sees `BufferFull` — the only error this can return.
    pub fn send_midi(&mut self, track_id: TrackId, midi: MidiEvent) -> (r: Result<(), EngineError>)
        requires
            midi.wf(),
        ensures
            r is Err ==> r->Err_0 == EngineError::BufferFull,
    {
        let routed = RoutedEvent { track_id, event: Event::Midi(midi) };
        match push_routed(&mut self.producer, routed) {
            Ok(()) => Ok(()),
            Err(_) => Err(EngineError::BufferFull),
        }
    }
}

/// What the audio thread does with one event taken off the transport:
/// it is scheduled at sample offset zero for the callback that drained it
/// — the transport keeps no finer send-time stamp — unless its note or
/// velocity leaves the 7-bit MIDI domain, in which case it is discarded
/// rather than handed to a node.
pub fn schedule_routed(routed: RoutedEvent) -> (s: Option<ScheduledEvent>)
    ensures
        routed.event.wf() ==> s == Some(
            ScheduledEvent { sample_offset: 0, event: routed.event },
        ),
        !routed.event.wf() ==> s is None,
{
    let keep = match routed.event {
        Event::Midi(MidiEvent::NoteOn { note, velocity }) => note < 128 && velocity < 128,
        Event::Midi(MidiEvent::NoteOff { note }) => note < 128,
    };
    if keep {
        Some(ScheduledEvent { sample_offset: 0, event: routed.event })
    } else {
        None
    }
}

/// Drain up to `max` currently available events from the consumer side
/// into a scheduled-event list, before any rendering. Each popped event
/// goes through `schedule_routed`, so every appended entry sits at sample
/// offset zero — the resulting list is trivially sorted and ready for the
/// evaluator — and no malformed event reaches a node.
pub fn drain_scheduled(
    consumer: &mut rtrb::Consumer<RoutedEvent>,
    scheduled: &mut Vec<ScheduledEvent>,
    max: usize,
)
    ensures
        final(scheduled)@.len() >= old(scheduled)@.len(),
        forall|i: int|
            0 <= i < old(scheduled)@.len() ==> #[trigger] final(scheduled)@[i] == old(scheduled)@[i],
        forall|i: int|
            old(scheduled)@.len() <= i < final(scheduled)@.len() ==> (#[trigger] final(scheduled)@[i]).sample_offset == 0 && final(scheduled)@[i].event.wf(),
{
    let mut taken: usize = 0;
    while taken < max
        invariant
            scheduled@.len() >= old(scheduled)@.len(),
            forall|i: int|
                0 <= i < old(scheduled)@.len() ==> #[trigger] scheduled@[i] == old(scheduled)@[i],
            forall|i: int|
                old(scheduled)@.len() <= i < scheduled@.len() ==> (#[trigger] scheduled@[i])
                    .sample_offset == 0 && scheduled@[i].event.wf(),
        decreases max - taken,
    {
        let next = pop_routed(consumer);
        match next {
            None => {
                return ;
            },
            Some(routed) => {
                match schedule_routed(routed) {
                    Some(event) => {
                        scheduled.push(event);
                    },
                    None => {},
                }
            },
        }
        taken = taken + 1;
    }
}

} // verus!
