//! Splicing two sockets.
//!
//! A bridge runs one pump in each direction. A pump reads frames from one socket
//! and writes each of them, unread, to the other.

use vstd::prelude::*;

verus! {

/// What happens to a pump.
pub enum PumpEvent<M> {
    /// A frame was read.
    Frame(M),
    /// Reading failed.
    ReadFailed,
    /// The peer closed the socket.
    Ended,
    /// The last frame was written, or could not be.
    Written(bool),
}

/// What a pump does next.
pub enum PumpAction<M> {
    /// Write a frame to the other socket.
    Write(M),
    /// Read the next frame.
    Read,
    /// End.
    Stop,
}

/// What an event calls for: every frame is written on as it is, and a socket
/// that fails or ends on either side ends the pump.
pub open spec fn pump_reaction<M>(event: PumpEvent<M>) -> PumpAction<M> {
    match event {
        PumpEvent::Frame(frame) => PumpAction::Write(frame),
        PumpEvent::ReadFailed => PumpAction::Stop,
        PumpEvent::Ended => PumpAction::Stop,
        PumpEvent::Written(ok) => if ok {
            PumpAction::Read
        } else {
            PumpAction::Stop
        },
    }
}

/// Decides what a pump does on an event.
pub fn pump_step<M>(event: PumpEvent<M>) -> (r: PumpAction<M>)
    ensures
        r == pump_reaction(event),
{
    match event {
        PumpEvent::Frame(frame) => PumpAction::Write(frame),
        PumpEvent::ReadFailed => PumpAction::Stop,
        PumpEvent::Ended => PumpAction::Stop,
        PumpEvent::Written(ok) => if ok {
            PumpAction::Read
        } else {
            PumpAction::Stop
        },
    }
}

/// The frames that a pump has read before it stopped.
pub open spec fn frames_read<M>(events: Seq<PumpEvent<M>>) -> Seq<M>
    decreases events.len(),
{
    if events.len() == 0 {
        Seq::empty()
    } else {
        match events.first() {
            PumpEvent::Frame(frame) => seq![frame] + frames_read(events.drop_first()),
            PumpEvent::Written(true) => frames_read(events.drop_first()),
            _ => Seq::empty(),
        }
    }
}

/// The frames that a pump writes before it stops.
pub open spec fn frames_written<M>(actions: Seq<PumpAction<M>>) -> Seq<M>
    decreases actions.len(),
{
    if actions.len() == 0 {
        Seq::empty()
    } else {
        match actions.first() {
            PumpAction::Write(frame) => seq![frame] + frames_written(actions.drop_first()),
            PumpAction::Read => frames_written(actions.drop_first()),
            PumpAction::Stop => Seq::empty(),
        }
    }
}

/// A pump writes exactly the frames that it has read, unaltered, in order, and
/// none twice.
pub proof fn law_pump_writes_what_it_reads<M>(
    events: Seq<PumpEvent<M>>,
    actions: Seq<PumpAction<M>>,
)
    requires
        events.len() == actions.len(),
        forall|i: int|
            0 <= i < events.len() ==> #[trigger] actions[i] == pump_reaction(events[i]),
    ensures
        frames_written(actions) == frames_read(events),
    decreases events.len(),
{
    if events.len() > 0 {
        assert(actions[0] == pump_reaction(events[0]));
        let rest = events.drop_first();
        let done = actions.drop_first();
        assert forall|i: int| 0 <= i < rest.len() implies #[trigger] done[i] == pump_reaction(
            rest[i],
        ) by {
            assert(actions[i + 1] == pump_reaction(events[i + 1]));
        }
        law_pump_writes_what_it_reads(rest, done);
    }
}

/// A frame is written on as it was read, the next is read once it was written,
/// and a pump stops when reading fails or ends or writing fails, and not before.
pub proof fn law_pump_does_what_is_due<M>(event: PumpEvent<M>, action: PumpAction<M>)
    requires
        call_ensures(pump_step::<M>, (event,), action),
    ensures
        event matches PumpEvent::Frame(frame) ==> action == PumpAction::Write(frame),
        event == PumpEvent::<M>::Written(true) ==> action is Read,
        action is Stop <==> event is ReadFailed || event is Ended || event
            == PumpEvent::<M>::Written(false),
{
}

} // verus!
