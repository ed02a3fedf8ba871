//! The decisions of the ingestion loop.
//!
//! The loop itself belongs to the host: it owns the socket, waits for
//! datagrams and publishes frames. After each thing that happens to it, it
//! hands the event to [`Ingestion::step`] and does what the returned action
//! says.

use vstd::prelude::*;
use crate::frame::{
    clipped, frame_of_bytes, parse_bounded, FrameView, ProgressFrame, MAX_DATAGRAM_SIZE,
};

verus! {

/// The port on which datagrams are awaited, on every local interface.
pub const LISTEN_PORT: u16 = 25527;

/// Where the ingestion subsystem stands in its life.
#[derive(Clone, Copy, Debug, PartialEq, Eq, Structural)]
pub enum Phase {
    /// Not started: the socket is not bound yet.
    Idle,
    /// Bound, and receiving datagrams one after another.
    Running,
    /// Ended by a fatal failure. Nothing leads out of this phase.
    Halted,
}

/// The failures that end the subsystem.
#[derive(Clone, Copy, Debug, PartialEq, Eq, Structural)]
pub enum Fault {
    /// The port could not be claimed.
    Bind,
    /// A receive call failed.
    Receive,
}

/// What the host reports to the loop's logic.
#[derive(Clone, Debug, PartialEq, Eq)]
pub enum Event {
    /// The socket was bound.
    Bound,
    /// Binding the socket failed.
    BindFailed,
    /// A datagram arrived; these are its bytes.
    Datagram(Vec<u8>),
    /// The receive call failed.
    ReceiveFailed,
    /// The last frame was handed to the subscribers.
    Emitted,
    /// Publishing the last frame failed.
    EmitFailed,
}

/// What the host is to do next.
#[derive(Clone, Debug, PartialEq, Eq)]
pub enum Action {
    /// Wait for the next datagram.
    Receive,
    /// Publish this frame.
    Emit(ProgressFrame),
    /// Write a diagnostic about the failed publication, then wait for the
    /// next datagram.
    LogAndReceive,
    /// Give up and report this failure to the caller.
    Abort(Fault),
    /// The event does not belong to the present phase: do nothing.
    Ignore,
}

/// An event as mathematics.
pub enum EventView {
    Bound,
    BindFailed,
    Datagram(Seq<u8>),
    ReceiveFailed,
    Emitted,
    EmitFailed,
}

/// An action as mathematics.
pub enum ActionView {
    Receive,
    Emit(FrameView),
    LogAndReceive,
    Abort(Fault),
    Ignore,
}

impl View for Event {
    type V = EventView;

    open spec fn view(&self) -> EventView {
        match *self {
            Event::Bound => EventView::Bound,
            Event::BindFailed => EventView::BindFailed,
            Event::Datagram(bytes) => EventView::Datagram(bytes@),
            Event::ReceiveFailed => EventView::ReceiveFailed,
            Event::Emitted => EventView::Emitted,
            Event::EmitFailed => EventView::EmitFailed,
        }
    }
}

impl View for Action {
    type V = ActionView;

    open spec fn view(&self) -> ActionView {
        match *self {
            Action::Receive => ActionView::Receive,
            Action::Emit(frame) => ActionView::Emit(frame@),
            Action::LogAndReceive => ActionView::LogAndReceive,
            Action::Abort(fault) => ActionView::Abort(fault),
            Action::Ignore => ActionView::Ignore,
        }
    }
}

/// The state of the loop's logic as mathematics.
pub struct IngestionView {
    /// The present phase.
    pub phase: Phase,
    /// The size at which datagrams are cut, in bytes.
    pub limit: nat,
}

/// The state of the loop's logic.
#[derive(Clone, Copy, Debug, PartialEq, Eq)]
pub struct Ingestion {
    phase: Phase,
    limit: usize,
}

/// The state after `event` in `state`, and the action that answers it.
///
/// Binding decides whether the subsystem runs at all. While it runs, each
/// datagram is cut at the limit and parsed on its own, a failed receive
/// ends everything, and a failed publication ends nothing.
pub open spec fn transition(state: IngestionView, event: EventView) -> (IngestionView, ActionView) {
    let halted = IngestionView { phase: Phase::Halted, limit: state.limit };
    let running = IngestionView { phase: Phase::Running, limit: state.limit };
    match (state.phase, event) {
        (Phase::Idle, EventView::Bound) => (running, ActionView::Receive),
        (Phase::Idle, EventView::BindFailed) => (halted, ActionView::Abort(Fault::Bind)),
        (Phase::Running, EventView::Datagram(bytes)) => (
            state,
            ActionView::Emit(frame_of_bytes(clipped(bytes, state.limit))),
        ),
        (Phase::Running, EventView::ReceiveFailed) => (halted, ActionView::Abort(Fault::Receive)),
        (Phase::Running, EventView::Emitted) => (state, ActionView::Receive),
        (Phase::Running, EventView::EmitFailed) => (state, ActionView::LogAndReceive),
        _ => (state, ActionView::Ignore),
    }
}

impl View for Ingestion {
    type V = IngestionView;

    closed spec fn view(&self) -> IngestionView {
        IngestionView { phase: self.phase, limit: self.limit as nat }
    }
}

impl Ingestion {
    /// A loop that has not started, with the default size for datagrams.
    pub fn new() -> (fresh: Ingestion)
        ensures
            fresh@ == (IngestionView { phase: Phase::Idle, limit: MAX_DATAGRAM_SIZE as nat }),
    {
        Ingestion { phase: Phase::Idle, limit: MAX_DATAGRAM_SIZE }
    }

    /// A loop that has not started and cuts datagrams at `limit` bytes.
    pub fn with_limit(limit: usize) -> (fresh: Ingestion)
        ensures
            fresh@ == (IngestionView { phase: Phase::Idle, limit: limit as nat }),
    {
        Ingestion { phase: Phase::Idle, limit }
    }

    /// The present phase.
    pub fn phase(&self) -> (phase: Phase)
        ensures
            phase == self@.phase,
    {
        self.phase
    }

    /// The size of the buffer to receive into, in bytes.
    pub fn limit(&self) -> (limit: usize)
        ensures
            limit == self@.limit,
    {
        self.limit
    }

    /// Takes note of `event` and says what to do next.
    pub fn step(&mut self, event: Event) -> (action: Action)
        ensures
            (final(self)@, action@) == transition(old(self)@, event@),
    {
        match self.phase {
            Phase::Idle => match event {
                Event::Bound => {
                    self.phase = Phase::Running;
                    Action::Receive
                },
                Event::BindFailed => {
                    self.phase = Phase::Halted;
                    Action::Abort(Fault::Bind)
                },
                _ => Action::Ignore,
            },
            Phase::Running => match event {
                Event::Datagram(bytes) => Action::Emit(parse_bounded(bytes.as_slice(), self.limit)),
                Event::ReceiveFailed => {
                    self.phase = Phase::Halted;
                    Action::Abort(Fault::Receive)
                },
                Event::Emitted => Action::Receive,
                Event::EmitFailed => Action::LogAndReceive,
                _ => Action::Ignore,
            },
            Phase::Halted => Action::Ignore,
        }
    }
}

} // verus!
