//! The worker of one connection: it turns what the connection does into the
//! events that the registry consumes.
//!
//! A worker performs no I/O. It says what it waits for ([`Worker::command`]),
//! the caller does that on the connection, and says what came of it
//! ([`Worker::advance`]).

use vstd::prelude::*;
use crate::address::Address;
use crate::event::Event;
use crate::model::EventModel;
use crate::text::{decode_lossy, display_name, lossy_text, without_trailing_newlines, PROMPT};

verus! {

/// The most that one read takes: a name or a message longer than this comes
/// in pieces.
pub const READ_LIMIT: usize = 1024;

/// Where a worker stands in the life of its connection. Until the client is
/// announced the worker keeps the write side of the connection, to hand it
/// over with the announcement.
#[derive(Debug, PartialEq, Eq)]
pub enum Phase<C> {
    /// The prompt for the name has yet to be written.
    Greeting { output_channel: C },
    /// The prompt is out; the next read is the name.
    AwaitingName { output_channel: C },
    /// The client is announced; every read is a message.
    Relaying,
    /// The worker is done: it waits for nothing and sends nothing.
    Stopped,
}

/// The worker of the connection at `address`.
#[derive(Debug, PartialEq, Eq)]
pub struct Worker<C> {
    pub address: Address,
    pub phase: Phase<C>,
}

/// What the caller is to do on the connection next.
#[derive(Debug, PartialEq, Eq)]
pub enum Command {
    /// Write the text, and say whether that worked.
    Write { text: &'static str },
    /// Read once, at most `limit` bytes, and say what came.
    Read { limit: usize },
    /// Nothing more: the worker has ended.
    Stop,
}

/// What came of the last command.
#[derive(Debug)]
pub enum Signal<'a> {
    /// The write went through.
    Written,
    /// The write failed.
    WriteFailed,
    /// The read returned these bytes; none at all means that the peer closed
    /// the connection.
    Read { bytes: &'a [u8] },
    /// The read failed.
    ReadFailed,
}

/// A signal as the model has it.
pub enum SignalModel {
    Written,
    WriteFailed,
    Read { bytes: Seq<u8> },
    ReadFailed,
}

impl<'a> View for Signal<'a> {
    type V = SignalModel;

    open spec fn view(&self) -> SignalModel {
        match *self {
            Signal::Written => SignalModel::Written,
            Signal::WriteFailed => SignalModel::WriteFailed,
            Signal::Read { bytes } => SignalModel::Read { bytes: bytes@ },
            Signal::ReadFailed => SignalModel::ReadFailed,
        }
    }
}

/// The event a step gave, as the model has it.
pub open spec fn emitted<C>(event: Option<Event<C>>) -> Option<EventModel<C>> {
    match event {
        Some(event) => Some(event@),
        None => None,
    }
}

/// What the worker waits for in each phase: to have the prompt written, then
/// to read, the name first and messages after it, and in the end nothing.
pub open spec fn awaited<C>(worker: Worker<C>) -> Command {
    match worker.phase {
        Phase::Greeting { .. } => Command::Write { text: PROMPT },
        Phase::AwaitingName { .. } => Command::Read { limit: READ_LIMIT },
        Phase::Relaying => Command::Read { limit: READ_LIMIT },
        Phase::Stopped => Command::Stop,
    }
}

/// The transition of a worker: where it stands after `signal`, and the event
/// it sends, if any.
///
/// A failed handshake, write or read, ends the worker without a word to the
/// registry. The first read after the prompt is the name, whatever it holds.
/// From then on a read of no bytes is the end of the connection, any other
/// read is a message, and a failed read is passed over. A signal that does
/// not answer what the worker waits for changes nothing.
pub open spec fn advance_model<C>(worker: Worker<C>, signal: SignalModel) -> (
    Worker<C>,
    Option<EventModel<C>>,
) {
    let address = worker.address;
    match (worker.phase, signal) {
        (Phase::Greeting { output_channel }, SignalModel::Written) => (
            Worker { address, phase: Phase::AwaitingName { output_channel } },
            None,
        ),
        (Phase::Greeting { .. }, SignalModel::WriteFailed) => (
            Worker { address, phase: Phase::Stopped },
            None,
        ),
        (Phase::AwaitingName { output_channel }, SignalModel::Read { bytes }) => (
            Worker { address, phase: Phase::Relaying },
            Some(
                EventModel::Connected {
                    address,
                    display_name: without_trailing_newlines(lossy_text(bytes)),
                    output_channel,
                },
            ),
        ),
        (Phase::AwaitingName { .. }, SignalModel::ReadFailed) => (
            Worker { address, phase: Phase::Stopped },
            None,
        ),
        (Phase::Relaying, SignalModel::Read { bytes }) => if bytes.len() == 0 {
            (Worker { address, phase: Phase::Stopped }, Some(EventModel::Disconnected { address }))
        } else {
            (
                Worker { address, phase: Phase::Relaying },
                Some(EventModel::TextReceived { address, content: lossy_text(bytes) }),
            )
        },
        _ => (worker, None),
    }
}

/// Where a worker stands after a run of signals, and the events it sent on
/// the way, in order.
pub open spec fn trace<C>(worker: Worker<C>, signals: Seq<SignalModel>) -> (
    Worker<C>,
    Seq<EventModel<C>>,
)
    decreases signals.len(),
{
    if signals.len() == 0 {
        (worker, Seq::empty())
    } else {
        let (before, events) = trace(worker, signals.drop_last());
        let (after, event) = advance_model(before, signals.last());
        (
            after,
            match event {
                Some(event) => events.push(event),
                None => events,
            },
        )
    }
}

impl<C> Worker<C> {
    /// The worker of a connection that was just accepted.
    pub fn new(address: Address, output_channel: C) -> (worker: Self)
        ensures
            worker == (Worker { address, phase: Phase::Greeting { output_channel } }),
    {
        Worker { address, phase: Phase::Greeting { output_channel } }
    }

    /// What the worker waits for.
    pub fn command(&self) -> (command: Command)
        ensures
            command == awaited(*self),
    {
        match &self.phase {
            Phase::Greeting { .. } => Command::Write { text: PROMPT },
            Phase::AwaitingName { .. } => Command::Read { limit: READ_LIMIT },
            Phase::Relaying => Command::Read { limit: READ_LIMIT },
            Phase::Stopped => Command::Stop,
        }
    }

    /// Takes what came of the last command: the worker as it stands now, and
    /// the event to send to the registry, if there is one.
    pub fn advance(self, signal: Signal<'_>) -> (next: (Worker<C>, Option<Event<C>>))
        ensures
            (next.0, emitted(next.1)) == advance_model(self, signal@),
    {
        let address = self.address;
        match (self.phase, signal) {
            (Phase::Greeting { output_channel }, Signal::Written) => (
                Worker { address, phase: Phase::AwaitingName { output_channel } },
                None,
            ),
            (Phase::Greeting { .. }, Signal::WriteFailed) => (
                Worker { address, phase: Phase::Stopped },
                None,
            ),
            (Phase::AwaitingName { output_channel }, Signal::Read { bytes }) => {
                let reply = decode_lossy(bytes);
                let display_name = display_name(reply.as_str());
                (
                    Worker { address, phase: Phase::Relaying },
                    Some(Event::Connected { address, display_name, output_channel }),
                )
            },
            (Phase::AwaitingName { .. }, Signal::ReadFailed) => (
                Worker { address, phase: Phase::Stopped },
                None,
            ),
            (Phase::Relaying, Signal::Read { bytes }) => {
                if bytes.len() == 0 {
                    (Worker { address, phase: Phase::Stopped }, Some(Event::Disconnected { address }))
                } else {
                    let content = decode_lossy(bytes);
                    (
                        Worker { address, phase: Phase::Relaying },
                        Some(Event::TextReceived { address, content }),
                    )
                }
            },
            (phase, _) => (Worker { address, phase }, None),
        }
    }
}

} // verus!
