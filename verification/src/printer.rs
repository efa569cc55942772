//! The printer handle and its cloneable socket: the verified state
//! machine and send paths around the transport endpoints that the
//! asynchronous runtime owns. The runtime pieces — the bounded outbound
//! queue, the inbound broadcast, the background task's handle — are
//! opaque here; each call into them stands behind a trusted wrapper that
//! states no more than tokio's own documentation does.

use vstd::prelude::*;

use tokio::sync::broadcast::Receiver;
use tokio::sync::mpsc::Sender;
use tokio::task::JoinHandle;

use crate::gcode::{value_wf, GValue};
use crate::line::sequenced_line;
use crate::serializer::SharedSerializer;

verus! {

#[verifier::external_type_specification]
#[verifier::external_body]
#[verifier::reject_recursive_types(T)]
pub struct ExSender<T>(Sender<T>);

#[verifier::external_type_specification]
#[verifier::external_body]
#[verifier::reject_recursive_types(T)]
pub struct ExReceiver<T>(Receiver<T>);

#[verifier::external_type_specification]
#[verifier::external_body]
#[verifier::reject_recursive_types(T)]
pub struct ExJoinHandle<T>(JoinHandle<T>);

#[verifier::external_type_specification]
#[verifier::external_body]
pub struct ExJoinError(tokio::task::JoinError);

/// Why an operation on a live socket failed.
#[derive(Clone, Copy, Debug, PartialEq, Eq, Structural)]
pub enum Error {
    /// The bounded outbound queue is saturated; the command was not queued.
    QueueFull,
    /// The background task is gone, so the queue accepts nothing.
    Disconnected,
}

/// The one failure of operations that need a connected printer.
#[derive(Clone, Copy, Debug, PartialEq, Eq, Structural)]
pub enum DisconnectedError {
    Disconnected,
}

/// Relies on tokio's `mpsc::Sender::try_send`: queues the message without
/// waiting unless the queue is full (`TrySendError::Full`) or every
/// receiver is gone (`TrySendError::Closed`).
#[verifier::external_body]
fn try_send_line(sender: &Sender<Vec<u8>>, line: Vec<u8>) -> (r: Result<(), Error>) {
    match sender.try_send(line) {
        Ok(()) => Ok(()),
        Err(tokio::sync::mpsc::error::TrySendError::Full(_)) => Err(Error::QueueFull),
        Err(tokio::sync::mpsc::error::TrySendError::Closed(_)) => Err(Error::Disconnected),
    }
}

/// Relies on tokio's `broadcast::Receiver::resubscribe`: a fresh
/// subscription cursor on the same stream, starting at its current tail.
#[verifier::external_body]
fn resubscribe_lines(responses: &Receiver<Vec<u8>>) -> (r: Receiver<Vec<u8>>) {
    responses.resubscribe()
}

/// Relies on `Clone` for tokio's `mpsc::Sender`: another handle to the
/// same queue.
#[verifier::external_body]
fn clone_sender(sender: &Sender<Vec<u8>>) -> (r: Sender<Vec<u8>>) {
    sender.clone()
}

/// Relies on tokio's `JoinHandle::abort`: tells the runtime to cancel the
/// task as soon as it is not running.
#[verifier::external_body]
fn abort_task(task: &JoinHandle<()>)
    opens_invariants none
    no_unwind
{
    task.abort()
}

/// A cloneable capability to talk to one connected printer: the outbound
/// queue endpoint, the shared sequence counter, and a subscription to the
/// inbound broadcast. Clones share the queue and the counter; each clone
/// holds its own subscription cursor.
pub struct Socket {
    pub sender: Sender<Vec<u8>>,
    pub serializer: SharedSerializer,
    pub responses: Receiver<Vec<u8>>,
}

impl Socket {
    /// Assembles a socket from the endpoints the runtime created.
    pub fn assemble(
        sender: Sender<Vec<u8>>,
        serializer: SharedSerializer,
        responses: Receiver<Vec<u8>>,
    ) -> (r: Socket)
        ensures
            r.sender == sender,
            r.serializer == serializer,
            r.responses == responses,
    {
        Socket { sender, serializer, responses }
    }

    /// The synchronous core of a sequenced send, in the order the
    /// protocol requires: claim a sequence number and build the framed
    /// line for exactly that number, then open the subscription that will
    /// watch for its acknowledgement — before the caller commits the
    /// bytes, so the acknowledgement cannot slip past the correlator.
    pub fn prepare_send(&self, gcode: &GValue) -> (r: (i32, Vec<u8>, Receiver<Vec<u8>>))
        requires
            value_wf(*gcode),
        ensures
            r.1@ == sequenced_line(*gcode, r.0),
    {
        let (sequence, bytes) = self.serializer.serialize(gcode);
        let watch = resubscribe_lines(&self.responses);
        (sequence, bytes, watch)
    }

    /// Serializes the unsequenced line for `gcode` and queues it without
    /// waiting. Exactly the bytes of `unsequenced_line(gcode)` are handed
    /// to the queue, nothing else.
    pub fn send_unsequenced(&self, gcode: &GValue) -> (r: Result<(), Error>)
        requires
            value_wf(*gcode),
    {
        let bytes = self.serializer.serialize_unsequenced(gcode);
        try_send_line(&self.sender, bytes)
    }

    /// Queues a caller-supplied byte sequence verbatim: no framing, no
    /// checksum, no counter access.
    pub fn send_raw(&self, gcode: &[u8]) -> (r: Result<(), Error>) {
        let bytes = vstd::slice::slice_to_vec(gcode);
        try_send_line(&self.sender, bytes)
    }

    /// A fresh subscription to the inbound broadcast. A live socket is
    /// always connected to the stream, so this never fails.
    pub fn subscribe_lines(&self) -> (r: Result<Receiver<Vec<u8>>, DisconnectedError>)
        ensures
            r is Ok,
    {
        Ok(resubscribe_lines(&self.responses))
    }

    /// Stores `sequence` into the shared counter, for firmwares that were
    /// just told to reset their line number.
    pub fn set_sequence(&self, sequence: i32) {
        self.serializer.set_sequence(sequence);
    }
}

impl Clone for Socket {
    /// The clone shares the queue and the counter and holds a fresh
    /// subscription cursor.
    fn clone(&self) -> (r: Socket) {
        Socket {
            sender: clone_sender(&self.sender),
            serializer: self.serializer.clone(),
            responses: resubscribe_lines(&self.responses),
        }
    }
}

/// A handle to one printer: disconnected, or connected through a socket
/// with a background task driving the transport.
pub enum Printer {
    Disconnected,
    Connected { socket: Socket, com_task: JoinHandle<()> },
}

impl Printer {
    /// Assembles a connected printer from the parts the runtime created:
    /// the socket and the handle of the background I/O task.
    pub fn new(socket: Socket, com_task: JoinHandle<()>) -> (r: Printer)
        ensures
            r == (Printer::Connected { socket, com_task }),
    {
        Printer::Connected { socket, com_task }
    }

    /// Replaces whatever was connected with a new connection, aborting
    /// the previous background task.
    pub fn connect(&mut self, socket: Socket, com_task: JoinHandle<()>)
        ensures
            *final(self) == (Printer::Connected { socket, com_task }),
    {
        self.disconnect();
        *self = Printer::Connected { socket, com_task };
    }

    /// Drops the connection, aborting the background task.
    pub fn disconnect(&mut self)
        ensures
            (*final(self)) is Disconnected,
    {
        match &*self {
            Printer::Disconnected => {},
            Printer::Connected { com_task, .. } => {
                abort_task(com_task);
            },
        }
        *self = Printer::Disconnected;
    }

    pub fn is_connected(&self) -> (r: bool)
        ensures
            r == (self is Connected),
    {
        match self {
            Printer::Disconnected => false,
            Printer::Connected { .. } => true,
        }
    }

    /// The socket of a connected printer; `Disconnected` otherwise.
    pub fn socket(&self) -> (r: Result<&Socket, DisconnectedError>)
        ensures
            r is Ok <==> self is Connected,
            self is Connected ==> (r matches Ok(s) && *s == self->Connected_socket),
            self is Disconnected ==> r == Err::<&Socket, DisconnectedError>(
                DisconnectedError::Disconnected,
            ),
    {
        match self {
            Printer::Disconnected => Err(DisconnectedError::Disconnected),
            Printer::Connected { socket, .. } => Ok(socket),
        }
    }

    /// The socket of a connected printer, exclusively.
    pub fn socket_mut(&mut self) -> (r: Result<&mut Socket, DisconnectedError>)
        ensures
            r is Ok <==> (*old(self)) is Connected,
    {
        match self {
            Printer::Disconnected => Err(DisconnectedError::Disconnected),
            Printer::Connected { socket, .. } => Ok(socket),
        }
    }

    /// The background task's handle, while connected.
    pub fn background_task(&self) -> (r: Option<&JoinHandle<()>>)
        ensures
            r is Some <==> self is Connected,
            self is Connected ==> (r matches Some(t) && *t == self->Connected_com_task),
    {
        match self {
            Printer::Disconnected => None,
            Printer::Connected { com_task, .. } => Some(com_task),
        }
    }

    /// Sequenced-send core through the handle: fails when disconnected.
    pub fn prepare_send(&self, gcode: &GValue) -> (r: Result<
        (i32, Vec<u8>, Receiver<Vec<u8>>),
        DisconnectedError,
    >)
        requires
            value_wf(*gcode),
        ensures
            r is Ok <==> self is Connected,
            r matches Ok(p) ==> p.1@ == sequenced_line(*gcode, p.0),
    {
        match self.socket() {
            Ok(socket) => Ok(socket.prepare_send(gcode)),
            Err(e) => Err(e),
        }
    }

    /// Unsequenced send through the handle: fails when disconnected.
    pub fn send_unsequenced(&self, gcode: &GValue) -> (r: Result<(), Error>)
        requires
            value_wf(*gcode),
        ensures
            self is Disconnected ==> r == Err::<(), Error>(Error::Disconnected),
    {
        match self.socket() {
            Ok(socket) => socket.send_unsequenced(gcode),
            Err(_) => Err(Error::Disconnected),
        }
    }

    /// Raw send through the handle: fails when disconnected.
    pub fn send_raw(&self, gcode: &[u8]) -> (r: Result<(), Error>)
        ensures
            self is Disconnected ==> r == Err::<(), Error>(Error::Disconnected),
    {
        match self.socket() {
            Ok(socket) => socket.send_raw(gcode),
            Err(_) => Err(Error::Disconnected),
        }
    }

    /// A fresh subscription through the handle: fails when disconnected.
    pub fn subscribe_lines(&self) -> (r: Result<Receiver<Vec<u8>>, DisconnectedError>)
        ensures
            r is Ok <==> self is Connected,
    {
        match self.socket() {
            Ok(socket) => socket.subscribe_lines(),
            Err(e) => Err(e),
        }
    }
}

impl Drop for Printer {
    /// Dropping a connected printer aborts its background task, as
    /// `disconnect` does.
    fn drop(&mut self)
        opens_invariants none
        no_unwind
    {
        match &*self {
            Printer::Disconnected => {},
            Printer::Connected { com_task, .. } => {
                abort_task(com_task);
            },
        }
    }
}

impl Default for Printer {
    fn default() -> (r: Printer)
        ensures
            r is Disconnected,
    {
        Printer::Disconnected
    }
}

} // verus!
