//! Connections whose stream is read by a task of its own, which hands the messages on through a
//! queue.

pub use crate::netconnection::netconnection::{
    NetConnection, NetConnectionMessage, NetConnectionRead, NetConnectionSink,
    NetConnectionStream, NetConnectionWrite, NETID, NETID_ALL, NETID_CLIENTS_RELAY_START,
    NETID_HOST, NETID_NONE, NETID_RELAY,
};
use crate::netconnection::netconnection::{farewell, SinkTask};
use crate::utils::time::{measured, Duration};
use vstd::prelude::*;

verus! {

/// What comes to the task that reads from a connection.
pub enum StreamEvent {
    Message(NetConnectionMessage),
    /// The stream has ended.
    Ended,
    /// The stream has failed.
    Failed,
    /// The queue has taken what was handed on.
    Queued,
    /// The queue is closed.
    QueueClosed,
}

/// What the task that reads from a connection has to do next.
pub enum StreamCommand {
    /// Wait for the next message.
    Read,
    /// Put this in the queue.
    Forward(NetConnectionRead<NetConnectionMessage>),
    Finish,
}

/// What the task that reads from a connection does upon an event: it hands each message on, one
/// at a time, until the stream or the queue is at its end.
pub open spec fn stream_does(event: StreamEvent) -> StreamCommand {
    match event {
        StreamEvent::Message(msg) => StreamCommand::Forward(NetConnectionRead::Data(msg)),
        StreamEvent::Queued => StreamCommand::Read,
        StreamEvent::Ended | StreamEvent::Failed | StreamEvent::QueueClosed => StreamCommand::Finish,
    }
}

/// What the task that reads from a connection does upon `event`.
pub fn stream_task_next(event: StreamEvent) -> (command: StreamCommand)
    ensures
        command == stream_does(event),
{
    match event {
        StreamEvent::Message(msg) => StreamCommand::Forward(NetConnectionRead::Data(msg)),
        StreamEvent::Queued => StreamCommand::Read,
        StreamEvent::Ended | StreamEvent::Failed | StreamEvent::QueueClosed => StreamCommand::Finish,
    }
}

/// What a look at the queue of a connection finds.
pub enum Received {
    /// The connection is closed already.
    Closed,
    Empty,
    /// The task that fills the queue is gone, and the queue is empty.
    Disconnected,
    Read(NetConnectionRead<NetConnectionMessage>),
}

/// What reading gives for what a look at the queue found, and whether the connection is to be
/// closed.
pub open spec fn received_as(received: Received) -> (NetConnectionRead<NetConnectionMessage>, bool) {
    match received {
        Received::Closed => (NetConnectionRead::Closed, false),
        Received::Empty => (NetConnectionRead::Empty, false),
        Received::Disconnected => (NetConnectionRead::Closed, true),
        Received::Read(read) => (read, read is Closed),
    }
}

/// What reading gives for what a look at the queue found, and whether the connection is to be
/// closed.
pub fn read_queued(received: Received) -> (r: (NetConnectionRead<NetConnectionMessage>, bool))
    ensures
        r == received_as(received),
{
    match received {
        Received::Closed => (NetConnectionRead::Closed, false),
        Received::Empty => (NetConnectionRead::Empty, false),
        Received::Disconnected => (NetConnectionRead::Closed, true),
        Received::Read(NetConnectionRead::Closed) => (NetConnectionRead::Closed, true),
        Received::Read(read) => (read, false),
    }
}

/// What is asked of the task that writes to a connection.
pub enum NetConnectionSinkMessage {
    CloseCode(u32),
    Flush,
    Feed(NetConnectionMessage),
    Send(NetConnectionMessage),
}

/// What comes to the task that writes to a connection.
pub enum SinkEvent {
    Asked(NetConnectionSinkMessage),
    /// The queue is closed and empty.
    QueueEnded,
    /// What it was told to do is done, or has failed.
    Finished,
}

/// What the task that writes to a connection has to do next.
pub enum SinkCommand {
    /// Wait for the next request.
    Receive,
    Flush,
    Feed(NetConnectionMessage),
    /// Feed this message and flush.
    Send(NetConnectionMessage),
    /// Send this message and close the connection, whatever fails.
    Finish(NetConnectionMessage),
}

/// The close code behind an event.
pub open spec fn code_after(code: u32, event: SinkEvent) -> u32 {
    match event {
        SinkEvent::Asked(NetConnectionSinkMessage::CloseCode(c)) => c,
        _ => code,
    }
}

/// Whether `command` is what the task does upon an event. A failure does not stop it.
pub open spec fn queue_sink_does(code: u32, event: SinkEvent, command: SinkCommand) -> bool {
    match event {
        SinkEvent::Asked(NetConnectionSinkMessage::CloseCode(_)) => command is Receive,
        SinkEvent::Asked(NetConnectionSinkMessage::Flush) => command is Flush,
        SinkEvent::Asked(NetConnectionSinkMessage::Feed(msg)) => command == SinkCommand::Feed(msg),
        SinkEvent::Asked(NetConnectionSinkMessage::Send(msg)) => command == SinkCommand::Send(msg),
        SinkEvent::Finished => command is Receive,
        SinkEvent::QueueEnded => command matches SinkCommand::Finish(msg) && msg@ == farewell(code),
    }
}

/// What the task that writes to a connection does upon `event`, with `close_code` the last close
/// code that it was asked for.
pub fn sink_task_next(close_code: &mut u32, event: SinkEvent) -> (command: SinkCommand)
    ensures
        *final(close_code) == code_after(*old(close_code), event),
        queue_sink_does(*old(close_code), event, command),
{
    match event {
        SinkEvent::Asked(NetConnectionSinkMessage::CloseCode(code)) => {
            *close_code = code;
            SinkCommand::Receive
        },
        SinkEvent::Asked(NetConnectionSinkMessage::Flush) => SinkCommand::Flush,
        SinkEvent::Asked(NetConnectionSinkMessage::Feed(msg)) => SinkCommand::Feed(msg),
        SinkEvent::Asked(NetConnectionSinkMessage::Send(msg)) => SinkCommand::Send(msg),
        SinkEvent::Finished => SinkCommand::Receive,
        SinkEvent::QueueEnded => SinkCommand::Finish(SinkTask::close_message(*close_code)),
    }
}

/// What is asked of the task that is to write `msg`, and to flush behind it or not.
pub fn send_request(msg: NetConnectionMessage, flush: bool) -> (r: NetConnectionSinkMessage)
    ensures
        r == if flush {
            NetConnectionSinkMessage::Send(msg)
        } else {
            NetConnectionSinkMessage::Feed(msg)
        },
{
    if flush {
        NetConnectionSinkMessage::Send(msg)
    } else {
        NetConnectionSinkMessage::Feed(msg)
    }
}

/// Whether a contact `seen` ago lies more than `millis` whole milliseconds back.
pub fn is_contact_more_than(seen: Duration, millis: u64) -> (r: bool)
    ensures
        r == (seen@ / 1_000_000 > millis),
{
    seen.as_millis() > millis as u128
}

/// Whether the last contact of `conn` lies more than `millis` whole milliseconds back.
pub fn is_last_contact_more_than<S, R>(conn: &NetConnection<S, R>, millis: u64) -> (r: bool)
    ensures
        exists|seen: Duration| #[trigger]
            measured(conn.stream.last_contact, seen) && r == (seen@ / 1_000_000 > millis),
{
    let seen = conn.stream().seen();
    is_contact_more_than(seen, millis)
}

} // verus!
