//! The message, its header, and the state of a connection.

use crate::buffer::held;
use crate::relay::messages::{wire, writable, NetRelayMessage, Said, WriteError};
use crate::text::{decimal, push_decimal, push_decimal_wide, push_truth, truth};
use crate::utils::time::{clock_range, elapsed, measured, stood_at, Duration};
use crate::utils::xprm::result_text;
use std::time::Instant;
use tokio_util::bytes::Bytes;
use vstd::prelude::*;

verus! {

pub type NETID = u64;

pub const NETID_NONE: NETID = 0;

pub const NETID_HOST: NETID = 1;

pub const NETID_RELAY: NETID = 2;

pub const NETID_ALL: NETID = 3;

/// The first NETID to start with for room NETIDs
/// Number is high to ensure games can allocate lower NETIDs for local use if required
pub const NETID_CLIENTS_RELAY_START: NETID = 0x10000;

/// A message between two peers, or between a peer and the relay.
#[derive(Debug)]
pub struct NetConnectionMessage {
    /// The message's source NETID
    pub source_netid: NETID,
    /// The message's intended destination NETID
    pub destination_netid: NETID,
    /// Is the data compressed?
    pub compressed: bool,
    /// Actual data contained in the message
    pub data: Bytes,
}

/// What a message says: its two ends, its flag and its bytes.
pub struct Envelope {
    pub source: NETID,
    pub destination: NETID,
    pub compressed: bool,
    pub data: Seq<u8>,
}

impl View for NetConnectionMessage {
    type V = Envelope;

    open spec fn view(&self) -> Envelope {
        Envelope {
            source: self.source_netid,
            destination: self.destination_netid,
            compressed: self.compressed,
            data: held(self.data),
        }
    }
}

impl Clone for NetConnectionMessage {
    fn clone(&self) -> (m: Self)
        ensures
            m@ == self@,
    {
        NetConnectionMessage {
            source_netid: self.source_netid,
            destination_netid: self.destination_netid,
            compressed: self.compressed,
            data: self.data.clone(),
        }
    }
}

/// The header of a message whose two NETIDs and data take `length` bytes: the magic number in
/// the highest and the lowest byte, the length above the flags between them.
pub open spec fn header_value(length: nat, compressed: bool) -> nat {
    0xDE000000000000CA + length * 0x1000000 + if compressed {
        256nat
    } else {
        0
    }
}

impl NetConnectionMessage {
    pub const MESSAGE_MAX_SIZE: usize = 33554432;

    /// Specifies this message contains compressed payload
    pub const FLAG_COMPRESSED: u16 = 1;

    pub const HEADER_SIZE: usize = 8;

    pub const HEADER_MAGIC: u64 = 0xDE000000000000CA;

    pub const HEADER_MASK: u64 = 0xFF000000000000FF;

    pub const SIZE_OF_NETID: usize = 8;

    /// The header of this message, and the size of the whole: header, NETIDs and data. A message
    /// above the size limit has none; its size is handed back.
    pub fn generate_header(&self) -> (r: Result<(u64, usize), usize>)
        ensures
            ({
                let total = self@.data.len() + 24;
                if total > 33554432 {
                    r == Err::<(u64, usize), usize>(total as usize)
                } else {
                    r matches Ok((header, size)) && size == total && header as nat == header_value(
                        (self@.data.len() + 16) as nat,
                        self.compressed,
                    )
                }
            }),
    {
        let data_len: usize = self.data.len() + Self::SIZE_OF_NETID * 2;
        let total_len: usize = data_len + Self::HEADER_SIZE;
        if total_len > Self::MESSAGE_MAX_SIZE {
            return Err(total_len);
        }
        let mut flags: u16 = 0;
        if self.compressed {
            flags = flags | Self::FLAG_COMPRESSED;
        }
        let header: u64 = Self::HEADER_MAGIC | ((flags as u64) << 8) | ((data_len as u64) << 24);
        proof {
            let f = flags as u64;
            let d = data_len as u64;
            assert(0u16 | 1u16 == 1u16) by (bit_vector);
            assert(0xDE000000000000CAu64 | (f << 8) | (d << 24) == 0xDE000000000000CAu64 + f * 256
                + d * 0x1000000) by (bit_vector)
                requires
                    f <= 1,
                    d <= 33554432,
            ;
        }
        Ok((header, total_len))
    }

    /// What this message is called in the log.
    pub open spec fn says(&self) -> Seq<char> {
        "NetConnectionMessage { Src/Dst: "@ + decimal(self.source_netid as nat) + " -> "@
            + decimal(self.destination_netid as nat) + ", Compressed: "@ + truth(self.compressed)
            + " DataLen: "@ + decimal(self@.data.len()) + " }"@
    }

    /// What this message is called in the log.
    pub fn to_text(&self) -> (s: String)
        ensures
            s@ == self.says(),
    {
        let mut s = "NetConnectionMessage { Src/Dst: ".to_owned();
        push_decimal(&mut s, self.source_netid);
        s.append(" -> ");
        push_decimal(&mut s, self.destination_netid);
        s.append(", Compressed: ");
        push_truth(&mut s, self.compressed);
        s.append(" DataLen: ");
        push_decimal(&mut s, self.data.len() as u64);
        s.append(" }");
        s
    }
}

/// What the stream of a connection brings.
#[derive(Debug)]
pub enum StreamMessage {
    PingResponse,
    Message(NetConnectionMessage),
}

/// What reading from a connection gives.
pub enum NetConnectionRead<T> {
    Closed,
    Empty,
    Data(T),
}

/// What a look at the stream of a connection finds.
pub enum Polled {
    /// The connection is closed already.
    Closed,
    /// Nothing has come yet.
    Pending,
    /// The stream has ended.
    Ended,
    /// The stream has failed.
    Failed,
    Item(StreamMessage),
}

/// What reading gives for what a look found, and whether the connection is to be closed.
pub open spec fn read_of(polled: Polled) -> (NetConnectionRead<NetConnectionMessage>, bool) {
    match polled {
        Polled::Closed => (NetConnectionRead::Closed, false),
        Polled::Pending => (NetConnectionRead::Empty, false),
        Polled::Ended => (NetConnectionRead::Closed, true),
        Polled::Failed => (NetConnectionRead::Closed, true),
        Polled::Item(StreamMessage::PingResponse) => (NetConnectionRead::Empty, false),
        Polled::Item(StreamMessage::Message(msg)) => (NetConnectionRead::Data(msg), false),
    }
}

/// The receiving half of a connection, around the stream `R` that brings its messages.
#[derive(Debug)]
pub struct NetConnectionStream<R> {
    pub info: String,
    pub stream: R,
    pub last_contact: Instant,
    pub timeout: Duration,
}

impl<R> NetConnectionStream<R> {
    /// Whether this half is `other`, but for the time of the last contact.
    pub open spec fn same_but_for_contact(&self, other: &Self) -> bool {
        self.info == other.info && self.stream == other.stream && self.timeout == other.timeout
    }

    /// A half whose last contact is now, and which no timeout closes.
    pub fn new(info: String, stream: R) -> (s: Self)
        ensures
            s.info == info,
            s.stream == stream,
            stood_at(s.last_contact),
            s.timeout@ == 0,
    {
        NetConnectionStream {
            info,
            stream,
            last_contact: Instant::now(),
            timeout: Duration::zero(),
        }
    }

    /// What reading gives for what a look at the stream found, and whether the connection is to
    /// be closed. An answer to a ping is a contact.
    pub fn read_message(&mut self, polled: Polled) -> (r: (
        NetConnectionRead<NetConnectionMessage>,
        bool,
    ))
        ensures
            r == read_of(polled),
            final(self).same_but_for_contact(old(self)),
            if polled matches Polled::Item(StreamMessage::PingResponse) {
                stood_at(final(self).last_contact)
            } else {
                *final(self) == *old(self)
            },
    {
        match polled {
            Polled::Closed => (NetConnectionRead::Closed, false),
            Polled::Pending => (NetConnectionRead::Empty, false),
            Polled::Ended => (NetConnectionRead::Closed, true),
            Polled::Failed => (NetConnectionRead::Closed, true),
            Polled::Item(StreamMessage::PingResponse) => {
                self.update_last_contact();
                (NetConnectionRead::Empty, false)
            },
            Polled::Item(StreamMessage::Message(msg)) => (NetConnectionRead::Data(msg), false),
        }
    }

    /// What reading gives for what a look at the stream found, where it is not waited for: what
    /// has not come yet is not there.
    pub fn try_read_message(&mut self, polled: Polled) -> (r: (
        NetConnectionRead<NetConnectionMessage>,
        bool,
    ))
        ensures
            r == read_of(polled),
            final(self).same_but_for_contact(old(self)),
            if polled matches Polled::Item(StreamMessage::PingResponse) {
                stood_at(final(self).last_contact)
            } else {
                *final(self) == *old(self)
            },
    {
        self.read_message(polled)
    }

    /// What reading gives for what was found before a timeout, or for the timeout if it came
    /// first, and whether the connection is to be closed.
    pub fn read_message_or_timeout(&mut self, polled: Option<Polled>) -> (r: (
        NetConnectionRead<NetConnectionMessage>,
        bool,
    ))
        ensures
            r == match polled {
                Some(polled) => read_of(polled),
                None => (NetConnectionRead::Empty, false),
            },
            final(self).same_but_for_contact(old(self)),
            if polled matches Some(Polled::Item(StreamMessage::PingResponse)) {
                stood_at(final(self).last_contact)
            } else {
                *final(self) == *old(self)
            },
    {
        match polled {
            Some(polled) => self.read_message(polled),
            None => (NetConnectionRead::Empty, false),
        }
    }

    pub fn set_timeout(&mut self, timeout: Duration)
        ensures
            *final(self) == (NetConnectionStream { timeout, ..*old(self) }),
    {
        self.timeout = timeout;
    }

    /// Notes that the peer was heard of now.
    pub fn update_last_contact(&mut self)
        ensures
            final(self).same_but_for_contact(old(self)),
            stood_at(final(self).last_contact),
    {
        self.last_contact = Instant::now();
    }

    /// The time since the last contact.
    pub fn seen(&self) -> (seen: Duration)
        ensures
            measured(self.last_contact, seen),
            clock_range(seen@),
    {
        elapsed(&self.last_contact)
    }

    /// Whether the last contact lies more than `duration` back.
    pub fn is_last_contact_more_than(&self, duration: Duration) -> (r: bool)
        ensures
            exists|seen: Duration| #[trigger]
                measured(self.last_contact, seen) && r == (seen@ > duration@),
    {
        let seen = self.seen();
        seen.exceeds(&duration)
    }

    /// Whether the peer, last heard of `seen` ago, is overdue.
    pub open spec fn overdue(&self, seen: nat) -> bool {
        self.timeout@ != 0 && seen > self.timeout@
    }

    /// Whether the peer, last heard of `seen` ago, is overdue.
    pub fn has_timed_out(&self, seen: Duration) -> (r: bool)
        ensures
            r == self.overdue(seen@),
    {
        !self.timeout.is_zero() && seen.exceeds(&self.timeout)
    }

    /// Whether the peer is overdue.
    pub fn has_contact_timeout(&self) -> (r: bool)
        ensures
            exists|seen: Duration| #[trigger]
                measured(self.last_contact, seen) && r == self.overdue(seen@),
    {
        let seen = self.seen();
        self.has_timed_out(seen)
    }

    /// What this half is called in the log.
    pub open spec fn says(&self) -> Seq<char> {
        "NCStream { Info: "@ + self.info@ + " }"@
    }

    /// What this half is called in the log.
    pub fn to_text(&self) -> (s: String)
        ensures
            s@ == self.says(),
    {
        let mut s = "NCStream { Info: ".to_owned();
        s.append(self.info.as_str());
        s.append(" }");
        s
    }
}

/// What ended a batch.
#[derive(Debug, Clone, Copy, PartialEq, Eq, Structural)]
pub enum Ending {
    Empty,
    Closed,
}

/// Messages that are read in one go: at most `max`, up to the first look that brings none.
pub struct ReadBatch {
    pub max: usize,
    pub msgs: Vec<NetConnectionMessage>,
    pub ending: Option<Ending>,
}

/// A batch, as values.
pub struct Batch {
    pub max: nat,
    pub msgs: Seq<NetConnectionMessage>,
    pub ending: Option<Ending>,
}

impl View for ReadBatch {
    type V = Batch;

    open spec fn view(&self) -> Batch {
        Batch { max: self.max as nat, msgs: self.msgs@, ending: self.ending }
    }
}

impl Batch {
    /// Whether the batch takes more.
    pub open spec fn open(self) -> bool {
        self.ending is None && self.msgs.len() < self.max
    }

    /// The batch behind what one more look gave.
    pub open spec fn with(self, read: NetConnectionRead<NetConnectionMessage>) -> Batch {
        match read {
            NetConnectionRead::Closed => Batch { ending: Some(Ending::Closed), ..self },
            NetConnectionRead::Empty => Batch { ending: Some(Ending::Empty), ..self },
            NetConnectionRead::Data(msg) => Batch { msgs: self.msgs.push(msg), ..self },
        }
    }

    /// The batch behind what looks gave, as long as it takes more.
    pub open spec fn with_all(self, reads: Seq<NetConnectionRead<NetConnectionMessage>>) -> Batch
        decreases reads.len(),
    {
        if reads.len() == 0 || !self.open() {
            self
        } else {
            self.with(reads[0]).with_all(reads.drop_first())
        }
    }

    /// What the batch comes to: an ending counts only where no message came before it.
    pub open spec fn result(self) -> NetConnectionRead<Seq<NetConnectionMessage>> {
        if self.msgs.len() == 0 && self.ending is Some {
            match self.ending {
                Some(Ending::Empty) => NetConnectionRead::Empty,
                _ => NetConnectionRead::Closed,
            }
        } else {
            NetConnectionRead::Data(self.msgs)
        }
    }
}

impl ReadBatch {
    /// A batch of at most `max` messages.
    pub fn new(max: usize) -> (b: Self)
        ensures
            b@ == (Batch { max: max as nat, msgs: Seq::empty(), ending: None }),
    {
        ReadBatch { max, msgs: Vec::new(), ending: None }
    }

    /// Whether the batch takes more.
    pub fn is_open(&self) -> (r: bool)
        ensures
            r == self@.open(),
    {
        self.ending.is_none() && self.msgs.len() < self.max
    }

    /// Takes what one more look gave.
    pub fn add(&mut self, read: NetConnectionRead<NetConnectionMessage>)
        requires
            old(self)@.open(),
        ensures
            final(self)@ == old(self)@.with(read),
    {
        match read {
            NetConnectionRead::Closed => {
                self.ending = Some(Ending::Closed);
            },
            NetConnectionRead::Empty => {
                self.ending = Some(Ending::Empty);
            },
            NetConnectionRead::Data(msg) => {
                self.msgs.push(msg);
            },
        }
    }

    /// What the batch comes to.
    pub fn finish(self) -> (r: NetConnectionRead<Vec<NetConnectionMessage>>)
        ensures
            match self@.result() {
                NetConnectionRead::Closed => r is Closed,
                NetConnectionRead::Empty => r is Empty,
                NetConnectionRead::Data(msgs) => r matches NetConnectionRead::Data(v) && v@ == msgs,
            },
    {
        if self.msgs.len() == 0 {
            match self.ending {
                Some(Ending::Empty) => return NetConnectionRead::Empty,
                Some(Ending::Closed) => return NetConnectionRead::Closed,
                None => {},
            }
        }
        NetConnectionRead::Data(self.msgs)
    }
}

impl<R> NetConnectionStream<R> {
    /// Adds what a look at the stream found to a batch, and says whether the connection is to be
    /// closed.
    pub fn try_read_messages(&mut self, batch: &mut ReadBatch, polled: Polled) -> (close: bool)
        requires
            old(batch)@.open(),
        ensures
            final(batch)@ == old(batch)@.with(read_of(polled).0),
            close == read_of(polled).1,
            final(self).same_but_for_contact(old(self)),
            if polled matches Polled::Item(StreamMessage::PingResponse) {
                stood_at(final(self).last_contact)
            } else {
                *final(self) == *old(self)
            },
    {
        let (read, close): (NetConnectionRead<NetConnectionMessage>, bool) =
            self.try_read_message(polled);
        batch.add(read);
        close
    }
}

/// A batch holds the messages of the first looks, in their order, up to `max` of them or to the
/// first look that brought none.
pub proof fn batch_in_order(
    start: Batch,
    reads: Seq<NetConnectionRead<NetConnectionMessage>>,
    n: nat,
)
    requires
        start.open(),
        n <= reads.len(),
        start.msgs.len() + n <= start.max,
        forall|i: int| 0 <= i < n ==> (#[trigger] reads[i]) is Data,
        n == reads.len() || start.msgs.len() + n == start.max || !(reads[n as int] is Data),
    ensures
        ({
            let end = start.with_all(reads);
            &&& end.msgs == start.msgs + Seq::new(n, |i: int| reads[i]->Data_0)
            &&& end.ending is Some <==> n < reads.len() && start.msgs.len() + n < start.max
        }),
    decreases reads.len(),
{
    let picked = Seq::new(n, |i: int| reads[i]->Data_0);
    if n == 0 {
        assert(start.msgs + picked =~= start.msgs);
        if reads.len() > 0 {
            let one = start.with(reads[0]);
            assert(!one.open());
            assert(one.with_all(reads.drop_first()) == one);
        }
    } else {
        let one = start.with(reads[0]);
        let rest = reads.drop_first();
        let picked_rest = Seq::new((n - 1) as nat, |i: int| rest[i]->Data_0);
        assert(start.msgs + picked =~= one.msgs + picked_rest);
        if one.open() {
            assert(n < reads.len() ==> rest[n - 1] == reads[n as int]);
            batch_in_order(one, rest, (n - 1) as nat);
        } else {
            assert(one.with_all(rest) == one);
            assert(picked_rest =~= Seq::empty());
        }
    }
}

/// What is asked of the task that writes to a connection.
#[derive(Debug)]
pub enum NetConnectionSinkMessage {
    CloseCode(u32),
    Flush,
    Send(NetConnectionMessage, bool),
}

/// What comes to the task that writes to a connection.
pub enum SinkEvent {
    /// A request from its queue.
    Asked(NetConnectionSinkMessage),
    /// The queue is closed and empty.
    QueueEnded,
    /// What it was told to do is done.
    Done,
    /// What it was told to do has failed.
    Failed,
}

/// What the task that writes to a connection has to do next.
pub enum SinkCommand {
    /// Wait for the next request.
    Receive,
    Feed(NetConnectionMessage),
    Flush,
    /// Feed this message, flush, and close the connection, whatever fails.
    Finish(NetConnectionMessage),
}

/// The task that writes to a connection.
#[derive(Debug, Clone, Copy, PartialEq, Eq, Structural)]
pub struct SinkTask {
    pub close_code: u32,
    /// Whether to flush behind the message that is being fed.
    pub flush: bool,
}

/// What the last message to a peer says: why its connection is closed.
pub open spec fn farewell(code: u32) -> Envelope {
    Envelope {
        source: NETID_RELAY,
        destination: NETID_NONE,
        compressed: false,
        data: wire(Said::Close(code), Ok(Seq::empty()))->Ok_0,
    }
}

/// The task behind an event.
pub open spec fn sink_after(task: SinkTask, event: SinkEvent) -> SinkTask {
    match event {
        SinkEvent::Asked(NetConnectionSinkMessage::CloseCode(code)) => SinkTask {
            close_code: code,
            flush: false,
        },
        SinkEvent::Asked(NetConnectionSinkMessage::Send(_, flush)) => SinkTask { flush, ..task },
        _ => SinkTask { flush: false, ..task },
    }
}

/// Whether `command` is what the task does upon an event.
pub open spec fn sink_does(task: SinkTask, event: SinkEvent, command: SinkCommand) -> bool {
    match event {
        SinkEvent::Asked(NetConnectionSinkMessage::CloseCode(_)) => command is Receive,
        SinkEvent::Asked(NetConnectionSinkMessage::Flush) => command is Flush,
        SinkEvent::Asked(NetConnectionSinkMessage::Send(msg, _)) => command == SinkCommand::Feed(
            msg,
        ),
        SinkEvent::Done => if task.flush {
            command is Flush
        } else {
            command is Receive
        },
        SinkEvent::QueueEnded | SinkEvent::Failed => command matches SinkCommand::Finish(msg)
            && msg@ == farewell(task.close_code),
    }
}

impl SinkTask {
    pub fn new() -> (t: Self)
        ensures
            t == (SinkTask { close_code: 0, flush: false }),
    {
        SinkTask { close_code: 0, flush: false }
    }

    /// The message that tells a peer why its connection is closed.
    pub fn close_message(code: u32) -> (m: NetConnectionMessage)
        ensures
            m@ == farewell(code),
    {
        NetConnectionMessage {
            source_netid: NETID_RELAY,
            destination_netid: NETID_NONE,
            compressed: false,
            data: NetRelayMessage::close_bytes(code),
        }
    }

    /// What to do upon `event`.
    pub fn next(&mut self, event: SinkEvent) -> (command: SinkCommand)
        ensures
            *final(self) == sink_after(*old(self), event),
            sink_does(*old(self), event, command),
    {
        let flush: bool = self.flush;
        self.flush = false;
        match event {
            SinkEvent::Asked(NetConnectionSinkMessage::CloseCode(code)) => {
                self.close_code = code;
                SinkCommand::Receive
            },
            SinkEvent::Asked(NetConnectionSinkMessage::Flush) => SinkCommand::Flush,
            SinkEvent::Asked(NetConnectionSinkMessage::Send(msg, flush)) => {
                self.flush = flush;
                SinkCommand::Feed(msg)
            },
            SinkEvent::Done => if flush {
                SinkCommand::Flush
            } else {
                SinkCommand::Receive
            },
            SinkEvent::QueueEnded | SinkEvent::Failed => SinkCommand::Finish(
                Self::close_message(self.close_code),
            ),
        }
    }
}

/// The task behind a run of events.
pub open spec fn sink_after_all(task: SinkTask, events: Seq<SinkEvent>) -> SinkTask
    decreases events.len(),
{
    if events.len() == 0 {
        task
    } else {
        sink_after(sink_after_all(task, events.drop_last()), events.last())
    }
}

/// The last close code that was asked for, or `code` if none was.
pub open spec fn last_close_code(code: u32, events: Seq<SinkEvent>) -> u32
    decreases events.len(),
{
    if events.len() == 0 {
        code
    } else {
        match events.last() {
            SinkEvent::Asked(NetConnectionSinkMessage::CloseCode(c)) => c,
            _ => last_close_code(code, events.drop_last()),
        }
    }
}

/// Whatever happens to a connection, its peer is told the last close code that was asked for.
pub proof fn farewell_tells_last_close_code(task: SinkTask, events: Seq<SinkEvent>)
    ensures
        sink_after_all(task, events).close_code == last_close_code(task.close_code, events),
    decreases events.len(),
{
    if events.len() > 0 {
        farewell_tells_last_close_code(task, events.drop_last());
    }
}

/// Why something was not written to a connection.
#[derive(Debug)]
pub enum NetConnectionWrite {
    Closed,
    Full,
    IO(WriteError),
}

/// What became of a request that was put in the queue of a connection.
#[derive(Debug, Clone, Copy, PartialEq, Eq, Structural)]
pub enum Queued {
    Taken,
    Full,
    Closed,
}

/// The sending half of a connection, around the queue `S` to the task that writes.
#[derive(Debug)]
pub struct NetConnectionSink<S> {
    pub info: String,
    pub netid: NETID,
    pub queue: S,
}

impl<S: Clone> Clone for NetConnectionSink<S> {
    fn clone(&self) -> (c: Self)
        ensures
            c.info == self.info,
            c.netid == self.netid,
            cloned(self.queue, c.queue),
    {
        NetConnectionSink {
            info: self.info.clone(),
            netid: self.netid,
            queue: self.queue.clone(),
        }
    }
}

impl<S> NetConnectionSink<S> {
    pub fn new(info: String, queue: S) -> (s: Self)
        ensures
            s == (NetConnectionSink { info, netid: NETID_NONE, queue }),
    {
        NetConnectionSink { info, netid: NETID_NONE, queue }
    }

    pub fn get_netid(&self) -> (netid: NETID)
        ensures
            netid == self.netid,
    {
        self.netid
    }

    pub fn set_netid(&mut self, netid: NETID)
        ensures
            *final(self) == (NetConnectionSink { netid, ..*old(self) }),
    {
        self.netid = netid;
    }

    /// What is asked of the task that writes, so that the peer is told `code` in the end.
    pub fn set_close_code(code: u32) -> (m: NetConnectionSinkMessage)
        ensures
            m == NetConnectionSinkMessage::CloseCode(code),
    {
        NetConnectionSinkMessage::CloseCode(code)
    }

    /// What is asked of the task that writes, so that everything is on its way.
    pub fn flush() -> (m: NetConnectionSinkMessage)
        ensures
            m == NetConnectionSinkMessage::Flush,
    {
        NetConnectionSinkMessage::Flush
    }

    /// What is asked of the task that writes, so that `msg` is sent.
    pub fn send_message(msg: NetConnectionMessage, flush: bool) -> (m: NetConnectionSinkMessage)
        ensures
            m == NetConnectionSinkMessage::Send(msg, flush),
    {
        NetConnectionSinkMessage::Send(msg, flush)
    }

    /// What is asked of the task that writes, so that `msg` is sent, where room in its queue is
    /// not waited for.
    pub fn try_send_message(msg: NetConnectionMessage, flush: bool) -> (m: NetConnectionSinkMessage)
        ensures
            m == NetConnectionSinkMessage::Send(msg, flush),
    {
        NetConnectionSinkMessage::Send(msg, flush)
    }

    /// What a request to a connection comes to: a closed one takes none, and of an open one
    /// `queued` says what became of it.
    pub fn try_send(closed: bool, queued: Queued) -> (r: Result<(), NetConnectionWrite>)
        ensures
            r is Ok <==> !closed && queued == Queued::Taken,
            r matches Err(NetConnectionWrite::Full) <==> !closed && queued == Queued::Full,
            r matches Err(NetConnectionWrite::Closed) <==> closed || queued == Queued::Closed,
    {
        if closed {
            return Err(NetConnectionWrite::Closed);
        }
        match queued {
            Queued::Taken => Ok(()),
            Queued::Full => Err(NetConnectionWrite::Full),
            Queued::Closed => Err(NetConnectionWrite::Closed),
        }
    }

    /// The message of the relay to this peer that says `msg`. A list goes out in XPrm notation,
    /// or as `json`, what a JSON writer made of it.
    pub fn send_relay_message(&self, msg: NetRelayMessage, json: Result<String, String>) -> (r: Result<
        NetConnectionMessage,
        NetConnectionWrite,
    >)
        requires
            writable(msg@, result_text(json)),
        ensures
            match wire(msg@, result_text(json)) {
                Ok(data) => r matches Ok(m) && m@ == (Envelope {
                    source: NETID_RELAY,
                    destination: self.netid,
                    compressed: false,
                    data,
                }),
                Err(fault) => r matches Err(NetConnectionWrite::IO(e)) && e@ == fault,
            },
    {
        match msg.into_bytes(json) {
            Ok(data) => Ok(
                NetConnectionMessage {
                    source_netid: NETID_RELAY,
                    destination_netid: self.netid,
                    compressed: false,
                    data,
                },
            ),
            Err(e) => Err(NetConnectionWrite::IO(e)),
        }
    }

    /// What this half is called in the log.
    pub open spec fn says(&self) -> Seq<char> {
        "NCSink { NETID: "@ + decimal(self.netid as nat) + ", Info: "@ + self.info@ + " }"@
    }

    /// What this half is called in the log.
    pub fn to_text(&self) -> (s: String)
        ensures
            s@ == self.says(),
    {
        let mut s = "NCSink { NETID: ".to_owned();
        push_decimal(&mut s, self.netid);
        s.append(", Info: ");
        s.append(self.info.as_str());
        s.append(" }");
        s
    }
}

/// A connection to a peer.
#[derive(Debug)]
pub struct NetConnection<S, R> {
    pub sink: NetConnectionSink<S>,
    pub stream: NetConnectionStream<R>,
}

impl<S, R> NetConnection<S, R> {
    /// Whether this connection is `other`, but for the time of the last contact.
    pub open spec fn same_but_for_contact(&self, other: &Self) -> bool {
        self.sink == other.sink && self.stream.same_but_for_contact(&other.stream)
    }

    pub fn from_parts(sink: NetConnectionSink<S>, stream: NetConnectionStream<R>) -> (c: Self)
        ensures
            c == (NetConnection { sink, stream }),
    {
        NetConnection { sink, stream }
    }

    /// A connection without a NETID, whose last contact is now.
    pub fn from_streams(info: String, queue: S, stream: R) -> (c: Self)
        ensures
            c.sink == (NetConnectionSink { info, netid: NETID_NONE, queue }),
            c.stream.info@ == info@,
            c.stream.stream == stream,
            stood_at(c.stream.last_contact),
            c.stream.timeout@ == 0,
    {
        let stream_info = info.clone();
        Self::from_parts(
            NetConnectionSink::new(info, queue),
            NetConnectionStream::new(stream_info, stream),
        )
    }

    pub fn into_streams(self) -> (parts: (NetConnectionSink<S>, NetConnectionStream<R>))
        ensures
            parts == (self.sink, self.stream),
    {
        (self.sink, self.stream)
    }

    pub fn get_netid(&self) -> (netid: NETID)
        ensures
            netid == self.sink.netid,
    {
        self.sink.get_netid()
    }

    pub fn set_netid(&mut self, netid: NETID)
        ensures
            final(self).sink == (NetConnectionSink { netid, ..old(self).sink }),
            final(self).stream == old(self).stream,
    {
        self.sink.set_netid(netid);
    }

    pub fn sink(&self) -> (s: &NetConnectionSink<S>)
        ensures
            *s == self.sink,
    {
        &self.sink
    }

    pub fn stream(&self) -> (s: &NetConnectionStream<R>)
        ensures
            *s == self.stream,
    {
        &self.stream
    }

    pub fn stream_mut(&mut self) -> (s: &mut NetConnectionStream<R>)
        ensures
            *s == old(self).stream,
            final(self).stream == *final(s),
            final(self).sink == old(self).sink,
    {
        &mut self.stream
    }

    /// Whether the connection is closed, where its halves report `stream_closed` and
    /// `sink_closed`.
    pub fn is_closed(stream_closed: bool, sink_closed: bool) -> (r: bool)
        ensures
            r == (stream_closed || sink_closed),
    {
        stream_closed || sink_closed
    }

    /// What this connection, last heard of `seen` ago, is called in the log.
    pub open spec fn says(&self, seen: nat) -> Seq<char> {
        if self.sink.netid == 0 {
            "NetConnection { NETID: "@ + decimal(self.sink.netid as nat) + ", Sink: "@
                + self.sink.info@ + ", Seen: "@ + decimal(seen / 1_000_000) + "ms }"@
        } else {
            "NetConnection { NETID: "@ + decimal(self.sink.netid as nat) + ", Seen: "@ + decimal(
                seen / 1_000_000,
            ) + "ms }"@
        }
    }

    /// What this connection, last heard of `seen` ago, is called in the log.
    pub fn to_text(&self, seen: Duration) -> (s: String)
        ensures
            s@ == self.says(seen@),
    {
        let mut s = "NetConnection { NETID: ".to_owned();
        push_decimal(&mut s, self.sink.netid);
        if self.sink.netid == 0 {
            s.append(", Sink: ");
            s.append(self.sink.info.as_str());
        }
        s.append(", Seen: ");
        push_decimal_wide(&mut s, seen.as_millis());
        s.append("ms }");
        s
    }
}

impl<S: Clone, R> NetConnection<S, R> {
    /// Another handle to the sending half.
    pub fn clone_sink(&self) -> (c: NetConnectionSink<S>)
        ensures
            c.info == self.sink.info,
            c.netid == self.sink.netid,
            cloned(self.sink.queue, c.queue),
    {
        self.sink.clone()
    }
}

} // verus!
