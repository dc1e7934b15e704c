//! What connections promise, of the functions that keep the promise: how a message is laid out on
//! the wire and read back, and what becomes of what is read and written.

use crate::buffer::{be_bytes, be_roundtrip, bound, held, held_mut, le_bytes, lemma_be_bytes_len};
use crate::netconnection::codec::{
    frame, frame_roundtrip, NetConnectionCodec, NetConnectionCodecDecoder,
    NetConnectionCodecEncoder, NetConnectionCodecError,
};
use crate::netconnection::netconnection::{
    header_value, Ending, Envelope, NetConnection, NetConnectionMessage, NetConnectionRead,
    NetConnectionSink, NetConnectionSinkMessage, NetConnectionStream, NetConnectionWrite, Polled,
    Queued, ReadBatch, SinkCommand, SinkEvent, SinkTask, StreamMessage, NETID,
};
use crate::relay::protocol::sent_by_relay;
use crate::utils::laws::{in_digits, in_hex, lemma_in_digits, lemma_in_hex};
use crate::utils::time::{measured, stood_at, Duration};
use tokio_util::bytes::{Bytes, BytesMut};
use vstd::prelude::*;

verus! {

/// A message on the wire, numbers highest byte first: the magic number around the number of bytes
/// that follow and the flags, the two NETIDs, the source before the destination, and the data.
pub open spec fn wire_bytes(
    source: NETID,
    destination: NETID,
    compressed: bool,
    data: Seq<u8>,
) -> Seq<u8> {
    seq![0xDEu8] + be_bytes((data.len() + 16) as nat, 4) + seq![
        0u8,
        if compressed {
            1u8
        } else {
            0u8
        },
        0xCAu8,
    ] + be_bytes(source as nat, 8) + be_bytes(destination as nat, 8) + data
}

proof fn lemma_header_bytes(length: nat, compressed: bool)
    requires
        length < 0x1_0000_0000,
    ensures
        be_bytes(header_value(length, compressed), 8) == seq![0xDEu8] + be_bytes(length, 4) + seq![
            0u8,
            if compressed {
                1u8
            } else {
                0u8
            },
            0xCAu8,
        ],
{
    let c = if compressed {
        1u8
    } else {
        0u8
    };
    let head = seq![0xDEu8] + be_bytes(length, 4) + seq![0u8, c, 0xCAu8];
    lemma_header_value((0xDE, 0xCA), length, (0, c));
    lemma_be_back(head);
    lemma_be_bytes_len(length, 4);
}

proof fn lemma_be_back(s: Seq<u8>)
    ensures
        be_bytes(crate::buffer::be(s), s.len()) == s,
    decreases s.len(),
{
    if s.len() > 0 {
        let rest = s.drop_last();
        lemma_be_back(rest);
        let v = crate::buffer::be(s);
        assert(v == 256 * crate::buffer::be(rest) + s.last());
        assert(v / 256 == crate::buffer::be(rest));
        assert(v % 256 == s.last());
        assert(be_bytes(v, s.len()) =~= s);
    } else {
        assert(be_bytes(crate::buffer::be(s), s.len()) =~= s);
    }
}

pub proof fn lemma_frame(m: Envelope)
    requires
        m.data.len() + 24 <= 33554432,
    ensures
        frame(m) == wire_bytes(m.source, m.destination, m.compressed, m.data),
        frame(m).len() == m.data.len() + 24,
{
    lemma_header_bytes((m.data.len() + 16) as nat, m.compressed);
    lemma_be_bytes_len(header_value((m.data.len() + 16) as nat, m.compressed), 8);
    lemma_be_bytes_len(m.source as nat, 8);
    lemma_be_bytes_len(m.destination as nat, 8);
    assert(frame(m) =~= wire_bytes(m.source, m.destination, m.compressed, m.data));
}

/// Whether a message was written behind `before`: its bytes on the wire, or, where they would be
/// more than a message may have, nothing, and an error that names their number.
pub open spec fn written(
    item: NetConnectionMessage,
    before: BytesMut,
    after: BytesMut,
    r: Result<(), NetConnectionCodecError>,
) -> bool {
    let data = held(item.data);
    if data.len() + 24 > 33554432 {
        &&& r matches Err(NetConnectionCodecError::WrongLength(n))
        &&& n == data.len() + 24
        &&& held_mut(after) == held_mut(before)
    } else {
        &&& r is Ok
        &&& held_mut(after) == held_mut(before) + wire_bytes(
            item.source_netid,
            item.destination_netid,
            item.compressed,
            data,
        )
    }
}

/// A message is written as it is laid out on the wire, behind what was there, by each of the
/// encoders.
pub proof fn messages_are_laid_out(
    item: NetConnectionMessage,
    before: BytesMut,
    after: BytesMut,
    r: Result<(), NetConnectionCodecError>,
)
    requires
        (exists|dst: &mut BytesMut| #[trigger]
            call_ensures(NetConnectionCodecEncoder::encode_message, (item, dst), r) && *dst == before
                && *final(dst) == after) || (exists|
            e: &mut NetConnectionCodecEncoder,
            dst: &mut BytesMut,
        | #[trigger]
            call_ensures(NetConnectionCodecEncoder::encode, (e, item, dst), r) && *dst == before
                && *final(dst) == after) || (exists|c: &mut NetConnectionCodec, dst: &mut BytesMut|
         #[trigger]
            call_ensures(NetConnectionCodec::encode, (c, item, dst), r) && *dst == before && *final(dst)
                == after),
        held(item.data).len() + 24 <= usize::MAX,
    ensures
        written(item, before, after, r),
{
    let m = item@;
    assert(m.source == item.source_netid && m.destination == item.destination_netid
        && m.compressed == item.compressed && m.data == held(item.data));
    if m.data.len() + 24 <= 33554432 {
        lemma_frame(m);
    }
}

/// The same of the bytes of a WebSocket frame.
pub proof fn websocket_frames_are_laid_out(
    item: NetConnectionMessage,
    r: Result<Bytes, NetConnectionCodecError>,
)
    requires
        call_ensures(crate::http::ws::binary_frame, (item,), r),
        held(item.data).len() + 24 <= usize::MAX,
    ensures
        held(item.data).len() + 24 > 33554432 ==> (r matches Err(
            NetConnectionCodecError::WrongLength(n),
        ) && n == held(item.data).len() + 24),
        held(item.data).len() + 24 <= 33554432 ==> (r matches Ok(b) && held(b) == wire_bytes(
            item.source_netid,
            item.destination_netid,
            item.compressed,
            held(item.data),
        )),
{
    let m = item@;
    assert(m.source == item.source_netid && m.destination == item.destination_netid
        && m.compressed == item.compressed && m.data == held(item.data));
    if m.data.len() + 24 <= 33554432 {
        lemma_frame(m);
    }
}

/// Whether `r` is the message with these two ends, this flag and this data.
pub open spec fn brings(
    r: Result<Option<NetConnectionMessage>, NetConnectionCodecError>,
    source: NETID,
    destination: NETID,
    compressed: bool,
    data: Seq<u8>,
) -> bool {
    r matches Ok(Some(m)) && m.source_netid == source && m.destination_netid == destination
        && m.compressed == compressed && held(m.data) == data
}

/// The bytes of a message on the wire are decoded as that message, and what follows them is left,
/// in the middle of a stream and at its end.
pub proof fn messages_are_decoded(
    codec: NetConnectionCodec,
    before: BytesMut,
    source: NETID,
    destination: NETID,
    compressed: bool,
    data: Seq<u8>,
    rest: Seq<u8>,
    after: BytesMut,
    codec_after: NetConnectionCodec,
    r: Result<Option<NetConnectionMessage>, NetConnectionCodecError>,
)
    requires
        (exists|c: &mut NetConnectionCodec, src: &mut BytesMut| #[trigger]
            call_ensures(NetConnectionCodec::decode, (c, src), r) && *c == codec && *src == before
                && *final(c) == codec_after && *final(src) == after) || (exists|
            c: &mut NetConnectionCodec,
            src: &mut BytesMut,
        | #[trigger]
            call_ensures(NetConnectionCodec::decode_eof, (c, src), r) && *c == codec && *src
                == before && *final(c) == codec_after && *final(src) == after),
        codec.pending() is None,
        data.len() + 24 <= 33554432,
        held_mut(before) == wire_bytes(source, destination, compressed, data) + rest,
    ensures
        brings(r, source, destination, compressed, data),
        held_mut(after) == rest,
        codec_after.pending() is None,
{
    let m = Envelope { source, destination, compressed, data };
    lemma_frame(m);
    frame_roundtrip(m, rest);
    if let Ok(Some(msg)) = r {
        assert(msg@ == m);
        assert(msg@.source == msg.source_netid && msg@.destination == msg.destination_netid);
        assert(msg@.compressed == msg.compressed && msg@.data == held(msg.data));
    }
}

/// The same of a decoder alone.
pub proof fn decoders_decode(
    decoder: NetConnectionCodecDecoder,
    before: BytesMut,
    source: NETID,
    destination: NETID,
    compressed: bool,
    data: Seq<u8>,
    rest: Seq<u8>,
    after: BytesMut,
    decoder_after: NetConnectionCodecDecoder,
    r: Result<Option<NetConnectionMessage>, NetConnectionCodecError>,
)
    requires
        (exists|d: &mut NetConnectionCodecDecoder, src: &mut BytesMut| #[trigger]
            call_ensures(NetConnectionCodecDecoder::decode, (d, src), r) && *d == decoder && *src
                == before && *final(d) == decoder_after && *final(src) == after) || (exists|
            d: &mut NetConnectionCodecDecoder,
            src: &mut BytesMut,
        | #[trigger]
            call_ensures(NetConnectionCodecDecoder::decode_eof, (d, src), r) && *d == decoder
                && *src == before && *final(d) == decoder_after && *final(src) == after),
        decoder.pending() is None,
        data.len() + 24 <= 33554432,
        held_mut(before) == wire_bytes(source, destination, compressed, data) + rest,
    ensures
        brings(r, source, destination, compressed, data),
        held_mut(after) == rest,
        decoder_after.pending() is None,
{
    let m = Envelope { source, destination, compressed, data };
    lemma_frame(m);
    frame_roundtrip(m, rest);
    if let Ok(Some(msg)) = r {
        assert(msg@ == m);
        assert(msg@.source == msg.source_netid && msg@.destination == msg.destination_netid);
        assert(msg@.compressed == msg.compressed && msg@.data == held(msg.data));
    }
}

/// What does not begin and end like a header is no message, and a message that announces more
/// bytes than one may have is refused. Of a message that is not all there nothing is taken, but
/// that its header is kept; at the end of a stream the bytes of such a message are an error.
pub proof fn other_bytes_are_refused(
    codec: NetConnectionCodec,
    before: BytesMut,
    eof: bool,
    magic: (u8, u8),
    length: nat,
    flags: (u8, u8),
    rest: Seq<u8>,
    after: BytesMut,
    codec_after: NetConnectionCodec,
    r: Result<Option<NetConnectionMessage>, NetConnectionCodecError>,
)
    requires
        !eof ==> exists|c: &mut NetConnectionCodec, src: &mut BytesMut| #[trigger]
            call_ensures(NetConnectionCodec::decode, (c, src), r) && *c == codec && *src == before
                && *final(c) == codec_after && *final(src) == after,
        eof ==> exists|c: &mut NetConnectionCodec, src: &mut BytesMut| #[trigger]
            call_ensures(NetConnectionCodec::decode_eof, (c, src), r) && *c == codec && *src
                == before && *final(c) == codec_after && *final(src) == after,
        codec.pending() is None,
        length < 0x1_0000_0000,
        held_mut(before).len() <= usize::MAX,
        held_mut(before) == seq![magic.0] + be_bytes(length, 4) + seq![flags.0, flags.1, magic.1]
            + rest,
    ensures
        magic.0 != 0xDE || magic.1 != 0xCA ==> r matches Err(NetConnectionCodecError::HeaderMagic(_)),
        magic == (0xDEu8, 0xCAu8) && length + 8 > 33554432 ==> r matches Err(
            NetConnectionCodecError::WrongLength(_),
        ),
        magic == (0xDEu8, 0xCAu8) && length + 8 <= 33554432 && rest.len() < length ==> {
            &&& held_mut(after) == rest
            &&& codec_after.pending() is Some
            &&& !eof || rest.len() == 0 ==> (r matches Ok(None))
            &&& eof && rest.len() > 0 ==> (r matches Err(NetConnectionCodecError::BytesRemaining(n))
                && n == rest.len())
        },
{
    let head = seq![magic.0] + be_bytes(length, 4) + seq![flags.0, flags.1, magic.1];
    let src = held_mut(before);
    lemma_be_bytes_len(length, 4);
    assert(src.take(8) =~= head);
    assert(src.skip(8) =~= rest);
    lemma_header_value(magic, length, flags);
    assert(crate::netconnection::codec::magic_ok(crate::buffer::be(head)) <==> magic == (
        0xDEu8,
        0xCAu8,
    ));
    assert(crate::netconnection::codec::announced(crate::buffer::be(head)) == length);
}

proof fn lemma_header_value(magic: (u8, u8), length: nat, flags: (u8, u8))
    requires
        length < 0x1_0000_0000,
    ensures
        ({
            let v = crate::buffer::be(
                seq![magic.0] + be_bytes(length, 4) + seq![flags.0, flags.1, magic.1],
            );
            &&& v == magic.0 * 0x100000000000000 + length * 0x1000000 + flags.0 * 0x10000 + flags.1
                * 256 + magic.1
            &&& v / 0x100000000000000 == magic.0
            &&& v % 256 == magic.1
            &&& (v / 0x1000000) % 0x100000000 == length
        }),
{
    let bytes = be_bytes(length, 4);
    assert(bound(4) == 0x1_0000_0000) by {
        reveal_with_fuel(bound, 5);
    }
    be_roundtrip(length, 4);
    let five = seq![magic.0] + bytes;
    lemma_be_first(magic.0, bytes);
    lemma_be_push(five, flags.0);
    lemma_be_push(five.push(flags.0), flags.1);
    lemma_be_push(five.push(flags.0).push(flags.1), magic.1);
    assert(five + seq![flags.0, flags.1, magic.1] =~= five.push(flags.0).push(flags.1).push(
        magic.1,
    ));
    let m = magic.0 as nat;
    let h = crate::buffer::be(five);
    assert(h == m * 0x1_0000_0000 + length);
    let v = crate::buffer::be(five + seq![flags.0, flags.1, magic.1]);
    let low = flags.0 * 0x10000 + flags.1 * 256 + magic.1;
    assert(v == h * 0x1000000 + low);
    assert(0 <= low < 0x1000000);
    assert(v / 0x1000000 == h);
    assert(h % 0x1_0000_0000 == length && h / 0x1_0000_0000 == m) by (nonlinear_arith)
        requires
            h == m * 0x1_0000_0000 + length,
            0 <= length < 0x1_0000_0000,
    ;
    assert(v / 0x100000000000000 == m);
}

proof fn lemma_be_push(s: Seq<u8>, x: u8)
    ensures
        crate::buffer::be(s.push(x)) == 256 * crate::buffer::be(s) + x,
{
    assert(s.push(x).drop_last() =~= s);
}

proof fn lemma_be_first(x: u8, s: Seq<u8>)
    ensures
        crate::buffer::be(seq![x] + s) == x * bound(s.len()) + crate::buffer::be(s),
    decreases s.len(),
{
    if s.len() == 0 {
        assert(seq![x] + s =~= Seq::<u8>::empty().push(x));
        lemma_be_push(Seq::empty(), x);
        let b = bound(s.len());
        assert(x * b == x) by (nonlinear_arith)
            requires
                b == 1,
        ;
    } else {
        let rest = s.drop_last();
        lemma_be_first(x, rest);
        assert(seq![x] + s =~= (seq![x] + rest).push(s.last()));
        lemma_be_push(seq![x] + rest, s.last());
        let b = bound(rest.len());
        assert(bound(s.len()) == 256 * b);
        assert(s =~= rest.push(s.last()));
        lemma_be_push(rest, s.last());
        let c = bound(s.len());
        assert(x * c == 256 * (x * b)) by (nonlinear_arith)
            requires
                c == 256 * b,
        ;
    }
}

/// What reading from a connection gives: the message that came, nothing where none came or where a
/// ping was answered, and its end where there will be none. A stream that ends or fails closes its
/// connection; the answer to a ping counts as a contact, and nothing else does.
pub proof fn reading_gives_what_came<R>(
    before: NetConnectionStream<R>,
    polled: Polled,
    after: NetConnectionStream<R>,
    r: (NetConnectionRead<NetConnectionMessage>, bool),
)
    requires
        (exists|s: &mut NetConnectionStream<R>| #[trigger]
            call_ensures(NetConnectionStream::<R>::read_message, (s, polled), r) && *s == before
                && *final(s) == after) || (exists|s: &mut NetConnectionStream<R>| #[trigger]
            call_ensures(NetConnectionStream::<R>::try_read_message, (s, polled), r) && *s == before
                && *final(s) == after) || (exists|s: &mut NetConnectionStream<R>| #[trigger]
            call_ensures(
                NetConnectionStream::<R>::read_message_or_timeout,
                (s, Some(polled)),
                r,
            ) && *s == before && *final(s) == after),
    ensures
        polled matches Polled::Item(StreamMessage::Message(m)) ==> r.0
            == NetConnectionRead::Data(m),
        polled is Pending || polled == Polled::Item(StreamMessage::PingResponse) ==> r.0 is Empty,
        polled is Closed || polled is Ended || polled is Failed ==> r.0 is Closed,
        r.1 <==> polled is Ended || polled is Failed,
        after.info == before.info,
        after.stream == before.stream,
        after.timeout == before.timeout,
        polled == Polled::Item(StreamMessage::PingResponse) ==> stood_at(after.last_contact),
        polled != Polled::Item(StreamMessage::PingResponse) ==> after.last_contact
            == before.last_contact,
{
}

/// A read that is waited for too long gives nothing, and changes nothing.
pub proof fn waiting_too_long_gives_nothing<R>(
    before: NetConnectionStream<R>,
    after: NetConnectionStream<R>,
    r: (NetConnectionRead<NetConnectionMessage>, bool),
)
    requires
        exists|s: &mut NetConnectionStream<R>| #[trigger]
            call_ensures(NetConnectionStream::<R>::read_message_or_timeout, (s, None), r) && *s
                == before && *final(s) == after,
    ensures
        r.0 is Empty,
        !r.1,
        after == before,
{
}

/// A batch takes each message that comes, in their order, while it has fewer than its limit and
/// none was missing; what it comes to is its messages, or how it ended where there are none.
pub proof fn batches_take_what_comes(
    before: ReadBatch,
    open: bool,
    read: NetConnectionRead<NetConnectionMessage>,
    after: ReadBatch,
    result: NetConnectionRead<Vec<NetConnectionMessage>>,
)
    requires
        call_ensures(ReadBatch::is_open, (&before,), open),
        exists|b: &mut ReadBatch| #[trigger]
            call_ensures(ReadBatch::add, (b, read), ()) && *b == before && *final(b) == after,
        call_ensures(ReadBatch::finish, (before,), result),
    ensures
        open <==> before.ending is None && before.msgs@.len() < before.max,
        after.max == before.max,
        read matches NetConnectionRead::Data(m) ==> after.msgs@ == before.msgs@.push(m)
            && after.ending == before.ending,
        !(read is Data) ==> after.msgs@ == before.msgs@,
        read is Empty ==> after.ending == Some(Ending::Empty),
        read is Closed ==> after.ending == Some(Ending::Closed),
        before.msgs@.len() > 0 || before.ending is None ==> (result matches NetConnectionRead::Data(
            msgs,
        ) && msgs@ == before.msgs@),
        before.msgs@.len() == 0 && before.ending == Some(Ending::Empty) ==> result is Empty,
        before.msgs@.len() == 0 && before.ending == Some(Ending::Closed) ==> result is Closed,
{
    assert(after@.max == after.max as nat && after@.msgs == after.msgs@ && after@.ending
        == after.ending);
    assert(before@.max == before.max as nat && before@.msgs == before.msgs@ && before@.ending
        == before.ending);
}

/// A batch begins empty and open, unless it may take nothing.
pub proof fn batches_begin_empty(max: usize, b: ReadBatch)
    requires
        call_ensures(ReadBatch::new, (max,), b),
    ensures
        b.max == max,
        b.msgs@.len() == 0,
        b.ending is None,
{
    assert(b@.max == b.max as nat && b@.msgs == b.msgs@ && b@.ending == b.ending);
}

/// A look that is read into a batch is read as any other is.
pub proof fn batches_are_read<R>(
    before: NetConnectionStream<R>,
    batch: ReadBatch,
    polled: Polled,
    after: NetConnectionStream<R>,
    batch_after: ReadBatch,
    close: bool,
)
    requires
        exists|s: &mut NetConnectionStream<R>, b: &mut ReadBatch| #[trigger]
            call_ensures(NetConnectionStream::<R>::try_read_messages, (s, b, polled), close) && *s
                == before && *final(s) == after && *b == batch && *final(b) == batch_after,
    ensures
        close <==> polled is Ended || polled is Failed,
        polled matches Polled::Item(StreamMessage::Message(m)) ==> batch_after.msgs@
            == batch.msgs@.push(m) && batch_after.ending == batch.ending,
        !(polled matches Polled::Item(StreamMessage::Message(_))) ==> batch_after.msgs@
            == batch.msgs@ && batch_after.ending is Some,
        polled is Pending || polled == Polled::Item(StreamMessage::PingResponse)
            ==> batch_after.ending == Some(Ending::Empty),
        polled is Closed || polled is Ended || polled is Failed ==> batch_after.ending == Some(
            Ending::Closed,
        ),
        after.stream == before.stream,
        polled == Polled::Item(StreamMessage::PingResponse) ==> stood_at(after.last_contact),
        polled != Polled::Item(StreamMessage::PingResponse) ==> after.last_contact
            == before.last_contact,
{
    assert(batch_after@.msgs == batch_after.msgs@ && batch_after@.ending == batch_after.ending);
    assert(batch@.msgs == batch.msgs@ && batch@.ending == batch.ending);
}

/// What the task that writes to a connection does: it feeds what is to be sent, flushes where that
/// was asked for, waits otherwise, and at the end tells the peer the last code that was set.
pub proof fn what_is_sent_is_written(
    before: SinkTask,
    event: SinkEvent,
    after: SinkTask,
    command: SinkCommand,
)
    requires
        exists|t: &mut SinkTask| #[trigger]
            call_ensures(SinkTask::next, (t, event), command) && *t == before && *final(t) == after,
    ensures
        event matches SinkEvent::Asked(NetConnectionSinkMessage::Send(m, flush)) ==> command
            == SinkCommand::Feed(m) && after.flush == flush,
        event matches SinkEvent::Asked(NetConnectionSinkMessage::CloseCode(code)) ==> command
            is Receive && after.close_code == code,
        !(event matches SinkEvent::Asked(NetConnectionSinkMessage::CloseCode(_)))
            ==> after.close_code == before.close_code,
        event == SinkEvent::Asked(NetConnectionSinkMessage::Flush) ==> command is Flush,
        event is Done && before.flush ==> command is Flush && !after.flush,
        event is Done && !before.flush ==> command is Receive,
        event is QueueEnded || event is Failed ==> (command matches SinkCommand::Finish(m)
            && sent_by_relay(
            m,
            0,
            seq![1u8, 0u8, 0u8, 1u8] + le_bytes(before.close_code as nat, 4),
        )),
{
    if let SinkCommand::Finish(m) = command {
        if event is QueueEnded || event is Failed {
            crate::relay::protocol::lemma_farewell(before.close_code, m);
        }
    }
}

/// The same of the task behind a queue, which a failure does not stop.
pub proof fn what_is_queued_is_written(
    before: u32,
    event: crate::relay::netconnection::SinkEvent,
    after: u32,
    command: crate::relay::netconnection::SinkCommand,
)
    requires
        exists|code: &mut u32| #[trigger]
            call_ensures(crate::relay::netconnection::sink_task_next, (code, event), command)
                && *code == before && *final(code) == after,
    ensures
        event matches crate::relay::netconnection::SinkEvent::Asked(asked) ==> {
            &&& asked matches crate::relay::netconnection::NetConnectionSinkMessage::Send(m)
                ==> command == crate::relay::netconnection::SinkCommand::Send(m) && after == before
            &&& asked matches crate::relay::netconnection::NetConnectionSinkMessage::Feed(m)
                ==> command == crate::relay::netconnection::SinkCommand::Feed(m) && after == before
            &&& asked matches crate::relay::netconnection::NetConnectionSinkMessage::CloseCode(code)
                ==> command is Receive && after == code
            &&& asked is Flush ==> command is Flush && after == before
        },
        event is Finished ==> command is Receive && after == before,
        event is QueueEnded ==> after == before && (command matches
            crate::relay::netconnection::SinkCommand::Finish(m) && sent_by_relay(
            m,
            0,
            seq![1u8, 0u8, 0u8, 1u8] + le_bytes(before as nat, 4),
        )),
{
    if let crate::relay::netconnection::SinkCommand::Finish(m) = command {
        if event is QueueEnded {
            crate::relay::protocol::lemma_farewell(before, m);
        }
    }
}

/// What the task that reads from a connection does: it hands on each message, and then reads on,
/// until the stream or the queue is at its end.
pub proof fn what_is_read_is_handed_on(
    event: crate::relay::netconnection::StreamEvent,
    command: crate::relay::netconnection::StreamCommand,
)
    requires
        call_ensures(crate::relay::netconnection::stream_task_next, (event,), command),
    ensures
        event matches crate::relay::netconnection::StreamEvent::Message(m) ==> command
            == crate::relay::netconnection::StreamCommand::Forward(NetConnectionRead::Data(m)),
        event is Queued ==> command is Read,
        event is Ended || event is Failed || event is QueueClosed ==> command is Finish,
{
}

/// What reading from a queue gives: what was handed on, nothing where nothing was, and the end
/// where the connection is at its end, which closes it where it was not closed yet.
pub proof fn what_was_handed_on_is_read(
    received: crate::relay::netconnection::Received,
    r: (NetConnectionRead<NetConnectionMessage>, bool),
)
    requires
        call_ensures(crate::relay::netconnection::read_queued, (received,), r),
    ensures
        received matches crate::relay::netconnection::Received::Read(read) ==> r.0 == read && (r.1
            <==> read is Closed),
        received is Empty ==> r.0 is Empty && !r.1,
        received is Disconnected ==> r.0 is Closed && r.1,
        received is Closed ==> r.0 is Closed && !r.1,
{
}

/// What is to be sent is sent as it is, and flushed where that was asked for.
pub proof fn requests_hold_the_message<S>(
    m: NetConnectionMessage,
    flush: bool,
    a: NetConnectionSinkMessage,
    b: NetConnectionSinkMessage,
    c: crate::relay::netconnection::NetConnectionSinkMessage,
    code: u32,
    d: NetConnectionSinkMessage,
    e: NetConnectionSinkMessage,
)
    requires
        call_ensures(NetConnectionSink::<S>::send_message, (m, flush), a),
        call_ensures(NetConnectionSink::<S>::try_send_message, (m, flush), b),
        call_ensures(crate::relay::netconnection::send_request, (m, flush), c),
        call_ensures(NetConnectionSink::<S>::set_close_code, (code,), d),
        call_ensures(NetConnectionSink::<S>::flush, (), e),
    ensures
        a == NetConnectionSinkMessage::Send(m, flush),
        b == NetConnectionSinkMessage::Send(m, flush),
        flush ==> c == crate::relay::netconnection::NetConnectionSinkMessage::Send(m),
        !flush ==> c == crate::relay::netconnection::NetConnectionSinkMessage::Feed(m),
        d == NetConnectionSinkMessage::CloseCode(code),
        e is Flush,
{
}

/// A closed connection takes nothing; of an open one it is said what became of the request.
pub proof fn closed_connections_take_nothing<S>(
    closed: bool,
    queued: Queued,
    r: Result<(), NetConnectionWrite>,
)
    requires
        call_ensures(NetConnectionSink::<S>::try_send, (closed, queued), r),
    ensures
        closed ==> r matches Err(NetConnectionWrite::Closed),
        !closed && queued == Queued::Taken ==> r is Ok,
        !closed && queued == Queued::Full ==> r matches Err(NetConnectionWrite::Full),
        !closed && queued == Queued::Closed ==> r matches Err(NetConnectionWrite::Closed),
{
}

/// A connection is closed where either of its halves is.
pub proof fn half_closed_is_closed<S, R>(stream: bool, sink: bool, r: bool)
    requires
        call_ensures(NetConnection::<S, R>::is_closed, (stream, sink), r),
    ensures
        r <==> stream || sink,
{
}

/// A new connection has no NETID and no timeout, and counts as heard of now; a NETID that is given
/// to it is its NETID, and nothing else of it changes.
pub proof fn connections_have_the_netid_they_are_given<S, R>(
    info: String,
    queue: S,
    stream: R,
    conn: NetConnection<S, R>,
    netid: NETID,
    after: NetConnection<S, R>,
    said: NETID,
)
    requires
        call_ensures(NetConnection::<S, R>::from_streams, (info, queue, stream), conn),
        exists|c: &mut NetConnection<S, R>| #[trigger]
            call_ensures(NetConnection::<S, R>::set_netid, (c, netid), ()) && *c == conn && *final(c)
                == after,
        call_ensures(NetConnection::<S, R>::get_netid, (&after,), said),
    ensures
        conn.sink.netid == 0,
        conn.sink.queue == queue,
        conn.sink.info@ == info@,
        conn.stream.stream == stream,
        conn.stream.info@ == info@,
        conn.stream.timeout.nanos == 0,
        stood_at(conn.stream.last_contact),
        after.sink.netid == netid,
        said == netid,
        after.sink.queue == conn.sink.queue,
        after.sink.info == conn.sink.info,
        after.stream == conn.stream,
{
}

/// A peer is overdue where it has a timeout and was last heard of longer ago than that.
pub proof fn overdue_behind_the_timeout<R>(
    s: NetConnectionStream<R>,
    seen: Duration,
    late: bool,
    now: bool,
)
    requires
        call_ensures(NetConnectionStream::<R>::has_timed_out, (&s, seen), late),
        call_ensures(NetConnectionStream::<R>::has_contact_timeout, (&s,), now),
    ensures
        late <==> s.timeout.nanos > 0 && seen.nanos > s.timeout.nanos,
        exists|d: Duration| #[trigger]
            measured(s.last_contact, d) && (now <==> s.timeout.nanos > 0 && d.nanos
                > s.timeout.nanos),
{
    let d = choose|d: Duration| #[trigger] measured(s.last_contact, d) && now == s.overdue(d@);
    assert(measured(s.last_contact, d));
}

/// A connection is what it is put together from, and comes apart into that.
pub proof fn connections_come_apart<S, R>(
    sink: NetConnectionSink<S>,
    stream: NetConnectionStream<R>,
    conn: NetConnection<S, R>,
    parts: (NetConnectionSink<S>, NetConnectionStream<R>),
    out: &NetConnectionSink<S>,
    incoming: &NetConnectionStream<R>,
)
    requires
        call_ensures(NetConnection::<S, R>::from_parts, (sink, stream), conn),
        call_ensures(NetConnection::<S, R>::into_streams, (conn,), parts),
        call_ensures(NetConnection::<S, R>::sink, (&conn,), out),
        call_ensures(NetConnection::<S, R>::stream, (&conn,), incoming),
    ensures
        parts.0 == sink,
        parts.1 == stream,
        *out == sink,
        *incoming == stream,
{
}

/// A sink has no NETID until it is given one, and keeps its queue. A copy of it leads to the same
/// peer.
pub proof fn sinks_have_the_netid_they_are_given<S: Clone, R>(
    info: String,
    queue: S,
    sink: NetConnectionSink<S>,
    netid: NETID,
    after: NetConnectionSink<S>,
    said: NETID,
    conn: NetConnection<S, R>,
    copy: NetConnectionSink<S>,
)
    requires
        call_ensures(NetConnectionSink::<S>::new, (info, queue), sink),
        exists|s: &mut NetConnectionSink<S>| #[trigger]
            call_ensures(NetConnectionSink::<S>::set_netid, (s, netid), ()) && *s == sink && *final(s)
                == after,
        call_ensures(NetConnectionSink::<S>::get_netid, (&after,), said),
        call_ensures(NetConnection::<S, R>::clone_sink, (&conn,), copy),
    ensures
        sink.netid == 0,
        sink.info == info,
        sink.queue == queue,
        after.netid == netid,
        said == netid,
        after.info == info,
        after.queue == queue,
        copy.netid == conn.sink.netid,
        copy.info == conn.sink.info,
        cloned(conn.sink.queue, copy.queue),
{
}

/// A half that is read from is heard of when it begins and whenever that is noted, and has the
/// timeout that it is given. How long ago it was heard of is measured from then.
pub proof fn contacts_are_noted<R>(
    info: String,
    stream: R,
    fresh: NetConnectionStream<R>,
    timeout: Duration,
    limited: NetConnectionStream<R>,
    noted: NetConnectionStream<R>,
    seen: Duration,
    limit: Duration,
    longer: bool,
)
    requires
        call_ensures(NetConnectionStream::<R>::new, (info, stream), fresh),
        exists|s: &mut NetConnectionStream<R>| #[trigger]
            call_ensures(NetConnectionStream::<R>::set_timeout, (s, timeout), ()) && *s == fresh
                && *final(s) == limited,
        exists|s: &mut NetConnectionStream<R>| #[trigger]
            call_ensures(NetConnectionStream::<R>::update_last_contact, (s,), ()) && *s == limited
                && *final(s) == noted,
        call_ensures(NetConnectionStream::<R>::seen, (&noted,), seen),
        call_ensures(NetConnectionStream::<R>::is_last_contact_more_than, (&noted, limit), longer),
    ensures
        fresh.info == info,
        fresh.stream == stream,
        fresh.timeout.nanos == 0,
        stood_at(fresh.last_contact),
        limited.timeout == timeout,
        limited.info == info,
        limited.stream == stream,
        limited.last_contact == fresh.last_contact,
        noted.timeout == timeout,
        noted.info == info,
        noted.stream == stream,
        stood_at(noted.last_contact),
        measured(noted.last_contact, seen),
        exists|d: Duration| #[trigger]
            measured(noted.last_contact, d) && (longer <==> d.nanos > limit.nanos),
{
    let d = choose|d: Duration| #[trigger]
        measured(noted.last_contact, d) && longer == (d@ > limit@);
    assert(measured(noted.last_contact, d));
}

/// Nothing is to be told and nothing to be flushed when a sink begins.
pub proof fn sinks_begin_with_nothing_to_do(task: SinkTask)
    requires
        call_ensures(SinkTask::new, (), task),
    ensures
        task.close_code == 0,
        !task.flush,
{
}

/// A copy of a message says the same.
pub proof fn copies_of_messages_say_the_same(m: NetConnectionMessage, copy: NetConnectionMessage)
    requires
        call_ensures(NetConnectionMessage::clone, (&m,), copy),
    ensures
        copy.source_netid == m.source_netid,
        copy.destination_netid == m.destination_netid,
        copy.compressed == m.compressed,
        held(copy.data) == held(m.data),
{
    assert(copy@ == m@);
    assert(m@.source == m.source_netid && m@.destination == m.destination_netid);
    assert(m@.compressed == m.compressed && m@.data == held(m.data));
    assert(copy@.source == copy.source_netid && copy@.destination == copy.destination_netid);
    assert(copy@.compressed == copy.compressed && copy@.data == held(copy.data));
}

/// Messages and connections are called by what they are in the log, numbers in digits.
pub proof fn connections_are_called_by_what_they_are<S, R>(
    m: NetConnectionMessage,
    source: Seq<char>,
    destination: Seq<char>,
    length: Seq<char>,
    m_text: String,
    conn: NetConnection<S, R>,
    netid: Seq<char>,
    seen: Duration,
    millis: Seq<char>,
    conn_text: String,
    sink_text: String,
    stream_text: String,
)
    requires
        in_digits(m.source_netid as int, source),
        in_digits(m.destination_netid as int, destination),
        in_digits(held(m.data).len() as int, length),
        call_ensures(NetConnectionMessage::to_text, (&m,), m_text),
        in_digits(conn.sink.netid as int, netid),
        in_digits(seen.nanos as int / 1_000_000, millis),
        call_ensures(NetConnection::<S, R>::to_text, (&conn, seen), conn_text),
        call_ensures(NetConnectionSink::<S>::to_text, (&conn.sink,), sink_text),
        call_ensures(NetConnectionStream::<R>::to_text, (&conn.stream,), stream_text),
    ensures
        m_text@ == "NetConnectionMessage { Src/Dst: "@ + source + " -> "@ + destination
            + ", Compressed: "@ + (if m.compressed {
            "true"@
        } else {
            "false"@
        }) + " DataLen: "@ + length + " }"@,
        conn.sink.netid == 0 ==> conn_text@ == "NetConnection { NETID: "@ + netid + ", Sink: "@
            + conn.sink.info@ + ", Seen: "@ + millis + "ms }"@,
        conn.sink.netid != 0 ==> conn_text@ == "NetConnection { NETID: "@ + netid + ", Seen: "@
            + millis + "ms }"@,
        sink_text@ == "NCSink { NETID: "@ + netid + ", Info: "@ + conn.sink.info@ + " }"@,
        stream_text@ == "NCStream { Info: "@ + conn.stream.info@ + " }"@,
{
    lemma_in_digits(m.source_netid as int, source);
    lemma_in_digits(m.destination_netid as int, destination);
    lemma_in_digits(held(m.data).len() as int, length);
    lemma_in_digits(conn.sink.netid as int, netid);
    lemma_in_digits(seen.nanos as int / 1_000_000, millis);
}

/// What is wrong with what came is said with its number: a header in hexadecimal digits, a length
/// in decimal ones.
pub proof fn codec_errors_say_what_is_wrong(
    e: NetConnectionCodecError,
    digits: Seq<char>,
    s: String,
)
    requires
        call_ensures(NetConnectionCodecError::to_text, (&e,), s),
        e matches NetConnectionCodecError::HeaderMagic(n) ==> in_hex(n as int, digits),
        e matches NetConnectionCodecError::WrongLength(n) ==> in_digits(n as int, digits),
        e matches NetConnectionCodecError::BytesRemaining(n) ==> in_digits(n as int, digits),
    ensures
        e is HeaderMagic ==> s@ == "Message header magic error "@ + digits,
        e is WrongLength ==> s@ == "Message length error "@ + digits,
        e is BytesRemaining ==> s@ == "Stream bytes remaining after EOF "@ + digits,
        e is UnknownState ==> s@ == "Unknown state"@,
{
    match e {
        NetConnectionCodecError::HeaderMagic(n) => lemma_in_hex(n as int, digits),
        NetConnectionCodecError::WrongLength(n) => lemma_in_digits(n as int, digits),
        NetConnectionCodecError::BytesRemaining(n) => lemma_in_digits(n as int, digits),
        NetConnectionCodecError::UnknownState => {},
    }
}

} // verus!
