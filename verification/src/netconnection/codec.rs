//! A codec for messages delimited by a header that specifies their lengths.

use crate::buffer::{
    as_slice, as_slice_mut, be, be_bytes, be_roundtrip, bound, fits, get_u64, held_mut,
    lemma_be_bytes_len, peek_u64, put_u64,
};
use crate::netconnection::netconnection::{header_value, Envelope, NetConnectionMessage};
use crate::text::{decimal, hex, push_decimal, push_hex};
use tokio_util::bytes::BytesMut;
use vstd::prelude::*;

verus! {

/// Contains errors produced by codec.
#[derive(Debug, Clone, Copy, PartialEq, Eq, Structural)]
pub enum NetConnectionCodecError {
    HeaderMagic(u64),
    WrongLength(usize),
    BytesRemaining(usize),
    UnknownState,
}

/// What a header says of the bytes that follow it.
#[derive(Debug, Clone, Copy, PartialEq, Eq, Structural)]
pub struct HeaderParts {
    pub data_length: usize,
    pub flag_compressed: bool,
}

/// What a decoder makes of the bytes that it has seen.
pub enum Decoded {
    /// The bytes end before the message does.
    Incomplete,
    Message(Envelope),
    Failed(NetConnectionCodecError),
}

/// Whether a header carries the magic number in its highest and its lowest byte.
pub open spec fn magic_ok(header: nat) -> bool {
    header / 0x100000000000000 == 0xDE && header % 256 == 0xCA
}

/// The number of bytes that a header announces.
pub open spec fn announced(header: nat) -> nat {
    (header / 0x1000000) % 0x100000000
}

/// Whether a header announces compressed data.
pub open spec fn announced_compressed(header: nat) -> bool {
    (header / 256) % 2 == 1
}

/// `n` as a `usize`, or the largest `usize` where it does not fit.
pub open spec fn clamped(n: nat) -> usize {
    if n <= usize::MAX {
        n as usize
    } else {
        usize::MAX
    }
}

/// What `header` says, if it is one that this codec takes.
pub open spec fn read_header(header: nat) -> Result<HeaderParts, NetConnectionCodecError> {
    if !magic_ok(header) {
        Err(NetConnectionCodecError::HeaderMagic(header as u64))
    } else if announced(header) + 8 > 33554432 {
        Err(NetConnectionCodecError::WrongLength(clamped(announced(header) + 8)))
    } else {
        Ok(
            HeaderParts {
                data_length: announced(header) as usize,
                flag_compressed: announced_compressed(header),
            },
        )
    }
}

/// What the first bytes of `src` are as a header.
pub open spec fn read_head(src: Seq<u8>) -> Result<Option<HeaderParts>, NetConnectionCodecError> {
    if src.len() < 8 {
        Ok(None)
    } else {
        match read_header(be(src.take(8))) {
            Ok(header) => Ok(Some(header)),
            Err(e) => Err(e),
        }
    }
}

/// The message that `header` announces and `body` begins with.
pub open spec fn read_body(header: HeaderParts, body: Seq<u8>) -> Envelope {
    Envelope {
        source: be(body.take(8)) as u64,
        destination: be(body.skip(8).take(8)) as u64,
        compressed: header.flag_compressed,
        data: body.skip(16).take(header.data_length - 16),
    }
}

/// What a decoder that holds `header`, if it holds one, makes of the body bytes `body`: the
/// result, the header that it holds then, and the bytes that are left.
pub open spec fn decode_body(header: HeaderParts, body: Seq<u8>) -> (
    Decoded,
    Option<HeaderParts>,
    Seq<u8>,
) {
    if body.len() < header.data_length {
        (Decoded::Incomplete, Some(header), body)
    } else {
        (Decoded::Message(read_body(header, body)), None, body.skip(header.data_length as int))
    }
}

/// What a decoder makes of the bytes `src`: the result, the header that it holds then, and the
/// bytes that are left.
pub open spec fn decode_bytes(pending: Option<HeaderParts>, src: Seq<u8>) -> (
    Decoded,
    Option<HeaderParts>,
    Seq<u8>,
) {
    match pending {
        Some(header) => decode_body(header, src),
        None => match read_head(src) {
            Ok(Some(header)) => decode_body(header, src.skip(8)),
            Ok(None) => (Decoded::Incomplete, None, src),
            Err(e) => (Decoded::Failed(e), None, src.skip(8)),
        },
    }
}

/// Whether the bytes of a message have room for its two NETIDs. One that announces fewer cannot
/// be decoded once its bytes are there.
pub open spec fn body_decodable(header: HeaderParts, body: Seq<u8>) -> bool {
    body.len() >= header.data_length ==> header.data_length >= 16
}

/// Whether the bytes `src` can be decoded: no message in them is complete and too short for its
/// two NETIDs.
pub open spec fn decodable(pending: Option<HeaderParts>, src: Seq<u8>) -> bool {
    match pending {
        Some(header) => body_decodable(header, src),
        None => read_head(src) matches Ok(Some(header)) ==> body_decodable(header, src.skip(8)),
    }
}

/// The result of a decoder, as `decode` reports it.
pub open spec fn reported(
    r: Result<Option<NetConnectionMessage>, NetConnectionCodecError>,
    d: Decoded,
) -> bool {
    match d {
        Decoded::Incomplete => r == Ok::<Option<NetConnectionMessage>, NetConnectionCodecError>(
            None,
        ),
        Decoded::Message(m) => r matches Ok(Some(msg)) && msg@ == m,
        Decoded::Failed(e) => r == Err::<Option<NetConnectionMessage>, NetConnectionCodecError>(e),
    }
}

/// What a decoder makes of the end of its stream, with `rest` left over.
pub open spec fn at_eof(d: Decoded, rest: Seq<u8>) -> Decoded {
    if d is Incomplete && rest.len() > 0 {
        Decoded::Failed(NetConnectionCodecError::BytesRemaining(rest.len() as usize))
    } else {
        d
    }
}

/// What encoding `m` into a buffer of `before` leaves in it, and reports: the bytes of the
/// message behind what was there, or, for a message above the size limit, nothing new.
pub open spec fn encoded(
    m: Envelope,
    before: Seq<u8>,
    after: Seq<u8>,
    r: Result<(), NetConnectionCodecError>,
) -> bool {
    if m.data.len() + 24 > 33554432 {
        &&& r == Err::<(), NetConnectionCodecError>(
            NetConnectionCodecError::WrongLength((m.data.len() + 24) as usize),
        )
        &&& after == before
    } else {
        &&& r is Ok
        &&& after == before + frame(m)
    }
}

/// The bytes of a message on the wire.
pub open spec fn frame(m: Envelope) -> Seq<u8> {
    be_bytes(header_value((m.data.len() + 16) as nat, m.compressed), 8) + be_bytes(
        m.source as nat,
        8,
    ) + be_bytes(m.destination as nat, 8) + m.data
}

pub struct NetConnectionCodecDecoder {
    /// Read state, if None means header needs to be read, otherwise data
    header: Option<HeaderParts>,
}

pub struct NetConnectionCodecEncoder {}

pub struct NetConnectionCodec {
    decoder: NetConnectionCodecDecoder,
    encoder: NetConnectionCodecEncoder,
}

proof fn lemma_header_fields(header: u64)
    ensures
        ((header & 0xFF000000000000FF) == 0xDE000000000000CA) == magic_ok(header as nat),
        ((header >> 24) & 0xFFFF_FFFF) as nat == announced(header as nat),
        ((((header >> 8) & 0xFFFF) as u16 & 1u16) != 0) == announced_compressed(header as nat),
{
    assert(((header & 0xFF000000000000FF) == 0xDE000000000000CA) == (header / 0x100000000000000
        == 0xDE && header % 256 == 0xCA)) by (bit_vector);
    assert(((header >> 24) & 0xFFFF_FFFF) == (header / 0x1000000) % 0x100000000) by (bit_vector);
    assert(((((header >> 8) & 0xFFFF) as u16 & 1u16) != 0) == ((header / 256) % 2 == 1))
        by (bit_vector);
}

impl NetConnectionCodecDecoder {
    /// The header that this decoder has read and whose message it has not.
    pub closed spec fn pending(&self) -> Option<HeaderParts> {
        self.header
    }

    pub fn new() -> (d: Self)
        ensures
            d.pending() is None,
    {
        Self { header: None }
    }

    fn parse_header(header: u64) -> (r: Result<HeaderParts, NetConnectionCodecError>)
        ensures
            r == read_header(header as nat),
    {
        proof {
            lemma_header_fields(header);
        }
        if (header & NetConnectionMessage::HEADER_MASK) != NetConnectionMessage::HEADER_MAGIC {
            return Err(NetConnectionCodecError::HeaderMagic(header));
        }
        let data_length: usize = ((header >> 24) & 0xFFFF_FFFF) as usize;
        let msg_flags: u16 = ((header >> 8) & 0xFFFF) as u16;
        let flag_compressed: bool = 0 != (msg_flags & NetConnectionMessage::FLAG_COMPRESSED);
        let message_size: usize = data_length.saturating_add(NetConnectionMessage::HEADER_SIZE);
        if message_size > NetConnectionMessage::MESSAGE_MAX_SIZE {
            return Err(NetConnectionCodecError::WrongLength(message_size));
        }
        Ok(HeaderParts { data_length, flag_compressed })
    }

    fn decode_head(&mut self, src: &mut BytesMut) -> (r: Result<
        Option<HeaderParts>,
        NetConnectionCodecError,
    >)
        ensures
            r == read_head(held_mut(*old(src))),
            held_mut(*final(src)) == if held_mut(*old(src)).len() < 8 {
                held_mut(*old(src))
            } else {
                held_mut(*old(src)).skip(8)
            },
            *final(self) == *old(self),
    {
        if src.len() < NetConnectionMessage::HEADER_SIZE {
            // Not enough data
            return Ok(None);
        }
        let header: HeaderParts = match Self::parse_header(get_u64(src)) {
            Ok(header) => header,
            Err(e) => return Err(e),
        };
        // Ensure that the buffer has enough space to read the incoming payload
        src.reserve(header.data_length.saturating_sub(src.len()));
        Ok(Some(header))
    }

    fn decode_data(&self, header: &HeaderParts, src: &mut BytesMut) -> (r: Option<
        NetConnectionMessage,
    >)
        requires
            body_decodable(*header, held_mut(*old(src))),
        ensures
            ({
                let (d, h, rest) = decode_body(*header, held_mut(*old(src)));
                &&& held_mut(*final(src)) == rest
                &&& r is None <==> d is Incomplete
                &&& d matches Decoded::Message(m) ==> r->0@ == m
            }),
    {
        if src.len() < header.data_length {
            return None;
        }
        let ghost body = held_mut(*src);
        let source_netid: u64 = get_u64(src);
        let destination_netid: u64 = get_u64(src);
        assert(body.skip(8).skip(8) =~= body.skip(16));
        let data_len: usize = header.data_length - NetConnectionMessage::SIZE_OF_NETID * 2;
        let data = src.split_to(data_len).freeze();
        assert(body.skip(16).skip(data_len as int) =~= body.skip(header.data_length as int));
        Some(
            NetConnectionMessage {
                source_netid,
                destination_netid,
                compressed: header.flag_compressed,
                data,
            },
        )
    }

    /// Whether `src` can be decoded.
    pub fn can_decode(&self, src: &BytesMut) -> (r: bool)
        ensures
            r == decodable(self.pending(), held_mut(*src)),
    {
        let bytes = as_slice_mut(src);
        match &self.header {
            Some(header) => bytes.len() < header.data_length || header.data_length >= 16,
            None => {
                if bytes.len() < NetConnectionMessage::HEADER_SIZE {
                    return true;
                }
                match Self::parse_header(peek_u64(bytes)) {
                    Ok(header) => bytes.len() - 8 < header.data_length || header.data_length >= 16,
                    Err(_) => true,
                }
            },
        }
    }

    /// Takes the next message off `src`: none where its bytes are not all there yet.
    pub fn decode(&mut self, src: &mut BytesMut) -> (r: Result<
        Option<NetConnectionMessage>,
        NetConnectionCodecError,
    >)
        requires
            decodable(old(self).pending(), held_mut(*old(src))),
        ensures
            ({
                let (d, pending, rest) = decode_bytes(old(self).pending(), held_mut(*old(src)));
                &&& reported(r, d)
                &&& final(self).pending() == pending
                &&& held_mut(*final(src)) == rest
            }),
    {
        let header: HeaderParts = match self.header {
            Some(header) => header,
            None => match self.decode_head(src) {
                Ok(Some(header)) => header,
                Ok(None) => return Ok(None),
                Err(e) => return Err(e),
            },
        };
        match self.decode_data(&header, src) {
            Some(data) => {
                // Update the decode state
                self.header = None;
                // Make sure the buffer has enough space to read the next head
                src.reserve(NetConnectionMessage::HEADER_SIZE.saturating_sub(src.len()));
                Ok(Some(data))
            },
            None => {
                self.header = Some(header);
                Ok(None)
            },
        }
    }

    /// Takes the last messages off a stream that has ended: no byte may be left over.
    pub fn decode_eof(&mut self, buf: &mut BytesMut) -> (r: Result<
        Option<NetConnectionMessage>,
        NetConnectionCodecError,
    >)
        requires
            decodable(old(self).pending(), held_mut(*old(buf))),
        ensures
            ({
                let (d, pending, rest) = decode_bytes(old(self).pending(), held_mut(*old(buf)));
                &&& reported(r, at_eof(d, rest))
                &&& final(self).pending() == pending
                &&& held_mut(*final(buf)) == rest
            }),
    {
        match self.decode(buf) {
            Ok(Some(frame)) => Ok(Some(frame)),
            Ok(None) => {
                if buf.is_empty() {
                    Ok(None)
                } else {
                    Err(NetConnectionCodecError::BytesRemaining(buf.len()))
                }
            },
            Err(e) => Err(e),
        }
    }
}

impl NetConnectionCodecEncoder {
    pub fn new() -> Self {
        Self {  }
    }

    /// Appends the bytes of `item` to `dst`.
    pub fn encode_message(item: NetConnectionMessage, dst: &mut BytesMut) -> (r: Result<
        (),
        NetConnectionCodecError,
    >)
        requires
            item@.data.len() + 24 <= 33554432 ==> fits(
                held_mut(*old(dst)).len(),
                (item@.data.len() + 24) as nat,
            ),
        ensures
            encoded(item@, held_mut(*old(dst)), held_mut(*final(dst)), r),
    {
        let (header, total_len): (u64, usize) = match item.generate_header() {
            Ok(pair) => pair,
            Err(total_len) => return Err(NetConnectionCodecError::WrongLength(total_len)),
        };
        let ghost before = held_mut(*dst);
        // Reserve capacity in the destination buffer to fit the frame
        dst.reserve(total_len);
        proof {
            lemma_be_bytes_len(header as nat, 8);
            lemma_be_bytes_len(item.source_netid as nat, 8);
            lemma_be_bytes_len(item.destination_netid as nat, 8);
        }
        put_u64(dst, header);
        // Add source and destination NETID
        put_u64(dst, item.source_netid);
        put_u64(dst, item.destination_netid);
        // Write the frame to the buffer
        dst.extend_from_slice(as_slice(&item.data));
        assert(held_mut(*dst) =~= before + frame(item@));
        Ok(())
    }

    /// Appends the bytes of `item` to `dst`.
    pub fn encode(&mut self, item: NetConnectionMessage, dst: &mut BytesMut) -> (r: Result<
        (),
        NetConnectionCodecError,
    >)
        requires
            item@.data.len() + 24 <= 33554432 ==> fits(
                held_mut(*old(dst)).len(),
                (item@.data.len() + 24) as nat,
            ),
        ensures
            encoded(item@, held_mut(*old(dst)), held_mut(*final(dst)), r),
    {
        Self::encode_message(item, dst)
    }
}

impl NetConnectionCodec {
    /// The header that the decoder has read and whose message it has not.
    pub closed spec fn pending(&self) -> Option<HeaderParts> {
        self.decoder.pending()
    }

    pub fn new() -> (c: Self)
        ensures
            c.pending() is None,
    {
        Self {
            decoder: NetConnectionCodecDecoder::new(),
            encoder: NetConnectionCodecEncoder::new(),
        }
    }

    /// Whether `src` can be decoded.
    pub fn can_decode(&self, src: &BytesMut) -> (r: bool)
        ensures
            r == decodable(self.pending(), held_mut(*src)),
    {
        self.decoder.can_decode(src)
    }

    /// Takes the next message off `src`: none where its bytes are not all there yet.
    pub fn decode(&mut self, src: &mut BytesMut) -> (r: Result<
        Option<NetConnectionMessage>,
        NetConnectionCodecError,
    >)
        requires
            decodable(old(self).pending(), held_mut(*old(src))),
        ensures
            ({
                let (d, pending, rest) = decode_bytes(old(self).pending(), held_mut(*old(src)));
                &&& reported(r, d)
                &&& final(self).pending() == pending
                &&& held_mut(*final(src)) == rest
            }),
    {
        self.decoder.decode(src)
    }

    /// Takes the last messages off a stream that has ended: no byte may be left over.
    pub fn decode_eof(&mut self, buf: &mut BytesMut) -> (r: Result<
        Option<NetConnectionMessage>,
        NetConnectionCodecError,
    >)
        requires
            decodable(old(self).pending(), held_mut(*old(buf))),
        ensures
            ({
                let (d, pending, rest) = decode_bytes(old(self).pending(), held_mut(*old(buf)));
                &&& reported(r, at_eof(d, rest))
                &&& final(self).pending() == pending
                &&& held_mut(*final(buf)) == rest
            }),
    {
        self.decoder.decode_eof(buf)
    }

    /// Appends the bytes of `item` to `dst`.
    pub fn encode(&mut self, item: NetConnectionMessage, dst: &mut BytesMut) -> (r: Result<
        (),
        NetConnectionCodecError,
    >)
        requires
            item@.data.len() + 24 <= 33554432 ==> fits(
                held_mut(*old(dst)).len(),
                (item@.data.len() + 24) as nat,
            ),
        ensures
            encoded(item@, held_mut(*old(dst)), held_mut(*final(dst)), r),
            final(self).pending() == old(self).pending(),
    {
        self.encoder.encode(item, dst)
    }
}

impl NetConnectionCodecError {
    /// What this error says.
    pub open spec fn says(self) -> Seq<char> {
        match self {
            NetConnectionCodecError::HeaderMagic(header) => "Message header magic error "@ + hex(
                header as nat,
            ),
            NetConnectionCodecError::WrongLength(length) => "Message length error "@ + decimal(
                length as nat,
            ),
            NetConnectionCodecError::BytesRemaining(length) => "Stream bytes remaining after EOF "@
                + decimal(length as nat),
            NetConnectionCodecError::UnknownState => "Unknown state"@,
        }
    }

    /// What this error says.
    pub fn to_text(&self) -> (s: String)
        ensures
            s@ == self.says(),
    {
        match self {
            NetConnectionCodecError::HeaderMagic(header) => {
                let mut s = "Message header magic error ".to_owned();
                push_hex(&mut s, *header);
                s
            },
            NetConnectionCodecError::WrongLength(length) => {
                let mut s = "Message length error ".to_owned();
                push_decimal(&mut s, *length as u64);
                s
            },
            NetConnectionCodecError::BytesRemaining(length) => {
                let mut s = "Stream bytes remaining after EOF ".to_owned();
                push_decimal(&mut s, *length as u64);
                s
            },
            NetConnectionCodecError::UnknownState => "Unknown state".to_owned(),
        }
    }
}

/// What is encoded is decoded again: a decoder that is handed the bytes of a message takes that
/// message off them and leaves what follows.
pub proof fn frame_roundtrip(m: Envelope, rest: Seq<u8>)
    requires
        m.data.len() + 24 <= 33554432,
    ensures
        frame(m).len() == m.data.len() + 24,
        decodable(None, frame(m) + rest),
        decode_bytes(None, frame(m) + rest) == (
            Decoded::Message(m),
            None::<HeaderParts>,
            rest,
        ),
{
    let length = (m.data.len() + 16) as nat;
    let header = header_value(length, m.compressed);
    reveal_with_fuel(bound, 9);
    be_roundtrip(header, 8);
    be_roundtrip(m.source as nat, 8);
    be_roundtrip(m.destination as nat, 8);
    let src = frame(m) + rest;
    assert(src.take(8) =~= be_bytes(header, 8));
    let body = src.skip(8);
    assert(body.take(8) =~= be_bytes(m.source as nat, 8));
    assert(body.skip(8).take(8) =~= be_bytes(m.destination as nat, 8));
    assert(body.skip(16).take(length - 16) =~= m.data);
    assert(body.skip(length as int) =~= rest);
    assert(magic_ok(header) && announced(header) == length && announced_compressed(header)
        == m.compressed);
}

/// How the bytes of a stream are cut into pieces does not matter: what a decoder makes of `a`
/// and then of `b` behind what it left of `a`, it makes of both at once.
pub proof fn decode_in_pieces(pending: Option<HeaderParts>, a: Seq<u8>, b: Seq<u8>)
    requires
        decodable(pending, a + b),
    ensures
        ({
            let (d, h, rest) = decode_bytes(pending, a);
            &&& decodable(pending, a)
            &&& d is Incomplete ==> decodable(h, rest + b) && decode_bytes(h, rest + b)
                == decode_bytes(pending, a + b)
            &&& d !is Incomplete ==> decode_bytes(pending, a + b) == (d, h, rest + b)
        }),
{
    match pending {
        Some(header) => {
            lemma_body_in_pieces(header, a, b);
        },
        None => {
            if a.len() >= 8 {
                assert((a + b).take(8) =~= a.take(8));
                assert((a + b).skip(8) =~= a.skip(8) + b);
                if let Ok(Some(header)) = read_head(a) {
                    lemma_body_in_pieces(header, a.skip(8), b);
                }
            }
        },
    }
}

proof fn lemma_body_in_pieces(header: HeaderParts, a: Seq<u8>, b: Seq<u8>)
    requires
        body_decodable(header, a + b),
    ensures
        ({
            let (d, h, rest) = decode_body(header, a);
            &&& body_decodable(header, a)
            &&& d is Incomplete ==> h == Some(header) && rest == a
            &&& d !is Incomplete ==> decode_body(header, a + b) == (d, h, rest + b)
        }),
{
    if a.len() >= header.data_length {
        let n = header.data_length as int;
        assert((a + b).take(8) =~= a.take(8));
        assert((a + b).skip(8).take(8) =~= a.skip(8).take(8));
        assert((a + b).skip(16).take(n - 16) =~= a.skip(16).take(n - 16));
        assert((a + b).skip(n) =~= a.skip(n) + b);
    }
}

/// The bytes of several messages, one behind the other.
pub open spec fn frames(ms: Seq<Envelope>) -> Seq<u8>
    decreases ms.len(),
{
    if ms.len() == 0 {
        Seq::empty()
    } else {
        frame(ms[0]) + frames(ms.drop_first())
    }
}

/// The messages that a decoder takes off `src` before it needs more bytes or fails.
pub open spec fn decode_all(src: Seq<u8>) -> Seq<Envelope>
    decreases src.len(),
{
    match decode_bytes(None, src) {
        (Decoded::Message(m), None, rest) => if rest.len() < src.len() {
            seq![m] + decode_all(rest)
        } else {
            Seq::empty()
        },
        _ => Seq::empty(),
    }
}

proof fn lemma_first_decoded(m: Envelope, rest: Seq<u8>)
    requires
        m.data.len() + 24 <= 33554432,
    ensures
        decode_all(frame(m) + rest) == seq![m] + decode_all(rest),
{
    let src = frame(m) + rest;
    frame_roundtrip(m, rest);
    assert(frame(m).len() > 0) by {
        crate::buffer::lemma_be_bytes_len(m.source as nat, 8);
    }
    assert(decode_bytes(None, src) == (Decoded::Message(m), None::<HeaderParts>, rest));
}

/// The messages of a stream come out in the order in which they went in, each once.
pub proof fn frames_decode_in_order(ms: Seq<Envelope>)
    requires
        forall|i: int| 0 <= i < ms.len() ==> #[trigger] ms[i].data.len() + 24 <= 33554432,
    ensures
        decode_all(frames(ms)) == ms,
    decreases ms.len(),
{
    if ms.len() > 0 {
        lemma_first_decoded(ms[0], frames(ms.drop_first()));
        frames_decode_in_order(ms.drop_first());
        assert(seq![ms[0]] + ms.drop_first() =~= ms);
    } else {
        assert(decode_all(frames(ms)) =~= ms);
    }
}

} // verus!
