//! The WebSocket handshake, and what becomes of the frames of a WebSocket connection.

use crate::buffer::{as_slice, fits, held, held_mut};
use crate::http::utils::{all_visible, header_chars, header_text};
use crate::netconnection::codec::{
    at_eof, decodable, decode_bytes, frame, Decoded, HeaderParts,
    NetConnectionCodecDecoder, NetConnectionCodecEncoder, NetConnectionCodecError,
};
use crate::netconnection::netconnection::{NetConnectionMessage, StreamMessage};
use crate::text::{ascii_lower, contains, lowered, occurs, pieces, split, texts, trim, trimmed};
use tokio_util::bytes::{Bytes, BytesMut};
use vstd::prelude::*;

verus! {

/// What a request for a WebSocket connection says. Headers are given by their bytes.
pub struct HandshakeRequest {
    /// Whether its method is GET
    pub get: bool,
    pub upgrade: Option<Vec<u8>>,
    /// Whether it asks for an upgrade of its connection
    pub connection_upgrade: bool,
    pub version: Option<Vec<u8>>,
    pub key: Option<Vec<u8>>,
    pub protocol: Option<Vec<u8>>,
}

/// Why a request is not taken for a WebSocket connection.
#[derive(Debug, Clone, Copy, PartialEq, Eq, Structural)]
pub enum HandshakeError {
    /// Only get method is allowed.
    GetMethodRequired,
    /// Upgrade header is not set to WebSocket.
    NoWebsocketUpgrade,
    /// Connection header is not set to upgrade.
    NoConnectionUpgrade,
    /// WebSocket version header is not set.
    NoVersionHeader,
    /// Unsupported WebSocket version.
    UnsupportedVersion,
    /// WebSocket key is not set or wrong.
    BadWebsocketKey,
}

/// The answer to a request for a WebSocket connection.
pub struct Handshake {
    /// What the key of the request is answered with
    pub accept: Vec<u8>,
    /// The protocol that is spoken, if one was asked for that is known
    pub protocol: Option<String>,
}

/// `actix_http::ws::hash_key`: the base64 text of the SHA-1 hash of a WebSocket key and a fixed
/// identifier.
pub uninterp spec fn accept_key(key: Seq<u8>) -> Seq<u8>;

/// `actix_http::ws::hash_key`: 28 bytes of base64 text, which depend on the key alone.
#[verifier::external_body]
fn hash_key(key: &[u8]) -> (r: Vec<u8>)
    ensures
        r@ == accept_key(key@),
        r@.len() == 28,
{
    actix_http::ws::hash_key(key).to_vec()
}

/// Whether the header that names the protocol to change to names WebSocket.
pub open spec fn wants_websocket(upgrade: Option<Vec<u8>>) -> bool {
    upgrade matches Some(bytes) && all_visible(bytes@) && occurs(
        lowered(header_chars(bytes@)),
        "websocket"@,
    )
}

/// Whether a WebSocket version is supported.
pub open spec fn supported(version: Seq<u8>) -> bool {
    version == seq![49u8, 51u8] || version == seq![56u8] || version == seq![55u8]
}

/// Why a request is not taken for a WebSocket connection, if it is not.
pub open spec fn handshake_fault(req: HandshakeRequest) -> Option<HandshakeError> {
    if !req.get {
        Some(HandshakeError::GetMethodRequired)
    } else if !wants_websocket(req.upgrade) {
        Some(HandshakeError::NoWebsocketUpgrade)
    } else if !req.connection_upgrade {
        Some(HandshakeError::NoConnectionUpgrade)
    } else {
        match (req.version, req.key) {
            (None, _) => Some(HandshakeError::NoVersionHeader),
            (Some(version), key) => if !supported(version@) {
                Some(HandshakeError::UnsupportedVersion)
            } else if key is None {
                Some(HandshakeError::BadWebsocketKey)
            } else {
                None
            },
        }
    }
}

/// The first of `asked`, without the blanks around it, that is known.
pub open spec fn first_known(asked: Seq<Seq<char>>, known: Seq<Seq<char>>) -> Option<Seq<char>>
    decreases asked.len(),
{
    if asked.len() == 0 {
        None
    } else if known.contains(trimmed(asked[0])) {
        Some(trimmed(asked[0]))
    } else {
        first_known(asked.drop_first(), known)
    }
}

/// The first protocol that a request asks for and that is known, if there is one.
pub open spec fn protocol_of(header: Option<Vec<u8>>, known: Seq<Seq<char>>) -> Option<Seq<char>> {
    match header {
        Some(bytes) => if all_visible(bytes@) {
            first_known(pieces(header_chars(bytes@), ','), known)
        } else {
            None
        },
        None => None,
    }
}

fn bytes_are(bytes: &Vec<u8>, a: u8) -> (r: bool)
    ensures
        r == (bytes@ == seq![a]),
{
    let r: bool = bytes.len() == 1 && bytes[0] == a;
    assert(r ==> bytes@ =~= seq![a]);
    r
}

fn is_supported(version: &Vec<u8>) -> (r: bool)
    ensures
        r == supported(version@),
{
    let thirteen: bool = version.len() == 2 && version[0] == 49 && version[1] == 51;
    assert(thirteen ==> version@ =~= seq![49u8, 51u8]);
    thirteen || bytes_are(version, 56) || bytes_are(version, 55)
}

fn is_known(known: &Vec<String>, name: &String) -> (r: bool)
    ensures
        r == texts(known@).contains(name@),
{
    let mut i: usize = 0;
    while i < known.len()
        invariant
            i <= known.len(),
            forall|j: int| 0 <= j < i ==> texts(known@)[j] != name@,
        decreases known.len() - i,
    {
        if known[i] == *name {
            assert(texts(known@)[i as int] == name@);
            return true;
        }
        i = i + 1;
    }
    false
}

fn find_protocol(header: &Option<Vec<u8>>, known: &Vec<String>) -> (r: Option<String>)
    ensures
        match protocol_of(*header, texts(known@)) {
            Some(name) => r matches Some(s) && s@ == name,
            None => r is None,
        },
{
    let text = match header {
        Some(bytes) => match header_text(bytes.as_slice()) {
            Some(text) => text,
            None => return None,
        },
        None => return None,
    };
    let asked = split(text.as_str(), ',');
    let ghost all = texts(asked@);
    let mut i: usize = 0;
    assert(all.skip(0) =~= all);
    while i < asked.len()
        invariant
            i <= asked.len(),
            all == texts(asked@),
            protocol_of(*header, texts(known@)) == first_known(all, texts(known@)),
            first_known(all, texts(known@)) == first_known(all.skip(i as int), texts(known@)),
        decreases asked.len() - i,
    {
        let name = trim(asked[i].as_str());
        proof {
            assert(all.skip(i as int)[0] == asked@[i as int]@);
            assert(all.skip(i as int).drop_first() =~= all.skip(i + 1));
        }
        if is_known(known, &name) {
            return Some(name);
        }
        i = i + 1;
    }
    None
}

/// Prepare WebSocket handshake response.
///
/// `protocols` is a sequence of known protocols. On successful handshake, the answer holds the
/// first protocol of the request which the server also knows.
pub fn handshake_with_protocols(req: &HandshakeRequest, protocols: &Vec<String>) -> (r: Result<
    Handshake,
    HandshakeError,
>)
    ensures
        match handshake_fault(*req) {
            Some(e) => r matches Err(error) && error == e,
            None => {
                &&& r matches Ok(h)
                &&& h.accept@ == accept_key(req.key->0@)
                &&& match protocol_of(req.protocol, texts(protocols@)) {
                    Some(name) => h.protocol matches Some(s) && s@ == name,
                    None => h.protocol is None,
                }
            },
        },
{
    // WebSocket accepts only GET
    if !req.get {
        return Err(HandshakeError::GetMethodRequired);
    }
    // check for "UPGRADE" to WebSocket header
    let has_hdr: bool = match &req.upgrade {
        Some(hdr) => match header_text(hdr.as_slice()) {
            Some(s) => contains(ascii_lower(s.as_str()).as_str(), "websocket"),
            None => false,
        },
        None => false,
    };
    if !has_hdr {
        return Err(HandshakeError::NoWebsocketUpgrade);
    }
    // Upgrade connection
    if !req.connection_upgrade {
        return Err(HandshakeError::NoConnectionUpgrade);
    }
    // check supported version
    match &req.version {
        Some(hdr) => {
            if !is_supported(hdr) {
                return Err(HandshakeError::UnsupportedVersion);
            }
        },
        None => return Err(HandshakeError::NoVersionHeader),
    }
    // check client handshake for validity
    let accept = match &req.key {
        Some(key) => hash_key(key.as_slice()),
        None => return Err(HandshakeError::BadWebsocketKey),
    };
    // check requested protocols
    let protocol = find_protocol(&req.protocol, protocols);
    Ok(Handshake { accept, protocol })
}

/// What a WebSocket connection is called in the log, where `addr` is the address of the client,
/// if it is known.
pub fn connection_info(addr: Option<&str>) -> (s: String)
    ensures
        s@ == match addr {
            Some(addr) => "WebSocket("@ + addr@ + ")"@,
            None => "WebSocket(?)"@,
        },
{
    match addr {
        Some(addr) => {
            let mut s = "WebSocket(".to_owned();
            s.append(addr);
            s.append(")");
            s
        },
        None => "WebSocket(?)".to_owned(),
    }
}

/// A frame of a WebSocket connection.
pub enum WsFrame {
    Text,
    Binary(Bytes),
    Continuation,
    Ping(Bytes),
    Pong,
    Close,
}

/// What comes to the task that reads from a WebSocket connection.
pub enum WsEvent {
    Frame(WsFrame),
    /// The stream of frames has ended.
    Ended,
    /// The stream of frames has failed.
    Failed,
    /// The connection was closed.
    Cancelled,
    /// The answer to a ping is on its way.
    PongSent,
    /// The answer to a ping could not be sent.
    PongFailed,
    /// What was handed on is on its way, or nobody takes it.
    Forwarded,
}

/// What is wrong with what came.
#[derive(Debug, Clone, Copy, PartialEq, Eq, Structural)]
pub enum WsError {
    UnsupportedText,
    UnsupportedContinuation,
    Codec(NetConnectionCodecError),
    /// A frame ends before its message does.
    InvalidData,
    PongFailed,
}

/// What the task that reads from a WebSocket connection has to do next.
pub enum WsCommand {
    /// Wait for the next frame.
    Read,
    /// Answer a ping with these bytes.
    Pong(Bytes),
    /// Hand this on, and go on.
    Forward(StreamMessage),
    /// Hand this error on, and finish.
    ForwardError(WsError),
    Finish,
}

/// What a frame of the bytes `data` is, to a decoder that holds the header `pending`: one
/// message.
pub open spec fn decode_frame(pending: Option<HeaderParts>, data: Seq<u8>) -> Decoded {
    let (d, _, rest) = decode_bytes(pending, data);
    at_eof(d, rest)
}

/// Whether `command` is what the task does upon an event, with a decoder that holds `pending`.
pub open spec fn ws_does(pending: Option<HeaderParts>, event: WsEvent, command: WsCommand) -> bool {
    match event {
        WsEvent::Frame(WsFrame::Text) => command == WsCommand::ForwardError(
            WsError::UnsupportedText,
        ),
        WsEvent::Frame(WsFrame::Continuation) => command == WsCommand::ForwardError(
            WsError::UnsupportedContinuation,
        ),
        WsEvent::Frame(WsFrame::Binary(data)) => match decode_frame(pending, held(data)) {
            Decoded::Message(m) => command matches WsCommand::Forward(StreamMessage::Message(msg))
                && msg@ == m,
            Decoded::Incomplete => command == WsCommand::ForwardError(WsError::InvalidData),
            Decoded::Failed(e) => command == WsCommand::ForwardError(WsError::Codec(e)),
        },
        WsEvent::Frame(WsFrame::Ping(data)) => command == WsCommand::Pong(data),
        WsEvent::Frame(WsFrame::Pong) => command == WsCommand::Forward(StreamMessage::PingResponse),
        WsEvent::Frame(WsFrame::Close) => command is Finish,
        WsEvent::Ended | WsEvent::Failed | WsEvent::Cancelled => command is Finish,
        WsEvent::PongSent => command is Read,
        WsEvent::PongFailed => command == WsCommand::ForwardError(WsError::PongFailed),
        WsEvent::Forwarded => command is Read,
    }
}

/// The task that reads from a WebSocket connection.
pub struct WsStreamTask {
    pub decoder: NetConnectionCodecDecoder,
}

impl WsStreamTask {
    pub fn new() -> (t: Self)
        ensures
            t.decoder.pending() is None,
    {
        WsStreamTask { decoder: NetConnectionCodecDecoder::new() }
    }

    /// Whether the frame of the bytes `data` can be decoded.
    pub fn can_decode(&self, data: &Bytes) -> (r: bool)
        requires
            fits(0, held(*data).len()),
        ensures
            r == decodable(self.decoder.pending(), held(*data)),
    {
        self.decoder.can_decode(&copy_of(data))
    }

    /// What to do upon `event`.
    pub fn next(&mut self, event: WsEvent) -> (command: WsCommand)
        requires
            event matches WsEvent::Frame(WsFrame::Binary(data)) ==> fits(0, held(data).len())
                && decodable(old(self).decoder.pending(), held(data)),
        ensures
            ws_does(old(self).decoder.pending(), event, command),
            final(self).decoder.pending() == match event {
                WsEvent::Frame(WsFrame::Binary(data)) => decode_bytes(
                    old(self).decoder.pending(),
                    held(data),
                ).1,
                _ => old(self).decoder.pending(),
            },
    {
        match event {
            WsEvent::Frame(frame) => match frame {
                WsFrame::Text => WsCommand::ForwardError(WsError::UnsupportedText),
                WsFrame::Binary(data) => {
                    let mut data_mut = copy_of(&data);
                    match self.decoder.decode_eof(&mut data_mut) {
                        Err(err) => WsCommand::ForwardError(WsError::Codec(err)),
                        // We do not expect new data to arrive
                        // if we fail to create a NetConnectionMessage something is wrong
                        Ok(None) => WsCommand::ForwardError(WsError::InvalidData),
                        Ok(Some(msg)) => WsCommand::Forward(StreamMessage::Message(msg)),
                    }
                },
                WsFrame::Continuation => WsCommand::ForwardError(WsError::UnsupportedContinuation),
                WsFrame::Ping(data) => WsCommand::Pong(data),
                WsFrame::Pong => WsCommand::Forward(StreamMessage::PingResponse),
                WsFrame::Close => WsCommand::Finish,
            },
            WsEvent::Ended | WsEvent::Failed | WsEvent::Cancelled => WsCommand::Finish,
            WsEvent::PongSent => WsCommand::Read,
            WsEvent::PongFailed => WsCommand::ForwardError(WsError::PongFailed),
            WsEvent::Forwarded => WsCommand::Read,
        }
    }
}

/// What comes to the task that pings a WebSocket client.
pub enum PingEvent {
    /// The task begins, and the connection is closed or not.
    Begin { cancelled: bool },
    /// The interval has passed, or the connection was closed.
    Wake { cancelled: bool },
    /// The ping is on its way.
    Sent,
    /// The ping could not be sent.
    SendFailed,
}

/// What the task that pings a WebSocket client has to do next.
pub enum PingCommand {
    /// Send a ping with these bytes.
    Ping(Bytes),
    /// Wait for the interval, or for the end of the connection.
    Sleep,
    /// Close the connection, and finish.
    Finish,
}

/// What the task that pings a WebSocket client does upon `event`: it pings, without bytes, at its
/// beginning and after each interval, until the connection is closed or a ping cannot be sent.
pub fn ping_task_next(event: PingEvent) -> (command: PingCommand)
    ensures
        match event {
            PingEvent::Begin { cancelled } | PingEvent::Wake { cancelled } => if cancelled {
                command is Finish
            } else {
                command matches PingCommand::Ping(data) && held(data) == Seq::<u8>::empty()
            },
            PingEvent::Sent => command is Sleep,
            PingEvent::SendFailed => command is Finish,
        },
{
    match event {
        PingEvent::Begin { cancelled } | PingEvent::Wake { cancelled } => {
            if cancelled {
                PingCommand::Finish
            } else {
                PingCommand::Ping(BytesMut::with_capacity(0).freeze())
            }
        },
        PingEvent::Sent => PingCommand::Sleep,
        PingEvent::SendFailed => PingCommand::Finish,
    }
}

fn copy_of(data: &Bytes) -> (b: BytesMut)
    requires
        fits(0, held(*data).len()),
    ensures
        held_mut(b) == held(*data),
{
    let mut b = BytesMut::with_capacity(data.len());
    b.extend_from_slice(as_slice(data));
    assert(held_mut(b) =~= held(*data));
    b
}

/// The bytes of the frame that carries the message `item`.
pub fn binary_frame(item: NetConnectionMessage) -> (r: Result<Bytes, NetConnectionCodecError>)
    ensures
        if item@.data.len() + 24 > 33554432 {
            r == Err::<Bytes, NetConnectionCodecError>(
                NetConnectionCodecError::WrongLength((item@.data.len() + 24) as usize),
            )
        } else {
            r matches Ok(b) && held(b) == frame(item@)
        },
{
    let mut data = BytesMut::with_capacity(0);
    NetConnectionCodecEncoder::encode_message(item, &mut data)?;
    assert(held_mut(data) =~= frame(item@));
    Ok(data.freeze())
}

/// A message survives its way through a frame.
pub proof fn frame_carries_message(m: crate::netconnection::netconnection::Envelope)
    requires
        m.data.len() + 24 <= 33554432,
    ensures
        decodable(None, frame(m)),
        decode_frame(None, frame(m)) == Decoded::Message(m),
{
    crate::netconnection::codec::frame_roundtrip(m, Seq::empty());
    assert(frame(m) + Seq::empty() =~= frame(m));
}

/// What a look at the messages for a WebSocket client finds.
#[derive(Debug, Clone, Copy, PartialEq, Eq, Structural)]
pub enum BodyReceived {
    Pending,
    /// No message will come.
    Closed,
    Message,
}

/// What the body of a WebSocket response gives.
#[derive(Debug, Clone, Copy, PartialEq, Eq, Structural)]
pub enum BodyStep {
    /// The bytes that are there
    Send,
    End,
    Wait,
}

/// Whether the connection is closed behind a look at its messages.
pub fn closed_behind(closed: bool, received: BodyReceived) -> (r: bool)
    ensures
        r == (closed || received == BodyReceived::Closed),
{
    closed || match received {
        BodyReceived::Closed => true,
        _ => false,
    }
}

/// What the body of a response gives, where `empty` says whether no byte is there and `closed`
/// whether the connection is closed. What is there is sent even then.
pub fn body_step(empty: bool, closed: bool) -> (s: BodyStep)
    ensures
        s == if !empty {
            BodyStep::Send
        } else if closed {
            BodyStep::End
        } else {
            BodyStep::Wait
        },
{
    if !empty {
        BodyStep::Send
    } else if closed {
        BodyStep::End
    } else {
        BodyStep::Wait
    }
}

} // verus!
