//! What the HTTP server promises, of the functions that keep the promise: how headers are read,
//! who is let through, and which requests become WebSocket connections.

use crate::buffer::{held, held_mut};
use crate::http::middleware::guard::{header_insensitive, lowercase, HeaderGuardInsensitive};
use crate::http::middleware::key_token::{KeyTokenMiddleware, KeyTokens};
use crate::http::utils::{header_chars, header_text, http_ok_utf8, is_xprm_accept};
use crate::http::ws::{
    accept_key, body_step, closed_behind, connection_info, first_known, handshake_with_protocols,
    ping_task_next, BodyReceived, BodyStep, Handshake, HandshakeError, HandshakeRequest, PingCommand,
    PingEvent, WsCommand, WsError, WsEvent, WsStreamTask,
};
use crate::netconnection::codec::{
    frame, frame_roundtrip, NetConnectionCodecDecoder, NetConnectionCodecError,
};
use crate::netconnection::laws::{lemma_frame, wire_bytes};
use crate::netconnection::netconnection::{Envelope, NetConnectionMessage};
use crate::text::{lowered, occurs, pieces, stands_at, texts};
use crate::utils::laws::{lemma_pieces_join, lemma_pieces_one, lemma_trimmed};
use tokio_util::bytes::BytesMut;
use vstd::prelude::*;
use vstd::utf8::encode_utf8;

verus! {

/// Whether the bytes of a header can be read: each is a visible ASCII character, a space or a tab.
pub open spec fn readable(bytes: Seq<u8>) -> bool {
    forall|i: int| 0 <= i < bytes.len() ==> 32 <= #[trigger] bytes[i] <= 126 || bytes[i] == 9
}

/// Whether the bytes of a header read as `text`.
pub open spec fn reads_as(bytes: Seq<u8>, text: Seq<char>) -> bool {
    &&& readable(bytes)
    &&& bytes.len() == text.len()
    &&& forall|i: int| 0 <= i < bytes.len() ==> (#[trigger] text[i]) as int == bytes[i] as int
}

proof fn lemma_reads_as(bytes: Seq<u8>, text: Seq<char>)
    ensures
        reads_as(bytes, text) <==> readable(bytes) && header_chars(bytes) == text,
        readable(bytes) ==> reads_as(bytes, header_chars(bytes)),
        readable(bytes) == crate::http::utils::all_visible(bytes),
{
    if readable(bytes) {
        assert forall|i: int| 0 <= i < bytes.len() implies crate::http::utils::visible(
            #[trigger] bytes[i],
        ) by {}
        assert forall|i: int| 0 <= i < bytes.len() implies (#[trigger] header_chars(bytes)[i]) as int
            == bytes[i] as int by {}
    }
    if crate::http::utils::all_visible(bytes) {
        assert forall|i: int| 0 <= i < bytes.len() implies 32 <= #[trigger] bytes[i] <= 126
            || bytes[i] == 9 by {
            assert(crate::http::utils::visible(bytes[i]));
        }
    }
    if reads_as(bytes, text) {
        assert forall|i: int| 0 <= i < bytes.len() implies header_chars(bytes)[i] == text[i] by {
            assert(header_chars(bytes)[i] as int == bytes[i] as int);
            assert(text[i] as int == bytes[i] as int);
        }
        assert(header_chars(bytes) =~= text);
    }
}

/// A header is read byte by byte, and not at all where a byte of it cannot be read.
pub proof fn headers_are_read(bytes: &[u8], r: Option<String>)
    requires
        call_ensures(header_text, (bytes,), r),
    ensures
        r is Some <==> readable(bytes@),
        r matches Some(text) ==> reads_as(bytes@, text@),
{
    lemma_reads_as(bytes@, Seq::empty());
}

/// A client gets XPrm notation where it accepts nothing else.
pub proof fn xprm_is_asked_for(accept: Option<&[u8]>, r: bool)
    requires
        call_ensures(is_xprm_accept, (accept,), r),
    ensures
        r <==> accept is Some && reads_as(accept->0@, "application/xprm"@),
{
    if accept is Some {
        lemma_reads_as(accept->0@, "application/xprm"@);
    }
}

/// A page holds its body, and says that it is written in UTF-8.
pub proof fn pages_hold_their_body(body: &str, page: String)
    requires
        call_ensures(http_ok_utf8, (body,), page),
    ensures
        page@ == "<html><head><meta charset=\"UTF-8\"></head><body>"@ + body@ + "</body></html>"@,
{
}

/// A request goes on to the service where it bears one of the tokens, and that is not empty.
pub proof fn only_known_tokens_are_let_through<S>(
    tokens: Vec<String>,
    keys: KeyTokens,
    service: S,
    middleware: KeyTokenMiddleware<S>,
    header: Option<&[u8]>,
    r: bool,
)
    requires
        call_ensures(KeyTokens::new, (tokens,), keys),
        call_ensures(KeyTokens::new_transform::<S>, (&keys, service), middleware),
        call_ensures(KeyTokenMiddleware::<S>::is_authorized, (&middleware, header), r),
    ensures
        middleware.service == service,
        r <==> header is Some && exists|i: int|
            0 <= i < tokens@.len() && (#[trigger] tokens@[i])@.len() > 0 && reads_as(
                header->0@,
                "Bearer "@ + tokens@[i]@,
            ),
{
    let known = texts(tokens@);
    assert(texts(middleware.key_tokens.tokens@) == known);
    if header is Some {
        lemma_reads_as(header->0@, Seq::empty());
        if r {
            let i = choose|i: int|
                0 <= i < known.len() && (#[trigger] known[i]).len() > 0 && header_chars(header->0@)
                    == "Bearer "@ + known[i];
            assert(tokens@[i]@ == known[i]);
            lemma_reads_as(header->0@, "Bearer "@ + tokens@[i]@);
        }
        if exists|i: int|
            0 <= i < tokens@.len() && (#[trigger] tokens@[i])@.len() > 0 && reads_as(
                header->0@,
                "Bearer "@ + tokens@[i]@,
            ) {
            let i = choose|i: int|
                0 <= i < tokens@.len() && (#[trigger] tokens@[i])@.len() > 0 && reads_as(
                    header->0@,
                    "Bearer "@ + tokens@[i]@,
                );
            lemma_reads_as(header->0@, "Bearer "@ + tokens@[i]@);
            assert(known[i] == tokens@[i]@);
            assert(known[i].len() > 0);
        }
    }
}

/// A guard lets through what reads as its value, whatever the case of its letters; there is none
/// for a value with a control character in it.
pub proof fn guards_ignore_case(
    name: String,
    value: &str,
    guard: Option<HeaderGuardInsensitive>,
    header: Option<&[u8]>,
    text: Seq<char>,
    r: bool,
)
    requires
        call_ensures(header_insensitive, (name, value), guard),
        guard is Some ==> call_ensures(
            HeaderGuardInsensitive::check,
            (&guard->0, header),
            r,
        ),
    ensures
        guard is None <==> exists|i: int|
            0 <= i < encode_utf8(lowercase(value@)).len() && (#[trigger] encode_utf8(
                lowercase(value@),
            )[i] < 32 && encode_utf8(lowercase(value@))[i] != 9 || encode_utf8(
                lowercase(value@),
            )[i] == 127),
        guard is Some ==> guard->0.name == name,
        guard is Some && header is Some && reads_as(header->0@, text) ==> (r <==> lowercase(text)
            == lowercase(value@)),
        guard is Some && (header is None || !readable(header->0@)) ==> !r,
{
    if header is Some {
        lemma_reads_as(header->0@, text);
    }
    let bytes = encode_utf8(lowercase(value@));
    if guard is None {
        let i = choose|i: int|
            0 <= i < bytes.len() && !crate::http::middleware::guard::header_byte(#[trigger] bytes[i]);
        assert(bytes[i] < 32 && bytes[i] != 9 || bytes[i] == 127);
    }
    if exists|i: int|
        0 <= i < bytes.len() && (#[trigger] bytes[i] < 32 && bytes[i] != 9 || bytes[i] == 127) {
        let i = choose|i: int|
            0 <= i < bytes.len() && (#[trigger] bytes[i] < 32 && bytes[i] != 9 || bytes[i] == 127);
        assert(!crate::http::middleware::guard::header_byte(bytes[i]));
    }
}

/// Whether the bytes of a header spell the lower-case `word`, in letters of either case.
pub open spec fn in_any_case(bytes: Seq<u8>, word: Seq<char>) -> bool {
    bytes.len() == word.len() && forall|j: int|
        0 <= j < bytes.len() ==> (#[trigger] bytes[j]) as int == word[j] as int || bytes[j] + 32
            == word[j] as int
}

/// Whether the bytes of a header name WebSocket somewhere, in letters of either case.
pub open spec fn names_websocket(bytes: Seq<u8>) -> bool {
    readable(bytes) && exists|at: int|
        0 <= at <= bytes.len() - 9 && in_any_case(#[trigger] bytes.subrange(at, at + 9), "websocket"@)
}

/// Whether a WebSocket version is one that is spoken.
pub open spec fn is_spoken(version: Seq<u8>) -> bool {
    reads_as(version, "13"@) || reads_as(version, "8"@) || reads_as(version, "7"@)
}

proof fn lemma_is_spoken(version: Seq<u8>)
    ensures
        is_spoken(version) == crate::http::ws::supported(version),
{
    reveal_strlit("13");
    reveal_strlit("8");
    reveal_strlit("7");
    if reads_as(version, "13"@) {
        assert("13"@[0] as int == version[0] as int && "13"@[1] as int == version[1] as int);
        assert(version =~= seq![49u8, 51u8]);
    }
    if reads_as(version, "8"@) {
        assert("8"@[0] as int == version[0] as int);
        assert(version =~= seq![56u8]);
    }
    if reads_as(version, "7"@) {
        assert("7"@[0] as int == version[0] as int);
        assert(version =~= seq![55u8]);
    }
}

proof fn lemma_lower(b: u8, c: char)
    requires
        'a' <= c <= 'z',
    ensures
        (crate::text::lower(b as char) == c) == (b as int == c as int || b + 32 == c as int),
{
}

proof fn lemma_spelled(bytes: Seq<u8>, at: int)
    requires
        0 <= at <= bytes.len() - 9,
    ensures
        in_any_case(bytes.subrange(at, at + 9), "websocket"@) == stands_at(
            lowered(header_chars(bytes)),
            "websocket"@,
            at,
        ),
{
    reveal_strlit("websocket");
    let word = "websocket"@;
    let part = bytes.subrange(at, at + 9);
    let low = lowered(header_chars(bytes));
    assert forall|j: int| 0 <= j < 9 implies 'a' <= #[trigger] word[j] <= 'z' && (low.subrange(
        at,
        at + 9,
    )[j] == word[j] <==> (part[j] as int == word[j] as int || part[j] + 32 == word[j] as int)) by {
        assert(j == 0 || j == 1 || j == 2 || j == 3 || j == 4 || j == 5 || j == 6 || j == 7 || j
            == 8);
        lemma_lower(part[j], word[j]);
        assert(low.subrange(at, at + 9)[j] == crate::text::lower(part[j] as char));
    }
    if in_any_case(part, word) {
        assert forall|j: int| 0 <= j < 9 implies low.subrange(at, at + 9)[j] == word[j] by {
            assert(part[j] as int == word[j] as int || part[j] + 32 == word[j] as int);
        }
        assert(low.subrange(at, at + 9) =~= word);
    }
    if stands_at(low, word, at) {
        assert forall|j: int| 0 <= j < part.len() implies (#[trigger] part[j]) as int
            == word[j] as int || part[j] + 32 == word[j] as int by {
            assert(low.subrange(at, at + 9)[j] == word[j]);
        }
    }
}

proof fn lemma_names_websocket(upgrade: Option<Vec<u8>>)
    ensures
        crate::http::ws::wants_websocket(upgrade) <==> upgrade is Some && names_websocket(
            upgrade->0@,
        ),
{
    if upgrade is Some {
        let bytes = upgrade->0@;
        let low = lowered(header_chars(bytes));
        reveal_strlit("websocket");
        lemma_reads_as(bytes, Seq::empty());
        if readable(bytes) {
            if occurs(low, "websocket"@) {
                let at = choose|at: int| stands_at(low, "websocket"@, at);
                assert(low.len() == bytes.len());
                lemma_spelled(bytes, at);
                assert(in_any_case(bytes.subrange(at, at + 9), "websocket"@));
            }
            if names_websocket(bytes) {
                let at = choose|at: int|
                    0 <= at <= bytes.len() - 9 && in_any_case(
                        #[trigger] bytes.subrange(at, at + 9),
                        "websocket"@,
                    );
                lemma_spelled(bytes, at);
                assert(stands_at(low, "websocket"@, at));
            }
        }
    }
}

/// A request becomes a WebSocket connection where it is a GET request, names WebSocket, asks for
/// an upgrade, in a version that is spoken, and has a key. The first of these that it lacks is the
/// reason why it does not. The key is answered.
pub proof fn websocket_requests_are_taken(
    req: HandshakeRequest,
    protocols: Vec<String>,
    r: Result<Handshake, HandshakeError>,
)
    requires
        call_ensures(handshake_with_protocols, (&req, &protocols), r),
    ensures
        ({
            let upgrade = req.upgrade is Some && names_websocket(req.upgrade->0@);
            let spoken = req.version is Some && is_spoken(req.version->0@);
            &&& r == Err::<Handshake, HandshakeError>(HandshakeError::GetMethodRequired)
                <==> !req.get
            &&& r == Err::<Handshake, HandshakeError>(HandshakeError::NoWebsocketUpgrade)
                <==> req.get && !upgrade
            &&& r == Err::<Handshake, HandshakeError>(HandshakeError::NoConnectionUpgrade)
                <==> req.get && upgrade && !req.connection_upgrade
            &&& r == Err::<Handshake, HandshakeError>(HandshakeError::NoVersionHeader) <==> req.get
                && upgrade && req.connection_upgrade && req.version is None
            &&& r == Err::<Handshake, HandshakeError>(HandshakeError::UnsupportedVersion)
                <==> req.get && upgrade && req.connection_upgrade && req.version is Some && !spoken
            &&& r == Err::<Handshake, HandshakeError>(HandshakeError::BadWebsocketKey) <==> req.get
                && upgrade && req.connection_upgrade && spoken && req.key is None
            &&& r is Ok <==> req.get && upgrade && req.connection_upgrade && spoken
                && req.key is Some
            &&& r matches Ok(h) ==> h.accept@ == accept_key(req.key->0@)
        }),
{
    lemma_names_websocket(req.upgrade);
    if req.version is Some {
        lemma_is_spoken(req.version->0@);
    }
}

/// Whether the bytes of a header name one of `protocols`.
pub open spec fn is_protocol(name: Seq<u8>, protocols: Seq<String>) -> bool {
    exists|i: int| 0 <= i < protocols.len() && reads_as(name, (#[trigger] protocols[i])@)
}

/// Whether the bytes of a header are spaces and tabs alone.
pub open spec fn are_blank(bytes: Seq<u8>) -> bool {
    forall|i: int| 0 <= i < bytes.len() ==> #[trigger] bytes[i] == 32 || bytes[i] == 9
}

proof fn lemma_asked(
    lead: Seq<u8>,
    name: Seq<u8>,
    tail: Seq<u8>,
    rest: Seq<u8>,
    known: Seq<Seq<char>>,
)
    requires
        are_blank(lead),
        are_blank(tail),
        !name.contains(44u8),
        name.len() > 0 ==> name[0] != 32 && name[0] != 9 && name.last() != 32 && name.last() != 9,
    ensures
        first_known(pieces(header_chars(lead + name + tail), ','), known) == if known.contains(
            header_chars(name),
        ) {
            Some(header_chars(name))
        } else {
            None
        },
        first_known(pieces(header_chars(lead + name + tail + seq![44u8] + rest), ','), known)
            == if known.contains(header_chars(name)) {
            Some(header_chars(name))
        } else {
            first_known(pieces(header_chars(rest), ','), known)
        },
{
    let first = header_chars(lead) + header_chars(name) + header_chars(tail);
    assert(header_chars(lead + name + tail) =~= first);
    assert(header_chars(lead + name + tail + seq![44u8] + rest) =~= first + seq![','] + header_chars(
        rest,
    ));
    assert forall|i: int| 0 <= i < first.len() implies first[i] != ',' by {
        if i < lead.len() {
            assert(first[i] == lead[i] as char);
        } else if i < lead.len() + name.len() {
            assert(first[i] == name[i - lead.len()] as char);
            assert(name.contains(name[i - lead.len()]));
        } else {
            assert(first[i] == tail[i - lead.len() - name.len()] as char);
        }
    }
    let chars = header_chars(name);
    if name.len() > 0 {
        assert(chars[0] == name[0] as char && chars.last() == name.last() as char);
    }
    lemma_trimmed(header_chars(lead), chars, header_chars(tail));
    lemma_pieces_one(first, ',');
    lemma_pieces_join(first, header_chars(rest), ',');
    let one = seq![first];
    assert(one[0] == first);
    assert(one.drop_first() =~= Seq::empty());
    assert(first_known(one.drop_first(), known) is None);
    let all = seq![first] + pieces(header_chars(rest), ',');
    assert(all[0] == first);
    assert(all.drop_first() =~= pieces(header_chars(rest), ','));
}

/// The protocol that is spoken is the first of those that are asked for, with commas between them
/// and whatever blanks around them, that is known.
pub proof fn first_known_protocol_is_spoken(
    req: HandshakeRequest,
    other: HandshakeRequest,
    protocols: Vec<String>,
    r: Handshake,
    r_other: Handshake,
    lead: Seq<u8>,
    name: Seq<u8>,
    tail: Seq<u8>,
)
    requires
        call_ensures(
            handshake_with_protocols,
            (&req, &protocols),
            Ok::<Handshake, HandshakeError>(r),
        ),
        call_ensures(
            handshake_with_protocols,
            (&other, &protocols),
            Ok::<Handshake, HandshakeError>(r_other),
        ),
        are_blank(lead),
        are_blank(tail),
        !name.contains(44u8),
        name.len() > 0 ==> name[0] != 32 && name[0] != 9 && name.last() != 32 && name.last() != 9,
    ensures
        req.protocol is None || !readable(req.protocol->0@) ==> r.protocol is None,
        req.protocol is Some && readable(req.protocol->0@) && req.protocol->0@ == lead + name + tail
            ==> {
            &&& is_protocol(name, protocols@) ==> r.protocol is Some && reads_as(
                name,
                r.protocol->0@,
            )
            &&& !is_protocol(name, protocols@) ==> r.protocol is None
        },
        req.protocol is Some && readable(req.protocol->0@) && other.protocol is Some
            && req.protocol->0@ == lead + name + tail + seq![44u8] + other.protocol->0@ ==> {
            &&& is_protocol(name, protocols@) ==> r.protocol is Some && reads_as(
                name,
                r.protocol->0@,
            )
            &&& !is_protocol(name, protocols@) ==> (r.protocol is Some <==> r_other.protocol is Some)
            &&& !is_protocol(name, protocols@) && r.protocol is Some ==> r.protocol->0@
                == r_other.protocol->0@
        },
{
    let known = texts(protocols@);
    let rest = if other.protocol is Some {
        other.protocol->0@
    } else {
        Seq::empty()
    };
    lemma_asked(lead, name, tail, rest, known);
    if req.protocol is Some {
        let bytes = req.protocol->0@;
        lemma_reads_as(bytes, Seq::empty());
        if readable(bytes) && (bytes == lead + name + tail || bytes == lead + name + tail
            + seq![44u8] + rest) {
            assert forall|i: int| 0 <= i < name.len() implies 32 <= #[trigger] name[i] <= 126
                || name[i] == 9 by {
                assert(bytes[lead.len() + i] == name[i]);
            }
            if bytes == lead + name + tail + seq![44u8] + rest {
                assert forall|i: int| 0 <= i < rest.len() implies 32 <= #[trigger] rest[i] <= 126
                    || rest[i] == 9 by {
                    assert(bytes[lead.len() + name.len() + tail.len() + 1 + i] == rest[i]);
                }
                lemma_reads_as(rest, Seq::empty());
            }
            lemma_reads_as(name, Seq::empty());
            if is_protocol(name, protocols@) {
                let i = choose|i: int|
                    0 <= i < protocols@.len() && reads_as(name, (#[trigger] protocols@[i])@);
                lemma_reads_as(name, protocols@[i]@);
                assert(known[i] == header_chars(name));
            }
            if known.contains(header_chars(name)) {
                let i = choose|i: int| 0 <= i < known.len() && known[i] == header_chars(name);
                assert(protocols@[i]@ == header_chars(name));
                assert(reads_as(name, protocols@[i]@));
            }
        }
    }
}

/// Pings are answered with what they brought and answers to pings are handed on. Texts and
/// continued frames are errors, and so is an answer that cannot be sent. The task finishes with
/// its connection, and else reads on. None of this touches a message.
pub proof fn control_frames_are_answered(
    before: WsStreamTask,
    event: WsEvent,
    command: WsCommand,
    after: WsStreamTask,
)
    requires
        exists|t: &mut WsStreamTask| #[trigger]
            call_ensures(WsStreamTask::next, (t, event), command) && *t == before && *final(t) == after,
    ensures
        event is Frame && event->Frame_0 is Ping ==> command is Pong && held(command->Pong_0)
            == held(event->Frame_0->Ping_0),
        event is Frame && event->Frame_0 is Pong ==> command is Forward && command->Forward_0
            is PingResponse,
        event is Frame && event->Frame_0 is Text ==> command is ForwardError
            && command->ForwardError_0 is UnsupportedText,
        event is Frame && event->Frame_0 is Continuation ==> command is ForwardError
            && command->ForwardError_0 is UnsupportedContinuation,
        event is PongFailed ==> command is ForwardError && command->ForwardError_0 is PongFailed,
        event is Frame && event->Frame_0 is Close ==> command is Finish,
        event is Ended || event is Failed || event is Cancelled ==> command is Finish,
        event is PongSent || event is Forwarded ==> command is Read,
        !(event is Frame && event->Frame_0 is Binary) ==> after.decoder.pending()
            == before.decoder.pending(),
{
}

/// A frame that carries a message is handed on as that message, and the task is ready for the
/// next.
pub proof fn binary_frames_are_messages(
    fresh: WsStreamTask,
    before: WsStreamTask,
    source: u64,
    destination: u64,
    compressed: bool,
    data: Seq<u8>,
    event: WsEvent,
    command: WsCommand,
    after: WsStreamTask,
)
    requires
        call_ensures(WsStreamTask::new, (), fresh),
        before.decoder.pending() == fresh.decoder.pending(),
        event is Frame && event->Frame_0 is Binary,
        data.len() + 24 <= 33554432,
        held(event->Frame_0->Binary_0) == wire_bytes(source, destination, compressed, data),
        exists|t: &mut WsStreamTask| #[trigger]
            call_ensures(WsStreamTask::next, (t, event), command) && *t == before && *final(t) == after,
    ensures
        command is Forward,
        command->Forward_0 is Message,
        ({
            let msg = command->Forward_0->Message_0;
            &&& msg.source_netid == source
            &&& msg.destination_netid == destination
            &&& msg.compressed == compressed
            &&& held(msg.data) == data
        }),
        after.decoder.pending() == fresh.decoder.pending(),
{
    let m = Envelope { source, destination, compressed, data };
    lemma_frame(m);
    frame_roundtrip(m, Seq::empty());
    assert(frame(m) + Seq::empty() =~= frame(m));
    let msg = command->Forward_0->Message_0;
    assert(msg@ == m);
    assert(msg@.source == msg.source_netid && msg@.destination == msg.destination_netid);
    assert(msg@.compressed == msg.compressed && msg@.data == held(msg.data));
}

/// Whatever a frame holds, it is what the decoder makes of it where nothing follows: a message
/// that is handed on, an error of the decoder, or the error that the message is not whole.
pub proof fn binary_frames_stand_alone(
    before: WsStreamTask,
    event: WsEvent,
    command: WsCommand,
    after: WsStreamTask,
    decoder: NetConnectionCodecDecoder,
    src: BytesMut,
    r: Result<Option<NetConnectionMessage>, NetConnectionCodecError>,
)
    requires
        event is Frame && event->Frame_0 is Binary,
        exists|t: &mut WsStreamTask| #[trigger]
            call_ensures(WsStreamTask::next, (t, event), command) && *t == before && *final(t) == after,
        decoder.pending() == before.decoder.pending(),
        held_mut(src) == held(event->Frame_0->Binary_0),
        exists|d: &mut NetConnectionCodecDecoder, s: &mut BytesMut| #[trigger]
            call_ensures(NetConnectionCodecDecoder::decode_eof, (d, s), r) && *d == decoder && *s
                == src,
    ensures
        match r {
            Ok(Some(msg)) => {
                &&& command is Forward
                &&& command->Forward_0 is Message
                &&& command->Forward_0->Message_0.source_netid == msg.source_netid
                &&& command->Forward_0->Message_0.destination_netid == msg.destination_netid
                &&& command->Forward_0->Message_0.compressed == msg.compressed
                &&& held(command->Forward_0->Message_0.data) == held(msg.data)
            },
            Ok(None) => command is ForwardError && command->ForwardError_0 is InvalidData,
            Err(e) => command is ForwardError && command->ForwardError_0 == WsError::Codec(e),
        },
{
    if let Ok(Some(msg)) = r {
        let out = command->Forward_0->Message_0;
        assert(out@ == msg@);
        assert(out@.source == out.source_netid && out@.destination == out.destination_netid);
        assert(out@.compressed == out.compressed && out@.data == held(out.data));
        assert(msg@.source == msg.source_netid && msg@.destination == msg.destination_netid);
        assert(msg@.compressed == msg.compressed && msg@.data == held(msg.data));
    }
}

/// A client is pinged at the beginning and after each interval, for as long as its connection is
/// there and pings can be sent.
pub proof fn clients_are_pinged(event: PingEvent, command: PingCommand)
    requires
        call_ensures(ping_task_next, (event,), command),
    ensures
        event == (PingEvent::Begin { cancelled: false }) || event == (PingEvent::Wake {
            cancelled: false,
        }) ==> command is Ping && held(command->Ping_0).len() == 0,
        event == (PingEvent::Begin { cancelled: true }) || event == (PingEvent::Wake {
            cancelled: true,
        }) ==> command is Finish,
        event is Sent ==> command is Sleep,
        event is SendFailed ==> command is Finish,
{
}

/// A connection stays closed, and closes where no message will come. Its body ends then, behind
/// the bytes that are still there.
pub proof fn bodies_end_with_their_connection(
    closed: bool,
    received: BodyReceived,
    behind: bool,
    empty: bool,
    step: BodyStep,
)
    requires
        call_ensures(closed_behind, (closed, received), behind),
        call_ensures(body_step, (empty, behind), step),
    ensures
        closed ==> behind,
        received is Closed ==> behind,
        behind && !closed ==> received is Closed,
        step is Send <==> !empty,
        step is End <==> empty && behind,
        step is Wait <==> empty && !behind,
{
}

/// A connection is called by the address of its client.
pub proof fn connections_are_called_by_their_address(addr: Option<&str>, s: String)
    requires
        call_ensures(connection_info, (addr,), s),
    ensures
        addr is Some ==> s@ == "WebSocket("@ + addr->0@ + ")"@,
        addr is None ==> s@ == "WebSocket(?)"@,
{
}

} // verus!
