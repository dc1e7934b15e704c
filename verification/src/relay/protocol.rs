//! The bytes of the relay protocol: how each request of a peer is laid out and read, what is
//! refused, and how each message of the relay is laid out.

use crate::buffer::{held, held_mut, le, le_bytes, le_roundtrip, lemma_le_bytes_len, bound};
use crate::lobby::room_info::{map_of, ExtraData, LobbyHost, LobbyWithRooms, RoomDetails};
use crate::netconnection::netconnection::{
    NetConnectionMessage, NetConnectionSink, NetConnectionWrite, NETID,
};
use crate::relay::laws::{does_what_was_said, leads_to_nothing};
use crate::relay::messages::{
    game_at, is_answer, map_at, map_is_read, number_at, pairs_at, pairs_wire, pairs_within,
    read_message, room_at, said_at, string_at, string_is_read, string_wire, utf8_prefix, NetRelayMessage,
    NetRelayMessageError, NetRelayMessageType, Reading, Said, Stop, WriteError,
};
use crate::relay::peer_relay::{PeerRelay, RelayOutcome};
use crate::utils::time::{told, Duration, Timestamp};
use crate::xprm::value::Value;
use tokio_util::bytes::{Bytes, BytesMut};
use vstd::prelude::*;
use vstd::utf8::{decode_utf8, encode_utf8, valid_utf8};

verus! {

/// A text on the wire: the number of its bytes in 2 bytes, lowest first, and its bytes.
pub open spec fn counted(s: Seq<char>) -> Seq<u8> {
    le_bytes(encode_utf8(s).len(), 2) + encode_utf8(s)
}

/// Whether `msg` is an open message from `source` to the relay with the bytes `data`.
pub open spec fn sent(msg: NetConnectionMessage, source: NETID, data: Seq<u8>) -> bool {
    &&& msg.source_netid == source
    &&& msg.destination_netid == 2
    &&& !msg.compressed
    &&& held(msg.data) == data
}

/// Whether `at` and `now` are what reading `msg` gives, at a clock reading and by the clock.
pub open spec fn read_from(
    msg: NetConnectionMessage,
    clock: Option<Duration>,
    at: Result<NetRelayMessage, Stop>,
    now: Result<NetRelayMessage, NetRelayMessageError>,
) -> bool {
    &&& call_ensures(NetRelayMessage::read_at, (msg, clock), at)
    &&& call_ensures(NetRelayMessage::from_message, (msg,), now)
}

proof fn lemma_read_now(
    msg: NetConnectionMessage,
    r: Result<NetRelayMessage, NetRelayMessageError>,
) -> (clock: Option<Duration>)
    requires
        call_ensures(NetRelayMessage::from_message, (msg,), r),
    ensures
        told(clock),
        is_answer(r, read_message(msg@, clock)),
{
    choose|clock: Option<Duration>| #[trigger]
        told(clock) && is_answer(r, read_message(msg@, clock))
}

proof fn lemma_head(a: u8, b: u8, c: u8, d: u8, rest: Seq<u8>)
    ensures
        number_at(seq![a, b, c, d] + rest, 4) == (Reading {
            result: Ok::<nat, Stop>((a + 256 * b + 0x10000 * c + 0x1000000 * d) as nat),
            rest,
        }),
{
    let head = seq![a, b, c, d];
    let all = head + rest;
    reveal_with_fuel(le, 5);
    assert(all.take(4) =~= head);
    assert(all.skip(4) =~= rest);
    assert(head.drop_first() =~= seq![b, c, d]);
    assert(seq![b, c, d].drop_first() =~= seq![c, d]);
    assert(seq![c, d].drop_first() =~= seq![d]);
    assert(seq![d].drop_first() =~= Seq::<u8>::empty());
}

/// A message from `source` whose header names the type `t` is read as one of that type.
proof fn lemma_typed(
    msg: NetConnectionMessage,
    a: u8,
    c: u8,
    t: NetRelayMessageType,
    source: NETID,
    body: Seq<u8>,
    clock: Option<Duration>,
)
    requires
        sent(msg, source, seq![a, 0u8, c, 1u8] + body),
        source != 2 && source != 3,
        NetRelayMessageType::numbered((a + 0x10000 * c) as u32) == Some(t),
        t == NetRelayMessageType::RELAY_MSG_PEER_SETUP_ROOM ==> source == 1,
        t == NetRelayMessageType::RELAY_MSG_PEER_JOIN_ROOM ==> source == 0,
    ensures
        read_message(msg@, clock) == said_at(
            t,
            (a + 0x10000 * c + 0x1000000) as u32,
            body,
            clock,
        ),
{
    lemma_head(a, 0, c, 1, body);
    let h = (a + 0x10000 * c + 0x1000000) as nat;
    assert(h / 0x1000000 == 1);
    assert(h % 0x1000000 == a + 0x10000 * c);
}

proof fn lemma_number(v: nat, n: nat, rest: Seq<u8>)
    requires
        v < bound(n),
    ensures
        number_at(le_bytes(v, n) + rest, n) == (Reading { result: Ok::<nat, Stop>(v), rest }),
{
    le_roundtrip(v, n);
    let all = le_bytes(v, n) + rest;
    assert(all.take(n as int) =~= le_bytes(v, n));
    assert(all.skip(n as int) =~= rest);
}

proof fn lemma_text(s: Seq<char>, max: nat, rest: Seq<u8>)
    requires
        encode_utf8(s).len() <= max <= 256,
    ensures
        string_at(counted(s) + rest, max) == (Reading { result: Ok::<Seq<char>, Stop>(s), rest }),
{
    string_is_read(s, max, rest);
    assert(counted(s) == string_wire(s));
}

proof fn lemma_game(t: Seq<char>, v: Seq<char>, rest: Seq<u8>)
    requires
        encode_utf8(t).len() <= 32,
        encode_utf8(v).len() <= 32,
    ensures
        string_at(counted(t) + counted(v) + rest, 32) == (Reading {
            result: Ok::<Seq<char>, Stop>(t),
            rest: counted(v) + rest,
        }),
        string_at(counted(v) + rest, 32) == (Reading { result: Ok::<Seq<char>, Stop>(v), rest }),
{
    assert(counted(t) + counted(v) + rest =~= counted(t) + (counted(v) + rest));
    lemma_text(t, 32, counted(v) + rest);
    lemma_text(v, 32, rest);
}

proof fn lemma_bounds()
    ensures
        bound(2) == 0x10000,
        bound(4) == 0x1_0000_0000,
        bound(8) == 0x1_0000_0000_0000_0000,
{
    reveal_with_fuel(bound, 9);
}

/// Whether `m` asks to join the room `id`, for the game `t` in the version `v`.
pub open spec fn asks_to_join(m: NetRelayMessage, t: Seq<char>, v: Seq<char>, id: u64) -> bool {
    m matches NetRelayMessage::PeerJoinRoom(join) && join.game_type@ == t && join.game_version@ == v
        && join.room_id == id
}

/// A request to join a room is read as it is laid out: its type, the game, the version, and the id
/// of the room. Only who has no NETID yet may ask.
pub proof fn join_is_read(
    msg: NetConnectionMessage,
    t: Seq<char>,
    v: Seq<char>,
    id: u64,
    rest: Seq<u8>,
    clock: Option<Duration>,
    at: Result<NetRelayMessage, Stop>,
    now: Result<NetRelayMessage, NetRelayMessageError>,
)
    requires
        read_from(msg, clock, at, now),
        encode_utf8(t).len() <= 32,
        encode_utf8(v).len() <= 32,
        sent(
            msg,
            0,
            seq![3u8, 0u8, 1u8, 1u8] + (counted(t) + counted(v) + (le_bytes(id as nat, 8) + rest)),
        ),
    ensures
        at matches Ok(m) && asks_to_join(m, t, v, id),
        now matches Ok(m) && asks_to_join(m, t, v, id),
{
    let told_at = lemma_read_now(msg, now);
    let body = counted(t) + counted(v) + (le_bytes(id as nat, 8) + rest);
    let kind = NetRelayMessageType::RELAY_MSG_PEER_JOIN_ROOM;
    lemma_typed(msg, 3, 1, kind, 0, body, clock);
    lemma_typed(msg, 3, 1, kind, 0, body, told_at);
    lemma_bounds();
    lemma_game(t, v, le_bytes(id as nat, 8) + rest);
    lemma_number(id as nat, 8, rest);
    assert(at matches Ok(m) && asks_to_join(m, t, v, id));
}

/// Whether `m` asks for the rooms of the game `t` in the version `v`, in the format `format`.
pub open spec fn asks_for_lobbies(
    m: NetRelayMessage,
    t: Seq<char>,
    v: Seq<char>,
    format: u16,
) -> bool {
    m matches NetRelayMessage::PeerListLobbies { game_type, game_version, format: f }
        && game_type@ == t && game_version@ == v && f == format
}

/// Whether `m` asks for the hosts of the game `t` in the version `v`, in the format `format`.
pub open spec fn asks_for_hosts(
    m: NetRelayMessage,
    t: Seq<char>,
    v: Seq<char>,
    format: u16,
) -> bool {
    m matches NetRelayMessage::PeerListLobbyHosts { game_type, game_version, format: f }
        && game_type@ == t && game_version@ == v && f == format
}

/// A request for the rooms of a game is read as it is laid out: its type, the game, the version,
/// and the format of the answer.
pub proof fn list_lobbies_is_read(
    msg: NetConnectionMessage,
    source: NETID,
    t: Seq<char>,
    v: Seq<char>,
    format: u16,
    rest: Seq<u8>,
    clock: Option<Duration>,
    at: Result<NetRelayMessage, Stop>,
    now: Result<NetRelayMessage, NetRelayMessageError>,
)
    requires
        read_from(msg, clock, at, now),
        source != 2 && source != 3,
        encode_utf8(t).len() <= 32,
        encode_utf8(v).len() <= 32,
        sent(
            msg,
            source,
            seq![1u8, 0u8, 1u8, 1u8] + (counted(t) + counted(v) + (le_bytes(format as nat, 2)
                + rest)),
        ),
    ensures
        at matches Ok(m) && asks_for_lobbies(m, t, v, format),
        now matches Ok(m) && asks_for_lobbies(m, t, v, format),
{
    let told_at = lemma_read_now(msg, now);
    let body = counted(t) + counted(v) + (le_bytes(format as nat, 2) + rest);
    let kind = NetRelayMessageType::RELAY_MSG_PEER_LIST_LOBBIES;
    lemma_typed(msg, 1, 1, kind, source, body, clock);
    lemma_typed(msg, 1, 1, kind, source, body, told_at);
    lemma_bounds();
    lemma_game(t, v, le_bytes(format as nat, 2) + rest);
    lemma_number(format as nat, 2, rest);
}

/// The same of a request for the hosts of a game.
pub proof fn list_hosts_is_read(
    msg: NetConnectionMessage,
    source: NETID,
    t: Seq<char>,
    v: Seq<char>,
    format: u16,
    rest: Seq<u8>,
    clock: Option<Duration>,
    at: Result<NetRelayMessage, Stop>,
    now: Result<NetRelayMessage, NetRelayMessageError>,
)
    requires
        read_from(msg, clock, at, now),
        source != 2 && source != 3,
        encode_utf8(t).len() <= 32,
        encode_utf8(v).len() <= 32,
        sent(
            msg,
            source,
            seq![7u8, 0u8, 1u8, 1u8] + (counted(t) + counted(v) + (le_bytes(format as nat, 2)
                + rest)),
        ),
    ensures
        at matches Ok(m) && asks_for_hosts(m, t, v, format),
        now matches Ok(m) && asks_for_hosts(m, t, v, format),
{
    let told_at = lemma_read_now(msg, now);
    let body = counted(t) + counted(v) + (le_bytes(format as nat, 2) + rest);
    let kind = NetRelayMessageType::RELAY_MSG_PEER_LIST_LOBBY_HOSTS;
    lemma_typed(msg, 7, 1, kind, source, body, clock);
    lemma_typed(msg, 7, 1, kind, source, body, told_at);
    lemma_bounds();
    lemma_game(t, v, le_bytes(format as nat, 2) + rest);
    lemma_number(format as nat, 2, rest);
}

/// A request to leave the room is its type alone.
pub proof fn leave_is_read(
    msg: NetConnectionMessage,
    source: NETID,
    rest: Seq<u8>,
    clock: Option<Duration>,
    at: Result<NetRelayMessage, Stop>,
    now: Result<NetRelayMessage, NetRelayMessageError>,
)
    requires
        read_from(msg, clock, at, now),
        source != 2 && source != 3,
        sent(msg, source, seq![4u8, 0u8, 1u8, 1u8] + rest),
    ensures
        at matches Ok(m) && m is PeerLeaveRoom,
        now matches Ok(m) && m is PeerLeaveRoom,
{
    let told_at = lemma_read_now(msg, now);
    let kind = NetRelayMessageType::RELAY_MSG_PEER_LEAVE_ROOM;
    lemma_typed(msg, 4, 1, kind, source, rest, clock);
    lemma_typed(msg, 4, 1, kind, source, rest, told_at);
}

/// A request to have a peer closed is its type and the NETID of that peer.
pub proof fn close_peer_is_read(
    msg: NetConnectionMessage,
    source: NETID,
    netid: NETID,
    rest: Seq<u8>,
    clock: Option<Duration>,
    at: Result<NetRelayMessage, Stop>,
    now: Result<NetRelayMessage, NetRelayMessageError>,
)
    requires
        read_from(msg, clock, at, now),
        source != 2 && source != 3,
        sent(msg, source, seq![6u8, 0u8, 1u8, 1u8] + (le_bytes(netid as nat, 8) + rest)),
    ensures
        at matches Ok(NetRelayMessage::PeerClosePeer(k)) && k == netid,
        now matches Ok(NetRelayMessage::PeerClosePeer(k)) && k == netid,
{
    let told_at = lemma_read_now(msg, now);
    let kind = NetRelayMessageType::RELAY_MSG_PEER_CLOSE_PEER;
    lemma_typed(msg, 6, 1, kind, source, le_bytes(netid as nat, 8) + rest, clock);
    lemma_typed(msg, 6, 1, kind, source, le_bytes(netid as nat, 8) + rest, told_at);
    lemma_bounds();
    lemma_number(netid as nat, 8, rest);
}

/// A message that closes a connection is its type and the code that says why.
pub proof fn close_is_read(
    msg: NetConnectionMessage,
    source: NETID,
    code: u32,
    rest: Seq<u8>,
    clock: Option<Duration>,
    at: Result<NetRelayMessage, Stop>,
    now: Result<NetRelayMessage, NetRelayMessageError>,
)
    requires
        read_from(msg, clock, at, now),
        source != 2 && source != 3,
        sent(msg, source, seq![1u8, 0u8, 0u8, 1u8] + (le_bytes(code as nat, 4) + rest)),
    ensures
        at matches Ok(NetRelayMessage::Close(c)) && c == code,
        now matches Ok(NetRelayMessage::Close(c)) && c == code,
{
    let told_at = lemma_read_now(msg, now);
    let kind = NetRelayMessageType::RELAY_MSG_CLOSE;
    lemma_typed(msg, 1, 0, kind, source, le_bytes(code as nat, 4) + rest, clock);
    lemma_typed(msg, 1, 0, kind, source, le_bytes(code as nat, 4) + rest, told_at);
    lemma_bounds();
    lemma_number(code as nat, 4, rest);
}

/// An answer to a ping is its type and the time stamp of the ping, its seconds and then its
/// nanoseconds; it is read as the time that has passed since then. A stamp from the future, or a
/// clock before the epoch, gives no time at all.
pub proof fn ping_response_is_read(
    msg: NetConnectionMessage,
    source: NETID,
    secs: u64,
    nanos: u32,
    rest: Seq<u8>,
    clock: Option<Duration>,
    at: Result<NetRelayMessage, Stop>,
    now: Result<NetRelayMessage, NetRelayMessageError>,
)
    requires
        read_from(msg, clock, at, now),
        source != 2 && source != 3,
        sent(
            msg,
            source,
            seq![5u8, 0u8, 1u8, 1u8] + (le_bytes(secs as nat, 8) + (le_bytes(nanos as nat, 4)
                + rest)),
        ),
    ensures
        at matches Ok(NetRelayMessage::PeerPingResponse(took)) && took.nanos == passed(
            clock,
            secs,
            nanos,
        ),
        exists|reading: Option<Duration>| #[trigger]
            told(reading) && (now matches Ok(NetRelayMessage::PeerPingResponse(took)) && took.nanos
                == passed(reading, secs, nanos)),
{
    let told_at = lemma_read_now(msg, now);
    let body = le_bytes(secs as nat, 8) + (le_bytes(nanos as nat, 4) + rest);
    let kind = NetRelayMessageType::RELAY_MSG_PEER_PING_RESPONSE;
    lemma_typed(msg, 5, 1, kind, source, body, clock);
    lemma_typed(msg, 5, 1, kind, source, body, told_at);
    lemma_bounds();
    lemma_number(secs as nat, 8, le_bytes(nanos as nat, 4) + rest);
    lemma_number(nanos as nat, 4, rest);
    assert(at matches Ok(NetRelayMessage::PeerPingResponse(took)) && took@ == passed(
        clock,
        secs,
        nanos,
    ));
    assert(now matches Ok(NetRelayMessage::PeerPingResponse(took)) && took@ == passed(
        told_at,
        secs,
        nanos,
    ));
}

/// The nanoseconds from a time stamp to a clock reading.
pub open spec fn passed(clock: Option<Duration>, secs: u64, nanos: u32) -> int {
    let stamp = secs * 1_000_000_000 + nanos;
    match clock {
        Some(d) => if d.nanos >= stamp {
            d.nanos - stamp
        } else {
            0
        },
        None => 0,
    }
}

/// A request to bridge a room is its type, the id of the room and a token.
pub proof fn bridge_is_read(
    msg: NetConnectionMessage,
    source: NETID,
    id: u64,
    token: Seq<char>,
    rest: Seq<u8>,
    clock: Option<Duration>,
    at: Result<NetRelayMessage, Stop>,
    now: Result<NetRelayMessage, NetRelayMessageError>,
)
    requires
        read_from(msg, clock, at, now),
        source != 2 && source != 3,
        encode_utf8(token).len() <= 32,
        sent(
            msg,
            source,
            seq![8u8, 0u8, 1u8, 1u8] + (le_bytes(id as nat, 8) + (counted(token) + rest)),
        ),
    ensures
        at matches Ok(NetRelayMessage::PeerBridgeRoom { room_id, token: s }) && room_id == id && s@
            == token,
        now matches Ok(NetRelayMessage::PeerBridgeRoom { room_id, token: s }) && room_id == id && s@
            == token,
{
    let told_at = lemma_read_now(msg, now);
    let kind = NetRelayMessageType::RELAY_MSG_PEER_BRIDGE_ROOM;
    lemma_typed(msg, 8, 1, kind, source, le_bytes(id as nat, 8) + (counted(token) + rest), clock);
    lemma_typed(msg, 8, 1, kind, source, le_bytes(id as nat, 8) + (counted(token) + rest), told_at);
    lemma_bounds();
    lemma_number(id as nat, 8, counted(token) + rest);
    lemma_text(token, 32, rest);
}

/// A request to describe a room, as it is laid out: the game, the version and the name, three
/// flags, the players that are there, the most that there may be, the topology, and the extra
/// data, its number of pairs and each pair's key and value.
pub open spec fn description_bytes(
    t: Seq<char>,
    v: Seq<char>,
    name: Seq<char>,
    flags: (u8, u8, u8),
    count: u16,
    most: u16,
    topology: u16,
    pairs: Seq<(Seq<char>, Seq<char>)>,
) -> Seq<u8> {
    counted(t) + counted(v) + (counted(name) + (seq![flags.0, flags.1, flags.2] + le_bytes(
        count as nat,
        2,
    ) + le_bytes(most as nat, 2) + le_bytes(topology as nat, 2) + (le_bytes(pairs.len(), 2)
        + counted_pairs(pairs))))
}

/// Pairs of texts on the wire, one behind the other.
pub open spec fn counted_pairs(pairs: Seq<(Seq<char>, Seq<char>)>) -> Seq<u8>
    decreases pairs.len(),
{
    if pairs.len() == 0 {
        Seq::empty()
    } else {
        counted(pairs[0].0) + counted(pairs[0].1) + counted_pairs(pairs.drop_first())
    }
}

/// Whether `data` holds the pairs `pairs`, and of several with one key the last.
pub open spec fn holds_pairs(
    data: Map<Seq<char>, Seq<char>>,
    pairs: Seq<(Seq<char>, Seq<char>)>,
) -> bool {
    &&& forall|k: Seq<char>| #[trigger]
        data.contains_key(k) ==> exists|i: int|
            0 <= i < pairs.len() && #[trigger] pairs[i] == (k, data[k])
    &&& forall|i: int|
        0 <= i < pairs.len() && (forall|j: int|
            i < j < pairs.len() ==> (#[trigger] pairs[j]).0 != pairs[i].0) ==> data.contains_key(
            (#[trigger] pairs[i]).0,
        ) && data[pairs[i].0] == pairs[i].1
}

proof fn lemma_holds_pairs(pairs: Seq<(Seq<char>, Seq<char>)>)
    ensures
        holds_pairs(map_of(pairs), pairs),
    decreases pairs.len(),
{
    if pairs.len() > 0 {
        let rest = pairs.drop_last();
        let last = pairs.last();
        let m = map_of(pairs);
        lemma_holds_pairs(rest);
        assert(pairs[pairs.len() - 1] == last);
        assert forall|k: Seq<char>| #[trigger] m.contains_key(k) implies exists|i: int|
            0 <= i < pairs.len() && #[trigger] pairs[i] == (k, m[k]) by {
            if k != last.0 {
                assert(map_of(rest).contains_key(k));
                let i = choose|i: int|
                    0 <= i < rest.len() && #[trigger] rest[i] == (k, map_of(rest)[k]);
                assert(pairs[i] == (k, m[k]));
            }
        }
        assert forall|i: int|
            0 <= i < pairs.len() && (forall|j: int|
                i < j < pairs.len() ==> (#[trigger] pairs[j]).0
                    != pairs[i].0) implies m.contains_key((#[trigger] pairs[i]).0)
            && m[pairs[i].0] == pairs[i].1 by {
            if i < rest.len() {
                assert(pairs[pairs.len() - 1].0 != pairs[i].0);
                assert(rest[i] == pairs[i]);
                assert forall|j: int| i < j < rest.len() implies (#[trigger] rest[j]).0
                    != rest[i].0 by {
                    assert(pairs[j] == rest[j]);
                }
            }
        }
    }
}

proof fn lemma_counted_pairs(pairs: Seq<(Seq<char>, Seq<char>)>)
    ensures
        counted_pairs(pairs) == pairs_wire(pairs),
    decreases pairs.len(),
{
    if pairs.len() > 0 {
        lemma_counted_pairs(pairs.drop_first());
    }
}

/// Whether no key has more than `max_key` bytes, and no value more than `max_value`.
pub open spec fn texts_within(
    pairs: Seq<(Seq<char>, Seq<char>)>,
    max_key: nat,
    max_value: nat,
) -> bool {
    forall|i: int|
        0 <= i < pairs.len() ==> encode_utf8((#[trigger] pairs[i]).0).len() <= max_key
            && encode_utf8(pairs[i].1).len() <= max_value
}

/// Whether `m` describes a room so.
pub open spec fn describes(
    m: NetRelayMessage,
    t: Seq<char>,
    v: Seq<char>,
    name: Seq<char>,
    flags: (u8, u8, u8),
    count: u16,
    most: u16,
    topology: u16,
    pairs: Seq<(Seq<char>, Seq<char>)>,
) -> bool {
    m matches NetRelayMessage::PeerSetupRoom { info, topology: asked } && {
        &&& asked == topology
        &&& info.room_id == 0
        &&& info.ping == 0
        &&& info.game_type@ == t
        &&& info.game_version@ == v
        &&& info.room_name@ == name
        &&& info.room_password == (flags.0 != 0)
        &&& info.room_closed == (flags.1 != 0)
        &&& info.game_started == (flags.2 != 0)
        &&& info.players_count == count
        &&& info.players_max == most
        &&& holds_pairs(info.extra_data@, pairs)
    }
}

/// A description of a room is read as it is laid out. Only a host may send one.
pub proof fn setup_is_read(
    msg: NetConnectionMessage,
    t: Seq<char>,
    v: Seq<char>,
    name: Seq<char>,
    flags: (u8, u8, u8),
    count: u16,
    most: u16,
    topology: u16,
    pairs: Seq<(Seq<char>, Seq<char>)>,
    clock: Option<Duration>,
    at: Result<NetRelayMessage, Stop>,
    now: Result<NetRelayMessage, NetRelayMessageError>,
)
    requires
        read_from(msg, clock, at, now),
        encode_utf8(t).len() <= 32,
        encode_utf8(v).len() <= 32,
        encode_utf8(name).len() <= 64,
        pairs.len() <= 32,
        texts_within(pairs, 64, 128),
        sent(
            msg,
            1,
            seq![2u8, 0u8, 1u8, 1u8] + description_bytes(
                t,
                v,
                name,
                flags,
                count,
                most,
                topology,
                pairs,
            ),
        ),
    ensures
        at matches Ok(m) && describes(m, t, v, name, flags, count, most, topology, pairs),
        now matches Ok(m) && describes(m, t, v, name, flags, count, most, topology, pairs),
{
    let told_at = lemma_read_now(msg, now);
    let body = description_bytes(t, v, name, flags, count, most, topology, pairs);
    let kind = NetRelayMessageType::RELAY_MSG_PEER_SETUP_ROOM;
    lemma_typed(msg, 2, 1, kind, 1, body, clock);
    lemma_typed(msg, 2, 1, kind, 1, body, told_at);
    lemma_room(t, v, name, flags, count, most, topology, pairs);
    lemma_holds_pairs(pairs);
    let said = room_at(body)->Ok_0;
    assert(at matches Ok(m) && m@ == said);
    assert(now matches Ok(m) && m@ == said);
    lemma_describes(at->Ok_0, t, v, name, flags, count, most, topology, pairs);
    lemma_describes(now->Ok_0, t, v, name, flags, count, most, topology, pairs);
}

proof fn lemma_describes(
    m: NetRelayMessage,
    t: Seq<char>,
    v: Seq<char>,
    name: Seq<char>,
    flags: (u8, u8, u8),
    count: u16,
    most: u16,
    topology: u16,
    pairs: Seq<(Seq<char>, Seq<char>)>,
)
    requires
        m@ == described(t, v, name, flags, count, most, topology, pairs),
        holds_pairs(map_of(pairs), pairs),
    ensures
        describes(m, t, v, name, flags, count, most, topology, pairs),
{
    if let NetRelayMessage::PeerSetupRoom { info, topology: asked } = m {
        let d = described(t, v, name, flags, count, most, topology, pairs)->info;
        assert(info@ == d);
        assert(info@.game_type == d.game_type);
    }
}

spec fn described(
    t: Seq<char>,
    v: Seq<char>,
    name: Seq<char>,
    flags: (u8, u8, u8),
    count: u16,
    most: u16,
    topology: u16,
    pairs: Seq<(Seq<char>, Seq<char>)>,
) -> Said {
    Said::PeerSetupRoom {
        info: RoomDetails {
            room_id: 0,
            game_type: t,
            game_version: v,
            room_name: name,
            room_password: flags.0 != 0,
            room_closed: flags.1 != 0,
            game_started: flags.2 != 0,
            players_count: count,
            players_max: most,
            ping: 0,
            extra_data: map_of(pairs),
        },
        topology,
    }
}

#[verifier::spinoff_prover]
#[verifier::rlimit(50)]
proof fn lemma_room(
    t: Seq<char>,
    v: Seq<char>,
    name: Seq<char>,
    flags: (u8, u8, u8),
    count: u16,
    most: u16,
    topology: u16,
    pairs: Seq<(Seq<char>, Seq<char>)>,
)
    requires
        encode_utf8(t).len() <= 32,
        encode_utf8(v).len() <= 32,
        encode_utf8(name).len() <= 64,
        pairs.len() <= 32,
        texts_within(pairs, 64, 128),
    ensures
        room_at(description_bytes(t, v, name, flags, count, most, topology, pairs)) == Ok::<
            Said,
            Stop,
        >(described(t, v, name, flags, count, most, topology, pairs)),
{
    let body = description_bytes(t, v, name, flags, count, most, topology, pairs);
    let map = le_bytes(pairs.len(), 2) + counted_pairs(pairs);
    let fixed = seq![flags.0, flags.1, flags.2] + le_bytes(count as nat, 2) + le_bytes(
        most as nat,
        2,
    ) + le_bytes(topology as nat, 2) + map;
    lemma_bounds();
    le_roundtrip(count as nat, 2);
    le_roundtrip(most as nat, 2);
    le_roundtrip(topology as nat, 2);
    lemma_game(t, v, counted(name) + fixed);
    lemma_text(name, 64, fixed);
    assert(fixed.subrange(3, 5) =~= le_bytes(count as nat, 2));
    assert(fixed.subrange(5, 7) =~= le_bytes(most as nat, 2));
    assert(fixed.subrange(7, 9) =~= le_bytes(topology as nat, 2));
    assert(fixed.skip(9) =~= map);
    lemma_counted_pairs(pairs);
    assert(pairs_within(pairs, 64, 128)) by {
        assert forall|i: int| 0 <= i < pairs.len() implies encode_utf8(
            (#[trigger] pairs[i]).0,
        ).len() <= crate::relay::messages::min(64, 256) && encode_utf8(pairs[i].1).len()
            <= crate::relay::messages::min(128, 256) by {
            assert(encode_utf8(pairs[i].0).len() <= 64);
        }
    }
    map_is_read(pairs, 32, 64, 128, Seq::empty());
    assert(map + Seq::<u8>::empty() =~= map);
    assert(le_bytes(pairs.len(), 2) + pairs_wire(pairs) + Seq::<u8>::empty() =~= map);
    assert(map_at(map, 32, 64, 128).result == Ok::<Map<Seq<char>, Seq<char>>, Stop>(
        map_of(pairs),
    ));
}

/// Whether reading was refused for `error`.
pub open spec fn refused_for(
    at: Result<NetRelayMessage, Stop>,
    now: Result<NetRelayMessage, NetRelayMessageError>,
    error: NetRelayMessageError,
) -> bool {
    &&& at matches Err(stop) && stop == Stop::Refused(error)
    &&& now matches Err(e) && e == error
}

/// What is compressed, or not addressed to the relay, is not read.
pub proof fn only_open_messages_to_the_relay_are_read(
    msg: NetConnectionMessage,
    clock: Option<Duration>,
    at: Result<NetRelayMessage, Stop>,
    now: Result<NetRelayMessage, NetRelayMessageError>,
)
    requires
        read_from(msg, clock, at, now),
    ensures
        msg.compressed ==> refused_for(at, now, NetRelayMessageError::UnsupportedFlag(1)),
        !msg.compressed && msg.destination_netid != 2 ==> refused_for(
            at,
            now,
            NetRelayMessageError::WrongDestinationNETID(msg.destination_netid),
        ),
{
    let told_at = lemma_read_now(msg, now);
    assert(msg@.compressed == msg.compressed && msg@.destination == msg.destination_netid);
}

/// A message of another version of the protocol is not read, nor is one that claims to come from
/// the relay or from everybody, nor one of a type that a peer cannot send.
pub proof fn only_peers_are_read(
    msg: NetConnectionMessage,
    source: NETID,
    a: u8,
    b: u8,
    c: u8,
    version: u8,
    body: Seq<u8>,
    clock: Option<Duration>,
    at: Result<NetRelayMessage, Stop>,
    now: Result<NetRelayMessage, NetRelayMessageError>,
)
    requires
        read_from(msg, clock, at, now),
        sent(msg, source, seq![a, b, c, version] + body),
    ensures
        version != 1 ==> refused_for(at, now, NetRelayMessageError::WrongProtocol(version)),
        version == 1 && (source == 2 || source == 3) ==> refused_for(
            at,
            now,
            NetRelayMessageError::WrongSourceNETID(source),
        ),
        // Only a host describes a room, and only who has no NETID joins one
        version == 1 && source != 1 && source != 2 && source != 3 && (a, b, c) == (2u8, 0u8, 1u8)
            ==> refused_for(at, now, NetRelayMessageError::WrongSourceNETID(source)),
        version == 1 && source != 0 && source != 2 && source != 3 && (a, b, c) == (3u8, 0u8, 1u8)
            ==> refused_for(at, now, NetRelayMessageError::WrongSourceNETID(source)),
        version == 1 && source != 2 && source != 3 && !sent_by_peers(a, b, c) ==> refused_for(
            at,
            now,
            NetRelayMessageError::UnknownType((a + 256 * b + 0x10000 * c + 0x1000000) as u32),
        ),
{
    let told_at = lemma_read_now(msg, now);
    lemma_head(a, b, c, version, body);
    let h = (a + 256 * b + 0x10000 * c + 0x1000000 * version) as nat;
    assert(h / 0x1000000 == version);
    assert(h % 0x1000000 == a + 256 * b + 0x10000 * c);
}

/// Whether the three low bytes of a header name a type of message that is read.
pub open spec fn sent_by_peers(a: u8, b: u8, c: u8) -> bool {
    b == 0 && ((c == 0 && a == 1) || (c == 1 && 1 <= a <= 8) || (c == 2 && (a == 2 || a == 4 || a
        == 5)))
}

/// What a text on the wire is read as: one that is longer than allowed is refused, as is one whose
/// bytes are not all there or are not UTF-8; any other is taken off the bytes.
pub proof fn texts_are_read(
    before: Bytes,
    max: u16,
    n: u16,
    rest: Seq<u8>,
    after: Bytes,
    r: Result<String, NetRelayMessageError>,
)
    requires
        exists|data: &mut Bytes| #[trigger]
            call_ensures(NetRelayMessage::read_string, (data, max), r) && *data == before && *final(data)
                == after,
        held(before) == le_bytes(n as nat, 2) + rest,
    ensures
        n > max || n > 256 ==> r == Err::<String, NetRelayMessageError>(
            NetRelayMessageError::TooLongString(n),
        ),
        n <= max && n <= 256 && n > rest.len() ==> r == Err::<String, NetRelayMessageError>(
            NetRelayMessageError::MissingData,
        ),
        n <= max && n <= 256 && n <= rest.len() ==> {
            let bytes = rest.take(n as int);
            &&& held(after) == rest.skip(n as int)
            &&& valid_utf8(bytes) ==> (r matches Ok(s) && s@ == decode_utf8(bytes))
            &&& !valid_utf8(bytes) ==> (r matches Err(NetRelayMessageError::NotUTF8String(k)) && k
                < n && (k == 0 || valid_utf8(bytes.take(k as int))) && forall|j: int|
                k < j <= n ==> !valid_utf8(#[trigger] bytes.take(j)))
        },
{
    lemma_bounds();
    lemma_number(n as nat, 2, rest);
    if n <= rest.len() {
        let bytes = rest.take(n as int);
        lemma_utf8_prefix(bytes, n as nat);
        assert(bytes.take(n as int) =~= bytes);
    }
}

proof fn lemma_utf8_prefix(s: Seq<u8>, n: nat)
    requires
        n <= s.len(),
    ensures
        utf8_prefix(s, n) <= n,
        utf8_prefix(s, n) == 0 || valid_utf8(s.take(utf8_prefix(s, n) as int)),
        forall|j: int| utf8_prefix(s, n) < j <= n ==> !valid_utf8(#[trigger] s.take(j)),
    decreases n,
{
    if n > 0 && !valid_utf8(s.take(n as int)) {
        lemma_utf8_prefix(s, (n - 1) as nat);
    }
}

/// A map on the wire is read as its pairs; one with more pairs than allowed is refused.
pub proof fn maps_are_read(
    before: Bytes,
    max: u16,
    max_key: u16,
    max_value: u16,
    pairs: Seq<(Seq<char>, Seq<char>)>,
    rest: Seq<u8>,
    after: Bytes,
    r: Result<ExtraData, NetRelayMessageError>,
)
    requires
        exists|data: &mut Bytes| #[trigger]
            call_ensures(NetRelayMessage::read_map, (data, max, max_key, max_value), r) && *data
                == before && *final(data) == after,
        pairs.len() < 0x10000,
        max_key <= 256,
        max_value <= 256,
        held(before) == le_bytes(pairs.len(), 2) + counted_pairs(pairs) + rest,
    ensures
        pairs.len() > max || pairs.len() > 64 ==> (r matches Err(
            NetRelayMessageError::TooManyElements(n),
        ) && n == pairs.len()),
        pairs.len() <= max && pairs.len() <= 64 && texts_within(
            pairs,
            max_key as nat,
            max_value as nat,
        ) ==> (r matches Ok(data) && holds_pairs(data@, pairs)) && held(after) == rest,
{
    lemma_bounds();
    lemma_counted_pairs(pairs);
    lemma_holds_pairs(pairs);
    lemma_number(pairs.len(), 2, counted_pairs(pairs) + rest);
    assert(le_bytes(pairs.len(), 2) + counted_pairs(pairs) + rest =~= le_bytes(pairs.len(), 2) + (
    counted_pairs(pairs) + rest));
    if pairs.len() <= max && pairs.len() <= 64 && texts_within(
        pairs,
        max_key as nat,
        max_value as nat,
    ) {
        assert(pairs_within(pairs, max_key as nat, max_value as nat)) by {
            assert forall|i: int| 0 <= i < pairs.len() implies encode_utf8(
                (#[trigger] pairs[i]).0,
            ).len() <= crate::relay::messages::min(max_key as nat, 256) && encode_utf8(
                pairs[i].1,
            ).len() <= crate::relay::messages::min(max_value as nat, 256) by {
                assert(encode_utf8(pairs[i].0).len() <= max_key);
            }
        }
        map_is_read(pairs, max as nat, max_key as nat, max_value as nat, rest);
    }
}

/// A game type or a version of more than 32 bytes is refused, in every request that names them.
pub proof fn long_games_are_refused(
    msg: NetConnectionMessage,
    kind: u8,
    source: NETID,
    t: Seq<char>,
    n: u16,
    rest: Seq<u8>,
    clock: Option<Duration>,
    at: Result<NetRelayMessage, Stop>,
    now: Result<NetRelayMessage, NetRelayMessageError>,
)
    requires
        read_from(msg, clock, at, now),
        kind == 1 || kind == 2 || kind == 3 || kind == 7,
        source == if kind == 2 {
            1u64
        } else {
            0u64
        },
        n > 32,
        encode_utf8(t).len() <= 32,
        sent(msg, source, seq![kind, 0u8, 1u8, 1u8] + (le_bytes(n as nat, 2) + rest)) || sent(
            msg,
            source,
            seq![kind, 0u8, 1u8, 1u8] + (counted(t) + (le_bytes(n as nat, 2) + rest)),
        ),
    ensures
        refused_for(at, now, NetRelayMessageError::TooLongString(n)),
{
    let told_at = lemma_read_now(msg, now);
    let first = le_bytes(n as nat, 2) + rest;
    let second = counted(t) + first;
    let body = if sent(msg, source, seq![kind, 0u8, 1u8, 1u8] + first) {
        first
    } else {
        second
    };
    let named = NetRelayMessageType::numbered((kind + 0x10000) as u32)->0;
    lemma_typed(msg, kind, 1, named, source, body, clock);
    lemma_typed(msg, kind, 1, named, source, body, told_at);
    lemma_bounds();
    lemma_number(n as nat, 2, rest);
    lemma_text(t, 32, first);
    assert(crate::relay::messages::game_at(body).result == Err::<(Seq<char>, Seq<char>), Stop>(
        Stop::Refused(NetRelayMessageError::TooLongString(n)),
    ));
}

/// A text in a request that is longer than its place allows is refused: the token of a bridge
/// behind 32 bytes, the name of a room behind 64.
pub proof fn long_texts_are_refused(
    msg: NetConnectionMessage,
    source: NETID,
    id: u64,
    t: Seq<char>,
    v: Seq<char>,
    n: u16,
    rest: Seq<u8>,
    clock: Option<Duration>,
    at: Result<NetRelayMessage, Stop>,
    now: Result<NetRelayMessage, NetRelayMessageError>,
)
    requires
        read_from(msg, clock, at, now),
        encode_utf8(t).len() <= 32,
        encode_utf8(v).len() <= 32,
        n > 32 && source != 2 && source != 3 && sent(
            msg,
            source,
            seq![8u8, 0u8, 1u8, 1u8] + (le_bytes(id as nat, 8) + (le_bytes(n as nat, 2) + rest)),
        ) || n > 64 && source == 1 && sent(
            msg,
            source,
            seq![2u8, 0u8, 1u8, 1u8] + (counted(t) + counted(v) + (le_bytes(n as nat, 2) + rest)),
        ),
    ensures
        refused_for(at, now, NetRelayMessageError::TooLongString(n)),
{
    let told_at = lemma_read_now(msg, now);
    let long = le_bytes(n as nat, 2) + rest;
    lemma_bounds();
    lemma_number(n as nat, 2, rest);
    if n > 32 && source != 2 && source != 3 && sent(
        msg,
        source,
        seq![8u8, 0u8, 1u8, 1u8] + (le_bytes(id as nat, 8) + long),
    ) {
        let kind = NetRelayMessageType::RELAY_MSG_PEER_BRIDGE_ROOM;
        lemma_typed(msg, 8, 1, kind, source, le_bytes(id as nat, 8) + long, clock);
        lemma_typed(msg, 8, 1, kind, source, le_bytes(id as nat, 8) + long, told_at);
        lemma_number(id as nat, 8, long);
    } else {
        let kind = NetRelayMessageType::RELAY_MSG_PEER_SETUP_ROOM;
        let body = counted(t) + counted(v) + long;
        lemma_typed(msg, 2, 1, kind, source, body, clock);
        lemma_typed(msg, 2, 1, kind, source, body, told_at);
        lemma_game(t, v, long);
        assert(room_at(body) == Err::<Said, Stop>(
            Stop::Refused(NetRelayMessageError::TooLongString(n)),
        ));
    }
}

/// The extra data of a room has at most 32 pairs; more are refused.
pub proof fn many_pairs_are_refused(
    msg: NetConnectionMessage,
    t: Seq<char>,
    v: Seq<char>,
    name: Seq<char>,
    fixed: Seq<u8>,
    pairs: u16,
    rest: Seq<u8>,
    clock: Option<Duration>,
    at: Result<NetRelayMessage, Stop>,
    now: Result<NetRelayMessage, NetRelayMessageError>,
)
    requires
        read_from(msg, clock, at, now),
        encode_utf8(t).len() <= 32,
        encode_utf8(v).len() <= 32,
        encode_utf8(name).len() <= 64,
        fixed.len() == 9,
        pairs > 32,
        sent(
            msg,
            1,
            seq![2u8, 0u8, 1u8, 1u8] + (counted(t) + counted(v) + (counted(name) + (fixed + (
            le_bytes(pairs as nat, 2) + rest)))),
        ),
    ensures
        refused_for(at, now, NetRelayMessageError::TooManyElements(pairs)),
{
    let behind = rest;
    let map = le_bytes(pairs as nat, 2) + behind;
    let e = lemma_map_refused(pairs, Seq::empty(), 0, rest, behind);
    lemma_setup_refused(msg, t, v, name, fixed, map, e, clock, at, now);
}

/// A key in the extra data of a room has at most 64 bytes; a longer one is refused.
pub proof fn long_keys_are_refused(
    msg: NetConnectionMessage,
    t: Seq<char>,
    v: Seq<char>,
    name: Seq<char>,
    fixed: Seq<u8>,
    pairs: u16,
    n: u16,
    rest: Seq<u8>,
    clock: Option<Duration>,
    at: Result<NetRelayMessage, Stop>,
    now: Result<NetRelayMessage, NetRelayMessageError>,
)
    requires
        read_from(msg, clock, at, now),
        encode_utf8(t).len() <= 32,
        encode_utf8(v).len() <= 32,
        encode_utf8(name).len() <= 64,
        fixed.len() == 9,
        0 < pairs <= 32,
        n > 64,
        sent(
            msg,
            1,
            seq![2u8, 0u8, 1u8, 1u8] + (counted(t) + counted(v) + (counted(name) + (fixed + (
            le_bytes(pairs as nat, 2) + (le_bytes(n as nat, 2) + rest))))),
        ),
    ensures
        refused_for(at, now, NetRelayMessageError::TooLongString(n)),
{
    let behind = (le_bytes(n as nat, 2) + rest);
    let map = le_bytes(pairs as nat, 2) + behind;
    let e = lemma_map_refused(pairs, Seq::empty(), n, rest, behind);
    lemma_setup_refused(msg, t, v, name, fixed, map, e, clock, at, now);
}

/// A value in the extra data of a room has at most 128 bytes; a longer one is refused.
pub proof fn long_values_are_refused(
    msg: NetConnectionMessage,
    t: Seq<char>,
    v: Seq<char>,
    name: Seq<char>,
    fixed: Seq<u8>,
    pairs: u16,
    key: Seq<char>,
    n: u16,
    rest: Seq<u8>,
    clock: Option<Duration>,
    at: Result<NetRelayMessage, Stop>,
    now: Result<NetRelayMessage, NetRelayMessageError>,
)
    requires
        read_from(msg, clock, at, now),
        encode_utf8(t).len() <= 32,
        encode_utf8(v).len() <= 32,
        encode_utf8(name).len() <= 64,
        fixed.len() == 9,
        0 < pairs <= 32,
        encode_utf8(key).len() <= 64,
        n > 128,
        sent(
            msg,
            1,
            seq![2u8, 0u8, 1u8, 1u8] + (counted(t) + counted(v) + (counted(name) + (fixed + (
            le_bytes(pairs as nat, 2) + (counted(key) + (le_bytes(n as nat, 2) + rest)))))),
        ),
    ensures
        refused_for(at, now, NetRelayMessageError::TooLongString(n)),
{
    let behind = (counted(key) + (le_bytes(n as nat, 2) + rest));
    let map = le_bytes(pairs as nat, 2) + behind;
    let e = lemma_map_refused(pairs, key, n, rest, behind);
    lemma_setup_refused(msg, t, v, name, fixed, map, e, clock, at, now);
}

proof fn lemma_setup_refused(
    msg: NetConnectionMessage,
    t: Seq<char>,
    v: Seq<char>,
    name: Seq<char>,
    fixed: Seq<u8>,
    map: Seq<u8>,
    e: NetRelayMessageError,
    clock: Option<Duration>,
    at: Result<NetRelayMessage, Stop>,
    now: Result<NetRelayMessage, NetRelayMessageError>,
)
    requires
        read_from(msg, clock, at, now),
        encode_utf8(t).len() <= 32,
        encode_utf8(v).len() <= 32,
        encode_utf8(name).len() <= 64,
        fixed.len() == 9,
        sent(
            msg,
            1,
            seq![2u8, 0u8, 1u8, 1u8] + (counted(t) + counted(v) + (counted(name) + (fixed + map))),
        ),
        map_at(map, 32, 64, 128).result == Err::<Map<Seq<char>, Seq<char>>, Stop>(
            Stop::Refused(e),
        ),
    ensures
        refused_for(at, now, e),
{
    let told_at = lemma_read_now(msg, now);
    let body = counted(t) + counted(v) + (counted(name) + (fixed + map));
    let kind = NetRelayMessageType::RELAY_MSG_PEER_SETUP_ROOM;
    lemma_room_refused(t, v, name, fixed, map, Stop::Refused(e));
    lemma_typed(msg, 2, 1, kind, 1, body, clock);
    lemma_typed(msg, 2, 1, kind, 1, body, told_at);
}

proof fn lemma_map_refused(
    pairs: u16,
    key: Seq<char>,
    n: u16,
    rest: Seq<u8>,
    behind: Seq<u8>,
) -> (e: NetRelayMessageError)
    requires
        ({
            let long = le_bytes(n as nat, 2) + rest;
            ||| pairs > 32
            ||| 0 < pairs <= 32 && n > 64 && behind == long
            ||| 0 < pairs <= 32 && n > 128 && encode_utf8(key).len() <= 64 && behind == counted(key) + long
        }),
    ensures
        e == if pairs > 32 {
            NetRelayMessageError::TooManyElements(pairs)
        } else {
            NetRelayMessageError::TooLongString(n)
        },
        map_at(le_bytes(pairs as nat, 2) + behind, 32, 64, 128).result == Err::<
            Map<Seq<char>, Seq<char>>,
            Stop,
        >(Stop::Refused(e)),
{
    lemma_bounds();
    lemma_number(pairs as nat, 2, behind);
    if pairs <= 32 {
        let long = le_bytes(n as nat, 2) + rest;
        lemma_number(n as nat, 2, rest);
        if behind != long {
            lemma_text(key, 64, long);
        }
        assert(pairs_at(behind, pairs as nat, 64, 128, Seq::empty()).result == Err::<
            Seq<(Seq<char>, Seq<char>)>,
            Stop,
        >(Stop::Refused(NetRelayMessageError::TooLongString(n))));
        NetRelayMessageError::TooLongString(n)
    } else {
        NetRelayMessageError::TooManyElements(pairs)
    }
}

proof fn lemma_room_refused(
    t: Seq<char>,
    v: Seq<char>,
    name: Seq<char>,
    fixed: Seq<u8>,
    map: Seq<u8>,
    e: Stop,
)
    requires
        encode_utf8(t).len() <= 32,
        encode_utf8(v).len() <= 32,
        encode_utf8(name).len() <= 64,
        fixed.len() == 9,
        map_at(map, 32, 64, 128).result == Err::<Map<Seq<char>, Seq<char>>, Stop>(e),
    ensures
        room_at(counted(t) + counted(v) + (counted(name) + (fixed + map))) == Err::<Said, Stop>(e),
{
    lemma_game(t, v, counted(name) + (fixed + map));
    lemma_text(name, 64, fixed + map);
    assert((fixed + map).skip(9) =~= map);
}

/// A message is whole exactly where reading it does not stop for want of bytes, whatever the clock
/// says. What is refused unread is whole.
pub proof fn whole_messages_are_read(
    msg: NetConnectionMessage,
    clock: Option<Duration>,
    at: Result<NetRelayMessage, Stop>,
    whole: bool,
)
    requires
        call_ensures(NetRelayMessage::read_at, (msg, clock), at),
        call_ensures(NetRelayMessage::is_complete, (&msg,), whole),
    ensures
        whole <==> !(at matches Err(stop) && stop == Stop::Short),
        msg.compressed || msg.destination_netid != 2 ==> whole,
        !msg.compressed && msg.destination_netid == 2 && held(msg.data).len() < 4 ==> !whole,
{
    assert(msg@.compressed == msg.compressed && msg@.destination == msg.destination_netid);
    assert(msg@.data == held(msg.data));
}

proof fn lemma_short_number(s: Seq<u8>, n: nat)
    requires
        s.len() < n,
    ensures
        number_at(s, n).result == Err::<nat, Stop>(Stop::Short),
        number_at(s, n).rest == s,
{
}

/// A request whose numbers are not all there is not whole: the code of one that closes, the NETID
/// of a peer to be closed, the time stamp of an answer to a ping, or the id of a bridged room.
pub proof fn short_requests_are_not_whole(
    msg: NetConnectionMessage,
    source: NETID,
    body: Seq<u8>,
    whole: bool,
)
    requires
        call_ensures(NetRelayMessage::is_complete, (&msg,), whole),
        source != 2 && source != 3,
        body.len() < 4 && sent(msg, source, seq![1u8, 0u8, 0u8, 1u8] + body) || body.len() < 8 && sent(
            msg,
            source,
            seq![6u8, 0u8, 1u8, 1u8] + body,
        ) || body.len() < 12 && sent(msg, source, seq![5u8, 0u8, 1u8, 1u8] + body) || body.len() < 8
            && sent(msg, source, seq![8u8, 0u8, 1u8, 1u8] + body),
    ensures
        !whole,
{
    if body.len() < 4 && sent(msg, source, seq![1u8, 0u8, 0u8, 1u8] + body) {
        lemma_typed(msg, 1, 0, NetRelayMessageType::RELAY_MSG_CLOSE, source, body, None);
    } else if body.len() < 8 && sent(msg, source, seq![6u8, 0u8, 1u8, 1u8] + body) {
        lemma_typed(msg, 6, 1, NetRelayMessageType::RELAY_MSG_PEER_CLOSE_PEER, source, body, None);
    } else if body.len() < 8 && sent(msg, source, seq![8u8, 0u8, 1u8, 1u8] + body) {
        lemma_typed(msg, 8, 1, NetRelayMessageType::RELAY_MSG_PEER_BRIDGE_ROOM, source, body, None);
    } else {
        lemma_typed(
            msg,
            5,
            1,
            NetRelayMessageType::RELAY_MSG_PEER_PING_RESPONSE,
            source,
            body,
            None,
        );
        assert(crate::relay::messages::stamp_read_at(body) == Err::<Timestamp, Stop>(Stop::Short));
    }
}

/// Nor is one that names a game where what follows is not all there: the id of the room to join,
/// or the format of a list.
pub proof fn short_game_requests_are_not_whole(
    msg: NetConnectionMessage,
    source: NETID,
    t: Seq<char>,
    v: Seq<char>,
    tail: Seq<u8>,
    whole: bool,
)
    requires
        call_ensures(NetRelayMessage::is_complete, (&msg,), whole),
        source != 2 && source != 3,
        encode_utf8(t).len() <= 32,
        encode_utf8(v).len() <= 32,
        source == 0 && tail.len() < 8 && sent(
            msg,
            source,
            seq![3u8, 0u8, 1u8, 1u8] + (counted(t) + counted(v) + tail),
        ) || tail.len() < 2 && sent(
            msg,
            source,
            seq![1u8, 0u8, 1u8, 1u8] + (counted(t) + counted(v) + tail),
        ) || tail.len() < 2 && sent(
            msg,
            source,
            seq![7u8, 0u8, 1u8, 1u8] + (counted(t) + counted(v) + tail),
        ),
    ensures
        !whole,
{
    let body = counted(t) + counted(v) + tail;
    lemma_game(t, v, tail);
    assert(game_at(body) == (Reading { result: Ok::<(Seq<char>, Seq<char>), Stop>((t, v)), rest: tail }));
    if source == 0 && tail.len() < 8 && sent(msg, source, seq![3u8, 0u8, 1u8, 1u8] + body) {
        let kind = NetRelayMessageType::RELAY_MSG_PEER_JOIN_ROOM;
        lemma_short_number(tail, 8);
        lemma_typed(msg, 3, 1, kind, source, body, None);
    } else {
        lemma_short_number(tail, 2);
        if sent(msg, source, seq![1u8, 0u8, 1u8, 1u8] + body) {
            let kind = NetRelayMessageType::RELAY_MSG_PEER_LIST_LOBBIES;
            lemma_typed(msg, 1, 1, kind, source, body, None);
        } else {
            let kind = NetRelayMessageType::RELAY_MSG_PEER_LIST_LOBBY_HOSTS;
            lemma_typed(msg, 7, 1, kind, source, body, None);
        }
    }
}

/// Nor is a description of a room whose flags and numbers are not all there.
pub proof fn short_descriptions_are_not_whole(
    msg: NetConnectionMessage,
    t: Seq<char>,
    v: Seq<char>,
    name: Seq<char>,
    tail: Seq<u8>,
    whole: bool,
)
    requires
        call_ensures(NetRelayMessage::is_complete, (&msg,), whole),
        encode_utf8(t).len() <= 32,
        encode_utf8(v).len() <= 32,
        encode_utf8(name).len() <= 64,
        tail.len() < 11,
        sent(msg, 1, seq![2u8, 0u8, 1u8, 1u8] + (counted(t) + counted(v) + (counted(name) + tail))),
    ensures
        !whole,
{
    let body = counted(t) + counted(v) + (counted(name) + tail);
    lemma_short_room(t, v, name, tail);
    lemma_typed(msg, 2, 1, NetRelayMessageType::RELAY_MSG_PEER_SETUP_ROOM, 1, body, None);
}

proof fn lemma_short_room(t: Seq<char>, v: Seq<char>, name: Seq<char>, tail: Seq<u8>)
    requires
        encode_utf8(t).len() <= 32,
        encode_utf8(v).len() <= 32,
        encode_utf8(name).len() <= 64,
        tail.len() < 11,
    ensures
        room_at(counted(t) + counted(v) + (counted(name) + tail)) == Err::<Said, Stop>(Stop::Short),
{
    lemma_game(t, v, counted(name) + tail);
    lemma_text(name, 64, tail);
    if tail.len() >= 9 {
        lemma_short_number(tail.skip(9), 2);
        assert(map_at(tail.skip(9), 32, 64, 128).result == Err::<Map<Seq<char>, Seq<char>>, Stop>(
            Stop::Short,
        ));
    }
}

/// What a peer sends to the relay, the relay does as it reads it; what cannot be read leads to
/// nothing.
pub proof fn relay_does_as_it_reads<S, R>(
    before: PeerRelay<S, R>,
    msg: NetConnectionMessage,
    closed: Vec<NETID>,
    after: PeerRelay<S, R>,
    out: RelayOutcome<S, R>,
)
    requires
        exists|relay: &mut PeerRelay<S, R>| #[trigger]
            call_ensures(PeerRelay::<S, R>::handle_relay_message, (relay, msg, &closed), out)
                && *relay == before && *final(relay) == after,
    ensures
        exists|read: Result<NetRelayMessage, NetRelayMessageError>| #[trigger]
            call_ensures(NetRelayMessage::from_message, (msg,), read) && match read {
                Ok(m) => does_what_was_said(before, msg.source_netid, m, closed@, after, out),
                Err(_) => after == before && leads_to_nothing(before, after, out),
            },
{
    let read = choose|read: Result<NetRelayMessage, NetRelayMessageError>| #[trigger]
        call_ensures(NetRelayMessage::from_message, (msg,), read) && match read {
            Ok(m) => PeerRelay::handled(before, msg.source_netid, m@, closed@, after, out),
            Err(_) => after == before && PeerRelay::nothing_done(before, after, out),
        };
    if let Ok(m) = read {
        crate::relay::laws::lemma_handled(before, msg.source_netid, m, closed@, after, out);
    } else {
        crate::relay::laws::lemma_same_report(after.status, before.status);
    }
}

/// How the messages of the relay are laid out: their type, and behind it a code, a time stamp, a
/// NETID, or the number of NETIDs and each of them, numbers lowest byte first.
pub proof fn relay_messages_are_laid_out(
    m: NetRelayMessage,
    json: Result<String, String>,
    r: Result<Bytes, WriteError>,
    mutable: Result<BytesMut, WriteError>,
)
    requires
        call_ensures(NetRelayMessage::into_bytes, (m, json), r),
        call_ensures(NetRelayMessage::into_bytes_mut, (m, json), mutable),
    ensures
        r is Ok <==> mutable is Ok,
        r matches Ok(b) ==> held(b) == held_mut(mutable->Ok_0),
        m matches NetRelayMessage::Close(code) ==> (r matches Ok(b) && held(b) == seq![
            1u8,
            0u8,
            0u8,
            1u8,
        ] + le_bytes(code as nat, 4)),
        m matches NetRelayMessage::RelayPing(stamp) ==> (r matches Ok(b) && held(b) == seq![
            2u8,
            0u8,
            2u8,
            1u8,
        ] + le_bytes(stamp.0 as nat, 8) + le_bytes(stamp.1 as nat, 4)),
        m matches NetRelayMessage::RelayAddPeer(netid) ==> (r matches Ok(b) && held(b) == seq![
            4u8,
            0u8,
            2u8,
            1u8,
        ] + le_bytes(netid as nat, 8)),
        m matches NetRelayMessage::RelayRemovePeer(netid) ==> (r matches Ok(b) && held(b) == seq![
            5u8,
            0u8,
            2u8,
            1u8,
        ] + le_bytes(netid as nat, 8)),
        m matches NetRelayMessage::RelayListPeers(peers) ==> (r matches Ok(b) && {
            &&& held(b).len() == 8 + 8 * peers@.len()
            &&& held(b).take(8) == seq![3u8, 0u8, 2u8, 1u8] + le_bytes(
                peers@.len() % 0x1_0000_0000,
                4,
            )
            &&& forall|i: int|
                0 <= i < peers@.len() ==> held(b).subrange(8 + 8 * i, 16 + 8 * i) == le_bytes(
                    #[trigger] peers@[i] as nat,
                    8,
                )
        }),
        // A relay does not send what only peers send
        m is PeerPingResponse || m is PeerListLobbyHosts || m is PeerListLobbies
            || m is PeerSetupRoom || m is PeerJoinRoom || m is PeerLeaveRoom || m is PeerClosePeer
            || m is PeerBridgeRoom ==> (r matches Err(WriteError::UnknownMessage(back)) && back@
            == m@),
{
    lemma_headers();
    if let NetRelayMessage::RelayListPeers(peers) = m {
        let bytes = crate::relay::messages::netids(peers@);
        crate::relay::messages::lemma_netids_len(peers@);
        lemma_le_bytes_len(peers@.len() % 0x1_0000_0000, 4);
        let head = seq![3u8, 0u8, 2u8, 1u8] + le_bytes(peers@.len() % 0x1_0000_0000, 4);
        assert(head + bytes =~= held(r->Ok_0));
        assert(held(r->Ok_0).take(8) =~= head);
        assert forall|i: int| 0 <= i < peers@.len() implies held(r->Ok_0).subrange(
            8 + 8 * i,
            16 + 8 * i,
        ) == le_bytes(#[trigger] peers@[i] as nat, 8) by {
            lemma_netid_at(peers@, i);
            assert(held(r->Ok_0).subrange(8 + 8 * i, 16 + 8 * i) =~= bytes.subrange(
                8 * i,
                8 + 8 * i,
            ));
        }
    }
}

proof fn lemma_netid_at(peers: Seq<NETID>, i: int)
    requires
        0 <= i < peers.len(),
    ensures
        crate::relay::messages::netids(peers).len() == 8 * peers.len(),
        crate::relay::messages::netids(peers).subrange(8 * i, 8 + 8 * i) == le_bytes(
            peers[i] as nat,
            8,
        ),
    decreases peers.len(),
{
    let bytes = crate::relay::messages::netids(peers);
    let before = crate::relay::messages::netids(peers.drop_last());
    crate::relay::messages::lemma_netids_len(peers);
    crate::relay::messages::lemma_netids_len(peers.drop_last());
    lemma_le_bytes_len(peers.last() as nat, 8);
    if i < peers.len() - 1 {
        lemma_netid_at(peers.drop_last(), i);
        assert(bytes.subrange(8 * i, 8 + 8 * i) =~= before.subrange(8 * i, 8 + 8 * i));
    } else {
        assert(bytes.subrange(8 * i, 8 + 8 * i) =~= le_bytes(peers.last() as nat, 8));
    }
}

proof fn lemma_four(v: nat, a: u8, b: u8, c: u8, d: u8)
    requires
        v == a + 256 * b + 0x10000 * c + 0x1000000 * d,
    ensures
        le_bytes(v, 4) == seq![a, b, c, d],
{
    reveal_with_fuel(le_bytes, 5);
    assert(v % 256 == a);
    assert(v / 256 == b + 256 * c + 0x10000 * d);
    assert((v / 256) % 256 == b);
    assert(v / 256 / 256 == c + 256 * d);
    assert((v / 256 / 256) % 256 == c);
    assert(v / 256 / 256 / 256 == d);
    assert(le_bytes(v, 4) =~= seq![a, b, c, d]);
}

proof fn lemma_headers()
    ensures
        crate::relay::messages::header(NetRelayMessageType::RELAY_MSG_CLOSE) == seq![
            1u8,
            0u8,
            0u8,
            1u8,
        ],
        crate::relay::messages::header(NetRelayMessageType::RELAY_MSG_RELAY_LIST_LOBBIES) == seq![
            1u8,
            0u8,
            2u8,
            1u8,
        ],
        crate::relay::messages::header(NetRelayMessageType::RELAY_MSG_RELAY_PING) == seq![
            2u8,
            0u8,
            2u8,
            1u8,
        ],
        crate::relay::messages::header(NetRelayMessageType::RELAY_MSG_RELAY_LIST_PEERS) == seq![
            3u8,
            0u8,
            2u8,
            1u8,
        ],
        crate::relay::messages::header(NetRelayMessageType::RELAY_MSG_RELAY_ADD_PEER) == seq![
            4u8,
            0u8,
            2u8,
            1u8,
        ],
        crate::relay::messages::header(NetRelayMessageType::RELAY_MSG_RELAY_REMOVE_PEER) == seq![
            5u8,
            0u8,
            2u8,
            1u8,
        ],
        crate::relay::messages::header(NetRelayMessageType::RELAY_MSG_RELAY_LIST_LOBBY_HOSTS)
            == seq![6u8, 0u8, 2u8, 1u8],
{
    lemma_four(0x1000001, 1, 0, 0, 1);
    lemma_four(0x1020001, 1, 0, 2, 1);
    lemma_four(0x1020002, 2, 0, 2, 1);
    lemma_four(0x1020003, 3, 0, 2, 1);
    lemma_four(0x1020004, 4, 0, 2, 1);
    lemma_four(0x1020005, 5, 0, 2, 1);
    lemma_four(0x1020006, 6, 0, 2, 1);
}

/// A list of lobbies goes out in the format that was asked for: in XPrm notation where that is 1,
/// and as JSON otherwise, behind its type.
pub proof fn lobbies_go_out_in_their_format(
    lobbies: Vec<LobbyWithRooms>,
    format: u16,
    json: Result<String, String>,
    r: Result<Bytes, WriteError>,
    value: Value,
    xprm: Result<String, crate::xprm::ser::Error>,
)
    requires
        call_ensures(
            NetRelayMessage::into_bytes,
            (NetRelayMessage::RelayListLobbies { lobbies, format }, json),
            r,
        ),
        call_ensures(crate::lobby::listing::lobbies_value, (&lobbies,), value),
        call_ensures(crate::xprm::ser::to_string, (&value,), xprm),
    ensures
        format == 1 && xprm is Ok ==> (r matches Ok(b) && held(b) == seq![1u8, 0u8, 2u8, 1u8]
            + encode_utf8(xprm->Ok_0@)),
        format == 1 && xprm is Err ==> r is Err,
        format != 1 && json is Ok ==> (r matches Ok(b) && held(b) == seq![1u8, 0u8, 2u8, 1u8]
            + encode_utf8(json->Ok_0@)),
        format != 1 && json is Err ==> r is Err,
{
    lemma_headers();
}

/// The same of a list of hosts.
pub proof fn hosts_go_out_in_their_format(
    hosts: Vec<LobbyHost>,
    format: u16,
    json: Result<String, String>,
    r: Result<Bytes, WriteError>,
    value: Value,
    xprm: Result<String, crate::xprm::ser::Error>,
)
    requires
        call_ensures(
            NetRelayMessage::into_bytes,
            (NetRelayMessage::RelayListLobbyHosts { hosts, format }, json),
            r,
        ),
        call_ensures(crate::lobby::listing::hosts_value, (&hosts,), value),
        call_ensures(crate::xprm::ser::to_string, (&value,), xprm),
    ensures
        format == 1 && xprm is Ok ==> (r matches Ok(b) && held(b) == seq![6u8, 0u8, 2u8, 1u8]
            + encode_utf8(xprm->Ok_0@)),
        format == 1 && xprm is Err ==> r is Err,
        format != 1 && json is Ok ==> (r matches Ok(b) && held(b) == seq![6u8, 0u8, 2u8, 1u8]
            + encode_utf8(json->Ok_0@)),
        format != 1 && json is Err ==> r is Err,
{
    lemma_headers();
}

/// A message of the relay comes from the relay, goes to the peer that it is sent to, open, and
/// holds what was to be said.
pub proof fn relay_messages_go_to_their_peer<S>(
    sink: NetConnectionSink<S>,
    m: NetRelayMessage,
    json: Result<String, String>,
    r: Result<NetConnectionMessage, NetConnectionWrite>,
    bytes: Result<Bytes, WriteError>,
)
    requires
        call_ensures(NetConnectionSink::<S>::send_relay_message, (&sink, m, json), r),
        call_ensures(NetRelayMessage::into_bytes, (m, json), bytes),
    ensures
        r is Ok <==> bytes is Ok,
        r matches Ok(msg) ==> sent_by_relay(msg, sink.netid, held(bytes->Ok_0)),
{
    if let Ok(msg) = r {
        assert(msg@.source == msg.source_netid && msg@.data == held(msg.data));
    }
}

/// Whether `msg` is an open message of the relay to `netid` with the bytes `data`.
pub open spec fn sent_by_relay(msg: NetConnectionMessage, netid: NETID, data: Seq<u8>) -> bool {
    &&& msg.source_netid == 2
    &&& msg.destination_netid == netid
    &&& !msg.compressed
    &&& held(msg.data) == data
}

pub proof fn lemma_farewell(code: u32, m: NetConnectionMessage)
    requires
        m@ == crate::netconnection::netconnection::farewell(code),
    ensures
        sent_by_relay(m, 0, seq![1u8, 0u8, 0u8, 1u8] + le_bytes(code as nat, 4)),
{
    lemma_headers();
    assert(m@.source == m.source_netid && m@.data == held(m.data));
}

/// The last message to a peer tells it why it is closed.
pub proof fn farewell_tells_the_code(code: u32, m: NetConnectionMessage)
    requires
        call_ensures(crate::netconnection::netconnection::SinkTask::close_message, (code,), m),
    ensures
        sent_by_relay(m, 0, seq![1u8, 0u8, 0u8, 1u8] + le_bytes(code as nat, 4)),
{
    lemma_farewell(code, m);
}

} // verus!
