//! The messages between peers and the relay.

use crate::buffer::{
    as_slice, bound, fits, get_u16_le, get_u32_le, get_u64_le, get_u8, held, held_mut, le,
    le_bytes, le_roundtrip, lemma_le_bytes_len, put_slice, put_u32_le, put_u64_le,
};
use crate::lobby::listing::{hosts_tree, hosts_value, lobbies_tree, lobbies_value};
use crate::lobby::lobby_manager::{JoinDetails, RoomJoinInfo};
use crate::lobby::room_info::{
    map_of, ExtraData, LobbyHost, LobbyWithRooms, RoomDetails, RoomID, RoomInfo,
};
use crate::netconnection::netconnection::{
    Envelope, NetConnectionMessage, NETID, NETID_ALL, NETID_HOST, NETID_NONE, NETID_RELAY,
};
use crate::text::{decimal, push_decimal};
use crate::utils::time::{
    clock_range, duration_between, duration_since_unix_epoch, since, stamp_at, told,
    Duration, Timestamp,
};
use crate::utils::xprm::{
    payload, result_text, serialize_xprm_or_json, PayloadError, PayloadFault,
};
use tokio_util::bytes::{Bytes, BytesMut};
use vstd::prelude::*;
use vstd::utf8::{decode_utf8, encode_utf8, valid_utf8};

verus! {

pub const NET_RELAY_PROTOCOL_VERSION: u8 = 1;

pub const NET_RELAY_MAX_STRING_LENGTH: u16 = 256;

pub const NET_RELAY_MAX_MAP_ELEMENTS: u16 = 64;

#[allow(non_camel_case_types)]
#[derive(Debug, Clone, Copy, PartialEq, Eq, Structural)]
pub enum NetRelayMessageType {
    // Common
    RELAY_MSG_UNKNOWN,
    RELAY_MSG_CLOSE,
    // Sent by peer to relay
    RELAY_MSG_PEER_START,
    RELAY_MSG_PEER_LIST_LOBBIES,
    RELAY_MSG_PEER_SETUP_ROOM,
    RELAY_MSG_PEER_JOIN_ROOM,
    RELAY_MSG_PEER_LEAVE_ROOM,
    RELAY_MSG_PEER_PING_RESPONSE,
    RELAY_MSG_PEER_CLOSE_PEER,
    RELAY_MSG_PEER_LIST_LOBBY_HOSTS,
    RELAY_MSG_PEER_BRIDGE_ROOM,
    // Sent by relay to peer
    RELAY_MSG_RELAY_START,
    RELAY_MSG_RELAY_LIST_LOBBIES,
    RELAY_MSG_RELAY_PING,
    RELAY_MSG_RELAY_LIST_PEERS,
    RELAY_MSG_RELAY_ADD_PEER,
    RELAY_MSG_RELAY_REMOVE_PEER,
    RELAY_MSG_RELAY_LIST_LOBBY_HOSTS,
}

impl NetRelayMessageType {
    /// The number of this type on the wire.
    pub open spec fn number(self) -> u32 {
        match self {
            NetRelayMessageType::RELAY_MSG_UNKNOWN => 0,
            NetRelayMessageType::RELAY_MSG_CLOSE => 1,
            NetRelayMessageType::RELAY_MSG_PEER_START => 0x10000,
            NetRelayMessageType::RELAY_MSG_PEER_LIST_LOBBIES => 0x10001,
            NetRelayMessageType::RELAY_MSG_PEER_SETUP_ROOM => 0x10002,
            NetRelayMessageType::RELAY_MSG_PEER_JOIN_ROOM => 0x10003,
            NetRelayMessageType::RELAY_MSG_PEER_LEAVE_ROOM => 0x10004,
            NetRelayMessageType::RELAY_MSG_PEER_PING_RESPONSE => 0x10005,
            NetRelayMessageType::RELAY_MSG_PEER_CLOSE_PEER => 0x10006,
            NetRelayMessageType::RELAY_MSG_PEER_LIST_LOBBY_HOSTS => 0x10007,
            NetRelayMessageType::RELAY_MSG_PEER_BRIDGE_ROOM => 0x10008,
            NetRelayMessageType::RELAY_MSG_RELAY_START => 0x20000,
            NetRelayMessageType::RELAY_MSG_RELAY_LIST_LOBBIES => 0x20001,
            NetRelayMessageType::RELAY_MSG_RELAY_PING => 0x20002,
            NetRelayMessageType::RELAY_MSG_RELAY_LIST_PEERS => 0x20003,
            NetRelayMessageType::RELAY_MSG_RELAY_ADD_PEER => 0x20004,
            NetRelayMessageType::RELAY_MSG_RELAY_REMOVE_PEER => 0x20005,
            NetRelayMessageType::RELAY_MSG_RELAY_LIST_LOBBY_HOSTS => 0x20006,
        }
    }

    /// The number of this type on the wire.
    pub fn code(self) -> (n: u32)
        ensures
            n == self.number(),
    {
        match self {
            NetRelayMessageType::RELAY_MSG_UNKNOWN => 0,
            NetRelayMessageType::RELAY_MSG_CLOSE => 1,
            NetRelayMessageType::RELAY_MSG_PEER_START => 0x10000,
            NetRelayMessageType::RELAY_MSG_PEER_LIST_LOBBIES => 0x10001,
            NetRelayMessageType::RELAY_MSG_PEER_SETUP_ROOM => 0x10002,
            NetRelayMessageType::RELAY_MSG_PEER_JOIN_ROOM => 0x10003,
            NetRelayMessageType::RELAY_MSG_PEER_LEAVE_ROOM => 0x10004,
            NetRelayMessageType::RELAY_MSG_PEER_PING_RESPONSE => 0x10005,
            NetRelayMessageType::RELAY_MSG_PEER_CLOSE_PEER => 0x10006,
            NetRelayMessageType::RELAY_MSG_PEER_LIST_LOBBY_HOSTS => 0x10007,
            NetRelayMessageType::RELAY_MSG_PEER_BRIDGE_ROOM => 0x10008,
            NetRelayMessageType::RELAY_MSG_RELAY_START => 0x20000,
            NetRelayMessageType::RELAY_MSG_RELAY_LIST_LOBBIES => 0x20001,
            NetRelayMessageType::RELAY_MSG_RELAY_PING => 0x20002,
            NetRelayMessageType::RELAY_MSG_RELAY_LIST_PEERS => 0x20003,
            NetRelayMessageType::RELAY_MSG_RELAY_ADD_PEER => 0x20004,
            NetRelayMessageType::RELAY_MSG_RELAY_REMOVE_PEER => 0x20005,
            NetRelayMessageType::RELAY_MSG_RELAY_LIST_LOBBY_HOSTS => 0x20006,
        }
    }

    /// The type of this number, if there is one.
    pub open spec fn numbered(n: u32) -> Option<Self> {
        match n {
            0 => Some(NetRelayMessageType::RELAY_MSG_UNKNOWN),
            1 => Some(NetRelayMessageType::RELAY_MSG_CLOSE),
            0x10000 => Some(NetRelayMessageType::RELAY_MSG_PEER_START),
            0x10001 => Some(NetRelayMessageType::RELAY_MSG_PEER_LIST_LOBBIES),
            0x10002 => Some(NetRelayMessageType::RELAY_MSG_PEER_SETUP_ROOM),
            0x10003 => Some(NetRelayMessageType::RELAY_MSG_PEER_JOIN_ROOM),
            0x10004 => Some(NetRelayMessageType::RELAY_MSG_PEER_LEAVE_ROOM),
            0x10005 => Some(NetRelayMessageType::RELAY_MSG_PEER_PING_RESPONSE),
            0x10006 => Some(NetRelayMessageType::RELAY_MSG_PEER_CLOSE_PEER),
            0x10007 => Some(NetRelayMessageType::RELAY_MSG_PEER_LIST_LOBBY_HOSTS),
            0x10008 => Some(NetRelayMessageType::RELAY_MSG_PEER_BRIDGE_ROOM),
            0x20000 => Some(NetRelayMessageType::RELAY_MSG_RELAY_START),
            0x20001 => Some(NetRelayMessageType::RELAY_MSG_RELAY_LIST_LOBBIES),
            0x20002 => Some(NetRelayMessageType::RELAY_MSG_RELAY_PING),
            0x20003 => Some(NetRelayMessageType::RELAY_MSG_RELAY_LIST_PEERS),
            0x20004 => Some(NetRelayMessageType::RELAY_MSG_RELAY_ADD_PEER),
            0x20005 => Some(NetRelayMessageType::RELAY_MSG_RELAY_REMOVE_PEER),
            0x20006 => Some(NetRelayMessageType::RELAY_MSG_RELAY_LIST_LOBBY_HOSTS),
            _ => None,
        }
    }

    /// The type of this number, if there is one.
    pub fn from_u32(n: u32) -> (r: Option<Self>)
        ensures
            r == Self::numbered(n),
    {
        match n {
            0 => Some(NetRelayMessageType::RELAY_MSG_UNKNOWN),
            1 => Some(NetRelayMessageType::RELAY_MSG_CLOSE),
            0x10000 => Some(NetRelayMessageType::RELAY_MSG_PEER_START),
            0x10001 => Some(NetRelayMessageType::RELAY_MSG_PEER_LIST_LOBBIES),
            0x10002 => Some(NetRelayMessageType::RELAY_MSG_PEER_SETUP_ROOM),
            0x10003 => Some(NetRelayMessageType::RELAY_MSG_PEER_JOIN_ROOM),
            0x10004 => Some(NetRelayMessageType::RELAY_MSG_PEER_LEAVE_ROOM),
            0x10005 => Some(NetRelayMessageType::RELAY_MSG_PEER_PING_RESPONSE),
            0x10006 => Some(NetRelayMessageType::RELAY_MSG_PEER_CLOSE_PEER),
            0x10007 => Some(NetRelayMessageType::RELAY_MSG_PEER_LIST_LOBBY_HOSTS),
            0x10008 => Some(NetRelayMessageType::RELAY_MSG_PEER_BRIDGE_ROOM),
            0x20000 => Some(NetRelayMessageType::RELAY_MSG_RELAY_START),
            0x20001 => Some(NetRelayMessageType::RELAY_MSG_RELAY_LIST_LOBBIES),
            0x20002 => Some(NetRelayMessageType::RELAY_MSG_RELAY_PING),
            0x20003 => Some(NetRelayMessageType::RELAY_MSG_RELAY_LIST_PEERS),
            0x20004 => Some(NetRelayMessageType::RELAY_MSG_RELAY_ADD_PEER),
            0x20005 => Some(NetRelayMessageType::RELAY_MSG_RELAY_REMOVE_PEER),
            0x20006 => Some(NetRelayMessageType::RELAY_MSG_RELAY_LIST_LOBBY_HOSTS),
            _ => None,
        }
    }
}

/// A number and its type go together: each type is the one of its number, and a number that has a
/// type is the number of that type. Every number fits in the 24 bits that a header has for it.
pub proof fn type_numbers(t: NetRelayMessageType, n: u32)
    ensures
        NetRelayMessageType::numbered(t.number()) == Some(t),
        NetRelayMessageType::numbered(n) == Some(t) ==> t.number() == n,
        t.number() < 0x1000000,
{
}

#[derive(Debug, Clone, Copy, PartialEq, Eq, Structural)]
pub enum NetRelayMessageError {
    WrongSourceNETID(NETID),
    WrongDestinationNETID(NETID),
    WrongProtocol(u8),
    UnsupportedFlag(u16),
    UnknownType(u32),
    MissingData,
    TooManyElements(u16),
    TooLongString(u16),
    NotUTF8String(usize),
}

impl NetRelayMessageError {
    /// The name of this error, and the number that it carries, if it carries one.
    pub open spec fn parts(self) -> (Seq<char>, Option<nat>) {
        match self {
            NetRelayMessageError::WrongSourceNETID(n) => ("WrongSourceNETID"@, Some(n as nat)),
            NetRelayMessageError::WrongDestinationNETID(n) => (
                "WrongDestinationNETID"@,
                Some(n as nat),
            ),
            NetRelayMessageError::WrongProtocol(n) => ("WrongProtocol"@, Some(n as nat)),
            NetRelayMessageError::UnsupportedFlag(n) => ("UnsupportedFlag"@, Some(n as nat)),
            NetRelayMessageError::UnknownType(n) => ("UnknownType"@, Some(n as nat)),
            NetRelayMessageError::MissingData => ("MissingData"@, None),
            NetRelayMessageError::TooManyElements(n) => ("TooManyElements"@, Some(n as nat)),
            NetRelayMessageError::TooLongString(n) => ("TooLongString"@, Some(n as nat)),
            NetRelayMessageError::NotUTF8String(n) => ("NotUTF8String"@, Some(n as nat)),
        }
    }

    /// What this error says.
    pub open spec fn says(self) -> Seq<char> {
        match self.parts() {
            (name, Some(n)) => name + "("@ + decimal(n) + ")"@,
            (name, None) => name,
        }
    }

    /// What this error says.
    pub fn to_text(&self) -> (s: String)
        ensures
            s@ == self.says(),
    {
        let (name, number): (&str, u64) = match self {
            NetRelayMessageError::WrongSourceNETID(n) => ("WrongSourceNETID", *n),
            NetRelayMessageError::WrongDestinationNETID(n) => ("WrongDestinationNETID", *n),
            NetRelayMessageError::WrongProtocol(n) => ("WrongProtocol", *n as u64),
            NetRelayMessageError::UnsupportedFlag(n) => ("UnsupportedFlag", *n as u64),
            NetRelayMessageError::UnknownType(n) => ("UnknownType", *n as u64),
            NetRelayMessageError::MissingData => return "MissingData".to_owned(),
            NetRelayMessageError::TooManyElements(n) => ("TooManyElements", *n as u64),
            NetRelayMessageError::TooLongString(n) => ("TooLongString", *n as u64),
            NetRelayMessageError::NotUTF8String(n) => ("NotUTF8String", *n as u64),
        };
        let mut s = name.to_owned();
        s.append("(");
        push_decimal(&mut s, number);
        s.append(")");
        s
    }
}

/// Why reading a message stops.
#[derive(Debug, Clone, Copy, PartialEq, Eq, Structural)]
pub enum Stop {
    /// The bytes end within a number.
    Short,
    /// The bytes say something that is not taken.
    Refused(NetRelayMessageError),
}

#[derive(Debug)]
pub enum NetRelayMessage {
    Close(u32),
    /// Sent by peer
    PeerPingResponse(Duration),
    PeerListLobbyHosts { game_type: String, game_version: String, format: u16 },
    PeerListLobbies { game_type: String, game_version: String, format: u16 },
    PeerSetupRoom { info: RoomInfo, topology: u16 },
    PeerJoinRoom(RoomJoinInfo),
    PeerLeaveRoom,
    PeerClosePeer(NETID),
    PeerBridgeRoom { room_id: RoomID, token: String },
    /// Sent by relay
    RelayPing(Timestamp),
    RelayListLobbyHosts { hosts: Vec<LobbyHost>, format: u16 },
    RelayListLobbies { lobbies: Vec<LobbyWithRooms>, format: u16 },
    RelayListPeers(Vec<NETID>),
    RelayAddPeer(NETID),
    RelayRemovePeer(NETID),
}

/// What a message says, as values.
pub enum Said {
    Close(u32),
    PeerPingResponse(nat),
    PeerListLobbyHosts { game_type: Seq<char>, game_version: Seq<char>, format: u16 },
    PeerListLobbies { game_type: Seq<char>, game_version: Seq<char>, format: u16 },
    PeerSetupRoom { info: RoomDetails, topology: u16 },
    PeerJoinRoom(JoinDetails),
    PeerLeaveRoom,
    PeerClosePeer(NETID),
    PeerBridgeRoom { room_id: RoomID, token: Seq<char> },
    RelayPing(Timestamp),
    RelayListLobbyHosts { hosts: Seq<LobbyHost>, format: u16 },
    RelayListLobbies { lobbies: Seq<LobbyWithRooms>, format: u16 },
    RelayListPeers(Seq<NETID>),
    RelayAddPeer(NETID),
    RelayRemovePeer(NETID),
}

impl View for NetRelayMessage {
    type V = Said;

    open spec fn view(&self) -> Said {
        match self {
            NetRelayMessage::Close(code) => Said::Close(*code),
            NetRelayMessage::PeerPingResponse(latency) => Said::PeerPingResponse(latency@),
            NetRelayMessage::PeerListLobbyHosts {
                game_type,
                game_version,
                format,
            } => Said::PeerListLobbyHosts {
                game_type: game_type@,
                game_version: game_version@,
                format: *format,
            },
            NetRelayMessage::PeerListLobbies {
                game_type,
                game_version,
                format,
            } => Said::PeerListLobbies {
                game_type: game_type@,
                game_version: game_version@,
                format: *format,
            },
            NetRelayMessage::PeerSetupRoom { info, topology } => Said::PeerSetupRoom {
                info: info@,
                topology: *topology,
            },
            NetRelayMessage::PeerJoinRoom(info) => Said::PeerJoinRoom(info@),
            NetRelayMessage::PeerLeaveRoom => Said::PeerLeaveRoom,
            NetRelayMessage::PeerClosePeer(netid) => Said::PeerClosePeer(*netid),
            NetRelayMessage::PeerBridgeRoom { room_id, token } => Said::PeerBridgeRoom {
                room_id: *room_id,
                token: token@,
            },
            NetRelayMessage::RelayPing(stamp) => Said::RelayPing(*stamp),
            NetRelayMessage::RelayListLobbyHosts { hosts, format } => Said::RelayListLobbyHosts {
                hosts: hosts@,
                format: *format,
            },
            NetRelayMessage::RelayListLobbies { lobbies, format } => Said::RelayListLobbies {
                lobbies: lobbies@,
                format: *format,
            },
            NetRelayMessage::RelayListPeers(peers) => Said::RelayListPeers(peers@),
            NetRelayMessage::RelayAddPeer(netid) => Said::RelayAddPeer(*netid),
            NetRelayMessage::RelayRemovePeer(netid) => Said::RelayRemovePeer(*netid),
        }
    }
}

/// What reading gives, and the bytes that it leaves.
pub struct Reading<T> {
    pub result: Result<T, Stop>,
    pub rest: Seq<u8>,
}

/// Reads a little-endian number of `n` bytes.
pub open spec fn number_at(s: Seq<u8>, n: nat) -> Reading<nat> {
    if s.len() < n {
        Reading { result: Err(Stop::Short), rest: s }
    } else {
        Reading { result: Ok(le(s.take(n as int))), rest: s.skip(n as int) }
    }
}

/// The length of the longest prefix of `s`, of at most `n` bytes, that is UTF-8.
pub open spec fn utf8_prefix(s: Seq<u8>, n: nat) -> nat
    decreases n,
{
    if n == 0 || valid_utf8(s.take(n as int)) {
        n
    } else {
        utf8_prefix(s, (n - 1) as nat)
    }
}

pub open spec fn min(a: nat, b: nat) -> nat {
    if a <= b {
        a
    } else {
        b
    }
}

/// Reads a text: the number of its bytes in 2 bytes, of which `max` are allowed, and as many
/// bytes of UTF-8.
pub open spec fn string_at(s: Seq<u8>, max: nat) -> Reading<Seq<char>> {
    let head = number_at(s, 2);
    let rest = head.rest;
    match head.result {
        Err(e) => Reading { result: Err(e), rest },
        Ok(len) => if len > min(max, 256) {
            Reading {
                result: Err(Stop::Refused(NetRelayMessageError::TooLongString(len as u16))),
                rest,
            }
        } else if len > rest.len() {
            Reading { result: Err(Stop::Refused(NetRelayMessageError::MissingData)), rest }
        } else {
            let bytes = rest.take(len as int);
            Reading {
                result: if valid_utf8(bytes) {
                    Ok(decode_utf8(bytes))
                } else {
                    Err(
                        Stop::Refused(
                            NetRelayMessageError::NotUTF8String(utf8_prefix(bytes, len) as usize),
                        ),
                    )
                },
                rest: rest.skip(len as int),
            }
        },
    }
}

/// Reads `n` pairs of texts, behind those in `before`.
pub open spec fn pairs_at(
    s: Seq<u8>,
    n: nat,
    max_key: nat,
    max_value: nat,
    before: Seq<(Seq<char>, Seq<char>)>,
) -> Reading<Seq<(Seq<char>, Seq<char>)>>
    decreases n,
{
    if n == 0 {
        Reading { result: Ok(before), rest: s }
    } else {
        let key = string_at(s, max_key);
        let value = string_at(key.rest, max_value);
        match (key.result, value.result) {
            (Err(e), _) => Reading { result: Err(e), rest: key.rest },
            (Ok(_), Err(e)) => Reading { result: Err(e), rest: value.rest },
            (Ok(k), Ok(v)) => pairs_at(
                value.rest,
                (n - 1) as nat,
                max_key,
                max_value,
                before.push((k, v)),
            ),
        }
    }
}

/// Reads a map: the number of its pairs in 2 bytes, of which `max` are allowed, and as many pairs
/// of texts. A later pair replaces an earlier one of its key.
pub open spec fn map_at(s: Seq<u8>, max: nat, max_key: nat, max_value: nat) -> Reading<
    Map<Seq<char>, Seq<char>>,
> {
    let head = number_at(s, 2);
    match head.result {
        Err(e) => Reading { result: Err(e), rest: head.rest },
        Ok(len) => if len > min(max, 64) {
            Reading {
                result: Err(Stop::Refused(NetRelayMessageError::TooManyElements(len as u16))),
                rest: head.rest,
            }
        } else {
            let pairs = pairs_at(head.rest, len, max_key, max_value, Seq::empty());
            Reading {
                result: match pairs.result {
                    Ok(p) => Ok(map_of(p)),
                    Err(e) => Err(e),
                },
                rest: pairs.rest,
            }
        },
    }
}

/// `std::str::from_utf8`: the text that the bytes are, or, where they are not UTF-8, the length
/// of their longest prefix that is.
#[verifier::external_body]
fn utf8_text(bytes: &[u8]) -> (r: Result<String, usize>)
    ensures
        match r {
            Ok(s) => valid_utf8(bytes@) && s@ == decode_utf8(bytes@),
            Err(n) => !valid_utf8(bytes@) && n == utf8_prefix(bytes@, bytes@.len()),
        },
{
    match std::str::from_utf8(bytes) {
        Ok(s) => Ok(s.to_owned()),
        Err(e) => Err(e.valid_up_to()),
    }
}

fn take_u8(data: &mut Bytes) -> (r: Result<u8, Stop>)
    ensures
        held(*old(data)).len() < 1 ==> r == Err::<u8, Stop>(Stop::Short) && held(*final(data))
            == held(*old(data)),
        held(*old(data)).len() >= 1 ==> r == Ok::<u8, Stop>(held(*old(data))[0]) && held(
            *final(data),
        ) == held(*old(data)).skip(1),
{
    if data.len() < 1 {
        return Err(Stop::Short);
    }
    Ok(get_u8(data))
}

fn take_u16(data: &mut Bytes) -> (r: Result<u16, Stop>)
    ensures
        ({
            let reading = number_at(held(*old(data)), 2);
            &&& held(*final(data)) == reading.rest
            &&& match reading.result {
                Ok(n) => r matches Ok(v) && v as nat == n,
                Err(e) => r == Err::<u16, Stop>(e),
            }
        }),
{
    if data.len() < 2 {
        return Err(Stop::Short);
    }
    Ok(get_u16_le(data))
}

fn take_u32(data: &mut Bytes) -> (r: Result<u32, Stop>)
    ensures
        ({
            let reading = number_at(held(*old(data)), 4);
            &&& held(*final(data)) == reading.rest
            &&& match reading.result {
                Ok(n) => r matches Ok(v) && v as nat == n,
                Err(e) => r == Err::<u32, Stop>(e),
            }
        }),
{
    if data.len() < 4 {
        return Err(Stop::Short);
    }
    Ok(get_u32_le(data))
}

fn take_u64(data: &mut Bytes) -> (r: Result<u64, Stop>)
    ensures
        ({
            let reading = number_at(held(*old(data)), 8);
            &&& held(*final(data)) == reading.rest
            &&& match reading.result {
                Ok(n) => r matches Ok(v) && v as nat == n,
                Err(e) => r == Err::<u64, Stop>(e),
            }
        }),
{
    if data.len() < 8 {
        return Err(Stop::Short);
    }
    Ok(get_u64_le(data))
}

fn take_string(data: &mut Bytes, max_len: u16) -> (r: Result<String, Stop>)
    ensures
        ({
            let reading = string_at(held(*old(data)), max_len as nat);
            &&& held(*final(data)) == reading.rest
            &&& match reading.result {
                Ok(s) => r matches Ok(v) && v@ == s,
                Err(e) => r == Err::<String, Stop>(e),
            }
        }),
{
    let len: u16 = take_u16(data)?;
    let limit: u16 = if max_len <= NET_RELAY_MAX_STRING_LENGTH {
        max_len
    } else {
        NET_RELAY_MAX_STRING_LENGTH
    };
    if len > limit {
        return Err(Stop::Refused(NetRelayMessageError::TooLongString(len)));
    }
    if len as usize > data.len() {
        return Err(Stop::Refused(NetRelayMessageError::MissingData));
    }
    let buf = data.split_to(len as usize);
    match utf8_text(as_slice(&buf)) {
        Ok(text) => Ok(text),
        Err(valid) => Err(Stop::Refused(NetRelayMessageError::NotUTF8String(valid))),
    }
}

fn take_map(data: &mut Bytes, max_elements: u16, max_key_len: u16, max_value_len: u16) -> (r:
    Result<ExtraData, Stop>)
    ensures
        ({
            let reading = map_at(
                held(*old(data)),
                max_elements as nat,
                max_key_len as nat,
                max_value_len as nat,
            );
            &&& held(*final(data)) == reading.rest
            &&& match reading.result {
                Ok(m) => r matches Ok(v) && v@ == m,
                Err(e) => r == Err::<ExtraData, Stop>(e),
            }
        }),
{
    let len: u16 = take_u16(data)?;
    let limit: u16 = if max_elements <= NET_RELAY_MAX_MAP_ELEMENTS {
        max_elements
    } else {
        NET_RELAY_MAX_MAP_ELEMENTS
    };
    if len > limit {
        return Err(Stop::Refused(NetRelayMessageError::TooManyElements(len)));
    }
    let ghost body = held(*data);
    let mut map = ExtraData::new();
    let ghost mut read: Seq<(Seq<char>, Seq<char>)> = Seq::empty();
    let mut i: u16 = 0;
    while i < len
        invariant
            i <= len,
            map@ == map_of(read),
            pairs_at(
                body,
                len as nat,
                max_key_len as nat,
                max_value_len as nat,
                Seq::empty(),
            ) == pairs_at(
                held(*data),
                (len - i) as nat,
                max_key_len as nat,
                max_value_len as nat,
                read,
            ),
            ({
                let whole = pairs_at(
                    body,
                    len as nat,
                    max_key_len as nat,
                    max_value_len as nat,
                    Seq::empty(),
                );
                let reading = map_at(
                    held(*old(data)),
                    max_elements as nat,
                    max_key_len as nat,
                    max_value_len as nat,
                );
                &&& reading.rest == whole.rest
                &&& whole.result matches Ok(p) ==> reading.result == Ok::<
                    Map<Seq<char>, Seq<char>>,
                    Stop,
                >(map_of(p))
                &&& whole.result matches Err(e) ==> reading.result == Err::<
                    Map<Seq<char>, Seq<char>>,
                    Stop,
                >(e)
            }),
        decreases len - i,
    {
        let key = take_string(data, max_key_len)?;
        let value = take_string(data, max_value_len)?;
        proof {
            let pair = (key@, value@);
            assert(read.push(pair).drop_last() =~= read);
            read = read.push(pair);
        }
        map.insert(key, value);
        i = i + 1;
    }
    Ok(map)
}

/// The refusal of a message.
pub open spec fn refused<T>(e: NetRelayMessageError) -> Result<T, Stop> {
    Err(Stop::Refused(e))
}

/// Reads two texts of at most 32 bytes and what follows: the game that a peer asks for.
pub open spec fn game_at(s: Seq<u8>) -> Reading<(Seq<char>, Seq<char>)> {
    let game_type = string_at(s, 32);
    let game_version = string_at(game_type.rest, 32);
    match (game_type.result, game_version.result) {
        (Err(e), _) => Reading { result: Err(e), rest: game_type.rest },
        (Ok(_), Err(e)) => Reading { result: Err(e), rest: game_version.rest },
        (Ok(t), Ok(v)) => Reading { result: Ok((t, v)), rest: game_version.rest },
    }
}

/// Reads the description of a room and its topology.
pub open spec fn room_at(s: Seq<u8>) -> Result<Said, Stop> {
    let game = game_at(s);
    let name = string_at(game.rest, 64);
    let fixed = name.rest;
    let extra = map_at(fixed.skip(9), 32, 64, 128);
    match (game.result, name.result, extra.result) {
        (Err(e), _, _) => Err(e),
        (Ok(_), Err(e), _) => Err(e),
        (Ok((game_type, game_version)), Ok(room_name), extra_data) => if fixed.len() < 9 {
            Err(Stop::Short)
        } else {
            match extra_data {
                Err(e) => Err(e),
                Ok(extra_data) => Ok(
                    Said::PeerSetupRoom {
                        info: RoomDetails {
                            room_id: 0,
                            game_type,
                            game_version,
                            room_name,
                            room_password: fixed[0] != 0,
                            room_closed: fixed[1] != 0,
                            game_started: fixed[2] != 0,
                            players_count: le(fixed.subrange(3, 5)) as u16,
                            players_max: le(fixed.subrange(5, 7)) as u16,
                            ping: 0,
                            extra_data,
                        },
                        topology: le(fixed.subrange(7, 9)) as u16,
                    },
                ),
            }
        },
    }
}

/// Reads what follows the header of a message of type `t`, which came as `head`, at the clock
/// reading `now`.
pub open spec fn said_at(
    t: NetRelayMessageType,
    head: u32,
    s: Seq<u8>,
    now: Option<Duration>,
) -> Result<Said, Stop> {
    match t {
        NetRelayMessageType::RELAY_MSG_CLOSE => match number_at(s, 4).result {
            Ok(code) => Ok(Said::Close(code as u32)),
            Err(e) => Err(e),
        },
        NetRelayMessageType::RELAY_MSG_PEER_LEAVE_ROOM => Ok(Said::PeerLeaveRoom),
        NetRelayMessageType::RELAY_MSG_PEER_LIST_LOBBY_HOSTS => {
            let game = game_at(s);
            match (game.result, number_at(game.rest, 2).result) {
                (Err(e), _) => Err(e),
                (Ok(_), Err(e)) => Err(e),
                (Ok((game_type, game_version)), Ok(format)) => Ok(
                    Said::PeerListLobbyHosts { game_type, game_version, format: format as u16 },
                ),
            }
        },
        NetRelayMessageType::RELAY_MSG_PEER_LIST_LOBBIES => {
            let game = game_at(s);
            match (game.result, number_at(game.rest, 2).result) {
                (Err(e), _) => Err(e),
                (Ok(_), Err(e)) => Err(e),
                (Ok((game_type, game_version)), Ok(format)) => Ok(
                    Said::PeerListLobbies { game_type, game_version, format: format as u16 },
                ),
            }
        },
        NetRelayMessageType::RELAY_MSG_PEER_SETUP_ROOM => room_at(s),
        NetRelayMessageType::RELAY_MSG_PEER_JOIN_ROOM => {
            let game = game_at(s);
            match (game.result, number_at(game.rest, 8).result) {
                (Err(e), _) => Err(e),
                (Ok(_), Err(e)) => Err(e),
                (Ok((game_type, game_version)), Ok(room_id)) => Ok(
                    Said::PeerJoinRoom(
                        JoinDetails { game_type, game_version, room_id: room_id as u64 },
                    ),
                ),
            }
        },
        NetRelayMessageType::RELAY_MSG_PEER_BRIDGE_ROOM => {
            let id = number_at(s, 8);
            match (id.result, string_at(id.rest, 32).result) {
                (Err(e), _) => Err(e),
                (Ok(_), Err(e)) => Err(e),
                (Ok(room_id), Ok(token)) => Ok(
                    Said::PeerBridgeRoom { room_id: room_id as u64, token },
                ),
            }
        },
        NetRelayMessageType::RELAY_MSG_PEER_PING_RESPONSE => match stamp_read_at(s) {
            Ok(stamp) => Ok(Said::PeerPingResponse(since(now, stamp))),
            Err(e) => Err(e),
        },
        NetRelayMessageType::RELAY_MSG_PEER_CLOSE_PEER => match number_at(s, 8).result {
            Ok(netid) => Ok(Said::PeerClosePeer(netid as u64)),
            Err(e) => Err(e),
        },
        NetRelayMessageType::RELAY_MSG_RELAY_PING => match stamp_read_at(s) {
            Ok(stamp) => Ok(Said::RelayPing(stamp)),
            Err(e) => Err(e),
        },
        NetRelayMessageType::RELAY_MSG_RELAY_ADD_PEER => match number_at(s, 8).result {
            Ok(netid) => Ok(Said::RelayAddPeer(netid as u64)),
            Err(e) => Err(e),
        },
        NetRelayMessageType::RELAY_MSG_RELAY_REMOVE_PEER => match number_at(s, 8).result {
            Ok(netid) => Ok(Said::RelayRemovePeer(netid as u64)),
            Err(e) => Err(e),
        },
        // Unknown and relay side messages go here
        _ => refused(NetRelayMessageError::UnknownType(head)),
    }
}

/// Reads a time stamp: its seconds in 8 bytes, its nanoseconds in 4.
pub open spec fn stamp_read_at(s: Seq<u8>) -> Result<Timestamp, Stop> {
    let secs = number_at(s, 8);
    match (secs.result, number_at(secs.rest, 4).result) {
        (Err(e), _) => Err(e),
        (Ok(_), Err(e)) => Err(e),
        (Ok(secs), Ok(subsecs)) => Ok((secs as u64, subsecs as u32)),
    }
}

/// Reads the message `m` at the clock reading `now`: its header holds the protocol version above
/// the type, and only some types may come from any peer.
pub open spec fn read_message(m: Envelope, now: Option<Duration>) -> Result<Said, Stop> {
    let head = number_at(m.data, 4);
    if m.compressed {
        // Shouldn't be compressed
        refused(NetRelayMessageError::UnsupportedFlag(1))
    } else if m.destination != NETID_RELAY {
        refused(NetRelayMessageError::WrongDestinationNETID(m.destination))
    } else {
        match head.result {
            Err(e) => Err(e),
            Ok(h) => if h / 0x1000000 != 1 {
                refused(NetRelayMessageError::WrongProtocol((h / 0x1000000) as u8))
            } else if m.source == NETID_RELAY || m.source == NETID_ALL {
                refused(NetRelayMessageError::WrongSourceNETID(m.source))
            } else {
                match NetRelayMessageType::numbered((h % 0x1000000) as u32) {
                    None => refused(NetRelayMessageError::UnknownType(h as u32)),
                    Some(t) => if t == NetRelayMessageType::RELAY_MSG_PEER_SETUP_ROOM && m.source
                        != NETID_HOST {
                        refused(NetRelayMessageError::WrongSourceNETID(m.source))
                    } else if t == NetRelayMessageType::RELAY_MSG_PEER_JOIN_ROOM && m.source
                        != NETID_NONE {
                        refused(NetRelayMessageError::WrongSourceNETID(m.source))
                    } else {
                        said_at(t, h as u32, head.rest, now)
                    },
                }
            },
        }
    }
}

/// Whether the message `m` holds every number that its type announces.
pub open spec fn complete(m: Envelope) -> bool {
    read_message(m, None) != Err::<Said, Stop>(Stop::Short)
}

/// Whether `r` is what reading gives.
pub open spec fn is_read(r: Result<NetRelayMessage, Stop>, said: Result<Said, Stop>) -> bool {
    match said {
        Ok(m) => r matches Ok(msg) && msg@ == m,
        Err(e) => r matches Err(stop) && stop == e,
    }
}

/// Whether `r` is what reading gives.
pub open spec fn is_answer(
    r: Result<NetRelayMessage, NetRelayMessageError>,
    said: Result<Said, Stop>,
) -> bool {
    match said {
        Ok(m) => r matches Ok(msg) && msg@ == m,
        Err(e) => r matches Err(error) && e == Stop::Refused(error),
    }
}

fn take_game(data: &mut Bytes) -> (r: Result<(String, String), Stop>)
    ensures
        ({
            let reading = game_at(held(*old(data)));
            &&& held(*final(data)) == reading.rest
            &&& match reading.result {
                Ok((t, v)) => r matches Ok(game) && game.0@ == t && game.1@ == v,
                Err(e) => r == Err::<(String, String), Stop>(e),
            }
        }),
{
    let game_type = take_string(data, 32)?;
    let game_version = take_string(data, 32)?;
    Ok((game_type, game_version))
}

fn take_stamp(data: &mut Bytes) -> (r: Result<Timestamp, Stop>)
    ensures
        r == stamp_read_at(held(*old(data))),
{
    let secs: u64 = take_u64(data)?;
    let subsecs: u32 = take_u32(data)?;
    Ok((secs, subsecs))
}

/// The part of a room's description that takes 9 bytes.
struct Fixed {
    room_password: bool,
    room_closed: bool,
    game_started: bool,
    players_count: u16,
    players_max: u16,
    topology: u16,
}

fn take_fixed(data: &mut Bytes) -> (r: Result<Fixed, Stop>)
    ensures
        ({
            let fixed = held(*old(data));
            if fixed.len() < 9 {
                r == Err::<Fixed, Stop>(Stop::Short)
            } else {
                &&& held(*final(data)) == fixed.skip(9)
                &&& r == Ok::<Fixed, Stop>(
                    Fixed {
                        room_password: fixed[0] != 0,
                        room_closed: fixed[1] != 0,
                        game_started: fixed[2] != 0,
                        players_count: le(fixed.subrange(3, 5)) as u16,
                        players_max: le(fixed.subrange(5, 7)) as u16,
                        topology: le(fixed.subrange(7, 9)) as u16,
                    },
                )
            }
        }),
{
    let ghost fixed = held(*data);
    let room_password: bool = take_u8(data)? != 0;
    let room_closed: bool = take_u8(data)? != 0;
    let game_started: bool = take_u8(data)? != 0;
    assert(held(*data) =~= fixed.skip(3));
    let players_count: u16 = take_u16(data)?;
    assert(fixed.skip(3).take(2) =~= fixed.subrange(3, 5));
    assert(held(*data) =~= fixed.skip(5));
    let players_max: u16 = take_u16(data)?;
    assert(fixed.skip(5).take(2) =~= fixed.subrange(5, 7));
    assert(held(*data) =~= fixed.skip(7));
    let topology: u16 = take_u16(data)?;
    assert(fixed.skip(7).take(2) =~= fixed.subrange(7, 9));
    assert(held(*data) =~= fixed.skip(9));
    Ok(Fixed { room_password, room_closed, game_started, players_count, players_max, topology })
}

fn take_room(data: &mut Bytes) -> (r: Result<NetRelayMessage, Stop>)
    ensures
        is_read(r, room_at(held(*old(data)))),
{
    let (game_type, game_version): (String, String) = take_game(data)?;
    let room_name = take_string(data, 64)?;
    let fixed = take_fixed(data)?;
    let extra_data = take_map(data, 32, 64, 128)?;
    Ok(
        NetRelayMessage::PeerSetupRoom {
            info: RoomInfo {
                room_id: 0,
                game_type,
                game_version,
                room_name,
                room_password: fixed.room_password,
                room_closed: fixed.room_closed,
                game_started: fixed.game_started,
                players_count: fixed.players_count,
                players_max: fixed.players_max,
                ping: 0,
                extra_data,
            },
            topology: fixed.topology,
        },
    )
}

impl NetRelayMessage {
    /// Takes a text off `data`.
    pub fn read_string(data: &mut Bytes, max_len: u16) -> (r: Result<String, NetRelayMessageError>)
        requires
            held(*old(data)).len() >= 2,
        ensures
            ({
                let reading = string_at(held(*old(data)), max_len as nat);
                &&& held(*final(data)) == reading.rest
                &&& match reading.result {
                    Ok(s) => r matches Ok(v) && v@ == s,
                    Err(e) => r matches Err(error) && e == Stop::Refused(error),
                }
            }),
    {
        match take_string(data, max_len) {
            Ok(text) => Ok(text),
            Err(Stop::Refused(error)) => Err(error),
            Err(Stop::Short) => Err(NetRelayMessageError::MissingData),
        }
    }

    /// Takes a map off `data`.
    pub fn read_map(
        data: &mut Bytes,
        max_elements: u16,
        max_key_len: u16,
        max_value_len: u16,
    ) -> (r: Result<ExtraData, NetRelayMessageError>)
        requires
            map_at(
                held(*old(data)),
                max_elements as nat,
                max_key_len as nat,
                max_value_len as nat,
            ).result != Err::<Map<Seq<char>, Seq<char>>, Stop>(Stop::Short),
        ensures
            ({
                let reading = map_at(
                    held(*old(data)),
                    max_elements as nat,
                    max_key_len as nat,
                    max_value_len as nat,
                );
                &&& held(*final(data)) == reading.rest
                &&& match reading.result {
                    Ok(m) => r matches Ok(v) && v@ == m,
                    Err(e) => r matches Err(error) && e == Stop::Refused(error),
                }
            }),
    {
        match take_map(data, max_elements, max_key_len, max_value_len) {
            Ok(map) => Ok(map),
            Err(Stop::Refused(error)) => Err(error),
            Err(Stop::Short) => Err(NetRelayMessageError::MissingData),
        }
    }

    /// Reads the message `msg` at the clock reading `now`.
    pub fn read_at(msg: NetConnectionMessage, now: Option<Duration>) -> (r: Result<Self, Stop>)
        ensures
            is_read(r, read_message(msg@, now)),
    {
        if msg.compressed {
            // Shouldn't be compressed
            return Err(
                Stop::Refused(
                    NetRelayMessageError::UnsupportedFlag(NetConnectionMessage::FLAG_COMPRESSED),
                ),
            );
        } else if msg.destination_netid != NETID_RELAY {
            return Err(
                Stop::Refused(NetRelayMessageError::WrongDestinationNETID(msg.destination_netid)),
            );
        }
        // Parse header
        let source: NETID = msg.source_netid;
        let mut data = msg.data;
        let head: u32 = take_u32(&mut data)?;
        proof {
            assert((head >> 24) & 0xFF == head / 0x1000000) by (bit_vector);
            assert(head & 0xFF_FFFF == head % 0x1000000) by (bit_vector);
            assert(head / 0x1000000 <= 0xFF) by (bit_vector);
        }
        let relay_protocol: u8 = ((head >> 24) & 0xFF) as u8;
        if relay_protocol != NET_RELAY_PROTOCOL_VERSION {
            return Err(Stop::Refused(NetRelayMessageError::WrongProtocol(relay_protocol)));
        }
        let msg_type = match NetRelayMessageType::from_u32(head & 0xFF_FFFF) {
            Some(t) => t,
            None => NetRelayMessageType::RELAY_MSG_UNKNOWN,
        };
        // Check source NETID
        if source == NETID_RELAY || source == NETID_ALL {
            return Err(Stop::Refused(NetRelayMessageError::WrongSourceNETID(source)));
        }
        match msg_type {
            NetRelayMessageType::RELAY_MSG_PEER_SETUP_ROOM => {
                if source != NETID_HOST {
                    return Err(Stop::Refused(NetRelayMessageError::WrongSourceNETID(source)));
                }
            },
            NetRelayMessageType::RELAY_MSG_PEER_JOIN_ROOM => {
                if source != NETID_NONE {
                    return Err(Stop::Refused(NetRelayMessageError::WrongSourceNETID(source)));
                }
            },
            _ => {},
        }
        let result = match msg_type {
            NetRelayMessageType::RELAY_MSG_CLOSE => NetRelayMessage::Close(take_u32(&mut data)?),
            NetRelayMessageType::RELAY_MSG_PEER_LEAVE_ROOM => NetRelayMessage::PeerLeaveRoom,
            NetRelayMessageType::RELAY_MSG_PEER_LIST_LOBBY_HOSTS => {
                let (game_type, game_version): (String, String) = take_game(&mut data)?;
                let format: u16 = take_u16(&mut data)?;
                NetRelayMessage::PeerListLobbyHosts { game_type, game_version, format }
            },
            NetRelayMessageType::RELAY_MSG_PEER_LIST_LOBBIES => {
                let (game_type, game_version): (String, String) = take_game(&mut data)?;
                let format: u16 = take_u16(&mut data)?;
                NetRelayMessage::PeerListLobbies { game_type, game_version, format }
            },
            NetRelayMessageType::RELAY_MSG_PEER_SETUP_ROOM => take_room(&mut data)?,
            NetRelayMessageType::RELAY_MSG_PEER_JOIN_ROOM => {
                let (game_type, game_version): (String, String) = take_game(&mut data)?;
                let room_id: u64 = take_u64(&mut data)?;
                NetRelayMessage::PeerJoinRoom(RoomJoinInfo { game_type, game_version, room_id })
            },
            NetRelayMessageType::RELAY_MSG_PEER_BRIDGE_ROOM => {
                let room_id: u64 = take_u64(&mut data)?;
                let token = take_string(&mut data, 32)?;
                NetRelayMessage::PeerBridgeRoom { room_id, token }
            },
            NetRelayMessageType::RELAY_MSG_PEER_PING_RESPONSE => {
                let stamp: Timestamp = take_stamp(&mut data)?;
                NetRelayMessage::PeerPingResponse(duration_between(now, &stamp))
            },
            NetRelayMessageType::RELAY_MSG_PEER_CLOSE_PEER => NetRelayMessage::PeerClosePeer(
                take_u64(&mut data)?,
            ),
            NetRelayMessageType::RELAY_MSG_RELAY_PING => NetRelayMessage::RelayPing(
                take_stamp(&mut data)?,
            ),
            NetRelayMessageType::RELAY_MSG_RELAY_ADD_PEER => NetRelayMessage::RelayAddPeer(
                take_u64(&mut data)?,
            ),
            NetRelayMessageType::RELAY_MSG_RELAY_REMOVE_PEER => NetRelayMessage::RelayRemovePeer(
                take_u64(&mut data)?,
            ),
            // Unknown and relay side messages go here
            NetRelayMessageType::RELAY_MSG_PEER_START
            | NetRelayMessageType::RELAY_MSG_RELAY_START
            | NetRelayMessageType::RELAY_MSG_RELAY_LIST_LOBBIES
            | NetRelayMessageType::RELAY_MSG_RELAY_LIST_PEERS
            | NetRelayMessageType::RELAY_MSG_RELAY_LIST_LOBBY_HOSTS
            | NetRelayMessageType::RELAY_MSG_UNKNOWN => {
                return Err(Stop::Refused(NetRelayMessageError::UnknownType(head)));
            },
        };
        Ok(result)
    }

    /// Whether `msg` holds every number that its type announces.
    pub fn is_complete(msg: &NetConnectionMessage) -> (r: bool)
        ensures
            r == complete(msg@),
    {
        match Self::read_at(msg.clone(), None) {
            Err(Stop::Short) => false,
            _ => true,
        }
    }

    /// Reads the message `msg`.
    pub fn from_message(msg: NetConnectionMessage) -> (r: Result<Self, NetRelayMessageError>)
        requires
            complete(msg@),
        ensures
            exists|now: Option<Duration>| #[trigger]
                told(now) && is_answer(r, read_message(msg@, now)),
    {
        let now = duration_since_unix_epoch();
        match Self::read_at(msg, now) {
            Ok(message) => Ok(message),
            Err(Stop::Refused(error)) => Err(error),
            Err(Stop::Short) => Err(NetRelayMessageError::MissingData),
        }
    }
}

/// Why a message cannot be written.
#[derive(Debug)]
pub enum WriteError {
    Payload(PayloadError),
    /// The relay does not send such a message.
    UnknownMessage(NetRelayMessage),
}

/// Why a message cannot be written.
pub enum WriteFault {
    Payload(PayloadFault),
    UnknownMessage(Said),
}

impl View for WriteError {
    type V = WriteFault;

    open spec fn view(&self) -> WriteFault {
        match self {
            WriteError::Payload(e) => WriteFault::Payload(e@),
            WriteError::UnknownMessage(m) => WriteFault::UnknownMessage(m@),
        }
    }
}

/// The header of a message of type `t`.
pub open spec fn header(t: NetRelayMessageType) -> Seq<u8> {
    le_bytes((0x1000000 + t.number()) as nat, 4)
}

/// The bytes of NETIDs, one behind the other.
pub open spec fn netids(peers: Seq<NETID>) -> Seq<u8>
    decreases peers.len(),
{
    if peers.len() == 0 {
        Seq::empty()
    } else {
        netids(peers.drop_last()) + le_bytes(peers.last() as nat, 8)
    }
}

/// The bytes of a message whose payload is text.
pub open spec fn text_message(
    t: NetRelayMessageType,
    text: Result<Seq<char>, PayloadFault>,
) -> Result<Seq<u8>, WriteFault> {
    match text {
        Ok(text) => Ok(header(t) + encode_utf8(text)),
        Err(fault) => Err(WriteFault::Payload(fault)),
    }
}

/// The bytes of a message, where `json` is what a JSON writer made of its list, if it has one.
pub open spec fn wire(m: Said, json: Result<Seq<char>, Seq<char>>) -> Result<Seq<u8>, WriteFault> {
    match m {
        Said::Close(code) => Ok(
            header(NetRelayMessageType::RELAY_MSG_CLOSE) + le_bytes(code as nat, 4),
        ),
        Said::RelayPing(stamp) => Ok(
            header(NetRelayMessageType::RELAY_MSG_RELAY_PING) + le_bytes(stamp.0 as nat, 8)
                + le_bytes(stamp.1 as nat, 4),
        ),
        Said::RelayListLobbyHosts { hosts, format } => text_message(
            NetRelayMessageType::RELAY_MSG_RELAY_LIST_LOBBY_HOSTS,
            payload(format == 1, hosts_tree(hosts), json),
        ),
        Said::RelayListLobbies { lobbies, format } => text_message(
            NetRelayMessageType::RELAY_MSG_RELAY_LIST_LOBBIES,
            payload(format == 1, lobbies_tree(lobbies), json),
        ),
        Said::RelayListPeers(peers) => Ok(
            header(NetRelayMessageType::RELAY_MSG_RELAY_LIST_PEERS) + le_bytes(
                peers.len() % 0x1_0000_0000,
                4,
            ) + netids(peers),
        ),
        Said::RelayAddPeer(netid) => Ok(
            header(NetRelayMessageType::RELAY_MSG_RELAY_ADD_PEER) + le_bytes(netid as nat, 8),
        ),
        Said::RelayRemovePeer(netid) => Ok(
            header(NetRelayMessageType::RELAY_MSG_RELAY_REMOVE_PEER) + le_bytes(netid as nat, 8),
        ),
        _ => Err(WriteFault::UnknownMessage(m)),
    }
}

/// Whether the bytes of a message fit in a buffer.
pub open spec fn writable(m: Said, json: Result<Seq<char>, Seq<char>>) -> bool {
    wire(m, json) matches Ok(bytes) ==> fits(0, bytes.len())
}

pub proof fn lemma_netids_len(peers: Seq<NETID>)
    ensures
        netids(peers).len() == 8 * peers.len(),
    decreases peers.len(),
{
    if peers.len() > 0 {
        lemma_netids_len(peers.drop_last());
        lemma_le_bytes_len(peers.last() as nat, 8);
    }
}

impl NetRelayMessage {
    /// Whether this message is a list that goes out as JSON.
    pub fn wants_json(&self) -> (r: bool)
        ensures
            r == match self@ {
                Said::RelayListLobbyHosts { format, .. } => format != 1,
                Said::RelayListLobbies { format, .. } => format != 1,
                _ => false,
            },
    {
        match self {
            NetRelayMessage::RelayListLobbyHosts { format, .. } => *format != 1,
            NetRelayMessage::RelayListLobbies { format, .. } => *format != 1,
            _ => false,
        }
    }

    /// Whether the bytes of this message fit in a buffer.
    pub fn is_writable(&self, json: &Result<String, String>) -> (r: bool)
        ensures
            r == writable(self@, result_text(*json)),
    {
        proof {
            assert forall|v: nat, n: nat| #[trigger] le_bytes(v, n).len() == n by {
                lemma_le_bytes_len(v, n);
            }
        }
        let limit: usize = isize::MAX as usize / 4;
        let value = match self {
            NetRelayMessage::RelayListPeers(peers) => {
                proof {
                    lemma_netids_len(peers@);
                }
                return peers.len() <= (limit - 8) / 8;
            },
            NetRelayMessage::RelayListLobbyHosts { hosts, .. } => hosts_value(hosts),
            NetRelayMessage::RelayListLobbies { lobbies, .. } => lobbies_value(lobbies),
            _ => return true,
        };
        let json: Result<String, String> = match json {
            Ok(text) => Ok(text.clone()),
            Err(e) => Err(e.clone()),
        };
        match serialize_xprm_or_json(!self.wants_json(), &value, json) {
            Ok(text) => text.as_str().as_bytes().len() <= limit - 4,
            Err(_) => true,
        }
    }

    fn write_header(buf: &mut BytesMut, msg_type: NetRelayMessageType)
        requires
            fits(held_mut(*old(buf)).len(), 4),
        ensures
            held_mut(*final(buf)) == held_mut(*old(buf)) + header(msg_type),
    {
        let code: u32 = msg_type.code();
        let version: u32 = (NET_RELAY_PROTOCOL_VERSION & 0xFF) as u32;
        proof {
            type_numbers(msg_type, 0);
            assert(1u8 & 0xFF == 1u8) by (bit_vector);
            assert((code & 0xFF_FFFF) | (1u32 << 24) == 0x1000000 + code) by (bit_vector)
                requires
                    code < 0x1000000,
            ;
        }
        let header: u32 = (code & 0xFF_FFFF) | (version << 24);
        put_u32_le(buf, header);
    }

    fn write_close(buf: &mut BytesMut, code: u32)
        requires
            fits(held_mut(*old(buf)).len(), 8),
        ensures
            held_mut(*final(buf)) == held_mut(*old(buf)) + header(
                NetRelayMessageType::RELAY_MSG_CLOSE,
            ) + le_bytes(code as nat, 4),
    {
        proof {
            lemma_le_bytes_len(
                (0x1000000 + NetRelayMessageType::RELAY_MSG_CLOSE.number()) as nat,
                4,
            );
        }
        Self::write_header(buf, NetRelayMessageType::RELAY_MSG_CLOSE);
        put_u32_le(buf, code);
    }

    /// The bytes of the message that tells why a connection is closed.
    pub fn close_bytes(code: u32) -> (b: Bytes)
        ensures
            forall|json: Result<Seq<char>, Seq<char>>| #[trigger]
                wire(Said::Close(code), json) == Ok::<Seq<u8>, WriteFault>(held(b)),
    {
        let mut buf = BytesMut::with_capacity(128);
        Self::write_close(&mut buf, code);
        assert(held_mut(buf) =~= header(NetRelayMessageType::RELAY_MSG_CLOSE) + le_bytes(
            code as nat,
            4,
        ));
        buf.freeze()
    }

    /// The bytes of this message. A list goes out in XPrm notation, or as `json`, what a JSON
    /// writer made of it.
    pub fn into_bytes_mut(self, json: Result<String, String>) -> (r: Result<BytesMut, WriteError>)
        requires
            writable(self@, result_text(json)),
        ensures
            match wire(self@, result_text(json)) {
                Ok(bytes) => r matches Ok(buf) && held_mut(buf) == bytes,
                Err(fault) => r matches Err(e) && e@ == fault,
            },
    {
        proof {
            lemma_le_bytes_len(0x1000000, 4);
            assert forall|v: nat, n: nat| #[trigger] le_bytes(v, n).len() == n by {
                lemma_le_bytes_len(v, n);
            }
        }
        let mut buf = BytesMut::with_capacity(128);
        let ghost said = self@;
        match self {
            NetRelayMessage::Close(code) => {
                Self::write_close(&mut buf, code);
            },
            NetRelayMessage::RelayPing(stamp) => {
                Self::write_header(&mut buf, NetRelayMessageType::RELAY_MSG_RELAY_PING);
                put_u64_le(&mut buf, stamp.0);
                put_u32_le(&mut buf, stamp.1);
            },
            NetRelayMessage::RelayListLobbyHosts { hosts, format } => {
                Self::write_header(&mut buf, NetRelayMessageType::RELAY_MSG_RELAY_LIST_LOBBY_HOSTS);
                let xprm: bool = format == 1;
                match serialize_xprm_or_json(xprm, &hosts_value(&hosts), json) {
                    Ok(result) => put_slice(&mut buf, result.as_str().as_bytes()),
                    Err(e) => return Err(WriteError::Payload(e)),
                }
            },
            NetRelayMessage::RelayListLobbies { lobbies, format } => {
                Self::write_header(&mut buf, NetRelayMessageType::RELAY_MSG_RELAY_LIST_LOBBIES);
                let xprm: bool = format == 1;
                match serialize_xprm_or_json(xprm, &lobbies_value(&lobbies), json) {
                    Ok(result) => put_slice(&mut buf, result.as_str().as_bytes()),
                    Err(e) => return Err(WriteError::Payload(e)),
                }
            },
            NetRelayMessage::RelayListPeers(peers) => {
                Self::write_header(&mut buf, NetRelayMessageType::RELAY_MSG_RELAY_LIST_PEERS);
                let len: u64 = peers.len() as u64;
                assert(len as u32 == len % 0x1_0000_0000) by (bit_vector);
                put_u32_le(&mut buf, len as u32);
                let ghost start = held_mut(buf);
                let mut i: usize = 0;
                proof {
                    lemma_netids_len(peers@);
                    assert(peers@.take(0) =~= Seq::<NETID>::empty());
                    assert(held_mut(buf) =~= start + netids(peers@.take(0)));
                }
                while i < peers.len()
                    invariant
                        i <= peers.len(),
                        start.len() == 8,
                        fits(8, 8 * peers@.len()),
                        held_mut(buf) == start + netids(peers@.take(i as int)),
                    decreases peers.len() - i,
                {
                    proof {
                        lemma_netids_len(peers@.take(i as int));
                        assert(peers@.take(i + 1).drop_last() =~= peers@.take(i as int));
                    }
                    put_u64_le(&mut buf, peers[i]);
                    assert(held_mut(buf) =~= start + netids(peers@.take(i + 1)));
                    i = i + 1;
                }
                assert(peers@.take(i as int) =~= peers@);
            },
            NetRelayMessage::RelayAddPeer(netid) => {
                Self::write_header(&mut buf, NetRelayMessageType::RELAY_MSG_RELAY_ADD_PEER);
                put_u64_le(&mut buf, netid);
            },
            NetRelayMessage::RelayRemovePeer(netid) => {
                Self::write_header(&mut buf, NetRelayMessageType::RELAY_MSG_RELAY_REMOVE_PEER);
                put_u64_le(&mut buf, netid);
            },
            msg => {
                return Err(WriteError::UnknownMessage(msg));
            },
        }
        assert(held_mut(buf) =~= wire(said, result_text(json))->Ok_0);
        Ok(buf)
    }

    /// The bytes of this message, immutable from here on.
    pub fn into_bytes(self, json: Result<String, String>) -> (r: Result<Bytes, WriteError>)
        requires
            writable(self@, result_text(json)),
        ensures
            match wire(self@, result_text(json)) {
                Ok(bytes) => r matches Ok(b) && held(b) == bytes,
                Err(fault) => r matches Err(e) && e@ == fault,
            },
    {
        match self.into_bytes_mut(json) {
            Ok(buf) => Ok(buf.freeze()),
            Err(e) => Err(e),
        }
    }
}

/// What the relay writes, it reads back: a message that both can write and read comes out as it
/// went in, from whatever peer it is said to come.
pub proof fn written_is_read(
    m: Said,
    source: NETID,
    json: Result<Seq<char>, Seq<char>>,
    now: Option<Duration>,
)
    requires
        m is Close || m is RelayPing || m is RelayAddPeer || m is RelayRemovePeer,
        source != NETID_RELAY,
        source != NETID_ALL,
    ensures
        wire(m, json) is Ok,
        read_message(
            Envelope {
                source,
                destination: NETID_RELAY,
                compressed: false,
                data: wire(m, json)->Ok_0,
            },
            now,
        ) == Ok::<Said, Stop>(m),
{
    let t = match m {
        Said::Close(_) => NetRelayMessageType::RELAY_MSG_CLOSE,
        Said::RelayPing(_) => NetRelayMessageType::RELAY_MSG_RELAY_PING,
        Said::RelayAddPeer(_) => NetRelayMessageType::RELAY_MSG_RELAY_ADD_PEER,
        _ => NetRelayMessageType::RELAY_MSG_RELAY_REMOVE_PEER,
    };
    let data = wire(m, json)->Ok_0;
    reveal_with_fuel(bound, 9);
    le_roundtrip((0x1000000 + t.number()) as nat, 4);
    assert(data.take(4) =~= header(t));
    let rest = data.skip(4);
    match m {
        Said::Close(code) => {
            le_roundtrip(code as nat, 4);
            assert(rest.take(4) =~= le_bytes(code as nat, 4));
        },
        Said::RelayPing(stamp) => {
            le_roundtrip(stamp.0 as nat, 8);
            le_roundtrip(stamp.1 as nat, 4);
            assert(rest.take(8) =~= le_bytes(stamp.0 as nat, 8));
            assert(rest.skip(8).take(4) =~= le_bytes(stamp.1 as nat, 4));
        },
        Said::RelayAddPeer(netid) => {
            le_roundtrip(netid as nat, 8);
            assert(rest.take(8) =~= le_bytes(netid as nat, 8));
        },
        Said::RelayRemovePeer(netid) => {
            le_roundtrip(netid as nat, 8);
            assert(rest.take(8) =~= le_bytes(netid as nat, 8));
        },
        _ => {},
    }
}

/// The answer to a ping: the time stamp that came with it.
pub open spec fn ping_response(stamp: Timestamp) -> Seq<u8> {
    header(NetRelayMessageType::RELAY_MSG_PEER_PING_RESPONSE) + le_bytes(stamp.0 as nat, 8)
        + le_bytes(stamp.1 as nat, 4)
}

/// A peer that sends back the time stamp of a ping tells the relay how long the ping and the
/// answer took together.
pub proof fn ping_measures_latency(sent: Duration, now: Duration, source: NETID)
    requires
        clock_range(sent@),
        sent@ <= now@,
        source != NETID_RELAY,
        source != NETID_ALL,
    ensures
        ({
            let stamp = stamp_at(Some(sent));
            let ping = wire(Said::RelayPing(stamp), Ok(Seq::empty()))->Ok_0;
            let answer = Envelope {
                source,
                destination: NETID_RELAY,
                compressed: false,
                data: ping_response(stamp),
            };
            &&& ping_response(stamp).skip(4) == ping.skip(4)
            &&& read_message(answer, Some(now)) == Ok::<Said, Stop>(
                Said::PeerPingResponse((now@ - sent@) as nat),
            )
        }),
{
    let stamp = stamp_at(Some(sent));
    let t = NetRelayMessageType::RELAY_MSG_PEER_PING_RESPONSE;
    let data = ping_response(stamp);
    let ping = wire(Said::RelayPing(stamp), Ok(Seq::empty()))->Ok_0;
    reveal_with_fuel(bound, 9);
    le_roundtrip((0x1000000 + t.number()) as nat, 4);
    le_roundtrip((0x1000000 + NetRelayMessageType::RELAY_MSG_RELAY_PING.number()) as nat, 4);
    le_roundtrip(stamp.0 as nat, 8);
    le_roundtrip(stamp.1 as nat, 4);
    assert(data.take(4) =~= header(t));
    let rest = data.skip(4);
    assert(rest =~= ping.skip(4));
    assert(rest.take(8) =~= le_bytes(stamp.0 as nat, 8));
    assert(rest.skip(8).take(4) =~= le_bytes(stamp.1 as nat, 4));
    assert(stamp.0 * 1_000_000_000 + stamp.1 == sent@);
}

/// The bytes of a text on the wire.
pub open spec fn string_wire(s: Seq<char>) -> Seq<u8> {
    le_bytes(encode_utf8(s).len(), 2) + encode_utf8(s)
}

/// A text of at most `max` bytes is read back, and what follows it is left.
pub proof fn string_is_read(s: Seq<char>, max: nat, rest: Seq<u8>)
    requires
        encode_utf8(s).len() <= min(max, 256),
    ensures
        string_at(string_wire(s) + rest, max) == (Reading { result: Ok::<_, Stop>(s), rest }),
{
    broadcast use vstd::utf8::encode_utf8_valid_utf8, vstd::utf8::encode_utf8_decode_utf8;

    let bytes = encode_utf8(s);
    let all = string_wire(s) + rest;
    reveal_with_fuel(bound, 3);
    le_roundtrip(bytes.len(), 2);
    assert(all.take(2) =~= le_bytes(bytes.len(), 2));
    assert(all.skip(2) =~= bytes + rest);
    assert((bytes + rest).take(bytes.len() as int) =~= bytes);
    assert((bytes + rest).skip(bytes.len() as int) =~= rest);
}

/// The bytes of pairs of texts on the wire.
pub open spec fn pairs_wire(pairs: Seq<(Seq<char>, Seq<char>)>) -> Seq<u8>
    decreases pairs.len(),
{
    if pairs.len() == 0 {
        Seq::empty()
    } else {
        string_wire(pairs[0].0) + string_wire(pairs[0].1) + pairs_wire(pairs.drop_first())
    }
}

/// Whether every key of `pairs` has at most `max_key` bytes, and every value at most `max_value`.
pub open spec fn pairs_within(
    pairs: Seq<(Seq<char>, Seq<char>)>,
    max_key: nat,
    max_value: nat,
) -> bool {
    forall|i: int|
        0 <= i < pairs.len() ==> encode_utf8((#[trigger] pairs[i]).0).len() <= min(max_key, 256)
            && encode_utf8(pairs[i].1).len() <= min(max_value, 256)
}

proof fn lemma_pair_read(
    k: Seq<char>,
    v: Seq<char>,
    n: nat,
    max_key: nat,
    max_value: nat,
    before: Seq<(Seq<char>, Seq<char>)>,
    rest: Seq<u8>,
)
    requires
        n > 0,
        encode_utf8(k).len() <= min(max_key, 256),
        encode_utf8(v).len() <= min(max_value, 256),
    ensures
        pairs_at(string_wire(k) + (string_wire(v) + rest), n, max_key, max_value, before)
            == pairs_at(rest, (n - 1) as nat, max_key, max_value, before.push((k, v))),
{
    let after_key = string_wire(v) + rest;
    string_is_read(k, max_key, after_key);
    string_is_read(v, max_value, rest);
    let all = string_wire(k) + after_key;
    assert(string_at(all, max_key).rest == after_key);
    assert(string_at(after_key, max_value).rest == rest);
}

#[verifier::spinoff_prover]
#[verifier::rlimit(40)]
proof fn lemma_pairs_read(
    pairs: Seq<(Seq<char>, Seq<char>)>,
    max_key: nat,
    max_value: nat,
    before: Seq<(Seq<char>, Seq<char>)>,
    rest: Seq<u8>,
)
    requires
        pairs_within(pairs, max_key, max_value),
    ensures
        pairs_at(pairs_wire(pairs) + rest, pairs.len(), max_key, max_value, before) == (Reading {
            result: Ok::<_, Stop>(before + pairs),
            rest,
        }),
    decreases pairs.len(),
{
    if pairs.len() > 0 {
        let tail = pairs.drop_first();
        assert(pairs_within(tail, max_key, max_value)) by {
            assert forall|i: int| 0 <= i < tail.len() implies encode_utf8(
                (#[trigger] tail[i]).0,
            ).len() <= min(max_key, 256) && encode_utf8(tail[i].1).len() <= min(max_value, 256) by {
                assert(tail[i] == pairs[i + 1]);
            }
        }
        let (k, v) = pairs[0];
        let after = pairs_wire(tail) + rest;
        assert(encode_utf8(pairs[0].0).len() <= min(max_key, 256));
        assert(pairs_wire(pairs) + rest =~= string_wire(k) + (string_wire(v) + after));
        lemma_pair_read(k, v, pairs.len(), max_key, max_value, before, after);
        lemma_pairs_read(tail, max_key, max_value, before.push((k, v)), rest);
        assert(before.push((k, v)) + tail =~= before + pairs);
    } else {
        assert(pairs_wire(pairs) + rest =~= rest);
        assert(before + pairs =~= before);
    }
}

/// Pairs of texts within their limits are read back as the map that they are, and what follows
/// them is left.
pub proof fn map_is_read(
    pairs: Seq<(Seq<char>, Seq<char>)>,
    max: nat,
    max_key: nat,
    max_value: nat,
    rest: Seq<u8>,
)
    requires
        pairs.len() <= min(max, 64),
        pairs_within(pairs, max_key, max_value),
    ensures
        map_at(
            le_bytes(pairs.len(), 2) + pairs_wire(pairs) + rest,
            max,
            max_key,
            max_value,
        ) == (Reading { result: Ok::<_, Stop>(map_of(pairs)), rest }),
{
    let all = le_bytes(pairs.len(), 2) + pairs_wire(pairs) + rest;
    reveal_with_fuel(bound, 3);
    le_roundtrip(pairs.len(), 2);
    assert(all.take(2) =~= le_bytes(pairs.len(), 2));
    assert(all.skip(2) =~= pairs_wire(pairs) + rest);
    lemma_pairs_read(pairs, max_key, max_value, Seq::empty(), rest);
    assert(Seq::empty() + pairs =~= pairs);
}

} // verus!
