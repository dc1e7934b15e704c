use game_relay::lobby::lobby_manager::RoomJoinInfo;
use game_relay::lobby::room_info::{ExtraData, LobbyHost, LobbyWithRooms, RoomInfo};
use game_relay::netconnection::netconnection::NetConnectionMessage;
use game_relay::relay::messages::{
    NetRelayMessage, NetRelayMessageError, NetRelayMessageType, Stop, WriteError,
};
use game_relay::utils::time::Duration;
use tokio_util::bytes::Bytes;

fn header(kind: u32) -> Vec<u8> {
    ((1u32 << 24) | kind).to_le_bytes().to_vec()
}

fn string(out: &mut Vec<u8>, s: &str) {
    out.extend_from_slice(&(s.len() as u16).to_le_bytes());
    out.extend_from_slice(s.as_bytes());
}

fn envelope(source: u64, data: Vec<u8>) -> NetConnectionMessage {
    NetConnectionMessage {
        source_netid: source,
        destination_netid: 2,
        compressed: false,
        data: Bytes::from(data),
    }
}

fn read(source: u64, data: Vec<u8>) -> Result<NetRelayMessage, Stop> {
    NetRelayMessage::read_at(envelope(source, data), Some(Duration::new(100, 0)))
}

fn refused(source: u64, data: Vec<u8>) -> NetRelayMessageError {
    match read(source, data) {
        Err(Stop::Refused(e)) => e,
        _ => panic!("not refused"),
    }
}

fn no_json() -> Result<String, String> {
    Ok(String::new())
}

#[test]
fn message_types() {
    assert_eq!(NetRelayMessageType::RELAY_MSG_PEER_BRIDGE_ROOM.code(), 0x10008);
    assert_eq!(NetRelayMessageType::RELAY_MSG_RELAY_LIST_LOBBY_HOSTS.code(), 0x20006);
    for n in [0u32, 1, 0x10000, 0x10005, 0x20000, 0x20006] {
        assert_eq!(NetRelayMessageType::from_u32(n).unwrap().code(), n);
    }
    for n in [2u32, 0xFFFF, 0x10009, 0x20007] {
        assert!(NetRelayMessageType::from_u32(n).is_none());
    }
}

#[test]
fn reads_a_close() {
    let mut data = header(1);
    data.extend_from_slice(&77u32.to_le_bytes());
    assert!(matches!(read(0, data), Ok(NetRelayMessage::Close(77))));
}

#[test]
fn reads_a_room() {
    let mut data = header(0x10002);
    string(&mut data, "chess");
    string(&mut data, "1.0");
    string(&mut data, "Caf\u{e9}");
    data.extend_from_slice(&[1, 0, 7]);
    data.extend_from_slice(&3u16.to_le_bytes());
    data.extend_from_slice(&8u16.to_le_bytes());
    data.extend_from_slice(&2u16.to_le_bytes());
    data.extend_from_slice(&3u16.to_le_bytes());
    for (k, v) in [("map", "a"), ("mode", "b"), ("map", "c")] {
        string(&mut data, k);
        string(&mut data, v);
    }
    let (info, topology) = match read(1, data.clone()) {
        Ok(NetRelayMessage::PeerSetupRoom { info, topology }) => (info, topology),
        _ => panic!("no room"),
    };
    assert_eq!(topology, 2);
    assert_eq!(info.room_id, 0);
    assert_eq!(info.game_type, "chess");
    assert_eq!(info.game_version, "1.0");
    assert_eq!(info.room_name, "Caf\u{e9}");
    assert!(info.room_password);
    assert!(!info.room_closed);
    assert!(info.game_started);
    assert_eq!((info.players_count, info.players_max, info.ping), (3, 8, 0));
    assert_eq!(info.extra_data.len(), 2);
    assert_eq!(info.extra_data.entry(0), (&"map".to_string(), &"c".to_string()));
    assert_eq!(info.extra_data.entry(1), (&"mode".to_string(), &"b".to_string()));
    // Only the host describes a room
    assert_eq!(refused(7, data), NetRelayMessageError::WrongSourceNETID(7));
}

#[test]
fn reads_requests() {
    let mut data = header(0x10001);
    string(&mut data, "g");
    string(&mut data, "v");
    data.extend_from_slice(&1u16.to_le_bytes());
    match read(0, data.clone()) {
        Ok(NetRelayMessage::PeerListLobbies { game_type, game_version, format }) => {
            assert_eq!((game_type.as_str(), game_version.as_str(), format), ("g", "v", 1));
        }
        _ => panic!("no list"),
    }
    data[0..4].copy_from_slice(&header(0x10007));
    assert!(matches!(read(0, data), Ok(NetRelayMessage::PeerListLobbyHosts { format: 1, .. })));

    let mut join = header(0x10003);
    string(&mut join, "g");
    string(&mut join, "v");
    join.extend_from_slice(&9u64.to_le_bytes());
    match read(0, join.clone()) {
        Ok(NetRelayMessage::PeerJoinRoom(RoomJoinInfo { room_id, .. })) => assert_eq!(room_id, 9),
        _ => panic!("no join"),
    }
    assert_eq!(refused(5, join), NetRelayMessageError::WrongSourceNETID(5));

    assert!(matches!(read(9, header(0x10004)), Ok(NetRelayMessage::PeerLeaveRoom)));
    let mut close = header(0x10006);
    close.extend_from_slice(&66u64.to_le_bytes());
    assert!(matches!(read(9, close), Ok(NetRelayMessage::PeerClosePeer(66))));
    let mut bridge = header(0x10008);
    bridge.extend_from_slice(&4u64.to_le_bytes());
    string(&mut bridge, "token");
    match read(9, bridge) {
        Ok(NetRelayMessage::PeerBridgeRoom { room_id, token }) => {
            assert_eq!((room_id, token.as_str()), (4, "token"));
        }
        _ => panic!("no bridge"),
    }
}

#[test]
fn reads_a_ping_response() {
    let mut data = header(0x10005);
    data.extend_from_slice(&98u64.to_le_bytes());
    data.extend_from_slice(&500_000_000u32.to_le_bytes());
    match read(9, data) {
        Ok(NetRelayMessage::PeerPingResponse(d)) => assert_eq!(d.as_millis(), 1500),
        _ => panic!("no ping"),
    }
}

#[test]
fn refuses_envelopes() {
    let mut msg = envelope(0, header(0x10004));
    msg.compressed = true;
    assert!(matches!(
        NetRelayMessage::from_message(msg),
        Err(NetRelayMessageError::UnsupportedFlag(1))
    ));
    let mut msg = envelope(0, header(0x10004));
    msg.destination_netid = 3;
    assert!(matches!(
        NetRelayMessage::from_message(msg),
        Err(NetRelayMessageError::WrongDestinationNETID(3))
    ));
    assert_eq!(refused(2, header(0x10004)), NetRelayMessageError::WrongSourceNETID(2));
    assert_eq!(refused(3, header(0x10004)), NetRelayMessageError::WrongSourceNETID(3));
    assert_eq!(refused(0, vec![4, 0, 1, 2]), NetRelayMessageError::WrongProtocol(2));
    assert_eq!(refused(0, vec![9, 9, 9, 1]), NetRelayMessageError::UnknownType(0x01090909));
    assert_eq!(refused(0, header(0x20001)), NetRelayMessageError::UnknownType(0x01020001));
}

#[test]
fn refuses_strings() {
    let long = |n: u16| {
        let mut data = header(0x10001);
        data.extend_from_slice(&n.to_le_bytes());
        data
    };
    assert_eq!(refused(0, long(33)), NetRelayMessageError::TooLongString(33));
    assert_eq!(refused(0, long(32)), NetRelayMessageError::MissingData);
    let mut bad = long(4);
    bad.extend_from_slice(&[b'a', 0xC3, 0xA9, 0xFF]);
    assert_eq!(refused(0, bad), NetRelayMessageError::NotUTF8String(3));
}

#[test]
fn strings_and_maps() {
    let mut bytes = Vec::new();
    string(&mut bytes, &"x".repeat(256));
    bytes.push(9);
    let mut data = Bytes::from(bytes);
    assert_eq!(NetRelayMessage::read_string(&mut data, u16::MAX).unwrap(), "x".repeat(256));
    assert_eq!(&data[..], &[9]);
    let mut data = Bytes::from(vec![1, 1]);
    assert_eq!(
        NetRelayMessage::read_string(&mut data, u16::MAX),
        Err(NetRelayMessageError::TooLongString(257))
    );

    let mut data = Bytes::from(vec![65, 0]);
    assert!(matches!(
        NetRelayMessage::read_map(&mut data, u16::MAX, 1, 1),
        Err(NetRelayMessageError::TooManyElements(65))
    ));
    let mut data = Bytes::from(vec![1, 0, 1, 0, b'k', 2, 0, b'v', b'w', 5]);
    let map = NetRelayMessage::read_map(&mut data, 1, 1, 2).unwrap();
    assert_eq!(map.entry(0), (&"k".to_string(), &"vw".to_string()));
    assert_eq!(&data[..], &[5]);
}

#[test]
fn short_messages() {
    for data in [vec![], vec![1, 0, 0], header(1), header(0x10003), header(0x10005)] {
        assert!(matches!(read(0, data.clone()), Err(Stop::Short)));
        assert!(!NetRelayMessage::is_complete(&envelope(0, data)));
    }
    assert!(NetRelayMessage::is_complete(&envelope(0, header(0x10004))));
    assert!(NetRelayMessage::is_complete(&envelope(0, vec![0, 0, 0, 0])));
}

#[test]
fn error_texts() {
    assert_eq!(NetRelayMessageError::WrongSourceNETID(7).to_text(), "WrongSourceNETID(7)");
    assert_eq!(NetRelayMessageError::MissingData.to_text(), "MissingData");
    assert_eq!(NetRelayMessageError::NotUTF8String(3).to_text(), "NotUTF8String(3)");
    assert_eq!(
        NetRelayMessageError::TooManyElements(3).to_text(),
        format!("{:?}", NetRelayMessageError::TooManyElements(3))
    );
}

#[test]
fn writes_and_reads_back() {
    let data = NetRelayMessage::Close(7).into_bytes(no_json()).unwrap();
    assert_eq!(&data[..], &[1, 0, 0, 1, 7, 0, 0, 0]);
    assert_eq!(&data[..], &NetRelayMessage::close_bytes(7)[..]);
    assert!(matches!(read(0, data.to_vec()), Ok(NetRelayMessage::Close(7))));

    let data = NetRelayMessage::RelayPing((0x0102, 3)).into_bytes(no_json()).unwrap();
    assert_eq!(&data[..], &[2, 0, 2, 1, 2, 1, 0, 0, 0, 0, 0, 0, 3, 0, 0, 0]);
    assert!(matches!(read(0, data.to_vec()), Ok(NetRelayMessage::RelayPing((0x0102, 3)))));

    let data = NetRelayMessage::RelayAddPeer(9).into_bytes(no_json()).unwrap();
    assert!(matches!(read(0, data.to_vec()), Ok(NetRelayMessage::RelayAddPeer(9))));
    let data = NetRelayMessage::RelayRemovePeer(9).into_bytes(no_json()).unwrap();
    assert!(matches!(read(0, data.to_vec()), Ok(NetRelayMessage::RelayRemovePeer(9))));
}

#[test]
fn writes_a_list_of_peers() {
    let data = NetRelayMessage::RelayListPeers(vec![1, 0x10000]).into_bytes(no_json()).unwrap();
    let mut expected = header(0x20003);
    expected.extend_from_slice(&2u32.to_le_bytes());
    expected.extend_from_slice(&1u64.to_le_bytes());
    expected.extend_from_slice(&0x10000u64.to_le_bytes());
    assert_eq!(&data[..], &expected[..]);
}

fn lobby() -> LobbyWithRooms {
    let mut extra_data = ExtraData::new();
    extra_data.insert("map".to_string(), "moon".to_string());
    LobbyWithRooms {
        host: LobbyHost { host_tcp: "t".to_string(), host_ws: "w".to_string() },
        rooms: vec![RoomInfo {
            room_id: 1,
            game_type: "g".to_string(),
            game_version: "v".to_string(),
            room_name: "n".to_string(),
            room_password: false,
            room_closed: true,
            game_started: false,
            players_count: 2,
            players_max: 3,
            ping: 40,
            extra_data,
        }],
    }
}

#[test]
fn writes_lobbies() {
    let msg = |format| NetRelayMessage::RelayListLobbies { lobbies: vec![lobby()], format };
    assert!(!msg(1).wants_json());
    assert!(msg(0).wants_json());
    assert!(msg(0).is_writable(&Ok("[]".to_string())));
    assert!(msg(0).is_writable(&Err("e".to_string())));
    assert!(msg(1).is_writable(&no_json()));
    let data = msg(1).into_bytes_mut(no_json()).unwrap();
    let text = "{1;{host={host_tcp=\"t\";host_ws=\"w\";};rooms={1;{room_id=1;game_type=\"g\";\
                game_version=\"v\";room_name=\"n\";room_password=false;room_closed=true;\
                game_started=false;players_count=2;players_max=3;ping=40;\
                extra_data={map=\"moon\";};}};}}";
    let mut expected = header(0x20001);
    expected.extend_from_slice(text.as_bytes());
    assert_eq!(&data[..], &expected[..]);

    let data = msg(0).into_bytes(Ok("[]".to_string())).unwrap();
    assert_eq!(&data[4..], b"[]");
    assert!(matches!(msg(0).into_bytes(Err("e".to_string())), Err(WriteError::Payload(_))));
}

#[test]
fn a_key_with_a_blank_spoils_the_list() {
    let mut spoiled = lobby();
    spoiled.rooms[0].extra_data.insert("a b".to_string(), "c".to_string());
    let msg = NetRelayMessage::RelayListLobbies { lobbies: vec![lobby(), spoiled], format: 1 };
    assert!(matches!(msg.into_bytes(no_json()), Err(WriteError::Payload(_))));
}

#[test]
fn writes_hosts() {
    let msg = NetRelayMessage::RelayListLobbyHosts { hosts: vec![lobby().host], format: 1 };
    let data = msg.into_bytes(no_json()).unwrap();
    assert_eq!(&data[..4], &header(0x20006)[..]);
    assert_eq!(&data[4..], b"{1;{host_tcp=\"t\";host_ws=\"w\";}}");
}

#[test]
fn does_not_write_what_peers_say() {
    let written = NetRelayMessage::PeerClosePeer(5).into_bytes(no_json());
    assert!(matches!(
        written,
        Err(WriteError::UnknownMessage(NetRelayMessage::PeerClosePeer(5)))
    ));
}
