use game_relay::lobby::lobby_manager::{Creation, Joining, LobbyManager, Relays, RoomJoinInfo};
use game_relay::lobby::room::{
    largest_ping, Channel, Collection, Room, RoomAction, RoomTopology, Stage,
};
use game_relay::lobby::room_info::{
    validator_room_extra_data, ExtraData, ExtraDataError, LobbyHost, RoomInfo,
};
use game_relay::netconnection::netconnection::{
    NetConnection, NetConnectionMessage, NetConnectionRead,
};
use game_relay::relay::messages::{NetRelayMessage, NetRelayMessageError};
use game_relay::relay::peer_relay::{
    PeerRelayCloseMode, PeerRelayMessage, PeerRelayOwnership, PeerRelayStatus, RelaySettings,
    RoomPolled,
};
use game_relay::relay::session_manager::{
    after_reply, judge_message, process_connection_reply, process_peer_connection, PeerStep,
    SessionAction, SessionManagerMessage, SessionManagerState, SessionPolled,
};
use game_relay::utils::time::Duration;
use std::collections::HashMap;
use tokio_util::bytes::Bytes;

type Conn = NetConnection<u8, u8>;

fn settings() -> RelaySettings {
    RelaySettings {
        update_interval: None,
        status_interval: None,
        ping_interval: None,
        ping_wait_time: None,
        channel_msgs_per_update: Some("2".to_string()),
        msgs_per_poll: None,
    }
}

fn conn() -> Conn {
    NetConnection::from_streams("c".to_string(), 0, 0)
}

fn info(game: &str) -> RoomInfo {
    RoomInfo {
        room_id: 0,
        game_type: game.to_string(),
        game_version: "1".to_string(),
        room_name: "room".to_string(),
        room_password: true,
        room_closed: false,
        game_started: false,
        players_count: 1,
        players_max: 4,
        ping: 0,
        extra_data: ExtraData::new(),
    }
}

fn join(room_id: u64, game: &str) -> RoomJoinInfo {
    RoomJoinInfo { game_type: game.to_string(), game_version: "1".to_string(), room_id }
}

#[test]
fn extra_data_is_checked() {
    let mut d = ExtraData::new();
    d.insert("k".repeat(64), "v".repeat(128));
    assert_eq!(validator_room_extra_data(&d), Ok(()));
    d.insert("a".to_string(), "v".repeat(129));
    let e = validator_room_extra_data(&d).unwrap_err();
    assert_eq!(e, ExtraDataError::ValueTooLong("a".to_string(), "v".repeat(129)));
    assert_eq!(e.message(), format!("extra_data[a] = {} value is too long", "v".repeat(129)));
    let mut d = ExtraData::new();
    d.insert("\u{e9}".repeat(33), "v".to_string());
    let e = validator_room_extra_data(&d).unwrap_err();
    assert_eq!(e.message(), format!("extra_data[{}] = v key is too long", "\u{e9}".repeat(33)));
    let mut d = ExtraData::new();
    for i in 0..65 {
        d.insert(format!("k{}", i), String::new());
    }
    assert_eq!(validator_room_extra_data(&d), Err(ExtraDataError::TooMany));
    assert_eq!(ExtraDataError::TooMany.message(), "Too many extra_data");
}

#[test]
fn extra_data_replaces() {
    let mut d = ExtraData::new();
    d.insert("a".to_string(), "1".to_string());
    d.insert("b".to_string(), "2".to_string());
    d.insert("a".to_string(), "3".to_string());
    assert_eq!(d.len(), 2);
    assert_eq!(d.entry(0), (&"a".to_string(), &"3".to_string()));
    assert_eq!(d.clone().entry(1), (&"b".to_string(), &"2".to_string()));
}

#[test]
fn a_room_is_redescribed() {
    let mut room = info("g");
    room.room_id = 5;
    room.ping = 30;
    let mut new = info("h");
    new.ping = 99;
    new.room_id = 7;
    room.update(new);
    assert_eq!((room.room_id, room.ping, room.game_type.as_str()), (5, 30, "h"));
    assert_eq!(
        room.to_text(),
        "RoomInfo { id: 5, name: room, players: 1/4, PW: true, ping: 30, game: h 1 }"
    );
}

#[test]
fn new_rooms() {
    let mut host = conn();
    host.set_netid(1);
    let (room, clients, server) = Room::new_server_client(host, info("g"), settings());
    assert_eq!((room.peers, room.client_netid_next, room.channel_msgs_per_update), (1, 0x10000, 2));
    assert_eq!(room.topology, RoomTopology::ServerClient);
    assert_eq!(clients.close_mode, PeerRelayCloseMode::NoSinks);
    assert_eq!(clients.ownership, PeerRelayOwnership::Peer(1));
    assert!(clients.peers.is_empty() && clients.sinks.contains_key(&1));
    assert!(clients.config.status_timer.duration.is_zero());
    assert_eq!(server.close_mode, PeerRelayCloseMode::NoPeers);
    assert!(server.peers.contains_key(&1) && server.sinks.is_empty());
    assert_eq!(room.channels(), vec![Channel::Server, Channel::Clients]);

    let mut first = conn();
    first.set_netid(1);
    let (room, relay) = Room::new_peer_to_peer(first, info("g"), settings());
    assert_eq!(room.topology, RoomTopology::PeerToPeer);
    assert_eq!(relay.ownership, PeerRelayOwnership::Nobody);
    assert!(relay.peers.contains_key(&1) && relay.sinks.contains_key(&1));
    assert_eq!(room.channels(), vec![Channel::Relay]);
    assert!(room.is_active(false));
    assert!(!room.is_active(true));
    assert!(room.to_text().ends_with(", Peers: 1 }"));
}

#[test]
fn connections_enter_rooms() {
    let (mut room, _, _) = Room::new_server_client(conn(), info("g"), settings());
    let a = room.add_connection(conn(), false).ok().unwrap();
    assert_eq!((a.conn.get_netid(), a.sink.netid), (0x10000, 0x10000));
    assert_eq!((a.sink_to, a.conn_to), (Channel::Server, Channel::Clients));
    let b = room.add_connection(conn(), false).ok().unwrap();
    assert_eq!(b.conn.get_netid(), 0x10001);
    assert!(room.add_connection(conn(), true).is_err());
    assert_eq!(room.client_netid_next, 0x10002);
    let (mut room, _) = Room::new_peer_to_peer(conn(), info("g"), settings());
    let c = room.add_connection(conn(), false).ok().unwrap();
    assert_eq!((c.sink_to, c.conn_to), (Channel::Relay, Channel::Relay));
}

fn status() -> RoomPolled<u8, u8> {
    RoomPolled::Message(PeerRelayMessage::UpdateStatus(PeerRelayStatus::new()))
}

#[test]
fn updates_of_a_room_collect() {
    let (room, _) = Room::new_peer_to_peer(conn(), info("g"), settings());
    let mut c: Collection<u8, u8> = room.begin_update(true);
    assert_eq!(c.stage, Stage::Done);
    c = room.begin_update(false);
    room.collect(&mut c, status());
    assert_eq!(c.stage, Stage::Relay);
    room.collect(&mut c, status());
    assert_eq!((c.stage, c.messages.len()), (Stage::Done, 2));
    let mut c: Collection<u8, u8> = room.begin_update(false);
    room.collect(&mut c, RoomPolled::Empty);
    assert_eq!(c.stage, Stage::Done);

    let (room, _, _) = Room::new_server_client(conn(), info("g"), settings());
    let mut c: Collection<u8, u8> = room.begin_update(false);
    assert_eq!(c.stage, Stage::Server);
    room.collect(&mut c, RoomPolled::Empty);
    assert_eq!(c.stage, Stage::Clients { server_empty: true });
    room.collect(&mut c, status());
    assert_eq!((c.stage, c.rounds), (Stage::Server, 1));
    room.collect(&mut c, status());
    room.collect(&mut c, RoomPolled::Empty);
    assert_eq!((c.stage, c.messages.len()), (Stage::Done, 2));
    let mut c: Collection<u8, u8> = room.begin_update(false);
    room.collect(&mut c, status());
    room.collect(&mut c, RoomPolled::Disconnected);
    assert_eq!((c.stage, c.messages.len()), (Stage::Lost, 0));
    let mut c: Collection<u8, u8> = room.begin_update(false);
    room.collect(&mut c, RoomPolled::Empty);
    room.collect(&mut c, RoomPolled::Empty);
    assert_eq!((c.stage, c.rounds), (Stage::Done, 0));
}

#[test]
fn updates_of_a_room_keep_to_the_limit() {
    let limited = |limit: &str| {
        let mut read = settings();
        read.channel_msgs_per_update = Some(limit.to_string());
        read
    };
    for (limit, most) in [("0", 0), ("1", 1), ("2", 2), ("3", 3), ("4", 4)] {
        let (room, _, _) = Room::new_server_client(conn(), info("g"), limited(limit));
        let mut c: Collection<u8, u8> = room.begin_update(false);
        while c.stage != Stage::Done {
            room.collect(&mut c, status());
        }
        assert_eq!(c.messages.len(), most);
        let (room, _) = Room::new_peer_to_peer(conn(), info("g"), limited(limit));
        let mut c: Collection<u8, u8> = room.begin_update(false);
        while c.stage != Stage::Done {
            room.collect(&mut c, status());
        }
        assert_eq!(c.messages.len(), most);
    }
}

#[test]
fn reports_of_relays() {
    let mut pings = HashMap::new();
    assert_eq!(largest_ping(&pings), 0);
    pings.insert(1, 30);
    pings.insert(2, 80);
    let report = |info| PeerRelayStatus { peers: 2, sinks: 3, pings: pings.clone(), info };
    let (mut room, _, _) = Room::new_server_client(conn(), info("g"), settings());
    let action = room.process_message::<u8, u8>(PeerRelayMessage::UpdateStatus(report(None)));
    assert!(matches!(action, RoomAction::Nothing));
    assert_eq!((room.peers, room.info.ping, room.info.game_type.as_str()), (5, 80, "g"));
    let (mut room, _) = Room::new_peer_to_peer(conn(), info("g"), settings());
    room.process_message::<u8, u8>(PeerRelayMessage::UpdateStatus(report(Some(info("h")))));
    assert_eq!((room.peers, room.info.ping, room.info.game_type.as_str()), (2, 80, "h"));
}

#[test]
fn requests_of_relays() {
    let (mut room, _, _) = Room::new_server_client(conn(), info("g"), settings());
    let mut leaving = conn();
    leaving.set_netid(7);
    assert!(matches!(
        room.process_message(PeerRelayMessage::StoreConnection(leaving)),
        RoomAction::Leave { remove_sink: Some(7), .. }
    ));
    assert!(matches!(
        room.process_message::<u8, u8>(PeerRelayMessage::RemoveConnection(5)),
        RoomAction::Remove(5)
    ));
    assert!(matches!(
        room.process_message::<u8, u8>(PeerRelayMessage::RemoveSink(5)),
        RoomAction::Unexpected(PeerRelayMessage::RemoveSink(5))
    ));
    let (mut room, _) = Room::new_peer_to_peer(conn(), info("g"), settings());
    assert!(matches!(
        room.process_message(PeerRelayMessage::StoreConnection(conn())),
        RoomAction::Leave { remove_sink: None, .. }
    ));
    assert!(matches!(
        room.process_message(PeerRelayMessage::ReturnConnection(conn(), 7)),
        RoomAction::Leave { remove_sink: None, .. }
    ));
    assert!(matches!(
        room.process_message::<u8, u8>(PeerRelayMessage::RemoveConnection(5)),
        RoomAction::Nothing
    ));
}

#[test]
fn leaving_a_room_with_two_relays() {
    let mut host = conn();
    host.set_netid(1);
    let mut client = conn();
    client.set_netid(7);
    let (mut room, mut clients, mut server) =
        Room::new_server_client(host, info("g"), settings());
    server.handle_store_sink(client.clone_sink());
    assert!(clients.handle_store_connection(client).is_ok());
    let to_all = || NetConnectionMessage {
        source_netid: 1,
        destination_netid: 3,
        compressed: false,
        data: Bytes::from_static(b"x"),
    };
    assert_eq!(server.route(to_all(), &vec![]).len(), 1);

    let out = clients.handle_peer_message(7, NetRelayMessage::PeerLeaveRoom, &vec![]);
    match room.process_message(out.to_room.unwrap()) {
        RoomAction::Leave { conn, remove_sink: Some(netid) } => {
            assert_eq!((conn.get_netid(), netid), (0, 7));
            server.process_message(PeerRelayMessage::RemoveSink(netid), &vec![]);
        }
        _ => panic!("did not leave"),
    }
    assert!(server.route(to_all(), &vec![]).is_empty());
}

fn create(m: &mut LobbyManager, game: &str, topology: u16) -> u64 {
    match m.connection_create_room(conn(), info(game), topology, settings()) {
        Creation::Created { room_id, replaced: None, .. } => room_id,
        _ => panic!("no room"),
    }
}

#[test]
fn creating_rooms() {
    let mut m = LobbyManager::new();
    let mut taken = info("g");
    taken.room_id = 4;
    assert!(matches!(
        m.connection_create_room(conn(), taken, 1, settings()),
        Creation::Refused(_, 2)
    ));
    for topology in [0, 3] {
        assert!(matches!(
            m.connection_create_room(conn(), info("g"), topology, settings()),
            Creation::Refused(_, 3)
        ));
    }
    match m.connection_create_room(conn(), info("g"), 1, settings()) {
        Creation::Created { room_id: 1, relays: Relays::ServerClient { server, .. }, .. } => {
            assert_eq!(server.config.room_id, 1);
            assert!(server.peers.contains_key(&1));
        }
        _ => panic!("no room"),
    }
    match m.connection_create_room(conn(), info("g"), 2, settings()) {
        Creation::Created { room_id: 2, relays: Relays::PeerToPeer(relay), .. } => {
            assert_eq!(relay.peers.get(&1).unwrap().get_netid(), 1);
        }
        _ => panic!("no room"),
    }
    assert_eq!(m.rooms.get(&2).unwrap().info.room_id, 2);
    m.room_next_id = u64::MAX;
    assert_eq!(create(&mut m, "g", 1), u64::MAX);
    assert_eq!(m.room_next_id, 0);
}

#[test]
fn joining_rooms() {
    let mut m = LobbyManager::new();
    let id = create(&mut m, "g", 1);
    assert!(matches!(
        m.connection_join_room(conn(), join(9, "g"), false),
        Joining::Refused(_, 2)
    ));
    assert!(matches!(
        m.connection_join_room(conn(), join(id, "h"), false),
        Joining::Refused(_, 3)
    ));
    match m.connection_join_room(conn(), join(id, "g"), false) {
        Joining::Joined(a) => assert_eq!(a.conn.get_netid(), 0x10000),
        _ => panic!("not joined"),
    }
    assert!(matches!(m.connection_join_room(conn(), join(id, "g"), true), Joining::Dropped(_)));
    m.rooms.get_mut(&id).unwrap().info.room_closed = true;
    assert!(matches!(
        m.connection_join_room(conn(), join(id, "g"), false),
        Joining::Refused(_, 4)
    ));
    assert_eq!(join(3, "g").to_text(), "RoomJoinInfo { Id: 3 Game: g 1 }");
}

#[test]
fn listing_and_dropping_rooms() {
    let mut m = LobbyManager::new();
    for game in ["g", "h", "g"] {
        create(&mut m, game, 2);
    }
    let mut infos = m.refresh_room_infos();
    infos.sort_by_key(|i| i.room_id);
    assert_eq!(infos.iter().map(|i| i.room_id).collect::<Vec<_>>(), vec![1, 2, 3]);
    let ids = |game: &str| {
        LobbyManager::filter_room_by_game_type(&infos, &game.to_string())
            .iter()
            .map(|i| i.room_id)
            .collect::<Vec<_>>()
    };
    assert_eq!(ids("g"), vec![1, 3]);
    assert_eq!(ids(""), vec![1, 2, 3]);
    assert!(ids("x").is_empty());
    let status = PeerRelayStatus { peers: 0, sinks: 0, pings: HashMap::new(), info: None };
    assert!(matches!(
        m.update_room::<u8, u8>(2, PeerRelayMessage::UpdateStatus(status)),
        Some(RoomAction::Nothing)
    ));
    assert!(m.update_room::<u8, u8>(9, PeerRelayMessage::RemoveSink(1)).is_none());
    let mut gone = m.retain_active(&vec![3]);
    gone.sort();
    assert_eq!(gone, vec![2, 3]);
    assert!(m.rooms.contains_key(&1) && m.rooms.len() == 1);
}

#[test]
fn the_queue_of_the_session_manager() {
    let mut s: SessionManagerState<u8, u8> = SessionManagerState::new(None, Some("7".to_string()));
    assert_eq!((s.poll_interval, s.peer_timeout, s.running), (10, 7, true));
    let mut c = conn();
    c.set_netid(9);
    let now = Some(Duration::new(10, 0));
    let store = SessionPolled::Message(SessionManagerMessage::StoreConnection(c));
    assert!(matches!(s.process_queue(store, now), SessionAction::Nothing));
    let peers = s.poll_peers();
    assert_eq!((peers.len(), peers[0].get_netid(), s.peers.len()), (1, 0, 0));
    match s.process_queue(SessionPolled::Message(SessionManagerMessage::Ping((9, 0))), now) {
        SessionAction::Pinged(d) => assert_eq!(d.as_millis(), 1000),
        _ => panic!("no ping"),
    }
    let mut transfer = |msg| {
        let m = SessionManagerMessage::TransferConnection(conn(), msg);
        s.process_queue(SessionPolled::Message(m), now)
    };
    let setup = NetRelayMessage::PeerSetupRoom { info: info("g"), topology: 2 };
    assert!(matches!(transfer(setup), SessionAction::CreateRoom { topology: 2, .. }));
    assert!(matches!(
        transfer(NetRelayMessage::PeerJoinRoom(join(4, "g"))),
        SessionAction::JoinRoom { .. }
    ));
    assert!(matches!(
        transfer(NetRelayMessage::PeerLeaveRoom),
        SessionAction::Close(_, 175738375)
    ));
    let reply = SessionManagerMessage::ReplyConnection(conn(), NetRelayMessage::PeerLeaveRoom);
    assert!(matches!(
        s.process_queue(SessionPolled::Message(reply), now),
        SessionAction::Reply(_, _)
    ));
    s.process_queue(SessionPolled::Empty, now);
    assert!(s.running);
    s.process_queue(SessionPolled::Disconnected, now);
    assert!(!s.running);
}

#[test]
fn what_peers_ask_for() {
    let list = || NetRelayMessage::PeerListLobbies {
        game_type: "g".to_string(),
        game_version: "1".to_string(),
        format: 1,
    };
    assert!(matches!(
        judge_message(conn(), Ok(list()), false),
        PeerStep::Queue(SessionManagerMessage::ReplyConnection(_, _))
    ));
    assert!(matches!(judge_message(conn(), Ok(list()), true), PeerStep::Drop(_)));
    assert!(matches!(
        judge_message(conn(), Err(NetRelayMessageError::MissingData), true),
        PeerStep::Close(_, 1948466945)
    ));
    assert!(matches!(
        judge_message(conn(), Ok(NetRelayMessage::PeerJoinRoom(join(1, "g"))), false),
        PeerStep::Queue(SessionManagerMessage::TransferConnection(_, _))
    ));
    assert!(matches!(
        judge_message(conn(), Ok(NetRelayMessage::Close(1)), false),
        PeerStep::Drop(_)
    ));
    assert!(matches!(
        process_peer_connection(5000, conn(), NetConnectionRead::Empty),
        PeerStep::Queue(SessionManagerMessage::StoreConnection(_))
    ));
    assert!(matches!(
        process_peer_connection(5000, conn(), NetConnectionRead::Closed),
        PeerStep::Drop(_)
    ));
    let leave = NetConnectionMessage {
        source_netid: 0,
        destination_netid: 2,
        compressed: false,
        data: Bytes::from_static(&[4, 0, 1, 9]),
    };
    assert!(matches!(
        process_peer_connection(5000, conn(), NetConnectionRead::Data(leave)),
        PeerStep::Close(_, 1948466945)
    ));
    assert!(matches!(
        after_reply(conn(), true),
        PeerStep::Queue(SessionManagerMessage::StoreConnection(_))
    ));
    assert!(matches!(after_reply(conn(), false), PeerStep::Drop(_)));
}

#[test]
fn replies() {
    let infos = vec![info("g"), info("h")];
    let host = LobbyHost { host_tcp: "t".to_string(), host_ws: "w".to_string() };
    let list = NetRelayMessage::PeerListLobbies {
        game_type: "h".to_string(),
        game_version: String::new(),
        format: 4,
    };
    match process_connection_reply(list, &infos, &host) {
        Ok(NetRelayMessage::RelayListLobbies { lobbies, format }) => {
            assert_eq!((lobbies.len(), lobbies[0].rooms.len(), format), (1, 1, 4));
            assert_eq!(lobbies[0].host.host_ws, "w");
            assert_eq!(lobbies[0].rooms[0].game_type, "h");
        }
        _ => panic!("no list"),
    }
    assert!(matches!(
        process_connection_reply(NetRelayMessage::PeerLeaveRoom, &infos, &host),
        Err(1593483496)
    ));
}
