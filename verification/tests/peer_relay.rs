use game_relay::lobby::room_info::{ExtraData, RoomInfo};
use game_relay::netconnection::netconnection::{
    NetConnection, NetConnectionMessage, NetConnectionRead,
};
use game_relay::relay::messages::NetRelayMessage;
use game_relay::relay::peer_relay::{
    refusal, sort_messages, sort_read, PeerRelay, PeerRelayCloseMode, PeerRelayConfig,
    PeerRelayMessage, PeerRelayOwnership, PeerRelayStatus, QueueOutcome, QueueStep, RelaySettings,
    RoomPolled,
};
use game_relay::utils::time::Duration;
use std::collections::HashMap;
use tokio_util::bytes::Bytes;

type Conn = NetConnection<u8, u8>;

fn settings() -> RelaySettings {
    RelaySettings {
        update_interval: None,
        status_interval: None,
        ping_interval: None,
        ping_wait_time: None,
        channel_msgs_per_update: None,
        msgs_per_poll: None,
    }
}

fn conn(netid: u64) -> Conn {
    let mut c = NetConnection::from_streams(format!("c{}", netid), 0, 0);
    c.set_netid(netid);
    c
}

fn relay(ownership: PeerRelayOwnership, peers: &[u64], sinks: &[u64]) -> PeerRelay<u8, u8> {
    PeerRelay::new(
        PeerRelayConfig::new(8, settings()),
        PeerRelayCloseMode::NoPeers,
        ownership,
        peers.iter().map(|n| conn(*n)).collect(),
        sinks.iter().map(|n| conn(*n).clone_sink()).collect(),
    )
}

fn sorted(mut v: Vec<u64>) -> Vec<u64> {
    v.sort();
    v
}

fn keys<V>(m: &HashMap<u64, V>) -> Vec<u64> {
    sorted(m.keys().copied().collect())
}

fn message(source: u64, destination: u64) -> NetConnectionMessage {
    NetConnectionMessage {
        source_netid: source,
        destination_netid: destination,
        compressed: true,
        data: Bytes::from_static(b"x"),
    }
}

fn info(name: &str) -> RoomInfo {
    RoomInfo {
        room_id: 0,
        game_type: "g".to_string(),
        game_version: "v".to_string(),
        room_name: name.to_string(),
        room_password: false,
        room_closed: false,
        game_started: false,
        players_count: 1,
        players_max: 2,
        ping: 0,
        extra_data: ExtraData::new(),
    }
}

#[test]
fn relay_config() {
    let c = PeerRelayConfig::new(3, settings());
    assert_eq!(c.room_id, 3);
    assert_eq!(c.update_interval.as_millis(), 10);
    assert_eq!(c.status_timer.duration.as_millis(), 1000);
    assert_eq!(c.ping_timer.duration.as_millis(), 3000);
    assert_eq!(c.ping_wait_time.as_millis(), 4000);
    assert_eq!((c.channel_msgs_per_update, c.msgs_per_poll), (10, 10));
    let mut read = settings();
    read.ping_interval = Some("50".to_string());
    read.msgs_per_poll = Some("x".to_string());
    read.channel_msgs_per_update = Some("+7".to_string());
    let c = PeerRelayConfig::new(3, read);
    assert_eq!(c.ping_wait_time.as_millis(), 1050);
    assert_eq!((c.channel_msgs_per_update, c.msgs_per_poll), (7, 10));
}

#[test]
fn storing_connections_and_sinks() {
    let mut r = relay(PeerRelayOwnership::Nobody, &[1], &[7, 8]);
    match r.handle_store_connection(conn(5)) {
        Ok(NetRelayMessage::RelayListPeers(ids)) => assert_eq!(sorted(ids), vec![7, 8]),
        _ => panic!("not stored"),
    }
    assert!(r.handle_store_connection(conn(5)).is_err());
    assert_eq!(keys(&r.peers), vec![1, 5]);
    assert_eq!(sorted(r.handle_store_sink(conn(9).clone_sink()).unwrap()), vec![1, 5]);
    assert!(r.handle_store_sink(conn(9).clone_sink()).is_none());
    assert_eq!(r.handle_remove_sink(9, &vec![1]), Some(vec![5]));
    assert!(r.handle_remove_sink(9, &vec![]).is_none());
    assert_eq!(r.handle_remove_connection(5).unwrap().get_netid(), 5);
    assert!(r.handle_remove_connection(5).is_none());
    assert_eq!(
        r.to_text(),
        "PeerRelay { Room: 8, Peers/Sinks: 1/2, Ownership: None, Close: NoPeers }"
    );
}

#[test]
fn relay_status_and_closing() {
    let mut r = relay(PeerRelayOwnership::Peer(1), &[1, 2], &[3]);
    r.status.pings.insert(1, 30);
    r.status.pings.insert(9, 80);
    r.status.pings.insert(3, 50);
    let s = r.update_status();
    // Neither 9 nor 3 is a peer
    assert_eq!((s.peers, s.sinks, keys(&s.pings), s.pings[&1]), (2, 1, vec![1], 30));
    assert_eq!(keys(&r.status.pings), vec![1]);
    assert!(r.check_close_state(false).is_none());
    let closing = r.close();
    assert_eq!(closing.code, 971382753);
    assert_eq!(keys(&closing.peers), vec![1, 2]);
    assert!(r.peers.is_empty() && r.sinks.is_empty() && r.status.pings.is_empty());
    assert!(r.check_close_state(true).is_none());
    assert!(r.check_close_state(false).is_some());
    assert_eq!(
        r.to_text(),
        "PeerRelay { Room: 8, Peers/Sinks: 0/0, Ownership: Peer(1), Close: NoPeers }"
    );
    assert_eq!(PeerRelayOwnership::All.to_text(), "All");
    assert_eq!(PeerRelayCloseMode::NoSinks.to_text(), "NoSinks");
}

#[test]
fn pinging_peers() {
    let r = relay(PeerRelayOwnership::Nobody, &[1, 2], &[]);
    let mut seen = HashMap::new();
    seen.insert(1, Duration::from_millis(4000));
    seen.insert(2, Duration::from_millis(4001));
    assert_eq!(r.overdue_for_ping(&seen), vec![2]);
    assert_eq!(keys(&r.contacts()), vec![1, 2]);
    assert!(r.ping_peers().is_empty());
}

#[test]
fn pruning() {
    let mut r = relay(PeerRelayOwnership::Nobody, &[1, 2, 3], &[1, 2, 4]);
    r.prune_connections(&vec![2, 9, 2]);
    assert_eq!(keys(&r.peers), vec![1, 3]);
    let (gone, notify) = r.prune_sinks(&vec![4, 9, 4], &vec![3]);
    assert_eq!(gone, vec![4]);
    assert_eq!(notify, vec![1]);
    assert_eq!(keys(&r.sinks), vec![1, 2]);
}

#[test]
fn refused_peers() {
    for netid in [0, 2, 3] {
        assert_eq!(refusal(&conn(netid), Duration::zero()), Some(936585274));
    }
    let mut c = conn(1);
    assert_eq!(refusal(&c, Duration::from_millis(99)), None);
    c.stream_mut().set_timeout(Duration::from_millis(98));
    assert_eq!(refusal(&c, Duration::from_millis(99)), Some(917347483));
    assert_eq!(refusal(&c, Duration::from_millis(98)), None);
}

#[test]
fn sorting_messages() {
    let msgs = vec![
        message(5, 2),
        message(6, 2),
        message(5, 5),
        message(5, 0),
        message(5, 3),
        message(5, 1),
    ];
    let mut relay_msgs = vec![message(9, 2)];
    let mut peers_msgs = vec![];
    let codes = sort_messages(5, msgs, &mut relay_msgs, &mut peers_msgs);
    assert_eq!(codes, vec![98364723, 98748384, 98275737]);
    assert_eq!(relay_msgs.iter().map(|m| m.source_netid).collect::<Vec<_>>(), vec![9, 5]);
    assert_eq!(peers_msgs.iter().map(|m| m.destination_netid).collect::<Vec<_>>(), vec![3, 1]);
    assert!(sort_read(5, NetConnectionRead::Empty, &mut relay_msgs, &mut peers_msgs).is_empty());
    let read = NetConnectionRead::Data(vec![message(5, 9)]);
    assert!(sort_read(5, read, &mut relay_msgs, &mut peers_msgs).is_empty());
    assert_eq!((relay_msgs.len(), peers_msgs.len()), (2, 3));
}

#[test]
fn routing_messages() {
    let r = relay(PeerRelayOwnership::Nobody, &[1], &[5, 6]);
    let mut all = r.route(message(1, 3), &vec![5]);
    all.sort_by_key(|d| d.0);
    assert_eq!(all.len(), 2);
    for (d, netid) in all.iter().zip([5, 6]) {
        assert_eq!(d.0, netid);
        assert_eq!((d.1.source_netid, d.1.destination_netid), (1, netid));
        assert!(d.1.compressed);
        assert_eq!(&d.1.data[..], b"x");
    }
    let one = r.route(message(1, 6), &vec![5]);
    assert_eq!((one.len(), one[0].0, one[0].1.destination_netid), (1, 6, 6));
    assert!(r.route(message(1, 5), &vec![5]).is_empty());
    assert!(r.route(message(1, 77), &vec![]).is_empty());
    assert_eq!(r.flushes(&vec![5]), vec![6]);
}

#[test]
fn closing_and_leaving() {
    let mut r = relay(PeerRelayOwnership::Nobody, &[5, 6, 7], &[5, 6]);
    let out = r.handle_peer_message(5, NetRelayMessage::Close(1), &vec![7]);
    assert_eq!(out.close, Some((5, 972534431)));
    assert_eq!(out.removed, Some(vec![6]));
    assert_eq!(keys(&r.peers), vec![5, 6, 7]);
    assert_eq!(keys(&r.sinks), vec![6]);

    let out = r.handle_peer_message(6, NetRelayMessage::PeerLeaveRoom, &vec![7]);
    match out.to_room {
        Some(PeerRelayMessage::ReturnConnection(c, 6)) => assert_eq!(c.get_netid(), 0),
        _ => panic!("not returned"),
    }
    assert_eq!(out.removed, Some(vec![5]));
    assert_eq!(keys(&r.peers), vec![5, 7]);
    assert!(r.sinks.is_empty());

    let out = r.handle_peer_message(6, NetRelayMessage::PeerLeaveRoom, &vec![]);
    assert!(out.to_room.is_none() && out.removed.is_none() && out.close.is_none());
}

#[test]
fn rights_of_the_owner() {
    let mut r = relay(PeerRelayOwnership::Peer(1), &[1, 5], &[]);
    let setup = |name| NetRelayMessage::PeerSetupRoom { info: info(name), topology: 1 };
    r.handle_peer_message(5, setup("theirs"), &vec![]);
    assert!(r.status.info.is_none());
    r.handle_peer_message(1, setup("mine"), &vec![]);
    assert_eq!(r.status.info.as_ref().unwrap().room_name, "mine");
    let close = |r: &mut PeerRelay<u8, u8>, source, netid| {
        r.handle_peer_message(source, NetRelayMessage::PeerClosePeer(netid), &vec![]).close
    };
    assert_eq!(close(&mut r, 5, 1), None);
    assert_eq!(close(&mut r, 1, 9), None);
    assert_eq!(close(&mut r, 1, 5), Some((5, 978367384)));
    r.ownership = PeerRelayOwnership::All;
    assert!(r.has_permission(5));
}

#[test]
fn pings_are_kept() {
    let mut r = relay(PeerRelayOwnership::Nobody, &[5], &[]);
    let ping = |ms| NetRelayMessage::PeerPingResponse(Duration::from_millis(ms));
    r.handle_peer_message(5, ping(42), &vec![]);
    r.handle_peer_message(6, ping(43), &vec![]);
    assert_eq!(r.status.pings.get(&5), Some(&42));
    assert_eq!(r.status.pings.get(&6), None);
    r.handle_peer_message(5, ping(0x1_0000_0003), &vec![]);
    assert_eq!(r.status.pings.get(&5), Some(&3));
    assert_eq!(keys(&r.peers), vec![5]);
}

#[test]
fn messages_to_the_relay() {
    let mut r = relay(PeerRelayOwnership::Nobody, &[5], &[5]);
    let mut leave = message(5, 2);
    leave.compressed = false;
    leave.data = Bytes::from_static(&[4, 0, 1, 1]);
    // A message that is compressed cannot be read
    let out = r.handle_relay_message(message(5, 2), &vec![]);
    assert!(out.to_room.is_none());
    assert_eq!(keys(&r.peers), vec![5]);
    let out = r.handle_relay_message(leave, &vec![]);
    assert!(matches!(out.to_room, Some(PeerRelayMessage::ReturnConnection(_, 5))));
    assert!(r.peers.is_empty());
}

#[test]
fn messages_of_the_room() {
    let mut r = relay(PeerRelayOwnership::Nobody, &[1], &[]);
    let step = |r: &mut PeerRelay<u8, u8>, m| {
        match r.process_queue(RoomPolled::Message(m), &vec![]) {
            QueueStep::Did(out) => out,
            _ => panic!("not done"),
        }
    };
    match step(&mut r, PeerRelayMessage::StoreSink(conn(9).clone_sink())) {
        QueueOutcome::Announce(9, notify) => assert_eq!(notify, vec![1]),
        _ => panic!("not announced"),
    }
    match step(&mut r, PeerRelayMessage::StoreConnection(conn(9))) {
        QueueOutcome::Tell(9, NetRelayMessage::RelayListPeers(ids)) => assert_eq!(ids, vec![9]),
        _ => panic!("not told"),
    }
    assert!(matches!(
        step(&mut r, PeerRelayMessage::StoreConnection(conn(9))),
        QueueOutcome::Refuse(_)
    ));
    assert!(matches!(
        step(&mut r, PeerRelayMessage::StoreSink(conn(9).clone_sink())),
        QueueOutcome::Nothing
    ));
    match step(&mut r, PeerRelayMessage::RemoveSink(9)) {
        QueueOutcome::Withdraw(9, notify) => assert_eq!(sorted(notify), vec![1, 9]),
        _ => panic!("not withdrawn"),
    }
    assert!(matches!(step(&mut r, PeerRelayMessage::RemoveConnection(9)), QueueOutcome::Drop(_)));
    assert!(matches!(step(&mut r, PeerRelayMessage::RemoveConnection(9)), QueueOutcome::Nothing));
    step(&mut r, PeerRelayMessage::SetOwnership(PeerRelayOwnership::Peer(1)));
    assert_eq!(r.ownership, PeerRelayOwnership::Peer(1));
    assert!(matches!(
        step(&mut r, PeerRelayMessage::UpdateStatus(PeerRelayStatus::new())),
        QueueOutcome::Unexpected
    ));
    assert!(matches!(
        step(&mut r, PeerRelayMessage::ReturnConnection(conn(7), 7)),
        QueueOutcome::Unexpected
    ));
    assert!(matches!(r.process_queue(RoomPolled::Empty, &vec![]), QueueStep::Stop));
    match r.process_queue(RoomPolled::Disconnected, &vec![]) {
        QueueStep::Close(closing) => assert_eq!(keys(&closing.peers), vec![1]),
        _ => panic!("not closed"),
    }
    assert!(r.peers.is_empty());
}

#[test]
fn turns_keep_to_the_limit() {
    for limit in [0, 1, 3] {
        let mut r = relay(PeerRelayOwnership::Nobody, &[1], &[]);
        r.config.channel_msgs_per_update = limit;
        let mut turn = r.begin_turn();
        let mut taken = 0;
        while turn.look() {
            let msg = PeerRelayMessage::SetOwnership(PeerRelayOwnership::All);
            let step = r.process_queue(RoomPolled::Message(msg), &vec![]);
            turn.follow(&step);
            taken += 1;
        }
        assert_eq!((taken, turn.left), (limit, 0));
        assert!(!turn.look());
    }
    // There is no more, or the room is gone
    for polled in [RoomPolled::Empty, RoomPolled::Disconnected] {
        let mut r = relay(PeerRelayOwnership::Nobody, &[1], &[]);
        let mut turn = r.begin_turn();
        assert!(turn.look());
        assert_eq!(turn.left, 9);
        let step = r.process_queue(polled, &vec![]);
        turn.follow(&step);
        assert!(!turn.look());
    }
}

#[test]
fn polls_every_peer() {
    let r = relay(PeerRelayOwnership::Nobody, &[1, 3, 5, 6], &[]);
    let mut seen = r.contacts();
    assert_eq!(keys(&seen), vec![1, 3, 5, 6]);
    seen.insert(5, Duration::from_millis(u64::MAX));
    let (read, close) = r.examine(&seen);
    assert_eq!(sorted(read), vec![1, 5, 6]);
    assert_eq!(keys(&close), vec![3]);
    assert_eq!(close[&3], 936585274);

    let mut round = r.open_round(&seen);
    assert_eq!(round.closes, vec![(3, 936585274)]);
    while let Some(netid) = round.next_peer() {
        round.take(match netid {
            1 => NetConnectionRead::Data(vec![message(1, 2), message(1, 5), message(5, 1)]),
            6 => NetConnectionRead::Data(vec![message(6, 6), message(6, 0), message(6, 3)]),
            _ => NetConnectionRead::Closed,
        });
    }
    let ends = |v: &[NetConnectionMessage]| {
        let mut ends =
            v.iter().map(|m| (m.source_netid, m.destination_netid)).collect::<Vec<_>>();
        ends.sort();
        ends
    };
    assert_eq!(ends(&round.relay_msgs), vec![(1, 2)]);
    assert_eq!(ends(&round.peers_msgs), vec![(1, 5), (6, 3)]);
    round.closes.sort();
    assert_eq!(
        round.closes,
        vec![(1, 98364723), (3, 936585274), (6, 98275737), (6, 98748384)]
    );
}

#[test]
fn overdue_peer_is_left_alone() {
    let mut r = relay(PeerRelayOwnership::Nobody, &[4, 5, 6], &[4, 5, 6]);
    for conn in r.peers.values_mut() {
        conn.stream_mut().set_timeout(Duration::from_millis(100));
    }
    let mut seen = r.contacts();
    for netid in [4, 5] {
        seen.insert(netid, Duration::from_millis(100));
    }
    seen.insert(6, Duration::from_millis(101));
    let mut round = r.open_round(&seen);
    assert_eq!(round.closes, vec![(6, 917347483)]);
    let mut read = vec![];
    while let Some(netid) = round.next_peer() {
        read.push(netid);
        round.take(NetConnectionRead::Data(vec![message(netid, 3)]));
    }
    assert_eq!(sorted(read), vec![4, 5]);
    let (gone, notify) = r.settle(&round, &vec![4], &vec![4]);
    assert_eq!(sorted(gone), vec![4, 6]);
    assert_eq!(notify, vec![5]);
    assert_eq!(keys(&r.peers), vec![4, 5, 6]);
    for msg in round.peers_msgs {
        assert!(msg.source_netid != 6);
        let written = r.route(msg, &vec![]);
        assert_eq!(written.iter().map(|d| d.0).collect::<Vec<_>>(), vec![5]);
    }
    // One that is closed is pruned when the next round begins
    let next = r.begin_round(&vec![6]);
    assert_eq!(sorted(next.readable), vec![4, 5]);
    assert!(next.closes.is_empty());
    let out = r.handle_peer_message(5, NetRelayMessage::PeerLeaveRoom, &vec![4]);
    assert_eq!(out.removed, Some(vec![]));
}
