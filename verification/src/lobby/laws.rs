//! What the lobby and its rooms promise, of the functions that keep the promise: the game that a
//! room is for, who is let in, who owns it, and what it says of itself.

use crate::lobby::lobby_manager::{Creation, Joining, LobbyManager, Relays, RoomJoinInfo};
use crate::lobby::room::{
    Addition, Channel, Collection, Room, RoomAction, RoomTopology, Stage,
};
use crate::lobby::room_info::{
    validator_room_extra_data, ExtraData, ExtraDataError, LobbyHost, RoomID, RoomInfo,
};
use crate::netconnection::netconnection::{
    NetConnection, NetConnectionSink, NETID,
};
use crate::relay::messages::NetRelayMessage;
use crate::relay::peer_relay::{
    PeerRelay, PeerRelayCloseMode, PeerRelayMessage, PeerRelayOwnership, PeerRelayStatus,
    RelayOutcome, RelaySettings, RoomPolled,
};
use crate::utils::laws::{in_digits, lemma_in_digits};
use std::collections::HashMap;
use vstd::prelude::*;

verus! {

broadcast use vstd::std_specs::hash::group_hash_axioms;

/// Whether two descriptions of a room say the same, but for the id and the ping, which are the
/// relay's own.
pub open spec fn same_description(a: RoomInfo, b: RoomInfo) -> bool {
    &&& a.game_type@ == b.game_type@
    &&& a.game_version@ == b.game_version@
    &&& a.room_name@ == b.room_name@
    &&& a.room_password == b.room_password
    &&& a.room_closed == b.room_closed
    &&& a.game_started == b.game_started
    &&& a.players_count == b.players_count
    &&& a.players_max == b.players_max
    &&& a.extra_data@ == b.extra_data@
}

/// Behind a description of its host, a room says what the host said, in every part but the
/// relay's own two, the id and the ping.
pub proof fn update_says_what_the_host_said(before: RoomInfo, info: RoomInfo, after: RoomInfo)
    requires
        exists|room: &mut RoomInfo| #[trigger]
            call_ensures(RoomInfo::update, (room, info), ()) && *room == before && *final(room)
                == after,
    ensures
        after.game_type@ == info.game_type@,
        after.game_version@ == info.game_version@,
        after.room_name@ == info.room_name@,
        after.room_password == info.room_password,
        after.room_closed == info.room_closed,
        after.game_started == info.game_started,
        after.players_count == info.players_count,
        after.players_max == info.players_max,
        after.extra_data@ == info.extra_data@,
        after.extra_data.listed() == info.extra_data.listed(),
        after.room_id == before.room_id,
        after.ping == before.ping,
{
    let details = after@;
    assert(details.game_type == info@.game_type);
}

/// A copy of a description says the same, the id and the ping included.
pub proof fn copy_says_the_same(info: RoomInfo, copy: RoomInfo)
    requires
        call_ensures(RoomInfo::clone, (&info,), copy),
    ensures
        same_description(copy, info),
        copy.extra_data.listed() == info.extra_data.listed(),
        copy.room_id == info.room_id,
        copy.ping == info.ping,
{
    let details = copy@;
    assert(details.game_type == info@.game_type);
}

/// Whether `ping` is the largest of `pings`, or 0 where there are none.
pub open spec fn highest(pings: Map<NETID, u32>, ping: u32) -> bool {
    &&& forall|k: NETID| #[trigger] pings.contains_key(k) ==> pings[k] <= ping
    &&& ping > 0 ==> exists|k: NETID| #[trigger] pings.contains_key(k) && pings[k] == ping
}

/// Whether `after` is what a room makes of a report: it counts who the report counts, shows the
/// highest ping, and says what the host said last.
pub open spec fn follows_report(before: Room, status: PeerRelayStatus, after: Room) -> bool {
    &&& after.peers == match before.topology {
        RoomTopology::ServerClient => status.peers + status.sinks,
        RoomTopology::PeerToPeer => status.peers as int,
    }
    &&& highest(status.pings@, after.info.ping)
    &&& after.info.room_id == before.info.room_id
    &&& match status.info {
        Some(info) => same_description(after.info, info),
        None => same_description(after.info, before.info),
    }
    &&& after.topology == before.topology
    &&& after.client_netid_next == before.client_netid_next
    &&& after.channel_msgs_per_update == before.channel_msgs_per_update
}

proof fn lemma_reported(before: Room, status: PeerRelayStatus, after: Room)
    requires
        before.reported(status@, &after),
    ensures
        follows_report(before, status, after),
{
    let details = after.info@;
    assert(details.game_type == after.info.game_type@);
    match status.info {
        Some(info) => {
            assert(status@.info == Some(info@));
            assert(details.game_type == info@.game_type);
        },
        None => {
            assert(details.game_type == before.info@.game_type);
        },
    }
}

/// Behind a report of a relay, a room shows who is there, the highest ping and what the host said
/// last; its id, its topology and the NETIDs that it gives stay.
pub proof fn room_follows_report(before: Room, status: PeerRelayStatus, after: Room)
    requires
        exists|room: &mut Room| #[trigger]
            call_ensures(Room::update_status, (room, status), ()) && *room == before && *final(room)
                == after,
    ensures
        follows_report(before, status, after),
{
    lemma_reported(before, status, after);
}

/// What a message of a relay leads to in a room: a report is taken over, who leaves has the sink
/// of its NETID removed and goes, who is closed is removed, in both relays where there are two,
/// and nothing else changes the room.
pub proof fn room_answers_relays<S, R>(
    before: Room,
    msg: PeerRelayMessage<S, R>,
    after: Room,
    action: RoomAction<S, R>,
)
    requires
        exists|room: &mut Room| #[trigger]
            call_ensures(Room::process_message::<S, R>, (room, msg), action) && *room == before
                && *final(room) == after,
    ensures
        msg matches PeerRelayMessage::UpdateStatus(status) ==> follows_report(before, status, after)
            && action is Nothing,
        !(msg is UpdateStatus) ==> after == before,
        msg matches PeerRelayMessage::ReturnConnection(conn, netid) ==> action == (
        RoomAction::Leave {
            conn,
            remove_sink: if before.topology == RoomTopology::ServerClient {
                Some(netid)
            } else {
                None
            },
        }),
        msg matches PeerRelayMessage::StoreConnection(conn) ==> action == (RoomAction::Leave {
            conn,
            remove_sink: if before.topology == RoomTopology::ServerClient {
                Some(conn.sink.netid)
            } else {
                None
            },
        }),
        msg matches PeerRelayMessage::RemoveConnection(netid) ==> if before.topology
            == RoomTopology::ServerClient {
            action == RoomAction::<S, R>::Remove(netid)
        } else {
            action is Nothing
        },
        msg is StoreSink || msg is RemoveSink || msg is SetOwnership ==> action
            == RoomAction::Unexpected(msg),
{
    if let PeerRelayMessage::UpdateStatus(status) = msg {
        lemma_reported(before, status, after);
    }
}

/// The largest ping of a room's peers is the one that it shows.
pub proof fn largest_ping_is_highest(pings: HashMap<NETID, u32>, ping: u32)
    requires
        call_ensures(crate::lobby::room::largest_ping, (&pings,), ping),
    ensures
        highest(pings@, ping),
{
}

/// Whether `clients` and `server` are the relays of a new room with a host, whose connection is
/// `conn`: each writes to those that the other reads from, the host alone may change the room, and
/// the room ends with its host.
pub open spec fn between_host_and_clients<S, R>(
    conn: NetConnection<S, R>,
    room_id: RoomID,
    clients: PeerRelay<S, R>,
    server: PeerRelay<S, R>,
) -> bool {
    let host = conn.sink.netid;
    &&& server.ownership == PeerRelayOwnership::Peer(host)
    &&& clients.ownership == PeerRelayOwnership::Peer(host)
    &&& server.close_mode == PeerRelayCloseMode::NoPeers
    &&& clients.close_mode == PeerRelayCloseMode::NoSinks
    &&& forall|k: NETID| #[trigger] server.peers@.contains_key(k) <==> k == host
    &&& server.peers@[host] == conn
    &&& forall|k: NETID| !#[trigger] server.sinks@.contains_key(k)
    &&& forall|k: NETID| !#[trigger] clients.peers@.contains_key(k)
    &&& forall|k: NETID| #[trigger] clients.sinks@.contains_key(k) <==> k == host
    &&& clients.sinks@[host].netid == host
    &&& clients.sinks@[host].info == conn.sink.info
    &&& server.config.room_id == room_id
    &&& clients.config.room_id == room_id
    &&& clients.config.status_timer.duration.nanos == 0
    &&& clients.config.ping_timer == server.config.ping_timer
    &&& clients.config.ping_wait_time == server.config.ping_wait_time
    &&& clients.config.update_interval == server.config.update_interval
    &&& clients.config.msgs_per_poll == server.config.msgs_per_poll
    &&& clients.config.channel_msgs_per_update == server.config.channel_msgs_per_update
    &&& blank(clients.status)
    &&& blank(server.status)
}

/// Whether a relay has nothing to report yet.
pub open spec fn blank(status: PeerRelayStatus) -> bool {
    status.peers == 0 && status.sinks == 0 && status.info is None && forall|k: NETID|
        !#[trigger] status.pings@.contains_key(k)
}

/// Whether `relay` is the relay of a new room around its first peer, whose connection is `conn`:
/// it reads from and writes to that peer, nobody may change the room, and it ends with its last
/// peer.
pub open spec fn around_first_peer<S, R>(
    conn: NetConnection<S, R>,
    room_id: RoomID,
    relay: PeerRelay<S, R>,
) -> bool {
    let first = conn.sink.netid;
    &&& relay.ownership == PeerRelayOwnership::Nobody
    &&& relay.close_mode == PeerRelayCloseMode::NoPeers
    &&& forall|k: NETID| #[trigger] relay.peers@.contains_key(k) <==> k == first
    &&& relay.peers@[first] == conn
    &&& forall|k: NETID| #[trigger] relay.sinks@.contains_key(k) <==> k == first
    &&& relay.sinks@[first].netid == first
    &&& relay.sinks@[first].info == conn.sink.info
    &&& relay.config.room_id == room_id
    &&& blank(relay.status)
}

proof fn lemma_host_relays<S: Clone, R>(
    conn: NetConnection<S, R>,
    room_id: RoomID,
    read: RelaySettings,
    clients: PeerRelay<S, R>,
    server: PeerRelay<S, R>,
)
    requires
        Room::relays_of_host(conn, room_id, read, clients, server),
    ensures
        between_host_and_clients(conn, room_id, clients, server),
{
    assert(clients.status@.peers == 0 && server.status@.peers == 0);
    assert(clients.sinks@.contains_key(conn.sink.netid));
}

proof fn lemma_peer_relay<S: Clone, R>(
    conn: NetConnection<S, R>,
    room_id: RoomID,
    read: RelaySettings,
    relay: PeerRelay<S, R>,
)
    requires
        Room::relay_of_peers(conn, room_id, read, relay),
    ensures
        around_first_peer(conn, room_id, relay),
{
    assert(relay.status@.peers == 0);
    assert(relay.sinks@.contains_key(conn.sink.netid));
}

/// A new room with a host belongs to that host: its two relays permit the host, and nobody else,
/// to change it.
pub proof fn host_owns_its_room<S: Clone, R>(
    conn: NetConnection<S, R>,
    info: RoomInfo,
    read: RelaySettings,
    room: Room,
    clients: PeerRelay<S, R>,
    server: PeerRelay<S, R>,
)
    requires
        call_ensures(Room::new_server_client::<S, R>, (conn, info, read), (room, clients, server)),
    ensures
        forall|netid: NETID, permitted: bool| #[trigger]
            call_ensures(PeerRelay::<S, R>::has_permission, (&server, netid), permitted)
                ==> permitted == (netid == conn.sink.netid),
        forall|netid: NETID, permitted: bool| #[trigger]
            call_ensures(PeerRelay::<S, R>::has_permission, (&clients, netid), permitted)
                ==> permitted == (netid == conn.sink.netid),
        between_host_and_clients(conn, info.room_id, clients, server),
        room.info == info,
        room.topology == RoomTopology::ServerClient,
        room.peers == 1,
        room.client_netid_next == 0x10000,
        room.channel_msgs_per_update == server.config.channel_msgs_per_update,
{
    lemma_host_relays(conn, info.room_id, read, clients, server);
}

/// What the host of a new room says of it anew, the relay that reads from the host reports.
pub proof fn host_describes_its_room<S: Clone, R>(
    conn: NetConnection<S, R>,
    info: RoomInfo,
    read: RelaySettings,
    room: Room,
    clients: PeerRelay<S, R>,
    server: PeerRelay<S, R>,
    said: RoomInfo,
    topology: u16,
    closed: Vec<NETID>,
    after: PeerRelay<S, R>,
    out: RelayOutcome<S, R>,
)
    requires
        call_ensures(Room::new_server_client::<S, R>, (conn, info, read), (room, clients, server)),
        exists|relay: &mut PeerRelay<S, R>| #[trigger]
            call_ensures(
                PeerRelay::<S, R>::handle_peer_message,
                (
                    relay,
                    conn.sink.netid,
                    NetRelayMessage::PeerSetupRoom { info: said, topology },
                    &closed,
                ),
                out,
            ) && *relay == server && *final(relay) == after,
    ensures
        after.status.info matches Some(told) && same_description(told, said) && told.room_id
            == said.room_id && told.ping == said.ping,
{
    let told = after.status.info->0;
    assert(after.status@.info == Some(said@));
    assert(told@ == said@);
    assert(told@.game_type == said@.game_type);
}

/// A new room of peers belongs to nobody: its relay permits no peer to change it.
pub proof fn nobody_owns_a_room_of_peers<S: Clone, R>(
    conn: NetConnection<S, R>,
    info: RoomInfo,
    read: RelaySettings,
    room: Room,
    relay: PeerRelay<S, R>,
)
    requires
        call_ensures(Room::new_peer_to_peer::<S, R>, (conn, info, read), (room, relay)),
    ensures
        forall|netid: NETID, permitted: bool| #[trigger]
            call_ensures(PeerRelay::<S, R>::has_permission, (&relay, netid), permitted)
                ==> !permitted,
        around_first_peer(conn, info.room_id, relay),
        room.info == info,
        room.topology == RoomTopology::PeerToPeer,
        room.peers == 1,
        room.client_netid_next == 0x10000,
        room.channel_msgs_per_update == relay.config.channel_msgs_per_update,
{
    lemma_peer_relay(conn, info.room_id, read, relay);
}

/// Whether `a` lets the connection `conn` into `before`, which is `after` then: it has the next
/// NETID in both halves and is otherwise what it was, and who comes next gets the NETID behind it.
/// Who enters a room with a host is written to by the relay that reads from the host, and read
/// from by the other.
pub open spec fn let_in<S, R>(
    before: Room,
    conn: NetConnection<S, R>,
    a: Addition<S, R>,
    after: Room,
) -> bool {
    &&& a.conn.sink.netid == before.client_netid_next
    &&& a.conn.sink.info == conn.sink.info
    &&& a.conn.sink.queue == conn.sink.queue
    &&& a.conn.stream == conn.stream
    &&& a.sink.netid == before.client_netid_next
    &&& a.sink.info == conn.sink.info
    &&& after.client_netid_next == before.client_netid_next + 1
    &&& after.info == before.info
    &&& after.peers == before.peers
    &&& after.topology == before.topology
    &&& after.channel_msgs_per_update == before.channel_msgs_per_update
    &&& before.topology == RoomTopology::PeerToPeer ==> a.sink_to == Channel::Relay && a.conn_to
        == Channel::Relay
    &&& before.topology == RoomTopology::ServerClient ==> a.sink_to == Channel::Server && a.conn_to
        == Channel::Clients
}

/// Who enters a room gets the next NETID; a room that is closed hands the connection back and
/// stays as it is.
pub proof fn entering_gives_the_next_netid<S: Clone, R>(
    before: Room,
    conn: NetConnection<S, R>,
    closed: bool,
    after: Room,
    r: Result<Addition<S, R>, NetConnection<S, R>>,
)
    requires
        exists|room: &mut Room| #[trigger]
            call_ensures(Room::add_connection::<S, R>, (room, conn, closed), r) && *room == before
                && *final(room) == after,
        closed || before.client_netid_next < u64::MAX,
    ensures
        closed ==> r == Err::<Addition<S, R>, NetConnection<S, R>>(conn) && after == before,
        !closed ==> (r matches Ok(a) && let_in(before, conn, a, after)),
{
}

/// A room is in use while it is not closed and somebody is in it.
pub proof fn active_while_somebody_is_there(room: Room, closed: bool, active: bool)
    requires
        call_ensures(Room::is_active, (&room, closed), active),
    ensures
        active <==> !closed && room.peers > 0,
{
}

/// When a room closes, so do the messages of each of its relays.
pub proof fn channels_are_those_of_the_topology(room: Room, channels: Vec<Channel>)
    requires
        call_ensures(Room::channels, (&room,), channels),
    ensures
        channels@.contains(Channel::Relay) <==> room.topology == RoomTopology::PeerToPeer,
        channels@.contains(Channel::Server) <==> room.topology == RoomTopology::ServerClient,
        channels@.contains(Channel::Clients) <==> room.topology == RoomTopology::ServerClient,
        channels@.no_duplicates(),
{
    match room.topology {
        RoomTopology::PeerToPeer => {
            assert(channels@[0] == Channel::Relay);
        },
        RoomTopology::ServerClient => {
            assert(channels@[0] == Channel::Server);
            assert(channels@[1] == Channel::Clients);
        },
    }
}

/// An update of a room that is closed, or that may take no message, looks at nothing; any other
/// begins with the relay between the peers, or with that of the host.
pub proof fn update_begins_with_the_first_relay<S, R>(
    room: Room,
    closed: bool,
    c: Collection<S, R>,
)
    requires
        call_ensures(Room::begin_update::<S, R>, (&room, closed), c),
    ensures
        c.messages@.len() == 0,
        c.rounds == 0,
        c.stage == if closed || room.channel_msgs_per_update == 0 {
            Stage::Done
        } else if room.topology == RoomTopology::PeerToPeer {
            Stage::Relay
        } else {
            Stage::Server
        },
{
}

/// An update of a room keeps each message that it finds, in the order in which they came, until it
/// has as many as its limit says; it looks at its relays in turn, and ends where none has more.
/// Where a relay is gone, what was collected goes with it.
pub proof fn update_keeps_what_it_finds<S, R>(
    room: Room,
    before: Collection<S, R>,
    polled: RoomPolled<S, R>,
    after: Collection<S, R>,
)
    requires
        exists|c: &mut Collection<S, R>| #[trigger]
            call_ensures(Room::collect::<S, R>, (&room, c, polled), ()) && *c == before && *final(c)
                == after,
        before.stage != Stage::Done,
        before.stage != Stage::Lost,
        before.messages@.len() < room.channel_msgs_per_update,
        before.rounds < room.channel_msgs_per_update,
        before.stage == Stage::Relay <==> room.topology == RoomTopology::PeerToPeer,
    ensures
        polled matches RoomPolled::Message(msg) ==> after.messages@ == before.messages@.push(msg),
        polled is Empty ==> after.messages@ == before.messages@,
        polled is Disconnected ==> after.messages@.len() == 0 && after.stage == Stage::Lost,
        after.messages@.len() <= room.channel_msgs_per_update,
        after.messages@.len() == room.channel_msgs_per_update ==> after.stage == Stage::Done,
        // Which relay is looked at next
        !(polled is Disconnected) && after.messages@.len() < room.channel_msgs_per_update ==> {
            &&& before.stage == Stage::Relay && polled is Empty ==> after.stage == Stage::Done
            &&& before.stage == Stage::Relay && polled is Message ==> after.stage == if before.rounds
                + 1 < room.channel_msgs_per_update {
                Stage::Relay
            } else {
                Stage::Done
            }
            &&& before.stage == Stage::Server ==> after.stage == (Stage::Clients {
                server_empty: polled is Empty,
            })
            &&& before.stage is Clients ==> after.stage == if polled is Empty && before.stage == (
            Stage::Clients { server_empty: true }) || before.rounds + 1
                >= room.channel_msgs_per_update {
                Stage::Done
            } else {
                Stage::Server
            }
        },
{
    assert(after@.stage == after.stage && after@.messages == after.messages@);
    assert(before@.stage == before.stage && before@.messages == before.messages@);
}

/// Whether `a` and `b` hold the same rooms, but for the one of `id`.
pub open spec fn same_but_for(a: LobbyManager, b: LobbyManager, id: RoomID) -> bool {
    forall|k: RoomID|
        #![trigger a.rooms@.contains_key(k)]
        #![trigger b.rooms@.contains_key(k)]
        k != id ==> (a.rooms@.contains_key(k) <==> b.rooms@.contains_key(k)) && (
        a.rooms@.contains_key(k) ==> a.rooms@[k] == b.rooms@[k])
}

proof fn lemma_same_but_for(a: LobbyManager, b: LobbyManager, id: RoomID)
    requires
        a.rooms@.remove(id) == b.rooms@.remove(id),
    ensures
        same_but_for(a, b, id),
{
    assert forall|k: RoomID|
        #![trigger a.rooms@.contains_key(k)]
        #![trigger b.rooms@.contains_key(k)]
        k != id implies (a.rooms@.contains_key(k) <==> b.rooms@.contains_key(k)) && (a.rooms@.contains_key(k) ==> a.rooms@[k] == b.rooms@[k]) by {
        assert(a.rooms@.remove(id).contains_key(k) <==> a.rooms@.contains_key(k));
        assert(b.rooms@.remove(id).contains_key(k) <==> b.rooms@.contains_key(k));
        if a.rooms@.contains_key(k) {
            assert(a.rooms@.remove(id)[k] == a.rooms@[k]);
            assert(b.rooms@.remove(id)[k] == b.rooms@[k]);
        }
    }
}

/// A lobby begins without rooms.
pub proof fn lobby_begins_empty(lobby: LobbyManager)
    requires
        call_ensures(LobbyManager::new, (), lobby),
    ensures
        forall|id: RoomID| !#[trigger] lobby.rooms@.contains_key(id),
        lobby.room_next_id == 1,
{
}

/// Who asks for a new room gets one of the topology that it named, described as it said, with the
/// next id and with the NETID of a host; every other room stays as it is. Who names an id, or a
/// topology that there is not, is refused, and nothing changes.
pub proof fn creating_a_room<S: Clone, R>(
    before: LobbyManager,
    conn: NetConnection<S, R>,
    info: RoomInfo,
    topology: u16,
    read: RelaySettings,
    after: LobbyManager,
    r: Creation<S, R>,
)
    requires
        exists|lobby: &mut LobbyManager| #[trigger]
            call_ensures(
                LobbyManager::connection_create_room::<S, R>,
                (lobby, conn, info, topology, read),
                r,
            ) && *lobby == before && *final(lobby) == after,
    ensures
        r is Refused <==> info.room_id != 0 || (topology != 1 && topology != 2),
        r matches Creation::Refused(back, code) ==> back == conn && after == before && code == if
            info.room_id != 0 {
            2u32
        } else {
            3u32
        },
        r matches Creation::Created { room_id, relays, replaced } ==> {
            let room = after.rooms@[room_id];
            let host = NetConnection {
                sink: NetConnectionSink { netid: 1, ..conn.sink },
                stream: conn.stream,
            };
            &&& room_id == before.room_next_id
            &&& after.room_next_id == (before.room_next_id + 1) % 0x1_0000_0000_0000_0000
            &&& after.rooms@.contains_key(room_id)
            &&& same_but_for(before, after, room_id)
            &&& replaced is Some <==> before.rooms@.contains_key(room_id)
            &&& replaced matches Some(old_room) ==> old_room == before.rooms@[room_id]
            &&& same_description(room.info, info)
            &&& room.info.room_id == room_id
            &&& room.info.ping == info.ping
            &&& room.peers == 1
            &&& room.client_netid_next == 0x10000
            &&& room.topology == RoomTopology::ServerClient <==> topology == 1
            &&& topology == 1 ==> (relays matches Relays::ServerClient { clients, server }
                && between_host_and_clients(host, room_id, clients, server))
            &&& topology == 2 ==> (relays matches Relays::PeerToPeer(relay) && around_first_peer(
                host,
                room_id,
                relay,
            ))
        },
{
    if let Creation::Created { room_id, relays, replaced } = r {
        let host = NetConnection {
            sink: NetConnectionSink { netid: 1, ..conn.sink },
            stream: conn.stream,
        };
        lemma_same_but_for(before, after, room_id);
        match relays {
            Relays::ServerClient { clients, server } => {
                lemma_host_relays(host, room_id, read, clients, server);
            },
            Relays::PeerToPeer(relay) => {
                lemma_peer_relay(host, room_id, read, relay);
            },
        }
    }
}

/// Who is let into a room plays its game in its version: a request is let in exactly where the
/// room is there, is not closed by its host, and is for the game and the version of the request.
/// Any other is refused, with a code that says why, and changes nothing. Who is let in enters that
/// room and no other, unless the room is at its end.
pub proof fn joining_a_room<S: Clone, R>(
    before: LobbyManager,
    conn: NetConnection<S, R>,
    join: RoomJoinInfo,
    closed: bool,
    after: LobbyManager,
    r: Joining<S, R>,
)
    requires
        exists|lobby: &mut LobbyManager| #[trigger]
            call_ensures(LobbyManager::connection_join_room::<S, R>, (lobby, conn, join, closed), r)
                && *lobby == before && *final(lobby) == after,
        before.rooms@.contains_key(join.room_id)
            ==> before.rooms@[join.room_id].client_netid_next < u64::MAX,
    ensures
        !(r is Refused) <==> {
            &&& before.rooms@.contains_key(join.room_id)
            &&& !before.rooms@[join.room_id].info.room_closed
            &&& before.rooms@[join.room_id].info.game_type@ == join.game_type@
            &&& before.rooms@[join.room_id].info.game_version@ == join.game_version@
        },
        r matches Joining::Refused(back, code) ==> {
            &&& back == conn
            &&& after.rooms@ == before.rooms@
            &&& code == 2 <==> !before.rooms@.contains_key(join.room_id)
            &&& code == 4 <==> before.rooms@.contains_key(join.room_id)
                && before.rooms@[join.room_id].info.game_type@ == join.game_type@
                && before.rooms@[join.room_id].info.game_version@ == join.game_version@
            &&& code == 2 || code == 3 || code == 4
        },
        r is Dropped <==> !(r is Refused) && closed,
        r matches Joining::Dropped(back) ==> back == conn && after.rooms@[join.room_id]
            == before.rooms@[join.room_id],
        r matches Joining::Joined(a) ==> let_in(
            before.rooms@[join.room_id],
            conn,
            a,
            after.rooms@[join.room_id],
        ),
        !(r is Refused) ==> after.rooms@.contains_key(join.room_id),
        same_but_for(before, after, join.room_id),
        after.room_next_id == before.room_next_id,
{
    if !(r is Refused) {
        lemma_same_but_for(before, after, join.room_id);
    }
    if before.rooms@.contains_key(join.room_id) {
        let info = before.rooms@[join.room_id].info;
        assert(info@.game_type == info.game_type@ && info@.room_closed == info.room_closed);
        assert(join@.game_type == join.game_type@);
    }
}

/// What a relay reports reaches the room that it is a relay of, and no other.
pub proof fn reports_reach_their_room<S, R>(
    before: LobbyManager,
    room_id: RoomID,
    msg: PeerRelayMessage<S, R>,
    after: LobbyManager,
    r: Option<RoomAction<S, R>>,
)
    requires
        exists|lobby: &mut LobbyManager| #[trigger]
            call_ensures(LobbyManager::update_room::<S, R>, (lobby, room_id, msg), r) && *lobby
                == before && *final(lobby) == after,
    ensures
        r is Some <==> before.rooms@.contains_key(room_id),
        after.rooms@.contains_key(room_id) <==> before.rooms@.contains_key(room_id),
        same_but_for(before, after, room_id),
        after.room_next_id == before.room_next_id,
        before.rooms@.contains_key(room_id) ==> {
            let old_room = before.rooms@[room_id];
            let new_room = after.rooms@[room_id];
            &&& msg matches PeerRelayMessage::UpdateStatus(status) ==> follows_report(
                old_room,
                status,
                new_room,
            ) && r->0 is Nothing
            &&& !(msg is UpdateStatus) ==> new_room == old_room
            &&& msg matches PeerRelayMessage::ReturnConnection(conn, netid) ==> r->0 == (
            RoomAction::Leave {
                conn,
                remove_sink: if old_room.topology == RoomTopology::ServerClient {
                    Some(netid)
                } else {
                    None
                },
            })
        },
{
    lemma_same_but_for(before, after, room_id);
    assert(after.rooms@.dom() == before.rooms@.dom());
    if before.rooms@.contains_key(room_id) {
        if let PeerRelayMessage::UpdateStatus(status) = msg {
            lemma_reported(before.rooms@[room_id], status, after.rooms@[room_id]);
        }
    }
}

/// A lobby gives up the rooms that are closed or that nobody is in, names each of them once, and
/// keeps every other as it is.
pub proof fn empty_rooms_are_given_up(
    before: LobbyManager,
    closed: Vec<RoomID>,
    after: LobbyManager,
    gone: Vec<RoomID>,
)
    requires
        exists|lobby: &mut LobbyManager| #[trigger]
            call_ensures(LobbyManager::retain_active, (lobby, &closed), gone) && *lobby == before
                && *final(lobby) == after,
    ensures
        forall|id: RoomID| #[trigger]
            after.rooms@.contains_key(id) <==> before.rooms@.contains_key(id)
                && before.rooms@[id].peers > 0 && !closed@.contains(id),
        forall|id: RoomID| #[trigger]
            after.rooms@.contains_key(id) ==> after.rooms@[id] == before.rooms@[id],
        forall|id: RoomID| #[trigger]
            gone@.contains(id) <==> before.rooms@.contains_key(id) && !after.rooms@.contains_key(
                id,
            ),
        gone@.no_duplicates(),
        after.room_next_id == before.room_next_id,
{
    assert forall|id: RoomID| #[trigger] gone@.contains(id) <==> before.rooms@.contains_key(id)
        && !after.rooms@.contains_key(id) by {
        let both = before.rooms@.dom().difference(after.rooms@.dom());
        assert(gone@.to_set().contains(id) <==> gone@.contains(id));
        assert(both.contains(id) <==> before.rooms@.contains_key(id)
            && !after.rooms@.contains_key(id));
    }
}

/// The list of the rooms holds each room once, as it describes itself.
pub proof fn every_room_is_listed(lobby: LobbyManager, infos: Vec<RoomInfo>)
    requires
        call_ensures(LobbyManager::refresh_room_infos, (&lobby,), infos),
    ensures
        exists|ids: Seq<RoomID>|
            {
                &&& #[trigger] ids.no_duplicates()
                &&& ids.len() == infos@.len()
                &&& forall|id: RoomID| #[trigger] ids.contains(id) <==> lobby.rooms@.contains_key(id)
                &&& forall|i: int|
                    0 <= i < ids.len() ==> {
                        let shown = #[trigger] infos@[i];
                        let room = lobby.rooms@[ids[i]].info;
                        &&& same_description(shown, room)
                        &&& shown.room_id == room.room_id
                        &&& shown.ping == room.ping
                    }
            },
{
    let ids = choose|ids: Seq<RoomID>| #[trigger]
        crate::utils::ids::lists(ids, lobby.rooms@.dom())
            && crate::lobby::lobby_manager::same_rooms(
            infos@,
            ids.map_values(|id: RoomID| lobby.rooms@[id].info),
        );
    let rooms = ids.map_values(|id: RoomID| lobby.rooms@[id].info);
    assert forall|id: RoomID| #[trigger] ids.contains(id) <==> lobby.rooms@.contains_key(id) by {
        assert(ids.to_set().contains(id) <==> lobby.rooms@.dom().contains(id));
    }
    assert forall|i: int| 0 <= i < ids.len() implies {
        let shown = #[trigger] infos@[i];
        let room = lobby.rooms@[ids[i]].info;
        &&& same_description(shown, room)
        &&& shown.room_id == room.room_id
        &&& shown.ping == room.ping
    } by {
        lemma_same_view(infos@[i], rooms[i]);
    }
    assert(ids.no_duplicates());
}

proof fn lemma_same_view(a: RoomInfo, b: RoomInfo)
    requires
        a@ == b@,
    ensures
        same_description(a, b),
        a.room_id == b.room_id,
        a.ping == b.ping,
{
    assert(a@.game_type == a.game_type@ && b@.game_type == b.game_type@);
}

/// Whether a room is for the game that was asked for; where none was, every room is.
pub open spec fn is_for(room: RoomInfo, game_type: Seq<char>) -> bool {
    game_type.len() == 0 || room.game_type@ == game_type
}

proof fn lemma_rooms_filtered(infos: Seq<RoomInfo>, game_type: Seq<char>)
    ensures
        crate::lobby::lobby_manager::rooms_for(infos, game_type) == infos.filter(
            |room: RoomInfo| is_for(room, game_type),
        ),
    decreases infos.len(),
{
    let wanted = |room: RoomInfo| is_for(room, game_type);
    reveal(Seq::filter);
    if infos.len() > 0 {
        lemma_rooms_filtered(infos.drop_last(), game_type);
    }
}

/// Whether `shown` are those of `infos` that are for the game `game_type`, each as it describes
/// itself, in the order of `infos`.
pub open spec fn shows_rooms_for(
    infos: Seq<RoomInfo>,
    game_type: Seq<char>,
    shown: Seq<RoomInfo>,
) -> bool {
    let wanted = infos.filter(|room: RoomInfo| is_for(room, game_type));
    &&& shown.len() == wanted.len()
    &&& forall|i: int|
        0 <= i < shown.len() ==> same_description(#[trigger] shown[i], wanted[i])
            && shown[i].room_id == wanted[i].room_id && shown[i].ping == wanted[i].ping
}

proof fn lemma_shows_rooms(infos: Seq<RoomInfo>, game_type: Seq<char>, shown: Seq<RoomInfo>)
    requires
        crate::lobby::lobby_manager::same_rooms(
            shown,
            crate::lobby::lobby_manager::rooms_for(infos, game_type),
        ),
    ensures
        shows_rooms_for(infos, game_type, shown),
{
    lemma_rooms_filtered(infos, game_type);
    let wanted = infos.filter(|room: RoomInfo| is_for(room, game_type));
    assert forall|i: int| 0 <= i < shown.len() implies same_description(
        #[trigger] shown[i],
        wanted[i],
    ) && shown[i].room_id == wanted[i].room_id && shown[i].ping == wanted[i].ping by {
        lemma_same_view(shown[i], wanted[i]);
    }
}

/// Who asks for the rooms of a game is shown them all and no others, in their order.
pub proof fn only_rooms_for_the_game(infos: Vec<RoomInfo>, game_type: String, shown: Vec<RoomInfo>)
    requires
        call_ensures(LobbyManager::filter_room_by_game_type, (&infos, &game_type), shown),
    ensures
        shows_rooms_for(infos@, game_type@, shown@),
{
    lemma_shows_rooms(infos@, game_type@, shown@);
}

/// The same of the list that the HTTP server gives: the one lobby, at its host, with the rooms
/// for the game, or all where none was asked for.
pub proof fn http_list_shows_rooms(
    infos: Vec<RoomInfo>,
    game_type: Option<String>,
    host: LobbyHost,
    r: crate::http::lobby::LobbyListResponse,
)
    requires
        call_ensures(crate::http::lobby::list, (&infos, game_type, &host), r),
    ensures
        r.lobbies@.len() == 1,
        r.lobbies@[0].host.host_tcp@ == host.host_tcp@,
        r.lobbies@[0].host.host_ws@ == host.host_ws@,
        game_type matches Some(name) ==> shows_rooms_for(infos@, name@, r.lobbies@[0].rooms@),
        game_type is None ==> shows_rooms_for(infos@, Seq::empty(), r.lobbies@[0].rooms@),
{
    let shown = r.lobbies@[0];
    assert(shown.host@.tcp == host@.tcp && shown.host@.ws == host@.ws);
    match game_type {
        Some(name) => lemma_shows_rooms(infos@, name@, shown.rooms@),
        None => lemma_shows_rooms(infos@, Seq::empty(), shown.rooms@),
    }
}

/// The same of the answer to a peer that asks for the rooms, in the format that it asked for; any
/// other message is not answered.
pub proof fn reply_shows_rooms(
    msg: NetRelayMessage,
    infos: Vec<RoomInfo>,
    host: LobbyHost,
    r: Result<NetRelayMessage, u32>,
)
    requires
        call_ensures(
            crate::relay::session_manager::process_connection_reply,
            (msg, &infos, &host),
            r,
        ),
    ensures
        r is Ok <==> msg is PeerListLobbies,
        r matches Err(code) ==> code == 1593483496,
        msg matches NetRelayMessage::PeerListLobbies { game_type, format, .. } ==> {
            &&& r matches Ok(NetRelayMessage::RelayListLobbies { lobbies, format: answered })
            &&& answered == format
            &&& lobbies@.len() == 1
            &&& lobbies@[0].host.host_tcp@ == host.host_tcp@
            &&& lobbies@[0].host.host_ws@ == host.host_ws@
            &&& shows_rooms_for(infos@, game_type@, lobbies@[0].rooms@)
        },
{
    if let NetRelayMessage::PeerListLobbies { game_type, format, .. } = msg {
        if let Ok(NetRelayMessage::RelayListLobbies { lobbies, .. }) = r {
            assert(lobbies@[0].host@.tcp == host@.tcp && lobbies@[0].host@.ws == host@.ws);
            lemma_shows_rooms(infos@, game_type@, lobbies@[0].rooms@);
        }
    }
}

/// The limits of the extra data of a room, counted in bytes: it is taken exactly where it has at
/// most 64 pairs, no key of more than 64 bytes and no value of more than 128. Otherwise it is the
/// number of pairs that is reported, or the first pair that is over a limit, for its key first.
pub proof fn extra_data_is_limited(data: ExtraData, r: Result<(), ExtraDataError>)
    requires
        call_ensures(validator_room_extra_data, (&data,), r),
    ensures
        r is Ok <==> data.listed().len() <= 64 && forall|i: int|
            0 <= i < data.listed().len() ==> vstd::utf8::encode_utf8(
                #[trigger] data.listed()[i].0,
            ).len() <= 64 && vstd::utf8::encode_utf8(data.listed()[i].1).len() <= 128,
        r == Err::<(), ExtraDataError>(ExtraDataError::TooMany) <==> data.listed().len() > 64,
        r matches Err(ExtraDataError::KeyTooLong(k, v)) ==> exists|i: int|
            0 <= i < data.listed().len() && #[trigger] data.listed()[i] == (k@, v@)
                && vstd::utf8::encode_utf8(k@).len() > 64 && within_limits(
                data.listed().take(i),
            ),
        r matches Err(ExtraDataError::ValueTooLong(k, v)) ==> exists|i: int|
            0 <= i < data.listed().len() && #[trigger] data.listed()[i] == (k@, v@)
                && vstd::utf8::encode_utf8(k@).len() <= 64 && vstd::utf8::encode_utf8(v@).len()
                > 128 && within_limits(data.listed().take(i)),
{
    let listed = data.listed();
    let n = crate::lobby::room_info::first_fault(listed) as int;
    crate::lobby::room_info::extra_data_limits(listed, r);
    crate::lobby::room_info::lemma_first_fault(listed);
    if listed.len() <= 64 && n < listed.len() {
        let before = listed.take(n);
        assert forall|i: int| 0 <= i < before.len() implies vstd::utf8::encode_utf8(
            #[trigger] before[i].0,
        ).len() <= 64 && vstd::utf8::encode_utf8(before[i].1).len() <= 128 by {
            assert(crate::lobby::room_info::pair_fault(listed[i].0, listed[i].1) is None);
        }
        assert(listed[n] == (listed[n].0, listed[n].1));
    }
}

/// Whether no pair is over a limit.
pub open spec fn within_limits(pairs: Seq<(Seq<char>, Seq<char>)>) -> bool {
    forall|i: int|
        0 <= i < pairs.len() ==> vstd::utf8::encode_utf8(#[trigger] pairs[i].0).len() <= 64
            && vstd::utf8::encode_utf8(pairs[i].1).len() <= 128
}

/// A text that was set is the text of its key until it is set again; the texts of other keys stay.
pub proof fn extra_data_holds_what_was_set(
    before: ExtraData,
    key: String,
    value: String,
    after: ExtraData,
    n: usize,
)
    requires
        exists|data: &mut ExtraData| #[trigger]
            call_ensures(ExtraData::insert, (data, key, value), ()) && *data == before
                && *final(data) == after,
        call_ensures(ExtraData::len, (&after,), n),
    ensures
        after@.contains_key(key@),
        after@[key@] == value@,
        forall|k: Seq<char>| #[trigger]
            after@.contains_key(k) <==> before@.contains_key(k) || k == key@,
        forall|k: Seq<char>| #[trigger]
            before@.contains_key(k) && k != key@ ==> after@[k] == before@[k],
        n == after@.dom().len(),
{
}

/// A room, and what a peer asks of one, are called by what they are in the log, numbers in digits.
pub proof fn rooms_are_called_by_what_they_are(
    room: Room,
    info: RoomInfo,
    join: RoomJoinInfo,
    id: Seq<char>,
    count: Seq<char>,
    max: Seq<char>,
    ping: Seq<char>,
    peers: Seq<char>,
    join_id: Seq<char>,
    info_text: String,
    room_text: String,
    join_text: String,
)
    requires
        room.info == info,
        in_digits(info.room_id as int, id),
        in_digits(info.players_count as int, count),
        in_digits(info.players_max as int, max),
        in_digits(info.ping as int, ping),
        in_digits(room.peers as int, peers),
        in_digits(join.room_id as int, join_id),
        call_ensures(RoomInfo::to_text, (&info,), info_text),
        call_ensures(Room::to_text, (&room,), room_text),
        call_ensures(RoomJoinInfo::to_text, (&join,), join_text),
    ensures
        info_text@ == "RoomInfo { id: "@ + id + ", name: "@ + info.room_name@ + ", players: "@ + count
            + "/"@ + max + ", PW: "@ + (if info.room_password {
            "true"@
        } else {
            "false"@
        }) + ", ping: "@ + ping + ", game: "@ + info.game_type@ + " "@ + info.game_version@ + " }"@,
        room_text@ == "Room { Info: "@ + info_text@ + ", Peers: "@ + peers + " }"@,
        join_text@ == "RoomJoinInfo { Id: "@ + join_id + " Game: "@ + join.game_type@ + " "@
            + join.game_version@ + " }"@,
{
    lemma_in_digits(info.room_id as int, id);
    lemma_in_digits(info.players_count as int, count);
    lemma_in_digits(info.players_max as int, max);
    lemma_in_digits(info.ping as int, ping);
    lemma_in_digits(room.peers as int, peers);
    lemma_in_digits(join.room_id as int, join_id);
}

/// What is wrong with extra data is said with the key and the value.
pub proof fn extra_data_errors_say_what_is_wrong(e: ExtraDataError, s: String)
    requires
        call_ensures(ExtraDataError::message, (&e,), s),
    ensures
        e is TooMany ==> s@ == "Too many extra_data"@,
        e matches ExtraDataError::KeyTooLong(key, value) ==> s@ == "extra_data["@ + key@ + "] = "@
            + value@ + " key is too long"@,
        e matches ExtraDataError::ValueTooLong(key, value) ==> s@ == "extra_data["@ + key@ + "] = "@
            + value@ + " value is too long"@,
{
}

/// The entries of extra data are those that can be looked up.
pub proof fn extra_data_is_listed(d: ExtraData, i: usize, e: (&String, &String), fresh: ExtraData)
    requires
        call_ensures(ExtraData::new, (), fresh),
        call_requires(ExtraData::entry, (&d, i)),
        call_ensures(ExtraData::entry, (&d, i), e),
    ensures
        forall|k: Seq<char>| !fresh@.contains_key(k),
        d@.contains_key(e.0@),
        d@[e.0@] == e.1@,
        d.listed()[i as int] == (e.0@, e.1@),
{
}

} // verus!
