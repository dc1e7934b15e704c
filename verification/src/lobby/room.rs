//! A room: its relays, and what they report.

use crate::lobby::room_info::{redescribed, RoomDetails, RoomID, RoomInfo};
use crate::netconnection::netconnection::{
    Envelope, NetConnection, NetConnectionMessage, NetConnectionSink, NETID, NETID_ALL,
    NETID_CLIENTS_RELAY_START, NETID_NONE,
};
use crate::relay::messages::Said;
use crate::relay::peer_relay::{
    ping_millis, PeerRelay, PeerRelayCloseMode, PeerRelayConfig, PeerRelayMessage,
    PeerRelayOwnership, PeerRelayStatus, QueueOutcome, RelayOutcome, RelaySettings, RoomPolled,
    Status,
};
use crate::text::{decimal, push_decimal};
use crate::utils::config::configured;
use crate::utils::ids::{ids_of, lists};
use crate::utils::time::{Duration, IntervalTimer};
use std::collections::HashMap;
use vstd::prelude::*;

verus! {

broadcast use vstd::std_specs::hash::group_hash_axioms;

/// How the peers of a room are related.
#[derive(Debug, Clone, Copy, PartialEq, Eq, Structural)]
pub enum RoomTopology {
    /// One relay between all peers
    PeerToPeer,
    /// One relay from the host to the clients, and one back
    ServerClient,
}

/// The relays of a room.
#[derive(Debug, Clone, Copy, PartialEq, Eq, Structural)]
pub enum Channel {
    /// The relay between all peers
    Relay,
    /// The relay that reads from the host
    Server,
    /// The relay that reads from the clients
    Clients,
}

pub struct Room {
    /// Contains room information that will be accessed by outside
    pub info: RoomInfo,
    /// Last reported number of peers in room by task
    pub peers: usize,
    /// Next NETID to give to a incoming client
    pub client_netid_next: NETID,
    /// Max amount of messages to poll from channels on each update
    pub channel_msgs_per_update: usize,
    /// Topology of this room
    pub topology: RoomTopology,
}

/// A connection that enters a room: where its sink goes, and where the connection goes itself.
pub struct Addition<S, R> {
    pub sink: NetConnectionSink<S>,
    pub sink_to: Channel,
    pub conn: NetConnection<S, R>,
    pub conn_to: Channel,
}

/// Where the update of a room stands.
#[derive(Debug, Clone, Copy, PartialEq, Eq, Structural)]
pub enum Stage {
    /// The messages of this relay are to be looked at.
    Relay,
    Server,
    /// The same of the clients' relay, where the host's had a message or had none.
    Clients { server_empty: bool },
    /// Everything is collected.
    Done,
    /// A relay is gone: the room closes, and what was collected is dropped.
    Lost,
}

/// The messages that an update of a room collects.
pub struct Collection<S, R> {
    pub messages: Vec<PeerRelayMessage<S, R>>,
    pub rounds: usize,
    pub stage: Stage,
}

/// The messages that an update of a room collects, as values.
pub struct Collected<S, R> {
    pub messages: Seq<PeerRelayMessage<S, R>>,
    pub rounds: nat,
    pub stage: Stage,
}

impl<S, R> View for Collection<S, R> {
    type V = Collected<S, R>;

    open spec fn view(&self) -> Collected<S, R> {
        Collected { messages: self.messages@, rounds: self.rounds as nat, stage: self.stage }
    }
}

impl<S, R> Collected<S, R> {
    /// Where a round begins: at the first relay, unless there were `limit` rounds or `limit`
    /// messages already.
    pub open spec fn at_round(self, limit: nat, topology: RoomTopology) -> Collected<S, R> {
        Collected {
            stage: if self.rounds >= limit || self.messages.len() >= limit {
                Stage::Done
            } else if topology == RoomTopology::PeerToPeer {
                Stage::Relay
            } else {
                Stage::Server
            },
            ..self
        }
    }

    /// Where the next round begins.
    pub open spec fn next_round(self, limit: nat, topology: RoomTopology) -> Collected<S, R> {
        Collected { rounds: self.rounds + 1, ..self }.at_round(limit, topology)
    }

    /// Behind one more message.
    pub open spec fn with(self, msg: PeerRelayMessage<S, R>) -> Collected<S, R> {
        Collected { messages: self.messages.push(msg), ..self }
    }

    /// Behind what a look at the messages of the current relay found.
    pub open spec fn behind(
        self,
        limit: nat,
        topology: RoomTopology,
        polled: RoomPolled<S, R>,
    ) -> Collected<S, R> {
        match (self.stage, polled) {
            (Stage::Done, _) => self,
            (Stage::Lost, _) => self,
            (_, RoomPolled::Disconnected) => Collected {
                messages: Seq::empty(),
                stage: Stage::Lost,
                ..self
            },
            (Stage::Relay, RoomPolled::Message(msg)) => self.with(msg).next_round(limit, topology),
            (Stage::Relay, RoomPolled::Empty) => Collected { stage: Stage::Done, ..self },
            (Stage::Server, RoomPolled::Message(msg)) => Collected {
                stage: if self.with(msg).messages.len() >= limit {
                    Stage::Done
                } else {
                    Stage::Clients { server_empty: false }
                },
                ..self.with(msg)
            },
            (Stage::Server, RoomPolled::Empty) => Collected {
                stage: Stage::Clients { server_empty: true },
                ..self
            },
            (Stage::Clients { .. }, RoomPolled::Message(msg)) => self.with(msg).next_round(
                limit,
                topology,
            ),
            (Stage::Clients { server_empty }, RoomPolled::Empty) => if server_empty {
                Collected { stage: Stage::Done, ..self }
            } else {
                self.next_round(limit, topology)
            },
        }
    }

    /// Whether what is collected is within the limits of an update.
    pub open spec fn within(self, limit: nat, topology: RoomTopology) -> bool {
        &&& self.rounds <= limit
        &&& match self.stage {
            Stage::Relay => topology == RoomTopology::PeerToPeer && self.rounds < limit
                && self.messages.len() < limit,
            Stage::Server | Stage::Clients { .. } => topology == RoomTopology::ServerClient
                && self.rounds < limit && self.messages.len() < limit,
            Stage::Done | Stage::Lost => self.messages.len() <= limit,
        }
    }
}

/// An update of a room collects no more messages than its limit says, from all of its relays
/// together, and asks each relay at most as often.
pub proof fn collection_within_limit<S, R>(
    c: Collected<S, R>,
    limit: nat,
    topology: RoomTopology,
    polled: RoomPolled<S, R>,
)
    requires
        c.within(limit, topology),
    ensures
        c.behind(limit, topology, polled).within(limit, topology),
        c.behind(limit, topology, polled).messages.len() <= limit,
{
}

/// The largest of `pings`, or 0 where there are none.
pub open spec fn is_largest(pings: Map<NETID, u32>, ping: u32) -> bool {
    &&& forall|k: NETID| #[trigger] pings.contains_key(k) ==> pings[k] <= ping
    &&& ping == 0 || exists|k: NETID| #[trigger] pings.contains_key(k) && pings[k] == ping
}

/// The largest of `pings`, or 0 where there are none.
pub fn largest_ping(pings: &HashMap<NETID, u32>) -> (ping: u32)
    ensures
        is_largest(pings@, ping),
{
    let ids = ids_of(pings);
    let mut ping: u32 = 0;
    let mut i: usize = 0;
    while i < ids.len()
        invariant
            i <= ids.len(),
            lists(ids@, pings@.dom()),
            forall|j: int| 0 <= j < i ==> pings@[#[trigger] ids@[j]] <= ping,
            ping == 0 || exists|k: NETID| #[trigger] pings@.contains_key(k) && pings@[k] == ping,
        decreases ids.len() - i,
    {
        let id = ids[i];
        assert(ids@.to_set().contains(id));
        if let Some(p) = pings.get(&id) {
            if *p > ping {
                ping = *p;
                assert(pings@.contains_key(id) && pings@[id] == ping);
            }
        }
        i = i + 1;
    }
    assert forall|k: NETID| #[trigger] pings@.contains_key(k) implies pings@[k] <= ping by {
        assert(ids@.to_set().contains(k));
        let j = choose|j: int| 0 <= j < ids@.len() && ids@[j] == k;
        assert(pings@[ids@[j]] <= ping);
    }
    ping
}

/// What a message of a relay leads to.
pub enum RoomAction<S, R> {
    Nothing,
    /// The relays are to give up the sink of this NETID, if there is one, and the connection leaves
    /// the room.
    Leave { conn: NetConnection<S, R>, remove_sink: Option<NETID> },
    /// The relays are to give up the connection to this peer.
    Remove(NETID),
    /// A room has no use for such a message.
    Unexpected(PeerRelayMessage<S, R>),
}

/// Whatever its relays report, a room keeps its id, its topology and the NETIDs that it gives.
pub proof fn room_keeps_identity<S, R>(
    room: Room,
    msg: PeerRelayMessage<S, R>,
    after: Room,
    action: RoomAction<S, R>,
)
    requires
        room.processed(msg, &after, action),
    ensures
        after.info.room_id == room.info.room_id,
        after.set_up_as(&room),
{
    assert(after.info@.room_id == room.info@.room_id);
}

/// Whether `rooms` are the states of a room, one behind the other, that lets connections in and
/// does other things between.
pub open spec fn lets_in(rooms: Seq<Room>) -> bool {
    &&& rooms.len() > 0
    &&& rooms[0].client_netid_next == NETID_CLIENTS_RELAY_START
    &&& forall|k: int|
        0 <= k < rooms.len() - 1 ==> (#[trigger] rooms[k]).client_netid_next
            <= rooms[k + 1].client_netid_next <= rooms[k].client_netid_next + 1
}

/// Who enters a room gets a NETID that nobody who entered before has, and none that is reserved.
pub proof fn netids_are_given_once(rooms: Seq<Room>, i: int, j: int)
    requires
        lets_in(rooms),
        0 <= i < j < rooms.len(),
        rooms[i + 1].client_netid_next == rooms[i].client_netid_next + 1,
    ensures
        rooms[i].client_netid_next < rooms[j].client_netid_next,
        rooms[i].client_netid_next >= NETID_CLIENTS_RELAY_START,
{
    lemma_netids_grow(rooms, 0, i);
    lemma_netids_grow(rooms, i + 1, j);
}

proof fn lemma_netids_grow(rooms: Seq<Room>, i: int, j: int)
    requires
        lets_in(rooms),
        0 <= i <= j < rooms.len(),
    ensures
        rooms[i].client_netid_next <= rooms[j].client_netid_next,
    decreases j - i,
{
    if i < j {
        lemma_netids_grow(rooms, i, j - 1);
        assert(rooms[j - 1].client_netid_next <= rooms[j - 1 + 1].client_netid_next);
    }
}

impl Room {
    /// Whether this room is `other`, but for its information and the number of its peers.
    pub open spec fn set_up_as(&self, other: &Self) -> bool {
        &&& self.client_netid_next == other.client_netid_next
        &&& self.channel_msgs_per_update == other.channel_msgs_per_update
        &&& self.topology == other.topology
    }

    /// Whether this is a new room with the information `info`.
    pub open spec fn is_new(&self, info: RoomInfo, read: RelaySettings) -> bool {
        &&& self.info == info
        &&& self.peers == 1
        &&& self.client_netid_next == NETID_CLIENTS_RELAY_START
        &&& self.channel_msgs_per_update == configured(
            read.channel_msgs_per_update,
            usize::MAX as nat,
            10,
        )
    }

    /// Whether `clients` and `server` are the relays of the new room `room_id` around the
    /// connection `conn` of its host: the one reads from the clients, of which there are none yet,
    /// and writes to the host, and the other the other way round. The host owns the room, which
    /// closes with its connection, and only the relay that reads from it reports.
    pub open spec fn relays_of_host<S: Clone, R>(
        conn: NetConnection<S, R>,
        room_id: RoomID,
        read: RelaySettings,
        clients: PeerRelay<S, R>,
        server: PeerRelay<S, R>,
    ) -> bool {
        let host = conn.sink.netid;
        let unknown = Status { peers: 0, sinks: 0, pings: Map::empty(), info: None };
        &&& clients.well_formed()
        &&& server.well_formed()
        &&& server.config.as_read(room_id, read)
        &&& clients.config.status_timer.duration@ == 0
        &&& clients.config == (PeerRelayConfig {
            status_timer: IntervalTimer {
                duration: clients.config.status_timer.duration,
                ..server.config.status_timer
            },
            ..server.config
        })
        &&& clients.close_mode == PeerRelayCloseMode::NoSinks
        &&& clients.ownership == PeerRelayOwnership::Peer(host)
        &&& clients.peers@ == Map::<NETID, NetConnection<S, R>>::empty()
        &&& clients.sinks@.dom() == set![host]
        &&& clients.sinks@[host].info == conn.sink.info
        &&& cloned(conn.sink.queue, clients.sinks@[host].queue)
        &&& clients.status@ == unknown
        &&& server.close_mode == PeerRelayCloseMode::NoPeers
        &&& server.ownership == PeerRelayOwnership::Peer(host)
        &&& server.peers@ == map![host => conn]
        &&& server.sinks@ == Map::<NETID, NetConnectionSink<S>>::empty()
        &&& server.status@ == unknown
    }

    /// Whether `relay` is the relay of the new room `room_id` around the connection `conn` of its
    /// first peer. Nobody owns the room, which closes with the last connection.
    pub open spec fn relay_of_peers<S: Clone, R>(
        conn: NetConnection<S, R>,
        room_id: RoomID,
        read: RelaySettings,
        relay: PeerRelay<S, R>,
    ) -> bool {
        let first = conn.sink.netid;
        &&& relay.well_formed()
        &&& relay.config.as_read(room_id, read)
        &&& relay.close_mode == PeerRelayCloseMode::NoPeers
        &&& relay.ownership == PeerRelayOwnership::Nobody
        &&& relay.peers@ == map![first => conn]
        &&& relay.sinks@.dom() == set![first]
        &&& relay.sinks@[first].info == conn.sink.info
        &&& cloned(conn.sink.queue, relay.sinks@[first].queue)
        &&& relay.status@ == (Status { peers: 0, sinks: 0, pings: Map::empty(), info: None })
    }

    /// A room around the connection of its host: the room, the relay from the clients to the
    /// host, and the relay from the host to the clients.
    pub fn new_server_client<S: Clone, R>(
        conn: NetConnection<S, R>,
        info: RoomInfo,
        read: RelaySettings,
    ) -> (r: (Self, PeerRelay<S, R>, PeerRelay<S, R>))
        requires
            ping_millis(read) + 1000 <= u64::MAX,
        ensures
            r.0.is_new(info, read),
            r.0.topology == RoomTopology::ServerClient,
            Self::relays_of_host(conn, info.room_id, read, r.1, r.2),
    {
        let config_server = PeerRelayConfig::new(info.room_id, read);
        // Create relay for clients -> host
        let mut config_clients = config_server;
        config_clients.status_timer.duration = Duration::zero();  // No status report need
        let host: NETID = conn.get_netid();
        let sinks: Vec<NetConnectionSink<S>> = vec![conn.clone_sink()];
        let clients = PeerRelay::new(
            config_clients,
            PeerRelayCloseMode::NoSinks,
            PeerRelayOwnership::Peer(host),
            Vec::new(),
            sinks,
        );
        // Create relay for host -> clients
        let conns: Vec<NetConnection<S, R>> = vec![conn];
        let server = PeerRelay::new(
            config_server,
            PeerRelayCloseMode::NoPeers,
            PeerRelayOwnership::Peer(host),
            conns,
            Vec::new(),
        );
        proof {
            reveal_with_fuel(crate::relay::peer_relay::conns_by_netid, 2);
            reveal_with_fuel(crate::relay::peer_relay::sinks_by_netid, 2);
            assert(sinks@.drop_last() =~= Seq::empty());
            assert(conns@.drop_last() =~= Seq::empty());
            assert(clients.sinks@.dom() =~= set![host]);
            assert(server.peers@ =~= map![host => conn]);
        }
        let room = Self {
            info,
            channel_msgs_per_update: config_server.channel_msgs_per_update,
            peers: 1,
            client_netid_next: NETID_CLIENTS_RELAY_START,
            topology: RoomTopology::ServerClient,
        };
        (room, clients, server)
    }

    /// A room around the connection of its first peer: the room, and the relay between all peers.
    pub fn new_peer_to_peer<S: Clone, R>(
        conn: NetConnection<S, R>,
        info: RoomInfo,
        read: RelaySettings,
    ) -> (r: (Self, PeerRelay<S, R>))
        requires
            ping_millis(read) + 1000 <= u64::MAX,
        ensures
            r.0.is_new(info, read),
            r.0.topology == RoomTopology::PeerToPeer,
            Self::relay_of_peers(conn, info.room_id, read, r.1),
    {
        let config = PeerRelayConfig::new(info.room_id, read);
        // Create relay for all peers
        let sinks: Vec<NetConnectionSink<S>> = vec![conn.clone_sink()];
        let conns: Vec<NetConnection<S, R>> = vec![conn];
        let relay = PeerRelay::new(
            config,
            PeerRelayCloseMode::NoPeers,
            PeerRelayOwnership::Nobody,
            conns,
            sinks,
        );
        proof {
            reveal_with_fuel(crate::relay::peer_relay::conns_by_netid, 2);
            reveal_with_fuel(crate::relay::peer_relay::sinks_by_netid, 2);
            assert(sinks@.drop_last() =~= Seq::empty());
            assert(conns@.drop_last() =~= Seq::empty());
            assert(relay.sinks@.dom() =~= set![conn.sink.netid]);
            assert(relay.peers@ =~= map![conn.sink.netid => conn]);
        }
        let room = Self {
            info,
            channel_msgs_per_update: config.channel_msgs_per_update,
            peers: 1,
            client_netid_next: NETID_CLIENTS_RELAY_START,
            topology: RoomTopology::PeerToPeer,
        };
        (room, relay)
    }

    /// The relays whose messages end when this room closes.
    pub fn channels(&self) -> (r: Vec<Channel>)
        ensures
            r@ == match self.topology {
                RoomTopology::PeerToPeer => seq![Channel::Relay],
                RoomTopology::ServerClient => seq![Channel::Server, Channel::Clients],
            },
    {
        match self.topology {
            RoomTopology::PeerToPeer => vec![Channel::Relay],
            RoomTopology::ServerClient => vec![Channel::Server, Channel::Clients],
        }
    }

    /// Whether `a` says where the connection `conn` goes that enters this room, and `after` is the
    /// room then. It gets the next NETID. Who is in a room with a host is written to by the relay
    /// that reads from the host, and read from by the relay that writes to it.
    pub open spec fn entered<S: Clone, R>(
        &self,
        conn: NetConnection<S, R>,
        a: Addition<S, R>,
        after: &Self,
    ) -> bool {
        let netid = self.client_netid_next;
        &&& *after == (Room { client_netid_next: (netid + 1) as u64, ..*self })
        &&& a.conn.sink == (NetConnectionSink { netid, ..conn.sink })
        &&& a.conn.stream == conn.stream
        &&& a.sink.netid == netid
        &&& a.sink.info == conn.sink.info
        &&& cloned(conn.sink.queue, a.sink.queue)
        &&& match self.topology {
            RoomTopology::PeerToPeer => a.sink_to == Channel::Relay && a.conn_to == Channel::Relay,
            RoomTopology::ServerClient => a.sink_to == Channel::Server && a.conn_to
                == Channel::Clients,
        }
    }

    /// Gives a connection the next NETID and says where it goes. A room that is closed, as
    /// `closed` says, hands it back.
    pub fn add_connection<S: Clone, R>(&mut self, conn: NetConnection<S, R>, closed: bool) -> (r:
        Result<Addition<S, R>, NetConnection<S, R>>)
        requires
            closed || old(self).client_netid_next < u64::MAX,
        ensures
            if closed {
                &&& r == Err::<Addition<S, R>, NetConnection<S, R>>(conn)
                &&& *final(self) == *old(self)
            } else {
                &&& r matches Ok(a)
                &&& old(self).entered(conn, a, final(self))
            },
    {
        if closed {
            return Err(conn);
        }
        // Assign NETID to connection
        let netid: NETID = self.client_netid_next;
        self.client_netid_next = self.client_netid_next + 1;
        let mut conn = conn;
        conn.set_netid(netid);
        // Handle per topology
        let (sink_to, conn_to): (Channel, Channel) = match self.topology {
            RoomTopology::PeerToPeer => (Channel::Relay, Channel::Relay),
            RoomTopology::ServerClient => (Channel::Server, Channel::Clients),
        };
        let sink = conn.clone_sink();
        Ok(Addition { sink, sink_to, conn, conn_to })
    }

    /// Whether this room is in use, where `closed` says whether it is closed.
    pub fn is_active(&self, closed: bool) -> (r: bool)
        ensures
            r == (!closed && 0 < self.peers),
    {
        !closed && 0 < self.peers
    }

    /// Begins an update. A room that is closed, as `closed` says, collects nothing.
    pub fn begin_update<S, R>(&self, closed: bool) -> (c: Collection<S, R>)
        ensures
            ({
                let empty = Collected::<S, R> {
                    messages: Seq::empty(),
                    rounds: 0,
                    stage: Stage::Done,
                };
                c@ == if closed {
                    empty
                } else {
                    empty.at_round(self.channel_msgs_per_update as nat, self.topology)
                }
            }),
            c@.within(self.channel_msgs_per_update as nat, self.topology),
    {
        let mut c = Collection { messages: Vec::new(), rounds: 0, stage: Stage::Done };
        if !closed {
            self.begin_round(&mut c);
        }
        c
    }

    fn begin_round<S, R>(&self, c: &mut Collection<S, R>)
        ensures
            final(c)@ == old(c)@.at_round(self.channel_msgs_per_update as nat, self.topology),
    {
        c.stage = if c.rounds >= self.channel_msgs_per_update || c.messages.len()
            >= self.channel_msgs_per_update {
            Stage::Done
        } else {
            match self.topology {
                RoomTopology::PeerToPeer => Stage::Relay,
                RoomTopology::ServerClient => Stage::Server,
            }
        };
    }

    fn next_round<S, R>(&self, c: &mut Collection<S, R>)
        requires
            old(c).rounds < usize::MAX,
        ensures
            final(c)@ == old(c)@.next_round(self.channel_msgs_per_update as nat, self.topology),
    {
        c.rounds = c.rounds + 1;
        self.begin_round(c);
    }

    /// Takes what a look at the messages of the current relay found.
    pub fn collect<S, R>(&self, c: &mut Collection<S, R>, polled: RoomPolled<S, R>)
        requires
            old(c)@.within(self.channel_msgs_per_update as nat, self.topology),
        ensures
            final(c)@ == old(c)@.behind(
                self.channel_msgs_per_update as nat,
                self.topology,
                polled,
            ),
            final(c)@.within(self.channel_msgs_per_update as nat, self.topology),
    {
        proof {
            collection_within_limit(
                c@,
                self.channel_msgs_per_update as nat,
                self.topology,
                polled,
            );
        }
        match c.stage {
            Stage::Done | Stage::Lost => {},
            Stage::Relay => match polled {
                RoomPolled::Message(msg) => {
                    c.messages.push(msg);
                    self.next_round(c);
                },
                RoomPolled::Empty => {
                    c.stage = Stage::Done;
                },
                RoomPolled::Disconnected => {
                    c.messages = Vec::new();
                    c.stage = Stage::Lost;
                },
            },
            Stage::Server => match polled {
                RoomPolled::Message(msg) => {
                    c.messages.push(msg);
                    c.stage = if c.messages.len() >= self.channel_msgs_per_update {
                        Stage::Done
                    } else {
                        Stage::Clients { server_empty: false }
                    };
                },
                RoomPolled::Empty => {
                    c.stage = Stage::Clients { server_empty: true };
                },
                RoomPolled::Disconnected => {
                    c.messages = Vec::new();
                    c.stage = Stage::Lost;
                },
            },
            Stage::Clients { server_empty } => match polled {
                RoomPolled::Message(msg) => {
                    c.messages.push(msg);
                    self.next_round(c);
                },
                RoomPolled::Empty => {
                    if server_empty {
                        c.stage = Stage::Done;
                    } else {
                        self.next_round(c);
                    }
                },
                RoomPolled::Disconnected => {
                    c.messages = Vec::new();
                    c.stage = Stage::Lost;
                },
            },
        }
    }

    /// Whether `after` is this room behind the report `status`.
    pub open spec fn reported(&self, status: Status, after: &Self) -> bool {
        &&& after.set_up_as(self)
        &&& after.peers == match self.topology {
            RoomTopology::ServerClient => status.peers + status.sinks,
            RoomTopology::PeerToPeer => status.peers,
        }
        &&& is_largest(status.pings, after.info.ping)
        &&& after.info@ == {
            let pinged = RoomDetails { ping: after.info.ping, ..self.info@ };
            match status.info {
                Some(info) => redescribed(pinged, info),
                None => pinged,
            }
        }
    }

    /// Takes over the report `status` of a relay.
    pub fn update_status(&mut self, status: PeerRelayStatus)
        requires
            old(self).topology == RoomTopology::ServerClient ==> status.peers + status.sinks
                <= usize::MAX,
        ensures
            old(self).reported(status@, final(self)),
    {
        // Update room info from status
        self.info.ping = largest_ping(&status.pings);
        self.peers = match self.topology {
            RoomTopology::ServerClient => status.peers + status.sinks,
            RoomTopology::PeerToPeer => status.peers,
        };
        if let Some(info) = status.info {
            self.info.update(info);
        }
    }

    /// Whether `after` and `action` are what the message `msg` of a relay makes of this room.
    pub open spec fn processed<S, R>(
        &self,
        msg: PeerRelayMessage<S, R>,
        after: &Self,
        action: RoomAction<S, R>,
    ) -> bool {
        &&& msg is UpdateStatus || *after == *self
        &&& match msg {
            PeerRelayMessage::UpdateStatus(status) => {
                &&& self.reported(status@, after)
                &&& action is Nothing
            },
            PeerRelayMessage::StoreConnection(conn) => action == RoomAction::Leave {
                conn,
                remove_sink: if self.topology == RoomTopology::ServerClient {
                    Some(conn.sink.netid)
                } else {
                    None
                },
            },
            PeerRelayMessage::ReturnConnection(conn, netid) => action == RoomAction::Leave {
                conn,
                remove_sink: if self.topology == RoomTopology::ServerClient {
                    Some(netid)
                } else {
                    None
                },
            },
            PeerRelayMessage::RemoveConnection(netid) => if self.topology
                == RoomTopology::ServerClient {
                action == RoomAction::<S, R>::Remove(netid)
            } else {
                action is Nothing
            },
            _ => action == RoomAction::Unexpected(msg),
        }
    }

    /// What becomes of a connection that leaves this room, where it had the NETID `netid`.
    fn leave<S, R>(&self, conn: NetConnection<S, R>, netid: NETID) -> (action: RoomAction<S, R>)
        ensures
            action == (RoomAction::Leave {
                conn,
                remove_sink: if self.topology == RoomTopology::ServerClient {
                    Some(netid)
                } else {
                    None
                },
            }),
    {
        // Remove any sink that rooms may have
        // Peer to peer doesn't need this since all is on same relay which already does internal
        // cleanup
        let remove_sink: Option<NETID> = match self.topology {
            RoomTopology::ServerClient => Some(netid),
            RoomTopology::PeerToPeer => None,
        };
        RoomAction::Leave { conn, remove_sink }
    }

    /// Takes a message of a relay.
    pub fn process_message<S, R>(&mut self, msg: PeerRelayMessage<S, R>) -> (action: RoomAction<
        S,
        R,
    >)
        requires
            msg matches PeerRelayMessage::UpdateStatus(status) ==> old(self).topology
                == RoomTopology::ServerClient ==> status.peers + status.sinks <= usize::MAX,
        ensures
            old(self).processed(msg, final(self), action),
    {
        match msg {
            PeerRelayMessage::UpdateStatus(status) => {
                self.update_status(status);
                RoomAction::Nothing
            },
            PeerRelayMessage::StoreConnection(conn) => {
                let netid: NETID = conn.get_netid();
                self.leave(conn, netid)
            },
            PeerRelayMessage::ReturnConnection(conn, netid) => self.leave(conn, netid),
            PeerRelayMessage::RemoveConnection(netid) => match self.topology {
                // Remove any connections that rooms may have, this is usually sent to Room when a
                // peer receives ClosePeer
                RoomTopology::ServerClient => RoomAction::Remove(netid),
                RoomTopology::PeerToPeer => RoomAction::Nothing,
            },
            msg => RoomAction::Unexpected(msg),
        }
    }

    /// What this room is called in the log.
    pub open spec fn says(&self) -> Seq<char> {
        "Room { Info: "@ + self.info.says() + ", Peers: "@ + decimal(self.peers as nat) + " }"@
    }

    /// What this room is called in the log.
    pub fn to_text(&self) -> (s: String)
        ensures
            s@ == self.says(),
    {
        let mut s = "Room { Info: ".to_owned();
        s.append(self.info.to_text().as_str());
        s.append(", Peers: ");
        push_decimal(&mut s, self.peers as u64);
        s.append(" }");
        s
    }
}

/// A peer that leaves a room with two relays is written to no more by either: the relay that
/// handled its message gives up its sink, and the room has the other one give up the sink of the
/// NETID that the peer had there. The connection itself leaves without a NETID.
pub proof fn leaver_gets_nothing<S, R>(
    room: Room,
    before: PeerRelay<S, R>,
    source: NETID,
    closed: Seq<NETID>,
    after: PeerRelay<S, R>,
    out: RelayOutcome<S, R>,
    room_after: Room,
    action: RoomAction<S, R>,
    netid: NETID,
    other: PeerRelay<S, R>,
    other_closed: Seq<NETID>,
    other_after: PeerRelay<S, R>,
    other_out: QueueOutcome<S, R>,
    m: Envelope,
    written: Seq<(NETID, NetConnectionMessage)>,
    i: int,
)
    requires
        room.topology == RoomTopology::ServerClient,
        before.peers@.contains_key(source),
        PeerRelay::handled(before, source, Said::PeerLeaveRoom, closed, after, out),
        out.to_room matches Some(msg) ==> room.processed(msg, &room_after, action),
        action matches RoomAction::Leave { remove_sink, .. } ==> remove_sink == Some(netid),
        PeerRelay::processed(
            other,
            PeerRelayMessage::RemoveSink(netid),
            other_closed,
            other_after,
            other_out,
        ),
        after.routed(m, closed, written) || other_after.routed(m, other_closed, written),
        0 <= i < written.len(),
    ensures
        action matches RoomAction::Leave { conn, .. } && conn.sink.netid == NETID_NONE,
        netid == source,
        written[i].0 != source,
{
    if m.destination == NETID_ALL {
        let ids = written.map_values(|d: (NETID, NetConnectionMessage)| d.0);
        assert(ids[i] == written[i].0);
        assert(ids.to_set().contains(written[i].0));
    }
}

} // verus!
