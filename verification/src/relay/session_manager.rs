//! The initial handshake and other game-relay interactions, such as creating or joining rooms.

use crate::lobby::lobby_manager::{rooms_for, same_rooms, LobbyManager, RoomJoinInfo};
use crate::lobby::room_info::{LobbyHost, LobbyWithRooms, RoomInfo};
use crate::netconnection::netconnection::{
    NetConnection, NetConnectionMessage, NetConnectionRead, NetConnectionSink, NETID_NONE,
};
use crate::relay::messages::{
    complete, is_answer, read_message, NetRelayMessage, NetRelayMessageError, Said,
};
use crate::relay::netconnection::is_last_contact_more_than;
use crate::utils::config::{config_from_str, configured};
use crate::utils::time::{
    duration_between, measured, since, stood_at, told, Duration, Timestamp,
};
use vstd::prelude::*;

verus! {

/// What the tasks of the session manager tell it.
pub enum SessionManagerMessage<S, R> {
    Ping(Timestamp),
    StoreConnection(NetConnection<S, R>),
    TransferConnection(NetConnection<S, R>, NetRelayMessage),
    ReplyConnection(NetConnection<S, R>, NetRelayMessage),
}

/// What a look at the queue of the session manager finds.
pub enum SessionPolled<S, R> {
    Message(SessionManagerMessage<S, R>),
    Empty,
    Disconnected,
}

/// What the session manager has to do.
pub enum SessionAction<S, R> {
    Nothing,
    /// A ping took this many nanoseconds.
    Pinged(Duration),
    /// A room is to be created around the connection.
    CreateRoom { conn: NetConnection<S, R>, info: RoomInfo, topology: u16 },
    /// The connection is to be let into a room.
    JoinRoom { conn: NetConnection<S, R>, join: RoomJoinInfo },
    /// The connection is to be closed with this code.
    Close(NetConnection<S, R>, u32),
    /// The message is to be answered.
    Reply(NetConnection<S, R>, NetRelayMessage),
}

/// The connections that have not entered a room.
pub struct SessionManagerState<S, R> {
    pub running: bool,
    /// Milliseconds between two looks
    pub poll_interval: u64,
    /// Milliseconds after which a peer that asks for nothing is dropped
    pub peer_timeout: u64,
    pub peers: Vec<NetConnection<S, R>>,
}

/// What becomes of a connection that was read from.
pub enum PeerStep<S, R> {
    /// It is dropped, which closes it.
    Drop(NetConnection<S, R>),
    /// It is closed with this code.
    Close(NetConnection<S, R>, u32),
    /// It goes to the session manager with this.
    Queue(SessionManagerMessage<S, R>),
}

/// What becomes of a connection that brought `message`, where `late` says whether it took too
/// long.
pub open spec fn step_of<S, R>(
    conn: NetConnection<S, R>,
    message: Result<NetRelayMessage, NetRelayMessageError>,
    late: bool,
) -> PeerStep<S, R> {
    match message {
        Err(_) => PeerStep::Close(conn, 1948466945),
        Ok(m) => if late {
            PeerStep::Drop(conn)
        } else {
            match m@ {
                Said::PeerListLobbies { .. } => PeerStep::Queue(
                    SessionManagerMessage::ReplyConnection(conn, m),
                ),
                Said::PeerSetupRoom { .. } | Said::PeerJoinRoom(_) => PeerStep::Queue(
                    SessionManagerMessage::TransferConnection(conn, m),
                ),
                _ => PeerStep::Drop(conn),
            }
        },
    }
}

/// Only who asks for the rooms, for a new room or to join one goes on to the session manager, and
/// with the connection that it came on.
pub proof fn only_requests_go_on<S, R>(
    conn: NetConnection<S, R>,
    message: Result<NetRelayMessage, NetRelayMessageError>,
    late: bool,
)
    ensures
        step_of(conn, message, late) is Queue <==> !late && (message matches Ok(m) && (
        m@ is PeerListLobbies || m@ is PeerSetupRoom || m@ is PeerJoinRoom)),
        step_of(conn, message, late) matches PeerStep::Queue(
            SessionManagerMessage::TransferConnection(c, _),
        ) ==> c == conn,
        step_of(conn, message, late) matches PeerStep::Queue(
            SessionManagerMessage::ReplyConnection(c, _),
        ) ==> c == conn,
{
}

/// What becomes of a connection that brought `message`, where `late` says whether it took too
/// long.
pub fn judge_message<S, R>(
    conn: NetConnection<S, R>,
    message: Result<NetRelayMessage, NetRelayMessageError>,
    late: bool,
) -> (step: PeerStep<S, R>)
    ensures
        step == step_of(conn, message, late),
{
    let message = match message {
        Ok(message) => message,
        Err(_) => return PeerStep::Close(conn, 1948466945),
    };
    // Check if peer took too much time to answer
    if late {
        // We just close and drop it here, no point going further to be discarded anyway
        return PeerStep::Drop(conn);
    }
    match message {
        NetRelayMessage::PeerListLobbies { .. } => {
            // Reply with the rooms, we need access to rooms list
            PeerStep::Queue(SessionManagerMessage::ReplyConnection(conn, message))
        },
        NetRelayMessage::PeerSetupRoom { .. } | NetRelayMessage::PeerJoinRoom(_) => {
            // Goes to a room, which only the session manager can do
            PeerStep::Queue(SessionManagerMessage::TransferConnection(conn, message))
        },
        _ => PeerStep::Drop(conn),
    }
}

/// Whether `step` is what becomes of a connection that brought `msg`, where the clock read `now`,
/// the last contact lay `seen` back and reading the message gave `message`.
pub open spec fn steps_with<S, R>(
    conn: NetConnection<S, R>,
    msg: NetConnectionMessage,
    now: Option<Duration>,
    seen: Duration,
    message: Result<NetRelayMessage, NetRelayMessageError>,
    peer_timeout: u64,
    step: PeerStep<S, R>,
) -> bool {
    &&& told(now)
    &&& measured(conn.stream.last_contact, seen)
    &&& is_answer(message, read_message(msg@, now))
    &&& step == step_of(conn, message, seen@ / 1_000_000 > peer_timeout)
}

/// What becomes of a connection that was read from with the result `read`. It took too long where
/// its last contact lies more than `peer_timeout` milliseconds back.
pub fn process_peer_connection<S, R>(
    peer_timeout: u64,
    conn: NetConnection<S, R>,
    read: NetConnectionRead<NetConnectionMessage>,
) -> (step: PeerStep<S, R>)
    requires
        read matches NetConnectionRead::Data(msg) ==> complete(msg@),
    ensures
        match read {
            NetConnectionRead::Closed => step == PeerStep::Drop(conn),
            NetConnectionRead::Empty => step == PeerStep::Queue(
                SessionManagerMessage::StoreConnection(conn),
            ),
            NetConnectionRead::Data(msg) => exists|
                now: Option<Duration>,
                seen: Duration,
                message: Result<NetRelayMessage, NetRelayMessageError>,
            | #[trigger] steps_with(conn, msg, now, seen, message, peer_timeout, step)
                && call_ensures(NetRelayMessage::from_message, (msg,), message),
        },
{
    match read {
        NetConnectionRead::Closed => {
            // Nothing to do here since is closed
            PeerStep::Drop(conn)
        },
        NetConnectionRead::Empty => {
            // No message to read, send connection back
            PeerStep::Queue(SessionManagerMessage::StoreConnection(conn))
        },
        NetConnectionRead::Data(msg) => {
            let message = NetRelayMessage::from_message(msg);
            let late: bool = is_last_contact_more_than(&conn, peer_timeout);
            let step = judge_message(conn, message, late);
            proof {
                let now = choose|now: Option<Duration>| #[trigger]
                    told(now) && is_answer(message, read_message(msg@, now));
                let seen = choose|seen: Duration| #[trigger]
                    measured(conn.stream.last_contact, seen) && late == (seen@ / 1_000_000 > peer_timeout);
                assert(steps_with(conn, msg, now, seen, message, peer_timeout, step));
            }
            step
        },
    }
}

/// The answer to the message `msg`, where `room_infos` are the rooms of the lobby at `host`, or
/// the code that its sender is closed with.
pub fn process_connection_reply(
    msg: NetRelayMessage,
    room_infos: &Vec<RoomInfo>,
    host: &LobbyHost,
) -> (r: Result<NetRelayMessage, u32>)
    ensures
        match msg@ {
            Said::PeerListLobbies { game_type, format, .. } => {
                &&& r matches Ok(m)
                &&& m@ matches Said::RelayListLobbies { lobbies, format: answered }
                &&& answered == format
                &&& lobbies.len() == 1
                &&& lobbies[0].host@ == host@
                &&& same_rooms(lobbies[0].rooms@, rooms_for(room_infos@, game_type))
            },
            _ => r == Err::<NetRelayMessage, u32>(1593483496),
        },
{
    // First assemble the relay reply
    match msg {
        NetRelayMessage::PeerListLobbies { game_type, format, .. } => {
            let lobbies: Vec<LobbyWithRooms> = vec![
                LobbyWithRooms {
                    host: host.clone(),
                    rooms: LobbyManager::filter_room_by_game_type(room_infos, &game_type),
                },
            ];
            Ok(NetRelayMessage::RelayListLobbies { lobbies, format })
        },
        _ => Err(1593483496),
    }
}

/// What becomes of a connection whose message was answered, where `sent` says whether the answer
/// is on its way. Being answered is a contact.
pub fn after_reply<S, R>(conn: NetConnection<S, R>, sent: bool) -> (step: PeerStep<S, R>)
    ensures
        if sent {
            &&& step matches PeerStep::Queue(SessionManagerMessage::StoreConnection(c))
            &&& c.same_but_for_contact(&conn)
            &&& stood_at(c.stream.last_contact)
        } else {
            step == PeerStep::Drop(conn)
        },
{
    if !sent {
        return PeerStep::Drop(conn);
    }
    // Store connection back
    let mut conn = conn;
    conn.stream.update_last_contact();
    PeerStep::Queue(SessionManagerMessage::StoreConnection(conn))
}

impl<S, R> SessionManagerState<S, R> {
    /// A session manager with the settings that were read.
    pub fn new(poll_interval: Option<String>, peer_timeout: Option<String>) -> (s: Self)
        ensures
            s.running,
            s.poll_interval == configured(poll_interval, u64::MAX as nat, 10),
            s.peer_timeout == configured(peer_timeout, u64::MAX as nat, 5000),
            s.peers@ == Seq::<NetConnection<S, R>>::empty(),
    {
        SessionManagerState {
            running: true,
            poll_interval: config_from_str(poll_interval, 10),
            peer_timeout: config_from_str(peer_timeout, 5000),
            peers: Vec::new(),
        }
    }

    /// Whether this session manager is set as `other` is.
    pub open spec fn set_as(&self, other: &Self) -> bool {
        self.poll_interval == other.poll_interval && self.peer_timeout == other.peer_timeout
    }

    /// Takes what a look at the queue found, at the clock reading `now`.
    pub fn process_queue(&mut self, polled: SessionPolled<S, R>, now: Option<Duration>) -> (action:
        SessionAction<S, R>)
        ensures
            final(self).set_as(old(self)),
            final(self).running == (old(self).running && !(polled is Disconnected)),
            final(self).peers@ == match polled {
                SessionPolled::Message(SessionManagerMessage::StoreConnection(conn)) => old(
                    self,
                ).peers@.push(
                    // A session has no NETID
                    NetConnection {
                        sink: NetConnectionSink { netid: NETID_NONE, ..conn.sink },
                        stream: conn.stream,
                    },
                ),
                _ => old(self).peers@,
            },
            match polled {
                SessionPolled::Empty | SessionPolled::Disconnected => action is Nothing,
                SessionPolled::Message(SessionManagerMessage::Ping(sent)) => action matches
                    SessionAction::Pinged(d) && d@ == since(now, sent),
                SessionPolled::Message(SessionManagerMessage::StoreConnection(_)) => action is Nothing,
                SessionPolled::Message(SessionManagerMessage::TransferConnection(conn, msg)) =>
                match msg {
                    NetRelayMessage::PeerSetupRoom { info, topology } => action
                        == SessionAction::CreateRoom { conn, info, topology },
                    NetRelayMessage::PeerJoinRoom(info) => action == SessionAction::JoinRoom {
                        conn,
                        join: info,
                    },
                    _ => action == SessionAction::Close(conn, 175738375),
                },
                SessionPolled::Message(SessionManagerMessage::ReplyConnection(conn, msg)) => action
                    == SessionAction::Reply(conn, msg),
            },
    {
        // Try fetching from queue
        let msg = match polled {
            SessionPolled::Message(msg) => msg,
            SessionPolled::Empty => return SessionAction::Nothing,
            SessionPolled::Disconnected => {
                self.running = false;
                return SessionAction::Nothing;
            },
        };
        // Process it
        match msg {
            SessionManagerMessage::Ping(past) => SessionAction::Pinged(
                duration_between(now, &past),
            ),
            SessionManagerMessage::StoreConnection(conn) => {
                // Accept session for polling
                let mut conn = conn;
                if conn.get_netid() != NETID_NONE {
                    conn.set_netid(NETID_NONE);
                }
                self.peers.push(conn);
                SessionAction::Nothing
            },
            SessionManagerMessage::TransferConnection(conn, msg) => match msg {
                NetRelayMessage::PeerSetupRoom { info, topology } => SessionAction::CreateRoom {
                    conn,
                    info,
                    topology,
                },
                NetRelayMessage::PeerJoinRoom(info) => SessionAction::JoinRoom {
                    conn,
                    join: info,
                },
                _ => SessionAction::Close(conn, 175738375),
            },
            SessionManagerMessage::ReplyConnection(conn, msg) => SessionAction::Reply(conn, msg),
        }
    }

    /// Hands out all connections, so that they can be read from.
    pub fn poll_peers(&mut self) -> (r: Vec<NetConnection<S, R>>)
        ensures
            final(self).set_as(old(self)),
            final(self).running == old(self).running,
            final(self).peers@ == Seq::<NetConnection<S, R>>::empty(),
            r@ == old(self).peers@,
    {
        // We take all peers currently available and send them to tasks for processing, then
        // collect back
        let mut peers: Vec<NetConnection<S, R>> = Vec::new();
        std::mem::swap(&mut self.peers, &mut peers);
        peers
    }
}

} // verus!
