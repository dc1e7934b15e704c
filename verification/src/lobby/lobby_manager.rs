//! The rooms of a lobby, and who may enter them.

use crate::lobby::room::{Addition, Room, RoomAction, RoomTopology};
use crate::lobby::room_info::{RoomID, RoomInfo};
use crate::netconnection::netconnection::{NetConnection, NetConnectionSink, NETID_HOST};
use crate::relay::peer_relay::{ping_millis, PeerRelay, PeerRelayMessage, RelaySettings};
use crate::text::{decimal, push_decimal};
use crate::utils::ids::{holds, ids_of, lists};
use std::collections::HashMap;
use vstd::prelude::*;

verus! {

broadcast use vstd::std_specs::hash::group_hash_axioms;

/// Contains basic info required to join a room
#[derive(Debug)]
pub struct RoomJoinInfo {
    pub game_type: String,
    pub game_version: String,
    pub room_id: RoomID,
}

/// What a client that wants to join a room says, as values.
pub struct JoinDetails {
    pub game_type: Seq<char>,
    pub game_version: Seq<char>,
    pub room_id: RoomID,
}

impl View for RoomJoinInfo {
    type V = JoinDetails;

    open spec fn view(&self) -> JoinDetails {
        JoinDetails {
            game_type: self.game_type@,
            game_version: self.game_version@,
            room_id: self.room_id,
        }
    }
}

impl RoomJoinInfo {
    /// What this request is called in the log.
    pub open spec fn says(&self) -> Seq<char> {
        "RoomJoinInfo { Id: "@ + decimal(self.room_id as nat) + " Game: "@ + self.game_type@ + " "@
            + self.game_version@ + " }"@
    }

    /// What this request is called in the log.
    pub fn to_text(&self) -> (s: String)
        ensures
            s@ == self.says(),
    {
        let mut s = "RoomJoinInfo { Id: ".to_owned();
        push_decimal(&mut s, self.room_id);
        s.append(" Game: ");
        s.append(self.game_type.as_str());
        s.append(" ");
        s.append(self.game_version.as_str());
        s.append(" }");
        s
    }
}

/// The relays of a new room, which are to be run.
pub enum Relays<S, R> {
    ServerClient { clients: PeerRelay<S, R>, server: PeerRelay<S, R> },
    PeerToPeer(PeerRelay<S, R>),
}

/// What a request to create a room leads to.
pub enum Creation<S, R> {
    /// The connection is closed with this code.
    Refused(NetConnection<S, R>, u32),
    /// The room is there; one that had the same id is gone.
    Created { room_id: RoomID, relays: Relays<S, R>, replaced: Option<Room> },
}

/// What a request to join a room leads to.
pub enum Joining<S, R> {
    /// The connection is closed with this code.
    Refused(NetConnection<S, R>, u32),
    /// The room is closed: the connection is dropped.
    Dropped(NetConnection<S, R>),
    Joined(Addition<S, R>),
}

pub struct LobbyManager {
    /// Unique identifier for rooms
    pub room_next_id: u64,
    /// Internal map of rooms
    pub rooms: HashMap<RoomID, Room>,
}

/// Why the request `join` is refused, where `rooms` are there, if it is.
pub open spec fn join_refusal(rooms: Map<RoomID, Room>, join: JoinDetails) -> Option<u32> {
    if !rooms.contains_key(join.room_id) {
        Some(2)
    } else {
        let info = rooms[join.room_id].info@;
        if info.game_type != join.game_type || info.game_version != join.game_version {
            Some(3)
        } else if info.room_closed {
            Some(4)
        } else {
            None
        }
    }
}

/// The rooms of `infos` for the game `game_type`, in their order, or all where it is empty.
pub open spec fn rooms_for(infos: Seq<RoomInfo>, game_type: Seq<char>) -> Seq<RoomInfo>
    decreases infos.len(),
{
    if infos.len() == 0 {
        Seq::empty()
    } else {
        let before = rooms_for(infos.drop_last(), game_type);
        if game_type.len() == 0 || infos.last().game_type@ == game_type {
            before.push(infos.last())
        } else {
            before
        }
    }
}

/// Whether `a` and `b` say the same of the same rooms, in the same order.
pub open spec fn same_rooms(a: Seq<RoomInfo>, b: Seq<RoomInfo>) -> bool {
    &&& a.len() == b.len()
    &&& forall|i: int|
        0 <= i < a.len() ==> (#[trigger] a[i])@ == b[i]@ && a[i].extra_data.listed()
            == b[i].extra_data.listed()
}

/// Only rooms for the game that was asked for are listed, and every one of them is.
pub proof fn rooms_for_game(infos: Seq<RoomInfo>, game_type: Seq<char>, room: RoomInfo)
    ensures
        rooms_for(infos, game_type).contains(room) <==> infos.contains(room) && (game_type.len()
            == 0 || room.game_type@ == game_type),
    decreases infos.len(),
{
    if infos.len() > 0 {
        let rest = infos.drop_last();
        let before = rooms_for(rest, game_type);
        let last = infos.last();
        rooms_for_game(rest, game_type, room);
        if infos.contains(room) && room != last {
            let i = choose|i: int| 0 <= i < infos.len() && infos[i] == room;
            assert(rest[i] == room);
        }
        if rest.contains(room) {
            let i = choose|i: int| 0 <= i < rest.len() && rest[i] == room;
            assert(infos[i] == room);
        }
        assert(infos[infos.len() - 1] == last);
        if before.contains(room) {
            let i = choose|i: int| 0 <= i < before.len() && before[i] == room;
            assert(before.push(last)[i] == room);
        }
        if before.push(last).contains(room) && room != last {
            let i = choose|i: int| 0 <= i < before.push(last).len() && before.push(last)[i] == room;
            assert(before[i] == room);
        }
        assert(before.push(last)[before.len() as int] == last);
    }
}

impl LobbyManager {
    /// Whether every room stands under its own id.
    pub open spec fn well_formed(&self) -> bool {
        forall|id: RoomID| #[trigger]
            self.rooms@.contains_key(id) ==> self.rooms@[id].info.room_id == id
    }

    /// Whether every id that is given is below the next one.
    pub open spec fn ids_given(&self) -> bool {
        forall|id: RoomID| #[trigger] self.rooms@.contains_key(id) ==> id < self.room_next_id
    }

    pub fn new() -> (m: Self)
        ensures
            m.well_formed(),
            m.ids_given(),
            m.room_next_id == 1,
            m.rooms@ == Map::<RoomID, Room>::empty(),
    {
        Self { room_next_id: 1, rooms: HashMap::new() }
    }

    /// The next id, and the one after it: behind the last one the ids begin anew.
    pub open spec fn next_id(id: u64) -> u64 {
        if id == u64::MAX {
            0
        } else {
            (id + 1) as u64
        }
    }

    fn get_next_room_id(&mut self) -> (id: RoomID)
        ensures
            id == old(self).room_next_id,
            final(self).room_next_id == Self::next_id(old(self).room_next_id),
            final(self).rooms == old(self).rooms,
    {
        let id: RoomID = self.room_next_id;
        self.room_next_id = if id == u64::MAX {
            0
        } else {
            id + 1
        };
        id
    }

    /// What the rooms say of themselves.
    pub fn refresh_room_infos(&self) -> (r: Vec<RoomInfo>)
        ensures
            exists|ids: Seq<RoomID>| #[trigger]
                lists(ids, self.rooms@.dom()) && same_rooms(
                    r@,
                    ids.map_values(|id: RoomID| self.rooms@[id].info),
                ),
    {
        let ids = ids_of(&self.rooms);
        let mut r: Vec<RoomInfo> = Vec::new();
        let mut i: usize = 0;
        while i < ids.len()
            invariant
                i <= ids.len(),
                lists(ids@, self.rooms@.dom()),
                r.len() == i,
                forall|j: int|
                    0 <= j < i ==> (#[trigger] r@[j])@ == self.rooms@[ids@[j]].info@
                        && r@[j].extra_data.listed() == self.rooms@[ids@[j]].info.extra_data.listed(),
            decreases ids.len() - i,
        {
            let id = ids[i];
            assert(ids@.to_set().contains(id));
            if let Some(room) = self.rooms.get(&id) {
                r.push(room.info.clone());
            }
            i = i + 1;
        }
        proof {
            let infos = ids@.map_values(|id: RoomID| self.rooms@[id].info);
            assert(same_rooms(r@, infos));
        }
        r
    }

    /// The rooms of `room_infos` for the game `game_type`, or all where it is empty.
    pub fn filter_room_by_game_type(room_infos: &Vec<RoomInfo>, game_type: &String) -> (r: Vec<
        RoomInfo,
    >)
        ensures
            same_rooms(r@, rooms_for(room_infos@, game_type@)),
    {
        let all: bool = game_type.unicode_len() == 0;
        let mut r: Vec<RoomInfo> = Vec::new();
        let mut i: usize = 0;
        assert(room_infos@.take(0) =~= Seq::empty());
        while i < room_infos.len()
            invariant
                i <= room_infos.len(),
                all == (game_type@.len() == 0),
                same_rooms(r@, rooms_for(room_infos@.take(i as int), game_type@)),
            decreases room_infos.len() - i,
        {
            assert(room_infos@.take(i + 1).drop_last() =~= room_infos@.take(i as int));
            if all || room_infos[i].game_type == *game_type {
                r.push(room_infos[i].clone());
            }
            i = i + 1;
        }
        assert(room_infos@.take(i as int) =~= room_infos@);
        r
    }

    /// Creates the room that `info` describes around the connection of its host.
    pub fn connection_create_room<S: Clone, R>(
        &mut self,
        conn: NetConnection<S, R>,
        info: RoomInfo,
        topology: u16,
        read: RelaySettings,
    ) -> (r: Creation<S, R>)
        requires
            old(self).well_formed(),
            ping_millis(read) + 1000 <= u64::MAX,
        ensures
            final(self).well_formed(),
            if info.room_id != 0 {
                r == Creation::Refused(conn, 2) && *final(self) == *old(self)
            } else if topology != 1 && topology != 2 {
                r == Creation::Refused(conn, 3) && *final(self) == *old(self)
            } else {
                let id = old(self).room_next_id;
                let host = NetConnection {
                    sink: NetConnectionSink { netid: NETID_HOST, ..conn.sink },
                    stream: conn.stream,
                };
                &&& final(self).room_next_id == Self::next_id(id)
                &&& final(self).rooms@.contains_key(id)
                &&& final(self).rooms@.remove(id) == old(self).rooms@.remove(id)
                &&& final(self).rooms@[id].is_new(RoomInfo { room_id: id, ..info }, read)
                &&& final(self).rooms@[id].topology == if topology == 1 {
                    RoomTopology::ServerClient
                } else {
                    RoomTopology::PeerToPeer
                }
                &&& r matches Creation::Created { room_id, relays, replaced }
                &&& room_id == id
                &&& replaced == if old(self).rooms@.contains_key(id) {
                    Some(old(self).rooms@[id])
                } else {
                    None
                }
                &&& match relays {
                    Relays::ServerClient { clients, server } => topology == 1
                        && Room::relays_of_host(host, id, read, clients, server),
                    Relays::PeerToPeer(relay) => topology == 2 && Room::relay_of_peers(
                        host,
                        id,
                        read,
                        relay,
                    ),
                }
            },
            // As long as the ids have not begun anew, no room is replaced
            old(self).ids_given() && old(self).room_next_id < u64::MAX ==> final(self).ids_given()
                && !(r matches Creation::Created { replaced: Some(_), .. }),
    {
        if info.room_id != 0 {
            return Creation::Refused(conn, 2);
        }
        if topology == 0 || 2 < topology {
            return Creation::Refused(conn, 3);
        }
        // Setup some stuff

        let room_id: RoomID = self.get_next_room_id();
        let mut info = info;
        info.room_id = room_id;
        let mut conn = conn;
        conn.set_netid(NETID_HOST);  // The connection who created the room has NETID HOST assigned
        // Create and insert room
        if topology == 1 {
            let (room, clients, server): (Room, PeerRelay<S, R>, PeerRelay<S, R>) =
                Room::new_server_client(conn, info, read);
            let replaced = self.rooms.insert(room_id, room);
            assert(self.rooms@.remove(room_id) =~= old(self).rooms@.remove(room_id));
            Creation::Created {
                room_id,
                relays: Relays::ServerClient { clients, server },
                replaced,
            }
        } else {
            let (room, relay): (Room, PeerRelay<S, R>) = Room::new_peer_to_peer(conn, info, read);
            let replaced = self.rooms.insert(room_id, room);
            assert(self.rooms@.remove(room_id) =~= old(self).rooms@.remove(room_id));
            Creation::Created { room_id, relays: Relays::PeerToPeer(relay), replaced }
        }
    }

    /// Lets a connection into the room that `info` names, where `closed` says whether that room
    /// is closed.
    pub fn connection_join_room<S: Clone, R>(
        &mut self,
        conn: NetConnection<S, R>,
        info: RoomJoinInfo,
        closed: bool,
    ) -> (r: Joining<S, R>)
        requires
            old(self).well_formed(),
            join_refusal(old(self).rooms@, info@) is None && !closed
                ==> old(self).rooms@[info.room_id].client_netid_next < u64::MAX,
        ensures
            final(self).well_formed(),
            final(self).room_next_id == old(self).room_next_id,
            match join_refusal(old(self).rooms@, info@) {
                Some(code) => r == Joining::Refused(conn, code) && final(self).rooms@
                    == old(self).rooms@,
                None => {
                    let before = old(self).rooms@[info.room_id];
                    let after = final(self).rooms@[info.room_id];
                    &&& final(self).rooms@.contains_key(info.room_id)
                    &&& final(self).rooms@.remove(info.room_id) == old(self).rooms@.remove(
                        info.room_id,
                    )
                    &&& if closed {
                        r == Joining::Dropped(conn) && after == before
                    } else {
                        r matches Joining::Joined(a) && before.entered(conn, a, &after)
                    }
                },
            },
    {
        // Try to retrieve room that wants to be joined
        match self.rooms.get(&info.room_id) {
            Some(room) => {
                // Check if room can be joined
                assert(room.info.room_id == info.room_id);
                if room.info.game_type != info.game_type || room.info.game_version
                    != info.game_version {
                    return Joining::Refused(conn, 3);
                }
                if room.info.room_closed {
                    return Joining::Refused(conn, 4);
                }
            },
            None => {
                return Joining::Refused(conn, 2);
            },
        }
        // Add to room
        match self.rooms.remove(&info.room_id) {
            Some(room) => {
                let mut room = room;
                let added = room.add_connection(conn, closed);
                self.rooms.insert(info.room_id, room);
                assert(self.rooms@.remove(info.room_id) =~= old(self).rooms@.remove(info.room_id));
                match added {
                    Ok(addition) => Joining::Joined(addition),
                    Err(conn) => Joining::Dropped(conn),
                }
            },
            None => Joining::Refused(conn, 2),
        }
    }

    /// Hands a message of its relays to the room `room_id`, if there is one. The room keeps its
    /// id, so that it stays where it is.
    pub fn update_room<S, R>(&mut self, room_id: RoomID, msg: PeerRelayMessage<S, R>) -> (r: Option<
        RoomAction<S, R>,
    >)
        requires
            old(self).well_formed(),
            msg matches PeerRelayMessage::UpdateStatus(status) ==> old(self).rooms@.contains_key(
                room_id,
            ) && old(self).rooms@[room_id].topology == RoomTopology::ServerClient ==> status.peers
                + status.sinks <= usize::MAX,
        ensures
            final(self).well_formed(),
            final(self).room_next_id == old(self).room_next_id,
            final(self).rooms@.dom() == old(self).rooms@.dom(),
            final(self).rooms@.remove(room_id) == old(self).rooms@.remove(room_id),
            if old(self).rooms@.contains_key(room_id) {
                &&& r matches Some(action)
                &&& old(self).rooms@[room_id].processed(msg, &final(self).rooms@[room_id], action)
            } else {
                r is None
            },
    {
        match self.rooms.remove(&room_id) {
            Some(room) => {
                let mut room = room;
                let action = room.process_message(msg);
                self.rooms.insert(room_id, room);
                proof {
                    assert(self.rooms@.dom() =~= old(self).rooms@.dom());
                    assert(self.rooms@.remove(room_id) =~= old(self).rooms@.remove(room_id));
                }
                Some(action)
            },
            None => {
                assert(self.rooms@ =~= old(self).rooms@);
                None
            },
        }
    }

    /// Gives up the rooms that are not in use, where those in `closed` are closed, and gives
    /// their ids.
    pub fn retain_active(&mut self, closed: &Vec<RoomID>) -> (r: Vec<RoomID>)
        requires
            old(self).well_formed(),
        ensures
            final(self).well_formed(),
            final(self).room_next_id == old(self).room_next_id,
            forall|id: RoomID| #[trigger]
                final(self).rooms@.contains_key(id) <==> old(self).rooms@.contains_key(id)
                    && !closed@.contains(id) && 0 < old(self).rooms@[id].peers,
            forall|id: RoomID| #[trigger]
                final(self).rooms@.contains_key(id) ==> final(self).rooms@[id]
                    == old(self).rooms@[id],
            lists(r@, old(self).rooms@.dom().difference(final(self).rooms@.dom())),
    {
        let ids = ids_of(&self.rooms);
        let mut r: Vec<RoomID> = Vec::new();
        let mut i: usize = 0;
        while i < ids.len()
            invariant
                i <= ids.len(),
                lists(ids@, old(self).rooms@.dom()),
                self.well_formed(),
                self.room_next_id == old(self).room_next_id,
                r@.no_duplicates(),
                forall|id: RoomID| #[trigger]
                    r@.contains(id) <==> ids@.take(i as int).contains(id) && !(!closed@.contains(id)
                        && 0 < old(self).rooms@[id].peers),
                forall|id: RoomID| #[trigger]
                    self.rooms@.contains_key(id) <==> old(self).rooms@.contains_key(id)
                        && !r@.contains(id),
                forall|id: RoomID| #[trigger]
                    self.rooms@.contains_key(id) ==> self.rooms@[id] == old(self).rooms@[id],
            decreases ids.len() - i,
        {
            let id = ids[i];
            let ghost before = r@;
            proof {
                assert(ids@.to_set().contains(id));
                assert(ids@.take(i + 1) =~= ids@.take(i as int).push(id));
                assert(!ids@.take(i as int).contains(id));
                assert(!before.contains(id));
                crate::utils::ids::lemma_push_no_duplicates(before, id);
                assert forall|x: RoomID| #[trigger]
                    ids@.take(i + 1).contains(x) <==> ids@.take(i as int).contains(x) || x
                        == id by {
                    crate::utils::ids::lemma_push_contains(ids@.take(i as int), id, x);
                }
                assert forall|x: RoomID| #[trigger]
                    before.push(id).contains(x) <==> before.contains(x) || x == id by {
                    crate::utils::ids::lemma_push_contains(before, id, x);
                }
            }
            let active: bool = match self.rooms.get(&id) {
                Some(room) => room.is_active(holds(closed, id)),
                None => true,
            };
            if !active {
                let _ = self.rooms.remove(&id);
                r.push(id);
            }
            assert forall|x: RoomID| #[trigger]
                r@.contains(x) <==> ids@.take(i + 1).contains(x) && !(!closed@.contains(x) && 0
                    < old(self).rooms@[x].peers) by {
                assert(ids@.take(i + 1).contains(x) <==> ids@.take(i as int).contains(x) || x
                    == id);
                assert(before.push(id).contains(x) <==> before.contains(x) || x == id);
            }
            i = i + 1;
        }
        proof {
            assert(ids@.take(i as int) =~= ids@);
            assert forall|id: RoomID| #[trigger] ids@.contains(id) <==> old(
                self,
            ).rooms@.contains_key(id) by {
                assert(ids@.to_set().contains(id) <==> old(self).rooms@.dom().contains(id));
            }
            assert(r@.to_set() =~= old(self).rooms@.dom().difference(self.rooms@.dom())) by {
                assert forall|id: RoomID| #[trigger] r@.to_set().contains(id) <==> old(
                    self,
                ).rooms@.dom().difference(self.rooms@.dom()).contains(id) by {
                    assert(r@.contains(id) <==> ids@.contains(id) && !(!closed@.contains(id) && 0
                        < old(self).rooms@[id].peers));
                    assert(self.rooms@.contains_key(id) <==> old(self).rooms@.contains_key(id)
                        && !r@.contains(id));
                }
            }
        }
        r
    }
}

} // verus!
