//! The relay between the peers of a room.

use crate::lobby::room_info::{RoomDetails, RoomID, RoomInfo};
use crate::netconnection::netconnection::{
    Envelope, NetConnection, NetConnectionMessage, NetConnectionRead, NetConnectionSink, NETID,
    NETID_ALL, NETID_NONE, NETID_RELAY,
};
use crate::relay::messages::{
    complete, read_message, NetRelayMessage, NetRelayMessageError, Said,
};
use crate::text::{decimal, push_decimal};
use crate::utils::config::{config_from_str, config_size_from_str, configured};
use crate::utils::ids::{holds, ids_of, ids_of_without, ids_without, lists};
use crate::utils::time::{measured, stood_at, told, Duration, IntervalTimer};
use std::collections::HashMap;
use vstd::prelude::*;

verus! {

broadcast use vstd::std_specs::hash::group_hash_axioms;

/// What a relay reports to its room.
#[derive(Debug)]
pub struct PeerRelayStatus {
    pub peers: usize,
    pub sinks: usize,
    pub pings: HashMap<NETID, u32>,
    pub info: Option<RoomInfo>,
}

/// What a relay reports to its room, as values.
pub struct Status {
    pub peers: nat,
    pub sinks: nat,
    pub pings: Map<NETID, u32>,
    pub info: Option<RoomDetails>,
}

impl View for PeerRelayStatus {
    type V = Status;

    open spec fn view(&self) -> Status {
        Status {
            peers: self.peers as nat,
            sinks: self.sinks as nat,
            pings: self.pings@,
            info: match self.info {
                Some(info) => Some(info@),
                None => None,
            },
        }
    }
}

impl PeerRelayStatus {
    pub fn new() -> (s: Self)
        ensures
            s@ == (Status { peers: 0, sinks: 0, pings: Map::empty(), info: None }),
    {
        Self { peers: 0, sinks: 0, pings: HashMap::new(), info: None }
    }
}

impl Clone for PeerRelayStatus {
    fn clone(&self) -> (s: Self)
        ensures
            s@ == self@,
    {
        PeerRelayStatus {
            peers: self.peers,
            sinks: self.sinks,
            pings: self.pings.clone(),
            info: match &self.info {
                Some(info) => Some(info.clone()),
                None => None,
            },
        }
    }
}

/// When a relay closes.
#[derive(Debug, Clone, Copy, PartialEq, Eq, Structural)]
pub enum PeerRelayCloseMode {
    NoPeers,
    NoSinks,
}

/// Who may change a room.
#[derive(Debug, Clone, Copy, PartialEq, Eq, Structural)]
pub enum PeerRelayOwnership {
    Nobody,
    Peer(NETID),
    All,
}

impl PeerRelayCloseMode {
    /// What this mode is called in the log.
    pub open spec fn says(self) -> Seq<char> {
        match self {
            PeerRelayCloseMode::NoPeers => "NoPeers"@,
            PeerRelayCloseMode::NoSinks => "NoSinks"@,
        }
    }

    /// What this mode is called in the log.
    pub fn to_text(&self) -> (s: String)
        ensures
            s@ == self.says(),
    {
        match self {
            PeerRelayCloseMode::NoPeers => "NoPeers".to_owned(),
            PeerRelayCloseMode::NoSinks => "NoSinks".to_owned(),
        }
    }
}

impl PeerRelayOwnership {
    /// What this ownership is called in the log.
    pub open spec fn says(self) -> Seq<char> {
        match self {
            PeerRelayOwnership::Nobody => "None"@,
            PeerRelayOwnership::Peer(netid) => "Peer("@ + decimal(netid as nat) + ")"@,
            PeerRelayOwnership::All => "All"@,
        }
    }

    /// What this ownership is called in the log.
    pub fn to_text(&self) -> (s: String)
        ensures
            s@ == self.says(),
    {
        match self {
            PeerRelayOwnership::Nobody => "None".to_owned(),
            PeerRelayOwnership::Peer(netid) => {
                let mut s = "Peer(".to_owned();
                push_decimal(&mut s, *netid);
                s.append(")");
                s
            },
            PeerRelayOwnership::All => "All".to_owned(),
        }
    }

    /// Whether `netid` may change the room.
    pub open spec fn permits(self, netid: NETID) -> bool {
        match self {
            PeerRelayOwnership::Nobody => false,
            PeerRelayOwnership::All => true,
            PeerRelayOwnership::Peer(owner) => netid == owner,
        }
    }
}

/// What a room and its relays tell each other.
#[derive(Debug)]
pub enum PeerRelayMessage<S, R> {
    StoreConnection(NetConnection<S, R>),
    /// A connection that leaves the room, and the NETID that it had there.
    ReturnConnection(NetConnection<S, R>, NETID),
    StoreSink(NetConnectionSink<S>),
    RemoveConnection(NETID),
    RemoveSink(NETID),
    UpdateStatus(PeerRelayStatus),
    SetOwnership(PeerRelayOwnership),
}

/// The settings of a relay, as they were read.
pub struct RelaySettings {
    /// Milliseconds between two updates
    pub update_interval: Option<String>,
    /// Milliseconds between two reports
    pub status_interval: Option<String>,
    /// Milliseconds between two pings
    pub ping_interval: Option<String>,
    /// Milliseconds without a contact after which a peer is pinged
    pub ping_wait_time: Option<String>,
    /// How many messages of the room to take on each update
    pub channel_msgs_per_update: Option<String>,
    /// How many messages of each peer to take on each update
    pub msgs_per_poll: Option<String>,
}

#[derive(Debug, Clone, Copy)]
pub struct PeerRelayConfig {
    /// Room ID
    pub room_id: RoomID,
    /// Interval for update loop
    pub update_interval: Duration,
    /// How many messages to poll per peer on each update
    pub msgs_per_poll: usize,
    /// Timer for status update
    pub status_timer: IntervalTimer,
    /// Timer for ping
    pub ping_timer: IntervalTimer,
    /// How long to wait before pinging
    pub ping_wait_time: Duration,
    /// Max amount of messages to poll from channels on each update
    pub channel_msgs_per_update: usize,
}

/// The ping interval that was read, in milliseconds.
pub open spec fn ping_millis(read: RelaySettings) -> nat {
    configured(read.ping_interval, u64::MAX as nat, 3000)
}

impl PeerRelayConfig {
    /// Whether this is the configuration of the room `room_id` that was read as `read`. Both
    /// timers are created now and tick at the first chance.
    pub open spec fn as_read(&self, room_id: RoomID, read: RelaySettings) -> bool {
        let max = u64::MAX as nat;
        &&& self.room_id == room_id
        &&& self.update_interval@ == configured(read.update_interval, max, 10) * 1_000_000
        &&& self.status_timer.duration@ == configured(read.status_interval, max, 1000) * 1_000_000
        &&& self.status_timer.ticked() == -self.status_timer.duration@
        &&& stood_at(self.status_timer.started)
        &&& self.ping_timer.duration@ == ping_millis(read) * 1_000_000
        &&& self.ping_timer.ticked() == -self.ping_timer.duration@
        &&& stood_at(self.ping_timer.started)
        &&& self.ping_wait_time@ == configured(
            read.ping_wait_time,
            max,
            ping_millis(read) + 1000,
        ) * 1_000_000
        &&& self.channel_msgs_per_update == configured(
            read.channel_msgs_per_update,
            usize::MAX as nat,
            10,
        )
        &&& self.msgs_per_poll == configured(read.msgs_per_poll, usize::MAX as nat, 10)
    }

    pub fn new(room_id: RoomID, read: RelaySettings) -> (c: Self)
        requires
            ping_millis(read) + 1000 <= u64::MAX,
        ensures
            c.as_read(room_id, read),
    {
        let update_interval: u64 = config_from_str(read.update_interval, 10);
        let status_interval: u64 = config_from_str(read.status_interval, 1000);
        let ping_interval: u64 = config_from_str(read.ping_interval, 3000);
        let ping_wait_time: u64 = config_from_str(read.ping_wait_time, ping_interval + 1000);
        Self {
            room_id,
            update_interval: Duration::from_millis(update_interval),
            channel_msgs_per_update: config_size_from_str(read.channel_msgs_per_update, 10),
            msgs_per_poll: config_size_from_str(read.msgs_per_poll, 10),
            status_timer: IntervalTimer::new(Duration::from_millis(status_interval)),
            ping_timer: IntervalTimer::new(Duration::from_millis(ping_interval)),
            ping_wait_time: Duration::from_millis(ping_wait_time),
        }
    }
}

/// A relay: it reads from its peers and writes to its sinks.
pub struct PeerRelay<S, R> {
    /// Config for room
    pub config: PeerRelayConfig,
    /// Close mode
    pub close_mode: PeerRelayCloseMode,
    /// Ownership of room
    pub ownership: PeerRelayOwnership,
    /// Connections that are used as stream
    pub peers: HashMap<NETID, NetConnection<S, R>>,
    /// Map of client peers to send to
    pub sinks: HashMap<NETID, NetConnectionSink<S>>,
    /// Most recent status info to send
    pub status: PeerRelayStatus,
}

/// Connections by their NETIDs: a later one replaces an earlier one.
pub open spec fn conns_by_netid<S, R>(conns: Seq<NetConnection<S, R>>) -> Map<
    NETID,
    NetConnection<S, R>,
>
    decreases conns.len(),
{
    if conns.len() == 0 {
        Map::empty()
    } else {
        conns_by_netid(conns.drop_last()).insert(conns.last().sink.netid, conns.last())
    }
}

/// Sinks by their NETIDs: a later one replaces an earlier one.
pub open spec fn sinks_by_netid<S>(sinks: Seq<NetConnectionSink<S>>) -> Map<
    NETID,
    NetConnectionSink<S>,
>
    decreases sinks.len(),
{
    if sinks.len() == 0 {
        Map::empty()
    } else {
        sinks_by_netid(sinks.drop_last()).insert(sinks.last().netid, sinks.last())
    }
}

/// What is left to do when a relay closes: to close these connections with this code.
pub struct Closing<S, R> {
    pub peers: HashMap<NETID, NetConnection<S, R>>,
    pub code: u32,
}

/// What becomes of a message from a peer.
#[derive(Debug, Clone, Copy, PartialEq, Eq, Structural)]
pub enum Verdict {
    /// The peer is closed with this code.
    Close(u32),
    /// The message is for the relay.
    Relay,
    /// The message is for peers.
    Peers,
}

/// What becomes of the message `m` from the peer `netid`: a peer speaks for itself alone, and
/// neither to itself nor to nobody.
pub open spec fn verdict(netid: NETID, m: Envelope) -> Verdict {
    if m.source != netid {
        Verdict::Close(98364723)
    } else if m.destination == netid {
        Verdict::Close(98748384)
    } else if m.destination == NETID_NONE {
        Verdict::Close(98275737)
    } else if m.destination == NETID_RELAY {
        Verdict::Relay
    } else {
        Verdict::Peers
    }
}

/// The messages from the peer `netid` that come to `v`, in their order.
pub open spec fn messages_for(
    netid: NETID,
    msgs: Seq<NetConnectionMessage>,
    v: Verdict,
) -> Seq<NetConnectionMessage>
    decreases msgs.len(),
{
    if msgs.len() == 0 {
        Seq::empty()
    } else {
        let before = messages_for(netid, msgs.drop_last(), v);
        if verdict(netid, msgs.last()@) == v {
            before.push(msgs.last())
        } else {
            before
        }
    }
}

/// The codes that messages from the peer `netid` close it with, in their order.
pub open spec fn codes_of(netid: NETID, msgs: Seq<NetConnectionMessage>) -> Seq<u32>
    decreases msgs.len(),
{
    if msgs.len() == 0 {
        Seq::empty()
    } else {
        let before = codes_of(netid, msgs.drop_last());
        match verdict(netid, msgs.last()@) {
            Verdict::Close(code) => before.push(code),
            _ => before,
        }
    }
}

/// What becomes of the message `m` from the peer `netid`.
pub fn judge(netid: NETID, m: &NetConnectionMessage) -> (v: Verdict)
    ensures
        v == verdict(netid, m@),
{
    if m.source_netid != netid {
        Verdict::Close(98364723)
    } else if m.destination_netid == netid {
        Verdict::Close(98748384)
    } else if m.destination_netid == NETID_NONE {
        Verdict::Close(98275737)
    } else if m.destination_netid == NETID_RELAY {
        Verdict::Relay
    } else {
        Verdict::Peers
    }
}

/// Sorts the messages from the peer `netid` behind those for the relay and those for peers, and
/// gives the codes that the peer is to be closed with.
pub fn sort_messages(
    netid: NETID,
    msgs: Vec<NetConnectionMessage>,
    relay_msgs: &mut Vec<NetConnectionMessage>,
    peers_msgs: &mut Vec<NetConnectionMessage>,
) -> (codes: Vec<u32>)
    ensures
        codes@ == codes_of(netid, msgs@),
        final(relay_msgs)@ == old(relay_msgs)@ + messages_for(netid, msgs@, Verdict::Relay),
        final(peers_msgs)@ == old(peers_msgs)@ + messages_for(netid, msgs@, Verdict::Peers),
{
    let mut msgs = msgs;
    let ghost all = msgs@;
    let mut codes: Vec<u32> = Vec::new();
    let ghost mut n: int = 0;
    proof {
        assert(all.take(0) =~= Seq::empty());
        assert(all.skip(0) =~= all);
        assert(relay_msgs@ =~= old(relay_msgs)@ + messages_for(
            netid,
            all.take(0),
            Verdict::Relay,
        ));
        assert(peers_msgs@ =~= old(peers_msgs)@ + messages_for(
            netid,
            all.take(0),
            Verdict::Peers,
        ));
    }
    while msgs.len() > 0
        invariant
            0 <= n <= all.len(),
            msgs@ == all.skip(n),
            codes@ == codes_of(netid, all.take(n)),
            relay_msgs@ == old(relay_msgs)@ + messages_for(
                netid,
                all.take(n),
                Verdict::Relay,
            ),
            peers_msgs@ == old(peers_msgs)@ + messages_for(
                netid,
                all.take(n),
                Verdict::Peers,
            ),
        decreases msgs.len(),
    {
        let msg = msgs.remove(0);
        proof {
            assert(msg == all[n]);
            assert(all.take(n + 1).drop_last() =~= all.take(n));
            assert(msgs@ =~= all.skip(n + 1));
        }
        let ghost relay_before = relay_msgs@;
        let ghost peers_before = peers_msgs@;
        match judge(netid, &msg) {
            Verdict::Close(code) => codes.push(code),
            Verdict::Relay => relay_msgs.push(msg),
            Verdict::Peers => peers_msgs.push(msg),
        }
        proof {
            n = n + 1;
            assert(relay_msgs@ =~= old(relay_msgs)@ + messages_for(
                netid,
                all.take(n),
                Verdict::Relay,
            ));
            assert(peers_msgs@ =~= old(peers_msgs)@ + messages_for(
                netid,
                all.take(n),
                Verdict::Peers,
            ));
        }
    }
    assert(all.take(n) =~= all);
    codes
}

/// The messages that a reading brings.
pub open spec fn messages_of(read: NetConnectionRead<Vec<NetConnectionMessage>>) -> Seq<
    NetConnectionMessage,
> {
    match read {
        NetConnectionRead::Data(msgs) => msgs@,
        _ => Seq::empty(),
    }
}

/// Sorts what was read from the peer `netid` behind the messages for the relay and those for
/// peers, and gives the codes that the peer is to be closed with.
pub fn sort_read(
    netid: NETID,
    read: NetConnectionRead<Vec<NetConnectionMessage>>,
    relay_msgs: &mut Vec<NetConnectionMessage>,
    peers_msgs: &mut Vec<NetConnectionMessage>,
) -> (codes: Vec<u32>)
    ensures
        codes@ == codes_of(netid, messages_of(read)),
        final(relay_msgs)@ == old(relay_msgs)@ + messages_for(
            netid,
            messages_of(read),
            Verdict::Relay,
        ),
        final(peers_msgs)@ == old(peers_msgs)@ + messages_for(
            netid,
            messages_of(read),
            Verdict::Peers,
        ),
{
    let msgs = match read {
        NetConnectionRead::Empty => Vec::new(),
        NetConnectionRead::Closed => Vec::new(),
        NetConnectionRead::Data(msgs) => msgs,
    };
    sort_messages(netid, msgs, relay_msgs, peers_msgs)
}

/// Every message of a peer goes to the relay, goes to peers, or closes the peer: none is lost and
/// none is taken twice.
pub proof fn sorted_once(netid: NETID, msgs: Seq<NetConnectionMessage>)
    ensures
        messages_for(netid, msgs, Verdict::Relay).len() + messages_for(
            netid,
            msgs,
            Verdict::Peers,
        ).len() + codes_of(netid, msgs).len() == msgs.len(),
    decreases msgs.len(),
{
    if msgs.len() > 0 {
        sorted_once(netid, msgs.drop_last());
    }
}

/// No peer speaks for another: what a relay passes on for a peer, to itself or to others, names
/// that peer as its source.
pub proof fn passed_on_from_source(
    netid: NETID,
    msgs: Seq<NetConnectionMessage>,
    v: Verdict,
    i: int,
)
    requires
        v == Verdict::Relay || v == Verdict::Peers,
        0 <= i < messages_for(netid, msgs, v).len(),
    ensures
        messages_for(netid, msgs, v)[i]@.source == netid,
        messages_for(netid, msgs, v)[i]@.destination != netid,
        v == Verdict::Relay <==> messages_for(netid, msgs, v)[i]@.destination == NETID_RELAY,
    decreases msgs.len(),
{
    if msgs.len() > 0 {
        if i < messages_for(netid, msgs.drop_last(), v).len() {
            passed_on_from_source(netid, msgs.drop_last(), v, i);
        }
    }
}

/// Why the peer with the connection `conn`, last heard of `seen` ago, is closed before it is read
/// from, if it is.
pub open spec fn refusal_of<S, R>(conn: NetConnection<S, R>, seen: nat) -> Option<u32> {
    let netid = conn.sink.netid;
    if netid == NETID_NONE || netid == NETID_ALL || netid == NETID_RELAY {
        Some(936585274)
    } else if conn.stream.overdue(seen) {
        Some(917347483)
    } else {
        None
    }
}

/// Why the peer with the connection `conn`, last heard of `seen` ago, is closed before it is read
/// from, if it is.
pub fn refusal<S, R>(conn: &NetConnection<S, R>, seen: Duration) -> (r: Option<u32>)
    ensures
        r == refusal_of(*conn, seen@),
{
    let conn_netid: NETID = conn.get_netid();
    if conn_netid == NETID_NONE || conn_netid == NETID_ALL || conn_netid == NETID_RELAY {
        return Some(936585274);
    }
    if conn.stream().has_timed_out(seen) {
        return Some(917347483);
    }
    None
}

/// What a message to the relay leads to.
pub struct RelayOutcome<S, R> {
    /// The peer to be closed, and the code.
    pub close: Option<(NETID, u32)>,
    /// The message that is to be sent to the room.
    pub to_room: Option<PeerRelayMessage<S, R>>,
    /// The peers to be told that the sink of the sender is gone.
    pub removed: Option<Vec<NETID>>,
}

/// What a look at the messages of the room finds.
pub enum RoomPolled<S, R> {
    Message(PeerRelayMessage<S, R>),
    Empty,
    /// The room is gone.
    Disconnected,
}

/// What a message of the room leads to.
pub enum QueueOutcome<S, R> {
    /// This message is to be sent to this peer.
    Tell(NETID, NetRelayMessage),
    /// This connection is not taken.
    Refuse(NetConnection<S, R>),
    /// These peers are to be told that this sink is there.
    Announce(NETID, Vec<NETID>),
    /// These peers are to be told that this sink is gone.
    Withdraw(NETID, Vec<NETID>),
    /// This connection is given up.
    Drop(NetConnection<S, R>),
    Nothing,
    /// A relay has no use for such a message.
    Unexpected,
}

/// What a look at the messages of the room leads to.
pub enum QueueStep<S, R> {
    /// There is no more for now.
    Stop,
    /// The relay closes.
    Close(Closing<S, R>),
    Did(QueueOutcome<S, R>),
}

/// A turn of a relay at the messages of its room: how many looks at them are left.
#[derive(Debug, Clone, Copy, PartialEq, Eq, Structural)]
pub struct QueueTurn {
    pub left: usize,
}

impl QueueTurn {
    /// This turn behind a look.
    pub open spec fn looked(self) -> QueueTurn {
        QueueTurn { left: (self.left - 1) as usize }
    }

    /// This turn behind what a look led to: it ends where there is no more, or where the relay
    /// closes.
    pub open spec fn behind<S, R>(self, step: QueueStep<S, R>) -> QueueTurn {
        if step is Did {
            self
        } else {
            QueueTurn { left: 0 }
        }
    }

    /// Whether a look may be taken in this turn, and `after` is the turn behind it and behind the
    /// step that it led to.
    pub open spec fn leads_to<S, R>(self, step: QueueStep<S, R>, after: QueueTurn) -> bool {
        self.left > 0 && after == self.looked().behind(step)
    }

    /// Whether one more look may be taken; if so, it is counted.
    pub fn look(&mut self) -> (r: bool)
        ensures
            r == (old(self).left > 0),
            *final(self) == if r {
                old(self).looked()
            } else {
                QueueTurn { left: 0 }
            },
    {
        if self.left > 0 {
            self.left = self.left - 1;
            true
        } else {
            false
        }
    }

    /// Takes what a look led to.
    pub fn follow<S, R>(&mut self, step: &QueueStep<S, R>)
        ensures
            *final(self) == old(self).behind(*step),
    {
        match step {
            QueueStep::Did(_) => {},
            _ => {
                self.left = 0;
            },
        }
    }
}

/// A relay takes no more messages of its room on each update than its configuration says: in a
/// turn there are at most that many looks, and each of them but the last led to a message.
pub proof fn turn_within_limit<S, R>(
    relay: PeerRelay<S, R>,
    turns: Seq<QueueTurn>,
    steps: Seq<QueueStep<S, R>>,
)
    requires
        turns.len() == steps.len() + 1,
        turns[0].left == relay.config.channel_msgs_per_update,
        forall|i: int|
            0 <= i < steps.len() ==> turns[i].leads_to(#[trigger] steps[i], turns[i + 1]),
    ensures
        steps.len() <= relay.config.channel_msgs_per_update,
        forall|i: int| 0 <= i < steps.len() - 1 ==> (#[trigger] steps[i]) is Did,
{
    let limit = relay.config.channel_msgs_per_update;
    assert forall|i: int| 0 <= i < steps.len() - 1 implies (#[trigger] steps[i]) is Did by {
        assert(turns[i].leads_to(steps[i], turns[i + 1]));
        assert(turns[i + 1].leads_to(steps[i + 1], turns[i + 1 + 1]));
    }
    if steps.len() > 0 {
        lemma_turn(limit, turns, steps, steps.len() - 1);
        let last = steps.len() - 1;
        assert(turns[last].leads_to(steps[last], turns[last + 1]));
    }
}

/// Each look of a turn leaves one fewer.
proof fn lemma_turn<S, R>(
    limit: usize,
    turns: Seq<QueueTurn>,
    steps: Seq<QueueStep<S, R>>,
    n: int,
)
    requires
        turns.len() == steps.len() + 1,
        turns[0].left == limit,
        forall|i: int|
            0 <= i < steps.len() ==> turns[i].leads_to(#[trigger] steps[i], turns[i + 1]),
        forall|i: int| 0 <= i < steps.len() - 1 ==> (#[trigger] steps[i]) is Did,
        0 <= n < steps.len(),
    ensures
        turns[n].left == limit - n,
    decreases n,
{
    if n > 0 {
        lemma_turn(limit, turns, steps, n - 1);
        assert(steps[n - 1] is Did);
        assert(turns[n - 1].leads_to(steps[n - 1], turns[n - 1 + 1]));
    }
}

impl<S, R> PeerRelay<S, R> {
    /// Whether every connection and every sink stands under its own NETID.
    pub open spec fn well_formed(&self) -> bool {
        &&& forall|k: NETID| #[trigger]
            self.peers@.contains_key(k) ==> self.peers@[k].sink.netid == k
        &&& forall|k: NETID| #[trigger] self.sinks@.contains_key(k) ==> self.sinks@[k].netid == k
    }

    /// Whether this relay is set up as `other` is.
    pub open spec fn set_up_as(&self, other: &Self) -> bool {
        &&& self.config == other.config
        &&& self.close_mode == other.close_mode
        &&& self.ownership == other.ownership
    }

    pub fn new(
        config: PeerRelayConfig,
        close_mode: PeerRelayCloseMode,
        ownership: PeerRelayOwnership,
        starting_peers: Vec<NetConnection<S, R>>,
        starting_sinks: Vec<NetConnectionSink<S>>,
    ) -> (r: Self)
        ensures
            r.well_formed(),
            r.config == config,
            r.close_mode == close_mode,
            r.ownership == ownership,
            r.peers@ == conns_by_netid(starting_peers@),
            r.sinks@ == sinks_by_netid(starting_sinks@),
            r.status@ == (Status { peers: 0, sinks: 0, pings: Map::empty(), info: None }),
    {
        let mut conns = starting_peers;
        let ghost all = conns@;
        let ghost mut n: int = 0;
        let mut peers: HashMap<NETID, NetConnection<S, R>> = HashMap::new();
        proof {
            assert(all.take(0) =~= Seq::empty());
            assert(all.skip(0) =~= all);
        }
        while conns.len() > 0
            invariant
                0 <= n <= all.len(),
                conns@ == all.skip(n),
                peers@ == conns_by_netid(all.take(n)),
                forall|k: NETID| #[trigger] peers@.contains_key(k) ==> peers@[k].sink.netid == k,
            decreases conns.len(),
        {
            let conn = conns.remove(0);
            proof {
                assert(conn == all[n]);
                assert(all.take(n + 1).drop_last() =~= all.take(n));
                assert(conns@ =~= all.skip(n + 1));
                n = n + 1;
            }
            peers.insert(conn.get_netid(), conn);
        }
        assert(all.take(n) =~= all);
        let mut rest = starting_sinks;
        let ghost all = rest@;
        let ghost mut n: int = 0;
        let mut sinks: HashMap<NETID, NetConnectionSink<S>> = HashMap::new();
        proof {
            assert(all.take(0) =~= Seq::empty());
            assert(all.skip(0) =~= all);
        }
        while rest.len() > 0
            invariant
                0 <= n <= all.len(),
                rest@ == all.skip(n),
                sinks@ == sinks_by_netid(all.take(n)),
                forall|k: NETID| #[trigger] sinks@.contains_key(k) ==> sinks@[k].netid == k,
            decreases rest.len(),
        {
            let sink = rest.remove(0);
            proof {
                assert(sink == all[n]);
                assert(all.take(n + 1).drop_last() =~= all.take(n));
                assert(rest@ =~= all.skip(n + 1));
                n = n + 1;
            }
            sinks.insert(sink.get_netid(), sink);
        }
        assert(all.take(n) =~= all);
        Self { config, close_mode, ownership, peers, sinks, status: PeerRelayStatus::new() }
    }

    /// Gives up every peer and every sink. The connections are to be closed.
    pub fn close(&mut self) -> (r: Closing<S, R>)
        ensures
            final(self).well_formed(),
            final(self).set_up_as(old(self)),
            final(self).peers@ == Map::<NETID, NetConnection<S, R>>::empty(),
            final(self).sinks@ == Map::<NETID, NetConnectionSink<S>>::empty(),
            final(self).status@ == (Status { pings: Map::empty(), ..old(self).status@ }),
            r.peers@ == old(self).peers@,
            r.code == 971382753,
    {
        let mut peers: HashMap<NETID, NetConnection<S, R>> = HashMap::new();
        std::mem::swap(&mut self.peers, &mut peers);
        self.sinks.clear();
        self.status.pings.clear();
        Closing { peers, code: 971382753 }
    }

    /// The message that lists the current sinks.
    pub fn list_peers(&self) -> (m: NetRelayMessage)
        ensures
            m@ matches Said::RelayListPeers(ids) && lists(ids, self.sinks@.dom()),
    {
        NetRelayMessage::RelayListPeers(ids_of(&self.sinks))
    }

    /// Takes a connection to read from, and gives the message that is to be sent to it. Being
    /// taken is a contact. One whose NETID is taken is handed back.
    pub fn handle_store_connection(&mut self, conn: NetConnection<S, R>) -> (r: Result<
        NetRelayMessage,
        NetConnection<S, R>,
    >)
        requires
            old(self).well_formed(),
        ensures
            final(self).well_formed(),
            final(self).set_up_as(old(self)),
            final(self).sinks@ == old(self).sinks@,
            final(self).status@ == old(self).status@,
            ({
                let netid = conn.sink.netid;
                if old(self).peers@.contains_key(netid) {
                    &&& r == Err::<NetRelayMessage, NetConnection<S, R>>(conn)
                    &&& final(self).peers@ == old(self).peers@
                } else {
                    &&& r matches Ok(m)
                    &&& m@ matches Said::RelayListPeers(ids)
                    &&& lists(ids, old(self).sinks@.dom())
                    &&& final(self).peers@.contains_key(netid)
                    &&& final(self).peers@[netid].same_but_for_contact(&conn)
                    &&& stood_at(final(self).peers@[netid].stream.last_contact)
                    &&& final(self).peers@.remove(netid) == old(self).peers@
                }
            }),
    {
        let netid: NETID = conn.get_netid();
        if self.peers.contains_key(&netid) {
            return Err(conn);
        }
        let list = self.list_peers();
        let mut conn = conn;
        conn.stream.update_last_contact();
        self.peers.insert(netid, conn);
        assert(self.peers@.remove(netid) =~= old(self).peers@);
        Ok(list)
    }

    /// Gives up the connection to `netid`, if there is one.
    pub fn handle_remove_connection(&mut self, netid: NETID) -> (r: Option<NetConnection<S, R>>)
        requires
            old(self).well_formed(),
        ensures
            final(self).well_formed(),
            final(self).set_up_as(old(self)),
            final(self).peers@ == old(self).peers@.remove(netid),
            final(self).sinks@ == old(self).sinks@,
            final(self).status@ == old(self).status@,
            r == if old(self).peers@.contains_key(netid) {
                Some(old(self).peers@[netid])
            } else {
                None
            },
    {
        self.peers.remove(&netid)
    }

    /// Takes a sink to write to, and gives the peers that are to be told of it. One whose NETID
    /// is taken is dropped.
    pub fn handle_store_sink(&mut self, sink: NetConnectionSink<S>) -> (r: Option<Vec<NETID>>)
        requires
            old(self).well_formed(),
        ensures
            final(self).well_formed(),
            final(self).set_up_as(old(self)),
            final(self).peers@ == old(self).peers@,
            final(self).status@ == old(self).status@,
            if old(self).sinks@.contains_key(sink.netid) {
                &&& r is None
                &&& final(self).sinks@ == old(self).sinks@
            } else {
                &&& r matches Some(notify)
                &&& lists(notify@, old(self).peers@.dom())
                &&& final(self).sinks@ == old(self).sinks@.insert(sink.netid, sink)
            },
    {
        let netid: NETID = sink.get_netid();
        if self.sinks.contains_key(&netid) {
            return None;
        }
        self.sinks.insert(netid, sink);
        // Notify peers about it
        Some(ids_of(&self.peers))
    }

    /// Whether `after` is `before` without the sink of `netid`, and `notify` the peers, but for
    /// those in `closed`, if there was one.
    pub open spec fn sink_removed(
        before: Self,
        netid: NETID,
        closed: Seq<NETID>,
        after: Self,
        notify: Option<Vec<NETID>>,
    ) -> bool {
        &&& after.sinks@ == before.sinks@.remove(netid)
        &&& if before.sinks@.contains_key(netid) {
            notify matches Some(v) && lists(v@, ids_without(after.peers@, closed))
        } else {
            notify is None
        }
    }

    /// Gives up the sink of `netid`, if there is one, and gives the peers that are to be told of
    /// it: those that are not in `closed`.
    pub fn handle_remove_sink(&mut self, netid: NETID, closed: &Vec<NETID>) -> (r: Option<
        Vec<NETID>,
    >)
        requires
            old(self).well_formed(),
        ensures
            final(self).well_formed(),
            final(self).set_up_as(old(self)),
            final(self).peers@ == old(self).peers@,
            final(self).status@ == old(self).status@,
            Self::sink_removed(*old(self), netid, closed@, *final(self), r),
    {
        match self.sinks.remove(&netid) {
            None => {
                // Nothing was removed
                assert(self.sinks@ =~= old(self).sinks@.remove(netid));
                None
            },
            Some(_) => Some(ids_of_without(&self.peers, closed)),
        }
    }

    pub fn has_permission(&self, netid: NETID) -> (r: bool)
        ensures
            r == self.ownership.permits(netid),
    {
        match self.ownership {
            PeerRelayOwnership::Nobody => false,
            PeerRelayOwnership::All => true,
            PeerRelayOwnership::Peer(owner) => netid == owner,
        }
    }

    /// Counts the peers and the sinks, removes the pings of peers that no longer exist, and gives
    /// the status that is to be reported.
    pub fn update_status(&mut self) -> (r: PeerRelayStatus)
        requires
            old(self).well_formed(),
        ensures
            final(self).well_formed(),
            final(self).set_up_as(old(self)),
            final(self).peers@ == old(self).peers@,
            final(self).sinks@ == old(self).sinks@,
            final(self).status@ == (Status {
                peers: old(self).peers@.len(),
                sinks: old(self).sinks@.len(),
                pings: old(self).status@.pings.restrict(old(self).peers@.dom()),
                ..old(self).status@
            }),
            r@ == final(self).status@,
    {
        let ids = ids_of(&self.status.pings);
        let ghost pings = self.status.pings@;
        let mut i: usize = 0;
        while i < ids.len()
            invariant
                i <= ids.len(),
                lists(ids@, pings.dom()),
                pings == old(self).status@.pings,
                self.well_formed(),
                self.set_up_as(old(self)),
                self.peers@ == old(self).peers@,
                self.sinks@ == old(self).sinks@,
                self.status@ == (Status { pings: self.status.pings@, ..old(self).status@ }),
                forall|k: NETID| #[trigger]
                    self.status.pings@.contains_key(k) <==> pings.contains_key(k) && (
                    self.peers@.contains_key(k) || !ids@.take(i as int).contains(k)),
                forall|k: NETID| #[trigger]
                    self.status.pings@.contains_key(k) ==> self.status.pings@[k] == pings[k],
            decreases ids.len() - i,
        {
            let id = ids[i];
            proof {
                assert(ids@.take(i + 1) =~= ids@.take(i as int).push(id));
                assert forall|k: NETID| ids@.take(i + 1).contains(k) <==> ids@.take(
                    i as int,
                ).contains(k) || k == id by {
                    crate::utils::ids::lemma_push_contains(ids@.take(i as int), id, k);
                }
            }
            if !self.peers.contains_key(&id) {
                self.status.pings.remove(&id);
            }
            i = i + 1;
        }
        proof {
            assert(ids@.take(i as int) =~= ids@);
            assert forall|k: NETID| #[trigger] pings.contains_key(k) implies ids@.contains(k) by {
                assert(ids@.to_set().contains(k));
            }
            assert(self.status.pings@ =~= pings.restrict(old(self).peers@.dom()));
        }
        self.status.peers = self.peers.len();
        self.status.sinks = self.sinks.len();
        self.status.clone()
    }

    /// Whether this relay has nothing left to do.
    pub open spec fn deserted(&self) -> bool {
        match self.close_mode {
            PeerRelayCloseMode::NoPeers => self.peers@.len() == 0,
            PeerRelayCloseMode::NoSinks => self.sinks@.len() == 0,
        }
    }

    /// Closes a relay that has nothing left to do, unless it is closed already.
    pub fn check_close_state(&mut self, closed: bool) -> (r: Option<Closing<S, R>>)
        requires
            old(self).well_formed(),
        ensures
            final(self).well_formed(),
            final(self).set_up_as(old(self)),
            if old(self).deserted() && !closed {
                &&& r matches Some(closing)
                &&& closing.peers@ == old(self).peers@
                &&& closing.code == 971382753
                &&& final(self).peers@ == Map::<NETID, NetConnection<S, R>>::empty()
                &&& final(self).sinks@ == Map::<NETID, NetConnectionSink<S>>::empty()
                &&& final(self).status@ == (Status { pings: Map::empty(), ..old(self).status@ })
            } else {
                r is None && *final(self) == *old(self)
            },
    {
        let close: bool = match self.close_mode {
            PeerRelayCloseMode::NoPeers => self.peers.len() == 0,
            PeerRelayCloseMode::NoSinks => self.sinks.len() == 0,
        };
        if close && !closed {
            return Some(self.close());
        }
        None
    }

    /// Whether each peer was heard of `seen` ago, as the clock measures it.
    pub open spec fn heard_of(&self, seen: Map<NETID, Duration>) -> bool {
        &&& seen.dom() == self.peers@.dom()
        &&& forall|k: NETID| #[trigger]
            seen.contains_key(k) ==> measured(self.peers@[k].stream.last_contact, seen[k])
    }

    /// How long ago each peer was heard of.
    pub fn contacts(&self) -> (seen: HashMap<NETID, Duration>)
        ensures
            self.heard_of(seen@),
    {
        let ids = ids_of(&self.peers);
        let mut seen: HashMap<NETID, Duration> = HashMap::new();
        let mut i: usize = 0;
        while i < ids.len()
            invariant
                i <= ids.len(),
                lists(ids@, self.peers@.dom()),
                forall|k: NETID| #[trigger]
                    seen@.contains_key(k) ==> measured(
                        self.peers@[k].stream.last_contact,
                        seen@[k],
                    ),
                forall|k: NETID| #[trigger]
                    seen@.contains_key(k) <==> ids@.take(i as int).contains(k),
            decreases ids.len() - i,
        {
            let id = ids[i];
            proof {
                assert(ids@.to_set().contains(id));
                assert(ids@.take(i + 1) =~= ids@.take(i as int).push(id));
                assert forall|k: NETID| ids@.take(i + 1).contains(k) <==> ids@.take(
                    i as int,
                ).contains(k) || k == id by {
                    crate::utils::ids::lemma_push_contains(ids@.take(i as int), id, k);
                }
            }
            if let Some(conn) = self.peers.get(&id) {
                seen.insert(id, conn.stream().seen());
            }
            i = i + 1;
        }
        proof {
            assert(ids@.take(i as int) =~= ids@);
            assert forall|k: NETID| seen@.dom().contains(k) <==> self.peers@.dom().contains(k) by {
                assert(seen@.contains_key(k) <==> ids@.contains(k));
                assert(ids@.to_set().contains(k) <==> self.peers@.dom().contains(k));
            }
            assert(seen@.dom() =~= self.peers@.dom());
        }
        seen
    }

    /// The peers that are read from, where the peers were heard of `seen` ago.
    pub open spec fn readable(&self, seen: Map<NETID, Duration>) -> Set<NETID> {
        self.peers@.dom().filter(|k: NETID| refusal_of(self.peers@[k], seen[k]@) is None)
    }

    /// The peers that are closed instead, and the codes.
    pub open spec fn refused(&self, seen: Map<NETID, Duration>) -> Map<NETID, u32> {
        Map::new(
            |k: NETID| self.peers@.contains_key(k) && refusal_of(self.peers@[k], seen[k]@) is Some,
            |k: NETID| refusal_of(self.peers@[k], seen[k]@)->0,
        )
    }

    /// The peers that are to be read from, where the peers were heard of `seen` ago, and those
    /// that are to be closed instead, with the codes.
    pub fn examine(&self, seen: &HashMap<NETID, Duration>) -> (r: (Vec<NETID>, HashMap<NETID, u32>))
        requires
            seen@.dom() == self.peers@.dom(),
        ensures
            lists(r.0@, self.readable(seen@)),
            r.1@ == self.refused(seen@),
    {
        let ids = ids_of(seen);
        let mut read: Vec<NETID> = Vec::new();
        let mut close: HashMap<NETID, u32> = HashMap::new();
        let mut i: usize = 0;
        while i < ids.len()
            invariant
                i <= ids.len(),
                lists(ids@, self.peers@.dom()),
                seen@.dom() == self.peers@.dom(),
                read@.no_duplicates(),
                forall|k: NETID| #[trigger]
                    read@.contains(k) <==> ids@.take(i as int).contains(k) && refusal_of(
                        self.peers@[k],
                        seen@[k]@,
                    ) is None,
                forall|k: NETID| #[trigger]
                    close@.contains_key(k) <==> ids@.take(i as int).contains(k) && refusal_of(
                        self.peers@[k],
                        seen@[k]@,
                    ) is Some,
                forall|k: NETID| #[trigger]
                    close@.contains_key(k) ==> Some(close@[k]) == refusal_of(
                        self.peers@[k],
                        seen@[k]@,
                    ),
            decreases ids.len() - i,
        {
            let id = ids[i];
            let ghost before = read@;
            proof {
                assert(ids@.to_set().contains(id));
                assert(ids@.take(i + 1) =~= ids@.take(i as int).push(id));
                assert(!ids@.take(i as int).contains(id));
                assert(!before.contains(id));
                crate::utils::ids::lemma_push_no_duplicates(before, id);
                assert forall|k: NETID| ids@.take(i + 1).contains(k) <==> ids@.take(
                    i as int,
                ).contains(k) || k == id by {
                    crate::utils::ids::lemma_push_contains(ids@.take(i as int), id, k);
                }
            }
            if let (Some(conn), Some(ago)) = (self.peers.get(&id), seen.get(&id)) {
                match refusal(conn, *ago) {
                    Some(code) => {
                        close.insert(id, code);
                    },
                    None => read.push(id),
                }
            }
            proof {
                assert forall|k: NETID| #[trigger]
                    read@.contains(k) <==> ids@.take(i + 1).contains(k) && refusal_of(
                        self.peers@[k],
                        seen@[k]@,
                    ) is None by {
                    crate::utils::ids::lemma_push_contains(before, id, k);
                }
            }
            i = i + 1;
        }
        proof {
            assert(ids@.take(i as int) =~= ids@);
            assert forall|k: NETID| #[trigger]
                ids@.contains(k) <==> self.peers@.dom().contains(k) by {
                assert(ids@.to_set().contains(k) <==> self.peers@.dom().contains(k));
            }
            assert(read@.to_set() =~= self.readable(seen@));
            assert(close@ =~= self.refused(seen@));
        }
        (read, close)
    }

    /// The peers that are pinged where the peers were heard of `seen` ago.
    pub open spec fn pinged(&self, seen: Map<NETID, Duration>) -> Set<NETID> {
        self.peers@.dom().filter(|k: NETID| seen[k]@ > self.config.ping_wait_time@)
    }

    /// The peers that are to be pinged, where the peers were heard of `seen` ago.
    pub fn overdue_for_ping(&self, seen: &HashMap<NETID, Duration>) -> (r: Vec<NETID>)
        requires
            seen@.dom() == self.peers@.dom(),
        ensures
            lists(r@, self.pinged(seen@)),
    {
        let ids = ids_of(seen);
        let mut r: Vec<NETID> = Vec::new();
        let mut i: usize = 0;
        while i < ids.len()
            invariant
                i <= ids.len(),
                lists(ids@, self.peers@.dom()),
                seen@.dom() == self.peers@.dom(),
                r@.no_duplicates(),
                forall|k: NETID| #[trigger]
                    r@.contains(k) <==> ids@.take(i as int).contains(k) && seen@[k]@
                        > self.config.ping_wait_time@,
            decreases ids.len() - i,
        {
            let id = ids[i];
            let ghost before = r@;
            proof {
                assert(ids@.to_set().contains(id));
                assert(ids@.take(i + 1) =~= ids@.take(i as int).push(id));
                assert(!ids@.take(i as int).contains(id));
                assert(!before.contains(id));
                crate::utils::ids::lemma_push_no_duplicates(before, id);
            }
            if let Some(ago) = seen.get(&id) {
                if ago.exceeds(&self.config.ping_wait_time) {
                    r.push(id);
                }
            }
            proof {
                assert forall|k: NETID| #[trigger]
                    r@.contains(k) <==> ids@.take(i + 1).contains(k) && seen@[k]@
                        > self.config.ping_wait_time@ by {
                    crate::utils::ids::lemma_push_contains(ids@.take(i as int), id, k);
                    crate::utils::ids::lemma_push_contains(before, id, k);
                }
            }
            i = i + 1;
        }
        proof {
            assert(ids@.take(i as int) =~= ids@);
            assert forall|k: NETID| #[trigger]
                r@.to_set().contains(k) <==> self.pinged(seen@).contains(k) by {
                assert(r@.contains(k) <==> ids@.contains(k) && seen@[k]@
                    > self.config.ping_wait_time@);
                assert(ids@.to_set().contains(k) <==> self.peers@.dom().contains(k));
            }
            assert(r@.to_set() =~= self.pinged(seen@));
        }
        r
    }

    /// The peers that are to be pinged now.
    pub fn ping_peers(&self) -> (r: Vec<NETID>)
        ensures
            exists|seen: Map<NETID, Duration>| #[trigger]
                self.heard_of(seen) && lists(r@, self.pinged(seen)),
    {
        let seen = self.contacts();
        self.overdue_for_ping(&seen)
    }

    /// Prunes the connections in `closed`.
    pub fn prune_connections(&mut self, closed: &Vec<NETID>)
        requires
            old(self).well_formed(),
        ensures
            final(self).well_formed(),
            final(self).set_up_as(old(self)),
            final(self).peers@ == old(self).peers@.remove_keys(closed@.to_set()),
            final(self).sinks@ == old(self).sinks@,
            final(self).status@ == old(self).status@,
    {
        let mut i: usize = 0;
        proof {
            assert(closed@.take(0).to_set() =~= Set::empty());
            assert(self.peers@ =~= old(self).peers@.remove_keys(closed@.take(0).to_set()));
        }
        while i < closed.len()
            invariant
                i <= closed.len(),
                self.well_formed(),
                self.set_up_as(old(self)),
                self.peers@ == old(self).peers@.remove_keys(closed@.take(i as int).to_set()),
                self.sinks@ == old(self).sinks@,
                self.status@ == old(self).status@,
            decreases closed.len() - i,
        {
            let id = closed[i];
            let _ = self.handle_remove_connection(id);
            proof {
                lemma_take_set(closed@, i as int);
                assert(self.peers@ =~= old(self).peers@.remove_keys(closed@.take(i + 1).to_set()));
            }
            i = i + 1;
        }
        assert(closed@.take(i as int) =~= closed@);
    }

    /// Prunes the sinks in `closed`, and gives those that are gone and the peers that are to be
    /// told of each: those that are not in `closed_peers`.
    pub fn prune_sinks(&mut self, closed: &Vec<NETID>, closed_peers: &Vec<NETID>) -> (r: (
        Vec<NETID>,
        Vec<NETID>,
    ))
        requires
            old(self).well_formed(),
        ensures
            final(self).well_formed(),
            final(self).set_up_as(old(self)),
            final(self).peers@ == old(self).peers@,
            final(self).sinks@ == old(self).sinks@.remove_keys(closed@.to_set()),
            final(self).status@ == old(self).status@,
            lists(r.0@, old(self).sinks@.dom().intersect(closed@.to_set())),
            lists(r.1@, ids_without(old(self).peers@, closed_peers@)),
    {
        let mut gone: Vec<NETID> = Vec::new();
        let mut i: usize = 0;
        proof {
            assert(closed@.take(0).to_set() =~= Set::empty());
            assert(self.sinks@ =~= old(self).sinks@.remove_keys(closed@.take(0).to_set()));
        }
        while i < closed.len()
            invariant
                i <= closed.len(),
                self.well_formed(),
                self.set_up_as(old(self)),
                self.peers@ == old(self).peers@,
                self.sinks@ == old(self).sinks@.remove_keys(closed@.take(i as int).to_set()),
                self.status@ == old(self).status@,
                gone@.no_duplicates(),
                forall|k: NETID| #[trigger]
                    gone@.contains(k) <==> old(self).sinks@.contains_key(k) && closed@.take(
                        i as int,
                    ).contains(k),
            decreases closed.len() - i,
        {
            let id = closed[i];
            let ghost before = gone@;
            proof {
                lemma_take_set(closed@, i as int);
                assert(closed@.take(i + 1) =~= closed@.take(i as int).push(id));
                if self.sinks@.contains_key(id) {
                    assert(!closed@.take(i as int).to_set().contains(id));
                    assert(!before.contains(id));
                    crate::utils::ids::lemma_push_no_duplicates(before, id);
                } else if old(self).sinks@.contains_key(id) {
                    assert(closed@.take(i as int).to_set().contains(id));
                }
            }
            if self.handle_remove_sink(id, closed_peers).is_some() {
                gone.push(id);
            }
            proof {
                assert(self.sinks@ =~= old(self).sinks@.remove_keys(closed@.take(i + 1).to_set()));
                assert forall|k: NETID| #[trigger]
                    gone@.contains(k) <==> old(self).sinks@.contains_key(k) && closed@.take(
                        i + 1,
                    ).contains(k) by {
                    crate::utils::ids::lemma_push_contains(closed@.take(i as int), id, k);
                    crate::utils::ids::lemma_push_contains(before, id, k);
                }
            }
            i = i + 1;
        }
        proof {
            assert(closed@.take(i as int) =~= closed@);
            assert(gone@.to_set() =~= old(self).sinks@.dom().intersect(closed@.to_set()));
        }
        let notify = ids_of_without(&self.peers, closed_peers);
        (gone, notify)
    }

    /// Whether `r` is what becomes of the message `m` among peers: one to all goes to every sink,
    /// addressed to it, and one to a peer goes to the sink of that peer, if there is one that is
    /// not in `closed`.
    pub open spec fn routed(
        &self,
        m: Envelope,
        closed: Seq<NETID>,
        r: Seq<(NETID, NetConnectionMessage)>,
    ) -> bool {
        if m.destination == NETID_ALL {
            &&& lists(r.map_values(|d: (NETID, NetConnectionMessage)| d.0), self.sinks@.dom())
            &&& forall|i: int|
                0 <= i < r.len() ==> (#[trigger] r[i]).1@ == (Envelope { destination: r[i].0, ..m })
        } else if self.sinks@.contains_key(m.destination) && !closed.contains(m.destination) {
            r.len() == 1 && r[0].0 == m.destination && r[0].1@ == m
        } else {
            r.len() == 0
        }
    }

    /// The sinks that the message `msg` is to be written to, and what is to be written to each.
    pub fn route(&self, msg: NetConnectionMessage, closed: &Vec<NETID>) -> (r: Vec<
        (NETID, NetConnectionMessage),
    >)
        requires
            self.well_formed(),
        ensures
            self.routed(msg@, closed@, r@),
    {
        let mut r: Vec<(NETID, NetConnectionMessage)> = Vec::new();
        if msg.destination_netid == NETID_ALL {
            // We need to send this message to all clients, so craft a message with each client
            // destination
            let ids = ids_of(&self.sinks);
            let mut i: usize = 0;
            while i < ids.len()
                invariant
                    i <= ids.len(),
                    lists(ids@, self.sinks@.dom()),
                    r.len() == i,
                    forall|j: int|
                        0 <= j < i ==> (#[trigger] r@[j]).0 == ids@[j] && r@[j].1@ == (Envelope {
                            destination: ids@[j],
                            ..msg@
                        }),
                decreases ids.len() - i,
            {
                let client_msg = NetConnectionMessage {
                    source_netid: msg.source_netid,
                    destination_netid: ids[i],
                    compressed: msg.compressed,
                    data: msg.data.clone(),
                };
                r.push((ids[i], client_msg));
                i = i + 1;
            }
            assert(r@.map_values(|d: (NETID, NetConnectionMessage)| d.0) =~= ids@);
        } else if self.sinks.contains_key(&msg.destination_netid) && !holds(
            closed,
            msg.destination_netid,
        ) {
            r.push((msg.destination_netid, msg));
        }
        r
    }

    /// The sinks that are to be flushed: those that are not in `closed`.
    pub fn flushes(&self, closed: &Vec<NETID>) -> (r: Vec<NETID>)
        ensures
            lists(r@, ids_without(self.sinks@, closed@)),
    {
        ids_of_without(&self.sinks, closed)
    }

    /// Whether `after` and `out` are what the message `said` from `source` makes of `before`,
    /// where the connections in `closed` are closed.
    pub open spec fn handled(
        before: Self,
        source: NETID,
        said: Said,
        closed: Seq<NETID>,
        after: Self,
        out: RelayOutcome<S, R>,
    ) -> bool {
        &&& after.set_up_as(&before)
        &&& match said {
            Said::Close(_) => {
                // The sender's own connection is closed by then
                &&& after.peers@ == before.peers@
                &&& after.status@ == before.status@
                &&& Self::sink_removed(before, source, closed.push(source), after, out.removed)
                &&& out.close == if before.peers@.contains_key(source) {
                    Some((source, 972534431u32))
                } else {
                    None
                }
                &&& out.to_room is None
            },
            Said::PeerLeaveRoom => {
                &&& after.peers@ == before.peers@.remove(source)
                &&& after.status@ == before.status@
                &&& Self::sink_removed(before, source, closed, after, out.removed)
                &&& out.close is None
                &&& if before.peers@.contains_key(source) {
                    &&& out.to_room matches Some(PeerRelayMessage::ReturnConnection(conn, netid))
                    &&& netid == source
                    &&& conn.sink == (NetConnectionSink {
                        netid: NETID_NONE,
                        ..before.peers@[source].sink
                    })
                    &&& conn.stream == before.peers@[source].stream
                } else {
                    out.to_room is None
                }
            },
            Said::PeerSetupRoom { info, .. } => {
                &&& Self::nothing_done(before, after, out)
                &&& after.peers@ == before.peers@
                &&& after.status@ == if before.ownership.permits(source) {
                    Status { info: Some(info), ..before.status@ }
                } else {
                    before.status@
                }
            },
            Said::PeerPingResponse(latency) => {
                &&& Self::nothing_done(before, after, out)
                &&& if before.peers@.contains_key(source) {
                    // The answer is a contact
                    &&& after.peers@.contains_key(source)
                    &&& after.peers@[source].same_but_for_contact(&before.peers@[source])
                    &&& stood_at(after.peers@[source].stream.last_contact)
                    &&& after.peers@.remove(source) == before.peers@.remove(source)
                } else {
                    after.peers@ == before.peers@
                }
                &&& after.status@ == if before.peers@.contains_key(source) {
                    Status {
                        pings: before.status@.pings.insert(
                            source,
                            ((latency / 1_000_000) % 0x1_0000_0000) as u32,
                        ),
                        ..before.status@
                    }
                } else {
                    before.status@
                }
            },
            Said::PeerClosePeer(netid) => {
                &&& after.peers@ == before.peers@
                &&& after.sinks@ == before.sinks@
                &&& after.status@ == before.status@
                &&& out.to_room is None
                &&& out.removed is None
                &&& out.close == if before.ownership.permits(source)
                    && before.peers@.contains_key(netid) {
                    Some((netid, 978367384u32))
                } else {
                    None
                }
            },
            _ => {
                &&& Self::nothing_done(before, after, out)
                &&& after.peers@ == before.peers@
                &&& after.status@ == before.status@
            },
        }
    }

    /// Whether nothing is left to do, and the sinks are as they were.
    pub open spec fn nothing_done(before: Self, after: Self, out: RelayOutcome<S, R>) -> bool {
        &&& after.sinks@ == before.sinks@
        &&& out.close is None
        &&& out.to_room is None
        &&& out.removed is None
    }

    /// Takes the message `msg` from the peer `source`, where the connections in `closed` are
    /// closed.
    pub fn handle_peer_message(
        &mut self,
        source: NETID,
        msg: NetRelayMessage,
        closed: &Vec<NETID>,
    ) -> (out: RelayOutcome<S, R>)
        requires
            old(self).well_formed(),
        ensures
            final(self).well_formed(),
            Self::handled(*old(self), source, msg@, closed@, *final(self), out),
    {
        let mut out: RelayOutcome<S, R> = RelayOutcome { close: None, to_room: None, removed: None };
        match msg {
            NetRelayMessage::Close(_) => {
                if self.peers.contains_key(&source) {
                    out.close = Some((source, 972534431));
                }
                let mut closed_now = closed.clone();
                closed_now.push(source);
                out.removed = self.handle_remove_sink(source, &closed_now);
            },
            NetRelayMessage::PeerLeaveRoom => {
                match self.peers.remove(&source) {
                    Some(conn) => {
                        let mut conn = conn;
                        conn.set_netid(NETID_NONE);
                        out.to_room = Some(PeerRelayMessage::ReturnConnection(conn, source));
                    },
                    None => {
                        assert(self.peers@ =~= old(self).peers@.remove(source));
                    },
                }
                out.removed = self.handle_remove_sink(source, closed);
            },
            NetRelayMessage::PeerSetupRoom { info, .. } => {
                if self.has_permission(source) {
                    self.status.info = Some(info);
                }
            },
            NetRelayMessage::PeerPingResponse(ping) => {
                if let Some(conn) = self.peers.remove(&source) {
                    let mut conn = conn;
                    conn.stream.update_last_contact();
                    self.peers.insert(source, conn);
                    let millis: u128 = ping.as_millis();
                    assert(millis as u32 == millis % 0x1_0000_0000) by (bit_vector);
                    self.status.pings.insert(source, millis as u32);
                    assert(self.peers@.remove(source) =~= old(self).peers@.remove(source));
                } else {
                    assert(self.peers@ =~= old(self).peers@);
                }
            },
            NetRelayMessage::PeerClosePeer(netid) => {
                if self.has_permission(source) && self.peers.contains_key(&netid) {
                    out.close = Some((netid, 978367384));
                }
            },
            _ => {},
        }
        out
    }

    /// Takes the message `msg` to the relay, where the connections in `closed` are closed. One
    /// that cannot be read leads to nothing.
    pub fn handle_relay_message(&mut self, msg: NetConnectionMessage, closed: &Vec<NETID>) -> (out:
        RelayOutcome<S, R>)
        requires
            old(self).well_formed(),
            complete(msg@),
        ensures
            final(self).well_formed(),
            exists|now: Option<Duration>| #[trigger]
                told(now) && match read_message(msg@, now) {
                    Ok(said) => Self::handled(
                        *old(self),
                        msg@.source,
                        said,
                        closed@,
                        *final(self),
                        out,
                    ),
                    Err(_) => {
                        &&& *final(self) == *old(self)
                        &&& Self::nothing_done(*old(self), *final(self), out)
                    },
                },
            exists|read: Result<NetRelayMessage, NetRelayMessageError>| #[trigger]
                call_ensures(NetRelayMessage::from_message, (msg,), read) && match read {
                    Ok(m) => Self::handled(
                        *old(self),
                        msg.source_netid,
                        m@,
                        closed@,
                        *final(self),
                        out,
                    ),
                    Err(_) => {
                        &&& *final(self) == *old(self)
                        &&& Self::nothing_done(*old(self), *final(self), out)
                    },
                },
    {
        let source_netid: NETID = msg.source_netid;
        let read = NetRelayMessage::from_message(msg);
        assert(call_ensures(NetRelayMessage::from_message, (msg,), read));
        match read {
            Ok(peer_msg) => self.handle_peer_message(source_netid, peer_msg, closed),
            Err(_) => RelayOutcome { close: None, to_room: None, removed: None },
        }
    }

    /// Whether `after` and `out` are what the message `msg` of the room makes of `before`, where
    /// the connections in `closed` are closed.
    pub open spec fn processed(
        before: Self,
        msg: PeerRelayMessage<S, R>,
        closed: Seq<NETID>,
        after: Self,
        out: QueueOutcome<S, R>,
    ) -> bool {
        &&& after.config == before.config
        &&& after.close_mode == before.close_mode
        &&& after.status@ == before.status@
        &&& after.ownership == match msg {
            PeerRelayMessage::SetOwnership(ownership) => ownership,
            _ => before.ownership,
        }
        &&& match msg {
            PeerRelayMessage::StoreConnection(conn) => {
                let netid = conn.sink.netid;
                &&& after.sinks@ == before.sinks@
                &&& if before.peers@.contains_key(netid) {
                    out == QueueOutcome::Refuse(conn) && after.peers@ == before.peers@
                } else {
                    &&& out matches QueueOutcome::Tell(to, m)
                    &&& to == netid
                    &&& m@ matches Said::RelayListPeers(ids)
                    &&& lists(ids, before.sinks@.dom())
                    &&& after.peers@.contains_key(netid)
                    &&& after.peers@[netid].same_but_for_contact(&conn)
                    &&& stood_at(after.peers@[netid].stream.last_contact)
                    &&& after.peers@.remove(netid) == before.peers@
                }
            },
            PeerRelayMessage::StoreSink(sink) => {
                &&& after.peers@ == before.peers@
                &&& if before.sinks@.contains_key(sink.netid) {
                    out is Nothing && after.sinks@ == before.sinks@
                } else {
                    &&& out matches QueueOutcome::Announce(netid, notify)
                    &&& netid == sink.netid
                    &&& lists(notify@, before.peers@.dom())
                    &&& after.sinks@ == before.sinks@.insert(sink.netid, sink)
                }
            },
            PeerRelayMessage::RemoveConnection(netid) => {
                &&& after.peers@ == before.peers@.remove(netid)
                &&& after.sinks@ == before.sinks@
                &&& if before.peers@.contains_key(netid) {
                    out == QueueOutcome::Drop(before.peers@[netid])
                } else {
                    out is Nothing
                }
            },
            PeerRelayMessage::RemoveSink(netid) => {
                &&& after.peers@ == before.peers@
                &&& after.sinks@ == before.sinks@.remove(netid)
                &&& if before.sinks@.contains_key(netid) {
                    &&& out matches QueueOutcome::Withdraw(id, notify)
                    &&& id == netid
                    &&& lists(notify@, ids_without(before.peers@, closed))
                } else {
                    out is Nothing
                }
            },
            PeerRelayMessage::SetOwnership(_) => {
                &&& after.peers@ == before.peers@
                &&& after.sinks@ == before.sinks@
                &&& out is Nothing
            },
            PeerRelayMessage::UpdateStatus(_) | PeerRelayMessage::ReturnConnection(_, _) => {
                &&& after.peers@ == before.peers@
                &&& after.sinks@ == before.sinks@
                &&& out is Unexpected
            },
        }
    }

    /// Takes the message `msg` of the room, where the connections in `closed` are closed.
    pub fn process_message(&mut self, msg: PeerRelayMessage<S, R>, closed: &Vec<NETID>) -> (out:
        QueueOutcome<S, R>)
        requires
            old(self).well_formed(),
        ensures
            final(self).well_formed(),
            Self::processed(*old(self), msg, closed@, *final(self), out),
    {
        match msg {
            PeerRelayMessage::StoreConnection(conn) => {
                let netid: NETID = conn.get_netid();
                match self.handle_store_connection(conn) {
                    Ok(list) => QueueOutcome::Tell(netid, list),
                    Err(conn) => QueueOutcome::Refuse(conn),
                }
            },
            PeerRelayMessage::StoreSink(sink) => {
                let netid: NETID = sink.get_netid();
                match self.handle_store_sink(sink) {
                    Some(notify) => QueueOutcome::Announce(netid, notify),
                    None => QueueOutcome::Nothing,
                }
            },
            PeerRelayMessage::RemoveConnection(netid) => {
                match self.handle_remove_connection(netid) {
                    Some(conn) => QueueOutcome::Drop(conn),
                    None => QueueOutcome::Nothing,
                }
            },
            PeerRelayMessage::RemoveSink(netid) => {
                match self.handle_remove_sink(netid, closed) {
                    Some(notify) => QueueOutcome::Withdraw(netid, notify),
                    None => QueueOutcome::Nothing,
                }
            },
            PeerRelayMessage::SetOwnership(ownership) => {
                self.ownership = ownership;
                QueueOutcome::Nothing
            },
            PeerRelayMessage::UpdateStatus(_) | PeerRelayMessage::ReturnConnection(_, _) => {
                QueueOutcome::Unexpected
            },
        }
    }

    /// A turn at the messages of the room, with as many looks as the configuration says.
    pub fn begin_turn(&self) -> (t: QueueTurn)
        ensures
            t.left == self.config.channel_msgs_per_update,
    {
        QueueTurn { left: self.config.channel_msgs_per_update }
    }

    /// Takes what a look at the messages of the room found, where the connections in `closed` are
    /// closed. A relay whose room is gone closes.
    pub fn process_queue(&mut self, polled: RoomPolled<S, R>, closed: &Vec<NETID>) -> (step:
        QueueStep<S, R>)
        requires
            old(self).well_formed(),
        ensures
            final(self).well_formed(),
            match polled {
                RoomPolled::Empty => step is Stop && *final(self) == *old(self),
                RoomPolled::Disconnected => {
                    &&& step matches QueueStep::Close(closing)
                    &&& closing.peers@ == old(self).peers@
                    &&& closing.code == 971382753
                    &&& final(self).set_up_as(old(self))
                    &&& final(self).peers@ == Map::<NETID, NetConnection<S, R>>::empty()
                    &&& final(self).sinks@ == Map::<NETID, NetConnectionSink<S>>::empty()
                    &&& final(self).status@ == (Status {
                        pings: Map::empty(),
                        ..old(self).status@
                    })
                },
                RoomPolled::Message(msg) => {
                    &&& step matches QueueStep::Did(out)
                    &&& Self::processed(*old(self), msg, closed@, *final(self), out)
                },
            },
    {
        match polled {
            RoomPolled::Empty => QueueStep::Stop,
            RoomPolled::Disconnected => QueueStep::Close(self.close()),
            RoomPolled::Message(msg) => QueueStep::Did(self.process_message(msg, closed)),
        }
    }

    /// What this relay is called in the log.
    pub open spec fn says(&self) -> Seq<char> {
        "PeerRelay { Room: "@ + decimal(self.config.room_id as nat) + ", Peers/Sinks: "@ + decimal(
            self.peers@.len(),
        ) + "/"@ + decimal(self.sinks@.len()) + ", Ownership: "@ + self.ownership.says()
            + ", Close: "@ + self.close_mode.says() + " }"@
    }

    /// What this relay is called in the log.
    pub fn to_text(&self) -> (s: String)
        ensures
            s@ == self.says(),
    {
        let mut s = "PeerRelay { Room: ".to_owned();
        push_decimal(&mut s, self.config.room_id);
        s.append(", Peers/Sinks: ");
        push_decimal(&mut s, self.peers.len() as u64);
        s.append("/");
        push_decimal(&mut s, self.sinks.len() as u64);
        s.append(", Ownership: ");
        s.append(self.ownership.to_text().as_str());
        s.append(", Close: ");
        s.append(self.close_mode.to_text().as_str());
        s.append(" }");
        s
    }
}

/// Who may not change a room changes nothing: what such a peer says of the room, and whom it wants
/// closed, leads to nothing.
pub proof fn no_permission_no_effect<S, R>(
    before: PeerRelay<S, R>,
    source: NETID,
    said: Said,
    closed: Seq<NETID>,
    after: PeerRelay<S, R>,
    out: RelayOutcome<S, R>,
)
    requires
        !before.ownership.permits(source),
        said is PeerSetupRoom || said is PeerClosePeer,
        PeerRelay::handled(before, source, said, closed, after, out),
    ensures
        after.peers@ == before.peers@,
        after.sinks@ == before.sinks@,
        after.status@ == before.status@,
        out.close is None,
        out.to_room is None,
        out.removed is None,
{
}

/// A peer that leaves the room, or closes, is written to no more by the relay that handled its
/// message.
pub proof fn gone_peer_gets_nothing<S, R>(
    before: PeerRelay<S, R>,
    source: NETID,
    said: Said,
    closed: Seq<NETID>,
    after: PeerRelay<S, R>,
    out: RelayOutcome<S, R>,
    m: Envelope,
    r: Seq<(NETID, NetConnectionMessage)>,
    i: int,
)
    requires
        said is PeerLeaveRoom || said is Close,
        PeerRelay::handled(before, source, said, closed, after, out),
        after.routed(m, closed, r),
        0 <= i < r.len(),
    ensures
        r[i].0 != source,
{
    if m.destination == NETID_ALL {
        let ids = r.map_values(|d: (NETID, NetConnectionMessage)| d.0);
        assert(ids[i] == r[i].0);
        assert(ids.to_set().contains(r[i].0));
    }
}

proof fn lemma_take_set(s: Seq<u64>, i: int)
    requires
        0 <= i < s.len(),
    ensures
        s.take(i + 1).to_set() == s.take(i).to_set().insert(s[i]),
{
    assert(s.take(i + 1) =~= s.take(i).push(s[i]));
    assert forall|x: u64| #[trigger]
        s.take(i + 1).to_set().contains(x) <==> s.take(i).to_set().insert(s[i]).contains(x) by {
        crate::utils::ids::lemma_push_contains(s.take(i), s[i], x);
    }
    assert(s.take(i + 1).to_set() =~= s.take(i).to_set().insert(s[i]));
}

} // verus!
