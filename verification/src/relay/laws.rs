//! What a relay promises, of the functions that keep the promise: who is read from, who is
//! written to and what, who may change the room, and what the room is told.

use crate::lobby::laws::{blank, same_description};
use crate::netconnection::netconnection::{
    NetConnection, NetConnectionMessage, NetConnectionRead, NetConnectionSink, NETID,
};
use crate::relay::messages::{NetRelayMessage, NetRelayMessageError, NetRelayMessageType};
use crate::relay::peer_relay::{
    Closing, PeerRelay, PeerRelayCloseMode, PeerRelayConfig, PeerRelayMessage, PeerRelayOwnership,
    PeerRelayStatus, QueueOutcome, QueueStep, QueueTurn, RelayOutcome, RelaySettings, RoomPolled,
    Verdict,
};
use crate::relay::poll::Round;
use crate::relay::session_manager::{
    PeerStep, SessionAction, SessionManagerMessage, SessionManagerState, SessionPolled,
};
use crate::utils::laws::{in_digits, lemma_in_digits};
use crate::utils::time::{measured, stood_at, Duration};
use std::collections::HashMap;
use vstd::prelude::*;

verus! {

broadcast use vstd::std_specs::hash::group_hash_axioms;

/// Whether `ids` names those of whom `chosen` holds, each once.
pub open spec fn names(ids: Seq<NETID>, chosen: spec_fn(NETID) -> bool) -> bool {
    ids.no_duplicates() && forall|k: NETID| #[trigger] ids.contains(k) <==> chosen(k)
}

proof fn lemma_lists_names(ids: Seq<NETID>, set: Set<NETID>, chosen: spec_fn(NETID) -> bool)
    requires
        crate::utils::ids::lists(ids, set),
        forall|k: NETID| #[trigger] set.contains(k) <==> chosen(k),
    ensures
        names(ids, chosen),
{
    assert forall|k: NETID| #[trigger] ids.contains(k) <==> chosen(k) by {
        assert(ids.to_set().contains(k) <==> ids.contains(k));
    }
}

/// A peer always learns who spoke to it, and what was said: whatever a relay writes for a message,
/// to one peer or to all, has the source, the flag and the data of that message, and goes to the
/// sink that it is addressed to.
pub proof fn routed_as_it_came<S, R>(
    relay: PeerRelay<S, R>,
    msg: NetConnectionMessage,
    closed: Vec<NETID>,
    written: Vec<(NETID, NetConnectionMessage)>,
    i: int,
)
    requires
        call_ensures(PeerRelay::<S, R>::route, (&relay, msg, &closed), written),
        0 <= i < written@.len(),
    ensures
        written@[i].1.source_netid == msg.source_netid,
        written@[i].1.compressed == msg.compressed,
        crate::buffer::held(written@[i].1.data) == crate::buffer::held(msg.data),
        written@[i].1.destination_netid == written@[i].0,
        relay.sinks@.contains_key(written@[i].0),
{
    let w = written@[i].1;
    assert(w@.source == w.source_netid && w@.data == crate::buffer::held(w.data));
    if msg.destination_netid == 3 {
        let to = written@.map_values(|d: (NETID, NetConnectionMessage)| d.0);
        assert(to[i] == written@[i].0);
        assert(to.to_set().contains(written@[i].0));
    }
}

/// A message to all reaches every sink once; one to a peer reaches the sink of that peer once, if
/// it has one that is open, and no other.
pub proof fn routed_to_whom_it_is_for<S, R>(
    relay: PeerRelay<S, R>,
    msg: NetConnectionMessage,
    closed: Vec<NETID>,
    written: Vec<(NETID, NetConnectionMessage)>,
)
    requires
        call_ensures(PeerRelay::<S, R>::route, (&relay, msg, &closed), written),
    ensures
        names(
            written@.map_values(|d: (NETID, NetConnectionMessage)| d.0),
            |k: NETID|
                relay.sinks@.contains_key(k) && (msg.destination_netid == 3 || (k
                    == msg.destination_netid && !closed@.contains(k))),
        ),
{
    let to = written@.map_values(|d: (NETID, NetConnectionMessage)| d.0);
    assert(msg@.destination == msg.destination_netid);
    if msg.destination_netid == 3 {
        assert forall|k: NETID| #[trigger] to.contains(k) <==> relay.sinks@.contains_key(k) by {
            assert(to.to_set().contains(k) <==> relay.sinks@.dom().contains(k));
        }
    } else if relay.sinks@.contains_key(msg.destination_netid) && !closed@.contains(
        msg.destination_netid,
    ) {
        assert(to =~= seq![msg.destination_netid]);
        assert(to[0] == msg.destination_netid);
    } else {
        assert(to =~= Seq::empty());
    }
}

/// Every sink that is open is flushed.
pub proof fn open_sinks_are_flushed<S, R>(
    relay: PeerRelay<S, R>,
    closed: Vec<NETID>,
    flushed: Vec<NETID>,
)
    requires
        call_ensures(PeerRelay::<S, R>::flushes, (&relay, &closed), flushed),
    ensures
        names(flushed@, |k: NETID| relay.sinks@.contains_key(k) && !closed@.contains(k)),
{
    let set = crate::utils::ids::ids_without(relay.sinks@, closed@);
    lemma_lists_names(
        flushed@,
        set,
        |k: NETID| relay.sinks@.contains_key(k) && !closed@.contains(k),
    );
}

/// The code that a peer `netid` is closed with for a message: it speaks for itself alone, and
/// neither to itself nor to nobody.
pub open spec fn offence(netid: NETID, m: NetConnectionMessage) -> Option<u32> {
    if m.source_netid != netid {
        Some(98364723)
    } else if m.destination_netid == netid {
        Some(98748384)
    } else if m.destination_netid == 0 {
        Some(98275737)
    } else {
        None
    }
}

/// Which of a peer's messages are passed on, and to whom: no peer speaks for another, nor to
/// itself, nor to nobody; what is for the relay goes to the relay, and the rest to peers.
pub proof fn messages_are_judged(netid: NETID, m: NetConnectionMessage, v: Verdict)
    requires
        call_ensures(crate::relay::peer_relay::judge, (netid, &m), v),
    ensures
        offence(netid, m) matches Some(code) ==> v == Verdict::Close(code),
        offence(netid, m) is None && m.destination_netid == 2 ==> v == Verdict::Relay,
        offence(netid, m) is None && m.destination_netid != 2 ==> v == Verdict::Peers,
{
    assert(m@.source == m.source_netid && m@.destination == m.destination_netid);
}

/// Those of a peer's messages that are for the relay, in their order.
pub open spec fn to_the_relay(netid: NETID, msgs: Seq<NetConnectionMessage>) -> Seq<
    NetConnectionMessage,
> {
    msgs.filter(|m: NetConnectionMessage| offence(netid, m) is None && m.destination_netid == 2)
}

/// Those of a peer's messages that are for peers, in their order.
pub open spec fn to_peers(netid: NETID, msgs: Seq<NetConnectionMessage>) -> Seq<
    NetConnectionMessage,
> {
    msgs.filter(|m: NetConnectionMessage| offence(netid, m) is None && m.destination_netid != 2)
}

/// The codes that a peer's messages close it with, in their order.
pub open spec fn offences(netid: NETID, msgs: Seq<NetConnectionMessage>) -> Seq<u32> {
    msgs.filter(|m: NetConnectionMessage| offence(netid, m) is Some).map_values(
        |m: NetConnectionMessage| offence(netid, m)->0,
    )
}

proof fn lemma_sorted(netid: NETID, msgs: Seq<NetConnectionMessage>)
    ensures
        crate::relay::peer_relay::messages_for(netid, msgs, Verdict::Relay) == to_the_relay(
            netid,
            msgs,
        ),
        crate::relay::peer_relay::messages_for(netid, msgs, Verdict::Peers) == to_peers(
            netid,
            msgs,
        ),
        crate::relay::peer_relay::codes_of(netid, msgs) == offences(netid, msgs),
    decreases msgs.len(),
{
    reveal(Seq::filter);
    if msgs.len() > 0 {
        lemma_sorted(netid, msgs.drop_last());
        let m = msgs.last();
        let code_of = |m: NetConnectionMessage| offence(netid, m)->0;
        let bad = |m: NetConnectionMessage| offence(netid, m) is Some;
        assert(m@.source == m.source_netid && m@.destination == m.destination_netid);
        let before = msgs.drop_last().filter(bad);
        if bad(m) {
            assert(before.push(m).map_values(code_of) =~= before.map_values(code_of).push(
                code_of(m),
            ));
        }
    } else {
        assert(offences(netid, msgs) =~= Seq::empty());
    }
}

/// What was read from a peer is sorted: what is for the relay and what is for peers goes behind
/// what was there, in its order, and the rest closes the peer.
pub proof fn messages_are_sorted(
    netid: NETID,
    msgs: Vec<NetConnectionMessage>,
    relay_before: Vec<NetConnectionMessage>,
    peers_before: Vec<NetConnectionMessage>,
    relay_after: Vec<NetConnectionMessage>,
    peers_after: Vec<NetConnectionMessage>,
    codes: Vec<u32>,
)
    requires
        exists|relay_msgs: &mut Vec<NetConnectionMessage>, peers_msgs: &mut Vec<NetConnectionMessage>|
            #[trigger]
            call_ensures(
                crate::relay::peer_relay::sort_messages,
                (netid, msgs, relay_msgs, peers_msgs),
                codes,
            ) && *relay_msgs == relay_before && *peers_msgs == peers_before && *final(relay_msgs)
                == relay_after && *final(peers_msgs) == peers_after,
    ensures
        relay_after@ == relay_before@ + to_the_relay(netid, msgs@),
        peers_after@ == peers_before@ + to_peers(netid, msgs@),
        codes@ == offences(netid, msgs@),
{
    lemma_sorted(netid, msgs@);
}

/// The messages that reading from a peer gave.
pub open spec fn brought(read: NetConnectionRead<Vec<NetConnectionMessage>>) -> Seq<
    NetConnectionMessage,
> {
    match read {
        NetConnectionRead::Data(msgs) => msgs@,
        _ => Seq::empty(),
    }
}

/// In a round, what is read is read from the peer whose turn it is, and that peer has had its turn
/// then; what it sent is sorted, and it is closed for what it may not send.
pub proof fn each_peer_has_its_turn(
    before: Round,
    next: Option<NETID>,
    read: NetConnectionRead<Vec<NetConnectionMessage>>,
    after: Round,
)
    requires
        call_ensures(Round::next_peer, (&before,), next),
        exists|round: &mut Round| #[trigger]
            call_ensures(Round::take, (round, read), ()) && *round == before && *final(round)
                == after,
        before.readable@.len() > 0,
    ensures
        next matches Some(netid) && {
            &&& before.readable@ == after.readable@.push(netid)
            &&& after.relay_msgs@ == before.relay_msgs@ + to_the_relay(netid, brought(read))
            &&& after.peers_msgs@ == before.peers_msgs@ + to_peers(netid, brought(read))
            &&& after.closes@.len() == before.closes@.len() + offences(netid, brought(read)).len()
            &&& forall|i: int|
                0 <= i < before.closes@.len() ==> #[trigger] after.closes@[i] == before.closes@[i]
            &&& forall|i: int|
                before.closes@.len() <= i < after.closes@.len() ==> #[trigger] after.closes@[i] == (
                netid,
                offences(netid, brought(read))[i - before.closes@.len()],
            )
        },
{
    let netid = before.readable@.last();
    let msgs = crate::relay::peer_relay::messages_of(read);
    assert(msgs == brought(read));
    lemma_sorted(netid, msgs);
    assert(before.readable@ =~= before.readable@.drop_last().push(netid));
}

/// Why a peer is closed instead of read from: its NETID is none that a peer can have, or it has a
/// timeout and was last heard of longer ago than that.
pub open spec fn turned_away<S, R>(conn: NetConnection<S, R>, seen: Duration) -> Option<u32> {
    if conn.sink.netid == 0 || conn.sink.netid == 2 || conn.sink.netid == 3 {
        Some(936585274)
    } else if conn.stream.timeout.nanos > 0 && seen.nanos > conn.stream.timeout.nanos {
        Some(917347483)
    } else {
        None
    }
}

/// Who has a NETID that no peer can have, or took too long to contact, is turned away.
pub proof fn overdue_peers_are_turned_away<S, R>(
    conn: NetConnection<S, R>,
    seen: Duration,
    r: Option<u32>,
)
    requires
        call_ensures(crate::relay::peer_relay::refusal::<S, R>, (&conn, seen), r),
    ensures
        r == turned_away(conn, seen),
{
}

/// A round begins with every peer: those that are turned away are to be closed, with the code that
/// says why, and all others are to be read from.
pub proof fn round_begins_with_every_peer<S, R>(
    relay: PeerRelay<S, R>,
    seen: HashMap<NETID, Duration>,
    round: Round,
)
    requires
        call_ensures(PeerRelay::<S, R>::open_round, (&relay, &seen), round),
        seen@.dom() == relay.peers@.dom(),
    ensures
        names(
            round.readable@,
            |k: NETID|
                relay.peers@.contains_key(k) && turned_away(relay.peers@[k], seen@[k]) is None,
        ),
        names(
            round.closes@.map_values(|c: (NETID, u32)| c.0),
            |k: NETID|
                relay.peers@.contains_key(k) && turned_away(relay.peers@[k], seen@[k]) is Some,
        ),
        forall|i: int|
            0 <= i < round.closes@.len() ==> Some((#[trigger] round.closes@[i]).1) == turned_away(
                relay.peers@[round.closes@[i].0],
                seen@[round.closes@[i].0],
            ),
        round.relay_msgs@.len() == 0,
        round.peers_msgs@.len() == 0,
{
    lemma_opened(relay, seen@, round);
}

proof fn lemma_opened<S, R>(relay: PeerRelay<S, R>, seen: Map<NETID, Duration>, round: Round)
    requires
        relay.opened(seen, round),
        seen.dom() == relay.peers@.dom(),
    ensures
        names(
            round.readable@,
            |k: NETID|
                relay.peers@.contains_key(k) && turned_away(relay.peers@[k], seen[k]) is None,
        ),
        names(
            round.closes@.map_values(|c: (NETID, u32)| c.0),
            |k: NETID|
                relay.peers@.contains_key(k) && turned_away(relay.peers@[k], seen[k]) is Some,
        ),
        forall|i: int|
            0 <= i < round.closes@.len() ==> Some((#[trigger] round.closes@[i]).1) == turned_away(
                relay.peers@[round.closes@[i].0],
                seen[round.closes@[i].0],
            ),
{
    let refused = relay.refused(seen);
    lemma_lists_names(
        round.readable@,
        relay.readable(seen),
        |k: NETID| relay.peers@.contains_key(k) && turned_away(relay.peers@[k], seen[k]) is None,
    );
    lemma_lists_names(
        crate::relay::poll::closed_in(round.closes@),
        refused.dom(),
        |k: NETID| relay.peers@.contains_key(k) && turned_away(relay.peers@[k], seen[k]) is Some,
    );
    let ids = crate::relay::poll::closed_in(round.closes@);
    assert forall|i: int| 0 <= i < round.closes@.len() implies Some(
        (#[trigger] round.closes@[i]).1,
    ) == turned_away(relay.peers@[round.closes@[i].0], seen[round.closes@[i].0]) by {
        assert(ids[i] == round.closes@[i].0);
        assert(ids.to_set().contains(ids[i]));
        assert(refused.contains_key(ids[i]));
    }
}

/// A round begins without the connections that are closed, and with the ages that the clock gives:
/// who is read from was heard of within its timeout.
pub proof fn round_begins_now<S, R>(
    before: PeerRelay<S, R>,
    closed: Vec<NETID>,
    after: PeerRelay<S, R>,
    round: Round,
)
    requires
        exists|relay: &mut PeerRelay<S, R>| #[trigger]
            call_ensures(PeerRelay::<S, R>::begin_round, (relay, &closed), round) && *relay == before
                && *final(relay) == after,
    ensures
        forall|k: NETID| #[trigger]
            after.peers@.contains_key(k) <==> before.peers@.contains_key(k) && !closed@.contains(k),
        forall|k: NETID| #[trigger]
            after.peers@.contains_key(k) ==> after.peers@[k] == before.peers@[k],
        after.sinks@ == before.sinks@,
        exists|seen: Map<NETID, Duration>|
            {
                &&& #[trigger] seen.dom() == after.peers@.dom()
                &&& forall|k: NETID| #[trigger]
                    after.peers@.contains_key(k) ==> measured(
                        after.peers@[k].stream.last_contact,
                        seen[k],
                    )
                &&& names(
                    round.readable@,
                    |k: NETID|
                        after.peers@.contains_key(k) && turned_away(after.peers@[k], seen[k]) is None,
                )
                &&& names(
                    round.closes@.map_values(|c: (NETID, u32)| c.0),
                    |k: NETID|
                        after.peers@.contains_key(k) && turned_away(after.peers@[k], seen[k]) is Some,
                )
            },
{
    let seen = choose|seen: Map<NETID, Duration>| #[trigger]
        after.heard_of(seen) && after.opened(seen, round);
    lemma_opened(after, seen, round);
    assert forall|k: NETID| #[trigger] after.peers@.contains_key(k) implies measured(
        after.peers@[k].stream.last_contact,
        seen[k],
    ) by {
        assert(seen.contains_key(k));
    }
    assert forall|k: NETID| #[trigger]
        after.peers@.contains_key(k) <==> before.peers@.contains_key(k) && !closed@.contains(k) by {
        assert(closed@.to_set().contains(k) <==> closed@.contains(k));
    }
    assert(seen.dom() == after.peers@.dom());
}

/// When a round is read, the sinks of whoever is closed go, and every peer that is not closed is
/// told of each.
pub proof fn closed_sinks_are_given_up<S, R>(
    before: PeerRelay<S, R>,
    round: Round,
    closed: Vec<NETID>,
    closed_peers: Vec<NETID>,
    after: PeerRelay<S, R>,
    gone: Vec<NETID>,
    notify: Vec<NETID>,
)
    requires
        exists|relay: &mut PeerRelay<S, R>| #[trigger]
            call_ensures(
                PeerRelay::<S, R>::settle,
                (relay, &round, &closed, &closed_peers),
                (gone, notify),
            ) && *relay == before && *final(relay) == after,
    ensures
        ({
            let shut = round.closes@.map_values(|c: (NETID, u32)| c.0);
            &&& forall|k: NETID| #[trigger]
                after.sinks@.contains_key(k) <==> before.sinks@.contains_key(k) && !closed@.contains(
                    k,
                ) && !shut.contains(k)
            &&& forall|k: NETID| #[trigger]
                after.sinks@.contains_key(k) ==> after.sinks@[k] == before.sinks@[k]
            &&& names(
                gone@,
                |k: NETID|
                    before.sinks@.contains_key(k) && (closed@.contains(k) || shut.contains(k)),
            )
            &&& names(
                notify@,
                |k: NETID|
                    before.peers@.contains_key(k) && !closed_peers@.contains(k) && !shut.contains(k),
            )
            &&& after.peers@ == before.peers@
        }),
{
    let shut = crate::relay::poll::closed_in(round.closes@);
    let pruned = closed@ + shut;
    let told = closed_peers@ + shut;
    assert forall|k: NETID| #[trigger] pruned.to_set().contains(k) <==> closed@.contains(k)
        || shut.contains(k) by {
        lemma_contains_sum(closed@, shut, k);
    }
    assert forall|k: NETID| #[trigger] told.to_set().contains(k) <==> closed_peers@.contains(k)
        || shut.contains(k) by {
        lemma_contains_sum(closed_peers@, shut, k);
    }
    assert forall|k: NETID| #[trigger]
        after.sinks@.contains_key(k) <==> before.sinks@.contains_key(k) && !closed@.contains(k)
            && !shut.contains(k) by {
        assert(pruned.to_set().contains(k) <==> closed@.contains(k) || shut.contains(k));
    }
    lemma_lists_names(
        gone@,
        before.sinks@.dom().intersect(pruned.to_set()),
        |k: NETID| before.sinks@.contains_key(k) && (closed@.contains(k) || shut.contains(k)),
    );
    lemma_lists_names(
        notify@,
        crate::utils::ids::ids_without(before.peers@, told),
        |k: NETID|
            before.peers@.contains_key(k) && !closed_peers@.contains(k) && !shut.contains(k),
    );
}

proof fn lemma_contains_sum(a: Seq<NETID>, b: Seq<NETID>, k: NETID)
    ensures
        (a + b).contains(k) <==> a.contains(k) || b.contains(k),
{
    if a.contains(k) {
        let i = choose|i: int| 0 <= i < a.len() && a[i] == k;
        assert((a + b)[i] == k);
    }
    if b.contains(k) {
        let i = choose|i: int| 0 <= i < b.len() && b[i] == k;
        assert((a + b)[a.len() + i] == k);
    }
    if (a + b).contains(k) {
        let i = choose|i: int| 0 <= i < (a + b).len() && (a + b)[i] == k;
        if i < a.len() {
            assert(a[i] == k);
        } else {
            assert(b[i - a.len()] == k);
        }
    }
}

/// Who was last heard of longer ago than a relay waits is pinged, and nobody else.
pub proof fn silent_peers_are_pinged<S, R>(
    relay: PeerRelay<S, R>,
    seen: HashMap<NETID, Duration>,
    pinged: Vec<NETID>,
)
    requires
        call_ensures(PeerRelay::<S, R>::overdue_for_ping, (&relay, &seen), pinged),
    ensures
        names(
            pinged@,
            |k: NETID|
                relay.peers@.contains_key(k) && seen@[k].nanos > relay.config.ping_wait_time.nanos,
        ),
{
    lemma_lists_names(
        pinged@,
        relay.pinged(seen@),
        |k: NETID|
            relay.peers@.contains_key(k) && seen@[k].nanos > relay.config.ping_wait_time.nanos,
    );
}

/// The same by the clock.
pub proof fn silent_peers_are_pinged_now<S, R>(relay: PeerRelay<S, R>, pinged: Vec<NETID>)
    requires
        call_ensures(PeerRelay::<S, R>::ping_peers, (&relay,), pinged),
    ensures
        exists|seen: Map<NETID, Duration>|
            {
                &&& #[trigger] seen.dom() == relay.peers@.dom()
                &&& forall|k: NETID| #[trigger]
                    relay.peers@.contains_key(k) ==> measured(
                        relay.peers@[k].stream.last_contact,
                        seen[k],
                    )
                &&& names(
                    pinged@,
                    |k: NETID|
                        relay.peers@.contains_key(k) && seen[k].nanos
                            > relay.config.ping_wait_time.nanos,
                )
            },
{
    let seen = choose|seen: Map<NETID, Duration>| #[trigger]
        relay.heard_of(seen) && crate::utils::ids::lists(pinged@, relay.pinged(seen));
    lemma_lists_names(
        pinged@,
        relay.pinged(seen),
        |k: NETID| relay.peers@.contains_key(k) && seen[k].nanos > relay.config.ping_wait_time.nanos,
    );
    assert forall|k: NETID| #[trigger] relay.peers@.contains_key(k) implies measured(
        relay.peers@[k].stream.last_contact,
        seen[k],
    ) by {
        assert(seen.contains_key(k));
    }
    assert(seen.dom() == relay.peers@.dom());
}

/// Whether a room is told the same by `a` and by `b`.
pub open spec fn same_report(a: PeerRelayStatus, b: PeerRelayStatus) -> bool {
    &&& a.peers == b.peers
    &&& a.sinks == b.sinks
    &&& a.pings@ == b.pings@
    &&& match (a.info, b.info) {
        (Some(x), Some(y)) => same_description(x, y) && x.room_id == y.room_id && x.ping == y.ping,
        (None, None) => true,
        _ => false,
    }
}

pub proof fn lemma_same_report(a: PeerRelayStatus, b: PeerRelayStatus)
    requires
        a@ == b@,
    ensures
        same_report(a, b),
{
    assert(a@.peers == b@.peers && a@.sinks == b@.sinks && a@.info == b@.info);
    match (a.info, b.info) {
        (Some(x), Some(y)) => {
            assert(a@.info == Some(x@) && b@.info == Some(y@));
            assert(x@.game_type == y@.game_type);
        },
        _ => {},
    }
}

/// Whether two relays are configured alike and end alike.
pub open spec fn same_setup<S, R>(a: PeerRelay<S, R>, b: PeerRelay<S, R>) -> bool {
    a.config == b.config && a.close_mode == b.close_mode && a.ownership == b.ownership
}

/// Whether the owners `o` let `netid` change the room.
pub open spec fn may_change(o: PeerRelayOwnership, netid: NETID) -> bool {
    match o {
        PeerRelayOwnership::Nobody => false,
        PeerRelayOwnership::Peer(owner) => owner == netid,
        PeerRelayOwnership::All => true,
    }
}

/// Who may change a room: nobody, one peer or every peer, as its owners are.
pub proof fn owners_are_permitted<S, R>(relay: PeerRelay<S, R>, netid: NETID, permitted: bool)
    requires
        call_ensures(PeerRelay::<S, R>::has_permission, (&relay, netid), permitted),
    ensures
        permitted == may_change(relay.ownership, netid),
{
}

/// A relay begins with the connections and the sinks that it is given, each under its NETID; of
/// several with one NETID it keeps the last.
pub proof fn relay_begins_with_what_it_is_given<S, R>(
    config: PeerRelayConfig,
    close_mode: PeerRelayCloseMode,
    ownership: PeerRelayOwnership,
    conns: Vec<NetConnection<S, R>>,
    sinks: Vec<NetConnectionSink<S>>,
    relay: PeerRelay<S, R>,
)
    requires
        call_ensures(
            PeerRelay::<S, R>::new,
            (config, close_mode, ownership, conns, sinks),
            relay,
        ),
    ensures
        relay.config == config,
        relay.close_mode == close_mode,
        relay.ownership == ownership,
        blank(relay.status),
        forall|k: NETID| #[trigger]
            relay.peers@.contains_key(k) ==> exists|i: int|
                0 <= i < conns@.len() && #[trigger] conns@[i] == relay.peers@[k]
                    && conns@[i].sink.netid == k,
        forall|i: int|
            0 <= i < conns@.len() && (forall|j: int|
                i < j < conns@.len() ==> (#[trigger] conns@[j]).sink.netid != conns@[i].sink.netid)
                ==> relay.peers@.contains_key((#[trigger] conns@[i]).sink.netid)
                && relay.peers@[conns@[i].sink.netid] == conns@[i],
        forall|k: NETID| #[trigger]
            relay.sinks@.contains_key(k) ==> exists|i: int|
                0 <= i < sinks@.len() && #[trigger] sinks@[i] == relay.sinks@[k] && sinks@[i].netid
                    == k,
        forall|i: int|
            0 <= i < sinks@.len() && (forall|j: int|
                i < j < sinks@.len() ==> (#[trigger] sinks@[j]).netid != sinks@[i].netid)
                ==> relay.sinks@.contains_key((#[trigger] sinks@[i]).netid)
                && relay.sinks@[sinks@[i].netid] == sinks@[i],
{
    assert(relay.status@.peers == 0 && relay.status@.sinks == 0 && relay.status@.info is None);
    assert(relay.status@.pings == relay.status.pings@);
    lemma_conns_by_netid(conns@);
    lemma_sinks_by_netid(sinks@);
}

proof fn lemma_conns_by_netid<S, R>(conns: Seq<NetConnection<S, R>>)
    ensures
        ({
            let m = crate::relay::peer_relay::conns_by_netid(conns);
            &&& forall|k: NETID| #[trigger]
                m.contains_key(k) ==> exists|i: int|
                    0 <= i < conns.len() && #[trigger] conns[i] == m[k] && conns[i].sink.netid == k
            &&& forall|i: int|
                0 <= i < conns.len() && (forall|j: int|
                    i < j < conns.len() ==> (#[trigger] conns[j]).sink.netid != conns[i].sink.netid)
                    ==> m.contains_key((#[trigger] conns[i]).sink.netid)
                    && m[conns[i].sink.netid] == conns[i]
        }),
    decreases conns.len(),
{
    if conns.len() > 0 {
        let rest = conns.drop_last();
        let last = conns.last();
        let m = crate::relay::peer_relay::conns_by_netid(conns);
        let mr = crate::relay::peer_relay::conns_by_netid(rest);
        lemma_conns_by_netid(rest);
        assert(conns[conns.len() - 1] == last);
        assert forall|k: NETID| #[trigger] m.contains_key(k) implies exists|i: int|
            0 <= i < conns.len() && #[trigger] conns[i] == m[k] && conns[i].sink.netid == k by {
            if k != last.sink.netid {
                assert(mr.contains_key(k));
                let i = choose|i: int|
                    0 <= i < rest.len() && #[trigger] rest[i] == mr[k] && rest[i].sink.netid == k;
                assert(conns[i] == m[k]);
            }
        }
        assert forall|i: int|
            0 <= i < conns.len() && (forall|j: int|
                i < j < conns.len() ==> (#[trigger] conns[j]).sink.netid
                    != conns[i].sink.netid) implies m.contains_key((#[trigger] conns[i]).sink.netid)
            && m[conns[i].sink.netid] == conns[i] by {
            if i < rest.len() {
                assert(conns[conns.len() - 1].sink.netid != conns[i].sink.netid);
                assert(rest[i] == conns[i]);
                assert forall|j: int| i < j < rest.len() implies (#[trigger] rest[j]).sink.netid
                    != rest[i].sink.netid by {
                    assert(conns[j] == rest[j]);
                }
            }
        }
    }
}

proof fn lemma_sinks_by_netid<S>(sinks: Seq<NetConnectionSink<S>>)
    ensures
        ({
            let m = crate::relay::peer_relay::sinks_by_netid(sinks);
            &&& forall|k: NETID| #[trigger]
                m.contains_key(k) ==> exists|i: int|
                    0 <= i < sinks.len() && #[trigger] sinks[i] == m[k] && sinks[i].netid == k
            &&& forall|i: int|
                0 <= i < sinks.len() && (forall|j: int|
                    i < j < sinks.len() ==> (#[trigger] sinks[j]).netid != sinks[i].netid)
                    ==> m.contains_key((#[trigger] sinks[i]).netid) && m[sinks[i].netid] == sinks[i]
        }),
    decreases sinks.len(),
{
    if sinks.len() > 0 {
        let rest = sinks.drop_last();
        let last = sinks.last();
        let m = crate::relay::peer_relay::sinks_by_netid(sinks);
        let mr = crate::relay::peer_relay::sinks_by_netid(rest);
        lemma_sinks_by_netid(rest);
        assert(sinks[sinks.len() - 1] == last);
        assert forall|k: NETID| #[trigger] m.contains_key(k) implies exists|i: int|
            0 <= i < sinks.len() && #[trigger] sinks[i] == m[k] && sinks[i].netid == k by {
            if k != last.netid {
                assert(mr.contains_key(k));
                let i = choose|i: int|
                    0 <= i < rest.len() && #[trigger] rest[i] == mr[k] && rest[i].netid == k;
                assert(sinks[i] == m[k]);
            }
        }
        assert forall|i: int|
            0 <= i < sinks.len() && (forall|j: int|
                i < j < sinks.len() ==> (#[trigger] sinks[j]).netid
                    != sinks[i].netid) implies m.contains_key((#[trigger] sinks[i]).netid)
            && m[sinks[i].netid] == sinks[i] by {
            if i < rest.len() {
                assert(sinks[sinks.len() - 1].netid != sinks[i].netid);
                assert(rest[i] == sinks[i]);
                assert forall|j: int| i < j < rest.len() implies (#[trigger] rest[j]).netid
                    != rest[i].netid by {
                    assert(sinks[j] == rest[j]);
                }
            }
        }
    }
}

/// A relay that closes hands out every connection that it read from, to be closed, and keeps
/// neither a peer nor a sink.
pub proof fn closing_gives_up_everyone<S, R>(
    before: PeerRelay<S, R>,
    after: PeerRelay<S, R>,
    closing: Closing<S, R>,
)
    requires
        exists|relay: &mut PeerRelay<S, R>| #[trigger]
            call_ensures(PeerRelay::<S, R>::close, (relay,), closing) && *relay == before
                && *final(relay) == after,
    ensures
        closing.peers@ == before.peers@,
        closing.code == 971382753,
        forall|k: NETID| !#[trigger] after.peers@.contains_key(k),
        forall|k: NETID| !#[trigger] after.sinks@.contains_key(k),
        forall|k: NETID| !#[trigger] after.status.pings@.contains_key(k),
        same_setup(after, before),
{
    assert(after.status@.pings == after.status.pings@);
}

/// A relay ends exactly where it has nobody left to read from, or nobody left to write to, as its
/// mode says, unless it has ended already.
pub proof fn deserted_relays_close<S, R>(
    before: PeerRelay<S, R>,
    closed: bool,
    after: PeerRelay<S, R>,
    r: Option<Closing<S, R>>,
)
    requires
        exists|relay: &mut PeerRelay<S, R>| #[trigger]
            call_ensures(PeerRelay::<S, R>::check_close_state, (relay, closed), r) && *relay
                == before && *final(relay) == after,
    ensures
        r is Some <==> !closed && match before.close_mode {
            PeerRelayCloseMode::NoPeers => forall|k: NETID| !#[trigger] before.peers@.contains_key(
                k,
            ),
            PeerRelayCloseMode::NoSinks => forall|k: NETID| !#[trigger] before.sinks@.contains_key(
                k,
            ),
        },
        r is None ==> after == before,
        r matches Some(closing) ==> closing.peers@ == before.peers@ && closing.code == 971382753
            && after.peers@.dom().is_empty() && after.sinks@.dom().is_empty(),
{
    lemma_no_keys(before.peers@);
    lemma_no_keys(before.sinks@);
}

proof fn lemma_no_keys<V>(m: Map<NETID, V>)
    requires
        m.dom().finite(),
    ensures
        m.len() == 0 <==> forall|k: NETID| !#[trigger] m.contains_key(k),
{
    if m.len() == 0 {
        assert forall|k: NETID| !#[trigger] m.contains_key(k) by {
            if m.dom().contains(k) {
                vstd::set_lib::lemma_set_empty_equivalency_len(m.dom());
            }
        }
    }
    if forall|k: NETID| !#[trigger] m.contains_key(k) {
        assert(m.dom() =~= Set::empty());
    }
}

/// A connection that a relay takes is read from under its NETID, and counts as heard of now; it is
/// told who is there. One whose NETID is taken is handed back, and nothing changes.
pub proof fn stored_connection_is_read_from<S, R>(
    before: PeerRelay<S, R>,
    conn: NetConnection<S, R>,
    after: PeerRelay<S, R>,
    r: Result<NetRelayMessage, NetConnection<S, R>>,
)
    requires
        exists|relay: &mut PeerRelay<S, R>| #[trigger]
            call_ensures(PeerRelay::<S, R>::handle_store_connection, (relay, conn), r) && *relay
                == before && *final(relay) == after,
    ensures
        stored(before, conn, after),
        before.peers@.contains_key(conn.sink.netid) ==> r == Err::<
            NetRelayMessage,
            NetConnection<S, R>,
        >(conn),
        !before.peers@.contains_key(conn.sink.netid) ==> (r matches Ok(
            NetRelayMessage::RelayListPeers(ids),
        ) && names(ids@, |k: NETID| before.sinks@.contains_key(k))),
        after.sinks@ == before.sinks@,
        same_setup(after, before),
        same_report(after.status, before.status),
{
    lemma_same_report(after.status, before.status);
    if !before.peers@.contains_key(conn.sink.netid) {
        lemma_stored(before, conn, after);
        if let Ok(NetRelayMessage::RelayListPeers(ids)) = r {
            lemma_lists_names(
                ids@,
                before.sinks@.dom(),
                |k: NETID| before.sinks@.contains_key(k),
            );
        }
    }
}

/// Whether `after` reads from `conn`, and from everybody that `before` reads from; where the NETID
/// is taken, it reads from whom it did.
pub open spec fn stored<S, R>(
    before: PeerRelay<S, R>,
    conn: NetConnection<S, R>,
    after: PeerRelay<S, R>,
) -> bool {
    let netid = conn.sink.netid;
    if before.peers@.contains_key(netid) {
        after.peers@ == before.peers@
    } else {
        let kept = after.peers@[netid];
        &&& forall|k: NETID| #[trigger]
            after.peers@.contains_key(k) <==> before.peers@.contains_key(k) || k == netid
        &&& forall|k: NETID| #[trigger]
            before.peers@.contains_key(k) ==> after.peers@[k] == before.peers@[k]
        &&& kept.sink == conn.sink
        &&& kept.stream.info == conn.stream.info
        &&& kept.stream.stream == conn.stream.stream
        &&& kept.stream.timeout == conn.stream.timeout
        &&& stood_at(kept.stream.last_contact)
    }
}

proof fn lemma_stored<S, R>(
    before: PeerRelay<S, R>,
    conn: NetConnection<S, R>,
    after: PeerRelay<S, R>,
)
    requires
        !before.peers@.contains_key(conn.sink.netid),
        after.peers@.contains_key(conn.sink.netid),
        after.peers@[conn.sink.netid].same_but_for_contact(&conn),
        stood_at(after.peers@[conn.sink.netid].stream.last_contact),
        after.peers@.remove(conn.sink.netid) == before.peers@,
    ensures
        stored(before, conn, after),
{
    let netid = conn.sink.netid;
    assert forall|k: NETID| #[trigger]
        after.peers@.contains_key(k) <==> before.peers@.contains_key(k) || k == netid by {
        assert(after.peers@.remove(netid).contains_key(k) <==> after.peers@.contains_key(k) && k
            != netid);
    }
}

/// A connection that a relay gives up is handed out, and nobody else's goes.
pub proof fn removed_connection_is_handed_out<S, R>(
    before: PeerRelay<S, R>,
    netid: NETID,
    after: PeerRelay<S, R>,
    r: Option<NetConnection<S, R>>,
)
    requires
        exists|relay: &mut PeerRelay<S, R>| #[trigger]
            call_ensures(PeerRelay::<S, R>::handle_remove_connection, (relay, netid), r) && *relay
                == before && *final(relay) == after,
    ensures
        r is Some <==> before.peers@.contains_key(netid),
        r matches Some(conn) ==> conn == before.peers@[netid],
        after.peers@ == before.peers@.remove(netid),
        after.sinks@ == before.sinks@,
        same_setup(after, before),
        same_report(after.status, before.status),
{
    lemma_same_report(after.status, before.status);
}

/// A sink that a relay takes is written to under its NETID, and every peer is told of it. One whose
/// NETID is taken is dropped.
pub proof fn stored_sink_is_written_to<S, R>(
    before: PeerRelay<S, R>,
    sink: NetConnectionSink<S>,
    after: PeerRelay<S, R>,
    r: Option<Vec<NETID>>,
)
    requires
        exists|relay: &mut PeerRelay<S, R>| #[trigger]
            call_ensures(PeerRelay::<S, R>::handle_store_sink, (relay, sink), r) && *relay == before
                && *final(relay) == after,
    ensures
        before.sinks@.contains_key(sink.netid) ==> r is None && after.sinks@ == before.sinks@,
        !before.sinks@.contains_key(sink.netid) ==> after.sinks@ == before.sinks@.insert(
            sink.netid,
            sink,
        ) && (r matches Some(told) && names(told@, |k: NETID| before.peers@.contains_key(k))),
        after.peers@ == before.peers@,
        same_setup(after, before),
        same_report(after.status, before.status),
{
    lemma_same_report(after.status, before.status);
    if let Some(told) = r {
        lemma_lists_names(told@, before.peers@.dom(), |k: NETID| before.peers@.contains_key(k));
    }
}

/// Whether `after` writes to whom `before` does, but for `netid`, and `told` are those that are to
/// be told, if it did write to `netid`: the peers that are not in `closed`.
pub open spec fn sink_gone<S, R>(
    before: PeerRelay<S, R>,
    netid: NETID,
    closed: Seq<NETID>,
    after: PeerRelay<S, R>,
    told: Option<Vec<NETID>>,
) -> bool {
    &&& after.sinks@ == before.sinks@.remove(netid)
    &&& told is Some <==> before.sinks@.contains_key(netid)
    &&& told matches Some(ids) ==> names(
        ids@,
        |k: NETID| after.peers@.contains_key(k) && !closed.contains(k),
    )
}

proof fn lemma_sink_gone<S, R>(
    before: PeerRelay<S, R>,
    netid: NETID,
    closed: Seq<NETID>,
    after: PeerRelay<S, R>,
    told: Option<Vec<NETID>>,
)
    requires
        PeerRelay::sink_removed(before, netid, closed, after, told),
    ensures
        sink_gone(before, netid, closed, after, told),
{
    if let Some(ids) = told {
        lemma_lists_names(
            ids@,
            crate::utils::ids::ids_without(after.peers@, closed),
            |k: NETID| after.peers@.contains_key(k) && !closed.contains(k),
        );
    }
}

/// A sink that a relay gives up is written to no more, and every peer that is not closed is told of
/// it.
pub proof fn removed_sink_is_written_to_no_more<S, R>(
    before: PeerRelay<S, R>,
    netid: NETID,
    closed: Vec<NETID>,
    after: PeerRelay<S, R>,
    told: Option<Vec<NETID>>,
)
    requires
        exists|relay: &mut PeerRelay<S, R>| #[trigger]
            call_ensures(PeerRelay::<S, R>::handle_remove_sink, (relay, netid, &closed), told)
                && *relay == before && *final(relay) == after,
    ensures
        sink_gone(before, netid, closed@, after, told),
        after.peers@ == before.peers@,
        same_setup(after, before),
        same_report(after.status, before.status),
{
    lemma_same_report(after.status, before.status);
    lemma_sink_gone(before, netid, closed@, after, told);
}

/// A report counts who is there, holds the pings of who is there and no others, and says of the
/// room what its owner said last.
pub proof fn reports_tell_who_is_there<S, R>(
    before: PeerRelay<S, R>,
    after: PeerRelay<S, R>,
    report: PeerRelayStatus,
)
    requires
        exists|relay: &mut PeerRelay<S, R>| #[trigger]
            call_ensures(PeerRelay::<S, R>::update_status, (relay,), report) && *relay == before
                && *final(relay) == after,
    ensures
        report.peers == before.peers@.len(),
        report.sinks == before.sinks@.len(),
        forall|k: NETID| #[trigger]
            report.pings@.contains_key(k) <==> before.status.pings@.contains_key(k)
                && before.peers@.contains_key(k),
        forall|k: NETID| #[trigger]
            report.pings@.contains_key(k) ==> report.pings@[k] == before.status.pings@[k],
        report.info is Some <==> before.status.info is Some,
        report.info matches Some(info) ==> same_description(info, before.status.info->0),
        same_report(report, after.status),
        after.peers@ == before.peers@,
        after.sinks@ == before.sinks@,
        same_setup(after, before),
{
    lemma_same_report(report, after.status);
    assert(report@.peers == report.peers as nat && report@.sinks == report.sinks as nat);
    assert(report@.pings == report.pings@);
    assert(before.status@.pings == before.status.pings@);
    assert(report@.info == before.status@.info);
    if let Some(info) = report.info {
        assert(report@.info == Some(info@));
        assert(before.status@.info == Some(before.status.info->0@));
        assert(info@.game_type == before.status.info->0@.game_type);
    }
}

/// A peer that is asked who is there hears of every sink.
pub proof fn list_names_every_sink<S, R>(relay: PeerRelay<S, R>, m: NetRelayMessage)
    requires
        call_ensures(PeerRelay::<S, R>::list_peers, (&relay,), m),
    ensures
        m matches NetRelayMessage::RelayListPeers(ids) && names(
            ids@,
            |k: NETID| relay.sinks@.contains_key(k),
        ),
{
    if let NetRelayMessage::RelayListPeers(ids) = m {
        lemma_lists_names(ids@, relay.sinks@.dom(), |k: NETID| relay.sinks@.contains_key(k));
    }
}

/// Whether a message to the relay led to nothing.
pub open spec fn leads_to_nothing<S, R>(
    before: PeerRelay<S, R>,
    after: PeerRelay<S, R>,
    out: RelayOutcome<S, R>,
) -> bool {
    &&& after.peers@ == before.peers@
    &&& after.sinks@ == before.sinks@
    &&& same_report(after.status, before.status)
    &&& no_outcome(out)
}

/// Whether nothing is left to do.
pub open spec fn no_outcome<S, R>(out: RelayOutcome<S, R>) -> bool {
    out.close is None && out.to_room is None && out.removed is None
}

/// What the messages of a peer to the relay are for: to close its connection, to leave the room, to
/// describe it, to answer a ping, and to have another peer closed.
pub open spec fn does_what_was_said<S, R>(
    before: PeerRelay<S, R>,
    source: NETID,
    msg: NetRelayMessage,
    closed: Seq<NETID>,
    after: PeerRelay<S, R>,
    out: RelayOutcome<S, R>,
) -> bool {
    &&& same_setup(after, before)
    &&& match msg {
        NetRelayMessage::Close(_) => {
            &&& sink_gone(before, source, closed.push(source), after, out.removed)
            &&& after.peers@ == before.peers@
            &&& same_report(after.status, before.status)
            &&& out.to_room is None
            &&& out.close == if before.peers@.contains_key(source) {
                Some((source, 972534431u32))
            } else {
                None
            }
        },
        NetRelayMessage::PeerLeaveRoom => {
            &&& sink_gone(before, source, closed, after, out.removed)
            &&& after.peers@ == before.peers@.remove(source)
            &&& same_report(after.status, before.status)
            &&& out.close is None
            &&& out.to_room is Some <==> before.peers@.contains_key(source)
            &&& before.peers@.contains_key(source) ==> {
                let left = before.peers@[source];
                &&& out.to_room matches Some(PeerRelayMessage::ReturnConnection(conn, netid))
                &&& netid == source
                &&& conn.sink.netid == 0
                &&& conn.sink.info == left.sink.info
                &&& conn.sink.queue == left.sink.queue
                &&& conn.stream == left.stream
            }
        },
        NetRelayMessage::PeerSetupRoom { info, .. } => {
            &&& no_outcome(out)
            &&& after.peers@ == before.peers@
            &&& after.sinks@ == before.sinks@
            &&& !may_change(before.ownership, source) ==> same_report(after.status, before.status)
            &&& may_change(before.ownership, source) ==> {
                &&& after.status.info matches Some(told)
                &&& same_description(told, info)
                &&& told.room_id == info.room_id
                &&& told.ping == info.ping
                &&& after.status.peers == before.status.peers
                &&& after.status.sinks == before.status.sinks
                &&& after.status.pings@ == before.status.pings@
            }
        },
        NetRelayMessage::PeerPingResponse(took) => {
            &&& no_outcome(out)
            &&& after.sinks@ == before.sinks@
            &&& !before.peers@.contains_key(source) ==> leads_to_nothing(before, after, out)
            &&& before.peers@.contains_key(source) ==> {
                let was = before.peers@[source];
                let kept = after.peers@[source];
                &&& after.status.pings@ == before.status.pings@.insert(
                    source,
                    ((took.nanos / 1_000_000) % 0x1_0000_0000) as u32,
                )
                &&& after.status.peers == before.status.peers
                &&& after.status.sinks == before.status.sinks
                &&& after.peers@.dom() == before.peers@.dom()
                &&& forall|k: NETID| #[trigger]
                    before.peers@.contains_key(k) && k != source ==> after.peers@[k]
                        == before.peers@[k]
                &&& kept.sink == was.sink
                &&& kept.stream.stream == was.stream.stream
                &&& kept.stream.timeout == was.stream.timeout
                &&& stood_at(kept.stream.last_contact)
            }
        },
        NetRelayMessage::PeerClosePeer(netid) => {
            &&& after.peers@ == before.peers@
            &&& after.sinks@ == before.sinks@
            &&& same_report(after.status, before.status)
            &&& out.to_room is None
            &&& out.removed is None
            &&& out.close == if may_change(before.ownership, source) && before.peers@.contains_key(
                netid,
            ) {
                Some((netid, 978367384u32))
            } else {
                None
            }
        },
        _ => leads_to_nothing(before, after, out),
    }
}

#[verifier::rlimit(40)]
pub proof fn lemma_handled<S, R>(
    before: PeerRelay<S, R>,
    source: NETID,
    msg: NetRelayMessage,
    closed: Seq<NETID>,
    after: PeerRelay<S, R>,
    out: RelayOutcome<S, R>,
)
    requires
        PeerRelay::handled(before, source, msg@, closed, after, out),
    ensures
        does_what_was_said(before, source, msg, closed, after, out),
{
    if after.status@ == before.status@ {
        lemma_same_report(after.status, before.status);
    }
    match msg {
        NetRelayMessage::Close(_) => {
            lemma_sink_gone(before, source, closed.push(source), after, out.removed);
        },
        NetRelayMessage::PeerLeaveRoom => {
            lemma_sink_gone(before, source, closed, after, out.removed);
        },
        NetRelayMessage::PeerSetupRoom { info, .. } => {
            if may_change(before.ownership, source) {
                assert(after.status@.info == Some(info@));
                let told = after.status.info->0;
                assert(told@ == info@);
                assert(told@.game_type == info@.game_type);
                assert(after.status@.peers == before.status@.peers);
                assert(after.status@.sinks == before.status@.sinks);
                assert(after.status@.pings == before.status@.pings);
            }
        },
        NetRelayMessage::PeerPingResponse(took) => {
            assert(took@ == took.nanos as nat);
            if before.peers@.contains_key(source) {
                assert(after.status@.peers == before.status@.peers);
                assert(after.status@.sinks == before.status@.sinks);
                assert(after.status@.pings == after.status.pings@);
                assert forall|k: NETID| #[trigger]
                    after.peers@.dom().contains(k) <==> before.peers@.dom().contains(k) by {
                    assert(after.peers@.remove(source).contains_key(k) <==> after.peers@.contains_key(
                        k,
                    ) && k != source);
                    assert(before.peers@.remove(source).contains_key(k)
                        <==> before.peers@.contains_key(k) && k != source);
                }
                assert(after.peers@.dom() =~= before.peers@.dom());
                assert forall|k: NETID| #[trigger] before.peers@.contains_key(k) && k
                    != source implies after.peers@[k] == before.peers@[k] by {
                    assert(after.peers@.remove(source)[k] == after.peers@[k]);
                    assert(before.peers@.remove(source)[k] == before.peers@[k]);
                }
            }
        },
        _ => {},
    }
}

/// What a peer says to the relay, the relay does, and no more.
pub proof fn peers_are_obeyed<S, R>(
    before: PeerRelay<S, R>,
    source: NETID,
    msg: NetRelayMessage,
    closed: Vec<NETID>,
    after: PeerRelay<S, R>,
    out: RelayOutcome<S, R>,
)
    requires
        exists|relay: &mut PeerRelay<S, R>| #[trigger]
            call_ensures(
                PeerRelay::<S, R>::handle_peer_message,
                (relay, source, msg, &closed),
                out,
            ) && *relay == before && *final(relay) == after,
    ensures
        does_what_was_said(before, source, msg, closed@, after, out),
{
    lemma_handled(before, source, msg, closed@, after, out);
}

/// Whether `after` and `out` are what a message of the room makes of a relay.
pub open spec fn does_what_the_room_said<S, R>(
    before: PeerRelay<S, R>,
    msg: PeerRelayMessage<S, R>,
    closed: Seq<NETID>,
    after: PeerRelay<S, R>,
    out: QueueOutcome<S, R>,
) -> bool {
    &&& after.config == before.config
    &&& after.close_mode == before.close_mode
    &&& same_report(after.status, before.status)
    &&& !(msg is SetOwnership) ==> after.ownership == before.ownership
    &&& match msg {
        PeerRelayMessage::StoreConnection(conn) => {
            &&& stored(before, conn, after)
            &&& after.sinks@ == before.sinks@
            &&& before.peers@.contains_key(conn.sink.netid) ==> out == QueueOutcome::Refuse(conn)
            &&& !before.peers@.contains_key(conn.sink.netid) ==> {
                &&& out matches QueueOutcome::Tell(to, NetRelayMessage::RelayListPeers(ids))
                &&& to == conn.sink.netid
                &&& names(ids@, |k: NETID| before.sinks@.contains_key(k))
            }
        },
        PeerRelayMessage::StoreSink(sink) => {
            &&& after.peers@ == before.peers@
            &&& before.sinks@.contains_key(sink.netid) ==> out is Nothing && after.sinks@
                == before.sinks@
            &&& !before.sinks@.contains_key(sink.netid) ==> {
                &&& after.sinks@ == before.sinks@.insert(sink.netid, sink)
                &&& out matches QueueOutcome::Announce(netid, told)
                &&& netid == sink.netid
                &&& names(told@, |k: NETID| before.peers@.contains_key(k))
            }
        },
        PeerRelayMessage::RemoveConnection(netid) => {
            &&& after.peers@ == before.peers@.remove(netid)
            &&& after.sinks@ == before.sinks@
            &&& before.peers@.contains_key(netid) ==> out == QueueOutcome::Drop(
                before.peers@[netid],
            )
            &&& !before.peers@.contains_key(netid) ==> out is Nothing
        },
        PeerRelayMessage::RemoveSink(netid) => {
            &&& after.peers@ == before.peers@
            &&& after.sinks@ == before.sinks@.remove(netid)
            &&& !before.sinks@.contains_key(netid) ==> out is Nothing
            &&& before.sinks@.contains_key(netid) ==> {
                &&& out matches QueueOutcome::Withdraw(gone, told)
                &&& gone == netid
                &&& names(
                    told@,
                    |k: NETID| before.peers@.contains_key(k) && !closed.contains(k),
                )
            }
        },
        PeerRelayMessage::SetOwnership(ownership) => {
            &&& after.ownership == ownership
            &&& after.peers@ == before.peers@
            &&& after.sinks@ == before.sinks@
            &&& out is Nothing
        },
        PeerRelayMessage::UpdateStatus(_) | PeerRelayMessage::ReturnConnection(_, _) => {
            &&& after.peers@ == before.peers@
            &&& after.sinks@ == before.sinks@
            &&& out is Unexpected
        },
    }
}

proof fn lemma_processed<S, R>(
    before: PeerRelay<S, R>,
    msg: PeerRelayMessage<S, R>,
    closed: Seq<NETID>,
    after: PeerRelay<S, R>,
    out: QueueOutcome<S, R>,
)
    requires
        PeerRelay::processed(before, msg, closed, after, out),
    ensures
        does_what_the_room_said(before, msg, closed, after, out),
{
    lemma_same_report(after.status, before.status);
    match msg {
        PeerRelayMessage::StoreConnection(conn) => {
            if !before.peers@.contains_key(conn.sink.netid) {
                lemma_stored(before, conn, after);
                if let QueueOutcome::Tell(_, NetRelayMessage::RelayListPeers(ids)) = out {
                    lemma_lists_names(
                        ids@,
                        before.sinks@.dom(),
                        |k: NETID| before.sinks@.contains_key(k),
                    );
                }
            }
        },
        PeerRelayMessage::StoreSink(sink) => {
            if let QueueOutcome::Announce(_, told) = out {
                if !before.sinks@.contains_key(sink.netid) {
                    lemma_lists_names(
                        told@,
                        before.peers@.dom(),
                        |k: NETID| before.peers@.contains_key(k),
                    );
                }
            }
        },
        PeerRelayMessage::RemoveSink(netid) => {
            if let QueueOutcome::Withdraw(_, told) = out {
                if before.sinks@.contains_key(netid) {
                    lemma_lists_names(
                        told@,
                        crate::utils::ids::ids_without(before.peers@, closed),
                        |k: NETID| before.peers@.contains_key(k) && !closed.contains(k),
                    );
                }
            }
        },
        _ => {},
    }
}

/// What the room says to a relay, the relay does, and no more: it takes and gives up connections,
/// sinks and owners.
pub proof fn the_room_is_obeyed<S, R>(
    before: PeerRelay<S, R>,
    msg: PeerRelayMessage<S, R>,
    closed: Vec<NETID>,
    after: PeerRelay<S, R>,
    out: QueueOutcome<S, R>,
)
    requires
        exists|relay: &mut PeerRelay<S, R>| #[trigger]
            call_ensures(PeerRelay::<S, R>::process_message, (relay, msg, &closed), out) && *relay
                == before && *final(relay) == after,
    ensures
        does_what_the_room_said(before, msg, closed@, after, out),
{
    lemma_processed(before, msg, closed@, after, out);
}

/// A look at the messages of the room leads to what the message says, or to nothing where there is
/// none; a relay whose room is gone closes, with everyone in it.
pub proof fn a_look_takes_the_next_message<S, R>(
    before: PeerRelay<S, R>,
    polled: RoomPolled<S, R>,
    closed: Vec<NETID>,
    after: PeerRelay<S, R>,
    step: QueueStep<S, R>,
)
    requires
        exists|relay: &mut PeerRelay<S, R>| #[trigger]
            call_ensures(PeerRelay::<S, R>::process_queue, (relay, polled, &closed), step) && *relay
                == before && *final(relay) == after,
    ensures
        polled is Empty ==> step is Stop && after == before,
        polled is Disconnected ==> (step matches QueueStep::Close(closing) && closing.peers@
            == before.peers@ && closing.code == 971382753) && after.peers@.dom().is_empty()
            && after.sinks@.dom().is_empty(),
        polled matches RoomPolled::Message(msg) ==> (step matches QueueStep::Did(out)
            && does_what_the_room_said(before, msg, closed@, after, out)),
{
    if let RoomPolled::Message(msg) = polled {
        if let QueueStep::Did(out) = step {
            lemma_processed(before, msg, closed@, after, out);
        }
    }
}

/// In a turn, a look is taken while one is left, and each leaves one fewer; none is left where
/// there was no message, or where the relay closes.
pub proof fn turns_count_down<S, R>(
    relay: PeerRelay<S, R>,
    turn: QueueTurn,
    before: QueueTurn,
    looked: QueueTurn,
    more: bool,
    step: QueueStep<S, R>,
    after: QueueTurn,
)
    requires
        call_ensures(PeerRelay::<S, R>::begin_turn, (&relay,), turn),
        exists|t: &mut QueueTurn| #[trigger]
            call_ensures(QueueTurn::look, (t,), more) && *t == before && *final(t) == looked,
        exists|t: &mut QueueTurn| #[trigger]
            call_ensures(QueueTurn::follow::<S, R>, (t, &step), ()) && *t == looked && *final(t)
                == after,
    ensures
        turn.left == relay.config.channel_msgs_per_update,
        more <==> before.left > 0,
        more ==> looked.left == before.left - 1,
        !more ==> looked.left == 0,
        step is Did ==> after.left == looked.left,
        !(step is Did) ==> after.left == 0,
{
}

/// Whether `step` is what becomes of a connection that brought `message`: who asks for the rooms is
/// answered, who asks for a room goes to it, whoever sent nonsense is closed with a code, and
/// whoever is late or says anything else is dropped.
pub open spec fn goes_where_it_asked<S, R>(
    conn: NetConnection<S, R>,
    message: Result<NetRelayMessage, NetRelayMessageError>,
    late: bool,
    step: PeerStep<S, R>,
) -> bool {
    match message {
        Err(_) => step == PeerStep::Close(conn, 1948466945),
        Ok(m) => if late {
            step == PeerStep::Drop(conn)
        } else if m is PeerListLobbies {
            step == PeerStep::Queue(SessionManagerMessage::ReplyConnection(conn, m))
        } else if m is PeerSetupRoom || m is PeerJoinRoom {
            step == PeerStep::Queue(SessionManagerMessage::TransferConnection(conn, m))
        } else {
            step == PeerStep::Drop(conn)
        },
    }
}

/// A connection goes where it asked to.
pub proof fn sessions_go_where_they_ask<S, R>(
    conn: NetConnection<S, R>,
    message: Result<NetRelayMessage, NetRelayMessageError>,
    late: bool,
    step: PeerStep<S, R>,
)
    requires
        call_ensures(
            crate::relay::session_manager::judge_message::<S, R>,
            (conn, message, late),
            step,
        ),
    ensures
        goes_where_it_asked(conn, message, late, step),
{
}

/// The same of what was read from a connection, by the clock: it is late where its last contact
/// lies more than the timeout back, in whole milliseconds. One that sent nothing yet goes back to
/// where it waits, and one at its end is dropped.
pub proof fn sessions_are_read<S, R>(
    timeout: u64,
    conn: NetConnection<S, R>,
    read: NetConnectionRead<NetConnectionMessage>,
    step: PeerStep<S, R>,
)
    requires
        call_ensures(
            crate::relay::session_manager::process_peer_connection::<S, R>,
            (timeout, conn, read),
            step,
        ),
    ensures
        read is Closed ==> step == PeerStep::Drop(conn),
        read is Empty ==> step == PeerStep::Queue(SessionManagerMessage::StoreConnection(conn)),
        read matches NetConnectionRead::Data(msg) ==> exists|
            message: Result<NetRelayMessage, NetRelayMessageError>,
            seen: Duration,
        |
            #![trigger call_ensures(NetRelayMessage::from_message, (msg,), message), measured(
                conn.stream.last_contact,
                seen,
            )]
            call_ensures(NetRelayMessage::from_message, (msg,), message) && measured(
                conn.stream.last_contact,
                seen,
            ) && goes_where_it_asked(conn, message, seen.nanos / 1_000_000 > timeout, step),
{
    if let NetConnectionRead::Data(msg) = read {
        let (now, seen, message) = choose|
            now: Option<Duration>,
            seen: Duration,
            message: Result<NetRelayMessage, NetRelayMessageError>,
        | #[trigger]
            crate::relay::session_manager::steps_with(
                conn,
                msg,
                now,
                seen,
                message,
                timeout,
                step,
            ) && call_ensures(NetRelayMessage::from_message, (msg,), message);
        assert(call_ensures(NetRelayMessage::from_message, (msg,), message));
        assert(measured(conn.stream.last_contact, seen));
        assert(seen@ / 1_000_000 == seen.nanos / 1_000_000);
        assert(goes_where_it_asked(conn, message, seen.nanos / 1_000_000 > timeout, step));
    }
}

/// A contact lies too far back where more whole milliseconds have passed than allowed.
pub proof fn contacts_age_in_milliseconds<S, R>(
    conn: NetConnection<S, R>,
    millis: u64,
    seen: Duration,
    late: bool,
    now: bool,
)
    requires
        call_ensures(crate::relay::netconnection::is_contact_more_than, (seen, millis), late),
        call_ensures(
            crate::relay::netconnection::is_last_contact_more_than::<S, R>,
            (&conn, millis),
            now,
        ),
    ensures
        late <==> seen.nanos / 1_000_000 > millis,
        exists|d: Duration| #[trigger]
            measured(conn.stream.last_contact, d) && (now <==> d.nanos / 1_000_000 > millis),
{
    assert(seen@ / 1_000_000 == seen.nanos / 1_000_000);
    let d = choose|d: Duration| #[trigger]
        measured(conn.stream.last_contact, d) && now == (d@ / 1_000_000 > millis);
    assert(measured(conn.stream.last_contact, d));
    assert(d@ / 1_000_000 == d.nanos / 1_000_000);
}

/// A connection that was answered waits again, and counts as heard of now; one that could not be
/// answered is dropped.
pub proof fn answered_sessions_wait_again<S, R>(
    conn: NetConnection<S, R>,
    answered: bool,
    step: PeerStep<S, R>,
)
    requires
        call_ensures(crate::relay::session_manager::after_reply::<S, R>, (conn, answered), step),
    ensures
        !answered ==> step == PeerStep::Drop(conn),
        answered ==> (step matches PeerStep::Queue(SessionManagerMessage::StoreConnection(c))
            && c.sink == conn.sink && c.stream.stream == conn.stream.stream && c.stream.timeout
            == conn.stream.timeout && stood_at(c.stream.last_contact)),
{
}

/// What the session manager does with what it is told: it keeps a connection, without a NETID,
/// behind those that it has; it has a room created or joined for who asks, and answers who asks for
/// the rooms. A queue that is gone stops it.
pub proof fn sessions_are_managed<S, R>(
    before: SessionManagerState<S, R>,
    polled: SessionPolled<S, R>,
    clock: Option<Duration>,
    after: SessionManagerState<S, R>,
    action: SessionAction<S, R>,
)
    requires
        exists|s: &mut SessionManagerState<S, R>| #[trigger]
            call_ensures(SessionManagerState::<S, R>::process_queue, (s, polled, clock), action)
                && *s == before && *final(s) == after,
    ensures
        after.poll_interval == before.poll_interval,
        after.peer_timeout == before.peer_timeout,
        after.running <==> before.running && !(polled is Disconnected),
        !(polled is Message) ==> action is Nothing && after.peers@ == before.peers@,
        polled matches SessionPolled::Message(msg) ==> {
            &&& !(msg is StoreConnection) ==> after.peers@ == before.peers@
            &&& msg matches SessionManagerMessage::StoreConnection(conn) ==> {
                &&& action is Nothing
                &&& after.peers@.len() == before.peers@.len() + 1
                &&& after.peers@.drop_last() == before.peers@
                &&& after.peers@.last().sink.netid == 0
                &&& after.peers@.last().sink.queue == conn.sink.queue
                &&& after.peers@.last().sink.info == conn.sink.info
                &&& after.peers@.last().stream == conn.stream
            }
            &&& msg matches SessionManagerMessage::Ping(stamp) ==> (action matches
                SessionAction::Pinged(d) && d.nanos == crate::relay::protocol::passed(
                clock,
                stamp.0,
                stamp.1,
            ))
            &&& msg matches SessionManagerMessage::ReplyConnection(conn, m) ==> action
                == SessionAction::Reply(conn, m)
            &&& msg matches SessionManagerMessage::TransferConnection(conn, m) ==> {
                &&& m matches NetRelayMessage::PeerSetupRoom { info, topology } ==> action
                    == SessionAction::CreateRoom { conn, info, topology }
                &&& m matches NetRelayMessage::PeerJoinRoom(join) ==> action
                    == SessionAction::JoinRoom { conn, join }
                &&& !(m is PeerSetupRoom) && !(m is PeerJoinRoom) ==> action == SessionAction::Close(
                    conn,
                    175738375,
                )
            }
        },
{
    if let SessionPolled::Message(SessionManagerMessage::StoreConnection(conn)) = polled {
        assert(after.peers@.drop_last() =~= before.peers@);
    }
    if let SessionPolled::Message(SessionManagerMessage::Ping(stamp)) = polled {
        if let SessionAction::Pinged(d) = action {
            assert(d@ == d.nanos as nat);
        }
    }
}

/// Every connection that waits is handed out to be read from, once.
pub proof fn waiting_sessions_are_handed_out<S, R>(
    before: SessionManagerState<S, R>,
    after: SessionManagerState<S, R>,
    r: Vec<NetConnection<S, R>>,
)
    requires
        exists|s: &mut SessionManagerState<S, R>| #[trigger]
            call_ensures(SessionManagerState::<S, R>::poll_peers, (s,), r) && *s == before && *final(s)
                == after,
    ensures
        r@ == before.peers@,
        after.peers@.len() == 0,
        after.running == before.running,
        after.poll_interval == before.poll_interval,
        after.peer_timeout == before.peer_timeout,
{
}

/// Without settings, the session manager looks every 10 milliseconds and waits 5 seconds for a
/// peer.
pub proof fn sessions_by_default<S, R>(s: SessionManagerState<S, R>)
    requires
        call_ensures(SessionManagerState::<S, R>::new, (None, None), s),
    ensures
        s.running,
        s.poll_interval == 10,
        s.peer_timeout == 5000,
        s.peers@.len() == 0,
{
}

/// The settings of a relay are those that were read, each where it is to be, in milliseconds where
/// it is a time; a ping is waited for a second longer than the interval, unless something else was
/// read. Both timers tick at the first chance.
pub proof fn relays_are_configured(
    room_id: u64,
    read: RelaySettings,
    c: PeerRelayConfig,
    update: u64,
    status: u64,
    ping: u64,
    wait: u64,
    channel: usize,
    poll: usize,
)
    requires
        call_ensures(PeerRelayConfig::new, (room_id, read), c),
        call_ensures(crate::utils::config::config_from_str, (read.update_interval, 10u64), update),
        call_ensures(crate::utils::config::config_from_str, (read.status_interval, 1000u64), status),
        call_ensures(crate::utils::config::config_from_str, (read.ping_interval, 3000u64), ping),
        ping + 1000 <= u64::MAX,
        call_ensures(
            crate::utils::config::config_from_str,
            (read.ping_wait_time, (ping + 1000) as u64),
            wait,
        ),
        call_ensures(
            crate::utils::config::config_size_from_str,
            (read.channel_msgs_per_update, 10usize),
            channel,
        ),
        call_ensures(
            crate::utils::config::config_size_from_str,
            (read.msgs_per_poll, 10usize),
            poll,
        ),
    ensures
        c.room_id == room_id,
        c.update_interval.nanos == update * 1_000_000,
        c.status_timer.duration.nanos == status * 1_000_000,
        c.ping_timer.duration.nanos == ping * 1_000_000,
        c.ping_wait_time.nanos == wait * 1_000_000,
        c.channel_msgs_per_update == channel,
        c.msgs_per_poll == poll,
        c.status_timer.last_tick.nanos - c.status_timer.lead.nanos
            == -c.status_timer.duration.nanos,
        c.ping_timer.last_tick.nanos - c.ping_timer.lead.nanos == -c.ping_timer.duration.nanos,
        stood_at(c.status_timer.started),
        stood_at(c.ping_timer.started),
{
    assert(c.update_interval@ == c.update_interval.nanos as nat);
    assert(c.ping_wait_time@ == c.ping_wait_time.nanos as nat);
}

/// Each kind of message has its number, and is known by it again. No other number is known.
pub proof fn kinds_have_their_numbers(
    kind: NetRelayMessageType,
    n: u32,
    again: Option<NetRelayMessageType>,
    any: u32,
    known: Option<NetRelayMessageType>,
    any_again: u32,
)
    requires
        call_ensures(NetRelayMessageType::code, (kind,), n),
        call_ensures(NetRelayMessageType::from_u32, (n,), again),
        call_ensures(NetRelayMessageType::from_u32, (any,), known),
        known is Some ==> call_ensures(NetRelayMessageType::code, (known->0,), any_again),
    ensures
        again == Some(kind),
        known is Some ==> any_again == any,
        known is Some <==> any <= 1 || 0x10000 <= any <= 0x10008 || 0x20000 <= any <= 0x20006,
        n == match kind {
            NetRelayMessageType::RELAY_MSG_UNKNOWN => 0u32,
            NetRelayMessageType::RELAY_MSG_CLOSE => 1u32,
            NetRelayMessageType::RELAY_MSG_PEER_START => 0x10000u32,
            NetRelayMessageType::RELAY_MSG_PEER_LIST_LOBBIES => 0x10001u32,
            NetRelayMessageType::RELAY_MSG_PEER_SETUP_ROOM => 0x10002u32,
            NetRelayMessageType::RELAY_MSG_PEER_JOIN_ROOM => 0x10003u32,
            NetRelayMessageType::RELAY_MSG_PEER_LEAVE_ROOM => 0x10004u32,
            NetRelayMessageType::RELAY_MSG_PEER_PING_RESPONSE => 0x10005u32,
            NetRelayMessageType::RELAY_MSG_PEER_CLOSE_PEER => 0x10006u32,
            NetRelayMessageType::RELAY_MSG_PEER_LIST_LOBBY_HOSTS => 0x10007u32,
            NetRelayMessageType::RELAY_MSG_PEER_BRIDGE_ROOM => 0x10008u32,
            NetRelayMessageType::RELAY_MSG_RELAY_START => 0x20000u32,
            NetRelayMessageType::RELAY_MSG_RELAY_LIST_LOBBIES => 0x20001u32,
            NetRelayMessageType::RELAY_MSG_RELAY_PING => 0x20002u32,
            NetRelayMessageType::RELAY_MSG_RELAY_LIST_PEERS => 0x20003u32,
            NetRelayMessageType::RELAY_MSG_RELAY_ADD_PEER => 0x20004u32,
            NetRelayMessageType::RELAY_MSG_RELAY_REMOVE_PEER => 0x20005u32,
            NetRelayMessageType::RELAY_MSG_RELAY_LIST_LOBBY_HOSTS => 0x20006u32,
        },
{
}

/// A list goes out as JSON where its format is any but the first.
pub proof fn lists_go_out_as_json(msg: NetRelayMessage, r: bool)
    requires
        call_ensures(NetRelayMessage::wants_json, (&msg,), r),
    ensures
        r <==> match msg {
            NetRelayMessage::RelayListLobbyHosts { format, .. } => format != 1,
            NetRelayMessage::RelayListLobbies { format, .. } => format != 1,
            _ => false,
        },
{
}

/// Who is closed behind a round is closed: those that were before, and those that the round
/// closes.
pub proof fn rounds_add_to_the_closed(round: Round, closed: Vec<NETID>, r: Vec<NETID>)
    requires
        call_ensures(Round::closed_with, (&round, &closed), r),
    ensures
        r@.len() == closed@.len() + round.closes@.len(),
        forall|i: int| 0 <= i < closed@.len() ==> #[trigger] r@[i] == closed@[i],
        forall|i: int|
            0 <= i < round.closes@.len() ==> (#[trigger] round.closes@[i]).0 == r@[closed@.len() + i],
{
}

/// Everyone is looked at: who is turned away is to be closed with the code that says why, and
/// everyone else is to be read from. How long ago each was heard of is measured.
pub proof fn everyone_is_examined<S, R>(
    relay: PeerRelay<S, R>,
    now: HashMap<NETID, Duration>,
    seen: HashMap<NETID, Duration>,
    r: (Vec<NETID>, HashMap<NETID, u32>),
    k: NETID,
)
    requires
        call_ensures(PeerRelay::<S, R>::contacts, (&relay,), now),
        seen@.dom() == relay.peers@.dom(),
        call_ensures(PeerRelay::<S, R>::examine, (&relay, &seen), r),
    ensures
        now@.contains_key(k) <==> relay.peers@.contains_key(k),
        now@.contains_key(k) ==> measured(relay.peers@[k].stream.last_contact, now@[k]),
        r.0@.no_duplicates(),
        r.0@.contains(k) <==> relay.peers@.contains_key(k) && turned_away(relay.peers@[k], seen@[k])
            is None,
        r.1@.contains_key(k) <==> relay.peers@.contains_key(k) && turned_away(
            relay.peers@[k],
            seen@[k],
        ) is Some,
        r.1@.contains_key(k) ==> Some(r.1@[k]) == turned_away(relay.peers@[k], seen@[k]),
{
    assert(r.0@.contains(k) <==> r.0@.to_set().contains(k));
    assert(now@.dom().contains(k) <==> relay.peers@.dom().contains(k));
}

/// The connections that are closed are given up, and the sinks. The others stay, and nothing else
/// changes. Everyone who is still there is told of the sinks that were there and are gone.
pub proof fn closed_are_pruned<S, R>(
    before: PeerRelay<S, R>,
    closed: Vec<NETID>,
    pruned: PeerRelay<S, R>,
    gone: Vec<NETID>,
    after: PeerRelay<S, R>,
    r: (Vec<NETID>, Vec<NETID>),
    k: NETID,
)
    requires
        exists|p: &mut PeerRelay<S, R>| #[trigger]
            call_ensures(PeerRelay::<S, R>::prune_connections, (p, &closed), ()) && *p == before
                && *final(p) == pruned,
        exists|p: &mut PeerRelay<S, R>| #[trigger]
            call_ensures(PeerRelay::<S, R>::prune_sinks, (p, &gone, &closed), r) && *p == pruned
                && *final(p) == after,
    ensures
        after.peers@.contains_key(k) <==> before.peers@.contains_key(k) && !closed@.contains(k),
        after.peers@.contains_key(k) ==> after.peers@[k] == before.peers@[k],
        after.sinks@.contains_key(k) <==> before.sinks@.contains_key(k) && !gone@.contains(k),
        after.sinks@.contains_key(k) ==> after.sinks@[k] == before.sinks@[k],
        r.0@.no_duplicates(),
        r.0@.contains(k) <==> before.sinks@.contains_key(k) && gone@.contains(k),
        r.1@.no_duplicates(),
        r.1@.contains(k) <==> after.peers@.contains_key(k),
        after.config == before.config,
        after.close_mode == before.close_mode,
        after.ownership == before.ownership,
{
    assert(closed@.contains(k) <==> closed@.to_set().contains(k));
    assert(gone@.contains(k) <==> gone@.to_set().contains(k));
    assert(r.0@.contains(k) <==> r.0@.to_set().contains(k));
    assert(r.1@.contains(k) <==> r.1@.to_set().contains(k));
    let left = before.peers@.remove_keys(closed@.to_set());
    assert(left.contains_key(k) <==> before.peers@.contains_key(k) && !closed@.to_set().contains(k));
    let sinks = before.sinks@.remove_keys(gone@.to_set());
    assert(sinks.contains_key(k) <==> before.sinks@.contains_key(k) && !gone@.to_set().contains(k));
}

/// A relay is called by what it is in the log, numbers in digits.
pub proof fn relays_are_called_by_what_they_are<S, R>(
    relay: PeerRelay<S, R>,
    room: Seq<char>,
    peers: Seq<char>,
    sinks: Seq<char>,
    owner: Seq<char>,
    owner_text: String,
    mode_text: String,
    text: String,
)
    requires
        in_digits(relay.config.room_id as int, room),
        in_digits(relay.peers@.len() as int, peers),
        in_digits(relay.sinks@.len() as int, sinks),
        relay.ownership matches PeerRelayOwnership::Peer(netid) ==> in_digits(netid as int, owner),
        call_ensures(PeerRelayOwnership::to_text, (&relay.ownership,), owner_text),
        call_ensures(PeerRelayCloseMode::to_text, (&relay.close_mode,), mode_text),
        call_ensures(PeerRelay::<S, R>::to_text, (&relay,), text),
    ensures
        relay.ownership is Nobody ==> owner_text@ == "None"@,
        relay.ownership is Peer ==> owner_text@ == "Peer("@ + owner + ")"@,
        relay.ownership is All ==> owner_text@ == "All"@,
        relay.close_mode is NoPeers ==> mode_text@ == "NoPeers"@,
        relay.close_mode is NoSinks ==> mode_text@ == "NoSinks"@,
        text@ == "PeerRelay { Room: "@ + room + ", Peers/Sinks: "@ + peers + "/"@ + sinks
            + ", Ownership: "@ + owner_text@ + ", Close: "@ + mode_text@ + " }"@,
{
    lemma_in_digits(relay.config.room_id as int, room);
    lemma_in_digits(relay.peers@.len() as int, peers);
    lemma_in_digits(relay.sinks@.len() as int, sinks);
    if let PeerRelayOwnership::Peer(netid) = relay.ownership {
        lemma_in_digits(netid as int, owner);
    }
}

/// What is wrong with a message is said by its name, with the number that is wrong.
pub proof fn message_errors_say_what_is_wrong(
    e: NetRelayMessageError,
    name: Seq<char>,
    n: int,
    digits: Seq<char>,
    s: String,
)
    requires
        call_ensures(NetRelayMessageError::to_text, (&e,), s),
        (name, n) == match e {
            NetRelayMessageError::WrongSourceNETID(n) => ("WrongSourceNETID"@, n as int),
            NetRelayMessageError::WrongDestinationNETID(n) => ("WrongDestinationNETID"@, n as int),
            NetRelayMessageError::WrongProtocol(n) => ("WrongProtocol"@, n as int),
            NetRelayMessageError::UnsupportedFlag(n) => ("UnsupportedFlag"@, n as int),
            NetRelayMessageError::UnknownType(n) => ("UnknownType"@, n as int),
            NetRelayMessageError::MissingData => ("MissingData"@, 0int),
            NetRelayMessageError::TooManyElements(n) => ("TooManyElements"@, n as int),
            NetRelayMessageError::TooLongString(n) => ("TooLongString"@, n as int),
            NetRelayMessageError::NotUTF8String(n) => ("NotUTF8String"@, n as int),
        },
        in_digits(n, digits),
    ensures
        e is MissingData ==> s@ == name,
        !(e is MissingData) ==> s@ == name + "("@ + digits + ")"@,
{
    lemma_in_digits(n, digits);
}

} // verus!
