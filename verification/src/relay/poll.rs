//! The rounds in which a relay polls its peers.

use crate::netconnection::netconnection::{
    Envelope, NetConnectionMessage, NetConnectionRead, NETID, NETID_ALL,
};
use crate::relay::messages::Said;
use crate::relay::peer_relay::{
    codes_of, messages_for, messages_of, passed_on_from_source, sort_read, PeerRelay, RelayOutcome,
    Verdict,
};
use crate::utils::ids::{ids_of, ids_without, lists};
use crate::utils::time::Duration;
use std::collections::HashMap;
use vstd::prelude::*;

verus! {

broadcast use vstd::std_specs::hash::group_hash_axioms;

/// One round: the peers of a relay are read from one by one, and what they sent is sorted.
pub struct Round {
    /// The peers that are still to be read from; the last one is next
    pub readable: Vec<NETID>,
    /// The peers that are to be closed, and the codes
    pub closes: Vec<(NETID, u32)>,
    /// The messages for the relay
    pub relay_msgs: Vec<NetConnectionMessage>,
    /// The messages for peers
    pub peers_msgs: Vec<NetConnectionMessage>,
}

/// The peers that stand in `closes`.
pub open spec fn closed_in(closes: Seq<(NETID, u32)>) -> Seq<NETID> {
    closes.map_values(|c: (NETID, u32)| c.0)
}

impl Round {
    /// Whether `after` is `before` once its next peer was read from with the result `read`.
    pub open spec fn taken(
        before: Self,
        read: NetConnectionRead<Vec<NetConnectionMessage>>,
        after: Self,
    ) -> bool {
        let netid = before.readable@.last();
        let msgs = messages_of(read);
        &&& before.readable@.len() > 0
        &&& after.readable@ == before.readable@.drop_last()
        &&& after.closes@ == before.closes@ + codes_of(netid, msgs).map_values(
            |code: u32| (netid, code),
        )
        &&& after.relay_msgs@ == before.relay_msgs@ + messages_for(netid, msgs, Verdict::Relay)
        &&& after.peers_msgs@ == before.peers_msgs@ + messages_for(netid, msgs, Verdict::Peers)
    }

    /// The peer that is to be read from next, if there is one.
    pub fn next_peer(&self) -> (r: Option<NETID>)
        ensures
            r == if self.readable@.len() > 0 {
                Some(self.readable@.last())
            } else {
                None
            },
    {
        if self.readable.len() > 0 {
            Some(self.readable[self.readable.len() - 1])
        } else {
            None
        }
    }

    /// Sorts what was read from the next peer.
    pub fn take(&mut self, read: NetConnectionRead<Vec<NetConnectionMessage>>)
        requires
            old(self).readable.len() > 0,
        ensures
            Self::taken(*old(self), read, *final(self)),
    {
        let netid: NETID = self.readable[self.readable.len() - 1];
        let codes = sort_read(netid, read, &mut self.relay_msgs, &mut self.peers_msgs);
        let ghost before = self.closes@;
        let ghost pairs = codes@.map_values(|code: u32| (netid, code));
        let ghost start = *self;
        let mut i: usize = 0;
        assert(self.closes@ =~= before + pairs.take(0));
        while i < codes.len()
            invariant
                i <= codes.len(),
                pairs == codes@.map_values(|code: u32| (netid, code)),
                self.closes@ == before + pairs.take(i as int),
                self.readable == start.readable,
                self.relay_msgs == start.relay_msgs,
                self.peers_msgs == start.peers_msgs,
            decreases codes.len() - i,
        {
            self.closes.push((netid, codes[i]));
            assert(self.closes@ =~= before + pairs.take(i + 1));
            i = i + 1;
        }
        assert(pairs.take(i as int) =~= pairs);
        let _ = self.readable.pop();
    }

    /// The peers of `closed`, and behind them those that this round closes.
    pub fn closed_with(&self, closed: &Vec<NETID>) -> (r: Vec<NETID>)
        ensures
            r@ == closed@ + closed_in(self.closes@),
    {
        let mut r = closed.clone();
        let ghost ids = closed_in(self.closes@);
        let mut i: usize = 0;
        assert(r@ =~= closed@ + ids.take(0));
        while i < self.closes.len()
            invariant
                i <= self.closes.len(),
                ids == closed_in(self.closes@),
                r@ == closed@ + ids.take(i as int),
            decreases self.closes.len() - i,
        {
            r.push(self.closes[i].0);
            assert(r@ =~= closed@ + ids.take(i + 1));
            i = i + 1;
        }
        assert(ids.take(i as int) =~= ids);
        r
    }
}

impl<S, R> PeerRelay<S, R> {
    /// Whether `round` is a round of this relay before anything was read, where the peers were
    /// heard of `seen` ago: those that are refused are to be closed, and the others to be read
    /// from.
    pub open spec fn opened(&self, seen: Map<NETID, Duration>, round: Round) -> bool {
        &&& lists(round.readable@, self.readable(seen))
        &&& lists(closed_in(round.closes@), self.refused(seen).dom())
        &&& forall|i: int|
            0 <= i < round.closes@.len() ==> self.refused(seen)[(
            #[trigger] round.closes@[i]).0] == round.closes@[i].1
        &&& round.relay_msgs@ == Seq::<NetConnectionMessage>::empty()
        &&& round.peers_msgs@ == Seq::<NetConnectionMessage>::empty()
    }

    /// A round of this relay, where the peers were heard of `seen` ago.
    pub fn open_round(&self, seen: &HashMap<NETID, Duration>) -> (round: Round)
        requires
            seen@.dom() == self.peers@.dom(),
        ensures
            self.opened(seen@, round),
    {
        let (readable, refused): (Vec<NETID>, HashMap<NETID, u32>) = self.examine(seen);
        let ids = ids_of(&refused);
        let mut closes: Vec<(NETID, u32)> = Vec::new();
        let mut i: usize = 0;
        while i < ids.len()
            invariant
                i <= ids.len(),
                lists(ids@, refused@.dom()),
                closes@.len() == i,
                forall|j: int|
                    0 <= j < i ==> (#[trigger] closes@[j]).0 == ids@[j] && closes@[j].1
                        == refused@[ids@[j]],
            decreases ids.len() - i,
        {
            let id = ids[i];
            assert(ids@.to_set().contains(id));
            if let Some(code) = refused.get(&id) {
                closes.push((id, *code));
            }
            i = i + 1;
        }
        assert(closed_in(closes@) =~= ids@);
        Round { readable, closes, relay_msgs: Vec::new(), peers_msgs: Vec::new() }
    }

    /// Prunes the connections in `closed` and begins a round with the others.
    pub fn begin_round(&mut self, closed: &Vec<NETID>) -> (round: Round)
        requires
            old(self).well_formed(),
        ensures
            final(self).well_formed(),
            final(self).set_up_as(old(self)),
            final(self).peers@ == old(self).peers@.remove_keys(closed@.to_set()),
            final(self).sinks@ == old(self).sinks@,
            final(self).status@ == old(self).status@,
            exists|seen: Map<NETID, Duration>| #[trigger]
                final(self).heard_of(seen) && final(self).opened(seen, round),
    {
        self.prune_connections(closed);
        let seen = self.contacts();
        self.open_round(&seen)
    }

    /// Whether `after` is `before` once everything of `round` was read: the sinks in `closed` and
    /// those of the peers that the round closes are pruned. `gone` are those that were there, and
    /// `notify` the peers to be told of each: those that neither are in `closed_peers` nor closed
    /// by the round.
    pub open spec fn settled(
        before: Self,
        round: Round,
        closed: Seq<NETID>,
        closed_peers: Seq<NETID>,
        after: Self,
        gone: Seq<NETID>,
        notify: Seq<NETID>,
    ) -> bool {
        let pruned = (closed + closed_in(round.closes@)).to_set();
        &&& after.set_up_as(&before)
        &&& after.peers@ == before.peers@
        &&& after.sinks@ == before.sinks@.remove_keys(pruned)
        &&& after.status@ == before.status@
        &&& lists(gone, before.sinks@.dom().intersect(pruned))
        &&& lists(notify, ids_without(before.peers@, closed_peers + closed_in(round.closes@)))
    }

    /// Prunes the sinks in `closed` and those of the peers that `round` closes, and gives those
    /// that are gone and the peers that are to be told of each: those that neither are in
    /// `closed_peers` nor closed by the round.
    pub fn settle(&mut self, round: &Round, closed: &Vec<NETID>, closed_peers: &Vec<NETID>) -> (r: (
        Vec<NETID>,
        Vec<NETID>,
    ))
        requires
            old(self).well_formed(),
        ensures
            final(self).well_formed(),
            Self::settled(
                *old(self),
                *round,
                closed@,
                closed_peers@,
                *final(self),
                r.0@,
                r.1@,
            ),
    {
        let sinks = round.closed_with(closed);
        let peers = round.closed_with(closed_peers);
        self.prune_sinks(&sinks, &peers)
    }
}

/// No peer speaks for another: a message that is passed on was read in the round from the peer
/// that it names as its source.
pub proof fn passed_on_from_reader(
    rounds: Seq<Round>,
    reads: Seq<NetConnectionRead<Vec<NetConnectionMessage>>>,
    msg: NetConnectionMessage,
)
    requires
        rounds.len() == reads.len() + 1,
        rounds[0].relay_msgs@.len() == 0,
        rounds[0].peers_msgs@.len() == 0,
        forall|i: int|
            0 <= i < reads.len() ==> Round::taken(rounds[i], #[trigger] reads[i], rounds[i + 1]),
        rounds.last().relay_msgs@.contains(msg) || rounds.last().peers_msgs@.contains(msg),
    ensures
        exists|i: int|
            0 <= i < reads.len() && rounds[i].readable@.last() == msg@.source && messages_of(
                #[trigger] reads[i],
            ).contains(msg),
    decreases reads.len(),
{
    if reads.len() > 0 {
        let n = reads.len() - 1;
        let fewer = reads.drop_last();
        let earlier = rounds.drop_last();
        assert(Round::taken(rounds[n], reads[n], rounds[n + 1]));
        assert forall|i: int| 0 <= i < fewer.len() implies Round::taken(
            earlier[i],
            #[trigger] fewer[i],
            earlier[i + 1],
        ) by {
            assert(fewer[i] == reads[i]);
        }
        if earlier.last().relay_msgs@.contains(msg) || earlier.last().peers_msgs@.contains(msg) {
            passed_on_from_reader(earlier, fewer, msg);
            let i = choose|i: int|
                0 <= i < fewer.len() && earlier[i].readable@.last() == msg@.source && messages_of(
                    #[trigger] fewer[i],
                ).contains(msg);
            assert(fewer[i] == reads[i]);
        } else {
            lemma_new_messages(rounds[n], reads[n], rounds[n + 1], msg);
            assert(messages_of(reads[n]).contains(msg));
        }
    }
}

/// A message that a reading added was read from the peer that it names as its source.
proof fn lemma_new_messages(
    before: Round,
    read: NetConnectionRead<Vec<NetConnectionMessage>>,
    after: Round,
    msg: NetConnectionMessage,
)
    requires
        Round::taken(before, read, after),
        after.relay_msgs@.contains(msg) || after.peers_msgs@.contains(msg),
        !before.relay_msgs@.contains(msg),
        !before.peers_msgs@.contains(msg),
    ensures
        before.readable@.last() == msg@.source,
        messages_of(read).contains(msg),
{
    let netid = before.readable@.last();
    let msgs = messages_of(read);
    let (v, all, old_len) = if after.relay_msgs@.contains(msg) {
        (Verdict::Relay, after.relay_msgs@, before.relay_msgs@.len())
    } else {
        (Verdict::Peers, after.peers_msgs@, before.peers_msgs@.len())
    };
    let j = choose|j: int| 0 <= j < all.len() && all[j] == msg;
    if j < old_len {
        if v == Verdict::Relay {
            assert(before.relay_msgs@[j] == msg);
        } else {
            assert(before.peers_msgs@[j] == msg);
        }
    }
    passed_on_from_source(netid, msgs, v, j - old_len);
    lemma_messages_from(netid, msgs, v, j - old_len);
}

proof fn lemma_messages_from(netid: NETID, msgs: Seq<NetConnectionMessage>, v: Verdict, i: int)
    requires
        0 <= i < messages_for(netid, msgs, v).len(),
    ensures
        msgs.contains(messages_for(netid, msgs, v)[i]),
    decreases msgs.len(),
{
    if msgs.len() > 0 {
        let before = messages_for(netid, msgs.drop_last(), v);
        if i < before.len() {
            lemma_messages_from(netid, msgs.drop_last(), v, i);
            let j = choose|j: int|
                0 <= j < msgs.drop_last().len() && msgs.drop_last()[j] == before[i];
            assert(msgs[j] == before[i]);
        } else {
            assert(msgs[msgs.len() - 1] == messages_for(netid, msgs, v)[i]);
        }
    }
}

/// In the course of a round, no peer is read from that was not to be read from at its beginning,
/// and none is kept that was to be closed.
proof fn lemma_round(
    rounds: Seq<Round>,
    reads: Seq<NetConnectionRead<Vec<NetConnectionMessage>>>,
    k: NETID,
    n: int,
)
    requires
        rounds.len() == reads.len() + 1,
        forall|i: int|
            0 <= i < reads.len() ==> Round::taken(rounds[i], #[trigger] reads[i], rounds[i + 1]),
        !rounds[0].readable@.contains(k),
        closed_in(rounds[0].closes@).contains(k),
        0 <= n < rounds.len(),
    ensures
        !rounds[n].readable@.contains(k),
        closed_in(rounds[n].closes@).contains(k),
    decreases n,
{
    if n > 0 {
        lemma_round(rounds, reads, k, n - 1);
        let before = rounds[n - 1];
        let after = rounds[n];
        assert(Round::taken(before, reads[n - 1], rounds[n - 1 + 1]));
        if after.readable@.contains(k) {
            let j = choose|j: int| 0 <= j < after.readable@.len() && after.readable@[j] == k;
            assert(before.readable@[j] == k);
        }
        let ids = closed_in(before.closes@);
        let j = choose|j: int| 0 <= j < ids.len() && ids[j] == k;
        assert(closed_in(after.closes@)[j] == k);
    }
}

/// A peer that is refused in a round, such as one that took too long to contact, is left alone in
/// that round: it is not read from, nothing is passed on for it, and nothing is written to it,
/// neither a message nor the news of a sink that is gone.
pub proof fn refused_peer_is_left_alone<S, R>(
    relay: PeerRelay<S, R>,
    seen: Map<NETID, Duration>,
    rounds: Seq<Round>,
    reads: Seq<NetConnectionRead<Vec<NetConnectionMessage>>>,
    closed: Seq<NETID>,
    closed_peers: Seq<NETID>,
    before: PeerRelay<S, R>,
    after: PeerRelay<S, R>,
    gone: Seq<NETID>,
    notify: Seq<NETID>,
    m: Envelope,
    written: Seq<(NETID, NetConnectionMessage)>,
    k: NETID,
)
    requires
        relay.refused(seen).contains_key(k),
        rounds.len() == reads.len() + 1,
        relay.opened(seen, rounds[0]),
        forall|i: int|
            0 <= i < reads.len() ==> Round::taken(rounds[i], #[trigger] reads[i], rounds[i + 1]),
        PeerRelay::settled(before, rounds.last(), closed, closed_peers, after, gone, notify),
        after.routed(m, closed, written),
    ensures
        forall|i: int| 0 <= i < reads.len() ==> (#[trigger] rounds[i]).readable@.last() != k,
        forall|msg: NetConnectionMessage| #[trigger]
            rounds.last().relay_msgs@.contains(msg) ==> msg@.source != k,
        forall|msg: NetConnectionMessage| #[trigger]
            rounds.last().peers_msgs@.contains(msg) ==> msg@.source != k,
        !after.sinks@.contains_key(k),
        !notify.contains(k),
        forall|i: int| 0 <= i < written.len() ==> (#[trigger] written[i]).0 != k,
{
    let first = rounds[0];
    assert(!first.readable@.contains(k)) by {
        if first.readable@.contains(k) {
            assert(first.readable@.to_set().contains(k));
        }
    }
    assert(closed_in(first.closes@).to_set().contains(k));
    assert forall|i: int| 0 <= i < reads.len() implies (#[trigger] rounds[i]).readable@.last()
        != k by {
        lemma_round(rounds, reads, k, i);
        assert(Round::taken(rounds[i], reads[i], rounds[i + 1]));
        let ids = rounds[i].readable@;
        assert(ids[ids.len() - 1] == ids.last());
    }
    assert forall|msg: NetConnectionMessage|
        rounds.last().relay_msgs@.contains(msg) || rounds.last().peers_msgs@.contains(
            msg,
        ) implies msg@.source != k by {
        passed_on_from_reader(rounds, reads, msg);
    }
    lemma_round(rounds, reads, k, rounds.len() - 1);
    let ids = closed_in(rounds.last().closes@);
    let j = choose|j: int| 0 <= j < ids.len() && ids[j] == k;
    assert((closed + ids)[closed.len() + j] == k);
    assert((closed + ids).to_set().contains(k));
    assert((closed_peers + ids)[closed_peers.len() + j] == k);
    assert((closed_peers + ids).to_set().contains(k));
    if notify.contains(k) {
        assert(notify.to_set().contains(k));
    }
    assert forall|i: int| 0 <= i < written.len() implies (#[trigger] written[i]).0 != k by {
        if m.destination == NETID_ALL {
            let to = written.map_values(|d: (NETID, NetConnectionMessage)| d.0);
            assert(to[i] == written[i].0);
            assert(to.to_set().contains(written[i].0));
        }
    }
}

/// What is left alone stays so while the messages to the relay are handled: none of them brings
/// back a sink, and a peer in `closed` is not told of one that is gone.
pub proof fn closed_peer_is_not_told<S, R>(
    before: PeerRelay<S, R>,
    source: NETID,
    said: Said,
    closed: Seq<NETID>,
    after: PeerRelay<S, R>,
    out: RelayOutcome<S, R>,
    k: NETID,
)
    requires
        PeerRelay::handled(before, source, said, closed, after, out),
        closed.contains(k),
        !before.sinks@.contains_key(k),
    ensures
        !after.sinks@.contains_key(k),
        out.removed matches Some(notify) ==> !notify@.contains(k),
{
    if let Some(notify) = out.removed {
        let j = choose|j: int| 0 <= j < closed.len() && closed[j] == k;
        assert(closed.push(source)[j] == k);
        if notify@.contains(k) {
            assert(notify@.to_set().contains(k));
            assert(closed.to_set().contains(k));
            assert(closed.push(source).to_set().contains(k));
        }
    }
}

} // verus!
