//! What the lobby knows of a room.

use crate::text::{decimal, push_decimal, push_truth, truth};
use vstd::prelude::*;

verus! {

pub type RoomID = u64;

/// The pairs of texts in `entries`.
pub open spec fn pairs(entries: Seq<(String, String)>) -> Seq<(Seq<char>, Seq<char>)> {
    entries.map_values(|e: (String, String)| (e.0@, e.1@))
}

/// The map that `pairs` is, read in order: a later pair replaces an earlier one of its key.
pub open spec fn map_of(pairs: Seq<(Seq<char>, Seq<char>)>) -> Map<Seq<char>, Seq<char>>
    decreases pairs.len(),
{
    if pairs.len() == 0 {
        Map::empty()
    } else {
        map_of(pairs.drop_last()).insert(pairs.last().0, pairs.last().1)
    }
}

/// Whether no key stands in two pairs.
pub open spec fn distinct_keys(pairs: Seq<(Seq<char>, Seq<char>)>) -> bool {
    forall|i: int, j: int| 0 <= i < j < pairs.len() ==> #[trigger] pairs[i].0 != #[trigger] pairs[j].0
}

proof fn lemma_map_of_contains(s: Seq<(Seq<char>, Seq<char>)>, k: Seq<char>)
    ensures
        map_of(s).dom().finite(),
        map_of(s).contains_key(k) <==> exists|i: int| 0 <= i < s.len() && #[trigger] s[i].0 == k,
        distinct_keys(s) ==> map_of(s).dom().len() == s.len(),
        distinct_keys(s) ==> forall|i: int|
            0 <= i < s.len() ==> map_of(s)[#[trigger] s[i].0] == s[i].1,
    decreases s.len(),
{
    if s.len() > 0 {
        let t = s.drop_last();
        lemma_map_of_contains(t, k);
        lemma_map_of_contains(t, s.last().0);
        if exists|i: int| 0 <= i < s.len() && #[trigger] s[i].0 == k {
            let i = choose|i: int| 0 <= i < s.len() && #[trigger] s[i].0 == k;
            if i < t.len() {
                assert(t[i].0 == k);
            }
        }
        if map_of(s).contains_key(k) {
            if k == s.last().0 {
                assert(s[s.len() - 1].0 == k);
            } else {
                let i = choose|i: int| 0 <= i < t.len() && #[trigger] t[i].0 == k;
                assert(s[i].0 == k);
            }
        }
        if distinct_keys(s) {
            assert forall|i: int, j: int| 0 <= i < j < t.len() implies #[trigger] t[i].0
                != #[trigger] t[j].0 by {
                assert(s[i].0 != s[j].0);
            }
            assert(!map_of(t).contains_key(s.last().0)) by {
                if map_of(t).contains_key(s.last().0) {
                    let i = choose|i: int| 0 <= i < t.len() && #[trigger] t[i].0 == s.last().0;
                    assert(s[i].0 == s[s.len() - 1].0);
                }
            }
            assert forall|i: int| 0 <= i < s.len() implies map_of(s)[#[trigger] s[i].0] == s[i].1 by {
                if i < t.len() {
                    assert(t[i].0 == s[i].0);
                    assert(s[i].0 != s[s.len() - 1].0);
                }
            }
        }
    } else {
        assert(map_of(s).dom() =~= Set::<Seq<char>>::empty());
    }
}

proof fn lemma_map_of_update(
    s: Seq<(Seq<char>, Seq<char>)>,
    i: int,
    v: Seq<char>,
)
    requires
        distinct_keys(s),
        0 <= i < s.len(),
    ensures
        map_of(s.update(i, (s[i].0, v))) == map_of(s).insert(s[i].0, v),
    decreases s.len(),
{
    let u = s.update(i, (s[i].0, v));
    if i == s.len() - 1 {
        assert(u.drop_last() =~= s.drop_last());
        assert(map_of(u) =~= map_of(s).insert(s[i].0, v));
    } else {
        let t = s.drop_last();
        assert forall|a: int, b: int| 0 <= a < b < t.len() implies #[trigger] t[a].0
            != #[trigger] t[b].0 by {
            assert(s[a].0 != s[b].0);
        }
        lemma_map_of_update(t, i, v);
        assert(u.drop_last() =~= t.update(i, (t[i].0, v)));
        assert(s[i].0 != s[s.len() - 1].0);
        assert(map_of(u) =~= map_of(s).insert(s[i].0, v));
    }
}

/// `listed` with the text of `key` set to `value`: where the key stands, or at the end.
pub open spec fn placed(
    listed: Seq<(Seq<char>, Seq<char>)>,
    key: Seq<char>,
    value: Seq<char>,
) -> Seq<(Seq<char>, Seq<char>)> {
    if exists|i: int| 0 <= i < listed.len() && #[trigger] listed[i].0 == key {
        listed.map_values(
            |p: (Seq<char>, Seq<char>)|
                if p.0 == key {
                    (key, value)
                } else {
                    p
                },
        )
    } else {
        listed.push((key, value))
    }
}

/// Game specific data of a room: texts by their keys, each key once, in the order in which the
/// keys came.
#[derive(Debug)]
pub struct ExtraData {
    entries: Vec<(String, String)>,
}

impl View for ExtraData {
    type V = Map<Seq<char>, Seq<char>>;

    open spec fn view(&self) -> Map<Seq<char>, Seq<char>> {
        map_of(self.listed())
    }
}

impl ExtraData {
    #[verifier::type_invariant]
    spec fn well_formed(self) -> bool {
        distinct_keys(pairs(self.entries@))
    }

    /// The pairs, in the order in which their keys came.
    pub closed spec fn listed(&self) -> Seq<(Seq<char>, Seq<char>)> {
        pairs(self.entries@)
    }

    pub fn new() -> (d: Self)
        ensures
            d@ == Map::<Seq<char>, Seq<char>>::empty(),
            d.listed() == Seq::<(Seq<char>, Seq<char>)>::empty(),
    {
        let d = ExtraData { entries: Vec::new() };
        assert(d.listed() =~= Seq::<(Seq<char>, Seq<char>)>::empty());
        d
    }

    /// How many keys there are.
    pub fn len(&self) -> (n: usize)
        ensures
            n == self@.dom().len(),
            n == self.listed().len(),
    {
        proof {
            use_type_invariant(self);
            lemma_map_of_contains(self.listed(), Seq::empty());
        }
        self.entries.len()
    }

    /// The pair at position `i`.
    pub fn entry(&self, i: usize) -> (e: (&String, &String))
        requires
            i < self.listed().len(),
        ensures
            e.0@ == self.listed()[i as int].0,
            e.1@ == self.listed()[i as int].1,
            self@.contains_key(e.0@),
            self@[e.0@] == e.1@,
    {
        proof {
            use_type_invariant(self);
            lemma_map_of_contains(self.listed(), self.listed()[i as int].0);
        }
        let e = &self.entries[i];
        (&e.0, &e.1)
    }

    /// Sets the text of `key` to `value`.
    pub fn insert(&mut self, key: String, value: String)
        ensures
            final(self)@ == old(self)@.insert(key@, value@),
            final(self).listed() == placed(old(self).listed(), key@, value@),
    {
        proof {
            use_type_invariant(&*self);
        }
        let mut entries: Vec<(String, String)> = Vec::new();
        std::mem::swap(&mut self.entries, &mut entries);
        let ghost before = pairs(entries@);
        let mut i: usize = 0;
        while i < entries.len()
            invariant
                i <= entries.len(),
                before == pairs(entries@),
                before == old(self).listed(),
                distinct_keys(before),
                map_of(before) == old(self)@,
                forall|j: int| 0 <= j < i ==> #[trigger] before[j].0 != key@,
            decreases entries.len() - i,
        {
            if entries[i].0 == key {
                let ghost k = key@;
                let ghost v = value@;
                let ghost old_entries = entries@;
                entries.set(i, (key, value));
                proof {
                    assert(before[i as int].0 == k);
                    assert(pairs(entries@) =~= before.update(i as int, (k, v)));
                    assert forall|j: int| 0 <= j < before.len() && j != i implies #[trigger] before[j].0
                        != k by {
                        assert(before[j].0 != before[i as int].0);
                    }
                    assert(pairs(entries@) =~= placed(before, k, v));
                    lemma_map_of_update(before, i as int, v);
                    assert forall|a: int, b: int|
                        0 <= a < b < pairs(entries@).len() implies #[trigger] pairs(entries@)[a].0
                        != #[trigger] pairs(entries@)[b].0 by {
                        assert(before[a].0 != before[b].0);
                    }
                }
                self.entries = entries;
                return ;
            }
            assert(before[i as int].0 == entries@[i as int].0@);
            i = i + 1;
        }
        let ghost k = key@;
        let ghost v = value@;
        entries.push((key, value));
        proof {
            assert(pairs(entries@) =~= before.push((k, v)));
            assert(pairs(entries@).drop_last() =~= before);
            assert forall|a: int, b: int|
                0 <= a < b < pairs(entries@).len() implies #[trigger] pairs(entries@)[a].0
                != #[trigger] pairs(entries@)[b].0 by {
                if b < before.len() {
                    assert(before[a].0 != before[b].0);
                } else {
                    assert(before[a].0 != k);
                }
            }
        }
        self.entries = entries;
    }
}

impl Clone for ExtraData {
    fn clone(&self) -> (d: Self)
        ensures
            d@ == self@,
            d.listed() == self.listed(),
    {
        let mut entries: Vec<(String, String)> = Vec::new();
        let mut i: usize = 0;
        while i < self.entries.len()
            invariant
                i <= self.entries.len(),
                entries.len() == i,
                forall|j: int|
                    0 <= j < i ==> #[trigger] entries@[j] == self.entries@[j],
            decreases self.entries.len() - i,
        {
            let e = &self.entries[i];
            entries.push((e.0.clone(), e.1.clone()));
            i = i + 1;
        }
        assert(entries@ =~= self.entries@);
        proof {
            use_type_invariant(self);
        }
        ExtraData { entries }
    }
}

/// Where a lobby can be reached.
#[derive(Debug)]
pub struct LobbyHost {
    pub host_tcp: String,
    pub host_ws: String,
}

/// Where a lobby can be reached, as texts.
pub struct Host {
    pub tcp: Seq<char>,
    pub ws: Seq<char>,
}

impl View for LobbyHost {
    type V = Host;

    open spec fn view(&self) -> Host {
        Host { tcp: self.host_tcp@, ws: self.host_ws@ }
    }
}

impl Clone for LobbyHost {
    fn clone(&self) -> (h: Self)
        ensures
            h@ == self@,
    {
        LobbyHost { host_tcp: self.host_tcp.clone(), host_ws: self.host_ws.clone() }
    }
}

/// A lobby and its rooms.
#[derive(Debug)]
pub struct LobbyWithRooms {
    pub host: LobbyHost,
    pub rooms: Vec<RoomInfo>,
}

/// What is wrong with the extra data of a room.
#[derive(Debug, PartialEq, Eq)]
pub enum ExtraDataError {
    TooMany,
    KeyTooLong(String, String),
    ValueTooLong(String, String),
}

impl ExtraDataError {
    /// What this error says.
    pub open spec fn says(&self) -> Seq<char> {
        match self {
            ExtraDataError::TooMany => "Too many extra_data"@,
            ExtraDataError::KeyTooLong(key, value) => "extra_data["@ + key@ + "] = "@ + value@
                + " key is too long"@,
            ExtraDataError::ValueTooLong(key, value) => "extra_data["@ + key@ + "] = "@ + value@
                + " value is too long"@,
        }
    }

    /// What this error says.
    pub fn message(&self) -> (s: String)
        ensures
            s@ == self.says(),
    {
        match self {
            ExtraDataError::TooMany => "Too many extra_data".to_owned(),
            ExtraDataError::KeyTooLong(key, value) => {
                let mut s = "extra_data[".to_owned();
                s.append(key.as_str());
                s.append("] = ");
                s.append(value.as_str());
                s.append(" key is too long");
                s
            },
            ExtraDataError::ValueTooLong(key, value) => {
                let mut s = "extra_data[".to_owned();
                s.append(key.as_str());
                s.append("] = ");
                s.append(value.as_str());
                s.append(" value is too long");
                s
            },
        }
    }
}

/// What is wrong with a pair of extra data: its key or, failing that, its value is too long.
pub enum PairFault {
    Key,
    Value,
}

/// What is wrong with the pair of `key` and `value`, if anything is. Lengths count bytes.
pub open spec fn pair_fault(key: Seq<char>, value: Seq<char>) -> Option<PairFault> {
    if vstd::utf8::encode_utf8(key).len() > 64 {
        Some(PairFault::Key)
    } else if vstd::utf8::encode_utf8(value).len() > 128 {
        Some(PairFault::Value)
    } else {
        None
    }
}

/// The position of the first pair of `listed` with a fault, or their number if there is none.
pub open spec fn first_fault(listed: Seq<(Seq<char>, Seq<char>)>) -> nat
    decreases listed.len(),
{
    if listed.len() == 0 || pair_fault(listed[0].0, listed[0].1) is Some {
        0
    } else {
        1 + first_fault(listed.drop_first())
    }
}

/// Whether `r` is what a check of the extra data `listed` reports.
pub open spec fn extra_data_checked(
    listed: Seq<(Seq<char>, Seq<char>)>,
    r: Result<(), ExtraDataError>,
) -> bool {
    let i = first_fault(listed) as int;
    if listed.len() > 64 {
        r == Err::<(), ExtraDataError>(ExtraDataError::TooMany)
    } else if i >= listed.len() {
        r is Ok
    } else {
        match pair_fault(listed[i].0, listed[i].1) {
            Some(PairFault::Key) => r matches Err(ExtraDataError::KeyTooLong(k, v)) && k@
                == listed[i].0 && v@ == listed[i].1,
            _ => r matches Err(ExtraDataError::ValueTooLong(k, v)) && k@ == listed[i].0 && v@
                == listed[i].1,
        }
    }
}

/// A room with extra data passes the check exactly where it has at most 64 pairs, no key of more
/// than 64 bytes and no value of more than 128.
pub proof fn extra_data_limits(
    listed: Seq<(Seq<char>, Seq<char>)>,
    r: Result<(), ExtraDataError>,
)
    requires
        extra_data_checked(listed, r),
    ensures
        r is Ok <==> listed.len() <= 64 && forall|i: int|
            0 <= i < listed.len() ==> vstd::utf8::encode_utf8(#[trigger] listed[i].0).len() <= 64
                && vstd::utf8::encode_utf8(listed[i].1).len() <= 128,
{
    lemma_first_fault(listed);
    if first_fault(listed) >= listed.len() {
        assert forall|i: int| 0 <= i < listed.len() implies vstd::utf8::encode_utf8(
            #[trigger] listed[i].0,
        ).len() <= 64 && vstd::utf8::encode_utf8(listed[i].1).len() <= 128 by {
            assert(pair_fault(listed[i].0, listed[i].1) is None);
        }
    } else {
        let i = first_fault(listed) as int;
        assert(pair_fault(listed[i].0, listed[i].1) is Some);
    }
}

pub proof fn lemma_first_fault(listed: Seq<(Seq<char>, Seq<char>)>)
    ensures
        first_fault(listed) <= listed.len(),
        forall|i: int|
            0 <= i < first_fault(listed) ==> pair_fault(#[trigger] listed[i].0, listed[i].1) is None,
        first_fault(listed) < listed.len() ==> pair_fault(
            listed[first_fault(listed) as int].0,
            listed[first_fault(listed) as int].1,
        ) is Some,
    decreases listed.len(),
{
    if listed.len() > 0 && pair_fault(listed[0].0, listed[0].1) is None {
        let rest = listed.drop_first();
        lemma_first_fault(rest);
        assert forall|i: int| 0 <= i < first_fault(listed) implies pair_fault(
            #[trigger] listed[i].0,
            listed[i].1,
        ) is None by {
            if i > 0 {
                assert(rest[i - 1].0 == listed[i].0);
            }
        }
    }
}

/// Checks the extra data of a room against its limits, and reports the first fault.
pub fn validator_room_extra_data(extra_datas: &ExtraData) -> (r: Result<(), ExtraDataError>)
    ensures
        extra_data_checked(extra_datas.listed(), r),
{
    let n: usize = extra_datas.len();
    let ghost listed = extra_datas.listed();
    if 64 < n {
        return Err(ExtraDataError::TooMany);
    }
    let mut i: usize = 0;
    assert(listed.skip(0) =~= listed);
    while i < n
        invariant
            i <= n,
            n == listed.len(),
            n <= 64,
            listed == extra_datas.listed(),
            first_fault(listed) == i + first_fault(listed.skip(i as int)),
        decreases n - i,
    {
        let (key, value): (&String, &String) = extra_datas.entry(i);
        proof {
            assert(listed.skip(i as int)[0] == listed[i as int]);
            assert(listed.skip(i as int).drop_first() =~= listed.skip(i + 1));
        }
        if 64 < key.as_str().as_bytes().len() {
            return Err(ExtraDataError::KeyTooLong(key.clone(), value.clone()));
        }
        if 128 < value.as_str().as_bytes().len() {
            return Err(ExtraDataError::ValueTooLong(key.clone(), value.clone()));
        }
        i = i + 1;
    }
    Ok(())
}

/// A room, as the lobby lists it.
#[derive(Debug)]
pub struct RoomInfo {
    /// Room ID
    pub room_id: RoomID,
    /// Game identifier for this room
    pub game_type: String,
    /// Game version required for this room
    pub game_version: String,
    /// Public name of room to display in list
    pub room_name: String,
    /// Is this room password protected?
    pub room_password: bool,
    /// Is this room closed?
    pub room_closed: bool,
    /// Is this room game started?
    pub game_started: bool,
    /// Current amount of players this room has
    pub players_count: u16,
    /// Max amount of players this room can hold
    pub players_max: u16,
    /// Ping in millis between game host and relay or highest among peers
    pub ping: u32,
    /// Game specific data for this room
    pub extra_data: ExtraData,
}

/// A room, as values.
#[verifier::ext_equal]
pub struct RoomDetails {
    pub room_id: RoomID,
    pub game_type: Seq<char>,
    pub game_version: Seq<char>,
    pub room_name: Seq<char>,
    pub room_password: bool,
    pub room_closed: bool,
    pub game_started: bool,
    pub players_count: u16,
    pub players_max: u16,
    pub ping: u32,
    pub extra_data: Map<Seq<char>, Seq<char>>,
}

impl View for RoomInfo {
    type V = RoomDetails;

    open spec fn view(&self) -> RoomDetails {
        RoomDetails {
            room_id: self.room_id,
            game_type: self.game_type@,
            game_version: self.game_version@,
            room_name: self.room_name@,
            room_password: self.room_password,
            room_closed: self.room_closed,
            game_started: self.game_started,
            players_count: self.players_count,
            players_max: self.players_max,
            ping: self.ping,
            extra_data: self.extra_data@,
        }
    }
}

/// The room `old` after its host has described it as `new`: the relay keeps its id and ping.
pub open spec fn redescribed(old: RoomDetails, new: RoomDetails) -> RoomDetails {
    RoomDetails { room_id: old.room_id, ping: old.ping, ..new }
}

impl RoomInfo {
    /// Takes over what the host says of the room. The id and the ping are the relay's.
    pub fn update(&mut self, info: RoomInfo)
        ensures
            final(self)@ == redescribed(old(self)@, info@),
            final(self).extra_data == info.extra_data,
    {
        self.game_type = info.game_type;
        self.game_version = info.game_version;
        self.room_name = info.room_name;
        self.room_password = info.room_password;
        self.room_closed = info.room_closed;
        self.game_started = info.game_started;
        self.players_count = info.players_count;
        self.players_max = info.players_max;
        self.extra_data = info.extra_data;
    }

    /// What this room is called in the log.
    pub open spec fn says(&self) -> Seq<char> {
        "RoomInfo { id: "@ + decimal(self.room_id as nat) + ", name: "@ + self.room_name@
            + ", players: "@ + decimal(self.players_count as nat) + "/"@ + decimal(
            self.players_max as nat,
        ) + ", PW: "@ + truth(self.room_password) + ", ping: "@ + decimal(self.ping as nat)
            + ", game: "@ + self.game_type@ + " "@ + self.game_version@ + " }"@
    }

    /// What this room is called in the log.
    pub fn to_text(&self) -> (s: String)
        ensures
            s@ == self.says(),
    {
        let mut s = "RoomInfo { id: ".to_owned();
        push_decimal(&mut s, self.room_id);
        s.append(", name: ");
        s.append(self.room_name.as_str());
        s.append(", players: ");
        push_decimal(&mut s, self.players_count as u64);
        s.append("/");
        push_decimal(&mut s, self.players_max as u64);
        s.append(", PW: ");
        push_truth(&mut s, self.room_password);
        s.append(", ping: ");
        push_decimal(&mut s, self.ping as u64);
        s.append(", game: ");
        s.append(self.game_type.as_str());
        s.append(" ");
        s.append(self.game_version.as_str());
        s.append(" }");
        s
    }
}

impl Clone for RoomInfo {
    fn clone(&self) -> (r: Self)
        ensures
            r@ == self@,
            r.extra_data.listed() == self.extra_data.listed(),
    {
        RoomInfo {
            room_id: self.room_id,
            game_type: self.game_type.clone(),
            game_version: self.game_version.clone(),
            room_name: self.room_name.clone(),
            room_password: self.room_password,
            room_closed: self.room_closed,
            game_started: self.game_started,
            players_count: self.players_count,
            players_max: self.players_max,
            ping: self.ping,
            extra_data: self.extra_data.clone(),
        }
    }
}

} // verus!
