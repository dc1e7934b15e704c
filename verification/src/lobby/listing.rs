//! Lobbies and rooms as values to be written.

use crate::lobby::room_info::{LobbyHost, LobbyWithRooms, RoomInfo};
use crate::xprm::ser::{
    entries_writable, items_writable, key_char, key_writable, writable,
};
use crate::xprm::value::{entry_trees, field_trees, trees, Tree, Value};
use vstd::prelude::*;

verus! {

/// A field of a struct, as a tree.
pub open spec fn field(name: Seq<char>, value: Tree) -> (Tree, Tree) {
    (Tree::Text(name), value)
}

/// Pairs of texts, as the entries of a tree.
pub open spec fn text_entries(listed: Seq<(Seq<char>, Seq<char>)>) -> Seq<(Tree, Tree)> {
    listed.map_values(|p: (Seq<char>, Seq<char>)| (Tree::Text(p.0), Tree::Text(p.1)))
}

/// A room, as a tree: its fields by their names.
pub open spec fn room_tree(room: RoomInfo) -> Tree {
    Tree::Table(
        seq![
            field("room_id"@, Tree::Int(room.room_id as int)),
            field("game_type"@, Tree::Text(room.game_type@)),
            field("game_version"@, Tree::Text(room.game_version@)),
            field("room_name"@, Tree::Text(room.room_name@)),
            field("room_password"@, Tree::Bool(room.room_password)),
            field("room_closed"@, Tree::Bool(room.room_closed)),
            field("game_started"@, Tree::Bool(room.game_started)),
            field("players_count"@, Tree::Int(room.players_count as int)),
            field("players_max"@, Tree::Int(room.players_max as int)),
            field("ping"@, Tree::Int(room.ping as int)),
            field("extra_data"@, Tree::Table(text_entries(room.extra_data.listed()))),
        ],
    )
}

/// Where a lobby can be reached, as a tree.
pub open spec fn host_tree(host: LobbyHost) -> Tree {
    Tree::Table(
        seq![
            field("host_tcp"@, Tree::Text(host.host_tcp@)),
            field("host_ws"@, Tree::Text(host.host_ws@)),
        ],
    )
}

/// A list, as a tree.
pub open spec fn list_tree(items: Seq<Tree>) -> Tree {
    Tree::List(Some(items.len()), items)
}

/// Rooms, as a tree.
pub open spec fn rooms_tree(rooms: Seq<RoomInfo>) -> Tree {
    list_tree(rooms.map_values(|room: RoomInfo| room_tree(room)))
}

/// A lobby and its rooms, as a tree.
pub open spec fn lobby_tree(lobby: LobbyWithRooms) -> Tree {
    Tree::Table(
        seq![
            field("host"@, host_tree(lobby.host)),
            field("rooms"@, rooms_tree(lobby.rooms@)),
        ],
    )
}

/// Where lobbies can be reached, as a tree.
pub open spec fn hosts_tree(hosts: Seq<LobbyHost>) -> Tree {
    list_tree(hosts.map_values(|host: LobbyHost| host_tree(host)))
}

/// Lobbies and their rooms, as a tree.
pub open spec fn lobbies_tree(lobbies: Seq<LobbyWithRooms>) -> Tree {
    list_tree(lobbies.map_values(|lobby: LobbyWithRooms| lobby_tree(lobby)))
}

pub proof fn lemma_trees(items: Seq<Value>, ts: Seq<Tree>)
    requires
        items.len() == ts.len(),
        forall|i: int| 0 <= i < items.len() ==> (#[trigger] items[i]).tree() == ts[i],
    ensures
        trees(items) == ts,
    decreases items.len(),
{
    if items.len() > 0 {
        assert forall|i: int| 0 <= i < items.drop_first().len() implies (
        #[trigger] items.drop_first()[i]).tree() == ts.drop_first()[i] by {
            assert(items.drop_first()[i] == items[i + 1]);
        }
        lemma_trees(items.drop_first(), ts.drop_first());
        assert(trees(items) =~= ts);
    } else {
        assert(trees(items) =~= ts);
    }
}

proof fn lemma_entry_trees(items: Seq<(Value, Value)>, ts: Seq<(Tree, Tree)>)
    requires
        items.len() == ts.len(),
        forall|i: int|
            0 <= i < items.len() ==> (#[trigger] items[i]).0.tree() == ts[i].0 && items[i].1.tree()
                == ts[i].1,
    ensures
        entry_trees(items) == ts,
    decreases items.len(),
{
    if items.len() > 0 {
        assert forall|i: int| 0 <= i < items.drop_first().len() implies (
        #[trigger] items.drop_first()[i]).0.tree() == ts.drop_first()[i].0
            && items.drop_first()[i].1.tree() == ts.drop_first()[i].1 by {
            assert(items.drop_first()[i] == items[i + 1]);
        }
        lemma_entry_trees(items.drop_first(), ts.drop_first());
        assert(entry_trees(items) =~= ts);
    } else {
        assert(entry_trees(items) =~= ts);
    }
}

proof fn lemma_field_trees(items: Seq<(String, Value)>, ts: Seq<(Tree, Tree)>)
    requires
        items.len() == ts.len(),
        forall|i: int|
            0 <= i < items.len() ==> Tree::Text((#[trigger] items[i]).0@) == ts[i].0
                && items[i].1.tree() == ts[i].1,
    ensures
        field_trees(items) == ts,
    decreases items.len(),
{
    if items.len() > 0 {
        assert forall|i: int| 0 <= i < items.drop_first().len() implies Tree::Text(
            (#[trigger] items.drop_first()[i]).0@,
        ) == ts.drop_first()[i].0 && items.drop_first()[i].1.tree() == ts.drop_first()[i].1 by {
            assert(items.drop_first()[i] == items[i + 1]);
        }
        lemma_field_trees(items.drop_first(), ts.drop_first());
        assert(field_trees(items) =~= ts);
    } else {
        assert(field_trees(items) =~= ts);
    }
}

/// A text, as a value.
pub fn text_value(s: &str) -> (v: Value)
    ensures
        v.tree() == Tree::Text(s@),
{
    Value::Str(s.to_owned())
}

/// A list, as a value.
pub fn list_value(items: Vec<Value>) -> (v: Value)
    ensures
        v.tree() == list_tree(trees(items@)),
{
    proof {
        lemma_trees(items@, items@.map_values(|v: Value| v.tree()));
    }
    Value::List(Some(items.len()), items)
}

/// A room, as a value.
pub fn room_value(room: &RoomInfo) -> (v: Value)
    ensures
        v.tree() == room_tree(*room),
{
    let mut extra: Vec<(Value, Value)> = Vec::new();
    let ghost listed = room.extra_data.listed();
    let n: usize = room.extra_data.len();
    let mut i: usize = 0;
    while i < n
        invariant
            i <= n,
            n == listed.len(),
            listed == room.extra_data.listed(),
            extra.len() == i,
            forall|j: int|
                0 <= j < i ==> (#[trigger] extra@[j]).0.tree() == Tree::Text(listed[j].0)
                    && extra@[j].1.tree() == Tree::Text(listed[j].1),
        decreases n - i,
    {
        let (key, value): (&String, &String) = room.extra_data.entry(i);
        extra.push((text_value(key.as_str()), text_value(value.as_str())));
        i = i + 1;
    }
    proof {
        lemma_entry_trees(extra@, text_entries(listed));
    }
    let fields: Vec<(String, Value)> = vec![
        ("room_id".to_owned(), Value::Unsigned(room.room_id)),
        ("game_type".to_owned(), text_value(room.game_type.as_str())),
        ("game_version".to_owned(), text_value(room.game_version.as_str())),
        ("room_name".to_owned(), text_value(room.room_name.as_str())),
        ("room_password".to_owned(), Value::Bool(room.room_password)),
        ("room_closed".to_owned(), Value::Bool(room.room_closed)),
        ("game_started".to_owned(), Value::Bool(room.game_started)),
        ("players_count".to_owned(), Value::Unsigned(room.players_count as u64)),
        ("players_max".to_owned(), Value::Unsigned(room.players_max as u64)),
        ("ping".to_owned(), Value::Unsigned(room.ping as u64)),
        ("extra_data".to_owned(), Value::Table(extra)),
    ];
    proof {
        lemma_field_trees(fields@, room_tree(*room)->Table_0);
    }
    Value::Struct(fields)
}

/// Where a lobby can be reached, as a value.
pub fn host_value(host: &LobbyHost) -> (v: Value)
    ensures
        v.tree() == host_tree(*host),
{
    let fields: Vec<(String, Value)> = vec![
        ("host_tcp".to_owned(), text_value(host.host_tcp.as_str())),
        ("host_ws".to_owned(), text_value(host.host_ws.as_str())),
    ];
    proof {
        lemma_field_trees(fields@, host_tree(*host)->Table_0);
    }
    Value::Struct(fields)
}

/// A lobby and its rooms, as a value.
pub fn lobby_value(lobby: &LobbyWithRooms) -> (v: Value)
    ensures
        v.tree() == lobby_tree(*lobby),
{
    let mut rooms: Vec<Value> = Vec::new();
    let mut i: usize = 0;
    while i < lobby.rooms.len()
        invariant
            i <= lobby.rooms.len(),
            rooms.len() == i,
            forall|j: int| 0 <= j < i ==> (#[trigger] rooms@[j]).tree() == room_tree(lobby.rooms@[j]),
        decreases lobby.rooms.len() - i,
    {
        rooms.push(room_value(&lobby.rooms[i]));
        i = i + 1;
    }
    proof {
        lemma_trees(rooms@, lobby.rooms@.map_values(|room: RoomInfo| room_tree(room)));
    }
    let fields: Vec<(String, Value)> = vec![
        ("host".to_owned(), host_value(&lobby.host)),
        ("rooms".to_owned(), list_value(rooms)),
    ];
    proof {
        lemma_field_trees(fields@, lobby_tree(*lobby)->Table_0);
    }
    Value::Struct(fields)
}

/// Where lobbies can be reached, as a value.
pub fn hosts_value(hosts: &Vec<LobbyHost>) -> (v: Value)
    ensures
        v.tree() == hosts_tree(hosts@),
{
    let mut items: Vec<Value> = Vec::new();
    let mut i: usize = 0;
    while i < hosts.len()
        invariant
            i <= hosts.len(),
            items.len() == i,
            forall|j: int| 0 <= j < i ==> (#[trigger] items@[j]).tree() == host_tree(hosts@[j]),
        decreases hosts.len() - i,
    {
        items.push(host_value(&hosts[i]));
        i = i + 1;
    }
    proof {
        lemma_trees(items@, hosts@.map_values(|host: LobbyHost| host_tree(host)));
    }
    list_value(items)
}

/// Lobbies and their rooms, as a value.
pub fn lobbies_value(lobbies: &Vec<LobbyWithRooms>) -> (v: Value)
    ensures
        v.tree() == lobbies_tree(lobbies@),
{
    let mut items: Vec<Value> = Vec::new();
    let mut i: usize = 0;
    while i < lobbies.len()
        invariant
            i <= lobbies.len(),
            items.len() == i,
            forall|j: int| 0 <= j < i ==> (#[trigger] items@[j]).tree() == lobby_tree(lobbies@[j]),
        decreases lobbies.len() - i,
    {
        items.push(lobby_value(&lobbies[i]));
        i = i + 1;
    }
    proof {
        lemma_trees(items@, lobbies@.map_values(|lobby: LobbyWithRooms| lobby_tree(lobby)));
    }
    list_value(items)
}

/// Whether a text is made of letters, digits and underscores.
pub open spec fn is_word(s: Seq<char>) -> bool {
    forall|i: int| 0 <= i < s.len() ==> key_char(#[trigger] s[i])
}

/// Whether every key of the extra data of a room is made of letters, digits and underscores.
pub open spec fn plain_keys(room: RoomInfo) -> bool {
    forall|i: int|
        0 <= i < room.extra_data.listed().len() ==> is_word(
            (#[trigger] room.extra_data.listed()[i]).0,
        )
}

pub proof fn lemma_entries_writable(entries: Seq<(Tree, Tree)>)
    ensures
        entries_writable(entries) <==> forall|i: int|
            0 <= i < entries.len() ==> key_writable((#[trigger] entries[i]).0) && writable(
                entries[i].1,
            ),
    decreases entries.len(),
{
    if entries.len() > 0 {
        let rest = entries.drop_first();
        lemma_entries_writable(rest);
        if entries_writable(entries) {
            assert forall|i: int| 0 <= i < entries.len() implies key_writable(
                (#[trigger] entries[i]).0,
            ) && writable(entries[i].1) by {
                if i > 0 {
                    assert(rest[i - 1] == entries[i]);
                }
            }
        }
        if forall|i: int|
            0 <= i < entries.len() ==> key_writable((#[trigger] entries[i]).0) && writable(
                entries[i].1,
            ) {
            assert(key_writable(entries[0].0) && writable(entries[0].1));
            assert forall|i: int| 0 <= i < rest.len() implies key_writable((#[trigger] rest[i]).0)
                && writable(rest[i].1) by {
                assert(rest[i] == entries[i + 1]);
            }
        }
    }
}

pub proof fn lemma_items_writable(items: Seq<Tree>)
    ensures
        items_writable(items) <==> forall|i: int|
            0 <= i < items.len() ==> writable(#[trigger] items[i]),
    decreases items.len(),
{
    if items.len() > 0 {
        let rest = items.drop_first();
        lemma_items_writable(rest);
        if items_writable(items) {
            assert forall|i: int| 0 <= i < items.len() implies writable(#[trigger] items[i]) by {
                if i > 0 {
                    assert(rest[i - 1] == items[i]);
                }
            }
        }
        if forall|i: int| 0 <= i < items.len() ==> writable(#[trigger] items[i]) {
            assert(writable(items[0]));
            assert forall|i: int| 0 <= i < rest.len() implies writable(#[trigger] rest[i]) by {
                assert(rest[i] == items[i + 1]);
            }
        }
    }
}

pub proof fn lemma_room_writable(room: RoomInfo)
    ensures
        writable(room_tree(room)) <==> plain_keys(room),
{
    reveal_strlit("room_id");
    reveal_strlit("game_type");
    reveal_strlit("game_version");
    reveal_strlit("room_name");
    reveal_strlit("room_password");
    reveal_strlit("room_closed");
    reveal_strlit("game_started");
    reveal_strlit("players_count");
    reveal_strlit("players_max");
    reveal_strlit("ping");
    reveal_strlit("extra_data");
    let listed = room.extra_data.listed();
    let extra = text_entries(listed);
    let fields = room_tree(room)->Table_0;
    lemma_entries_writable(extra);
    lemma_entries_writable(fields);
    assert(entries_writable(extra) <==> plain_keys(room)) by {
        if plain_keys(room) {
            assert forall|i: int| 0 <= i < extra.len() implies key_writable((#[trigger] extra[i]).0)
                && writable(extra[i].1) by {
                assert(is_word(listed[i].0));
            }
        }
        if entries_writable(extra) {
            assert forall|i: int| 0 <= i < listed.len() implies is_word((#[trigger] listed[i]).0) by {
                let key = listed[i].0;
                assert(key_writable(extra[i].0));
                assert(key_writable(Tree::Text(key)));
                assert(forall|j: int| 0 <= j < key.len() ==> key_char(#[trigger] key[j]));
            }
        }
    }
    assert(fields[10].1 == Tree::Table(extra));
    assert forall|i: int| 0 <= i < fields.len() implies key_writable((#[trigger] fields[i]).0) by {
        let name = fields[i].0->Text_0;
        assert(is_word(name));
    }
}

/// A list of lobbies can be written in XPrm notation exactly where the keys of the extra data of
/// every room are made of letters, digits and underscores: one room with another key leaves the
/// client without the whole list.
pub proof fn lobbies_written_iff_plain_keys(lobbies: Seq<LobbyWithRooms>)
    ensures
        writable(lobbies_tree(lobbies)) <==> forall|i: int, j: int|
            0 <= i < lobbies.len() && 0 <= j < lobbies[i].rooms@.len() ==> plain_keys(
                #[trigger] lobbies[i].rooms@[j],
            ),
{
    let items = lobbies.map_values(|lobby: LobbyWithRooms| lobby_tree(lobby));
    lemma_items_writable(items);
    reveal_strlit("host");
    reveal_strlit("rooms");
    reveal_strlit("host_tcp");
    reveal_strlit("host_ws");
    assert forall|i: int| 0 <= i < lobbies.len() implies (writable(#[trigger] items[i]) <==> forall|
        j: int,
    |
        0 <= j < lobbies[i].rooms@.len() ==> plain_keys(#[trigger] lobbies[i].rooms@[j])) by {
        let lobby = lobbies[i];
        let rooms = lobby.rooms@.map_values(|room: RoomInfo| room_tree(room));
        let fields = lobby_tree(lobby)->Table_0;
        let host = host_tree(lobby.host)->Table_0;
        lemma_entries_writable(fields);
        lemma_entries_writable(host);
        lemma_items_writable(rooms);
        assert(is_word("host"@) && is_word("rooms"@) && is_word("host_tcp"@) && is_word(
            "host_ws"@,
        ));
        assert(key_writable(fields[0].0) && key_writable(fields[1].0));
        assert(key_writable(host[0].0) && key_writable(host[1].0));
        assert(writable(fields[0].1));
        assert(fields[1].1 == Tree::List(Some(rooms.len()), rooms));
        assert forall|j: int| 0 <= j < rooms.len() implies (writable(#[trigger] rooms[j])
            <==> plain_keys(lobby.rooms@[j])) by {
            lemma_room_writable(lobby.rooms@[j]);
        }
        if items_writable(rooms) {
            assert forall|j: int| 0 <= j < lobby.rooms@.len() implies plain_keys(
                #[trigger] lobby.rooms@[j],
            ) by {
                assert(writable(rooms[j]));
            }
        }
        assert(writable(items[i]) <==> items_writable(rooms));
    }
    if writable(lobbies_tree(lobbies)) {
        assert forall|i: int, j: int|
            0 <= i < lobbies.len() && 0 <= j < lobbies[i].rooms@.len() implies plain_keys(
            #[trigger] lobbies[i].rooms@[j],
        ) by {
            assert(writable(items[i]));
        }
    }
}

} // verus!
