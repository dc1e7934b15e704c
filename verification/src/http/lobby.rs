//! The lists that the HTTP server gives.

use crate::lobby::listing::{field, list_tree, list_value, lobbies_tree, lobbies_value, text_value};
use crate::lobby::lobby_manager::{rooms_for, same_rooms, LobbyManager};
use crate::lobby::room_info::{LobbyHost, LobbyWithRooms, RoomInfo};
use crate::xprm::value::{field_trees, Tree, Value};
use vstd::prelude::*;

verus! {

/// The response that lists lobbies.
pub struct LobbyListResponse {
    pub lobbies: Vec<LobbyWithRooms>,
}

impl LobbyListResponse {
    /// This response, as a tree.
    pub open spec fn tree(&self) -> Tree {
        Tree::Table(seq![field("lobbies"@, lobbies_tree(self.lobbies@))])
    }

    /// This response, as a value.
    pub fn value(&self) -> (v: Value)
        ensures
            v.tree() == self.tree(),
    {
        let fields: Vec<(String, Value)> = vec![("lobbies".to_owned(), lobbies_value(&self.lobbies))];
        proof {
            reveal_with_fuel(field_trees, 2);
            assert(fields@.drop_first() =~= Seq::empty());
            assert(field_trees(fields@) =~= self.tree()->Table_0);
        }
        Value::Struct(fields)
    }
}

/// The game that was asked for, or the empty text where none was.
pub open spec fn asked_for(game_type: Option<String>) -> Seq<char> {
    match game_type {
        Some(text) => text@,
        None => Seq::empty(),
    }
}

/// The lobby at `host` with those of its rooms `room_infos` that are for the game that was asked
/// for.
pub fn list(room_infos: &Vec<RoomInfo>, game_type: Option<String>, host: &LobbyHost) -> (r:
    LobbyListResponse)
    ensures
        r.lobbies@.len() == 1,
        r.lobbies@[0].host@ == host@,
        same_rooms(r.lobbies@[0].rooms@, rooms_for(room_infos@, asked_for(game_type))),
{
    let game_type: String = match game_type {
        Some(text) => text,
        None => String::new(),
    };
    let rooms = LobbyManager::filter_room_by_game_type(room_infos, &game_type);
    LobbyListResponse { lobbies: vec![LobbyWithRooms { host: host.clone(), rooms }] }
}

/// The games that are allowed, as a value.
pub fn game_types(allowed: &Vec<String>) -> (v: Value)
    ensures
        v.tree() == list_tree(allowed@.map_values(|s: String| Tree::Text(s@))),
{
    let mut items: Vec<Value> = Vec::new();
    let mut i: usize = 0;
    while i < allowed.len()
        invariant
            i <= allowed.len(),
            items.len() == i,
            forall|j: int| 0 <= j < i ==> (#[trigger] items@[j]).tree() == Tree::Text(allowed@[j]@),
        decreases allowed.len() - i,
    {
        items.push(text_value(allowed[i].as_str()));
        i = i + 1;
    }
    proof {
        crate::lobby::listing::lemma_trees(
            items@,
            allowed@.map_values(|s: String| Tree::Text(s@)),
        );
    }
    list_value(items)
}

} // verus!
