//! Rooms that are bridged to other games.

use crate::lobby::room_info::RoomID;
use std::collections::HashMap;
use vstd::prelude::*;

verus! {

pub struct BridgedRoom {
    pub id: RoomID,
}

pub struct BridgeManager {
    pub rooms: HashMap<RoomID, BridgedRoom>,
}

} // verus!
