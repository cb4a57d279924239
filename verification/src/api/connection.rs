//! What the plugin remembers about one client connection.

use vstd::prelude::*;
use std::collections::HashMap;
use crate::version::JavaMinecraftVersion;

verus! {

broadcast use vstd::std_specs::hash::group_hash_axioms;

/// The entities the client has been told about, by entity id, with their 26.3
/// type, plus the client's own entity and the height range of its world.
pub struct EntityTracker {
    pub client_entity_id: Option<i32>,
    pub entities: HashMap<i32, u16>,
    pub min_y: i32,
    pub height: i32,
}

impl EntityTracker {
    /// The tracked entities: entity id to 26.3 entity type.
    pub open spec fn entities(&self) -> Map<i32, u16> {
        self.entities@
    }

    /// A tracker that knows of no entity.
    pub fn new() -> (r: EntityTracker)
        ensures
            r.entities() == Map::<i32, u16>::empty(),
            r.client_entity_id is None,
            r.min_y == 0,
            r.height == 0,
    {
        EntityTracker { client_entity_id: None, entities: HashMap::new(), min_y: 0, height: 0 }
    }

    /// Records that entity `id` is of type `entity_type`, replacing what was known of it.
    pub fn add(&mut self, id: i32, entity_type: u16)
        ensures
            final(self).entities() == old(self).entities().insert(id, entity_type),
            final(self).client_entity_id == old(self).client_entity_id,
            final(self).min_y == old(self).min_y,
            final(self).height == old(self).height,
    {
        self.entities.insert(id, entity_type);
    }

    /// Forgets entity `id`.
    pub fn remove(&mut self, id: i32)
        ensures
            final(self).entities() == old(self).entities().remove(id),
            final(self).client_entity_id == old(self).client_entity_id,
            final(self).min_y == old(self).min_y,
            final(self).height == old(self).height,
    {
        self.entities.remove(&id);
    }

    /// The 26.3 type of entity `id`, `None` when it is not tracked.
    pub fn entity_type(&self, id: i32) -> (r: Option<u16>)
        ensures
            r == (if self.entities().contains_key(id) { Some(self.entities()[id]) } else { None }),
    {
        match self.entities.get(&id) {
            Some(entity_type) => Some(*entity_type),
            None => None,
        }
    }

    /// Forgets every entity; the client's own id and the world height stay.
    pub fn clear(&mut self)
        ensures
            final(self).entities() == Map::<i32, u16>::empty(),
            final(self).client_entity_id == old(self).client_entity_id,
            final(self).min_y == old(self).min_y,
            final(self).height == old(self).height,
    {
        self.entities.clear();
    }
}

impl Default for EntityTracker {
    fn default() -> (r: EntityTracker)
        ensures
            r.entities() == Map::<i32, u16>::empty(),
            r.client_entity_id is None,
            r.min_y == 0,
            r.height == 0,
    {
        EntityTracker::new()
    }
}

/// One client connection: its key, its version and the entities it knows.
pub struct UserConnection {
    pub id: u64,
    pub version: JavaMinecraftVersion,
    pub entity_tracker: EntityTracker,
}

impl UserConnection {
    /// A fresh connection that knows of no entity.
    pub fn new(id: u64, version: JavaMinecraftVersion) -> (r: UserConnection)
        ensures
            r.id == id,
            r.version == version,
            r.entity_tracker.entities() == Map::<i32, u16>::empty(),
            r.entity_tracker.client_entity_id is None,
            r.entity_tracker.min_y == 0,
            r.entity_tracker.height == 0,
    {
        UserConnection { id, version, entity_tracker: EntityTracker::new() }
    }
}

/// Once recorded, an entity reads back with the type it was recorded with,
/// and recording it leaves every other entity as it was.
pub proof fn law_tracker_reads_back(before: Map<i32, u16>, id: i32, entity_type: u16, other: i32)
    requires
        other != id,
    ensures
        before.insert(id, entity_type).contains_key(id),
        before.insert(id, entity_type)[id] == entity_type,
        before.insert(id, entity_type).contains_key(other) == before.contains_key(other),
        before.contains_key(other) ==> before.insert(id, entity_type)[other] == before[other],
        !before.remove(id).contains_key(id),
        before.remove(id).contains_key(other) == before.contains_key(other),
{
}

/// Every client connection the plugin keeps state for, by key.
pub struct Connections {
    pub by_key: HashMap<u64, UserConnection>,
}

impl Connections {
    /// The kept connections by key.
    pub open spec fn connections(&self) -> Map<u64, UserConnection> {
        self.by_key@
    }

    /// A store that keeps nothing.
    pub fn new() -> (r: Connections)
        ensures
            r.connections() == Map::<u64, UserConnection>::empty(),
    {
        Connections { by_key: HashMap::new() }
    }

    /// Takes the state of connection `key` out of the store for a client on
    /// `version`: what was kept, now on `version`, or a fresh connection on
    /// first use.
    pub fn take(&mut self, key: u64, version: JavaMinecraftVersion) -> (r: UserConnection)
        ensures
            final(self).connections() == old(self).connections().remove(key),
            r.version == version,
            old(self).connections().contains_key(key) ==> {
                &&& r.id == old(self).connections()[key].id
                &&& r.entity_tracker == old(self).connections()[key].entity_tracker
            },
            !old(self).connections().contains_key(key) ==> {
                &&& r.id == key
                &&& r.entity_tracker.entities() == Map::<i32, u16>::empty()
                &&& r.entity_tracker.client_entity_id is None
                &&& r.entity_tracker.min_y == 0
                &&& r.entity_tracker.height == 0
            },
    {
        match self.by_key.remove(&key) {
            Some(kept) => {
                let mut connection = kept;
                connection.version = version;
                connection
            },
            None => UserConnection::new(key, version),
        }
    }

    /// Keeps `connection` under `key` until it is taken again.
    pub fn keep(&mut self, key: u64, connection: UserConnection)
        ensures
            final(self).connections() == old(self).connections().insert(key, connection),
    {
        self.by_key.insert(key, connection);
    }

    /// Forgets the state of connection `key`.
    pub fn remove_connection(&mut self, key: u64)
        ensures
            final(self).connections() == old(self).connections().remove(key),
    {
        self.by_key.remove(&key);
    }
}

/// A connection kept under a key is what the next take of that key gives
/// back; once the key is removed nothing is kept under it, and keys other
/// than it are left as they were.
pub proof fn law_state_survives_until_removed(
    store: Map<u64, UserConnection>,
    key: u64,
    connection: UserConnection,
    other: u64,
)
    requires
        other != key,
    ensures
        store.insert(key, connection).contains_key(key),
        store.insert(key, connection)[key] == connection,
        !store.insert(key, connection).remove(key).contains_key(key),
        store.insert(key, connection).remove(key).contains_key(other) == store.contains_key(other),
        store.contains_key(other) ==> store.insert(key, connection).remove(key)[other] == store[other],
{
}

/// The key of a player's connection, its uuid (the high and the low half)
/// folded to 64 bits; 0 before a player exists.
pub open spec fn spec_connection_key(uuid: Option<(u64, u64)>) -> u64 {
    match uuid {
        Some((high, low)) => ((high << 32u64) | (high >> 32u64)) ^ low,
        None => 0,
    }
}

/// The key of the connection of the player with `uuid`, 0 before a player
/// exists.
pub fn connection_key(uuid: Option<(u64, u64)>) -> (r: u64)
    ensures
        r == spec_connection_key(uuid),
{
    match uuid {
        Some((high, low)) => ((high << 32u64) | (high >> 32u64)) ^ low,
        None => 0,
    }
}

} // verus!
