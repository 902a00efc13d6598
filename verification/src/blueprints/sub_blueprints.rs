//! The readiness of the instances that are nested in a blueprint instance.
use crate::Entity;
use bevy::utils::hashbrown::HashMap;
use vstd::prelude::*;

verus! {

/// For each instance nested in a blueprint instance, whether it is ready.
/// The owner may go on once every entry is `true`. The entries are kept in a
/// `HashMap` of hashbrown. `tracker_entries` names what the map holds, and
/// the private functions below say what the map's own functions do to that.
#[verifier::external_body]
pub struct SubBlueprintsSpawnTracker {
    sub_blueprint_instances: HashMap<Entity, bool>,
}

/// What a tracker holds: the nested instances, each with its readiness.
pub uninterp spec fn tracker_entries(tracker: SubBlueprintsSpawnTracker) -> Map<Entity, bool>;

/// Every entry of `entries` is ready. This is true of no entries at all.
pub open spec fn all_ready(entries: Map<Entity, bool>) -> bool {
    forall|instance: Entity| entries.dom().contains(instance) ==> #[trigger] entries[instance]
}

/// `items` lists the entries of `entries`, each once, in some order.
pub open spec fn lists_entries(items: Seq<(Entity, bool)>, entries: Map<Entity, bool>) -> bool {
    &&& forall|i: int|
        0 <= i < items.len() ==> entries.dom().contains(#[trigger] items[i].0) && entries[items[i].0]
            == items[i].1
    &&& forall|instance: Entity|
        entries.dom().contains(instance) ==> exists|i: int|
            0 <= i < items.len() && #[trigger] items[i].0 == instance
    &&& forall|i: int, j: int|
        0 <= i < j < items.len() ==> #[trigger] items[i].0 != #[trigger] items[j].0
}

impl SubBlueprintsSpawnTracker {
    /// The entries of this tracker.
    pub open spec fn entries(self) -> Map<Entity, bool> {
        tracker_entries(self)
    }

    /// `HashMap::new` of hashbrown: a map without entries.
    #[verifier::external_body]
    fn new_map() -> (r: SubBlueprintsSpawnTracker)
        ensures
            tracker_entries(r) =~= Map::empty(),
    {
        SubBlueprintsSpawnTracker { sub_blueprint_instances: HashMap::new() }
    }

    /// `HashMap::insert` of hashbrown: afterwards the map holds `ready` for
    /// `instance`, and for every other key what it held before.
    #[verifier::external_body]
    fn insert(&mut self, instance: Entity, ready: bool)
        ensures
            tracker_entries(*final(self)) == tracker_entries(*old(self)).insert(instance, ready),
    {
        self.sub_blueprint_instances.insert(instance, ready);
    }

    /// `HashMap::get` of hashbrown: the value held for `instance`, if any.
    #[verifier::external_body]
    fn get(&self, instance: Entity) -> (r: Option<bool>)
        ensures
            r is Some <==> tracker_entries(*self).dom().contains(instance),
            r matches Some(ready) ==> ready == tracker_entries(*self)[instance],
    {
        self.sub_blueprint_instances.get(&instance).copied()
    }

    /// `HashMap::iter` of hashbrown: every entry once, in an order that the
    /// map chooses.
    #[verifier::external_body]
    fn to_vec(&self) -> (r: Vec<(Entity, bool)>)
        ensures
            lists_entries(r@, tracker_entries(*self)),
    {
        let mut items = Vec::new();
        for (instance, ready) in self.sub_blueprint_instances.iter() {
            items.push((*instance, *ready));
        }
        items
    }

    /// A tracker without entries.
    pub fn new() -> (r: SubBlueprintsSpawnTracker)
        ensures
            r.entries() =~= Map::empty(),
    {
        Self::new_map()
    }

    /// Starts to track `instance`, as not ready.
    pub fn track(&mut self, instance: Entity)
        ensures
            final(self).entries() == old(self).entries().insert(instance, false),
    {
        self.insert(instance, false);
    }

    /// Whether `instance` is ready, or `None` where it is not tracked.
    pub fn readiness(&self, instance: Entity) -> (r: Option<bool>)
        ensures
            r is Some <==> self.entries().dom().contains(instance),
            r matches Some(ready) ==> ready == self.entries()[instance],
    {
        self.get(instance)
    }

    /// The entries, each once, in no particular order.
    pub fn instances(&self) -> (r: Vec<(Entity, bool)>)
        ensures
            lists_entries(r@, self.entries()),
    {
        self.to_vec()
    }

    /// Whether the tracker holds no entry.
    pub fn is_empty(&self) -> (r: bool)
        ensures
            r == (self.entries() =~= Map::empty()),
    {
        let items = self.to_vec();
        proof {
            if items@.len() == 0 {
                assert(self.entries().dom() =~= Set::empty());
            } else {
                assert(self.entries().dom().contains(items@[0].0));
            }
        }
        items.len() == 0
    }

    /// Whether every nested instance is ready.
    pub fn all_spawned(&self) -> (r: bool)
        ensures
            r == all_ready(self.entries()),
    {
        let items = self.to_vec();
        let mut i: usize = 0;
        while i < items.len()
            invariant
                i <= items.len(),
                lists_entries(items@, self.entries()),
                forall|j: int| 0 <= j < i ==> (#[trigger] items@[j]).1,
            decreases items.len() - i,
        {
            if !items[i].1 {
                assert(self.entries().dom().contains(items@[i as int].0));
                return false;
            }
            i += 1;
        }
        true
    }

    /// Records that `instance` is ready, whether or not it was tracked before.
    pub fn mark_ready(&mut self, instance: Entity)
        ensures
            final(self).entries() == old(self).entries().insert(instance, true),
    {
        self.insert(instance, true);
    }
}

} // verus!
