//! Which blueprint instances depend on which asset file.
use crate::text::same_text;
use crate::Entity;
use vstd::prelude::*;

verus! {

/// For each asset path, the blueprint instances that were built from it. A
/// watcher of the asset files looks the instances of a changed file up here.
#[derive(Debug)]
pub struct AssetToBlueprintInstancesMapper {
    /// Pairs of an asset path and an instance that depends on it, in the order
    /// in which they were registered.
    pub untyped_id_to_blueprint_entity_ids: Vec<(String, Entity)>,
}

/// The pairs of a list, each path as its text.
pub open spec fn pairs_of(items: Seq<(String, Entity)>) -> Seq<(Seq<char>, Entity)> {
    items.map_values(|p: (String, Entity)| (p.0@, p.1))
}

/// The entities that `pairs` give for `path`, in their order.
pub open spec fn entities_for(pairs: Seq<(Seq<char>, Entity)>, path: Seq<char>) -> Seq<Entity>
    decreases pairs.len(),
{
    if pairs.len() == 0 {
        Seq::empty()
    } else if pairs.last().0 == path {
        entities_for(pairs.drop_last(), path).push(pairs.last().1)
    } else {
        entities_for(pairs.drop_last(), path)
    }
}

impl AssetToBlueprintInstancesMapper {
    /// The registered pairs of a path and an instance, oldest first.
    pub open spec fn registrations(self) -> Seq<(Seq<char>, Entity)> {
        pairs_of(self.untyped_id_to_blueprint_entity_ids@)
    }

    /// A mapper without registrations.
    pub fn new() -> (r: AssetToBlueprintInstancesMapper)
        ensures
            r.registrations() == Seq::<(Seq<char>, Entity)>::empty(),
    {
        AssetToBlueprintInstancesMapper { untyped_id_to_blueprint_entity_ids: Vec::new() }
    }

    /// Whether `entity` is registered for `path`.
    pub fn is_registered(&self, path: &str, entity: Entity) -> (r: bool)
        ensures
            r == self.registrations().contains((path@, entity)),
    {
        let mut i: usize = 0;
        while i < self.untyped_id_to_blueprint_entity_ids.len()
            invariant
                i <= self.untyped_id_to_blueprint_entity_ids@.len(),
                forall|j: int| 0 <= j < i ==> self.registrations()[j] != (path@, entity),
            decreases self.untyped_id_to_blueprint_entity_ids@.len() - i,
        {
            if self.untyped_id_to_blueprint_entity_ids[i].1 == entity && same_text(
                self.untyped_id_to_blueprint_entity_ids[i].0.as_str(),
                path,
            ) {
                assert(self.registrations()[i as int] == (path@, entity));
                return true;
            }
            i += 1;
        }
        false
    }

    /// Registers `entity` for `path`, unless it is registered for it already.
    pub fn register(&mut self, path: &str, entity: Entity)
        ensures
            final(self).registrations() == registered(old(self).registrations(), path@, entity),
    {
        if !self.is_registered(path, entity) {
            self.untyped_id_to_blueprint_entity_ids.push((path.to_owned(), entity));
            assert(self.registrations() =~= old(self).registrations().push((path@, entity)));
        }
    }

    /// The instances registered for `path`, oldest first.
    pub fn instances_of(&self, path: &str) -> (r: Vec<Entity>)
        ensures
            r@ == entities_for(self.registrations(), path@),
    {
        let mut out: Vec<Entity> = Vec::new();
        let mut i: usize = 0;
        assert(self.registrations().subrange(0, 0) =~= Seq::empty());
        while i < self.untyped_id_to_blueprint_entity_ids.len()
            invariant
                i <= self.untyped_id_to_blueprint_entity_ids@.len(),
                out@ == entities_for(self.registrations().subrange(0, i as int), path@),
            decreases self.untyped_id_to_blueprint_entity_ids@.len() - i,
        {
            proof {
                let next = self.registrations().subrange(0, i + 1);
                assert(next.drop_last() =~= self.registrations().subrange(0, i as int));
                assert(next.last() == self.registrations()[i as int]);
            }
            if same_text(self.untyped_id_to_blueprint_entity_ids[i].0.as_str(), path) {
                out.push(self.untyped_id_to_blueprint_entity_ids[i].1);
            }
            i += 1;
        }
        assert(self.registrations().subrange(0, i as int) =~= self.registrations());
        out
    }
}

/// Registering never puts a pair into the mapper twice: a mapper without
/// repeated pairs has none after a registration either, and registering the
/// same pair again changes nothing.
pub proof fn law_registered_at_most_once(
    before: Seq<(Seq<char>, Entity)>,
    path: Seq<char>,
    entity: Entity,
)
    requires
        before.no_duplicates(),
    ensures
        registered(before, path, entity).no_duplicates(),
        registered(registered(before, path, entity), path, entity) == registered(
            before,
            path,
            entity,
        ),
        registered(before, path, entity).contains((path, entity)),
{
    let after = registered(before, path, entity);
    if !before.contains((path, entity)) {
        assert(after.last() == (path, entity));
        assert(after.contains((path, entity)));
        assert forall|i: int, j: int| 0 <= i < after.len() && 0 <= j < after.len() && i != j implies after[i] != after[j] by {
            if i == before.len() {
                assert(before.contains(after[j]) );
            } else if j == before.len() {
                assert(before.contains(after[i]));
            }
        }
    }
}

/// The registrations after `entity` was registered for `path`.
pub open spec fn registered(
    before: Seq<(Seq<char>, Entity)>,
    path: Seq<char>,
    entity: Entity,
) -> Seq<(Seq<char>, Entity)> {
    if before.contains((path, entity)) {
        before
    } else {
        before.push((path, entity))
    }
}

} // verus!
