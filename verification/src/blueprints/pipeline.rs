//! Steps of the pipeline that touch more than one instance.
use crate::blueprints::spawn_from_blueprints::{
    finalizes, learns_of_ready, BlueprintInstance, Finalized,
};
use crate::blueprints::stages::SpawnStage;
use crate::hierarchy::Hierarchy;
use crate::Entity;
use vstd::prelude::*;

verus! {

/// `at` is the place of the first instance on `entity`.
pub open spec fn is_first_instance(
    instances: Seq<BlueprintInstance>,
    entity: Entity,
    at: int,
) -> bool {
    &&& 0 <= at < instances.len()
    &&& instances[at].entity == entity
    &&& forall|j: int| 0 <= j < at ==> (#[trigger] instances[j]).entity != entity
}

/// The place of the first instance on `entity`, if there is one.
pub open spec fn place_of(instances: Seq<BlueprintInstance>, entity: Entity) -> Option<int> {
    if exists|at: int| is_first_instance(instances, entity, at) {
        Some(choose|at: int| is_first_instance(instances, entity, at))
    } else {
        None
    }
}

/// The place of the instance that is told when the instance at `index` is
/// finalized: the first instance on its spawn root, if the instance at
/// `index` is ready for finalizing and the other instance is not itself.
pub open spec fn told_place(instances: Seq<BlueprintInstance>, index: int) -> Option<int> {
    if instances[index].stage != SpawnStage::ReadyForFinalizing {
        None
    } else {
        match instances[index].spawn_root {
            Some(root) => match place_of(instances, root) {
                Some(p) => if p != index {
                    Some(p)
                } else {
                    None
                },
                None => None,
            },
            None => None,
        }
    }
}

/// No two of `instances` are on the same entity.
pub open spec fn distinct_entities(instances: Seq<BlueprintInstance>) -> bool {
    forall|i: int, j: int|
        0 <= i < j < instances.len() ==> (#[trigger] instances[i]).entity
            != (#[trigger] instances[j]).entity
}

/// Whatever a tracker holds as ready is ready: an instance whose entity is
/// marked ready in the tracker of any instance has finished spawning.
pub open spec fn ready_entries_are_ready(instances: Seq<BlueprintInstance>) -> bool {
    forall|p: int, j: int|
        0 <= p < instances.len() && 0 <= j < instances.len() && marks_ready(
            #[trigger] instances[p],
            (#[trigger] instances[j]).entity,
        ) ==> instances[j].stage == SpawnStage::Ready
}

/// The tracker of `instance` holds `entity` as ready.
pub open spec fn marks_ready(instance: BlueprintInstance, entity: Entity) -> bool {
    instance.sub_blueprints matches Some(tracker) && tracker.entries().dom().contains(entity)
        && tracker.entries()[entity]
}

/// What the finalizing of the instance at `index` makes of `before`.
pub open spec fn finalized_at(
    before: Seq<BlueprintInstance>,
    after: Seq<BlueprintInstance>,
    index: int,
    hierarchy: Hierarchy,
    outcome: Finalized,
    became_ready: bool,
) -> bool {
    &&& after.len() == before.len()
    &&& finalizes(before[index], after[index], hierarchy, outcome)
    &&& told_place(before, index) matches Some(p) ==> learns_of_ready(
        before[p],
        after[p],
        before[index].entity,
        became_ready,
    )
    &&& told_place(before, index) is None ==> !became_ready
    &&& forall|k: int|
        0 <= k < before.len() && k != index && told_place(before, index) != Some(k)
            ==> #[trigger] after[k] == before[k]
}

/// A tracker learns that a nested instance is ready only in the step that
/// makes it ready: where every entry that is marked ready belonged to a
/// ready instance before an instance was finalized, it does so afterwards.
pub proof fn law_ready_entries_stay_ready(
    before: Seq<BlueprintInstance>,
    after: Seq<BlueprintInstance>,
    index: int,
    hierarchy: Hierarchy,
    outcome: Finalized,
    became_ready: bool,
)
    requires
        0 <= index < before.len(),
        finalized_at(before, after, index, hierarchy, outcome, became_ready),
        distinct_entities(before),
        ready_entries_are_ready(before),
    ensures
        distinct_entities(after),
        ready_entries_are_ready(after),
{
    let told = told_place(before, index);
    assert forall|k: int| 0 <= k < before.len() implies (#[trigger] after[k]).entity
        == before[k].entity && (before[k].stage == SpawnStage::Ready ==> after[k].stage
        == SpawnStage::Ready) by {
        if k != index && told != Some(k) {
            assert(after[k] == before[k]);
        }
    }
    assert forall|p: int, j: int|
        0 <= p < after.len() && 0 <= j < after.len() && marks_ready(
            #[trigger] after[p],
            (#[trigger] after[j]).entity,
        ) implies after[j].stage == SpawnStage::Ready by {
        let c = after[j].entity;
        assert(before[j].entity == c);
        if told == Some(p) && before[p].stage.in_flight() && before[p].sub_blueprints is Some {
            let child = before[index].entity;
            if c == child {
                if j < index {
                    assert(before[j].entity != before[index].entity);
                } else if index < j {
                    assert(before[index].entity != before[j].entity);
                }
                assert(j == index);
            } else {
                assert(marks_ready(before[p], before[j].entity));
            }
        } else {
            if p != index && told != Some(p) {
                assert(after[p] == before[p]);
            }
            assert(marks_ready(before[p], before[j].entity));
        }
    }
}

/// The place of the first instance on `entity`, if there is one.
pub fn position_of(instances: &Vec<BlueprintInstance>, entity: Entity) -> (r: Option<usize>)
    ensures
        r is Some <==> place_of(instances@, entity) is Some,
        r matches Some(at) ==> place_of(instances@, entity) == Some(at as int)
            && is_first_instance(instances@, entity, at as int),
{
    let mut i: usize = 0;
    while i < instances.len()
        invariant
            i <= instances@.len(),
            forall|j: int| 0 <= j < i ==> (#[trigger] instances@[j]).entity != entity,
        decreases instances@.len() - i,
    {
        if instances[i].entity == entity {
            proof {
                assert(is_first_instance(instances@, entity, i as int));
                let chosen = choose|at: int| is_first_instance(instances@, entity, at);
                assert(is_first_instance(instances@, entity, chosen));
                assert(chosen == i);
            }
            return Some(i);
        }
        i += 1;
    }
    None
}

/// Finalizes the instance at `index` and tells the instance in which it is
/// nested, if that one is among `instances`, that it is ready. So a tracker
/// learns that a nested instance is ready in the very step that makes it
/// ready, and the children of an instance become ready with the last of the
/// nested instances that it tracks. Returns what the finalizing hands back,
/// and whether the children of the other instance became ready.
pub fn finalize_at(instances: &mut Vec<BlueprintInstance>, index: usize, hierarchy: &Hierarchy) -> (r:
    (Finalized, bool))
    requires
        index < old(instances)@.len(),
        forall|i: int| 0 <= i < old(instances)@.len() ==> (#[trigger] old(instances)@[i]).wf(),
    ensures
        forall|i: int| 0 <= i < final(instances)@.len() ==> (#[trigger] final(instances)@[i]).wf(),
        finalized_at(old(instances)@, final(instances)@, index as int, *hierarchy, r.0, r.1),
{
    let entity = instances[index].entity;
    let root_position = match instances[index].spawn_root {
        Some(root) => position_of(instances, root),
        None => None,
    };
    let outcome = instances[index].blueprints_finalize_instances(hierarchy);
    let mut became_ready = false;
    match (outcome.notify, root_position) {
        (Some(_), Some(p)) => {
            if p != index {
                became_ready = instances[p].nested_instance_ready(entity);
            }
        },
        _ => {},
    }
    (outcome, became_ready)
}

} // verus!
