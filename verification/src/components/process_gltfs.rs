//! Gathering the components that the attributes of scene nodes describe, per
//! entity that is to receive them.
use crate::components::ronstring_to_reflect_component::{
    components_view, ronstring_to_reflect_component, text_components, ComponentView,
    ReflectedComponent,
};
use crate::text::{contains, contains_text, ends_with, has_suffix};
use crate::Entity;
use bevy::reflect::TypeRegistry;
use bevy::utils::HashMap;
use vstd::prelude::*;

verus! {

/// The attribute text of one scene node.
#[derive(Clone, Debug)]
pub struct GltfExtra {
    pub entity: Entity,
    pub name: Option<String>,
    pub parent: Option<Entity>,
    /// The attributes of the node, as text.
    pub value: String,
    /// The attributes of the node were turned into components already.
    pub processed: bool,
}

/// The components gathered so far, per entity that is to receive them. They
/// are kept in a `HashMap` of hashbrown, as `bevy_utils` hands it on.
/// `gathered` names what the map holds, and the private functions below say
/// what the map's own functions do to that.
#[verifier::external_body]
pub struct EntityComponents {
    map: HashMap<Entity, Vec<ReflectedComponent>>,
}

/// What is gathered: for each entity its components, each as the path of its
/// type and its text, in the order in which they were gathered.
pub uninterp spec fn gathered(components: EntityComponents) -> Map<Entity, Seq<ComponentView>>;

/// `items` lists the entries of `entries`, each once, in some order.
pub open spec fn lists_components(
    items: Seq<(Entity, Vec<ReflectedComponent>)>,
    entries: Map<Entity, Seq<ComponentView>>,
) -> bool {
    &&& forall|i: int|
        0 <= i < items.len() ==> entries.dom().contains(#[trigger] items[i].0) && entries[items[i].0]
            == components_view(items[i].1@)
    &&& forall|entity: Entity|
        entries.dom().contains(entity) ==> exists|i: int|
            0 <= i < items.len() && #[trigger] items[i].0 == entity
    &&& forall|i: int, j: int|
        0 <= i < j < items.len() ==> #[trigger] items[i].0 != #[trigger] items[j].0
}

impl EntityComponents {
    /// `HashMap::new` of hashbrown, as `bevy_utils` hands it on: a map
    /// without entries.
    #[verifier::external_body]
    fn new_map() -> (r: EntityComponents)
        ensures
            gathered(r) =~= Map::empty(),
    {
        EntityComponents { map: HashMap::new() }
    }

    /// `HashMap::get` of hashbrown: the components held for `entity`, if any
    /// are.
    #[verifier::external_body]
    fn get(&self, entity: Entity) -> (r: Option<&Vec<ReflectedComponent>>)
        ensures
            r is Some <==> gathered(*self).dom().contains(entity),
            r matches Some(components) ==> components_view(components@) == gathered(*self)[entity],
    {
        self.map.get(&entity)
    }

    /// `HashMap::insert` of hashbrown: afterwards the map holds `components`
    /// for `entity`, and for every other entity what it held before.
    #[verifier::external_body]
    fn insert(&mut self, entity: Entity, components: Vec<ReflectedComponent>)
        ensures
            gathered(*final(self)) == gathered(*old(self)).insert(
                entity,
                components_view(components@),
            ),
    {
        self.map.insert(entity, components);
    }

    /// `HashMap::into_iter` of hashbrown: every entry once, in an order that
    /// the map chooses.
    #[verifier::external_body]
    fn into_vec(self) -> (r: Vec<(Entity, Vec<ReflectedComponent>)>)
        ensures
            lists_components(r@, gathered(self)),
    {
        let mut items = Vec::new();
        for (entity, components) in self.map.into_iter() {
            items.push((entity, components));
        }
        items
    }
}

impl EntityComponents {
    /// What is gathered, per entity.
    pub open spec fn entries(self) -> Map<Entity, Seq<ComponentView>> {
        gathered(self)
    }

    /// Nothing gathered yet.
    pub fn new() -> (r: EntityComponents)
        ensures
            r.entries() =~= Map::empty(),
    {
        Self::new_map()
    }

    /// Takes `components` as all that is gathered for `entity`.
    pub fn put(&mut self, entity: Entity, components: Vec<ReflectedComponent>)
        ensures
            final(self).entries() == old(self).entries().insert(
                entity,
                components_view(components@),
            ),
    {
        self.insert(entity, components);
    }

    /// What is gathered, each entity once, in no particular order.
    pub fn into_entries(self) -> (r: Vec<(Entity, Vec<ReflectedComponent>)>)
        ensures
            lists_components(r@, self.entries()),
    {
        self.into_vec()
    }
}

/// The entity that receives the attributes of a node: the parent of the
/// node, where it has one and its name holds `components` or ends with
/// `_pa`; else the node itself.
pub open spec fn attribute_target(
    entity: Entity,
    name: Option<Seq<char>>,
    parent: Option<Entity>,
) -> Entity {
    match (parent, name) {
        (Some(p), Some(n)) => if contains_text(n, "components"@) || has_suffix(n, "_pa"@) {
            p
        } else {
            entity
        },
        _ => entity,
    }
}

/// The name of a node as text.
pub open spec fn name_of(name: Option<String>) -> Option<Seq<char>> {
    match name {
        Some(n) => Some(n@),
        None => None,
    }
}

/// What is gathered for `entity` in `entries`; nothing where it has no entry.
pub open spec fn gathered_for(entries: Map<Entity, Seq<ComponentView>>, entity: Entity) -> Seq<
    ComponentView,
> {
    if entries.dom().contains(entity) {
        entries[entity]
    } else {
        Seq::empty()
    }
}

/// What is gathered after the nodes `extras` were worked on, one after the
/// other, when `start` was gathered before: the components of a node are
/// appended to those of its target; a node that was worked on before is
/// passed over.
pub open spec fn gathered_onto(
    registry: TypeRegistry,
    start: Map<Entity, Seq<ComponentView>>,
    extras: Seq<GltfExtra>,
) -> Map<Entity, Seq<ComponentView>>
    decreases extras.len(),
{
    if extras.len() == 0 {
        start
    } else {
        let before = gathered_onto(registry, start, extras.drop_last());
        let extra = extras.last();
        if extra.processed {
            before
        } else {
            let target = attribute_target(extra.entity, name_of(extra.name), extra.parent);
            before.insert(
                target,
                gathered_for(before, target) + text_components(registry, extra.value@),
            )
        }
    }
}

/// The entity that receives the attributes of a node.
pub fn target_entity(entity: Entity, name: &Option<String>, parent: Option<Entity>) -> (r: Entity)
    ensures
        r == attribute_target(entity, name_of(*name), parent),
{
    match (parent, name) {
        (Some(p), Some(n)) => {
            if contains(n.as_str(), "components") || ends_with(n.as_str(), "_pa") {
                p
            } else {
                entity
            }
        },
        _ => entity,
    }
}

/// The entity that receives the components of a node, and all its
/// components: those gathered for it before, followed by the new ones.
pub fn find_entity_components(
    entity: Entity,
    name: &Option<String>,
    parent: Option<Entity>,
    reflect_components: Vec<ReflectedComponent>,
    entity_components: &EntityComponents,
) -> (r: (Entity, Vec<ReflectedComponent>))
    ensures
        r.0 == attribute_target(entity, name_of(*name), parent),
        components_view(r.1@) == gathered_for(gathered(*entity_components), r.0) + components_view(
            reflect_components@,
        ),
{
    let target = target_entity(entity, name, parent);
    match entity_components.get(target) {
        Some(current) => {
            let mut updated: Vec<ReflectedComponent> = Vec::new();
            assert(components_view(updated@) =~= Seq::<ComponentView>::empty());
            append_copies(&mut updated, current);
            append_copies(&mut updated, &reflect_components);
            assert(components_view(updated@) =~= gathered(*entity_components)[target]
                + components_view(reflect_components@));
            (target, updated)
        },
        None => {
            assert(Seq::<ComponentView>::empty() + components_view(reflect_components@)
                =~= components_view(reflect_components@));
            (target, reflect_components)
        },
    }
}

/// Appends to `out` a copy of each of `items`.
pub fn append_copies(out: &mut Vec<ReflectedComponent>, items: &Vec<ReflectedComponent>)
    ensures
        components_view(final(out)@) == components_view(old(out)@) + components_view(items@),
{
    let mut i: usize = 0;
    assert(components_view(out@) =~= components_view(old(out)@) + components_view(
        items@.subrange(0, 0),
    ));
    while i < items.len()
        invariant
            i <= items@.len(),
            components_view(out@) == components_view(old(out)@) + components_view(
                items@.subrange(0, i as int),
            ),
        decreases items@.len() - i,
    {
        let ghost before = components_view(out@);
        let ghost added = (items@[i as int].type_path@, items@[i as int].ron@);
        out.push(
            ReflectedComponent { type_path: items[i].type_path.clone(), ron: items[i].ron.clone() },
        );
        assert(components_view(out@) =~= before.push(added));
        assert(components_view(items@.subrange(0, i + 1)) =~= components_view(
            items@.subrange(0, i as int),
        ).push(added));
        assert(components_view(out@) =~= components_view(old(out)@) + components_view(
            items@.subrange(0, i + 1),
        ));
        i += 1;
    }
    assert(items@.subrange(0, i as int) =~= items@);
}

/// Works on the nodes `extras`, one after the other, and gathers their
/// components in `entity_components`.
fn gather(extras: &Vec<GltfExtra>, type_registry: &TypeRegistry, entity_components: &mut EntityComponents)
    ensures
        gathered(*final(entity_components)) == gathered_onto(
            *type_registry,
            gathered(*old(entity_components)),
            extras@,
        ),
{
    let mut i: usize = 0;
    assert(extras@.subrange(0, 0) =~= Seq::<GltfExtra>::empty());
    while i < extras.len()
        invariant
            i <= extras@.len(),
            gathered(*entity_components) == gathered_onto(
                *type_registry,
                gathered(*old(entity_components)),
                extras@.subrange(0, i as int),
            ),
        decreases extras@.len() - i,
    {
        proof {
            let grown = extras@.subrange(0, i + 1);
            assert(grown.drop_last() =~= extras@.subrange(0, i as int));
            assert(grown.last() == extras@[i as int]);
        }
        if !extras[i].processed {
            let reflect_components = ronstring_to_reflect_component(
                extras[i].value.as_str(),
                type_registry,
            );
            let (target, updated) = find_entity_components(
                extras[i].entity,
                &extras[i].name,
                extras[i].parent,
                reflect_components,
                entity_components,
            );
            entity_components.put(target, updated);
        }
        i += 1;
    }
    assert(extras@.subrange(0, i as int) =~= extras@);
}

/// What is gathered from the four kinds of attributes of the nodes of a
/// scene, worked on in this order: those of nodes, of scenes, of meshes, of
/// materials.
pub open spec fn gathered_from(
    registry: TypeRegistry,
    extras: Seq<GltfExtra>,
    scene_extras: Seq<GltfExtra>,
    mesh_extras: Seq<GltfExtra>,
    material_extras: Seq<GltfExtra>,
) -> Map<Entity, Seq<ComponentView>> {
    gathered_onto(
        registry,
        gathered_onto(
            registry,
            gathered_onto(registry, gathered_onto(registry, Map::empty(), extras), scene_extras),
            mesh_extras,
        ),
        material_extras,
    )
}

/// Turns the attributes of scene nodes into components. The four lists hold
/// the attributes of nodes, scenes, meshes and materials; they are worked on
/// in this order, each in its own. The result names each entity that
/// receives components once, with all its components in the order in which
/// they were found, so that of two components of one type the later one
/// prevails when they are inserted in turn. Each entity that is named is to
/// be marked as processed.
pub fn add_components_from_gltf_extras(
    extras: &Vec<GltfExtra>,
    scene_extras: &Vec<GltfExtra>,
    mesh_extras: &Vec<GltfExtra>,
    material_extras: &Vec<GltfExtra>,
    type_registry: &TypeRegistry,
) -> (r: Vec<(Entity, Vec<ReflectedComponent>)>)
    ensures
        lists_components(
            r@,
            gathered_from(
                *type_registry,
                extras@,
                scene_extras@,
                mesh_extras@,
                material_extras@,
            ),
        ),
{
    let mut entity_components = EntityComponents::new();
    gather(extras, type_registry, &mut entity_components);
    gather(scene_extras, type_registry, &mut entity_components);
    gather(mesh_extras, type_registry, &mut entity_components);
    gather(material_extras, type_registry, &mut entity_components);
    entity_components.into_entries()
}

/// Working again on nodes that were worked on before gathers nothing.
pub proof fn law_processed_nodes_give_nothing(
    registry: TypeRegistry,
    start: Map<Entity, Seq<ComponentView>>,
    extras: Seq<GltfExtra>,
)
    requires
        forall|i: int| 0 <= i < extras.len() ==> (#[trigger] extras[i]).processed,
    ensures
        gathered_onto(registry, start, extras) == start,
    decreases extras.len(),
{
    if extras.len() > 0 {
        law_processed_nodes_give_nothing(registry, start, extras.drop_last());
    }
}

} // verus!
