//! Injection of named materials into the children of an entity.
use crate::text::{join, same_text};
use crate::Entity;
use vstd::prelude::*;

verus! {

/// Identity of a material in the engine.
pub type MaterialId = u64;

/// The materials that were looked up already, each under the key made of the
/// path of its asset, `#`, and its name. Under one key the oldest entry counts.
#[derive(Debug)]
pub struct BlenvyMaterialConfig {
    pub materials_cache: Vec<(String, MaterialId)>,
}

/// The materials that the children of an entity are to get: the first for
/// the first child, the second for the second, and so on.
#[derive(Clone, Debug)]
pub struct MaterialInfos(pub Vec<MaterialInfo>);

/// A material by the path of its asset and its name in it.
#[derive(Clone, Debug)]
pub struct MaterialInfo {
    pub path: String,
    pub name: String,
}

/// What the asset of a material says of it.
#[derive(Clone, Copy, Debug, PartialEq, Eq, Structural)]
pub enum MaterialLookup {
    Found(MaterialId),
    /// The asset is loaded and has no material of that name.
    MissingMaterial,
    /// The asset is not loaded.
    AssetNotLoaded,
}

/// A child of the entity whose materials are injected.
#[derive(Clone, Copy, Debug, PartialEq, Eq, Structural)]
pub struct MaterialTarget {
    pub entity: Entity,
    /// The child has a mesh and a material to replace.
    pub has_mesh_and_material: bool,
}

/// What the injection asks of the engine, or reports.
#[derive(Clone, Copy, Debug, PartialEq, Eq, Structural)]
pub enum MaterialAction {
    /// Give `entity` the material `material`.
    SetMaterial { entity: Entity, material: MaterialId },
    /// The material at place `index` is not in its asset.
    ReportMissingMaterial { index: usize },
    /// The asset of the material at place `index` is not loaded.
    ReportAssetNotLoaded { index: usize },
    /// Mark `entity` as done, so that it is not worked on again.
    MarkProcessed { entity: Entity },
}

/// The key of a material in the cache.
pub open spec fn material_key(path: Seq<char>, name: Seq<char>) -> Seq<char> {
    path + seq!['#'] + name
}

/// The entries of a cache, each key as its text.
pub open spec fn cache_entries(cache: Seq<(String, MaterialId)>) -> Seq<(Seq<char>, MaterialId)> {
    cache.map_values(|e: (String, MaterialId)| (e.0@, e.1))
}

/// The material that `entries` hold under `key`.
pub open spec fn cached(entries: Seq<(Seq<char>, MaterialId)>, key: Seq<char>) -> Option<
    MaterialId,
>
    decreases entries.len(),
{
    if entries.len() == 0 {
        None
    } else if entries[0].0 == key {
        Some(entries[0].1)
    } else {
        cached(entries.drop_first(), key)
    }
}

/// The lookup given for the material at place `index`; a material without
/// one counts as one whose asset is not loaded.
pub open spec fn lookup_at(lookups: Seq<MaterialLookup>, index: int) -> MaterialLookup {
    if 0 <= index < lookups.len() {
        lookups[index]
    } else {
        MaterialLookup::AssetNotLoaded
    }
}

/// The cache after the first `count` materials were worked on: each
/// material that was found in its asset, and not in the cache, is added.
pub open spec fn cache_after(
    entries: Seq<(Seq<char>, MaterialId)>,
    infos: Seq<MaterialInfo>,
    lookups: Seq<MaterialLookup>,
    count: nat,
) -> Seq<(Seq<char>, MaterialId)>
    decreases count,
{
    if count == 0 {
        entries
    } else {
        let before = cache_after(entries, infos, lookups, (count - 1) as nat);
        let info = infos[count - 1];
        let key = material_key(info.path@, info.name@);
        match (cached(before, key), lookup_at(lookups, count - 1)) {
            (None, MaterialLookup::Found(material)) => before.push((key, material)),
            _ => before,
        }
    }
}

/// What the material at place `index` asks for: the child at the same place
/// gets it, if it was found and the child has a mesh and a material; a
/// material that was not found is reported.
pub open spec fn material_actions(
    entries: Seq<(Seq<char>, MaterialId)>,
    infos: Seq<MaterialInfo>,
    lookups: Seq<MaterialLookup>,
    children: Seq<MaterialTarget>,
    index: int,
) -> Seq<MaterialAction> {
    let before = cache_after(entries, infos, lookups, index as nat);
    let key = material_key(infos[index].path@, infos[index].name@);
    let found = match cached(before, key) {
        Some(material) => Some(material),
        None => match lookup_at(lookups, index) {
            MaterialLookup::Found(material) => Some(material),
            _ => None,
        },
    };
    match found {
        Some(material) => if index < children.len() && children[index].has_mesh_and_material {
            seq![MaterialAction::SetMaterial { entity: children[index].entity, material }]
        } else {
            Seq::empty()
        },
        None => match lookup_at(lookups, index) {
            MaterialLookup::MissingMaterial => seq![
                MaterialAction::ReportMissingMaterial { index: index as usize },
            ],
            _ => seq![MaterialAction::ReportAssetNotLoaded { index: index as usize }],
        },
    }
}

/// What the first `count` materials ask for, in their order.
pub open spec fn injection_actions(
    entries: Seq<(Seq<char>, MaterialId)>,
    infos: Seq<MaterialInfo>,
    lookups: Seq<MaterialLookup>,
    children: Seq<MaterialTarget>,
    count: nat,
) -> Seq<MaterialAction>
    decreases count,
{
    if count == 0 {
        Seq::empty()
    } else {
        injection_actions(entries, infos, lookups, children, (count - 1) as nat) + material_actions(
            entries,
            infos,
            lookups,
            children,
            count - 1,
        )
    }
}

impl BlenvyMaterialConfig {
    /// The entries of the cache, oldest first.
    pub open spec fn entries(self) -> Seq<(Seq<char>, MaterialId)> {
        cache_entries(self.materials_cache@)
    }

    /// A cache without entries.
    pub fn new() -> (r: BlenvyMaterialConfig)
        ensures
            r.entries() == Seq::<(Seq<char>, MaterialId)>::empty(),
    {
        BlenvyMaterialConfig { materials_cache: Vec::new() }
    }

    /// The material that the cache holds under `key`.
    pub fn get(&self, key: &str) -> (r: Option<MaterialId>)
        ensures
            r == cached(self.entries(), key@),
    {
        let n = self.materials_cache.len();
        let mut i: usize = 0;
        assert(self.entries().subrange(0, n as int) =~= self.entries());
        while i < n
            invariant
                n == self.materials_cache@.len(),
                i <= n,
                cached(self.entries(), key@) == cached(
                    self.entries().subrange(i as int, n as int),
                    key@,
                ),
            decreases n - i,
        {
            assert(self.entries().subrange(i as int, n as int)[0] == self.entries()[i as int]);
            if same_text(self.materials_cache[i].0.as_str(), key) {
                return Some(self.materials_cache[i].1);
            }
            assert(self.entries().subrange(i as int, n as int).drop_first()
                =~= self.entries().subrange(i + 1, n as int));
            i += 1;
        }
        None
    }
}

/// The key of a material in the cache.
pub fn material_full_path(info: &MaterialInfo) -> (r: String)
    ensures
        r@ == material_key(info.path@, info.name@),
{
    let mut key = join(info.path.as_str(), "#");
    proof {
        reveal_strlit("#");
        assert("#"@ =~= seq!['#']);
    }
    key.append(info.name.as_str());
    key
}

/// Gives the children of `entity` the materials that `material_infos` name:
/// the material at place `i` is for the child at place `i`, and only for a
/// child that has a mesh and a material already. A material is taken from the
/// cache, or else from `lookups`, where `lookups[i]` is what the asset of the
/// material at place `i` says; one that is found there is added to the
/// cache. A material that cannot be found is reported and left out. In the
/// end the entity is marked as done. An entity that is marked so already is
/// left alone.
pub fn inject_materials(
    blenvy_config: &mut BlenvyMaterialConfig,
    entity: Entity,
    processed: bool,
    material_infos: &MaterialInfos,
    lookups: &Vec<MaterialLookup>,
    children: &Vec<MaterialTarget>,
) -> (r: Vec<MaterialAction>)
    ensures
        processed ==> r@.len() == 0 && *final(blenvy_config) == *old(blenvy_config),
        !processed ==> {
            &&& final(blenvy_config).entries() == cache_after(
                old(blenvy_config).entries(),
                material_infos.0@,
                lookups@,
                material_infos.0@.len(),
            )
            &&& r@ == injection_actions(
                old(blenvy_config).entries(),
                material_infos.0@,
                lookups@,
                children@,
                material_infos.0@.len(),
            ) + seq![MaterialAction::MarkProcessed { entity }]
        },
{
    let mut actions: Vec<MaterialAction> = Vec::new();
    if processed {
        return actions;
    }
    let infos = &material_infos.0;
    let mut i: usize = 0;
    while i < infos.len()
        invariant
            i <= infos@.len(),
            infos@ == material_infos.0@,
            blenvy_config.entries() == cache_after(
                old(blenvy_config).entries(),
                infos@,
                lookups@,
                i as nat,
            ),
            actions@ == injection_actions(
                old(blenvy_config).entries(),
                infos@,
                lookups@,
                children@,
                i as nat,
            ),
        decreases infos@.len() - i,
    {
        let key = material_full_path(&infos[i]);
        let lookup = if i < lookups.len() {
            lookups[i]
        } else {
            MaterialLookup::AssetNotLoaded
        };
        let ghost before = actions@;
        let found = match blenvy_config.get(key.as_str()) {
            Some(material) => Some(material),
            None => match lookup {
                MaterialLookup::Found(material) => {
                    let ghost entries = blenvy_config.entries();
                    blenvy_config.materials_cache.push((key, material));
                    assert(blenvy_config.entries() =~= entries.push((key@, material)));
                    Some(material)
                },
                MaterialLookup::MissingMaterial => {
                    actions.push(MaterialAction::ReportMissingMaterial { index: i });
                    None
                },
                MaterialLookup::AssetNotLoaded => {
                    actions.push(MaterialAction::ReportAssetNotLoaded { index: i });
                    None
                },
            },
        };
        match found {
            Some(material) => {
                if i < children.len() && children[i].has_mesh_and_material {
                    actions.push(
                        MaterialAction::SetMaterial { entity: children[i].entity, material },
                    );
                }
            },
            None => {},
        }
        assert(actions@ =~= before + material_actions(
            old(blenvy_config).entries(),
            infos@,
            lookups@,
            children@,
            i as int,
        ));
        i += 1;
    }
    actions.push(MaterialAction::MarkProcessed { entity });
    actions
}

/// A material goes only to the child at its own place, and only to a child
/// that has a mesh and a material already: whatever the injection sets, it
/// sets on such a child.
pub proof fn law_materials_go_to_their_own_child(
    entries: Seq<(Seq<char>, MaterialId)>,
    infos: Seq<MaterialInfo>,
    lookups: Seq<MaterialLookup>,
    children: Seq<MaterialTarget>,
    count: nat,
    entity: Entity,
    material: MaterialId,
)
    requires
        count <= infos.len(),
        injection_actions(entries, infos, lookups, children, count).contains(
            MaterialAction::SetMaterial { entity, material },
        ),
    ensures
        exists|i: int|
            0 <= i < count && i < children.len() && (#[trigger] children[i]).entity == entity
                && children[i].has_mesh_and_material,
    decreases count,
{
    let set = MaterialAction::SetMaterial { entity, material };
    let all = injection_actions(entries, infos, lookups, children, count);
    if count > 0 {
        let before = injection_actions(entries, infos, lookups, children, (count - 1) as nat);
        let last = material_actions(entries, infos, lookups, children, count - 1);
        let at = choose|k: int| 0 <= k < all.len() && all[k] == set;
        if at < before.len() {
            assert(before[at] == set);
            law_materials_go_to_their_own_child(
                entries,
                infos,
                lookups,
                children,
                (count - 1) as nat,
                entity,
                material,
            );
        } else {
            assert(last[at - before.len()] == set);
            assert(children[count - 1].entity == entity);
        }
    }
}

} // verus!
