//! The spawn pipeline: what each stage does to a blueprint instance, and what
//! it asks of the engine.
use crate::blueprints::assets::{
    all_done, not_loaded, polled, tracks, AssetId, AssetLoadTracker, AssetProbe,
    BlueprintAssetsLoadState, LoadStatus,
};
use crate::blueprints::hot_reload::{registered, AssetToBlueprintInstancesMapper};
use crate::blueprints::info::{metadata_path_of, BlueprintInfo};
use crate::blueprints::stages::{Marker, SpawnStage, StageEvent};
use crate::blueprints::sub_blueprints::{all_ready, SubBlueprintsSpawnTracker};
use crate::hierarchy::Hierarchy;
use crate::Entity;
use vstd::prelude::*;

verus! {

/// Whether an entity shows.
#[derive(Clone, Copy, Debug, PartialEq, Eq, Structural)]
pub enum Visibility {
    Inherited,
    Hidden,
    Visible,
}

/// What the pipeline tells its listeners.
#[derive(Clone, Debug)]
pub enum BlueprintEvent {
    /// Every asset of the instance is loaded; its scene is not spawned yet.
    AssetsLoaded { entity: Entity, blueprint_name: String, blueprint_path: String },
    /// The instance has finished spawning, its nested instances included.
    InstanceReady { entity: Entity, blueprint_name: String, blueprint_path: String },
}

/// What the pipeline asks of the engine.
#[derive(Clone, Copy, Debug, PartialEq, Eq, Structural)]
pub enum SpawnCommand {
    /// Give the entity the name of its blueprint.
    NameAfterBlueprint { entity: Entity },
    SetVisibility { entity: Entity, visibility: Visibility },
    /// Make `child` the last child of `parent`.
    AddChild { parent: Entity, child: Entity },
    /// Ask the loader for the content of the metadata file of the entity's blueprint.
    LoadMetadata { entity: Entity },
    /// Record `root` as the instance in which the instance `entity` is nested.
    SetSpawnRoot { entity: Entity, root: Entity },
    Insert { entity: Entity, marker: Marker },
    Remove { entity: Entity, marker: Marker },
    /// Copy the components of `source` onto `destination`, but for its place
    /// in the scene graph; what `destination` has already gives way.
    CopyComponents { source: Entity, destination: Entity },
    /// Let `entity` control the animations that `player` plays, and give the
    /// player the animation graph of `entity`.
    LinkAnimationPlayer { entity: Entity, player: Entity },
    /// Record `infos` as the entity that holds the animation metadata of `entity`.
    LinkAnimationInfos { entity: Entity, infos: Entity },
    /// Let `entity` control the animations that `player` plays, and give it a
    /// copy of the animations of the instance `owner`.
    LinkInstanceAnimationPlayer { entity: Entity, player: Entity, owner: Entity },
    /// Record `infos` as the ancestor that holds animation metadata for `entity`.
    LinkInstanceAnimationInfos { entity: Entity, infos: Entity },
    /// Remove the entity and all its descendants.
    DespawnRecursive { entity: Entity },
}

/// Why a stage could not do its work.
#[derive(Clone, Copy, Debug, PartialEq, Eq, Structural)]
pub enum SpawnError {
    /// The scene asset of the blueprint is not there, or it names no scene.
    NoScene,
}

/// What the pipeline knows of one entity that carries a blueprint reference.
pub struct BlueprintInstance {
    pub entity: Entity,
    pub info: BlueprintInfo,
    pub stage: SpawnStage,
    /// Hide the instance until it is ready, if it has no parent when claimed.
    pub hide_until_ready: bool,
    /// Add the instance to the game world, if it has no parent when claimed.
    pub add_to_world: bool,
    /// The assets that the current stage waits for.
    pub assets: Option<BlueprintAssetsLoadState>,
    /// The children that the entity had before its scene was spawned.
    pub original_children: Option<Vec<Entity>>,
    /// The readiness of the instances nested in this one.
    pub sub_blueprints: Option<SubBlueprintsSpawnTracker>,
    /// The instance in which this one is nested.
    pub spawn_root: Option<Entity>,
    /// The pipeline has hidden the instance until it is ready.
    pub hidden: bool,
    /// The visibility that the entity had before the pipeline hid it.
    pub original_visibility: Option<Visibility>,
    /// The visibility of the entity, as the pipeline saw or set it last.
    pub visibility: Option<Visibility>,
}

impl BlueprintInstance {
    /// What holds of an instance between any two steps of the pipeline.
    pub open spec fn wf(self) -> bool {
        &&& self.assets is Some <==> (self.stage == SpawnStage::MetaLoading || self.stage
            == SpawnStage::AssetsNotLoaded)
        &&& self.stage == SpawnStage::AssetsNotLoaded ==> self.assets.unwrap().asset_infos@.len() > 0
        &&& self.assets matches Some(state) ==> !state.all_loaded
        &&& self.original_children is Some <==> (self.stage == SpawnStage::SceneRequested
            || self.stage == SpawnStage::SceneSpawned || self.stage == SpawnStage::ChildrenReady)
        &&& self.stage.rank() < SpawnStage::SceneSpawned.rank() ==> self.sub_blueprints is None
        &&& self.stage == SpawnStage::SceneSpawned ==> self.sub_blueprints is Some
        &&& self.sub_blueprints matches Some(tracker) ==> (all_ready(tracker.entries())
            <==> self.stage.rank() >= SpawnStage::ChildrenReady.rank())
        &&& self.hidden ==> self.hide_until_ready && self.stage.in_flight() && self.visibility
            == Some(Visibility::Hidden)
    }

    /// The instance is as `other` but for its stage and what its stages keep.
    pub open spec fn same_request(self, other: BlueprintInstance) -> bool {
        &&& self.entity == other.entity
        &&& self.info == other.info
        &&& self.hide_until_ready == other.hide_until_ready
        &&& self.add_to_world == other.add_to_world
    }

    /// What a step must not touch unless it says so: the links and the
    /// visibility of the instance.
    pub open spec fn same_links(self, other: BlueprintInstance) -> bool {
        &&& self.spawn_root == other.spawn_root
        &&& self.hidden == other.hidden
        &&& self.original_visibility == other.original_visibility
        &&& self.visibility == other.visibility
    }

    /// An entity with a blueprint reference for which no spawn was asked.
    pub fn new(entity: Entity, info: BlueprintInfo) -> (r: BlueprintInstance)
        ensures
            r.wf(),
            r.entity == entity,
            r.info == info,
            r.stage == SpawnStage::Idle,
            !r.hide_until_ready && !r.add_to_world && !r.hidden,
            r.visibility is None && r.original_visibility is None && r.spawn_root is None,
            r.assets is None && r.original_children is None && r.sub_blueprints is None,
    {
        BlueprintInstance {
            entity,
            info,
            stage: SpawnStage::Idle,
            hide_until_ready: false,
            add_to_world: false,
            assets: None,
            original_children: None,
            sub_blueprints: None,
            spawn_root: None,
            hidden: false,
            original_visibility: None,
            visibility: None,
        }
    }

    /// Asks for the spawn of the blueprint. An instance for which that was
    /// asked already is left alone.
    pub fn request_spawn(&mut self)
        requires
            old(self).wf(),
        ensures
            final(self).wf(),
            final(self).stage == old(self).stage.next(StageEvent::SpawnRequested),
            *final(self) == (BlueprintInstance { stage: final(self).stage, ..*old(self) }),
    {
        if self.stage == SpawnStage::Idle {
            self.stage = SpawnStage::Requested;
        }
    }

    /// An entity with a blueprint reference and a request to spawn it.
    pub fn requested(
        entity: Entity,
        info: BlueprintInfo,
        hide_until_ready: bool,
        add_to_world: bool,
    ) -> (r: BlueprintInstance)
        ensures
            r.wf(),
            r.entity == entity,
            r.info == info,
            r.stage == SpawnStage::Requested,
            r.hide_until_ready == hide_until_ready,
            r.add_to_world == add_to_world,
            !r.hidden,
            r.visibility is None,
            r.original_visibility is None,
            r.spawn_root is None,
            r.assets is None,
            r.original_children is None,
            r.sub_blueprints is None,
    {
        BlueprintInstance {
            entity,
            info,
            stage: SpawnStage::Requested,
            hide_until_ready,
            add_to_world,
            assets: None,
            original_children: None,
            sub_blueprints: None,
            spawn_root: None,
            hidden: false,
            original_visibility: None,
            visibility: None,
        }
    }
}

/// What the engine knows of an entity when its request is claimed.
#[derive(Clone, Copy, Debug)]
pub struct ClaimContext {
    pub has_name: bool,
    pub has_parent: bool,
    pub visibility: Option<Visibility>,
}

/// The request cannot be claimed: the instance asks for the game world, has
/// no parent, and `world_roots` is not exactly one entity. This is a fault
/// of the setup, to which the pipeline has no answer.
pub open spec fn claim_fails(
    instance: BlueprintInstance,
    context: ClaimContext,
    world_roots: Seq<Entity>,
) -> bool {
    !context.has_parent && instance.add_to_world && world_roots.len() != 1
}

/// The instance is to be hidden at its claim.
pub open spec fn hides_at_claim(instance: BlueprintInstance, context: ClaimContext) -> bool {
    !context.has_parent && instance.hide_until_ready
}

/// What the claim of a request asks of the engine.
pub open spec fn claim_commands(
    instance: BlueprintInstance,
    context: ClaimContext,
    world_roots: Seq<Entity>,
) -> Seq<SpawnCommand> {
    let entity = instance.entity;
    let naming = if context.has_name {
        Seq::<SpawnCommand>::empty()
    } else {
        seq![SpawnCommand::NameAfterBlueprint { entity }]
    };
    let hiding = if hides_at_claim(instance, context) {
        seq![SpawnCommand::SetVisibility { entity, visibility: Visibility::Hidden }]
    } else {
        Seq::<SpawnCommand>::empty()
    };
    let adopting = if !context.has_parent && instance.add_to_world {
        seq![SpawnCommand::AddChild { parent: world_roots[0], child: entity }]
    } else {
        Seq::<SpawnCommand>::empty()
    };
    naming + hiding + adopting
}

impl BlueprintInstance {
    /// Whether the request cannot be claimed, for want of exactly one game
    /// world.
    pub fn cannot_be_claimed(&self, context: ClaimContext, world_roots: &Vec<Entity>) -> (r: bool)
        ensures
            r == claim_fails(*self, context, world_roots@),
    {
        !context.has_parent && self.add_to_world && world_roots.len() != 1
    }

    /// First stage: claims a spawn request. The metadata file of the blueprint
    /// was asked of the loader, which knows it as `metadata_asset`; the
    /// instance now waits for it. An entity without a name is named after its
    /// blueprint. An instance without a parent is hidden, if it asks for that,
    /// its visibility saved, and is added to the game world, if it asks for
    /// that. An instance at another stage is left alone. An instance that asks
    /// for the game world is claimed only where there is exactly one.
    pub fn blueprints_prepare_metadata_file_for_spawn(
        &mut self,
        context: ClaimContext,
        world_roots: &Vec<Entity>,
        metadata_asset: AssetId,
    ) -> (r: Vec<SpawnCommand>)
        requires
            old(self).wf(),
            old(self).stage == SpawnStage::Requested ==> !claim_fails(
                *old(self),
                context,
                world_roots@,
            ),
        ensures
            final(self).wf(),
            final(self).same_request(*old(self)),
            old(self).stage != SpawnStage::Requested ==> *final(self) == *old(self) && r@.len()
                == 0,
            old(self).stage == SpawnStage::Requested ==> {
                &&& r@ == claim_commands(*old(self), context, world_roots@)
                &&& final(self).stage == old(self).stage.next(StageEvent::Claimed)
                &&& final(self).assets matches Some(state)
                &&& !state.all_loaded
                &&& state.loaded_amount == 0
                &&& state.asset_infos@.len() == 1
                &&& state.asset_infos@[0].name@ == metadata_path_of(old(self).info.path@)
                &&& state.asset_infos@[0].path@ == metadata_path_of(old(self).info.path@)
                &&& state.asset_infos@[0].id == metadata_asset
                &&& !state.asset_infos@[0].loaded
                &&& final(self).hidden == hides_at_claim(*old(self), context)
                &&& final(self).original_visibility == if hides_at_claim(*old(self), context)
                    && context.visibility is Some {
                    context.visibility
                } else {
                    old(self).original_visibility
                }
                &&& final(self).visibility == if hides_at_claim(*old(self), context) {
                    Some(Visibility::Hidden)
                } else {
                    context.visibility
                }
                &&& final(self).spawn_root == old(self).spawn_root
                &&& final(self).original_children is None
                &&& final(self).sub_blueprints is None
                &&& forall|of_source: spec_fn(Entity) -> Option<Visibility>|
                    #[trigger] visibility_after(
                        context.visibility,
                        of_source,
                        old(self).entity,
                        r@,
                    ) == final(self).visibility
            },
    {
        let mut commands: Vec<SpawnCommand> = Vec::new();
        if !(self.stage == SpawnStage::Requested) {
            return commands;
        }
        let metadata_path = self.info.metadata_path();
        let mut asset_infos: Vec<AssetLoadTracker> = Vec::new();
        asset_infos.push(
            AssetLoadTracker {
                name: metadata_path.clone(),
                path: metadata_path,
                id: metadata_asset,
                loaded: false,
            },
        );
        self.assets = Some(
            BlueprintAssetsLoadState { all_loaded: false, asset_infos, loaded_amount: 0 },
        );
        self.stage = SpawnStage::MetaLoading;
        self.visibility = context.visibility;
        if !context.has_name {
            commands.push(SpawnCommand::NameAfterBlueprint { entity: self.entity });
        }
        if !context.has_parent {
            if self.hide_until_ready {
                if context.visibility.is_some() {
                    self.original_visibility = context.visibility;
                }
                self.visibility = Some(Visibility::Hidden);
                self.hidden = true;
                commands.push(
                    SpawnCommand::SetVisibility {
                        entity: self.entity,
                        visibility: Visibility::Hidden,
                    },
                );
            }
            if self.add_to_world {
                commands.push(
                    SpawnCommand::AddChild { parent: world_roots[0], child: self.entity },
                );
            }
        }
        assert(commands@ =~= claim_commands(*old(self), context, world_roots@));
        proof {
            let entity = self.entity;
            assert forall|of_source: spec_fn(Entity) -> Option<Visibility>|
                #[trigger] visibility_after(context.visibility, of_source, entity, commands@)
                    == self.visibility by {
                reveal_with_fuel(visibility_after, 4);
                if commands@.len() > 0 {
                    let one = commands@.drop_last();
                    if one.len() > 0 {
                        let two = one.drop_last();
                        if two.len() > 0 {
                            assert(two.drop_last() =~= Seq::<SpawnCommand>::empty());
                        }
                    }
                }
            }
        }
        commands
    }
}

/// The instance `after` still waits for the assets that `before` waited for,
/// and has taken over from `statuses` what the loader says of each.
pub open spec fn still_waiting(
    before: BlueprintInstance,
    after: BlueprintInstance,
    statuses: Seq<LoadStatus>,
) -> bool {
    &&& before.assets matches Some(waited)
    &&& after.assets matches Some(state)
    &&& polled(waited, state, statuses)
}

/// The number of assets that an instance waits for.
pub open spec fn awaited(instance: BlueprintInstance) -> nat {
    match instance.assets {
        Some(state) => state.asset_infos@.len(),
        None => 0,
    }
}

/// The assets of a blueprint as they are listed for loading: the scene of the
/// blueprint itself, followed by the assets that its metadata names.
pub open spec fn listed_assets(
    info: BlueprintInfo,
    root_asset: AssetId,
    root_loaded: bool,
    metadata: Option<Vec<AssetProbe>>,
) -> Seq<AssetProbe> {
    let root = AssetProbe { name: info.name, path: info.path, id: root_asset, loaded: root_loaded };
    match metadata {
        Some(assets) => seq![root] + assets@,
        None => seq![root],
    }
}

/// The registrations after `entity` was registered for the path of each of
/// `assets`, in their order.
pub open spec fn registered_assets(
    before: Seq<(Seq<char>, Entity)>,
    assets: Seq<AssetProbe>,
    entity: Entity,
) -> Seq<(Seq<char>, Entity)>
    decreases assets.len(),
{
    if assets.len() == 0 {
        before
    } else {
        registered(registered_assets(before, assets.drop_last(), entity), assets.last().path@, entity)
    }
}

/// The registrations after an instance was registered for the assets that
/// its metadata names and then for its own blueprint.
pub open spec fn registered_instance(
    before: Seq<(Seq<char>, Entity)>,
    metadata: Option<Vec<AssetProbe>>,
    info: BlueprintInfo,
    entity: Entity,
) -> Seq<(Seq<char>, Entity)> {
    let assets = match metadata {
        Some(assets) => assets@,
        None => Seq::empty(),
    };
    registered(registered_assets(before, assets, entity), info.path@, entity)
}

impl BlueprintInstance {
    /// Second stage: polls the load of the metadata file. `statuses` holds
    /// what the loader says of each asset that the instance waits for. Once
    /// the loader is done with the file, with or without success, the tracker
    /// is dropped and the content of the file is asked for.
    pub fn blueprints_check_assets_metadata_files_loading(
        &mut self,
        statuses: &Vec<LoadStatus>,
    ) -> (r: Vec<SpawnCommand>)
        requires
            old(self).wf(),
        ensures
            final(self).wf(),
            final(self).same_request(*old(self)),
            final(self).same_links(*old(self)),
            old(self).stage != SpawnStage::MetaLoading ==> *final(self) == *old(self) && r@.len()
                == 0,
            old(self).stage == SpawnStage::MetaLoading ==> {
                let done = all_done(statuses@, awaited(*old(self)));
                &&& final(self).stage == old(self).stage.next(StageEvent::MetadataPolled { done })
                &&& done ==> final(self).assets is None && r@ == seq![
                    SpawnCommand::LoadMetadata { entity: old(self).entity },
                ]
                &&& !done ==> r@.len() == 0 && still_waiting(*old(self), *final(self), statuses@)
            },
    {
        let mut commands: Vec<SpawnCommand> = Vec::new();
        if !(self.stage == SpawnStage::MetaLoading) {
            return commands;
        }
        let mut state = self.assets.take().unwrap();
        let done = state.poll(statuses);
        if done {
            self.stage = SpawnStage::MetaLoaded;
            commands.push(SpawnCommand::LoadMetadata { entity: self.entity });
        } else {
            self.assets = Some(state);
        }
        commands
    }

    /// Fourth stage: polls the loads of the assets. `statuses` holds what the
    /// loader says of each asset that the instance waits for. Once the loader
    /// is done with all of them, with or without success, the tracker is
    /// dropped and the listeners are told that the assets are loaded.
    pub fn blueprints_check_assets_loading(&mut self, statuses: &Vec<LoadStatus>) -> (r: Option<
        BlueprintEvent,
    >)
        requires
            old(self).wf(),
        ensures
            final(self).wf(),
            final(self).same_request(*old(self)),
            final(self).same_links(*old(self)),
            old(self).stage != SpawnStage::AssetsNotLoaded ==> *final(self) == *old(self) && r
                is None,
            old(self).stage == SpawnStage::AssetsNotLoaded ==> {
                let done = all_done(statuses@, awaited(*old(self)));
                &&& final(self).stage == old(self).stage.next(StageEvent::AssetsPolled { done })
                &&& r is Some <==> done
                &&& done ==> final(self).assets is None
                &&& !done ==> still_waiting(*old(self), *final(self), statuses@)
                &&& r matches Some(event) ==> is_assets_loaded_event(event, *old(self))
            },
    {
        if !(self.stage == SpawnStage::AssetsNotLoaded) {
            return None;
        }
        let mut state = self.assets.take().unwrap();
        let done = state.poll(statuses);
        if done {
            self.stage = SpawnStage::AssetsLoaded;
            Some(
                BlueprintEvent::AssetsLoaded {
                    entity: self.entity,
                    blueprint_name: self.info.name.clone(),
                    blueprint_path: self.info.path.clone(),
                },
            )
        } else {
            self.assets = Some(state);
            None
        }
    }
}

/// `event` says that the assets of `instance` are loaded.
pub open spec fn is_assets_loaded_event(event: BlueprintEvent, instance: BlueprintInstance) -> bool {
    event matches BlueprintEvent::AssetsLoaded { entity, blueprint_name, blueprint_path }
        && entity == instance.entity && blueprint_name@ == instance.info.name@ && blueprint_path@
        == instance.info.path@
}

/// `event` says that `instance` is ready.
pub open spec fn is_instance_ready_event(event: BlueprintEvent, instance: BlueprintInstance) -> bool {
    event matches BlueprintEvent::InstanceReady { entity, blueprint_name, blueprint_path }
        && entity == instance.entity && blueprint_name@ == instance.info.name@ && blueprint_path@
        == instance.info.path@
}

impl BlueprintInstance {
    /// Third stage: lists the assets of the blueprint and starts to wait for
    /// those that are not loaded yet. The loader knows the scene of the
    /// blueprint as `root_asset`; `metadata` holds the assets that the
    /// metadata file names, or `None` where its content is not there. When
    /// nothing is left to load, the instance goes on at once. When changes to
    /// the asset files are watched, the instance is registered for each asset
    /// and for its blueprint. Returns whether the work was done with metadata.
    pub fn blueprints_prepare_spawn(
        &mut self,
        root_asset: AssetId,
        root_loaded: bool,
        metadata: &Option<Vec<AssetProbe>>,
        watching_for_changes: bool,
        mapper: &mut AssetToBlueprintInstancesMapper,
    ) -> (r: bool)
        requires
            old(self).wf(),
        ensures
            final(self).wf(),
            final(self).same_request(*old(self)),
            final(self).same_links(*old(self)),
            old(self).stage != SpawnStage::MetaLoaded ==> {
                &&& *final(self) == *old(self)
                &&& *final(mapper) == *old(mapper)
                &&& !r
            },
            old(self).stage == SpawnStage::MetaLoaded ==> {
                let listed = listed_assets(old(self).info, root_asset, root_loaded, *metadata);
                let pending = not_loaded(listed);
                &&& r == (*metadata is Some)
                &&& final(self).stage == old(self).stage.next(
                    StageEvent::AssetsEnumerated { pending: pending.len() as usize },
                )
                &&& pending.len() == 0 ==> final(self).assets is None
                &&& pending.len() > 0 ==> (final(self).assets matches Some(state) && tracks(
                    state.asset_infos@,
                    pending,
                ) && !state.all_loaded && state.loaded_amount == 0)
                &&& final(mapper).registrations() == if watching_for_changes {
                    registered_instance(
                        old(mapper).registrations(),
                        *metadata,
                        old(self).info,
                        old(self).entity,
                    )
                } else {
                    old(mapper).registrations()
                }
            },
    {
        if !(self.stage == SpawnStage::MetaLoaded) {
            return false;
        }
        let mut probes: Vec<AssetProbe> = Vec::new();
        probes.push(
            AssetProbe {
                name: self.info.name.clone(),
                path: self.info.path.clone(),
                id: root_asset,
                loaded: root_loaded,
            },
        );
        let ghost root = probes@[0];
        assert(probes@ =~= seq![root]);
        let found = match metadata {
            Some(assets) => {
                let mut i: usize = 0;
                assert(probes@ =~= seq![root] + assets@.subrange(0, 0));
                while i < assets.len()
                    invariant
                        i <= assets@.len(),
                        probes@ == seq![root] + assets@.subrange(0, i as int),
                        watching_for_changes ==> mapper.registrations() == registered_assets(
                            old(mapper).registrations(),
                            assets@.subrange(0, i as int),
                            self.entity,
                        ),
                        !watching_for_changes ==> *mapper == *old(mapper),
                    decreases assets@.len() - i,
                {
                    probes.push(
                        AssetProbe {
                            name: assets[i].name.clone(),
                            path: assets[i].path.clone(),
                            id: assets[i].id,
                            loaded: assets[i].loaded,
                        },
                    );
                    if watching_for_changes {
                        mapper.register(assets[i].path.as_str(), self.entity);
                    }
                    proof {
                        let grown = assets@.subrange(0, i + 1);
                        assert(grown.drop_last() =~= assets@.subrange(0, i as int));
                        assert(grown.last() == assets@[i as int]);
                        assert(probes@ =~= seq![root] + grown);
                    }
                    i += 1;
                }
                assert(assets@.subrange(0, i as int) =~= assets@);
                true
            },
            None => false,
        };
        if watching_for_changes {
            mapper.register(self.info.path.as_str(), self.entity);
        }
        assert(probes@ =~= listed_assets(old(self).info, root_asset, root_loaded, *metadata));
        let state = BlueprintAssetsLoadState::waiting_for(&probes);
        if state.asset_infos.len() > 0 {
            self.assets = Some(state);
            self.stage = SpawnStage::AssetsNotLoaded;
        } else {
            self.stage = SpawnStage::AssetsLoaded;
        }
        found
    }
}

/// A copy of a list of entities.
pub fn copy_entities(items: &Vec<Entity>) -> (r: Vec<Entity>)
    ensures
        r@ == items@,
{
    let mut out: Vec<Entity> = Vec::new();
    crate::hierarchy::append_entities(&mut out, items);
    assert(Seq::<Entity>::empty() + items@ =~= items@);
    out
}

/// Whether `entity` is among `items`.
pub fn contains_entity(items: &Vec<Entity>, entity: Entity) -> (r: bool)
    ensures
        r == items@.contains(entity),
{
    let mut i: usize = 0;
    while i < items.len()
        invariant
            i <= items@.len(),
            forall|j: int| 0 <= j < i ==> items@[j] != entity,
        decreases items@.len() - i,
    {
        if items[i] == entity {
            return true;
        }
        i += 1;
    }
    false
}

impl BlueprintInstance {
    /// Fifth stage: asks for the scene of the blueprint. `named_scenes` holds
    /// the names of the scenes of the loaded asset in the order in which the
    /// asset lists them, or `None` where the asset is not there. The first
    /// scene is the one to spawn, whatever its name. The children that the
    /// entity has now are kept, to tell them from those that the scene brings.
    /// Returns the name of the scene to spawn.
    pub fn blueprints_assets_loaded(
        &mut self,
        named_scenes: &Option<Vec<String>>,
        children: &Vec<Entity>,
    ) -> (r: Result<Option<String>, SpawnError>)
        requires
            old(self).wf(),
        ensures
            final(self).wf(),
            final(self).same_request(*old(self)),
            final(self).same_links(*old(self)),
            old(self).stage != SpawnStage::AssetsLoaded ==> *final(self) == *old(self) && r == Ok::<
                Option<String>,
                SpawnError,
            >(None),
            old(self).stage == SpawnStage::AssetsLoaded ==> {
                let no_scene = *named_scenes matches Some(names) ==> names@.len() == 0;
                &&& r is Err <==> no_scene
                &&& r matches Err(e) ==> (e == SpawnError::NoScene && *final(self) == *old(self))
                &&& r matches Ok(chosen) ==> {
                    &&& chosen matches Some(name)
                    &&& name@ == named_scenes.unwrap()@[0]@
                    &&& final(self).stage == old(self).stage.next(StageEvent::SceneRequested)
                    &&& final(self).original_children matches Some(kept)
                    &&& kept@ == children@
                }
            },
    {
        if !(self.stage == SpawnStage::AssetsLoaded) {
            return Ok(None);
        }
        match named_scenes {
            Some(names) => {
                if names.len() == 0 {
                    return Err(SpawnError::NoScene);
                }
                self.original_children = Some(copy_entities(children));
                self.stage = SpawnStage::SceneRequested;
                Ok(Some(names[0].clone()))
            },
            None => Err(SpawnError::NoScene),
        }
    }
}

/// `candidate` is an instance nested in the instance `owner`: it carries a
/// blueprint reference, and its nearest ancestor that carries one is `owner`.
pub open spec fn is_nested_in(h: Hierarchy, candidate: Entity, owner: Entity) -> bool {
    h.carries_blueprint(candidate) && h.nearest_blueprint_ancestor(candidate) == Some(owner)
}

/// What the discovery of nested instances asks of the engine, for the
/// descendants `below` of `owner`: each is disabled, and each nested instance
/// is linked to `owner` before that.
pub open spec fn discovery_commands(h: Hierarchy, owner: Entity, below: Seq<Entity>) -> Seq<
    SpawnCommand,
>
    decreases below.len(),
{
    if below.len() == 0 {
        Seq::empty()
    } else {
        let last = below.last();
        let link = if is_nested_in(h, last, owner) {
            seq![SpawnCommand::SetSpawnRoot { entity: last, root: owner }]
        } else {
            Seq::<SpawnCommand>::empty()
        };
        discovery_commands(h, owner, below.drop_last()) + link + seq![
            SpawnCommand::Insert { entity: last, marker: Marker::BlueprintInstanceDisabled },
        ]
    }
}

/// The tracker entries for the instances among `below` that are nested in `owner`.
pub open spec fn nested_entries(h: Hierarchy, owner: Entity, below: Seq<Entity>) -> Map<
    Entity,
    bool,
>
    decreases below.len(),
{
    if below.len() == 0 {
        Map::empty()
    } else if is_nested_in(h, below.last(), owner) {
        nested_entries(h, owner, below.drop_last()).insert(below.last(), false)
    } else {
        nested_entries(h, owner, below.drop_last())
    }
}

/// The number of times that an instance nested in `owner` is met in `below`.
pub open spec fn nested_count(h: Hierarchy, owner: Entity, below: Seq<Entity>) -> nat
    decreases below.len(),
{
    if below.len() == 0 {
        0
    } else {
        nested_count(h, owner, below.drop_last()) + if is_nested_in(h, below.last(), owner) {
            1nat
        } else {
            0nat
        }
    }
}

/// The spawn root of an instance once its scene is instantiated: its
/// nearest ancestor with a blueprint reference, if it has one and none of
/// its ancestors is linked to a spawn root; else the one it had.
pub open spec fn found_spawn_root(h: Hierarchy, instance: BlueprintInstance) -> Option<Entity> {
    if !h.any_carries_spawn_root(h.ancestors(instance.entity)) && h.nearest_blueprint_ancestor(
        instance.entity,
    ) is Some {
        h.nearest_blueprint_ancestor(instance.entity)
    } else {
        instance.spawn_root
    }
}

impl BlueprintInstance {
    /// Sixth stage: the engine has instantiated the scene. Unless one of its
    /// ancestors is linked to a spawn root already, the instance takes its
    /// nearest ancestor with a blueprint reference for its spawn root, if
    /// there is one. Every descendant is disabled until the instance is
    /// ready. The descendants that are instances nested in this one are linked
    /// to it and tracked as not ready; without any, the children count as
    /// ready at once.
    pub fn blueprints_scenes_spawned(&mut self, hierarchy: &Hierarchy) -> (r: Vec<SpawnCommand>)
        requires
            old(self).wf(),
        ensures
            final(self).wf(),
            final(self).same_request(*old(self)),
            old(self).stage != SpawnStage::SceneRequested ==> *final(self) == *old(self) && r@.len()
                == 0,
            old(self).stage == SpawnStage::SceneRequested ==> {
                let below = hierarchy.descendants(old(self).entity);
                let entries = nested_entries(*hierarchy, old(self).entity, below);
                let nested = nested_count(*hierarchy, old(self).entity, below);
                &&& r@ == discovery_commands(*hierarchy, old(self).entity, below)
                &&& final(self).stage == old(self).stage.next(
                    StageEvent::SceneInstantiated { nested: nested as usize },
                )
                &&& nested == 0 <==> entries =~= Map::empty()
                &&& nested == 0 ==> final(self).sub_blueprints is None
                &&& nested > 0 ==> (final(self).sub_blueprints matches Some(tracker)
                    && tracker.entries() == entries)
                &&& final(self).spawn_root == found_spawn_root(*hierarchy, *old(self))
                &&& final(self).original_children == old(self).original_children
                &&& final(self).hidden == old(self).hidden
                &&& final(self).visibility == old(self).visibility
                &&& final(self).original_visibility == old(self).original_visibility
            },
    {
        let mut commands: Vec<SpawnCommand> = Vec::new();
        if !(self.stage == SpawnStage::SceneRequested) {
            return commands;
        }
        if !hierarchy.has_linked_ancestor(self.entity) {
            match hierarchy.find_blueprint_ancestor(self.entity) {
                Some(root) => {
                    self.spawn_root = Some(root);
                },
                None => {},
            }
        }
        let owner = self.entity;
        let below = hierarchy.iter_descendants(owner);
        let mut tracker = SubBlueprintsSpawnTracker::new();
        let mut nested: usize = 0;
        let mut i: usize = 0;
        assert(below@.subrange(0, 0) =~= Seq::<Entity>::empty());
        while i < below.len()
            invariant
                i <= below@.len(),
                nested <= i,
                commands@ == discovery_commands(*hierarchy, owner, below@.subrange(0, i as int)),
                tracker.entries() =~= nested_entries(*hierarchy, owner, below@.subrange(0, i as int)),
                nested == nested_count(*hierarchy, owner, below@.subrange(0, i as int)),
                forall|k: Entity|
                    tracker.entries().dom().contains(k) ==> !(#[trigger] tracker.entries()[k]),
                nested == 0 <==> tracker.entries() =~= Map::empty(),
            decreases below@.len() - i,
        {
            let candidate = below[i];
            proof {
                let grown = below@.subrange(0, i + 1);
                assert(grown.drop_last() =~= below@.subrange(0, i as int));
                assert(grown.last() == candidate);
            }
            let ghost before = commands@;
            let mut is_nested = false;
            if hierarchy.has_blueprint(candidate) {
                let nearest = hierarchy.find_blueprint_ancestor(candidate);
                if nearest.is_some() && nearest.unwrap() == owner {
                    is_nested = true;
                }
            }
            assert(is_nested == is_nested_in(*hierarchy, candidate, owner));
            if is_nested {
                commands.push(SpawnCommand::SetSpawnRoot { entity: candidate, root: owner });
                tracker.track(candidate);
                nested += 1;
                assert(tracker.entries().dom().contains(candidate));
            }
            commands.push(
                SpawnCommand::Insert { entity: candidate, marker: Marker::BlueprintInstanceDisabled },
            );
            assert(commands@ =~= before + (if is_nested {
                seq![SpawnCommand::SetSpawnRoot { entity: candidate, root: owner }]
            } else {
                Seq::<SpawnCommand>::empty()
            }) + seq![
                SpawnCommand::Insert { entity: candidate, marker: Marker::BlueprintInstanceDisabled },
            ]);
            i += 1;
        }
        assert(below@.subrange(0, i as int) =~= below@);
        if nested > 0 {
            proof {
                let entries = tracker.entries();
                assert(!(entries =~= Map::<Entity, bool>::empty()));
                let witness = choose|k: Entity| entries.dom().contains(k);
                assert(entries.dom().contains(witness));
                assert(!entries[witness]);
                assert(!all_ready(entries));
            }
            self.sub_blueprints = Some(tracker);
            self.stage = SpawnStage::SceneSpawned;
        } else {
            self.stage = SpawnStage::ChildrenReady;
        }
        commands
    }
}

/// The first of `children` that is not among `original`: the root of the
/// scene that was spawned onto an entity.
pub open spec fn scene_root(children: Seq<Entity>, original: Seq<Entity>) -> Option<Entity>
    decreases children.len(),
{
    if children.len() == 0 {
        None
    } else if !original.contains(children[0]) {
        Some(children[0])
    } else {
        scene_root(children.drop_first(), original)
    }
}

/// One command for each of `entities`, in their order, made by `make`.
pub open spec fn for_each(entities: Seq<Entity>, make: spec_fn(Entity) -> SpawnCommand) -> Seq<
    SpawnCommand,
> {
    entities.map_values(make)
}

/// `entity` can play animations and has a parent.
pub open spec fn hosts_player(h: Hierarchy, entity: Entity) -> bool {
    h.plays_animations(entity) && h.parent(entity) is Some
}

/// The links from `owner` to the animation players that are children of `root`,
/// in the order of `nodes`.
pub open spec fn player_commands(
    nodes: Seq<crate::hierarchy::HierarchyNode>,
    owner: Entity,
    root: Entity,
) -> Seq<SpawnCommand>
    decreases nodes.len(),
{
    if nodes.len() == 0 {
        Seq::empty()
    } else {
        let node = nodes.last();
        player_commands(nodes.drop_last(), owner, root) + if node.has_animation_player
            && node.parent == Some(root) {
            seq![SpawnCommand::LinkAnimationPlayer { entity: owner, player: node.entity }]
        } else {
            Seq::<SpawnCommand>::empty()
        }
    }
}

/// The links that the entity `holder` of animation metadata gets to those of
/// `above` that play animations or hold animation metadata themselves.
pub open spec fn ancestor_link_commands(
    h: Hierarchy,
    owner: Entity,
    holder: Entity,
    above: Seq<Entity>,
) -> Seq<SpawnCommand>
    decreases above.len(),
{
    if above.len() == 0 {
        Seq::empty()
    } else {
        let ancestor = above.last();
        let to_player = if hosts_player(h, ancestor) {
            seq![
                SpawnCommand::LinkInstanceAnimationPlayer { entity: holder, player: ancestor, owner },
            ]
        } else {
            Seq::<SpawnCommand>::empty()
        };
        let to_infos = if h.carries_animation_infos(ancestor) {
            seq![SpawnCommand::LinkInstanceAnimationInfos { entity: holder, infos: ancestor }]
        } else {
            Seq::<SpawnCommand>::empty()
        };
        ancestor_link_commands(h, owner, holder, above.drop_last()) + to_player + to_infos
    }
}

/// The animation links for the entities among `below` that hold animation
/// metadata: one that plays the animations itself becomes the source of the
/// metadata of `owner`; any other is linked to its ancestors.
pub open spec fn animation_link_commands(h: Hierarchy, owner: Entity, below: Seq<Entity>) -> Seq<
    SpawnCommand,
>
    decreases below.len(),
{
    if below.len() == 0 {
        Seq::empty()
    } else {
        let holder = below.last();
        let links = if !h.carries_animation_infos(holder) {
            Seq::<SpawnCommand>::empty()
        } else if hosts_player(h, holder) {
            seq![SpawnCommand::LinkAnimationInfos { entity: owner, infos: holder }]
        } else {
            ancestor_link_commands(h, owner, holder, h.ancestors(holder))
        };
        animation_link_commands(h, owner, below.drop_last()) + links
    }
}

/// The visibility of `entity` after the engine has done what `commands` ask,
/// when it was `shown` before and `of_source` gives the visibility that each
/// entity has to copy from. A command that sets the visibility of the entity
/// gives it that one; a copy of the components of another entity onto it
/// gives it the visibility of that entity, if it has one.
pub open spec fn visibility_after(
    shown: Option<Visibility>,
    of_source: spec_fn(Entity) -> Option<Visibility>,
    entity: Entity,
    commands: Seq<SpawnCommand>,
) -> Option<Visibility>
    decreases commands.len(),
{
    if commands.len() == 0 {
        shown
    } else {
        let before = visibility_after(shown, of_source, entity, commands.drop_last());
        match commands.last() {
            SpawnCommand::SetVisibility { entity: e, visibility } => if e == entity {
                Some(visibility)
            } else {
                before
            },
            SpawnCommand::CopyComponents { source, destination } => if destination == entity
                && of_source(source) is Some {
                of_source(source)
            } else {
                before
            },
            _ => before,
        }
    }
}

/// `command` can change the visibility of `entity`.
pub open spec fn touches_visibility(command: SpawnCommand, entity: Entity) -> bool {
    match command {
        SpawnCommand::SetVisibility { entity: e, .. } => e == entity,
        SpawnCommand::CopyComponents { destination, .. } => destination == entity,
        _ => false,
    }
}

/// Commands of which none can change the visibility of an entity leave it
/// as it is.
pub proof fn lemma_visibility_untouched(
    shown: Option<Visibility>,
    of_source: spec_fn(Entity) -> Option<Visibility>,
    entity: Entity,
    commands: Seq<SpawnCommand>,
)
    requires
        forall|i: int| 0 <= i < commands.len() ==> !touches_visibility(#[trigger] commands[i], entity),
    ensures
        visibility_after(shown, of_source, entity, commands) == shown,
    decreases commands.len(),
{
    if commands.len() > 0 {
        assert(!touches_visibility(commands[commands.len() - 1], entity));
        lemma_visibility_untouched(shown, of_source, entity, commands.drop_last());
    }
}

/// No command of the discovery of nested instances can change a visibility.
proof fn lemma_discovery_touches_no_visibility(
    h: Hierarchy,
    owner: Entity,
    below: Seq<Entity>,
    entity: Entity,
)
    ensures
        forall|i: int|
            0 <= i < discovery_commands(h, owner, below).len() ==> !touches_visibility(
                #[trigger] discovery_commands(h, owner, below)[i],
                entity,
            ),
    decreases below.len(),
{
    if below.len() > 0 {
        lemma_discovery_touches_no_visibility(h, owner, below.drop_last(), entity);
        let earlier = discovery_commands(h, owner, below.drop_last());
        let all = discovery_commands(h, owner, below);
        assert forall|i: int| 0 <= i < all.len() implies !touches_visibility(
            #[trigger] all[i],
            entity,
        ) by {
            if i < earlier.len() {
                assert(all[i] == earlier[i]);
            }
        }
    }
}

/// The discovery of nested instances changes the visibility of no entity.
pub proof fn law_discovery_keeps_visibility(
    h: Hierarchy,
    owner: Entity,
    below: Seq<Entity>,
    shown: Option<Visibility>,
    of_source: spec_fn(Entity) -> Option<Visibility>,
    entity: Entity,
)
    ensures
        visibility_after(shown, of_source, entity, discovery_commands(h, owner, below)) == shown,
{
    lemma_discovery_touches_no_visibility(h, owner, below, entity);
    lemma_visibility_untouched(shown, of_source, entity, discovery_commands(h, owner, below));
}

/// What the cleanup asks of the engine for the instance `owner` whose scene
/// has the root `root`. An instance that is hidden until it is ready is
/// hidden again in the end, whatever the scene root has brought.
pub open spec fn cleanup_commands(h: Hierarchy, owner: Entity, root: Entity, hidden: bool) -> Seq<
    SpawnCommand,
> {
    let below = h.descendants(root);
    let tagging = for_each(
        below,
        |e: Entity| SpawnCommand::Insert { entity: e, marker: Marker::FromBlueprint },
    );
    let merging = seq![SpawnCommand::CopyComponents { source: root, destination: owner }];
    let adopting = for_each(
        h.children(root),
        |e: Entity| SpawnCommand::AddChild { parent: owner, child: e },
    );
    let animating = player_commands(h.nodes@, owner, root) + animation_link_commands(
        h,
        owner,
        below,
    );
    let hiding = if hidden {
        seq![SpawnCommand::SetVisibility { entity: owner, visibility: Visibility::Hidden }]
    } else {
        Seq::<SpawnCommand>::empty()
    };
    tagging + merging + adopting + animating + seq![
        SpawnCommand::DespawnRecursive { entity: root },
    ] + hiding
}

/// The first of `children` that is not among `original`.
pub fn find_scene_root(children: &Vec<Entity>, original: &Vec<Entity>) -> (r: Option<Entity>)
    ensures
        r == scene_root(children@, original@),
{
    let mut i: usize = 0;
    assert(children@.subrange(0, children@.len() as int) =~= children@);
    while i < children.len()
        invariant
            i <= children@.len(),
            scene_root(children@, original@) == scene_root(
                children@.subrange(i as int, children@.len() as int),
                original@,
            ),
        decreases children@.len() - i,
    {
        assert(children@.subrange(i as int, children@.len() as int)[0] == children@[i as int]);
        if !contains_entity(original, children[i]) {
            return Some(children[i]);
        }
        assert(children@.subrange(i as int, children@.len() as int).drop_first()
            =~= children@.subrange(i + 1, children@.len() as int));
        i += 1;
    }
    None
}

/// Appends to `out` the tag `marker` for each of `entities`.
fn push_inserts(out: &mut Vec<SpawnCommand>, entities: &Vec<Entity>, marker: Marker)
    ensures
        final(out)@ == old(out)@ + for_each(
            entities@,
            |e: Entity| SpawnCommand::Insert { entity: e, marker },
        ),
{
    let ghost make = |e: Entity| SpawnCommand::Insert { entity: e, marker };
    let mut i: usize = 0;
    assert(out@ =~= old(out)@ + for_each(entities@.subrange(0, 0), make));
    while i < entities.len()
        invariant
            i <= entities@.len(),
            make == (|e: Entity| SpawnCommand::Insert { entity: e, marker }),
            out@ == old(out)@ + for_each(entities@.subrange(0, i as int), make),
        decreases entities@.len() - i,
    {
        out.push(SpawnCommand::Insert { entity: entities[i], marker });
        assert(out@ =~= old(out)@ + for_each(entities@.subrange(0, i + 1), make));
        i += 1;
    }
    assert(entities@.subrange(0, i as int) =~= entities@);
}

/// Appends to `out` the removal of the tag `marker` from each of `entities`.
fn push_removes(out: &mut Vec<SpawnCommand>, entities: &Vec<Entity>, marker: Marker)
    ensures
        final(out)@ == old(out)@ + for_each(
            entities@,
            |e: Entity| SpawnCommand::Remove { entity: e, marker },
        ),
{
    let ghost make = |e: Entity| SpawnCommand::Remove { entity: e, marker };
    let mut i: usize = 0;
    assert(out@ =~= old(out)@ + for_each(entities@.subrange(0, 0), make));
    while i < entities.len()
        invariant
            i <= entities@.len(),
            make == (|e: Entity| SpawnCommand::Remove { entity: e, marker }),
            out@ == old(out)@ + for_each(entities@.subrange(0, i as int), make),
        decreases entities@.len() - i,
    {
        out.push(SpawnCommand::Remove { entity: entities[i], marker });
        assert(out@ =~= old(out)@ + for_each(entities@.subrange(0, i + 1), make));
        i += 1;
    }
    assert(entities@.subrange(0, i as int) =~= entities@);
}

/// Appends to `out` the adoption by `parent` of each of `entities`.
fn push_adoptions(out: &mut Vec<SpawnCommand>, entities: &Vec<Entity>, parent: Entity)
    ensures
        final(out)@ == old(out)@ + for_each(
            entities@,
            |e: Entity| SpawnCommand::AddChild { parent, child: e },
        ),
{
    let ghost make = |e: Entity| SpawnCommand::AddChild { parent, child: e };
    let mut i: usize = 0;
    assert(out@ =~= old(out)@ + for_each(entities@.subrange(0, 0), make));
    while i < entities.len()
        invariant
            i <= entities@.len(),
            make == (|e: Entity| SpawnCommand::AddChild { parent, child: e }),
            out@ == old(out)@ + for_each(entities@.subrange(0, i as int), make),
        decreases entities@.len() - i,
    {
        out.push(SpawnCommand::AddChild { parent, child: entities[i] });
        assert(out@ =~= old(out)@ + for_each(entities@.subrange(0, i + 1), make));
        i += 1;
    }
    assert(entities@.subrange(0, i as int) =~= entities@);
}

/// Whether `entity` can play animations and has a parent.
fn is_player_host(hierarchy: &Hierarchy, entity: Entity) -> (r: bool)
    ensures
        r == hosts_player(*hierarchy, entity),
{
    hierarchy.has_animation_player(entity) && hierarchy.parent_of(entity).is_some()
}

/// Appends to `out` the links from `owner` to the animation players that are
/// children of `root`.
fn push_player_links(out: &mut Vec<SpawnCommand>, hierarchy: &Hierarchy, owner: Entity, root: Entity)
    ensures
        final(out)@ == old(out)@ + player_commands(hierarchy.nodes@, owner, root),
{
    let mut i: usize = 0;
    assert(out@ =~= old(out)@ + player_commands(hierarchy.nodes@.subrange(0, 0), owner, root));
    while i < hierarchy.nodes.len()
        invariant
            i <= hierarchy.nodes@.len(),
            out@ == old(out)@ + player_commands(
                hierarchy.nodes@.subrange(0, i as int),
                owner,
                root,
            ),
        decreases hierarchy.nodes@.len() - i,
    {
        proof {
            let grown = hierarchy.nodes@.subrange(0, i + 1);
            assert(grown.drop_last() =~= hierarchy.nodes@.subrange(0, i as int));
            assert(grown.last() == hierarchy.nodes@[i as int]);
        }
        let is_child = match hierarchy.nodes[i].parent {
            Some(p) => p == root,
            None => false,
        };
        if hierarchy.nodes[i].has_animation_player && is_child {
            out.push(
                SpawnCommand::LinkAnimationPlayer { entity: owner, player: hierarchy.nodes[i].entity },
            );
        }
        assert(out@ =~= old(out)@ + player_commands(
            hierarchy.nodes@.subrange(0, i + 1),
            owner,
            root,
        ));
        i += 1;
    }
    assert(hierarchy.nodes@.subrange(0, i as int) =~= hierarchy.nodes@);
}

/// Appends to `out` the links of `holder` to its ancestors `above`.
fn push_ancestor_links(
    out: &mut Vec<SpawnCommand>,
    hierarchy: &Hierarchy,
    owner: Entity,
    holder: Entity,
    above: &Vec<Entity>,
)
    ensures
        final(out)@ == old(out)@ + ancestor_link_commands(*hierarchy, owner, holder, above@),
{
    let mut i: usize = 0;
    assert(out@ =~= old(out)@ + ancestor_link_commands(
        *hierarchy,
        owner,
        holder,
        above@.subrange(0, 0),
    ));
    while i < above.len()
        invariant
            i <= above@.len(),
            out@ == old(out)@ + ancestor_link_commands(
                *hierarchy,
                owner,
                holder,
                above@.subrange(0, i as int),
            ),
        decreases above@.len() - i,
    {
        proof {
            let grown = above@.subrange(0, i + 1);
            assert(grown.drop_last() =~= above@.subrange(0, i as int));
            assert(grown.last() == above@[i as int]);
        }
        let ancestor = above[i];
        if is_player_host(hierarchy, ancestor) {
            out.push(
                SpawnCommand::LinkInstanceAnimationPlayer { entity: holder, player: ancestor, owner },
            );
        }
        if hierarchy.has_animation_infos(ancestor) {
            out.push(SpawnCommand::LinkInstanceAnimationInfos { entity: holder, infos: ancestor });
        }
        assert(out@ =~= old(out)@ + ancestor_link_commands(
            *hierarchy,
            owner,
            holder,
            above@.subrange(0, i + 1),
        ));
        i += 1;
    }
    assert(above@.subrange(0, i as int) =~= above@);
}

/// Appends to `out` the animation links for the entities among `below`.
fn push_animation_links(
    out: &mut Vec<SpawnCommand>,
    hierarchy: &Hierarchy,
    owner: Entity,
    below: &Vec<Entity>,
)
    ensures
        final(out)@ == old(out)@ + animation_link_commands(*hierarchy, owner, below@),
{
    let mut i: usize = 0;
    assert(out@ =~= old(out)@ + animation_link_commands(*hierarchy, owner, below@.subrange(0, 0)));
    while i < below.len()
        invariant
            i <= below@.len(),
            out@ == old(out)@ + animation_link_commands(
                *hierarchy,
                owner,
                below@.subrange(0, i as int),
            ),
        decreases below@.len() - i,
    {
        proof {
            let grown = below@.subrange(0, i + 1);
            assert(grown.drop_last() =~= below@.subrange(0, i as int));
            assert(grown.last() == below@[i as int]);
        }
        let ghost before = out@;
        let holder = below[i];
        if hierarchy.has_animation_infos(holder) {
            if is_player_host(hierarchy, holder) {
                out.push(SpawnCommand::LinkAnimationInfos { entity: owner, infos: holder });
            } else {
                let above = hierarchy.iter_ancestors(holder);
                push_ancestor_links(out, hierarchy, owner, holder, &above);
            }
        }
        assert(out@ =~= old(out)@ + animation_link_commands(
            *hierarchy,
            owner,
            below@.subrange(0, i + 1),
        ));
        i += 1;
    }
    assert(below@.subrange(0, i as int) =~= below@);
}

impl BlueprintInstance {
    /// Seventh stage: cleans up the spawned scene. The child that the entity
    /// did not have before is the root of the scene. Everything below it is
    /// tagged as coming from a blueprint, its components are copied onto the
    /// entity, its children become children of the entity, in order, the
    /// animation links are made, and the root is removed. An instance that is
    /// hidden until it is ready is hidden again after the copy. An entity
    /// without any child is left for a later tick. Where no child is new,
    /// only the stage changes.
    pub fn blueprints_cleanup_spawned_scene(&mut self, hierarchy: &Hierarchy) -> (r: Vec<
        SpawnCommand,
    >)
        requires
            old(self).wf(),
        ensures
            final(self).wf(),
            final(self).same_request(*old(self)),
            final(self).same_links(*old(self)),
            old(self).stage != SpawnStage::ChildrenReady ==> *final(self) == *old(self) && r@.len()
                == 0,
            old(self).stage == SpawnStage::ChildrenReady ==> {
                let children = hierarchy.children(old(self).entity);
                let had_children = children.len() > 0;
                &&& final(self).stage == old(self).stage.next(StageEvent::CleanedUp { had_children })
                &&& !had_children ==> *final(self) == *old(self) && r@.len() == 0
                &&& had_children ==> {
                    &&& final(self).original_children is None
                    &&& final(self).sub_blueprints == old(self).sub_blueprints
                    &&& r@ == match scene_root(children, old(self).original_children.unwrap()@) {
                        Some(root) => cleanup_commands(
                            *hierarchy,
                            old(self).entity,
                            root,
                            old(self).hidden,
                        ),
                        None => Seq::empty(),
                    }
                }
            },
            old(self).hidden ==> forall|of_source: spec_fn(Entity) -> Option<Visibility>|
                #[trigger] visibility_after(
                    old(self).visibility,
                    of_source,
                    old(self).entity,
                    r@,
                ) == Some(Visibility::Hidden),
    {
        let mut commands: Vec<SpawnCommand> = Vec::new();
        if !(self.stage == SpawnStage::ChildrenReady) {
            return commands;
        }
        let children = hierarchy.children_of(self.entity);
        if children.len() == 0 {
            return commands;
        }
        let original = self.original_children.take().unwrap();
        self.stage = SpawnStage::ReadyForPostProcess;
        let owner = self.entity;
        match find_scene_root(&children, &original) {
            Some(root) => {
                let below = hierarchy.iter_descendants(root);
                push_inserts(&mut commands, &below, Marker::FromBlueprint);
                commands.push(SpawnCommand::CopyComponents { source: root, destination: owner });
                let adopted = hierarchy.children_of(root);
                push_adoptions(&mut commands, &adopted, owner);
                push_player_links(&mut commands, hierarchy, owner, root);
                push_animation_links(&mut commands, hierarchy, owner, &below);
                commands.push(SpawnCommand::DespawnRecursive { entity: root });
                if self.hidden {
                    commands.push(
                        SpawnCommand::SetVisibility { entity: owner, visibility: Visibility::Hidden },
                    );
                    assert(commands@.last() == SpawnCommand::SetVisibility {
                        entity: owner,
                        visibility: Visibility::Hidden,
                    });
                }
                assert(commands@ =~= cleanup_commands(*hierarchy, owner, root, self.hidden));
            },
            None => {},
        }
        commands
    }

    /// Eighth stage: post-processing is done.
    pub fn blueprints_post_processed(&mut self)
        requires
            old(self).wf(),
        ensures
            final(self).wf(),
            final(self).stage == old(self).stage.next(StageEvent::PostProcessed),
            *final(self) == (BlueprintInstance { stage: final(self).stage, ..*old(self) }),
    {
        if self.stage == SpawnStage::ReadyForPostProcess {
            self.stage = SpawnStage::ReadyForFinalizing;
        }
    }
}

/// What the finalizing of an instance hands back.
pub struct Finalized {
    /// What the engine is asked to do.
    pub commands: Vec<SpawnCommand>,
    /// What the listeners are told.
    pub event: Option<BlueprintEvent>,
    /// The instance in which this one is nested, and which is to be told
    /// that this one is ready.
    pub notify: Option<Entity>,
}

/// The visibility that an instance gets back when it is ready.
pub open spec fn restored_visibility(instance: BlueprintInstance) -> Visibility {
    match instance.original_visibility {
        Some(saved) => saved,
        None => Visibility::Inherited,
    }
}

/// What the finalizing of `instance` asks of the engine: the instance and its
/// descendants are enabled again, and an instance that was hidden until now
/// gets its visibility back.
pub open spec fn finalize_commands(h: Hierarchy, instance: BlueprintInstance) -> Seq<SpawnCommand> {
    let entity = instance.entity;
    let enabling = seq![
        SpawnCommand::Remove { entity, marker: Marker::BlueprintInstanceDisabled },
    ] + for_each(
        h.descendants(entity),
        |e: Entity| SpawnCommand::Remove { entity: e, marker: Marker::BlueprintInstanceDisabled },
    );
    let showing = if instance.hidden {
        seq![SpawnCommand::SetVisibility { entity, visibility: restored_visibility(instance) }]
    } else {
        Seq::<SpawnCommand>::empty()
    };
    enabling + showing
}

/// `after` and `outcome` are what the finalizing makes of the instance
/// `before`: an instance that is not ready for it is left alone; any other
/// becomes ready.
pub open spec fn finalizes(
    before: BlueprintInstance,
    after: BlueprintInstance,
    hierarchy: Hierarchy,
    outcome: Finalized,
) -> bool {
    &&& after.same_request(before)
    &&& before.stage != SpawnStage::ReadyForFinalizing ==> {
        &&& after == before
        &&& outcome.commands@.len() == 0
        &&& outcome.event is None
        &&& outcome.notify is None
    }
    &&& before.stage == SpawnStage::ReadyForFinalizing ==> {
        &&& after.stage == before.stage.next(StageEvent::Finalized)
        &&& after.stage.marker() is None
        &&& after.assets is None
        &&& after.original_children is None
        &&& after.sub_blueprints == before.sub_blueprints
        &&& after.spawn_root == before.spawn_root
        &&& !after.hidden
        &&& after.original_visibility == before.original_visibility
        &&& after.visibility == if before.hidden {
            Some(restored_visibility(before))
        } else {
            before.visibility
        }
        &&& outcome.commands@ == finalize_commands(hierarchy, before)
        &&& forall|of_source: spec_fn(Entity) -> Option<Visibility>|
            #[trigger] visibility_after(
                before.visibility,
                of_source,
                before.entity,
                outcome.commands@,
            ) == after.visibility
        &&& outcome.event matches Some(event)
        &&& is_instance_ready_event(event, before)
        &&& outcome.notify == before.spawn_root
    }
}

/// `after` is what the instance `before` becomes when it learns that the
/// instance `nested` is ready, and `became_ready` says whether its children
/// became ready by that. Only an instance that is spawning and tracks nested
/// instances takes note.
pub open spec fn learns_of_ready(
    before: BlueprintInstance,
    after: BlueprintInstance,
    nested: Entity,
    became_ready: bool,
) -> bool {
    &&& after.same_request(before)
    &&& after.same_links(before)
    &&& after.assets == before.assets
    &&& after.original_children == before.original_children
    &&& !(before.stage.in_flight() && before.sub_blueprints is Some) ==> after == before
        && !became_ready
    &&& before.stage.in_flight() && before.sub_blueprints is Some ==> {
        let entries = before.sub_blueprints.unwrap().entries().insert(nested, true);
        &&& after.sub_blueprints matches Some(tracker)
        &&& tracker.entries() == entries
        &&& after.stage == before.stage.next(
            StageEvent::NestedReady { all_ready: all_ready(entries) },
        )
        &&& became_ready == (before.stage == SpawnStage::SceneSpawned && all_ready(entries))
    }
}

impl BlueprintInstance {
    /// Ninth stage: the instance becomes ready. What the stages kept is
    /// dropped. The instance and its descendants are enabled again. An
    /// instance that the pipeline had hidden gets back the visibility it had,
    /// or the inherited one where it had none. The listeners are told that the
    /// instance is ready, and the instance in which it is nested is named, to
    /// be told as well.
    pub fn blueprints_finalize_instances(&mut self, hierarchy: &Hierarchy) -> (r: Finalized)
        requires
            old(self).wf(),
        ensures
            final(self).wf(),
            finalizes(*old(self), *final(self), *hierarchy, r),
    {
        let mut commands: Vec<SpawnCommand> = Vec::new();
        if !(self.stage == SpawnStage::ReadyForFinalizing) {
            return Finalized { commands, event: None, notify: None };
        }
        self.stage = SpawnStage::Ready;
        self.assets = None;
        self.original_children = None;
        commands.push(
            SpawnCommand::Remove { entity: self.entity, marker: Marker::BlueprintInstanceDisabled },
        );
        let below = hierarchy.iter_descendants(self.entity);
        push_removes(&mut commands, &below, Marker::BlueprintInstanceDisabled);
        if self.hidden {
            let restored = match self.original_visibility {
                Some(saved) => saved,
                None => Visibility::Inherited,
            };
            commands.push(SpawnCommand::SetVisibility { entity: self.entity, visibility: restored });
            self.visibility = Some(restored);
            self.hidden = false;
        }
        assert(commands@ =~= finalize_commands(*hierarchy, *old(self)));
        proof {
            let entity = self.entity;
            let marker = Marker::BlueprintInstanceDisabled;
            let enabling = seq![SpawnCommand::Remove { entity, marker }] + for_each(
                below@,
                |e: Entity| SpawnCommand::Remove { entity: e, marker },
            );
            assert forall|of_source: spec_fn(Entity) -> Option<Visibility>|
                #[trigger] visibility_after(old(self).visibility, of_source, entity, commands@)
                    == self.visibility by {
                lemma_visibility_untouched(old(self).visibility, of_source, entity, enabling);
                if old(self).hidden {
                    assert(commands@.drop_last() =~= enabling);
                } else {
                    assert(commands@ =~= enabling);
                }
            }
        }
        let event = BlueprintEvent::InstanceReady {
            entity: self.entity,
            blueprint_name: self.info.name.clone(),
            blueprint_path: self.info.path.clone(),
        };
        Finalized { commands, event: Some(event), notify: self.spawn_root }
    }

    /// The instance `nested`, which names this one as its spawn root, is
    /// ready. An instance that is still spawning and tracks nested instances
    /// records that; once every entry of its tracker is ready, its children
    /// are ready. Returns whether the children became ready by this call.
    pub fn nested_instance_ready(&mut self, nested: Entity) -> (r: bool)
        requires
            old(self).wf(),
        ensures
            final(self).wf(),
            learns_of_ready(*old(self), *final(self), nested, r),
    {
        if !self.stage.is_in_flight() || self.sub_blueprints.is_none() {
            return false;
        }
        let mut tracker = self.sub_blueprints.take().unwrap();
        proof {
            let before = tracker.entries();
            let after = before.insert(nested, true);
            if all_ready(before) {
                assert forall|k: Entity| after.dom().contains(k) implies #[trigger] after[k] by {
                    if k != nested {
                        assert(before.dom().contains(k));
                    }
                }
            }
        }
        tracker.mark_ready(nested);
        let all = tracker.all_spawned();
        self.sub_blueprints = Some(tracker);
        if all && self.stage == SpawnStage::SceneSpawned {
            self.stage = SpawnStage::ChildrenReady;
            true
        } else {
            false
        }
    }
}

/// The children of an instance are marked ready exactly when every nested
/// instance that it tracks is ready: not before the last of them is, and
/// from then on.
pub proof fn law_children_ready_iff_all_nested_ready(instance: BlueprintInstance)
    requires
        instance.wf(),
        instance.sub_blueprints is Some,
    ensures
        all_ready(instance.sub_blueprints.unwrap().entries()) <==> instance.stage.rank()
            >= SpawnStage::ChildrenReady.rank(),
        instance.stage == SpawnStage::SceneSpawned ==> !all_ready(
            instance.sub_blueprints.unwrap().entries(),
        ),
{
}

/// An instance that the pipeline has hidden stays hidden as long as it is
/// spawning, and is not hidden by the pipeline once it is ready.
pub proof fn law_hidden_until_ready(instance: BlueprintInstance)
    requires
        instance.wf(),
    ensures
        instance.hidden ==> instance.stage.in_flight() && instance.visibility == Some(
            Visibility::Hidden,
        ),
        instance.stage == SpawnStage::Ready ==> !instance.hidden,
{
}

/// The tags of `entity` after the engine has done what `commands` ask,
/// when it carried `markers` before.
pub open spec fn markers_after(markers: Set<Marker>, entity: Entity, commands: Seq<SpawnCommand>) -> Set<
    Marker,
>
    decreases commands.len(),
{
    if commands.len() == 0 {
        markers
    } else {
        let before = markers_after(markers, entity, commands.drop_last());
        match commands.last() {
            SpawnCommand::Insert { entity: e, marker } => if e == entity {
                before.insert(marker)
            } else {
                before
            },
            SpawnCommand::Remove { entity: e, marker } => if e == entity {
                before.remove(marker)
            } else {
                before
            },
            _ => before,
        }
    }
}

/// The commands that take the tags of `entity` from those of the stage
/// `before` to those of the stage `after`: the tags of the old stage are
/// removed, then those of the new stage are inserted. An entity whose tags
/// are kept so carries at every stage exactly the tags of that stage.
pub fn marker_commands(entity: Entity, before: SpawnStage, after: SpawnStage) -> (r: Vec<
    SpawnCommand,
>)
    ensures
        r@ == before.marker_list().map_values(
            |marker: Marker| SpawnCommand::Remove { entity, marker },
        ) + after.marker_list().map_values(
            |marker: Marker| SpawnCommand::Insert { entity, marker },
        ),
        markers_after(before.markers(), entity, r@) == after.markers(),
{
    let olds = before.stage_markers();
    let news = after.stage_markers();
    let mut out: Vec<SpawnCommand> = Vec::new();
    let mut i: usize = 0;
    while i < olds.len()
        invariant
            i <= olds@.len(),
            out@ == olds@.subrange(0, i as int).map_values(
                |marker: Marker| SpawnCommand::Remove { entity, marker },
            ),
            forall|m: Marker| olds@.contains(m) <==> before.markers().contains(m),
            forall|m: Marker| #[trigger]
                markers_after(before.markers(), entity, out@).contains(m) <==> (
                before.markers().contains(m) && !olds@.subrange(0, i as int).contains(m)),
        decreases olds@.len() - i,
    {
        let ghost sofar = out@;
        out.push(SpawnCommand::Remove { entity, marker: olds[i] });
        proof {
            assert(out@.drop_last() =~= sofar);
            let previous = markers_after(before.markers(), entity, sofar);
            assert(markers_after(before.markers(), entity, out@) == previous.remove(
                olds@[i as int],
            ));
            let grown = olds@.subrange(0, i + 1);
            assert(out@ =~= grown.map_values(
                |marker: Marker| SpawnCommand::Remove { entity, marker },
            ));
            assert forall|m: Marker| #[trigger]
                markers_after(before.markers(), entity, out@).contains(m) <==> (
                before.markers().contains(m) && !grown.contains(m)) by {
                assert(previous.contains(m) <==> (before.markers().contains(m) && !olds@.subrange(
                    0,
                    i as int,
                ).contains(m)));
                if m == olds@[i as int] {
                    assert(grown[i as int] == m);
                } else if grown.contains(m) {
                    let j = choose|j: int| 0 <= j < grown.len() && grown[j] == m;
                    assert(olds@.subrange(0, i as int)[j] == m);
                } else if olds@.subrange(0, i as int).contains(m) {
                    let j = choose|j: int|
                        0 <= j < i && olds@.subrange(0, i as int)[j] == m;
                    assert(grown[j] == m);
                }
            }
        }
        i += 1;
    }
    assert(olds@.subrange(0, i as int) =~= olds@);
    assert(markers_after(before.markers(), entity, out@) =~= Set::<Marker>::empty());
    let ghost cleared = out@;
    let mut k: usize = 0;
    assert(out@ =~= cleared + news@.subrange(0, 0).map_values(
        |marker: Marker| SpawnCommand::Insert { entity, marker },
    ));
    while k < news.len()
        invariant
            k <= news@.len(),
            out@ == cleared + news@.subrange(0, k as int).map_values(
                |marker: Marker| SpawnCommand::Insert { entity, marker },
            ),
            forall|m: Marker| #[trigger]
                markers_after(before.markers(), entity, out@).contains(m) <==> news@.subrange(
                    0,
                    k as int,
                ).contains(m),
        decreases news@.len() - k,
    {
        let ghost sofar = out@;
        out.push(SpawnCommand::Insert { entity, marker: news[k] });
        proof {
            assert(out@.drop_last() =~= sofar);
            let previous = markers_after(before.markers(), entity, sofar);
            assert(markers_after(before.markers(), entity, out@) == previous.insert(
                news@[k as int],
            ));
            let grown = news@.subrange(0, k + 1);
            assert(out@ =~= cleared + grown.map_values(
                |marker: Marker| SpawnCommand::Insert { entity, marker },
            ));
            assert forall|m: Marker| #[trigger]
                markers_after(before.markers(), entity, out@).contains(m) <==> grown.contains(
                    m,
                ) by {
                assert(previous.contains(m) <==> news@.subrange(0, k as int).contains(m));
                if m == news@[k as int] {
                    assert(grown[k as int] == m);
                } else if grown.contains(m) {
                    let j = choose|j: int| 0 <= j < grown.len() && grown[j] == m;
                    assert(news@.subrange(0, k as int)[j] == m);
                } else if news@.subrange(0, k as int).contains(m) {
                    let j = choose|j: int|
                        0 <= j < k && news@.subrange(0, k as int)[j] == m;
                    assert(grown[j] == m);
                }
            }
        }
        k += 1;
    }
    assert(news@.subrange(0, k as int) =~= news@);
    assert(markers_after(before.markers(), entity, out@) =~= after.markers());
    out
}

/// Whether the tracker of an instance, if it has one, agrees with its stage.
fn tracker_agrees(instance: &BlueprintInstance) -> (r: bool)
    ensures
        r == (instance.sub_blueprints matches Some(tracker) ==> (all_ready(tracker.entries())
            <==> instance.stage.rank() >= SpawnStage::ChildrenReady.rank())),
{
    match &instance.sub_blueprints {
        Some(tracker) => {
            let ready = tracker.all_spawned();
            let late = match instance.stage {
                SpawnStage::ChildrenReady => true,
                SpawnStage::ReadyForPostProcess => true,
                SpawnStage::ReadyForFinalizing => true,
                SpawnStage::Ready => true,
                _ => false,
            };
            ready == late
        },
        None => true,
    }
}

impl BlueprintInstance {
    /// Records `root` as the instance in which this one is nested.
    pub fn set_spawn_root(&mut self, root: Entity)
        requires
            old(self).wf(),
        ensures
            final(self).wf(),
            *final(self) == (BlueprintInstance { spawn_root: Some(root), ..*old(self) }),
    {
        self.spawn_root = Some(root);
    }

    /// Whether the instance is as the pipeline leaves one between two steps.
    pub fn is_well_formed(&self) -> (r: bool)
        ensures
            r == self.wf(),
    {
        let loading = self.stage == SpawnStage::MetaLoading || self.stage
            == SpawnStage::AssetsNotLoaded;
        let with_scene = self.stage == SpawnStage::SceneRequested || self.stage
            == SpawnStage::SceneSpawned || self.stage == SpawnStage::ChildrenReady;
        let before_scene = match self.stage {
            SpawnStage::SceneSpawned => false,
            SpawnStage::ChildrenReady => false,
            SpawnStage::ReadyForPostProcess => false,
            SpawnStage::ReadyForFinalizing => false,
            SpawnStage::Ready => false,
            _ => true,
        };
        let awaited_some = match &self.assets {
            Some(state) => state.asset_infos.len() > 0,
            None => false,
        };
        let still_loading = match &self.assets {
            Some(state) => !state.all_loaded,
            None => true,
        };
        let hidden_right = match self.visibility {
            Some(v) => v == Visibility::Hidden && self.stage.is_in_flight(),
            None => false,
        };
        self.assets.is_some() == loading && still_loading && (!(self.stage
            == SpawnStage::AssetsNotLoaded) || awaited_some) && self.original_children.is_some() == with_scene && (!before_scene
            || self.sub_blueprints.is_none()) && (!(self.stage == SpawnStage::SceneSpawned)
            || self.sub_blueprints.is_some()) && tracker_agrees(self) && (!self.hidden
            || (self.hide_until_ready && hidden_right))
    }
}

/// The tracker of an instance holds exactly the descendants that are
/// instances nested in it, each as not ready; and every descendant is
/// disabled, whether it is nested or not.
pub proof fn law_discovery_tracks_the_nested(
    h: Hierarchy,
    owner: Entity,
    below: Seq<Entity>,
    candidate: Entity,
)
    ensures
        nested_entries(h, owner, below).dom().contains(candidate) <==> (below.contains(candidate)
            && is_nested_in(h, candidate, owner)),
        nested_entries(h, owner, below).dom().contains(candidate) ==> !nested_entries(
            h,
            owner,
            below,
        )[candidate],
        below.contains(candidate) ==> discovery_commands(h, owner, below).contains(
            SpawnCommand::Insert { entity: candidate, marker: Marker::BlueprintInstanceDisabled },
        ),
    decreases below.len(),
{
    if below.len() > 0 {
        let rest = below.drop_last();
        law_discovery_tracks_the_nested(h, owner, rest, candidate);
        let commands = discovery_commands(h, owner, below);
        let disable = SpawnCommand::Insert {
            entity: candidate,
            marker: Marker::BlueprintInstanceDisabled,
        };
        if below.contains(candidate) {
            let at = choose|i: int| 0 <= i < below.len() && below[i] == candidate;
            if at < rest.len() {
                assert(rest[at] == candidate);
                let earlier = discovery_commands(h, owner, rest);
                let k = choose|k: int| 0 <= k < earlier.len() && earlier[k] == disable;
                assert(commands[k] == disable);
            } else {
                assert(below.last() == candidate);
                assert(commands.last() == disable);
            }
        }
        if rest.contains(candidate) {
            let at = choose|i: int| 0 <= i < rest.len() && rest[i] == candidate;
            assert(below[at] == candidate);
        }
    }
}

/// An instance is nested in one instance at most.
pub proof fn law_nested_in_one_instance(h: Hierarchy, candidate: Entity, a: Entity, b: Entity)
    requires
        is_nested_in(h, candidate, a),
        is_nested_in(h, candidate, b),
    ensures
        a == b,
{
}

} // verus!
