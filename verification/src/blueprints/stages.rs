//! The stages of one spawn request, and the transitions between them.
use vstd::prelude::*;

verus! {

/// Where an entity stands in the spawn pipeline.
#[derive(Clone, Copy, Debug, PartialEq, Eq, Structural)]
pub enum SpawnStage {
    /// No spawn was asked for.
    Idle,
    /// A spawn was asked for and no stage has claimed the entity yet.
    Requested,
    /// The metadata file is being loaded.
    MetaLoading,
    /// The metadata file is done loading and its content was asked for.
    MetaLoaded,
    /// Some assets of the blueprint are still being loaded.
    AssetsNotLoaded,
    /// Every asset of the blueprint is available.
    AssetsLoaded,
    /// The scene was handed to the engine for instantiation.
    SceneRequested,
    /// The scene is instantiated and nested instances are awaited.
    SceneSpawned,
    /// Every nested instance is ready.
    ChildrenReady,
    /// The hierarchy is cleaned up; post-processing may run.
    ReadyForPostProcess,
    /// Post-processing is done.
    ReadyForFinalizing,
    /// The instance is ready. This stage is final.
    Ready,
}

/// The tags that the pipeline puts on entities.
#[derive(Clone, Copy, Debug, PartialEq, Eq, Structural)]
pub enum Marker {
    /// The intent to spawn a blueprint.
    SpawnBlueprint,
    /// Present from the claim of a request until the instance is ready.
    BlueprintSpawning,
    BlueprintMetaLoading,
    BlueprintMetaLoaded,
    BlueprintAssetsNotLoaded,
    BlueprintAssetsLoaded,
    BlueprintSceneRequested,
    BlueprintSceneSpawned,
    BlueprintChildrenReady,
    BlueprintReadyForPostProcess,
    BlueprintReadyForFinalizing,
    /// The instance has finished spawning.
    BlueprintInstanceReady,
    /// The entity came out of a blueprint's scene.
    FromBlueprint,
    /// The entity belongs to an instance that is still spawning.
    BlueprintInstanceDisabled,
    /// The attributes of the entity were turned into components.
    GltfProcessed,
    /// The materials of the entity were injected.
    MaterialProcessed,
}

/// What can happen to a spawn request.
#[derive(Clone, Copy, Debug, PartialEq, Eq, Structural)]
pub enum StageEvent {
    /// A spawn was asked for.
    SpawnRequested,
    /// The pipeline saw the request and asked for the metadata file.
    Claimed,
    /// The load of the metadata file was polled.
    MetadataPolled { done: bool },
    /// The assets of the blueprint were listed; `pending` of them are not loaded yet.
    AssetsEnumerated { pending: usize },
    /// The loads of the assets were polled.
    AssetsPolled { done: bool },
    /// The scene was handed to the engine.
    SceneRequested,
    /// The engine has instantiated the scene, in which `nested` instances were found.
    SceneInstantiated { nested: usize },
    /// A nested instance became ready.
    NestedReady { all_ready: bool },
    /// The cleanup ran; `had_children` says whether the entity had any child.
    CleanedUp { had_children: bool },
    /// Post-processing is done.
    PostProcessed,
    /// The instance was finalized.
    Finalized,
}

impl SpawnStage {
    /// The place of a stage in the order of the pipeline.
    pub open spec fn rank(self) -> nat {
        match self {
            SpawnStage::Idle => 0,
            SpawnStage::Requested => 1,
            SpawnStage::MetaLoading => 2,
            SpawnStage::MetaLoaded => 3,
            SpawnStage::AssetsNotLoaded => 4,
            SpawnStage::AssetsLoaded => 5,
            SpawnStage::SceneRequested => 6,
            SpawnStage::SceneSpawned => 7,
            SpawnStage::ChildrenReady => 8,
            SpawnStage::ReadyForPostProcess => 9,
            SpawnStage::ReadyForFinalizing => 10,
            SpawnStage::Ready => 11,
        }
    }

    /// The stage is one of the pipeline's own: the request was claimed and the
    /// instance is not ready yet.
    pub open spec fn in_flight(self) -> bool {
        self != SpawnStage::Idle && self != SpawnStage::Requested && self != SpawnStage::Ready
    }

    /// The stage that follows `self` when `event` happens. An event that does
    /// not belong to the stage leaves it as it is.
    pub open spec fn next(self, event: StageEvent) -> SpawnStage {
        match (self, event) {
            (SpawnStage::Idle, StageEvent::SpawnRequested) => SpawnStage::Requested,
            (SpawnStage::Requested, StageEvent::Claimed) => SpawnStage::MetaLoading,
            (SpawnStage::MetaLoading, StageEvent::MetadataPolled { done }) => if done {
                SpawnStage::MetaLoaded
            } else {
                SpawnStage::MetaLoading
            },
            (SpawnStage::MetaLoaded, StageEvent::AssetsEnumerated { pending }) => if pending == 0 {
                SpawnStage::AssetsLoaded
            } else {
                SpawnStage::AssetsNotLoaded
            },
            (SpawnStage::AssetsNotLoaded, StageEvent::AssetsPolled { done }) => if done {
                SpawnStage::AssetsLoaded
            } else {
                SpawnStage::AssetsNotLoaded
            },
            (SpawnStage::AssetsLoaded, StageEvent::SceneRequested) => SpawnStage::SceneRequested,
            (SpawnStage::SceneRequested, StageEvent::SceneInstantiated { nested }) => if nested
                == 0 {
                SpawnStage::ChildrenReady
            } else {
                SpawnStage::SceneSpawned
            },
            (SpawnStage::SceneSpawned, StageEvent::NestedReady { all_ready }) => if all_ready {
                SpawnStage::ChildrenReady
            } else {
                SpawnStage::SceneSpawned
            },
            (SpawnStage::ChildrenReady, StageEvent::CleanedUp { had_children }) => if had_children {
                SpawnStage::ReadyForPostProcess
            } else {
                SpawnStage::ChildrenReady
            },
            (SpawnStage::ReadyForPostProcess, StageEvent::PostProcessed) => {
                SpawnStage::ReadyForFinalizing
            },
            (SpawnStage::ReadyForFinalizing, StageEvent::Finalized) => SpawnStage::Ready,
            _ => self,
        }
    }

    /// The stage marker that an entity carries at this stage, if any.
    pub open spec fn marker(self) -> Option<Marker> {
        match self {
            SpawnStage::Idle => None,
            SpawnStage::Requested => None,
            SpawnStage::MetaLoading => Some(Marker::BlueprintMetaLoading),
            SpawnStage::MetaLoaded => Some(Marker::BlueprintMetaLoaded),
            SpawnStage::AssetsNotLoaded => Some(Marker::BlueprintAssetsNotLoaded),
            SpawnStage::AssetsLoaded => Some(Marker::BlueprintAssetsLoaded),
            SpawnStage::SceneRequested => Some(Marker::BlueprintSceneRequested),
            SpawnStage::SceneSpawned => Some(Marker::BlueprintSceneSpawned),
            SpawnStage::ChildrenReady => Some(Marker::BlueprintChildrenReady),
            SpawnStage::ReadyForPostProcess => Some(Marker::BlueprintReadyForPostProcess),
            SpawnStage::ReadyForFinalizing => Some(Marker::BlueprintReadyForFinalizing),
            SpawnStage::Ready => None,
        }
    }

    /// All the tags of the pipeline that an entity carries at this stage.
    pub open spec fn markers(self) -> Set<Marker> {
        match self {
            SpawnStage::Idle => Set::empty(),
            SpawnStage::Requested => set![Marker::SpawnBlueprint],
            SpawnStage::Ready => set![Marker::BlueprintInstanceReady],
            _ => set![Marker::BlueprintSpawning, self.marker().unwrap()],
        }
    }

    /// The tags of the pipeline that an entity carries at this stage, in the
    /// order in which they are put on it.
    pub open spec fn marker_list(self) -> Seq<Marker> {
        match self {
            SpawnStage::Idle => Seq::empty(),
            SpawnStage::Requested => seq![Marker::SpawnBlueprint],
            SpawnStage::Ready => seq![Marker::BlueprintInstanceReady],
            _ => seq![Marker::BlueprintSpawning, self.marker().unwrap()],
        }
    }

    /// The event that ends this stage when nothing has to be waited for: every
    /// load is done, no instance is nested, and the entity has its scene.
    pub open spec fn unhindered_event(self) -> StageEvent {
        match self {
            SpawnStage::Idle => StageEvent::SpawnRequested,
            SpawnStage::Requested => StageEvent::Claimed,
            SpawnStage::MetaLoading => StageEvent::MetadataPolled { done: true },
            SpawnStage::MetaLoaded => StageEvent::AssetsEnumerated { pending: 0 },
            SpawnStage::AssetsNotLoaded => StageEvent::AssetsPolled { done: true },
            SpawnStage::AssetsLoaded => StageEvent::SceneRequested,
            SpawnStage::SceneRequested => StageEvent::SceneInstantiated { nested: 0 },
            SpawnStage::SceneSpawned => StageEvent::NestedReady { all_ready: true },
            SpawnStage::ChildrenReady => StageEvent::CleanedUp { had_children: true },
            SpawnStage::ReadyForPostProcess => StageEvent::PostProcessed,
            SpawnStage::ReadyForFinalizing => StageEvent::Finalized,
            SpawnStage::Ready => StageEvent::Finalized,
        }
    }

    /// The stage reached from `self` after `ticks` ticks in which nothing has
    /// to be waited for.
    pub open spec fn after_unhindered_ticks(self, ticks: nat) -> SpawnStage
        decreases ticks,
    {
        if ticks == 0 {
            self
        } else {
            self.next(self.unhindered_event()).after_unhindered_ticks((ticks - 1) as nat)
        }
    }

    /// The stage that follows `self` when `event` happens.
    pub fn advance(self, event: StageEvent) -> (r: SpawnStage)
        ensures
            r == self.next(event),
    {
        match (self, event) {
            (SpawnStage::Idle, StageEvent::SpawnRequested) => SpawnStage::Requested,
            (SpawnStage::Requested, StageEvent::Claimed) => SpawnStage::MetaLoading,
            (SpawnStage::MetaLoading, StageEvent::MetadataPolled { done: true }) => {
                SpawnStage::MetaLoaded
            },
            (SpawnStage::MetaLoaded, StageEvent::AssetsEnumerated { pending }) => {
                if pending == 0 {
                    SpawnStage::AssetsLoaded
                } else {
                    SpawnStage::AssetsNotLoaded
                }
            },
            (SpawnStage::AssetsNotLoaded, StageEvent::AssetsPolled { done: true }) => {
                SpawnStage::AssetsLoaded
            },
            (SpawnStage::AssetsLoaded, StageEvent::SceneRequested) => SpawnStage::SceneRequested,
            (SpawnStage::SceneRequested, StageEvent::SceneInstantiated { nested }) => {
                if nested == 0 {
                    SpawnStage::ChildrenReady
                } else {
                    SpawnStage::SceneSpawned
                }
            },
            (SpawnStage::SceneSpawned, StageEvent::NestedReady { all_ready: true }) => {
                SpawnStage::ChildrenReady
            },
            (SpawnStage::ChildrenReady, StageEvent::CleanedUp { had_children: true }) => {
                SpawnStage::ReadyForPostProcess
            },
            (SpawnStage::ReadyForPostProcess, StageEvent::PostProcessed) => {
                SpawnStage::ReadyForFinalizing
            },
            (SpawnStage::ReadyForFinalizing, StageEvent::Finalized) => SpawnStage::Ready,
            _ => self,
        }
    }

    /// The stage marker that an entity carries at this stage, if any.
    pub fn stage_marker(self) -> (r: Option<Marker>)
        ensures
            r == self.marker(),
    {
        match self {
            SpawnStage::Idle => None,
            SpawnStage::Requested => None,
            SpawnStage::MetaLoading => Some(Marker::BlueprintMetaLoading),
            SpawnStage::MetaLoaded => Some(Marker::BlueprintMetaLoaded),
            SpawnStage::AssetsNotLoaded => Some(Marker::BlueprintAssetsNotLoaded),
            SpawnStage::AssetsLoaded => Some(Marker::BlueprintAssetsLoaded),
            SpawnStage::SceneRequested => Some(Marker::BlueprintSceneRequested),
            SpawnStage::SceneSpawned => Some(Marker::BlueprintSceneSpawned),
            SpawnStage::ChildrenReady => Some(Marker::BlueprintChildrenReady),
            SpawnStage::ReadyForPostProcess => Some(Marker::BlueprintReadyForPostProcess),
            SpawnStage::ReadyForFinalizing => Some(Marker::BlueprintReadyForFinalizing),
            SpawnStage::Ready => None,
        }
    }

    /// All the tags of the pipeline that an entity carries at this stage.
    pub fn stage_markers(self) -> (r: Vec<Marker>)
        ensures
            r@ == self.marker_list(),
            forall|m: Marker| r@.contains(m) <==> self.markers().contains(m),
            r@.no_duplicates(),
    {
        let mut out: Vec<Marker> = Vec::new();
        match self {
            SpawnStage::Idle => {},
            SpawnStage::Requested => {
                out.push(Marker::SpawnBlueprint);
            },
            SpawnStage::Ready => {
                out.push(Marker::BlueprintInstanceReady);
            },
            _ => {
                out.push(Marker::BlueprintSpawning);
                let m = self.stage_marker();
                out.push(m.unwrap());
            },
        }
        proof {
            assert(out@ =~= self.marker_list());
            let markers = self.markers();
            assert forall|m: Marker| out@.contains(m) <==> markers.contains(m) by {
                if markers.contains(m) {
                    if out@.len() > 0 && m == out@[0] {
                        assert(out@.contains(m));
                    } else {
                        assert(out@.len() == 2 && m == out@[1]);
                        assert(out@.contains(m));
                    }
                }
            }
        }
        out
    }

    /// Whether the request was claimed and the instance is not ready yet.
    pub fn is_in_flight(self) -> (r: bool)
        ensures
            r == self.in_flight(),
    {
        !(self == SpawnStage::Idle || self == SpawnStage::Requested || self == SpawnStage::Ready)
    }
}

impl Marker {
    /// The tag says at which stage of the pipeline an entity stands.
    pub open spec fn is_stage_marker(self) -> bool {
        match self {
            Marker::BlueprintMetaLoading => true,
            Marker::BlueprintMetaLoaded => true,
            Marker::BlueprintAssetsNotLoaded => true,
            Marker::BlueprintAssetsLoaded => true,
            Marker::BlueprintSceneRequested => true,
            Marker::BlueprintSceneSpawned => true,
            Marker::BlueprintChildrenReady => true,
            Marker::BlueprintReadyForPostProcess => true,
            Marker::BlueprintReadyForFinalizing => true,
            _ => false,
        }
    }
}

/// The number of stages that a spawn goes through when it has nothing to
/// wait for, and so the number of ticks within which it is ready.
pub const STAGE_COUNT: usize = 9;

/// From the claim of a request until readiness an entity carries exactly one
/// stage marker, the one of its stage; before the claim and once it is ready
/// it carries none.
pub proof fn law_one_stage_marker(stage: SpawnStage)
    ensures
        stage.in_flight() <==> stage.marker() is Some,
        forall|m: Marker|
            stage.markers().contains(m) && m.is_stage_marker() ==> stage.marker() == Some(m),
        stage.marker() matches Some(m) ==> stage.markers().contains(m) && m.is_stage_marker(),
        stage == SpawnStage::Ready ==> forall|m: Marker|
            stage.markers().contains(m) ==> !m.is_stage_marker(),
{
}

/// Two stages with the same stage marker are the same stage.
pub proof fn law_stage_marker_names_stage(a: SpawnStage, b: SpawnStage)
    requires
        a.marker() is Some,
        a.marker() == b.marker(),
    ensures
        a == b,
{
}

/// No event takes a request back to an earlier stage, so each stage is
/// entered at most once, and a ready instance stays ready. An event takes a
/// request one stage further at most, but for the two stages of waiting,
/// which are passed over where there is nothing to wait for.
pub proof fn law_stages_never_go_back(stage: SpawnStage, event: StageEvent)
    ensures
        stage.next(event) == stage || stage.next(event).rank() > stage.rank(),
        stage == SpawnStage::Ready ==> stage.next(event) == SpawnStage::Ready,
        stage.next(event).rank() <= stage.rank() + 2,
        stage.next(event).rank() == stage.rank() + 2 ==> {
            ||| (stage == SpawnStage::MetaLoaded && event == StageEvent::AssetsEnumerated {
                pending: 0,
            })
            ||| (stage == SpawnStage::SceneRequested && event == StageEvent::SceneInstantiated {
                nested: 0,
            })
        },
{
}

/// A spawn that has nothing to wait for is ready within `STAGE_COUNT` ticks,
/// whatever its stage, and on its way it never waits for nested instances.
pub proof fn law_unhindered_spawn_is_ready_in_time(stage: SpawnStage, ticks: nat)
    ensures
        ticks >= STAGE_COUNT ==> stage.after_unhindered_ticks(ticks) == SpawnStage::Ready,
        stage != SpawnStage::SceneSpawned ==> stage.after_unhindered_ticks(ticks)
            != SpawnStage::SceneSpawned,
    decreases ticks,
{
    if ticks > 0 {
        law_unhindered_spawn_is_ready_in_time(
            stage.next(stage.unhindered_event()),
            (ticks - 1) as nat,
        );
    }
    if ticks >= STAGE_COUNT {
        lemma_ready_in(stage, ticks);
    }
}

/// The number of unhindered ticks that a stage is away from readiness.
pub open spec fn ticks_to_ready(stage: SpawnStage) -> nat {
    match stage {
        SpawnStage::Idle => 9,
        SpawnStage::Requested => 8,
        SpawnStage::MetaLoading => 7,
        SpawnStage::MetaLoaded => 6,
        SpawnStage::AssetsNotLoaded => 6,
        SpawnStage::AssetsLoaded => 5,
        SpawnStage::SceneRequested => 4,
        SpawnStage::SceneSpawned => 4,
        SpawnStage::ChildrenReady => 3,
        SpawnStage::ReadyForPostProcess => 2,
        SpawnStage::ReadyForFinalizing => 1,
        SpawnStage::Ready => 0,
    }
}

/// A stage is ready after as many unhindered ticks as it is away from readiness.
proof fn lemma_ready_in(stage: SpawnStage, ticks: nat)
    requires
        ticks >= ticks_to_ready(stage),
    ensures
        stage.after_unhindered_ticks(ticks) == SpawnStage::Ready,
    decreases ticks,
{
    if ticks > 0 {
        lemma_ready_in(stage.next(stage.unhindered_event()), (ticks - 1) as nat);
    }
}

} // verus!
