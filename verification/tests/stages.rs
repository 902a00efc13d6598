use blenvy::blueprints::stages::{Marker, SpawnStage, StageEvent, STAGE_COUNT};

#[test]
fn each_stage_follows_on_its_event() {
    assert_eq!(SpawnStage::Idle.advance(StageEvent::SpawnRequested), SpawnStage::Requested);
    assert_eq!(SpawnStage::Requested.advance(StageEvent::Claimed), SpawnStage::MetaLoading);
    assert_eq!(
        SpawnStage::MetaLoading.advance(StageEvent::MetadataPolled { done: true }),
        SpawnStage::MetaLoaded
    );
    assert_eq!(
        SpawnStage::MetaLoading.advance(StageEvent::MetadataPolled { done: false }),
        SpawnStage::MetaLoading
    );
    assert_eq!(
        SpawnStage::MetaLoaded.advance(StageEvent::AssetsEnumerated { pending: 2 }),
        SpawnStage::AssetsNotLoaded
    );
    assert_eq!(
        SpawnStage::MetaLoaded.advance(StageEvent::AssetsEnumerated { pending: 0 }),
        SpawnStage::AssetsLoaded
    );
    assert_eq!(
        SpawnStage::AssetsNotLoaded.advance(StageEvent::AssetsPolled { done: true }),
        SpawnStage::AssetsLoaded
    );
    assert_eq!(
        SpawnStage::AssetsNotLoaded.advance(StageEvent::AssetsPolled { done: false }),
        SpawnStage::AssetsNotLoaded
    );
    assert_eq!(SpawnStage::AssetsLoaded.advance(StageEvent::SceneRequested), SpawnStage::SceneRequested);
    assert_eq!(
        SpawnStage::SceneRequested.advance(StageEvent::SceneInstantiated { nested: 0 }),
        SpawnStage::ChildrenReady
    );
    assert_eq!(
        SpawnStage::SceneRequested.advance(StageEvent::SceneInstantiated { nested: 3 }),
        SpawnStage::SceneSpawned
    );
    assert_eq!(
        SpawnStage::SceneSpawned.advance(StageEvent::NestedReady { all_ready: false }),
        SpawnStage::SceneSpawned
    );
    assert_eq!(
        SpawnStage::SceneSpawned.advance(StageEvent::NestedReady { all_ready: true }),
        SpawnStage::ChildrenReady
    );
    assert_eq!(
        SpawnStage::ChildrenReady.advance(StageEvent::CleanedUp { had_children: false }),
        SpawnStage::ChildrenReady
    );
    assert_eq!(
        SpawnStage::ChildrenReady.advance(StageEvent::CleanedUp { had_children: true }),
        SpawnStage::ReadyForPostProcess
    );
    assert_eq!(
        SpawnStage::ReadyForPostProcess.advance(StageEvent::PostProcessed),
        SpawnStage::ReadyForFinalizing
    );
    assert_eq!(SpawnStage::ReadyForFinalizing.advance(StageEvent::Finalized), SpawnStage::Ready);
}

#[test]
fn an_event_of_another_stage_changes_nothing() {
    assert_eq!(SpawnStage::Idle.advance(StageEvent::Claimed), SpawnStage::Idle);
    assert_eq!(SpawnStage::MetaLoading.advance(StageEvent::Claimed), SpawnStage::MetaLoading);
    assert_eq!(SpawnStage::Ready.advance(StageEvent::Finalized), SpawnStage::Ready);
    assert_eq!(SpawnStage::Ready.advance(StageEvent::Claimed), SpawnStage::Ready);
    assert_eq!(
        SpawnStage::ChildrenReady.advance(StageEvent::NestedReady { all_ready: true }),
        SpawnStage::ChildrenReady
    );
}

#[test]
fn stages_in_flight_carry_one_stage_marker() {
    let in_flight = [
        (SpawnStage::MetaLoading, Marker::BlueprintMetaLoading),
        (SpawnStage::MetaLoaded, Marker::BlueprintMetaLoaded),
        (SpawnStage::AssetsNotLoaded, Marker::BlueprintAssetsNotLoaded),
        (SpawnStage::AssetsLoaded, Marker::BlueprintAssetsLoaded),
        (SpawnStage::SceneRequested, Marker::BlueprintSceneRequested),
        (SpawnStage::SceneSpawned, Marker::BlueprintSceneSpawned),
        (SpawnStage::ChildrenReady, Marker::BlueprintChildrenReady),
        (SpawnStage::ReadyForPostProcess, Marker::BlueprintReadyForPostProcess),
        (SpawnStage::ReadyForFinalizing, Marker::BlueprintReadyForFinalizing),
    ];
    for (stage, marker) in in_flight {
        assert!(stage.is_in_flight());
        assert_eq!(stage.stage_marker(), Some(marker));
        assert_eq!(stage.stage_markers(), vec![Marker::BlueprintSpawning, marker]);
    }
}

#[test]
fn stages_outside_the_pipeline_carry_no_stage_marker() {
    for stage in [SpawnStage::Idle, SpawnStage::Requested, SpawnStage::Ready] {
        assert!(!stage.is_in_flight());
        assert_eq!(stage.stage_marker(), None);
    }
    assert_eq!(SpawnStage::Idle.stage_markers(), Vec::<Marker>::new());
    assert_eq!(SpawnStage::Requested.stage_markers(), vec![Marker::SpawnBlueprint]);
    assert_eq!(SpawnStage::Ready.stage_markers(), vec![Marker::BlueprintInstanceReady]);
}

#[test]
fn an_unhindered_request_is_ready_within_the_stage_count() {
    let events = [
        StageEvent::SpawnRequested,
        StageEvent::Claimed,
        StageEvent::MetadataPolled { done: true },
        StageEvent::AssetsEnumerated { pending: 0 },
        StageEvent::SceneRequested,
        StageEvent::SceneInstantiated { nested: 0 },
        StageEvent::CleanedUp { had_children: true },
        StageEvent::PostProcessed,
        StageEvent::Finalized,
    ];
    let mut stage = SpawnStage::Idle;
    let mut ticks = 0;
    for event in events {
        let next = stage.advance(event);
        assert_ne!(next, stage);
        assert_ne!(next, SpawnStage::SceneSpawned);
        stage = next;
        ticks += 1;
    }
    assert_eq!(stage, SpawnStage::Ready);
    assert_eq!(ticks, STAGE_COUNT);
    assert_eq!(STAGE_COUNT, 9);
}
