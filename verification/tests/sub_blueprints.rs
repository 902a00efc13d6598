use blenvy::blueprints::sub_blueprints::SubBlueprintsSpawnTracker;

#[test]
fn an_empty_tracker_is_ready() {
    let tracker = SubBlueprintsSpawnTracker::new();
    assert!(tracker.is_empty());
    assert!(tracker.all_spawned());
    assert_eq!(tracker.readiness(1), None);
    assert!(tracker.instances().is_empty());
}

#[test]
fn a_tracker_is_ready_with_its_last_entry() {
    let mut tracker = SubBlueprintsSpawnTracker::new();
    tracker.track(10);
    tracker.track(11);
    assert!(!tracker.is_empty());
    assert!(!tracker.all_spawned());
    assert_eq!(tracker.readiness(10), Some(false));
    tracker.mark_ready(10);
    assert_eq!(tracker.readiness(10), Some(true));
    assert_eq!(tracker.readiness(11), Some(false));
    assert!(!tracker.all_spawned());
    tracker.mark_ready(11);
    assert!(tracker.all_spawned());
    let mut items = tracker.instances();
    items.sort();
    assert_eq!(items, vec![(10, true), (11, true)]);
}

#[test]
fn marking_an_untracked_instance_adds_it_as_ready() {
    let mut tracker = SubBlueprintsSpawnTracker::new();
    tracker.track(1);
    tracker.mark_ready(2);
    assert_eq!(tracker.readiness(2), Some(true));
    assert!(!tracker.all_spawned());
    tracker.track(2);
    assert_eq!(tracker.readiness(2), Some(false));
    assert_eq!(tracker.instances().len(), 2);
}
