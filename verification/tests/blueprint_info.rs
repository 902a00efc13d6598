use blenvy::blueprints::info::BlueprintInfo;

#[test]
fn from_path_names_the_blueprint_by_its_file_stem() {
    let info = BlueprintInfo::from_path("levels/World.glb");
    assert_eq!(info.name, "World");
    assert_eq!(info.path, "levels/World.glb");
}

#[test]
fn from_path_keeps_spaces_and_inner_dots() {
    let info = BlueprintInfo::from_path("blueprints/Blueprint 3.gltf");
    assert_eq!(info.name, "Blueprint 3");
    let info = BlueprintInfo::from_path("a/b.c.glb");
    assert_eq!(info.name, "b.c");
}

#[test]
fn try_from_path_gives_none_without_a_file_name() {
    assert!(BlueprintInfo::try_from_path("").is_none());
    assert!(BlueprintInfo::try_from_path("levels/..").is_none());
    let info = BlueprintInfo::try_from_path("levels/World.glb").unwrap();
    assert_eq!(info.name, "World");
    assert_eq!(info.path, "levels/World.glb");
}

#[test]
fn with_stem_takes_the_stem_as_name() {
    let info = BlueprintInfo::with_stem(Some("Stem".to_string()), "x/y.glb").unwrap();
    assert_eq!(info.name, "Stem");
    assert_eq!(info.path, "x/y.glb");
    assert!(BlueprintInfo::with_stem(None, "x/y.glb").is_none());
}

#[test]
fn metadata_path_replaces_the_extension() {
    assert_eq!(BlueprintInfo::new("World", "levels/World.glb").metadata_path(), "levels/World.meta.ron");
    assert_eq!(BlueprintInfo::new("B", "blueprints/B.gltf").metadata_path(), "blueprints/B.meta.ron");
    assert_eq!(BlueprintInfo::new("B", "blueprints/B.txt").metadata_path(), "blueprints/B.txt");
    assert_eq!(BlueprintInfo::new("B", "a.glb/b.glb").metadata_path(), "a.glb/b.meta.ron");
}

#[test]
fn default_and_duplicate() {
    let empty = BlueprintInfo::default();
    assert_eq!(empty.name, "");
    assert_eq!(empty.path, "");
    let info = BlueprintInfo::new("N", "p.glb");
    let copy = info.duplicate();
    assert_eq!(copy.name, "N");
    assert_eq!(copy.path, "p.glb");
}
