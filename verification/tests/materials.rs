use blenvy::blueprints::materials::{
    inject_materials, material_full_path, BlenvyMaterialConfig, MaterialAction, MaterialInfo,
    MaterialInfos, MaterialLookup, MaterialTarget,
};

fn info(path: &str, name: &str) -> MaterialInfo {
    MaterialInfo { path: path.to_string(), name: name.to_string() }
}

#[test]
fn materials_go_to_the_child_at_the_same_place() {
    let mut config = BlenvyMaterialConfig::new();
    let infos = MaterialInfos(vec![info("m.glb", "Red"), info("m.glb", "Blue")]);
    let children = vec![
        MaterialTarget { entity: 10, has_mesh_and_material: true },
        MaterialTarget { entity: 11, has_mesh_and_material: false },
    ];
    let lookups = vec![MaterialLookup::Found(500), MaterialLookup::Found(501)];
    let actions = inject_materials(&mut config, 1, false, &infos, &lookups, &children);
    assert_eq!(
        actions,
        vec![
            MaterialAction::SetMaterial { entity: 10, material: 500 },
            MaterialAction::MarkProcessed { entity: 1 },
        ]
    );
    assert_eq!(
        config.materials_cache,
        vec![("m.glb#Red".to_string(), 500), ("m.glb#Blue".to_string(), 501)]
    );
}

#[test]
fn an_entity_that_is_done_is_left_alone() {
    let mut config = BlenvyMaterialConfig::new();
    let infos = MaterialInfos(vec![info("m.glb", "Red")]);
    let children = vec![MaterialTarget { entity: 10, has_mesh_and_material: true }];
    let lookups = vec![MaterialLookup::Found(500)];
    let actions = inject_materials(&mut config, 1, true, &infos, &lookups, &children);
    assert!(actions.is_empty());
    assert!(config.materials_cache.is_empty());
}

#[test]
fn the_cache_comes_before_the_asset() {
    let mut config = BlenvyMaterialConfig::new();
    config.materials_cache.push(("m.glb#Red".to_string(), 7));
    let infos = MaterialInfos(vec![info("m.glb", "Red"), info("m.glb", "Green"), info("m.glb", "Green")]);
    let children = vec![
        MaterialTarget { entity: 10, has_mesh_and_material: true },
        MaterialTarget { entity: 11, has_mesh_and_material: true },
        MaterialTarget { entity: 12, has_mesh_and_material: true },
    ];
    let lookups = vec![MaterialLookup::Found(500), MaterialLookup::Found(600), MaterialLookup::MissingMaterial];
    let actions = inject_materials(&mut config, 1, false, &infos, &lookups, &children);
    assert_eq!(
        actions,
        vec![
            MaterialAction::SetMaterial { entity: 10, material: 7 },
            MaterialAction::SetMaterial { entity: 11, material: 600 },
            MaterialAction::SetMaterial { entity: 12, material: 600 },
            MaterialAction::MarkProcessed { entity: 1 },
        ]
    );
    assert_eq!(config.get("m.glb#Green"), Some(600));
    assert_eq!(config.get("m.glb#Red"), Some(7));
    assert_eq!(config.get("m.glb#Blue"), None);
    assert_eq!(config.materials_cache.len(), 2);
}

#[test]
fn what_is_not_found_is_reported_and_the_entity_is_done() {
    let mut config = BlenvyMaterialConfig::new();
    let infos = MaterialInfos(vec![info("m.glb", "Red"), info("n.glb", "Blue"), info("o.glb", "X")]);
    let children = vec![MaterialTarget { entity: 10, has_mesh_and_material: true }];
    let lookups = vec![MaterialLookup::MissingMaterial, MaterialLookup::AssetNotLoaded];
    let actions = inject_materials(&mut config, 1, false, &infos, &lookups, &children);
    assert_eq!(
        actions,
        vec![
            MaterialAction::ReportMissingMaterial { index: 0 },
            MaterialAction::ReportAssetNotLoaded { index: 1 },
            MaterialAction::ReportAssetNotLoaded { index: 2 },
            MaterialAction::MarkProcessed { entity: 1 },
        ]
    );
    assert!(config.materials_cache.is_empty());
}

#[test]
fn more_materials_than_children() {
    let mut config = BlenvyMaterialConfig::new();
    let infos = MaterialInfos(vec![info("m.glb", "Red"), info("m.glb", "Blue")]);
    let children = vec![MaterialTarget { entity: 10, has_mesh_and_material: true }];
    let lookups = vec![MaterialLookup::Found(1), MaterialLookup::Found(2)];
    let actions = inject_materials(&mut config, 3, false, &infos, &lookups, &children);
    assert_eq!(
        actions,
        vec![
            MaterialAction::SetMaterial { entity: 10, material: 1 },
            MaterialAction::MarkProcessed { entity: 3 },
        ]
    );
    assert_eq!(config.materials_cache.len(), 2);
}

#[test]
fn the_key_of_a_material() {
    assert_eq!(material_full_path(&info("materials/m.glb", "Red")), "materials/m.glb#Red");
    assert_eq!(material_full_path(&info("", "")), "#");
}
