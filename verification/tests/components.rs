use bevy::reflect::TypeRegistry;
use blenvy::components::process_gltfs::{
    add_components_from_gltf_extras, find_entity_components, target_entity, EntityComponents,
    GltfExtra,
};
use blenvy::components::ronstring_to_reflect_component::{
    bevy_components_string_to_components, component_ron, components_string_to_components,
    direct_type_name, push_resolved, ronstring_to_reflect_component, select_payload,
    ReflectedComponent,
};

fn pairs(components: &Vec<ReflectedComponent>) -> Vec<(String, String)> {
    components.iter().map(|c| (c.type_path.clone(), c.ron.clone())).collect()
}

fn pair(type_path: &str, ron: &str) -> (String, String) {
    (type_path.to_string(), ron.to_string())
}

fn extra(entity: u64, name: Option<&str>, parent: Option<u64>, value: &str) -> GltfExtra {
    GltfExtra {
        entity,
        name: name.map(|n| n.to_string()),
        parent,
        value: value.to_string(),
        processed: false,
    }
}

#[test]
fn a_key_names_a_type_by_its_capitalized_short_name() {
    assert_eq!(direct_type_name("component: Health"), "Health");
    assert_eq!(direct_type_name("component: health"), "Health");
    assert_eq!(direct_type_name("health"), "Health");
    assert_eq!(direct_type_name("  health  "), "Health");
    assert_eq!(direct_type_name("component:  health"), "Health");
    assert_eq!(direct_type_name(""), "");
}

#[test]
fn the_text_of_a_component() {
    assert_eq!(component_ron("game::Health", "100"), "{ \"game::Health\": 100 }");
    assert_eq!(component_ron("", ""), "{ \"\":  }");
}

#[test]
fn a_string_is_its_own_payload() {
    assert_eq!(
        select_payload(Some("text".to_string()), Some("\"text\"".to_string())),
        Some("text".to_string())
    );
    assert_eq!(select_payload(None, Some("100".to_string())), Some("100".to_string()));
    assert_eq!(select_payload(None, None), None);
    assert_eq!(select_payload(Some("t".to_string()), None), Some("t".to_string()));
}

#[test]
fn a_type_that_was_found_gives_a_component() {
    let registry = TypeRegistry::new();
    let mut components = vec![ReflectedComponent { type_path: "a".to_string(), ron: "b".to_string() }];
    push_resolved(None, "1", &registry, &mut components);
    assert_eq!(pairs(&components), vec![pair("a", "b")]);
    push_resolved(Some("u32".to_string()), "100", &registry, &mut components);
    assert_eq!(pairs(&components), vec![pair("a", "b"), pair("u32", "{ \"u32\": 100 }")]);
    push_resolved(Some("u32".to_string()), "minus one", &registry, &mut components);
    push_resolved(Some("game::Health".to_string()), "100", &registry, &mut components);
    assert_eq!(pairs(&components), vec![pair("a", "b"), pair("u32", "{ \"u32\": 100 }")]);
}

#[test]
fn attribute_text_resolves_to_a_registered_type() {
    let registry = TypeRegistry::new();
    let components =
        ronstring_to_reflect_component("{\"component: string\": \"\\\"hello\\\"\"}", &registry);
    assert_eq!(
        pairs(&components),
        vec![pair("alloc::string::String", "{ \"alloc::string::String\": \"hello\" }")]
    );
}

#[test]
fn a_value_that_is_no_string_is_written_as_text() {
    let registry = TypeRegistry::new();
    let components = ronstring_to_reflect_component(
        "{\"bevy_components\": {\"u32\": 5, \"bool\": true, \"alloc::string::String\": \"x\"}}",
        &registry,
    );
    assert_eq!(
        pairs(&components),
        vec![pair("bool", "{ \"bool\": true }"), pair("u32", "{ \"u32\": 5 }")]
    );
}

#[test]
fn a_payload_that_cannot_be_read_is_left_out() {
    let registry = TypeRegistry::new();
    assert!(ronstring_to_reflect_component("{\"string\": 100}", &registry).is_empty());
    assert!(ronstring_to_reflect_component("{\"string\": \"hello\"}", &registry).is_empty());
    assert!(ronstring_to_reflect_component("{\"string\": [1, 2]}", &registry).is_empty());
    let mut components = Vec::new();
    components_string_to_components("string", "100", &registry, &mut components);
    assert!(components.is_empty());
    bevy_components_string_to_components(
        "{\"bool\": \"maybe\", \"u32\": 7, \"u8\": 256, \"u16\": 3}",
        &registry,
        &mut components,
    );
    assert_eq!(
        pairs(&components),
        vec![pair("u16", "{ \"u16\": 3 }"), pair("u32", "{ \"u32\": 7 }")]
    );
}

#[test]
fn an_unknown_type_is_left_out() {
    let registry = TypeRegistry::new();
    let components = ronstring_to_reflect_component(
        "{\"component: health\": \"100\", \"string\": \"\\\"x\\\"\", \"u32\": \"5\"}",
        &registry,
    );
    assert_eq!(
        pairs(&components),
        vec![pair("alloc::string::String", "{ \"alloc::string::String\": \"x\" }")]
    );
}

#[test]
fn text_that_is_no_map_gives_nothing() {
    let registry = TypeRegistry::new();
    assert!(ronstring_to_reflect_component("not a map", &registry).is_empty());
    assert!(ronstring_to_reflect_component("", &registry).is_empty());
    assert!(ronstring_to_reflect_component("{}", &registry).is_empty());
}

#[test]
fn entries_come_in_the_order_of_their_keys() {
    let registry = TypeRegistry::new();
    let components = ronstring_to_reflect_component(
        "{\"string\": \"\\\"second\\\"\", \"bool\": \"true\", \"String\": \"\\\"first\\\"\"}",
        &registry,
    );
    assert_eq!(
        pairs(&components),
        vec![
            pair("alloc::string::String", "{ \"alloc::string::String\": \"first\" }"),
            pair("alloc::string::String", "{ \"alloc::string::String\": \"second\" }"),
        ]
    );
}

#[test]
fn a_bulk_declaration_names_types_by_their_full_path() {
    let registry = TypeRegistry::new();
    let text = "{\"bevy_components\": \"{\\\"u32\\\": 5, \\\"alloc::string::String\\\": \\\"\\\\\\\"x\\\\\\\"\\\", \\\"String\\\": \\\"y\\\"}\"}";
    let components = ronstring_to_reflect_component(text, &registry);
    assert_eq!(
        pairs(&components),
        vec![
            pair("alloc::string::String", "{ \"alloc::string::String\": \"x\" }"),
            pair("u32", "{ \"u32\": 5 }"),
        ]
    );
}

#[test]
fn direct_and_bulk_lookups_differ() {
    let registry = TypeRegistry::new();
    let mut components = Vec::new();
    components_string_to_components("component: string", "\"a\"", &registry, &mut components);
    components_string_to_components("alloc::string::String", "\"b\"", &registry, &mut components);
    components_string_to_components("component: nothing", "\"c\"", &registry, &mut components);
    assert_eq!(
        pairs(&components),
        vec![pair("alloc::string::String", "{ \"alloc::string::String\": \"a\" }")]
    );
    bevy_components_string_to_components("{\"bool\": true, \"Bool\": false}", &registry, &mut components);
    bevy_components_string_to_components("no map", &registry, &mut components);
    assert_eq!(
        pairs(&components),
        vec![
            pair("alloc::string::String", "{ \"alloc::string::String\": \"a\" }"),
            pair("bool", "{ \"bool\": true }"),
        ]
    );
}

#[test]
fn attributes_go_to_the_node_or_to_its_parent() {
    assert_eq!(target_entity(2, &Some("foo_components".to_string()), Some(1)), 1);
    assert_eq!(target_entity(2, &Some("foo_pa".to_string()), Some(1)), 1);
    assert_eq!(target_entity(2, &Some("components_of_foo".to_string()), Some(1)), 1);
    assert_eq!(target_entity(2, &Some("foo_components".to_string()), None), 2);
    assert_eq!(target_entity(2, &Some("foo".to_string()), Some(1)), 2);
    assert_eq!(target_entity(2, &Some("foo_pa_".to_string()), Some(1)), 2);
    assert_eq!(target_entity(2, &None, Some(1)), 2);
}

#[test]
fn new_components_come_after_those_gathered_before() {
    let mut gathered = EntityComponents::new();
    gathered.put(1, vec![ReflectedComponent { type_path: "A".to_string(), ron: "a".to_string() }]);
    let new = vec![ReflectedComponent { type_path: "B".to_string(), ron: "b".to_string() }];
    let (target, all) =
        find_entity_components(2, &Some("x_components".to_string()), Some(1), new.clone(), &gathered);
    assert_eq!(target, 1);
    assert_eq!(pairs(&all), vec![pair("A", "a"), pair("B", "b")]);
    let (target, all) = find_entity_components(2, &Some("x".to_string()), Some(1), new, &gathered);
    assert_eq!(target, 2);
    assert_eq!(pairs(&all), vec![pair("B", "b")]);
    assert_eq!(gathered.into_entries().len(), 1);
}

#[test]
fn components_are_gathered_per_target_in_the_order_of_the_sources() {
    let registry = TypeRegistry::new();
    let extras = vec![
        extra(2, Some("foo_components"), Some(1), "{\"string\": \"\\\"from node\\\"\"}"),
        extra(3, Some("bar"), Some(1), "{\"string\": \"\\\"own\\\"\"}"),
    ];
    let scene_extras = vec![extra(1, None, None, "{\"string\": \"\\\"from scene\\\"\"}")];
    let mesh_extras = vec![extra(4, Some("mesh_pa"), Some(3), "{\"string\": \"\\\"from mesh\\\"\"}")];
    let material_extras = vec![
        extra(5, Some("m"), Some(1), "nothing here"),
        GltfExtra {
            entity: 6,
            name: None,
            parent: None,
            value: "{\"string\": \"\\\"again\\\"\"}".to_string(),
            processed: true,
        },
    ];
    let mut out = add_components_from_gltf_extras(
        &extras,
        &scene_extras,
        &mesh_extras,
        &material_extras,
        &registry,
    );
    out.sort_by_key(|entry| entry.0);
    let seen: Vec<(u64, Vec<(String, String)>)> =
        out.iter().map(|(entity, components)| (*entity, pairs(components))).collect();
    assert_eq!(
        seen,
        vec![
            (
                1,
                vec![
                    pair("alloc::string::String", "{ \"alloc::string::String\": \"from node\" }"),
                    pair("alloc::string::String", "{ \"alloc::string::String\": \"from scene\" }"),
                ]
            ),
            (
                3,
                vec![
                    pair("alloc::string::String", "{ \"alloc::string::String\": \"own\" }"),
                    pair("alloc::string::String", "{ \"alloc::string::String\": \"from mesh\" }"),
                ]
            ),
            (5, vec![]),
        ]
    );
}

#[test]
fn nodes_that_were_worked_on_give_nothing() {
    let registry = TypeRegistry::new();
    let mut done = extra(2, Some("foo"), Some(1), "{\"string\": \"\\\"x\\\"\"}");
    done.processed = true;
    let out = add_components_from_gltf_extras(&vec![done.clone()], &vec![done.clone()], &vec![], &vec![done], &registry);
    assert!(out.is_empty());
}

#[test]
fn a_registered_type_whose_text_cannot_be_read_is_left_out() {
    let mut registry = TypeRegistry::new();
    registry.register::<bevy::core::Name>();
    assert!(ronstring_to_reflect_component("{\"component: name\": 100}", &registry).is_empty());
    let mut components = Vec::new();
    bevy_components_string_to_components(
        "{\"bevy_core::name::Name\": 100, \"u64\": 100}",
        &registry,
        &mut components,
    );
    assert_eq!(pairs(&components), vec![pair("u64", "{ \"u64\": 100 }")]);
}
