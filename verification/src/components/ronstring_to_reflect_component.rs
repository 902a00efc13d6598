//! From the attribute text of a scene node to the components it describes.
use crate::text::{capitalize_first_letter, capitalized, remove_all, same_text, trim, trimmed, without_all};
use bevy::reflect::serde::ReflectDeserializer;
use bevy::reflect::TypeRegistry;
use ron::Value;
use serde::de::DeserializeSeed;
use std::collections::BTreeMap;
use vstd::prelude::*;

verus! {

/// `ron::Value`: a value as `ron` has read it. It is carried along as it
/// is; `ron_string_of` and `ron_text_of` name what the code reads from one.
#[verifier::external_type_specification]
#[verifier::external_body]
pub struct ExValue(Value);

/// `bevy_reflect::TypeRegistry`: the registered types of an application.
/// `registry_short_paths` and `registry_type_paths` name what it holds, and
/// `reflect_readable` which texts it can read.
#[verifier::external_type_specification]
#[verifier::external_body]
pub struct ExTypeRegistry(TypeRegistry);

/// A component that is still to be built: the path of its registered type,
/// and the text from which a value of that type is read.
#[derive(Clone, Debug)]
pub struct ReflectedComponent {
    pub type_path: String,
    pub ron: String,
}

/// A component as the path of its type and its text.
pub type ComponentView = (Seq<char>, Seq<char>);

/// The entries of the map that a text holds, in the order of their keys;
/// `None` where the text is no map from strings to values.
pub uninterp spec fn parsed_ron_map(text: Seq<char>) -> Option<Seq<(Seq<char>, Value)>>;

/// The string that a value is, or `None` where it is not a string.
pub uninterp spec fn ron_string_of(value: Value) -> Option<Seq<char>>;

/// The text that a value is written as, or `None` where it cannot be written.
pub uninterp spec fn ron_text_of(value: Value) -> Option<Seq<char>>;

/// What a registry holds under short type paths: for each short path that
/// exactly one registered type has, the full path of that type.
pub uninterp spec fn registry_short_paths(registry: TypeRegistry) -> Map<Seq<char>, Seq<char>>;

/// What a registry holds under full type paths: for each, the full path of
/// the type that is registered under it.
pub uninterp spec fn registry_type_paths(registry: TypeRegistry) -> Map<Seq<char>, Seq<char>>;

/// A value of a registered type can be read from the text, which names the
/// type by its full path and holds the value.
pub uninterp spec fn reflect_readable(registry: TypeRegistry, text: Seq<char>) -> bool;

/// The entries of a list, each key as its text.
pub open spec fn entries_view(entries: Seq<(String, Value)>) -> Seq<(Seq<char>, Value)> {
    entries.map_values(|e: (String, Value)| (e.0@, e.1))
}

/// `ron::from_str` into a `BTreeMap` from strings to values: the entries of
/// the map that the text holds, in the order of their keys, or `None` where
/// `ron` rejects the text. Of two entries with one key the later one stays.
#[verifier::external_body]
fn ron_parse_map(text: &str) -> (r: Option<Vec<(String, Value)>>)
    ensures
        r is Some <==> parsed_ron_map(text@) is Some,
        r matches Some(entries) ==> parsed_ron_map(text@) == Some(entries_view(entries@)),
{
    match ron::from_str::<BTreeMap<String, Value>>(text) {
        Ok(map) => Some(map.into_iter().collect()),
        Err(_) => None,
    }
}

/// Tells the variant `Value::String` of `ron` from the others, and hands out
/// the string that it holds.
#[verifier::external_body]
fn ron_string_value(value: &Value) -> (r: Option<String>)
    ensures
        r is Some <==> ron_string_of(*value) is Some,
        r matches Some(text) ==> ron_string_of(*value) == Some(text@),
{
    match value {
        Value::String(text) => Some(text.clone()),
        _ => None,
    }
}

/// `ron::to_string` on a value: its text, or `None` where `ron` cannot write it.
#[verifier::external_body]
fn ron_to_string(value: &Value) -> (r: Option<String>)
    ensures
        r is Some <==> ron_text_of(*value) is Some,
        r matches Some(text) ==> ron_text_of(*value) == Some(text@),
{
    match ron::to_string(value) {
        Ok(text) => Some(text),
        Err(_) => None,
    }
}

/// `TypeRegistry::get_with_short_type_path` of `bevy_reflect`: the full path
/// of the type registered under the short path, or `None` where the short
/// path is unknown or fits several types.
#[verifier::external_body]
fn get_with_short_type_path(registry: &TypeRegistry, short_type_path: &str) -> (r: Option<String>)
    ensures
        r is Some <==> registry_short_paths(*registry).dom().contains(short_type_path@),
        r matches Some(path) ==> path@ == registry_short_paths(*registry)[short_type_path@],
{
    match registry.get_with_short_type_path(short_type_path) {
        Some(registration) => Some(registration.type_info().type_path().to_owned()),
        None => None,
    }
}

/// `TypeRegistry::get_with_type_path` of `bevy_reflect`: the full path of the
/// type registered under the given path, or `None` where none is.
#[verifier::external_body]
fn get_with_type_path(registry: &TypeRegistry, type_path: &str) -> (r: Option<String>)
    ensures
        r is Some <==> registry_type_paths(*registry).dom().contains(type_path@),
        r matches Some(path) ==> path@ == registry_type_paths(*registry)[type_path@],
{
    match registry.get_with_type_path(type_path) {
        Some(registration) => Some(registration.type_info().type_path().to_owned()),
        None => None,
    }
}

/// An optional string as its text.
pub open spec fn text_of(s: Option<String>) -> Option<Seq<char>> {
    match s {
        Some(text) => Some(text@),
        None => None,
    }
}

/// `ReflectDeserializer::deserialize` of `bevy_reflect`, fed by
/// `ron::Deserializer::from_str` and followed by
/// `PartialReflect::try_into_reflect`: whether all three succeed on the text,
/// so that a value of a registered type comes out of it. The value itself is
/// a trait object of `bevy_reflect` and is dropped here.
#[verifier::external_body]
fn reflect_deserializes(registry: &TypeRegistry, text: &str) -> (r: bool)
    ensures
        r == reflect_readable(*registry, text@),
{
    match ron::Deserializer::from_str(text) {
        Ok(mut deserializer) => {
            match ReflectDeserializer::new(registry).deserialize(&mut deserializer) {
                Ok(value) => value.try_into_reflect().is_ok(),
                Err(_) => false,
            }
        },
        Err(_) => false,
    }
}

/// The key under which a node declares several components at once.
pub open spec fn bulk_key() -> Seq<char> {
    "bevy_components"@
}

/// The short type name that a key stands for: the key without `component: `,
/// without white space at its ends, its first letter in upper case.
pub open spec fn type_name_of(key: Seq<char>) -> Seq<char> {
    capitalized(trimmed(without_all(key, "component: "@)))
}

/// The text from which a component of the type at `type_path` is read.
pub open spec fn component_text(type_path: Seq<char>, payload: Seq<char>) -> Seq<char> {
    "{ \""@ + type_path + "\": "@ + payload + " }"@
}

/// The text of a value that is a string or can be written as text.
pub open spec fn selected_payload(text: Option<Seq<char>>, written: Option<Seq<char>>) -> Option<
    Seq<char>,
> {
    match text {
        Some(t) => Some(t),
        None => written,
    }
}

/// The text that stands for a value: the string that it is, or else the text
/// that it is written as.
pub open spec fn payload_of(value: Value) -> Option<Seq<char>> {
    selected_payload(ron_string_of(value), ron_text_of(value))
}

/// The component that a type path found in the registry gives: one, where
/// a type was found and a value of it can be read from the text made of its
/// path and the payload; else none.
pub open spec fn resolved(
    registry: TypeRegistry,
    found: Option<Seq<char>>,
    payload: Seq<char>,
) -> Seq<ComponentView> {
    match found {
        Some(path) => if reflect_readable(registry, component_text(path, payload)) {
            seq![(path, component_text(path, payload))]
        } else {
            Seq::empty()
        },
        None => Seq::empty(),
    }
}

/// What the registry holds under `key`, in `paths`.
pub open spec fn found_in(paths: Map<Seq<char>, Seq<char>>, key: Seq<char>) -> Option<Seq<char>> {
    if paths.dom().contains(key) {
        Some(paths[key])
    } else {
        None
    }
}

/// The components of a bulk declaration: each entry names a type by its full
/// path; an entry whose type is not registered, or whose value has no text,
/// gives none.
pub open spec fn bulk_components(registry: TypeRegistry, entries: Seq<(Seq<char>, Value)>) -> Seq<
    ComponentView,
>
    decreases entries.len(),
{
    if entries.len() == 0 {
        Seq::empty()
    } else {
        let (key, value) = entries.last();
        bulk_components(registry, entries.drop_last()) + match payload_of(value) {
            Some(payload) => resolved(registry, found_in(registry_type_paths(registry), key), payload),
            None => Seq::empty(),
        }
    }
}

/// The components of one entry of the attribute map of a node.
pub open spec fn entry_components(registry: TypeRegistry, key: Seq<char>, value: Value) -> Seq<
    ComponentView,
> {
    match payload_of(value) {
        None => Seq::empty(),
        Some(payload) => if key == bulk_key() {
            match parsed_ron_map(payload) {
                Some(inner) => bulk_components(registry, inner),
                None => Seq::empty(),
            }
        } else {
            resolved(
                registry,
                found_in(registry_short_paths(registry), type_name_of(key)),
                payload,
            )
        },
    }
}

/// The components of the entries of the attribute map of a node, in order.
pub open spec fn map_components(registry: TypeRegistry, entries: Seq<(Seq<char>, Value)>) -> Seq<
    ComponentView,
>
    decreases entries.len(),
{
    if entries.len() == 0 {
        Seq::empty()
    } else {
        map_components(registry, entries.drop_last()) + entry_components(
            registry,
            entries.last().0,
            entries.last().1,
        )
    }
}

/// The components that the attribute text of a node describes. A text that
/// is no map describes none.
pub open spec fn text_components(registry: TypeRegistry, text: Seq<char>) -> Seq<ComponentView> {
    match parsed_ron_map(text) {
        Some(entries) => map_components(registry, entries),
        None => Seq::empty(),
    }
}

/// The components of a list, each as the path of its type and its text.
pub open spec fn components_view(components: Seq<ReflectedComponent>) -> Seq<ComponentView> {
    components.map_values(|c: ReflectedComponent| (c.type_path@, c.ron@))
}

/// The short type name that a key stands for.
pub fn direct_type_name(key: &str) -> (r: String)
    ensures
        r@ == type_name_of(key@),
{
    let bare = remove_all(key, "component: ");
    let tidy = trim(bare.as_str());
    capitalize_first_letter(tidy.as_str())
}

/// The text from which a component of the type at `type_path` is read.
pub fn component_ron(type_path: &str, payload: &str) -> (r: String)
    ensures
        r@ == component_text(type_path@, payload@),
{
    let mut out = "{ \"".to_owned();
    out.append(type_path);
    out.append("\": ");
    out.append(payload);
    out.append(" }");
    out
}

/// The text of a value that is a string or can be written as text.
pub fn select_payload(text: Option<String>, written: Option<String>) -> (r: Option<String>)
    ensures
        r is Some <==> selected_payload(text_of(text), text_of(written))
            is Some,
        r matches Some(payload) ==> Some(payload@) == selected_payload(
            text_of(text),
            text_of(written),
        ),
{
    match text {
        Some(t) => Some(t),
        None => written,
    }
}

/// The text that stands for a value.
fn payload(value: &Value) -> (r: Option<String>)
    ensures
        r is Some <==> payload_of(*value) is Some,
        r matches Some(text) ==> payload_of(*value) == Some(text@),
{
    match ron_string_value(value) {
        Some(text) => Some(text),
        None => ron_to_string(value),
    }
}

/// Appends to `components` the component that a type path found in the
/// registry gives, if any: a type that was not found gives none, and neither
/// does a payload from which no value of the type can be read.
pub fn push_resolved(
    found: Option<String>,
    payload: &str,
    type_registry: &TypeRegistry,
    components: &mut Vec<ReflectedComponent>,
)
    ensures
        components_view(final(components)@) == components_view(old(components)@) + resolved(
            *type_registry,
            text_of(found),
            payload@,
        ),
{
    assert(components_view(components@) + Seq::<ComponentView>::empty() =~= components_view(
        components@,
    ));
    match found {
        Some(type_path) => {
            let ron = component_ron(type_path.as_str(), payload);
            if reflect_deserializes(type_registry, ron.as_str()) {
                components.push(ReflectedComponent { type_path, ron });
                assert(components_view(components@) =~= components_view(old(components)@)
                    + resolved(*type_registry, text_of(found), payload@));
            }
        },
        None => {},
    }
}

/// Appends to `components` the component that `name` and `parsed_value`
/// describe: the type is looked up by its short name, and an unknown name
/// gives nothing.
pub fn components_string_to_components(
    name: &str,
    parsed_value: &str,
    type_registry: &TypeRegistry,
    components: &mut Vec<ReflectedComponent>,
)
    ensures
        components_view(final(components)@) == components_view(old(components)@) + resolved(
            *type_registry,
            found_in(registry_short_paths(*type_registry), type_name_of(name@)),
            parsed_value@,
        ),
{
    let capitalized_type_name = direct_type_name(name);
    let found = get_with_short_type_path(type_registry, capitalized_type_name.as_str());
    push_resolved(found, parsed_value, type_registry, components);
}

/// Appends to `components` the components of the entries of a bulk
/// declaration.
pub fn bulk_entries_to_components(
    entries: &Vec<(String, Value)>,
    type_registry: &TypeRegistry,
    components: &mut Vec<ReflectedComponent>,
)
    ensures
        components_view(final(components)@) == components_view(old(components)@) + bulk_components(
            *type_registry,
            entries_view(entries@),
        ),
{
    let mut i: usize = 0;
    assert(components_view(components@) =~= components_view(old(components)@) + bulk_components(
        *type_registry,
        entries_view(entries@).subrange(0, 0),
    ));
    while i < entries.len()
        invariant
            i <= entries@.len(),
            components_view(components@) == components_view(old(components)@) + bulk_components(
                *type_registry,
                entries_view(entries@).subrange(0, i as int),
            ),
        decreases entries@.len() - i,
    {
        proof {
            let grown = entries_view(entries@).subrange(0, i + 1);
            assert(grown.drop_last() =~= entries_view(entries@).subrange(0, i as int));
            assert(grown.last() == (entries@[i as int].0@, entries@[i as int].1));
        }
        let ghost before = components_view(components@);
        match payload(&entries[i].1) {
            Some(text) => {
                let found = get_with_type_path(type_registry, entries[i].0.as_str());
                push_resolved(found, text.as_str(), type_registry, components);
            },
            None => {
                assert(before + Seq::<ComponentView>::empty() =~= before);
            },
        }
        assert(components_view(components@) =~= components_view(old(components)@) + bulk_components(
            *type_registry,
            entries_view(entries@).subrange(0, i + 1),
        ));
        i += 1;
    }
    assert(entries_view(entries@).subrange(0, i as int) =~= entries_view(entries@));
}

/// Appends to `components` the components of a bulk declaration given as
/// text. A text that is no map gives none.
pub fn bevy_components_string_to_components(
    parsed_value: &str,
    type_registry: &TypeRegistry,
    components: &mut Vec<ReflectedComponent>,
)
    ensures
        components_view(final(components)@) == components_view(old(components)@) + match parsed_ron_map(
            parsed_value@,
        ) {
            Some(inner) => bulk_components(*type_registry, inner),
            None => Seq::empty(),
        },
{
    match ron_parse_map(parsed_value) {
        Some(entries) => {
            bulk_entries_to_components(&entries, type_registry, components);
        },
        None => {
            assert(components_view(components@) + Seq::<ComponentView>::empty() =~= components_view(
                components@,
            ));
        },
    }
}

/// The components of the entries of the attribute map of a node, in order.
pub fn entries_to_components(entries: &Vec<(String, Value)>, type_registry: &TypeRegistry) -> (r:
    Vec<ReflectedComponent>)
    ensures
        components_view(r@) == map_components(*type_registry, entries_view(entries@)),
{
    let mut components: Vec<ReflectedComponent> = Vec::new();
    let mut i: usize = 0;
    assert(components_view(components@) =~= map_components(
        *type_registry,
        entries_view(entries@).subrange(0, 0),
    ));
    while i < entries.len()
        invariant
            i <= entries@.len(),
            components_view(components@) == map_components(
                *type_registry,
                entries_view(entries@).subrange(0, i as int),
            ),
        decreases entries@.len() - i,
    {
        proof {
            let grown = entries_view(entries@).subrange(0, i + 1);
            assert(grown.drop_last() =~= entries_view(entries@).subrange(0, i as int));
            assert(grown.last() == (entries@[i as int].0@, entries@[i as int].1));
        }
        let ghost before = components_view(components@);
        match payload(&entries[i].1) {
            Some(text) => {
                if same_text(entries[i].0.as_str(), "bevy_components") {
                    bevy_components_string_to_components(
                        text.as_str(),
                        type_registry,
                        &mut components,
                    );
                } else {
                    components_string_to_components(
                        entries[i].0.as_str(),
                        text.as_str(),
                        type_registry,
                        &mut components,
                    );
                }
            },
            None => {
                assert(before + Seq::<ComponentView>::empty() =~= before);
            },
        }
        i += 1;
    }
    assert(entries_view(entries@).subrange(0, i as int) =~= entries_view(entries@));
    components
}

/// The components that the attribute text of a node describes. Each key of
/// the text names a type by its short name, or is `bevy_components` and holds
/// a map from full type paths to values. What cannot be read or found is left
/// out.
pub fn ronstring_to_reflect_component(ron_string: &str, type_registry: &TypeRegistry) -> (r: Vec<
    ReflectedComponent,
>)
    ensures
        components_view(r@) == text_components(*type_registry, ron_string@),
{
    match ron_parse_map(ron_string) {
        Some(entries) => entries_to_components(&entries, type_registry),
        None => {
            let none: Vec<ReflectedComponent> = Vec::new();
            assert(components_view(none@) =~= Seq::<ComponentView>::empty());
            none
        },
    }
}

} // verus!
