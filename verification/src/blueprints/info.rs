//! The reference from an entity to the blueprint it is an instance of.
use crate::text::{replace_suffix, with_suffix_replaced};
use std::path::Path;
use vstd::prelude::*;

verus! {

/// Name and source path of a blueprint. An entity that carries one is an
/// instance of that blueprint.
#[derive(Clone, Debug)]
pub struct BlueprintInfo {
    pub name: String,
    pub path: String,
}

/// The stem of the file that a path names: its last component without the
/// extension, as the platform's path syntax has it; `None` where the path names
/// no file.
pub uninterp spec fn path_file_stem(path: Seq<char>) -> Option<Seq<char>>;

/// `Path::file_stem` of the standard library, on a path given as text. The
/// result is the stem as text; it is `None` where the path has no file name.
/// A path that came from text has a stem that is text as well.
#[verifier::external_body]
fn file_stem(path: &str) -> (r: Option<String>)
    ensures
        r is Some <==> path_file_stem(path@) is Some,
        r matches Some(stem) ==> path_file_stem(path@) == Some(stem@),
{
    match Path::new(path).file_stem() {
        Some(stem) => match stem.to_str() {
            Some(text) => Some(text.to_owned()),
            None => None,
        },
        None => None,
    }
}

/// The extension of the metadata file that accompanies a blueprint.
pub open spec fn meta_extension() -> Seq<char> {
    ".meta.ron"@
}

/// The path of the metadata file of the blueprint at `path`: the ending
/// `.glb` or `.gltf` gives way to `.meta.ron`; any other path is its own
/// metadata path.
pub open spec fn metadata_path_of(path: Seq<char>) -> Seq<char> {
    if crate::text::has_suffix(path, ".glb"@) {
        with_suffix_replaced(path, ".glb"@, meta_extension())
    } else {
        with_suffix_replaced(path, ".gltf"@, meta_extension())
    }
}

impl BlueprintInfo {
    /// A reference with the given name and path.
    pub fn new(name: &str, path: &str) -> (r: BlueprintInfo)
        ensures
            r.name@ == name@,
            r.path@ == path@,
    {
        BlueprintInfo { name: name.to_owned(), path: path.to_owned() }
    }

    /// The reference to the blueprint at `path`, named by the stem of its file.
    pub fn from_path(path: &str) -> (r: BlueprintInfo)
        requires
            path_file_stem(path@) is Some,
        ensures
            Some(r.name@) == path_file_stem(path@),
            r.path@ == path@,
    {
        Self::with_stem(file_stem(path), path).unwrap()
    }

    /// The reference to the blueprint at `path`, or `None` where the path
    /// names no file.
    pub fn try_from_path(path: &str) -> (r: Option<BlueprintInfo>)
        ensures
            r is Some <==> path_file_stem(path@) is Some,
            r matches Some(info) ==> Some(info.name@) == path_file_stem(path@) && info.path@
                == path@,
    {
        if file_stem(path).is_some() {
            Some(Self::from_path(path))
        } else {
            None
        }
    }

    /// The reference to the blueprint at `path` whose file has the stem `stem`.
    pub fn with_stem(stem: Option<String>, path: &str) -> (r: Option<BlueprintInfo>)
        ensures
            r is Some <==> stem is Some,
            r matches Some(info) ==> info.name@ == stem.unwrap()@ && info.path@ == path@,
    {
        match stem {
            Some(name) => Some(BlueprintInfo { name, path: path.to_owned() }),
            None => None,
        }
    }

    /// The path of the metadata file of this blueprint.
    pub fn metadata_path(&self) -> (r: String)
        ensures
            r@ == metadata_path_of(self.path@),
    {
        if crate::text::ends_with(self.path.as_str(), ".glb") {
            replace_suffix(self.path.as_str(), ".glb", ".meta.ron")
        } else {
            replace_suffix(self.path.as_str(), ".gltf", ".meta.ron")
        }
    }

    /// A copy of this reference.
    pub fn duplicate(&self) -> (r: BlueprintInfo)
        ensures
            r.name@ == self.name@,
            r.path@ == self.path@,
    {
        BlueprintInfo { name: self.name.clone(), path: self.path.clone() }
    }
}

impl Default for BlueprintInfo {
    fn default() -> (r: BlueprintInfo)
        ensures
            r.name@ == Seq::<char>::empty(),
            r.path@ == Seq::<char>::empty(),
    {
        BlueprintInfo { name: String::new(), path: String::new() }
    }
}

} // verus!
