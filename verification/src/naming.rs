//! Names derived from where a sprite file lies and what it is called.

use vstd::prelude::*;
use std::path::PathBuf;
use crate::project::string_views;
use crate::text::{camel_case, to_camel_case};

verus! {

/// `std::path::PathBuf`: a file system path, carried through as it is.
#[verifier::external_type_specification]
#[verifier::external_body]
pub struct ExPathBuf(std::path::PathBuf);

/// The final component of a path without its extension, if the path has a
/// final component and that is Unicode.
pub uninterp spec fn path_file_stem(path: PathBuf) -> Option<Seq<char>>;

/// A path without its final component, if it has one.
pub uninterp spec fn path_parent(path: PathBuf) -> Option<PathBuf>;

/// What is left of a path behind the prefix `base`, if it begins with `base`.
pub uninterp spec fn path_behind(path: PathBuf, base: PathBuf) -> Option<PathBuf>;

/// The components of a path, each as text.
pub uninterp spec fn path_components(path: PathBuf) -> Seq<Seq<char>>;

/// `Path::file_stem` of the standard library, as a string where the stem is
/// Unicode and `None` where it is not or the path has no file name.
#[verifier::external_body]
fn file_stem(path: &PathBuf) -> (r: Option<String>)
    ensures
        match r {
            Some(stem) => path_file_stem(*path) == Some(stem@),
            None => path_file_stem(*path) is None,
        },
{
    path.file_stem().and_then(|s| s.to_str()).map(|s| s.to_owned())
}

/// `Path::parent` of the standard library.
#[verifier::external_body]
fn parent(path: &PathBuf) -> (r: Option<PathBuf>)
    ensures
        r == path_parent(*path),
{
    path.parent().map(|d| d.to_path_buf())
}

/// `Path::strip_prefix` of the standard library, with `None` for its error.
#[verifier::external_body]
fn strip_prefix(path: &PathBuf, base: &PathBuf) -> (r: Option<PathBuf>)
    ensures
        r == path_behind(*path, *base),
{
    path.strip_prefix(base).ok().map(|rest| rest.to_path_buf())
}

/// `Path::components` of the standard library, each component as the text
/// that `to_string_lossy` gives for it.
#[verifier::external_body]
fn components(path: &PathBuf) -> (r: Vec<String>)
    ensures
        string_views(r@) == path_components(*path),
{
    path.components().map(|c| c.as_os_str().to_string_lossy().into_owned()).collect()
}

/// The name of the sprite made from the tag `tag` of the file with stem
/// `stem`: an `s`, then both in CamelCase.
pub open spec fn sprite_name(stem: Seq<char>, tag: Seq<char>) -> Seq<char> {
    seq!['s'] + camel_case(stem) + camel_case(tag)
}

/// The first `n` directory names in CamelCase, joined by `/`.
pub open spec fn joined_folders(parts: Seq<Seq<char>>, n: int) -> Seq<char>
    decreases n,
{
    if n <= 0 {
        Seq::empty()
    } else if n == 1 {
        camel_case(parts[0])
    } else {
        joined_folders(parts, n - 1) + seq!['/'] + camel_case(parts[n - 1])
    }
}

/// The project folder for a file that lies in the directories `parts` below
/// the watched directory: `Sprites`, then those directories in CamelCase.
pub open spec fn folder_path_for(parts: Seq<Seq<char>>) -> Seq<char> {
    if parts.len() == 0 {
        "Sprites"@
    } else {
        "Sprites/"@ + joined_folders(parts, parts.len() as int)
    }
}

/// The project folder that mirrors where `file` lies below `watch_dir`.
pub open spec fn gm_folder_path(watch_dir: PathBuf, file: PathBuf) -> Seq<char> {
    match path_parent(file) {
        Some(dir) => match path_behind(dir, watch_dir) {
            Some(rest) => folder_path_for(path_components(rest)),
            None => "Sprites"@,
        },
        None => "Sprites"@,
    }
}

/// The name of the sprite made from the tag `tag` of the file with stem `stem`.
pub fn sprite_name_from(stem: &str, tag: &str) -> (name: String)
    ensures
        name@ == sprite_name(stem@, tag@),
{
    let file_part = to_camel_case(stem);
    let tag_part = to_camel_case(tag);
    let mut name = "s".to_owned();
    proof {
        reveal_strlit("s");
        assert("s"@ =~= seq!['s']);
    }
    name.append(file_part.as_str());
    name.append(tag_part.as_str());
    name
}

/// The project folder for a file that lies in the directories `parts` below
/// the watched directory.
pub fn folder_path_from(parts: &Vec<String>) -> (path: String)
    ensures
        path@ == folder_path_for(string_views(parts@)),
{
    if parts.len() == 0 {
        return "Sprites".to_owned();
    }
    let ghost names = string_views(parts@);
    let mut joined = to_camel_case(parts[0].as_str());
    let mut i: usize = 1;
    while i < parts.len()
        invariant
            1 <= i <= parts.len(),
            names == string_views(parts@),
            joined@ == joined_folders(names, i as int),
        decreases parts.len() - i,
    {
        let part = to_camel_case(parts[i].as_str());
        joined.append("/");
        joined.append(part.as_str());
        proof {
            reveal_strlit("/");
            assert("/"@ =~= seq!['/']);
        }
        i += 1;
    }
    let mut path = "Sprites/".to_owned();
    path.append(joined.as_str());
    path
}

/// The project folder for the sprites of `aseprite_path`: the directories
/// between `watch_dir` and the file, in CamelCase, below `Sprites`; just
/// `Sprites` for a file directly in `watch_dir` or outside it.
pub fn compute_gm_folder_path(watch_dir: &PathBuf, aseprite_path: &PathBuf) -> (path: String)
    ensures
        path@ == gm_folder_path(*watch_dir, *aseprite_path),
{
    match parent(aseprite_path) {
        Some(dir) => match strip_prefix(&dir, watch_dir) {
            Some(rest) => {
                let parts = components(&rest);
                folder_path_from(&parts)
            },
            None => "Sprites".to_owned(),
        },
        None => "Sprites".to_owned(),
    }
}

/// The name of the sprite for the tag `tag_name` of the file at
/// `aseprite_path`. Fails for a path without a Unicode file name.
pub fn derive_sprite_name(aseprite_path: &PathBuf, tag_name: &str) -> (r: Result<String, String>)
    ensures
        match r {
            Ok(name) => path_file_stem(*aseprite_path) is Some && name@ == sprite_name(
                path_file_stem(*aseprite_path)->0,
                tag_name@,
            ),
            Err(e) => path_file_stem(*aseprite_path) is None && e@
                == "Could not extract filename from Aseprite path"@,
        },
{
    match file_stem(aseprite_path) {
        Some(stem) => Ok(sprite_name_from(stem.as_str(), tag_name)),
        None => Err("Could not extract filename from Aseprite path".to_owned()),
    }
}

} // verus!
