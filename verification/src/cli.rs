//! Decisions of the command-line tool that do not touch the file system.

use crate::source_map::{after_last_slash, is_component_name, opt_view, path_file_name, plain_file_name_path};
use vstd::prelude::*;

verus! {

/// The `sourceMappingURL` for a map written at `map_path`, given the file
/// name of that path: the file name, or the whole path when it has none.
pub open spec fn source_map_url_spec(map_path: Seq<char>, file_name: Option<Seq<char>>) -> Seq<
    char,
> {
    match file_name {
        Some(name) => name,
        None => map_path,
    }
}

/// The `sourceMappingURL` for a map written at `map_path`, given what the
/// platform says is the file name of that path.
pub fn source_map_url_from(map_path: &str, file_name: Option<String>) -> (res: String)
    ensures
        res@ == source_map_url_spec(map_path@, opt_view(file_name)),
{
    match file_name {
        Some(name) => name,
        None => map_path.to_string(),
    }
}

/// The `sourceMappingURL` written into the CSS by default: the map file's
/// name, or the path itself when it has no file name. The file name is what
/// the platform reads as the path's final component; whatever it reads, the
/// result is the path itself or a component name, and for a path whose text
/// after the last `/` is a plain name it is that text.
pub fn default_source_map_url(map_path: &str) -> (res: String)
    ensures
        exists|f: Option<Seq<char>>| res@ == #[trigger] source_map_url_spec(map_path@, f),
        res@ == map_path@ || is_component_name(res@),
        plain_file_name_path(map_path@) ==> res@ == after_last_slash(map_path@),
{
    let file_name = path_file_name(map_path);
    let ghost f = opt_view(file_name);
    let res = source_map_url_from(map_path, file_name);
    assert(res@ == source_map_url_spec(map_path@, f));
    res
}

} // verus!
