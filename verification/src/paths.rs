//! Where the store and the previews are kept.

use vstd::prelude::*;
use vstd::string::StringExecFns;

verus! {

/// The directory of the store.
pub open spec fn cache_dir_path() -> Seq<char> {
    "/tmp/minhypr-state"@
}

/// The file of the store: `windows.json` in the directory of the store.
pub open spec fn cache_file_path() -> Seq<char> {
    cache_dir_path() + "/windows.json"@
}

/// The directory of the previews.
pub open spec fn preview_dir_path() -> Seq<char> {
    "/tmp/minhypr-previews"@
}

/// The directory of the store.
pub fn cache_dir() -> (dir: &'static str)
    ensures
        dir@ == cache_dir_path(),
{
    "/tmp/minhypr-state"
}

/// The file of the store.
pub fn cache_file() -> (file: &'static str)
    ensures
        file@ == cache_file_path(),
{
    proof {
        reveal_strlit("/tmp/minhypr-state");
        reveal_strlit("/windows.json");
        reveal_strlit("/tmp/minhypr-state/windows.json");
    }
    let file = "/tmp/minhypr-state/windows.json";
    assert(file@ =~= cache_file_path());
    file
}

/// The directory of the previews.
pub fn preview_dir() -> (dir: &'static str)
    ensures
        dir@ == preview_dir_path(),
{
    "/tmp/minhypr-previews"
}

/// The three places at once: the directory of the store, the file of the
/// store, and the directory of the previews.
pub fn get_base_dirs() -> (dirs: (String, String, String))
    ensures
        dirs.0@ == cache_dir_path(),
        dirs.1@ == cache_file_path(),
        dirs.2@ == preview_dir_path(),
{
    let cache_dir = String::from_str("/tmp/minhypr-state");
    let mut cache_file = cache_dir.clone();
    cache_file.append("/windows.json");
    let preview_dir = String::from_str("/tmp/minhypr-previews");
    (cache_dir, cache_file, preview_dir)
}

} // verus!
