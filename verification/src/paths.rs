//! Names and places of snapshot files.
//!
//! Paths are kept as text with `/` between their parts.

use vstd::prelude::*;
use vstd::string::*;

verus! {

/// The name of the file that holds the snapshot of sandbox `sandbox_id`.
pub open spec fn snapshot_file_name_of(sandbox_id: Seq<char>) -> Seq<char> {
    sandbox_id + ".snapshot.json"@
}

/// The name of the file a snapshot of `sandbox_id` is written to before it
/// takes the place of the final file.
pub open spec fn temp_file_name_of(sandbox_id: Seq<char>) -> Seq<char> {
    sandbox_id + ".snapshot.tmp"@
}

/// `name` placed under the directory `base`: a separator is put between the
/// two unless `base` is empty or already ends in one, and a `name` that
/// starts at the root stands alone.
pub open spec fn joined(base: Seq<char>, name: Seq<char>) -> Seq<char> {
    if name.len() > 0 && name[0] == '/' {
        name
    } else if base.len() == 0 || base.last() == '/' {
        base + name
    } else {
        base + seq!['/'] + name
    }
}

/// Whether a file name ends in the extension `json`. A name that consists of
/// `.json` alone is a hidden file without extension.
pub open spec fn is_json_file_name(name: Seq<char>) -> bool {
    name.len() > 5 && name.subrange(name.len() - 5, name.len() as int) == ".json"@
}

/// Makes the name of the file that holds the snapshot of `sandbox_id`.
pub fn snapshot_file_name(sandbox_id: &str) -> (name: String)
    ensures
        name@ == snapshot_file_name_of(sandbox_id@),
{
    let mut name = sandbox_id.to_owned();
    name.append(".snapshot.json");
    name
}

/// Makes the name of the file that a snapshot of `sandbox_id` is first
/// written to.
pub fn temp_file_name(sandbox_id: &str) -> (name: String)
    ensures
        name@ == temp_file_name_of(sandbox_id@),
{
    let mut name = sandbox_id.to_owned();
    name.append(".snapshot.tmp");
    name
}

/// Places `name` under the directory `base`, as joining paths does where
/// `/` separates their parts.
pub fn join(base: &str, name: &str) -> (path: String)
    ensures
        path@ == joined(base@, name@),
{
    let name_len: usize = name.unicode_len();
    if name_len > 0 && name.get_char(0) == '/' {
        return name.to_owned();
    }
    let base_len: usize = base.unicode_len();
    let mut path = base.to_owned();
    if base_len > 0 && base.get_char(base_len - 1) != '/' {
        proof {
            reveal_strlit("/");
            assert("/"@ =~= seq!['/']);
        }
        path.append("/");
    }
    path.append(name);
    path
}

/// Tells whether a file name ends in the extension `json`.
pub fn has_json_extension(name: &str) -> (json: bool)
    ensures
        json == is_json_file_name(name@),
{
    let len: usize = name.unicode_len();
    if len <= 5 {
        return false;
    }
    let start: usize = len - 5;
    proof {
        reveal_strlit(".json");
    }
    let suffix = ".json";
    let mut i: usize = 0;
    while i < 5
        invariant
            0 <= i <= 5,
            len == name@.len(),
            start == len - 5,
            len > 5,
            suffix@ == ".json"@,
            suffix@.len() == 5,
            forall|k: int| 0 <= k < i ==> name@[start + k] == suffix@[k],
        decreases 5 - i,
    {
        if name.get_char(start + i) != suffix.get_char(i) {
            proof {
                let tail = name@.subrange(name@.len() - 5, name@.len() as int);
                assert(tail[i as int] == name@[start + i]);
            }
            return false;
        }
        i = i + 1;
    }
    assert(name@.subrange(name@.len() - 5, name@.len() as int) =~= suffix@);
    true
}

} // verus!
