//! Where export snapshots are written.

use vstd::prelude::*;

use crate::text::has_prefix;

verus! {

/// A path under `data/` is taken from the project root, one level above the
/// process's working directory; any other path is kept.
pub open spec fn export_path_of(path: Seq<char>) -> Seq<char> {
    if 5 <= path.len() && path.subrange(0, 5) == "data/"@ {
        "../"@ + path
    } else {
        path
    }
}

/// The path an export given `path` is written to.
pub fn adjust_export_path(path: &str) -> (r: String)
    ensures
        r@ == export_path_of(path@),
{
    proof {
        reveal_strlit("data/");
    }
    if has_prefix(path, "data/") {
        let mut r = "../".to_owned();
        r.append(path);
        r
    } else {
        path.to_owned()
    }
}

} // verus!
