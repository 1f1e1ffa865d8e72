//! Path-string manipulation shared by the scaffolding commands and the
//! build-file data grouping.

use vstd::prelude::*;

use crate::util::text;

verus! {

/// What `remove_prefix` returns: the path relative to whichever of the two
/// directories it lies under, the separator dropped; empty when the path is
/// one of the directories itself or lies under neither.
pub open spec fn remove_prefix_spec(path: Seq<char>, source_dir: Seq<char>, target_dir: Seq<char>) -> Seq<char> {
    if path == source_dir || path == target_dir {
        Seq::<char>::empty()
    } else if text::is_prefix_of(source_dir, path) {
        path.subrange(source_dir.len() as int + 1, path.len() as int)
    } else if text::is_prefix_of(target_dir, path) {
        path.subrange(target_dir.len() as int + 1, path.len() as int)
    } else {
        Seq::<char>::empty()
    }
}

/// Strips `source_dir` or `target_dir` (and the path separator after it)
/// from the front of `path`.
pub fn remove_prefix(path: &String, source_dir: &String, target_dir: &String) -> (r: String)
    ensures
        r@ == remove_prefix_spec(path@, source_dir@, target_dir@),
{
    if text::str_eq(path.as_str(), source_dir.as_str())
        || text::str_eq(path.as_str(), target_dir.as_str()) {
        String::new()
    } else if text::starts_with(path.as_str(), source_dir.as_str()) {
        let n = source_dir.as_str().unicode_len();
        let l = path.as_str().unicode_len();
        proof {
            if n == l {
                assert(path@.subrange(0, l as int) =~= path@);
            }
        }
        path.as_str().substring_char(n + 1, l).to_owned()
    } else if text::starts_with(path.as_str(), target_dir.as_str()) {
        let n = target_dir.as_str().unicode_len();
        let l = path.as_str().unicode_len();
        proof {
            if n == l {
                assert(path@.subrange(0, l as int) =~= path@);
            }
        }
        path.as_str().substring_char(n + 1, l).to_owned()
    } else {
        String::new()
    }
}

} // verus!
