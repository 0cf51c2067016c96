//! The newest modification time of a source tree, over a listing of its
//! entries that the caller reads from disk.

use vstd::prelude::*;
use crate::text::str_eq;

verus! {

/// One entry of a directory tree.
#[derive(Clone, Debug, PartialEq, Eq)]
pub struct TreeEntry {
    /// The names along the path from the tree's root to the entry, the
    /// entry's own name last.
    pub path: Vec<String>,
    pub is_file: bool,
    /// Modification time, in milliseconds since the Unix epoch.
    pub modified_ms: u128,
}

/// Names that are not source: hidden entries and build or dependency
/// directories.
pub open spec fn is_skipped_name(name: Seq<char>) -> bool {
    ||| name.len() > 0 && name[0] == '.'
    ||| name == "node_modules"@
    ||| name == "target"@
    ||| name == "dist"@
}

/// A file that counts: no name along its path is skipped.
pub open spec fn is_source_file(e: TreeEntry) -> bool {
    &&& e.is_file
    &&& forall|k: int| 0 <= k < e.path@.len() ==> !is_skipped_name(#[trigger] e.path@[k]@)
}

/// The newest modification time of the source files, or 0 without any.
pub open spec fn newest_modified(entries: Seq<TreeEntry>) -> u128
    decreases entries.len(),
{
    if entries.len() == 0 {
        0
    } else {
        let m = newest_modified(entries.drop_last());
        if is_source_file(entries.last()) && entries.last().modified_ms > m {
            entries.last().modified_ms
        } else {
            m
        }
    }
}

/// Whether an entry name is skipped.
pub fn skipped_name(name: &str) -> (r: bool)
    ensures
        r == is_skipped_name(name@),
{
    if name.unicode_len() > 0 && name.get_char(0) == '.' {
        return true;
    }
    str_eq(name, "node_modules") || str_eq(name, "target") || str_eq(name, "dist")
}

fn source_file(e: &TreeEntry) -> (r: bool)
    ensures
        r == is_source_file(*e),
{
    if !e.is_file {
        return false;
    }
    let mut k: usize = 0;
    while k < e.path.len()
        invariant
            k <= e.path@.len(),
            forall|j: int| 0 <= j < k ==> !is_skipped_name(#[trigger] e.path@[j]@),
        decreases e.path@.len() - k,
    {
        if skipped_name(e.path[k].as_str()) {
            return false;
        }
        k += 1;
    }
    true
}

/// The newest modification time of all source files of a tree.
pub fn deep_modified_ts(entries: &Vec<TreeEntry>) -> (r: u128)
    ensures
        r == newest_modified(entries@),
        forall|i: int| 0 <= i < entries@.len() && is_source_file(#[trigger] entries@[i]) ==> entries@[i].modified_ms <= r,
{
    let mut max_modified_ts: u128 = 0;
    let mut i: usize = 0;
    while i < entries.len()
        invariant
            i <= entries@.len(),
            max_modified_ts == newest_modified(entries@.subrange(0, i as int)),
            forall|j: int| 0 <= j < i && is_source_file(#[trigger] entries@[j]) ==> entries@[j].modified_ms <= max_modified_ts,
        decreases entries@.len() - i,
    {
        let ghost pre = entries@.subrange(0, i as int + 1);
        assert(pre.drop_last() =~= entries@.subrange(0, i as int));
        assert(pre.last() == entries@[i as int]);
        let e = &entries[i];
        if source_file(e) && e.modified_ms > max_modified_ts {
            max_modified_ts = e.modified_ms;
        }
        i += 1;
    }
    assert(entries@.subrange(0, i as int) =~= entries@);
    max_modified_ts
}

} // verus!
