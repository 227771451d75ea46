//! Placed map objects and the single-byte corrections derived from them.

use vstd::prelude::*;

use crate::category::Category;

verus! {

/// One placed object of a map document, as the map parser reports it:
/// the prototype it references, its locally recorded category, and the
/// exact byte span of the category-bearing field in the original file.
#[derive(Clone, Copy, Debug, PartialEq, Eq, Structural)]
pub struct MapObject {
    /// Prototype item this object references.
    pub proto_id: u16,
    /// Category recorded in the map file for this object.
    pub category: Category,
    /// Absolute byte offset of the category field in the file.
    pub offset: usize,
    /// Byte length of the category field; a well-formed document encodes
    /// the category as a single digit, so this is one.
    pub len: usize,
}

/// A minimal in-place correction: overwrite the category field at `offset`
/// with the digit encoding the implied category. Produced and consumed
/// within one file's processing; never persisted.
#[derive(Clone, Copy, Debug, PartialEq, Eq, Structural)]
pub struct ChangeRecord {
    /// Absolute byte position in the file to overwrite.
    pub offset: usize,
    /// Number of bytes to overwrite; structurally always one.
    pub len: usize,
    /// ASCII digit (`'0'` to `'9'`) to write at `offset`.
    pub digit: u8,
}

impl ChangeRecord {
    /// Structural guarantees of the category encoding: a record rewrites
    /// exactly one byte, and writes an ASCII digit.
    pub open spec fn wf(self) -> bool {
        self.len == 1 && 48 <= self.digit <= 57
    }

    /// Runtime check of [`Self::wf`]; a violation signals a corrupted
    /// parse and must be treated as fatal by the caller, never clamped.
    pub fn is_wf(&self) -> (r: bool)
        ensures
            r == self.wf(),
    {
        self.len == 1 && 48 <= self.digit && self.digit <= 57
    }
}

/// Every record of `changes` is well-formed and targets a span inside a
/// file of `file_len` bytes.
pub open spec fn spec_records_in_range(changes: Seq<ChangeRecord>, file_len: nat) -> bool {
    forall|k: int| 0 <= k < changes.len()
        ==> (#[trigger] changes[k]).wf() && changes[k].offset + changes[k].len <= file_len
}

/// Runtime check that every record is well-formed and lies inside a file
/// of `file_len` bytes, mirroring the fatal structural check made before
/// any byte is written.
pub fn records_in_range(changes: &Vec<ChangeRecord>, file_len: usize) -> (r: bool)
    ensures
        r == spec_records_in_range(changes@, file_len as nat),
{
    let mut k: usize = 0;
    while k < changes.len()
        invariant
            0 <= k <= changes@.len(),
            forall|j: int| 0 <= j < k
                ==> (#[trigger] changes@[j]).wf() && changes@[j].offset + changes@[j].len
                    <= file_len,
        decreases changes@.len() - k,
    {
        let c = changes[k];
        if !(c.is_wf() && c.offset <= file_len && file_len - c.offset >= c.len) {
            return false;
        }
        k = k + 1;
    }
    true
}

} // verus!
