//! The patch writer: applies change records to a file's bytes, altering
//! exactly the targeted category fields and nothing else.

use vstd::prelude::*;

use crate::object::ChangeRecord;
use crate::object::spec_records_in_range;

verus! {

/// A file's bytes after one record is applied: the byte at the record's
/// offset is replaced by the record's digit.
pub open spec fn spec_apply_change(file: Seq<u8>, rec: ChangeRecord) -> Seq<u8> {
    file.update(rec.offset as int, rec.digit)
}

/// A file's bytes after a sequence of records is applied in order. Since
/// the records of one document target disjoint spans, any order gives
/// the same bytes; this fixes the listing order as the reference.
pub open spec fn spec_apply_changes(file: Seq<u8>, changes: Seq<ChangeRecord>) -> Seq<u8>
    decreases changes.len(),
{
    if changes.len() == 0 {
        file
    } else {
        spec_apply_change(spec_apply_changes(file, changes.drop_last()), changes.last())
    }
}

/// Overwrites exactly the byte at the record's offset with the record's
/// digit; every other byte and the file's length are untouched.
pub fn apply_change(file: &mut Vec<u8>, rec: &ChangeRecord)
    requires
        rec.wf(),
        rec.offset + rec.len <= old(file)@.len(),
    ensures
        final(file)@ == spec_apply_change(old(file)@, *rec),
        final(file)@.len() == old(file)@.len(),
{
    file.set(rec.offset, rec.digit);
}

/// Applies every record of `changes` to the file's bytes, in order. The
/// length of the file never changes, and with no records the file is
/// untouched.
pub fn apply_changes(file: &mut Vec<u8>, changes: &Vec<ChangeRecord>)
    requires
        spec_records_in_range(changes@, old(file)@.len()),
    ensures
        final(file)@ == spec_apply_changes(old(file)@, changes@),
        final(file)@.len() == old(file)@.len(),
{
    let n = changes.len();
    let mut k: usize = 0;
    while k < n
        invariant
            n == changes@.len(),
            0 <= k <= n,
            spec_records_in_range(changes@, old(file)@.len()),
            file@ == spec_apply_changes(old(file)@, changes@.take(k as int)),
            file@.len() == old(file)@.len(),
        decreases n - k,
    {
        proof {
            assert(changes@.take(k + 1).drop_last() =~= changes@.take(k as int));
            assert(changes@.take(k + 1).last() == changes@[k as int]);
        }
        apply_change(file, &changes[k]);
        k = k + 1;
    }
    proof {
        assert(changes@.take(n as int) =~= changes@);
    }
}

/// Applies a document's corrections to the file's bytes after checking
/// the structural guarantees of the category encoding: every record must
/// rewrite exactly one byte, with an ASCII digit, inside the file. If any
/// record violates them the file is left untouched and `false` comes
/// back, a corrupted parse the caller must treat as fatal; otherwise the
/// corrections are applied and `true` comes back.
pub fn patch_file(file: &mut Vec<u8>, changes: &Vec<ChangeRecord>) -> (ok: bool)
    ensures
        ok == spec_records_in_range(changes@, old(file)@.len()),
        ok ==> final(file)@ == spec_apply_changes(old(file)@, changes@),
        !ok ==> final(file)@ == old(file)@,
        final(file)@.len() == old(file)@.len(),
{
    if crate::object::records_in_range(changes, file.len()) {
        apply_changes(file, changes);
        true
    } else {
        false
    }
}

/// Applying one record changes exactly the byte at its offset to its
/// digit and leaves every other byte, and the file's total length,
/// unchanged.
pub proof fn lemma_patch_is_precise(file: Seq<u8>, rec: ChangeRecord)
    requires
        rec.wf(),
        rec.offset + rec.len <= file.len(),
    ensures
        spec_apply_change(file, rec).len() == file.len(),
        spec_apply_change(file, rec)[rec.offset as int] == rec.digit,
        forall|i: int| 0 <= i < file.len() && i != rec.offset as int
            ==> spec_apply_change(file, rec)[i] == file[i],
{
}

/// Writes to distinct offsets are independent: two records that target
/// different bytes may be applied in either order with the same result,
/// which is why no ordering of a document's records is significant.
pub proof fn lemma_independent_writes_commute(file: Seq<u8>, a: ChangeRecord, b: ChangeRecord)
    requires
        a.offset != b.offset,
        a.offset < file.len(),
        b.offset < file.len(),
    ensures
        spec_apply_change(spec_apply_change(file, a), b) == spec_apply_change(
            spec_apply_change(file, b),
            a,
        ),
{
    assert(spec_apply_change(spec_apply_change(file, a), b) =~= spec_apply_change(
        spec_apply_change(file, b),
        a,
    ));
}

/// Some record of `changes` targets the byte at position `i`.
pub open spec fn spec_is_target(changes: Seq<ChangeRecord>, i: int) -> bool {
    exists|k: int| 0 <= k < changes.len() && (#[trigger] changes[k]).offset == i
}

/// Applying a whole set of records never changes the file's length, and
/// never changes a byte that no record targets: everything outside the
/// corrected category fields is preserved bit for bit.
pub proof fn lemma_patches_touch_only_targets(file: Seq<u8>, changes: Seq<ChangeRecord>)
    requires
        spec_records_in_range(changes, file.len()),
    ensures
        spec_apply_changes(file, changes).len() == file.len(),
        forall|i: int| 0 <= i < file.len() && !spec_is_target(changes, i)
            ==> spec_apply_changes(file, changes)[i] == file[i],
    decreases changes.len(),
{
    if changes.len() == 0 {
    } else {
        let rest = changes.drop_last();
        assert(spec_records_in_range(rest, file.len())) by {
            assert(forall|k: int| 0 <= k < rest.len() ==> rest[k] == #[trigger] changes[k]);
        }
        lemma_patches_touch_only_targets(file, rest);
        assert forall|i: int| 0 <= i < file.len() && !spec_is_target(changes, i) implies
            spec_apply_changes(file, changes)[i] == file[i] by {
            assert(!spec_is_target(rest, i)) by {
                if spec_is_target(rest, i) {
                    let k = choose|k: int| 0 <= k < rest.len() && (#[trigger] rest[k]).offset == i;
                    assert(changes[k].offset == i);
                }
            }
            assert(changes.last().offset != i);
        }
    }
}

} // verus!
