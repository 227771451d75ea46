//! Properties of the checker that hold for every catalog and every
//! document, stated and proved once over the checker's own model.

use vstd::prelude::*;

use crate::category::Category;
use crate::category::spec_implied_category;
use crate::checker::spec_changes;
use crate::checker::spec_check_object;
use crate::checker::spec_invalid_indices;
use crate::object::MapObject;

verus! {

/// An object recorded as a critter never yields a correction, whatever
/// the catalog holds: critters are exempt from the prototype check.
pub proof fn lemma_critter_never_patched(cat: Map<u16, u8>, obj: MapObject)
    requires
        obj.category == Category::Critter,
    ensures
        spec_check_object(cat, obj) is None,
{
}

/// An object whose prototype the catalog does not list never yields a
/// correction: without a catalog entry the object cannot be judged.
pub proof fn lemma_unknown_proto_never_patched(cat: Map<u16, u8>, obj: MapObject)
    requires
        !cat.dom().contains(obj.proto_id),
    ensures
        spec_check_object(cat, obj) is None,
{
}

/// An object whose recorded category already equals the category its
/// prototype implies never yields a correction.
pub proof fn lemma_matching_category_not_patched(cat: Map<u16, u8>, obj: MapObject)
    requires
        cat.dom().contains(obj.proto_id),
        obj.category == spec_implied_category(cat[obj.proto_id]),
    ensures
        spec_check_object(cat, obj) is None,
{
}

/// An object as it stands after its correction is applied: if the check
/// called for a correction, the recorded category becomes the implied
/// one; otherwise the object is unchanged.
pub open spec fn spec_corrected(cat: Map<u16, u8>, obj: MapObject) -> MapObject {
    if spec_check_object(cat, obj) is Some {
        MapObject {
            proto_id: obj.proto_id,
            category: spec_implied_category(cat[obj.proto_id]),
            offset: obj.offset,
            len: obj.len,
        }
    } else {
        obj
    }
}

/// A corrected object passes the check silently: checking it again
/// yields no correction.
pub proof fn lemma_corrected_object_clean(cat: Map<u16, u8>, obj: MapObject)
    ensures
        spec_check_object(cat, spec_corrected(cat, obj)) is None,
{
}

/// Checking is idempotent: a document whose every object already stands
/// corrected yields zero corrections, so re-running the checker over an
/// already-corrected file patches nothing.
pub proof fn lemma_check_idempotent(cat: Map<u16, u8>, objs: Seq<MapObject>)
    ensures
        spec_changes(cat, objs.map_values(|o: MapObject| spec_corrected(cat, o))).len() == 0,
    decreases objs.len(),
{
    let corrected = objs.map_values(|o: MapObject| spec_corrected(cat, o));
    if objs.len() == 0 {
    } else {
        lemma_check_idempotent(cat, objs.drop_last());
        assert(corrected.drop_last() =~= objs.drop_last().map_values(
            |o: MapObject| spec_corrected(cat, o),
        ));
        lemma_corrected_object_clean(cat, objs.last());
        assert(corrected.last() == spec_corrected(cat, objs.last()));
    }
}

/// Every correction the checker emits for a document whose category
/// fields span one byte each is itself well-formed: it rewrites exactly
/// one byte, with an ASCII digit between `'0'` and `'9'`.
pub proof fn lemma_changes_well_formed(cat: Map<u16, u8>, objs: Seq<MapObject>)
    requires
        forall|j: int| 0 <= j < objs.len() ==> (#[trigger] objs[j]).len == 1,
    ensures
        forall|k: int| 0 <= k < spec_changes(cat, objs).len()
            ==> (#[trigger] spec_changes(cat, objs)[k]).wf(),
    decreases objs.len(),
{
    if objs.len() == 0 {
    } else {
        assert forall|j: int| 0 <= j < objs.drop_last().len() implies (#[trigger] objs.drop_last()[j]).len
            == 1 by {
            assert(objs.drop_last()[j] == objs[j]);
        }
        lemma_changes_well_formed(cat, objs.drop_last());
        let s = spec_changes(cat, objs);
        let rest = spec_changes(cat, objs.drop_last());
        assert forall|k: int| 0 <= k < s.len() implies (#[trigger] s[k]).wf() by {
            if k < rest.len() {
                assert(rest[k].wf());
            } else {
                assert(objs.last() == objs[objs.len() - 1]);
                let implied = spec_implied_category(cat[objs.last().proto_id]);
                assert(implied == Category::Item || implied == Category::Scenery);
            }
        }
    }
}

/// Every emitted correction targets the category-field span of some
/// object of the document, so corrections stay inside a file that holds
/// all those spans.
pub proof fn lemma_changes_come_from_objects(cat: Map<u16, u8>, objs: Seq<MapObject>)
    ensures
        forall|k: int| 0 <= k < spec_changes(cat, objs).len()
            ==> exists|j: int|
                0 <= j < objs.len() && (#[trigger] spec_changes(cat, objs)[k]).offset == (
                #[trigger] objs[j]).offset && spec_changes(cat, objs)[k].len == objs[j].len,
    decreases objs.len(),
{
    if objs.len() == 0 {
    } else {
        lemma_changes_come_from_objects(cat, objs.drop_last());
        let s = spec_changes(cat, objs);
        let rest = spec_changes(cat, objs.drop_last());
        assert forall|k: int| 0 <= k < s.len() implies exists|j: int|
            0 <= j < objs.len() && (#[trigger] s[k]).offset == (#[trigger] objs[j]).offset
                && s[k].len == objs[j].len by {
            if k < rest.len() {
                let j = choose|j: int|
                    0 <= j < objs.drop_last().len() && (#[trigger] rest[k]).offset == (
                    #[trigger] objs.drop_last()[j]).offset && rest[k].len
                        == objs.drop_last()[j].len;
                assert(objs[j] == objs.drop_last()[j]);
            } else {
                assert(s[k].offset == objs[objs.len() - 1].offset && s[k].len == objs[objs.len()
                    - 1].len);
            }
        }
    }
}

/// The checker's invalid-object positions are exact: they are strictly
/// increasing, each names an object whose category is the unclassifiable
/// `Any` variant, and every such object appears among them — so each
/// unclassifiable object gives rise to exactly one report entry.
pub proof fn lemma_invalid_indices_exact(objs: Seq<MapObject>)
    ensures
        forall|k: int| 0 <= k < spec_invalid_indices(objs).len()
            ==> 0 <= #[trigger] spec_invalid_indices(objs)[k] < objs.len()
                && objs[spec_invalid_indices(objs)[k]].category == Category::Any,
        forall|j: int|
            0 <= j < objs.len() && (#[trigger] objs[j]).category == Category::Any
                ==> spec_invalid_indices(objs).contains(j),
        forall|k1: int, k2: int| 0 <= k1 < k2 < spec_invalid_indices(objs).len()
            ==> #[trigger] spec_invalid_indices(objs)[k1] < #[trigger] spec_invalid_indices(
                objs,
            )[k2],
    decreases objs.len(),
{
    if objs.len() == 0 {
    } else {
        lemma_invalid_indices_exact(objs.drop_last());
        let s = spec_invalid_indices(objs);
        let rest = spec_invalid_indices(objs.drop_last());
        assert forall|j: int| 0 <= j < objs.len() && (#[trigger] objs[j]).category == Category::Any
            implies s.contains(j) by {
            if j < objs.len() - 1 {
                assert(objs.drop_last()[j] == objs[j]);
                assert(rest.contains(j));
                let k = choose|k: int| 0 <= k < rest.len() && rest[k] == j;
                assert(s[k] == j);
            } else {
                assert(objs.last().category == Category::Any);
                assert(s[s.len() - 1] == j);
            }
        }
    }
}

} // verus!
