//! The consistency checker: per-object mismatch detection against the
//! prototype catalog, and detection of unclassifiable objects.

use vstd::prelude::*;

use crate::catalog::ProtoCatalog;
use crate::category::Category;
use crate::category::spec_implied_category;
use crate::object::ChangeRecord;
use crate::object::MapObject;

verus! {

/// The correction one object calls for, if any. Critters are exempt from
/// the prototype-derived check, unclassifiable objects are only reported,
/// an object whose prototype the catalog does not list cannot be judged,
/// and an object whose recorded category already equals the implied one
/// needs nothing. Otherwise the object's category field is to be
/// overwritten with the ASCII digit encoding the implied category.
pub open spec fn spec_check_object(cat: Map<u16, u8>, obj: MapObject) -> Option<ChangeRecord> {
    if obj.category == Category::Any || obj.category == Category::Critter {
        None
    } else if !cat.dom().contains(obj.proto_id) {
        None
    } else {
        let implied = spec_implied_category(cat[obj.proto_id]);
        if implied == obj.category {
            None
        } else {
            Some(
                ChangeRecord {
                    offset: obj.offset,
                    len: obj.len,
                    digit: (48 + implied.spec_code()->0) as u8,
                },
            )
        }
    }
}

/// The corrections a whole document calls for, one object after the
/// other in listing order; objects that call for none contribute none.
pub open spec fn spec_changes(cat: Map<u16, u8>, objs: Seq<MapObject>) -> Seq<ChangeRecord>
    decreases objs.len(),
{
    if objs.len() == 0 {
        Seq::empty()
    } else {
        let rest = spec_changes(cat, objs.drop_last());
        match spec_check_object(cat, objs.last()) {
            Option::None => rest,
            Option::Some(r) => rest.push(r),
        }
    }
}

/// Checks one object against the catalog and returns the correction it
/// calls for, if any.
pub fn check_object(catalog: &ProtoCatalog, obj: &MapObject) -> (r: Option<ChangeRecord>)
    requires
        catalog.wf(),
    ensures
        r == spec_check_object(catalog@, *obj),
{
    if obj.category == Category::Any || obj.category == Category::Critter {
        return None;
    }
    match catalog.lookup(obj.proto_id) {
        Option::None => None,
        Option::Some(declared_type) => {
            let implied = crate::category::implied_category(declared_type);
            if implied == obj.category {
                None
            } else {
                let code = match implied.code() {
                    Option::Some(c) => c,
                    Option::None => 0,
                };
                Some(ChangeRecord { offset: obj.offset, len: obj.len, digit: 48 + code })
            }
        },
    }
}

/// Checks every object of a document against the catalog and collects
/// the corrections, in listing order.
pub fn check_map(catalog: &ProtoCatalog, objs: &Vec<MapObject>) -> (changes: Vec<ChangeRecord>)
    requires
        catalog.wf(),
    ensures
        changes@ == spec_changes(catalog@, objs@),
{
    let mut changes: Vec<ChangeRecord> = Vec::new();
    let n = objs.len();
    let mut k: usize = 0;
    while k < n
        invariant
            n == objs@.len(),
            0 <= k <= n,
            catalog.wf(),
            changes@ == spec_changes(catalog@, objs@.take(k as int)),
        decreases n - k,
    {
        proof {
            assert(objs@.take(k + 1).drop_last() =~= objs@.take(k as int));
            assert(objs@.take(k + 1).last() == objs@[k as int]);
        }
        match check_object(catalog, &objs[k]) {
            Option::None => {},
            Option::Some(r) => {
                changes.push(r);
            },
        }
        k = k + 1;
    }
    proof {
        assert(objs@.take(n as int) =~= objs@);
    }
    changes
}

/// The positions, in listing order, of the objects whose category is the
/// unclassifiable `Any` variant.
pub open spec fn spec_invalid_indices(objs: Seq<MapObject>) -> Seq<int>
    decreases objs.len(),
{
    if objs.len() == 0 {
        Seq::empty()
    } else {
        let rest = spec_invalid_indices(objs.drop_last());
        if objs.last().category == Category::Any {
            rest.push(objs.len() - 1)
        } else {
            rest
        }
    }
}

/// Collects the positions of the unclassifiable objects of a document,
/// in listing order; each such object is to be reported exactly once.
pub fn invalid_indices(objs: &Vec<MapObject>) -> (r: Vec<usize>)
    ensures
        r@.map_values(|u: usize| u as int) == spec_invalid_indices(objs@),
{
    let mut r: Vec<usize> = Vec::new();
    let n = objs.len();
    let mut k: usize = 0;
    while k < n
        invariant
            n == objs@.len(),
            0 <= k <= n,
            r@.map_values(|u: usize| u as int) == spec_invalid_indices(objs@.take(k as int)),
        decreases n - k,
    {
        proof {
            assert(objs@.take(k + 1).drop_last() =~= objs@.take(k as int));
            assert(objs@.take(k + 1).last() == objs@[k as int]);
        }
        if objs[k].category == Category::Any {
            r.push(k);
            proof {
                assert(r@.map_values(|u: usize| u as int) =~= r@.drop_last().map_values(
                    |u: usize| u as int,
                ).push(k as int));
            }
        }
        k = k + 1;
    }
    proof {
        assert(objs@.take(n as int) =~= objs@);
    }
    r
}

} // verus!
