//! The prototype catalog: an immutable mapping from prototype ID to the
//! prototype's declared type, built once per run and then only read.

use vstd::prelude::*;

verus! {

/// Some pair of `pairs` carries the prototype ID `id`.
pub open spec fn spec_has_id(pairs: Seq<(u16, u8)>, id: u16) -> bool {
    exists|j: int| 0 <= j < pairs.len() && (#[trigger] pairs[j]).0 == id
}

/// The mapping from prototype ID to declared type that a sequence of
/// (ID, declared type) pairs with pairwise-distinct IDs represents.
pub open spec fn spec_pairs_map(pairs: Seq<(u16, u8)>) -> Map<u16, u8> {
    Map::new(
        |id: u16| spec_has_id(pairs, id),
        |id: u16|
            {
                let j = choose|j: int| 0 <= j < pairs.len() && (#[trigger] pairs[j]).0 == id;
                pairs[j].1
            },
    )
}

/// No two pairs carry the same prototype ID.
pub open spec fn spec_ids_distinct(pairs: Seq<(u16, u8)>) -> bool {
    forall|i: int, j: int| 0 <= i < j < pairs.len()
        ==> (#[trigger] pairs[i]).0 != (#[trigger] pairs[j]).0
}

/// Each pair's prototype ID is strictly below its successor's, the order
/// an ordered catalog listing arrives in.
pub open spec fn spec_ids_strictly_increasing(pairs: Seq<(u16, u8)>) -> bool {
    forall|k: int| 0 <= k < pairs.len() - 1 ==> (#[trigger] pairs[k]).0 < pairs[k + 1].0
}

/// In a strictly increasing listing every earlier ID is below every later
/// one, so all IDs are pairwise distinct.
pub proof fn lemma_strictly_increasing_implies_distinct(pairs: Seq<(u16, u8)>)
    requires
        spec_ids_strictly_increasing(pairs),
    ensures
        spec_ids_distinct(pairs),
{
    assert forall|i: int, j: int| 0 <= i < j < pairs.len() implies (#[trigger] pairs[i]).0 != (
    #[trigger] pairs[j]).0 by {
        lemma_increasing_pair(pairs, i, j);
    }
}

proof fn lemma_increasing_pair(pairs: Seq<(u16, u8)>, i: int, j: int)
    requires
        spec_ids_strictly_increasing(pairs),
        0 <= i < j < pairs.len(),
    ensures
        pairs[i].0 < pairs[j].0,
    decreases j - i,
{
    if i + 1 < j {
        lemma_increasing_pair(pairs, i, j - 1);
    }
}

/// Immutable catalog of prototype items, keyed by prototype ID. Its view
/// is the mapping from each listed ID to the declared type recorded for
/// it; IDs are unique by construction.
pub struct ProtoCatalog {
    entries: Vec<(u16, u8)>,
}

impl ProtoCatalog {
    /// The (ID, declared type) pairs the catalog holds, in listing order.
    pub closed spec fn entries_seq(&self) -> Seq<(u16, u8)> {
        self.entries@
    }

    /// Catalog invariant: prototype IDs are pairwise distinct, so the
    /// view below is a well-defined mapping.
    pub open spec fn wf(&self) -> bool {
        spec_ids_distinct(self.entries_seq())
    }

    /// The mapping from prototype ID to declared type.
    pub closed spec fn view(&self) -> Map<u16, u8> {
        spec_pairs_map(self.entries@)
    }

    /// Builds a catalog from an ordered listing of (prototype ID,
    /// declared type) pairs. The listing must be strictly increasing by
    /// ID, as an ordered catalog dump is; anything else is rejected.
    pub fn new(pairs: Vec<(u16, u8)>) -> (r: Option<ProtoCatalog>)
        ensures
            r is Some <==> spec_ids_strictly_increasing(pairs@),
            r matches Some(c) ==> c.wf() && c@ == spec_pairs_map(pairs@),
    {
        let n = pairs.len();
        if n > 0 {
            let mut k: usize = 0;
            while k < n - 1
                invariant
                    n == pairs@.len(),
                    n > 0,
                    0 <= k <= n - 1,
                    forall|j: int| 0 <= j < k ==> (#[trigger] pairs@[j]).0 < pairs@[j + 1].0,
                decreases n - 1 - k,
            {
                if pairs[k].0 >= pairs[k + 1].0 {
                    return None;
                }
                k = k + 1;
            }
        }
        proof {
            lemma_strictly_increasing_implies_distinct(pairs@);
        }
        Some(ProtoCatalog { entries: pairs })
    }

    /// Number of prototypes listed.
    pub fn len(&self) -> (n: usize)
        ensures
            n == self.entries_seq().len(),
    {
        self.entries.len()
    }

    /// Looks up the declared type recorded for `id`: the declared type if
    /// the catalog lists the prototype, nothing otherwise.
    pub fn lookup(&self, id: u16) -> (r: Option<u8>)
        requires
            self.wf(),
        ensures
            self@.dom().contains(id) ==> r == Some(self@[id]),
            !self@.dom().contains(id) ==> r is None,
    {
        let n = self.entries.len();
        let mut k: usize = 0;
        while k < n
            invariant
                n == self.entries@.len(),
                0 <= k <= n,
                self.wf(),
                forall|j: int| 0 <= j < k ==> (#[trigger] self.entries@[j]).0 != id,
            decreases n - k,
        {
            if self.entries[k].0 == id {
                proof {
                    let j = choose|j: int|
                        0 <= j < self.entries@.len() && (#[trigger] self.entries@[j]).0 == id;
                    assert(j == k);
                }
                return Some(self.entries[k].1);
            }
            k = k + 1;
        }
        None
    }
}

} // verus!
