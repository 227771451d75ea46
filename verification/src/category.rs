//! Object categories and the rule mapping a prototype's declared type to
//! the category it implies.

use vstd::prelude::*;

verus! {

/// Declared-type code for grid prototypes.
pub const TYPE_GRID: u8 = 10;
/// Declared-type code for generic prototypes.
pub const TYPE_GENERIC: u8 = 11;
/// Declared-type code for wall prototypes.
pub const TYPE_WALL: u8 = 12;

/// Classification of a placed map object.
///
/// `Critter`, `Item` and `Scenery` are the prototype-backed categories a map
/// file encodes as a single digit; `Any` marks an object whose category field
/// could not be classified and is only ever reported, never rewritten.
#[derive(Clone, Copy, Debug, PartialEq, Eq, Structural)]
pub enum Category {
    Critter,
    Item,
    Scenery,
    Any,
}

impl Category {
    /// Numeric code a prototype-backed category is encoded with in a map
    /// file; unclassifiable objects have no code.
    pub open spec fn spec_code(self) -> Option<u8> {
        match self {
            Category::Critter => Some(0u8),
            Category::Item => Some(1u8),
            Category::Scenery => Some(2u8),
            Category::Any => None,
        }
    }

    /// Executable counterpart of [`Self::spec_code`].
    pub fn code(self) -> (r: Option<u8>)
        ensures
            r == self.spec_code(),
    {
        match self {
            Category::Critter => Some(0u8),
            Category::Item => Some(1u8),
            Category::Scenery => Some(2u8),
            Category::Any => None,
        }
    }
}

/// Category a prototype's declared type implies: the grid, generic and wall
/// classes are scenery, every other declared type is an item.
pub open spec fn spec_implied_category(declared_type: u8) -> Category {
    if declared_type == TYPE_GRID || declared_type == TYPE_GENERIC || declared_type == TYPE_WALL {
        Category::Scenery
    } else {
        Category::Item
    }
}

/// Total rule from a prototype's declared type to the category it implies;
/// unrecognized declared types fall into the default item branch.
pub fn implied_category(declared_type: u8) -> (c: Category)
    ensures
        c == spec_implied_category(declared_type),
{
    match declared_type {
        10u8 | 11u8 | 12u8 => Category::Scenery,
        _ => Category::Item,
    }
}

/// The implied category is scenery exactly on the grid, generic and wall
/// declared types and an item on every other declared type; it is never a
/// critter and never unclassifiable.
pub proof fn lemma_implied_category_cases(declared_type: u8)
    ensures
        (declared_type == TYPE_GRID || declared_type == TYPE_GENERIC || declared_type == TYPE_WALL)
            ==> spec_implied_category(declared_type) == Category::Scenery,
        !(declared_type == TYPE_GRID || declared_type == TYPE_GENERIC || declared_type == TYPE_WALL)
            ==> spec_implied_category(declared_type) == Category::Item,
{
}

} // verus!
