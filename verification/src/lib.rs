//! Consistency checking for game-map object categories.
//!
//! A map file lists placed objects; each references a prototype item by
//! numeric ID and carries its own recorded category. The prototype catalog
//! declares, per prototype, a fine-grained type from which the expected
//! category follows. This library finds every object whose recorded category
//! disagrees with the one its prototype implies, produces the single-byte
//! patches that correct the file in place, and collects report entries for
//! objects whose category cannot be classified at all.

pub mod catalog;
pub mod category;
pub mod checker;
pub mod laws;
pub mod object;
pub mod patch;
pub mod report;

pub use catalog::ProtoCatalog;
pub use category::Category;
pub use object::ChangeRecord;
pub use object::MapObject;
