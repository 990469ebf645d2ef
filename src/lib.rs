//! A small interner that hands out shared handles to canonical copies of
//! byte sequences. Equal inputs always resolve to the same canonical cell,
//! so handles compare by address instead of by contents.
mod locking;
mod slots;
pub mod laws;
pub mod interner;
pub mod table;
pub mod interned;

pub use interned::Interned;
pub use interner::Interner;
pub use table::InternTable;
