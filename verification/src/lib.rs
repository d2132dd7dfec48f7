//! A stack of cursor positions that descends from an owned root.

pub mod laws;
pub mod rooted_vec;

pub use rooted_vec::MutCursorRootedVec;
