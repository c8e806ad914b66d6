//! A growable, contiguous array container built from scratch: an owned
//! buffer of slots that grows by doubling, and a dynamic array on top of it
//! that tracks which slots are occupied and keeps the occupied ones
//! contiguous through appends, pops, positional inserts and removes, and a
//! consuming iteration.

pub mod raw_vec;
pub mod dyn_vec;
pub mod laws;
