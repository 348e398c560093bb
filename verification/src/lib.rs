//! A minimal manual memory arena for terminator-delimited byte strings.
//!
//! The arena owns every buffer it allocates. A string is stored as its
//! payload bytes followed by a single terminator byte (value 0); its
//! length is recovered by scanning for that terminator. Handles are
//! indices into the arena's registry, so a stale handle can never
//! dangle into freed memory.

pub mod cstr;
pub mod heap;
