//! Caches string-like values efficiently, with minimal memory footprint, and
//! associates them with unique symbols. These symbols allow constant-time
//! comparisons and look-ups to the underlying interned content.
//!
//! A value arrives at the [`Interner`] facade; its hash is computed once; the
//! deduplication index is probed with that hash, resolving collisions by
//! looking candidate symbols back up in the arena backend rather than storing
//! a second copy of the content. On a miss, the bytes are appended to the
//! arena, a fresh symbol is minted, and the index stores it under the cached
//! hash — which is also what the index re-derives hashes from when it grows,
//! so each distinct content is hashed exactly once.
//!
//! The crate is laid out by component:
//! - [`symbol`]: the compact copyable handles;
//! - [`intern`]: the contract a string-like type implements to be internable;
//! - [`hasher`]: the hash strategies;
//! - [`backend`]: the append-only arena holding the deduplicated content;
//! - [`dedup`]: the hash index mapping content to symbol;
//! - [`interner`]: the public facade;
//! - [`model`]: the abstract model and the laws proved about interning.

use vstd::prelude::*;

pub mod backend;
pub mod dedup;
pub mod hasher;
pub mod intern;
pub mod interner;
pub mod model;
pub mod symbol;

pub use backend::{Iter, IterWithHashes, StringBackend};
pub use hasher::{ContentHasher, DefaultHashBuilder, FnvHashBuilder};
pub use intern::Intern;
pub use interner::Interner;
pub use symbol::{DefaultSymbol, Symbol};

verus! {

/// [`Interner`] for [`str`] values.
pub type StringInterner<S = DefaultSymbol, H = DefaultHashBuilder> = Interner<str, S, H>;

/// [`StringInterner`] with the default symbol and hash strategy.
pub type DefaultStringInterner = StringInterner;

} // verus!
