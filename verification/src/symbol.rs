//! Compact, copyable handles for interned values.
//!
//! A symbol encodes a dense, zero-based insertion index. Each symbol type
//! reserves its maximum bit pattern as an invalid sentinel, so constructing a
//! symbol fails exactly on indices at or above that maximum; this keeps one
//! pattern free for niche-style optional encodings and makes running past the
//! representable range an explicit failure rather than a silent wrap.

use vstd::prelude::*;

verus! {

/// A dense identity for one interned value.
///
/// Symbols are trivially copyable, ordered and compared by their index, and
/// never reused or invalidated once minted by an interner.
pub trait Symbol: Sized + Copy {
    /// Whether `index` is representable by this symbol type.
    spec fn spec_valid(index: int) -> bool;

    /// The insertion index this symbol stands for.
    spec fn spec_index(self) -> int;

    /// Representability is downward closed: everything below a representable
    /// index is representable too.
    proof fn lemma_valid_down(i: int, j: int)
        requires
            Self::spec_valid(i),
            0 <= j <= i,
        ensures
            Self::spec_valid(j),
    ;

    /// A representable index fits in `usize`.
    proof fn lemma_valid_fits(i: int)
        requires
            Self::spec_valid(i),
        ensures
            0 <= i < usize::MAX as int,
    ;

    /// Two symbols with equal index are the same symbol.
    proof fn lemma_injective(a: Self, b: Self)
        requires
            a.spec_index() == b.spec_index(),
        ensures
            a == b,
    ;

    /// Constructs the symbol for `index`, or `None` if `index` falls on or
    /// beyond the reserved sentinel.
    fn try_from_usize(index: usize) -> (r: Option<Self>)
        ensures
            match r {
                Some(s) => Self::spec_valid(index as int) && s.spec_index() == index as int,
                None => !Self::spec_valid(index as int),
            },
    ;

    /// The plain integer index of this symbol.
    fn to_usize(self) -> (r: usize)
        ensures
            r as int == self.spec_index(),
    ;
}

/// Symbol backed by a `u16`; `u16::MAX` is the reserved sentinel.
#[derive(Clone, Copy, PartialEq, Eq, Structural, Hash, Debug, PartialOrd, Ord)]
pub struct SymbolU16 {
    value: u16,
}

/// Symbol backed by a `u32`; `u32::MAX` is the reserved sentinel.
#[derive(Clone, Copy, PartialEq, Eq, Structural, Hash, Debug, PartialOrd, Ord)]
pub struct SymbolU32 {
    value: u32,
}

/// Symbol backed by a `usize`; `usize::MAX` is the reserved sentinel.
#[derive(Clone, Copy, PartialEq, Eq, Structural, Hash, Debug, PartialOrd, Ord)]
pub struct SymbolUsize {
    value: usize,
}

/// The symbol type used by default throughout the crate.
pub type DefaultSymbol = SymbolU32;

impl Symbol for SymbolU16 {
    open spec fn spec_valid(index: int) -> bool {
        0 <= index < u16::MAX as int
    }

    closed spec fn spec_index(self) -> int {
        self.value as int
    }

    proof fn lemma_valid_down(i: int, j: int) {
    }

    proof fn lemma_valid_fits(i: int) {
    }

    proof fn lemma_injective(a: Self, b: Self) {
    }

    fn try_from_usize(index: usize) -> (r: Option<Self>) {
        if index < u16::MAX as usize {
            Some(SymbolU16 { value: index as u16 })
        } else {
            None
        }
    }

    fn to_usize(self) -> (r: usize) {
        self.value as usize
    }
}

impl Symbol for SymbolU32 {
    open spec fn spec_valid(index: int) -> bool {
        0 <= index < u32::MAX as int
    }

    closed spec fn spec_index(self) -> int {
        self.value as int
    }

    proof fn lemma_valid_down(i: int, j: int) {
    }

    proof fn lemma_valid_fits(i: int) {
    }

    proof fn lemma_injective(a: Self, b: Self) {
    }

    fn try_from_usize(index: usize) -> (r: Option<Self>) {
        if index < u32::MAX as usize {
            Some(SymbolU32 { value: index as u32 })
        } else {
            None
        }
    }

    fn to_usize(self) -> (r: usize) {
        self.value as usize
    }
}

impl Symbol for SymbolUsize {
    open spec fn spec_valid(index: int) -> bool {
        0 <= index < usize::MAX as int
    }

    closed spec fn spec_index(self) -> int {
        self.value as int
    }

    proof fn lemma_valid_down(i: int, j: int) {
    }

    proof fn lemma_valid_fits(i: int) {
    }

    proof fn lemma_injective(a: Self, b: Self) {
    }

    fn try_from_usize(index: usize) -> (r: Option<Self>) {
        if index < usize::MAX {
            Some(SymbolUsize { value: index })
        } else {
            None
        }
    }

    fn to_usize(self) -> (r: usize) {
        self.value
    }
}

} // verus!
