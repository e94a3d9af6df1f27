//! The capability contract for value types that can be interned.
//!
//! An internable type views its content as a slice of a fixed-size primitive
//! element, and can be reconstructed from such a slice — even one that has
//! been copied into shared storage — yielding a value with the same content.
//! The one backend in [`crate::backend`] serves every implementing type
//! through this contract, instead of duplicating the storage logic per type.
//!
//! Rather than an unchecked reinterpretation contract, each adapter here is a
//! closed, verified implementation: `from_elems` carries a precondition
//! describing exactly the element sequences that reconstruct, and the arena
//! maintains that every stored span satisfies it.

use vstd::prelude::*;
use vstd::string::StringSliceAdditionalSpecFns;
use vstd::utf8::{encode_utf8_decode_utf8, encode_utf8_valid_utf8, valid_utf8};

verus! {

/// Trait implemented by the types of string-like values that can be interned.
///
/// The content of a value is the element sequence `elems()`; two values are
/// content-equal exactly when their element sequences are equal. Every value's
/// content satisfies `valid_elems`, and any slice satisfying `valid_elems`
/// reconstructs through `from_elems` into a value with that content.
pub trait Intern {
    /// The fixed-size element type the content is made of.
    type Primitive: Copy;

    /// The content of this value, as a sequence of elements.
    spec fn elems(&self) -> Seq<Self::Primitive>;

    /// The element sequences from which a value of this type can be
    /// reconstructed.
    spec fn valid_elems(e: Seq<Self::Primitive>) -> bool;

    /// Every value's own content is reconstructible.
    proof fn lemma_elems_valid(&self)
        ensures
            Self::valid_elems(self.elems()),
    ;

    /// The content of this value, as an element slice.
    fn as_elems(&self) -> (r: &[Self::Primitive])
        ensures
            r@ == self.elems(),
    ;

    /// Reconstructs a value of this type from a stored element slice.
    fn from_elems(e: &[Self::Primitive]) -> (r: &Self)
        requires
            Self::valid_elems(e@),
        ensures
            r.elems() == e@,
    ;

    /// Compares two element slices for content equality.
    fn elems_eq(a: &[Self::Primitive], b: &[Self::Primitive]) -> (r: bool)
        ensures
            r == (a@ == b@),
    ;
}

/// Relies on `core::str::from_utf8`: on input that is valid UTF-8 it returns
/// `Ok` with a string slice viewing exactly those bytes, as `vstd`'s model of
/// `str::from_utf8_unchecked` also states.
#[verifier::external_body]
fn utf8_to_str(e: &[u8]) -> (r: &str)
    requires
        valid_utf8(e@),
    ensures
        r.spec_bytes() == e@,
{
    core::str::from_utf8(e).unwrap()
}

impl Intern for str {
    type Primitive = u8;

    /// The UTF-8 encoding of the text.
    open spec fn elems(&self) -> Seq<u8> {
        self.spec_bytes()
    }

    open spec fn valid_elems(e: Seq<u8>) -> bool {
        valid_utf8(e)
    }

    proof fn lemma_elems_valid(&self) {
        broadcast use encode_utf8_valid_utf8;

    }

    fn as_elems(&self) -> (r: &[u8]) {
        self.as_bytes()
    }

    fn from_elems(e: &[u8]) -> (r: &Self) {
        utf8_to_str(e)
    }

    fn elems_eq(a: &[u8], b: &[u8]) -> (r: bool) {
        slices_eq_u8(a, b)
    }
}

/// Two `str` values with the same UTF-8 encoding are the same text.
pub proof fn lemma_str_elems_injective(a: &str, b: &str)
    requires
        a.elems() == b.elems(),
    ensures
        a@ == b@,
{
    encode_utf8_decode_utf8(a@);
    encode_utf8_decode_utf8(b@);
}

impl Intern for [u8] {
    type Primitive = u8;

    open spec fn elems(&self) -> Seq<u8> {
        self@
    }

    open spec fn valid_elems(e: Seq<u8>) -> bool {
        true
    }

    proof fn lemma_elems_valid(&self) {
    }

    fn as_elems(&self) -> (r: &[u8]) {
        self
    }

    fn from_elems(e: &[u8]) -> (r: &Self) {
        e
    }

    fn elems_eq(a: &[u8], b: &[u8]) -> (r: bool) {
        slices_eq_u8(a, b)
    }
}

impl Intern for [char] {
    type Primitive = char;

    open spec fn elems(&self) -> Seq<char> {
        self@
    }

    open spec fn valid_elems(e: Seq<char>) -> bool {
        true
    }

    proof fn lemma_elems_valid(&self) {
    }

    fn as_elems(&self) -> (r: &[char]) {
        self
    }

    fn from_elems(e: &[char]) -> (r: &Self) {
        e
    }

    fn elems_eq(a: &[char], b: &[char]) -> (r: bool) {
        if a.len() != b.len() {
            proof {
                assert(a@ =~= b@ ==> a@.len() == b@.len());
            }
            return false;
        }
        let n: usize = a.len();
        let mut i: usize = 0;
        while i < n
            invariant
                n == a@.len(),
                n == b@.len(),
                i <= n,
                forall|k: int| 0 <= k < i ==> a@[k] == b@[k],
            decreases n - i,
        {
            if a[i] != b[i] {
                proof {
                    assert(a@[i as int] != b@[i as int]);
                    assert(a@ != b@);
                }
                return false;
            }
            i += 1;
        }
        proof {
            assert(a@ =~= b@);
        }
        true
    }
}

/// Compares two byte slices element by element.
fn slices_eq_u8(a: &[u8], b: &[u8]) -> (r: bool)
    ensures
        r == (a@ == b@),
{
    if a.len() != b.len() {
        proof {
            assert(a@ =~= b@ ==> a@.len() == b@.len());
        }
        return false;
    }
    let n: usize = a.len();
    let mut i: usize = 0;
    while i < n
        invariant
            n == a@.len(),
            n == b@.len(),
            i <= n,
            forall|k: int| 0 <= k < i ==> a@[k] == b@[k],
        decreases n - i,
    {
        if a[i] != b[i] {
            proof {
                assert(a@[i as int] != b@[i as int]);
                assert(a@ != b@);
            }
            return false;
        }
        i += 1;
    }
    proof {
        assert(a@ =~= b@);
    }
    true
}

} // verus!
