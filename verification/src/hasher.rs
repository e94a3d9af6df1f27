//! Hash strategies for probing the deduplication index.
//!
//! A strategy turns an element sequence into a `u64` once per distinct intern
//! call; the arena caches the result so it is never recomputed, even when the
//! index grows and rehashes. A strategy's hash is a function of the strategy
//! value and the content alone, which is what makes the cached hash reusable
//! for later probes of the same content.

use std::collections::hash_map::DefaultHasher;
use std::hash::Hasher;
use vstd::prelude::*;
use vstd::slice::slice_to_vec;
use vstd::std_specs::hash::DefaultHasherAdditionalSpecFns;

verus! {

/// A strategy for hashing interned content made of elements of type `P`.
///
/// The `u64` returned by `hash_elems` is determined by the strategy value and
/// the element sequence: probing later with equal content yields the same
/// hash, which the deduplication index relies on.
pub trait ContentHasher<P>: Sized {
    /// The hash this strategy assigns to the content `s`.
    spec fn spec_hash(&self, s: Seq<P>) -> u64;

    /// Computes the hash of `e`'s content.
    fn hash_elems(&self, e: &[P]) -> (r: u64)
        ensures
            r == self.spec_hash(e@),
    ;
}

/// The default hash strategy: the standard library's `DefaultHasher`, fed the
/// content as one byte stream.
///
/// Byte content is terminated with a `0xff` marker byte, matching how the
/// standard library hashes string slices, so the hashes this strategy caches
/// can drive an external hash map of string keys that was built with
/// `DefaultHasher` as well.
#[derive(Clone, Copy, PartialEq, Eq, Structural, Debug)]
pub struct DefaultHashBuilder;

impl Default for DefaultHashBuilder {
    fn default() -> (r: Self)
        ensures
            r == DefaultHashBuilder,
    {
        DefaultHashBuilder
    }
}

impl ContentHasher<u8> for DefaultHashBuilder {
    open spec fn spec_hash(&self, s: Seq<u8>) -> u64 {
        DefaultHasher::spec_finish(seq![s.push(0xffu8)])
    }

    fn hash_elems(&self, e: &[u8]) -> (r: u64) {
        let mut buf: Vec<u8> = slice_to_vec(e);
        buf.push(0xffu8);
        let mut h = DefaultHasher::new();
        h.write(buf.as_slice());
        h.finish()
    }
}

/// The little-endian four-byte encoding of one code point.
pub open spec fn char_le_bytes(c: char) -> Seq<u8> {
    let x = c as u32;
    seq![
        (x & 0xff) as u8,
        ((x >> 8u32) & 0xff) as u8,
        ((x >> 16u32) & 0xff) as u8,
        ((x >> 24u32) & 0xff) as u8,
    ]
}

/// The concatenation of the four-byte encodings of a code-point sequence.
pub open spec fn chars_le_bytes(s: Seq<char>) -> Seq<u8>
    decreases s.len(),
{
    if s.len() == 0 {
        Seq::empty()
    } else {
        chars_le_bytes(s.drop_last()) + char_le_bytes(s.last())
    }
}

/// The starting state of an FNV-1a hash.
pub const FNV_OFFSET_BASIS: u64 = 0xcbf29ce484222325;

/// The multiplier of an FNV-1a hash step.
pub const FNV_PRIME: u64 = 0x100000001b3;

/// The 64-bit FNV-1a hash of a byte sequence: fold each byte into the state
/// by exclusive-or, then multiply by the FNV prime, wrapping.
pub open spec fn fnv1a(s: Seq<u8>) -> u64
    decreases s.len(),
{
    if s.len() == 0 {
        FNV_OFFSET_BASIS
    } else {
        vstd::wrapping::u64_specs::wrapping_mul(fnv1a(s.drop_last()) ^ (s.last() as u64), FNV_PRIME)
    }
}

/// An alternative hash strategy: 64-bit FNV-1a, implemented and verified in
/// this crate against [`fnv1a`].
///
/// Unlike a randomly seeded strategy it is deterministic across processes; it
/// trades collision resistance against adversarial input for simplicity and
/// speed on short content. Code-point content is hashed over its
/// little-endian four-byte encoding.
#[derive(Clone, Copy, PartialEq, Eq, Structural, Debug)]
pub struct FnvHashBuilder;

impl Default for FnvHashBuilder {
    fn default() -> (r: Self)
        ensures
            r == FnvHashBuilder,
    {
        FnvHashBuilder
    }
}

/// Runs the FNV-1a rounds for `e` over the accumulated state.
fn fnv1a_bytes(e: &[u8]) -> (r: u64)
    ensures
        r == fnv1a(e@),
{
    let n: usize = e.len();
    let mut h: u64 = FNV_OFFSET_BASIS;
    let mut i: usize = 0;
    while i < n
        invariant
            n == e@.len(),
            i <= n,
            h == fnv1a(e@.take(i as int)),
        decreases n - i,
    {
        h = (h ^ (e[i] as u64)).wrapping_mul(FNV_PRIME);
        proof {
            let t = e@.take(i + 1int);
            assert(t.drop_last() =~= e@.take(i as int));
            assert(t.last() == e@[i as int]);
        }
        i += 1;
    }
    proof {
        assert(e@.take(n as int) =~= e@);
    }
    h
}

impl ContentHasher<u8> for FnvHashBuilder {
    open spec fn spec_hash(&self, s: Seq<u8>) -> u64 {
        fnv1a(s)
    }

    fn hash_elems(&self, e: &[u8]) -> (r: u64) {
        fnv1a_bytes(e)
    }
}

impl ContentHasher<char> for FnvHashBuilder {
    open spec fn spec_hash(&self, s: Seq<char>) -> u64 {
        fnv1a(chars_le_bytes(s))
    }

    fn hash_elems(&self, e: &[char]) -> (r: u64) {
        let buf: Vec<u8> = encode_chars_le(e);
        fnv1a_bytes(buf.as_slice())
    }
}

/// Encodes each code point as four little-endian bytes.
fn encode_chars_le(e: &[char]) -> (r: Vec<u8>)
    ensures
        r@ == chars_le_bytes(e@),
{
    let n: usize = e.len();
    let mut buf: Vec<u8> = Vec::new();
    let mut i: usize = 0;
    while i < n
        invariant
            n == e@.len(),
            i <= n,
            buf@ == chars_le_bytes(e@.take(i as int)),
        decreases n - i,
    {
        let x: u32 = e[i] as u32;
        buf.push((x & 0xff) as u8);
        buf.push(((x >> 8u32) & 0xff) as u8);
        buf.push(((x >> 16u32) & 0xff) as u8);
        buf.push(((x >> 24u32) & 0xff) as u8);
        proof {
            let t = e@.take(i + 1int);
            assert(t.drop_last() =~= e@.take(i as int));
            assert(t.last() == e@[i as int]);
            assert(buf@ =~= chars_le_bytes(e@.take(i + 1int)));
        }
        i += 1;
    }
    proof {
        assert(e@.take(n as int) =~= e@);
    }
    buf
}

impl ContentHasher<char> for DefaultHashBuilder {
    open spec fn spec_hash(&self, s: Seq<char>) -> u64 {
        DefaultHasher::spec_finish(seq![chars_le_bytes(s)])
    }

    fn hash_elems(&self, e: &[char]) -> (r: u64) {
        let buf: Vec<u8> = encode_chars_le(e);
        let mut h = DefaultHasher::new();
        h.write(buf.as_slice());
        h.finish()
    }
}

} // verus!
