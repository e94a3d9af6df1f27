//! The append-only arena that stores deduplicated content.
//!
//! All interned values live in one shared element buffer; a parallel table
//! records, for every entry, the exclusive end offset of its span and the hash
//! that was computed when it was first interned. The entry at table position
//! `i` corresponds to the symbol of index `i`; its span starts where entry
//! `i - 1` ends (or at 0). Spans are contiguous, never overlap, and are never
//! moved or mutated once written, so a symbol stays resolvable to the same
//! content for the lifetime of the backend.

use crate::intern::Intern;
use crate::symbol::Symbol;
use core::marker::PhantomData;
use vstd::prelude::*;
use vstd::slice::slice_subrange;

verus! {

/// Buffer elements reserved per expected entry by `with_capacity`; a sizing
/// heuristic only, with no effect on behaviour.
const DEFAULT_WORD_LEN: usize = 10;

/// An arena backend that accumulates all interned content in one buffer.
///
/// Abstractly, a backend is the sequence `self@` of the contents interned so
/// far, in insertion order, together with the parallel sequence
/// `self.hashes()` of their cached hashes.
pub struct StringBackend<I: Intern + ?Sized, S> {
    /// End offset of each entry's span, with the entry's cached hash.
    ends: Vec<(usize, u64)>,
    buffer: Vec<I::Primitive>,
    marker: PhantomData<S>,
}

impl<I: Intern + ?Sized, S> StringBackend<I, S> {
    /// Where the span of entry `i` starts in the buffer.
    pub closed spec fn spec_start(&self, i: int) -> int {
        if i == 0 {
            0
        } else {
            self.ends@[i - 1].0 as int
        }
    }

    /// Where the span of entry `i` ends (exclusive) in the buffer.
    pub closed spec fn spec_end(&self, i: int) -> int {
        self.ends@[i].0 as int
    }

    /// The content of entry `i`.
    pub closed spec fn spec_content(&self, i: int) -> Seq<I::Primitive> {
        self.buffer@.subrange(self.spec_start(i), self.spec_end(i))
    }

    /// The cached hashes, in insertion order.
    pub closed spec fn hashes(&self) -> Seq<u64> {
        Seq::new(self.ends@.len(), |i: int| self.ends@[i].1)
    }
}

impl<I: Intern + ?Sized, S> View for StringBackend<I, S> {
    type V = Seq<Seq<I::Primitive>>;

    /// The contents interned so far, in insertion order.
    closed spec fn view(&self) -> Seq<Seq<I::Primitive>> {
        Seq::new(self.ends@.len(), |i: int| self.spec_content(i))
    }
}

impl<I: Intern + ?Sized, S: Symbol> StringBackend<I, S> {
    /// Well-formedness: spans are monotone and cover the buffer exactly, every
    /// stored content can be reconstructed, and every entry index is
    /// representable as a symbol.
    pub closed spec fn wf(&self) -> bool {
        &&& forall|i: int, j: int|
            0 <= i <= j < self.ends@.len() ==> self.ends@[i].0 <= self.ends@[j].0
        &&& (self.ends@.len() == 0 ==> self.buffer@.len() == 0)
        &&& (self.ends@.len() > 0 ==> self.ends@[self.ends@.len() - 1].0 == self.buffer@.len())
        &&& forall|i: int| 0 <= i < self.ends@.len() ==> I::valid_elems(#[trigger] self@[i])
        &&& forall|i: int| 0 <= i < self.ends@.len() ==> S::spec_valid(i)
    }

    /// The bounds of every span are within the buffer.
    proof fn lemma_span_bounds(&self, i: int)
        requires
            self.wf(),
            0 <= i < self@.len(),
        ensures
            0 <= self.spec_start(i) <= self.spec_end(i) <= self.buffer@.len(),
    {
    }

    /// Every entry index of a well-formed backend is representable as a
    /// symbol.
    pub proof fn lemma_indices_valid(&self)
        requires
            self.wf(),
        ensures
            forall|i: int| 0 <= i < self@.len() ==> S::spec_valid(i),
    {
    }

    /// There is exactly one cached hash per entry.
    pub proof fn lemma_hashes_len(&self)
        ensures
            self.hashes().len() == self@.len(),
    {
    }

    /// Copies this backend, entry for entry; the copy resolves every symbol
    /// to the same content and hash.
    pub fn duplicate(&self) -> (r: Self)
        ensures
            r@ == self@,
            r.hashes() == self.hashes(),
            r.wf() == self.wf(),
    {
        let n: usize = self.ends.len();
        let mut ends: Vec<(usize, u64)> = Vec::with_capacity(n);
        let mut i: usize = 0;
        while i < n
            invariant
                n == self.ends@.len(),
                i <= n,
                ends@ == self.ends@.take(i as int),
            decreases n - i,
        {
            let entry: (usize, u64) = self.ends[i];
            ends.push(entry);
            proof {
                assert(ends@ =~= self.ends@.take(i + 1int));
            }
            i += 1;
        }
        let m: usize = self.buffer.len();
        let mut buffer: Vec<I::Primitive> = Vec::with_capacity(m);
        let mut j: usize = 0;
        while j < m
            invariant
                m == self.buffer@.len(),
                j <= m,
                buffer@ == self.buffer@.take(j as int),
            decreases m - j,
        {
            let x: I::Primitive = self.buffer[j];
            buffer.push(x);
            proof {
                assert(buffer@ =~= self.buffer@.take(j + 1int));
            }
            j += 1;
        }
        let r = StringBackend { ends, buffer, marker: PhantomData };
        proof {
            assert(r.ends@ =~= self.ends@);
            assert(r.buffer@ =~= self.buffer@);
            assert forall|k: int| 0 <= k < r.ends@.len() implies r.spec_content(k)
                == self.spec_content(k) by {
                assert(r.spec_content(k) =~= self.spec_content(k));
            }
            assert(r@ =~= self@);
            assert(r.hashes() =~= self.hashes());
        }
        r
    }

    /// Creates an empty backend with room reserved for `cap` entries, sizing
    /// the buffer by a fixed average-length heuristic.
    pub fn with_capacity(cap: usize) -> (r: Self)
        ensures
            r.wf(),
            r@ == Seq::<Seq<I::Primitive>>::empty(),
            r.hashes() == Seq::<u64>::empty(),
    {
        let buffer_cap: usize = if cap > usize::MAX / DEFAULT_WORD_LEN {
            usize::MAX
        } else {
            cap * DEFAULT_WORD_LEN
        };
        let r = StringBackend {
            ends: Vec::with_capacity(cap),
            buffer: Vec::with_capacity(buffer_cap),
            marker: PhantomData,
        };
        proof {
            assert(r@ =~= Seq::<Seq<I::Primitive>>::empty());
            assert(r.hashes() =~= Seq::<u64>::empty());
        }
        r
    }

    /// Appends `value`'s content to the buffer, records its span and `hash`,
    /// and mints the symbol for the new entry.
    pub fn intern(&mut self, value: &I, hash: u64) -> (r: S)
        requires
            old(self).wf(),
            S::spec_valid(old(self)@.len() as int),
        ensures
            final(self).wf(),
            final(self)@ == old(self)@.push(value.elems()),
            final(self).hashes() == old(self).hashes().push(hash),
            r.spec_index() == old(self)@.len() as int,
    {
        let elems: &[I::Primitive] = value.as_elems();
        let n: usize = elems.len();
        let mut i: usize = 0;
        while i < n
            invariant
                n == elems@.len(),
                i <= n,
                self.ends == old(self).ends,
                self.buffer@ == old(self).buffer@ + elems@.take(i as int),
            decreases n - i,
        {
            let x: I::Primitive = elems[i];
            self.buffer.push(x);
            proof {
                assert(self.buffer@ =~= old(self).buffer@ + elems@.take(i + 1int));
            }
            i += 1;
        }
        proof {
            assert(elems@.take(n as int) =~= elems@);
            assert(self.buffer@ == old(self).buffer@ + elems@);
        }
        let to: usize = self.buffer.len();
        let index: usize = self.ends.len();
        let symbol: S = S::try_from_usize(index).unwrap();
        self.ends.push((to, hash));
        proof {
            let pre = *old(self);
            let post = *self;
            let len = pre.ends@.len() as int;
            assert forall|k: int| 0 <= k < len implies post.spec_content(k) == pre.spec_content(
                k,
            ) by {
                pre.lemma_span_bounds(k);
                assert(post.spec_content(k) =~= pre.spec_content(k));
            }
            assert(post.spec_content(len) =~= value.elems());
            assert(post@ =~= pre@.push(value.elems()));
            assert(post.hashes() =~= pre.hashes().push(hash));
            assert forall|k: int| 0 <= k < post.ends@.len() implies I::valid_elems(
                #[trigger] post@[k],
            ) by {
                if k < len {
                    assert(I::valid_elems(pre@[k]));
                } else {
                    value.lemma_elems_valid();
                }
            }
            assert forall|k: int| 0 <= k < post.ends@.len() implies S::spec_valid(k) by {
                S::lemma_valid_down(len, k);
            }
        }
        symbol
    }

    /// Returns the content of the entry `symbol` refers to, or `None` if no
    /// entry of this backend has ever been given that symbol's index.
    pub fn resolve(&self, symbol: S) -> (r: Option<&I>)
        requires
            self.wf(),
        ensures
            match r {
                Some(v) => 0 <= symbol.spec_index() < self@.len() && v.elems()
                    == self@[symbol.spec_index()],
                None => symbol.spec_index() >= self@.len(),
            },
    {
        let index: usize = symbol.to_usize();
        if index >= self.ends.len() {
            return None;
        }
        let to: usize = self.ends[index].0;
        let from: usize = if index == 0 {
            0
        } else {
            self.ends[index - 1].0
        };
        proof {
            self.lemma_span_bounds(index as int);
        }
        let span: &[I::Primitive] = slice_subrange(self.buffer.as_slice(), from, to);
        proof {
            assert(span@ == self@[index as int]);
        }
        Some(I::from_elems(span))
    }

    /// Returns the content of the entry `symbol` refers to, without the bounds
    /// check; the caller must know that the symbol was minted by this backend.
    pub fn resolve_unchecked(&self, symbol: S) -> (r: &I)
        requires
            self.wf(),
            symbol.spec_index() < self@.len(),
        ensures
            r.elems() == self@[symbol.spec_index()],
    {
        let index: usize = symbol.to_usize();
        let to: usize = self.ends[index].0;
        let from: usize = if index == 0 {
            0
        } else {
            self.ends[index - 1].0
        };
        proof {
            self.lemma_span_bounds(index as int);
        }
        let span: &[I::Primitive] = slice_subrange(self.buffer.as_slice(), from, to);
        proof {
            assert(span@ == self@[index as int]);
        }
        I::from_elems(span)
    }

    /// Returns the hash cached for `symbol` when its entry was interned, or
    /// `None` if the symbol is out of this backend's bounds.
    pub fn get_hash(&self, symbol: S) -> (r: Option<u64>)
        ensures
            match r {
                Some(h) => 0 <= symbol.spec_index() < self.hashes().len() && h == self.hashes()[
                    symbol.spec_index()
                ],
                None => symbol.spec_index() >= self.hashes().len(),
            },
    {
        let index: usize = symbol.to_usize();
        if index < self.ends.len() {
            Some(self.ends[index].1)
        } else {
            None
        }
    }

    /// Returns the hash cached for `symbol`, without the bounds check; the
    /// caller must know that the symbol was minted by this backend.
    pub fn get_hash_unchecked(&self, symbol: S) -> (r: u64)
        requires
            symbol.spec_index() < self.hashes().len(),
        ensures
            r == self.hashes()[symbol.spec_index()],
    {
        let index: usize = symbol.to_usize();
        self.ends[index].1
    }

    /// The hash cached at `index`, or 0 for an index out of bounds. Used as
    /// the re-hash callback when the deduplication index grows.
    pub(crate) fn hash_or_zero(&self, index: usize) -> (r: u64)
        ensures
            r == if (index as int) < self.hashes().len() {
                self.hashes()[index as int]
            } else {
                0u64
            },
    {
        if index < self.ends.len() {
            self.ends[index].1
        } else {
            0
        }
    }

    /// Whether `index` names an entry whose content equals `value`'s. Used as
    /// the probe callback of the deduplication index.
    pub(crate) fn content_eq(&self, index: usize, value: &I) -> (r: bool)
        requires
            self.wf(),
        ensures
            r == ((index as int) < self@.len() && self@[index as int] == value.elems()),
    {
        if index >= self.ends.len() {
            return false;
        }
        let to: usize = self.ends[index].0;
        let from: usize = if index == 0 {
            0
        } else {
            self.ends[index - 1].0
        };
        proof {
            self.lemma_span_bounds(index as int);
        }
        let span: &[I::Primitive] = slice_subrange(self.buffer.as_slice(), from, to);
        proof {
            assert(span@ == self@[index as int]);
        }
        I::elems_eq(span, value.as_elems())
    }

    /// The number of entries interned so far.
    pub fn len(&self) -> (r: usize)
        ensures
            r as int == self@.len() as int,
    {
        self.ends.len()
    }

    /// Releases over-allocated capacity in the buffer and the offset table
    /// without altering any entry, span or hash.
    pub fn shrink_to_fit(&mut self)
        ensures
            final(self)@ == old(self)@,
            final(self).hashes() == old(self).hashes(),
            final(self).wf() == old(self).wf(),
    {
        vec_shrink_to_fit(&mut self.ends);
        vec_shrink_to_fit(&mut self.buffer);
    }

    /// Iterates over the entries and their symbols in insertion order.
    pub fn iter(&self) -> (r: Iter<'_, I, S>)
        ensures
            r.spec_backend() == self,
            r.spec_pos() == 0,
    {
        Iter::new(self)
    }

    /// Iterates over the entries, their symbols and their cached hashes in
    /// insertion order.
    pub fn iter_with_hashes(&self) -> (r: IterWithHashes<'_, I, S>)
        ensures
            r.spec_backend() == self,
            r.spec_pos() == 0,
    {
        IterWithHashes::new(self)
    }
}

impl<I: Intern + ?Sized, S: Symbol> Default for StringBackend<I, S> {
    /// An empty backend with no reserved capacity.
    fn default() -> (r: Self)
        ensures
            r.wf(),
            r@ == Seq::<Seq<I::Primitive>>::empty(),
            r.hashes() == Seq::<u64>::empty(),
    {
        let r = StringBackend {
            ends: Vec::new(),
            buffer: Vec::new(),
            marker: PhantomData,
        };
        proof {
            assert(r@ =~= Seq::<Seq<I::Primitive>>::empty());
            assert(r.hashes() =~= Seq::<u64>::empty());
        }
        r
    }
}

/// Relies on `Vec::shrink_to_fit`: it only reduces spare capacity and leaves
/// the contents untouched.
#[verifier::external_body]
fn vec_shrink_to_fit<T>(v: &mut Vec<T>)
    ensures
        final(v)@ == old(v)@,
{
    v.shrink_to_fit()
}

/// An iterator over the interned symbols, their contents, and their hashes,
/// in strictly increasing symbol order.
pub struct IterWithHashes<'a, I: Intern + ?Sized, S> {
    backend: &'a StringBackend<I, S>,
    pos: usize,
}

impl<'a, I: Intern + ?Sized, S: Symbol> IterWithHashes<'a, I, S> {
    /// The backend being iterated.
    pub closed spec fn spec_backend(&self) -> &'a StringBackend<I, S> {
        self.backend
    }

    /// The index of the next entry to yield.
    pub closed spec fn spec_pos(&self) -> int {
        self.pos as int
    }

    /// A fresh iterator over `backend`, starting at the first entry.
    pub fn new(backend: &'a StringBackend<I, S>) -> (r: Self)
        ensures
            r.spec_backend() == backend,
            r.spec_pos() == 0,
    {
        IterWithHashes { backend, pos: 0 }
    }

    /// The exact number of entries left to yield.
    pub fn size_hint(&self) -> (r: (usize, Option<usize>))
        requires
            self.spec_pos() <= self.spec_backend()@.len(),
        ensures
            r.0 as int == self.spec_backend()@.len() - self.spec_pos(),
            r.1 == Some(r.0),
    {
        let left: usize = self.backend.len() - self.pos;
        (left, Some(left))
    }

    /// Yields the next entry, as the triple of its symbol, its content and its
    /// cached hash, or `None` after the last entry.
    pub fn next(&mut self) -> (r: Option<(S, &'a I, u64)>)
        requires
            old(self).spec_backend().wf(),
            old(self).spec_pos() <= old(self).spec_backend()@.len(),
        ensures
            final(self).spec_backend() == old(self).spec_backend(),
            match r {
                Some(entry) => {
                    &&& old(self).spec_pos() < old(self).spec_backend()@.len()
                    &&& final(self).spec_pos() == old(self).spec_pos() + 1
                    &&& entry.0.spec_index() == old(self).spec_pos()
                    &&& entry.1.elems() == old(self).spec_backend()@[old(self).spec_pos()]
                    &&& entry.2 == old(self).spec_backend().hashes()[old(self).spec_pos()]
                },
                None => {
                    &&& old(self).spec_pos() == old(self).spec_backend()@.len()
                    &&& final(self).spec_pos() == old(self).spec_pos()
                },
            },
    {
        let i: usize = self.pos;
        if i >= self.backend.len() {
            return None;
        }
        let symbol: S = S::try_from_usize(i).unwrap();
        let content: &'a I = self.backend.resolve_unchecked(symbol);
        let hash: u64 = self.backend.get_hash_unchecked(symbol);
        self.pos = i + 1;
        Some((symbol, content, hash))
    }
}

/// An iterator over the interned symbols and their contents, in strictly
/// increasing symbol order.
pub struct Iter<'a, I: Intern + ?Sized, S> {
    inner: IterWithHashes<'a, I, S>,
}

impl<'a, I: Intern + ?Sized, S: Symbol> Iter<'a, I, S> {
    /// The backend being iterated.
    pub closed spec fn spec_backend(&self) -> &'a StringBackend<I, S> {
        self.inner.spec_backend()
    }

    /// The index of the next entry to yield.
    pub closed spec fn spec_pos(&self) -> int {
        self.inner.spec_pos()
    }

    /// A fresh iterator over `backend`, starting at the first entry.
    pub fn new(backend: &'a StringBackend<I, S>) -> (r: Self)
        ensures
            r.spec_backend() == backend,
            r.spec_pos() == 0,
    {
        Iter { inner: IterWithHashes::new(backend) }
    }

    /// The exact number of entries left to yield.
    pub fn size_hint(&self) -> (r: (usize, Option<usize>))
        requires
            self.spec_pos() <= self.spec_backend()@.len(),
        ensures
            r.0 as int == self.spec_backend()@.len() - self.spec_pos(),
            r.1 == Some(r.0),
    {
        self.inner.size_hint()
    }

    /// Yields the next entry, as the pair of its symbol and its content, or
    /// `None` after the last entry.
    pub fn next(&mut self) -> (r: Option<(S, &'a I)>)
        requires
            old(self).spec_backend().wf(),
            old(self).spec_pos() <= old(self).spec_backend()@.len(),
        ensures
            final(self).spec_backend() == old(self).spec_backend(),
            match r {
                Some(entry) => {
                    &&& old(self).spec_pos() < old(self).spec_backend()@.len()
                    &&& final(self).spec_pos() == old(self).spec_pos() + 1
                    &&& entry.0.spec_index() == old(self).spec_pos()
                    &&& entry.1.elems() == old(self).spec_backend()@[old(self).spec_pos()]
                },
                None => {
                    &&& old(self).spec_pos() == old(self).spec_backend()@.len()
                    &&& final(self).spec_pos() == old(self).spec_pos()
                },
            },
    {
        match self.inner.next() {
            Some(entry) => Some((entry.0, entry.1)),
            None => None,
        }
    }
}

} // verus!
