//! The public interning facade.
//!
//! An [`Interner`] composes the deduplication index, a hash strategy and the
//! arena backend. Abstractly it is the sequence `self@` of the distinct
//! contents interned so far, in first-seen order; every operation is
//! specified against that sequence and the model functions of
//! [`crate::model`].

use crate::backend::{Iter, IterWithHashes, StringBackend};
use crate::dedup::{
    dedup_clone, dedup_find, dedup_insert, dedup_len, dedup_new, dedup_with_capacity,
    entry_matches, index_entries, DedupIndex,
};
use crate::hasher::{ContentHasher, DefaultHashBuilder};
use crate::intern::Intern;
use crate::model::{
    distinct_seq, intern_index, intern_one, intern_seq, lemma_index_unique,
    lemma_intern_one_distinct, lemma_usize_below_card,
};
use crate::model::lemma_intern_seq_snoc;
use crate::symbol::{DefaultSymbol, Symbol};
use vstd::prelude::*;

verus! {

/// The contents of a slice of values, value by value.
pub open spec fn elems_seq<I: Intern + ?Sized>(values: &[&I]) -> Seq<Seq<I::Primitive>> {
    Seq::new(values@.len(), |i: int| values@[i].elems())
}

/// Whether every step of interning the contents `xs`, in order, into an
/// interner holding `v` stays within the symbol range of `S`.
pub open spec fn can_intern_all<E, S: Symbol>(v: Seq<E>, xs: Seq<E>) -> bool
    decreases xs.len(),
{
    xs.len() == 0 || {
        &&& (v.contains(xs[0]) || S::spec_valid(v.len() as int))
        &&& can_intern_all::<E, S>(intern_one(v, xs[0]), xs.drop_first())
    }
}

/// Data structure to intern and resolve string-like values.
///
/// Interning maps a content to a symbol, storing the content at most once;
/// resolving maps a symbol back to its content. `self@` is the sequence of
/// stored contents in first-seen order, and the symbol for a content is its
/// index in that sequence.
pub struct Interner<I: Intern + ?Sized, S: Symbol = DefaultSymbol, H = DefaultHashBuilder> {
    dedup: DedupIndex,
    hasher: H,
    backend: StringBackend<I, S>,
}

impl<I: Intern + ?Sized, S: Symbol, H> View for Interner<I, S, H> {
    type V = Seq<Seq<I::Primitive>>;

    /// The distinct contents interned so far, in first-seen order.
    closed spec fn view(&self) -> Seq<Seq<I::Primitive>> {
        self.backend@
    }
}

impl<I: Intern + ?Sized, S: Symbol, H: ContentHasher<I::Primitive>> Interner<I, S, H> {
    /// The hash strategy this interner was constructed with.
    pub closed spec fn spec_hasher(&self) -> H {
        self.hasher
    }

    /// Internal consistency: the arena is well formed and holds no duplicate
    /// content; the index holds exactly the minted entry indices, each stored
    /// under the arena's cached hash for it; and every cached hash is the
    /// strategy's hash of the stored content.
    pub closed spec fn wf(&self) -> bool {
        &&& self.backend.wf()
        &&& distinct_seq(self.backend@)
        &&& index_entries(self.dedup).dom() == Set::new(
            |i: usize| (i as int) < self.backend@.len(),
        )
        &&& forall|i: int|
            0 <= i < self.backend@.len() ==> self.backend.hashes()[i] == self.hasher.spec_hash(
                #[trigger] self.backend@[i],
            )
        &&& forall|i: usize|
            #[trigger] index_entries(self.dedup).dom().contains(i) ==> index_entries(self.dedup)[i]
                == self.backend.hashes()[i as int]
    }

    /// The stored contents hold at most one copy of any value.
    pub proof fn lemma_distinct(&self)
        requires
            self.wf(),
        ensures
            distinct_seq(self@),
    {
    }

    /// Whether `intern` accepts content `e`: either `e` is already stored, or
    /// the next fresh index is still representable as a symbol.
    pub open spec fn can_intern(&self, e: Seq<I::Primitive>) -> bool {
        self@.contains(e) || S::spec_valid(self@.len() as int)
    }

    /// Capacity neutrality: every operation of this crate is specified over
    /// `self@` and `self.spec_hasher()` alone, so two interners that agree on
    /// both — for instance one built empty and one built with a capacity
    /// hint, fed the same values — agree on every observable: length, stored
    /// contents, symbol assignment, and cached hashes.
    pub proof fn lemma_capacity_neutral(&self, other: &Interner<I, S, H>)
        requires
            self.wf(),
            other.wf(),
            self@ == other@,
            self.spec_hasher() == other.spec_hasher(),
        ensures
            self@.len() == other@.len(),
            forall|e: Seq<I::Primitive>|
                #[trigger] intern_index(self@, e) == intern_index(other@, e),
            forall|e: Seq<I::Primitive>| #[trigger] intern_one(self@, e) == intern_one(other@, e),
            forall|e: Seq<I::Primitive>| #[trigger] self.can_intern(e) == other.can_intern(e),
            forall|i: int|
                0 <= i < self@.len() ==> self.spec_hasher().spec_hash(#[trigger] self@[i])
                    == other.spec_hasher().spec_hash(other@[i]),
    {
    }

    /// The number of stored contents fits in `usize`.
    proof fn lemma_len_fits(&self)
        requires
            self.wf(),
        ensures
            self@.len() <= usize::MAX as int,
    {
        self.backend.lemma_indices_valid();
        if self@.len() > 0 {
            assert(S::spec_valid(self@.len() - 1));
            S::lemma_valid_fits(self@.len() - 1);
        }
    }

    /// When a probe under the content's own hash misses, the content is not
    /// stored at all: any stored copy would sit under exactly that hash.
    proof fn lemma_miss_means_absent(&self, value: &I, hash: u64)
        requires
            self.wf(),
            hash == self.spec_hasher().spec_hash(value.elems()),
            forall|i: usize|
                index_entries(self.dedup).dom().contains(i) && index_entries(self.dedup)[i] == hash
                    ==> !entry_matches(&self.backend, i, value),
        ensures
            !self@.contains(value.elems()),
    {
        self.backend.lemma_indices_valid();
        self.backend.lemma_hashes_len();
        if self@.contains(value.elems()) {
            let k = choose|k: int| 0 <= k < self@.len() && self@[k] == value.elems();
            assert(S::spec_valid(k));
            S::lemma_valid_fits(k);
            let ku = k as usize;
            assert(index_entries(self.dedup).dom().contains(ku));
            assert(index_entries(self.dedup)[ku] == self.backend.hashes()[k]);
            assert(self.backend.hashes()[k] == self.spec_hasher().spec_hash(self@[k]));
            assert(entry_matches(&self.backend, ku, value));
            assert(false);
        }
    }

    /// An interner is well formed once its parts are empty.
    proof fn lemma_empty_wf(&self)
        requires
            self.backend.wf(),
            self.backend@ == Seq::<Seq<I::Primitive>>::empty(),
            index_entries(self.dedup) == Map::<usize, u64>::empty(),
        ensures
            self.wf(),
            self@ == Seq::<Seq<I::Primitive>>::empty(),
    {
        assert(index_entries(self.dedup).dom() =~= Set::new(
            |i: usize| (i as int) < self.backend@.len(),
        ));
    }

    /// Creates a new empty interner with the given hash strategy.
    pub fn with_hasher(hash_builder: H) -> (r: Self)
        ensures
            r.wf(),
            r@ == Seq::<Seq<I::Primitive>>::empty(),
            r.spec_hasher() == hash_builder,
    {
        let r = Interner {
            dedup: dedup_new(),
            hasher: hash_builder,
            backend: StringBackend::default(),
        };
        proof {
            r.lemma_empty_wf();
        }
        r
    }

    /// Creates a new empty interner with the given initial capacity hint and
    /// the given hash strategy. The hint sizes the initial allocations only;
    /// it never constrains what can be interned.
    pub fn with_capacity_and_hasher(cap: usize, hash_builder: H) -> (r: Self)
        ensures
            r.wf(),
            r@ == Seq::<Seq<I::Primitive>>::empty(),
            r.spec_hasher() == hash_builder,
    {
        let r = Interner {
            dedup: dedup_with_capacity(cap),
            hasher: hash_builder,
            backend: StringBackend::with_capacity(cap),
        };
        proof {
            r.lemma_empty_wf();
        }
        r
    }

    /// Returns the number of contents interned so far.
    pub fn len(&self) -> (r: usize)
        requires
            self.wf(),
        ensures
            r == self@.len(),
    {
        let r = dedup_len(&self.dedup);
        proof {
            self.lemma_len_fits();
            lemma_usize_below_card(self@.len() as int);
        }
        r
    }

    /// Returns `true` if the interner holds no content.
    pub fn is_empty(&self) -> (r: bool)
        requires
            self.wf(),
        ensures
            r == (self@.len() == 0),
    {
        self.len() == 0
    }

    /// Returns the symbol for `value`'s content if that content has been
    /// interned, without interning it.
    pub fn get(&self, value: &I) -> (r: Option<S>)
        requires
            self.wf(),
        ensures
            match r {
                Some(s) => {
                    &&& 0 <= s.spec_index() < self@.len()
                    &&& self@[s.spec_index()] == value.elems()
                    &&& s.spec_index() == intern_index(self@, value.elems())
                },
                None => !self@.contains(value.elems()),
            },
    {
        let hash: u64 = self.hasher.hash_elems(value.as_elems());
        let found = dedup_find(&self.dedup, &self.backend, hash, value);
        match found {
            Some(i) => {
                proof {
                    self.backend.lemma_indices_valid();
                    assert(S::spec_valid(i as int));
                }
                let s = S::try_from_usize(i).unwrap();
                proof {
                    let e = value.elems();
                    assert(self@.contains(e)) by {
                        assert(self@[i as int] == e);
                    }
                    let j = choose|j: int| 0 <= j < self@.len() && self@[j] == e;
                    lemma_index_unique(self@, i as int, j);
                }
                Some(s)
            }
            None => {
                proof {
                    self.lemma_miss_means_absent(value, hash);
                }
                None
            }
        }
    }

    /// Interns `value`'s content and returns its symbol together with the
    /// content's hash, computed exactly once.
    ///
    /// When the content is already stored, nothing changes and the existing
    /// symbol is returned; otherwise the content is appended and the next
    /// fresh symbol is minted for it.
    pub fn intern_and_hash(&mut self, value: &I) -> (r: (S, u64))
        requires
            old(self).wf(),
            old(self).can_intern(value.elems()),
        ensures
            final(self).wf(),
            final(self).spec_hasher() == old(self).spec_hasher(),
            final(self)@ == intern_one(old(self)@, value.elems()),
            r.0.spec_index() == intern_index(old(self)@, value.elems()),
            0 <= r.0.spec_index() < final(self)@.len(),
            final(self)@[r.0.spec_index()] == value.elems(),
            !old(self)@.contains(value.elems()) ==> r.0.spec_index() == old(self)@.len(),
            r.1 == old(self).spec_hasher().spec_hash(value.elems()),
    {
        let hash: u64 = self.hasher.hash_elems(value.as_elems());
        let found = dedup_find(&self.dedup, &self.backend, hash, value);
        match found {
            Some(i) => {
                proof {
                    self.backend.lemma_indices_valid();
                    assert(S::spec_valid(i as int));
                }
                let s = S::try_from_usize(i).unwrap();
                proof {
                    let e = value.elems();
                    assert(self@.contains(e)) by {
                        assert(self@[i as int] == e);
                    }
                    let j = choose|j: int| 0 <= j < self@.len() && self@[j] == e;
                    lemma_index_unique(self@, i as int, j);
                }
                (s, hash)
            }
            None => {
                proof {
                    self.lemma_miss_means_absent(value, hash);
                    self.backend.lemma_hashes_len();
                }
                let symbol: S = self.backend.intern(value, hash);
                let index: usize = symbol.to_usize();
                proof {
                    let e = value.elems();
                    assert(!index_entries(self.dedup).dom().contains(index)) by {
                        if index_entries(self.dedup).dom().contains(index) {
                            assert((index as int) < old(self)@.len());
                        }
                    }
                    assert forall|i: usize|
                        index_entries(self.dedup).dom().contains(i) implies !entry_matches(
                        &self.backend,
                        i,
                        value,
                    ) by {
                        assert((i as int) < old(self)@.len());
                        assert(self.backend@[i as int] == old(self)@[i as int]);
                    }
                }
                dedup_insert(&mut self.dedup, &self.backend, hash, value, index);
                proof {
                    let e = value.elems();
                    let pre = *old(self);
                    let post = *self;
                    let n = pre@.len() as int;
                    pre.backend.lemma_hashes_len();
                    post.backend.lemma_hashes_len();
                    assert(post@ == intern_one(pre@, e));
                    lemma_intern_one_distinct(pre@, e);
                    assert(index_entries(post.dedup).dom() =~= Set::new(
                        |i: usize| (i as int) < post.backend@.len(),
                    )) by {
                        assert(index_entries(post.dedup).dom() == index_entries(
                            pre.dedup,
                        ).dom().insert(index));
                        assert forall|u: usize|
                            index_entries(post.dedup).dom().contains(u) == ((u as int) < n
                                + 1) by {
                            if index_entries(pre.dedup).dom().contains(u) {
                                assert((u as int) < n);
                            }
                            if (u as int) < n + 1 {
                                if (u as int) < n {
                                    assert(index_entries(pre.dedup).dom().contains(u));
                                } else {
                                    assert(u == index);
                                }
                            }
                        }
                    }
                    assert forall|i: int|
                        0 <= i < post.backend@.len() implies post.backend.hashes()[i]
                        == post.hasher.spec_hash(#[trigger] post.backend@[i]) by {
                        if i < n {
                            assert(pre.backend.hashes()[i] == pre.hasher.spec_hash(
                                pre.backend@[i],
                            ));
                            assert(post.backend.hashes()[i] == pre.backend.hashes()[i]);
                            assert(post.backend@[i] == pre.backend@[i]);
                        } else {
                            assert(post.backend.hashes()[i] == hash);
                            assert(post.backend@[i] == e);
                        }
                    }
                    assert forall|i: usize|
                        #[trigger] index_entries(post.dedup).dom().contains(i) implies index_entries(
                        post.dedup,
                    )[i] == post.backend.hashes()[i as int] by {
                        if i == index {
                            assert(index_entries(post.dedup)[index] == hash);
                            assert(post.backend.hashes()[n] == hash);
                        } else {
                            assert(index_entries(pre.dedup).dom().contains(i));
                            assert((i as int) < n);
                            assert(index_entries(pre.dedup)[i] == pre.backend.hashes()[i as int]);
                            assert(post.backend.hashes()[i as int]
                                == pre.backend.hashes()[i as int]);
                        }
                    }
                    assert(symbol.spec_index() == intern_index(pre@, e));
                }
                (symbol, hash)
            }
        }
    }

    /// Interns `value`'s content and returns its symbol.
    pub fn intern(&mut self, value: &I) -> (r: S)
        requires
            old(self).wf(),
            old(self).can_intern(value.elems()),
        ensures
            final(self).wf(),
            final(self).spec_hasher() == old(self).spec_hasher(),
            final(self)@ == intern_one(old(self)@, value.elems()),
            r.spec_index() == intern_index(old(self)@, value.elems()),
            0 <= r.spec_index() < final(self)@.len(),
            final(self)@[r.spec_index()] == value.elems(),
            !old(self)@.contains(value.elems()) ==> r.spec_index() == old(self)@.len(),
    {
        let (symbol, _hash) = self.intern_and_hash(value);
        symbol
    }

    /// Returns the content interned under `symbol`, or `None` for a symbol
    /// this interner never minted.
    pub fn resolve(&self, symbol: S) -> (r: Option<&I>)
        requires
            self.wf(),
        ensures
            match r {
                Some(v) => 0 <= symbol.spec_index() < self@.len() && v.elems()
                    == self@[symbol.spec_index()],
                None => symbol.spec_index() >= self@.len(),
            },
    {
        self.backend.resolve(symbol)
    }

    /// Returns the content interned under `symbol`, without the bounds check;
    /// the caller must know the symbol was minted by this interner.
    pub fn resolve_unchecked(&self, symbol: S) -> (r: &I)
        requires
            self.wf(),
            0 <= symbol.spec_index() < self@.len(),
        ensures
            r.elems() == self@[symbol.spec_index()],
    {
        self.backend.resolve_unchecked(symbol)
    }

    /// Returns the hash cached for `symbol` when its content was interned —
    /// the strategy's hash of that content, never recomputed — or `None` for
    /// a symbol this interner never minted.
    pub fn get_hash(&self, symbol: S) -> (r: Option<u64>)
        requires
            self.wf(),
        ensures
            match r {
                Some(h) => 0 <= symbol.spec_index() < self@.len() && h
                    == self.spec_hasher().spec_hash(self@[symbol.spec_index()]),
                None => symbol.spec_index() >= self@.len(),
            },
    {
        proof {
            self.backend.lemma_hashes_len();
        }
        self.backend.get_hash(symbol)
    }

    /// Returns the hash cached for `symbol`, without the bounds check; the
    /// caller must know the symbol was minted by this interner.
    pub fn get_hash_unchecked(&self, symbol: S) -> (r: u64)
        requires
            self.wf(),
            0 <= symbol.spec_index() < self@.len(),
        ensures
            r == self.spec_hasher().spec_hash(self@[symbol.spec_index()]),
    {
        proof {
            self.backend.lemma_hashes_len();
        }
        self.backend.get_hash_unchecked(symbol)
    }

    /// Releases over-allocated capacity without altering any symbol, content
    /// or hash.
    pub fn shrink_to_fit(&mut self)
        requires
            old(self).wf(),
        ensures
            final(self).wf(),
            final(self)@ == old(self)@,
            final(self).spec_hasher() == old(self).spec_hasher(),
    {
        self.backend.shrink_to_fit();
        proof {
            assert(index_entries(self.dedup).dom() == Set::new(
                |i: usize| (i as int) < self.backend@.len(),
            )) by {
                assert(Set::new(|i: usize| (i as int) < old(self).backend@.len()) =~= Set::new(
                    |i: usize| (i as int) < self.backend@.len(),
                ));
            }
        }
    }

    /// Interns each value of `values` in order, ignoring the symbols.
    pub fn extend(&mut self, values: &[&I])
        requires
            old(self).wf(),
            can_intern_all::<Seq<I::Primitive>, S>(old(self)@, elems_seq(values)),
        ensures
            final(self).wf(),
            final(self).spec_hasher() == old(self).spec_hasher(),
            final(self)@ == intern_seq(old(self)@, elems_seq(values)),
    {
        let n: usize = values.len();
        proof {
            assert(elems_seq(values).skip(0) =~= elems_seq(values));
            assert(elems_seq(values).take(0) =~= Seq::<Seq<I::Primitive>>::empty());
            assert(intern_seq(old(self)@, elems_seq(values).take(0)) == old(self)@);
        }
        let mut k: usize = 0;
        while k < n
            invariant
                self.wf(),
                n == values@.len(),
                k <= n,
                self.spec_hasher() == old(self).spec_hasher(),
                self@ == intern_seq(old(self)@, elems_seq(values).take(k as int)),
                can_intern_all::<Seq<I::Primitive>, S>(self@, elems_seq(values).skip(k as int)),
            decreases n - k,
        {
            let value: &I = values[k];
            proof {
                let es = elems_seq(values);
                let rest = es.skip(k as int);
                assert(rest.len() > 0);
                assert(rest[0] == es[k as int]);
                assert(es[k as int] == value.elems());
                assert(self@.contains(value.elems()) || S::spec_valid(self@.len() as int));
            }
            self.intern_and_hash(value);
            proof {
                let es = elems_seq(values);
                assert(es.take(k as int).push(es[k as int]) =~= es.take(k + 1int));
                lemma_intern_seq_snoc(old(self)@, es.take(k as int), es[k as int]);
                assert(self@ == intern_seq(old(self)@, es.take(k + 1int)));
                assert(es.skip(k as int).drop_first() =~= es.skip(k + 1int));
                assert(can_intern_all::<Seq<I::Primitive>, S>(self@, es.skip(k + 1int)));
            }
            k += 1;
        }
        proof {
            assert(elems_seq(values).take(n as int) =~= elems_seq(values));
        }
    }
}

impl<I: Intern + ?Sized, S: Symbol, H: ContentHasher<I::Primitive> + Default> Interner<I, S, H> {
    /// Creates a new empty interner.
    pub fn new() -> (r: Self)
        ensures
            r.wf(),
            r@ == Seq::<Seq<I::Primitive>>::empty(),
    {
        let r = Interner {
            dedup: dedup_new(),
            hasher: H::default(),
            backend: StringBackend::default(),
        };
        proof {
            r.lemma_empty_wf();
        }
        r
    }

    /// Creates a new empty interner with the given initial capacity hint. The
    /// hint sizes the initial allocations only; it never constrains what can
    /// be interned, and an interner built with it behaves exactly like one
    /// built without.
    pub fn with_capacity(cap: usize) -> (r: Self)
        ensures
            r.wf(),
            r@ == Seq::<Seq<I::Primitive>>::empty(),
    {
        let r = Interner {
            dedup: dedup_with_capacity(cap),
            hasher: H::default(),
            backend: StringBackend::with_capacity(cap),
        };
        proof {
            r.lemma_empty_wf();
        }
        r
    }

    /// Builds an interner from a sequence of values: pre-sizes by the
    /// sequence's length, then interns each value in order — the same result
    /// as repeated single `intern` calls on an empty interner.
    pub fn from_iter(values: &[&I]) -> (r: Self)
        requires
            can_intern_all::<Seq<I::Primitive>, S>(
                Seq::<Seq<I::Primitive>>::empty(),
                elems_seq(values),
            ),
        ensures
            r.wf(),
            r@ == intern_seq(Seq::<Seq<I::Primitive>>::empty(), elems_seq(values)),
    {
        let mut interner = Self::with_capacity(values.len());
        interner.extend(values);
        interner
    }
}

impl<I: Intern + ?Sized, S: Symbol, H: ContentHasher<I::Primitive> + Default> Default for Interner<
    I,
    S,
    H,
> {
    /// An empty interner with the default hash strategy.
    fn default() -> (r: Self)
        ensures
            r.wf(),
            r@ == Seq::<Seq<I::Primitive>>::empty(),
    {
        Interner::new()
    }
}

impl<I: Intern + ?Sized, S: Symbol, H: ContentHasher<I::Primitive> + Copy> Interner<I, S, H> {
    /// Copies this interner; the copy holds the same contents under the same
    /// symbols, with the same hash strategy.
    pub fn duplicate(&self) -> (r: Self)
        requires
            self.wf(),
        ensures
            r.wf(),
            r@ == self@,
            r.spec_hasher() == self.spec_hasher(),
    {
        let r = Interner {
            dedup: dedup_clone(&self.dedup),
            hasher: self.hasher,
            backend: self.backend.duplicate(),
        };
        proof {
            assert(r.backend.hashes() == self.backend.hashes());
            assert(index_entries(r.dedup).dom() == Set::new(
                |i: usize| (i as int) < r.backend@.len(),
            )) by {
                assert(Set::new(|i: usize| (i as int) < self.backend@.len()) =~= Set::new(
                    |i: usize| (i as int) < r.backend@.len(),
                ));
            }
        }
        r
    }
}

impl<I: Intern + ?Sized, S: Symbol, H: ContentHasher<I::Primitive>> Interner<I, S, H> {
    /// Iterates over the symbols and contents in insertion order, which is
    /// ascending symbol order.
    pub fn iter(&self) -> (r: Iter<'_, I, S>)
        requires
            self.wf(),
        ensures
            r.spec_pos() == 0,
            r.spec_backend().wf(),
            r.spec_backend()@ == self@,
    {
        self.backend.iter()
    }

    /// Iterates over the symbols, contents and cached hashes in insertion
    /// order, which is ascending symbol order.
    pub fn iter_with_hashes(&self) -> (r: IterWithHashes<'_, I, S>)
        requires
            self.wf(),
        ensures
            r.spec_pos() == 0,
            r.spec_backend().wf(),
            r.spec_backend()@ == self@,
            forall|i: int|
                0 <= i < self@.len() ==> r.spec_backend().hashes()[i]
                    == self.spec_hasher().spec_hash(#[trigger] self@[i]),
    {
        self.backend.iter_with_hashes()
    }
}

} // verus!
