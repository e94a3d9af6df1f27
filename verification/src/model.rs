//! The abstract model of interning, and the laws the engine obeys.
//!
//! An interner is abstractly the sequence of distinct contents interned so
//! far, in first-seen order; a symbol is an index into that sequence. The
//! functions here say how one intern step acts on that sequence, and the
//! public lemmas state the laws — determinism, deduplication, round-trip,
//! idempotence — that the executable operations are specified against.

use vstd::prelude::*;

verus! {

/// No two entries of `v` are equal: the stored contents hold at most one copy
/// of any value.
pub open spec fn distinct_seq<E>(v: Seq<E>) -> bool {
    forall|i: int, j: int| 0 <= i < j < v.len() ==> v[i] != v[j]
}

/// The stored contents after interning `e` into `v`: unchanged when `e` is
/// already present, extended by `e` at the end otherwise.
pub open spec fn intern_one<E>(v: Seq<E>, e: E) -> Seq<E> {
    if v.contains(e) {
        v
    } else {
        v.push(e)
    }
}

/// The index of the symbol that interning `e` into `v` yields: the index
/// already holding `e` when present, the next fresh index otherwise.
pub open spec fn intern_index<E>(v: Seq<E>, e: E) -> int {
    if v.contains(e) {
        choose|i: int| 0 <= i < v.len() && v[i] == e
    } else {
        v.len() as int
    }
}

/// The stored contents after interning each element of `xs` into `v` in
/// order.
pub open spec fn intern_seq<E>(v: Seq<E>, xs: Seq<E>) -> Seq<E>
    decreases xs.len(),
{
    if xs.len() == 0 {
        v
    } else {
        intern_seq(intern_one(v, xs[0]), xs.drop_first())
    }
}

/// In a distinct sequence, a content determines its index: there is at most
/// one copy to find.
pub proof fn lemma_index_unique<E>(v: Seq<E>, i: int, j: int)
    requires
        distinct_seq(v),
        0 <= i < v.len(),
        0 <= j < v.len(),
        v[i] == v[j],
    ensures
        i == j,
{
}

/// The index assigned by an intern step holds the interned content.
pub proof fn lemma_intern_index_works<E>(v: Seq<E>, e: E)
    ensures
        0 <= intern_index(v, e) < intern_one(v, e).len(),
        intern_one(v, e)[intern_index(v, e)] == e,
{
    if v.contains(e) {
        let i = choose|i: int| 0 <= i < v.len() && v[i] == e;
        assert(v[i] == e);
    }
}

/// An intern step keeps the stored contents distinct.
pub proof fn lemma_intern_one_distinct<E>(v: Seq<E>, e: E)
    requires
        distinct_seq(v),
    ensures
        distinct_seq(intern_one(v, e)),
{
    if !v.contains(e) {
        let v1 = v.push(e);
        assert forall|i: int, j: int| 0 <= i < j < v1.len() implies v1[i] != v1[j] by {
            if j == v.len() as int {
                assert(v1[i] == v[i]);
                assert(!v.contains(e) ==> v[i] != e);
            }
        }
    }
}

/// Determinism and deduplication: interning `a` and then `b` yields the same
/// symbol exactly when the two contents are equal.
pub proof fn lemma_intern_deterministic<E>(v: Seq<E>, a: E, b: E)
    requires
        distinct_seq(v),
    ensures
        (intern_index(v, a) == intern_index(intern_one(v, a), b)) <==> (a == b),
{
    let ia = intern_index(v, a);
    let v1 = intern_one(v, a);
    let ib = intern_index(v1, b);
    lemma_intern_index_works(v, a);
    lemma_intern_one_distinct(v, a);
    if a == b {
        assert(v1.contains(b)) by {
            assert(v1[ia] == b);
        }
        let j = choose|i: int| 0 <= i < v1.len() && v1[i] == b;
        lemma_index_unique(v1, ia, j);
    } else {
        if v1.contains(b) {
            let j = choose|i: int| 0 <= i < v1.len() && v1[i] == b;
            assert(v1[j] == b);
            assert(v1[ia] == a);
        } else {
            assert(ia < v1.len() as int);
        }
    }
}

/// Idempotent re-intern: once a content is stored, interning it again changes
/// nothing and yields the same symbol, while a first intern grows the store
/// by exactly one entry.
pub proof fn lemma_reintern_idempotent<E>(v: Seq<E>, e: E)
    requires
        distinct_seq(v),
    ensures
        intern_one(intern_one(v, e), e) == intern_one(v, e),
        intern_index(intern_one(v, e), e) == intern_index(v, e),
        intern_one(v, e).len() == if v.contains(e) {
            v.len()
        } else {
            v.len() + 1
        },
{
    let v1 = intern_one(v, e);
    lemma_intern_index_works(v, e);
    lemma_intern_one_distinct(v, e);
    assert(v1.contains(e)) by {
        assert(v1[intern_index(v, e)] == e);
    }
    let j = choose|i: int| 0 <= i < v1.len() && v1[i] == e;
    assert(v1[j] == e);
    lemma_index_unique(v1, j, intern_index(v, e));
    if v.contains(e) {
        let i0 = choose|i: int| 0 <= i < v.len() && v[i] == e;
        assert(v[i0] == e);
    }
}

/// Stability: interning more values never moves or changes any entry already
/// stored, it can only append new entries.
pub proof fn lemma_intern_seq_prefix<E>(v: Seq<E>, xs: Seq<E>)
    ensures
        intern_seq(v, xs).len() >= v.len(),
        forall|i: int| 0 <= i < v.len() ==> intern_seq(v, xs)[i] == v[i],
    decreases xs.len(),
{
    if xs.len() != 0 {
        let v1 = intern_one(v, xs[0]);
        lemma_intern_seq_prefix(v1, xs.drop_first());
        assert(intern_seq(v, xs) == intern_seq(v1, xs.drop_first()));
        assert forall|i: int| 0 <= i < v.len() implies intern_seq(v, xs)[i] == v[i] by {
            assert(v1[i] == v[i]);
            assert(intern_seq(v1, xs.drop_first())[i] == v1[i]);
        }
    }
}

/// Round trip: the symbol an intern yields resolves to the interned content,
/// immediately and after any number of subsequent unrelated interns.
pub proof fn lemma_round_trip<E>(v: Seq<E>, e: E, xs: Seq<E>)
    requires
        distinct_seq(v),
    ensures
        ({
            let s = intern_index(v, e);
            let v1 = intern_one(v, e);
            let v2 = intern_seq(v1, xs);
            0 <= s < v1.len() && v1[s] == e && s < v2.len() && v2[s] == e
        }),
{
    lemma_intern_index_works(v, e);
    lemma_intern_seq_prefix(intern_one(v, e), xs);
}

/// Interning a whole sequence keeps the stored contents distinct.
pub proof fn lemma_intern_seq_distinct<E>(v: Seq<E>, xs: Seq<E>)
    requires
        distinct_seq(v),
    ensures
        distinct_seq(intern_seq(v, xs)),
    decreases xs.len(),
{
    if xs.len() != 0 {
        lemma_intern_one_distinct(v, xs[0]);
        lemma_intern_seq_distinct(intern_one(v, xs[0]), xs.drop_first());
    }
}

/// Interning a sequence and then one more value is one more intern step:
/// bulk interning is exactly repeated single interning.
pub proof fn lemma_intern_seq_snoc<E>(v: Seq<E>, xs: Seq<E>, x: E)
    ensures
        intern_seq(v, xs.push(x)) == intern_one(intern_seq(v, xs), x),
    decreases xs.len(),
{
    if xs.len() == 0 {
        assert(xs.push(x)[0] == x);
        assert(xs.push(x).drop_first() =~= Seq::<E>::empty());
        assert(intern_seq(v, xs.push(x)) == intern_seq(intern_one(v, x), xs.push(x).drop_first()));
        assert(intern_seq(intern_one(v, x), Seq::<E>::empty()) == intern_one(v, x));
        assert(intern_seq(v, xs) == v);
    } else {
        assert(xs.push(x)[0] == xs[0]);
        assert(xs.push(x).drop_first() =~= xs.drop_first().push(x));
        assert(intern_seq(v, xs.push(x)) == intern_seq(
            intern_one(v, xs[0]),
            xs.drop_first().push(x),
        ));
        lemma_intern_seq_snoc(intern_one(v, xs[0]), xs.drop_first(), x);
        assert(intern_seq(v, xs) == intern_seq(intern_one(v, xs[0]), xs.drop_first()));
    }
}

/// The set of indices below `n`, as `usize` values, has exactly `n` elements.
pub proof fn lemma_usize_below_card(n: int)
    requires
        0 <= n <= usize::MAX as int,
    ensures
        Set::new(|i: usize| (i as int) < n).finite(),
        Set::new(|i: usize| (i as int) < n).len() == n,
    decreases n,
{
    if n == 0 {
        assert(Set::new(|i: usize| (i as int) < 0) =~= Set::<usize>::empty());
    } else {
        lemma_usize_below_card(n - 1);
        let small = Set::new(|i: usize| (i as int) < n - 1);
        let big = Set::new(|i: usize| (i as int) < n);
        assert(!small.contains((n - 1) as usize));
        assert(big =~= small.insert((n - 1) as usize));
    }
}

} // verus!
