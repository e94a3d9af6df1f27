use string_hash_interner::symbol::{SymbolU16, SymbolU32, SymbolUsize};
use string_hash_interner::{
    ContentHasher, DefaultHashBuilder, DefaultStringInterner, StringInterner, Symbol,
};

#[test]
fn capacity_hint_is_immaterial() {
    // The same interning sequence yields the same symbols, contents and
    // length whether or not the interner was pre-sized.
    let values = ["aa", "bb", "aa", "cc", "bb", "dd"];
    let mut plain = DefaultStringInterner::new();
    let mut sized = DefaultStringInterner::with_capacity(100);
    for v in values {
        assert_eq!(plain.intern(v).to_usize(), sized.intern(v).to_usize());
    }
    assert_eq!(plain.len(), sized.len());
    for index in 0..plain.len() {
        let sym = SymbolU32::try_from_usize(index).unwrap();
        assert_eq!(plain.resolve(sym), sized.resolve(sym));
        assert_eq!(plain.get_hash(sym), sized.get_hash(sym));
    }
}

#[test]
fn distinct_contents_distinct_symbols() {
    let mut interner = DefaultStringInterner::new();
    let values = ["", "a", "b", "ab", "ba", "aab"];
    let symbols = values.map(|v| interner.intern(v));
    for i in 0..values.len() {
        for j in 0..values.len() {
            assert_eq!(symbols[i] == symbols[j], i == j);
            assert_eq!(symbols[i] == interner.intern(values[i]), true);
        }
    }
    assert_eq!(interner.len(), values.len());
}

#[test]
fn round_trip_survives_later_interns() {
    let mut interner = DefaultStringInterner::new();
    let first = interner.intern("first");
    assert_eq!(interner.resolve(first), Some("first"));
    for n in 0..100 {
        interner.intern(&format!("other {n}"));
    }
    assert_eq!(interner.resolve(first), Some("first"));
    assert_eq!(interner.get("first"), Some(first));
}

#[test]
fn insertion_order_iteration() {
    let mut interner = DefaultStringInterner::new();
    let values = ["cc", "aa", "bb", "aa", "cc"];
    for v in values {
        interner.intern(v);
    }
    let mut iter = interner.iter();
    let mut seen = Vec::new();
    while let Some((sym, s)) = iter.next() {
        seen.push((sym.to_usize(), s));
    }
    assert_eq!(seen, vec![(0, "cc"), (1, "aa"), (2, "bb")]);
}

#[test]
fn hashes_match_an_independent_computation() {
    let builder = DefaultHashBuilder::default();
    let mut interner = DefaultStringInterner::with_hasher(builder);
    for v in ["", "x", "hello world", "hello world"] {
        let sym = interner.intern(v);
        assert_eq!(interner.get_hash(sym), Some(builder.hash_elems(v.as_bytes())));
    }
}

#[test]
fn hashes_agree_across_interners() {
    // The default strategy is deterministic, so two independently constructed
    // interners cache the same hash for the same content.
    let mut one = DefaultStringInterner::new();
    let mut two = DefaultStringInterner::with_capacity(8);
    for v in ["aa", "bb", "cc"] {
        let (_, h1) = one.intern_and_hash(v);
        let (_, h2) = two.intern_and_hash(v);
        assert_eq!(h1, h2);
    }
}

#[test]
fn boundary_get_hash_out_of_range() {
    let mut interner = DefaultStringInterner::new();
    interner.intern("aa");
    let stranger = SymbolU32::try_from_usize(999).unwrap();
    assert_eq!(interner.get_hash(stranger), None);
    assert_eq!(interner.resolve(stranger), None);
}

#[test]
fn symbol_sentinels_are_reserved() {
    assert!(SymbolU16::try_from_usize(u16::MAX as usize - 1).is_some());
    assert!(SymbolU16::try_from_usize(u16::MAX as usize).is_none());
    assert!(SymbolU32::try_from_usize(u32::MAX as usize - 1).is_some());
    assert!(SymbolU32::try_from_usize(u32::MAX as usize).is_none());
    assert!(SymbolUsize::try_from_usize(usize::MAX - 1).is_some());
    assert!(SymbolUsize::try_from_usize(usize::MAX).is_none());
    let s = SymbolU16::try_from_usize(17).unwrap();
    assert_eq!(s.to_usize(), 17);
}

#[test]
fn narrow_symbols_work() {
    let mut interner: StringInterner<SymbolU16> = StringInterner::new();
    let aa = interner.intern("aa");
    let bb = interner.intern("bb");
    assert_eq!(aa.to_usize(), 0);
    assert_eq!(bb.to_usize(), 1);
    assert_eq!(interner.resolve(aa), Some("aa"));
    assert_eq!(interner.intern("aa"), aa);
}

#[test]
fn fnv_hasher_works() {
    // Reference vectors for 64-bit FNV-1a.
    let fnv = string_hash_interner::FnvHashBuilder::default();
    assert_eq!(fnv.hash_elems("".as_bytes()), 0xcbf29ce484222325);
    assert_eq!(fnv.hash_elems("a".as_bytes()), 0xaf63dc4c8601ec8c);
    assert_eq!(fnv.hash_elems("hello".as_bytes()), 0xa430d84680aabd0b);

    let mut interner: StringInterner<SymbolU32, string_hash_interner::FnvHashBuilder> =
        StringInterner::with_hasher(fnv);
    let (aa, hash) = interner.intern_and_hash("aa");
    assert_eq!(hash, 0x89c4307b54596b7);
    assert_eq!(interner.get_hash(aa), Some(0x89c4307b54596b7));
    assert_eq!(interner.resolve(aa), Some("aa"));
    assert_eq!(interner.intern("aa"), aa);
}
