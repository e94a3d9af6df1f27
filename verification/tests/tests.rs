use std::collections::hash_map::DefaultHasher;
use std::hash::{BuildHasherDefault, Hash, Hasher};

use string_hash_interner::{
    ContentHasher, DefaultHashBuilder, DefaultStringInterner, Interner, Symbol,
};
use string_hash_interner::symbol::DefaultSymbol;

fn expect_valid_symbol<S>(index: usize) -> S
where
    S: Symbol,
{
    S::try_from_usize(index).expect("encountered invalid symbol")
}

/// The symbol/content pairs yielded by iteration, contents copied out.
fn entries(interner: &DefaultStringInterner) -> Vec<(DefaultSymbol, String)> {
    let mut out = Vec::new();
    let mut iter = interner.iter();
    while let Some((sym, s)) = iter.next() {
        out.push((sym, s.to_string()));
    }
    out
}

/// The hash the standard library computes for `s` with a fresh
/// `DefaultHasher`, as an independent check of the interner's cached hashes.
fn std_hash_of_str(s: &str) -> u64 {
    let mut hasher = DefaultHasher::new();
    s.hash(&mut hasher);
    hasher.finish()
}

#[test]
fn new_works() {
    let interner = DefaultStringInterner::new();
    assert_eq!(interner.len(), 0);
    assert!(interner.is_empty());
    let other = DefaultStringInterner::new();
    assert_eq!(entries(&interner), entries(&other));
}

#[test]
fn is_empty_works() {
    let mut interner = DefaultStringInterner::new();
    assert!(interner.is_empty());
    interner.intern("aa");
    assert!(!interner.is_empty());
}

#[test]
fn clone_works() {
    let mut interner = DefaultStringInterner::new();
    assert_eq!(interner.intern("aa").to_usize(), 0);

    let mut cloned = interner.duplicate();
    assert_eq!(entries(&interner), entries(&cloned));
    // And the clone should have the same interned values
    assert_eq!(cloned.intern("aa").to_usize(), 0);
}

#[test]
fn intern_works() {
    let mut interner = DefaultStringInterner::new();
    // Insert 3 unique strings:
    let aa = interner.intern("aa").to_usize();
    let bb = interner.intern("bb").to_usize();
    let cc = interner.intern("cc").to_usize();
    // All symbols must be different from each other.
    assert_ne!(aa, bb);
    assert_ne!(bb, cc);
    assert_ne!(cc, aa);
    // The length of the string interner must be 3 at this point.
    assert_eq!(interner.len(), 3);
    // Insert the same 3 unique strings, yield the same symbols:
    assert_eq!(
        interner.resolve(<DefaultSymbol>::try_from_usize(aa).unwrap()),
        Some("aa")
    );
    assert_eq!(
        interner.intern("aa").to_usize(),
        aa,
        "'aa' did not produce the same symbol",
    );
    assert_eq!(
        interner.intern("bb").to_usize(),
        bb,
        "'bb' did not produce the same symbol",
    );
    assert_eq!(
        interner.intern("cc").to_usize(),
        cc,
        "'cc' did not produce the same symbol",
    );
    assert_eq!(interner.len(), 3);
}

#[test]
fn resolve_works() {
    let mut interner = DefaultStringInterner::new();
    // Insert 3 unique strings:
    let aa = interner.intern("aa");
    let bb = interner.intern("bb");
    let cc = interner.intern("cc");
    assert_eq!(interner.len(), 3);
    // Resolve valid symbols:
    assert_eq!(interner.resolve(aa), Some("aa"));
    assert_eq!(interner.resolve(bb), Some("bb"));
    assert_eq!(interner.resolve(cc), Some("cc"));
    assert_eq!(interner.len(), 3);
    // Resolve invalid symbols:
    let dd = expect_valid_symbol(1000);
    assert_ne!(aa, dd);
    assert_ne!(bb, dd);
    assert_ne!(cc, dd);
    assert_eq!(interner.resolve(dd), None);
}

#[test]
fn resolve_unchecked_works() {
    let mut interner = DefaultStringInterner::new();
    // Insert 3 unique strings:
    let aa = interner.intern("aa");
    let bb = interner.intern("bb");
    let cc = interner.intern("cc");
    assert_eq!(interner.len(), 3);
    // Resolve valid symbols:
    assert_eq!(interner.resolve_unchecked(aa), "aa");
    assert_eq!(interner.resolve_unchecked(bb), "bb");
    assert_eq!(interner.resolve_unchecked(cc), "cc");
    assert_eq!(interner.len(), 3);
    // Resolve invalid symbols:
    let dd: DefaultSymbol = expect_valid_symbol(1000);
    assert_ne!(aa, dd);
    assert_ne!(bb, dd);
    assert_ne!(cc, dd);
}

#[test]
fn get_works() {
    let mut interner = DefaultStringInterner::new();
    // Insert 3 unique strings:
    let aa = interner.intern("aa");
    let bb = interner.intern("bb");
    let cc = interner.intern("cc");
    assert_eq!(interner.len(), 3);
    // Get the symbols of the same 3 strings:
    assert_eq!(interner.get("aa"), Some(aa));
    assert_eq!(interner.get("bb"), Some(bb));
    assert_eq!(interner.get("cc"), Some(cc));
    assert_eq!(interner.len(), 3);
    // Get the symbols of some unknown strings:
    assert_eq!(interner.get("dd"), None);
    assert_eq!(interner.get("ee"), None);
    assert_eq!(interner.get("ff"), None);
    assert_eq!(interner.len(), 3);
}

#[test]
fn from_iter_works() {
    let strings = ["aa", "bb", "cc", "dd", "ee", "ff"];
    let expected = {
        let mut interner = DefaultStringInterner::new();
        for &string in &strings {
            interner.intern(string);
        }
        interner
    };
    let actual = DefaultStringInterner::from_iter(&strings);
    assert_eq!(actual.len(), strings.len());

    println!("{:?}", entries(&actual));
    println!("{:?}", entries(&expected));
    assert_eq!(entries(&actual), entries(&expected));
}

#[test]
fn extend_works() {
    let strings = ["aa", "bb", "cc", "dd", "ee", "ff"];
    let expected = {
        let mut interner = DefaultStringInterner::new();
        for &string in &strings {
            interner.intern(string);
        }
        interner
    };
    let actual = {
        let mut interner = DefaultStringInterner::new();
        interner.extend(&strings);
        interner
    };
    assert_eq!(actual.len(), strings.len());
    assert_eq!(entries(&actual), entries(&expected));
}

#[test]
fn iter_works() {
    let mut interner = DefaultStringInterner::new();
    let strings = ["aa", "bb", "cc", "dd", "ee", "ff"];

    let symbols = strings
        .iter()
        .map(|&s| (interner.intern(s), s.to_string()))
        .collect::<Vec<_>>();

    assert_eq!(symbols, entries(&interner));
}

#[test]
fn shrink_to_fit_works() {
    let mut interner = DefaultStringInterner::new();
    // Insert 3 unique strings:
    let aa = interner.intern("aa").to_usize();
    let bb = interner.intern("bb").to_usize();
    let cc = interner.intern("cc").to_usize();

    interner.shrink_to_fit();

    assert_eq!(
        interner.intern("aa").to_usize(),
        aa,
        "'aa' did not produce the same symbol",
    );
    assert_eq!(
        interner.intern("bb").to_usize(),
        bb,
        "'bb' did not produce the same symbol",
    );
    assert_eq!(
        interner.intern("cc").to_usize(),
        cc,
        "'cc' did not produce the same symbol",
    );
    assert_eq!(interner.len(), 3);
}

#[test]
fn correct_hashes() {
    let hash_builder = DefaultHashBuilder::default();
    let mut interner = DefaultStringInterner::with_hasher(hash_builder);

    for s in ["aa", "bb", "cc", "dd", "ee", "ff"].iter().copied() {
        let expected_hash = std_hash_of_str(s);
        let (sym, hash) = interner.intern_and_hash(s);
        assert_eq!(expected_hash, hash);
        assert_eq!(expected_hash, interner.get_hash(sym).unwrap());
        assert_eq!(expected_hash, interner.get_hash_unchecked(sym));
    }
}

#[test]
fn manual_hashmap() {
    // Force at least one rehashing
    let strings = (0..512).map(|n| format!("string {n}")).collect::<Vec<_>>();

    let mut interner = DefaultStringInterner::with_hasher(DefaultHashBuilder::default());

    let symbols = strings
        .iter()
        .map(|s| interner.intern(s.as_str()))
        .collect::<Vec<_>>();

    // The map hashes its keys with the same strategy the interner caches, so
    // it can be driven entirely by the cached hashes.
    let mut hashmap =
        hashbrown::HashMap::<Box<str>, usize, BuildHasherDefault<DefaultHasher>>::default();

    for (i, sym) in symbols.iter().enumerate() {
        let hash = interner.get_hash(*sym).unwrap();
        let s = interner.resolve(*sym).unwrap();

        hashmap
            .raw_entry_mut()
            .from_key_hashed_nocheck(hash, s)
            .insert(s.into(), i);
    }

    for (i, sym) in symbols.iter().enumerate() {
        let hash = interner.get_hash(*sym).unwrap();
        let s = interner.resolve(*sym).unwrap();

        let (k, v) = match hashmap.raw_entry_mut().from_key_hashed_nocheck(hash, s) {
            hashbrown::hash_map::RawEntryMut::Occupied(entry) => entry.into_key_value(),
            hashbrown::hash_map::RawEntryMut::Vacant(_) => panic!(),
        };

        assert_eq!(k.as_ref(), s);
        assert_eq!(k.as_ref(), strings[*v]);
        assert_eq!(*v, i);
    }
}

#[test]
fn iter_with_hashes() {
    let strings = ["aa", "bb", "cc", "dd", "ee", "ff"];

    let mut interner = DefaultStringInterner::with_hasher(DefaultHashBuilder::default());

    let expected = strings
        .iter()
        .map(|&s| (interner.intern(s), s.to_string(), std_hash_of_str(s)))
        .collect::<Vec<_>>();

    let mut actual = Vec::new();
    let mut iter = interner.iter_with_hashes();
    while let Some((sym, s, hash)) = iter.next() {
        actual.push((sym, s.to_string(), hash));
    }
    assert_eq!(actual, expected);
}

#[test]
fn byte_content_works() {
    let mut interner: Interner<[u8]> = Interner::new();
    let aa = interner.intern(&[1u8, 2, 3][..]);
    let bb = interner.intern(&[][..]);
    let cc = interner.intern(&[1u8, 2][..]);
    assert_ne!(aa, bb);
    assert_ne!(bb, cc);
    assert_eq!(interner.intern(&[1u8, 2, 3][..]), aa);
    assert_eq!(interner.resolve(aa), Some(&[1u8, 2, 3][..]));
    assert_eq!(interner.resolve(bb), Some(&[][..]));
    assert_eq!(interner.resolve(cc), Some(&[1u8, 2][..]));
    assert_eq!(interner.len(), 3);
}

#[test]
fn char_content_works() {
    let mut interner: Interner<[char]> = Interner::new();
    let ab: Vec<char> = "ab".chars().collect();
    let ba: Vec<char> = "ba".chars().collect();
    let a = interner.intern(ab.as_slice());
    let b = interner.intern(ba.as_slice());
    assert_ne!(a, b);
    assert_eq!(interner.intern(ab.as_slice()), a);
    assert_eq!(interner.resolve(a), Some(ab.as_slice()));
    assert_eq!(interner.resolve(b), Some(ba.as_slice()));
    assert_eq!(interner.len(), 2);
    let hash = interner.get_hash(a).unwrap();
    assert_eq!(hash, DefaultHashBuilder.hash_elems(ab.as_slice()));
}

#[test]
fn unicode_round_trip() {
    let mut interner = DefaultStringInterner::new();
    let values = ["", "éàç", "日本語テキスト", "z\u{10FFFF}"];
    let symbols = values.map(|s| interner.intern(s));
    for (s, sym) in values.iter().zip(symbols.iter()) {
        assert_eq!(interner.resolve(*sym), Some(*s));
    }
    assert_eq!(interner.len(), values.len());
}
