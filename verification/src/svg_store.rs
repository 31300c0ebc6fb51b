//! An in-memory, content-addressed store of SVG documents.
//!
//! Each document is filed under a 64-bit `DefaultHasher` digest of its
//! bytes, and handed back to callers as a path key of the form
//! `latex-svg/<16 lower-case hex digits>.svg`, which a renderer can later
//! use to load the bytes again.

use std::collections::HashMap;
use std::collections::hash_map::DefaultHasher;
use std::hash::Hasher;
use vstd::prelude::*;
use vstd::std_specs::hash::DefaultHasherAdditionalSpecFns;
use vstd::string::*;
use crate::text::{
    digit_value, hex_fixed, hex_value, is_hex_digit, lemma_hex_fixed, lemma_hex_value,
    lemma_pow16_16, lemma_pow16_mono, pow16, push_hex_fixed,
};

verus! {

broadcast use vstd::std_specs::hash::group_hash_axioms;

/// The directory part of every key: `latex-svg/`.
pub open spec fn key_prefix() -> Seq<char> {
    seq!['l', 'a', 't', 'e', 'x', '-', 's', 'v', 'g', '/']
}

/// The extension of every key: `.svg`.
pub open spec fn key_suffix() -> Seq<char> {
    seq!['.', 's', 'v', 'g']
}

/// The path key for digest `h`: `latex-svg/`, the sixteen lower-case hex
/// digits of `h`, `.svg`.
pub open spec fn svg_key(h: u64) -> Seq<char> {
    key_prefix() + hex_fixed(h as nat, 16) + key_suffix()
}

/// The digest a path names, if it has the shape of a key.
pub open spec fn key_hash(path: Seq<char>) -> Option<u64> {
    if path.len() == 30 && path.subrange(0, 10) == key_prefix() && path.subrange(26, 30)
        == key_suffix() && (forall|i: int| 10 <= i < 26 ==> is_hex_digit(#[trigger] path[i])) {
        Some(hex_value(path.subrange(10, 26)) as u64)
    } else {
        None
    }
}

/// The digest under which `bytes` are filed: the `DefaultHasher` digest of
/// two writes, the length of the bytes as eight little-endian bytes and then
/// the bytes. On a 64-bit little-endian machine these are the writes that
/// hashing a `Vec<u8>` makes (its length prefix, then its contents).
pub open spec fn content_hash(bytes: Seq<u8>) -> u64 {
    <DefaultHasher as DefaultHasherAdditionalSpecFns>::spec_finish(
        seq![vstd::bytes::spec_u64_to_le_bytes(bytes.len() as u64), bytes],
    )
}

/// The store's contents after `bytes` are inserted into `entries`: a
/// document already filed under their digest stays, otherwise the bytes are
/// filed there.
pub open spec fn stored_after_insert(entries: Map<u64, Seq<u8>>, bytes: Seq<u8>) -> Map<u64, Seq<u8>> {
    if entries.contains_key(content_hash(bytes)) {
        entries
    } else {
        entries.insert(content_hash(bytes), bytes)
    }
}

/// The document that `path` names in `entries`, if any.
pub open spec fn lookup(entries: Map<u64, Seq<u8>>, path: Seq<char>) -> Option<Seq<u8>> {
    match key_hash(path) {
        Some(h) => if entries.contains_key(h) { Some(entries[h]) } else { None },
        None => None,
    }
}

/// Every digest's key names that digest again.
pub proof fn lemma_key_names_its_hash(h: u64)
    ensures
        key_hash(svg_key(h)) == Some(h),
{
    let k = svg_key(h);
    lemma_hex_fixed(h as nat, 16);
    lemma_pow16_16();
    assert(k.subrange(0, 10) =~= key_prefix());
    assert(k.subrange(26, 30) =~= key_suffix());
    assert(k.subrange(10, 26) =~= hex_fixed(h as nat, 16));
    assert forall|i: int| 10 <= i < 26 implies is_hex_digit(#[trigger] k[i]) by {
        assert(k[i] == hex_fixed(h as nat, 16)[i - 10]);
    }
}

/// A path that names a digest is that digest's key.
pub proof fn lemma_key_hash_exact(path: Seq<char>)
    requires
        key_hash(path) is Some,
    ensures
        path == svg_key(key_hash(path)->0),
{
    let digits = path.subrange(10, 26);
    assert forall|i: int| 0 <= i < digits.len() implies is_hex_digit(#[trigger] digits[i]) by {
        assert(digits[i] == path[i + 10]);
    }
    lemma_hex_value(digits);
    lemma_pow16_16();
    assert(path =~= path.subrange(0, 10) + digits + path.subrange(26, 30));
}

/// The key string for digest `h`.
fn key_string(h: u64) -> (key: String)
    ensures
        key@ == svg_key(h),
{
    let mut key = String::from_str("latex-svg/");
    proof {
        reveal_strlit("latex-svg/");
    }
    push_hex_fixed(&mut key, h, 16);
    key.append(".svg");
    proof {
        reveal_strlit(".svg");
    }
    assert(key@ =~= svg_key(h));
    key
}

/// The digest named by `path`, if `path` has the shape of a key.
pub fn parse_key(path: &str) -> (r: Option<u64>)
    ensures
        r == key_hash(path@),
{
    let n = path.unicode_len();
    if n != 30 {
        return None;
    }
    let prefix = "latex-svg/";
    proof {
        reveal_strlit("latex-svg/");
    }
    let mut i: usize = 0;
    while i < 10
        invariant
            path@.len() == 30,
            prefix@ == key_prefix(),
            i <= 10,
            forall|j: int| 0 <= j < i ==> path@[j] == key_prefix()[j],
        decreases 10 - i,
    {
        if path.get_char(i) != prefix.get_char(i) {
            assert(path@.subrange(0, 10)[i as int] != key_prefix()[i as int]);
            return None;
        }
        i = i + 1;
    }
    assert(path@.subrange(0, 10) =~= key_prefix());
    let suffix = ".svg";
    proof {
        reveal_strlit(".svg");
    }
    let mut k: usize = 0;
    while k < 4
        invariant
            path@.len() == 30,
            suffix@ == key_suffix(),
            k <= 4,
            forall|j: int| 0 <= j < k ==> path@[26 + j] == key_suffix()[j],
        decreases 4 - k,
    {
        if path.get_char(26 + k) != suffix.get_char(k) {
            assert(path@.subrange(26, 30)[k as int] != key_suffix()[k as int]);
            return None;
        }
        k = k + 1;
    }
    assert(path@.subrange(26, 30) =~= key_suffix());
    let mut value: u64 = 0;
    let mut i: usize = 10;
    while i < 26
        invariant
            path@.len() == 30,
            10 <= i <= 26,
            forall|j: int| 10 <= j < i ==> is_hex_digit(#[trigger] path@[j]),
            value as nat == hex_value(path@.subrange(10, i as int)),
            (value as nat) < pow16((i - 10) as nat),
        decreases 26 - i,
    {
        let c = path.get_char(i);
        let code = c as u32;
        let digit: u64 = if 48 <= code && code <= 57 {
            (code - 48) as u64
        } else if 97 <= code && code <= 102 {
            (code - 87) as u64
        } else {
            assert(!is_hex_digit(path@[i as int]));
            return None;
        };
        assert(digit as nat == digit_value(c));
        proof {
            lemma_pow16_mono((i - 10) as nat, 15);
            lemma_pow16_16();
            assert(pow16(16) == 16 * pow16(15));
            let s = path@.subrange(10, i as int + 1);
            assert(s.drop_last() =~= path@.subrange(10, i as int));
            assert(s.last() == c);
        }
        value = value * 16 + digit;
        i = i + 1;
    }
    proof {
        lemma_pow16_16();
    }
    Some(value)
}

/// An in-memory store of SVG documents, each filed under the digest of its
/// bytes.
pub struct SvgStore {
    svgs: HashMap<u64, Vec<u8>>,
}

impl SvgStore {
    /// The stored documents, by digest.
    pub closed spec fn spec_entries(self) -> Map<u64, Seq<u8>> {
        self.svgs@.map_values(|v: Vec<u8>| v@)
    }

    /// An empty store.
    pub fn new() -> (store: SvgStore)
        ensures
            store.spec_entries() == Map::<u64, Seq<u8>>::empty(),
    {
        let store = SvgStore { svgs: HashMap::new() };
        assert(store.spec_entries() =~= Map::<u64, Seq<u8>>::empty());
        store
    }

    /// Files `bytes` under their digest, unless a document is already filed
    /// there (then the store is left as it is), and returns the document's
    /// path key.
    pub fn insert(&mut self, bytes: Vec<u8>) -> (key: String)
        ensures
            key@ == svg_key(content_hash(bytes@)),
            final(self).spec_entries() == stored_after_insert(old(self).spec_entries(), bytes@),
    {
        let length: u64 = bytes.len() as u64;
        let prefix = vstd::bytes::u64_to_le_bytes(length);
        let mut hasher = DefaultHasher::new();
        hasher.write(prefix.as_slice());
        hasher.write(bytes.as_slice());
        let h = hasher.finish();
        assert(hasher@ =~= seq![prefix@, bytes@]);
        if !self.svgs.contains_key(&h) {
            let ghost before = self.svgs@;
            let ghost kept = bytes@;
            self.svgs.insert(h, bytes);
            assert(self.spec_entries() =~= old(self).spec_entries().insert(h, kept));
        }
        key_string(h)
    }

    /// The document that `path` names, if `path` is a key under which a
    /// document is filed.
    pub fn load(&self, path: &str) -> (r: Option<Vec<u8>>)
        ensures
            match r {
                Some(svg) => lookup(self.spec_entries(), path@) == Some(svg@),
                None => lookup(self.spec_entries(), path@) is None,
            },
    {
        match parse_key(path) {
            Some(h) => match self.svgs.get(&h) {
                Some(svg) => {
                    let copy = svg.clone();
                    assert(copy@ =~= svg@);
                    Some(copy)
                },
                None => None,
            },
            None => None,
        }
    }
}

/// Loading the key that an insert returned gives the document filed under
/// it: the inserted bytes, unless a document with the same digest was
/// already filed.
pub proof fn lemma_load_after_insert(entries: Map<u64, Seq<u8>>, bytes: Seq<u8>)
    ensures
        lookup(stored_after_insert(entries, bytes), svg_key(content_hash(bytes))) == Some(
            if entries.contains_key(content_hash(bytes)) {
                entries[content_hash(bytes)]
            } else {
                bytes
            },
        ),
{
    lemma_key_names_its_hash(content_hash(bytes));
}

/// The key depends on the content alone: identical bytes get identical keys,
/// and a key names the digest of the bytes it was made for.
pub proof fn lemma_key_of_content(a: Seq<u8>, b: Seq<u8>)
    requires
        a == b,
    ensures
        svg_key(content_hash(a)) == svg_key(content_hash(b)),
        key_hash(svg_key(content_hash(a))) == Some(content_hash(a)),
{
    lemma_key_names_its_hash(content_hash(a));
}

/// Inserting the same bytes a second time changes nothing.
pub proof fn lemma_insert_idempotent(entries: Map<u64, Seq<u8>>, bytes: Seq<u8>)
    ensures
        stored_after_insert(stored_after_insert(entries, bytes), bytes) == stored_after_insert(
            entries,
            bytes,
        ),
{
}

/// An insert never changes what a path that already named a document loads.
pub proof fn lemma_insert_keeps_existing(entries: Map<u64, Seq<u8>>, bytes: Seq<u8>, path: Seq<char>)
    requires
        lookup(entries, path) is Some,
    ensures
        lookup(stored_after_insert(entries, bytes), path) == lookup(entries, path),
{
}

} // verus!