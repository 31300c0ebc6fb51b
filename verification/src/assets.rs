//! The asset source that the interface draws from: generated SVGs first,
//! then the component library's built-in icons, then the application's own
//! bundled files.

use vstd::prelude::*;
use vstd::string::*;
use vstd::utf8::encode_utf8;
use crate::svg_store::{SvgStore, lookup};

verus! {

/// A lookup that found no asset under the requested path.
pub struct AssetNotFound {
    pub path: String,
}

/// The message of a failed lookup: `asset not found: "<path>"`.
pub open spec fn not_found_message(path: Seq<char>) -> Seq<char> {
    seq!['a', 's', 's', 'e', 't', ' ', 'n', 'o', 't', ' ', 'f', 'o', 'u', 'n', 'd', ':', ' ', '"']
        + path + seq!['"']
}

impl AssetNotFound {
    /// The human-readable message: `asset not found: "<path>"`.
    pub fn message(&self) -> (text: String)
        ensures
            text@ == not_found_message(self.path@),
    {
        let mut text = String::from_str("asset not found: \"");
        proof {
            reveal_strlit("asset not found: \"");
        }
        text.append(self.path.as_str());
        text.append("\"");
        proof {
            reveal_strlit("\"");
        }
        assert(text@ =~= not_found_message(self.path@));
        text
    }
}

/// Whether the bytes of `prefix` begin the bytes of `s`.
pub open spec fn has_prefix(s: Seq<u8>, prefix: Seq<u8>) -> bool {
    prefix.len() <= s.len() && s.subrange(0, prefix.len() as int) == prefix
}

/// The entries of `entries` whose UTF-8 bytes begin with `prefix`, in order.
pub open spec fn entries_under(entries: Seq<String>, prefix: Seq<u8>) -> Seq<Seq<char>>
    decreases entries.len(),
{
    if entries.len() == 0 {
        Seq::empty()
    } else {
        let rest = entries_under(entries.drop_last(), prefix);
        if has_prefix(encode_utf8(entries.last()@), prefix) {
            rest.push(entries.last()@)
        } else {
            rest
        }
    }
}

/// Whether `prefix` begins `s`, byte for byte.
fn starts_with(s: &[u8], prefix: &[u8]) -> (b: bool)
    ensures
        b == has_prefix(s@, prefix@),
{
    if prefix.len() > s.len() {
        return false;
    }
    let mut i: usize = 0;
    while i < prefix.len()
        invariant
            prefix.len() <= s.len(),
            i <= prefix.len(),
            forall|j: int| 0 <= j < i ==> s@[j] == prefix@[j],
        decreases prefix.len() - i,
    {
        if s[i] != prefix[i] {
            assert(s@.subrange(0, prefix@.len() as int)[i as int] != prefix@[i as int]);
            return false;
        }
        i = i + 1;
    }
    assert(s@.subrange(0, prefix@.len() as int) =~= prefix@);
    true
}

/// The composite asset source.
pub struct CompositeAssets {
    pub svg_store: SvgStore,
}

impl CompositeAssets {
    /// An asset source over the given store of generated SVGs.
    pub fn new(svg_store: SvgStore) -> (assets: CompositeAssets)
        ensures
            assets.svg_store == svg_store,
    {
        CompositeAssets { svg_store }
    }

    /// Resolves `path`: the generated SVG filed under it if there is one,
    /// else what the component library found (`component_asset`), else what
    /// the application bundle found (`bundled_asset`), else a not-found error
    /// naming the path.
    pub fn load(
        &self,
        path: &str,
        component_asset: Option<Vec<u8>>,
        bundled_asset: Option<Vec<u8>>,
    ) -> (r: Result<Vec<u8>, AssetNotFound>)
        ensures
            match lookup(self.svg_store.spec_entries(), path@) {
                Some(svg) => r matches Ok(data) && data@ == svg,
                None => match component_asset {
                    Some(data) => r == Ok::<Vec<u8>, AssetNotFound>(data),
                    None => match bundled_asset {
                        Some(data) => r == Ok::<Vec<u8>, AssetNotFound>(data),
                        None => r matches Err(e) && e.path@ == path@,
                    },
                },
            },
    {
        if let Some(svg) = self.svg_store.load(path) {
            return Ok(svg);
        }
        if let Some(data) = component_asset {
            return Ok(data);
        }
        match bundled_asset {
            Some(data) => Ok(data),
            None => Err(AssetNotFound { path: String::from_str(path) }),
        }
    }

    /// The asset paths under `path`: the component library's listing
    /// (`component_entries`) followed by the bundled paths that begin with
    /// `path`, in their order.
    pub fn list(&self, path: &str, component_entries: Vec<String>, bundled_entries: &Vec<String>) -> (r: Vec<String>)
        ensures
            r@.map_values(|s: String| s@) == component_entries@.map_values(|s: String| s@)
                + entries_under(bundled_entries@, path.spec_bytes()),
    {
        let prefix = path.as_bytes();
        let mut r = component_entries;
        let ghost start = r@.map_values(|s: String| s@);
        let mut i: usize = 0;
        while i < bundled_entries.len()
            invariant
                i <= bundled_entries.len(),
                prefix@ == path.spec_bytes(),
                r@.map_values(|s: String| s@) == start + entries_under(
                    bundled_entries@.take(i as int),
                    prefix@,
                ),
            decreases bundled_entries.len() - i,
        {
            let entry = &bundled_entries[i];
            let ghost before = r@.map_values(|s: String| s@);
            assert(bundled_entries@.take(i as int + 1).drop_last() =~= bundled_entries@.take(i as int));
            if starts_with(entry.as_str().as_bytes(), prefix) {
                r.push(entry.clone());
                assert(r@.map_values(|s: String| s@) =~= before.push(entry@));
            }
            i = i + 1;
        }
        assert(bundled_entries@.take(i as int) =~= bundled_entries@);
        r
    }
}

} // verus!
