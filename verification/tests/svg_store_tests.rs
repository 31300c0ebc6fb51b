use std::collections::hash_map::DefaultHasher;
use std::hash::{Hash, Hasher};

use qcdesigner::assets::CompositeAssets;
use qcdesigner::svg_store::{parse_key, SvgStore};
use qcdesigner::text::{push_decimal, push_hex_fixed};

#[test]
fn keys_have_the_documented_shape() {
    let mut store = SvgStore::new();
    let key = store.insert(b"<svg/>".to_vec());
    assert!(key.starts_with("latex-svg/"));
    assert!(key.ends_with(".svg"));
    assert_eq!(key.len(), 30);
    assert!(key[10..26].chars().all(|c| c.is_ascii_digit() || ('a'..='f').contains(&c)));
}

#[test]
fn load_gives_back_what_was_inserted() {
    let mut store = SvgStore::new();
    let key = store.insert(b"<svg>a</svg>".to_vec());
    assert_eq!(store.load(&key), Some(b"<svg>a</svg>".to_vec()));
}

#[test]
fn inserting_the_same_bytes_twice_gives_the_same_key() {
    let mut store = SvgStore::new();
    let a = store.insert(b"<svg>x</svg>".to_vec());
    let b = store.insert(b"<svg>x</svg>".to_vec());
    assert_eq!(a, b);
    let c = store.insert(b"<svg>y</svg>".to_vec());
    assert_ne!(a, c);
    assert_eq!(store.load(&a), Some(b"<svg>x</svg>".to_vec()));
    assert_eq!(store.load(&c), Some(b"<svg>y</svg>".to_vec()));
}

#[test]
fn unknown_paths_load_nothing() {
    let store = SvgStore::new();
    assert_eq!(store.load("latex-svg/0000000000000000.svg"), None);
    assert_eq!(store.load("icons/share.svg"), None);
    assert_eq!(store.load(""), None);
}

#[test]
fn parse_key_reads_only_well_formed_keys() {
    assert_eq!(parse_key("latex-svg/00000000000000ff.svg"), Some(255));
    assert_eq!(parse_key("latex-svg/ffffffffffffffff.svg"), Some(u64::MAX));
    assert_eq!(parse_key("latex-svg/0123456789abcdef.svg"), Some(0x0123456789abcdef));
    assert_eq!(parse_key("latex-svg/00000000000000FF.svg"), None);
    assert_eq!(parse_key("latex-svg/00000000000000ff.png"), None);
    assert_eq!(parse_key("latex-svg/0000000000000ff.svg"), None);
    assert_eq!(parse_key("latex_svg/00000000000000ff.svg"), None);
    assert_eq!(parse_key("latex-svg/0000000000000éff.svg"), None);
}

#[test]
fn inserted_keys_parse_back() {
    let mut store = SvgStore::new();
    let key = store.insert(vec![1, 2, 3]);
    let digest = parse_key(&key).expect("a key");
    let mut again = String::from("latex-svg/");
    push_hex_fixed(&mut again, digest, 16);
    again.push_str(".svg");
    assert_eq!(again, key);
}

#[test]
fn number_rendering() {
    let mut s = String::new();
    push_decimal(&mut s, 0);
    assert_eq!(s, "0");
    let mut s = String::from("n=");
    push_decimal(&mut s, 907);
    assert_eq!(s, "n=907");
    let mut h = String::new();
    push_hex_fixed(&mut h, 0xbeef, 6);
    assert_eq!(h, "00beef");
    let mut h = String::new();
    push_hex_fixed(&mut h, 0x12345, 2);
    assert_eq!(h, "45");
}

#[test]
fn composite_assets_prefer_generated_svgs() {
    let mut store = SvgStore::new();
    let key = store.insert(b"<svg>gen</svg>".to_vec());
    let assets = CompositeAssets::new(store);
    let r = assets.load(&key, Some(b"component".to_vec()), Some(b"bundled".to_vec()));
    assert_eq!(r.ok(), Some(b"<svg>gen</svg>".to_vec()));
    let r = assets.load("icons/x.svg", Some(b"component".to_vec()), Some(b"bundled".to_vec()));
    assert_eq!(r.ok(), Some(b"component".to_vec()));
    let r = assets.load("icons/x.svg", None, Some(b"bundled".to_vec()));
    assert_eq!(r.ok(), Some(b"bundled".to_vec()));
}

#[test]
fn composite_assets_report_missing_paths() {
    let assets = CompositeAssets::new(SvgStore::new());
    match assets.load("assets/missing.svg", None, None) {
        Ok(_) => panic!("nothing should be found"),
        Err(e) => {
            assert_eq!(e.path, "assets/missing.svg");
            assert_eq!(e.message(), "asset not found: \"assets/missing.svg\"");
        }
    }
}

#[test]
fn composite_listing_filters_bundled_paths() {
    let assets = CompositeAssets::new(SvgStore::new());
    let bundled = vec![
        String::from("assets/share.svg"),
        String::from("icons/a.svg"),
        String::from("assets/sub/b.svg"),
    ];
    let listed = assets.list("assets/", vec![String::from("icons/x.svg")], &bundled);
    assert_eq!(listed, vec!["icons/x.svg", "assets/share.svg", "assets/sub/b.svg"]);
    let listed = assets.list("", vec![], &bundled);
    assert_eq!(listed, bundled);
}

#[test]
fn key_is_the_digest_of_the_hashed_vec() {
    for bytes in [b"<svg/>".to_vec(), Vec::new(), vec![0u8; 300]] {
        let mut hasher = DefaultHasher::new();
        bytes.hash(&mut hasher);
        let expected = format!("latex-svg/{:016x}.svg", hasher.finish());
        let mut store = SvgStore::new();
        assert_eq!(store.insert(bytes), expected);
    }
}
