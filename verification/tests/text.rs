use std::path::Path;
use emacs_reporter::paths::{extension_of, file_name_of, join_path};
use emacs_reporter::text::{char_is_whitespace, decimal_string, hyphenated_string, str_eq_ignore_ascii_case, trim};

#[test]
fn trim_matches_std() {
    for s in ["  a b \n", "\u{3000}x\t", "", "   ", "x", "\u{85}y\u{a0}"] {
        assert_eq!(trim(s), s.trim());
    }
}

#[test]
fn decimal_rendering() {
    assert_eq!(decimal_string(0), "0");
    assert_eq!(decimal_string(7), "7");
    assert_eq!(decimal_string(1234567890), "1234567890");
    assert_eq!(decimal_string(u64::MAX), u64::MAX.to_string());
}

#[test]
fn hyphenated_uuid_rendering() {
    let b = [0x67, 0xe5, 0x50, 0x44, 0x10, 0xb1, 0x42, 0x6f, 0x92, 0x47, 0xbb, 0x68, 0x0e, 0x5f, 0xe0, 0xc8];
    assert_eq!(hyphenated_string(&b), "67e55044-10b1-426f-9247-bb680e5fe0c8");
}

#[test]
fn ascii_case_insensitive_compare() {
    assert!(str_eq_ignore_ascii_case("Emacs", "emacs"));
    assert!(str_eq_ignore_ascii_case("EMACS", "emacs"));
    assert!(!str_eq_ignore_ascii_case("emacs-29", "emacs"));
    assert!(!str_eq_ignore_ascii_case("émacs", "emacs"));
}

#[test]
fn path_pieces_match_std() {
    for p in ["/a/b", "/a/b/", "/a/b/.", "a/./b", "/", "", ".", "..", "/a/..", "b.tar.bz2", ".bz2", "x/.hidden", "dir.bz2/"] {
        assert_eq!(file_name_of(p), Path::new(p).file_name().and_then(|n| n.to_str()), "{p}");
        assert_eq!(extension_of(p), Path::new(p).extension().and_then(|n| n.to_str()), "{p}");
    }
    assert_eq!(join_path("/home/u", ".emacs.d"), "/home/u/.emacs.d");
    assert_eq!(join_path("/home/u/", ".emacs.d"), "/home/u/.emacs.d");
    assert_eq!(join_path("", "emacs"), "emacs");
}

#[test]
fn whitespace_set_matches_char_is_whitespace() {
    for u in 0u32..=0x10FFFF {
        if let Some(c) = char::from_u32(u) {
            assert_eq!(char_is_whitespace(c), c.is_whitespace(), "U+{u:04X}");
        }
    }
    assert_eq!(trim("\u{3000}\u{85} emacs 30.1\u{2029}\t"), "emacs 30.1");
}
