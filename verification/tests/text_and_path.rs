use std::path::Path;

use workspace_copy::path::{components, file_name, is_absolute, join, parent, starts_with, PathComponent};
use workspace_copy::text::{eq_ignore_case, is_blank, join_with, keep_trimmed_nonblank, split_char, trim_str, u64_to_decimal};

const SAMPLES: [&str; 34] = [
    "", "/", "//", "///", ".", "..", "./", "../", "a", "a/", "a//", "a/b", "a/b/", "a//b",
    "a/./b", "a/.", "a/..", "/a", "/a/", "/a/b", "//a", "./a", "./a/b", "../a", ".hidden",
    "..x", "a/.hidden/", "/a/b/./", "./.", "/./", "a/b/c/d", "x/.././y", " ", "/tmp/demo-project",
];

#[test]
fn file_name_matches_std() {
    for s in SAMPLES {
        let expected = Path::new(s).file_name().map(|n| n.to_str().unwrap().to_string());
        assert_eq!(file_name(s), expected, "file_name({s:?})");
    }
}

#[test]
fn parent_matches_std() {
    for s in SAMPLES {
        let expected = Path::new(s).parent().map(|n| n.to_str().unwrap().to_string());
        assert_eq!(parent(s), expected, "parent({s:?})");
    }
}

#[test]
fn join_matches_std() {
    for base in SAMPLES {
        for name in ["b", "/abs", "", "c/d", "x-copy"] {
            let expected = Path::new(base).join(name).to_str().unwrap().to_string();
            assert_eq!(join(base, name), expected, "join({base:?}, {name:?})");
        }
    }
}

#[test]
fn starts_with_matches_std() {
    for p in SAMPLES {
        for base in SAMPLES {
            let expected = Path::new(p).starts_with(base);
            assert_eq!(starts_with(p, base), expected, "starts_with({p:?}, {base:?})");
        }
    }
}

#[test]
fn is_absolute_matches_std() {
    for s in SAMPLES {
        assert_eq!(is_absolute(s), Path::new(s).is_absolute(), "is_absolute({s:?})");
    }
}

#[test]
fn components_of_a_mixed_path() {
    let c = components("./a/../b//");
    assert_eq!(c.len(), 4);
    assert!(matches!(c[0], PathComponent::CurDir));
    assert!(matches!(&c[1], PathComponent::Normal(s) if s == "a"));
    assert!(matches!(c[2], PathComponent::ParentDir));
    assert!(matches!(&c[3], PathComponent::Normal(s) if s == "b"));
    assert!(matches!(components("/x")[0], PathComponent::RootDir));
}

#[test]
fn target_inside_source_is_detected_by_components() {
    assert!(starts_with("/home/me/proj/sub", "/home/me/proj"));
    assert!(!starts_with("/home/me/proj-copy", "/home/me/proj"));
    assert!(starts_with("/home/me/proj/", "/home/me/proj"));
}

#[test]
fn trim_removes_unicode_white_space() {
    assert_eq!(trim_str("  a b \t\n"), "a b");
    assert_eq!(trim_str("\u{3000}x\u{a0}"), "x");
    assert_eq!(trim_str(" \t "), "");
    assert_eq!(trim_str(""), "");
    for s in ["  a ", "\u{2028}q\u{85}", "none", " \u{200b}x"] {
        assert_eq!(trim_str(s), s.trim(), "trim({s:?})");
    }
}

#[test]
fn blank_strings() {
    assert!(is_blank(""));
    assert!(is_blank(" \n\t"));
    assert!(!is_blank(" x "));
}

#[test]
fn split_keeps_empty_pieces() {
    assert_eq!(split_char("a,,b,", ','), vec!["a", "", "b", ""]);
    assert_eq!(split_char("", ','), vec![""]);
    assert_eq!(split_char("abc", ','), vec!["abc"]);
}

#[test]
fn trimmed_nonblank_pieces() {
    let pieces = split_char(" node_modules , ,dist,", ',');
    assert_eq!(keep_trimmed_nonblank(&pieces), vec!["node_modules", "dist"]);
}

#[test]
fn join_with_separator() {
    let v = vec!["a".to_string(), "b".to_string(), "c".to_string()];
    assert_eq!(join_with(&v, ", "), "a, b, c");
    assert_eq!(join_with(&Vec::new(), ", "), "");
}

#[test]
fn decimal_rendering() {
    for n in [0u64, 7, 10, 42, 1000, 987654321, u64::MAX] {
        assert_eq!(u64_to_decimal(n), n.to_string());
    }
}

#[test]
fn ascii_case_insensitive_comparison() {
    assert!(eq_ignore_case("YeS", "yes"));
    assert!(eq_ignore_case("Q", "q"));
    assert!(!eq_ignore_case("yess", "yes"));
    assert!(!eq_ignore_case("É", "é"));
    assert!(eq_ignore_case("é", "é"));
}
