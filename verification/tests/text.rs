use fishnet::number::{decimal, decimal_i32, parse_i32, parse_u32};
use fishnet::path::{join_path, path_eq};
use fishnet::text::{
    chars_of, fields, join, lines, space, split, split_once, starts_with, strip_prefix, trim,
};
use std::path::{Path, PathBuf};

const TEXTS: [&str; 16] = [
    "",
    " ",
    "\n",
    "\r\n",
    "a",
    "a\nb",
    "a\r\nb\r\n",
    "a\rb\n\n",
    "a\n\r",
    "  two  words\t",
    "\u{a0}no-break\u{3000}\u{2028}x",
    "é=ü=ö",
    "=x",
    "x=",
    "::a::b:",
    "36 25 0:4 / /run/netns rw shared:5 - tmpfs tmpfs rw",
];

#[test]
fn space_is_the_unicode_property() {
    for n in 0..=0x10ffffu32 {
        if let Some(c) = char::from_u32(n) {
            assert_eq!(space(c), c.is_whitespace(), "{:?}", c);
        }
    }
}

#[test]
fn text_is_cut_like_std_cuts_it() {
    for t in TEXTS {
        assert_eq!(chars_of(t), t.chars().collect::<Vec<_>>());
        assert_eq!(lines(t), t.lines().collect::<Vec<_>>(), "{:?}", t);
        assert_eq!(fields(t, ' '), t.split(' ').filter(|f| !f.is_empty()).collect::<Vec<_>>(), "{:?}", t);
        assert_eq!(trim(t), t.trim(), "{:?}", t);
        assert_eq!(split(t, ':'), t.split(':').collect::<Vec<_>>());
        let cut = split_once(t, '=');
        let expected = t.split_once('=').map(|(a, b)| (a.to_string(), b.to_string()));
        assert_eq!(cut, expected, "{:?}", t);
    }
}

#[test]
fn prefixes_and_joins() {
    assert!(starts_with("wg0", "wg"));
    assert!(starts_with("wg", "wg"));
    assert!(!starts_with("w", "wg"));
    assert!(!starts_with("Wg0", "wg"));
    assert!(starts_with("anything", ""));
    assert_eq!(strip_prefix("PPid:\t1", "PPid:"), Some("\t1".to_string()));
    assert_eq!(strip_prefix("Pid:\t1", "PPid:"), None);
    let parts = vec!["a".to_string(), "".to_string(), "c".to_string()];
    assert_eq!(join(&parts, ", "), "a, , c");
    assert_eq!(join(&Vec::new(), ", "), "");
    assert_eq!(join(&vec!["one".to_string()], ", "), "one");
}

#[test]
fn joining_and_cutting_again() {
    let parts = vec!["/bin".to_string(), "".to_string(), "/sbin".to_string()];
    assert_eq!(split(&join(&parts, ":"), ':'), parts);
}

#[test]
fn numbers_are_read_like_std_reads_them() {
    for t in [
        "", "0", "7", "+7", "-7", "+", "-", "--1", "+-1", " 1", "1 ", "1a", "00012", "4294967295",
        "4294967296", "2147483647", "2147483648", "-2147483648", "-2147483649", "99999999999999999999",
        "self", "-0", "٣",
    ] {
        assert_eq!(parse_u32(t), t.parse::<u32>().ok(), "{:?}", t);
        assert_eq!(parse_i32(t), t.parse::<i32>().ok(), "{:?}", t);
    }
}

#[test]
fn numbers_are_written_and_read_back() {
    for n in [0u32, 9, 10, 1000, 4294967295] {
        assert_eq!(decimal(n as u64), n.to_string());
        assert_eq!(parse_u32(&decimal(n as u64)), Some(n));
    }
    assert_eq!(decimal(u64::MAX), "18446744073709551615");
    for n in [0i32, -1, 42, i32::MIN, i32::MAX] {
        assert_eq!(decimal_i32(n), n.to_string());
        assert_eq!(parse_i32(&decimal_i32(n)), Some(n));
    }
}

#[test]
fn paths_compare_by_components() {
    let paths = [
        "", ".", "/", "//", "/.", "/run/netns", "/run//netns/", "/run/./netns", "run/netns", "./run/netns",
        "./", "/run/netns2", "/run", "/run/../run/netns", "run/netns/.", "..", "/..", "a/.", ".a", "a.",
    ];
    for a in paths {
        for b in paths {
            assert_eq!(path_eq(a, b), Path::new(a) == Path::new(b), "{:?} {:?}", a, b);
        }
    }
}

#[test]
fn paths_join_like_std_joins_them() {
    for dir in ["/var/run/netns", "/var/run/netns/", "", "/", "rel"] {
        for name in ["fishnetns", "", "/abs", "a/b", "."] {
            let expected = PathBuf::from(dir).join(name);
            assert_eq!(join_path(dir, name), expected.to_str().unwrap());
        }
    }
}
