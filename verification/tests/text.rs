use http_registry::path::{IndexPath, Part};
use http_registry::text::{
    append_decimal, chars_of, contains_char, same_ignoring_case, same_text, split_once, trim,
    trim_end,
};
use std::path::Path;

#[test]
fn trims_what_is_white_space() {
    for code in 0..=0x10ffffu32 {
        if let Some(c) = char::from_u32(code) {
            let s = c.to_string();
            assert_eq!(trim(&s), s.trim(), "{code:x}");
            assert_eq!(trim_end(&s), s.trim_end(), "{code:x}");
        }
    }
}

#[test]
fn trims_both_ends() {
    assert_eq!(trim("  a b\t\r\n"), "a b");
    assert_eq!(trim_end("  a b\t\r\n"), "  a b");
    assert_eq!(trim(" \t "), "");
    assert_eq!(trim(""), "");
    assert_eq!(trim("\u{3000}x\u{2003}"), "x");
    assert_eq!(trim("caf\u{e9} "), "caf\u{e9}");
}

#[test]
fn splits_at_the_first_separator() {
    assert_eq!(split_once("etag: a:b", ':'), Some(("etag", " a:b")));
    assert_eq!(split_once(":x", ':'), Some(("", "x")));
    assert_eq!(split_once("x:", ':'), Some(("x", "")));
    assert_eq!(split_once("x", ':'), None);
    assert_eq!(split_once("", ':'), None);
    assert_eq!(split_once("\u{e9}:\u{fc}", ':'), Some(("\u{e9}", "\u{fc}")));
}

#[test]
fn compares_texts() {
    assert!(same_text("abc", "abc"));
    assert!(!same_text("abc", "abd"));
    assert!(!same_text("abc", "ab"));
    assert!(same_ignoring_case("ETag", "etag"));
    assert!(same_ignoring_case("", ""));
    assert!(!same_ignoring_case("etag", "etags"));
    assert!(!same_ignoring_case("\u{c9}", "\u{e9}"));
    assert!(!same_ignoring_case("[", "{"));
    assert!(!same_ignoring_case("@", "`"));
    for code in 0..0x250u32 {
        for other in 0..0x250u32 {
            let a = char::from_u32(code).unwrap().to_string();
            let b = char::from_u32(other).unwrap().to_string();
            assert_eq!(same_ignoring_case(&a, &b), a.eq_ignore_ascii_case(&b));
        }
    }
}

#[test]
fn looks_for_characters() {
    assert!(contains_char("a\nb", '\n'));
    assert!(!contains_char("ab", '\n'));
    assert_eq!(chars_of("a\u{e9}"), vec!['a', '\u{e9}']);
}

#[test]
fn writes_numbers_in_decimal() {
    for n in [0usize, 1, 9, 10, 19, 100, 1234567890, usize::MAX] {
        let mut s = "n=".to_string();
        append_decimal(&mut s, n);
        assert_eq!(s, format!("n={n}"));
    }
}

#[test]
fn same_paths_have_the_same_key() {
    let texts = [
        "", "/", "//", ".", "./", "/.", "..", "a", "a/", "a//", "a/.", "./a", "/a", "//a", "a/b",
        "a//b", "a/./b", "a/../b", "a/b/", "a/b/.", "./a/b", "config.json", "config.json/",
        "./config.json", "x/config.json", "re/ge/regex", "re//ge/./regex/", "...", "a/...", "a.b",
        ".a", "a/.b",
    ];
    for a in texts {
        for b in texts {
            let same = IndexPath::new(a).key() == IndexPath::new(b).key();
            assert_eq!(same, Path::new(a) == Path::new(b), "{a:?} {b:?}");
        }
        assert_eq!(IndexPath::new(a).as_str(), a);
        assert_eq!(IndexPath::new(a).copy().key(), IndexPath::new(a).key());
        assert_eq!(IndexPath::new(a).is_config(), Path::new(a) == Path::new("config.json"));
    }
    assert_eq!(IndexPath::new("re//ge/./regex").key(), "re/nge/nregex/n");
}

#[test]
fn components_tell_paths_apart() {
    fn normal(text: &str) -> Part {
        Part::Normal(text.to_string())
    }
    let lists = vec![
        vec![],
        vec![Part::Root],
        vec![Part::Current],
        vec![Part::Parent],
        vec![Part::Prefix("C".to_string())],
        vec![Part::Prefix("C".to_string()), Part::Root],
        vec![normal("C")],
        vec![normal("re"), normal("ge")],
        vec![normal("re/ge")],
        vec![normal("re/nge")],
        vec![normal("re\\ge")],
        vec![normal("/")],
        vec![normal("/"), normal("/")],
        vec![normal("//")],
        vec![normal(""), normal("")],
        vec![normal("")],
    ];
    for (i, a) in lists.iter().enumerate() {
        for (j, b) in lists.iter().enumerate() {
            let same = IndexPath::of_parts("a", a).key() == IndexPath::of_parts("b", b).key();
            assert_eq!(same, i == j, "{a:?} {b:?}");
        }
    }
    assert!(IndexPath::of_parts("x", &vec![normal("config.json")]).is_config());
    assert!(!IndexPath::of_parts("config.json", &vec![normal("x")]).is_config());
    let windows = vec![normal("re"), normal("ge"), normal("regex")];
    assert_eq!(
        IndexPath::of_parts("re\\ge\\regex", &windows).key(),
        IndexPath::new("re/ge/regex").key()
    );
}
