use sarchive::path::{first_part_of, join_paths, parent_of};
use sarchive::strmap::StringMap;
use sarchive::text::{
    char_is_whitespace, chars_of, decimal_string, push_padded_decimal, split_ranges,
    split_ranges_either, str_equal, trim_range,
};

fn pieces(text: &str, sep: char) -> Vec<String> {
    let v = chars_of(text);
    split_ranges(&v, 0, v.len(), sep).iter().map(|(a, b)| v[*a..*b].iter().collect()).collect()
}

fn trimmed(text: &str) -> String {
    let v = chars_of(text);
    let (a, b) = trim_range(&v, 0, v.len());
    v[a..b].iter().collect()
}

#[test]
fn whitespace_is_what_the_standard_library_takes_for_it() {
    for code in 0u32..=0x11_0000 {
        if let Some(c) = char::from_u32(code) {
            assert_eq!(char_is_whitespace(c), c.is_whitespace(), "U+{:04X}", code);
        }
    }
}

#[test]
fn characters_of_a_text() {
    assert_eq!(chars_of(""), Vec::<char>::new());
    assert_eq!(chars_of("a\u{e9}\u{1F600}"), vec!['a', '\u{e9}', '\u{1F600}']);
}

#[test]
fn split_gives_one_piece_more_than_separators() {
    assert_eq!(pieces("", ','), vec![""]);
    assert_eq!(pieces("a", ','), vec!["a"]);
    assert_eq!(pieces("a,b", ','), vec!["a", "b"]);
    assert_eq!(pieces(",a,,b,", ','), vec!["", "a", "", "b", ""]);
    assert_eq!(pieces("a\0b\0", '\0'), vec!["a", "b", ""]);
}

#[test]
fn split_agrees_with_the_standard_library() {
    for text in ["", "=", "a=b", "==a==", "key=value=more", "\u{e9}=\u{e8}", "no separator"] {
        let expected: Vec<String> = text.split('=').map(|p| p.to_string()).collect();
        assert_eq!(pieces(text, '='), expected, "text {:?}", text);
    }
}

#[test]
fn split_within_a_range() {
    let v = chars_of("xx,a,b,,yy");
    assert_eq!(split_ranges(&v, 3, 8, ','), vec![(3, 4), (5, 6), (7, 7), (8, 8)]);
    assert_eq!(split_ranges(&v, 4, 4, ','), vec![(4, 4)]);
    assert_eq!(split_ranges_either(&v, 0, 5, ',', 'a'), vec![(0, 2), (3, 3), (4, 4), (5, 5)]);
}

#[test]
fn trim_agrees_with_the_standard_library() {
    for text in ["", " ", "a", " a", "a ", "  a b  ", "\t\n x \r\n", "\u{a0}x\u{2003}", "\u{200b}x "] {
        assert_eq!(trimmed(text), text.trim(), "text {:?}", text);
    }
    let v = chars_of("ab  cd  ef");
    assert_eq!(trim_range(&v, 2, 8), (4, 6));
    assert_eq!(trim_range(&v, 2, 4), (4, 4));
}

#[test]
fn decimal_digits() {
    assert_eq!(decimal_string(0), "0");
    assert_eq!(decimal_string(7), "7");
    assert_eq!(decimal_string(10), "10");
    assert_eq!(decimal_string(9200), "9200");
    assert_eq!(decimal_string(u64::MAX), "18446744073709551615");
    let mut out = vec!['x'];
    push_padded_decimal(5, 3, &mut out);
    push_padded_decimal(1234, 2, &mut out);
    push_padded_decimal(0, 0, &mut out);
    assert_eq!(out.iter().collect::<String>(), "x00512340");
}

#[test]
fn texts_are_equal_where_their_characters_are() {
    assert!(str_equal("", ""));
    assert!(str_equal("abc", "abc"));
    assert!(!str_equal("abc", "abd"));
    assert!(!str_equal("abc", "ab"));
    assert!(!str_equal("", "a"));
}

#[test]
fn parents() {
    assert_eq!(parent_of("/a/b/c.txt"), "/a/b");
    assert_eq!(parent_of("/c"), "/");
    assert_eq!(parent_of("c"), "");
    assert_eq!(parent_of("a/c"), "a");
    assert_eq!(parent_of(""), "");
    assert_eq!(parent_of("/a/b/"), "/a");
    assert_eq!(parent_of("/a/b/."), "/a");
    assert_eq!(parent_of("/a//b"), "/a");
    assert_eq!(parent_of("/a/./b"), "/a");
    assert_eq!(parent_of("/b/"), "/");
    assert_eq!(parent_of("./b"), ".");
    for path in [
        "/a/b/c.txt",
        "/c",
        "c",
        "a/c",
        "/x/y/z",
        "/a/b/",
        "/a/b//",
        "/a/b/.",
        "/a//b",
        "/a/./b",
        "/a/./b/./",
        "/b/",
        "//b",
        "./b",
        "a/../b",
        "a/b/..",
        "c/",
    ] {
        let expected = std::path::Path::new(path).parent().unwrap().to_str().unwrap();
        assert_eq!(parent_of(path), expected, "path {:?}", path);
    }
}

#[test]
fn first_parts() {
    assert_eq!(first_part_of("2.mymaster.mycluster.SC"), "2");
    assert_eq!(first_part_of("noext"), "noext");
    assert_eq!(first_part_of(".hidden"), "");
    assert_eq!(first_part_of(""), "");
}

#[test]
fn joined_paths() {
    assert_eq!(join_paths("/a", "b"), "/a/b");
    assert_eq!(join_paths("/a/", "b"), "/a/b");
    assert_eq!(join_paths("a", "b/c"), "a/b/c");
    assert_eq!(join_paths("", "b"), "b");
    assert_eq!(join_paths("/a", "/b"), "/b");
    assert_eq!(join_paths("/a", ""), "/a/");
    assert_eq!(join_paths("/", "b"), "/b");
    assert_eq!(join_paths("", ""), "");
}

#[test]
fn joined_paths_agree_with_the_standard_library() {
    for (base, name) in
        [("/a", "b"), ("/a/", "b"), ("a", "b/c"), ("", "b"), ("/a", "/b"), ("/a", ""), ("/", "b")]
    {
        let expected = std::path::Path::new(base).join(name);
        assert_eq!(join_paths(base, name), expected.to_str().unwrap(), "{:?} {:?}", base, name);
    }
}

#[test]
fn map_keeps_one_value_for_each_key() {
    let mut m: StringMap<u32> = StringMap::new();
    assert_eq!(m.len(), 0);
    assert_eq!(m.get("a"), None);
    assert!(!m.contains_key("a"));
    m.insert("a".to_string(), 1);
    m.insert("b".to_string(), 2);
    m.insert("a".to_string(), 3);
    assert_eq!(m.len(), 2);
    assert_eq!(m.get("a"), Some(&3));
    assert_eq!(m.get("b"), Some(&2));
    assert_eq!(m.get("c"), None);
    assert!(m.contains_key("b"));
    assert_eq!(m.entry(0), (&"a".to_string(), &3));
    assert_eq!(m.entry(1), (&"b".to_string(), &2));
}

#[test]
fn maps_are_equal_whatever_the_order() {
    let mut a: StringMap<String> = StringMap::new();
    let mut b: StringMap<String> = StringMap::new();
    assert_eq!(a, b);
    a.insert("x".to_string(), "1".to_string());
    assert_ne!(a, b);
    assert_ne!(b, a);
    a.insert("y".to_string(), "2".to_string());
    b.insert("y".to_string(), "0".to_string());
    b.insert("x".to_string(), "1".to_string());
    assert_ne!(a, b);
    b.insert("y".to_string(), "2".to_string());
    assert_eq!(a, b);
    assert_eq!(a.clone(), a);
    b.insert("z".to_string(), "".to_string());
    assert_ne!(a, b);
    assert_ne!(b, a);
}
