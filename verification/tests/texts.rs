use puzzle::chars::{
    ascii_control, blank_text, collapse_text, control, decimal_text, join_all, pad_text, space,
    split_at_each, split_lines, split_words, text_at_most, text_contains, text_precedes,
    text_starts_with, text_trim, text_trim_end, to_chars, to_text,
};
use puzzle::json::{from_value, Json};
use puzzle::paths::{join_path, strip_base, with_extension};
use puzzle::strmap::{PairSet, StringMap};

fn every_char() -> Vec<char> {
    (0u32..0x110000).filter_map(char::from_u32).collect()
}

#[test]
fn blanks_and_controls_are_those_of_unicode() {
    for c in every_char() {
        assert_eq!(space(c), c.is_whitespace(), "{:?}", c);
        assert_eq!(control(c), c.is_control(), "{:?}", c);
        assert_eq!(ascii_control(c), c.is_ascii_control(), "{:?}", c);
    }
}

const SAMPLES: [&str; 12] = [
    "",
    " ",
    "a",
    " a b\u{3000}c ",
    "one\ntwo",
    "one\r\ntwo\r\n",
    "\n",
    "\n\n",
    "x\ry\n",
    "a,b,,c",
    "\u{e9}\u{301} \u{1f600}",
    "tail\r",
];

#[test]
fn texts_are_taken_apart_like_everywhere() {
    for s in SAMPLES {
        assert_eq!(split_lines(s), s.lines().map(String::from).collect::<Vec<_>>());
        assert_eq!(split_words(s), s.split_whitespace().map(String::from).collect::<Vec<_>>());
        assert_eq!(split_at_each(s, ','), s.split(',').map(String::from).collect::<Vec<_>>());
        assert_eq!(text_trim(s), s.trim());
        assert_eq!(text_trim_end(s), s.trim_end());
        assert_eq!(to_text(&to_chars(s)), s);
        assert_eq!(
            collapse_text(s),
            s.split_whitespace().collect::<Vec<_>>().join(" ")
        );
        assert_eq!(text_at_most(s, 3), s.chars().take(3).collect::<String>());
        for t in SAMPLES {
            assert_eq!(text_contains(s, t), s.contains(t));
            assert_eq!(text_starts_with(s, t), s.starts_with(t));
            assert_eq!(text_precedes(s, t), s < t);
        }
    }
}

#[test]
fn numbers_and_blanks() {
    for n in [0u64, 7, 10, 999, 12345, u64::MAX] {
        assert_eq!(decimal_text(n), n.to_string());
    }
    assert_eq!(blank_text(3), "   ");
    assert_eq!(pad_text("ab", 5), format!("{:<5}", "ab"));
    assert_eq!(pad_text("abcdef", 5), "abcdef");
    assert_eq!(join_all(&vec!["a".to_string(), "b".to_string()], ", "), "a, b");
}

#[test]
fn paths_are_joined_and_cut() {
    for (base, child) in [("/a", "b"), ("/a/", "b"), ("/a", "/b"), ("", "b"), ("/", "b")] {
        let expected = std::path::Path::new(base).join(child);
        assert_eq!(join_path(base, child), expected.to_str().unwrap());
    }
    assert_eq!(strip_base("/a/b/c", "/a"), Some("b/c".to_string()));
    assert_eq!(strip_base("/a/bc", "/a/b"), None);
    assert_eq!(strip_base("/a/b", "/a/b"), Some(String::new()));
    for (path, extension) in [("/a/b.json", "tmp"), ("/a/b", "json"), ("/a/.b", "json")] {
        let expected = std::path::Path::new(path).with_extension(extension);
        assert_eq!(with_extension(path, extension), expected.to_str().unwrap());
    }
}

#[test]
fn json_is_read_and_written() {
    let text = r#"{"a":[1,-2,true,null,"x\ny"],"b":{"c":1.5}}"#;
    let value = Json::parse(text).unwrap();
    assert_eq!(value.text(), text);
    assert_eq!(value.array_at("a").unwrap().len(), 5);
    assert_eq!(value.array_at("a").unwrap()[1].as_i64(), Some(-2));
    assert_eq!(value.get("b").unwrap().get("c").unwrap().as_i64(), None);
    assert_eq!(value.first_key(), Some("a"));
    assert_eq!(value.copy().text(), text);
    assert_eq!(from_value(value.to_value()).text(), text);
    assert!(Json::parse("{").is_none());
    assert!(Json::read("nul").is_err());
    assert_eq!(Json::integer(-5).text(), "-5");
    assert_eq!(Json::opt(None).text(), "null");
    assert_eq!(Json::list_of(Json::string("a")).pretty(), "[\n  \"a\"\n]");
    assert_eq!(value.str_or("z", "none"), "none");
}

#[test]
fn maps_of_texts() {
    let mut map: StringMap<u64> = StringMap::new();
    map.insert("a".to_string(), 1);
    map.insert("b".to_string(), 2);
    map.insert("a".to_string(), 3);
    assert_eq!(map.get("a"), Some(&3));
    assert!(map.has_room());
    map.raise_all();
    assert_eq!(map.get("a"), Some(&4));
    assert_eq!(map.get("b"), Some(&3));
    map.remove("a");
    assert_eq!(map.get("a"), None);
    assert_eq!(map.entries().len(), 1);
    map.insert("c".to_string(), u64::MAX);
    assert!(!map.has_room());
    let mut pairs = PairSet::new();
    assert!(pairs.insert("a", "b"));
    assert!(!pairs.insert("a", "b"));
    assert!(pairs.contains("a", "b"));
    assert!(!pairs.contains("b", "a"));
}
