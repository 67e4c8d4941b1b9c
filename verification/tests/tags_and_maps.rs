use tokimo_ffmpeg::collections::{text_order, NameSet, SortedMap, TextOrder};
use tokimo_ffmpeg::media::tag_text::{choose_tag_text, decode_cstr_lossy, extract_tags, RawTag};

#[test]
fn plain_text_stands() {
    assert_eq!(decode_cstr_lossy(b"Hello"), "Hello");
    assert_eq!(decode_cstr_lossy("中文".as_bytes()), "中文");
    assert_eq!(decode_cstr_lossy(b""), "");
}

#[test]
fn gbk_bytes_become_chinese() {
    assert_eq!(decode_cstr_lossy(&[0xd6, 0xd0, 0xce, 0xc4]), "中文");
}

#[test]
fn gbk_read_as_latin1_is_read_again() {
    assert_eq!(decode_cstr_lossy("ÖÐÎÄ".as_bytes()), "中文");
}

#[test]
fn text_beyond_latin1_stays() {
    // The low bytes of these characters are GBK text.
    let text = "\u{d6}\u{d0}\u{4ece}\u{c4}";
    assert_eq!(decode_cstr_lossy(text.as_bytes()), text);
}

#[test]
fn lone_accents_stay() {
    assert_eq!(decode_cstr_lossy("café".as_bytes()), "café");
}

#[test]
fn bytes_of_no_encoding_are_latin1() {
    assert_eq!(decode_cstr_lossy(&[0x61, 0xff]), "aÿ");
}

#[test]
fn choice_depends_on_the_reading() {
    assert_eq!(choose_tag_text("é".as_bytes(), "文", false), "文");
    assert_eq!(choose_tag_text("é".as_bytes(), "文", true), "é");
    assert_eq!(choose_tag_text("é".as_bytes(), "a\u{1}", false), "é");
    assert_eq!(choose_tag_text("é".as_bytes(), "a\tb\n", false), "a\tb\n");
    assert_eq!(choose_tag_text("e".as_bytes(), "文", false), "e");
    assert_eq!(choose_tag_text("é中".as_bytes(), "文", false), "é中");
    assert_eq!(choose_tag_text("éĀ".as_bytes(), "文", false), "éĀ");
    assert_eq!(choose_tag_text(&[0xff, 0x41], "\u{1}", false), "\u{1}");
    assert_eq!(choose_tag_text(&[0xff, 0x41], "x", true), "ÿA");
}

#[test]
fn tags_are_sorted_and_replaced() {
    let tag = |k: &str, v: &str| RawTag { key: k.as_bytes().to_vec(), value: v.as_bytes().to_vec() };
    let tags = extract_tags(&vec![tag("title", "a"), tag("artist", "b"), tag("title", "c")]);
    assert_eq!(tags.len(), 2);
    assert_eq!((tags.key(0), tags.value(0).as_str()), ("artist", "b"));
    assert_eq!((tags.key(1), tags.value(1).as_str()), ("title", "c"));
    assert_eq!(tags.get("title").map(|s| s.as_str()), Some("c"));
    assert_eq!(tags.get("album"), None);
}

#[test]
fn sorted_map_orders_by_text() {
    let mut m: SortedMap<i32> = SortedMap::new();
    assert!(m.is_empty());
    for (k, v) in [("b", 1), ("ab", 2), ("a", 3), ("é", 4), ("b", 5)] {
        m.insert(k.to_string(), v);
    }
    let keys: Vec<&str> = (0..m.len()).map(|i| m.key(i)).collect();
    assert_eq!(keys, vec!["a", "ab", "b", "é"]);
    assert_eq!(m.get("b"), Some(&5));
}

#[test]
fn text_orders() {
    assert_eq!(text_order("a", "ab"), TextOrder::Before);
    assert_eq!(text_order("b", "ab"), TextOrder::After);
    assert_eq!(text_order("", ""), TextOrder::Same);
}

#[test]
fn name_sets_hold_a_name_once() {
    let mut s = NameSet::new();
    assert!(s.insert("x"));
    assert!(!s.insert("x"));
    assert!(s.insert("y"));
    assert_eq!(s.len(), 2);
    assert!(s.contains("x") && !s.contains("z"));
}
