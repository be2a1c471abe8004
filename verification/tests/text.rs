use rollcall::json::{fields_of, items_of, text_field, text_in, text_of};
use rollcall::keyed::{StringMap, StringSet};
use rollcall::quoting::{join, split, QuotingError};
use rollcall::table::{render_table, Fit};
use rollcall::text::{
    byte_count, clip, contains, decimal_of, file_name, join_path, lines, lt, parse_number,
    starts_with, trim, words,
};

fn owned(text: &[&str]) -> Vec<String> {
    text.iter().map(|word| (*word).to_owned()).collect()
}

#[test]
fn quoted_words_are_read_back() {
    let command = owned(&["a b", "c'd", "", "e;f"]);
    let joined = join(&command).expect("no word holds a zero byte");
    assert_eq!(split(&joined), Some(command));
    assert_eq!(join(&owned(&["a b", "c"])), Ok("'a b' c".to_owned()));
    assert_eq!(join(&owned(&["a\0b"])), Err(QuotingError::Nul));
    assert_eq!(split("a 'b"), None);
    assert_eq!(split("a \"b c\" # d"), Some(owned(&["a", "b c"])));
}

#[test]
fn documents_are_read_one_level_at_a_time() {
    assert_eq!(text_of("\"a\\nb\""), Some("a\nb".to_owned()));
    assert_eq!(text_of("7"), None);
    assert_eq!(
        items_of("[1, \"two\", {\"a\": []}]"),
        Some(owned(&["1", "\"two\"", "{\"a\":[]}"]))
    );
    assert_eq!(items_of("{}"), None);
    let fields = fields_of("{\"b\": \"x\", \"a\": 1}").expect("an object");
    assert_eq!(text_field(&fields, "b"), Some("x".to_owned()));
    assert_eq!(text_field(&fields, "a"), None);
    assert_eq!(text_in("{\"title\":\"T\"}", "title"), Some("T".to_owned()));
    assert_eq!(text_in("not json", "title"), None);
}

#[test]
fn columns_take_the_width_of_their_widest_cell() {
    let table = render_table(
        &vec![Fit::Widest, Fit::Right(4), Fit::Ragged],
        &owned(&["NAME", "N", "REST"]),
        &vec![owned(&["longer", "7", "x"]), owned(&["a", "12345", "y z"])],
    );
    assert_eq!(
        table,
        [
            "NAME       N  REST",
            "longer     7  x",
            "a       12345  y z"
        ]
    );
}

#[test]
fn sets_and_maps_hold_a_key_once() {
    let mut set = StringSet::new();
    set.insert("a".to_owned());
    set.insert("a".to_owned());
    set.insert("b".to_owned());
    assert_eq!(set.len(), 2);
    assert!(set.remove("a"));
    assert!(!set.remove("a"));
    assert_eq!(set.members(), owned(&["b"]));
    set.clear();
    assert!(set.is_empty());

    let mut map = StringMap::new();
    map.insert("a".to_owned(), 1);
    map.insert("a".to_owned(), 2);
    assert_eq!(map.len(), 1);
    assert_eq!(map.get("a"), Some(&2));
    map.remove("a");
    assert!(map.is_empty());
    assert_eq!(map.get("a"), None);
}

#[test]
fn text_is_cut_and_compared_by_characters() {
    assert_eq!(trim("\u{2003} a b\n"), "a b");
    assert_eq!(words(" a\tb  c "), owned(&["a", "b", "c"]));
    assert_eq!(lines("a\r\nb\n\nc"), owned(&["a", "b", "", "c"]));
    assert_eq!(clip("你好世界", 2), "你好…");
    assert_eq!(clip("你好", 2), "你好");
    assert_eq!(byte_count("aé你😀"), 10);
    assert!(contains("rollcall", "llca"));
    assert!(starts_with("rollcall", "roll"));
    assert!(lt("a", "b") && !lt("b", "a") && lt("a", "aa"));
}

#[test]
fn numbers_are_read_and_written_in_decimal() {
    assert_eq!(decimal_of(0), "0");
    assert_eq!(decimal_of(u64::MAX), "18446744073709551615");
    assert_eq!(parse_number("65535", 65_535), Some(65_535));
    assert_eq!(parse_number("65536", 65_535), None);
    assert_eq!(parse_number("", 9), None);
    assert_eq!(parse_number("1a", 99), None);
}

#[test]
fn paths_are_joined_and_named() {
    assert_eq!(join_path("/a", "b"), "/a/b");
    assert_eq!(join_path("/a/", "b"), "/a/b");
    assert_eq!(join_path("/a", "/b"), "/b");
    assert_eq!(file_name("/a/b/"), Some("b".to_owned()));
    assert_eq!(file_name("/"), None);
}
