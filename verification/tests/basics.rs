//! Texts, sizes, paths, values, and tables.

use iroh_drop_core::error::SdkError;
use iroh_drop_core::json::{str_of, take_or, Json};
use iroh_drop_core::order::{arrange, comes_before};
use iroh_drop_core::path::{file_name, join_path, parent, parent_of, split, Part};
use iroh_drop_core::size::human_bytes;
use iroh_drop_core::table::Table;
use iroh_drop_core::text::{
    byte_len, join, lower, number, pad_left, pad_right, parse_unsigned, percent, replace_char,
    shorten, split_words, starts_with, take_chars, trim, wide_number,
};

#[test]
fn numbers_read_back() {
    assert_eq!(number(0), "0");
    assert_eq!(number(u64::MAX), "18446744073709551615");
    assert_eq!(wide_number(u128::MAX), u128::MAX.to_string());
    for n in [0, 7, 10, 99, 1_000_000, u64::MAX] {
        assert_eq!(parse_unsigned(&number(n), u64::MAX), Some(n));
    }
}

#[test]
fn only_digits_are_numbers() {
    assert_eq!(parse_unsigned("", 100), None);
    assert_eq!(parse_unsigned("+", 100), None);
    assert_eq!(parse_unsigned("+5", 100), Some(5));
    assert_eq!(parse_unsigned("-5", 100), None);
    assert_eq!(parse_unsigned(" 5", 100), None);
    assert_eq!(parse_unsigned("101", 100), None);
    assert_eq!(parse_unsigned("00100", 100), Some(100));
    assert_eq!(parse_unsigned("99999999999999999999999", u64::MAX), None);
}

#[test]
fn words_are_split_at_any_white_space() {
    assert_eq!(split_words("  get \t 3\u{2003}to x\n"), ["get", "3", "to", "x"]);
    assert!(split_words(" \n").is_empty());
    assert_eq!(trim("\u{a0} hi \r\n"), "hi");
    assert_eq!(lower("YeS é"), "yes é");
}

#[test]
fn columns_count_characters() {
    assert_eq!(pad_left("é", 3), "  é");
    assert_eq!(pad_right("é", 3), "é  ");
    assert_eq!(pad_right("long", 3), "long");
    assert_eq!(byte_len("é"), 2);
    assert_eq!(shorten("abcdef", 6), "abcdef");
    assert_eq!(shorten("abcdefg", 6), "abcde…");
    assert_eq!(shorten("abc", 0), "…");
    assert_eq!(take_chars("äöü", 2), "äö");
    assert_eq!(take_chars("ä", 2), "ä");
    assert_eq!(replace_char(r"a\b\c", '\\', '/'), "a/b/c");
    assert_eq!(join(&vec!["a".into(), "b".into(), "c".into()], ", "), "a, b, c");
    assert!(starts_with("prefix", "pre"));
    assert!(!starts_with("pre", "prefix"));
}

#[test]
fn percentages_round_down() {
    assert_eq!(percent(1, 3), 33);
    assert_eq!(percent(u64::MAX, 1), u64::MAX as u128 * 100);
    assert_eq!(percent(5, 5), 100);
}

#[test]
fn sizes_have_one_decimal_and_stop_at_tebibytes() {
    assert_eq!(human_bytes(1023), "1023 B");
    assert_eq!(human_bytes(1_100), "1.1 KiB");
    assert_eq!(human_bytes(1_048_575), "1024.0 KiB");
    assert_eq!(human_bytes(1_048_576), "1.0 MiB");
    assert_eq!(human_bytes(5 * 1024 * 1024 * 1024), "5.0 GiB");
    assert_eq!(human_bytes(u64::MAX), "16777216.0 TiB");
    // Halves go to the even digit, as they do for any decimal output.
    assert_eq!(human_bytes(1_280), "1.2 KiB");
    assert_eq!(human_bytes(1_408), "1.4 KiB");
}

#[test]
fn sizes_match_floating_point() {
    let mut n: u64 = 1;
    for _ in 0..2_000 {
        n = n.wrapping_mul(6_364_136_223_846_793_005).wrapping_add(1_442_695_040_888_963_407);
        for shift in [0, 8, 20, 31, 40] {
            let bytes = n >> shift;
            let units = ["B", "KiB", "MiB", "GiB", "TiB"];
            let mut value = bytes as f64;
            let mut unit = 0;
            while value >= 1024.0 && unit < units.len() - 1 {
                value /= 1024.0;
                unit += 1;
            }
            let expected = if unit == 0 {
                format!("{bytes} B")
            } else {
                format!("{value:.1} {}", units[unit])
            };
            assert_eq!(human_bytes(bytes), expected);
        }
    }
}

#[test]
fn paths_join_as_the_system_joins_them() {
    assert_eq!(join_path("a", "b"), "a/b");
    assert_eq!(join_path("a/", "b"), "a/b");
    assert_eq!(join_path("a", "/b"), "/b");
    assert_eq!(join_path("", "b"), "b");
    assert_eq!(parent("/a/b").as_deref(), Some("/a"));
    assert_eq!(parent("a").as_deref(), Some(""));
    assert_eq!(parent("/"), None);
    assert_eq!(parent(""), None);
    assert_eq!(file_name("/a/b.txt").as_deref(), Some("b.txt"));
    assert_eq!(file_name("a/.."), None);
    assert_eq!(file_name("/"), None);
    assert_eq!(parent_of("/a/b"), "/a");
    assert_eq!(parent_of("b"), "b");
}

#[test]
fn paths_fall_into_parts() {
    let parts = split("/a//./../b/");
    let shown: Vec<String> = parts
        .iter()
        .map(|p| match p {
            Part::Root => "/".to_string(),
            Part::Current => ".".to_string(),
            Part::Parent => "..".to_string(),
            Part::Name(name) => name.clone(),
        })
        .collect();
    assert_eq!(shown, ["/", "a", "..", "b"]);
    assert!(matches!(split("./a")[0], Part::Current));
    assert!(split("").is_empty());
}

#[test]
fn texts_are_in_the_order_of_their_bytes() {
    assert!(comes_before("a", "b"));
    assert!(comes_before("a", "aa"));
    assert!(!comes_before("a", "a"));
    assert!(comes_before("Z", "a"));
    assert!(comes_before("z", "é"));
    let sorted = arrange(vec!["d2".to_string(), "d10".to_string(), "d1".to_string()]);
    assert_eq!(sorted, ["d1", "d10", "d2"]);
}

#[test]
fn tables_keep_one_value_to_a_key() {
    let mut table: Table<u64> = Table::new();
    table.insert("b", 1);
    table.insert("a", 2);
    table.insert("b", 3);
    assert_eq!(table.len(), 2);
    assert_eq!(table.get("b"), Some(&3));
    assert_eq!(table.get("c"), None);
    assert_eq!(table.row(0), &("a".to_string(), 2));
    assert_eq!(table.remove("a"), Some(2));
    assert_eq!(table.remove("a"), None);
    assert!(!table.contains("a"));
}

#[test]
fn objects_hold_what_was_set() {
    let v = Json::object()
        .with("a", Json::Unsigned(1))
        .set("b", Json::text("x"))
        .set("a", Json::Bool(true));
    assert_eq!(v.flag_at("a"), Some(true));
    assert_eq!(v.number_at("a"), None);
    assert_eq!(v.text_at("b"), Some("x"));
    assert_eq!(str_of(&v, "b"), "x");
    assert_eq!(str_of(&v, "c"), "");
    assert!(matches!(take_or(&v, "c", Json::Null), Json::Null));
    assert!(v.get("c").is_none());
    assert!(Json::Null.get("a").is_none());
    assert_eq!(format!("{:?}", v.copy()), format!("{v:?}"));
}

#[test]
fn errors_say_what_they_are() {
    let said = |e: SdkError| e.message();
    assert_eq!(said(SdkError::Drop("x".into())), "x");
    assert_eq!(said(SdkError::Io("x".into())), "io error: x");
    assert_eq!(said(SdkError::Manifest("x".into())), "invalid collection manifest: x");
    assert_eq!(said(SdkError::Pick("x".into())), "x");
    assert_eq!(said(SdkError::Config("x".into())), "config error: x");
}
