use mosaic::paths::{extension_of, file_name_of, join, parent};
use mosaic::sorting::{order_by_time, sorted_distinct_texts};
use mosaic::tally::tally_texts;
use mosaic::text::{
    ascii_lowercase, i64_to_string, lines_of, parse_i64, parse_unsigned_exec, split_whitespace,
    trim_str, u64_to_string,
};

#[test]
fn paths_join_and_split() {
    assert_eq!(join("/data", "x.json"), "/data/x.json");
    assert_eq!(join("/data/", "x.json"), "/data/x.json");
    assert_eq!(join("", "x.json"), "x.json");
    assert_eq!(parent("/a/b/c.txt").as_deref(), Some("/a/b"));
    assert_eq!(parent("/a").as_deref(), Some("/"));
    assert_eq!(parent("b").as_deref(), Some(""));
    assert_eq!(parent("/"), None);
    assert_eq!(file_name_of("/a/b/c.txt").as_deref(), Some("c.txt"));
    assert_eq!(extension_of("/a/b/c.tar.gz").as_deref(), Some("gz"));
    assert_eq!(extension_of("/a/.hidden"), None);
}

#[test]
fn numbers_render_and_parse() {
    assert_eq!(u64_to_string(0), "0");
    assert_eq!(u64_to_string(18_446_744_073_709_551_615), "18446744073709551615");
    assert_eq!(i64_to_string(-42), "-42");
    assert_eq!(i64_to_string(i64::MIN), "-9223372036854775808");
    assert_eq!(parse_i64("-17"), Some(-17));
    assert_eq!(parse_i64("9223372036854775808"), None);
    assert_eq!(parse_unsigned_exec("+65535", 65535), Some(65535));
    assert_eq!(parse_unsigned_exec("65536", 65535), None);
    assert_eq!(parse_unsigned_exec("", 65535), None);
}

#[test]
fn text_helpers() {
    assert_eq!(trim_str("\t a b \n"), "a b");
    assert_eq!(ascii_lowercase("ÀBc"), "Àbc");
    assert_eq!(split_whitespace("  a  b\tc "), vec!["a".to_string(), "b".to_string(), "c".to_string()]);
    assert_eq!(lines_of("a\nb\n"), vec!["a".to_string(), "b".to_string(), "".to_string()]);
}

#[test]
fn sorting_and_tallies() {
    let v = vec!["b".to_string(), "a".to_string(), "b".to_string()];
    assert_eq!(sorted_distinct_texts(&v), vec!["a".to_string(), "b".to_string()]);
    let t = tally_texts(&v);
    assert_eq!(t.len(), 2);
    assert_eq!((t[0].key.as_str(), t[0].count), ("a", 1));
    assert_eq!((t[1].key.as_str(), t[1].count), ("b", 2));
    assert_eq!(order_by_time(&vec![30, 10, 30, 20]), vec![1, 3, 0, 2]);
}
