use std::path::Path;

use drv::assoc::{find, holds, set_row, take_row, value};
use drv::names::Names;
use drv::order::{order_of, sorted_texts, text_order};
use drv::table::Table;
use drv::text::{
    chars_of, find_part, join, join_path, lines_of, number, number_int, plain_relative,
    read_unsigned, split, split_once, string_of, strip_front, trim, words_of,
};
use drv::utf8::{clip_to, utf8_len};

fn texts(list: &[&str]) -> Vec<String> {
    list.iter().map(|s| s.to_string()).collect()
}

fn shown(list: Vec<Vec<char>>) -> Vec<String> {
    list.into_iter().map(|c| c.into_iter().collect()).collect()
}

#[test]
fn numbers_read_back() {
    for n in [0, 7, 10, 4294967295, u64::MAX] {
        assert_eq!(number(n), n.to_string());
        assert_eq!(read_unsigned(&chars_of(&number(n)), u64::MAX), Some(n));
    }
    assert_eq!(number_int(-1080), "-1080");
    assert_eq!(number_int(i64::MIN), i64::MIN.to_string());
    for s in ["", "+", "-1", "1x", "18446744073709551616"] {
        assert_eq!(read_unsigned(&chars_of(s), u64::MAX), None, "{s}");
    }
    assert_eq!(read_unsigned(&chars_of("+0256"), 255), None);
    assert_eq!(read_unsigned(&chars_of("+0255"), 255), Some(255));
}

#[test]
fn texts_come_apart_and_together() {
    let list = texts(&["a", "", "b"]);
    assert_eq!(join(&list, ":"), "a::b");
    assert_eq!(shown(split(&chars_of("a::b"), ':')), list);
    assert_eq!(shown(lines_of(&chars_of("a\r\nb\n\nc"))), texts(&["a", "b", "", "c"]));
    assert_eq!(shown(lines_of(&chars_of("a\n"))), texts(&["a"]));
    assert_eq!(shown(words_of(&chars_of(" a\t b\n"))), texts(&["a", "b"]));
    let (a, b) = split_once(&chars_of("k=v=w"), '=').unwrap();
    assert_eq!((string_of(&a, 0, a.len()), string_of(&b, 0, b.len())), ("k".to_owned(), "v=w".to_owned()));
    assert!(split_once(&chars_of("kv"), '=').is_none());
    assert_eq!(trim(&chars_of(" \u{a0}a b\n")), chars_of("a b"));
    assert!(find_part(&chars_of("abc"), &chars_of("bc")));
    assert!(!find_part(&chars_of("abc"), &chars_of("ac")));
    assert_eq!(strip_front(&chars_of("abc"), "ab"), Some(vec!['c']));
    assert_eq!(strip_front(&chars_of("abc"), "b"), None);
}

#[test]
fn paths_join_as_std_does() {
    for (a, b) in [("/a", "b"), ("/a/", "b"), ("", "b"), ("/a", "/b"), ("/a", "")] {
        assert_eq!(join_path(a, b), Path::new(a).join(b).to_string_lossy(), "{a} {b}");
    }
    for (p, plain) in [("a/b", true), ("/a", false), ("../a", false), ("a/../b", false), ("./a", false), ("a/./b", true)] {
        assert_eq!(plain_relative(p), plain, "{p}");
    }
}

#[test]
fn text_is_cut_between_characters() {
    assert_eq!(utf8_len("a\u{e9}\u{20ac}\u{1f600}"), 10);
    assert_eq!(clip_to("a\u{e9}b", 2), "a");
    assert_eq!(clip_to("a\u{e9}b", 3), "a\u{e9}");
    assert_eq!(clip_to("ab", 5), "ab");
}

#[test]
fn texts_are_put_in_order() {
    let list = texts(&["b", "a", "", "b", "ab"]);
    assert_eq!(sorted_texts(&list), texts(&["", "a", "ab", "b", "b"]));
    assert_eq!(text_order(&list), vec![2, 1, 4, 0, 3]);
    let keys = vec![(1u8, vec!['a']), (0, vec!['z']), (1, vec!['a'])];
    assert_eq!(order_of(&keys), vec![1, 0, 2]);
}

#[test]
fn rows_are_put_and_taken() {
    let mut table: Table<u32> = Table::new();
    table.insert(5, 1);
    table.insert(6, 2);
    table.insert(5, 3);
    assert_eq!(table.get(5), Some(&3));
    assert!(table.contains(6) && !table.contains(7));
    assert_eq!(table.remove(5), Some(3));
    assert_eq!(table.remove(5), None);
    let mut names: Names<u32> = Names::new();
    names.insert("a".to_owned(), 1);
    names.insert("a".to_owned(), 2);
    assert_eq!(names.get("a"), Some(&2));
    assert_eq!(names.remove("a"), Some(2));
    assert!(!names.contains("a"));
    let mut rows: Vec<(u64, Vec<u32>)> = Vec::new();
    set_row(&mut rows, 1, vec![7]);
    set_row(&mut rows, 2, vec![8]);
    set_row(&mut rows, 1, vec![9]);
    assert_eq!(rows, vec![(1, vec![9]), (2, vec![8])]);
    assert_eq!(value(&rows, &1), Some(&vec![9]));
    assert_eq!(find(&rows, &3), 2);
    assert_eq!(take_row(&mut rows, &1), Some(vec![9]));
    assert!(!holds(&rows, &1));
}
