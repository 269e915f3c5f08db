use landingbench::codec::same_bytes;
use landingbench::table::Table;
use landingbench::text::{
    chars_of, cut_after_last, cut_before, cut_scheme, decimal, is_name_before, same_text,
    starts_with, trim,
};

#[test]
fn cutting_before_the_first_mark() {
    assert_eq!(cut_before("a|b|c", '|'), "a");
    assert_eq!(cut_before("abc", '|'), "abc");
    assert_eq!(cut_before("|abc", '|'), "");
    assert_eq!(cut_before("", '|'), "");
    assert_eq!(cut_before("é|ü", '|'), "é");
}

#[test]
fn cutting_after_the_last_mark() {
    assert_eq!(cut_after_last("a@b@c", '@'), "c");
    assert_eq!(cut_after_last("abc", '@'), "abc");
    assert_eq!(cut_after_last("abc@", '@'), "");
    assert_eq!(cut_after_last("é@ü", '@'), "ü");
}

#[test]
fn cutting_the_scheme() {
    assert_eq!(cut_scheme("https://host"), "host");
    assert_eq!(cut_scheme("a://b://c"), "b://c");
    assert_eq!(cut_scheme("://"), "");
    assert_eq!(cut_scheme(":/host"), ":/host");
    assert_eq!(cut_scheme("x"), "x");
}

#[test]
fn trimming_agrees_with_the_standard_library() {
    for text in [
        "", " ", "abc", " abc ", "\t\nabc def\r\n", "\u{a0}x\u{3000}", "\u{200b}x\u{200b}",
        "\u{85}y\u{2028}", "a b", "\u{1680}\u{205f}z\u{202f}",
    ] {
        assert_eq!(trim(text), text.trim());
    }
}

#[test]
fn white_space_is_that_of_the_standard_library() {
    for c in '\0'..='\u{ffff}' {
        let text: String = [c].iter().collect();
        assert_eq!(trim(&text).is_empty(), c.is_whitespace(), "{:?}", c);
    }
}

#[test]
fn prefixes() {
    assert!(starts_with("https://x", "https"));
    assert!(!starts_with("http://x", "https"));
    assert!(!starts_with("htt", "https"));
    assert!(starts_with("", ""));
}

#[test]
fn decimals_agree_with_formatting() {
    for n in [0, 1, 9, 10, 99, 100, 1_000_000, u64::MAX] {
        assert_eq!(decimal(n), format!("{}", n));
    }
}

#[test]
fn texts_and_bytes_are_compared() {
    assert!(same_text("ab", "ab"));
    assert!(!same_text("ab", "aB"));
    assert!(same_bytes(&[1, 2], &[1, 2]));
    assert!(!same_bytes(&[1, 2], &[1, 3]));
    assert!(!same_bytes(&[1, 2], &[1]));
    assert_eq!(chars_of("aü"), vec!['a', 'ü']);
}

#[test]
fn names_are_ordered_like_strings() {
    let names = ["", "a", "aa", "b", "Z", "é", "rpc-a", "rpc-b", "\u{10ffff}", "\u{e000}"];
    for a in names {
        for b in names {
            assert_eq!(is_name_before(a, b), a < b, "{:?} {:?}", a, b);
        }
    }
}

#[test]
fn table_replaces_removes_and_finds() {
    let mut table: Table<u32> = Table::new();
    table.insert("a".to_string(), 1);
    table.insert("b".to_string(), 2);
    table.insert("a".to_string(), 3);
    assert_eq!(table.len(), 2);
    assert_eq!(table.get(&"a".to_string()), Some(&3));
    assert_eq!(table.remove(&"a".to_string()), Some(3));
    assert_eq!(table.remove(&"a".to_string()), None);
    assert_eq!(table.get(&"b".to_string()), Some(&2));
    assert_eq!(table.len(), 1);
}
