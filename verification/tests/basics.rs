//! Text, order and pieces.

use metanode::chunks::{batch_last, chunk_ranges};
use metanode::clock::{deadline, since, Clock};
use metanode::deps::hash_bytes;
use metanode::lex::{lex_relate, LexRelation};
use metanode::sorting::sorted_order;
use metanode::text::{chars_of, decimal_string, find, parse_number, split, string_of, trim};

fn number(text: &str, max: u64) -> Option<u64> {
    parse_number(&chars_of(text), max)
}

#[test]
fn numbers_and_texts() {
    for n in [0, 9, 10, 12345, u64::MAX] {
        assert_eq!(decimal_string(n), n.to_string());
        assert_eq!(number(&n.to_string(), u64::MAX), Some(n));
    }
    assert_eq!(number("18446744073709551616", u64::MAX), None);
    assert_eq!(number("256", 255), None);
    assert_eq!(number("+7", u64::MAX), "+7".parse::<u64>().ok());
    assert_eq!(number("", u64::MAX), None);
    assert_eq!(number("+", u64::MAX), None);
    assert_eq!(number("-1", u64::MAX), None);
    assert_eq!(number("1 ", u64::MAX), None);
    assert_eq!(number("007", u64::MAX), Some(7));
}

#[test]
fn searching_splitting_and_trimming() {
    let text = chars_of("abcabc");
    assert_eq!(find(&text, &chars_of("ca")), Some(2));
    assert_eq!(find(&text, &chars_of("bc")), Some(1));
    assert_eq!(find(&text, &chars_of("")), Some(0));
    assert_eq!(find(&text, &chars_of("abcabca")), None);
    let pieces: Vec<String> = split(&chars_of("a,,b,"), ',')
        .iter()
        .map(|p| string_of(p))
        .collect();
    assert_eq!(pieces, vec!["a", "", "b", ""]);
    assert_eq!(string_of(trim(&chars_of(" \t a b\r\n"))), "a b");
    assert_eq!(string_of(trim(&chars_of("  "))), "");
    assert_eq!(string_of(trim(&chars_of("\u{3000}x\u{00A0}"))), "x");
}

#[test]
fn lexicographic_order() {
    assert_eq!(lex_relate(b"a", b"b"), LexRelation::Before);
    assert_eq!(lex_relate(b"b", b"ab"), LexRelation::After);
    assert_eq!(lex_relate(b"ab", b"ab"), LexRelation::Same);
    assert_eq!(lex_relate(b"", b"a"), LexRelation::Before);
    let list: Vec<&[u8]> = vec![b"c", b"a", b"b", b"a"];
    assert_eq!(sorted_order(&list), vec![1, 3, 2, 0]);
}

#[test]
fn pieces() {
    assert_eq!(chunk_ranges(7, 3), vec![(0, 3), (3, 6), (6, 7)]);
    assert_eq!(chunk_ranges(6, 3), vec![(0, 3), (3, 6)]);
    assert_eq!(batch_last(10, 30, 5), 14);
    assert_eq!(batch_last(10, 12, 5), 12);
    assert_eq!(batch_last(u64::MAX - 1, u64::MAX, 5), u64::MAX);
}

#[test]
fn time() {
    assert_eq!(deadline(3, 4), 7);
    assert_eq!(deadline(u128::MAX, 1), u128::MAX);
    assert_eq!(since(7, 3), 4);
    assert_eq!(since(3, 7), 0);
    let clock = Clock::start();
    let a = clock.now();
    let b = clock.now();
    assert!(a <= b);
    assert!(b < 20_000_000_000);
}

#[test]
fn digest() {
    let digest = hash_bytes(&b"abc".to_vec());
    assert_eq!(digest[0], 0xba);
    assert_eq!(digest[31], 0xad);
}
