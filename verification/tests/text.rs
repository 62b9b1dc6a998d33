use mcp_vault_state::background::{stored_counter, to_i64, to_u64, validate_worker};
use mcp_vault_state::hash::{sha256_hex, sha256_tagged};
use mcp_vault_state::json::{literal, parse_strings, print_strings, reprint_strings, Json};
use mcp_vault_state::order::{page, select, sort_texts, sorted_order, SortKey};
use mcp_vault_state::text::{
    fold_term, format_decimal, format_hex, format_unsigned, is_label, is_like, join,
    normalized_terms, starts_with, text_less, trim,
};
use mcp_vault_state::{DomainError, Revision, Score, StateError};

fn texts(values: &[&str]) -> Vec<String> {
    values.iter().map(|value| value.to_string()).collect()
}

#[test]
fn digests_are_those_of_the_algorithm() {
    assert_eq!(
        sha256_hex(b"abc"),
        "ba7816bf8f01cfea414140de5dae2223b00361a396177a9cb410ff61f20015ad"
    );
    assert_eq!(
        sha256_tagged(b""),
        "sha256:e3b0c44298fc1c149afbf4c8996fb92427ae41e4649b934ca495991b7852b855"
    );
    assert_eq!(format_hex(&[0, 15, 255]), "000fff");
}

#[test]
fn documents_are_kept_in_compact_form() {
    assert_eq!(Json::parse(" { \"b\" : [1, 2.5], \"a\" : null } ").unwrap().as_str(), "{\"a\":null,\"b\":[1,2.5]}");
    assert_eq!(Json::parse("{\"a\":}"), Err(StateError::Json));
    assert_eq!(Json::parse(""), Err(StateError::Json));
}

#[test]
fn arrays_of_texts_read_back_as_printed() {
    let values = texts(&["plain", "quo\"te", "back\\slash", "line\nbreak", "漢字", ""]);
    let printed = print_strings(&values);
    assert_eq!(printed, "[\"plain\",\"quo\\\"te\",\"back\\\\slash\",\"line\\nbreak\",\"漢字\",\"\"]");
    assert_eq!(parse_strings(&printed), Ok(values.clone()));
    assert_eq!(reprint_strings(&values), Ok(values));
    assert_eq!(parse_strings("[1]"), Err(StateError::Json));
    assert_eq!(parse_strings("{}"), Err(StateError::Json));
    assert_eq!(literal("a\tb"), "\"a\\tb\"");
    assert_eq!(print_strings(&[]), "[]");
}

#[test]
fn terms_are_folded_sorted_and_deduplicated() {
    assert_eq!(fold_term("  ÄPFEL "), "äpfel");
    assert_eq!(
        normalized_terms(&texts(&["Rust", " rust ", "Ada", "", "  "])),
        texts(&["ada", "rust"])
    );
    assert_eq!(trim("\u{3000}x y\n"), "x y");
}

#[test]
fn patterns_follow_sql_like() {
    assert!(is_like("Notes/a.md", "notes/%"));
    assert!(is_like("abc", "a_c"));
    assert!(!is_like("abc", "a_"));
    assert!(is_like("", "%"));
    assert!(is_like("x%y", "x%y"));
    assert!(!is_like("ÄB", "äb"));
    assert!(starts_with("notes/a", "notes/"));
    assert!(!starts_with("note", "notes/"));
}

#[test]
fn labels_are_bounded_and_printable() {
    assert!(is_label("worker-1", 128));
    assert!(!is_label("", 128));
    assert!(!is_label("a\u{0}", 128));
    assert!(!is_label("é", 1));
    assert!(is_label("é", 2));
    assert_eq!(validate_worker("w"), Ok(()));
    assert_eq!(validate_worker("a\nb"), Err(StateError::InvalidInput("worker ID is invalid")));
}

#[test]
fn numbers_are_written_in_decimal() {
    assert_eq!(format_unsigned(0), "0");
    assert_eq!(format_unsigned(u64::MAX), "18446744073709551615");
    assert_eq!(format_decimal(i64::MIN), "-9223372036854775808");
    assert_eq!(format_decimal(42), "42");
    assert_eq!(join(&texts(&["a", "b", "c"]), ", "), "a, b, c");
}

#[test]
fn counters_fit_the_store() {
    assert_eq!(to_i64(7, "n"), Ok(7));
    assert_eq!(to_i64(u64::MAX, "n"), Err(StateError::InvalidInput("n")));
    assert_eq!(to_u64(-1, "n"), Err(StateError::InvalidInput("n")));
    assert_eq!(stored_counter(Some(3), "n"), Ok(Some(3)));
    assert_eq!(stored_counter(Some(-3), "n"), Err(StateError::InvalidInput("n")));
    assert_eq!(stored_counter(None, "n"), Ok(None));
}

#[test]
fn revisions_end_where_the_store_does() {
    assert_eq!(Revision::new(4).next(), Ok(Revision::new(5)));
    assert_eq!(Revision::from_stored(-1), Err(DomainError::RevisionOutOfRange));
    assert_eq!(Revision::new(u64::MAX).as_i64(), Err(DomainError::RevisionOutOfRange));
    assert_eq!(Revision::new(9).as_i64(), Ok(9));
}

fn key(first: i128, id: &str) -> SortKey {
    SortKey { first, second: 0, third: 0, id: id.to_owned() }
}

#[test]
fn rows_are_ordered_selected_and_paged() {
    let keys = [key(2, "a"), key(1, "b"), key(1, "a"), key(3, "z")];
    assert_eq!(sorted_order(&keys), vec![2, 1, 0, 3]);
    assert_eq!(select(&keys, &[true, false, true, true], 2), vec![2, 0]);
    assert_eq!(page(&keys, &[true; 4], true, 2, 1), vec![0, 1]);
    assert_eq!(page(&keys, &[true; 4], false, 10, 3), vec![3]);
    assert_eq!(sort_texts(&texts(&["b", "a", "B"])), texts(&["B", "a", "b"]));
    assert!(text_less("a", "aa"));
    assert!(text_less("z", "ä"));
    assert!(!text_less("a", "a"));
}

#[test]
fn scores_are_ordered_like_their_numbers() {
    let score = |value: f64| Score { bits: value.to_bits() };
    let sorted = [-1.5, -0.25, -0.0, 1e-300, 0.5, 1.0, 2.0, f64::INFINITY];
    for pair in sorted.windows(2) {
        assert!(score(pair[1]).order() >= score(pair[0]).order());
        assert!(score(pair[1]).is_at_least(score(pair[0])));
    }
    assert_eq!(score(0.0).order(), score(-0.0).order());
    assert!(score(0.0).is_unit() && score(1.0).is_unit() && score(-0.0).is_unit());
    assert!(!score(1.0000001).is_unit());
    assert!(!score(-0.1).is_unit());
    assert!(!score(f64::NAN).is_unit());
    assert!(score(f64::NAN).is_nan());
    assert!(!score(f64::NAN).is_at_least(score(0.0)));
}
