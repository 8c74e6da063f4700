use sheet_records::words::{reverse_words_fast, reverse_words_slow};

#[test]
fn test_reverse_words_slow() {
    assert_eq!(
        reverse_words_slow("Rust blazing fast 12345"),
        "Rust gnizalb fast 54321".to_string()
    )
}

#[test]
fn test_reverse_words_fast() {
    assert_eq!(
        reverse_words_fast("Rust blazing fast 12345"),
        "Rust gnizalb fast 54321".to_string()
    )
}

#[test]
fn empty_input_stays_empty() {
    assert_eq!(reverse_words_slow(""), "".to_string());
    assert_eq!(reverse_words_fast(""), "".to_string());
}

#[test]
fn extra_spaces_collapse_to_single_ones() {
    assert_eq!(reverse_words_slow("  ab   cdefg "), "ab gfedc".to_string());
    assert_eq!(reverse_words_fast("  ab   cdefg "), "ab gfedc".to_string());
}

#[test]
fn other_whitespace_separates_tokens_too() {
    assert_eq!(reverse_words_slow("\tabcde"), "edcba".to_string());
    assert_eq!(reverse_words_fast("\tabcde"), "edcba".to_string());
    assert_eq!(
        reverse_words_slow("abcde\n\tfgh\u{a0}ijklm"),
        "edcba fgh mlkji".to_string()
    );
    assert_eq!(
        reverse_words_fast("abcde\n\tfgh\u{a0}ijklm"),
        "edcba fgh mlkji".to_string()
    );
}

#[test]
fn exactly_five_characters_reverse() {
    assert_eq!(reverse_words_slow("abcde abcd"), "edcba abcd".to_string());
    assert_eq!(reverse_words_fast("abcde abcd"), "edcba abcd".to_string());
}
