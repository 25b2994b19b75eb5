use one_hash::types::{format_word, string_to_word, word_to_decimal, word_to_string, Symbol};

#[test]
fn test_symbol_to_char() {
    assert_eq!(Symbol::One.to_char(), '1');
    assert_eq!(Symbol::Hash.to_char(), '#');
}

#[test]
fn test_word_to_string() {
    let word = vec![Symbol::One, Symbol::Hash, Symbol::One];
    assert_eq!(word_to_string(&word), "1#1");
}

#[test]
fn test_word_to_decimal() {
    // Empty = 0
    assert_eq!(word_to_decimal(&vec![]), Some(0));
    // 1 = 1
    assert_eq!(word_to_decimal(&vec![Symbol::One]), Some(1));
    // #1 = 10 binary = 2
    assert_eq!(word_to_decimal(&vec![Symbol::Hash, Symbol::One]), Some(2));
    // 11 = 11 binary = 3
    assert_eq!(word_to_decimal(&vec![Symbol::One, Symbol::One]), Some(3));
    // #11 = 110 binary = 6
    assert_eq!(
        word_to_decimal(&vec![Symbol::Hash, Symbol::One, Symbol::One]),
        Some(6)
    );
}

#[test]
fn test_string_to_word() {
    let word = string_to_word("1#1");
    assert_eq!(word.len(), 3);
    assert_eq!(word[0], Symbol::One);
    assert_eq!(word[1], Symbol::Hash);
    assert_eq!(word[2], Symbol::One);
}

#[test]
fn readme_backwards_binary_table() {
    let cases = [("", 0u128), ("1", 1), ("#1", 2), ("11", 3), ("##1", 4), ("1#1", 5), ("#11", 6)];
    for (text, value) in cases {
        assert_eq!(word_to_decimal(&string_to_word(text)), Some(value));
    }
}

#[test]
fn word_to_decimal_limits() {
    let ones = vec![Symbol::One; 128];
    assert_eq!(word_to_decimal(&ones), Some(u128::MAX));
    let mut high = vec![Symbol::Hash; 127];
    high.push(Symbol::One);
    assert_eq!(word_to_decimal(&high), Some(1u128 << 127));
    let long = vec![Symbol::Hash; 129];
    assert_eq!(word_to_decimal(&long), None);
}

#[test]
fn format_word_cases() {
    assert_eq!(format_word(&vec![]), "(empty) = 0");
    assert_eq!(format_word(&string_to_word("###1111")), "###1111 = 120");
    assert_eq!(format_word(&string_to_word("1#")), "1# = 1");
    assert_eq!(format_word(&vec![Symbol::One; 129]), format!("{} = (overflow)", "1".repeat(129)));
}

#[test]
fn string_to_word_drops_other_characters() {
    let word = string_to_word("1 x#\n1é");
    assert_eq!(word_to_string(&word), "1#1");
}

#[test]
fn word_string_roundtrip() {
    let word = vec![Symbol::Hash, Symbol::One, Symbol::One, Symbol::Hash];
    assert_eq!(string_to_word(&word_to_string(&word)), word);
}
