use mut_set_derive::text::{join_letters, to_snake_case, Letter};

#[test]
fn snake_case_splits_words_at_uppercase() {
    assert_eq!(to_snake_case("MyItem"), "my_item");
    assert_eq!(to_snake_case("HTTPServer"), "h_t_t_p_server");
}

#[test]
fn snake_case_leaves_first_character_unprefixed() {
    assert_eq!(to_snake_case("A"), "a");
    assert_eq!(to_snake_case("already_snake"), "already_snake");
    assert_eq!(to_snake_case(""), "");
}

#[test]
fn join_letters_puts_separator_before_word_openers() {
    let letters = vec![
        Letter { opens_word: true, lower: 'a' },
        Letter { opens_word: false, lower: 'b' },
        Letter { opens_word: true, lower: 'c' },
    ];
    assert_eq!(join_letters(&letters), "ab_c");
}

#[test]
fn snake_case_goes_by_unicode_case() {
    assert_eq!(to_snake_case("ÄpfelÖl"), "äpfel_öl");
    assert_eq!(to_snake_case("x1Y2"), "x1_y2");
    assert_eq!(to_snake_case("_A"), "__a");
}

#[test]
fn snake_case_takes_first_character_of_longer_lowercase_mapping() {
    assert_eq!("\u{130}".to_lowercase().chars().count(), 2);
    assert_eq!(to_snake_case("\u{130}x"), "ix");
    assert_eq!(to_snake_case("a\u{130}"), "a_i");
}

#[test]
fn join_letters_of_nothing_is_empty() {
    assert_eq!(join_letters(&vec![]), "");
    assert_eq!(join_letters(&vec![Letter { opens_word: true, lower: 'Q' }]), "Q");
}
