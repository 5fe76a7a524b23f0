use monkey::text::{alphanumeric, digit, letter, numeral, push_decimal, same_text, space, CharClass};

#[test]
fn space_is_one_of_four_characters() {
    assert!(space(' '));
    assert!(space('\t'));
    assert!(space('\n'));
    assert!(space('\r'));
    assert!(!space('\u{b}'));
    assert!(!space('\u{c}'));
    assert!(!space('\u{a0}'));
    assert!(!space('\u{2003}'));
    assert!(!space('a'));
    assert!(!space('\0'));
}

#[test]
fn letters_and_digits_are_ascii() {
    for c in ['a', 'm', 'z', 'A', 'M', 'Z'] {
        assert!(letter(c));
        assert!(alphanumeric(c));
        assert!(!digit(c));
        assert!(!numeral(c));
    }
    for c in ['0', '5', '9'] {
        assert!(digit(c));
        assert!(alphanumeric(c));
        assert!(numeral(c));
        assert!(!letter(c));
    }
    for c in ['`', '{', '@', '[', '/', ':', 'é', 'ß', 'λ', '٣', '\u{ff11}'] {
        assert!(!letter(c));
        assert!(!digit(c));
        assert!(!alphanumeric(c));
        assert!(!numeral(c));
    }
    assert!(numeral('_'));
    assert!(!alphanumeric('_'));
}

#[test]
fn classes_agree_with_std_on_every_ascii_character() {
    for b in 0u8..=127 {
        let c = b as char;
        assert_eq!(letter(c), c.is_ascii_alphabetic());
        assert_eq!(digit(c), c.is_ascii_digit());
        assert_eq!(alphanumeric(c), c.is_ascii_alphanumeric());
        assert_eq!(numeral(c), c.is_ascii_digit() || c == '_');
        assert_eq!(space(c), matches!(c, ' ' | '\t' | '\n' | '\r'));
    }
}

#[test]
fn char_class_contains_its_characters() {
    assert!(CharClass::Space.contains(' '));
    assert!(!CharClass::Space.contains('x'));
    assert!(CharClass::Word.contains('x'));
    assert!(CharClass::Word.contains('7'));
    assert!(!CharClass::Word.contains('_'));
    assert!(CharClass::Numeral.contains('_'));
    assert!(CharClass::Numeral.contains('7'));
    assert!(!CharClass::Numeral.contains('x'));
}

#[test]
fn same_text_compares_characters() {
    assert!(same_text("", ""));
    assert!(same_text("let", "let"));
    assert!(!same_text("let", "le"));
    assert!(!same_text("le", "let"));
    assert!(!same_text("let", "lit"));
    assert!(!same_text("let", "Let"));
    assert!(same_text("héllo", "héllo"));
    assert!(!same_text("héllo", "hèllo"));
    assert!(!same_text("", " "));
}

#[test]
fn push_decimal_appends_the_numeral() {
    let mut s = String::new();
    push_decimal(&mut s, 0);
    assert_eq!(s, "0");
    push_decimal(&mut s, 7);
    assert_eq!(s, "07");
    push_decimal(&mut s, 10);
    assert_eq!(s, "0710");
    let mut t = String::from("at ");
    push_decimal(&mut t, 1234567890);
    assert_eq!(t, "at 1234567890");
    let mut u = String::new();
    push_decimal(&mut u, usize::MAX);
    assert_eq!(u, usize::MAX.to_string());
    let mut v = String::new();
    push_decimal(&mut v, 100);
    assert_eq!(v, "100");
}
