use guessing_utils::err::GuessParseError;
use guessing_utils::gen_random;
use guessing_utils::Guess;
use std::cmp::Ordering;

#[test]
fn eq_test() {
    let guess1 = Guess::new(13).unwrap();
    let guess2 = Guess::new(13).unwrap();

    assert_eq!(guess1, guess2);
}

#[test]
fn cmp_test() {
    let guess1 = Guess::new(50).unwrap();
    let guess2 = Guess::new(13).unwrap();

    assert_eq!(guess1.cmp(&guess2), Ordering::Greater);
}

#[test]
fn parse_test() {
    match Guess::parse("16") {
        Ok(_) => (),
        Err(err) => panic!("Should had no errors, got: {}", err.message()),
    }

    match Guess::parse("val") {
        Ok(_) => panic!("Should have panicked but didn't."),
        Err(_) => (),
    }
}

#[test]
fn eq_differs_for_different_values() {
    let guess1 = Guess::new(13).unwrap();
    let guess2 = Guess::new(14).unwrap();

    assert_ne!(guess1, guess2);
}

#[test]
fn cmp_equal_values() {
    let guess1 = Guess::new(50).unwrap();
    let guess2 = Guess::new(50).unwrap();

    assert_eq!(guess1.cmp(&guess2), Ordering::Equal);
}

#[test]
fn new_accepts_bounds() {
    let low = Guess::new(0).unwrap();
    let high = Guess::new(100).unwrap();

    assert_eq!(*low.value(), 0);
    assert_eq!(*high.value(), 100);
}

#[test]
fn new_rejects_above_range() {
    assert!(Guess::new(101).is_err());
}

#[test]
fn new_rejects_below_range() {
    assert!(Guess::new(-1).is_err());
}

#[test]
fn value_returns_stored_integer() {
    let guess = Guess::new(15).unwrap();

    assert_eq!(*guess.value(), 15);
}

#[test]
fn parse_returns_parsed_value() {
    let guess = Guess::parse("16").unwrap();

    assert_eq!(*guess.value(), 16);
}

#[test]
fn parse_trims_whitespace() {
    let guess = Guess::parse("  16 \t\n").unwrap();

    assert_eq!(*guess.value(), 16);
}

#[test]
fn parse_accepts_plus_sign() {
    let guess = Guess::parse("+16").unwrap();

    assert_eq!(*guess.value(), 16);
}

#[test]
fn parse_accepts_zero() {
    let guess = Guess::parse("0").unwrap();

    assert_eq!(*guess.value(), 0);
}

#[test]
fn parse_rejects_empty_input() {
    let err = Guess::parse("").unwrap_err();

    assert!(matches!(err, GuessParseError::Lexical));
}

#[test]
fn parse_rejects_spaces_only() {
    let err = Guess::parse("   ").unwrap_err();

    assert!(matches!(err, GuessParseError::Lexical));
}

#[test]
fn parse_rejects_decimal_fraction() {
    let err = Guess::parse("12.5").unwrap_err();

    assert!(matches!(err, GuessParseError::Lexical));
}

#[test]
fn parse_rejects_lone_sign() {
    let err = Guess::parse("-").unwrap_err();

    assert!(matches!(err, GuessParseError::Lexical));
}

#[test]
fn parse_range_failure_is_distinguishable() {
    let err = Guess::parse("101").unwrap_err();

    assert!(matches!(err, GuessParseError::Range(_)));
}

#[test]
fn parse_negative_value_is_range_failure() {
    let err = Guess::parse("-5").unwrap_err();

    assert!(matches!(err, GuessParseError::Range(_)));
}

#[test]
fn parse_smallest_machine_integer_is_range_failure() {
    let err = Guess::parse("-2147483648").unwrap_err();

    assert!(matches!(err, GuessParseError::Range(_)));
}

#[test]
fn parse_overflow_is_lexical_failure() {
    let err = Guess::parse("2147483648").unwrap_err();

    assert!(matches!(err, GuessParseError::Lexical));
}

#[test]
fn parse_huge_literal_is_lexical_failure() {
    let err = Guess::parse("99999999999999999999").unwrap_err();

    assert!(matches!(err, GuessParseError::Lexical));
}

#[test]
fn range_error_message_text() {
    let err = Guess::new(101).unwrap_err();

    assert_eq!(err.message(), "The guess value was out of 0-100 range");
}

#[test]
fn parse_error_messages_differ_by_kind() {
    let lexical = Guess::parse("val").unwrap_err();
    let range = Guess::parse("101").unwrap_err();

    assert_eq!(
        lexical.message(),
        "The input could not be parsed as an integer"
    );
    assert_eq!(range.message(), "The guess value was out of 0-100 range");
}

#[test]
fn gen_random_always_in_range() {
    let mut i = 0;
    while i < 10000 {
        let guess = gen_random();
        let v = *guess.value();
        assert!((0..=100).contains(&v));
        i += 1;
    }
}

#[test]
fn random_guess_compares_with_made_guess() {
    let random_guess = gen_random();
    let my_guess = Guess::new(50).unwrap();

    match random_guess.cmp(&my_guess) {
        Ordering::Less | Ordering::Equal | Ordering::Greater => (),
    }
}
