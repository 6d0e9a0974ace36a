use sedol::{calc_check_digit, clean, validate, SedolError};

#[test]
fn round_trip_on_success() {
    for s in ["B15KXQ8", "5954135", "BD9MZZ7", "0123457"] {
        assert_eq!(s, validate(s).unwrap());
    }
}

#[test]
fn validate_is_deterministic() {
    for s in ["B15KXQ8", "A15KXQ8", "015KXQ8", "B15KXQ7", "", "seven!!"] {
        assert_eq!(validate(s), validate(s));
    }
}

#[test]
fn calc_check_digit_is_deterministic() {
    for s in ["BD9MZZ", "B15KXQ", "595413", "000000", "ZZZZZZ"] {
        assert_eq!(calc_check_digit(s), calc_check_digit(s));
    }
}

#[test]
fn check_digit_is_a_decimal_digit() {
    for s in ["BD9MZZ", "B15KXQ", "595413", "000000", "ZZZZZZ", "9Z9Z9Z"] {
        assert!(calc_check_digit(s).is_ascii_digit());
    }
}

#[test]
fn calc_check_digit_concrete() {
    assert_eq!('7', calc_check_digit("BD9MZZ"));
    assert_eq!('8', calc_check_digit("B15KXQ"));
}

#[test]
fn character_error_precedes_length_error() {
    // Both a vowel and a wrong length: the character rule decides.
    assert_eq!(
        Err(SedolError::InvalidCharacter { character: 'A' }),
        validate("A15KXQ89")
    );
    assert_eq!(
        Err(SedolError::InvalidCharacter { character: '-' }),
        validate("B1-5")
    );
}

#[test]
fn first_offending_character_is_reported() {
    assert_eq!(
        Err(SedolError::InvalidCharacter { character: '*' }),
        validate("B1*KA08")
    );
}

#[test]
fn clean_is_idempotent() {
    for s in ["BD-9MZ-Z7??!!  ", " a b c ", "", "1234567", "&&&"] {
        assert_eq!(clean(&clean(s)), clean(s));
    }
}

#[test]
fn clean_keeps_letters_and_digits_in_order() {
    assert_eq!("BD9MZZ7", clean("BD-9MZ-Z7??!!  "));
    assert_eq!("", clean("?! .,\u{e9}"));
}

#[test]
fn clean_preserves_case() {
    assert_eq!("bd9mzZ7", clean(" bd-9mz-Z7 "));
}

#[test]
fn lowercase_is_rejected() {
    assert_eq!(
        Err(SedolError::InvalidCharacter { character: 'b' }),
        validate("b15KXQ8")
    );
}

#[test]
fn empty_input_has_invalid_length() {
    assert_eq!(Err(SedolError::InvalidLength), validate(""));
}

#[test]
fn too_long_input_has_invalid_length() {
    assert_eq!(Err(SedolError::InvalidLength), validate("B15KXQ88"));
}

#[test]
fn all_digit_legacy_sedol_with_wrong_check_digit() {
    assert_eq!(
        Err(SedolError::InvalidCheckDigit {
            got_check_digit: '6',
            calc_check_digit: '7'
        }),
        validate("0123456")
    );
}

#[test]
fn invalid_character_message_carries_the_character() {
    assert_eq!(
        "invalid character a",
        SedolError::InvalidCharacter { character: 'a' }.message()
    );
}
