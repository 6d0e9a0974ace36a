use sedol::{clean, validate, SedolError};

#[test]
fn invalid_character() {
    assert_eq!(
        Err(SedolError::InvalidCharacter { character: 'A' }),
        validate("A15KXQ8")
    );
}

#[test]
fn valid() {
    assert_eq!("B15KXQ8", validate("B15KXQ8").unwrap());
}

#[test]
fn valid_two() {
    assert_eq!("5954135", validate("5954135").unwrap());
}

#[test]
fn invalid_new_format() {
    assert_eq!(Err(SedolError::InvalidOldFormat), validate("015KXQ8"));
}

#[test]
fn invalid_checkdigit() {
    assert_eq!(
        Err(SedolError::InvalidCheckDigit {
            got_check_digit: '7',
            calc_check_digit: '8'
        }),
        validate("B15KXQ7")
    );
}

#[test]
fn clean_and_validate() {
    // Common UK DMO format with group separators.
    assert_eq!("BD9MZZ7", validate(&clean("BD-9MZ-Z7")).unwrap());
}

#[test]
fn clean_and_validate_two() {
    assert_eq!("BD9MZZ7", validate(&clean("BD-9MZ-Z7??!!  ")).unwrap());
}

#[test]
fn clean_and_validate_mismatch() {
    assert_eq!(
        Err(SedolError::InvalidCheckDigit {
            got_check_digit: '6',
            calc_check_digit: '7'
        }),
        validate(&clean("BD-9MZ-Z6??!!  "))
    );
}

#[test]
fn test_error_format() {
    let invalid_sedol_string = "BD9MZZ6";
    match validate(invalid_sedol_string) {
        Err(e) => assert_eq!("invalid check digit 6, expected 7", e.message()),
        _ => panic!(),
    }
}

#[test]
fn test_error_format_invalid_old() {
    let invalid_sedol_string = "0D9MZZ6";
    match validate(invalid_sedol_string) {
        Err(e) => assert_eq!(
            "invalid format, expected all digits when first char is digit",
            e.message()
        ),
        _ => panic!(),
    }
}

#[test]
fn test_error_format_invalid_length() {
    let invalid_sedol_string = "0D9MZZ";
    match validate(invalid_sedol_string) {
        Err(e) => assert_eq!("invalid length, expected 7", e.message()),
        _ => panic!(),
    }
}

#[test]
fn test_error_format_invalid_char() {
    let invalid_sedol_string = "!D9MZZ";
    match validate(invalid_sedol_string) {
        Err(e) => assert_eq!("invalid character !", e.message()),
        _ => panic!(),
    }
}
