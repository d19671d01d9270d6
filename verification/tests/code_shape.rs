use meet_url::code::{is_code, is_lowercase, validate_code, CodeError, CODE_LEN, DASH};

#[test]
fn accepts_well_formed_code() {
    assert_eq!(validate_code("abc-defg-hij"), Ok(()));
    assert!(is_code(b"abc-defg-hij"));
}

#[test]
fn rejects_uppercase() {
    assert_eq!(validate_code("ABC-defg-hij"), Err(CodeError::InvalidCodeShape));
    assert_eq!(validate_code("abc-defG-hij"), Err(CodeError::InvalidCodeShape));
}

#[test]
fn rejects_wrong_length() {
    assert_eq!(validate_code("abcdefg-hij"), Err(CodeError::InvalidCodeShape));
    assert_eq!(validate_code(""), Err(CodeError::InvalidCodeShape));
    assert_eq!(validate_code("abc-defg-hijk"), Err(CodeError::InvalidCodeShape));
    assert_eq!(validate_code("abc-defg-hi"), Err(CodeError::InvalidCodeShape));
}

#[test]
fn rejects_wrong_separators() {
    assert_eq!(validate_code("abc.defg.hij"), Err(CodeError::InvalidCodeShape));
    assert_eq!(validate_code("abc-defg.hij"), Err(CodeError::InvalidCodeShape));
    assert_eq!(validate_code("abc.defg-hij"), Err(CodeError::InvalidCodeShape));
    assert_eq!(validate_code("abcd-efg-hij"), Err(CodeError::InvalidCodeShape));
    assert_eq!(validate_code("abcadefgahij"), Err(CodeError::InvalidCodeShape));
}

#[test]
fn rejects_digit() {
    assert_eq!(validate_code("abc-defg-hi9"), Err(CodeError::InvalidCodeShape));
    assert_eq!(validate_code("0bc-defg-hij"), Err(CodeError::InvalidCodeShape));
}

#[test]
fn rejects_dash_in_letter_position() {
    assert_eq!(validate_code("ab--defg-hij"), Err(CodeError::InvalidCodeShape));
    assert_eq!(validate_code("------------"), Err(CodeError::InvalidCodeShape));
}

#[test]
fn does_not_trim_or_fold() {
    assert_eq!(validate_code(" abc-defg-hij"), Err(CodeError::InvalidCodeShape));
    assert_eq!(validate_code("abc-defg-hij "), Err(CodeError::InvalidCodeShape));
    assert_eq!(validate_code("abc-defg-hi\n"), Err(CodeError::InvalidCodeShape));
    assert_eq!(validate_code("Abc-Defg-Hij"), Err(CodeError::InvalidCodeShape));
}

#[test]
fn rejects_non_ascii_of_twelve_bytes() {
    // Eleven characters, twelve bytes.
    let text = "abc-d\u{e9}fg-hi";
    assert_eq!(text.len(), 12);
    assert_eq!(validate_code(text), Err(CodeError::InvalidCodeShape));
    // Twelve characters, more than twelve bytes.
    let text = "abc-d\u{e9}fg-hij";
    assert_eq!(text.chars().count(), 12);
    assert_eq!(validate_code(text), Err(CodeError::InvalidCodeShape));
}

#[test]
fn accepts_the_ends_of_the_alphabet() {
    assert_eq!(validate_code("aaa-aaaa-aaa"), Ok(()));
    assert_eq!(validate_code("zzz-zzzz-zzz"), Ok(()));
    // The neighbours of `a` and `z` among the bytes.
    assert_eq!(validate_code("`aa-aaaa-aaa"), Err(CodeError::InvalidCodeShape));
    assert_eq!(validate_code("zzz-zzzz-zz{"), Err(CodeError::InvalidCodeShape));
}

#[test]
fn every_position_is_checked() {
    let good = b"abc-defg-hij";
    for i in 0..good.len() {
        let mut bytes = good.to_vec();
        bytes[i] = b'A';
        assert!(!is_code(&bytes), "position {}", i);
    }
}

#[test]
fn byte_slices_of_other_lengths_are_no_codes() {
    assert!(!is_code(b""));
    assert!(!is_code(b"abc-defg-hi"));
    assert!(!is_code(b"abc-defg-hijk"));
}

#[test]
fn lowercase_letters_are_a_to_z() {
    for b in 0..=255u8 {
        assert_eq!(is_lowercase(b), b.is_ascii_lowercase());
    }
}

#[test]
fn constants_of_the_shape() {
    assert_eq!(CODE_LEN, 12);
    assert_eq!(DASH, b'-');
}

#[test]
fn error_message_is_fixed() {
    assert_eq!(CodeError::InvalidCodeShape.message(), "invalid code");
}
