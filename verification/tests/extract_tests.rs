use interprether::extract::{extract_message, ExtractError};

#[test]
fn test_empty_message() {
    let input: Vec<u8> = vec![];
    assert_eq!(extract_message(input).is_err(), true);
}

#[test]
fn test_null_message() {
    let input: Vec<u8> = vec![0u8];
    assert_eq!(extract_message(input).is_err(), true);
}

#[test]
fn test_message_with_empty_chars() {
    let input: Vec<u8> = vec![0u8, 32u8, 0u8];
    assert_eq!(extract_message(input).is_err(), true);
}

#[test]
fn test_message_with_message() {
    let input: Vec<u8> = vec![0u8, 32u8, 104u8, 101u8, 108u8, 108u8, 111u8, 33u8, 32u8, 0u8];
    assert_eq!(extract_message(input).unwrap(), "hello!");
}

#[test]
fn test_invalid_utf8_is_rejected() {
    let input: Vec<u8> = vec![0xffu8, 0xfeu8];
    assert_eq!(extract_message(input), Err(ExtractError::InvalidUtf8));
}

#[test]
fn test_whitespace_only_is_rejected() {
    let input: Vec<u8> = b" \t\r\n ".to_vec();
    assert_eq!(extract_message(input), Err(ExtractError::EmptyMessage));
}

#[test]
fn test_unicode_whitespace_only_is_rejected() {
    // a lone vertical tab
    assert_eq!(extract_message(vec![0x0bu8]), Err(ExtractError::EmptyMessage));
    // a lone no-break space (UTF-8: C2 A0)
    assert_eq!(extract_message(vec![0xc2u8, 0xa0u8]), Err(ExtractError::EmptyMessage));
}

#[test]
fn test_unicode_whitespace_is_trimmed() {
    // no-break space around "ok"
    let input: Vec<u8> = vec![0xc2, 0xa0, b'o', b'k', 0xc2, 0xa0];
    assert_eq!(extract_message(input).unwrap(), "ok");
}

#[test]
fn test_interior_nul_is_dropped() {
    let input: Vec<u8> = b"a\0b".to_vec();
    assert_eq!(extract_message(input).unwrap(), "ab");
}
