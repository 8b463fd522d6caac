use monkey::private_key::{parse_private_key, PrivateKeyError, PRIVATE_KEY_BYTES};

fn key_text(bytes: &[u8]) -> String {
    bytes.iter().map(|b| b.to_string()).collect::<Vec<_>>().join(",")
}

#[test]
fn parses_thirty_two_comma_separated_bytes() {
    let bytes: Vec<u8> = (0..32u8).map(|i| i * 8).collect();
    let key = parse_private_key(&key_text(&bytes)).unwrap();
    assert_eq!(key.to_vec(), bytes);
}

#[test]
fn ignores_brackets_spaces_and_letters() {
    let bytes: Vec<u8> = (0..32u8).map(|i| 255 - i).collect();
    let text = format!("[ {} ] x", bytes.iter().map(|b| b.to_string()).collect::<Vec<_>>().join(", "));
    assert_eq!(parse_private_key(&text).unwrap().to_vec(), bytes);
}

#[test]
fn accepts_leading_zeros() {
    let mut text = String::from("007,0255");
    for _ in 0..30 {
        text.push_str(",0");
    }
    let key = parse_private_key(&text).unwrap();
    assert_eq!(key[0], 7);
    assert_eq!(key[1], 255);
    assert_eq!(key[31], 0);
}

#[test]
fn rejects_numbers_above_255() {
    let mut bytes = vec![1u16; 32];
    bytes[5] = 256;
    let text = bytes.iter().map(|b| b.to_string()).collect::<Vec<_>>().join(",");
    assert_eq!(parse_private_key(&text), Err(PrivateKeyError::InvalidNumber));
}

#[test]
fn rejects_empty_pieces() {
    assert_eq!(parse_private_key(""), Err(PrivateKeyError::InvalidNumber));
    assert_eq!(parse_private_key("1,,2"), Err(PrivateKeyError::InvalidNumber));
    assert_eq!(parse_private_key("abc"), Err(PrivateKeyError::InvalidNumber));
    let trailing = format!("{},", key_text(&[3u8; 32]));
    assert_eq!(parse_private_key(&trailing), Err(PrivateKeyError::InvalidNumber));
}

#[test]
fn rejects_wrong_number_of_bytes() {
    assert_eq!(parse_private_key("1,2,3"), Err(PrivateKeyError::WrongLength(3)));
    assert_eq!(parse_private_key(&key_text(&[9u8; 33])), Err(PrivateKeyError::WrongLength(33)));
    assert_eq!(parse_private_key("0"), Err(PrivateKeyError::WrongLength(1)));
}

#[test]
fn invalid_number_is_reported_before_length() {
    assert_eq!(parse_private_key("1,999"), Err(PrivateKeyError::InvalidNumber));
}

#[test]
fn key_length_is_thirty_two() {
    assert_eq!(PRIVATE_KEY_BYTES, 32);
}
