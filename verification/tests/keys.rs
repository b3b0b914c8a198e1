use feather::keys::{key_position, position_key};

#[test]
fn position_keys_are_decimal() {
    assert_eq!(position_key(0), b"0".to_vec());
    assert_eq!(position_key(7), b"7".to_vec());
    assert_eq!(position_key(120), b"120".to_vec());
}

#[test]
fn keys_read_back_as_positions() {
    assert_eq!(key_position(b"0"), 0);
    assert_eq!(key_position(b"42"), 42);
    assert_eq!(key_position(b"+42"), 42);
    assert_eq!(key_position(b"007"), 7);
    assert_eq!(key_position(b""), usize::MAX);
    assert_eq!(key_position(b"+"), usize::MAX);
    assert_eq!(key_position(b"-1"), usize::MAX);
    assert_eq!(key_position(b"12a"), usize::MAX);
    assert_eq!(key_position(b"99999999999999999999999999"), usize::MAX);
}
