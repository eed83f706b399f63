use vibra::codec::encode_key;
use vibra::codec::encode_table_prefix;
use vibra::codec::starts_with_prefix;

#[test]
fn test_encode_key() {
    assert_eq!(encode_key("users", "row1"), "users/row1".to_string());
    assert_eq!(encode_key("", ""), "/".to_string());
}

#[test]
fn test_encode_table_prefix() {
    assert_eq!(encode_table_prefix("users"), "users/".to_string());
}

#[test]
fn test_starts_with_prefix() {
    assert!(starts_with_prefix("users/row1", "users/"));
    assert!(starts_with_prefix("users/", "users/"));
    assert!(!starts_with_prefix("users", "users/"));
    assert!(!starts_with_prefix("usersx/row1", "users/"));
    assert!(!starts_with_prefix("logs/row1", "users/"));
    assert!(starts_with_prefix("anything", ""));
}
