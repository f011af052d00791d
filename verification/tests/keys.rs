use shared_tasks::error::ListError;
use shared_tasks::keys::{
    id_from_record_key, metadata_key, record_key, same_bytes, starts_with, task_prefix,
    todo_prefix,
};

#[test]
fn the_fixed_keys_are_as_documented() {
    assert_eq!(task_prefix(), b"task/".to_vec());
    assert_eq!(todo_prefix(), b"todo/".to_vec());
    assert_eq!(metadata_key(), b"metadata/todo_list_name".to_vec());
}

#[test]
fn a_record_key_is_the_prefix_and_the_identifier() {
    assert_eq!(record_key(b"task/", "a"), b"task/a".to_vec());
    assert_eq!(record_key(b"todo/", "buy milk"), b"todo/buy milk".to_vec());
    assert_eq!(record_key(b"task/", ""), b"task/".to_vec());
    assert_eq!(record_key(b"task/", "é"), vec![b't', b'a', b's', b'k', b'/', 0xc3, 0xa9]);
    assert_eq!(record_key(b"", "x"), b"x".to_vec());
}

#[test]
fn the_identifier_is_read_back_from_a_record_key() {
    for id in ["a", "", "buy milk", "é/世界", "task/"] {
        let key = record_key(b"task/", id);
        assert_eq!(id_from_record_key(b"task/", &key), Ok(id.to_string()));
    }
}

#[test]
fn a_key_without_the_prefix_holds_no_identifier() {
    assert_eq!(id_from_record_key(b"task/", b"todo/a"), Err(ListError::InvalidKey));
    assert_eq!(id_from_record_key(b"task/", b"tas"), Err(ListError::InvalidKey));
    assert_eq!(id_from_record_key(b"task/", b""), Err(ListError::InvalidKey));
    assert_eq!(
        id_from_record_key(b"task/", b"metadata/todo_list_name"),
        Err(ListError::InvalidKey)
    );
    assert_eq!(id_from_record_key(b"todo/", &metadata_key()), Err(ListError::InvalidKey));
}

#[test]
fn a_key_that_is_not_utf8_holds_no_identifier() {
    assert_eq!(id_from_record_key(b"task/", b"task/\xff\xfe"), Err(ListError::InvalidKey));
    assert_eq!(id_from_record_key(b"task/", b"task/\xc3"), Err(ListError::InvalidKey));
}

#[test]
fn byte_strings_are_compared_and_matched() {
    assert!(same_bytes(b"abc", b"abc"));
    assert!(same_bytes(b"", b""));
    assert!(!same_bytes(b"abc", b"abd"));
    assert!(!same_bytes(b"abc", b"ab"));
    assert!(starts_with(b"task/a", b"task/"));
    assert!(starts_with(b"task/", b"task/"));
    assert!(starts_with(b"anything", b""));
    assert!(!starts_with(b"task", b"task/"));
    assert!(!starts_with(b"todo/a", b"task/"));
}
