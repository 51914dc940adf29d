use guildstore::errors::{fault_to_error, RepoError, StoreFault};

#[test]
fn row_not_found_becomes_not_found() {
    let err = fault_to_error(StoreFault::RowNotFound);
    assert!(err.is_not_found());
    assert!(!err.is_internal());
    assert!(!err.is_invalid_argument());
}

#[test]
fn database_fault_becomes_internal_with_message_preserved() {
    let err = fault_to_error(StoreFault::Database("duplicate key".to_string()));
    assert!(err.is_internal());
    match err {
        RepoError::Internal(message) => assert_eq!(message, "duplicate key"),
        _ => unreachable!(),
    }
}

#[test]
fn io_fault_becomes_internal_with_message_preserved() {
    let err = fault_to_error(StoreFault::Io("connection reset".to_string()));
    assert!(err.is_internal());
    match err {
        RepoError::Internal(message) => assert_eq!(message, "connection reset"),
        _ => unreachable!(),
    }
}

#[test]
fn unrecognized_fault_defaults_to_internal() {
    let err = fault_to_error(StoreFault::Other("serialization failure".to_string()));
    assert!(err.is_internal());
    assert!(!err.is_not_found());
    match err {
        RepoError::Internal(message) => assert_eq!(message, "serialization failure"),
        _ => unreachable!(),
    }
}
