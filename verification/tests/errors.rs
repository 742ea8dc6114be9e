use lance_ffi::error::{CLanceError, EngineError, ErrorKind};

#[test]
fn success_record_has_code_zero_and_no_message() {
    let e = CLanceError::success();
    assert!(matches!(e.kind, ErrorKind::Success));
    assert_eq!(e.code(), 0);
    assert!(e.message.is_none());
    assert!(e.is_success());
}

#[test]
fn invalid_input_maps_to_code_one() {
    let e = CLanceError::from_lance_error(EngineError::InvalidInput {
        message: String::from("bad argument"),
    });
    assert!(matches!(e.kind, ErrorKind::InvalidInput));
    assert_eq!(e.code(), 1);
    assert_eq!(e.message.as_deref(), Some("bad argument"));
}

#[test]
fn already_exists_maps_to_code_two() {
    let e = CLanceError::from_lance_error(EngineError::DatasetAlreadyExists {
        message: String::from("dataset exists"),
    });
    assert!(matches!(e.kind, ErrorKind::AlreadyExists));
    assert_eq!(e.code(), 2);
}

#[test]
fn schema_mismatch_maps_to_code_three() {
    let e = CLanceError::from_lance_error(EngineError::SchemaMismatch {
        message: String::from("wrong schema"),
    });
    assert!(matches!(e.kind, ErrorKind::SchemaMismatch));
    assert_eq!(e.code(), 3);
}

#[test]
fn not_found_maps_to_code_four() {
    let e = CLanceError::from_lance_error(EngineError::DatasetNotFound {
        message: String::from("no such dataset"),
    });
    assert!(matches!(e.kind, ErrorKind::NotFound));
    assert_eq!(e.code(), 4);
}

#[test]
fn other_failures_are_unclassified() {
    let e = CLanceError::from_lance_error(EngineError::Other {
        message: String::from("io error"),
    });
    assert!(matches!(e.kind, ErrorKind::Unclassified));
    assert_eq!(e.code(), 999);
}

#[test]
fn internal_fault_has_negative_code_and_message() {
    let e = CLanceError::internal_fault();
    assert!(matches!(e.kind, ErrorKind::InternalFault));
    assert_eq!(e.code(), -1);
    assert_eq!(e.message.as_deref(), Some("Panic occurred"));
}

#[test]
fn empty_engine_message_is_replaced() {
    let e = CLanceError::from_lance_error(EngineError::Other { message: String::new() });
    assert_eq!(e.message.as_deref(), Some("Unknown error"));
    assert!(!e.message.unwrap().is_empty());
}
