use lance_ffi::dataset::{
    lance_dataset_append_stream, lance_dataset_checkout_latest, lance_dataset_count_rows,
    lance_dataset_create, lance_dataset_free, lance_dataset_list_versions, lance_dataset_open,
    lance_dataset_schema, lance_dataset_version, DatasetState,
};
use lance_ffi::error::{EngineError, EngineOutcome, ErrorKind};
use lance_ffi::types::{Batch, Schema};
use lance_ffi::{lance_cleanup, lance_init, Bridge};

fn schema_of(names: &[&str]) -> Schema {
    Schema::new(names.iter().map(|n| n.to_string()).collect())
}

fn dataset_meta(names: &[&str], rows: u64, version: u64) -> DatasetState {
    let mut versions = Vec::new();
    for v in 1..=version {
        versions.push(v);
    }
    DatasetState { schema: schema_of(names), rows, version, versions }
}

#[test]
fn init_reports_success_and_cleanup_is_a_noop() {
    let mut b = Bridge::new();
    assert!(lance_init(&mut b));
    assert!(lance_init(&mut b));
    lance_cleanup(&mut b);
}

#[test]
fn open_use_free_cycle() {
    let mut b = Bridge::new();
    let uri = String::from("memory://table");
    let meta = dataset_meta(&["id", "name"], 42, 3);
    assert!(meta.check_wf());
    let (h, e) = lance_dataset_open(&mut b, Some(&uri), EngineOutcome::Completed(meta));
    assert_ne!(h, 0);
    assert_eq!(e.code(), 0);

    let (n, e) = lance_dataset_count_rows(&b, h);
    assert_eq!(n, 42);
    assert_eq!(e.code(), 0);

    let (s, e) = lance_dataset_schema(&b, h);
    assert_eq!(e.code(), 0);
    assert!(s.expect("schema exported").same_as(&schema_of(&["id", "name"])));

    let (v, e) = lance_dataset_version(&b, h);
    assert_eq!(v, 3);
    assert_eq!(e.code(), 0);

    let (vs, e) = lance_dataset_list_versions(&b, h);
    assert_eq!(e.code(), 0);
    assert_eq!(vs.expect("versions listed"), vec![1, 2, 3]);

    lance_dataset_free(&mut b, h);
    let (n, e) = lance_dataset_count_rows(&b, h);
    assert_eq!(n, 0);
    assert!(matches!(e.kind, ErrorKind::InvalidInput));
}

#[test]
fn open_with_null_locator_is_invalid_input() {
    let mut b = Bridge::new();
    let meta = dataset_meta(&["id"], 1, 1);
    let (h, e) = lance_dataset_open(&mut b, None, EngineOutcome::Completed(meta));
    assert_eq!(h, 0);
    assert!(matches!(e.kind, ErrorKind::InvalidInput));
    assert!(!e.message.unwrap().is_empty());
}

#[test]
fn open_at_nonexistent_locator_reports_not_found() {
    let mut b = Bridge::new();
    let uri = String::from("memory://missing");
    let (h, e) = lance_dataset_open(
        &mut b,
        Some(&uri),
        EngineOutcome::Failed(EngineError::DatasetNotFound {
            message: String::from("Dataset not found: memory://missing"),
        }),
    );
    assert_eq!(h, 0);
    assert!(matches!(e.kind, ErrorKind::NotFound));
    assert!(!e.message.unwrap().is_empty());
}

#[test]
fn contained_fault_returns_sentinel_and_fault_record() {
    let mut b = Bridge::new();
    let uri = String::from("memory://table");
    let (h, e) = lance_dataset_open(&mut b, Some(&uri), fault_outcome());
    assert_eq!(h, 0);
    assert_eq!(e.code(), -1);
    assert!(matches!(e.kind, ErrorKind::InternalFault));
    assert!(!e.message.unwrap().is_empty());
    let (n, e) = lance_dataset_count_rows(&b, h);
    assert_eq!(n, 0);
    assert!(matches!(e.kind, ErrorKind::InvalidInput));
}

fn fault_outcome() -> EngineOutcome<DatasetState> {
    EngineOutcome::Fault
}

#[test]
fn count_rows_with_null_handle_is_invalid_input() {
    let b = Bridge::new();
    let (n, e) = lance_dataset_count_rows(&b, 0);
    assert_eq!(n, 0);
    assert!(matches!(e.kind, ErrorKind::InvalidInput));
    assert!(!e.message.unwrap().is_empty());
}

#[test]
fn freeing_null_handles_never_faults() {
    let mut b = Bridge::new();
    lance_dataset_free(&mut b, 0);
    lance_dataset_free(&mut b, 0);
}

#[test]
fn dataset_metadata_validation_catches_a_missing_version() {
    let good = dataset_meta(&["id"], 1, 2);
    assert!(good.check_wf());
    let bad = DatasetState { schema: schema_of(&["id"]), rows: 1, version: 9, versions: vec![1, 2] };
    assert!(!bad.check_wf());
    let empty = DatasetState { schema: schema_of(&["id"]), rows: 1, version: 1, versions: vec![] };
    assert!(!empty.check_wf());
}

#[test]
fn create_from_schema_starts_empty() {
    let mut b = Bridge::new();
    let uri = String::from("memory://new");
    let schema = schema_of(&["x"]);
    let meta = DatasetState { schema: schema_of(&["x"]), rows: 0, version: 1, versions: vec![1] };
    let (h, e) = lance_dataset_create(&mut b, Some(&uri), &schema, EngineOutcome::Completed(meta));
    assert_ne!(h, 0);
    assert_eq!(e.code(), 0);
    let (n, _) = lance_dataset_count_rows(&b, h);
    assert_eq!(n, 0);
}

#[test]
fn create_over_existing_dataset_reports_already_exists() {
    let mut b = Bridge::new();
    let uri = String::from("memory://taken");
    let schema = schema_of(&["x"]);
    let (h, e) = lance_dataset_create(
        &mut b,
        Some(&uri),
        &schema,
        EngineOutcome::Failed(EngineError::DatasetAlreadyExists {
            message: String::from("Dataset already exists"),
        }),
    );
    assert_eq!(h, 0);
    assert_eq!(e.code(), 2);
}

#[test]
fn checkout_latest_replaces_materialized_metadata() {
    let mut b = Bridge::new();
    let uri = String::from("memory://table");
    let (h, _) =
        lance_dataset_open(&mut b, Some(&uri), EngineOutcome::Completed(dataset_meta(&["id"], 5, 1)));
    let e = lance_dataset_checkout_latest(
        &mut b,
        h,
        EngineOutcome::Completed(dataset_meta(&["id"], 9, 2)),
    );
    assert_eq!(e.code(), 0);
    let (n, _) = lance_dataset_count_rows(&b, h);
    assert_eq!(n, 9);
    let (v, _) = lance_dataset_version(&b, h);
    assert_eq!(v, 2);
}

#[test]
fn append_stream_grows_rows_and_records_a_version() {
    let mut b = Bridge::new();
    let uri = String::from("memory://table");
    let (h, _) =
        lance_dataset_open(&mut b, Some(&uri), EngineOutcome::Completed(dataset_meta(&["id"], 2, 1)));
    let batches = vec![
        Batch::new(schema_of(&["id"]), vec![101, 102, 103]),
        Batch::new(schema_of(&["id"]), vec![104, 105]),
    ];
    let e = lance_dataset_append_stream(&mut b, h, &batches, EngineOutcome::Completed(5u64));
    assert_eq!(e.code(), 0);
    let (n, _) = lance_dataset_count_rows(&b, h);
    assert_eq!(n, 7);
    let (v, _) = lance_dataset_version(&b, h);
    assert_eq!(v, 5);
    let (vs, _) = lance_dataset_list_versions(&b, h);
    assert_eq!(vs.unwrap(), vec![1, 5]);
}

#[test]
fn append_stream_rejects_row_counter_overflow() {
    let mut b = Bridge::new();
    let uri = String::from("memory://table");
    let meta = DatasetState {
        schema: schema_of(&["id"]),
        rows: u64::MAX,
        version: 1,
        versions: vec![1],
    };
    let (h, _) = lance_dataset_open(&mut b, Some(&uri), EngineOutcome::Completed(meta));
    let batches = vec![Batch::new(schema_of(&["id"]), vec![1])];
    let e = lance_dataset_append_stream(&mut b, h, &batches, EngineOutcome::Completed(2u64));
    assert!(matches!(e.kind, ErrorKind::Unclassified));
    let (n, _) = lance_dataset_count_rows(&b, h);
    assert_eq!(n, u64::MAX);
}

#[test]
fn append_stream_rejects_wrong_schema_unchanged() {
    let mut b = Bridge::new();
    let uri = String::from("memory://table");
    let (h, _) =
        lance_dataset_open(&mut b, Some(&uri), EngineOutcome::Completed(dataset_meta(&["id"], 2, 1)));
    let batches = vec![Batch::new(schema_of(&["other"]), vec![1])];
    let e = lance_dataset_append_stream(&mut b, h, &batches, EngineOutcome::Completed(2u64));
    assert_eq!(e.code(), 3);
    let (n, _) = lance_dataset_count_rows(&b, h);
    assert_eq!(n, 2);
}
