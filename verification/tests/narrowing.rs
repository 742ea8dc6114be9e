use lance_ffi::dataset::{lance_dataset_open, DatasetState};
use lance_ffi::error::{EngineError, EngineOutcome, ErrorKind};
use lance_ffi::scanner::{
    lance_dataset_scanner, lance_scanner_filter, lance_scanner_free, lance_scanner_project,
    lance_scanner_to_stream,
};
use lance_ffi::stream::{lance_stream_free, lance_stream_next};
use lance_ffi::types::{Batch, Schema};
use lance_ffi::Bridge;

fn schema_of(names: &[&str]) -> Schema {
    Schema::new(names.iter().map(|n| n.to_string()).collect())
}

fn open_dataset(b: &mut Bridge, names: &[&str], rows: u64) -> u64 {
    let uri = String::from("memory://table");
    let meta =
        DatasetState { schema: schema_of(names), rows, version: 1, versions: vec![1] };
    let (h, e) = lance_dataset_open(b, Some(&uri), EngineOutcome::Completed(meta));
    assert_eq!(e.code(), 0);
    h
}

#[test]
fn project_then_filter_leaves_one_live_handle() {
    let mut b = Bridge::new();
    let ds = open_dataset(&mut b, &["id", "name", "age"], 10);

    let (s1, e) = lance_dataset_scanner(&mut b, ds);
    assert_ne!(s1, 0);
    assert_eq!(e.code(), 0);

    let cols = vec![String::from("name"), String::from("id")];
    let (s2, e) = lance_scanner_project(&mut b, s1, &cols);
    assert_ne!(s2, 0);
    assert_ne!(s2, s1);
    assert_eq!(e.code(), 0);

    // the consumed handle is invalid the instant project was called on it
    let (dead, e) = lance_scanner_project(&mut b, s1, &cols);
    assert_eq!(dead, 0);
    assert!(matches!(e.kind, ErrorKind::InvalidInput));

    let pred = String::from("age > 30");
    let (s3, e) = lance_scanner_filter(&mut b, s2, Some(&pred), EngineOutcome::Completed(()));
    assert_ne!(s3, 0);
    assert_ne!(s3, s2);
    assert_eq!(e.code(), 0);

    let (dead, e) = lance_scanner_filter(&mut b, s2, Some(&pred), EngineOutcome::Completed(()));
    assert_eq!(dead, 0);
    assert!(matches!(e.kind, ErrorKind::InvalidInput));

    lance_scanner_free(&mut b, s3);
}

#[test]
fn failed_project_still_consumes_the_handle() {
    let mut b = Bridge::new();
    let ds = open_dataset(&mut b, &["id"], 1);
    let (s1, _) = lance_dataset_scanner(&mut b, ds);

    let cols = vec![String::from("missing")];
    let (h, e) = lance_scanner_project(&mut b, s1, &cols);
    assert_eq!(h, 0);
    assert!(matches!(e.kind, ErrorKind::SchemaMismatch));

    let good = vec![String::from("id")];
    let (dead, e) = lance_scanner_project(&mut b, s1, &good);
    assert_eq!(dead, 0);
    assert!(matches!(e.kind, ErrorKind::InvalidInput));
}

#[test]
fn failed_filter_still_consumes_the_handle() {
    let mut b = Bridge::new();
    let ds = open_dataset(&mut b, &["id"], 1);
    let (s1, _) = lance_dataset_scanner(&mut b, ds);

    let pred = String::from("not a predicate ((");
    let (h, e) = lance_scanner_filter(
        &mut b,
        s1,
        Some(&pred),
        EngineOutcome::Failed(EngineError::InvalidInput {
            message: String::from("cannot parse predicate"),
        }),
    );
    assert_eq!(h, 0);
    assert_eq!(e.code(), 1);

    let (dead, e) = lance_scanner_filter(&mut b, s1, Some(&pred), EngineOutcome::Completed(()));
    assert_eq!(dead, 0);
    assert!(matches!(e.kind, ErrorKind::InvalidInput));
}

#[test]
fn null_predicate_is_rejected_without_consuming() {
    let mut b = Bridge::new();
    let ds = open_dataset(&mut b, &["id"], 1);
    let (s1, _) = lance_dataset_scanner(&mut b, ds);

    let (h, e) = lance_scanner_filter(&mut b, s1, None, EngineOutcome::Completed(()));
    assert_eq!(h, 0);
    assert!(matches!(e.kind, ErrorKind::InvalidInput));

    // the scanner survived the rejected call
    let cols = vec![String::from("id")];
    let (s2, e) = lance_scanner_project(&mut b, s1, &cols);
    assert_ne!(s2, 0);
    assert_eq!(e.code(), 0);
}

#[test]
fn scanner_stream_delivers_batches_in_order() {
    let mut b = Bridge::new();
    let ds = open_dataset(&mut b, &["id"], 4);
    let (sc, _) = lance_dataset_scanner(&mut b, ds);

    let batches = vec![
        Batch::new(schema_of(&["id"]), vec![1, 2]),
        Batch::new(schema_of(&["id"]), vec![3, 4]),
    ];
    let (st, e) = lance_scanner_to_stream(&mut b, sc, EngineOutcome::Completed(batches));
    assert_ne!(st, 0);
    assert_eq!(e.code(), 0);

    let (b1, e) = lance_stream_next(&mut b, st);
    assert_eq!(e.code(), 0);
    assert_eq!(b1.expect("first batch").rows, vec![1, 2]);
    let (b2, e) = lance_stream_next(&mut b, st);
    assert_eq!(e.code(), 0);
    assert_eq!(b2.expect("second batch").rows, vec![3, 4]);
    let (end, e) = lance_stream_next(&mut b, st);
    assert!(end.is_none());
    assert_eq!(e.code(), 0);

    lance_stream_free(&mut b, st);
    lance_scanner_free(&mut b, sc);
}

#[test]
fn stream_can_be_released_before_exhaustion() {
    let mut b = Bridge::new();
    let ds = open_dataset(&mut b, &["id"], 4);
    let (sc, _) = lance_dataset_scanner(&mut b, ds);
    let batches = vec![
        Batch::new(schema_of(&["id"]), vec![1]),
        Batch::new(schema_of(&["id"]), vec![2]),
        Batch::new(schema_of(&["id"]), vec![3]),
    ];
    let (st, _) = lance_scanner_to_stream(&mut b, sc, EngineOutcome::Completed(batches));
    let (first, _) = lance_stream_next(&mut b, st);
    assert!(first.is_some());
    lance_stream_free(&mut b, st);
    let (gone, e) = lance_stream_next(&mut b, st);
    assert!(gone.is_none());
    assert!(matches!(e.kind, ErrorKind::InvalidInput));
    lance_stream_free(&mut b, 0);
}

#[test]
fn scanner_stream_failure_leaves_scanner_live() {
    let mut b = Bridge::new();
    let ds = open_dataset(&mut b, &["id"], 1);
    let (sc, _) = lance_dataset_scanner(&mut b, ds);
    let (st, e) = lance_scanner_to_stream(
        &mut b,
        sc,
        EngineOutcome::Failed(EngineError::Other { message: String::from("stream failed") }),
    );
    assert_eq!(st, 0);
    assert_eq!(e.code(), 999);
    // the scanner was not consumed by the failed materialization
    let cols = vec![String::from("id")];
    let (narrowed, e) = lance_scanner_project(&mut b, sc, &cols);
    assert_ne!(narrowed, 0);
    assert_eq!(e.code(), 0);
}

#[test]
fn scanner_on_null_dataset_is_invalid_input() {
    let mut b = Bridge::new();
    let (h, e) = lance_dataset_scanner(&mut b, 0);
    assert_eq!(h, 0);
    assert!(matches!(e.kind, ErrorKind::InvalidInput));
    lance_scanner_free(&mut b, 0);
}
