use lance_ffi::error::{EngineError, EngineOutcome, ErrorKind};
use lance_ffi::file::{
    lance_file_reader_free, lance_file_reader_num_rows, lance_file_reader_open,
    lance_file_reader_read_all, lance_file_reader_schema, lance_file_writer_create,
    lance_file_writer_finish, lance_file_writer_free, lance_file_writer_write_batch, ReaderState,
};
use lance_ffi::stream::{lance_stream_free, lance_stream_next};
use lance_ffi::types::{Batch, Schema};
use lance_ffi::Bridge;

fn schema_of(names: &[&str]) -> Schema {
    Schema::new(names.iter().map(|n| n.to_string()).collect())
}

fn drain(b: &mut Bridge, stream: u64) -> Vec<u64> {
    let mut rows = Vec::new();
    loop {
        let (batch, e) = lance_stream_next(b, stream);
        assert_eq!(e.code(), 0);
        match batch {
            Some(batch) => rows.extend(batch.rows),
            None => break,
        }
    }
    rows
}

#[test]
fn write_then_read_back_round_trip() {
    let mut b = Bridge::new();
    let uri = String::from("memory://file");
    let schema = schema_of(&["id", "name"]);

    let (w, e) =
        lance_file_writer_create(&mut b, Some(&uri), Some(&schema), EngineOutcome::Completed(()));
    assert_ne!(w, 0);
    assert_eq!(e.code(), 0);

    let batch = Batch::new(schema_of(&["id", "name"]), vec![7, 8, 9]);
    let e = lance_file_writer_write_batch(&mut b, w, &batch, EngineOutcome::Completed(()));
    assert_eq!(e.code(), 0);

    let (written, e) = lance_file_writer_finish(&mut b, w, EngineOutcome::Completed(()));
    assert_eq!(written, 3);
    assert_eq!(e.code(), 0);
    lance_file_writer_free(&mut b, w);

    // the engine's storage hands the reader back what the writer wrote
    let stored = ReaderState { schema: schema_of(&["id", "name"]), content: vec![7, 8, 9] };
    let no_cols: Vec<String> = Vec::new();
    let (r, e) =
        lance_file_reader_open(&mut b, Some(&uri), &no_cols, EngineOutcome::Completed(stored));
    assert_ne!(r, 0);
    assert_eq!(e.code(), 0);

    let (n, e) = lance_file_reader_num_rows(&b, r);
    assert_eq!(n, 3);
    assert_eq!(e.code(), 0);

    let (s, e) = lance_file_reader_schema(&b, r);
    assert_eq!(e.code(), 0);
    assert!(s.expect("schema exported").same_as(&schema));

    let (st, e) = lance_file_reader_read_all(&mut b, r, 2);
    assert_ne!(st, 0);
    assert_eq!(e.code(), 0);
    assert_eq!(drain(&mut b, st), vec![7, 8, 9]);

    lance_stream_free(&mut b, st);
    lance_file_reader_free(&mut b, r);
}

#[test]
fn delivery_order_does_not_depend_on_batch_size() {
    let mut b = Bridge::new();
    let uri = String::from("memory://file");
    let content: Vec<u64> = (1..=10).collect();
    let no_cols: Vec<String> = Vec::new();

    let mut seen = Vec::new();
    for batch_size in [1u32, 3, 4, 16] {
        let stored = ReaderState { schema: schema_of(&["id"]), content: content.clone() };
        let (r, _) =
            lance_file_reader_open(&mut b, Some(&uri), &no_cols, EngineOutcome::Completed(stored));
        let (st, e) = lance_file_reader_read_all(&mut b, r, batch_size);
        assert_eq!(e.code(), 0);
        seen.push(drain(&mut b, st));
        lance_stream_free(&mut b, st);
        lance_file_reader_free(&mut b, r);
    }
    for rows in &seen {
        assert_eq!(rows, &content);
    }
}

#[test]
fn reader_open_applies_column_projection() {
    let mut b = Bridge::new();
    let uri = String::from("memory://file");
    let stored = ReaderState { schema: schema_of(&["id", "name", "age"]), content: vec![1, 2] };
    let cols = vec![String::from("age"), String::from("id")];
    let (r, e) = lance_file_reader_open(&mut b, Some(&uri), &cols, EngineOutcome::Completed(stored));
    assert_ne!(r, 0);
    assert_eq!(e.code(), 0);
    let (s, _) = lance_file_reader_schema(&b, r);
    assert!(s.unwrap().same_as(&schema_of(&["age", "id"])));
}

#[test]
fn reader_open_rejects_unknown_projected_column() {
    let mut b = Bridge::new();
    let uri = String::from("memory://file");
    let stored = ReaderState { schema: schema_of(&["id"]), content: vec![1] };
    let cols = vec![String::from("missing")];
    let (r, e) = lance_file_reader_open(&mut b, Some(&uri), &cols, EngineOutcome::Completed(stored));
    assert_eq!(r, 0);
    assert!(matches!(e.kind, ErrorKind::SchemaMismatch));
}

#[test]
fn reader_open_failure_reports_not_found() {
    let mut b = Bridge::new();
    let uri = String::from("memory://missing");
    let no_cols: Vec<String> = Vec::new();
    let (r, e) = lance_file_reader_open(
        &mut b,
        Some(&uri),
        &no_cols,
        EngineOutcome::Failed(EngineError::DatasetNotFound {
            message: String::from("no such file"),
        }),
    );
    assert_eq!(r, 0);
    assert_eq!(e.code(), 4);
}

#[test]
fn read_all_rejects_zero_batch_size() {
    let mut b = Bridge::new();
    let uri = String::from("memory://file");
    let stored = ReaderState { schema: schema_of(&["id"]), content: vec![1] };
    let no_cols: Vec<String> = Vec::new();
    let (r, _) =
        lance_file_reader_open(&mut b, Some(&uri), &no_cols, EngineOutcome::Completed(stored));
    let (st, e) = lance_file_reader_read_all(&mut b, r, 0);
    assert_eq!(st, 0);
    assert!(matches!(e.kind, ErrorKind::InvalidInput));
}

#[test]
fn writer_rejects_batch_with_wrong_schema() {
    let mut b = Bridge::new();
    let uri = String::from("memory://file");
    let schema = schema_of(&["id"]);
    let (w, _) =
        lance_file_writer_create(&mut b, Some(&uri), Some(&schema), EngineOutcome::Completed(()));
    let bad = Batch::new(schema_of(&["other"]), vec![1, 2]);
    let e = lance_file_writer_write_batch(&mut b, w, &bad, EngineOutcome::Completed(()));
    assert_eq!(e.code(), 3);
    let good = Batch::new(schema_of(&["id"]), vec![1, 2]);
    let e = lance_file_writer_write_batch(&mut b, w, &good, EngineOutcome::Completed(()));
    assert_eq!(e.code(), 0);
    let (written, _) = lance_file_writer_finish(&mut b, w, EngineOutcome::Completed(()));
    assert_eq!(written, 2);
}

#[test]
fn lazy_writer_adopts_first_batch_schema() {
    let mut b = Bridge::new();
    let uri = String::from("memory://file");
    let (w, e) = lance_file_writer_create(&mut b, Some(&uri), None, EngineOutcome::Completed(()));
    assert_eq!(e.code(), 0);
    let first = Batch::new(schema_of(&["id"]), vec![1]);
    let e = lance_file_writer_write_batch(&mut b, w, &first, EngineOutcome::Completed(()));
    assert_eq!(e.code(), 0);
    let wrong = Batch::new(schema_of(&["other"]), vec![2]);
    let e = lance_file_writer_write_batch(&mut b, w, &wrong, EngineOutcome::Completed(()));
    assert_eq!(e.code(), 3);
    let (written, _) = lance_file_writer_finish(&mut b, w, EngineOutcome::Completed(()));
    assert_eq!(written, 1);
}

#[test]
fn writer_rejects_writes_after_finish() {
    let mut b = Bridge::new();
    let uri = String::from("memory://file");
    let schema = schema_of(&["id"]);
    let (w, _) =
        lance_file_writer_create(&mut b, Some(&uri), Some(&schema), EngineOutcome::Completed(()));
    let (_, e) = lance_file_writer_finish(&mut b, w, EngineOutcome::Completed(()));
    assert_eq!(e.code(), 0);
    let batch = Batch::new(schema_of(&["id"]), vec![1]);
    let e = lance_file_writer_write_batch(&mut b, w, &batch, EngineOutcome::Completed(()));
    assert!(matches!(e.kind, ErrorKind::InvalidInput));
    let (n, e) = lance_file_writer_finish(&mut b, w, EngineOutcome::Completed(()));
    assert_eq!(n, 0);
    assert!(matches!(e.kind, ErrorKind::InvalidInput));
}

#[test]
fn writer_stays_usable_after_a_contained_fault() {
    let mut b = Bridge::new();
    let uri = String::from("memory://file");
    let schema = schema_of(&["id"]);
    let (w, _) =
        lance_file_writer_create(&mut b, Some(&uri), Some(&schema), EngineOutcome::Completed(()));
    let batch = Batch::new(schema_of(&["id"]), vec![1, 2]);
    let e = lance_file_writer_write_batch(&mut b, w, &batch, EngineOutcome::Fault);
    assert_eq!(e.code(), -1);
    // the append lock was released on the unwinding path: the handle still works
    let e = lance_file_writer_write_batch(&mut b, w, &batch, EngineOutcome::Completed(()));
    assert_eq!(e.code(), 0);
    let (written, _) = lance_file_writer_finish(&mut b, w, EngineOutcome::Completed(()));
    assert_eq!(written, 2);
    lance_file_writer_free(&mut b, w);
    lance_file_writer_free(&mut b, 0);
    lance_file_reader_free(&mut b, 0);
}

#[test]
fn writer_create_with_null_locator_is_invalid_input() {
    let mut b = Bridge::new();
    let schema = schema_of(&["id"]);
    let (w, e) = lance_file_writer_create(&mut b, None, Some(&schema), EngineOutcome::Completed(()));
    assert_eq!(w, 0);
    assert!(matches!(e.kind, ErrorKind::InvalidInput));
}
