//! File reader and file writer handles: opening a file for reading,
//! local metadata reads, streaming its rows out, and the write path that
//! appends batches and reports the total written on finish.

use vstd::prelude::*;
use crate::Bridge;
use crate::error::{CLanceError, EngineOutcome, kind_of, message_of, normalized};
use crate::registry::{
    adds_handle, lemma_objs_wf_after_insert, lemma_objs_wf_after_remove, same_except, Obj,
};
use crate::stream::{chunk_rows, is_stream, rows_of, stream_of, StreamState, DEFAULT_READ_AHEAD};
use crate::types::{all_in, Batch, Schema};

verus! {

/// The bridge-side state of one open file reader: the file's metadata and
/// its rows, materialized for streaming out in file order.
pub struct ReaderState {
    /// The reader's schema: the file's schema, narrowed by the column
    /// projection the reader was opened with.
    pub schema: Schema,
    /// The file's rows, in file order.
    pub content: Vec<u64>,
}

/// The bridge-side state of one file writer.
pub struct WriterState {
    /// The schema every appended batch must match. A writer opened lazily
    /// has none until its first batch arrives and is adopted.
    pub schema: Option<Schema>,
    /// The rows appended so far, in append order.
    pub content: Vec<u64>,
    /// Whether the writer was finished; a finished writer accepts no
    /// further writes.
    pub finished: bool,
}

/// Whether a handle is live and refers to a file reader.
pub open spec fn is_reader(b: Bridge, h: u64) -> bool {
    b.live(h) && b@[h] is Reader
}

/// The reader state behind a live reader handle.
pub open spec fn reader_of(b: Bridge, h: u64) -> ReaderState
    recommends
        is_reader(b, h),
{
    b@[h]->Reader_0
}

/// Whether a handle is live and refers to a file writer.
pub open spec fn is_writer(b: Bridge, h: u64) -> bool {
    b.live(h) && b@[h] is Writer
}

/// The writer state behind a live writer handle.
pub open spec fn writer_of(b: Bridge, h: u64) -> WriterState
    recommends
        is_writer(b, h),
{
    b@[h]->Writer_0
}

/// Whether a writer accepts a batch: its schema is not fixed yet, or the
/// batch carries exactly the fixed schema.
pub open spec fn writer_accepts(w: WriterState, batch: Batch) -> bool {
    match w.schema {
        Some(s) => s@ == batch.schema@,
        None => true,
    }
}

/// Opens a file for reading at a locator, with an optional column
/// projection. The engine materializes the file's metadata and rows; the
/// bridge validates the projection against the file's schema. On success
/// a fresh reader handle is returned whose schema is the projected one;
/// on any failure the null handle, a failure record, and no leaked
/// handle.
pub fn lance_file_reader_open(
    b: &mut Bridge,
    uri: Option<&String>,
    columns: &Vec<String>,
    outcome: EngineOutcome<ReaderState>,
) -> (r: (u64, CLanceError))
    requires
        old(b).wf(),
        old(b).not_exhausted(),
    ensures
        final(b).wf(),
        r.1.wf(),
        old(b).started ==> final(b).started,
        r.0 != 0 <==> r.1.kind is Success,
        uri is None ==> r.0 == 0 && r.1.kind is InvalidInput && *final(b) == *old(b),
        uri is Some && outcome is Failed ==> r.0 == 0 && final(b)@ == old(b)@ && r.1.kind
            == kind_of(outcome.failure()) && (r.1.message matches Some(m) && m@ == normalized(
            message_of(outcome.failure()),
        )),
        uri is Some && outcome is Fault ==> r.0 == 0 && final(b)@ == old(b)@
            && r.1.kind is InternalFault,
        uri is Some && outcome is Completed && columns@.len() == 0 ==> r.0 != 0 && adds_handle(
            old(b)@,
            final(b)@,
            r.0,
        ) && is_reader(*final(b), r.0) && reader_of(*final(b), r.0).schema@
            == outcome.value().schema@ && reader_of(*final(b), r.0).content
            == outcome.value().content && r.1.kind is Success,
        uri is Some && outcome is Completed && columns@.len() > 0 && all_in(
            outcome.value().schema@,
            columns.deep_view(),
        ) ==> r.0 != 0 && adds_handle(old(b)@, final(b)@, r.0) && is_reader(*final(b), r.0)
            && reader_of(*final(b), r.0).schema@ == columns.deep_view() && reader_of(
            *final(b),
            r.0,
        ).content == outcome.value().content && r.1.kind is Success,
        uri is Some && outcome is Completed && columns@.len() > 0 && !all_in(
            outcome.value().schema@,
            columns.deep_view(),
        ) ==> r.0 == 0 && final(b)@ == old(b)@ && r.1.kind is SchemaMismatch,
{
    proof {
        reveal_strlit("Locator is null");
        reveal_strlit("A requested column is not in the schema");
    }
    match uri {
        None => {
            return (0u64, CLanceError::invalid_input("Locator is null"));
        },
        Some(_) => {},
    }
    b.started = true;
    match outcome {
        EngineOutcome::Completed(info) => {
            if columns.len() == 0 {
                let ghost ro = Obj::Reader(info);
                let h = b.reg.insert_fresh(Obj::Reader(info));
                proof {
                    lemma_objs_wf_after_insert(old(b).reg, b.reg, h, ro);
                }
                (h, CLanceError::success())
            } else {
                match info.schema.project(columns) {
                    Some(narrowed) => {
                        let rd = ReaderState { schema: narrowed, content: info.content };
                        let ghost ro = Obj::Reader(rd);
                        let h = b.reg.insert_fresh(Obj::Reader(rd));
                        proof {
                            lemma_objs_wf_after_insert(old(b).reg, b.reg, h, ro);
                        }
                        (h, CLanceError::success())
                    },
                    None => (
                        0u64,
                        CLanceError::schema_mismatch("A requested column is not in the schema"),
                    ),
                }
            }
        },
        EngineOutcome::Failed(e) => (0u64, CLanceError::from_lance_error(e)),
        EngineOutcome::Fault => (0u64, CLanceError::internal_fault()),
    }
}

/// The number of rows an open reader's file holds: a local read of
/// already-materialized state. A null or unknown handle yields a zero
/// count and an invalid-input record, never a fault.
pub fn lance_file_reader_num_rows(b: &Bridge, reader: u64) -> (r: (u64, CLanceError))
    requires
        b.wf(),
    ensures
        r.1.wf(),
        is_reader(*b, reader) <==> r.1.kind is Success,
        is_reader(*b, reader) ==> r.0 == reader_of(*b, reader).content@.len(),
        !is_reader(*b, reader) ==> r.0 == 0 && r.1.kind is InvalidInput && (
        r.1.message matches Some(m) && m@.len() > 0),
{
    proof {
        reveal_strlit("Reader handle is null or invalid");
    }
    match b.reg.get(reader) {
        Some(Obj::Reader(rd)) => (rd.content.len() as u64, CLanceError::success()),
        _ => (0u64, CLanceError::invalid_input("Reader handle is null or invalid")),
    }
}

/// Exports the schema of an open reader: a local read. A null or unknown
/// handle is rejected, never dereferenced.
pub fn lance_file_reader_schema(b: &Bridge, reader: u64) -> (r: (Option<Schema>, CLanceError))
    requires
        b.wf(),
    ensures
        r.1.wf(),
        r.0 is Some <==> r.1.kind is Success,
        is_reader(*b, reader) <==> r.1.kind is Success,
        is_reader(*b, reader) ==> (r.0 matches Some(s) && s@ == reader_of(*b, reader).schema@),
        !is_reader(*b, reader) ==> r.1.kind is InvalidInput,
{
    proof {
        reveal_strlit("Reader handle is null or invalid");
    }
    match b.reg.get(reader) {
        Some(Obj::Reader(rd)) => (Some(rd.schema.duplicate()), CLanceError::success()),
        _ => (None, CLanceError::invalid_input("Reader handle is null or invalid")),
    }
}

/// Streams out all rows of an open reader as batches of the chosen size,
/// in file order, behind a fresh stream handle. A zero batch size is
/// rejected. The reader stays live and unchanged; the stream's read-ahead
/// depth bounds producer memory and never affects order.
pub fn lance_file_reader_read_all(b: &mut Bridge, reader: u64, batch_size: u32) -> (r: (
    u64,
    CLanceError,
))
    requires
        old(b).wf(),
        old(b).not_exhausted(),
    ensures
        final(b).wf(),
        r.1.wf(),
        old(b).started ==> final(b).started,
        r.0 != 0 <==> r.1.kind is Success,
        !is_reader(*old(b), reader) ==> r.0 == 0 && r.1.kind is InvalidInput && *final(b) == *old(
            b,
        ),
        is_reader(*old(b), reader) && batch_size == 0 ==> r.0 == 0 && r.1.kind is InvalidInput
            && *final(b) == *old(b),
        is_reader(*old(b), reader) && batch_size >= 1 ==> r.0 != 0 && adds_handle(
            old(b)@,
            final(b)@,
            r.0,
        ) && is_stream(*final(b), r.0) && rows_of(stream_of(*final(b), r.0).batches@)
            == chunk_rows(reader_of(*old(b), reader).content@, batch_size as nat) && stream_of(
            *final(b),
            r.0,
        ).delivered == 0 && stream_of(*final(b), r.0).schema@ == reader_of(
            *old(b),
            reader,
        ).schema@ && stream_of(*final(b), r.0).readahead == DEFAULT_READ_AHEAD
            && r.1.kind is Success,
{
    proof {
        reveal_strlit("Reader handle is null or invalid");
        reveal_strlit("Batch size must be at least one");
    }
    if batch_size == 0 {
        let valid = match b.reg.get(reader) {
            Some(Obj::Reader(_)) => true,
            _ => false,
        };
        if valid {
            return (0u64, CLanceError::invalid_input("Batch size must be at least one"));
        } else {
            return (0u64, CLanceError::invalid_input("Reader handle is null or invalid"));
        }
    }
    let (schema_copy, batches) = match b.reg.get(reader) {
        Some(Obj::Reader(rd)) => {
            let sc = rd.schema.duplicate();
            let bs = crate::stream::chunk_batches(&rd.content, batch_size, &rd.schema);
            (sc, bs)
        },
        _ => {
            return (0u64, CLanceError::invalid_input("Reader handle is null or invalid"));
        },
    };
    let st = StreamState {
        schema: schema_copy,
        batches,
        delivered: 0,
        readahead: DEFAULT_READ_AHEAD,
    };
    let ghost so = Obj::Stream(st);
    let h = b.reg.insert_fresh(Obj::Stream(st));
    proof {
        assert(so.wf()) by {
            assert(forall|i: int|
                0 <= i < so->Stream_0.batches@.len() ==> (#[trigger] so->Stream_0.batches@[i]).schema@
                    == so->Stream_0.schema@);
        }
        lemma_objs_wf_after_insert(old(b).reg, b.reg, h, so);
    }
    (h, CLanceError::success())
}

/// Frees a reader handle. Freeing the null handle is a no-op, never a
/// fault. Freeing a handle twice, or freeing another kind of handle
/// through this operation, is the caller's obligation to avoid.
pub fn lance_file_reader_free(b: &mut Bridge, reader: u64)
    requires
        old(b).wf(),
        reader == 0 || is_reader(*old(b), reader),
    ensures
        final(b).wf(),
        final(b)@ == old(b)@.remove(reader),
        !final(b).live(reader),
        reader == 0 ==> *final(b) == *old(b),
        final(b).started == old(b).started,
{
    if reader != 0 {
        let _ = b.reg.take(reader);
        proof {
            lemma_objs_wf_after_remove(old(b).reg, b.reg, reader);
        }
    } else {
        proof {
            crate::registry::lemma_as_map_dom(b.reg.table@);
            assert(!b@.dom().contains(0u64));
            assert(b@.remove(0u64) =~= b@);
        }
    }
}

/// Creates a file writer at a locator, with a schema fixed up front or
/// lazily adopted from the first batch. On success a fresh writer handle
/// with no rows written yet; on any failure the null handle, a failure
/// record, and no leaked handle.
pub fn lance_file_writer_create(
    b: &mut Bridge,
    uri: Option<&String>,
    schema: Option<&Schema>,
    outcome: EngineOutcome<()>,
) -> (r: (u64, CLanceError))
    requires
        old(b).wf(),
        old(b).not_exhausted(),
    ensures
        final(b).wf(),
        r.1.wf(),
        old(b).started ==> final(b).started,
        r.0 != 0 <==> r.1.kind is Success,
        uri is None ==> r.0 == 0 && r.1.kind is InvalidInput && *final(b) == *old(b),
        uri is Some && outcome is Completed ==> r.0 != 0 && adds_handle(old(b)@, final(b)@, r.0)
            && is_writer(*final(b), r.0) && !writer_of(*final(b), r.0).finished && writer_of(
            *final(b),
            r.0,
        ).content@.len() == 0 && r.1.kind is Success,
        uri is Some && outcome is Completed && schema is None ==> writer_of(
            *final(b),
            r.0,
        ).schema is None,
        uri is Some && outcome is Completed && schema is Some ==> (writer_of(
            *final(b),
            r.0,
        ).schema matches Some(ws) && ws@ == schema->0@),
        uri is Some && outcome is Failed ==> r.0 == 0 && final(b)@ == old(b)@ && r.1.kind
            == kind_of(outcome.failure()) && (r.1.message matches Some(m) && m@ == normalized(
            message_of(outcome.failure()),
        )),
        uri is Some && outcome is Fault ==> r.0 == 0 && final(b)@ == old(b)@
            && r.1.kind is InternalFault,
{
    proof {
        reveal_strlit("Locator is null");
    }
    match uri {
        None => {
            return (0u64, CLanceError::invalid_input("Locator is null"));
        },
        Some(_) => {},
    }
    b.started = true;
    match outcome {
        EngineOutcome::Completed(_) => {
            let ws = match schema {
                Some(s) => Some(s.duplicate()),
                None => None,
            };
            let w = WriterState { schema: ws, content: Vec::new(), finished: false };
            let ghost wo = Obj::Writer(w);
            let h = b.reg.insert_fresh(Obj::Writer(w));
            proof {
                lemma_objs_wf_after_insert(old(b).reg, b.reg, h, wo);
            }
            (h, CLanceError::success())
        },
        EngineOutcome::Failed(e) => (0u64, CLanceError::from_lance_error(e)),
        EngineOutcome::Fault => (0u64, CLanceError::internal_fault()),
    }
}

/// Appends one batch to an open writer. Appends on one handle are
/// serialized: the exclusive borrow of the bridge admits one in-flight
/// append at a time. The batch must match the writer's fixed schema; a
/// writer opened lazily adopts the first batch's schema. On an engine
/// failure or a contained fault the writer's state is unchanged and the
/// handle stays usable: the append lock is never left held.
pub fn lance_file_writer_write_batch(
    b: &mut Bridge,
    writer: u64,
    batch: &Batch,
    outcome: EngineOutcome<()>,
) -> (r: CLanceError)
    requires
        old(b).wf(),
    ensures
        final(b).wf(),
        r.wf(),
        old(b).started ==> final(b).started,
        !is_writer(*old(b), writer) ==> r.kind is InvalidInput && *final(b) == *old(b),
        is_writer(*old(b), writer) && writer_of(*old(b), writer).finished ==> r.kind
            is InvalidInput && *final(b) == *old(b),
        is_writer(*old(b), writer) && !writer_of(*old(b), writer).finished && !writer_accepts(
            writer_of(*old(b), writer),
            *batch,
        ) ==> r.kind is SchemaMismatch && *final(b) == *old(b),
        is_writer(*old(b), writer) && !writer_of(*old(b), writer).finished && writer_accepts(
            writer_of(*old(b), writer),
            *batch,
        ) && outcome is Completed ==> r.kind is Success && same_except(old(b)@, final(b)@, writer)
            && is_writer(*final(b), writer) && writer_of(*final(b), writer).content@ == writer_of(
            *old(b),
            writer,
        ).content@ + batch.rows@ && !writer_of(*final(b), writer).finished && (writer_of(
            *final(b),
            writer,
        ).schema matches Some(ws) && ws@ == batch.schema@),
        is_writer(*old(b), writer) && !writer_of(*old(b), writer).finished && writer_accepts(
            writer_of(*old(b), writer),
            *batch,
        ) && outcome is Failed ==> final(b)@ == old(b)@ && r.kind == kind_of(outcome.failure())
            && (r.message matches Some(m) && m@ == normalized(message_of(outcome.failure()))),
        is_writer(*old(b), writer) && !writer_of(*old(b), writer).finished && writer_accepts(
            writer_of(*old(b), writer),
            *batch,
        ) && outcome is Fault ==> final(b)@ == old(b)@ && r.kind is InternalFault,
{
    proof {
        reveal_strlit("Writer handle is null or invalid");
        reveal_strlit("Writer is already finished");
        reveal_strlit("Batch schema does not match the writer schema");
    }
    let accepted: bool = match b.reg.get(writer) {
        Some(Obj::Writer(w)) => {
            if w.finished {
                return CLanceError::invalid_input("Writer is already finished");
            }
            match &w.schema {
                Some(s) => batch.schema.same_as(s),
                None => true,
            }
        },
        _ => {
            return CLanceError::invalid_input("Writer handle is null or invalid");
        },
    };
    if !accepted {
        return CLanceError::schema_mismatch("Batch schema does not match the writer schema");
    }
    b.started = true;
    match outcome {
        EngineOutcome::Completed(_) => {
            proof {
                crate::registry::lemma_as_map_dom(b.reg.table@);
                let i = choose|i: int|
                    0 <= i < b.reg.table@.len() && (#[trigger] b.reg.table@[i]).0 == writer;
                assert(0 < writer < b.reg.next);
            }
            let taken = b.reg.take(writer);
            proof {
                lemma_objs_wf_after_remove(old(b).reg, b.reg, writer);
            }
            let w = match taken {
                Some(Obj::Writer(w)) => w,
                _ => {
                    proof {
                        assert(false);
                    }
                    return CLanceError::internal_fault();
                },
            };
            let ghost w0 = w;
            let adopted = match w.schema {
                Some(s) => s,
                None => batch.schema.duplicate(),
            };
            let mut content = w.content;
            let mut k: usize = 0;
            while k < batch.rows.len()
                invariant
                    k <= batch.rows@.len(),
                    content@ =~= w0.content@ + batch.rows@.subrange(0, k as int),
                decreases batch.rows@.len() - k,
            {
                content.push(batch.rows[k]);
                proof {
                    assert(content@ =~= w0.content@ + batch.rows@.subrange(0, k as int + 1));
                }
                k += 1;
            }
            proof {
                assert(batch.rows@.subrange(0, batch.rows@.len() as int) =~= batch.rows@);
            }
            let nw = WriterState { schema: Some(adopted), content, finished: false };
            let ghost no = Obj::Writer(nw);
            let ghost mid = b.reg;
            b.reg.put(writer, Obj::Writer(nw));
            proof {
                lemma_objs_wf_after_insert(mid, b.reg, writer, no);
                assert(same_except(old(b)@, b@, writer));
            }
            CLanceError::success()
        },
        EngineOutcome::Failed(e) => CLanceError::from_lance_error(e),
        EngineOutcome::Fault => CLanceError::internal_fault(),
    }
}

/// Finishes an open writer: flushes the file and reports the total number
/// of rows written, after which the handle accepts no further writes. On
/// an engine failure or a contained fault the writer is unchanged.
pub fn lance_file_writer_finish(b: &mut Bridge, writer: u64, outcome: EngineOutcome<()>) -> (r: (
    u64,
    CLanceError,
))
    requires
        old(b).wf(),
    ensures
        final(b).wf(),
        r.1.wf(),
        old(b).started ==> final(b).started,
        !is_writer(*old(b), writer) ==> r.0 == 0 && r.1.kind is InvalidInput && *final(b) == *old(
            b,
        ),
        is_writer(*old(b), writer) && writer_of(*old(b), writer).finished ==> r.0 == 0
            && r.1.kind is InvalidInput && *final(b) == *old(b),
        is_writer(*old(b), writer) && !writer_of(*old(b), writer).finished
            && outcome is Completed ==> r.0 == writer_of(*old(b), writer).content@.len()
            && r.1.kind is Success && same_except(old(b)@, final(b)@, writer) && is_writer(
            *final(b),
            writer,
        ) && writer_of(*final(b), writer).finished && writer_of(*final(b), writer).content
            == writer_of(*old(b), writer).content && writer_of(*final(b), writer).schema
            == writer_of(*old(b), writer).schema,
        is_writer(*old(b), writer) && !writer_of(*old(b), writer).finished && outcome is Failed
            ==> r.0 == 0 && final(b)@ == old(b)@ && r.1.kind == kind_of(outcome.failure()) && (
        r.1.message matches Some(m) && m@ == normalized(message_of(outcome.failure()))),
        is_writer(*old(b), writer) && !writer_of(*old(b), writer).finished && outcome is Fault
            ==> r.0 == 0 && final(b)@ == old(b)@ && r.1.kind is InternalFault,
{
    proof {
        reveal_strlit("Writer handle is null or invalid");
        reveal_strlit("Writer is already finished");
    }
    match b.reg.get(writer) {
        Some(Obj::Writer(w)) => {
            if w.finished {
                return (0u64, CLanceError::invalid_input("Writer is already finished"));
            }
        },
        _ => {
            return (0u64, CLanceError::invalid_input("Writer handle is null or invalid"));
        },
    };
    b.started = true;
    match outcome {
        EngineOutcome::Completed(_) => {
            proof {
                crate::registry::lemma_as_map_dom(b.reg.table@);
                let i = choose|i: int|
                    0 <= i < b.reg.table@.len() && (#[trigger] b.reg.table@[i]).0 == writer;
                assert(0 < writer < b.reg.next);
            }
            let taken = b.reg.take(writer);
            proof {
                lemma_objs_wf_after_remove(old(b).reg, b.reg, writer);
            }
            let w = match taken {
                Some(Obj::Writer(w)) => w,
                _ => {
                    proof {
                        assert(false);
                    }
                    return (0u64, CLanceError::internal_fault());
                },
            };
            let total = w.content.len() as u64;
            let nw = WriterState { schema: w.schema, content: w.content, finished: true };
            let ghost no = Obj::Writer(nw);
            let ghost mid = b.reg;
            b.reg.put(writer, Obj::Writer(nw));
            proof {
                lemma_objs_wf_after_insert(mid, b.reg, writer, no);
                assert(same_except(old(b)@, b@, writer));
            }
            (total, CLanceError::success())
        },
        EngineOutcome::Failed(e) => (0u64, CLanceError::from_lance_error(e)),
        EngineOutcome::Fault => (0u64, CLanceError::internal_fault()),
    }
}

/// Frees a writer handle. Freeing the null handle is a no-op, never a
/// fault. Freeing a handle twice, or freeing another kind of handle
/// through this operation, is the caller's obligation to avoid.
pub fn lance_file_writer_free(b: &mut Bridge, writer: u64)
    requires
        old(b).wf(),
        writer == 0 || is_writer(*old(b), writer),
    ensures
        final(b).wf(),
        final(b)@ == old(b)@.remove(writer),
        !final(b).live(writer),
        writer == 0 ==> *final(b) == *old(b),
        final(b).started == old(b).started,
{
    if writer != 0 {
        let _ = b.reg.take(writer);
        proof {
            lemma_objs_wf_after_remove(old(b).reg, b.reg, writer);
        }
    } else {
        proof {
            crate::registry::lemma_as_map_dom(b.reg.table@);
            assert(!b@.dom().contains(0u64));
            assert(b@.remove(0u64) =~= b@);
        }
    }
}

/// Round trip: a file read back through the reader path reports exactly
/// what a finished writer wrote — the same number of rows — and streaming
/// it out at any batch size returns exactly the written rows in append
/// order. The storage engine's contract supplies the hypothesis that the
/// reader's materialized rows are the writer's rows; this lemma
/// discharges the bridge's share of the round trip.
pub proof fn lemma_write_read_round_trip(w: WriterState, rd: ReaderState, n: nat)
    requires
        w.finished,
        rd.content@ == w.content@,
        n >= 1,
    ensures
        rd.content@.len() == w.content@.len(),
        chunk_rows(rd.content@, n).flatten() == w.content@,
{
    crate::stream::lemma_chunk_rows_flatten(rd.content@, n);
}

} // verus!