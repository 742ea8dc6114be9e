//! Scanner (cursor) handles: derived from a dataset and narrowed by
//! consuming operations, each of which invalidates the handle it is given
//! and, on success, returns a fresh one.

use vstd::prelude::*;
use crate::Bridge;
use crate::dataset::{dataset_of, is_dataset};
use crate::error::{CLanceError, EngineOutcome, kind_of, message_of, normalized};
use crate::registry::{
    adds_handle, lemma_high_not_live, lemma_objs_wf_after_insert, lemma_objs_wf_after_remove, Obj,
    swaps_handle,
};
use crate::stream::{StreamState, DEFAULT_READ_AHEAD};
use crate::types::{all_in, batches_have_schema, Batch, Schema};

verus! {

/// The bridge-side state of one scanner: the schema its output will have
/// after the projections applied so far, and the filter applied so far.
pub struct ScannerState {
    /// The scanner's output schema.
    pub schema: Schema,
    /// The predicate expression narrowing the rows, if one was applied.
    pub filter: Option<String>,
}

/// Whether a handle is live and refers to a scanner.
pub open spec fn is_scanner(b: Bridge, h: u64) -> bool {
    b.live(h) && b@[h] is Scanner
}

/// The scanner state behind a live scanner handle.
pub open spec fn scanner_of(b: Bridge, h: u64) -> ScannerState
    recommends
        is_scanner(b, h),
{
    b@[h]->Scanner_0
}

/// Derives a scanner over an open dataset. The dataset handle stays live
/// and unchanged; on success a fresh scanner handle is returned whose
/// output schema is the dataset's full schema, with no filter yet.
pub fn lance_dataset_scanner(b: &mut Bridge, dataset: u64) -> (r: (u64, CLanceError))
    requires
        old(b).wf(),
        old(b).not_exhausted(),
    ensures
        final(b).wf(),
        r.1.wf(),
        old(b).started ==> final(b).started,
        r.0 != 0 <==> r.1.kind is Success,
        !is_dataset(*old(b), dataset) ==> r.0 == 0 && r.1.kind is InvalidInput && *final(b)
            == *old(b),
        is_dataset(*old(b), dataset) ==> r.0 != 0 && adds_handle(old(b)@, final(b)@, r.0)
            && is_scanner(*final(b), r.0) && scanner_of(*final(b), r.0).schema@ == dataset_of(
            *old(b),
            dataset,
        ).schema@ && scanner_of(*final(b), r.0).filter is None && r.1.kind is Success,
{
    proof {
        reveal_strlit("Dataset handle is null or invalid");
    }
    let schema_copy = match b.reg.get(dataset) {
        Some(Obj::Dataset(d)) => d.schema.duplicate(),
        _ => {
            return (0u64, CLanceError::invalid_input("Dataset handle is null or invalid"));
        },
    };
    let s = ScannerState { schema: schema_copy, filter: None };
    let ghost so = Obj::Scanner(s);
    let h = b.reg.insert_fresh(Obj::Scanner(s));
    proof {
        lemma_objs_wf_after_insert(old(b).reg, b.reg, h, so);
    }
    (h, CLanceError::success())
}

/// Narrows a scanner to the given columns. The given handle is consumed
/// the instant the call is made on a live scanner, whether or not the
/// narrowing succeeds. Every requested column must exist in the scanner's
/// schema; on success a fresh handle to the narrowed scanner is returned,
/// on a unknown column the null handle and a schema-mismatch record.
pub fn lance_scanner_project(b: &mut Bridge, scanner: u64, columns: &Vec<String>) -> (r: (
    u64,
    CLanceError,
))
    requires
        old(b).wf(),
        old(b).not_exhausted(),
    ensures
        final(b).wf(),
        r.1.wf(),
        old(b).started ==> final(b).started,
        r.0 != 0 <==> r.1.kind is Success,
        !is_scanner(*old(b), scanner) ==> r.0 == 0 && r.1.kind is InvalidInput && *final(b)
            == *old(b),
        is_scanner(*old(b), scanner) ==> !final(b).live(scanner),
        is_scanner(*old(b), scanner) && all_in(
            scanner_of(*old(b), scanner).schema@,
            columns.deep_view(),
        ) ==> r.0 != 0 && swaps_handle(old(b)@, final(b)@, scanner, r.0) && is_scanner(
            *final(b),
            r.0,
        ) && scanner_of(*final(b), r.0).schema@ == columns.deep_view() && scanner_of(
            *final(b),
            r.0,
        ).filter == scanner_of(*old(b), scanner).filter && r.1.kind is Success,
        is_scanner(*old(b), scanner) && !all_in(
            scanner_of(*old(b), scanner).schema@,
            columns.deep_view(),
        ) ==> r.0 == 0 && final(b)@ == old(b)@.remove(scanner)
            && r.1.kind is SchemaMismatch,
{
    proof {
        reveal_strlit("Scanner handle is null or invalid");
        reveal_strlit("A requested column is not in the schema");
    }
    let valid = match b.reg.get(scanner) {
        Some(Obj::Scanner(_)) => true,
        _ => false,
    };
    if !valid {
        return (0u64, CLanceError::invalid_input("Scanner handle is null or invalid"));
    }
    b.started = true;
    let taken = b.reg.take(scanner);
    proof {
        lemma_objs_wf_after_remove(old(b).reg, b.reg, scanner);
    }
    let s = match taken {
        Some(Obj::Scanner(s)) => s,
        _ => {
            proof {
                assert(false);
            }
            return (0u64, CLanceError::internal_fault());
        },
    };
    match s.schema.project(columns) {
        Some(narrowed) => {
            let ghost mid = b.reg;
            let ns = ScannerState { schema: narrowed, filter: s.filter };
            let ghost no = Obj::Scanner(ns);
            let h = b.reg.insert_fresh(Obj::Scanner(ns));
            proof {
                lemma_objs_wf_after_insert(mid, b.reg, h, no);
                lemma_high_not_live(old(b).reg, h);
                assert(swaps_handle(old(b)@, b@, scanner, h));
            }
            (h, CLanceError::success())
        },
        None => (0u64, CLanceError::schema_mismatch("A requested column is not in the schema")),
    }
}

/// Narrows a scanner by a filter predicate. A null predicate is rejected
/// without consuming the handle; a live scanner handle is consumed the
/// instant the call proceeds, whether or not the engine accepts the
/// predicate. On success a fresh handle carrying the filter is returned.
pub fn lance_scanner_filter(
    b: &mut Bridge,
    scanner: u64,
    predicate: Option<&String>,
    outcome: EngineOutcome<()>,
) -> (r: (u64, CLanceError))
    requires
        old(b).wf(),
        old(b).not_exhausted(),
    ensures
        final(b).wf(),
        r.1.wf(),
        old(b).started ==> final(b).started,
        r.0 != 0 <==> r.1.kind is Success,
        !is_scanner(*old(b), scanner) || predicate is None ==> r.0 == 0
            && r.1.kind is InvalidInput && *final(b) == *old(b),
        is_scanner(*old(b), scanner) && predicate is Some ==> !final(b).live(scanner)
            && final(b).started,
        is_scanner(*old(b), scanner) && predicate is Some && outcome is Completed ==> r.0 != 0
            && swaps_handle(old(b)@, final(b)@, scanner, r.0) && is_scanner(*final(b), r.0)
            && scanner_of(*final(b), r.0).schema == scanner_of(*old(b), scanner).schema && (
        scanner_of(*final(b), r.0).filter matches Some(f) && f@ == predicate->0@)
            && r.1.kind is Success,
        is_scanner(*old(b), scanner) && predicate is Some && outcome is Failed ==> r.0 == 0
            && final(b)@ == old(b)@.remove(scanner) && r.1.kind == kind_of(outcome.failure()) && (
        r.1.message matches Some(m) && m@ == normalized(message_of(outcome.failure()))),
        is_scanner(*old(b), scanner) && predicate is Some && outcome is Fault ==> r.0 == 0
            && final(b)@ == old(b)@.remove(scanner) && r.1.kind is InternalFault,
{
    proof {
        reveal_strlit("Scanner handle or predicate is null or invalid");
    }
    let valid = match b.reg.get(scanner) {
        Some(Obj::Scanner(_)) => true,
        _ => false,
    };
    let p = match predicate {
        Some(p) => p,
        None => {
            return (
                0u64,
                CLanceError::invalid_input("Scanner handle or predicate is null or invalid"),
            );
        },
    };
    if !valid {
        return (0u64, CLanceError::invalid_input("Scanner handle or predicate is null or invalid"));
    }
    b.started = true;
    let taken = b.reg.take(scanner);
    proof {
        lemma_objs_wf_after_remove(old(b).reg, b.reg, scanner);
    }
    let s = match taken {
        Some(Obj::Scanner(s)) => s,
        _ => {
            proof {
                assert(false);
            }
            return (0u64, CLanceError::internal_fault());
        },
    };
    match outcome {
        EngineOutcome::Completed(_) => {
            let ghost mid = b.reg;
            let ns = ScannerState { schema: s.schema, filter: Some(p.clone()) };
            let ghost no = Obj::Scanner(ns);
            let h = b.reg.insert_fresh(Obj::Scanner(ns));
            proof {
                lemma_objs_wf_after_insert(mid, b.reg, h, no);
                lemma_high_not_live(old(b).reg, h);
                assert(swaps_handle(old(b)@, b@, scanner, h));
            }
            (h, CLanceError::success())
        },
        EngineOutcome::Failed(e) => (0u64, CLanceError::from_lance_error(e)),
        EngineOutcome::Fault => (0u64, CLanceError::internal_fault()),
    }
}

/// Materializes a scanner as a batch stream. The scanner handle stays
/// live; on success a fresh stream handle is returned that will deliver
/// the engine's batches in source row order.
pub fn lance_scanner_to_stream(
    b: &mut Bridge,
    scanner: u64,
    outcome: EngineOutcome<Vec<Batch>>,
) -> (r: (u64, CLanceError))
    requires
        old(b).wf(),
        old(b).not_exhausted(),
        is_scanner(*old(b), scanner) && outcome is Completed ==> batches_have_schema(
            outcome.value()@,
            scanner_of(*old(b), scanner).schema@,
        ),
    ensures
        final(b).wf(),
        r.1.wf(),
        old(b).started ==> final(b).started,
        r.0 != 0 <==> r.1.kind is Success,
        !is_scanner(*old(b), scanner) ==> r.0 == 0 && r.1.kind is InvalidInput && *final(b)
            == *old(b),
        is_scanner(*old(b), scanner) && outcome is Completed ==> r.0 != 0 && adds_handle(
            old(b)@,
            final(b)@,
            r.0,
        ) && crate::stream::is_stream(*final(b), r.0) && crate::stream::stream_of(*final(b), r.0).batches
            == outcome.value() && crate::stream::stream_of(*final(b), r.0).delivered == 0
            && crate::stream::stream_of(*final(b), r.0).schema@ == scanner_of(*old(b), scanner).schema@
            && crate::stream::stream_of(*final(b), r.0).readahead == DEFAULT_READ_AHEAD
            && r.1.kind is Success,
        is_scanner(*old(b), scanner) && outcome is Failed ==> r.0 == 0 && final(b)@ == old(b)@
            && r.1.kind == kind_of(outcome.failure()),
        is_scanner(*old(b), scanner) && outcome is Fault ==> r.0 == 0 && final(b)@ == old(b)@
            && r.1.kind is InternalFault,
{
    proof {
        reveal_strlit("Scanner handle is null or invalid");
    }
    let schema_copy = match b.reg.get(scanner) {
        Some(Obj::Scanner(s)) => s.schema.duplicate(),
        _ => {
            return (0u64, CLanceError::invalid_input("Scanner handle is null or invalid"));
        },
    };
    b.started = true;
    match outcome {
        EngineOutcome::Completed(batches) => {
            let st = StreamState {
                schema: schema_copy,
                batches,
                delivered: 0,
                readahead: DEFAULT_READ_AHEAD,
            };
            let ghost so = Obj::Stream(st);
            let h = b.reg.insert_fresh(Obj::Stream(st));
            proof {
                lemma_objs_wf_after_insert(old(b).reg, b.reg, h, so);
            }
            (h, CLanceError::success())
        },
        EngineOutcome::Failed(e) => (0u64, CLanceError::from_lance_error(e)),
        EngineOutcome::Fault => (0u64, CLanceError::internal_fault()),
    }
}

/// Frees a scanner handle. Freeing the null handle is a no-op, never a
/// fault. Freeing a handle twice, or freeing another kind of handle
/// through this operation, is the caller's obligation to avoid.
pub fn lance_scanner_free(b: &mut Bridge, scanner: u64)
    requires
        old(b).wf(),
        scanner == 0 || is_scanner(*old(b), scanner),
    ensures
        final(b).wf(),
        final(b)@ == old(b)@.remove(scanner),
        !final(b).live(scanner),
        scanner == 0 ==> *final(b) == *old(b),
        final(b).started == old(b).started,
{
    if scanner != 0 {
        let _ = b.reg.take(scanner);
        proof {
            lemma_objs_wf_after_remove(old(b).reg, b.reg, scanner);
        }
    } else {
        proof {
            crate::registry::lemma_as_map_dom(b.reg.table@);
            assert(!b@.dom().contains(0u64));
            assert(b@.remove(0u64) =~= b@);
        }
    }
}

} // verus!
