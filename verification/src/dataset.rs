//! Dataset handles: open, create, local metadata reads, version
//! operations, and free.

use vstd::prelude::*;
use crate::Bridge;
use crate::error::{CLanceError, EngineOutcome, kind_of, message_of, normalized};
use crate::registry::{adds_handle, Obj};
use crate::types::{batches_have_schema, Batch, Schema};

verus! {

/// The bridge-side state of one open dataset: the metadata materialized
/// when the handle was created, re-read only by an explicit checkout.
pub struct DatasetState {
    /// The dataset's schema.
    pub schema: Schema,
    /// The row count of the checked-out version.
    pub rows: u64,
    /// The checked-out version.
    pub version: u64,
    /// All versions the dataset has, oldest first.
    pub versions: Vec<u64>,
}

impl DatasetState {
    /// Well-formed dataset metadata: at least one version exists and the
    /// checked-out version is one of them.
    pub open spec fn wf(&self) -> bool {
        &&& self.versions@.len() > 0
        &&& self.versions@.contains(self.version)
    }

    /// Checks well-formedness, so that an embedding layer can validate
    /// metadata it assembled before handing it to an opening operation.
    pub fn check_wf(&self) -> (r: bool)
        ensures
            r == self.wf(),
    {
        let mut i: usize = 0;
        while i < self.versions.len()
            invariant
                i <= self.versions@.len(),
                forall|j: int| 0 <= j < i ==> self.versions@[j] != self.version,
            decreases self.versions@.len() - i,
        {
            if self.versions[i] == self.version {
                assert(self.versions@[i as int] == self.version);
                return true;
            }
            i += 1;
        }
        false
    }
}

/// Opens a dataset at a locator. The locator must not be null; the
/// engine's outcome — the materialized metadata, a classified failure, or
/// a caught fault — decides the rest. On success the caller receives a
/// fresh live handle; on any failure it receives the null handle and a
/// failure record, and no handle leaks.
pub fn lance_dataset_open(
    b: &mut Bridge,
    uri: Option<&String>,
    outcome: EngineOutcome<DatasetState>,
) -> (r: (u64, CLanceError))
    requires
        old(b).wf(),
        old(b).not_exhausted(),
        outcome is Completed ==> outcome.value().wf(),
    ensures
        final(b).wf(),
        r.1.wf(),
        old(b).started ==> final(b).started,
        r.0 != 0 <==> r.1.kind is Success,
        uri is None ==> r.0 == 0 && r.1.kind is InvalidInput && *final(b) == *old(b),
        uri is Some && outcome is Completed ==> r.0 != 0 && adds_handle(old(b)@, final(b)@, r.0)
            && final(b)@[r.0] == Obj::Dataset(outcome.value()) && r.1.kind is Success
            && final(b).started,
        uri is Some && outcome is Failed ==> r.0 == 0 && final(b)@ == old(b)@ && r.1.kind
            == kind_of(outcome.failure()) && (r.1.message matches Some(m) && m@ == normalized(
            message_of(outcome.failure()),
        )),
        uri is Some && outcome is Fault ==> r.0 == 0 && final(b)@ == old(b)@
            && r.1.kind is InternalFault,
{
    match uri {
        None => {
            proof {
                reveal_strlit("Locator is null");
            }
            (0u64, CLanceError::invalid_input("Locator is null"))
        },
        Some(_) => {
            b.started = true;
            match outcome {
                EngineOutcome::Completed(d) => {
                    let ghost d0 = d;
                    let h = b.reg.insert_fresh(Obj::Dataset(d));
                    proof {
                        crate::registry::lemma_objs_wf_after_insert(old(b).reg, b.reg, h, Obj::Dataset(d0));
                    }
                    (h, CLanceError::success())
                },
                EngineOutcome::Failed(e) => (0u64, CLanceError::from_lance_error(e)),
                EngineOutcome::Fault => (0u64, CLanceError::internal_fault()),
            }
        },
    }
}

/// Creates a new dataset at a locator from a schema. The engine outcome
/// for a successful creation carries the new dataset's metadata: its
/// schema is the given one and it has no rows yet.
pub fn lance_dataset_create(
    b: &mut Bridge,
    uri: Option<&String>,
    schema: &Schema,
    outcome: EngineOutcome<DatasetState>,
) -> (r: (u64, CLanceError))
    requires
        old(b).wf(),
        old(b).not_exhausted(),
        outcome is Completed ==> outcome.value().wf() && outcome.value().schema@ == schema@
            && outcome.value().rows == 0,
    ensures
        final(b).wf(),
        r.1.wf(),
        old(b).started ==> final(b).started,
        r.0 != 0 <==> r.1.kind is Success,
        uri is None ==> r.0 == 0 && r.1.kind is InvalidInput && *final(b) == *old(b),
        uri is Some && outcome is Completed ==> r.0 != 0 && adds_handle(old(b)@, final(b)@, r.0)
            && final(b)@[r.0] == Obj::Dataset(outcome.value()) && r.1.kind is Success
            && final(b).started,
        uri is Some && outcome is Failed ==> r.0 == 0 && final(b)@ == old(b)@ && r.1.kind
            == kind_of(outcome.failure()) && (r.1.message matches Some(m) && m@ == normalized(
            message_of(outcome.failure()),
        )),
        uri is Some && outcome is Fault ==> r.0 == 0 && final(b)@ == old(b)@
            && r.1.kind is InternalFault,
{
    match uri {
        None => {
            proof {
                reveal_strlit("Locator is null");
            }
            (0u64, CLanceError::invalid_input("Locator is null"))
        },
        Some(_) => {
            b.started = true;
            match outcome {
                EngineOutcome::Completed(d) => {
                    let ghost d0 = d;
                    let h = b.reg.insert_fresh(Obj::Dataset(d));
                    proof {
                        crate::registry::lemma_objs_wf_after_insert(old(b).reg, b.reg, h, Obj::Dataset(d0));
                    }
                    (h, CLanceError::success())
                },
                EngineOutcome::Failed(e) => (0u64, CLanceError::from_lance_error(e)),
                EngineOutcome::Fault => (0u64, CLanceError::internal_fault()),
            }
        },
    }
}

/// Whether a handle is live and refers to a dataset.
pub open spec fn is_dataset(b: Bridge, h: u64) -> bool {
    b.live(h) && b@[h] is Dataset
}

/// The dataset state behind a live dataset handle.
pub open spec fn dataset_of(b: Bridge, h: u64) -> DatasetState
    recommends
        is_dataset(b, h),
{
    b@[h]->Dataset_0
}

/// Exports the schema of an open dataset: a local read of metadata
/// materialized at open. A null or unknown handle is rejected, never
/// dereferenced.
pub fn lance_dataset_schema(b: &Bridge, dataset: u64) -> (r: (Option<Schema>, CLanceError))
    requires
        b.wf(),
    ensures
        r.1.wf(),
        r.0 is Some <==> r.1.kind is Success,
        is_dataset(*b, dataset) <==> r.1.kind is Success,
        is_dataset(*b, dataset) ==> (r.0 matches Some(s) && s@ == dataset_of(*b, dataset).schema@),
        !is_dataset(*b, dataset) ==> r.1.kind is InvalidInput,
{
    proof {
        reveal_strlit("Dataset handle is null or invalid");
    }
    match b.reg.get(dataset) {
        Some(Obj::Dataset(d)) => (Some(d.schema.duplicate()), CLanceError::success()),
        _ => (None, CLanceError::invalid_input("Dataset handle is null or invalid")),
    }
}

/// The row count of an open dataset's checked-out version: a local read
/// of metadata materialized at open. A null or unknown handle yields a
/// zero count and an invalid-input record, never a fault.
pub fn lance_dataset_count_rows(b: &Bridge, dataset: u64) -> (r: (u64, CLanceError))
    requires
        b.wf(),
    ensures
        r.1.wf(),
        is_dataset(*b, dataset) <==> r.1.kind is Success,
        is_dataset(*b, dataset) ==> r.0 == dataset_of(*b, dataset).rows,
        !is_dataset(*b, dataset) ==> r.0 == 0 && r.1.kind is InvalidInput && (
        r.1.message matches Some(m) && m@.len() > 0),
{
    proof {
        reveal_strlit("Dataset handle is null or invalid");
    }
    match b.reg.get(dataset) {
        Some(Obj::Dataset(d)) => (d.rows, CLanceError::success()),
        _ => (0u64, CLanceError::invalid_input("Dataset handle is null or invalid")),
    }
}

/// The checked-out version of an open dataset: a local metadata read.
pub fn lance_dataset_version(b: &Bridge, dataset: u64) -> (r: (u64, CLanceError))
    requires
        b.wf(),
    ensures
        r.1.wf(),
        is_dataset(*b, dataset) <==> r.1.kind is Success,
        is_dataset(*b, dataset) ==> r.0 == dataset_of(*b, dataset).version,
        !is_dataset(*b, dataset) ==> r.0 == 0 && r.1.kind is InvalidInput,
{
    proof {
        reveal_strlit("Dataset handle is null or invalid");
    }
    match b.reg.get(dataset) {
        Some(Obj::Dataset(d)) => (d.version, CLanceError::success()),
        _ => (0u64, CLanceError::invalid_input("Dataset handle is null or invalid")),
    }
}

/// All versions of an open dataset, oldest first: a local metadata read.
pub fn lance_dataset_list_versions(b: &Bridge, dataset: u64) -> (r: (
    Option<Vec<u64>>,
    CLanceError,
))
    requires
        b.wf(),
    ensures
        r.1.wf(),
        r.0 is Some <==> r.1.kind is Success,
        is_dataset(*b, dataset) <==> r.1.kind is Success,
        is_dataset(*b, dataset) ==> (r.0 matches Some(v) && v@ == dataset_of(*b, dataset).versions@),
        !is_dataset(*b, dataset) ==> r.1.kind is InvalidInput,
{
    proof {
        reveal_strlit("Dataset handle is null or invalid");
    }
    match b.reg.get(dataset) {
        Some(Obj::Dataset(d)) => {
            let v = d.versions.clone();
            proof {
                assert(v@ =~= d.versions@);
            }
            (Some(v), CLanceError::success())
        },
        _ => (None, CLanceError::invalid_input("Dataset handle is null or invalid")),
    }
}

/// Moves an open dataset handle to the latest version: the engine re-reads
/// the metadata, and on success the handle's materialized state is
/// replaced by what it returned. On failure the handle and its state stay
/// as they were and remain usable.
pub fn lance_dataset_checkout_latest(
    b: &mut Bridge,
    dataset: u64,
    outcome: EngineOutcome<DatasetState>,
) -> (r: CLanceError)
    requires
        old(b).wf(),
        outcome is Completed ==> outcome.value().wf(),
    ensures
        final(b).wf(),
        r.wf(),
        old(b).started ==> final(b).started,
        !is_dataset(*old(b), dataset) ==> r.kind is InvalidInput && *final(b) == *old(b),
        is_dataset(*old(b), dataset) && outcome is Completed ==> final(b)@ == old(b)@.insert(
            dataset,
            Obj::Dataset(outcome.value()),
        ) && r.kind is Success && final(b).started,
        is_dataset(*old(b), dataset) && outcome is Failed ==> final(b)@ == old(b)@ && r.kind
            == kind_of(outcome.failure()),
        is_dataset(*old(b), dataset) && outcome is Fault ==> final(b)@ == old(b)@
            && r.kind is InternalFault,
{
    proof {
        reveal_strlit("Dataset handle is null or invalid");
    }
    let valid = match b.reg.get(dataset) {
        Some(Obj::Dataset(_)) => true,
        _ => false,
    };
    if !valid {
        return CLanceError::invalid_input("Dataset handle is null or invalid");
    }
    b.started = true;
    match outcome {
        EngineOutcome::Completed(d) => {
            let ghost d0 = d;
            b.reg.update(dataset, Obj::Dataset(d));
            proof {
                crate::registry::lemma_objs_wf_after_insert(old(b).reg, b.reg, dataset, Obj::Dataset(d0));
            }
            CLanceError::success()
        },
        EngineOutcome::Failed(e) => CLanceError::from_lance_error(e),
        EngineOutcome::Fault => CLanceError::internal_fault(),
    }
}

/// The total number of rows a batch sequence carries.
pub open spec fn total_rows(bs: Seq<Batch>) -> int
    decreases bs.len(),
{
    if bs.len() == 0 {
        0
    } else {
        total_rows(bs.drop_last()) + bs.last().rows@.len()
    }
}

/// Appends a stream of batches to an open dataset: each batch must carry
/// the dataset's schema, and on a committed append the dataset's row
/// count grows by the rows appended and a new version is recorded. On an
/// engine failure or a contained fault the dataset is unchanged and the
/// handle stays usable.
pub fn lance_dataset_append_stream(
    b: &mut Bridge,
    dataset: u64,
    batches: &Vec<Batch>,
    outcome: EngineOutcome<u64>,
) -> (r: CLanceError)
    requires
        old(b).wf(),
    ensures
        final(b).wf(),
        r.wf(),
        old(b).started ==> final(b).started,
        !is_dataset(*old(b), dataset) ==> r.kind is InvalidInput && *final(b) == *old(b),
        is_dataset(*old(b), dataset) && !batches_have_schema(
            batches@,
            dataset_of(*old(b), dataset).schema@,
        ) ==> r.kind is SchemaMismatch && *final(b) == *old(b),
        is_dataset(*old(b), dataset) && batches_have_schema(
            batches@,
            dataset_of(*old(b), dataset).schema@,
        ) && dataset_of(*old(b), dataset).rows + total_rows(batches@) > u64::MAX ==> r.kind
            is Unclassified && *final(b) == *old(b),
        is_dataset(*old(b), dataset) && batches_have_schema(
            batches@,
            dataset_of(*old(b), dataset).schema@,
        ) && dataset_of(*old(b), dataset).rows + total_rows(batches@) <= u64::MAX && outcome
            is Completed ==> r.kind is Success && crate::registry::same_except(
            old(b)@,
            final(b)@,
            dataset,
        ) && is_dataset(*final(b), dataset) && dataset_of(*final(b), dataset).rows == dataset_of(
            *old(b),
            dataset,
        ).rows + total_rows(batches@) && dataset_of(*final(b), dataset).version
            == outcome.value() && dataset_of(*final(b), dataset).versions@ == dataset_of(
            *old(b),
            dataset,
        ).versions@.push(outcome.value()) && dataset_of(*final(b), dataset).schema == dataset_of(
            *old(b),
            dataset,
        ).schema,
        is_dataset(*old(b), dataset) && batches_have_schema(
            batches@,
            dataset_of(*old(b), dataset).schema@,
        ) && dataset_of(*old(b), dataset).rows + total_rows(batches@) <= u64::MAX && outcome
            is Failed ==> r.kind == kind_of(outcome.failure()) && final(b)@ == old(b)@,
        is_dataset(*old(b), dataset) && batches_have_schema(
            batches@,
            dataset_of(*old(b), dataset).schema@,
        ) && dataset_of(*old(b), dataset).rows + total_rows(batches@) <= u64::MAX && outcome
            is Fault ==> r.kind is InternalFault && final(b)@ == old(b)@,
{
    proof {
        reveal_strlit("Dataset handle is null or invalid");
        reveal_strlit("Batch schema does not match the dataset schema");
        reveal_strlit("Appending would overflow the row counter");
    }
    let matches_schema: bool = match b.reg.get(dataset) {
        Some(Obj::Dataset(d)) => {
            let mut i: usize = 0;
            let mut ok = true;
            while i < batches.len()
                invariant
                    i <= batches@.len(),
                    ok == (forall|j: int|
                        0 <= j < i ==> (#[trigger] batches@[j]).schema@ == d.schema@),
                decreases batches@.len() - i,
            {
                if !batches[i].schema.same_as(&d.schema) {
                    assert(batches@[i as int].schema@ != d.schema@);
                    ok = false;
                }
                i += 1;
            }
            ok
        },
        _ => {
            return CLanceError::invalid_input("Dataset handle is null or invalid");
        },
    };
    if !matches_schema {
        return CLanceError::schema_mismatch("Batch schema does not match the dataset schema");
    }
    let overflow: bool = match b.reg.get(dataset) {
        Some(Obj::Dataset(d)) => {
            let mut total: u64 = d.rows;
            let mut i: usize = 0;
            let mut over = false;
            while i < batches.len()
                invariant
                    i <= batches@.len(),
                    !over ==> total == d.rows + total_rows(batches@.subrange(0, i as int)),
                    over ==> d.rows + total_rows(batches@.subrange(0, i as int)) > u64::MAX,
                    total_rows(batches@.subrange(0, i as int)) >= 0,
                decreases batches@.len() - i,
            {
                proof {
                    assert(batches@.subrange(0, i as int + 1).drop_last() =~= batches@.subrange(
                        0,
                        i as int,
                    ));
                    lemma_total_rows_nonneg(batches@.subrange(0, i as int));
                }
                let n = batches[i].rows.len() as u64;
                if !over {
                    if total > u64::MAX - n {
                        over = true;
                    } else {
                        total = total + n;
                    }
                }
                i += 1;
            }
            proof {
                assert(batches@.subrange(0, batches@.len() as int) =~= batches@);
            }
            over
        },
        _ => {
            proof {
                assert(false);
            }
            return CLanceError::internal_fault();
        },
    };
    if overflow {
        return CLanceError::unclassified("Appending would overflow the row counter");
    }
    b.started = true;
    match outcome {
        EngineOutcome::Completed(v) => {
            proof {
                crate::registry::lemma_as_map_dom(b.reg.table@);
                let i = choose|i: int|
                    0 <= i < b.reg.table@.len() && (#[trigger] b.reg.table@[i]).0 == dataset;
                assert(0 < dataset < b.reg.next);
            }
            let taken = b.reg.take(dataset);
            proof {
                crate::registry::lemma_objs_wf_after_remove(old(b).reg, b.reg, dataset);
            }
            let d = match taken {
                Some(Obj::Dataset(d)) => d,
                _ => {
                    proof {
                        assert(false);
                    }
                    return CLanceError::internal_fault();
                },
            };
            let ghost d0 = d;
            let mut total: u64 = d.rows;
            let mut i: usize = 0;
            proof {
                assert(batches@.subrange(0, 0) =~= Seq::<Batch>::empty());
            }
            while i < batches.len()
                invariant
                    i <= batches@.len(),
                    total == d0.rows + total_rows(batches@.subrange(0, i as int)),
                    d0.rows + total_rows(batches@) <= u64::MAX,
                    total_rows(batches@.subrange(0, i as int)) >= 0,
                decreases batches@.len() - i,
            {
                proof {
                    assert(batches@.subrange(0, i as int + 1).drop_last() =~= batches@.subrange(
                        0,
                        i as int,
                    ));
                    assert(batches@.subrange(0, i as int + 1).last() == batches@[i as int]);
                    lemma_total_rows_prefix_le(batches@, i as int + 1);
                    lemma_total_rows_nonneg(batches@.subrange(0, i as int));
                }
                let n = batches[i].rows.len() as u64;
                total = total + n;
                i += 1;
            }
            proof {
                assert(batches@.subrange(0, batches@.len() as int) =~= batches@);
            }
            let mut versions = d.versions;
            versions.push(v);
            let nd = DatasetState { schema: d.schema, rows: total, version: v, versions };
            let ghost no = Obj::Dataset(nd);
            let ghost mid = b.reg;
            b.reg.put(dataset, Obj::Dataset(nd));
            proof {
                assert(no.wf()) by {
                    assert(nd.versions@.last() == v);
                }
                crate::registry::lemma_objs_wf_after_insert(mid, b.reg, dataset, no);
                assert(crate::registry::same_except(old(b)@, b@, dataset));
            }
            CLanceError::success()
        },
        EngineOutcome::Failed(e) => CLanceError::from_lance_error(e),
        EngineOutcome::Fault => CLanceError::internal_fault(),
    }
}

/// The batch total is never negative.
pub proof fn lemma_total_rows_nonneg(bs: Seq<Batch>)
    ensures
        total_rows(bs) >= 0,
    decreases bs.len(),
{
    if bs.len() > 0 {
        lemma_total_rows_nonneg(bs.drop_last());
    }
}

/// A prefix of a batch sequence never carries more rows than the whole.
pub proof fn lemma_total_rows_prefix_le(bs: Seq<Batch>, i: int)
    requires
        0 <= i <= bs.len(),
    ensures
        total_rows(bs.subrange(0, i)) <= total_rows(bs),
    decreases bs.len(),
{
    if i == bs.len() {
        assert(bs.subrange(0, i) =~= bs);
    } else {
        assert(bs.subrange(0, i) =~= bs.drop_last().subrange(0, i));
        lemma_total_rows_prefix_le(bs.drop_last(), i);
    }
}

/// Frees an open dataset handle, reclaiming its state. Freeing the null
/// handle is a no-op, never a fault. Freeing a handle twice, or freeing
/// through this operation a handle of another kind, is the caller's
/// obligation to avoid, as with any manual-lifetime handle.
pub fn lance_dataset_free(b: &mut Bridge, dataset: u64)
    requires
        old(b).wf(),
        dataset == 0 || is_dataset(*old(b), dataset),
    ensures
        final(b).wf(),
        final(b)@ == old(b)@.remove(dataset),
        !final(b).live(dataset),
        dataset == 0 ==> *final(b) == *old(b),
        final(b).started == old(b).started,
{
    if dataset != 0 {
        let _ = b.reg.take(dataset);
        proof {
            crate::registry::lemma_objs_wf_after_remove(old(b).reg, b.reg, dataset);
        }
    } else {
        proof {
            crate::registry::lemma_as_map_dom(b.reg.table@);
            assert(!b@.dom().contains(0u64));
            assert(b@.remove(0u64) =~= b@);
        }
    }
}

} // verus!
