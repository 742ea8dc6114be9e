//! Batch stream handles: the pull protocol by which a finite, forward-only
//! sequence of batches crosses the boundary in source order.

use vstd::prelude::*;
use crate::Bridge;
use crate::error::CLanceError;
use crate::registry::Obj;
use crate::types::{Batch, Schema};

verus! {

/// The read-ahead depth used by the file read path: how many batches the
/// producer may materialize ahead of consumer demand. It bounds memory
/// use and never affects delivery order.
pub const DEFAULT_READ_AHEAD: u32 = 16;

/// The bridge-side state of one batch stream.
pub struct StreamState {
    /// The schema every delivered batch has.
    pub schema: Schema,
    /// The batches, in source row order.
    pub batches: Vec<Batch>,
    /// How many batches were already delivered.
    pub delivered: usize,
    /// The stream's read-ahead depth.
    pub readahead: u32,
}

impl StreamState {
    /// A well-formed stream has delivered no more than it holds, and all
    /// its batches carry its schema.
    pub open spec fn wf(&self) -> bool {
        &&& self.delivered <= self.batches@.len()
        &&& forall|i: int|
            0 <= i < self.batches@.len() ==> (#[trigger] self.batches@[i]).schema@ == self.schema@
    }

    /// The batches handed out so far, in order.
    pub open spec fn delivered_batches(&self) -> Seq<Batch> {
        self.batches@.subrange(0, self.delivered as int)
    }
}

/// Whether a handle is live and refers to a batch stream.
pub open spec fn is_stream(b: Bridge, h: u64) -> bool {
    b.live(h) && b@[h] is Stream
}

/// The stream state behind a live stream handle.
pub open spec fn stream_of(b: Bridge, h: u64) -> StreamState
    recommends
        is_stream(b, h),
{
    b@[h]->Stream_0
}

/// The row sequences a batch sequence carries, batch by batch.
pub open spec fn rows_of(bs: Seq<Batch>) -> Seq<Seq<u64>> {
    Seq::new(bs.len(), |i: int| bs[i].rows@)
}

/// Rows cut into consecutive batches of at most `n` rows: each batch but
/// the last holds exactly `n`, the last holds the remainder, and their
/// concatenation is the original sequence.
pub open spec fn chunk_rows(s: Seq<u64>, n: nat) -> Seq<Seq<u64>>
    decreases s.len(),
{
    if n == 0 || s.len() == 0 {
        Seq::empty()
    } else if s.len() <= n {
        seq![s]
    } else {
        seq![s.take(n as int)] + chunk_rows(s.skip(n as int), n)
    }
}

/// Chunking loses no row and reorders nothing: the concatenation of the
/// chunks is the original row sequence, whatever the batch size.
pub proof fn lemma_chunk_rows_flatten(s: Seq<u64>, n: nat)
    requires
        n >= 1,
    ensures
        chunk_rows(s, n).flatten() == s,
    decreases s.len(),
{
    if s.len() == 0 {
        assert(chunk_rows(s, n).flatten() =~= s);
    } else if s.len() <= n {
        assert(chunk_rows(s, n).first() == s);
        assert(chunk_rows(s, n).drop_first() =~= Seq::<Seq<u64>>::empty());
        assert(Seq::<Seq<u64>>::empty().flatten() =~= Seq::<u64>::empty());
        assert(chunk_rows(s, n).flatten() =~= s);
    } else {
        lemma_chunk_rows_flatten(s.skip(n as int), n);
        assert(chunk_rows(s, n).first() == s.take(n as int));
        assert(chunk_rows(s, n).drop_first() =~= chunk_rows(s.skip(n as int), n));
        assert(chunk_rows(s, n).flatten() =~= s.take(n as int) + s.skip(n as int));
        assert(s.take(n as int) + s.skip(n as int) =~= s);
    }
}

/// Delivery order is the batch order alone: two streams holding the same
/// batches and having delivered the same number of them have handed out
/// the same batches in the same order, whatever their read-ahead depths.
pub proof fn lemma_read_ahead_never_reorders(a: StreamState, b: StreamState)
    requires
        a.batches == b.batches,
        a.delivered == b.delivered,
    ensures
        a.delivered_batches() == b.delivered_batches(),
{
}

/// A fully consumed stream whose batches chunk a row sequence has
/// delivered exactly that sequence, in its original order, whatever the
/// batch size and read-ahead depth were.
pub proof fn lemma_stream_delivers_source_order(st: StreamState, content: Seq<u64>, n: nat)
    requires
        n >= 1,
        rows_of(st.batches@) == chunk_rows(content, n),
        st.delivered == st.batches@.len(),
    ensures
        rows_of(st.delivered_batches()).flatten() == content,
{
    assert(st.delivered_batches() =~= st.batches@);
    assert(rows_of(st.delivered_batches()) =~= rows_of(st.batches@));
    lemma_chunk_rows_flatten(content, n);
}

/// Cuts rows into batches of at most `batch_size` rows under the given
/// schema, preserving row order.
pub fn chunk_batches(content: &Vec<u64>, batch_size: u32, schema: &Schema) -> (r: Vec<Batch>)
    requires
        batch_size >= 1,
    ensures
        rows_of(r@) == chunk_rows(content@, batch_size as nat),
        forall|i: int| 0 <= i < r@.len() ==> (#[trigger] r@[i]).schema@ == schema@,
{
    let n = batch_size as usize;
    let mut out: Vec<Batch> = Vec::new();
    let mut i: usize = 0;
    proof {
        assert(content@.skip(0) =~= content@);
    }
    while i < content.len()
        invariant
            n == batch_size as usize,
            n >= 1,
            i <= content@.len(),
            chunk_rows(content@, batch_size as nat) =~= rows_of(out@) + chunk_rows(
                content@.skip(i as int),
                batch_size as nat,
            ),
            forall|k: int| 0 <= k < out@.len() ==> (#[trigger] out@[k]).schema@ == schema@,
        decreases content@.len() - i,
    {
        let end = if content.len() - i > n {
            i + n
        } else {
            content.len()
        };
        let mut rows: Vec<u64> = Vec::new();
        let mut j = i;
        while j < end
            invariant
                i <= j <= end,
                end <= content@.len(),
                rows@ =~= content@.subrange(i as int, j as int),
            decreases end - j,
        {
            rows.push(content[j]);
            proof {
                assert(rows@ =~= content@.subrange(i as int, j as int + 1));
            }
            j += 1;
        }
        let ghost rows0 = rows@;
        let ghost out0 = out@;
        out.push(Batch { schema: schema.duplicate(), rows });
        proof {
            let g = batch_size as nat;
            assert(content@.skip(i as int).len() == content@.len() - i);
            if content@.len() - i <= g {
                assert(content@.skip(i as int) =~= content@.subrange(i as int, end as int));
                assert(chunk_rows(content@.skip(i as int), g) =~= seq![rows0]);
                assert(content@.skip(end as int) =~= Seq::<u64>::empty());
            } else {
                assert(content@.skip(i as int).take(g as int) =~= content@.subrange(
                    i as int,
                    end as int,
                ));
                assert(content@.skip(i as int).skip(g as int) =~= content@.skip(end as int));
                assert(chunk_rows(content@.skip(i as int), g) =~= seq![rows0] + chunk_rows(
                    content@.skip(end as int),
                    g,
                ));
            }
            assert(rows_of(out@) =~= rows_of(out0) + seq![rows0]);
            assert(chunk_rows(content@, g) =~= rows_of(out@) + chunk_rows(
                content@.skip(end as int),
                g,
            ));
        }
        i = end;
    }
    proof {
        assert(content@.skip(i as int) =~= Seq::<u64>::empty());
        assert(chunk_rows(content@, batch_size as nat) =~= rows_of(out@));
    }
    out
}

/// Pulls the next batch from a live stream: the batches come out in
/// source order, one per call, then an end-of-stream signal (no batch,
/// success record) once all were delivered. A null or unknown handle is
/// rejected, never dereferenced.
pub fn lance_stream_next(b: &mut Bridge, stream: u64) -> (r: (Option<Batch>, CLanceError))
    requires
        old(b).wf(),
    ensures
        final(b).wf(),
        r.1.wf(),
        old(b).started ==> final(b).started,
        !is_stream(*old(b), stream) ==> r.0 is None && r.1.kind is InvalidInput && *final(b)
            == *old(b),
        is_stream(*old(b), stream) && stream_of(*old(b), stream).delivered < stream_of(
            *old(b),
            stream,
        ).batches@.len() ==> (r.0 matches Some(batch) && batch.schema@ == stream_of(
            *old(b),
            stream,
        ).schema@ && batch.rows@ == stream_of(*old(b), stream).batches@[stream_of(
            *old(b),
            stream,
        ).delivered as int].rows@) && r.1.kind is Success && crate::registry::same_except(
            old(b)@,
            final(b)@,
            stream,
        ) && is_stream(*final(b), stream) && stream_of(*final(b), stream).batches == stream_of(
            *old(b),
            stream,
        ).batches && stream_of(*final(b), stream).delivered == stream_of(
            *old(b),
            stream,
        ).delivered + 1 && stream_of(*final(b), stream).schema == stream_of(
            *old(b),
            stream,
        ).schema && stream_of(*final(b), stream).readahead == stream_of(
            *old(b),
            stream,
        ).readahead,
        is_stream(*old(b), stream) && stream_of(*old(b), stream).delivered == stream_of(
            *old(b),
            stream,
        ).batches@.len() ==> r.0 is None && r.1.kind is Success && *final(b) == *old(b),
{
    proof {
        reveal_strlit("Stream handle is null or invalid");
    }
    let exhausted = match b.reg.get(stream) {
        Some(Obj::Stream(st)) => st.delivered >= st.batches.len(),
        _ => {
            return (None, CLanceError::invalid_input("Stream handle is null or invalid"));
        },
    };
    if exhausted {
        return (None, CLanceError::success());
    }
    proof {
        crate::registry::lemma_as_map_dom(b.reg.table@);
        let i = choose|i: int|
            0 <= i < b.reg.table@.len() && (#[trigger] b.reg.table@[i]).0 == stream;
        assert(0 < stream < b.reg.next);
    }
    let taken = b.reg.take(stream);
    proof {
        crate::registry::lemma_objs_wf_after_remove(old(b).reg, b.reg, stream);
    }
    let st = match taken {
        Some(Obj::Stream(st)) => st,
        _ => {
            proof {
                assert(false);
            }
            return (None, CLanceError::internal_fault());
        },
    };
    proof {
        assert(old(b)@[stream].wf());
    }
    let batch = st.batches[st.delivered].duplicate();
    let ns = StreamState {
        schema: st.schema,
        batches: st.batches,
        delivered: st.delivered + 1,
        readahead: st.readahead,
    };
    let ghost no = Obj::Stream(ns);
    let ghost mid = b.reg;
    b.reg.put(stream, Obj::Stream(ns));
    proof {
        crate::registry::lemma_objs_wf_after_insert(mid, b.reg, stream, no);
        assert(crate::registry::same_except(old(b)@, b@, stream));
    }
    (Some(batch), CLanceError::success())
}

/// Frees a stream handle at any point, before or after exhaustion: the
/// undelivered batches are reclaimed with it and nothing leaks. Freeing
/// the null handle is a no-op, never a fault.
pub fn lance_stream_free(b: &mut Bridge, stream: u64)
    requires
        old(b).wf(),
        stream == 0 || is_stream(*old(b), stream),
    ensures
        final(b).wf(),
        final(b)@ == old(b)@.remove(stream),
        !final(b).live(stream),
        stream == 0 ==> *final(b) == *old(b),
        final(b).started == old(b).started,
{
    if stream != 0 {
        let _ = b.reg.take(stream);
        proof {
            crate::registry::lemma_objs_wf_after_remove(old(b).reg, b.reg, stream);
        }
    } else {
        proof {
            crate::registry::lemma_as_map_dom(b.reg.table@);
            assert(!b@.dom().contains(0u64));
            assert(b@.remove(0u64) =~= b@);
        }
    }
}

} // verus!
