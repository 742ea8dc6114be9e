//! The handle registry: every engine object the bridge exposes is
//! represented to the caller as a nonzero, pointer-sized handle, valid
//! from the success of its creating operation until its paired free.
//!
//! The registry's mathematical view is a map from handle to object.
//! Creating inserts a fresh handle, freeing removes it, and a handle value
//! is never reissued, so a freed handle can never be confused with a live
//! one.

use vstd::prelude::*;
use crate::dataset::DatasetState;
use crate::file::{ReaderState, WriterState};
use crate::scanner::ScannerState;
use crate::stream::StreamState;

verus! {

/// One registered engine object.
pub enum Obj {
    Dataset(DatasetState),
    Scanner(ScannerState),
    Reader(ReaderState),
    Writer(WriterState),
    Stream(StreamState),
}

impl Obj {
    /// Well-formedness of the object behind a handle.
    pub open spec fn wf(&self) -> bool {
        match *self {
            Obj::Dataset(d) => d.wf(),
            Obj::Scanner(_) => true,
            Obj::Reader(_) => true,
            Obj::Writer(_) => true,
            Obj::Stream(st) => st.wf(),
        }
    }
}

/// The map a handle table denotes: each entry's handle maps to its object.
pub open spec fn as_map(s: Seq<(u64, Obj)>) -> Map<u64, Obj>
    decreases s.len(),
{
    if s.len() == 0 {
        Map::empty()
    } else {
        as_map(s.drop_last()).insert(s.last().0, s.last().1)
    }
}

/// No handle occurs twice in the table.
pub open spec fn unique_keys(s: Seq<(u64, Obj)>) -> bool {
    forall|i: int, j: int| 0 <= i < j < s.len() ==> (#[trigger] s[i]).0 != (#[trigger] s[j]).0
}

/// A handle is in the table's map exactly when some entry holds it.
pub proof fn lemma_as_map_dom(s: Seq<(u64, Obj)>)
    ensures
        forall|k: u64|
            #[trigger] as_map(s).dom().contains(k) <==> (exists|i: int|
                0 <= i < s.len() && (#[trigger] s[i]).0 == k),
    decreases s.len(),
{
    if s.len() > 0 {
        lemma_as_map_dom(s.drop_last());
        assert forall|k: u64| #[trigger] as_map(s).dom().contains(k) implies (exists|i: int|
            0 <= i < s.len() && (#[trigger] s[i]).0 == k) by {
            if k == s.last().0 {
                assert(s[s.len() - 1].0 == k);
            } else {
                assert(as_map(s.drop_last()).dom().contains(k));
                let i = choose|i: int| 0 <= i < s.drop_last().len() && (#[trigger] s.drop_last()[i]).0
                    == k;
                assert(s.drop_last()[i] == s[i]);
                assert(s[i].0 == k);
            }
        }
        assert forall|k: u64| (exists|i: int| 0 <= i < s.len() && (#[trigger] s[i]).0 == k) implies
            #[trigger] as_map(s).dom().contains(k) by {
            let i = choose|i: int| 0 <= i < s.len() && (#[trigger] s[i]).0 == k;
            if i < s.len() - 1 {
                assert(s.drop_last()[i].0 == k);
                assert(as_map(s.drop_last()).dom().contains(k));
            }
        }
    }
}

/// Under unique handles, each entry's handle maps to that entry's object.
pub proof fn lemma_as_map_index(s: Seq<(u64, Obj)>, i: int)
    requires
        unique_keys(s),
        0 <= i < s.len(),
    ensures
        as_map(s).dom().contains(s[i].0),
        as_map(s)[s[i].0] == s[i].1,
    decreases s.len(),
{
    lemma_as_map_dom(s);
    if i < s.len() - 1 {
        assert(unique_keys(s.drop_last())) by {
            assert(forall|p: int, q: int|
                0 <= p < q < s.drop_last().len() ==> (#[trigger] s.drop_last()[p]).0 != (
                #[trigger] s.drop_last()[q]).0);
        }
        lemma_as_map_index(s.drop_last(), i);
        assert(s.drop_last()[i] == s[i]);
        assert(s[i].0 != s.last().0);
    }
}

/// Under unique handles, removing an entry from the table removes exactly
/// its handle from the map.
pub proof fn lemma_as_map_remove(s: Seq<(u64, Obj)>, i: int)
    requires
        unique_keys(s),
        0 <= i < s.len(),
    ensures
        as_map(s.remove(i)) == as_map(s).remove(s[i].0),
    decreases s.len(),
{
    assert(unique_keys(s.drop_last())) by {
        assert(forall|p: int, q: int|
            0 <= p < q < s.drop_last().len() ==> (#[trigger] s.drop_last()[p]).0 != (
            #[trigger] s.drop_last()[q]).0);
    }
    if i == s.len() - 1 {
        assert(s.remove(i) =~= s.drop_last());
        lemma_as_map_dom(s.drop_last());
        assert(!as_map(s.drop_last()).dom().contains(s.last().0)) by {
            assert(forall|j: int|
                0 <= j < s.drop_last().len() ==> (#[trigger] s.drop_last()[j]).0 == s[j].0 && s[j].0
                    != s.last().0);
        }
        assert(as_map(s).remove(s[i].0) =~= as_map(s.drop_last()));
    } else {
        assert(s.remove(i).drop_last() =~= s.drop_last().remove(i));
        assert(s.remove(i).last() == s.last());
        lemma_as_map_remove(s.drop_last(), i);
        assert(s.drop_last()[i] == s[i]);
        assert(s[i].0 != s.last().0);
        assert(as_map(s.remove(i)) == as_map(s.drop_last().remove(i)).insert(
            s.last().0,
            s.last().1,
        ));
        assert(as_map(s.drop_last()).remove(s[i].0).insert(s.last().0, s.last().1) =~= as_map(
            s.drop_last(),
        ).insert(s.last().0, s.last().1).remove(s[i].0));
    }
}

/// The creating transition: `post` is `pre` with exactly the fresh handle
/// `h` added; every handle live before is live after, unchanged.
pub open spec fn adds_handle(pre: Map<u64, Obj>, post: Map<u64, Obj>, h: u64) -> bool {
    &&& !pre.dom().contains(h)
    &&& post.dom() =~= pre.dom().insert(h)
    &&& forall|k: u64| pre.dom().contains(k) ==> post[k] == pre[k]
}

/// The narrowing transition: `post` is `pre` with the consumed handle
/// `old_h` gone and exactly the fresh handle `new_h` added in its stead;
/// every other handle is unchanged.
pub open spec fn swaps_handle(pre: Map<u64, Obj>, post: Map<u64, Obj>, old_h: u64, new_h: u64) -> bool {
    &&& !pre.dom().contains(new_h)
    &&& post.dom() =~= pre.dom().remove(old_h).insert(new_h)
    &&& forall|k: u64| pre.dom().contains(k) && k != old_h ==> post[k] == pre[k]
}

/// The mutating transition: the same handles are live in `post` as in
/// `pre`, and every handle but `h` is unchanged.
pub open spec fn same_except(pre: Map<u64, Obj>, post: Map<u64, Obj>, h: u64) -> bool {
    &&& post.dom() =~= pre.dom()
    &&& forall|k: u64| pre.dom().contains(k) && k != h ==> post[k] == pre[k]
}

/// Create/free pairing is leak-free: freeing the fresh handle a creating
/// operation returned restores exactly the handle map the operation
/// started from, so repeated create-then-free cycling accumulates
/// nothing.
pub proof fn lemma_create_then_free_restores(pre: Map<u64, Obj>, post: Map<u64, Obj>, h: u64)
    requires
        adds_handle(pre, post, h),
    ensures
        post.remove(h) == pre,
{
    assert(post.remove(h) =~= pre);
}

/// A chain of two narrowing operations leaves exactly one live handle:
/// the final one. Each intermediate handle is dead the instant the
/// operation consuming it ran, and the dataset's other handles are
/// untouched.
pub proof fn lemma_narrowing_chain_single_live(
    pre: Map<u64, Obj>,
    mid: Map<u64, Obj>,
    post: Map<u64, Obj>,
    h0: u64,
    h1: u64,
    h2: u64,
)
    requires
        pre.dom().contains(h0),
        swaps_handle(pre, mid, h0, h1),
        swaps_handle(mid, post, h1, h2),
        h2 != h0,
    ensures
        !post.dom().contains(h0),
        !post.dom().contains(h1),
        post.dom().contains(h2),
        post.dom() =~= pre.dom().remove(h0).insert(h2),
        forall|k: u64| pre.dom().contains(k) && k != h0 ==> post[k] == pre[k],
{
}

/// A narrowing operation that fails still consumes its input: after a
/// successful narrowing to a fresh handle and a failed narrowing of that
/// handle, neither handle is live and no new one was produced.
pub proof fn lemma_failed_narrowing_consumes(
    pre: Map<u64, Obj>,
    mid: Map<u64, Obj>,
    post: Map<u64, Obj>,
    h0: u64,
    h1: u64,
)
    requires
        pre.dom().contains(h0),
        swaps_handle(pre, mid, h0, h1),
        post == mid.remove(h1),
    ensures
        !post.dom().contains(h0),
        !post.dom().contains(h1),
        post.dom() =~= pre.dom().remove(h0),
        forall|k: u64| pre.dom().contains(k) && k != h0 ==> post[k] == pre[k],
{
}

/// A handle value at or above the registry's next value was never
/// issued, so it is not live.
pub proof fn lemma_high_not_live(r: Registry, k: u64)
    requires
        r.wf(),
        k >= r.next,
    ensures
        !r@.dom().contains(k),
{
    lemma_as_map_dom(r.table@);
}

/// Registering one more well-formed object keeps every registered object
/// well formed.
pub proof fn lemma_objs_wf_after_insert(pre: Registry, post: Registry, h: u64, o: Obj)
    requires
        pre.objs_wf(),
        post@ == pre@.insert(h, o),
        o.wf(),
    ensures
        post.objs_wf(),
{
    assert forall|k: u64| post@.dom().contains(k) implies (#[trigger] post@[k]).wf() by {
        if k == h {
            assert(post@[k] == o);
        } else {
            assert(post@[k] == pre@[k]);
            assert(pre@.dom().contains(k));
        }
    }
}

/// Removing a handle keeps every registered object well formed.
pub proof fn lemma_objs_wf_after_remove(pre: Registry, post: Registry, h: u64)
    requires
        pre.objs_wf(),
        post@ == pre@.remove(h),
    ensures
        post.objs_wf(),
{
    assert forall|k: u64| post@.dom().contains(k) implies (#[trigger] post@[k]).wf() by {
        assert(post@[k] == pre@[k]);
        assert(pre@.dom().contains(k));
    }
}

/// The handle registry: the table of live handles and the next handle
/// value to issue. Handle values are never reissued.
pub struct Registry {
    /// The next handle value to issue; all live handles are below it.
    pub next: u64,
    /// The live handles and their objects.
    pub table: Vec<(u64, Obj)>,
}

impl View for Registry {
    type V = Map<u64, Obj>;

    open spec fn view(&self) -> Map<u64, Obj> {
        as_map(self.table@)
    }
}

impl Registry {
    /// Structural well-formedness: handles are unique, nonzero and below
    /// the next value to issue.
    pub open spec fn wf(&self) -> bool {
        &&& 0 < self.next
        &&& unique_keys(self.table@)
        &&& forall|i: int|
            0 <= i < self.table@.len() ==> 0 < (#[trigger] self.table@[i]).0 < self.next
    }

    /// Whether more handles can be issued; a machine limit no real
    /// process exhausts.
    pub open spec fn not_exhausted(&self) -> bool {
        self.next < u64::MAX
    }

    /// Every registered object is well formed.
    pub open spec fn objs_wf(&self) -> bool {
        forall|h: u64| self@.dom().contains(h) ==> (#[trigger] self@[h]).wf()
    }

    /// An empty registry.
    pub fn new() -> (r: Registry)
        ensures
            r.wf(),
            r@ == Map::<u64, Obj>::empty(),
            r.not_exhausted(),
    {
        Registry { next: 1, table: Vec::new() }
    }

    /// The position of a handle's entry, if the handle is live.
    fn find_index(&self, h: u64) -> (r: Option<usize>)
        requires
            self.wf(),
        ensures
            r is Some <==> self@.dom().contains(h),
            r matches Some(i) ==> i < self.table@.len() && self.table@[i as int].0 == h
                && self.table@[i as int].1 == self@[h],
    {
        proof {
            lemma_as_map_dom(self.table@);
        }
        let mut i: usize = 0;
        while i < self.table.len()
            invariant
                self.wf(),
                i <= self.table@.len(),
                forall|j: int| 0 <= j < i ==> (#[trigger] self.table@[j]).0 != h,
            decreases self.table@.len() - i,
        {
            if self.table[i].0 == h {
                proof {
                    lemma_as_map_index(self.table@, i as int);
                }
                return Some(i);
            }
            i += 1;
        }
        None
    }

    /// The object behind a live handle.
    pub fn get(&self, h: u64) -> (r: Option<&Obj>)
        requires
            self.wf(),
        ensures
            r is Some <==> self@.dom().contains(h),
            r matches Some(o) ==> *o == self@[h],
    {
        match self.find_index(h) {
            Some(i) => Some(&self.table[i].1),
            None => None,
        }
    }

    /// Registers an object under a fresh handle: the handle is nonzero,
    /// was never live before, and maps to exactly this object; nothing
    /// else changes.
    pub fn insert_fresh(&mut self, o: Obj) -> (h: u64)
        requires
            old(self).wf(),
            old(self).not_exhausted(),
        ensures
            final(self).wf(),
            h != 0,
            h == old(self).next,
            !old(self)@.dom().contains(h),
            final(self)@ == old(self)@.insert(h, o),
            final(self).next > old(self).next,
    {
        let h = self.next;
        proof {
            lemma_as_map_dom(self.table@);
        }
        self.next = self.next + 1;
        let ghost before = self.table@;
        self.table.push((h, o));
        proof {
            assert(self.table@.drop_last() =~= before);
        }
        h
    }

    /// Removes a handle's entry, returning its object: afterwards the
    /// handle is no longer live, and nothing else changes. Removing a
    /// handle that is not live changes nothing and returns nothing.
    pub fn take(&mut self, h: u64) -> (r: Option<Obj>)
        requires
            old(self).wf(),
        ensures
            final(self).wf(),
            final(self)@ == old(self)@.remove(h),
            r is Some <==> old(self)@.dom().contains(h),
            r matches Some(o) ==> o == old(self)@[h],
            final(self).next == old(self).next,
            !old(self)@.dom().contains(h) ==> *final(self) == *old(self),
    {
        match self.find_index(h) {
            Some(i) => {
                proof {
                    lemma_as_map_remove(self.table@, i as int);
                }
                let ghost before = self.table@;
                let (k, o) = self.table.remove(i);
                proof {
                    assert(self.table@ =~= before.remove(i as int));
                    assert forall|p: int, q: int|
                        0 <= p < q < self.table@.len() implies (#[trigger] self.table@[p]).0 != (
                    #[trigger] self.table@[q]).0 by {
                        if q < i {
                        } else if p < i {
                            assert(self.table@[q] == before[q + 1]);
                        } else {
                            assert(self.table@[p] == before[p + 1]);
                            assert(self.table@[q] == before[q + 1]);
                        }
                    }
                }
                Some(o)
            },
            None => {
                proof {
                    assert(old(self)@.remove(h) =~= old(self)@);
                }
                None
            },
        }
    }

    /// Puts an object back under a handle that was issued earlier and is
    /// not currently live, reinstating the handle; nothing else changes.
    pub fn put(&mut self, h: u64, o: Obj)
        requires
            old(self).wf(),
            !old(self)@.dom().contains(h),
            0 < h < old(self).next,
        ensures
            final(self).wf(),
            final(self)@ == old(self)@.insert(h, o),
            final(self).next == old(self).next,
    {
        proof {
            lemma_as_map_dom(self.table@);
        }
        let ghost before = self.table@;
        self.table.push((h, o));
        proof {
            assert(self.table@.drop_last() =~= before);
            assert(forall|j: int| 0 <= j < before.len() ==> (#[trigger] before[j]).0 != h);
        }
    }

    /// Replaces the object behind a live handle; the handle itself and
    /// everything else stay as they were.
    pub fn update(&mut self, h: u64, o: Obj)
        requires
            old(self).wf(),
            old(self)@.dom().contains(h),
        ensures
            final(self).wf(),
            final(self)@ == old(self)@.insert(h, o),
            final(self).next == old(self).next,
    {
        proof {
            lemma_as_map_dom(self.table@);
            let i = choose|i: int|
                0 <= i < self.table@.len() && (#[trigger] self.table@[i]).0 == h;
            assert(0 < h < self.next);
        }
        let removed = self.take(h);
        proof {
            lemma_as_map_dom(self.table@);
        }
        let ghost before = self.table@;
        self.table.push((h, o));
        proof {
            assert(self.table@.drop_last() =~= before);
            assert(!as_map(before).dom().contains(h));
            assert(forall|j: int| 0 <= j < before.len() ==> (#[trigger] before[j]).0 != h);
            assert(self@ == old(self)@.remove(h).insert(h, o));
            assert(old(self)@.remove(h).insert(h, o) =~= old(self)@.insert(h, o));
        }
    }
}

} // verus!
