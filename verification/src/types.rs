//! The plain values that cross the boundary: schemas, columnar batches,
//! and string key/value collections for storage options.
//!
//! A schema is the ordered list of its column names. A batch is one
//! table-shaped unit of columnar data: its schema together with its rows,
//! each row an opaque payload word whose identity the bridge preserves but
//! never interprets.

use vstd::prelude::*;

verus! {

/// Whether every requested column name occurs in a schema.
pub open spec fn all_in(schema: Seq<Seq<char>>, cols: Seq<Seq<char>>) -> bool {
    forall|i: int| 0 <= i < cols.len() ==> schema.contains(#[trigger] cols[i])
}

/// Schema metadata: the ordered column names of a dataset, file or batch.
pub struct Schema {
    pub fields: Vec<String>,
}

impl View for Schema {
    type V = Seq<Seq<char>>;

    open spec fn view(&self) -> Seq<Seq<char>> {
        self.fields.deep_view()
    }
}

impl Schema {
    /// A schema over the given column names.
    pub fn new(fields: Vec<String>) -> (s: Schema)
        ensures
            s@ == fields.deep_view(),
    {
        Schema { fields }
    }

    /// The number of columns.
    pub fn num_fields(&self) -> (n: usize)
        ensures
            n == self@.len(),
    {
        self.fields.len()
    }

    /// Whether a column of the given name exists.
    pub fn has_field(&self, name: &String) -> (r: bool)
        ensures
            r == self@.contains(name@),
    {
        let mut i: usize = 0;
        while i < self.fields.len()
            invariant
                i <= self.fields.len(),
                forall|j: int| 0 <= j < i ==> self@[j] != name@,
            decreases self.fields.len() - i,
        {
            if self.fields[i] == *name {
                assert(self@[i as int] == name@);
                return true;
            }
            i += 1;
        }
        false
    }

    /// Whether two schemas list the same columns in the same order.
    pub fn same_as(&self, other: &Schema) -> (r: bool)
        ensures
            r == (self@ == other@),
    {
        if self.fields.len() != other.fields.len() {
            proof {
                assert(self@.len() == self.fields@.len());
                assert(other@.len() == other.fields@.len());
            }
            return false;
        }
        let mut i: usize = 0;
        while i < self.fields.len()
            invariant
                i <= self.fields.len(),
                self.fields.len() == other.fields.len(),
                forall|j: int| 0 <= j < i ==> self@[j] == other@[j],
            decreases self.fields.len() - i,
        {
            if !(self.fields[i] == other.fields[i]) {
                assert(self@[i as int] != other@[i as int]);
                return false;
            }
            i += 1;
        }
        proof {
            assert(self@ =~= other@);
        }
        true
    }

    /// An identical copy.
    pub fn duplicate(&self) -> (r: Schema)
        ensures
            r@ == self@,
    {
        let fields = self.fields.clone();
        proof {
            assert(fields.deep_view() =~= self.fields.deep_view());
        }
        Schema { fields }
    }

    /// The narrowed schema listing the requested columns, in the requested
    /// order, or nothing if any requested column does not exist.
    pub fn project(&self, columns: &Vec<String>) -> (r: Option<Schema>)
        ensures
            r is Some <==> all_in(self@, columns.deep_view()),
            r matches Some(s) ==> s@ == columns.deep_view(),
    {
        let mut out: Vec<String> = Vec::new();
        let mut i: usize = 0;
        while i < columns.len()
            invariant
                i <= columns.len(),
                out@.len() == i,
                forall|j: int| 0 <= j < i ==> out.deep_view()[j] == columns.deep_view()[j],
                forall|j: int| 0 <= j < i ==> self@.contains(columns.deep_view()[j]),
            decreases columns.len() - i,
        {
            if !self.has_field(&columns[i]) {
                assert(!self@.contains(columns.deep_view()[i as int]));
                return None;
            }
            let c = columns[i].clone();
            proof {
                assert(c@ == columns.deep_view()[i as int]);
            }
            out.push(c);
            i += 1;
        }
        proof {
            assert(out.deep_view() =~= columns.deep_view());
        }
        Some(Schema { fields: out })
    }
}

/// One table-shaped unit of columnar data: its schema and its rows. A row
/// is carried as one opaque payload word; the bridge transfers rows
/// without reading them, and their order is significant.
pub struct Batch {
    pub schema: Schema,
    pub rows: Vec<u64>,
}

impl Batch {
    /// A batch of the given rows under the given schema.
    pub fn new(schema: Schema, rows: Vec<u64>) -> (b: Batch)
        ensures
            b.schema@ == schema@,
            b.rows@ == rows@,
    {
        Batch { schema, rows }
    }

    /// The number of rows.
    pub fn num_rows(&self) -> (n: usize)
        ensures
            n == self.rows@.len(),
    {
        self.rows.len()
    }

    /// An identical copy.
    pub fn duplicate(&self) -> (r: Batch)
        ensures
            r.schema@ == self.schema@,
            r.rows@ == self.rows@,
    {
        let rows = self.rows.clone();
        proof {
            assert(rows@ =~= self.rows@);
        }
        Batch { schema: self.schema.duplicate(), rows }
    }
}

/// Whether every batch in a sequence carries the given schema.
pub open spec fn batches_have_schema(bs: Seq<Batch>, schema: Seq<Seq<char>>) -> bool {
    forall|i: int| 0 <= i < bs.len() ==> (#[trigger] bs[i]).schema@ == schema
}

/// One key/value pair of a storage-options collection.
pub struct KV {
    pub key: String,
    pub value: String,
}

/// The options map a key/value sequence denotes: later pairs win over
/// earlier pairs with the same key.
pub open spec fn kvs_to_map(s: Seq<KV>) -> Map<Seq<char>, Seq<char>>
    decreases s.len(),
{
    if s.len() == 0 {
        Map::empty()
    } else {
        kvs_to_map(s.drop_last()).insert(s.last().key@, s.last().value@)
    }
}

/// A string-keyed options collection, read by the engine and never
/// retained by the bridge past one call.
pub struct StringMap {
    pub pairs: Vec<KV>,
}

impl View for StringMap {
    type V = Map<Seq<char>, Seq<char>>;

    open spec fn view(&self) -> Map<Seq<char>, Seq<char>> {
        kvs_to_map(self.pairs@)
    }
}

impl StringMap {
    /// An empty options collection.
    pub fn new() -> (m: StringMap)
        ensures
            m@ == Map::<Seq<char>, Seq<char>>::empty(),
            m.pairs@.len() == 0,
    {
        StringMap { pairs: Vec::new() }
    }

    /// Adds one pair; a pair added later wins over an earlier one with the
    /// same key.
    pub fn insert(&mut self, key: String, value: String)
        ensures
            final(self)@ == old(self)@.insert(key@, value@),
            final(self).pairs@.len() == old(self).pairs@.len() + 1,
    {
        let ghost before = self.pairs@;
        self.pairs.push(KV { key, value });
        proof {
            assert(self.pairs@.drop_last() =~= before);
        }
    }

    /// Whether no pair was added.
    pub fn is_empty(&self) -> (r: bool)
        ensures
            r == (self.pairs@.len() == 0),
            r ==> self@ == Map::<Seq<char>, Seq<char>>::empty(),
    {
        self.pairs.len() == 0
    }

    /// The value under the given key, if the key is present: the value of
    /// the last pair added under it.
    pub fn get(&self, key: &String) -> (r: Option<&String>)
        ensures
            r is Some <==> self@.dom().contains(key@),
            r matches Some(v) ==> v@ == self@[key@],
    {
        let mut found: Option<usize> = None;
        let mut i: usize = 0;
        while i < self.pairs.len()
            invariant
                i <= self.pairs.len(),
                found is Some <==> kvs_to_map(self.pairs@.subrange(0, i as int)).dom().contains(
                    key@,
                ),
                found matches Some(j) ==> j < i && self.pairs@[j as int].key@ == key@
                    && kvs_to_map(self.pairs@.subrange(0, i as int))[key@] == self.pairs@[
                    j as int].value@,
            decreases self.pairs.len() - i,
        {
            proof {
                assert(self.pairs@.subrange(0, i as int + 1).drop_last() =~= self.pairs@.subrange(
                    0,
                    i as int,
                ));
            }
            if self.pairs[i].key == *key {
                found = Some(i);
            }
            i += 1;
        }
        proof {
            assert(self.pairs@.subrange(0, self.pairs@.len() as int) =~= self.pairs@);
        }
        match found {
            Some(j) => Some(&self.pairs[j].value),
            None => None,
        }
    }
}

/// Builds the options map that a key/value sequence denotes, with later
/// pairs winning over earlier ones.
pub trait IntoHashMap: Sized {
    /// The key/value pairs the collection holds, in order.
    spec fn kv_seq(&self) -> Seq<KV>;

    /// The collection as an options map.
    fn into_hashmap(self) -> (r: StringMap)
        ensures
            r@ == kvs_to_map(self.kv_seq()),
    ;
}

impl IntoHashMap for Vec<KV> {
    open spec fn kv_seq(&self) -> Seq<KV> {
        self@
    }

    fn into_hashmap(self) -> (r: StringMap)
        ensures
            r@ == kvs_to_map(self.kv_seq()),
    {
        StringMap { pairs: self }
    }
}

} // verus!
