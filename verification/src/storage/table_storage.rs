//! One store: the rows of one table, in the order in which they came.

use crate::storage::tuple::{StoreId, TupleId, TupleIndex, TupleRecord};
use vstd::prelude::*;

verus! {

/// The views of a run of records, in order.
pub open spec fn record_views(records: Seq<TupleRecord>) -> Seq<Seq<u8>> {
    records.map_values(|r: TupleRecord| r@)
}

/// A copy of `records`.
pub fn clone_records(records: &Vec<TupleRecord>) -> (r: Vec<TupleRecord>)
    ensures
        record_views(r@) == record_views(records@),
{
    let mut r: Vec<TupleRecord> = Vec::new();
    let mut i: usize = 0;
    while i < records.len()
        invariant
            i <= records.len(),
            r.len() == i,
            forall|j: int| 0 <= j < i ==> r[j]@ == records[j]@,
        decreases records.len() - i,
    {
        r.push(records[i].clone());
        i += 1;
    }
    assert(record_views(r@) =~= record_views(records@));
    r
}

/// An append-only bag of rows. The row in slot `i` is the `i`-th that came.
pub struct Storage {
    next_index: TupleIndex,
    store_id: StoreId,
    tuple_store: Vec<TupleRecord>,
}

impl View for Storage {
    type V = Seq<Seq<u8>>;

    closed spec fn view(&self) -> Seq<Seq<u8>> {
        record_views(self.tuple_store@)
    }
}

impl Storage {
    /// Whether the next slot is the number of rows held.
    pub closed spec fn wf(&self) -> bool {
        self.next_index == self.tuple_store.len()
    }

    /// The id of this store.
    pub closed spec fn id(&self) -> StoreId {
        self.store_id
    }

    pub fn new(store_id: StoreId) -> (r: Self)
        ensures
            r.wf(),
            r.id() == store_id,
            r@ == Seq::<Seq<u8>>::empty(),
    {
        let r = Storage { next_index: 0, store_id, tuple_store: Vec::new() };
        assert(r@ =~= Seq::<Seq<u8>>::empty());
        r
    }

    /// The number of rows held.
    pub fn len(&self) -> (n: usize)
        requires
            self.wf(),
        ensures
            n == self@.len(),
            n <= u32::MAX,
    {
        self.tuple_store.len()
    }

    /// Whether every slot is taken.
    pub fn is_full(&self) -> (r: bool)
        requires
            self.wf(),
        ensures
            r == (self@.len() >= u32::MAX),
    {
        self.next_index == u32::MAX
    }

    /// Appends `tuple` and gives the id of its slot.
    pub fn insert_tuple(&mut self, tuple: TupleRecord) -> (id: TupleId)
        requires
            old(self).wf(),
            old(self)@.len() < u32::MAX,
        ensures
            final(self).wf(),
            final(self).id() == old(self).id(),
            final(self)@ == old(self)@.push(tuple@),
            id == (TupleId { store_id: old(self).id(), slot_index: old(self)@.len() as u32 }),
    {
        let id = TupleId { store_id: self.store_id, slot_index: self.next_index };
        self.next_index += 1;
        self.tuple_store.push(tuple);
        assert(self@ =~= old(self)@.push(tuple@));
        id
    }

    /// The row with the id `id`, if this store holds it.
    pub fn get_tuple(&self, id: &TupleId) -> (r: Option<TupleRecord>)
        requires
            self.wf(),
        ensures
            match r {
                Some(record) => id.store_id == self.id() && id.slot_index < self@.len()
                    && record@ == self@[id.slot_index as int],
                None => id.store_id != self.id() || id.slot_index >= self@.len(),
            },
    {
        if id.store_id.0 == self.store_id.0 && id.slot_index < self.next_index {
            Some(self.tuple_store[id.slot_index as usize].clone())
        } else {
            None
        }
    }

    /// The rows, in the order in which they came.
    pub fn records(&self) -> (r: Vec<TupleRecord>)
        ensures
            record_views(r@) == self@,
    {
        clone_records(&self.tuple_store)
    }

    /// The rows with their ids, in the order in which they came: the row in
    /// slot `i` comes at position `i`.
    pub fn scan(&self) -> (r: Vec<(TupleId, TupleRecord)>)
        requires
            self.wf(),
        ensures
            r.len() == self@.len(),
            forall|i: int|
                0 <= i < r.len() ==> (#[trigger] r[i]).0 == (TupleId {
                    store_id: self.id(),
                    slot_index: i as u32,
                }) && r[i].1@ == self@[i],
    {
        let mut r: Vec<(TupleId, TupleRecord)> = Vec::new();
        let mut i: u32 = 0;
        while i < self.next_index
            invariant
                self.wf(),
                i <= self.next_index,
                r.len() == i,
                forall|j: int|
                    0 <= j < i ==> (#[trigger] r[j]).0 == (TupleId {
                        store_id: self.id(),
                        slot_index: j as u32,
                    }) && r[j].1@ == self@[j],
            decreases self.next_index - i,
        {
            r.push(
                (
                    TupleId { store_id: self.store_id, slot_index: i },
                    self.tuple_store[i as usize].clone(),
                ),
            );
            i += 1;
        }
        r
    }
}

} // verus!
