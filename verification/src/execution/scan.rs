//! The scan: the rows of a table as they were when the scan was made.

use crate::execution::{
    item_view, ItemView, NextTuple, Operator, rows_as_items, stream_of, TupleResult,
};
use crate::storage::storage_manager::{StorageManager, TableName};
use crate::storage::table_storage::{record_views, Storage};
use crate::storage::tuple::TupleRecord;
use vstd::prelude::*;

verus! {

/// Hands out the rows of a store one by one, as they were when it was made.
pub struct TupleIterator {
    inner: ScanOperation,
}

impl TupleIterator {
    /// What is still to come, in order.
    pub closed spec fn pending(&self) -> Seq<ItemView> {
        self.inner.pending()
    }

    /// Whether the state is consistent.
    pub closed spec fn wf(&self) -> bool {
        self.inner.wf()
    }

    /// Takes the first row of what is still to come.
    pub fn next(&mut self) -> (r: TupleResult)
        requires
            old(self).wf(),
        ensures
            final(self).wf(),
            match r {
                Some(item) => old(self).pending().len() > 0 && item_view(item)
                    == old(self).pending()[0] && final(self).pending() == old(self).pending().skip(1),
                None => old(self).pending().len() == 0 && final(self).pending().len() == 0,
            },
    {
        self.inner.next()
    }
}

/// The rows of one store, held for reading.
pub struct Tuples<'storage> {
    storage: &'storage Storage,
}

impl<'storage> Tuples<'storage> {
    /// The rows that are held, in the order in which they came.
    pub closed spec fn rows(&self) -> Seq<Seq<u8>> {
        self.storage@
    }

    /// An iterator over the rows, in the order in which they came.
    pub fn iter(&self) -> (r: TupleIterator)
        ensures
            r.wf(),
            r.pending() == rows_as_items(self.rows()),
    {
        TupleIterator { inner: ScanOperation::new(self.storage.records()) }
    }
}

/// Yields the rows it was made with, in order.
#[derive(Debug, Eq, PartialEq)]
pub struct ScanOperation {
    pub tuples: Vec<TupleRecord>,
    pub index: usize,
}

impl NextTuple for ScanOperation {
    open spec fn pending(&self) -> Seq<ItemView> {
        stream_of(Operator::Scan(*self))
    }

    open spec fn depth(&self) -> nat {
        0
    }

    open spec fn wf(&self) -> bool {
        self.index <= self.tuples.len()
    }

    fn next(&mut self) -> (r: TupleResult) {
        if self.index < self.tuples.len() {
            let t = self.tuples[self.index].clone();
            self.index += 1;
            assert(self.pending() =~= old(self).pending().skip(1));
            Some(Ok(t))
        } else {
            None
        }
    }
}

impl ScanOperation {
    /// The rows of the table `table_name`, which must exist, held for reading.
    pub fn execute<'storage>(
        table_name: &TableName,
        storage_manager: &'storage StorageManager,
    ) -> (r: Tuples<'storage>)
        requires
            storage_manager.wf(),
            storage_manager@.schema_of(table_name@) is Some,
        ensures
            r.rows() == storage_manager@.rows_of(table_name@),
    {
        Tuples { storage: storage_manager.get_table_store(table_name).unwrap() }
    }

    /// The scan that yields `tuples`, in order.
    pub fn new(tuples: Vec<TupleRecord>) -> (r: Self)
        ensures
            r.wf(),
            r.pending() == rows_as_items(record_views(tuples@)),
    {
        let r = ScanOperation { tuples, index: 0 };
        assert(record_views(tuples@).skip(0) == record_views(tuples@));
        r
    }
}

} // verus!
