//! The plan of an insertion.

use crate::execution::insert::{inserted, InsertTupleOperation};
use crate::storage::error::StorageError;
use crate::storage::storage_manager::{StorageManager, TableName};
use crate::storage::tuple::TupleRecord;
use vstd::prelude::*;

verus! {

#[derive(Debug, Eq, PartialEq)]
pub struct InsertTuplePlan {
    pub table_name: TableName,
    pub tuple: TupleRecord,
}

pub struct InsertTuplePlanView {
    pub table_name: Seq<char>,
    pub tuple: Seq<u8>,
}

impl View for InsertTuplePlan {
    type V = InsertTuplePlanView;

    open spec fn view(&self) -> InsertTuplePlanView {
        InsertTuplePlanView { table_name: self.table_name@, tuple: self.tuple@ }
    }
}

impl InsertTuplePlan {
    /// Carries the plan out: the row is appended to the store of the table,
    /// which must exist. There are no rows to give. It fails, and leaves the
    /// catalog as it is, where the store is full.
    pub fn execute(self, storage_manager: &mut StorageManager) -> (r: Result<
        Vec<TupleRecord>,
        StorageError,
    >)
        requires
            old(storage_manager).wf(),
            old(storage_manager)@.schema_of(self.table_name@) is Some,
        ensures
            final(storage_manager).wf(),
            r is Ok ==> r.unwrap().len() == 0,
            match inserted(old(storage_manager)@, self.table_name@, self.tuple@) {
                Ok(catalog) => r is Ok && final(storage_manager)@ == catalog,
                Err(e) => r is Err && r.unwrap_err()@ == e && final(storage_manager)@ == old(
                    storage_manager,
                )@,
            },
    {
        let op = InsertTupleOperation { table_name: self.table_name, tuple: self.tuple };
        match op.execute(storage_manager) {
            Ok(()) => Ok(Vec::new()),
            Err(e) => Err(e),
        }
    }
}

} // verus!
