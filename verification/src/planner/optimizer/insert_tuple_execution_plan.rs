//! The executable plan of an insertion.

use crate::storage::storage_manager::TableName;
use crate::storage::tuple::TupleRecord;
use vstd::prelude::*;

verus! {

#[derive(Debug, Eq, PartialEq)]
pub struct InsertTupleExecutionPlan {
    pub table_name: TableName,
    pub tuple: TupleRecord,
}

} // verus!
