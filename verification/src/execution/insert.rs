//! The insertion of a row.

use crate::execution::create::is_outcome;
use crate::execution::EmptyResult;
use crate::storage::error::StorageErrorView;
use crate::storage::storage_manager::{CatalogView, StorageManager, TableName};
use crate::storage::tuple::TupleRecord;
use vstd::prelude::*;

verus! {

#[derive(Debug, Eq, PartialEq)]
pub struct InsertTupleOperation {
    pub table_name: TableName,
    pub tuple: TupleRecord,
}

/// The catalog `catalog` with the row `tuple` after the rows of the table
/// `table_name`.
pub open spec fn with_row(
    catalog: CatalogView,
    table_name: Seq<char>,
    tuple: Seq<u8>,
) -> CatalogView {
    CatalogView {
        schemas: catalog.schemas,
        stores: catalog.stores.update(
            catalog.schema_of(table_name).unwrap().store_id.0 as int,
            catalog.rows_of(table_name).push(tuple),
        ),
    }
}

/// What inserting a row makes of the catalog `catalog`: the catalog with
/// the row; or the error, where the store of the table is full.
pub open spec fn inserted(catalog: CatalogView, table_name: Seq<char>, tuple: Seq<u8>) -> Result<
    CatalogView,
    StorageErrorView,
> {
    if catalog.rows_of(table_name).len() >= u32::MAX {
        Err(StorageErrorView::CapacityExceeded)
    } else {
        Ok(with_row(catalog, table_name, tuple))
    }
}

impl InsertTupleOperation {
    /// Appends the row to the store of the table, which must exist. It
    /// fails, and leaves the catalog as it is, where the store is full.
    pub fn execute(self, storage_manager: &mut StorageManager) -> (r: EmptyResult)
        requires
            old(storage_manager).wf(),
            old(storage_manager)@.schema_of(self.table_name@) is Some,
        ensures
            final(storage_manager).wf(),
            is_outcome(
                r,
                final(storage_manager)@,
                inserted(old(storage_manager)@, self.table_name@, self.tuple@),
                old(storage_manager)@,
            ),
    {
        match storage_manager.insert_tuple(&self.table_name, self.tuple) {
            Ok(_tuple_id) => Ok(()),
            Err(e) => Err(e),
        }
    }
}

} // verus!
