//! The creation of a table.

use crate::execution::EmptyResult;
use crate::storage::error::StorageErrorView;
use crate::storage::storage_manager::{
    attribute_views, AttributeName, AttributesView, CatalogView, CreateTableRequest, SchemaView,
    StorageManager, table_exists_message, TableName,
};
use crate::storage::tuple::StoreId;
use crate::storage::types::AttributeType;
use vstd::prelude::*;

verus! {

#[derive(Debug, Eq, PartialEq)]
pub struct CreateTableOperation {
    pub table_name: TableName,
    pub primary_key: AttributeName,
    pub schema_attributes: Vec<(AttributeName, AttributeType)>,
}

/// The catalog `catalog` with one more table, which has no rows and whose
/// store has the next id.
pub open spec fn with_table(
    catalog: CatalogView,
    table_name: Seq<char>,
    primary_key: Seq<char>,
    attributes: AttributesView,
) -> CatalogView {
    CatalogView {
        schemas: catalog.schemas.push(
            (
                table_name,
                SchemaView {
                    store_id: StoreId(catalog.stores.len() as u64),
                    primary_key,
                    attributes,
                },
            ),
        ),
        stores: catalog.stores.push(Seq::empty()),
    }
}

/// What creating a table makes of the catalog `catalog`: the catalog with
/// the table; or the error, where a table of that name exists or no store id
/// is left.
pub open spec fn created(
    catalog: CatalogView,
    table_name: Seq<char>,
    primary_key: Seq<char>,
    attributes: AttributesView,
) -> Result<CatalogView, StorageErrorView> {
    if catalog.schema_of(table_name) is Some {
        Err(StorageErrorView::AlreadyExists(table_exists_message(table_name)))
    } else if catalog.stores.len() >= u64::MAX {
        Err(StorageErrorView::CapacityExceeded)
    } else {
        Ok(with_table(catalog, table_name, primary_key, attributes))
    }
}

/// Whether `result`, with the catalog `after`, is the outcome `outcome` of a
/// statement on the catalog `before`: success with the new catalog, or the
/// error with the catalog as it was.
pub open spec fn is_outcome(
    result: EmptyResult,
    after: CatalogView,
    outcome: Result<CatalogView, StorageErrorView>,
    before: CatalogView,
) -> bool {
    match outcome {
        Ok(catalog) => result is Ok && after == catalog,
        Err(e) => result is Err && result->Err_0@ == e && after == before,
    }
}

impl CreateTableOperation {
    /// Adds the table to the catalog. It fails, and leaves the catalog as it
    /// is, where a table of that name exists or no store id is left.
    pub fn execute(self, storage_manager: &mut StorageManager) -> (r: EmptyResult)
        requires
            old(storage_manager).wf(),
        ensures
            final(storage_manager).wf(),
            is_outcome(
                r,
                final(storage_manager)@,
                created(
                    old(storage_manager)@,
                    self.table_name@,
                    self.primary_key@,
                    attribute_views(self.schema_attributes@),
                ),
                old(storage_manager)@,
            ),
    {
        storage_manager.create_table(
            CreateTableRequest {
                table_name: self.table_name,
                primary_key: self.primary_key,
                schema_attributes: self.schema_attributes,
            },
        )
    }
}

} // verus!
