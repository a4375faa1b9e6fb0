//! The plan of a table creation.

use crate::execution::create::{created, CreateTableOperation};
use crate::storage::error::StorageError;
use crate::storage::storage_manager::{
    attribute_views, AttributeName, AttributesView, StorageManager, TableName,
};
use crate::storage::tuple::TupleRecord;
use crate::storage::types::AttributeType;
use vstd::prelude::*;

verus! {

#[derive(Debug, Eq, PartialEq)]
pub struct CreateTablePlan {
    pub table_name: TableName,
    pub primary_key: AttributeName,
    pub schema_attributes: Vec<(AttributeName, AttributeType)>,
}

pub struct CreateTablePlanView {
    pub table_name: Seq<char>,
    pub primary_key: Seq<char>,
    pub schema_attributes: AttributesView,
}

impl View for CreateTablePlan {
    type V = CreateTablePlanView;

    open spec fn view(&self) -> CreateTablePlanView {
        CreateTablePlanView {
            table_name: self.table_name@,
            primary_key: self.primary_key@,
            schema_attributes: attribute_views(self.schema_attributes@),
        }
    }
}

impl CreateTablePlan {
    /// Carries the plan out: the table is added to the catalog. There are no
    /// rows to give. It fails, and leaves the catalog as it is, where a table
    /// of that name exists or no store id is left.
    pub fn execute(self, storage_manager: &mut StorageManager) -> (r: Result<
        Vec<TupleRecord>,
        StorageError,
    >)
        requires
            old(storage_manager).wf(),
        ensures
            final(storage_manager).wf(),
            r is Ok ==> r.unwrap().len() == 0,
            match created(
                old(storage_manager)@,
                self.table_name@,
                self.primary_key@,
                attribute_views(self.schema_attributes@),
            ) {
                Ok(catalog) => r is Ok && final(storage_manager)@ == catalog,
                Err(e) => r is Err && r.unwrap_err()@ == e && final(storage_manager)@ == old(
                    storage_manager,
                )@,
            },
    {
        let op = CreateTableOperation {
            table_name: self.table_name,
            primary_key: self.primary_key,
            schema_attributes: self.schema_attributes,
        };
        match op.execute(storage_manager) {
            Ok(()) => Ok(Vec::new()),
            Err(e) => Err(e),
        }
    }
}

} // verus!
