//! The executable plan of a table creation.

use crate::storage::storage_manager::{AttributeName, TableName};
use crate::storage::types::AttributeType;
use vstd::prelude::*;

verus! {

#[derive(Debug, Eq, PartialEq)]
pub struct CreateTableExecutionPlan {
    pub table_name: TableName,
    pub primary_key: AttributeName,
    pub schema_attributes: Vec<(AttributeName, AttributeType)>,
}

} // verus!
