//! The engine: what changes the catalog.

use crate::execution::create::{created, is_outcome, CreateTableOperation};
use crate::execution::EmptyResult;
use crate::execution::filter::FilterOperation;
use crate::execution::insert::{inserted, InsertTupleOperation};
use crate::execution::project::ProjectOperation;
use crate::execution::scan::ScanOperation;
use crate::storage::storage_manager::{attribute_views, CatalogView, StorageManager};
use vstd::prelude::*;

verus! {

pub enum Operation {
    CreateTable(CreateTableOperation),
    InsertTuple(InsertTupleOperation),
    Scan(ScanOperation),
    Filter(FilterOperation),
    Project(ProjectOperation),
}

pub struct Engine<'storage> {
    pub storage_manager: &'storage mut StorageManager,
}

impl<'storage> Engine<'storage> {
    /// The catalog that the engine changes.
    pub open spec fn catalog(&self) -> CatalogView {
        self.storage_manager@
    }

    /// Whether the catalog is consistent.
    pub open spec fn wf(&self) -> bool {
        self.storage_manager.wf()
    }

    /// Adds a table to the catalog. It fails, and leaves the catalog as it
    /// is, where a table of that name exists or no store id is left.
    pub fn execute_create_table(&mut self, op: CreateTableOperation) -> (r: EmptyResult)
        requires
            old(self).wf(),
        ensures
            final(self).wf(),
            *final(final(self).storage_manager) == *final(old(self).storage_manager),
            is_outcome(
                r,
                final(self).catalog(),
                created(
                    old(self).catalog(),
                    op.table_name@,
                    op.primary_key@,
                    attribute_views(op.schema_attributes@),
                ),
                old(self).catalog(),
            ),
    {
        op.execute(self.storage_manager)
    }

    /// Appends a row to the store of a table, which must exist. It fails,
    /// and leaves the catalog as it is, where the store is full.
    pub fn execute_insert_tuple(&mut self, op: InsertTupleOperation) -> (r: EmptyResult)
        requires
            old(self).wf(),
            old(self).catalog().schema_of(op.table_name@) is Some,
        ensures
            final(self).wf(),
            *final(final(self).storage_manager) == *final(old(self).storage_manager),
            is_outcome(
                r,
                final(self).catalog(),
                inserted(old(self).catalog(), op.table_name@, op.tuple@),
                old(self).catalog(),
            ),
    {
        op.execute(self.storage_manager)
    }
}

} // verus!
