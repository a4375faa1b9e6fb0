//! Names, schemas and the catalog of tables.

use crate::storage::error::{StorageError, StorageErrorView};
use crate::storage::table_storage::Storage;
use crate::storage::tuple::{StoreId, TupleId, TupleRecord};
use crate::storage::types::AttributeType;
use vstd::prelude::*;
use vstd::string::StringExecFns;

verus! {

#[derive(Debug, Eq, PartialEq, Hash)]
pub struct TableName(pub String);

#[derive(Debug, Eq, PartialEq, Hash, Ord, PartialOrd)]
pub struct AttributeName(pub String);

impl View for TableName {
    type V = Seq<char>;

    open spec fn view(&self) -> Seq<char> {
        self.0@
    }
}

impl View for AttributeName {
    type V = Seq<char>;

    open spec fn view(&self) -> Seq<char> {
        self.0@
    }
}

impl Clone for TableName {
    fn clone(&self) -> (r: Self)
        ensures
            r@ == self@,
    {
        TableName(self.0.clone())
    }
}

impl Clone for AttributeName {
    fn clone(&self) -> (r: Self)
        ensures
            r@ == self@,
    {
        AttributeName(self.0.clone())
    }
}

/// Named and typed columns as a mathematical value.
pub type AttributesView = Seq<(Seq<char>, AttributeType)>;

/// The views of a run of named and typed columns, in order.
pub open spec fn attribute_views(
    attributes: Seq<(AttributeName, AttributeType)>,
) -> AttributesView {
    attributes.map_values(|a: (AttributeName, AttributeType)| (a.0@, a.1))
}

/// The views of a run of attribute names, in order.
pub open spec fn name_views(names: Seq<AttributeName>) -> Seq<Seq<char>> {
    names.map_values(|n: AttributeName| n@)
}

/// The first entry of `table` under `name`, if there is one.
pub open spec fn lookup<V>(table: Seq<(Seq<char>, V)>, name: Seq<char>) -> Option<V>
    decreases table.len(),
{
    if table.len() == 0 {
        None
    } else if table[0].0 == name {
        Some(table[0].1)
    } else {
        lookup(table.skip(1), name)
    }
}

/// The names of `table`, in order.
pub open spec fn names_of<V>(table: Seq<(Seq<char>, V)>) -> Seq<Seq<char>> {
    table.map_values(|entry: (Seq<char>, V)| entry.0)
}

/// Whether no name occurs twice in `names`.
pub open spec fn distinct(names: Seq<Seq<char>>) -> bool {
    forall|i: int, j: int| 0 <= i < j < names.len() ==> names[i] != names[j]
}

/// The name `name` as seen through the alias `alias`: `alias.name`.
pub open spec fn aliased_name(alias: Seq<char>, name: Seq<char>) -> Seq<char> {
    alias + seq!['.'] + name
}

/// `attributes` with every name seen through `alias`.
pub open spec fn aliased_attributes(
    attributes: AttributesView,
    alias: Seq<char>,
) -> AttributesView {
    attributes.map_values(|a: (Seq<char>, AttributeType)| (aliased_name(alias, a.0), a.1))
}

/// `attributes` seen through `alias` where there is one, else unchanged.
pub open spec fn optionally_aliased(
    attributes: AttributesView,
    alias: Option<Seq<char>>,
) -> AttributesView {
    match alias {
        Some(alias) => aliased_attributes(attributes, alias),
        None => attributes,
    }
}

/// A copy of `attributes`.
pub fn clone_attributes(attributes: &Vec<(AttributeName, AttributeType)>) -> (r: Vec<
    (AttributeName, AttributeType),
>)
    ensures
        attribute_views(r@) == attribute_views(attributes@),
{
    let mut r: Vec<(AttributeName, AttributeType)> = Vec::new();
    let mut i: usize = 0;
    while i < attributes.len()
        invariant
            i <= attributes.len(),
            r.len() == i,
            forall|j: int| 0 <= j < i ==> r[j].0@ == attributes[j].0@ && r[j].1 == attributes[j].1,
        decreases attributes.len() - i,
    {
        r.push((attributes[i].0.clone(), attributes[i].1));
        i += 1;
    }
    assert(attribute_views(r@) =~= attribute_views(attributes@));
    r
}

/// The name `name` seen through `alias`.
pub fn alias_name(alias: &str, name: &AttributeName) -> (r: AttributeName)
    ensures
        r@ == aliased_name(alias@, name@),
{
    let mut text = String::from_str(alias);
    text.append(".");
    text.append(name.0.as_str());
    proof {
        reveal_strlit(".");
        assert("."@ =~= seq!['.']);
    }
    AttributeName(text)
}

/// Named and typed columns, in the order in which a row lays them out.
#[derive(Debug, Eq, PartialEq)]
pub struct Attributes(pub Vec<(AttributeName, AttributeType)>);

impl View for Attributes {
    type V = AttributesView;

    open spec fn view(&self) -> AttributesView {
        attribute_views(self.0@)
    }
}

impl Clone for Attributes {
    fn clone(&self) -> (r: Self)
        ensures
            r@ == self@,
    {
        Attributes(clone_attributes(&self.0))
    }
}

impl Attributes {
    pub fn new(attributes: Vec<(AttributeName, AttributeType)>) -> (r: Self)
        ensures
            r@ == attribute_views(attributes@),
    {
        Attributes(attributes)
    }

    /// The same columns with every name seen through `alias`.
    pub fn with_alias(self, alias: &str) -> (r: Self)
        ensures
            r@ == aliased_attributes(self@, alias@),
    {
        let mut r: Vec<(AttributeName, AttributeType)> = Vec::new();
        let mut i: usize = 0;
        while i < self.0.len()
            invariant
                i <= self.0.len(),
                r.len() == i,
                forall|j: int|
                    0 <= j < i ==> r[j].0@ == aliased_name(alias@, self.0[j].0@) && r[j].1
                        == self.0[j].1,
            decreases self.0.len() - i,
        {
            r.push((alias_name(alias, &self.0[i].0), self.0[i].1));
            i += 1;
        }
        assert(attribute_views(r@) =~= aliased_attributes(self@, alias@));
        Attributes(r)
    }

    /// The type of the first column called `name`.
    pub fn get_attribute_type(&self, name: &AttributeName) -> (r: Option<AttributeType>)
        ensures
            r == lookup(self@, name@),
    {
        let mut i: usize = 0;
        assert(self@.skip(0) == self@);
        while i < self.0.len()
            invariant
                i <= self.0.len(),
                lookup(self@, name@) == lookup(self@.skip(i as int), name@),
            decreases self.0.len() - i,
        {
            if self.0[i].0.0 == name.0 {
                return Some(self.0[i].1);
            }
            assert(self@.skip(i as int).skip(1) == self@.skip(i + 1));
            i += 1;
        }
        None
    }

    /// The columns, in order.
    pub fn attributes_iter(&self) -> (r: &Vec<(AttributeName, AttributeType)>)
        ensures
            attribute_views(r@) == self@,
    {
        &self.0
    }

    /// The columns as a table from name to type, in order.
    pub fn as_lookup_table(&self) -> (r: Vec<(AttributeName, AttributeType)>)
        ensures
            attribute_views(r@) == self@,
    {
        clone_attributes(&self.0)
    }
}

/// A table's schema as a mathematical value.
pub struct SchemaView {
    pub store_id: StoreId,
    pub primary_key: Seq<char>,
    pub attributes: AttributesView,
}

/// The schema of a table: where its rows are stored, its key and its columns.
#[derive(Debug, Eq, PartialEq)]
pub struct Schema {
    pub store_id: StoreId,
    pub primary_key: AttributeName,
    pub attributes: Attributes,
}

impl View for Schema {
    type V = SchemaView;

    open spec fn view(&self) -> SchemaView {
        SchemaView {
            store_id: self.store_id,
            primary_key: self.primary_key@,
            attributes: self.attributes@,
        }
    }
}

impl Clone for Schema {
    fn clone(&self) -> (r: Self)
        ensures
            r@ == self@,
    {
        Schema {
            store_id: self.store_id,
            primary_key: self.primary_key.clone(),
            attributes: self.attributes.clone(),
        }
    }
}

impl Schema {
    pub fn new(
        store_id: StoreId,
        primary_key: AttributeName,
        attributes: Vec<(AttributeName, AttributeType)>,
    ) -> (r: Self)
        ensures
            r@ == (SchemaView {
                store_id,
                primary_key: primary_key@,
                attributes: attribute_views(attributes@),
            }),
    {
        Schema { store_id, primary_key, attributes: Attributes(attributes) }
    }

    pub fn num_attributes(&self) -> (n: usize)
        ensures
            n == self@.attributes.len(),
    {
        self.attributes.0.len()
    }

    /// The same schema with the key and every column seen through `alias`.
    pub fn with_alias(self, alias: &str) -> (r: Schema)
        ensures
            r@ == (SchemaView {
                store_id: self.store_id,
                primary_key: aliased_name(alias@, self.primary_key@),
                attributes: aliased_attributes(self@.attributes, alias@),
            }),
    {
        let primary_key = alias_name(alias, &self.primary_key);
        Schema { store_id: self.store_id, primary_key, attributes: self.attributes.with_alias(alias) }
    }
}

/// What a table is created from.
#[derive(Debug, Eq, PartialEq)]
pub struct CreateTableRequest {
    pub table_name: TableName,
    pub primary_key: AttributeName,
    pub schema_attributes: Vec<(AttributeName, AttributeType)>,
}

/// The catalog as a mathematical value: the schema of every table under its
/// name, and the rows of every store under its id.
pub struct CatalogView {
    pub schemas: Seq<(Seq<char>, SchemaView)>,
    pub stores: Seq<Seq<Seq<u8>>>,
}

/// The catalog: the tables' schemas, and one store of rows for each table.
pub struct StorageManager {
    next_store_id: StoreId,
    table_storage_directory: Vec<Storage>,
    schemas: Vec<(TableName, Schema)>,
}

/// The message that says that the table `name` exists.
pub open spec fn table_exists_message(name: Seq<char>) -> Seq<char> {
    "table "@ + name
}

impl View for StorageManager {
    type V = CatalogView;

    closed spec fn view(&self) -> CatalogView {
        CatalogView {
            schemas: self.schemas@.map_values(|s: (TableName, Schema)| (s.0@, s.1@)),
            stores: self.table_storage_directory@.map_values(|s: Storage| s@),
        }
    }
}

impl CatalogView {
    /// The schema of the table `name`.
    pub open spec fn schema_of(self, name: Seq<char>) -> Option<SchemaView> {
        lookup(self.schemas, name)
    }

    /// The rows of the table `name`, in the order in which they came.
    pub open spec fn rows_of(self, name: Seq<char>) -> Seq<Seq<u8>> {
        self.stores[self.schema_of(name).unwrap().store_id.0 as int]
    }

    /// Whether every table has a store.
    pub open spec fn stores_exist(self) -> bool {
        forall|i: int|
            0 <= i < self.schemas.len() ==> (#[trigger] self.schemas[i]).1.store_id.0
                < self.stores.len()
    }
}

/// A table that `lookup` finds is one of the entries.
pub proof fn lemma_lookup_is_entry<V>(table: Seq<(Seq<char>, V)>, name: Seq<char>)
    ensures
        match lookup(table, name) {
            Some(v) => exists|i: int| 0 <= i < table.len() && #[trigger] table[i] == (name, v),
            None => forall|i: int| 0 <= i < table.len() ==> (#[trigger] table[i]).0 != name,
        },
    decreases table.len(),
{
    if table.len() > 0 && table[0].0 != name {
        lemma_lookup_is_entry(table.skip(1), name);
        match lookup(table, name) {
            Some(v) => {
                let i = choose|i: int|
                    0 <= i < table.skip(1).len() && #[trigger] table.skip(1)[i] == (name, v);
                assert(table[i + 1] == (name, v));
            },
            None => {
                assert forall|i: int| 0 <= i < table.len() implies (#[trigger] table[i]).0
                    != name by {
                    if i > 0 {
                        assert(table.skip(1)[i - 1] == table[i]);
                    }
                }
            },
        }
    } else if table.len() > 0 {
        assert(table[0] == (name, table[0].1));
    }
}

impl StorageManager {
    /// Whether the catalog is consistent: store `i` has the id `i`, the next id
    /// is the number of stores, and every table has a store.
    pub closed spec fn wf(&self) -> bool {
        &&& self.next_store_id.0 == self.table_storage_directory.len()
        &&& forall|i: int|
            0 <= i < self.table_storage_directory.len() ==> (
            #[trigger] self.table_storage_directory[i]).wf()
                && self.table_storage_directory[i].id().0 == i
        &&& self@.stores_exist()
    }

    /// In a consistent catalog every table has a store.
    pub proof fn lemma_stores_exist(&self)
        requires
            self.wf(),
        ensures
            self@.stores_exist(),
    {
    }

    pub fn new() -> (r: Self)
        ensures
            r.wf(),
            r@.schemas.len() == 0,
            r@.stores.len() == 0,
    {
        StorageManager {
            next_store_id: StoreId(0),
            table_storage_directory: Vec::new(),
            schemas: Vec::new(),
        }
    }

    fn find(&self, table_name: &TableName) -> (r: Option<usize>)
        ensures
            match r {
                Some(i) => i < self.schemas.len() && self.schemas[i as int].0@ == table_name@
                    && lookup(self@.schemas, table_name@) == Some(self.schemas[i as int].1@),
                None => lookup(self@.schemas, table_name@) is None,
            },
    {
        let ghost table = self@.schemas;
        let mut i: usize = 0;
        assert(table.skip(0) == table);
        while i < self.schemas.len()
            invariant
                i <= self.schemas.len(),
                table == self@.schemas,
                lookup(table, table_name@) == lookup(table.skip(i as int), table_name@),
            decreases self.schemas.len() - i,
        {
            assert(table.skip(i as int)[0] == table[i as int]);
            if self.schemas[i].0.0 == table_name.0 {
                return Some(i);
            }
            assert(table.skip(i as int).skip(1) == table.skip(i + 1));
            i += 1;
        }
        None
    }

    /// Adds the table that `req` describes, with an empty store under the next
    /// store id. A table of that name must not exist yet.
    pub fn create_table(&mut self, req: CreateTableRequest) -> (r: Result<(), StorageError>)
        requires
            old(self).wf(),
        ensures
            final(self).wf(),
            match r {
                Ok(_) => old(self)@.schema_of(req.table_name@) is None && old(self)@.stores.len()
                    < u64::MAX && final(self)@ == (CatalogView {
                    schemas: old(self)@.schemas.push(
                        (
                            req.table_name@,
                            SchemaView {
                                store_id: StoreId(old(self)@.stores.len() as u64),
                                primary_key: req.primary_key@,
                                attributes: attribute_views(req.schema_attributes@),
                            },
                        ),
                    ),
                    stores: old(self)@.stores.push(Seq::empty()),
                }),
                Err(e) => final(self)@ == old(self)@ && if old(self)@.schema_of(req.table_name@)
                    is Some {
                    e@ == StorageErrorView::AlreadyExists(table_exists_message(req.table_name@))
                } else {
                    e@ is CapacityExceeded && old(self)@.stores.len() >= u64::MAX
                },
            },
    {
        let CreateTableRequest { table_name, primary_key, schema_attributes } = req;
        if self.find(&table_name).is_some() {
            let message = String::from_str("table ").concat(table_name.0.as_str());
            return Err(StorageError::AlreadyExists(message));
        }
        if self.next_store_id.0 == u64::MAX {
            return Err(StorageError::CapacityExceeded(String::from_str("store ids")));
        }
        let store_id = self.create_new_store_id();
        let schema = Schema::new(store_id, primary_key, schema_attributes);
        self.schemas.push((table_name, schema));
        self.table_storage_directory.push(Storage::new(store_id));
        proof {
            assert(final(self)@.schemas =~= old(self)@.schemas.push(
                (table_name@, schema@),
            ));
            assert(final(self)@.stores =~= old(self)@.stores.push(Seq::empty()));
            assert forall|i: int| 0 <= i < self@.schemas.len() implies (
            #[trigger] self@.schemas[i]).1.store_id.0 < self@.stores.len() by {
                if i < old(self)@.schemas.len() {
                    assert(old(self)@.schemas[i] == self@.schemas[i]);
                }
            }
        }
        Ok(())
    }

    /// The store of the table `table_name`.
    pub fn get_table_store(&self, table_name: &TableName) -> (r: Option<&Storage>)
        requires
            self.wf(),
        ensures
            r is Some <==> self@.schema_of(table_name@) is Some,
            r is Some ==> r.unwrap().wf() && r.unwrap()@ == self@.rows_of(table_name@),
    {
        match self.find(table_name) {
            Some(i) => {
                let id = self.schemas[i].1.store_id.0;
                proof {
                    assert(self@.schemas[i as int].1.store_id.0 < self@.stores.len());
                }
                Some(&self.table_storage_directory[id as usize])
            },
            None => None,
        }
    }

    /// Appends `tuple` to the store of the table `table_name`, which must
    /// exist, and gives the id of its slot.
    pub fn insert_tuple(&mut self, table_name: &TableName, tuple: TupleRecord) -> (r: Result<
        TupleId,
        StorageError,
    >)
        requires
            old(self).wf(),
            old(self)@.schema_of(table_name@) is Some,
        ensures
            final(self).wf(),
            ({
                let store = old(self)@.schema_of(table_name@).unwrap().store_id;
                let rows = old(self)@.rows_of(table_name@);
                match r {
                    Ok(id) => rows.len() < u32::MAX && id == (TupleId {
                        store_id: store,
                        slot_index: rows.len() as u32,
                    }) && final(self)@ == (CatalogView {
                        schemas: old(self)@.schemas,
                        stores: old(self)@.stores.update(store.0 as int, rows.push(tuple@)),
                    }),
                    Err(e) => rows.len() >= u32::MAX && e@ is CapacityExceeded && final(self)@
                        == old(self)@,
                }
            }),
    {
        let i = self.find(table_name).unwrap();
        let id = self.schemas[i].1.store_id.0 as usize;
        proof {
            assert(self@.schemas[i as int].1.store_id.0 < self@.stores.len());
        }
        if self.table_storage_directory[id].is_full() {
            return Err(StorageError::CapacityExceeded(String::from_str("tuple slots")));
        }
        let tuple_id = self.table_storage_directory[id].insert_tuple(tuple);
        proof {
            assert(final(self)@.stores =~= old(self)@.stores.update(
                id as int,
                old(self)@.rows_of(table_name@).push(tuple@),
            ));
            assert(final(self)@.schemas =~= old(self)@.schemas);
        }
        Ok(tuple_id)
    }

    /// The schema of the table `table_name`, seen through `alias` where one
    /// is given.
    pub fn get_schema(&self, table_name: &TableName, alias: Option<&String>) -> (r: Option<Schema>)
        ensures
            match self@.schema_of(table_name@) {
                Some(schema) => r is Some && r.unwrap()@ == match alias {
                    Some(alias) => SchemaView {
                        store_id: schema.store_id,
                        primary_key: aliased_name(alias@, schema.primary_key),
                        attributes: aliased_attributes(schema.attributes, alias@),
                    },
                    None => schema,
                },
                None => r is None,
            },
    {
        match self.find(table_name) {
            Some(i) => {
                let schema = self.schemas[i].1.clone();
                match alias {
                    Some(alias) => Some(schema.with_alias(alias.as_str())),
                    None => Some(schema),
                }
            },
            None => None,
        }
    }

    fn create_new_store_id(&mut self) -> (id: StoreId)
        requires
            old(self).next_store_id.0 < u64::MAX,
        ensures
            id == old(self).next_store_id,
            final(self).next_store_id.0 == old(self).next_store_id.0 + 1,
            final(self).schemas == old(self).schemas,
            final(self).table_storage_directory == old(self).table_storage_directory,
    {
        let store_id = self.next_store_id;
        self.next_store_id = StoreId(store_id.0 + 1);
        store_id
    }
}

} // verus!
