//! From a statement to its plan, against the catalog.

pub mod error;
pub mod naming;
pub mod soundness;
pub mod type_check;

use crate::execution::expr_evaluation::{evaluate_expr, value_of};
use crate::parser::ast::{
    AttributeDefinition, AttributeDefinitionView, AttributeType as ParserAttributeType,
    AttributeValue, AttributeValueView, CreateTableStmt, CreateTableStmtView, FromClause,
    FromClauseView, InsertStmt, InsertStmtView, JoinStmt, JoinStmtView, JoinType,
    optional_text_view, SelectProperties, SelectPropertiesView, SelectStmt, SelectStmtView,
    SingleSelectStmt, SingleSelectStmtView, Stmt, StmtView, text_views, WhereClause,
    WhereClauseView,
};
use crate::planner::plan::create_plan::{CreateTablePlan, CreateTablePlanView};
use crate::planner::plan::insert_plan::{InsertTuplePlan, InsertTuplePlanView};
use crate::planner::plan::{Plan, PlanView};
use crate::planner::plan::query_plan::{
    FilterNode, JoinNode, ProjectNode, QueryPlan, QueryPlanNode, QueryPlanNodeView, QueryPlanView,
    QueryResultSchema, ScanNode,
};
use crate::storage::error::{StorageError, StorageErrorView};
use crate::storage::storage_manager::{
    attribute_views, AttributeName, Attributes, AttributesView, CatalogView, distinct, lookup,
    name_views, optionally_aliased, Schema, StorageManager, table_exists_message, TableName,
};
use crate::storage::tuple_serde::{
    can_encode, encodable, encode_values, named_value_views, serialize_tuple, StorageTupleValue,
    type_of, value_views, ValueView,
};
use crate::storage::types::AttributeType as StorageAttributeType;
use crate::translate::error::{TranslateError, TranslateErrorView};
use crate::translate::type_check::{
    expr_type, join_condition, projected, type_check_expr, type_check_join_predicate,
    type_check_projection,
};
use vstd::prelude::*;
use vstd::string::StringExecFns;

verus! {

/// The names of the definitions that are marked as the primary key, in order.
pub open spec fn primary_keys(definitions: Seq<AttributeDefinitionView>) -> Seq<Seq<char>>
    decreases definitions.len(),
{
    if definitions.len() == 0 {
        Seq::empty()
    } else if definitions.last().is_primary_key {
        primary_keys(definitions.drop_last()).push(definitions.last().name)
    } else {
        primary_keys(definitions.drop_last())
    }
}

/// The first name, in order, that occurs earlier in `names` as well.
pub open spec fn first_duplicate(names: Seq<Seq<char>>) -> Option<Seq<char>>
    decreases names.len(),
{
    if names.len() == 0 {
        None
    } else {
        match first_duplicate(names.drop_last()) {
            Some(name) => Some(name),
            None => if names.drop_last().contains(names.last()) {
                Some(names.last())
            } else {
                None
            },
        }
    }
}

/// The type of a row's value for a column type of a table definition.
pub open spec fn storage_type(t: ParserAttributeType) -> StorageAttributeType {
    match t {
        ParserAttributeType::Integer => StorageAttributeType::Integer,
        ParserAttributeType::Text => StorageAttributeType::Text,
    }
}

/// The names of the definitions, in order.
pub open spec fn defined_names(definitions: Seq<AttributeDefinitionView>) -> Seq<Seq<char>> {
    definitions.map_values(|d: AttributeDefinitionView| d.name)
}

/// The columns that the definitions define, in order.
pub open spec fn defined_attributes(definitions: Seq<AttributeDefinitionView>) -> AttributesView {
    definitions.map_values(|d: AttributeDefinitionView| (d.name, storage_type(d.attribute_type)))
}

/// The plan of a table creation. The table must not exist, exactly one column
/// must be marked as the primary key, and no two columns may share a name;
/// the checks are made in this order.
pub open spec fn create_table_plan(stmt: CreateTableStmtView, catalog: CatalogView) -> Result<
    CreateTablePlanView,
    TranslateErrorView,
> {
    let keys = primary_keys(stmt.attribute_definitions);
    if catalog.schema_of(stmt.table_name) is Some {
        Err(
            TranslateErrorView::StorageError(
                StorageErrorView::AlreadyExists(table_exists_message(stmt.table_name)),
            ),
        )
    } else if keys.len() == 0 {
        Err(TranslateErrorView::PrimaryKeyRequired)
    } else if keys.len() > 1 {
        Err(TranslateErrorView::MultiplePrimaryKeys(keys))
    } else {
        match first_duplicate(defined_names(stmt.attribute_definitions)) {
            Some(name) => Err(TranslateErrorView::DuplicateAttributeName(name)),
            None => Ok(
                CreateTablePlanView {
                    table_name: stmt.table_name,
                    primary_key: keys[0],
                    schema_attributes: defined_attributes(stmt.attribute_definitions),
                },
            ),
        }
    }
}

/// The value that an inserted value denotes: a text as it is, an expression
/// by its value without any attribute to refer to.
pub open spec fn resolved_value(
    value: AttributeValueView,
) -> Result<ValueView, TranslateErrorView> {
    match value {
        AttributeValueView::String(s) => Ok(ValueView::String(s)),
        AttributeValueView::Expr(expr) => match value_of(expr, Seq::empty()) {
            Ok(v) => Ok(v),
            Err(_) => Err(TranslateErrorView::InvalidArguments),
        },
    }
}

/// The values that the inserted values denote, in order, where each denotes
/// one that the codec can write.
pub open spec fn resolved_values(values: Seq<AttributeValueView>) -> Result<
    Seq<ValueView>,
    TranslateErrorView,
>
    decreases values.len(),
{
    if values.len() == 0 {
        Ok(Seq::empty())
    } else {
        match resolved_value(values[0]) {
            Err(e) => Err(e),
            Ok(v) => if !encodable(v) {
                Err(TranslateErrorView::InvalidArguments)
            } else {
                match resolved_values(values.skip(1)) {
                    Err(e) => Err(e),
                    Ok(rest) => Ok(seq![v] + rest),
                }
            },
        }
    }
}

/// What is wrong with the first value, in order, that does not fit its
/// column: the table has no column of that name, or the column has another type.
pub open spec fn column_mismatch(
    names: Seq<Seq<char>>,
    values: Seq<ValueView>,
    columns: AttributesView,
) -> Option<
    TranslateErrorView,
>
    decreases names.len(),
{
    if names.len() == 0 || values.len() != names.len() {
        None
    } else {
        match lookup(columns, names[0]) {
            None => Some(TranslateErrorView::InvalidArguments),
            Some(t) => if t != type_of(values[0]) {
                Some(TranslateErrorView::TypeError)
            } else {
                column_mismatch(names.skip(1), values.skip(1), columns)
            },
        }
    }
}

/// A name that occurs twice among the first names occurs twice among all.
pub proof fn lemma_first_duplicate_prefix(names: Seq<Seq<char>>, k: int)
    requires
        0 <= k <= names.len(),
        first_duplicate(names.take(k)) is Some,
    ensures
        first_duplicate(names) == first_duplicate(names.take(k)),
    decreases names.len() - k,
{
    if k == names.len() {
        assert(names.take(k) == names);
    } else {
        assert(names.take(k + 1).drop_last() == names.take(k));
        lemma_first_duplicate_prefix(names, k + 1);
    }
}

/// No name is found twice exactly where no name occurs twice.
pub proof fn lemma_first_duplicate_none(names: Seq<Seq<char>>)
    ensures
        first_duplicate(names) is None <==> distinct(names),
    decreases names.len(),
{
    if names.len() > 0 {
        let before = names.drop_last();
        lemma_first_duplicate_none(before);
        if first_duplicate(names) is None {
            assert forall|i: int, j: int| 0 <= i < j < names.len() implies names[i]
                != names[j] by {
                if j < before.len() {
                    assert(before[i] != before[j]);
                } else {
                    assert(!before.contains(names.last()));
                    assert(before[i] == names[i]);
                }
            }
        } else {
            if first_duplicate(before) is None {
                let i = choose|i: int| 0 <= i < before.len() && before[i] == names.last();
                assert(names[i] == names[names.len() - 1]);
            } else {
                let (i, j) = choose|i: int, j: int|
                    0 <= i < j < before.len() && before[i] == before[j];
                assert(names[i] == names[j]);
            }
        }
    }
}

/// The plan of an insertion. The table must exist; there must be as many
/// values as names, and at least one; every value must denote a value; every
/// name must be a column of the table, of the type of its value. The checks
/// are made in this order. The row holds the values in the order of the
/// statement.
pub open spec fn insert_plan(stmt: InsertStmtView, catalog: CatalogView) -> Result<
    InsertTuplePlanView,
    TranslateErrorView,
> {
    match catalog.schema_of(stmt.table_name) {
        None => Err(TranslateErrorView::NoSuchTable(stmt.table_name)),
        Some(schema) => if stmt.attribute_names.len() != stmt.attribute_values.len()
            || stmt.attribute_values.len() == 0 {
            Err(TranslateErrorView::InvalidArguments)
        } else {
            match resolved_values(stmt.attribute_values) {
                Err(e) => Err(e),
                Ok(values) => match column_mismatch(
                    stmt.attribute_names,
                    values,
                    schema.attributes,
                ) {
                    Some(e) => Err(e),
                    None => Ok(
                        InsertTuplePlanView {
                            table_name: stmt.table_name,
                            tuple: encode_values(values),
                        },
                    ),
                },
            }
        },
    }
}

/// The plan that keeps of the rows of `child` the attributes `names`, in
/// that order. The names are those of the rows of `child` as seen through
/// `alias`.
pub open spec fn projection_plan(
    child: QueryPlanView,
    names: Seq<Seq<char>>,
    alias: Option<Seq<char>>,
) -> Result<
    QueryPlanView,
    TranslateErrorView,
> {
    match projected(names, optionally_aliased(child.result_schema, alias)) {
        Err(e) => Err(e),
        Ok(attributes) => Ok(
            QueryPlanView {
                result_schema: attributes,
                plan: QueryPlanNodeView::Project {
                    schema: attributes,
                    record_schema: child.result_schema,
                    attributes: names,
                    child: Box::new(child),
                },
            },
        ),
    }
}

/// The name of the first attribute of `right`, in order, that `left` has too.
pub open spec fn shared_name(left: AttributesView, right: AttributesView) -> Option<Seq<char>>
    decreases right.len(),
{
    if right.len() == 0 {
        None
    } else if lookup(left, right[0].0) is Some {
        Some(right[0].0)
    } else {
        shared_name(left, right.skip(1))
    }
}

/// The plan of a select statement.
pub open spec fn select_plan(stmt: SelectStmtView, catalog: CatalogView) -> Result<
    QueryPlanView,
    TranslateErrorView,
>
    decreases stmt,
{
    match stmt {
        SelectStmtView::Select(single) => single_select_plan(single, catalog),
        SelectStmtView::Join(join) => join_plan(join, catalog),
    }
}

/// The plan of the source of a select: the scan of a table, which must
/// exist, or the plan of a nested select.
pub open spec fn source_plan(source: FromClauseView, catalog: CatalogView) -> Result<
    QueryPlanView,
    TranslateErrorView,
>
    decreases source,
{
    match source {
        FromClauseView::Table(name) => match catalog.schema_of(name) {
            None => Err(TranslateErrorView::NoSuchTable(name)),
            Some(schema) => Ok(
                QueryPlanView {
                    result_schema: schema.attributes,
                    plan: QueryPlanNodeView::Scan {
                        schema: schema.attributes,
                        table_name: name,
                    },
                },
            ),
        },
        FromClauseView::Select(nested) => select_plan(*nested, catalog),
    }
}

/// The plan `child` under the condition `condition`, which must be a boolean
/// over the rows of `child` as seen through `alias`. The filter reads rows
/// under the aliased names; the rows it yields are those of `child`.
pub open spec fn filtered_plan(
    child: QueryPlanView,
    condition: WhereClauseView,
    alias: Option<Seq<char>>,
) -> Result<
    QueryPlanView,
    TranslateErrorView,
> {
    match condition {
        WhereClauseView::Absent => Ok(child),
        WhereClauseView::Expr(predicate) => {
            let env = optionally_aliased(child.result_schema, alias);
            match expr_type(predicate, env) {
                Err(e) => Err(e),
                Ok(StorageAttributeType::Boolean) => Ok(
                    QueryPlanView {
                        result_schema: child.result_schema,
                        plan: QueryPlanNodeView::Filter {
                            predicate,
                            schema: env,
                            child: Box::new(child),
                        },
                    },
                ),
                Ok(_) => Err(TranslateErrorView::TypeError),
            }
        },
    }
}

/// The plan `child` with the properties `properties` selected: all
/// attributes, seen through `alias`, or the named ones.
pub open spec fn selected_plan(
    child: QueryPlanView,
    properties: SelectPropertiesView,
    alias: Option<Seq<char>>,
) -> Result<
    QueryPlanView,
    TranslateErrorView,
> {
    match properties {
        SelectPropertiesView::Identifiers(names) => projection_plan(child, names, alias),
        SelectPropertiesView::Star => Ok(
            QueryPlanView {
                result_schema: optionally_aliased(child.result_schema, alias),
                plan: child.plan,
            },
        ),
    }
}

/// The plan of a select over one source: the source, then the condition,
/// then the selection.
pub open spec fn single_select_plan(stmt: SingleSelectStmtView, catalog: CatalogView) -> Result<
    QueryPlanView,
    TranslateErrorView,
>
    decreases stmt,
{
    match source_plan(stmt.from_clause, catalog) {
        Err(e) => Err(e),
        Ok(child) => match filtered_plan(child, stmt.where_clause, stmt.alias) {
            Err(e) => Err(e),
            Ok(plan) => selected_plan(plan, stmt.properties, stmt.alias),
        },
    }
}

/// The plan of the join of the rows of `left` and `right` under `condition`,
/// with `properties` selected. The two sides must share no attribute name,
/// and the condition must be a boolean over the attributes of both.
pub open spec fn joined_plan(
    join_type: JoinType,
    left: QueryPlanView,
    right: QueryPlanView,
    condition: WhereClauseView,
    properties: SelectPropertiesView,
) -> Result<QueryPlanView, TranslateErrorView> {
    match shared_name(left.result_schema, right.result_schema) {
        Some(name) => Err(TranslateErrorView::DuplicateAttributeName(name)),
        None => {
            let schema = left.result_schema + right.result_schema;
            match join_condition(condition, schema) {
                Err(e) => Err(e),
                Ok(predicate) => selected_plan(
                    QueryPlanView {
                        result_schema: schema,
                        plan: QueryPlanNodeView::Join {
                            join_type,
                            predicate,
                            schema,
                            left: Box::new(left),
                            right: Box::new(right),
                        },
                    },
                    properties,
                    None,
                ),
            }
        },
    }
}

/// The plan of a join: the left side, then the right side, then their join.
pub open spec fn join_plan(stmt: JoinStmtView, catalog: CatalogView) -> Result<
    QueryPlanView,
    TranslateErrorView,
>
    decreases stmt,
{
    match single_select_plan(stmt.left, catalog) {
        Err(e) => Err(e),
        Ok(left) => match single_select_plan(stmt.right, catalog) {
            Err(e) => Err(e),
            Ok(right) => joined_plan(stmt.join_type, left, right, stmt.predicate, stmt.properties),
        },
    }
}

/// The plan of a statement.
pub open spec fn plan_of(
    stmt: StmtView,
    catalog: CatalogView,
) -> Result<PlanView, TranslateErrorView> {
    match stmt {
        StmtView::CreateTable(stmt) => match create_table_plan(stmt, catalog) {
            Ok(plan) => Ok(PlanView::CreateTable(plan)),
            Err(e) => Err(e),
        },
        StmtView::Insert(stmt) => match insert_plan(stmt, catalog) {
            Ok(plan) => Ok(PlanView::InsertTuple(plan)),
            Err(e) => Err(e),
        },
        StmtView::Select(stmt) => match select_plan(stmt, catalog) {
            Ok(plan) => Ok(PlanView::Query(plan)),
            Err(e) => Err(e),
        },
    }
}

/// The translator of statements against a catalog.
pub struct Translator<'storage> {
    pub storage_manager: &'storage StorageManager,
}

fn invalid(message: &str) -> (e: TranslateError)
    ensures
        e@ == TranslateErrorView::InvalidArguments,
{
    TranslateError::InvalidArguments(String::from_str(message))
}

/// The type of a value.
pub fn value_type(value: &StorageTupleValue) -> (t: StorageAttributeType)
    ensures
        t == type_of(value@),
{
    match value {
        StorageTupleValue::Integer(_) => StorageAttributeType::Integer,
        StorageTupleValue::String(_) => StorageAttributeType::Text,
        StorageTupleValue::Boolean(_) => StorageAttributeType::Boolean,
    }
}

impl<'storage> Translator<'storage> {
    /// The plan of a table creation.
    #[verifier::loop_isolation(false)]
    pub fn translate_create_table(&self, stmt: CreateTableStmt) -> (r: Result<
        Plan,
        TranslateError,
    >)
        ensures
            match create_table_plan(stmt@, self.storage_manager@) {
                Ok(plan) => r is Ok && r.unwrap()@ == PlanView::CreateTable(plan),
                Err(e) => r is Err && r.unwrap_err()@ == e,
            },
    {
        let ghost definitions = stmt@.attribute_definitions;
        let CreateTableStmt { table_name, attribute_definitions } = stmt;
        let table_name = TableName(table_name);
        if self.storage_manager.get_schema(&table_name, None).is_some() {
            let message = String::from_str("table ").concat(table_name.0.as_str());
            return Err(
                TranslateError::StorageError(
                    StorageError::AlreadyExists(message),
                ),
            );
        }
        let mut primary_keys: Vec<String> = Vec::new();
        let mut i: usize = 0;
        while i < attribute_definitions.len()
            invariant
                i <= attribute_definitions.len(),
                definitions == attribute_definitions@.map_values(|d: AttributeDefinition| d@),
                text_views(primary_keys@) == self::primary_keys(
                    definitions.take(i as int),
                ),
            decreases attribute_definitions.len() - i,
        {
            assert(definitions.take(i + 1).drop_last() == definitions.take(i as int));
            if attribute_definitions[i].is_primary_key {
                primary_keys.push(attribute_definitions[i].name.clone());
                assert(text_views(primary_keys@) =~= self::primary_keys(
                    definitions.take(i + 1),
                ));
            }
            i += 1;
        }
        assert(definitions.take(attribute_definitions.len() as int) == definitions);
        if primary_keys.len() == 0 {
            return Err(TranslateError::PrimaryKeyRequired);
        }
        if primary_keys.len() > 1 {
            return Err(TranslateError::MultiplePrimaryKeys(primary_keys));
        }
        let primary_key = AttributeName(primary_keys[0].clone());
        let ghost names = defined_names(definitions);
        let mut k: usize = 0;
        while k < attribute_definitions.len()
            invariant
                k <= attribute_definitions.len(),
                definitions == attribute_definitions@.map_values(|d: AttributeDefinition| d@),
                names == defined_names(definitions),
                first_duplicate(names.take(k as int)) is None,
            decreases attribute_definitions.len() - k,
        {
            assert(names.take(k + 1).drop_last() == names.take(k as int));
            let mut j: usize = 0;
            while j < k
                invariant
                    j <= k < attribute_definitions.len(),
                    definitions == attribute_definitions@.map_values(|d: AttributeDefinition| d@),
                    names == defined_names(definitions),
                    forall|m: int| 0 <= m < j ==> names[m] != names[k as int],
                decreases k - j,
            {
                if attribute_definitions[j].name == attribute_definitions[k].name {
                    proof {
                        assert(names.take(k as int)[j as int] == names[k as int]);
                        assert(names.take(k + 1).last() == names[k as int]);
                        lemma_first_duplicate_prefix(names, k + 1);
                    }
                    return Err(
                        TranslateError::DuplicateAttributeName(
                            attribute_definitions[k].name.clone(),
                        ),
                    );
                }
                j += 1;
            }
            assert(!names.take(k as int).contains(names[k as int]));
            k += 1;
        }
        assert(names.take(attribute_definitions.len() as int) == names);
        let mut schema_attributes: Vec<(AttributeName, StorageAttributeType)> = Vec::new();
        let mut n: usize = 0;
        while n < attribute_definitions.len()
            invariant
                n <= attribute_definitions.len(),
                definitions == attribute_definitions@.map_values(|d: AttributeDefinition| d@),
                schema_attributes.len() == n,
                forall|m: int|
                    0 <= m < n ==> (#[trigger] schema_attributes[m]).0@ == definitions[m].name
                        && schema_attributes[m].1 == storage_type(definitions[m].attribute_type),
            decreases attribute_definitions.len() - n,
        {
            schema_attributes.push(
                (
                    AttributeName(attribute_definitions[n].name.clone()),
                    Self::translate_attribute_type(attribute_definitions[n].attribute_type),
                ),
            );
            n += 1;
        }
        assert(attribute_views(schema_attributes@) =~= defined_attributes(definitions));
        Ok(Plan::CreateTable(CreateTablePlan { table_name, primary_key, schema_attributes }))
    }

    /// The type of a row's value for a column type of a table definition.
    pub fn translate_attribute_type(attribute_type: ParserAttributeType) -> (t:
        StorageAttributeType)
        ensures
            t == storage_type(attribute_type),
    {
        match attribute_type {
            ParserAttributeType::Integer => StorageAttributeType::Integer,
            ParserAttributeType::Text => StorageAttributeType::Text,
        }
    }

    /// The value that an inserted value denotes.
    pub fn resolve_attribute_value(attribute_value: AttributeValue) -> (r: Result<
        StorageTupleValue,
        TranslateError,
    >)
        ensures
            match resolved_value(attribute_value@) {
                Ok(v) => r is Ok && r.unwrap()@ == v,
                Err(e) => r is Err && r.unwrap_err()@ == e,
            },
    {
        Self::resolve(&attribute_value)
    }

    /// The plan of an insertion.
    #[verifier::loop_isolation(false)]
    pub fn translate_insert(&self, stmt: InsertStmt) -> (r: Result<Plan, TranslateError>)
        ensures
            match insert_plan(stmt@, self.storage_manager@) {
                Ok(plan) => r is Ok && r.unwrap()@ == PlanView::InsertTuple(plan),
                Err(e) => r is Err && r.unwrap_err()@ == e,
            },
    {
        let ghost names = stmt@.attribute_names;
        let ghost given = stmt@.attribute_values;
        let InsertStmt { table_name, attribute_names, attribute_values } = stmt;
        let table_name = TableName(table_name);
        let schema = self.get_table_schema(&table_name, None)?;
        if attribute_names.len() != attribute_values.len() {
            return Err(invalid("attribute length mismatch"));
        }
        if attribute_values.len() == 0 {
            return Err(invalid("No attribute values provided"));
        }
        let mut resolved_attribute_values: Vec<StorageTupleValue> = Vec::new();
        let mut i: usize = 0;
        proof {
            assert(given.skip(0) == given);
            match resolved_values(given) {
                Ok(rest) => {
                    assert(value_views(resolved_attribute_values@) + rest =~= rest);
                },
                Err(_) => {},
            }
        }
        while i < attribute_values.len()
            invariant
                i <= attribute_values.len(),
                given == attribute_values@.map_values(|v: AttributeValue| v@),
                resolved_attribute_values.len() == i,
                forall|m: int|
                    0 <= m < i ==> encodable(#[trigger] resolved_attribute_values[m]@),
                resolved_values(given) == match resolved_values(given.skip(i as int)) {
                    Ok(rest) => Ok::<Seq<ValueView>, TranslateErrorView>(
                        value_views(resolved_attribute_values@) + rest,
                    ),
                    Err(e) => Err(e),
                },
            decreases attribute_values.len() - i,
        {
            assert(given.skip(i as int)[0] == attribute_values[i as int]@);
            assert(given.skip(i as int).skip(1) == given.skip(i + 1));
            let value = Self::resolve(&attribute_values[i])?;
            if !can_encode(&value) {
                return Err(invalid("text is too long"));
            }
            proof {
                match resolved_values(given.skip(i + 1)) {
                    Ok(rest) => {
                        assert(value_views(resolved_attribute_values@.push(value)) + rest
                            =~= value_views(resolved_attribute_values@) + (seq![value@] + rest));
                    },
                    Err(_) => {},
                }
            }
            resolved_attribute_values.push(value);
            i += 1;
        }
        let ghost values = value_views(resolved_attribute_values@);
        assert(values + Seq::empty() =~= values);
        let mut k: usize = 0;
        proof {
            assert(names.skip(0) == names);
            assert(values.skip(0) == values);
        }
        while k < attribute_names.len()
            invariant
                k <= attribute_names.len(),
                attribute_names.len() == resolved_attribute_values.len(),
                names == text_views(attribute_names@),
                values == value_views(resolved_attribute_values@),
                column_mismatch(names, values, schema@.attributes) == column_mismatch(
                    names.skip(k as int),
                    values.skip(k as int),
                    schema@.attributes,
                ),
            decreases attribute_names.len() - k,
        {
            assert(names.skip(k as int)[0] == attribute_names[k as int]@);
            assert(values.skip(k as int)[0] == resolved_attribute_values[k as int]@);
            assert(names.skip(k as int).skip(1) == names.skip(k + 1));
            assert(values.skip(k as int).skip(1) == values.skip(k + 1));
            let name = AttributeName(attribute_names[k].clone());
            match schema.attributes.get_attribute_type(&name) {
                Some(expected_type) => {
                    if expected_type != value_type(&resolved_attribute_values[k]) {
                        return Err(
                            TranslateError::TypeError(
                                String::from_str("type mismatch for attribute ").concat(
                                    name.0.as_str(),
                                ),
                            ),
                        );
                    }
                },
                None => {
                    return Err(
                        TranslateError::InvalidArguments(
                            String::from_str("no such attribute ").concat(name.0.as_str()),
                        ),
                    );
                },
            }
            k += 1;
        }
        Ok(
            Plan::InsertTuple(
                InsertTuplePlan { table_name, tuple: serialize_tuple(resolved_attribute_values) },
            ),
        )
    }

    fn resolve(attribute_value: &AttributeValue) -> (r: Result<StorageTupleValue, TranslateError>)
        ensures
            match resolved_value(attribute_value@) {
                Ok(v) => r is Ok && r.unwrap()@ == v,
                Err(e) => r is Err && r.unwrap_err()@ == e,
            },
    {
        match attribute_value {
            AttributeValue::String(s) => Ok(StorageTupleValue::String(s.clone())),
            AttributeValue::Expr(expr) => {
                let ctx: Vec<(AttributeName, StorageTupleValue)> = Vec::new();
                assert(named_value_views(ctx@) =~= Seq::empty());
                match evaluate_expr(expr, &ctx) {
                    Ok(v) => Ok(v),
                    Err(e) => Err(TranslateError::InvalidArguments(e.to_string())),
                }
            },
        }
    }

    /// The plan of a statement.
    pub fn translate(&self, stmt: Stmt) -> (r: Result<Plan, TranslateError>)
        ensures
            match plan_of(stmt@, self.storage_manager@) {
                Ok(plan) => r is Ok && r.unwrap()@ == plan,
                Err(e) => r is Err && r.unwrap_err()@ == e,
            },
    {
        match stmt {
            Stmt::CreateTable(stmt) => self.translate_create_table(stmt),
            Stmt::Insert(stmt) => self.translate_insert(stmt),
            Stmt::Select(stmt) => self.translate_select(stmt),
        }
    }

    /// The plan of a select statement.
    pub fn translate_select(&self, stmt: SelectStmt) -> (r: Result<Plan, TranslateError>)
        ensures
            match select_plan(stmt@, self.storage_manager@) {
                Ok(plan) => r is Ok && r.unwrap()@ == PlanView::Query(plan),
                Err(e) => r is Err && r.unwrap_err()@ == e,
            },
    {
        Ok(Plan::Query(self.translate_query(stmt)?))
    }

    fn translate_query(&self, stmt: SelectStmt) -> (r: Result<QueryPlan, TranslateError>)
        ensures
            match select_plan(stmt@, self.storage_manager@) {
                Ok(plan) => r is Ok && r.unwrap()@ == plan,
                Err(e) => r is Err && r.unwrap_err()@ == e,
            },
        decreases stmt,
    {
        match stmt {
            SelectStmt::Select(stmt) => self.translate_single_select(stmt),
            SelectStmt::Join(stmt) => self.translate_join(stmt),
        }
    }

    /// The plan of a join.
    #[verifier::loop_isolation(false)]
    pub fn translate_join(&self, stmt: JoinStmt) -> (r: Result<QueryPlan, TranslateError>)
        ensures
            match join_plan(stmt@, self.storage_manager@) {
                Ok(plan) => r is Ok && r.unwrap()@ == plan,
                Err(e) => r is Err && r.unwrap_err()@ == e,
            },
        decreases stmt,
    {
        let JoinStmt { join_type, properties, left, right, predicate } = stmt;
        let left_plan = self.translate_single_select(left)?;
        let right_plan = self.translate_single_select(right)?;
        let left_attributes = left_plan.result_schema.attributes.clone();
        let right_attributes = right_plan.result_schema.attributes.clone();
        // The result schema must have unique column names.
        let ghost right_view = right_attributes@;
        let mut i: usize = 0;
        assert(right_view.skip(0) == right_view);
        while i < right_attributes.0.len()
            invariant
                i <= right_attributes.0.len(),
                right_view == right_attributes@,
                shared_name(left_attributes@, right_view) == shared_name(
                    left_attributes@,
                    right_view.skip(i as int),
                ),
            decreases right_attributes.0.len() - i,
        {
            assert(right_view.skip(i as int)[0] == right_view[i as int]);
            assert(right_view.skip(i as int).skip(1) == right_view.skip(i + 1));
            if left_attributes.get_attribute_type(&right_attributes.0[i].0).is_some() {
                return Err(
                    TranslateError::DuplicateAttributeName(right_attributes.0[i].0.0.clone()),
                );
            }
            i += 1;
        }
        let mut joined_record_attributes = left_attributes.0;
        let ghost left_view = attribute_views(joined_record_attributes@);
        let mut k: usize = 0;
        while k < right_attributes.0.len()
            invariant
                k <= right_attributes.0.len(),
                joined_record_attributes.len() == left_view.len() + k,
                forall|j: int|
                    0 <= j < left_view.len() ==> (#[trigger] joined_record_attributes[j]).0@
                        == left_view[j].0 && joined_record_attributes[j].1 == left_view[j].1,
                forall|j: int|
                    0 <= j < k ==> (#[trigger] joined_record_attributes[left_view.len() + j]).0@
                        == right_view[j].0 && joined_record_attributes[left_view.len() + j].1
                        == right_view[j].1,
            decreases right_attributes.0.len() - k,
        {
            let ghost before = joined_record_attributes@;
            joined_record_attributes.push(
                (right_attributes.0[k].0.clone(), right_attributes.0[k].1),
            );
            assert forall|j: int| 0 <= j < k + 1 implies (
            #[trigger] joined_record_attributes[left_view.len() + j]).0@ == right_view[j].0
                && joined_record_attributes[left_view.len() + j].1 == right_view[j].1 by {
                if j < k {
                    assert(joined_record_attributes[left_view.len() + j] == before[left_view.len()
                        + j]);
                }
            }
            k += 1;
        }
        assert(attribute_views(joined_record_attributes@) =~= left_view + right_view) by {
            assert forall|j: int| 0 <= j < left_view.len() + right_view.len() implies
                attribute_views(joined_record_attributes@)[j] == (left_view + right_view)[j] by {
                if j >= left_view.len() {
                    let m = j - left_view.len();
                    assert(joined_record_attributes[left_view.len() + m].1 == right_view[m].1);
                }
            }
        }
        let joined_records_schema = QueryResultSchema::new(
            Attributes::new(joined_record_attributes),
        );
        let predicate_expr = type_check_join_predicate(
            predicate,
            &joined_records_schema.attributes,
        )?;
        let join_plan = QueryPlan {
            result_schema: joined_records_schema.clone(),
            plan: QueryPlanNode::Join(
                JoinNode {
                    join_type,
                    predicate: predicate_expr,
                    schema: joined_records_schema,
                    left: Box::new(left_plan),
                    right: Box::new(right_plan),
                },
            ),
        };
        match properties {
            SelectProperties::Star => Ok(join_plan),
            SelectProperties::Identifiers(attr_names) => self.translate_projection(
                join_plan,
                attr_names,
                None,
            ),
        }
    }

    /// The plan of a select over one source.
    pub fn translate_single_select(&self, stmt: SingleSelectStmt) -> (r: Result<
        QueryPlan,
        TranslateError,
    >)
        ensures
            match single_select_plan(stmt@, self.storage_manager@) {
                Ok(plan) => r is Ok && r.unwrap()@ == plan,
                Err(e) => r is Err && r.unwrap_err()@ == e,
            },
        decreases stmt,
    {
        let ghost catalog = self.storage_manager@;
        let ghost view = stmt@;
        let SingleSelectStmt { properties, from_clause, where_clause, alias } = stmt;
        assert(view.from_clause == from_clause@);
        assert(view.where_clause == where_clause@);
        assert(view.properties == properties@);
        assert(view.alias == optional_text_view(alias));
        let child_plan = match from_clause {
            FromClause::Table(table_name) => {
                let table_name = TableName(table_name);
                let schema = QueryResultSchema::from(self.get_table_schema(&table_name, None)?);
                QueryPlan {
                    result_schema: schema.clone(),
                    plan: QueryPlanNode::Scan(ScanNode { schema, table_name }),
                }
            },
            FromClause::Select(nested_select) => self.translate_query(*nested_select)?,
        };
        assert(source_plan(view.from_clause, catalog) == Ok::<QueryPlanView, TranslateErrorView>(
            child_plan@,
        ));
        let ghost child = child_plan@;
        let plan = match where_clause {
            WhereClause::Expr(predicate) => {
                let aliased_result_schema = child_plan.result_schema.clone().aliased(
                    alias.as_ref(),
                );
                match type_check_expr(&predicate, &aliased_result_schema.attributes)? {
                    StorageAttributeType::Boolean => {},
                    _ => {
                        return Err(
                            TranslateError::TypeError(
                                String::from_str("the condition of a select must be a boolean"),
                            ),
                        );
                    },
                }
                QueryPlan {
                    result_schema: child_plan.result_schema.clone(),
                    plan: QueryPlanNode::Filter(
                        FilterNode {
                            schema: aliased_result_schema,
                            predicate,
                            child: Box::new(child_plan),
                        },
                    ),
                }
            },
            WhereClause::Absent => child_plan,
        };
        assert(filtered_plan(child, view.where_clause, view.alias) == Ok::<
            QueryPlanView,
            TranslateErrorView,
        >(plan@));
        match properties {
            SelectProperties::Identifiers(attr_names) => self.translate_projection(
                plan,
                attr_names,
                alias.as_ref(),
            ),
            SelectProperties::Star => Ok(
                QueryPlan { result_schema: plan.result_schema.aliased(alias.as_ref()), plan: plan.plan },
            ),
        }
    }

    /// The plan that keeps of the rows of `child_plan` the attributes
    /// `projected_attr_names`.
    pub fn translate_projection(
        &self,
        child_plan: QueryPlan,
        projected_attr_names: Vec<String>,
        alias: Option<&String>,
    ) -> (r: Result<QueryPlan, TranslateError>)
        ensures
            match projection_plan(
                child_plan@,
                text_views(projected_attr_names@),
                match alias {
                    Some(a) => Some(a@),
                    None => None,
                },
            ) {
                Ok(plan) => r is Ok && r.unwrap()@ == plan,
                Err(e) => r is Err && r.unwrap_err()@ == e,
            },
    {
        let aliased_result_schema = child_plan.result_schema.clone().aliased(alias);
        let projection_result_schema = QueryResultSchema::with_attributes(
            type_check_projection(&projected_attr_names, &aliased_result_schema.attributes)?,
        );
        let child_record_schema = child_plan.result_schema.clone();
        let mut attributes: Vec<AttributeName> = Vec::new();
        let mut i: usize = 0;
        while i < projected_attr_names.len()
            invariant
                i <= projected_attr_names.len(),
                attributes.len() == i,
                forall|j: int| 0 <= j < i ==> attributes[j]@ == projected_attr_names[j]@,
            decreases projected_attr_names.len() - i,
        {
            attributes.push(AttributeName(projected_attr_names[i].clone()));
            i += 1;
        }
        assert(name_views(attributes@) =~= text_views(projected_attr_names@));
        Ok(
            QueryPlan {
                result_schema: projection_result_schema.clone(),
                plan: QueryPlanNode::Project(
                    ProjectNode {
                        schema: projection_result_schema,
                        record_schema: child_record_schema,
                        attributes,
                        child: Box::new(child_plan),
                    },
                ),
            },
        )
    }

    /// The schema of the table `table_name`.
    pub fn get_table_schema(&self, table_name: &TableName, alias: Option<&String>) -> (r: Result<
        Schema,
        TranslateError,
    >)
        ensures
            match self.storage_manager@.schema_of(table_name@) {
                Some(schema) => r is Ok && r.unwrap()@.attributes
                    == optionally_aliased(
                    schema.attributes,
                    match alias {
                        Some(a) => Some(a@),
                        None => None,
                    },
                ) && r.unwrap()@.store_id == schema.store_id,
                None => r is Err && r.unwrap_err()@ == TranslateErrorView::NoSuchTable(
                    table_name@,
                ),
            },
    {
        match self.storage_manager.get_schema(table_name, alias) {
            Some(schema) => Ok(schema),
            None => Err(TranslateError::NoSuchTable(table_name.0.clone())),
        }
    }
}

} // verus!
