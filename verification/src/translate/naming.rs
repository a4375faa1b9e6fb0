//! The names in the schemas of translated plans.

use crate::execution::create::with_table;
use crate::parser::ast::{
    CreateTableStmtView, FromClauseView, SelectPropertiesView, SelectStmtView, SingleSelectStmtView,
    WhereClauseView,
};
use crate::planner::plan::query_plan::{QueryPlanNodeView, QueryPlanView};
use crate::storage::storage_manager::{
    aliased_attributes, aliased_name, AttributesView, CatalogView, distinct, lemma_lookup_is_entry,
    lookup, names_of, optionally_aliased,
};
use crate::storage::types::AttributeType;
use crate::translate::{
    create_table_plan, defined_attributes, defined_names, filtered_plan, lemma_first_duplicate_none,
    projection_plan, select_plan, selected_plan, shared_name, single_select_plan, source_plan,
};
use crate::translate::type_check::{join_condition, projected};
use vstd::prelude::*;

verus! {

/// Whether no name of `left` is a name of `right`.
pub open spec fn disjoint(left: Seq<Seq<char>>, right: Seq<Seq<char>>) -> bool {
    forall|i: int, j: int| 0 <= i < left.len() && 0 <= j < right.len() ==> left[i] != right[j]
}

/// Whether the two sides of every join of the plan share no attribute name.
pub open spec fn joins_disjoint(node: QueryPlanNodeView) -> bool
    decreases node,
{
    match node {
        QueryPlanNodeView::Scan { .. } => true,
        QueryPlanNodeView::Filter { child, .. } => joins_disjoint(child.plan),
        QueryPlanNodeView::Project { child, .. } => joins_disjoint(child.plan),
        QueryPlanNodeView::Join { left, right, .. } => disjoint(
            names_of(left.result_schema),
            names_of(right.result_schema),
        ) && joins_disjoint(left.plan) && joins_disjoint(right.plan),
    }
}

/// Whether a selection names no attribute twice.
pub open spec fn selects_once(properties: SelectPropertiesView) -> bool {
    match properties {
        SelectPropertiesView::Star => true,
        SelectPropertiesView::Identifiers(names) => distinct(names),
    }
}

/// Whether no selection of the statement, nested ones too, names an
/// attribute twice.
pub open spec fn selections_distinct(stmt: SelectStmtView) -> bool
    decreases stmt,
{
    match stmt {
        SelectStmtView::Select(single) => single_selections_distinct(single),
        SelectStmtView::Join(join) => selects_once(join.properties)
            && single_selections_distinct(join.left) && single_selections_distinct(join.right),
    }
}

/// Whether no selection of the select over one source, nested ones too,
/// names an attribute twice.
pub open spec fn single_selections_distinct(stmt: SingleSelectStmtView) -> bool
    decreases stmt,
{
    selects_once(stmt.properties) && match stmt.from_clause {
        FromClauseView::Select(nested) => selections_distinct(*nested),
        FromClauseView::Table(_) => true,
    }
}

/// Whether no table of the catalog has two columns of one name.
pub open spec fn well_named(catalog: CatalogView) -> bool {
    forall|i: int|
        0 <= i < catalog.schemas.len() ==> distinct(
            names_of((#[trigger] catalog.schemas[i]).1.attributes),
        )
}

/// Whether a plan has the names that a translated plan should have: no
/// attribute name twice in the schema of its result, and no attribute name
/// on both sides of a join.
pub open spec fn well_named_plan(plan: QueryPlanView) -> bool {
    distinct(names_of(plan.result_schema)) && joins_disjoint(plan.plan)
}

/// A projection has the names of its selection, in the order of the
/// selection.
pub proof fn lemma_projected_names(names: Seq<Seq<char>>, env: AttributesView)
    ensures
        projected(names, env) is Ok ==> names_of(projected(names, env)->Ok_0) == names,
    decreases names.len(),
{
    if names.len() > 0 {
        lemma_projected_names(names.skip(1), env);
        match (lookup(env, names[0]), projected(names.skip(1), env)) {
            (Some(t), Ok(rest)) => {
                assert(names_of(seq![(names[0], t)] + rest) =~= seq![names[0]] + names_of(rest));
                assert(seq![names[0]] + names.skip(1) =~= names);
            },
            _ => {},
        }
    } else {
        assert(names_of(Seq::<(Seq<char>, AttributeType)>::empty())
            =~= names);
    }
}

/// The plan of a projection yields rows with the attributes of the
/// selection, in the order of the selection.
pub proof fn lemma_projection_keeps_order(
    child: QueryPlanView,
    names: Seq<Seq<char>>,
    alias: Option<Seq<char>>,
)
    ensures
        projection_plan(child, names, alias) is Ok ==> names_of(
            projection_plan(child, names, alias)->Ok_0.result_schema,
        ) == names,
{
    lemma_projected_names(names, optionally_aliased(child.result_schema, alias));
}

/// Two names are the same through an alias only where they are the same.
pub proof fn lemma_aliased_name_injective(alias: Seq<char>, first: Seq<char>, second: Seq<char>)
    requires
        aliased_name(alias, first) == aliased_name(alias, second),
    ensures
        first == second,
{
    let start: int = alias.len() as int + 1;
    assert(aliased_name(alias, first).subrange(start, start + first.len()) =~= first);
    assert(aliased_name(alias, second).subrange(start, start + second.len()) =~= second);
    assert(aliased_name(alias, first).len() == start + first.len());
    assert(aliased_name(alias, second).len() == start + second.len());
}

/// Distinct names stay distinct through an alias.
pub proof fn lemma_aliased_distinct(attributes: AttributesView, alias: Option<Seq<char>>)
    requires
        distinct(names_of(attributes)),
    ensures
        distinct(names_of(optionally_aliased(attributes, alias))),
{
    match alias {
        Some(alias) => {
            let aliased = names_of(aliased_attributes(attributes, alias));
            assert forall|i: int, j: int| 0 <= i < j < aliased.len() implies aliased[i]
                != aliased[j] by {
                if aliased[i] == aliased[j] {
                    lemma_aliased_name_injective(alias, attributes[i].0, attributes[j].0);
                    assert(names_of(attributes)[i] == names_of(attributes)[j]);
                }
            }
        },
        None => {},
    }
}

/// Two sides without a shared name have disjoint names.
pub proof fn lemma_no_shared_name(left: AttributesView, right: AttributesView)
    requires
        shared_name(left, right) is None,
    ensures
        disjoint(names_of(left), names_of(right)),
    decreases right.len(),
{
    if right.len() > 0 {
        lemma_no_shared_name(left, right.skip(1));
        lemma_lookup_is_entry(left, right[0].0);
        assert forall|i: int, j: int|
            0 <= i < left.len() && 0 <= j < right.len() implies names_of(left)[i] != names_of(
            right,
        )[j] by {
            if j > 0 {
                assert(names_of(right.skip(1))[j - 1] == names_of(right)[j]);
            }
        }
    }
}

/// Distinct names of two sides with disjoint names are distinct together.
pub proof fn lemma_joined_distinct(left: AttributesView, right: AttributesView)
    requires
        distinct(names_of(left)),
        distinct(names_of(right)),
        disjoint(names_of(left), names_of(right)),
    ensures
        distinct(names_of(left + right)),
{
    let all = names_of(left + right);
    assert forall|i: int, j: int| 0 <= i < j < all.len() implies all[i] != all[j] by {
        if j < left.len() {
            assert(names_of(left)[i] != names_of(left)[j]);
        } else if i < left.len() {
            assert(names_of(left)[i] != names_of(right)[j - left.len()]);
        } else {
            assert(names_of(right)[i - left.len()] != names_of(right)[j - left.len()]);
        }
    }
}

/// A well-named plan stays so under a condition.
pub proof fn lemma_filtered_well_named(
    child: QueryPlanView,
    condition: WhereClauseView,
    alias: Option<Seq<char>>,
)
    requires
        well_named_plan(child),
    ensures
        filtered_plan(child, condition, alias) is Ok ==> well_named_plan(
            filtered_plan(child, condition, alias)->Ok_0,
        ),
{
}

/// A well-named plan stays so under a selection that names no attribute twice.
pub proof fn lemma_selected_well_named(
    child: QueryPlanView,
    properties: SelectPropertiesView,
    alias: Option<Seq<char>>,
)
    requires
        well_named_plan(child),
        selects_once(properties),
    ensures
        selected_plan(child, properties, alias) is Ok ==> well_named_plan(
            selected_plan(child, properties, alias)->Ok_0,
        ),
{
    match properties {
        SelectPropertiesView::Star => {
            lemma_aliased_distinct(child.result_schema, alias);
        },
        SelectPropertiesView::Identifiers(names) => {
            lemma_projection_keeps_order(child, names, alias);
        },
    }
}

/// In the plan of a select, against a catalog whose tables have no two
/// columns of one name, the schema of the result has no attribute name
/// twice, and the two sides of every join share no attribute name. This holds
/// of statements whose selections name no attribute twice: the translator
/// accepts a selection that does, and its result then has that name twice.
pub proof fn lemma_select_plan_well_named(stmt: SelectStmtView, catalog: CatalogView)
    requires
        well_named(catalog),
        selections_distinct(stmt),
    ensures
        select_plan(stmt, catalog) is Ok ==> well_named_plan(select_plan(stmt, catalog)->Ok_0),
    decreases stmt,
{
    match stmt {
        SelectStmtView::Select(single) => {
            lemma_single_select_plan_well_named(single, catalog);
        },
        SelectStmtView::Join(join) => {
            lemma_single_select_plan_well_named(join.left, catalog);
            lemma_single_select_plan_well_named(join.right, catalog);
            match (single_select_plan(join.left, catalog), single_select_plan(join.right, catalog)) {
                (Ok(left), Ok(right)) => {
                    if shared_name(left.result_schema, right.result_schema) is None {
                        lemma_no_shared_name(left.result_schema, right.result_schema);
                        lemma_joined_distinct(left.result_schema, right.result_schema);
                        let schema = left.result_schema + right.result_schema;
                        match join_condition(join.predicate, schema) {
                            Ok(predicate) => {
                                let joined = QueryPlanView {
                                    result_schema: schema,
                                    plan: QueryPlanNodeView::Join {
                                        join_type: join.join_type,
                                        predicate,
                                        schema,
                                        left: Box::new(left),
                                        right: Box::new(right),
                                    },
                                };
                                assert(well_named_plan(joined));
                                lemma_selected_well_named(joined, join.properties, None);
                            },
                            Err(_) => {},
                        }
                    }
                },
                _ => {},
            }
        },
    }
}

/// The same, of a select over one source.
pub proof fn lemma_single_select_plan_well_named(stmt: SingleSelectStmtView, catalog: CatalogView)
    requires
        well_named(catalog),
        single_selections_distinct(stmt),
    ensures
        single_select_plan(stmt, catalog) is Ok ==> well_named_plan(
            single_select_plan(stmt, catalog)->Ok_0,
        ),
    decreases stmt,
{
    match stmt.from_clause {
        FromClauseView::Select(nested) => {
            lemma_select_plan_well_named(*nested, catalog);
        },
        FromClauseView::Table(name) => {
            lemma_lookup_is_entry(catalog.schemas, name);
        },
    }
    match source_plan(stmt.from_clause, catalog) {
        Ok(child) => {
            assert(well_named_plan(child));
            lemma_filtered_well_named(child, stmt.where_clause, stmt.alias);
            match filtered_plan(child, stmt.where_clause, stmt.alias) {
                Ok(plan) => {
                    lemma_selected_well_named(plan, stmt.properties, stmt.alias);
                },
                Err(_) => {},
            }
        },
        Err(_) => {},
    }
}

/// A table that the translator lets be created has no two columns of one
/// name, and the catalog with it is as well named as it was.
pub proof fn lemma_created_table_well_named(
    stmt: CreateTableStmtView,
    catalog: CatalogView,
)
    requires
        well_named(catalog),
    ensures
        create_table_plan(stmt, catalog) is Ok ==> well_named(
            with_table(
                catalog,
                create_table_plan(stmt, catalog)->Ok_0.table_name,
                create_table_plan(stmt, catalog)->Ok_0.primary_key,
                create_table_plan(stmt, catalog)->Ok_0.schema_attributes,
            ),
        ),
{
    if create_table_plan(stmt, catalog) is Ok {
        let plan = create_table_plan(stmt, catalog)->Ok_0;
        let after = with_table(
            catalog,
            plan.table_name,
            plan.primary_key,
            plan.schema_attributes,
        );
        lemma_first_duplicate_none(defined_names(stmt.attribute_definitions));
        assert(names_of(defined_attributes(stmt.attribute_definitions)) =~= defined_names(
            stmt.attribute_definitions,
        ));
        assert forall|i: int| 0 <= i < after.schemas.len() implies distinct(
            names_of((#[trigger] after.schemas[i]).1.attributes),
        ) by {
            if i < catalog.schemas.len() {
                assert(after.schemas[i] == catalog.schemas[i]);
            }
        }
    }
}

} // verus!
