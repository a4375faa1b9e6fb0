//! The database: statements in, rows out.

use crate::evaluate::{
    catalog_after, decoded_item, Evaluation, EvaluationResult, plan_stream, runnable, tables_exist,
};
use crate::execution::engine::Engine;
use crate::execution::insert::with_row;
use crate::execution::ItemView;
use crate::parser::ast::{
    FromClauseView, SelectPropertiesView, SelectStmtView, SingleSelectStmtView, StmtView,
    WhereClauseView,
};
use crate::parser::lexer::{Lexer, LexerError, tokens_of};
use crate::parser::parse::{Input, ParseError};
use crate::parser::query_parser::{Parser, statement};
use crate::planner::optimizer::{ExecutionPlan, Optimizer, output_schema};
use crate::planner::plan::PlanView;
use crate::planner::plan::query_plan::{QueryPlanNodeView, QueryPlanView};
use crate::storage::error::{StorageError, StorageErrorView};
use crate::storage::storage_manager::{AttributeName, CatalogView, StorageManager};
use crate::storage::tuple_serde::{named_value_views, NamedValuesView, StorageTupleValue};
use crate::translate::{
    filtered_plan, insert_plan, plan_of, select_plan, selected_plan, single_select_plan,
    source_plan, Translator,
};
use crate::translate::error::{TranslateError, TranslateErrorView};
use crate::translate::naming::{lemma_created_table_well_named, well_named};
use crate::translate::type_check::join_condition;
use vstd::prelude::*;

verus! {

/// Why a statement failed.
#[derive(Debug)]
pub enum DbError {
    Lexer(LexerError),
    Parse(ParseError),
    Translate(TranslateError),
    Storage(StorageError),
}

pub enum DbErrorView {
    Lexer,
    Parse,
    Translate(TranslateErrorView),
    Storage(StorageErrorView),
}

impl View for DbError {
    type V = DbErrorView;

    open spec fn view(&self) -> DbErrorView {
        match self {
            DbError::Lexer(_) => DbErrorView::Lexer,
            DbError::Parse(_) => DbErrorView::Parse,
            DbError::Translate(e) => DbErrorView::Translate(e@),
            DbError::Storage(e) => DbErrorView::Storage(e@),
        }
    }
}

/// The views of a run of rows, in order.
pub open spec fn row_views(rows: Seq<Vec<(AttributeName, StorageTupleValue)>>) -> Seq<
    NamedValuesView,
> {
    rows.map_values(|row: Vec<(AttributeName, StorageTupleValue)>| named_value_views(row@))
}

/// The rows of `items` where none of them is an error, else the first error.
pub open spec fn collected(items: Seq<Result<NamedValuesView, StorageErrorView>>) -> Result<
    Seq<NamedValuesView>,
    StorageErrorView,
>
    decreases items.len(),
{
    if items.len() == 0 {
        Ok(Seq::empty())
    } else {
        match items[0] {
            Err(e) => Err(e),
            Ok(row) => match collected(items.skip(1)) {
                Ok(rows) => Ok(seq![row] + rows),
                Err(e) => Err(e),
            },
        }
    }
}

/// What running the plan against `catalog` gives the caller: the rows, read
/// against the schema of the plan's result, and the catalog afterwards; or
/// the first error.
pub open spec fn plan_result(plan: PlanView, catalog: CatalogView) -> Result<
    (Seq<NamedValuesView>, CatalogView),
    DbErrorView,
> {
    let schema = match output_schema(plan) {
        Some(schema) => schema,
        None => Seq::empty(),
    };
    match collected(
        plan_stream(plan, catalog).map_values(|item: ItemView| decoded_item(item, schema)),
    ) {
        Ok(rows) => Ok(
            (
                rows,
                match catalog_after(plan, catalog) {
                    Ok(after) => after,
                    Err(_) => catalog,
                },
            ),
        ),
        Err(e) => Err(DbErrorView::Storage(e)),
    }
}

/// What the statement `query` gives against `catalog`: its text is cut into
/// tokens, the tokens are read as a statement, the statement is translated
/// into a plan against `catalog`, and the plan is run.
pub open spec fn result_of(query: Seq<char>, catalog: CatalogView) -> Result<
    (Seq<NamedValuesView>, CatalogView),
    DbErrorView,
> {
    match tokens_of(query) {
        None => Err(DbErrorView::Lexer),
        Some(tokens) => match statement(tokens) {
            None => Err(DbErrorView::Parse),
            Some(stmt) => match plan_of(stmt, catalog) {
                Err(e) => Err(DbErrorView::Translate(e)),
                Ok(plan) => plan_result(plan, catalog),
            },
        },
    }
}

/// A plan with a condition scans what the plan without it scans.
pub proof fn lemma_filtered_scans_tables(
    child: QueryPlanView,
    condition: WhereClauseView,
    alias: Option<Seq<char>>,
    catalog: CatalogView,
)
    requires
        tables_exist(child.plan, catalog),
    ensures
        filtered_plan(child, condition, alias) is Ok ==> tables_exist(
            filtered_plan(child, condition, alias)->Ok_0.plan,
            catalog,
        ),
{
}

/// A plan with a selection scans what the plan without it scans.
pub proof fn lemma_selected_scans_tables(
    child: QueryPlanView,
    properties: SelectPropertiesView,
    alias: Option<Seq<char>>,
    catalog: CatalogView,
)
    requires
        tables_exist(child.plan, catalog),
    ensures
        selected_plan(child, properties, alias) is Ok ==> tables_exist(
            selected_plan(child, properties, alias)->Ok_0.plan,
            catalog,
        ),
{
}

/// The plan of a select scans only tables of the catalog.
pub proof fn lemma_select_scans_tables(stmt: SelectStmtView, catalog: CatalogView)
    ensures
        select_plan(stmt, catalog) is Ok ==> tables_exist(
            select_plan(stmt, catalog)->Ok_0.plan,
            catalog,
        ),
    decreases stmt,
{
    match stmt {
        SelectStmtView::Select(single) => {
            lemma_single_select_scans_tables(single, catalog);
        },
        SelectStmtView::Join(join) => {
            lemma_single_select_scans_tables(join.left, catalog);
            lemma_single_select_scans_tables(join.right, catalog);
            match (single_select_plan(join.left, catalog), single_select_plan(join.right, catalog)) {
                (Ok(left), Ok(right)) => {
                    let schema = left.result_schema + right.result_schema;
                    match join_condition(join.predicate, schema) {
                        Ok(predicate) => {
                            let joined = QueryPlanView {
                                result_schema: schema,
                                plan: QueryPlanNodeView::Join {
                                    join_type: join.join_type,
                                    predicate,
                                    schema,
                                    left: Box::new(left),
                                    right: Box::new(right),
                                },
                            };
                            assert(tables_exist(joined.plan, catalog));
                            lemma_selected_scans_tables(joined, join.properties, None, catalog);
                        },
                        Err(_) => {},
                    }
                },
                _ => {},
            }
        },
    }
}

/// The plan of a select over one source scans only tables of the catalog.
pub proof fn lemma_single_select_scans_tables(stmt: SingleSelectStmtView, catalog: CatalogView)
    ensures
        single_select_plan(stmt, catalog) is Ok ==> tables_exist(
            single_select_plan(stmt, catalog)->Ok_0.plan,
            catalog,
        ),
    decreases stmt,
{
    match stmt.from_clause {
        FromClauseView::Select(nested) => {
            lemma_select_scans_tables(*nested, catalog);
        },
        FromClauseView::Table(_) => {},
    }
    match source_plan(stmt.from_clause, catalog) {
        Ok(child) => {
            assert(tables_exist(child.plan, catalog));
            lemma_filtered_scans_tables(child, stmt.where_clause, stmt.alias, catalog);
            match filtered_plan(child, stmt.where_clause, stmt.alias) {
                Ok(plan) => {
                    lemma_selected_scans_tables(plan, stmt.properties, stmt.alias, catalog);
                },
                Err(_) => {},
            }
        },
        Err(_) => {},
    }
}

/// A plan that a statement was translated into against a catalog can be run
/// against that catalog.
pub proof fn lemma_plan_is_runnable(stmt: StmtView, catalog: CatalogView)
    ensures
        plan_of(stmt, catalog) is Ok ==> runnable(plan_of(stmt, catalog)->Ok_0, catalog),
{
    match stmt {
        StmtView::Select(select) => {
            lemma_select_scans_tables(select, catalog);
        },
        _ => {},
    }
}

/// A database: a catalog, and the way from the text of a statement to its
/// rows.
pub struct DB {
    storage_manager: StorageManager,
}

impl View for DB {
    type V = CatalogView;

    closed spec fn view(&self) -> CatalogView {
        self.storage_manager@
    }
}

impl DB {
    /// Whether the catalog is consistent.
    pub closed spec fn wf(&self) -> bool {
        self.storage_manager.wf()
    }

    /// In a consistent database every table has a store.
    pub proof fn lemma_stores_exist(&self)
        requires
            self.wf(),
        ensures
            self@.stores_exist(),
    {
        self.storage_manager.lemma_stores_exist();
    }

    /// A database without tables.
    pub fn new() -> (r: Self)
        ensures
            r.wf(),
            r@.schemas.len() == 0,
            r@.stores.len() == 0,
    {
        DB { storage_manager: StorageManager::new() }
    }

    /// The plan to execute for the statement `query`.
    fn plan_for(&self, query: &str) -> (r: Result<ExecutionPlan, DbError>)
        ensures
            match tokens_of(query@) {
                None => r is Err && r.unwrap_err()@ == DbErrorView::Lexer,
                Some(tokens) => match statement(tokens) {
                    None => r is Err && r.unwrap_err()@ == DbErrorView::Parse,
                    Some(stmt) => match plan_of(stmt, self@) {
                        Err(e) => r is Err && r.unwrap_err()@ == DbErrorView::Translate(e),
                        Ok(plan) => r is Ok && r.unwrap()@ == plan && runnable(plan, self@),
                    },
                },
            },
    {
        let lexer = Lexer::new();
        let mut parser = Parser::new();
        let tokens = match lexer.scan(query) {
            Ok(tokens) => tokens,
            Err(e) => {
                return Err(DbError::Lexer(e));
            },
        };
        let stmt = match parser.parse(Input::new(tokens)) {
            Ok(stmt) => stmt,
            Err(e) => {
                return Err(DbError::Parse(e));
            },
        };
        proof {
            lemma_plan_is_runnable(stmt@, self@);
        }
        let translator = Translator { storage_manager: &self.storage_manager };
        match translator.translate(stmt) {
            Ok(plan) => Ok(Optimizer::run(plan)),
            Err(e) => Err(DbError::Translate(e)),
        }
    }

    /// All that `result` still yields, up to its first error.
    #[verifier::loop_isolation(false)]
    fn collect(result: EvaluationResult) -> (r: Result<
        Vec<Vec<(AttributeName, StorageTupleValue)>>,
        StorageError,
    >)
        requires
            result.wf(),
        ensures
            match collected(result.pending()) {
                Ok(rows) => r is Ok && row_views(r.unwrap()@) == rows,
                Err(e) => r is Err && r.unwrap_err()@ == e,
            },
    {
        let mut r = result;
        let ghost all = r.pending();
        let mut tuples: Vec<Vec<(AttributeName, StorageTupleValue)>> = Vec::new();
        proof {
            match collected(all) {
                Ok(rows) => {
                    assert(row_views(tuples@) + rows =~= rows);
                },
                Err(_) => {},
            }
        }
        loop
            invariant
                r.wf(),
                collected(all) == match collected(r.pending()) {
                    Ok(rows) => Ok::<Seq<NamedValuesView>, StorageErrorView>(
                        row_views(tuples@) + rows,
                    ),
                    Err(e) => Err(e),
                },
            decreases r.pending().len(),
        {
            let ghost before = row_views(tuples@);
            let ghost items = r.pending();
            match r.next() {
                Some(Ok(values)) => {
                    proof {
                        match collected(items.skip(1)) {
                            Ok(rows) => {
                                assert(before + (seq![named_value_views(values@)] + rows)
                                    =~= before.push(named_value_views(values@)) + rows);
                            },
                            Err(_) => {},
                        }
                    }
                    tuples.push(values);
                    assert(row_views(tuples@) =~= before.push(named_value_views(values@)));
                },
                Some(Err(err)) => {
                    return Err(err);
                },
                None => {
                    assert(before + Seq::empty() =~= before);
                    return Ok(tuples);
                },
            }
        }
    }

    /// Runs the plan `plan` and gives all that it yields.
    fn run(&mut self, plan: ExecutionPlan) -> (r: Result<
        Vec<Vec<(AttributeName, StorageTupleValue)>>,
        DbError,
    >)
        requires
            old(self).wf(),
            runnable(plan@, old(self)@),
        ensures
            final(self).wf(),
            final(self)@ == match catalog_after(plan@, old(self)@) {
                Ok(catalog) => catalog,
                Err(_) => old(self)@,
            },
            match plan_result(plan@, old(self)@) {
                Ok((rows, _)) => r is Ok && row_views(r.unwrap()@) == rows,
                Err(e) => r is Err && r.unwrap_err()@ == e,
            },
    {
        let engine = Engine { storage_manager: &mut self.storage_manager };
        let mut eval = Evaluation { engine };
        let result = eval.evaluate(plan);
        match DB::collect(result) {
            Ok(rows) => Ok(rows),
            Err(e) => Err(DbError::Storage(e)),
        }
    }

    /// Runs the statement `query`. It gives all rows of a query, each as the
    /// values of its attributes under their names, and no rows for another
    /// statement. Where it fails, the catalog is as it was.
    pub fn execute(&mut self, query: &str) -> (r: Result<
        Vec<Vec<(AttributeName, StorageTupleValue)>>,
        DbError,
    >)
        requires
            old(self).wf(),
        ensures
            final(self).wf(),
            match result_of(query@, old(self)@) {
                Ok((rows, catalog)) => r is Ok && row_views(r.unwrap()@) == rows && final(self)@
                    == catalog,
                Err(e) => r is Err && r.unwrap_err()@ == e && final(self)@ == old(self)@,
            },
    {
        let plan = self.plan_for(query)?;
        proof {
            lemma_failure_changes_nothing(plan@, self@);
        }
        self.run(plan)
    }
}

/// A statement leaves a catalog in which no table has two columns of one
/// name as such a catalog.
pub proof fn lemma_statement_keeps_names(query: Seq<char>, catalog: CatalogView)
    requires
        well_named(catalog),
    ensures
        result_of(query, catalog) is Ok ==> well_named(
            result_of(query, catalog)->Ok_0.1,
        ),
{
    match tokens_of(query) {
        Some(tokens) => match statement(tokens) {
            Some(StmtView::CreateTable(stmt)) => {
                lemma_created_table_well_named(stmt, catalog);
            },
            Some(StmtView::Insert(stmt)) => {
                match insert_plan(stmt, catalog) {
                    Ok(plan) => {
                        let after = with_row(
                            catalog,
                            plan.table_name,
                            plan.tuple,
                        );
                        assert(after.schemas == catalog.schemas);
                    },
                    Err(_) => {},
                }
            },
            _ => {},
        },
        None => {},
    }
}

/// A plan that fails leaves the catalog as it was.
pub proof fn lemma_failure_changes_nothing(plan: PlanView, catalog: CatalogView)
    ensures
        plan_result(plan, catalog) is Err ==> (match catalog_after(plan, catalog) {
            Ok(after) => after,
            Err(_) => catalog,
        }) == catalog,
{
    match plan {
        PlanView::Query(_) => {},
        _ => {
            let items = plan_stream(plan, catalog).map_values(
                |item: ItemView| decoded_item(item, Seq::empty()),
            );
            if catalog_after(plan, catalog) is Ok {
                assert(items.len() == 0);
            }
        },
    }
}

} // verus!
