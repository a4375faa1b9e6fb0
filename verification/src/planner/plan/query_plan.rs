//! The plan of a query: a tree of scans, filters, projections and joins, each
//! with the schema of the rows it yields.

use crate::parser::ast::{Expr, ExprView, JoinType};
use crate::storage::storage_manager::{
    aliased_attributes, AttributeName, Attributes, AttributesView, name_views, optionally_aliased,
    Schema, TableName,
};
use vstd::prelude::*;

verus! {

/// The schema of the rows that a plan node yields.
#[derive(Debug, Eq, PartialEq)]
pub struct QueryResultSchema {
    pub attributes: Attributes,
}

impl View for QueryResultSchema {
    type V = AttributesView;

    open spec fn view(&self) -> AttributesView {
        self.attributes@
    }
}

impl Clone for QueryResultSchema {
    fn clone(&self) -> (r: Self)
        ensures
            r@ == self@,
    {
        QueryResultSchema { attributes: self.attributes.clone() }
    }
}

impl QueryResultSchema {
    pub fn new(attributes: Attributes) -> (r: Self)
        ensures
            r@ == attributes@,
    {
        QueryResultSchema { attributes }
    }

    pub fn with_attributes(attributes: Attributes) -> (r: Self)
        ensures
            r@ == attributes@,
    {
        QueryResultSchema { attributes }
    }

    /// The schema of the rows of a table.
    pub fn from(schema: Schema) -> (r: Self)
        ensures
            r@ == schema@.attributes,
    {
        QueryResultSchema { attributes: schema.attributes }
    }

    /// The same schema with every name seen through `alias`.
    pub fn with_alias(self, alias: &str) -> (r: Self)
        ensures
            r@ == aliased_attributes(self@, alias@),
    {
        QueryResultSchema { attributes: self.attributes.with_alias(alias) }
    }

    /// The same schema, seen through `alias` where one is given.
    pub fn aliased(self, alias: Option<&String>) -> (r: Self)
        ensures
            r@ == optionally_aliased(
                self@,
                match alias {
                    Some(a) => Some(a@),
                    None => None,
                },
            ),
    {
        match alias {
            Some(alias) => self.with_alias(alias.as_str()),
            None => self,
        }
    }
}

#[derive(Debug, Eq, PartialEq)]
pub struct ScanNode {
    pub schema: QueryResultSchema,
    pub table_name: TableName,
}

#[derive(Debug, Eq, PartialEq)]
pub struct FilterNode {
    pub predicate: Expr,
    pub schema: QueryResultSchema,
    pub child: Box<QueryPlan>,
}

#[derive(Debug, Eq, PartialEq)]
pub struct ProjectNode {
    pub schema: QueryResultSchema,
    pub record_schema: QueryResultSchema,
    pub attributes: Vec<AttributeName>,
    pub child: Box<QueryPlan>,
}

#[derive(Debug, Eq, PartialEq)]
pub struct JoinNode {
    pub join_type: JoinType,
    pub predicate: Expr,
    pub schema: QueryResultSchema,
    pub left: Box<QueryPlan>,
    pub right: Box<QueryPlan>,
}

#[derive(Debug, Eq, PartialEq)]
pub struct QueryPlan {
    pub result_schema: QueryResultSchema,
    pub plan: QueryPlanNode,
}

#[derive(Debug, Eq, PartialEq)]
pub enum QueryPlanNode {
    Scan(ScanNode),
    Filter(FilterNode),
    Project(ProjectNode),
    Join(JoinNode),
}

pub struct QueryPlanView {
    pub result_schema: AttributesView,
    pub plan: QueryPlanNodeView,
}

pub enum QueryPlanNodeView {
    Scan { schema: AttributesView, table_name: Seq<char> },
    Filter { predicate: ExprView, schema: AttributesView, child: Box<QueryPlanView> },
    Project {
        schema: AttributesView,
        record_schema: AttributesView,
        attributes: Seq<Seq<char>>,
        child: Box<QueryPlanView>,
    },
    Join {
        join_type: JoinType,
        predicate: ExprView,
        schema: AttributesView,
        left: Box<QueryPlanView>,
        right: Box<QueryPlanView>,
    },
}

/// A plan as a mathematical value.
pub open spec fn plan_view(p: QueryPlan) -> QueryPlanView
    decreases p,
{
    QueryPlanView { result_schema: p.result_schema@, plan: node_view(p.plan) }
}

/// A plan node as a mathematical value.
pub open spec fn node_view(n: QueryPlanNode) -> QueryPlanNodeView
    decreases n,
{
    match n {
        QueryPlanNode::Scan(scan) => QueryPlanNodeView::Scan {
            schema: scan.schema@,
            table_name: scan.table_name@,
        },
        QueryPlanNode::Filter(filter) => QueryPlanNodeView::Filter {
            predicate: filter.predicate@,
            schema: filter.schema@,
            child: Box::new(plan_view(*filter.child)),
        },
        QueryPlanNode::Project(project) => QueryPlanNodeView::Project {
            schema: project.schema@,
            record_schema: project.record_schema@,
            attributes: name_views(project.attributes@),
            child: Box::new(plan_view(*project.child)),
        },
        QueryPlanNode::Join(join) => QueryPlanNodeView::Join {
            join_type: join.join_type,
            predicate: join.predicate@,
            schema: join.schema@,
            left: Box::new(plan_view(*join.left)),
            right: Box::new(plan_view(*join.right)),
        },
    }
}

impl View for QueryPlan {
    type V = QueryPlanView;

    open spec fn view(&self) -> QueryPlanView {
        plan_view(*self)
    }
}

impl View for QueryPlanNode {
    type V = QueryPlanNodeView;

    open spec fn view(&self) -> QueryPlanNodeView {
        node_view(*self)
    }
}

} // verus!
