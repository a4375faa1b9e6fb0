//! The statement tree that the parser builds.

use crate::parser::lexer::token::{Token, TokenView};
use vstd::prelude::*;

verus! {

/// The views of a run of texts, in order.
pub open spec fn text_views(texts: Seq<String>) -> Seq<Seq<char>> {
    texts.map_values(|s: String| s@)
}

#[derive(Debug, PartialEq, Eq)]
pub enum Stmt {
    CreateTable(CreateTableStmt),
    Insert(InsertStmt),
    Select(SelectStmt),
}

// Create Table
#[derive(Debug, Eq, PartialEq)]
pub struct CreateTableStmt {
    pub table_name: String,
    pub attribute_definitions: Vec<AttributeDefinition>,
}

#[derive(Debug, Eq, PartialEq)]
pub struct AttributeDefinition {
    pub name: String,
    pub attribute_type: AttributeType,
    pub is_primary_key: bool,
}

/// The column types that a table definition can name.
#[derive(Debug, Eq, PartialEq, Clone, Copy, Structural)]
pub enum AttributeType {
    Integer,
    Text,
}

// Insert
#[derive(Debug, Eq, PartialEq)]
pub struct InsertStmt {
    pub table_name: String,
    pub attribute_names: Vec<String>,
    pub attribute_values: Vec<AttributeValue>,
}

#[derive(Debug, Eq, PartialEq)]
pub enum AttributeValue {
    String(String),
    Expr(Expr),
}

// Select
#[derive(Debug, Eq, PartialEq)]
pub enum SelectStmt {
    Select(SingleSelectStmt),
    Join(JoinStmt),
}

#[derive(Debug, Eq, PartialEq)]
pub struct SingleSelectStmt {
    pub properties: SelectProperties,
    pub from_clause: FromClause,
    pub where_clause: WhereClause,
    pub alias: Option<String>,
}

#[derive(Debug, Eq, PartialEq, Clone, Copy, Structural)]
pub enum JoinType {
    InnerJoin,
}

#[derive(Debug, Eq, PartialEq)]
pub struct JoinStmt {
    pub join_type: JoinType,
    pub properties: SelectProperties,
    pub left: SingleSelectStmt,
    pub right: SingleSelectStmt,
    pub predicate: WhereClause,
}

#[derive(Debug, Eq, PartialEq)]
pub enum SelectProperties {
    Star,
    Identifiers(Vec<String>),
}

#[derive(Debug, Eq, PartialEq)]
pub enum FromClause {
    Select(Box<SelectStmt>),
    Table(String),
}

#[derive(Debug, Eq, PartialEq)]
pub enum WhereClause {
    Absent,
    Expr(Expr),
}

#[derive(Debug, Eq, PartialEq, Clone, Copy, Structural)]
pub enum BinaryOperation {
    Addition,
    Subtraction,
    Multiplication,
    Division,
    Equal,
    NotEqual,
    LessThan,
    GreaterThan,
    LessThanOrEqual,
    GreaterThanOrEqual,
}

/// The operation that an operator token stands for.
pub open spec fn operation_of(t: TokenView) -> Option<BinaryOperation> {
    match t {
        TokenView::Plus => Some(BinaryOperation::Addition),
        TokenView::Minus => Some(BinaryOperation::Subtraction),
        TokenView::Star => Some(BinaryOperation::Multiplication),
        TokenView::Slash => Some(BinaryOperation::Division),
        TokenView::Equal => Some(BinaryOperation::Equal),
        TokenView::NotEqual => Some(BinaryOperation::NotEqual),
        TokenView::LessThan => Some(BinaryOperation::LessThan),
        TokenView::GreaterThan => Some(BinaryOperation::GreaterThan),
        TokenView::LessThanOrEqual => Some(BinaryOperation::LessThanOrEqual),
        TokenView::GreaterThanOrEqual => Some(BinaryOperation::GreaterThanOrEqual),
        _ => None,
    }
}

impl BinaryOperation {
    /// The operation that the operator token `t` stands for.
    pub fn from(t: Token) -> (op: Self)
        requires
            operation_of(t@) is Some,
        ensures
            Some(op) == operation_of(t@),
    {
        match t {
            Token::Plus => Self::Addition,
            Token::Minus => Self::Subtraction,
            Token::Star => Self::Multiplication,
            Token::Slash => Self::Division,
            Token::Equal => Self::Equal,
            Token::NotEqual => Self::NotEqual,
            Token::LessThan => Self::LessThan,
            Token::GreaterThan => Self::GreaterThan,
            Token::LessThanOrEqual => Self::LessThanOrEqual,
            _ => Self::GreaterThanOrEqual,
        }
    }
}

#[derive(Debug, Eq, PartialEq)]
pub struct BinaryExpr {
    pub left: Box<Expr>,
    pub op: BinaryOperation,
    pub right: Box<Expr>,
}

#[derive(Debug, Eq, PartialEq)]
pub enum LiteralExpr {
    Integer(i32),
    Boolean(bool),
    String(String),
    Identifier(String),
}

#[derive(Debug, Eq, PartialEq)]
pub enum Expr {
    Binary(BinaryExpr),
    Literal(LiteralExpr),
}

pub enum LiteralView {
    Integer(i32),
    Boolean(bool),
    String(Seq<char>),
    Identifier(Seq<char>),
}

pub enum ExprView {
    Binary(Box<ExprView>, BinaryOperation, Box<ExprView>),
    Literal(LiteralView),
}

impl View for LiteralExpr {
    type V = LiteralView;

    open spec fn view(&self) -> LiteralView {
        match self {
            LiteralExpr::Integer(n) => LiteralView::Integer(*n),
            LiteralExpr::Boolean(b) => LiteralView::Boolean(*b),
            LiteralExpr::String(s) => LiteralView::String(s@),
            LiteralExpr::Identifier(s) => LiteralView::Identifier(s@),
        }
    }
}

/// An expression as a mathematical value.
pub open spec fn expr_view(e: Expr) -> ExprView
    decreases e,
{
    match e {
        Expr::Binary(b) => ExprView::Binary(
            Box::new(expr_view(*b.left)),
            b.op,
            Box::new(expr_view(*b.right)),
        ),
        Expr::Literal(l) => ExprView::Literal(l@),
    }
}

impl View for Expr {
    type V = ExprView;

    open spec fn view(&self) -> ExprView {
        expr_view(*self)
    }
}

impl Clone for LiteralExpr {
    fn clone(&self) -> (r: Self)
        ensures
            r@ == self@,
    {
        match self {
            LiteralExpr::Integer(n) => LiteralExpr::Integer(*n),
            LiteralExpr::Boolean(b) => LiteralExpr::Boolean(*b),
            LiteralExpr::String(s) => LiteralExpr::String(s.clone()),
            LiteralExpr::Identifier(s) => LiteralExpr::Identifier(s.clone()),
        }
    }
}

impl Clone for BinaryExpr {
    fn clone(&self) -> (r: Self)
        ensures
            expr_view(*r.left) == expr_view(*self.left),
            r.op == self.op,
            expr_view(*r.right) == expr_view(*self.right),
        decreases self,
    {
        BinaryExpr {
            left: Box::new((*self.left).clone()),
            op: self.op,
            right: Box::new((*self.right).clone()),
        }
    }
}

impl Clone for Expr {
    fn clone(&self) -> (r: Self)
        ensures
            r@ == self@,
        decreases self,
    {
        match self {
            Expr::Binary(b) => Expr::Binary(b.clone()),
            Expr::Literal(l) => Expr::Literal(l.clone()),
        }
    }
}

pub enum AttributeValueView {
    String(Seq<char>),
    Expr(ExprView),
}

impl View for AttributeValue {
    type V = AttributeValueView;

    open spec fn view(&self) -> AttributeValueView {
        match self {
            AttributeValue::String(s) => AttributeValueView::String(s@),
            AttributeValue::Expr(e) => AttributeValueView::Expr(e@),
        }
    }
}

pub enum WhereClauseView {
    Absent,
    Expr(ExprView),
}

impl View for WhereClause {
    type V = WhereClauseView;

    open spec fn view(&self) -> WhereClauseView {
        match self {
            WhereClause::Absent => WhereClauseView::Absent,
            WhereClause::Expr(e) => WhereClauseView::Expr(e@),
        }
    }
}

pub enum SelectPropertiesView {
    Star,
    Identifiers(Seq<Seq<char>>),
}

impl View for SelectProperties {
    type V = SelectPropertiesView;

    open spec fn view(&self) -> SelectPropertiesView {
        match self {
            SelectProperties::Star => SelectPropertiesView::Star,
            SelectProperties::Identifiers(ids) => SelectPropertiesView::Identifiers(
                text_views(ids@),
            ),
        }
    }
}

pub enum FromClauseView {
    Select(Box<SelectStmtView>),
    Table(Seq<char>),
}

pub struct SingleSelectStmtView {
    pub properties: SelectPropertiesView,
    pub from_clause: FromClauseView,
    pub where_clause: WhereClauseView,
    pub alias: Option<Seq<char>>,
}

pub struct JoinStmtView {
    pub join_type: JoinType,
    pub properties: SelectPropertiesView,
    pub left: SingleSelectStmtView,
    pub right: SingleSelectStmtView,
    pub predicate: WhereClauseView,
}

pub enum SelectStmtView {
    Select(SingleSelectStmtView),
    Join(JoinStmtView),
}

/// The view of an optional text.
pub open spec fn optional_text_view(text: Option<String>) -> Option<Seq<char>> {
    match text {
        Some(s) => Some(s@),
        None => None,
    }
}

/// A source of rows as a mathematical value.
pub open spec fn from_clause_view(f: FromClause) -> FromClauseView
    decreases f,
{
    match f {
        FromClause::Select(s) => FromClauseView::Select(Box::new(select_view(*s))),
        FromClause::Table(name) => FromClauseView::Table(name@),
    }
}

/// A select over one source as a mathematical value.
pub open spec fn single_select_view(s: SingleSelectStmt) -> SingleSelectStmtView
    decreases s,
{
    SingleSelectStmtView {
        properties: s.properties@,
        from_clause: from_clause_view(s.from_clause),
        where_clause: s.where_clause@,
        alias: optional_text_view(s.alias),
    }
}

/// A join as a mathematical value.
pub open spec fn join_view(j: JoinStmt) -> JoinStmtView
    decreases j,
{
    JoinStmtView {
        join_type: j.join_type,
        properties: j.properties@,
        left: single_select_view(j.left),
        right: single_select_view(j.right),
        predicate: j.predicate@,
    }
}

/// A select statement as a mathematical value.
pub open spec fn select_view(s: SelectStmt) -> SelectStmtView
    decreases s,
{
    match s {
        SelectStmt::Select(s) => SelectStmtView::Select(single_select_view(s)),
        SelectStmt::Join(j) => SelectStmtView::Join(join_view(j)),
    }
}

impl View for FromClause {
    type V = FromClauseView;

    open spec fn view(&self) -> FromClauseView {
        from_clause_view(*self)
    }
}

impl View for SingleSelectStmt {
    type V = SingleSelectStmtView;

    open spec fn view(&self) -> SingleSelectStmtView {
        single_select_view(*self)
    }
}

impl View for JoinStmt {
    type V = JoinStmtView;

    open spec fn view(&self) -> JoinStmtView {
        join_view(*self)
    }
}

impl View for SelectStmt {
    type V = SelectStmtView;

    open spec fn view(&self) -> SelectStmtView {
        select_view(*self)
    }
}

pub struct AttributeDefinitionView {
    pub name: Seq<char>,
    pub attribute_type: AttributeType,
    pub is_primary_key: bool,
}

impl View for AttributeDefinition {
    type V = AttributeDefinitionView;

    open spec fn view(&self) -> AttributeDefinitionView {
        AttributeDefinitionView {
            name: self.name@,
            attribute_type: self.attribute_type,
            is_primary_key: self.is_primary_key,
        }
    }
}

pub struct CreateTableStmtView {
    pub table_name: Seq<char>,
    pub attribute_definitions: Seq<AttributeDefinitionView>,
}

impl View for CreateTableStmt {
    type V = CreateTableStmtView;

    open spec fn view(&self) -> CreateTableStmtView {
        CreateTableStmtView {
            table_name: self.table_name@,
            attribute_definitions: self.attribute_definitions@.map_values(
                |d: AttributeDefinition| d@,
            ),
        }
    }
}

pub struct InsertStmtView {
    pub table_name: Seq<char>,
    pub attribute_names: Seq<Seq<char>>,
    pub attribute_values: Seq<AttributeValueView>,
}

impl View for InsertStmt {
    type V = InsertStmtView;

    open spec fn view(&self) -> InsertStmtView {
        InsertStmtView {
            table_name: self.table_name@,
            attribute_names: text_views(self.attribute_names@),
            attribute_values: self.attribute_values@.map_values(|v: AttributeValue| v@),
        }
    }
}

pub enum StmtView {
    CreateTable(CreateTableStmtView),
    Insert(InsertStmtView),
    Select(SelectStmtView),
}

impl View for Stmt {
    type V = StmtView;

    open spec fn view(&self) -> StmtView {
        match self {
            Stmt::CreateTable(s) => StmtView::CreateTable(s@),
            Stmt::Insert(s) => StmtView::Insert(s@),
            Stmt::Select(s) => StmtView::Select(s@),
        }
    }
}

} // verus!
