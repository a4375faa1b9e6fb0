//! The parser of statements.

use crate::parser::ast::{
    AttributeDefinition, AttributeDefinitionView, AttributeType, AttributeValue, AttributeValueView,
    CreateTableStmt, CreateTableStmtView, FromClause, FromClauseView, InsertStmt, InsertStmtView,
    JoinStmt, JoinStmtView, JoinType, optional_text_view, SelectProperties, SelectPropertiesView,
    SelectStmt, SelectStmtView, SingleSelectStmt, SingleSelectStmtView, Stmt, StmtView, text_views,
    WhereClause, WhereClauseView,
};
use crate::parser::expr_parser::{expression, lemma_expr_consumes, Parser as ExprParser};
use crate::parser::lexer::token::{Token, TokenView};
use crate::parser::parse::{Input, ParseError, ParseHelper};
use vstd::prelude::*;
use vstd::string::StringExecFns;

verus! {

/// Whether the tokens `ts` start with the token `t`.
pub open spec fn starts_with(ts: Seq<TokenView>, t: TokenView) -> bool {
    ts.len() > 0 && ts[0] == t
}

/// The names, separated by commas, that the tokens `ts` start with, and the
/// tokens after them. There is at least one name.
pub open spec fn name_list(ts: Seq<TokenView>) -> Option<(Seq<Seq<char>>, Seq<TokenView>)>
    decreases ts.len(),
{
    if ts.len() > 0 && ts[0] is Identifier {
        let after = ts.skip(1);
        if starts_with(after, TokenView::Comma) {
            match name_list(after.skip(1)) {
                Some((names, rest)) => Some((seq![ts[0]->Identifier_0] + names, rest)),
                None => None,
            }
        } else {
            Some((seq![ts[0]->Identifier_0], after))
        }
    } else {
        None
    }
}

/// The column definitions, separated by commas, that the tokens `ts` start
/// with, and the tokens after them. A definition is a name, a type and,
/// where the column is the key, `PRIMARY KEY`. There is at least one.
pub open spec fn definition_list(ts: Seq<TokenView>) -> Option<
    (Seq<AttributeDefinitionView>, Seq<TokenView>),
>
    decreases ts.len(),
{
    if ts.len() > 1 && ts[0] is Identifier && (ts[1] is KeywordInteger || ts[1]
        is KeywordVarchar) {
        let is_primary_key = ts.len() > 2 && ts[2] is KeywordPrimaryKey;
        let definition = AttributeDefinitionView {
            name: ts[0]->Identifier_0,
            attribute_type: if ts[1] is KeywordInteger {
                AttributeType::Integer
            } else {
                AttributeType::Text
            },
            is_primary_key,
        };
        let after = if is_primary_key {
            ts.skip(3)
        } else {
            ts.skip(2)
        };
        if starts_with(after, TokenView::Comma) {
            match definition_list(after.skip(1)) {
                Some((definitions, rest)) => Some((seq![definition] + definitions, rest)),
                None => None,
            }
        } else {
            Some((seq![definition], after))
        }
    } else {
        None
    }
}

/// The value that the tokens `ts` start with, and the tokens after it: a
/// text, or else an expression.
pub open spec fn value(ts: Seq<TokenView>) -> Option<(AttributeValueView, Seq<TokenView>)> {
    if ts.len() > 0 && ts[0] is StringLiteral {
        Some((AttributeValueView::String(ts[0]->StringLiteral_0), ts.skip(1)))
    } else {
        match expression(ts) {
            Some((expr, rest)) => Some((AttributeValueView::Expr(expr), rest)),
            None => None,
        }
    }
}

/// The values, separated by commas, that the tokens `ts` start with, and the
/// tokens after them. There is at least one.
pub open spec fn value_list(ts: Seq<TokenView>) -> Option<
    (Seq<AttributeValueView>, Seq<TokenView>),
>
    decreases ts.len(),
{
    match value(ts) {
        Some((first, after)) => if starts_with(after, TokenView::Comma) && after.len()
            <= ts.len() {
            match value_list(after.skip(1)) {
                Some((values, rest)) => Some((seq![first] + values, rest)),
                None => None,
            }
        } else {
            Some((seq![first], after))
        },
        None => None,
    }
}

/// `CREATE TABLE name ( definitions ) ;`
pub open spec fn create_table(ts: Seq<TokenView>) -> Option<(CreateTableStmtView, Seq<TokenView>)> {
    if ts.len() > 3 && ts[0] is Create && ts[1] is Table && ts[2] is Identifier && ts[3]
        is LeftParen {
        match definition_list(ts.skip(4)) {
            Some((attribute_definitions, rest)) => if rest.len() > 1 && rest[0] is RightParen
                && rest[1] is Semicolon {
                Some(
                    (
                        CreateTableStmtView {
                            table_name: ts[2]->Identifier_0,
                            attribute_definitions,
                        },
                        rest.skip(2),
                    ),
                )
            } else {
                None
            },
            None => None,
        }
    } else {
        None
    }
}

/// `INSERT INTO name ( names ) VALUES ( values ) ;`
pub open spec fn insert(ts: Seq<TokenView>) -> Option<(InsertStmtView, Seq<TokenView>)> {
    if ts.len() > 3 && ts[0] is Insert && ts[1] is KeywordInto && ts[2] is Identifier && ts[3]
        is LeftParen {
        match name_list(ts.skip(4)) {
            Some((attribute_names, after)) => if after.len() > 2 && after[0] is RightParen
                && after[1] is KeywordValues && after[2] is LeftParen {
                match value_list(after.skip(3)) {
                    Some((attribute_values, rest)) => if rest.len() > 1 && rest[0] is RightParen
                        && rest[1] is Semicolon {
                        Some(
                            (
                                InsertStmtView {
                                    table_name: ts[2]->Identifier_0,
                                    attribute_names,
                                    attribute_values,
                                },
                                rest.skip(2),
                            ),
                        )
                    } else {
                        None
                    },
                    None => None,
                }
            } else {
                None
            },
            None => None,
        }
    } else {
        None
    }
}

/// What is selected: `*`, or a list of names.
pub open spec fn properties(ts: Seq<TokenView>) -> Option<(SelectPropertiesView, Seq<TokenView>)> {
    if starts_with(ts, TokenView::Star) {
        Some((SelectPropertiesView::Star, ts.skip(1)))
    } else {
        match name_list(ts) {
            Some((names, rest)) => Some((SelectPropertiesView::Identifiers(names), rest)),
            None => None,
        }
    }
}

/// The condition that `prefix` opens, where the tokens `ts` start with
/// `prefix`; else no condition.
pub open spec fn condition(ts: Seq<TokenView>, prefix: TokenView) -> Option<
    (WhereClauseView, Seq<TokenView>),
> {
    if starts_with(ts, prefix) {
        match expression(ts.skip(1)) {
            Some((expr, rest)) => Some((WhereClauseView::Expr(expr), rest)),
            None => None,
        }
    } else {
        Some((WhereClauseView::Absent, ts))
    }
}

/// The alias that `AS` opens, where the tokens `ts` start with `AS`; else
/// no alias.
pub open spec fn alias(ts: Seq<TokenView>) -> Option<(Option<Seq<char>>, Seq<TokenView>)> {
    if starts_with(ts, TokenView::KeywordAs) {
        if ts.len() > 1 && ts[1] is Identifier {
            Some((Some(ts[1]->Identifier_0), ts.skip(2)))
        } else {
            None
        }
    } else {
        Some((None, ts))
    }
}

/// The source of a select, with its alias: the name of a table, or a select.
/// The source may stand in parentheses; the alias comes after them.
pub open spec fn source(ts: Seq<TokenView>) -> Option<
    ((FromClauseView, Option<Seq<char>>), Seq<TokenView>),
>
    decreases ts.len(), 1nat,
{
    let has_parenthesis = starts_with(ts, TokenView::LeftParen);
    let inner = if has_parenthesis {
        ts.skip(1)
    } else {
        ts
    };
    let found: Option<(FromClauseView, Seq<TokenView>)> = if inner.len() > 0 && inner[0]
        is Identifier {
        Some((FromClauseView::Table(inner[0]->Identifier_0), inner.skip(1)))
    } else if starts_with(inner, TokenView::Select) {
        match select(inner, false) {
            Some((stmt, rest)) => Some((FromClauseView::Select(Box::new(stmt)), rest)),
            None => None,
        }
    } else {
        None
    };
    match found {
        Some((from_clause, rest)) => if has_parenthesis && !starts_with(
            rest,
            TokenView::RightParen,
        ) {
            None
        } else {
            match alias(
                if has_parenthesis {
                    rest.skip(1)
                } else {
                    rest
                },
            ) {
                Some((alias, rest)) => Some(((from_clause, alias), rest)),
                None => None,
            }
        },
        None => None,
    }
}

/// The side of a join that selects all of a source.
pub open spec fn join_side(
    from_clause: FromClauseView,
    alias: Option<Seq<char>>,
) -> SingleSelectStmtView {
    SingleSelectStmtView {
        properties: SelectPropertiesView::Star,
        from_clause,
        where_clause: WhereClauseView::Absent,
        alias,
    }
}

/// `SELECT properties FROM source`, then either `INNER JOIN source` with the
/// condition that `ON` opens, or the condition that `WHERE` opens; and, where
/// the select is a statement, `;`.
pub open spec fn select(ts: Seq<TokenView>, is_stmt: bool) -> Option<
    (SelectStmtView, Seq<TokenView>),
>
    decreases ts.len(), 0nat,
{
    if !starts_with(ts, TokenView::Select) {
        None
    } else {
        match properties(ts.skip(1)) {
            Some((properties, after)) => if !starts_with(after, TokenView::From) || after.len()
                > ts.len() {
                None
            } else {
                match source(after.skip(1)) {
                    Some(((from_clause, alias), after)) => {
                        let found: Option<(SelectStmtView, Seq<TokenView>)> = if starts_with(
                            after,
                            TokenView::KeywordInnerJoin,
                        ) {
                            if after.len() > ts.len() {
                                None
                            } else {
                                match source(after.skip(1)) {
                                    Some(((right_from, right_alias), after)) => match condition(
                                        after,
                                        TokenView::KeywordOn,
                                    ) {
                                        Some((predicate, rest)) => Some(
                                            (
                                                SelectStmtView::Join(
                                                    JoinStmtView {
                                                        join_type: JoinType::InnerJoin,
                                                        properties,
                                                        left: join_side(from_clause, alias),
                                                        right: join_side(right_from, right_alias),
                                                        predicate,
                                                    },
                                                ),
                                                rest,
                                            ),
                                        ),
                                        None => None,
                                    },
                                    None => None,
                                }
                            }
                        } else {
                            match condition(after, TokenView::Where) {
                                Some((where_clause, rest)) => Some(
                                    (
                                        SelectStmtView::Select(
                                            SingleSelectStmtView {
                                                properties,
                                                from_clause,
                                                where_clause,
                                                alias,
                                            },
                                        ),
                                        rest,
                                    ),
                                ),
                                None => None,
                            }
                        };
                        match found {
                            Some((stmt, rest)) => if !is_stmt {
                                Some((stmt, rest))
                            } else if starts_with(rest, TokenView::Semicolon) {
                                Some((stmt, rest.skip(1)))
                            } else {
                                None
                            },
                            None => None,
                        }
                    },
                    None => None,
                }
            },
            None => None,
        }
    }
}

/// The statement that the tokens `ts` start with.
pub open spec fn statement(ts: Seq<TokenView>) -> Option<StmtView> {
    if starts_with(ts, TokenView::Create) {
        match create_table(ts) {
            Some((stmt, _)) => Some(StmtView::CreateTable(stmt)),
            None => None,
        }
    } else if starts_with(ts, TokenView::Insert) {
        match insert(ts) {
            Some((stmt, _)) => Some(StmtView::Insert(stmt)),
            None => None,
        }
    } else if starts_with(ts, TokenView::Select) {
        match select(ts, true) {
            Some((stmt, _)) => Some(StmtView::Select(stmt)),
            None => None,
        }
    } else {
        None
    }
}

/// The parser of statements.
pub struct Parser;

/// Takes the next token where it is `token`.
fn accept(input: &mut Input, token: Token) -> (r: bool)
    ensures
        r == starts_with(old(input)@, token@),
        final(input)@ == if r {
            old(input)@.skip(1)
        } else {
            old(input)@
        },
{
    let found = match input.peek() {
        Some(next) => token.same_as(next),
        None => false,
    };
    if found {
        let _ = input.next();
    }
    found
}

impl Parser {
    pub fn new() -> (r: Self) {
        Parser {  }
    }

    /// Reads one statement.
    pub fn parse(&mut self, input: Input) -> (r: Result<Stmt, ParseError>)
        ensures
            match statement(input@) {
                Some(stmt) => r is Ok && r.unwrap()@ == stmt,
                None => r is Err,
            },
    {
        match input.peek() {
            Some(Token::Create) => Ok(Stmt::CreateTable(self.create_table_stmt(input)?.0)),
            Some(Token::Insert) => Ok(Stmt::Insert(self.insert_stmt(input)?.0)),
            Some(Token::Select) => Ok(Stmt::Select(self.select_stmt(input, true)?.0)),
            Some(token) => Err(
                ParseError {
                    details: String::from_str("invalid start of query ").concat(
                        token.to_string().as_str(),
                    ),
                },
            ),
            None => Err(ParseError { details: String::from_str("empty query") }),
        }
    }

    /// Reads `CREATE TABLE name ( definitions ) ;`.
    pub fn create_table_stmt(&mut self, input: Input) -> (r: Result<
        (CreateTableStmt, Input),
        ParseError,
    >)
        ensures
            match create_table(input@) {
                Some((stmt, rest)) => r is Ok && r.unwrap().0@ == stmt && r.unwrap().1@ == rest,
                None => r is Err,
            },
    {
        let ghost ts = input@;
        let mut input = input;
        ParseHelper::match_token(Token::Create, input.next())?;
        ParseHelper::match_token(Token::Table, input.next())?;
        let table_name = ParseHelper::match_identifier(input.next())?;
        ParseHelper::match_token(Token::LeftParen, input.next())?;
        assert(input@ == ts.skip(4));
        let (attribute_definitions, mut input) = self.attribute_definitions(input)?;
        let ghost rest = input@;
        ParseHelper::match_token(Token::RightParen, input.next())?;
        ParseHelper::match_token(Token::Semicolon, input.next())?;
        assert(input@ == rest.skip(2));
        Ok((CreateTableStmt { table_name, attribute_definitions }, input))
    }

    /// Reads column definitions, separated by commas.
    #[verifier::loop_isolation(false)]
    pub fn attribute_definitions(&mut self, input: Input) -> (r: Result<
        (Vec<AttributeDefinition>, Input),
        ParseError,
    >)
        ensures
            match definition_list(input@) {
                Some((definitions, rest)) => r is Ok && r.unwrap().0@.map_values(
                    |d: AttributeDefinition| d@,
                ) == definitions && r.unwrap().1@ == rest,
                None => r is Err,
            },
    {
        let ghost start = input@;
        let mut input = input;
        let mut definitions: Vec<AttributeDefinition> = Vec::new();
        proof {
            match definition_list(start) {
                Some((ds, rest)) => {
                    assert(definitions@.map_values(|d: AttributeDefinition| d@) + ds =~= ds);
                },
                None => {},
            }
        }
        loop
            invariant
                definition_list(start) == match definition_list(input@) {
                    Some((ds, rest)) => Some(
                        (definitions@.map_values(|d: AttributeDefinition| d@) + ds, rest),
                    ),
                    None => None,
                },
            decreases input@.len(),
        {
            let ghost ts = input@;
            let ghost before = definitions@.map_values(|d: AttributeDefinition| d@);
            let name = ParseHelper::match_identifier(input.next())?;
            let attribute_type = match input.next() {
                Some(Token::KeywordInteger) => AttributeType::Integer,
                Some(Token::KeywordVarchar) => AttributeType::Text,
                Some(got) => {
                    return Err(ParseError::token_mismatch(Token::KeywordVarchar, got));
                },
                None => {
                    return Err(ParseError::unexpected_eof(Token::KeywordVarchar));
                },
            };
            assert(input@ == ts.skip(2));
            let is_primary_key = accept(&mut input, Token::KeywordPrimaryKey);
            assert(is_primary_key ==> input@ == ts.skip(3));
            let definition = AttributeDefinition { name, attribute_type, is_primary_key };
            definitions.push(definition);
            let ghost after = input@;
            proof {
                assert(definitions@.map_values(|d: AttributeDefinition| d@) =~= before.push(
                    definition@,
                ));
                assert(before + seq![definition@] =~= before.push(definition@));
            }
            if !accept(&mut input, Token::Comma) {
                return Ok((definitions, input));
            }
            proof {
                match definition_list(after.skip(1)) {
                    Some((ds, rest)) => {
                        assert(before + (seq![definition@] + ds) =~= before.push(definition@)
                            + ds);
                    },
                    None => {},
                }
            }
        }
    }

    /// Reads `INSERT INTO name ( names ) VALUES ( values ) ;`.
    pub fn insert_stmt(&mut self, input: Input) -> (r: Result<(InsertStmt, Input), ParseError>)
        ensures
            match insert(input@) {
                Some((stmt, rest)) => r is Ok && r.unwrap().0@ == stmt && r.unwrap().1@ == rest,
                None => r is Err,
            },
    {
        let ghost ts = input@;
        let mut input = input;
        ParseHelper::match_token(Token::Insert, input.next())?;
        ParseHelper::match_token(Token::KeywordInto, input.next())?;
        let table_name = ParseHelper::match_identifier(input.next())?;
        ParseHelper::match_token(Token::LeftParen, input.next())?;
        assert(input@ == ts.skip(4));
        let (attribute_names, mut input) = self.identifiers(input)?;
        let ghost after = input@;
        ParseHelper::match_token(Token::RightParen, input.next())?;
        ParseHelper::match_token(Token::KeywordValues, input.next())?;
        ParseHelper::match_token(Token::LeftParen, input.next())?;
        assert(input@ == after.skip(3));
        let (attribute_values, mut input) = self.attribute_values(input)?;
        let ghost rest = input@;
        ParseHelper::match_token(Token::RightParen, input.next())?;
        ParseHelper::match_token(Token::Semicolon, input.next())?;
        assert(input@ == rest.skip(2));
        Ok((InsertStmt { table_name, attribute_names, attribute_values }, input))
    }

    /// Reads names, separated by commas.
    #[verifier::loop_isolation(false)]
    pub fn identifiers(&mut self, input: Input) -> (r: Result<(Vec<String>, Input), ParseError>)
        ensures
            match name_list(input@) {
                Some((names, rest)) => r is Ok && text_views(r.unwrap().0@) == names
                    && r.unwrap().1@ == rest && rest.len() < input@.len(),
                None => r is Err,
            },
    {
        let ghost start = input@;
        let mut input = input;
        let mut identifiers: Vec<String> = Vec::new();
        proof {
            match name_list(start) {
                Some((names, rest)) => {
                    assert(text_views(identifiers@) + names =~= names);
                },
                None => {},
            }
        }
        loop
            invariant
                input@.len() <= start.len(),
                name_list(start) == match name_list(input@) {
                    Some((names, rest)) => Some((text_views(identifiers@) + names, rest)),
                    None => None,
                },
            decreases input@.len(),
        {
            let ghost before = text_views(identifiers@);
            let id = ParseHelper::match_identifier(input.next())?;
            identifiers.push(id);
            let ghost after = input@;
            proof {
                assert(text_views(identifiers@) =~= before.push(id@));
                assert(before + seq![id@] =~= before.push(id@));
            }
            if !accept(&mut input, Token::Comma) {
                return Ok((identifiers, input));
            }
            proof {
                match name_list(after.skip(1)) {
                    Some((names, rest)) => {
                        assert(before + (seq![id@] + names) =~= before.push(id@) + names);
                    },
                    None => {},
                }
            }
        }
    }

    /// Reads values, separated by commas.
    #[verifier::loop_isolation(false)]
    pub fn attribute_values(&mut self, input: Input) -> (r: Result<
        (Vec<AttributeValue>, Input),
        ParseError,
    >)
        ensures
            match value_list(input@) {
                Some((values, rest)) => r is Ok && r.unwrap().0@.map_values(
                    |v: AttributeValue| v@,
                ) == values && r.unwrap().1@ == rest,
                None => r is Err,
            },
    {
        let ghost start = input@;
        let mut input = input;
        let mut values: Vec<AttributeValue> = Vec::new();
        proof {
            match value_list(start) {
                Some((vs, rest)) => {
                    assert(values@.map_values(|v: AttributeValue| v@) + vs =~= vs);
                },
                None => {},
            }
        }
        loop
            invariant
                value_list(start) == match value_list(input@) {
                    Some((vs, rest)) => Some((values@.map_values(|v: AttributeValue| v@) + vs, rest)),
                    None => None,
                },
            decreases input@.len(),
        {
            let ghost ts = input@;
            let ghost before = values@.map_values(|v: AttributeValue| v@);
            proof {
                lemma_expr_consumes(0, ts);
            }
            let text: Option<String> = match input.peek() {
                Some(Token::StringLiteral(str)) => Some(str.clone()),
                _ => None,
            };
            let v = match text {
                Some(str) => {
                    let _ = input.next();
                    AttributeValue::String(str)
                },
                None => AttributeValue::Expr(ExprParser::expr(&mut input)?),
            };
            values.push(v);
            let ghost after = input@;
            proof {
                assert(values@.map_values(|v: AttributeValue| v@) =~= before.push(v@));
                assert(before + seq![v@] =~= before.push(v@));
            }
            if !accept(&mut input, Token::Comma) {
                return Ok((values, input));
            }
            proof {
                match value_list(after.skip(1)) {
                    Some((vs, rest)) => {
                        assert(before + (seq![v@] + vs) =~= before.push(v@) + vs);
                    },
                    None => {},
                }
            }
        }
    }

    /// Reads a select; where `is_stmt`, up to and with its `;`.
    pub fn select_stmt(&mut self, input: Input, is_stmt: bool) -> (r: Result<
        (SelectStmt, Input),
        ParseError,
    >)
        ensures
            match select(input@, is_stmt) {
                Some((stmt, rest)) => r is Ok && r.unwrap().0@ == stmt && r.unwrap().1@ == rest
                    && rest.len() < input@.len(),
                None => r is Err,
            },
        decreases input@.len(), 0nat,
    {
        let ghost ts = input@;
        let mut input = input;
        ParseHelper::match_token(Token::Select, input.next())?;
        let (properties, mut input) = self.select_properties(input)?;
        ParseHelper::match_token(Token::From, input.next())?;
        let ((from_clause, alias), mut input) = self.parse_from_clause(input)?;
        let (stmt, mut input) = if accept(&mut input, Token::KeywordInnerJoin) {
            let ((right_from, right_alias), input) = self.parse_from_clause(input)?;
            let (predicate, input) = self.join_predicate(input)?;
            (
                SelectStmt::Join(
                    JoinStmt {
                        join_type: JoinType::InnerJoin,
                        properties,
                        // Each side of the join selects all of its source.
                        left: SingleSelectStmt {
                            properties: SelectProperties::Star,
                            from_clause,
                            where_clause: WhereClause::Absent,
                            alias,
                        },
                        right: SingleSelectStmt {
                            properties: SelectProperties::Star,
                            from_clause: right_from,
                            where_clause: WhereClause::Absent,
                            alias: right_alias,
                        },
                        predicate,
                    },
                ),
                input,
            )
        } else {
            let (where_clause, input) = self.where_clause(input)?;
            (
                SelectStmt::Select(
                    SingleSelectStmt { properties, from_clause, where_clause, alias },
                ),
                input,
            )
        };
        if is_stmt {
            ParseHelper::match_token(Token::Semicolon, input.next())?;
        }
        Ok((stmt, input))
    }

    /// Reads what is selected.
    pub fn select_properties(&self, input: Input) -> (r: Result<
        (SelectProperties, Input),
        ParseError,
    >)
        ensures
            match properties(input@) {
                Some((properties, rest)) => r is Ok && r.unwrap().0@ == properties
                    && r.unwrap().1@ == rest && rest.len() < input@.len(),
                None => r is Err,
            },
    {
        let mut input = input;
        if accept(&mut input, Token::Star) {
            return Ok((SelectProperties::Star, input));
        }
        let mut names = Parser {  };
        let (ids, input) = names.identifiers(input)?;
        Ok((SelectProperties::Identifiers(ids), input))
    }

    /// Reads the source of a select, with its alias.
    pub fn parse_from_clause(&mut self, input: Input) -> (r: Result<
        ((FromClause, Option<String>), Input),
        ParseError,
    >)
        ensures
            match source(input@) {
                Some(((from_clause, alias), rest)) => r is Ok && r.unwrap().0.0@ == from_clause
                    && optional_text_view(r.unwrap().0.1) == alias
                    && r.unwrap().1@ == rest && rest.len() < input@.len(),
                None => r is Err,
            },
        decreases input@.len(), 1nat,
    {
        let mut input = input;
        let has_parenthesis = accept(&mut input, Token::LeftParen);
        let selects = match input.peek() {
            Some(Token::Identifier(_)) => false,
            Some(Token::Select) => true,
            Some(unexpected) => {
                return Err(
                    ParseError::token_mismatch(
                        Token::Identifier(String::from_str("<table>")),
                        unexpected.clone(),
                    ),
                );
            },
            None => {
                return Err(
                    ParseError::unexpected_eof(Token::Identifier(String::from_str("<table>"))),
                );
            },
        };
        let (from_clause, mut input) = if selects {
            let (select_stmt, input) = self.select_stmt(input, false)?;
            (FromClause::Select(Box::new(select_stmt)), input)
        } else {
            let table = ParseHelper::match_identifier(input.next())?;
            (FromClause::Table(table), input)
        };
        if has_parenthesis {
            ParseHelper::match_token(Token::RightParen, input.next())?;
        }
        let (alias, input) = self.match_alias(input)?;
        Ok(((from_clause, alias), input))
    }

    /// Reads the condition of a select, if there is one.
    pub fn where_clause(&self, input: Input) -> (r: Result<(WhereClause, Input), ParseError>)
        ensures
            match condition(input@, TokenView::Where) {
                Some((clause, rest)) => r is Ok && r.unwrap().0@ == clause && r.unwrap().1@
                    == rest && rest.len() <= input@.len(),
                None => r is Err,
            },
    {
        self.where_clause_with_prefix(Token::Where, input)
    }

    /// Reads the condition of a join, if there is one.
    pub fn join_predicate(&self, input: Input) -> (r: Result<(WhereClause, Input), ParseError>)
        ensures
            match condition(input@, TokenView::KeywordOn) {
                Some((clause, rest)) => r is Ok && r.unwrap().0@ == clause && r.unwrap().1@
                    == rest && rest.len() <= input@.len(),
                None => r is Err,
            },
    {
        self.where_clause_with_prefix(Token::KeywordOn, input)
    }

    /// Reads the condition that `prefix` opens, if there is one.
    pub fn where_clause_with_prefix(&self, prefix: Token, input: Input) -> (r: Result<
        (WhereClause, Input),
        ParseError,
    >)
        ensures
            match condition(input@, prefix@) {
                Some((clause, rest)) => r is Ok && r.unwrap().0@ == clause && r.unwrap().1@
                    == rest && rest.len() <= input@.len(),
                None => r is Err,
            },
    {
        let mut input = input;
        if accept(&mut input, prefix) {
            proof {
                lemma_expr_consumes(0, input@);
            }
            let expr = ExprParser::expr(&mut input)?;
            Ok((WhereClause::Expr(expr), input))
        } else {
            Ok((WhereClause::Absent, input))
        }
    }

    /// Reads the alias of a source, if there is one.
    pub fn match_alias(&self, input: Input) -> (r: Result<(Option<String>, Input), ParseError>)
        ensures
            match alias(input@) {
                Some((alias, rest)) => r is Ok && optional_text_view(
                    r.unwrap().0,
                ) == alias && r.unwrap().1@ == rest && rest.len() <= input@.len(),
                None => r is Err,
            },
    {
        let ghost ts = input@;
        let mut input = input;
        if accept(&mut input, Token::KeywordAs) {
            let alias = ParseHelper::match_identifier(input.next())?;
            assert(input@ == ts.skip(2));
            Ok((Some(alias), input))
        } else {
            Ok((None, input))
        }
    }
}

} // verus!
