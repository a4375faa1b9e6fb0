//! The tokens of the query language.

use vstd::prelude::*;
use vstd::string::StringExecFns;

verus! {

#[derive(Debug, PartialEq)]
pub enum Token {
    // Keywords
    Create,
    Table,
    Insert,
    Select,
    From,
    Where,
    KeywordInteger,
    KeywordVarchar,
    KeywordPrimaryKey,
    KeywordInto,
    KeywordValues,
    KeywordAs,
    KeywordOn,
    KeywordInnerJoin,
    Identifier(String),
    StringLiteral(String),
    LeftParen,
    RightParen,
    Comma,
    Semicolon,
    Star,
    Plus,
    Minus,
    Slash,
    Equal,
    NotEqual,
    LessThan,
    GreaterThan,
    LessThanOrEqual,
    GreaterThanOrEqual,
    Integer(i32),
    True,
    False,
    EOF,
}

/// A token as a mathematical value: text is a sequence of characters.
pub enum TokenView {
    Create,
    Table,
    Insert,
    Select,
    From,
    Where,
    KeywordInteger,
    KeywordVarchar,
    KeywordPrimaryKey,
    KeywordInto,
    KeywordValues,
    KeywordAs,
    KeywordOn,
    KeywordInnerJoin,
    Identifier(Seq<char>),
    StringLiteral(Seq<char>),
    LeftParen,
    RightParen,
    Comma,
    Semicolon,
    Star,
    Plus,
    Minus,
    Slash,
    Equal,
    NotEqual,
    LessThan,
    GreaterThan,
    LessThanOrEqual,
    GreaterThanOrEqual,
    Integer(i32),
    True,
    False,
    EOF,
}

impl View for Token {
    type V = TokenView;

    open spec fn view(&self) -> TokenView {
        match self {
            Token::Create => TokenView::Create,
            Token::Table => TokenView::Table,
            Token::Insert => TokenView::Insert,
            Token::Select => TokenView::Select,
            Token::From => TokenView::From,
            Token::Where => TokenView::Where,
            Token::KeywordInteger => TokenView::KeywordInteger,
            Token::KeywordVarchar => TokenView::KeywordVarchar,
            Token::KeywordPrimaryKey => TokenView::KeywordPrimaryKey,
            Token::KeywordInto => TokenView::KeywordInto,
            Token::KeywordValues => TokenView::KeywordValues,
            Token::KeywordAs => TokenView::KeywordAs,
            Token::KeywordOn => TokenView::KeywordOn,
            Token::KeywordInnerJoin => TokenView::KeywordInnerJoin,
            Token::Identifier(id) => TokenView::Identifier(id@),
            Token::StringLiteral(text) => TokenView::StringLiteral(text@),
            Token::LeftParen => TokenView::LeftParen,
            Token::RightParen => TokenView::RightParen,
            Token::Comma => TokenView::Comma,
            Token::Semicolon => TokenView::Semicolon,
            Token::Star => TokenView::Star,
            Token::Plus => TokenView::Plus,
            Token::Minus => TokenView::Minus,
            Token::Slash => TokenView::Slash,
            Token::Equal => TokenView::Equal,
            Token::NotEqual => TokenView::NotEqual,
            Token::LessThan => TokenView::LessThan,
            Token::GreaterThan => TokenView::GreaterThan,
            Token::LessThanOrEqual => TokenView::LessThanOrEqual,
            Token::GreaterThanOrEqual => TokenView::GreaterThanOrEqual,
            Token::Integer(n) => TokenView::Integer(*n),
            Token::True => TokenView::True,
            Token::False => TokenView::False,
            Token::EOF => TokenView::EOF,
        }
    }
}

/// The views of a run of tokens, in order.
pub open spec fn token_views(tokens: Seq<Token>) -> Seq<TokenView> {
    tokens.map_values(|t: Token| t@)
}

impl Clone for Token {
    fn clone(&self) -> (r: Self)
        ensures
            r@ == self@,
    {
        match self {
            Token::Create => Token::Create,
            Token::Table => Token::Table,
            Token::Insert => Token::Insert,
            Token::Select => Token::Select,
            Token::From => Token::From,
            Token::Where => Token::Where,
            Token::KeywordInteger => Token::KeywordInteger,
            Token::KeywordVarchar => Token::KeywordVarchar,
            Token::KeywordPrimaryKey => Token::KeywordPrimaryKey,
            Token::KeywordInto => Token::KeywordInto,
            Token::KeywordValues => Token::KeywordValues,
            Token::KeywordAs => Token::KeywordAs,
            Token::KeywordOn => Token::KeywordOn,
            Token::KeywordInnerJoin => Token::KeywordInnerJoin,
            Token::Identifier(id) => Token::Identifier(id.clone()),
            Token::StringLiteral(text) => Token::StringLiteral(text.clone()),
            Token::LeftParen => Token::LeftParen,
            Token::RightParen => Token::RightParen,
            Token::Comma => Token::Comma,
            Token::Semicolon => Token::Semicolon,
            Token::Star => Token::Star,
            Token::Plus => Token::Plus,
            Token::Minus => Token::Minus,
            Token::Slash => Token::Slash,
            Token::Equal => Token::Equal,
            Token::NotEqual => Token::NotEqual,
            Token::LessThan => Token::LessThan,
            Token::GreaterThan => Token::GreaterThan,
            Token::LessThanOrEqual => Token::LessThanOrEqual,
            Token::GreaterThanOrEqual => Token::GreaterThanOrEqual,
            Token::Integer(n) => Token::Integer(*n),
            Token::True => Token::True,
            Token::False => Token::False,
            Token::EOF => Token::EOF,
        }
    }
}

/// How a token is shown in messages.
pub open spec fn token_text(t: TokenView) -> Seq<char> {
    match t {
        TokenView::Create => "CREATE"@,
        TokenView::Table => "TABLE"@,
        TokenView::Insert => "INSERT"@,
        TokenView::Select => "SELECT"@,
        TokenView::From => "FROM"@,
        TokenView::Where => "WHERE"@,
        TokenView::KeywordInteger => "INTEGER"@,
        TokenView::KeywordVarchar => "VARCHAR"@,
        TokenView::KeywordPrimaryKey => "PRIMARY KEY"@,
        TokenView::KeywordInto => "INTO"@,
        TokenView::KeywordValues => "VALUES"@,
        TokenView::KeywordAs => "AS"@,
        TokenView::KeywordOn => "ON"@,
        TokenView::KeywordInnerJoin => "INNER JOIN"@,
        TokenView::Identifier(id) => "Identifier("@ + id + ")"@,
        TokenView::StringLiteral(_) => "\"<string>\""@,
        TokenView::LeftParen => "("@,
        TokenView::RightParen => ")"@,
        TokenView::Comma => ","@,
        TokenView::Semicolon => ";"@,
        TokenView::Star => "*"@,
        TokenView::Plus => "+"@,
        TokenView::Minus => "-"@,
        TokenView::Slash => "/"@,
        TokenView::Equal => "="@,
        TokenView::NotEqual => "!="@,
        TokenView::LessThan => "<"@,
        TokenView::GreaterThan => ">"@,
        TokenView::LessThanOrEqual => "<="@,
        TokenView::GreaterThanOrEqual => ">="@,
        TokenView::Integer(_) => "<integer>"@,
        TokenView::True => "true"@,
        TokenView::False => "false"@,
        TokenView::EOF => "EOF"@,
    }
}

impl Token {
    /// Whether two tokens are the same token with the same text or number.
    pub fn same_as(&self, other: &Token) -> (r: bool)
        ensures
            r == (self@ == other@),
    {
        match (self, other) {
            (Token::Create, Token::Create) => true,
            (Token::Table, Token::Table) => true,
            (Token::Insert, Token::Insert) => true,
            (Token::Select, Token::Select) => true,
            (Token::From, Token::From) => true,
            (Token::Where, Token::Where) => true,
            (Token::KeywordInteger, Token::KeywordInteger) => true,
            (Token::KeywordVarchar, Token::KeywordVarchar) => true,
            (Token::KeywordPrimaryKey, Token::KeywordPrimaryKey) => true,
            (Token::KeywordInto, Token::KeywordInto) => true,
            (Token::KeywordValues, Token::KeywordValues) => true,
            (Token::KeywordAs, Token::KeywordAs) => true,
            (Token::KeywordOn, Token::KeywordOn) => true,
            (Token::KeywordInnerJoin, Token::KeywordInnerJoin) => true,
            (Token::Identifier(a), Token::Identifier(b)) => *a == *b,
            (Token::StringLiteral(a), Token::StringLiteral(b)) => *a == *b,
            (Token::LeftParen, Token::LeftParen) => true,
            (Token::RightParen, Token::RightParen) => true,
            (Token::Comma, Token::Comma) => true,
            (Token::Semicolon, Token::Semicolon) => true,
            (Token::Star, Token::Star) => true,
            (Token::Plus, Token::Plus) => true,
            (Token::Minus, Token::Minus) => true,
            (Token::Slash, Token::Slash) => true,
            (Token::Equal, Token::Equal) => true,
            (Token::NotEqual, Token::NotEqual) => true,
            (Token::LessThan, Token::LessThan) => true,
            (Token::GreaterThan, Token::GreaterThan) => true,
            (Token::LessThanOrEqual, Token::LessThanOrEqual) => true,
            (Token::GreaterThanOrEqual, Token::GreaterThanOrEqual) => true,
            (Token::Integer(a), Token::Integer(b)) => *a == *b,
            (Token::True, Token::True) => true,
            (Token::False, Token::False) => true,
            (Token::EOF, Token::EOF) => true,
            _ => false,
        }
    }

    /// The token as shown in messages.
    pub fn to_string(&self) -> (r: String)
        ensures
            r@ == token_text(self@),
    {
        match self {
            Token::Create => String::from_str("CREATE"),
            Token::Table => String::from_str("TABLE"),
            Token::Insert => String::from_str("INSERT"),
            Token::Select => String::from_str("SELECT"),
            Token::From => String::from_str("FROM"),
            Token::Where => String::from_str("WHERE"),
            Token::KeywordInteger => String::from_str("INTEGER"),
            Token::KeywordVarchar => String::from_str("VARCHAR"),
            Token::KeywordPrimaryKey => String::from_str("PRIMARY KEY"),
            Token::KeywordInto => String::from_str("INTO"),
            Token::KeywordValues => String::from_str("VALUES"),
            Token::KeywordAs => String::from_str("AS"),
            Token::KeywordOn => String::from_str("ON"),
            Token::KeywordInnerJoin => String::from_str("INNER JOIN"),
            Token::Identifier(id) => {
                let mut text = String::from_str("Identifier(");
                text.append(id.as_str());
                text.append(")");
                text
            },
            Token::StringLiteral(_) => String::from_str("\"<string>\""),
            Token::LeftParen => String::from_str("("),
            Token::RightParen => String::from_str(")"),
            Token::Comma => String::from_str(","),
            Token::Semicolon => String::from_str(";"),
            Token::Star => String::from_str("*"),
            Token::Plus => String::from_str("+"),
            Token::Minus => String::from_str("-"),
            Token::Slash => String::from_str("/"),
            Token::Equal => String::from_str("="),
            Token::NotEqual => String::from_str("!="),
            Token::LessThan => String::from_str("<"),
            Token::GreaterThan => String::from_str(">"),
            Token::LessThanOrEqual => String::from_str("<="),
            Token::GreaterThanOrEqual => String::from_str(">="),
            Token::Integer(_) => String::from_str("<integer>"),
            Token::True => String::from_str("true"),
            Token::False => String::from_str("false"),
            Token::EOF => String::from_str("EOF"),
        }
    }
}

} // verus!
