//! The lexer: text to tokens.

pub mod token;

use crate::parser::lexer::token::{Token, token_views, TokenView};
use crate::text::{chars_of, decimal_digits, decimal_text, spells, string_of};
use vstd::prelude::*;
use vstd::string::StringExecFns;

verus! {

/// Why a text is not a run of tokens.
#[derive(Debug)]
pub struct LexerError {
    pub details: String,
}

impl LexerError {
    /// The message of this error.
    pub fn to_string(&self) -> (r: String)
        ensures
            r@ == self.details@,
    {
        self.details.clone()
    }
}

/// What `char::is_whitespace` answers for `c`.
pub uninterp spec fn char_is_whitespace(c: char) -> bool;

/// What `char::is_alphabetic` answers for `c`.
pub uninterp spec fn char_is_alphabetic(c: char) -> bool;

/// `char::is_whitespace`: whether `c` has the Unicode property White_Space.
/// Nothing is claimed beyond giving the answer its name.
pub assume_specification[ char::is_whitespace ](c: char) -> (r: bool)
    ensures
        r == char_is_whitespace(c),
;

/// `char::is_alphabetic`: whether `c` has the Unicode property Alphabetic.
/// Nothing is claimed beyond giving the answer its name.
pub assume_specification[ char::is_alphabetic ](c: char) -> (r: bool)
    ensures
        r == char_is_alphabetic(c),
;

/// The kinds of character runs the lexer measures.
#[derive(Clone, Copy, Debug, PartialEq, Eq, Structural)]
pub enum CharClass {
    Whitespace,
    Alphabetic,
    Digit,
    Unquoted,
}

/// Whether `c` belongs to `class`. A digit is one of `0` to `9`; an unquoted
/// character is any but the single quote.
pub open spec fn in_class(class: CharClass, c: char) -> bool {
    match class {
        CharClass::Whitespace => char_is_whitespace(c),
        CharClass::Alphabetic => char_is_alphabetic(c),
        CharClass::Digit => '0' <= c <= '9',
        CharClass::Unquoted => c != '\'',
    }
}

/// The length of the longest run of characters of `class` that starts at `start`.
pub open spec fn run_length(input: Seq<char>, start: int, class: CharClass) -> nat
    decreases input.len() - start,
{
    if 0 <= start < input.len() && in_class(class, input[start]) {
        1 + run_length(input, start + 1, class)
    } else {
        0
    }
}

/// The lower-case form of an ASCII letter; any other character is unchanged.
pub open spec fn ascii_lower(c: char) -> char {
    if 'A' <= c <= 'Z' {
        ((c as u8 + 32) as u8) as char
    } else {
        c
    }
}

/// `text` with every ASCII letter in lower case.
pub open spec fn ascii_lowercase(text: Seq<char>) -> Seq<char> {
    text.map_values(|c: char| ascii_lower(c))
}

/// The number that a run of decimal digits denotes.
pub open spec fn decimal_value(digits: Seq<char>) -> nat
    decreases digits.len(),
{
    if digits.len() == 0 {
        0
    } else {
        decimal_value(digits.drop_last()) * 10 + (digits.last() as int - '0' as int) as nat
    }
}

/// The keyword that a lower-case word spells, if any.
pub open spec fn keyword(word: Seq<char>) -> Option<TokenView> {
    if word == "create"@ {
        Some(TokenView::Create)
    } else if word == "table"@ {
        Some(TokenView::Table)
    } else if word == "insert"@ {
        Some(TokenView::Insert)
    } else if word == "select"@ {
        Some(TokenView::Select)
    } else if word == "from"@ {
        Some(TokenView::From)
    } else if word == "where"@ {
        Some(TokenView::Where)
    } else if word == "integer"@ {
        Some(TokenView::KeywordInteger)
    } else if word == "varchar"@ {
        Some(TokenView::KeywordVarchar)
    } else if word == "into"@ {
        Some(TokenView::KeywordInto)
    } else if word == "values"@ {
        Some(TokenView::KeywordValues)
    } else if word == "as"@ {
        Some(TokenView::KeywordAs)
    } else if word == "on"@ {
        Some(TokenView::KeywordOn)
    } else if word == "true"@ {
        Some(TokenView::True)
    } else if word == "false"@ {
        Some(TokenView::False)
    } else {
        None
    }
}

/// The two-word keyword whose first word is the lower-case `first`, with its
/// second word.
pub open spec fn double_keyword(first: Seq<char>) -> Option<(Seq<char>, TokenView)> {
    if first == "primary"@ {
        Some(("key"@, TokenView::KeywordPrimaryKey))
    } else if first == "inner"@ {
        Some(("join"@, TokenView::KeywordInnerJoin))
    } else {
        None
    }
}

/// The length of the second word of a two-word keyword together with the
/// whitespace before it, if `second` follows at `pos` after at least one
/// whitespace character and is a whole word there.
pub open spec fn second_word_length(input: Seq<char>, pos: int, second: Seq<char>) -> Option<nat> {
    let gap = run_length(input, pos, CharClass::Whitespace);
    let word = run_length(input, pos + gap, CharClass::Alphabetic);
    if gap > 0 && ascii_lowercase(input.subrange(pos + gap, pos + gap + word)) == second {
        Some(gap + word)
    } else {
        None
    }
}

/// The token that starts with the word at `pos`, and its length. The word is a
/// run of alphabetic characters, once followed by a dot and a second such run.
pub open spec fn word_token(input: Seq<char>, pos: int) -> Option<(TokenView, nat)> {
    let head = run_length(input, pos, CharClass::Alphabetic);
    let dotted = pos + head < input.len() && input[pos + head] == '.';
    let tail = run_length(input, pos + head + 1, CharClass::Alphabetic);
    if dotted && tail == 0 {
        None
    } else {
        let length = if dotted {
            head + 1 + tail
        } else {
            head
        };
        let word = input.subrange(pos, pos + length);
        let lower = ascii_lowercase(word);
        match double_keyword(lower) {
            Some((second, token)) if second_word_length(input, pos + length, second) is Some => {
                Some((token, (length + second_word_length(input, pos + length, second).unwrap()) as nat))
            },
            _ => match keyword(lower) {
                Some(token) => Some((token, length)),
                None => Some((TokenView::Identifier(word), length)),
            },
        }
    }
}

/// The token that starts at `pos`, a position inside `input` that holds no
/// whitespace, and the number of characters it takes; or `None` where no
/// token starts there.
pub open spec fn token_at(input: Seq<char>, pos: int) -> Option<(TokenView, nat)> {
    let c = input[pos];
    let followed_by_equal = pos + 1 < input.len() && input[pos + 1] == '=';
    if c == '(' {
        Some((TokenView::LeftParen, 1))
    } else if c == ')' {
        Some((TokenView::RightParen, 1))
    } else if c == ',' {
        Some((TokenView::Comma, 1))
    } else if c == ';' {
        Some((TokenView::Semicolon, 1))
    } else if c == '*' {
        Some((TokenView::Star, 1))
    } else if c == '+' {
        Some((TokenView::Plus, 1))
    } else if c == '-' {
        Some((TokenView::Minus, 1))
    } else if c == '/' {
        Some((TokenView::Slash, 1))
    } else if c == '=' {
        Some((TokenView::Equal, 1))
    } else if c == '<' {
        if followed_by_equal {
            Some((TokenView::LessThanOrEqual, 2))
        } else {
            Some((TokenView::LessThan, 1))
        }
    } else if c == '>' {
        if followed_by_equal {
            Some((TokenView::GreaterThanOrEqual, 2))
        } else {
            Some((TokenView::GreaterThan, 1))
        }
    } else if c == '!' {
        if followed_by_equal {
            Some((TokenView::NotEqual, 2))
        } else {
            None
        }
    } else if char_is_alphabetic(c) {
        word_token(input, pos)
    } else if '0' <= c <= '9' {
        let length = run_length(input, pos, CharClass::Digit);
        let value = decimal_value(input.subrange(pos, pos + length));
        if value <= i32::MAX {
            Some((TokenView::Integer(value as i32), length))
        } else {
            None
        }
    } else if c == '\'' {
        let length = run_length(input, pos + 1, CharClass::Unquoted);
        if pos + 1 + length < input.len() {
            Some((TokenView::StringLiteral(input.subrange(pos + 1, pos + 1 + length)), (length + 2) as nat))
        } else {
            None
        }
    } else {
        None
    }
}

/// The tokens of `input` from `pos` on, ended by `EOF`; or `None` where some
/// position holds neither whitespace nor the start of a token.
pub open spec fn tokens_from(input: Seq<char>, pos: int) -> Option<Seq<TokenView>>
    decreases input.len() - pos,
{
    if pos < 0 || pos >= input.len() {
        Some(seq![TokenView::EOF])
    } else if char_is_whitespace(input[pos]) {
        tokens_from(input, pos + 1)
    } else {
        match token_at(input, pos) {
            Some((token, length)) => {
                if 0 < length && pos + length <= input.len() {
                    match tokens_from(input, pos + length) {
                        Some(rest) => Some(seq![token] + rest),
                        None => None,
                    }
                } else {
                    None
                }
            },
            None => None,
        }
    }
}

/// A run ends inside the text.
pub proof fn lemma_run_fits(input: Seq<char>, start: int, class: CharClass)
    requires
        0 <= start <= input.len(),
    ensures
        start + run_length(input, start, class) <= input.len(),
    decreases input.len() - start,
{
    if start < input.len() && in_class(class, input[start]) {
        lemma_run_fits(input, start + 1, class);
    }
}

/// A token takes at least one character and ends inside the text: the
/// reading of tokens never stops for want of progress.
pub proof fn lemma_token_fits(input: Seq<char>, pos: int)
    requires
        0 <= pos < input.len(),
    ensures
        token_at(input, pos) is Some ==> 0 < token_at(input, pos).unwrap().1 && pos + token_at(
            input,
            pos,
        ).unwrap().1 <= input.len(),
{
    let c = input[pos];
    if char_is_alphabetic(c) {
        let head = run_length(input, pos, CharClass::Alphabetic);
        lemma_run_fits(input, pos, CharClass::Alphabetic);
        let dotted = pos + head < input.len() && input[pos + head] == '.';
        if dotted {
            lemma_run_fits(input, pos + head + 1, CharClass::Alphabetic);
        }
        let length = if dotted {
            head + 1 + run_length(input, pos + head + 1, CharClass::Alphabetic)
        } else {
            head
        };
        let gap = run_length(input, pos + length, CharClass::Whitespace);
        lemma_run_fits(input, pos + length, CharClass::Whitespace);
        lemma_run_fits(input, pos + length + gap, CharClass::Alphabetic);
    } else if '0' <= c <= '9' {
        lemma_run_fits(input, pos, CharClass::Digit);
    } else if c == '\'' {
        lemma_run_fits(input, pos + 1, CharClass::Unquoted);
    }
}

/// The tokens of `input`, ended by `EOF`, or `None` where `input` is not a
/// run of tokens and whitespace.
pub open spec fn tokens_of(input: Seq<char>) -> Option<Seq<TokenView>> {
    tokens_from(input, 0)
}

/// A longer run of digits denotes no smaller a number than any of its prefixes.
pub proof fn lemma_decimal_value_grows(digits: Seq<char>, k: int)
    requires
        0 <= k <= digits.len(),
    ensures
        decimal_value(digits.take(k)) <= decimal_value(digits),
    decreases digits.len(),
{
    if k == digits.len() {
        assert(digits.take(k) == digits);
    } else {
        lemma_decimal_value_grows(digits.drop_last(), k);
        assert(digits.drop_last().take(k) == digits.take(k));
    }
}

/// The lexer of the query language.
pub struct Lexer {}

fn has_class(class: CharClass, c: char) -> (r: bool)
    ensures
        r == in_class(class, c),
{
    match class {
        CharClass::Whitespace => c.is_whitespace(),
        CharClass::Alphabetic => c.is_alphabetic(),
        CharClass::Digit => '0' <= c && c <= '9',
        CharClass::Unquoted => c != '\'',
    }
}

fn scan_run(input: &Vec<char>, start: usize, class: CharClass) -> (n: usize)
    requires
        start <= input.len(),
    ensures
        n == run_length(input@, start as int, class),
        start + n <= input.len(),
        start + n < input.len() ==> !in_class(class, input@[start + n]),
{
    let mut i: usize = start;
    while i < input.len() && has_class(class, input[i])
        invariant
            start <= i <= input.len(),
            run_length(input@, start as int, class) == (i - start) + run_length(
                input@,
                i as int,
                class,
            ),
        decreases input.len() - i,
    {
        i += 1;
    }
    i - start
}

fn lower_case(c: char) -> (r: char)
    ensures
        r == ascii_lower(c),
{
    if 'A' <= c && c <= 'Z' {
        ((c as u8) + 32) as char
    } else {
        c
    }
}

fn lower_word(input: &Vec<char>, from: usize, to: usize) -> (word: Vec<char>)
    requires
        from <= to <= input.len(),
    ensures
        word@ == ascii_lowercase(input@.subrange(from as int, to as int)),
{
    let mut word: Vec<char> = Vec::new();
    let mut i: usize = from;
    while i < to
        invariant
            from <= i <= to <= input.len(),
            word@ == ascii_lowercase(input@.subrange(from as int, i as int)),
        decreases to - i,
    {
        word.push(lower_case(input[i]));
        i += 1;
        assert(word@ =~= ascii_lowercase(input@.subrange(from as int, i as int)));
    }
    word
}

fn keyword_token(word: &Vec<char>) -> (r: Option<Token>)
    ensures
        match keyword(word@) {
            Some(token) => r is Some && r.unwrap()@ == token,
            None => r is None,
        },
{
    let n = word.len();
    assert(word@.subrange(0, n as int) == word@);
    if spells(word, 0, n, "create") {
        Some(Token::Create)
    } else if spells(word, 0, n, "table") {
        Some(Token::Table)
    } else if spells(word, 0, n, "insert") {
        Some(Token::Insert)
    } else if spells(word, 0, n, "select") {
        Some(Token::Select)
    } else if spells(word, 0, n, "from") {
        Some(Token::From)
    } else if spells(word, 0, n, "where") {
        Some(Token::Where)
    } else if spells(word, 0, n, "integer") {
        Some(Token::KeywordInteger)
    } else if spells(word, 0, n, "varchar") {
        Some(Token::KeywordVarchar)
    } else if spells(word, 0, n, "into") {
        Some(Token::KeywordInto)
    } else if spells(word, 0, n, "values") {
        Some(Token::KeywordValues)
    } else if spells(word, 0, n, "as") {
        Some(Token::KeywordAs)
    } else if spells(word, 0, n, "on") {
        Some(Token::KeywordOn)
    } else if spells(word, 0, n, "true") {
        Some(Token::True)
    } else if spells(word, 0, n, "false") {
        Some(Token::False)
    } else {
        None
    }
}

fn second_word(input: &Vec<char>, pos: usize, second: &str) -> (r: Option<usize>)
    requires
        pos <= input.len(),
    ensures
        r is Some <==> second_word_length(input@, pos as int, second@) is Some,
        r is Some ==> r.unwrap() == second_word_length(input@, pos as int, second@).unwrap()
            && pos + r.unwrap() <= input.len(),
{
    let gap = scan_run(input, pos, CharClass::Whitespace);
    let word = scan_run(input, pos + gap, CharClass::Alphabetic);
    if gap == 0 {
        return None;
    }
    let lower = lower_word(input, pos + gap, pos + gap + word);
    assert(lower@.subrange(0, lower@.len() as int) == lower@);
    if spells(&lower, 0, lower.len(), second) {
        Some(gap + word)
    } else {
        None
    }
}

/// The error with the message `details`, with the position `pos` added.
fn error_at(details: String, pos: usize) -> (e: LexerError)
    ensures
        e.details@ == details@ + " at position "@ + decimal_digits(pos as nat),
{
    let mut details = details;
    details.append(" at position ");
    details.append(decimal_text(pos).as_str());
    LexerError { details }
}

impl Lexer {
    pub fn new() -> (lexer: Self) {
        Lexer {  }
    }

    /// The number of whitespace characters at `start`.
    pub fn scan_whitespace(input: &Vec<char>, start: usize) -> (n: usize)
        requires
            start <= input.len(),
        ensures
            n == run_length(input@, start as int, CharClass::Whitespace),
            start + n <= input.len(),
    {
        scan_run(input, start, CharClass::Whitespace)
    }

    /// The longest run of alphabetic characters at `start`, unless it is empty.
    pub fn scan_identifier(input: &Vec<char>, start: usize) -> (r: Option<String>)
        requires
            start <= input.len(),
        ensures
            r is Some <==> run_length(input@, start as int, CharClass::Alphabetic) > 0,
            r is Some ==> r.unwrap()@ == input@.subrange(
                start as int,
                start + run_length(input@, start as int, CharClass::Alphabetic),
            ),
    {
        let n = scan_run(input, start, CharClass::Alphabetic);
        if n > 0 {
            Some(string_of(input, start, start + n))
        } else {
            None
        }
    }

    /// Succeeds where `got` is the character `want`.
    pub fn must(want: char, got: Option<char>) -> (r: Result<(), LexerError>)
        ensures
            r is Ok <==> got == Some(want),
    {
        match got {
            Some(got) => {
                if got == want {
                    Ok(())
                } else {
                    let mut details = String::from_str("wanted '");
                    details.push(want);
                    details.append("', got '");
                    details.push(got);
                    details.append("'");
                    Err(LexerError { details })
                }
            },
            None => {
                let mut details = String::from_str("wanted '");
                details.push(want);
                details.append("', got EOF");
                Err(LexerError { details })
            },
        }
    }

    fn scan_word(input: &Vec<char>, pos: usize) -> (r: Result<(Token, usize), LexerError>)
        requires
            pos < input.len(),
            char_is_alphabetic(input@[pos as int]),
        ensures
            match word_token(input@, pos as int) {
                Some((token, length)) => r is Ok && r.unwrap().0@ == token && r.unwrap().1
                    == length && 0 < length && pos + length <= input.len(),
                None => r is Err,
            },
    {
        let head = scan_run(input, pos, CharClass::Alphabetic);
        assert(head > 0);
        let dotted = pos + head < input.len() && input[pos + head] == '.';
        let mut length = head;
        if dotted {
            let tail = scan_run(input, pos + head + 1, CharClass::Alphabetic);
            if tail == 0 {
                let mut details = String::from_str("no suffix provided for identifier ");
                let word = string_of(input, pos, pos + head);
                details.append(word.as_str());
                details.append(".");
                return Err(error_at(details, pos));
            }
            length = head + 1 + tail;
        }
        let lower = lower_word(input, pos, pos + length);
        assert(lower@.subrange(0, lower@.len() as int) == lower@);
        if spells(&lower, 0, lower.len(), "primary") {
            match second_word(input, pos + length, "key") {
                Some(more) => {
                    return Ok((Token::KeywordPrimaryKey, length + more));
                },
                None => {},
            }
        } else if spells(&lower, 0, lower.len(), "inner") {
            match second_word(input, pos + length, "join") {
                Some(more) => {
                    return Ok((Token::KeywordInnerJoin, length + more));
                },
                None => {},
            }
        }
        proof {
            reveal_strlit("primary");
            reveal_strlit("inner");
        }
        match keyword_token(&lower) {
            Some(token) => Ok((token, length)),
            None => Ok((Token::Identifier(string_of(input, pos, pos + length)), length)),
        }
    }

    fn scan_number(input: &Vec<char>, pos: usize) -> (r: Result<(Token, usize), LexerError>)
        requires
            pos < input.len(),
            '0' <= input@[pos as int] <= '9',
        ensures
            ({
                let length = run_length(input@, pos as int, CharClass::Digit);
                let value = decimal_value(input@.subrange(pos as int, pos + length));
                if value <= i32::MAX {
                    r is Ok && r.unwrap().0@ == TokenView::Integer(value as i32) && r.unwrap().1
                        == length && 0 < length && pos + length <= input.len()
                } else {
                    r is Err
                }
            }),
    {
        let length = scan_run(input, pos, CharClass::Digit);
        let ghost digits = input@.subrange(pos as int, pos + length);
        let mut value: i32 = 0;
        let mut i: usize = 0;
        while i < length
            invariant
                pos + length <= input.len(),
                length == run_length(input@, pos as int, CharClass::Digit),
                digits == input@.subrange(pos as int, pos + length),
                i <= length,
                value == decimal_value(digits.take(i as int)),
                forall|j: int| 0 <= j < i ==> '0' <= #[trigger] digits[j] <= '9',
                run_length(input@, pos as int, CharClass::Digit) == i + run_length(
                    input@,
                    pos + i,
                    CharClass::Digit,
                ),
            decreases length - i,
        {
            let c = input[pos + i];
            assert(c == digits[i as int]);
            assert('0' <= c <= '9');
            let digit: i32 = (c as u8 - '0' as u8) as i32;
            proof {
                assert(digits.take(i + 1).drop_last() == digits.take(i as int));
                assert(digits.take(i + 1).last() == c);
                lemma_decimal_value_grows(digits, i + 1);
            }
            if value > 214748364 || (value == 214748364 && digit > 7) {
                return Err(error_at(String::from_str("integer literal is too large"), pos));
            }
            value = value * 10 + digit;
            i += 1;
        }
        assert(digits.take(length as int) == digits);
        Ok((Token::Integer(value), length))
    }

    /// The token that starts at `pos`, and the number of characters it takes.
    pub fn scan_token(&self, input: &Vec<char>, pos: usize) -> (r: Result<
        (Token, usize),
        LexerError,
    >)
        requires
            pos < input.len(),
        ensures
            match token_at(input@, pos as int) {
                Some((token, length)) => r is Ok && r.unwrap().0@ == token && r.unwrap().1
                    == length && 0 < length && pos + length <= input.len(),
                None => r is Err,
            },
    {
        let c = input[pos];
        let next: Option<char> = if pos + 1 < input.len() {
            Some(input[pos + 1])
        } else {
            None
        };
        let followed_by_equal = pos + 1 < input.len() && input[pos + 1] == '=';
        if c == '(' {
            Ok((Token::LeftParen, 1))
        } else if c == ')' {
            Ok((Token::RightParen, 1))
        } else if c == ',' {
            Ok((Token::Comma, 1))
        } else if c == ';' {
            Ok((Token::Semicolon, 1))
        } else if c == '*' {
            Ok((Token::Star, 1))
        } else if c == '+' {
            Ok((Token::Plus, 1))
        } else if c == '-' {
            Ok((Token::Minus, 1))
        } else if c == '/' {
            Ok((Token::Slash, 1))
        } else if c == '=' {
            Ok((Token::Equal, 1))
        } else if c == '<' {
            if followed_by_equal {
                Ok((Token::LessThanOrEqual, 2))
            } else {
                Ok((Token::LessThan, 1))
            }
        } else if c == '>' {
            if followed_by_equal {
                Ok((Token::GreaterThanOrEqual, 2))
            } else {
                Ok((Token::GreaterThan, 1))
            }
        } else if c == '!' {
            match Lexer::must('=', next) {
                Ok(()) => Ok((Token::NotEqual, 2)),
                Err(e) => Err(error_at(e.details, pos)),
            }
        } else if c.is_alphabetic() {
            Lexer::scan_word(input, pos)
        } else if '0' <= c && c <= '9' {
            Lexer::scan_number(input, pos)
        } else if c == '\'' {
            let length = scan_run(input, pos + 1, CharClass::Unquoted);
            let closing: Option<char> = if pos + 1 + length < input.len() {
                Some(input[pos + 1 + length])
            } else {
                None
            };
            match Lexer::must('\'', closing) {
                Ok(()) => Ok(
                    (Token::StringLiteral(string_of(input, pos + 1, pos + 1 + length)), length + 2),
                ),
                Err(e) => Err(error_at(e.details, pos)),
            }
        } else {
            let mut details = String::from_str("invalid character '");
            details.push(c);
            details.append("'");
            Err(error_at(details, pos))
        }
    }

    /// The tokens of `input`, ended by `EOF`.
    pub fn scan(&self, input: &str) -> (r: Result<Vec<Token>, LexerError>)
        ensures
            match tokens_of(input@) {
                Some(tokens) => r is Ok && token_views(r.unwrap()@)
                    == tokens,
                None => r is Err,
            },
    {
        let chars = chars_of(input);
        let mut tokens: Vec<Token> = Vec::new();
        let mut cur_pos: usize = 0;
        while cur_pos != chars.len()
            invariant
                chars@ == input@,
                cur_pos <= chars.len(),
                tokens_of(input@) == match tokens_from(chars@, cur_pos as int) {
                    Some(rest) => Some(token_views(tokens@) + rest),
                    None => None,
                },
            decreases chars.len() - cur_pos,
        {
            if chars[cur_pos].is_whitespace() {
                cur_pos += 1;
                continue ;
            }
            match self.scan_token(&chars, cur_pos) {
                Ok((token, length)) => {
                    proof {
                        let before = token_views(tokens@);
                        let after = token_views(tokens@.push(token));
                        assert(after =~= before + seq![token@]);
                        match tokens_from(chars@, cur_pos + length) {
                            Some(rest) => {
                                assert(before + (seq![token@] + rest) =~= after + rest);
                            },
                            None => {},
                        }
                    }
                    tokens.push(token);
                    cur_pos += length;
                },
                Err(e) => {
                    return Err(e);
                },
            }
        }
        proof {
            let before = token_views(tokens@);
            let after = token_views(tokens@.push(Token::EOF));
            assert(after =~= before + seq![TokenView::EOF]);
        }
        tokens.push(Token::EOF);
        Ok(tokens)
    }
}

} // verus!
