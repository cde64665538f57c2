//! The set of tokens recognized by the lexer.
//!
//! Each token is the smallest atomic unit of the syntax: a keyword, an
//! operator, a delimiter, a literal, the wildcard marker, or the
//! end-of-stream sentinel. The lexer emits tokens and the parser consumes
//! them, so this closed set is the contract between the two stages.
//!
//! A numeric literal carries the text of its lexeme (digits with an
//! optional fractional part) rather than a machine float, so the exact
//! source spelling is preserved and the token model stays within what the
//! verifier can reason about.

use vstd::prelude::*;

verus! {

/// A lexical token.
#[derive(Debug, Clone, PartialEq, Eq)]
pub enum Token {
    /// The `let` keyword, used in binding expressions.
    Let,
    /// The `in` keyword, paired with `let`.
    In,
    /// The `if` keyword, for conditional expressions.
    If,
    /// The `then` keyword, part of an if-expression.
    Then,
    /// The `else` keyword, completing an if-expression.
    Else,
    /// The `match` keyword, for pattern matching.
    Match,
    /// The `with` keyword, used with match-expressions.
    With,
    /// The `\` symbol for lambda abstractions.
    Lambda,
    /// Equality operator (`==`).
    Equal,
    /// Less-than operator (`<`).
    LessThan,
    /// Greater-than operator (`>`).
    GreaterThan,
    /// Logical AND operator (`&&`).
    And,
    /// Logical OR operator (`||`).
    Or,
    /// Plus operator (`+`).
    Plus,
    /// Minus operator (`-`).
    Minus,
    /// Multiplication operator (`*`).
    Star,
    /// Division operator (`/`).
    Slash,
    /// Arrow operator (`->`), used in function types and lambdas.
    Arrow,
    /// Dot operator (`.`), for composition or member access.
    Dot,
    /// Pipe symbol (`|`), used in pattern matching arms.
    Pipe,
    /// An identifier: a variable or function name.
    Identifier(String),
    /// A numeric literal, carrying the text of the lexeme.
    Number(String),
    /// Left parenthesis (`(`).
    LeftParen,
    /// Right parenthesis (`)`).
    RightParen,
    /// Colon (`:`), used for type annotations.
    Colon,
    /// Assignment operator (`=`), used in bindings.
    Assign,
    /// Wildcard marker (`_`), used in patterns.
    Wildcard,
    /// End-of-stream sentinel.
    Eof,
}

/// The mathematical model of a token: identical to [`Token`] except that
/// the text of an identifier or numeric literal is a sequence of
/// characters.
pub enum TokenView {
    Let,
    In,
    If,
    Then,
    Else,
    Match,
    With,
    Lambda,
    Equal,
    LessThan,
    GreaterThan,
    And,
    Or,
    Plus,
    Minus,
    Star,
    Slash,
    Arrow,
    Dot,
    Pipe,
    Identifier(Seq<char>),
    Number(Seq<char>),
    LeftParen,
    RightParen,
    Colon,
    Assign,
    Wildcard,
    Eof,
}

impl View for Token {
    type V = TokenView;

    open spec fn view(&self) -> TokenView {
        match self {
            Token::Let => TokenView::Let,
            Token::In => TokenView::In,
            Token::If => TokenView::If,
            Token::Then => TokenView::Then,
            Token::Else => TokenView::Else,
            Token::Match => TokenView::Match,
            Token::With => TokenView::With,
            Token::Lambda => TokenView::Lambda,
            Token::Equal => TokenView::Equal,
            Token::LessThan => TokenView::LessThan,
            Token::GreaterThan => TokenView::GreaterThan,
            Token::And => TokenView::And,
            Token::Or => TokenView::Or,
            Token::Plus => TokenView::Plus,
            Token::Minus => TokenView::Minus,
            Token::Star => TokenView::Star,
            Token::Slash => TokenView::Slash,
            Token::Arrow => TokenView::Arrow,
            Token::Dot => TokenView::Dot,
            Token::Pipe => TokenView::Pipe,
            Token::Identifier(s) => TokenView::Identifier(s@),
            Token::Number(s) => TokenView::Number(s@),
            Token::LeftParen => TokenView::LeftParen,
            Token::RightParen => TokenView::RightParen,
            Token::Colon => TokenView::Colon,
            Token::Assign => TokenView::Assign,
            Token::Wildcard => TokenView::Wildcard,
            Token::Eof => TokenView::Eof,
        }
    }
}

/// The model of a token sequence: each token replaced by its view.
pub open spec fn view_token_seq(ts: Seq<Token>) -> Seq<TokenView> {
    ts.map(|i: int, t: Token| t@)
}

/// Whether two tokens carry the same model: the same variant, and for
/// identifiers and numeric literals the same text.
pub fn token_eq(a: &Token, b: &Token) -> (r: bool)
    ensures
        r == (a@ == b@),
{
    match (a, b) {
        (Token::Let, Token::Let) => true,
        (Token::In, Token::In) => true,
        (Token::If, Token::If) => true,
        (Token::Then, Token::Then) => true,
        (Token::Else, Token::Else) => true,
        (Token::Match, Token::Match) => true,
        (Token::With, Token::With) => true,
        (Token::Lambda, Token::Lambda) => true,
        (Token::Equal, Token::Equal) => true,
        (Token::LessThan, Token::LessThan) => true,
        (Token::GreaterThan, Token::GreaterThan) => true,
        (Token::And, Token::And) => true,
        (Token::Or, Token::Or) => true,
        (Token::Plus, Token::Plus) => true,
        (Token::Minus, Token::Minus) => true,
        (Token::Star, Token::Star) => true,
        (Token::Slash, Token::Slash) => true,
        (Token::Arrow, Token::Arrow) => true,
        (Token::Dot, Token::Dot) => true,
        (Token::Pipe, Token::Pipe) => true,
        (Token::Identifier(x), Token::Identifier(y)) => x.eq(y),
        (Token::Number(x), Token::Number(y)) => x.eq(y),
        (Token::LeftParen, Token::LeftParen) => true,
        (Token::RightParen, Token::RightParen) => true,
        (Token::Colon, Token::Colon) => true,
        (Token::Assign, Token::Assign) => true,
        (Token::Wildcard, Token::Wildcard) => true,
        (Token::Eof, Token::Eof) => true,
        _ => false,
    }
}

/// The printable name of a token, as used in diagnostic messages: the
/// variant's name, with the text of an identifier or numeric literal shown
/// in quotes.
pub open spec fn spec_token_text(t: TokenView) -> Seq<char> {
    match t {
        TokenView::Let => "Let"@,
        TokenView::In => "In"@,
        TokenView::If => "If"@,
        TokenView::Then => "Then"@,
        TokenView::Else => "Else"@,
        TokenView::Match => "Match"@,
        TokenView::With => "With"@,
        TokenView::Lambda => "Lambda"@,
        TokenView::Equal => "Equal"@,
        TokenView::LessThan => "LessThan"@,
        TokenView::GreaterThan => "GreaterThan"@,
        TokenView::And => "And"@,
        TokenView::Or => "Or"@,
        TokenView::Plus => "Plus"@,
        TokenView::Minus => "Minus"@,
        TokenView::Star => "Star"@,
        TokenView::Slash => "Slash"@,
        TokenView::Arrow => "Arrow"@,
        TokenView::Dot => "Dot"@,
        TokenView::Pipe => "Pipe"@,
        TokenView::Identifier(s) => "Identifier(\""@ + s + "\")"@,
        TokenView::Number(s) => "Number(\""@ + s + "\")"@,
        TokenView::LeftParen => "LeftParen"@,
        TokenView::RightParen => "RightParen"@,
        TokenView::Colon => "Colon"@,
        TokenView::Assign => "Assign"@,
        TokenView::Wildcard => "Wildcard"@,
        TokenView::Eof => "Eof"@,
    }
}

/// Renders the printable name of a token for diagnostic messages.
pub fn token_text(t: &Token) -> (r: String)
    ensures
        r@ == spec_token_text(t@),
{
    let r = match t {
        Token::Let => String::from_str("Let"),
        Token::In => String::from_str("In"),
        Token::If => String::from_str("If"),
        Token::Then => String::from_str("Then"),
        Token::Else => String::from_str("Else"),
        Token::Match => String::from_str("Match"),
        Token::With => String::from_str("With"),
        Token::Lambda => String::from_str("Lambda"),
        Token::Equal => String::from_str("Equal"),
        Token::LessThan => String::from_str("LessThan"),
        Token::GreaterThan => String::from_str("GreaterThan"),
        Token::And => String::from_str("And"),
        Token::Or => String::from_str("Or"),
        Token::Plus => String::from_str("Plus"),
        Token::Minus => String::from_str("Minus"),
        Token::Star => String::from_str("Star"),
        Token::Slash => String::from_str("Slash"),
        Token::Arrow => String::from_str("Arrow"),
        Token::Dot => String::from_str("Dot"),
        Token::Pipe => String::from_str("Pipe"),
        Token::Identifier(s) => {
            String::from_str("Identifier(\"").concat(s.as_str()).concat("\")")
        },
        Token::Number(s) => String::from_str("Number(\"").concat(s.as_str()).concat("\")"),
        Token::LeftParen => String::from_str("LeftParen"),
        Token::RightParen => String::from_str("RightParen"),
        Token::Colon => String::from_str("Colon"),
        Token::Assign => String::from_str("Assign"),
        Token::Wildcard => String::from_str("Wildcard"),
        Token::Eof => String::from_str("Eof"),
    };
    proof {
        assert(r@ =~= spec_token_text(t@));
    }
    r
}

} // verus!
