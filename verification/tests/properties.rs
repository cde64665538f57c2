use rdp::{
    ArithmeticOperator, ComparisonOperator, Expression, Lexer, ParseError, Parser, Program, Term,
    Token, TypeAnnotation,
};

fn tokens_of(input: &str) -> Vec<Token> {
    let mut lexer = Lexer::new(input);
    lexer.tokenize().expect("tokenization failed")
}

fn program_of(input: &str) -> Program {
    let mut parser = Parser::new(tokens_of(input));
    parser.parse_program().expect("parsing failed")
}

fn error_of(input: &str) -> ParseError {
    let mut parser = Parser::new(tokens_of(input));
    parser.parse_program().expect_err("parsing succeeded unexpectedly")
}

fn ident(name: &str) -> Expression {
    Expression::Term(Term::Identifier(name.to_string()))
}

fn number(text: &str) -> Expression {
    Expression::Term(Term::Number(text.to_string()))
}

/// Tokenizing the same text twice yields identical token sequences.
#[test]
fn test_tokenize_twice_identical() {
    let input = "let f = \\x -> (x + 2.5) in f 1 == 3.5 && g . h";
    let first = tokens_of(input);
    let second = tokens_of(input);
    assert_eq!(first, second);
}

/// `a - b - c` parses left-nested: `(a - b) - c`.
#[test]
fn test_subtraction_left_associative() {
    let program = program_of("a - b - c");
    let expected = Program {
        expression: Expression::Arithmetic {
            left: Box::new(Expression::Arithmetic {
                left: Box::new(ident("a")),
                operator: ArithmeticOperator::Subtract,
                right: Box::new(ident("b")),
            }),
            operator: ArithmeticOperator::Subtract,
            right: Box::new(ident("c")),
        },
    };
    assert_eq!(program, expected);
}

/// `x == 42` parses as a comparison with the right side present.
#[test]
fn test_comparison_end_to_end() {
    let program = program_of("x == 42");
    let expected = Program {
        expression: Expression::Comparison {
            left: Box::new(ident("x")),
            operator: ComparisonOperator::Equal,
            right: Some(Box::new(number("42"))),
        },
    };
    assert_eq!(program, expected);
}

/// Comparison does not chain: in `a == b == c` the comparison level stops
/// after one operator, and since the program is a single expression the
/// trailing `== c` is left unconsumed and ignored.
#[test]
fn test_comparison_does_not_chain() {
    let program = program_of("a == b == c");
    let expected = Program {
        expression: Expression::Comparison {
            left: Box::new(ident("a")),
            operator: ComparisonOperator::Equal,
            right: Some(Box::new(ident("b"))),
        },
    };
    assert_eq!(program, expected);
}

/// `match x with` without any `|` arm fails with the distinct missing-arm
/// error.
#[test]
fn test_match_without_arms() {
    assert_eq!(error_of("match x with"), ParseError::MissingPatternMatchArm);
}

/// `(x + 2)` is a grouping, not a member access.
#[test]
fn test_parenthesized_arithmetic_is_grouping() {
    let program = program_of("(x + 2)");
    let expected = Program {
        expression: Expression::Term(Term::GroupedExpression(Box::new(
            Expression::Arithmetic {
                left: Box::new(ident("x")),
                operator: ArithmeticOperator::Add,
                right: Box::new(number("2")),
            },
        ))),
    };
    assert_eq!(program, expected);
}

/// `(obj.field)`, a parenthesized form ending in `. identifier )`, is a
/// member access.
#[test]
fn test_member_access() {
    let program = program_of("(obj.field)");
    let expected = Program {
        expression: Expression::Term(Term::MemberAccess {
            expression: Box::new(ident("obj")),
            member: "field".to_string(),
        }),
    };
    assert_eq!(program, expected);
}

/// An input holding nothing but the end-of-stream sentinel fails term
/// parsing.
#[test]
fn test_empty_input_fails_term_parsing() {
    let expected = ParseError::UnexpectedToken {
        expected: "term".to_string(),
        found: "Eof".to_string(),
        message: "Unexpected token while parsing a term.".to_string(),
    };
    assert_eq!(error_of(""), expected);
    assert_eq!(error_of("   "), expected);
}

/// Tokenizing the empty input yields exactly one end-of-stream sentinel,
/// and trailing white space does not duplicate it.
#[test]
fn test_eof_sentinel_exactly_once() {
    assert_eq!(tokens_of(""), vec![Token::Eof]);
    assert_eq!(tokens_of("   "), vec![Token::Eof]);
    assert_eq!(
        tokens_of("x  "),
        vec![Token::Identifier("x".to_string()), Token::Eof]
    );
}

/// A fractional literal keeps its full text, and a trailing dot with no
/// fraction digits is still one numeric literal.
#[test]
fn test_number_lexemes() {
    assert_eq!(
        tokens_of("3.25"),
        vec![Token::Number("3.25".to_string()), Token::Eof]
    );
    assert_eq!(
        tokens_of("7."),
        vec![Token::Number("7.".to_string()), Token::Eof]
    );
    // A second dot cannot extend the literal: it becomes the dot token.
    assert_eq!(
        tokens_of("1.2.3"),
        vec![
            Token::Number("1.2".to_string()),
            Token::Dot,
            Token::Number("3".to_string()),
            Token::Eof,
        ]
    );
}

/// A keyword is recognized only as the whole identifier: a longer word
/// that merely starts with a keyword is one identifier.
#[test]
fn test_keyword_needs_word_boundary() {
    assert_eq!(
        tokens_of("lettuce"),
        vec![Token::Identifier("lettuce".to_string()), Token::Eof]
    );
    assert_eq!(
        tokens_of("let tuce"),
        vec![
            Token::Let,
            Token::Identifier("tuce".to_string()),
            Token::Eof,
        ]
    );
}

/// A lone `&` starts no token.
#[test]
fn test_single_ampersand_is_an_error() {
    let mut lexer = Lexer::new("a & b");
    let err = lexer.tokenize().unwrap_err();
    assert_eq!(
        err,
        ParseError::UnexpectedToken {
            expected: "valid token".to_string(),
            found: "&".to_string(),
            message: "Unexpected character".to_string(),
        }
    );
}

/// A lone `|` is the pipe token, and `=` alone is assignment.
#[test]
fn test_one_character_fallbacks() {
    assert_eq!(tokens_of("|"), vec![Token::Pipe, Token::Eof]);
    assert_eq!(tokens_of("="), vec![Token::Assign, Token::Eof]);
    assert_eq!(tokens_of("=="), vec![Token::Equal, Token::Eof]);
    assert_eq!(tokens_of("-"), vec![Token::Minus, Token::Eof]);
    assert_eq!(tokens_of("->"), vec![Token::Arrow, Token::Eof]);
}

/// A token list that ends without the sentinel runs out of tokens.
#[test]
fn test_exhausted_tokens_fail_with_eof_error() {
    let mut parser = Parser::new(vec![]);
    assert_eq!(parser.parse_program().unwrap_err(), ParseError::UnexpectedEOF);
}

/// A type-annotation position holding a name outside the known types
/// fails with the invalid-identifier error carrying that name.
#[test]
fn test_unknown_type_name() {
    assert_eq!(
        error_of("let x: Widget = 1 in x"),
        ParseError::InvalidIdentifier("Widget".to_string())
    );
}

/// A parenthesized function type nests to arbitrary depth.
#[test]
fn test_function_type_annotation() {
    let program = program_of("let f: (Int -> (Bool -> Float)) = g in f");
    let expected = Program {
        expression: Expression::LetExpr {
            identifier: "f".to_string(),
            type_annotation: Some(TypeAnnotation::Function(
                Box::new(TypeAnnotation::Int),
                Box::new(TypeAnnotation::Function(
                    Box::new(TypeAnnotation::Bool),
                    Box::new(TypeAnnotation::Float),
                )),
            )),
            value: Box::new(ident("g")),
            body: Box::new(ident("f")),
        },
    };
    assert_eq!(program, expected);
}

/// `f . g` at top level is function composition, left-associative.
#[test]
fn test_composition_chain() {
    let program = program_of("f . g . h");
    let inner = Expression::FunctionComposition(rdp::FunctionComposition {
        f: Box::new(ident("f")),
        g: Box::new(ident("g")),
    });
    let expected = Program {
        expression: Expression::FunctionComposition(rdp::FunctionComposition {
            f: Box::new(inner),
            g: Box::new(ident("h")),
        }),
    };
    assert_eq!(program, expected);
}

/// A missing `)` after a grouped expression names what stood there.
#[test]
fn test_unclosed_group() {
    assert_eq!(
        error_of("(x + 2"),
        ParseError::UnexpectedToken {
            expected: "RightParen".to_string(),
            found: "Eof".to_string(),
            message: "Expected ')' after expression".to_string(),
        }
    );
}

/// A `let` without `in` reports the expectation with its context message.
#[test]
fn test_let_without_in() {
    assert_eq!(
        error_of("let x = 1"),
        ParseError::UnexpectedToken {
            expected: "In".to_string(),
            found: "Eof".to_string(),
            message: "Expected 'in' in let expression".to_string(),
        }
    );
}

/// The user-visible rendering of errors.
#[test]
fn test_error_messages() {
    let e = ParseError::UnexpectedToken {
        expected: "term".to_string(),
        found: "Eof".to_string(),
        message: "Unexpected token while parsing a term.".to_string(),
    };
    assert_eq!(
        e.to_message(),
        "Unexpected token while parsing a term.: expected 'term', but found 'Eof'."
    );
    assert_eq!(ParseError::UnexpectedEOF.to_message(), "Unexpected end of file.");
    assert_eq!(
        ParseError::InvalidNumberFormat("1..2".to_string()).to_message(),
        "Invalid number format: '1..2'."
    );
    assert_eq!(
        ParseError::InvalidIdentifier("Widget".to_string()).to_message(),
        "Invalid identifier: 'Widget'."
    );
    assert_eq!(
        ParseError::UnterminatedString.to_message(),
        "Unterminated string literal."
    );
    assert_eq!(
        ParseError::MissingPatternMatchArm.to_message(),
        "Pattern match expression missing arms."
    );
    assert_eq!(ParseError::Other("boom".to_string()).to_message(), "Error: boom");
}

/// The wildcard parses as a term: an ordinary identifier named `_`.
#[test]
fn test_wildcard_term() {
    let program = program_of("f _");
    let expected = Program {
        expression: Expression::Application(vec![ident("f"), ident("_")]),
    };
    assert_eq!(program, expected);
}

/// The lexer's public cursor utilities.
#[test]
fn test_lexer_cursor_utilities() {
    let mut lexer = Lexer::new("ab");
    assert!(!lexer.is_at_end());
    assert_eq!(lexer.peek(), Some('a'));
    assert!(lexer.peek_keyword("ab"));
    assert!(lexer.peek_keyword("a"));
    assert!(!lexer.peek_keyword("abc"));
    assert!(!lexer.peek_keyword("b"));
    assert!(!lexer.match_char('b'));
    assert!(lexer.match_char('a'));
    assert_eq!(lexer.advance(), 'b');
    assert!(lexer.is_at_end());
    assert_eq!(lexer.peek(), None);
}

/// White space of several kinds separates tokens.
#[test]
fn test_whitespace_kinds() {
    assert_eq!(
        tokens_of("a\tb\nc\r\nd"),
        vec![
            Token::Identifier("a".to_string()),
            Token::Identifier("b".to_string()),
            Token::Identifier("c".to_string()),
            Token::Identifier("d".to_string()),
            Token::Eof,
        ]
    );
}

/// Grouped patterns nest inside match arms.
#[test]
fn test_grouped_pattern() {
    let program = program_of("match x with | ((1)) -> y");
    let expected = Program {
        expression: Expression::PatternMatch {
            expression: Box::new(ident("x")),
            arms: vec![rdp::MatchArm {
                pattern: rdp::Pattern::Grouped(Box::new(rdp::Pattern::Grouped(Box::new(
                    rdp::Pattern::Number("1".to_string()),
                )))),
                expression: Box::new(ident("y")),
            }],
        },
    };
    assert_eq!(program, expected);
}
