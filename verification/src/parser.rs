//! The recursive-descent parser: turns a token sequence into a syntax tree.
//!
//! The grammar is a strict precedence ladder, loosest to tightest; each
//! level is a function calling the next tighter level:
//!
//! * keyword-led forms: `let`, `if`, lambda, `match`;
//! * composition: `comparison ('.' comparison)*`, left-associative;
//! * comparison: `logic [('==' | '<' | '>') logic]`, non-chaining;
//! * logic: `arithmetic (('&&' | '||') arithmetic)*`, left-associative,
//!   AND and OR on one tier;
//! * arithmetic: `application (('+' | '-' | '*' | '/') application)*`,
//!   left-associative, all four operators on one tier;
//! * application: `term term*`, wrapped in an application node only when
//!   two or more terms stand next to each other;
//! * term: identifier, number, parenthesized form, lambda, or wildcard.
//!
//! The one genuine ambiguity, member access against grouping, is resolved
//! inside the parenthesized-term rule by a three-token lookahead: after
//! parsing the inner expression without composition, the exact sequence
//! `. identifier )` makes a member access, and anything else falls back to
//! ordinary grouping.
//!
//! Every rule exists twice: a specification-level function over the token
//! models, which is the rule's mathematical definition, and an executable
//! method whose contract says it returns exactly the specification's
//! result. A successful parse consumes at least one token and never moves
//! the cursor backwards; a handful of specification branches guard that
//! progress for termination and are never reached.

use vstd::prelude::*;
use crate::ast::{
    Program, ProgramView, Expression, ExpressionView, Term, TermView, MatchArm, MatchArmView,
    Pattern, PatternView, TypeAnnotation, ComparisonOperator, LogicOperator, ArithmeticOperator,
    FunctionComposition, FunctionCompositionView, view_exprs, view_term, view_arms,
    lemma_view_exprs_push, lemma_view_arms_push, lemma_view_exprs_len, lemma_view_arms_len,
    wf_expr, wf_exprs, wf_term, wf_arms,
};
use crate::error::{ParseError, ParseErrorView};
use crate::tokens::{Token, TokenView, view_token_seq, spec_token_text, token_eq, token_text};
use crate::chars::str_eq_str;

verus! {

/// The token under the cursor, if the cursor is in bounds.
pub open spec fn spec_current(t: Seq<TokenView>, i: int) -> Option<TokenView> {
    if 0 <= i < t.len() {
        Some(t[i])
    } else {
        None
    }
}

/// The token under the cursor, with the end-of-stream sentinel standing in
/// for a cursor out of bounds; used when rendering diagnostics.
pub open spec fn spec_current_or_eof(t: Seq<TokenView>, i: int) -> TokenView {
    if 0 <= i < t.len() {
        t[i]
    } else {
        TokenView::Eof
    }
}

/// Consuming one expected token: the cursor moves past it if it is there,
/// and anything else is an error naming the expectation, what was found,
/// and the caller's context message.
pub open spec fn spec_consume(
    t: Seq<TokenView>,
    i: int,
    expected: TokenView,
    msg: Seq<char>,
) -> Result<int, ParseErrorView> {
    if 0 <= i < t.len() && t[i] == expected {
        Ok(i + 1)
    } else {
        Err(
            ParseErrorView::UnexpectedToken {
                expected: spec_token_text(expected),
                found: spec_token_text(spec_current_or_eof(t, i)),
                message: msg,
            },
        )
    }
}

/// Consuming one identifier token, yielding its text.
pub open spec fn spec_parse_identifier(t: Seq<TokenView>, i: int) -> Result<
    (Seq<char>, int),
    ParseErrorView,
> {
    if 0 <= i < t.len() && t[i] is Identifier {
        Ok((t[i]->Identifier_0, i + 1))
    } else {
        Err(
            ParseErrorView::UnexpectedToken {
                expected: "identifier"@,
                found: if 0 <= i < t.len() {
                    spec_token_text(t[i])
                } else {
                    "EOF"@
                },
                message: "Expected an identifier"@,
            },
        )
    }
}

/// The comparison operator a token stands for, if any.
pub open spec fn spec_comparison_op(tok: TokenView) -> Option<ComparisonOperator> {
    match tok {
        TokenView::Equal => Some(ComparisonOperator::Equal),
        TokenView::LessThan => Some(ComparisonOperator::LessThan),
        TokenView::GreaterThan => Some(ComparisonOperator::GreaterThan),
        _ => None,
    }
}

/// The logic operator a token stands for, if any.
pub open spec fn spec_logic_op(tok: TokenView) -> Option<LogicOperator> {
    match tok {
        TokenView::And => Some(LogicOperator::And),
        TokenView::Or => Some(LogicOperator::Or),
        _ => None,
    }
}

/// The arithmetic operator a token stands for, if any.
pub open spec fn spec_arithmetic_op(tok: TokenView) -> Option<ArithmeticOperator> {
    match tok {
        TokenView::Plus => Some(ArithmeticOperator::Add),
        TokenView::Minus => Some(ArithmeticOperator::Subtract),
        TokenView::Star => Some(ArithmeticOperator::Multiply),
        TokenView::Slash => Some(ArithmeticOperator::Divide),
        _ => None,
    }
}

/// Whether a token can start a term. While scanning for application
/// arguments, a token continues the application exactly when this holds;
/// any operator, keyword, delimiter or the end of the stream stops it.
pub open spec fn spec_starts_term(tok: TokenView) -> bool {
    match tok {
        TokenView::Identifier(_) => true,
        TokenView::Number(_) => true,
        TokenView::LeftParen => true,
        TokenView::Wildcard => true,
        TokenView::Lambda => true,
        _ => false,
    }
}

/// Level 0, the expression entry point: a keyword-led form where one
/// leads, otherwise a comparison with composition applied to its result.
pub open spec fn spec_parse_expression(t: Seq<TokenView>, i: int) -> Result<
    (ExpressionView, int),
    ParseErrorView,
>
    decreases t.len() - i, 9int,
    when 0 <= i <= t.len()
{
    match spec_current(t, i) {
        Some(TokenView::Let) => spec_parse_let(t, i),
        Some(TokenView::If) => spec_parse_if(t, i),
        Some(TokenView::Lambda) => spec_parse_lambda(t, i),
        Some(TokenView::Match) => spec_parse_match(t, i),
        _ => match spec_parse_comparison(t, i) {
            Err(e) => Err(e),
            Ok((left, j)) => {
                if i < j <= t.len() {
                    spec_parse_composition(t, left, j)
                } else {
                    // never reached: a successful parse consumes a token
                    Err(ParseErrorView::UnexpectedEOF)
                }
            },
        },
    }
}

/// The expression entry point without composition: used inside parentheses
/// so that the member-access lookahead, not composition, decides what a
/// dot after the inner expression means.
pub open spec fn spec_parse_expression_nc(t: Seq<TokenView>, i: int) -> Result<
    (ExpressionView, int),
    ParseErrorView,
>
    decreases t.len() - i, 9int,
    when 0 <= i <= t.len()
{
    match spec_current(t, i) {
        Some(TokenView::Let) => spec_parse_let(t, i),
        Some(TokenView::If) => spec_parse_if(t, i),
        Some(TokenView::Lambda) => spec_parse_lambda(t, i),
        Some(TokenView::Match) => spec_parse_match(t, i),
        _ => spec_parse_comparison(t, i),
    }
}

/// `let IDENT [':' type] '=' expr 'in' expr`: the identifier is a literal
/// name, and omitting the type leaves the annotation unset.
pub open spec fn spec_parse_let(t: Seq<TokenView>, i: int) -> Result<
    (ExpressionView, int),
    ParseErrorView,
>
    decreases t.len() - i, 8int,
    when 0 <= i <= t.len()
{
    match spec_consume(t, i, TokenView::Let, "Expected 'let'"@) {
        Err(e) => Err(e),
        Ok(j1) => match spec_parse_identifier(t, j1) {
            Err(e) => Err(e),
            Ok((name, j2)) => {
                let ann_step = if j2 < t.len() && t[j2] == TokenView::Colon {
                    match spec_parse_type_annotation(t, j2 + 1) {
                        Err(e) => Err(e),
                        Ok((ty, j3)) => Ok((Some(ty), j3)),
                    }
                } else {
                    Ok((None::<TypeAnnotation>, j2))
                };
                match ann_step {
                    Err(e) => Err(e),
                    Ok((ann, j3)) => {
                        if j2 <= j3 <= t.len() {
                            match spec_consume(
                                t,
                                j3,
                                TokenView::Assign,
                                "Expected '=' in let expression"@,
                            ) {
                                Err(e) => Err(e),
                                Ok(j4) => match spec_parse_expression(t, j4) {
                                    Err(e) => Err(e),
                                    Ok((value, j5)) => {
                                        if j4 < j5 <= t.len() {
                                            match spec_consume(
                                                t,
                                                j5,
                                                TokenView::In,
                                                "Expected 'in' in let expression"@,
                                            ) {
                                                Err(e) => Err(e),
                                                Ok(j6) => match spec_parse_expression(t, j6) {
                                                    Err(e) => Err(e),
                                                    Ok((body, j7)) => Ok(
                                                        (
                                                            ExpressionView::LetExpr {
                                                                identifier: name,
                                                                type_annotation: ann,
                                                                value: Box::new(value),
                                                                body: Box::new(body),
                                                            },
                                                            j7,
                                                        ),
                                                    ),
                                                },
                                            }
                                        } else {
                                            // never reached: a successful parse consumes a token
                                            Err(ParseErrorView::UnexpectedEOF)
                                        }
                                    },
                                },
                            }
                        } else {
                            // never reached: a successful parse consumes a token
                            Err(ParseErrorView::UnexpectedEOF)
                        }
                    },
                }
            },
        },
    }
}

/// `if expr 'then' expr 'else' expr`: the `else` branch is mandatory, so
/// there is no dangling-else ambiguity.
pub open spec fn spec_parse_if(t: Seq<TokenView>, i: int) -> Result<
    (ExpressionView, int),
    ParseErrorView,
>
    decreases t.len() - i, 8int,
    when 0 <= i <= t.len()
{
    match spec_consume(t, i, TokenView::If, "Expected 'if'"@) {
        Err(e) => Err(e),
        Ok(j1) => match spec_parse_expression(t, j1) {
            Err(e) => Err(e),
            Ok((cond, j2)) => {
                if j1 < j2 <= t.len() {
                    match spec_consume(t, j2, TokenView::Then, "Expected 'then' after condition"@) {
                        Err(e) => Err(e),
                        Ok(j3) => match spec_parse_expression(t, j3) {
                            Err(e) => Err(e),
                            Ok((then_branch, j4)) => {
                                if j3 < j4 <= t.len() {
                                    match spec_consume(
                                        t,
                                        j4,
                                        TokenView::Else,
                                        "Expected 'else' after then branch"@,
                                    ) {
                                        Err(e) => Err(e),
                                        Ok(j5) => match spec_parse_expression(t, j5) {
                                            Err(e) => Err(e),
                                            Ok((else_branch, j6)) => Ok(
                                                (
                                                    ExpressionView::IfExpr {
                                                        condition: Box::new(cond),
                                                        then_branch: Box::new(then_branch),
                                                        else_branch: Box::new(else_branch),
                                                    },
                                                    j6,
                                                ),
                                            ),
                                        },
                                    }
                                } else {
                                    // never reached: a successful parse consumes a token
                                    Err(ParseErrorView::UnexpectedEOF)
                                }
                            },
                        },
                    }
                } else {
                    // never reached: a successful parse consumes a token
                    Err(ParseErrorView::UnexpectedEOF)
                }
            },
        },
    }
}

/// `'\' IDENT [':' type] '->' expr`: exactly one parameter; multi-argument
/// functions are written as nested lambdas. The body absorbs everything to
/// the right: a lambda is not self-delimiting.
pub open spec fn spec_parse_lambda(t: Seq<TokenView>, i: int) -> Result<
    (ExpressionView, int),
    ParseErrorView,
>
    decreases t.len() - i, 1int,
    when 0 <= i <= t.len()
{
    match spec_consume(t, i, TokenView::Lambda, "Expected '\\' for lambda"@) {
        Err(e) => Err(e),
        Ok(j1) => match spec_parse_identifier(t, j1) {
            Err(e) => Err(e),
            Ok((param, j2)) => {
                let ann_step = if j2 < t.len() && t[j2] == TokenView::Colon {
                    match spec_parse_type_annotation(t, j2 + 1) {
                        Err(e) => Err(e),
                        Ok((ty, j3)) => Ok((Some(ty), j3)),
                    }
                } else {
                    Ok((None::<TypeAnnotation>, j2))
                };
                match ann_step {
                    Err(e) => Err(e),
                    Ok((ann, j3)) => {
                        if j2 <= j3 <= t.len() {
                            match spec_consume(t, j3, TokenView::Arrow, "Expected '->' in lambda"@) {
                                Err(e) => Err(e),
                                Ok(j4) => match spec_parse_expression(t, j4) {
                                    Err(e) => Err(e),
                                    Ok((body, j5)) => Ok(
                                        (
                                            ExpressionView::Lambda {
                                                parameter: param,
                                                type_annotation: ann,
                                                body: Box::new(body),
                                            },
                                            j5,
                                        ),
                                    ),
                                },
                            }
                        } else {
                            // never reached: a successful parse consumes a token
                            Err(ParseErrorView::UnexpectedEOF)
                        }
                    },
                }
            },
        },
    }
}

/// `'match' expr 'with' ('|' pattern '->' expr)+`: at least one arm is
/// required, and zero arms is the distinct missing-arm error.
pub open spec fn spec_parse_match(t: Seq<TokenView>, i: int) -> Result<
    (ExpressionView, int),
    ParseErrorView,
>
    decreases t.len() - i, 8int,
    when 0 <= i <= t.len()
{
    match spec_consume(t, i, TokenView::Match, "Expected 'match'"@) {
        Err(e) => Err(e),
        Ok(j1) => match spec_parse_expression(t, j1) {
            Err(e) => Err(e),
            Ok((scrutinee, j2)) => {
                if j1 < j2 <= t.len() {
                    match spec_consume(t, j2, TokenView::With, "Expected 'with' in match"@) {
                        Err(e) => Err(e),
                        Ok(j3) => match spec_parse_arms(t, Seq::empty(), j3) {
                            Err(e) => Err(e),
                            Ok((arms, j4)) => {
                                if arms.len() == 0 {
                                    Err(ParseErrorView::MissingPatternMatchArm)
                                } else {
                                    Ok(
                                        (
                                            ExpressionView::PatternMatch {
                                                expression: Box::new(scrutinee),
                                                arms,
                                            },
                                            j4,
                                        ),
                                    )
                                }
                            },
                        },
                    }
                } else {
                    // never reached: a successful parse consumes a token
                    Err(ParseErrorView::UnexpectedEOF)
                }
            },
        },
    }
}

/// The arms of a `match`, gathered while a pipe leads each one.
pub open spec fn spec_parse_arms(t: Seq<TokenView>, acc: Seq<MatchArmView>, i: int) -> Result<
    (Seq<MatchArmView>, int),
    ParseErrorView,
>
    decreases t.len() - i, 8int,
    when 0 <= i <= t.len()
{
    if 0 <= i < t.len() && t[i] == TokenView::Pipe {
        match spec_parse_pattern(t, i + 1) {
            Err(e) => Err(e),
            Ok((pat, k)) => {
                if i + 1 <= k <= t.len() {
                    match spec_consume(t, k, TokenView::Arrow, "Expected '->' in match arm"@) {
                        Err(e) => Err(e),
                        Ok(k2) => match spec_parse_expression(t, k2) {
                            Err(e) => Err(e),
                            Ok((body, k3)) => {
                                if k2 < k3 <= t.len() {
                                    spec_parse_arms(
                                        t,
                                        acc.push(MatchArmView { pattern: pat, expression: body }),
                                        k3,
                                    )
                                } else {
                                    // never reached: a successful parse consumes a token
                                    Err(ParseErrorView::UnexpectedEOF)
                                }
                            },
                        },
                    }
                } else {
                    // never reached: a successful parse consumes a token
                    Err(ParseErrorView::UnexpectedEOF)
                }
            },
        }
    } else {
        Ok((acc, i))
    }
}

/// Level 2, comparison: `logic [('==' | '<' | '>') logic]`. At most one
/// operator is consumed: the level does not chain, so a second comparison
/// operator in sequence is left where it stands.
pub open spec fn spec_parse_comparison(t: Seq<TokenView>, i: int) -> Result<
    (ExpressionView, int),
    ParseErrorView,
>
    decreases t.len() - i, 7int,
    when 0 <= i <= t.len()
{
    match spec_parse_logic(t, i) {
        Err(e) => Err(e),
        Ok((left, j)) => {
            if 0 <= j < t.len() && spec_comparison_op(t[j]) is Some {
                let op = spec_comparison_op(t[j])->0;
                if i <= j {
                    match spec_parse_logic(t, j + 1) {
                        Err(e) => Err(e),
                        Ok((right, j2)) => Ok(
                            (
                                ExpressionView::Comparison {
                                    left: Box::new(left),
                                    operator: op,
                                    right: Some(Box::new(right)),
                                },
                                j2,
                            ),
                        ),
                    }
                } else {
                    // never reached: the cursor never moves backwards
                    Err(ParseErrorView::UnexpectedEOF)
                }
            } else {
                Ok((left, j))
            }
        },
    }
}

/// Level 1, composition: after a comparison, `('.' comparison)*` chains
/// left-associatively into nested composition nodes.
pub open spec fn spec_parse_composition(t: Seq<TokenView>, left: ExpressionView, i: int) -> Result<
    (ExpressionView, int),
    ParseErrorView,
>
    decreases t.len() - i, 7int,
    when 0 <= i <= t.len()
{
    if 0 <= i < t.len() && t[i] == TokenView::Dot {
        match spec_parse_comparison(t, i + 1) {
            Err(e) => Err(e),
            Ok((right, j)) => {
                let joined = ExpressionView::FunctionComposition(
                    FunctionCompositionView { f: Box::new(left), g: Box::new(right) },
                );
                if i < j <= t.len() {
                    spec_parse_composition(t, joined, j)
                } else {
                    // never reached: a successful parse consumes a token
                    Err(ParseErrorView::UnexpectedEOF)
                }
            },
        }
    } else {
        Ok((left, i))
    }
}

/// Level 3, logic: `arithmetic (('&&' | '||') arithmetic)*`,
/// left-associative, with AND and OR on one precedence tier.
pub open spec fn spec_parse_logic(t: Seq<TokenView>, i: int) -> Result<
    (ExpressionView, int),
    ParseErrorView,
>
    decreases t.len() - i, 6int,
    when 0 <= i <= t.len()
{
    match spec_parse_arithmetic(t, i) {
        Err(e) => Err(e),
        Ok((left, j)) => {
            if i < j <= t.len() {
                spec_parse_logic_rest(t, left, j)
            } else {
                // never reached: a successful parse consumes a token
                Err(ParseErrorView::UnexpectedEOF)
            }
        },
    }
}

/// The left-associative tail of the logic level.
pub open spec fn spec_parse_logic_rest(t: Seq<TokenView>, left: ExpressionView, i: int) -> Result<
    (ExpressionView, int),
    ParseErrorView,
>
    decreases t.len() - i, 6int,
    when 0 <= i <= t.len()
{
    if 0 <= i < t.len() && spec_logic_op(t[i]) is Some {
        let op = spec_logic_op(t[i])->0;
        match spec_parse_arithmetic(t, i + 1) {
            Err(e) => Err(e),
            Ok((right, j)) => {
                let joined = ExpressionView::Logic {
                    left: Box::new(left),
                    operator: op,
                    right: Some(Box::new(right)),
                };
                if i < j <= t.len() {
                    spec_parse_logic_rest(t, joined, j)
                } else {
                    // never reached: a successful parse consumes a token
                    Err(ParseErrorView::UnexpectedEOF)
                }
            },
        }
    } else {
        Ok((left, i))
    }
}

/// Level 4, arithmetic: `application (('+' | '-' | '*' | '/')
/// application)*`, left-associative, with all four operators on one tier.
pub open spec fn spec_parse_arithmetic(t: Seq<TokenView>, i: int) -> Result<
    (ExpressionView, int),
    ParseErrorView,
>
    decreases t.len() - i, 5int,
    when 0 <= i <= t.len()
{
    match spec_parse_application(t, i) {
        Err(e) => Err(e),
        Ok((left, j)) => {
            if i < j <= t.len() {
                spec_parse_arithmetic_rest(t, left, j)
            } else {
                // never reached: a successful parse consumes a token
                Err(ParseErrorView::UnexpectedEOF)
            }
        },
    }
}

/// The left-associative tail of the arithmetic level.
pub open spec fn spec_parse_arithmetic_rest(
    t: Seq<TokenView>,
    left: ExpressionView,
    i: int,
) -> Result<(ExpressionView, int), ParseErrorView>
    decreases t.len() - i, 5int,
    when 0 <= i <= t.len()
{
    if 0 <= i < t.len() && spec_arithmetic_op(t[i]) is Some {
        let op = spec_arithmetic_op(t[i])->0;
        match spec_parse_application(t, i + 1) {
            Err(e) => Err(e),
            Ok((right, j)) => {
                let joined = ExpressionView::Arithmetic {
                    left: Box::new(left),
                    operator: op,
                    right: Box::new(right),
                };
                if i < j <= t.len() {
                    spec_parse_arithmetic_rest(t, joined, j)
                } else {
                    // never reached: a successful parse consumes a token
                    Err(ParseErrorView::UnexpectedEOF)
                }
            },
        }
    } else {
        Ok((left, i))
    }
}

/// Level 5, application: `term term*`. Each further term is an argument of
/// the application; the application node exists only when two or more
/// terms were juxtaposed, and a single term stands for itself.
pub open spec fn spec_parse_application(t: Seq<TokenView>, i: int) -> Result<
    (ExpressionView, int),
    ParseErrorView,
>
    decreases t.len() - i, 4int,
    when 0 <= i <= t.len()
{
    match spec_parse_term(t, i) {
        Err(e) => Err(e),
        Ok((first, j)) => {
            if i < j <= t.len() {
                spec_parse_application_rest(t, seq![first], j)
            } else {
                // never reached: a successful parse consumes a token
                Err(ParseErrorView::UnexpectedEOF)
            }
        },
    }
}

/// The argument-gathering tail of the application level: a token continues
/// the application exactly when it can start a term.
pub open spec fn spec_parse_application_rest(
    t: Seq<TokenView>,
    items: Seq<ExpressionView>,
    i: int,
) -> Result<(ExpressionView, int), ParseErrorView>
    decreases t.len() - i, 4int,
    when 0 <= i <= t.len() && items.len() >= 1
{
    if 0 <= i < t.len() && spec_starts_term(t[i]) {
        match spec_parse_term(t, i) {
            Err(e) => Err(e),
            Ok((arg, j)) => {
                if i < j <= t.len() {
                    spec_parse_application_rest(t, items.push(arg), j)
                } else {
                    // never reached: a successful parse consumes a token
                    Err(ParseErrorView::UnexpectedEOF)
                }
            },
        }
    } else {
        if items.len() > 1 {
            Ok((ExpressionView::Application(items), i))
        } else {
            Ok((items.last(), i))
        }
    }
}

/// What follows the inner expression of a parenthesized term: the
/// three-token lookahead. The exact sequence `. identifier )` makes a
/// member access and consumes all three tokens; any other shape requires
/// a single `)` and makes a grouping.
pub open spec fn spec_parse_paren_rest(t: Seq<TokenView>, inner: ExpressionView, j: int) -> Result<
    (ExpressionView, int),
    ParseErrorView,
> {
    if 0 <= j && j + 2 < t.len() && t[j] == TokenView::Dot && t[j + 1] is Identifier && t[j + 2]
        == TokenView::RightParen {
        Ok(
            (
                ExpressionView::Term(
                    TermView::MemberAccess {
                        expression: Box::new(inner),
                        member: t[j + 1]->Identifier_0,
                    },
                ),
                j + 3,
            ),
        )
    } else {
        match spec_consume(t, j, TokenView::RightParen, "Expected ')' after expression"@) {
            Err(e) => Err(e),
            Ok(j2) => Ok(
                (ExpressionView::Term(TermView::GroupedExpression(Box::new(inner))), j2),
            ),
        }
    }
}

/// Level 6, term: an identifier, a number, a parenthesized form, a lambda,
/// or the wildcard, which is an ordinary identifier named `_`.
///
/// On `(`, the inner expression is parsed without composition, and the
/// next three tokens are inspected without being consumed: exactly
/// `. identifier )` makes a member access, and any other shape requires a
/// single `)` and yields a grouping. If the whole parenthesized form is
/// followed by further dots outside the parentheses, ordinary composition
/// still applies to the resulting term.
pub open spec fn spec_parse_term(t: Seq<TokenView>, i: int) -> Result<
    (ExpressionView, int),
    ParseErrorView,
>
    decreases t.len() - i, 2int,
    when 0 <= i <= t.len()
{
    match spec_current(t, i) {
        Some(TokenView::Identifier(name)) => Ok(
            (ExpressionView::Term(TermView::Identifier(name)), i + 1),
        ),
        Some(TokenView::Number(value)) => Ok(
            (ExpressionView::Term(TermView::Number(value)), i + 1),
        ),
        Some(TokenView::LeftParen) => match spec_parse_expression_nc(t, i + 1) {
            Err(e) => Err(e),
            Ok((inner, j)) => spec_parse_paren_rest(t, inner, j),
        },
        Some(TokenView::Lambda) => spec_parse_lambda(t, i),
        Some(TokenView::Wildcard) => Ok(
            (ExpressionView::Term(TermView::Identifier("_"@)), i + 1),
        ),
        Some(other) => Err(
            ParseErrorView::UnexpectedToken {
                expected: "term"@,
                found: spec_token_text(other),
                message: "Unexpected token while parsing a term."@,
            },
        ),
        None => Err(ParseErrorView::UnexpectedEOF),
    }
}

/// A pattern: an identifier, a number, or a parenthesized pattern nested
/// to arbitrary depth.
pub open spec fn spec_parse_pattern(t: Seq<TokenView>, i: int) -> Result<
    (PatternView, int),
    ParseErrorView,
>
    decreases t.len() - i,
    when 0 <= i <= t.len()
{
    match spec_current(t, i) {
        Some(TokenView::Identifier(name)) => Ok((PatternView::Identifier(name), i + 1)),
        Some(TokenView::Number(value)) => Ok((PatternView::Number(value), i + 1)),
        Some(TokenView::LeftParen) => match spec_parse_pattern(t, i + 1) {
            Err(e) => Err(e),
            Ok((inner, j)) => match spec_consume(
                t,
                j,
                TokenView::RightParen,
                "Expected ')' after pattern"@,
            ) {
                Err(e) => Err(e),
                Ok(j2) => Ok((PatternView::Grouped(Box::new(inner)), j2)),
            },
        },
        Some(other) => Err(
            ParseErrorView::UnexpectedToken {
                expected: "pattern"@,
                found: spec_token_text(other),
                message: "Unexpected token while parsing a pattern."@,
            },
        ),
        None => Err(ParseErrorView::UnexpectedEOF),
    }
}

/// A type annotation: one of the primitive names `Int`, `Bool`, `String`
/// and `Float`, or a parenthesized function type `'(' type '->' type ')'`
/// nested to arbitrary depth. Any other name in a type position is the
/// invalid-identifier error.
pub open spec fn spec_parse_type_annotation(t: Seq<TokenView>, i: int) -> Result<
    (TypeAnnotation, int),
    ParseErrorView,
>
    decreases t.len() - i,
    when 0 <= i <= t.len()
{
    match spec_current(t, i) {
        Some(TokenView::Identifier(name)) => {
            if name == "Int"@ {
                Ok((TypeAnnotation::Int, i + 1))
            } else if name == "Bool"@ {
                Ok((TypeAnnotation::Bool, i + 1))
            } else if name == "String"@ {
                Ok((TypeAnnotation::String, i + 1))
            } else if name == "Float"@ {
                Ok((TypeAnnotation::Float, i + 1))
            } else {
                Err(ParseErrorView::InvalidIdentifier(name))
            }
        },
        Some(TokenView::LeftParen) => match spec_parse_type_annotation(t, i + 1) {
            Err(e) => Err(e),
            Ok((from_ty, j)) => {
                if i < j <= t.len() {
                    match spec_consume(t, j, TokenView::Arrow, "Expected '->' in function type"@) {
                        Err(e) => Err(e),
                        Ok(j2) => match spec_parse_type_annotation(t, j2) {
                            Err(e) => Err(e),
                            Ok((to_ty, j3)) => match spec_consume(
                                t,
                                j3,
                                TokenView::RightParen,
                                "Expected ')' in function type"@,
                            ) {
                                Err(e) => Err(e),
                                Ok(j4) => Ok(
                                    (
                                        TypeAnnotation::Function(
                                            Box::new(from_ty),
                                            Box::new(to_ty),
                                        ),
                                        j4,
                                    ),
                                ),
                            },
                        },
                    }
                } else {
                    // never reached: a successful parse consumes a token
                    Err(ParseErrorView::UnexpectedEOF)
                }
            },
        },
        Some(other) => Err(
            ParseErrorView::UnexpectedToken {
                expected: "type annotation"@,
                found: spec_token_text(other),
                message: "Expected a type annotation"@,
            },
        ),
        None => Err(ParseErrorView::UnexpectedEOF),
    }
}

/// A whole program: one top-level expression. Tokens after the parsed
/// expression are left unconsumed and ignored.
pub open spec fn spec_parse_program(t: Seq<TokenView>, i: int) -> Result<
    ProgramView,
    ParseErrorView,
>
    recommends
        0 <= i <= t.len(),
{
    match spec_parse_expression(t, i) {
        Err(e) => Err(e),
        Ok((e, _j)) => Ok(ProgramView { expression: e }),
    }
}

/// Every syntax tree the expression entry point yields satisfies the
/// structural invariants [`wf_expr`].
pub proof fn lemma_wf_parse_expression(t: Seq<TokenView>, i: int)
    requires
        0 <= i <= t.len(),
    ensures
        spec_parse_expression(t, i) matches Ok((e, j)) ==> wf_expr(e),
    decreases t.len() - i, 9int,
{
    match spec_current(t, i) {
        Some(TokenView::Let) => lemma_wf_parse_let(t, i),
        Some(TokenView::If) => lemma_wf_parse_if(t, i),
        Some(TokenView::Lambda) => lemma_wf_parse_lambda(t, i),
        Some(TokenView::Match) => lemma_wf_parse_match(t, i),
        _ => {
            lemma_wf_parse_comparison(t, i);
            match spec_parse_comparison(t, i) {
                Err(_) => {},
                Ok((left, j)) => {
                    if i < j <= t.len() {
                        lemma_wf_parse_composition(t, left, j);
                    }
                },
            }
        },
    }
}

/// See [`lemma_wf_parse_expression`].
pub proof fn lemma_wf_parse_expression_nc(t: Seq<TokenView>, i: int)
    requires
        0 <= i <= t.len(),
    ensures
        spec_parse_expression_nc(t, i) matches Ok((e, j)) ==> wf_expr(e),
    decreases t.len() - i, 9int,
{
    match spec_current(t, i) {
        Some(TokenView::Let) => lemma_wf_parse_let(t, i),
        Some(TokenView::If) => lemma_wf_parse_if(t, i),
        Some(TokenView::Lambda) => lemma_wf_parse_lambda(t, i),
        Some(TokenView::Match) => lemma_wf_parse_match(t, i),
        _ => lemma_wf_parse_comparison(t, i),
    }
}

/// See [`lemma_wf_parse_expression`].
pub proof fn lemma_wf_parse_let(t: Seq<TokenView>, i: int)
    requires
        0 <= i <= t.len(),
    ensures
        spec_parse_let(t, i) matches Ok((e, j)) ==> wf_expr(e),
    decreases t.len() - i, 8int,
{
    match spec_consume(t, i, TokenView::Let, "Expected 'let'"@) {
        Err(_) => {},
        Ok(j1) => match spec_parse_identifier(t, j1) {
            Err(_) => {},
            Ok((name, j2)) => {
                let ann_step = if j2 < t.len() && t[j2] == TokenView::Colon {
                    match spec_parse_type_annotation(t, j2 + 1) {
                        Err(e) => Err(e),
                        Ok((ty, j3)) => Ok((Some(ty), j3)),
                    }
                } else {
                    Ok((None::<TypeAnnotation>, j2))
                };
                match ann_step {
                    Err(_) => {},
                    Ok((ann, j3)) => {
                        if j2 <= j3 <= t.len() {
                            match spec_consume(
                                t,
                                j3,
                                TokenView::Assign,
                                "Expected '=' in let expression"@,
                            ) {
                                Err(_) => {},
                                Ok(j4) => {
                                    lemma_wf_parse_expression(t, j4);
                                    match spec_parse_expression(t, j4) {
                                        Err(_) => {},
                                        Ok((value, j5)) => {
                                            if j4 < j5 <= t.len() {
                                                match spec_consume(
                                                    t,
                                                    j5,
                                                    TokenView::In,
                                                    "Expected 'in' in let expression"@,
                                                ) {
                                                    Err(_) => {},
                                                    Ok(j6) => {
                                                        lemma_wf_parse_expression(t, j6);
                                                    },
                                                }
                                            }
                                        },
                                    }
                                },
                            }
                        }
                    },
                }
            },
        },
    }
}

/// See [`lemma_wf_parse_expression`].
pub proof fn lemma_wf_parse_if(t: Seq<TokenView>, i: int)
    requires
        0 <= i <= t.len(),
    ensures
        spec_parse_if(t, i) matches Ok((e, j)) ==> wf_expr(e),
    decreases t.len() - i, 8int,
{
    match spec_consume(t, i, TokenView::If, "Expected 'if'"@) {
        Err(_) => {},
        Ok(j1) => {
            lemma_wf_parse_expression(t, j1);
            match spec_parse_expression(t, j1) {
                Err(_) => {},
                Ok((cond, j2)) => {
                    if j1 < j2 <= t.len() {
                        match spec_consume(
                            t,
                            j2,
                            TokenView::Then,
                            "Expected 'then' after condition"@,
                        ) {
                            Err(_) => {},
                            Ok(j3) => {
                                lemma_wf_parse_expression(t, j3);
                                match spec_parse_expression(t, j3) {
                                    Err(_) => {},
                                    Ok((then_branch, j4)) => {
                                        if j3 < j4 <= t.len() {
                                            match spec_consume(
                                                t,
                                                j4,
                                                TokenView::Else,
                                                "Expected 'else' after then branch"@,
                                            ) {
                                                Err(_) => {},
                                                Ok(j5) => {
                                                    lemma_wf_parse_expression(t, j5);
                                                },
                                            }
                                        }
                                    },
                                }
                            },
                        }
                    }
                },
            }
        },
    }
}

/// See [`lemma_wf_parse_expression`].
pub proof fn lemma_wf_parse_lambda(t: Seq<TokenView>, i: int)
    requires
        0 <= i <= t.len(),
    ensures
        spec_parse_lambda(t, i) matches Ok((e, j)) ==> wf_expr(e),
    decreases t.len() - i, 1int,
{
    match spec_consume(t, i, TokenView::Lambda, "Expected '\\' for lambda"@) {
        Err(_) => {},
        Ok(j1) => match spec_parse_identifier(t, j1) {
            Err(_) => {},
            Ok((param, j2)) => {
                let ann_step = if j2 < t.len() && t[j2] == TokenView::Colon {
                    match spec_parse_type_annotation(t, j2 + 1) {
                        Err(e) => Err(e),
                        Ok((ty, j3)) => Ok((Some(ty), j3)),
                    }
                } else {
                    Ok((None::<TypeAnnotation>, j2))
                };
                match ann_step {
                    Err(_) => {},
                    Ok((ann, j3)) => {
                        if j2 <= j3 <= t.len() {
                            match spec_consume(t, j3, TokenView::Arrow, "Expected '->' in lambda"@) {
                                Err(_) => {},
                                Ok(j4) => {
                                    lemma_wf_parse_expression(t, j4);
                                },
                            }
                        }
                    },
                }
            },
        },
    }
}

/// See [`lemma_wf_parse_expression`].
pub proof fn lemma_wf_parse_match(t: Seq<TokenView>, i: int)
    requires
        0 <= i <= t.len(),
    ensures
        spec_parse_match(t, i) matches Ok((e, j)) ==> wf_expr(e),
    decreases t.len() - i, 8int,
{
    match spec_consume(t, i, TokenView::Match, "Expected 'match'"@) {
        Err(_) => {},
        Ok(j1) => {
            lemma_wf_parse_expression(t, j1);
            match spec_parse_expression(t, j1) {
                Err(_) => {},
                Ok((scrutinee, j2)) => {
                    if j1 < j2 <= t.len() {
                        match spec_consume(t, j2, TokenView::With, "Expected 'with' in match"@) {
                            Err(_) => {},
                            Ok(j3) => {
                                lemma_wf_parse_arms(t, Seq::empty(), j3);
                            },
                        }
                    }
                },
            }
        },
    }
}

/// See [`lemma_wf_parse_expression`]: arms gathered from well-formed ones
/// stay well-formed.
pub proof fn lemma_wf_parse_arms(t: Seq<TokenView>, acc: Seq<MatchArmView>, i: int)
    requires
        0 <= i <= t.len(),
        wf_arms(acc),
    ensures
        spec_parse_arms(t, acc, i) matches Ok((arms, j)) ==> wf_arms(arms),
    decreases t.len() - i, 8int,
{
    if 0 <= i < t.len() && t[i] == TokenView::Pipe {
        match spec_parse_pattern(t, i + 1) {
            Err(_) => {},
            Ok((pat, k)) => {
                if i + 1 <= k <= t.len() {
                    match spec_consume(t, k, TokenView::Arrow, "Expected '->' in match arm"@) {
                        Err(_) => {},
                        Ok(k2) => {
                            lemma_wf_parse_expression(t, k2);
                            match spec_parse_expression(t, k2) {
                                Err(_) => {},
                                Ok((body, k3)) => {
                                    if k2 < k3 <= t.len() {
                                        let arm = MatchArmView { pattern: pat, expression: body };
                                        assert(acc.push(arm).drop_last() =~= acc);
                                        assert(wf_arms(acc.push(arm)));
                                        lemma_wf_parse_arms(t, acc.push(arm), k3);
                                    }
                                },
                            }
                        },
                    }
                }
            },
        }
    }
}

/// See [`lemma_wf_parse_expression`].
pub proof fn lemma_wf_parse_comparison(t: Seq<TokenView>, i: int)
    requires
        0 <= i <= t.len(),
    ensures
        spec_parse_comparison(t, i) matches Ok((e, j)) ==> wf_expr(e),
    decreases t.len() - i, 7int,
{
    lemma_wf_parse_logic(t, i);
    match spec_parse_logic(t, i) {
        Err(_) => {},
        Ok((left, j)) => {
            if 0 <= j < t.len() && spec_comparison_op(t[j]) is Some {
                if i <= j {
                    lemma_wf_parse_logic(t, j + 1);
                }
            }
        },
    }
}

/// See [`lemma_wf_parse_expression`]: composition applied to a
/// well-formed operand stays well-formed.
pub proof fn lemma_wf_parse_composition(t: Seq<TokenView>, left: ExpressionView, i: int)
    requires
        0 <= i <= t.len(),
        wf_expr(left),
    ensures
        spec_parse_composition(t, left, i) matches Ok((e, j)) ==> wf_expr(e),
    decreases t.len() - i, 7int,
{
    if 0 <= i < t.len() && t[i] == TokenView::Dot {
        lemma_wf_parse_comparison(t, i + 1);
        match spec_parse_comparison(t, i + 1) {
            Err(_) => {},
            Ok((right, j)) => {
                let joined = ExpressionView::FunctionComposition(
                    FunctionCompositionView { f: Box::new(left), g: Box::new(right) },
                );
                if i < j <= t.len() {
                    lemma_wf_parse_composition(t, joined, j);
                }
            },
        }
    }
}

/// See [`lemma_wf_parse_expression`].
pub proof fn lemma_wf_parse_logic(t: Seq<TokenView>, i: int)
    requires
        0 <= i <= t.len(),
    ensures
        spec_parse_logic(t, i) matches Ok((e, j)) ==> wf_expr(e),
    decreases t.len() - i, 6int,
{
    lemma_wf_parse_arithmetic(t, i);
    match spec_parse_arithmetic(t, i) {
        Err(_) => {},
        Ok((left, j)) => {
            if i < j <= t.len() {
                lemma_wf_parse_logic_rest(t, left, j);
            }
        },
    }
}

/// See [`lemma_wf_parse_expression`].
pub proof fn lemma_wf_parse_logic_rest(t: Seq<TokenView>, left: ExpressionView, i: int)
    requires
        0 <= i <= t.len(),
        wf_expr(left),
    ensures
        spec_parse_logic_rest(t, left, i) matches Ok((e, j)) ==> wf_expr(e),
    decreases t.len() - i, 6int,
{
    if 0 <= i < t.len() && spec_logic_op(t[i]) is Some {
        let op = spec_logic_op(t[i])->0;
        lemma_wf_parse_arithmetic(t, i + 1);
        match spec_parse_arithmetic(t, i + 1) {
            Err(_) => {},
            Ok((right, j)) => {
                let joined = ExpressionView::Logic {
                    left: Box::new(left),
                    operator: op,
                    right: Some(Box::new(right)),
                };
                if i < j <= t.len() {
                    lemma_wf_parse_logic_rest(t, joined, j);
                }
            },
        }
    }
}

/// See [`lemma_wf_parse_expression`].
pub proof fn lemma_wf_parse_arithmetic(t: Seq<TokenView>, i: int)
    requires
        0 <= i <= t.len(),
    ensures
        spec_parse_arithmetic(t, i) matches Ok((e, j)) ==> wf_expr(e),
    decreases t.len() - i, 5int,
{
    lemma_wf_parse_application(t, i);
    match spec_parse_application(t, i) {
        Err(_) => {},
        Ok((left, j)) => {
            if i < j <= t.len() {
                lemma_wf_parse_arithmetic_rest(t, left, j);
            }
        },
    }
}

/// See [`lemma_wf_parse_expression`].
pub proof fn lemma_wf_parse_arithmetic_rest(t: Seq<TokenView>, left: ExpressionView, i: int)
    requires
        0 <= i <= t.len(),
        wf_expr(left),
    ensures
        spec_parse_arithmetic_rest(t, left, i) matches Ok((e, j)) ==> wf_expr(e),
    decreases t.len() - i, 5int,
{
    if 0 <= i < t.len() && spec_arithmetic_op(t[i]) is Some {
        let op = spec_arithmetic_op(t[i])->0;
        lemma_wf_parse_application(t, i + 1);
        match spec_parse_application(t, i + 1) {
            Err(_) => {},
            Ok((right, j)) => {
                let joined = ExpressionView::Arithmetic {
                    left: Box::new(left),
                    operator: op,
                    right: Box::new(right),
                };
                if i < j <= t.len() {
                    lemma_wf_parse_arithmetic_rest(t, joined, j);
                }
            },
        }
    }
}

/// See [`lemma_wf_parse_expression`].
pub proof fn lemma_wf_parse_application(t: Seq<TokenView>, i: int)
    requires
        0 <= i <= t.len(),
    ensures
        spec_parse_application(t, i) matches Ok((e, j)) ==> wf_expr(e),
    decreases t.len() - i, 4int,
{
    lemma_wf_parse_term(t, i);
    match spec_parse_term(t, i) {
        Err(_) => {},
        Ok((first, j)) => {
            if i < j <= t.len() {
                assert(seq![first].len() == 1);
                assert(seq![first].last() == first);
                assert(seq![first].drop_last() =~= Seq::<ExpressionView>::empty());
                assert(wf_exprs(Seq::<ExpressionView>::empty()));
                assert(wf_exprs(seq![first]));
                lemma_wf_parse_application_rest(t, seq![first], j);
            }
        },
    }
}

/// See [`lemma_wf_parse_expression`]: arguments gathered onto well-formed
/// expressions stay well-formed.
pub proof fn lemma_wf_parse_application_rest(t: Seq<TokenView>, items: Seq<ExpressionView>, i: int)
    requires
        0 <= i <= t.len(),
        items.len() >= 1,
        wf_exprs(items),
    ensures
        spec_parse_application_rest(t, items, i) matches Ok((e, j)) ==> wf_expr(e),
    decreases t.len() - i, 4int,
{
    if 0 <= i < t.len() && spec_starts_term(t[i]) {
        lemma_wf_parse_term(t, i);
        match spec_parse_term(t, i) {
            Err(_) => {},
            Ok((arg, j)) => {
                if i < j <= t.len() {
                    assert(items.push(arg).drop_last() =~= items);
                    assert(wf_exprs(items.push(arg)));
                    lemma_wf_parse_application_rest(t, items.push(arg), j);
                }
            },
        }
    }
}

/// See [`lemma_wf_parse_expression`].
pub proof fn lemma_wf_parse_term(t: Seq<TokenView>, i: int)
    requires
        0 <= i <= t.len(),
    ensures
        spec_parse_term(t, i) matches Ok((e, j)) ==> wf_expr(e),
    decreases t.len() - i, 2int,
{
    match spec_current(t, i) {
        Some(TokenView::Identifier(name)) => {
            assert(wf_term(TermView::Identifier(name)));
        },
        Some(TokenView::Number(value)) => {
            assert(wf_term(TermView::Number(value)));
        },
        Some(TokenView::LeftParen) => {
            lemma_wf_parse_expression_nc(t, i + 1);
            match spec_parse_expression_nc(t, i + 1) {
                Err(_) => {},
                Ok((inner, j)) => {
                    lemma_wf_parse_paren_rest(t, inner, j);
                },
            }
        },
        Some(TokenView::Lambda) => {
            lemma_wf_parse_lambda(t, i);
        },
        Some(TokenView::Wildcard) => {
            assert(wf_term(TermView::Identifier("_"@)));
        },
        _ => {},
    }
}

/// See [`lemma_wf_parse_expression`]: both outcomes of the parenthesized
/// lookahead keep a well-formed inner expression well-formed.
pub proof fn lemma_wf_parse_paren_rest(t: Seq<TokenView>, inner: ExpressionView, j: int)
    requires
        wf_expr(inner),
    ensures
        spec_parse_paren_rest(t, inner, j) matches Ok((e, k)) ==> wf_expr(e),
{
    if 0 <= j && j + 2 < t.len() && t[j] == TokenView::Dot && t[j + 1] is Identifier && t[j + 2]
        == TokenView::RightParen {
        assert(wf_term(
            TermView::MemberAccess {
                expression: Box::new(inner),
                member: t[j + 1]->Identifier_0,
            },
        ));
    } else {
        assert(wf_term(TermView::GroupedExpression(Box::new(inner))));
    }
}

/// Every syntax tree the parser yields satisfies the structural
/// invariants: everywhere in the tree, an application node holds two or
/// more expressions, and a match holds at least one arm.
pub proof fn lemma_parse_program_wf(t: Seq<TokenView>, i: int)
    requires
        0 <= i <= t.len(),
    ensures
        spec_parse_program(t, i) matches Ok(p) ==> wf_expr(p.expression),
{
    lemma_wf_parse_expression(t, i);
}

/// A successful term parse yields a terminal or a lambda, never an
/// operator node.
pub proof fn lemma_term_shape(t: Seq<TokenView>, i: int)
    requires
        0 <= i <= t.len(),
    ensures
        spec_parse_term(t, i) matches Ok((e, j)) ==> (e is Term || e is Lambda),
{
}

/// A successful parse at the application level yields an application
/// node, a terminal, or a lambda; its tail yields one of those or the
/// last expression already gathered.
pub proof fn lemma_application_rest_shape(t: Seq<TokenView>, items: Seq<ExpressionView>, i: int)
    requires
        0 <= i <= t.len(),
        items.len() >= 1,
    ensures
        spec_parse_application_rest(t, items, i) matches Ok((e, j)) ==> (e is Application || e
            == items.last() || e is Term || e is Lambda),
    decreases t.len() - i,
{
    if 0 <= i < t.len() && spec_starts_term(t[i]) {
        match spec_parse_term(t, i) {
            Err(_) => {},
            Ok((arg, j)) => {
                lemma_term_shape(t, i);
                if i < j <= t.len() {
                    lemma_application_rest_shape(t, items.push(arg), j);
                    assert(items.push(arg).last() == arg);
                }
            },
        }
    }
}

/// See [`lemma_application_rest_shape`].
pub proof fn lemma_application_shape(t: Seq<TokenView>, i: int)
    requires
        0 <= i <= t.len(),
    ensures
        spec_parse_application(t, i) matches Ok((e, j)) ==> (e is Application || e is Term
            || e is Lambda),
{
    match spec_parse_term(t, i) {
        Err(_) => {},
        Ok((first, j)) => {
            lemma_term_shape(t, i);
            if i < j <= t.len() {
                lemma_application_rest_shape(t, seq![first], j);
                assert(seq![first].last() == first);
            }
        },
    }
}

/// The arithmetic level yields an arithmetic node or what the application
/// level yields; its tail yields one of those or the expression already
/// gathered.
pub proof fn lemma_arithmetic_rest_shape(t: Seq<TokenView>, left: ExpressionView, i: int)
    requires
        0 <= i <= t.len(),
    ensures
        spec_parse_arithmetic_rest(t, left, i) matches Ok((e, j)) ==> (e is Arithmetic || e
            == left),
    decreases t.len() - i,
{
    if 0 <= i < t.len() && spec_arithmetic_op(t[i]) is Some {
        let op = spec_arithmetic_op(t[i])->0;
        match spec_parse_application(t, i + 1) {
            Err(_) => {},
            Ok((right, j)) => {
                let joined = ExpressionView::Arithmetic {
                    left: Box::new(left),
                    operator: op,
                    right: Box::new(right),
                };
                if i < j <= t.len() {
                    lemma_arithmetic_rest_shape(t, joined, j);
                }
            },
        }
    }
}

/// See [`lemma_arithmetic_rest_shape`].
pub proof fn lemma_arithmetic_shape(t: Seq<TokenView>, i: int)
    requires
        0 <= i <= t.len(),
    ensures
        spec_parse_arithmetic(t, i) matches Ok((e, j)) ==> (e is Arithmetic || e is Application
            || e is Term || e is Lambda),
{
    match spec_parse_application(t, i) {
        Err(_) => {},
        Ok((left, j)) => {
            lemma_application_shape(t, i);
            if i < j <= t.len() {
                lemma_arithmetic_rest_shape(t, left, j);
            }
        },
    }
}

/// The logic level yields a logic node or what the arithmetic level
/// yields; in particular, never a comparison node.
pub proof fn lemma_logic_rest_shape(t: Seq<TokenView>, left: ExpressionView, i: int)
    requires
        0 <= i <= t.len(),
    ensures
        spec_parse_logic_rest(t, left, i) matches Ok((e, j)) ==> (e is Logic || e == left),
    decreases t.len() - i,
{
    if 0 <= i < t.len() && spec_logic_op(t[i]) is Some {
        let op = spec_logic_op(t[i])->0;
        match spec_parse_arithmetic(t, i + 1) {
            Err(_) => {},
            Ok((right, j)) => {
                let joined = ExpressionView::Logic {
                    left: Box::new(left),
                    operator: op,
                    right: Some(Box::new(right)),
                };
                if i < j <= t.len() {
                    lemma_logic_rest_shape(t, joined, j);
                }
            },
        }
    }
}

/// See [`lemma_logic_rest_shape`]: the logic level never yields a
/// comparison node.
pub proof fn lemma_logic_shape(t: Seq<TokenView>, i: int)
    requires
        0 <= i <= t.len(),
    ensures
        spec_parse_logic(t, i) matches Ok((e, j)) ==> !(e is Comparison),
{
    match spec_parse_arithmetic(t, i) {
        Err(_) => {},
        Ok((left, j)) => {
            lemma_arithmetic_shape(t, i);
            if i < j <= t.len() {
                lemma_logic_rest_shape(t, left, j);
            }
        },
    }
}

/// Comparison does not chain: at most one comparison operator is consumed
/// at the comparison level, so the expression that level yields is never
/// a comparison whose left side is itself a comparison. A second
/// comparison operator in sequence is left where it stands.
pub proof fn lemma_comparison_non_chaining(t: Seq<TokenView>, i: int)
    requires
        0 <= i <= t.len(),
    ensures
        spec_parse_comparison(t, i) matches Ok((e, j)) ==> match e {
            ExpressionView::Comparison { left, operator, right } => !(*left is Comparison),
            _ => true,
        },
{
    lemma_logic_shape(t, i);
}

/// What each parsing rule promises of its result: exactly the
/// specification-level rule's outcome, and on success a cursor that moved
/// forward past at least one token and stayed within the stream.
pub open spec fn step_matches<A: View>(
    r: Result<(A, usize), ParseError>,
    sr: Result<(A::V, int), ParseErrorView>,
    i: int,
    n: int,
) -> bool {
    match (r, sr) {
        (Ok((a, j)), Ok((av, jv))) => a@ == av && j as int == jv && i < j <= n,
        (Err(e), Err(ev)) => e@ == ev,
        _ => false,
    }
}

/// What the tail rules (the left-associative operator loops) promise: the
/// specification-level outcome, with a cursor that never moves backwards
/// but may stand still when no operator follows.
pub open spec fn tail_matches<A: View>(
    r: Result<(A, usize), ParseError>,
    sr: Result<(A::V, int), ParseErrorView>,
    i: int,
    n: int,
) -> bool {
    match (r, sr) {
        (Ok((a, j)), Ok((av, jv))) => a@ == av && j as int == jv && i <= j <= n,
        (Err(e), Err(ev)) => e@ == ev,
        _ => false,
    }
}

/// Executable check for [`spec_starts_term`].
fn starts_term_token(tok: &Token) -> (r: bool)
    ensures
        r == spec_starts_term(tok@),
{
    match tok {
        Token::Identifier(_) => true,
        Token::Number(_) => true,
        Token::LeftParen => true,
        Token::Wildcard => true,
        Token::Lambda => true,
        _ => false,
    }
}

/// The parser: a token list and a cursor over it. The parser steps through
/// the tokens, building the syntax tree when the stream conforms to the
/// grammar and returning the first error otherwise.
pub struct Parser {
    tokens: Vec<Token>,
    current: usize,
}

impl Parser {
    /// The models of the tokens the parser walks.
    pub closed spec fn toks(&self) -> Seq<TokenView> {
        view_token_seq(self.tokens@)
    }

    /// The cursor position.
    pub closed spec fn pos(&self) -> int {
        self.current as int
    }

    /// The cursor never stands past the end of the token list.
    pub closed spec fn wf(&self) -> bool {
        self.current <= self.tokens.len()
    }

    /// Creates a new parser over the given tokens, with the cursor at the
    /// start.
    pub fn new(tokens: Vec<Token>) -> (p: Parser)
        ensures
            p.wf(),
            p.toks() == view_token_seq(tokens@),
            p.pos() == 0,
    {
        Parser { tokens, current: 0 }
    }

    /// Parses the entire token stream as a single program: one top-level
    /// expression. Tokens after that expression are left unconsumed and
    /// ignored, as [`spec_parse_program`] states.
    pub fn parse_program(&mut self) -> (r: Result<Program, ParseError>)
        requires
            old(self).wf(),
        ensures
            final(self).wf(),
            match (r, spec_parse_program(old(self).toks(), old(self).pos())) {
                (Ok(p), Ok(pv)) => p@ == pv,
                (Err(e), Err(ev)) => e@ == ev,
                _ => false,
            },
    {
        match self.parse_expression(self.current) {
            Err(e) => Err(e),
            Ok((expression, j)) => {
                self.current = j;
                Ok(Program { expression })
            },
        }
    }

    /// Consumes the expected token at `i`, or reports what stood there.
    fn consume_token(&self, i: usize, expected: &Token, msg: &str) -> (r: Result<
        usize,
        ParseError,
    >)
        requires
            i <= self.tokens.len(),
        ensures
            match (r, spec_consume(self.toks(), i as int, expected@, msg@)) {
                (Ok(j), Ok(jv)) => j as int == jv && i < j <= self.toks().len(),
                (Err(e), Err(ev)) => e@ == ev,
                _ => false,
            },
    {
        if i < self.tokens.len() && token_eq(&self.tokens[i], expected) {
            Ok(i + 1)
        } else {
            let found = if i < self.tokens.len() {
                token_text(&self.tokens[i])
            } else {
                token_text(&Token::Eof)
            };
            Err(
                ParseError::UnexpectedToken {
                    expected: token_text(expected),
                    found,
                    message: String::from_str(msg),
                },
            )
        }
    }

    /// Takes the identifier at `i`, yielding its text.
    fn parse_identifier(&self, i: usize) -> (r: Result<(String, usize), ParseError>)
        requires
            i <= self.tokens.len(),
        ensures
            step_matches(
                r,
                spec_parse_identifier(self.toks(), i as int),
                i as int,
                self.toks().len() as int,
            ),
    {
        if i < self.tokens.len() {
            if let Token::Identifier(name) = &self.tokens[i] {
                return Ok((name.clone(), i + 1));
            }
        }
        let found = if i < self.tokens.len() {
            token_text(&self.tokens[i])
        } else {
            String::from_str("EOF")
        };
        Err(
            ParseError::UnexpectedToken {
                expected: String::from_str("identifier"),
                found,
                message: String::from_str("Expected an identifier"),
            },
        )
    }

    /// Level 0: the expression entry point.
    fn parse_expression(&self, i: usize) -> (r: Result<(Expression, usize), ParseError>)
        requires
            i <= self.tokens.len(),
        ensures
            step_matches(
                r,
                spec_parse_expression(self.toks(), i as int),
                i as int,
                self.toks().len() as int,
            ),
        decreases self.tokens@.len() - i, 9int,
    {
        if i < self.tokens.len() {
            match &self.tokens[i] {
                Token::Let => {
                    return self.parse_let_expr(i);
                },
                Token::If => {
                    return self.parse_if_expr(i);
                },
                Token::Lambda => {
                    return self.parse_lambda(i);
                },
                Token::Match => {
                    return self.parse_pattern_match(i);
                },
                _ => {},
            }
        }
        match self.parse_comparison(i) {
            Err(e) => Err(e),
            Ok((left, j)) => self.parse_composition(left, j),
        }
    }

    /// The expression entry point without composition, used inside
    /// parentheses.
    fn parse_expression_no_composition(&self, i: usize) -> (r: Result<(Expression, usize), ParseError>)
        requires
            i <= self.tokens.len(),
        ensures
            step_matches(
                r,
                spec_parse_expression_nc(self.toks(), i as int),
                i as int,
                self.toks().len() as int,
            ),
        decreases self.tokens@.len() - i, 9int,
    {
        if i < self.tokens.len() {
            match &self.tokens[i] {
                Token::Let => {
                    return self.parse_let_expr(i);
                },
                Token::If => {
                    return self.parse_if_expr(i);
                },
                Token::Lambda => {
                    return self.parse_lambda(i);
                },
                Token::Match => {
                    return self.parse_pattern_match(i);
                },
                _ => {},
            }
        }
        self.parse_comparison(i)
    }

    /// `let IDENT [':' type] '=' expr 'in' expr`.
    fn parse_let_expr(&self, i: usize) -> (r: Result<(Expression, usize), ParseError>)
        requires
            i <= self.tokens.len(),
        ensures
            step_matches(
                r,
                spec_parse_let(self.toks(), i as int),
                i as int,
                self.toks().len() as int,
            ),
        decreases self.tokens@.len() - i, 8int,
    {
        let j1 = match self.consume_token(i, &Token::Let, "Expected 'let'") {
            Ok(j) => j,
            Err(e) => {
                return Err(e);
            },
        };
        let (identifier, j2) = match self.parse_identifier(j1) {
            Ok(p) => p,
            Err(e) => {
                return Err(e);
            },
        };
        let (type_annotation, j3) = if j2 < self.tokens.len() && token_eq(
            &self.tokens[j2],
            &Token::Colon,
        ) {
            match self.parse_type_annotation(j2 + 1) {
                Ok((ty, j3)) => (Some(ty), j3),
                Err(e) => {
                    return Err(e);
                },
            }
        } else {
            (None, j2)
        };
        let j4 = match self.consume_token(j3, &Token::Assign, "Expected '=' in let expression") {
            Ok(j) => j,
            Err(e) => {
                return Err(e);
            },
        };
        let (value, j5) = match self.parse_expression(j4) {
            Ok(p) => p,
            Err(e) => {
                return Err(e);
            },
        };
        let j6 = match self.consume_token(j5, &Token::In, "Expected 'in' in let expression") {
            Ok(j) => j,
            Err(e) => {
                return Err(e);
            },
        };
        let (body, j7) = match self.parse_expression(j6) {
            Ok(p) => p,
            Err(e) => {
                return Err(e);
            },
        };
        Ok(
            (
                Expression::LetExpr {
                    identifier,
                    type_annotation,
                    value: Box::new(value),
                    body: Box::new(body),
                },
                j7,
            ),
        )
    }

    /// `if expr 'then' expr 'else' expr`.
    fn parse_if_expr(&self, i: usize) -> (r: Result<(Expression, usize), ParseError>)
        requires
            i <= self.tokens.len(),
        ensures
            step_matches(
                r,
                spec_parse_if(self.toks(), i as int),
                i as int,
                self.toks().len() as int,
            ),
        decreases self.tokens@.len() - i, 8int,
    {
        let j1 = match self.consume_token(i, &Token::If, "Expected 'if'") {
            Ok(j) => j,
            Err(e) => {
                return Err(e);
            },
        };
        let (condition, j2) = match self.parse_expression(j1) {
            Ok(p) => p,
            Err(e) => {
                return Err(e);
            },
        };
        let j3 = match self.consume_token(j2, &Token::Then, "Expected 'then' after condition") {
            Ok(j) => j,
            Err(e) => {
                return Err(e);
            },
        };
        let (then_branch, j4) = match self.parse_expression(j3) {
            Ok(p) => p,
            Err(e) => {
                return Err(e);
            },
        };
        let j5 = match self.consume_token(j4, &Token::Else, "Expected 'else' after then branch") {
            Ok(j) => j,
            Err(e) => {
                return Err(e);
            },
        };
        let (else_branch, j6) = match self.parse_expression(j5) {
            Ok(p) => p,
            Err(e) => {
                return Err(e);
            },
        };
        Ok(
            (
                Expression::IfExpr {
                    condition: Box::new(condition),
                    then_branch: Box::new(then_branch),
                    else_branch: Box::new(else_branch),
                },
                j6,
            ),
        )
    }

    /// `'\' IDENT [':' type] '->' expr`.
    fn parse_lambda(&self, i: usize) -> (r: Result<(Expression, usize), ParseError>)
        requires
            i <= self.tokens.len(),
        ensures
            step_matches(
                r,
                spec_parse_lambda(self.toks(), i as int),
                i as int,
                self.toks().len() as int,
            ),
        decreases self.tokens@.len() - i, 1int,
    {
        let j1 = match self.consume_token(i, &Token::Lambda, "Expected '\\' for lambda") {
            Ok(j) => j,
            Err(e) => {
                return Err(e);
            },
        };
        let (parameter, j2) = match self.parse_identifier(j1) {
            Ok(p) => p,
            Err(e) => {
                return Err(e);
            },
        };
        let (type_annotation, j3) = if j2 < self.tokens.len() && token_eq(
            &self.tokens[j2],
            &Token::Colon,
        ) {
            match self.parse_type_annotation(j2 + 1) {
                Ok((ty, j3)) => (Some(ty), j3),
                Err(e) => {
                    return Err(e);
                },
            }
        } else {
            (None, j2)
        };
        let j4 = match self.consume_token(j3, &Token::Arrow, "Expected '->' in lambda") {
            Ok(j) => j,
            Err(e) => {
                return Err(e);
            },
        };
        let (body, j5) = match self.parse_expression(j4) {
            Ok(p) => p,
            Err(e) => {
                return Err(e);
            },
        };
        Ok(
            (
                Expression::Lambda { parameter, type_annotation, body: Box::new(body) },
                j5,
            ),
        )
    }

    /// `'match' expr 'with' ('|' pattern '->' expr)+`.
    fn parse_pattern_match(&self, i: usize) -> (r: Result<(Expression, usize), ParseError>)
        requires
            i <= self.tokens.len(),
        ensures
            step_matches(
                r,
                spec_parse_match(self.toks(), i as int),
                i as int,
                self.toks().len() as int,
            ),
        decreases self.tokens@.len() - i, 8int,
    {
        let j1 = match self.consume_token(i, &Token::Match, "Expected 'match'") {
            Ok(j) => j,
            Err(e) => {
                return Err(e);
            },
        };
        let (scrutinee, j2) = match self.parse_expression(j1) {
            Ok(p) => p,
            Err(e) => {
                return Err(e);
            },
        };
        let j3 = match self.consume_token(j2, &Token::With, "Expected 'with' in match") {
            Ok(j) => j,
            Err(e) => {
                return Err(e);
            },
        };
        proof {
            assert(view_arms(Seq::<MatchArm>::empty()) =~= Seq::<MatchArmView>::empty());
        }
        let (arms, j4) = match self.parse_arms(Vec::new(), j3) {
            Ok(p) => p,
            Err(e) => {
                return Err(e);
            },
        };
        proof {
            lemma_view_arms_len(arms@);
        }
        if arms.len() == 0 {
            Err(ParseError::MissingPatternMatchArm)
        } else {
            Ok(
                (
                    Expression::PatternMatch { expression: Box::new(scrutinee), arms },
                    j4,
                ),
            )
        }
    }

    /// The arms of a `match`, gathered while a pipe leads each one.
    fn parse_arms(&self, arms: Vec<MatchArm>, i: usize) -> (r: Result<
        (Vec<MatchArm>, usize),
        ParseError,
    >)
        requires
            i <= self.tokens.len(),
        ensures
            match (r, spec_parse_arms(self.toks(), view_arms(arms@), i as int)) {
                (Ok((v, j)), Ok((av, jv))) => view_arms(v@) == av && j as int == jv && i <= j
                    <= self.toks().len(),
                (Err(e), Err(ev)) => e@ == ev,
                _ => false,
            },
        decreases self.tokens@.len() - i, 8int,
    {
        if i < self.tokens.len() && token_eq(&self.tokens[i], &Token::Pipe) {
            let (pattern, k) = match self.parse_pattern(i + 1) {
                Ok(p) => p,
                Err(e) => {
                    return Err(e);
                },
            };
            let k2 = match self.consume_token(k, &Token::Arrow, "Expected '->' in match arm") {
                Ok(j) => j,
                Err(e) => {
                    return Err(e);
                },
            };
            let (body, k3) = match self.parse_expression(k2) {
                Ok(p) => p,
                Err(e) => {
                    return Err(e);
                },
            };
            let ghost old_arms = arms@;
            let arm = MatchArm { pattern, expression: Box::new(body) };
            let mut arms2 = arms;
            arms2.push(arm);
            proof {
                lemma_view_arms_push(old_arms, arm);
            }
            self.parse_arms(arms2, k3)
        } else {
            Ok((arms, i))
        }
    }

    /// Level 2: comparison, non-chaining.
    fn parse_comparison(&self, i: usize) -> (r: Result<(Expression, usize), ParseError>)
        requires
            i <= self.tokens.len(),
        ensures
            step_matches(
                r,
                spec_parse_comparison(self.toks(), i as int),
                i as int,
                self.toks().len() as int,
            ),
        decreases self.tokens@.len() - i, 7int,
    {
        let (left, j) = match self.parse_logic(i) {
            Ok(p) => p,
            Err(e) => {
                return Err(e);
            },
        };
        let operator = if j < self.tokens.len() {
            match &self.tokens[j] {
                Token::Equal => Some(ComparisonOperator::Equal),
                Token::LessThan => Some(ComparisonOperator::LessThan),
                Token::GreaterThan => Some(ComparisonOperator::GreaterThan),
                _ => None,
            }
        } else {
            None
        };
        match operator {
            Some(operator) => {
                let (right, j2) = match self.parse_logic(j + 1) {
                    Ok(p) => p,
                    Err(e) => {
                        return Err(e);
                    },
                };
                Ok(
                    (
                        Expression::Comparison {
                            left: Box::new(left),
                            operator,
                            right: Some(Box::new(right)),
                        },
                        j2,
                    ),
                )
            },
            None => Ok((left, j)),
        }
    }

    /// Level 1: composition, applied to an already-parsed left operand.
    fn parse_composition(&self, left: Expression, i: usize) -> (r: Result<
        (Expression, usize),
        ParseError,
    >)
        requires
            i <= self.tokens.len(),
        ensures
            tail_matches(
                r,
                spec_parse_composition(self.toks(), left@, i as int),
                i as int,
                self.toks().len() as int,
            ),
        decreases self.tokens@.len() - i, 7int,
    {
        if i < self.tokens.len() && token_eq(&self.tokens[i], &Token::Dot) {
            let (right, j) = match self.parse_comparison(i + 1) {
                Ok(p) => p,
                Err(e) => {
                    return Err(e);
                },
            };
            let joined = Expression::FunctionComposition(
                FunctionComposition { f: Box::new(left), g: Box::new(right) },
            );
            self.parse_composition(joined, j)
        } else {
            Ok((left, i))
        }
    }

    /// Level 3: logic.
    fn parse_logic(&self, i: usize) -> (r: Result<(Expression, usize), ParseError>)
        requires
            i <= self.tokens.len(),
        ensures
            step_matches(
                r,
                spec_parse_logic(self.toks(), i as int),
                i as int,
                self.toks().len() as int,
            ),
        decreases self.tokens@.len() - i, 6int,
    {
        let (left, j) = match self.parse_arithmetic(i) {
            Ok(p) => p,
            Err(e) => {
                return Err(e);
            },
        };
        self.parse_logic_rest(left, j)
    }

    /// The left-associative tail of the logic level.
    fn parse_logic_rest(&self, left: Expression, i: usize) -> (r: Result<
        (Expression, usize),
        ParseError,
    >)
        requires
            i <= self.tokens.len(),
        ensures
            tail_matches(
                r,
                spec_parse_logic_rest(self.toks(), left@, i as int),
                i as int,
                self.toks().len() as int,
            ),
        decreases self.tokens@.len() - i, 6int,
    {
        let operator = if i < self.tokens.len() {
            match &self.tokens[i] {
                Token::And => Some(LogicOperator::And),
                Token::Or => Some(LogicOperator::Or),
                _ => None,
            }
        } else {
            None
        };
        match operator {
            Some(operator) => {
                let (right, j) = match self.parse_arithmetic(i + 1) {
                    Ok(p) => p,
                    Err(e) => {
                        return Err(e);
                    },
                };
                let joined = Expression::Logic {
                    left: Box::new(left),
                    operator,
                    right: Some(Box::new(right)),
                };
                self.parse_logic_rest(joined, j)
            },
            None => Ok((left, i)),
        }
    }

    /// Level 4: arithmetic.
    fn parse_arithmetic(&self, i: usize) -> (r: Result<(Expression, usize), ParseError>)
        requires
            i <= self.tokens.len(),
        ensures
            step_matches(
                r,
                spec_parse_arithmetic(self.toks(), i as int),
                i as int,
                self.toks().len() as int,
            ),
        decreases self.tokens@.len() - i, 5int,
    {
        let (left, j) = match self.parse_application(i) {
            Ok(p) => p,
            Err(e) => {
                return Err(e);
            },
        };
        self.parse_arithmetic_rest(left, j)
    }

    /// The left-associative tail of the arithmetic level.
    fn parse_arithmetic_rest(&self, left: Expression, i: usize) -> (r: Result<
        (Expression, usize),
        ParseError,
    >)
        requires
            i <= self.tokens.len(),
        ensures
            tail_matches(
                r,
                spec_parse_arithmetic_rest(self.toks(), left@, i as int),
                i as int,
                self.toks().len() as int,
            ),
        decreases self.tokens@.len() - i, 5int,
    {
        let operator = if i < self.tokens.len() {
            match &self.tokens[i] {
                Token::Plus => Some(ArithmeticOperator::Add),
                Token::Minus => Some(ArithmeticOperator::Subtract),
                Token::Star => Some(ArithmeticOperator::Multiply),
                Token::Slash => Some(ArithmeticOperator::Divide),
                _ => None,
            }
        } else {
            None
        };
        match operator {
            Some(operator) => {
                let (right, j) = match self.parse_application(i + 1) {
                    Ok(p) => p,
                    Err(e) => {
                        return Err(e);
                    },
                };
                let joined = Expression::Arithmetic {
                    left: Box::new(left),
                    operator,
                    right: Box::new(right),
                };
                self.parse_arithmetic_rest(joined, j)
            },
            None => Ok((left, i)),
        }
    }

    /// Level 5: application.
    fn parse_application(&self, i: usize) -> (r: Result<(Expression, usize), ParseError>)
        requires
            i <= self.tokens.len(),
        ensures
            step_matches(
                r,
                spec_parse_application(self.toks(), i as int),
                i as int,
                self.toks().len() as int,
            ),
        decreases self.tokens@.len() - i, 4int,
    {
        let (first, j) = match self.parse_term(i) {
            Ok(p) => p,
            Err(e) => {
                return Err(e);
            },
        };
        let ghost firstv = first@;
        let mut items: Vec<Expression> = Vec::new();
        items.push(first);
        proof {
            lemma_view_exprs_push(Seq::empty(), items@.last());
            assert(view_exprs(items@) =~= seq![firstv]);
        }
        self.parse_application_rest(items, j)
    }

    /// The argument-gathering tail of the application level.
    fn parse_application_rest(&self, items: Vec<Expression>, i: usize) -> (r: Result<
        (Expression, usize),
        ParseError,
    >)
        requires
            i <= self.tokens.len(),
            items@.len() >= 1,
        ensures
            match (r, spec_parse_application_rest(self.toks(), view_exprs(items@), i as int)) {
                (Ok((e, j)), Ok((ev, jv))) => e@ == ev && j as int == jv && i <= j
                    <= self.toks().len(),
                (Err(e), Err(ev)) => e@ == ev,
                _ => false,
            },
        decreases self.tokens@.len() - i, 4int,
    {
        proof {
            lemma_view_exprs_len(items@);
        }
        if i < self.tokens.len() && starts_term_token(&self.tokens[i]) {
            let (arg, j) = match self.parse_term(i) {
                Ok(p) => p,
                Err(e) => {
                    return Err(e);
                },
            };
            let ghost old_items = items@;
            let mut items2 = items;
            items2.push(arg);
            proof {
                lemma_view_exprs_push(old_items, arg);
            }
            self.parse_application_rest(items2, j)
        } else {
            if items.len() > 1 {
                Ok((Expression::Application(items), i))
            } else {
                let mut items2 = items;
                let single = items2.pop().unwrap();
                Ok((single, i))
            }
        }
    }

    /// Level 6: a term, with the member-access lookahead on `(`.
    fn parse_term(&self, i: usize) -> (r: Result<(Expression, usize), ParseError>)
        requires
            i <= self.tokens.len(),
        ensures
            step_matches(
                r,
                spec_parse_term(self.toks(), i as int),
                i as int,
                self.toks().len() as int,
            ),
        decreases self.tokens@.len() - i, 2int,
    {
        if i >= self.tokens.len() {
            return Err(ParseError::UnexpectedEOF);
        }
        match &self.tokens[i] {
            Token::Identifier(name) => {
                let term = Term::Identifier(name.clone());
                proof {
                    assert(view_term(term) == TermView::Identifier(name@));
                }
                Ok((Expression::Term(term), i + 1))
            },
            Token::Number(value) => {
                let term = Term::Number(value.clone());
                proof {
                    assert(view_term(term) == TermView::Number(value@));
                }
                Ok((Expression::Term(term), i + 1))
            },
            Token::LeftParen => {
                let (inner, j) = match self.parse_expression_no_composition(i + 1) {
                    Ok(p) => p,
                    Err(e) => {
                        return Err(e);
                    },
                };
                self.parse_paren_rest(inner, j)
            },
            Token::Lambda => self.parse_lambda(i),
            Token::Wildcard => {
                let term = Term::Identifier(String::from_str("_"));
                proof {
                    assert(view_term(term) == TermView::Identifier("_"@));
                }
                Ok((Expression::Term(term), i + 1))
            },
            other => Err(
                ParseError::UnexpectedToken {
                    expected: String::from_str("term"),
                    found: token_text(other),
                    message: String::from_str("Unexpected token while parsing a term."),
                },
            ),
        }
    }

    /// What follows the inner expression of a parenthesized term: the
    /// three-token lookahead deciding member access against grouping.
    fn parse_paren_rest(&self, inner: Expression, j: usize) -> (r: Result<
        (Expression, usize),
        ParseError,
    >)
        requires
            j <= self.tokens.len(),
        ensures
            step_matches(
                r,
                spec_parse_paren_rest(self.toks(), inner@, j as int),
                j as int,
                self.toks().len() as int,
            ),
    {
        if self.tokens.len() - j > 2 && token_eq(&self.tokens[j], &Token::Dot) && token_eq(
            &self.tokens[j + 2],
            &Token::RightParen,
        ) {
            if let Token::Identifier(member) = &self.tokens[j + 1] {
                let ghost innerv = inner@;
                let term = Term::MemberAccess { expression: Box::new(inner), member: member.clone() };
                proof {
                    assert(view_term(term) == (TermView::MemberAccess {
                        expression: Box::new(innerv),
                        member: member@,
                    }));
                }
                return Ok((Expression::Term(term), j + 3));
            }
        }
        match self.consume_token(j, &Token::RightParen, "Expected ')' after expression") {
            Err(e) => Err(e),
            Ok(j2) => {
                let ghost innerv = inner@;
                let term = Term::GroupedExpression(Box::new(inner));
                proof {
                    assert(view_term(term) == TermView::GroupedExpression(Box::new(innerv)));
                }
                Ok((Expression::Term(term), j2))
            },
        }
    }

    /// A pattern of a match arm.
    fn parse_pattern(&self, i: usize) -> (r: Result<(Pattern, usize), ParseError>)
        requires
            i <= self.tokens.len(),
        ensures
            step_matches(
                r,
                spec_parse_pattern(self.toks(), i as int),
                i as int,
                self.toks().len() as int,
            ),
        decreases self.tokens@.len() - i,
    {
        if i >= self.tokens.len() {
            return Err(ParseError::UnexpectedEOF);
        }
        match &self.tokens[i] {
            Token::Identifier(name) => Ok((Pattern::Identifier(name.clone()), i + 1)),
            Token::Number(value) => Ok((Pattern::Number(value.clone()), i + 1)),
            Token::LeftParen => {
                let (inner, j) = match self.parse_pattern(i + 1) {
                    Ok(p) => p,
                    Err(e) => {
                        return Err(e);
                    },
                };
                match self.consume_token(j, &Token::RightParen, "Expected ')' after pattern") {
                    Err(e) => Err(e),
                    Ok(j2) => Ok((Pattern::Grouped(Box::new(inner)), j2)),
                }
            },
            other => Err(
                ParseError::UnexpectedToken {
                    expected: String::from_str("pattern"),
                    found: token_text(other),
                    message: String::from_str("Unexpected token while parsing a pattern."),
                },
            ),
        }
    }

    /// A type annotation.
    fn parse_type_annotation(&self, i: usize) -> (r: Result<(TypeAnnotation, usize), ParseError>)
        requires
            i <= self.tokens.len(),
        ensures
            step_matches(
                r,
                spec_parse_type_annotation(self.toks(), i as int),
                i as int,
                self.toks().len() as int,
            ),
        decreases self.tokens@.len() - i,
    {
        if i >= self.tokens.len() {
            return Err(ParseError::UnexpectedEOF);
        }
        match &self.tokens[i] {
            Token::Identifier(name) => {
                if str_eq_str(name.as_str(), "Int") {
                    Ok((TypeAnnotation::Int, i + 1))
                } else if str_eq_str(name.as_str(), "Bool") {
                    Ok((TypeAnnotation::Bool, i + 1))
                } else if str_eq_str(name.as_str(), "String") {
                    Ok((TypeAnnotation::String, i + 1))
                } else if str_eq_str(name.as_str(), "Float") {
                    Ok((TypeAnnotation::Float, i + 1))
                } else {
                    Err(ParseError::InvalidIdentifier(name.clone()))
                }
            },
            Token::LeftParen => {
                let (from_ty, j) = match self.parse_type_annotation(i + 1) {
                    Ok(p) => p,
                    Err(e) => {
                        return Err(e);
                    },
                };
                let j2 = match self.consume_token(j, &Token::Arrow, "Expected '->' in function type") {
                    Ok(j2) => j2,
                    Err(e) => {
                        return Err(e);
                    },
                };
                let (to_ty, j3) = match self.parse_type_annotation(j2) {
                    Ok(p) => p,
                    Err(e) => {
                        return Err(e);
                    },
                };
                match self.consume_token(j3, &Token::RightParen, "Expected ')' in function type") {
                    Err(e) => Err(e),
                    Ok(j4) => Ok(
                        (TypeAnnotation::Function(Box::new(from_ty), Box::new(to_ty)), j4),
                    ),
                }
            },
            other => Err(
                ParseError::UnexpectedToken {
                    expected: String::from_str("type annotation"),
                    found: token_text(other),
                    message: String::from_str("Expected a type annotation"),
                },
            ),
        }
    }
}

} // verus!
