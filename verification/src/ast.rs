//! The abstract syntax tree produced by the parser.
//!
//! A complete program is a single expression. Every node is created
//! bottom-up during one parse pass, owned exclusively by its parent, and
//! never mutated afterward.
//!
//! Each executable node shape has a mathematical model (its "view") in
//! which identifier text is a sequence of characters and node lists are
//! sequences; the parser's contracts are stated over those models.

use vstd::prelude::*;

verus! {

/// A complete program: a single root expression.
#[derive(Debug, PartialEq, Eq)]
pub struct Program {
    /// The root expression of the program.
    pub expression: Expression,
}

/// An expression of the language, one variant per construct.
#[derive(Debug, PartialEq, Eq)]
pub enum Expression {
    /// A `let` binding: `let x [: T] = value in body`.
    LetExpr {
        /// The name bound by this `let`.
        identifier: String,
        /// Optional type annotation of the bound name.
        type_annotation: Option<TypeAnnotation>,
        /// The value assigned to the name.
        value: Box<Expression>,
        /// The body in which the binding is in scope.
        body: Box<Expression>,
    },
    /// An `if` expression with mandatory `then` and `else` branches.
    IfExpr {
        /// The condition.
        condition: Box<Expression>,
        /// Evaluated when the condition holds.
        then_branch: Box<Expression>,
        /// Evaluated when the condition does not hold.
        else_branch: Box<Expression>,
    },
    /// A lambda: `\x [: T] -> body`, with exactly one parameter.
    Lambda {
        /// The parameter name.
        parameter: String,
        /// Optional type annotation of the parameter.
        type_annotation: Option<TypeAnnotation>,
        /// The lambda body.
        body: Box<Expression>,
    },
    /// A pattern match: `match scrutinee with | pat -> expr ...`.
    PatternMatch {
        /// The expression being matched.
        expression: Box<Expression>,
        /// The arms, in source order; never empty.
        arms: Vec<MatchArm>,
    },
    /// A comparison, e.g. `x == y`. At most one operator per level: the
    /// grammar does not chain comparisons.
    Comparison {
        /// Left-hand side.
        left: Box<Expression>,
        /// The comparison operator.
        operator: ComparisonOperator,
        /// Right-hand side; always present when the node is built by the
        /// parser, optional in the type so that a bare left side can
        /// collapse instead of being wrapped.
        right: Option<Box<Expression>>,
    },
    /// A logic operation, e.g. `a && b`; AND and OR share one tier.
    Logic {
        /// Left-hand operand.
        left: Box<Expression>,
        /// The logic operator.
        operator: LogicOperator,
        /// Right-hand operand; always present when built by the parser.
        right: Option<Box<Expression>>,
    },
    /// An arithmetic operation, e.g. `x + y`; all four operators share one
    /// tier.
    Arithmetic {
        /// Left-hand operand.
        left: Box<Expression>,
        /// The arithmetic operator.
        operator: ArithmeticOperator,
        /// Right-hand operand.
        right: Box<Expression>,
    },
    /// A function application `f x y`: the juxtaposed terms in order.
    /// Built only when two or more terms stand next to each other.
    Application(Vec<Expression>),
    /// A terminal expression.
    Term(Term),
    /// A function composition `f . g`.
    FunctionComposition(FunctionComposition),
}

/// A terminal form.
#[derive(Debug, PartialEq, Eq)]
pub enum Term {
    /// A variable or function name.
    Identifier(String),
    /// A numeric literal, carrying the text of the lexeme.
    Number(String),
    /// A grouped expression `(expr)`.
    GroupedExpression(Box<Expression>),
    /// A member access `(expr).member`.
    MemberAccess {
        /// The parenthesized base expression.
        expression: Box<Expression>,
        /// The member name after the dot.
        member: String,
    },
}

/// One arm of a `match`: a pattern and the expression to evaluate when the
/// pattern matches.
#[derive(Debug, PartialEq, Eq)]
pub struct MatchArm {
    pub pattern: Pattern,
    pub expression: Box<Expression>,
}

/// A pattern of a match arm.
#[derive(Debug, PartialEq, Eq)]
pub enum Pattern {
    /// A named pattern; the wildcard is the ordinary name `_`.
    Identifier(String),
    /// A numeric pattern, carrying the text of the lexeme.
    Number(String),
    /// A grouped pattern `(pat)`, nested to arbitrary depth.
    Grouped(Box<Pattern>),
}

/// A type annotation: one of the primitive names, or a parenthesized
/// function type nested to arbitrary depth.
#[derive(Debug, PartialEq, Eq)]
pub enum TypeAnnotation {
    /// Integer type.
    Int,
    /// Boolean type.
    Bool,
    /// String type.
    String,
    /// Floating-point type.
    Float,
    /// A function type `(T1 -> T2)`.
    Function(Box<TypeAnnotation>, Box<TypeAnnotation>),
}

/// Comparison operators (`==`, `<`, `>`).
#[derive(Debug, Clone, PartialEq, Eq, Structural)]
pub enum ComparisonOperator {
    Equal,
    LessThan,
    GreaterThan,
}

/// Logic operators (`&&`, `||`).
#[derive(Debug, Clone, PartialEq, Eq, Structural)]
pub enum LogicOperator {
    And,
    Or,
}

/// Arithmetic operators (`+`, `-`, `*`, `/`).
#[derive(Debug, Clone, PartialEq, Eq, Structural)]
pub enum ArithmeticOperator {
    Add,
    Subtract,
    Multiply,
    Divide,
}

/// The function composition operator (`.`).
#[derive(Debug, Clone, PartialEq, Eq, Structural)]
pub enum CompositionOperator {
    Compose,
}

/// A function composition node `f . g`.
#[derive(Debug, PartialEq, Eq)]
pub struct FunctionComposition {
    /// The first function of the chain.
    pub f: Box<Expression>,
    /// The second function of the chain.
    pub g: Box<Expression>,
}

/// The mathematical model of a [`Program`].
pub struct ProgramView {
    pub expression: ExpressionView,
}

/// The mathematical model of an [`Expression`]: identical shape, with
/// names as character sequences and node lists as sequences.
pub enum ExpressionView {
    LetExpr {
        identifier: Seq<char>,
        type_annotation: Option<TypeAnnotation>,
        value: Box<ExpressionView>,
        body: Box<ExpressionView>,
    },
    IfExpr {
        condition: Box<ExpressionView>,
        then_branch: Box<ExpressionView>,
        else_branch: Box<ExpressionView>,
    },
    Lambda {
        parameter: Seq<char>,
        type_annotation: Option<TypeAnnotation>,
        body: Box<ExpressionView>,
    },
    PatternMatch { expression: Box<ExpressionView>, arms: Seq<MatchArmView> },
    Comparison {
        left: Box<ExpressionView>,
        operator: ComparisonOperator,
        right: Option<Box<ExpressionView>>,
    },
    Logic {
        left: Box<ExpressionView>,
        operator: LogicOperator,
        right: Option<Box<ExpressionView>>,
    },
    Arithmetic {
        left: Box<ExpressionView>,
        operator: ArithmeticOperator,
        right: Box<ExpressionView>,
    },
    Application(Seq<ExpressionView>),
    Term(TermView),
    FunctionComposition(FunctionCompositionView),
}

/// The mathematical model of a [`Term`].
pub enum TermView {
    Identifier(Seq<char>),
    Number(Seq<char>),
    GroupedExpression(Box<ExpressionView>),
    MemberAccess { expression: Box<ExpressionView>, member: Seq<char> },
}

/// The mathematical model of a [`MatchArm`].
pub struct MatchArmView {
    pub pattern: PatternView,
    pub expression: ExpressionView,
}

/// The mathematical model of a [`Pattern`].
pub enum PatternView {
    Identifier(Seq<char>),
    Number(Seq<char>),
    Grouped(Box<PatternView>),
}

/// The mathematical model of a [`FunctionComposition`].
pub struct FunctionCompositionView {
    pub f: Box<ExpressionView>,
    pub g: Box<ExpressionView>,
}

/// The model of an expression.
pub open spec fn view_expr(e: Expression) -> ExpressionView
    decreases e,
{
    match e {
        Expression::LetExpr { identifier, type_annotation, value, body } => {
            ExpressionView::LetExpr {
                identifier: identifier@,
                type_annotation,
                value: Box::new(view_expr(*value)),
                body: Box::new(view_expr(*body)),
            }
        },
        Expression::IfExpr { condition, then_branch, else_branch } => {
            ExpressionView::IfExpr {
                condition: Box::new(view_expr(*condition)),
                then_branch: Box::new(view_expr(*then_branch)),
                else_branch: Box::new(view_expr(*else_branch)),
            }
        },
        Expression::Lambda { parameter, type_annotation, body } => {
            ExpressionView::Lambda {
                parameter: parameter@,
                type_annotation,
                body: Box::new(view_expr(*body)),
            }
        },
        Expression::PatternMatch { expression, arms } => {
            ExpressionView::PatternMatch {
                expression: Box::new(view_expr(*expression)),
                arms: view_arms(arms@),
            }
        },
        Expression::Comparison { left, operator, right } => {
            ExpressionView::Comparison {
                left: Box::new(view_expr(*left)),
                operator,
                right: match right {
                    Some(r) => Some(Box::new(view_expr(*r))),
                    None => None,
                },
            }
        },
        Expression::Logic { left, operator, right } => {
            ExpressionView::Logic {
                left: Box::new(view_expr(*left)),
                operator,
                right: match right {
                    Some(r) => Some(Box::new(view_expr(*r))),
                    None => None,
                },
            }
        },
        Expression::Arithmetic { left, operator, right } => {
            ExpressionView::Arithmetic {
                left: Box::new(view_expr(*left)),
                operator,
                right: Box::new(view_expr(*right)),
            }
        },
        Expression::Application(items) => ExpressionView::Application(view_exprs(items@)),
        Expression::Term(t) => ExpressionView::Term(view_term(t)),
        Expression::FunctionComposition(c) => {
            ExpressionView::FunctionComposition(
                FunctionCompositionView {
                    f: Box::new(view_expr(*c.f)),
                    g: Box::new(view_expr(*c.g)),
                },
            )
        },
    }
}

/// The model of a sequence of expressions, element by element.
pub open spec fn view_exprs(es: Seq<Expression>) -> Seq<ExpressionView>
    decreases es,
{
    if es.len() == 0 {
        Seq::empty()
    } else {
        view_exprs(es.drop_last()).push(view_expr(es.last()))
    }
}

/// The model of a terminal form.
pub open spec fn view_term(t: Term) -> TermView
    decreases t,
{
    match t {
        Term::Identifier(s) => TermView::Identifier(s@),
        Term::Number(s) => TermView::Number(s@),
        Term::GroupedExpression(e) => TermView::GroupedExpression(Box::new(view_expr(*e))),
        Term::MemberAccess { expression, member } => {
            TermView::MemberAccess {
                expression: Box::new(view_expr(*expression)),
                member: member@,
            }
        },
    }
}

/// The model of a sequence of match arms, element by element.
pub open spec fn view_arms(arms: Seq<MatchArm>) -> Seq<MatchArmView>
    decreases arms,
{
    if arms.len() == 0 {
        Seq::empty()
    } else {
        view_arms(arms.drop_last()).push(view_arm(arms.last()))
    }
}

/// The model of one match arm.
pub open spec fn view_arm(arm: MatchArm) -> MatchArmView
    decreases arm,
{
    MatchArmView { pattern: view_pattern(arm.pattern), expression: view_expr(*arm.expression) }
}

/// The model of a pattern.
pub open spec fn view_pattern(p: Pattern) -> PatternView
    decreases p,
{
    match p {
        Pattern::Identifier(s) => PatternView::Identifier(s@),
        Pattern::Number(s) => PatternView::Number(s@),
        Pattern::Grouped(inner) => PatternView::Grouped(Box::new(view_pattern(*inner))),
    }
}

impl View for Expression {
    type V = ExpressionView;

    open spec fn view(&self) -> ExpressionView {
        view_expr(*self)
    }
}

impl View for Term {
    type V = TermView;

    open spec fn view(&self) -> TermView {
        view_term(*self)
    }
}

impl View for MatchArm {
    type V = MatchArmView;

    open spec fn view(&self) -> MatchArmView {
        view_arm(*self)
    }
}

impl View for Pattern {
    type V = PatternView;

    open spec fn view(&self) -> PatternView {
        view_pattern(*self)
    }
}

impl View for Program {
    type V = ProgramView;

    open spec fn view(&self) -> ProgramView {
        ProgramView { expression: view_expr(self.expression) }
    }
}

/// A type annotation is its own model: it carries no text and no list.
impl View for TypeAnnotation {
    type V = TypeAnnotation;

    open spec fn view(&self) -> TypeAnnotation {
        *self
    }
}

/// The structural invariants of a syntax tree: an application node exists
/// only for two or more juxtaposed terms, and a match never has zero
/// arms. Every node the parser builds satisfies this, everywhere in the
/// tree.
pub open spec fn wf_expr(e: ExpressionView) -> bool
    decreases e,
{
    match e {
        ExpressionView::LetExpr { identifier, type_annotation, value, body } => wf_expr(*value)
            && wf_expr(*body),
        ExpressionView::IfExpr { condition, then_branch, else_branch } => wf_expr(*condition)
            && wf_expr(*then_branch) && wf_expr(*else_branch),
        ExpressionView::Lambda { parameter, type_annotation, body } => wf_expr(*body),
        ExpressionView::PatternMatch { expression, arms } => wf_expr(*expression) && arms.len()
            >= 1 && wf_arms(arms),
        ExpressionView::Comparison { left, operator, right } => wf_expr(*left) && match right {
            Some(r) => wf_expr(*r),
            None => true,
        },
        ExpressionView::Logic { left, operator, right } => wf_expr(*left) && match right {
            Some(r) => wf_expr(*r),
            None => true,
        },
        ExpressionView::Arithmetic { left, operator, right } => wf_expr(*left) && wf_expr(*right),
        ExpressionView::Application(items) => items.len() >= 2 && wf_exprs(items),
        ExpressionView::Term(t) => wf_term(t),
        ExpressionView::FunctionComposition(c) => wf_expr(*c.f) && wf_expr(*c.g),
    }
}

/// Every expression of the list satisfies [`wf_expr`].
pub open spec fn wf_exprs(items: Seq<ExpressionView>) -> bool
    decreases items,
{
    if items.len() == 0 {
        true
    } else {
        wf_exprs(items.drop_last()) && wf_expr(items.last())
    }
}

/// The structural invariants of a terminal form.
pub open spec fn wf_term(t: TermView) -> bool
    decreases t,
{
    match t {
        TermView::Identifier(_) => true,
        TermView::Number(_) => true,
        TermView::GroupedExpression(e) => wf_expr(*e),
        TermView::MemberAccess { expression, member } => wf_expr(*expression),
    }
}

/// Every arm's expression satisfies [`wf_expr`].
pub open spec fn wf_arms(arms: Seq<MatchArmView>) -> bool
    decreases arms,
{
    if arms.len() == 0 {
        true
    } else {
        wf_arms(arms.drop_last()) && wf_expr(arms.last().expression)
    }
}

/// A list of expressions and its model have the same length.
pub proof fn lemma_view_exprs_len(es: Seq<Expression>)
    ensures
        view_exprs(es).len() == es.len(),
    decreases es,
{
    if es.len() > 0 {
        lemma_view_exprs_len(es.drop_last());
    }
}

/// A list of match arms and its model have the same length.
pub proof fn lemma_view_arms_len(arms: Seq<MatchArm>)
    ensures
        view_arms(arms).len() == arms.len(),
    decreases arms,
{
    if arms.len() > 0 {
        lemma_view_arms_len(arms.drop_last());
    }
}

/// Appending an expression to a list appends its model to the list's model.
pub proof fn lemma_view_exprs_push(es: Seq<Expression>, e: Expression)
    ensures
        view_exprs(es.push(e)) == view_exprs(es).push(view_expr(e)),
{
    assert(es.push(e).drop_last() =~= es);
    assert(es.push(e).last() == e);
}

/// Appending an arm to a list appends its model to the list's model.
pub proof fn lemma_view_arms_push(arms: Seq<MatchArm>, a: MatchArm)
    ensures
        view_arms(arms.push(a)) == view_arms(arms).push(view_arm(a)),
{
    assert(arms.push(a).drop_last() =~= arms);
    assert(arms.push(a).last() == a);
}

} // verus!
