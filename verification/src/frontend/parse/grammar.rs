//! What parsing computes: for a list of tokens and a position in it, the
//! item read from there and the position after it, or the error met.
use vstd::prelude::*;

use crate::span::Span;
use crate::text::decimal;
use crate::frontend::lex::token::{SpannedTokenV, TokenV, Keyword, token_display};
use crate::frontend::validate::types::{TypeV, resolve_builtin};
use super::ast::{
    BinaryOpV, BlockExpressionV, ExpressionV, Literal, Node, StatementV, UnaryOpV, AssignmentOp,
    FunctionParameterV, FunctionPrototypeV, FunctionV, StructFieldV, StructV, TraitV, ImplV, TopLevelV,
};

verus! {

/// Why parsing stopped: a syntax error at a place in the source, or a
/// case where the parser halts (such as running out of tokens).
pub enum ParseErrorV {
    Syntax { message: Seq<char>, span: Span },
    Fatal(Seq<char>),
}

pub type Parsed<T> = Result<(T, int), ParseErrorV>;

/// Reading past the last token.
pub open spec fn out_of_tokens(t: Seq<SpannedTokenV>, p: int) -> ParseErrorV {
    ParseErrorV::Fatal("index out of bounds: the len is "@ + decimal(t.len()) + " but the index is "@ + decimal(p as nat))
}

/// "`prefix`<token>`suffix`" at the token's span.
pub open spec fn found_error(t: Seq<SpannedTokenV>, p: int, prefix: Seq<char>, suffix: Seq<char>) -> ParseErrorV {
    ParseErrorV::Syntax { message: prefix + token_display(t[p].token) + suffix, span: t[p].span }
}

/// The span from the start of `start` to the end of the token before `p`.
pub open spec fn span_to(t: Seq<SpannedTokenV>, start: Span, p: int) -> Span {
    start.spec_extend(t[p - 1].span)
}

//////////////////// Expressions ////////////////////

/// An expression (the loosest precedence: `+` and `-`).
pub open spec fn parse_expr(t: Seq<SpannedTokenV>, p: int) -> Parsed<Node<ExpressionV>>
    decreases t.len() - p, 6nat,
{
    parse_additive(t, p)
}

/// Operands joined by `+` and `-`, left to right.
pub open spec fn parse_additive(t: Seq<SpannedTokenV>, p: int) -> Parsed<Node<ExpressionV>>
    decreases t.len() - p, 5nat,
{
    match parse_multiplicative(t, p) {
        Err(e) => Err(e),
        Ok((e, q)) => if p <= q <= t.len() {
            additive_tail(t, e, e.span, q)
        } else {
            Err(out_of_tokens(t, q))
        },
    }
}

pub open spec fn additive_tail(t: Seq<SpannedTokenV>, lhs: Node<ExpressionV>, start: Span, p: int) -> Parsed<Node<ExpressionV>>
    decreases t.len() - p, 4nat,
{
    if p < 0 || p >= t.len() {
        Err(out_of_tokens(t, p))
    } else if t[p].token is Plus || t[p].token is Minus {
        let op = if t[p].token is Plus { BinaryOpV::Add } else { BinaryOpV::Subtract };
        match parse_multiplicative(t, p + 1) {
            Err(e) => Err(e),
            Ok((rhs, q)) => if p < q <= t.len() {
                let e = Node {
                    item: ExpressionV::BinaryExpression {
                        lhs: Box::new(lhs),
                        op: Node { item: op, span: t[p].span },
                        rhs: Box::new(rhs),
                        ty: TypeV::Unknown,
                    },
                    span: span_to(t, start, q),
                };
                additive_tail(t, e, start, q)
            } else {
                Err(out_of_tokens(t, q))
            },
        }
    } else {
        Ok((lhs, p))
    }
}

/// Operands joined by `*` and `/`, left to right.
pub open spec fn parse_multiplicative(t: Seq<SpannedTokenV>, p: int) -> Parsed<Node<ExpressionV>>
    decreases t.len() - p, 3nat,
{
    match parse_unary(t, p) {
        Err(e) => Err(e),
        Ok((e, q)) => if p <= q <= t.len() {
            multiplicative_tail(t, e, e.span, q)
        } else {
            Err(out_of_tokens(t, q))
        },
    }
}

pub open spec fn multiplicative_tail(t: Seq<SpannedTokenV>, lhs: Node<ExpressionV>, start: Span, p: int) -> Parsed<Node<ExpressionV>>
    decreases t.len() - p, 2nat,
{
    if p < 0 || p >= t.len() {
        Err(out_of_tokens(t, p))
    } else if t[p].token is Asterisk || t[p].token is Slash {
        let op = if t[p].token is Asterisk { BinaryOpV::Multiply } else { BinaryOpV::Divide };
        match parse_unary(t, p + 1) {
            Err(e) => Err(e),
            Ok((rhs, q)) => if p < q <= t.len() {
                let e = Node {
                    item: ExpressionV::BinaryExpression {
                        lhs: Box::new(lhs),
                        op: Node { item: op, span: t[p].span },
                        rhs: Box::new(rhs),
                        ty: TypeV::Unknown,
                    },
                    span: span_to(t, start, q),
                };
                multiplicative_tail(t, e, start, q)
            } else {
                Err(out_of_tokens(t, q))
            },
        }
    } else {
        Ok((lhs, p))
    }
}

/// `-` or `!` applied to an expression, or a base expression.
pub open spec fn parse_unary(t: Seq<SpannedTokenV>, p: int) -> Parsed<Node<ExpressionV>>
    decreases t.len() - p, 1nat,
{
    if p < 0 || p >= t.len() {
        Err(out_of_tokens(t, p))
    } else if t[p].token is Minus || t[p].token is Bang {
        let op = if t[p].token is Minus { UnaryOpV::Negate } else { UnaryOpV::Not };
        match parse_expr(t, p + 1) {
            Err(e) => Err(e),
            Ok((x, q)) => if p < q <= t.len() {
                Ok((Node {
                    item: ExpressionV::UnaryExpression {
                        op: Node { item: op, span: t[p].span },
                        expr: Box::new(x),
                        ty: TypeV::Unknown,
                    },
                    span: span_to(t, t[p].span, q),
                }, q))
            } else {
                Err(out_of_tokens(t, q))
            },
        }
    } else {
        parse_base(t, p)
    }
}

/// A parenthesized expression (the node spans the parentheses), a number or
/// an identifier.
pub open spec fn parse_base(t: Seq<SpannedTokenV>, p: int) -> Parsed<Node<ExpressionV>>
    decreases t.len() - p, 0nat,
{
    if p < 0 || p >= t.len() {
        Err(out_of_tokens(t, p))
    } else {
        match t[p].token {
            TokenV::OpenParen => match parse_expr(t, p + 1) {
                Err(e) => Err(e),
                Ok((x, q)) => if p < q <= t.len() {
                    if q == t.len() {
                        Err(out_of_tokens(t, q))
                    } else if t[q].token is CloseParen {
                        Ok((Node { item: x.item, span: span_to(t, t[p].span, q + 1) }, q + 1))
                    } else {
                        Err(found_error(t, q, "Expected ')' to end parenthesized expression. Found `"@, "`"@))
                    }
                } else {
                    Err(out_of_tokens(t, q))
                },
            },
            TokenV::Number(n) => if n <= isize::MAX {
                Ok((Node { item: ExpressionV::Literal { value: Literal::Integer(n as isize), ty: TypeV::Unknown }, span: t[p].span }, p + 1))
            } else {
                Err(found_error(t, p, "Integer literal out of range: `"@, "`"@))
            },
            TokenV::Ident(name) => Ok((Node { item: ExpressionV::Ident { name, ty: TypeV::Unknown }, span: t[p].span }, p + 1)),
            _ => Err(found_error(t, p, "Expected a base expression. Found `"@, "`"@)),
        }
    }
}

/// The node stands where a `(` stands in the tokens: a parenthesized
/// expression's span starts at its `(`.
pub open spec fn starts_at_paren(t: Seq<SpannedTokenV>, e: Node<ExpressionV>) -> bool {
    exists|k: int|
        0 <= k < t.len() && (#[trigger] t[k]).token is OpenParen && t[k].span.start_line == e.span.start_line
            && t[k].span.start_column == e.span.start_column
}

/// A sum or a difference.
pub open spec fn is_additive(e: ExpressionV) -> bool {
    e matches ExpressionV::BinaryExpression { op, .. } && (op.item is Add || op.item is Subtract)
}

/// Products bind tighter than sums throughout `e`: the right operand of
/// every `*` and `/` is no sum or difference, unless it was written in
/// parentheses.
pub open spec fn products_bind_tighter(t: Seq<SpannedTokenV>, e: Node<ExpressionV>) -> bool
    decreases e,
{
    match e.item {
        ExpressionV::BinaryExpression { lhs, op, rhs, .. } => {
            &&& products_bind_tighter(t, *lhs)
            &&& products_bind_tighter(t, *rhs)
            &&& (op.item is Multiply || op.item is Divide) ==> !is_additive(rhs.item) || starts_at_paren(t, *rhs)
        },
        ExpressionV::UnaryExpression { expr, .. } => products_bind_tighter(t, *expr),
        _ => true,
    }
}

/// What a unary expression reads is never a bare sum or difference.
proof fn lemma_unary_not_bare_sum(t: Seq<SpannedTokenV>, p: int)
    requires
        parse_unary(t, p) is Ok,
    ensures
        !is_additive(parse_unary(t, p)->Ok_0.0.item) || starts_at_paren(t, parse_unary(t, p)->Ok_0.0),
{
    if 0 <= p < t.len() && !(t[p].token is Minus || t[p].token is Bang) && t[p].token is OpenParen {
        let r = parse_unary(t, p)->Ok_0.0;
        assert(t[p].span.start_line == r.span.start_line && t[p].span.start_column == r.span.start_column);
        assert(t[p].token is OpenParen);
    }
}

/// Products bind tighter than sums in every expression the parser reads:
/// `a * b + c` is read as `(a * b) + c`, and `a * (b + c)` keeps its sum only
/// because of the parentheses.
pub proof fn law_products_bind_tighter(t: Seq<SpannedTokenV>, p: int)
    requires
        parse_expr(t, p) is Ok,
    ensures
        products_bind_tighter(t, parse_expr(t, p)->Ok_0.0),
    decreases t.len() - p, 6nat,
{
    lemma_additive(t, p);
}

proof fn lemma_additive(t: Seq<SpannedTokenV>, p: int)
    requires
        parse_additive(t, p) is Ok,
    ensures
        products_bind_tighter(t, parse_additive(t, p)->Ok_0.0),
    decreases t.len() - p, 5nat,
{
    lemma_multiplicative(t, p);
    let (e, q) = parse_multiplicative(t, p)->Ok_0;
    lemma_additive_tail(t, e, e.span, q);
}

proof fn lemma_additive_tail(t: Seq<SpannedTokenV>, lhs: Node<ExpressionV>, start: Span, p: int)
    requires
        products_bind_tighter(t, lhs),
        additive_tail(t, lhs, start, p) is Ok,
    ensures
        products_bind_tighter(t, additive_tail(t, lhs, start, p)->Ok_0.0),
    decreases t.len() - p, 4nat,
{
    if 0 <= p < t.len() && (t[p].token is Plus || t[p].token is Minus) {
        lemma_multiplicative(t, p + 1);
        let (rhs, q) = parse_multiplicative(t, p + 1)->Ok_0;
        let op = if t[p].token is Plus { BinaryOpV::Add } else { BinaryOpV::Subtract };
        let e = Node {
            item: ExpressionV::BinaryExpression {
                lhs: Box::new(lhs),
                op: Node { item: op, span: t[p].span },
                rhs: Box::new(rhs),
                ty: TypeV::Unknown,
            },
            span: span_to(t, start, q),
        };
        assert(products_bind_tighter(t, e));
        lemma_additive_tail(t, e, start, q);
    }
}

proof fn lemma_multiplicative(t: Seq<SpannedTokenV>, p: int)
    requires
        parse_multiplicative(t, p) is Ok,
    ensures
        products_bind_tighter(t, parse_multiplicative(t, p)->Ok_0.0),
    decreases t.len() - p, 3nat,
{
    lemma_unary(t, p);
    let (e, q) = parse_unary(t, p)->Ok_0;
    lemma_multiplicative_tail(t, e, e.span, q);
}

proof fn lemma_multiplicative_tail(t: Seq<SpannedTokenV>, lhs: Node<ExpressionV>, start: Span, p: int)
    requires
        products_bind_tighter(t, lhs),
        multiplicative_tail(t, lhs, start, p) is Ok,
    ensures
        products_bind_tighter(t, multiplicative_tail(t, lhs, start, p)->Ok_0.0),
    decreases t.len() - p, 2nat,
{
    if 0 <= p < t.len() && (t[p].token is Asterisk || t[p].token is Slash) {
        lemma_unary(t, p + 1);
        lemma_unary_not_bare_sum(t, p + 1);
        let (rhs, q) = parse_unary(t, p + 1)->Ok_0;
        let op = if t[p].token is Asterisk { BinaryOpV::Multiply } else { BinaryOpV::Divide };
        let e = Node {
            item: ExpressionV::BinaryExpression {
                lhs: Box::new(lhs),
                op: Node { item: op, span: t[p].span },
                rhs: Box::new(rhs),
                ty: TypeV::Unknown,
            },
            span: span_to(t, start, q),
        };
        assert(products_bind_tighter(t, e));
        lemma_multiplicative_tail(t, e, start, q);
    }
}

proof fn lemma_unary(t: Seq<SpannedTokenV>, p: int)
    requires
        parse_unary(t, p) is Ok,
    ensures
        products_bind_tighter(t, parse_unary(t, p)->Ok_0.0),
    decreases t.len() - p, 1nat,
{
    if 0 <= p < t.len() {
        if t[p].token is Minus || t[p].token is Bang {
            law_products_bind_tighter(t, p + 1);
        } else {
            lemma_base(t, p);
        }
    }
}

proof fn lemma_base(t: Seq<SpannedTokenV>, p: int)
    requires
        parse_base(t, p) is Ok,
    ensures
        products_bind_tighter(t, parse_base(t, p)->Ok_0.0),
    decreases t.len() - p, 0nat,
{
    if 0 <= p < t.len() && t[p].token is OpenParen {
        law_products_bind_tighter(t, p + 1);
    }
}

//////////////////// Statements and blocks ////////////////////

/// Ends a statement that started at `start`: a `;` at `q` is taken; one is
/// required where `needs_semicolon`.
#[verifier::opaque]
pub open spec fn finish_stmt(t: Seq<SpannedTokenV>, s: StatementV, q: int, needs_semicolon: bool, start: Span) -> Parsed<Node<StatementV>> {
    if q < 1 || q >= t.len() {
        Err(out_of_tokens(t, q))
    } else if t[q].token is Semicolon {
        Ok((Node { item: s, span: span_to(t, start, q + 1) }, q + 1))
    } else if needs_semicolon {
        Err(found_error(t, q, "Expected `;` to terminate a statement. Found `"@, "`"@))
    } else {
        Ok((Node { item: s, span: span_to(t, start, q) }, q))
    }
}

/// The rest of `let [mut] name [: type] [= value];` after `let`.
#[verifier::opaque]
pub open spec fn let_stmt(t: Seq<SpannedTokenV>, p: int, start: Span) -> Parsed<Node<StatementV>> {
    if p < 0 || p >= t.len() {
        Err(out_of_tokens(t, p))
    } else {
        let mutable = t[p].token == TokenV::Keyword(Keyword::Mut);
        let p1 = if mutable { p + 1 } else { p };
        if p1 >= t.len() {
            Err(out_of_tokens(t, p1))
        } else {
            match t[p1].token {
                TokenV::Ident(name) => {
                    let p2 = p1 + 1;
                    if p2 >= t.len() {
                        Err(out_of_tokens(t, p2))
                    } else {
                        let typed: Result<(TypeV, int), ParseErrorV> = if t[p2].token is Colon {
                            if p2 + 1 >= t.len() {
                                Err(out_of_tokens(t, p2 + 1))
                            } else {
                                match t[p2 + 1].token {
                                    TokenV::Ident(tn) => Ok((resolve_builtin(tn), p2 + 2)),
                                    _ => Err(found_error(t, p2 + 1, "Expected type after `:`. Found `"@, "`"@)),
                                }
                            }
                        } else {
                            Ok((TypeV::Unknown, p2))
                        };
                        match typed {
                            Err(e) => Err(e),
                            Ok((ty, p4)) => if p4 >= t.len() {
                                Err(out_of_tokens(t, p4))
                            } else if t[p4].token is Equals {
                                match parse_expr(t, p4 + 1) {
                                    Err(e) => Err(e),
                                    Ok((v, q)) => finish_stmt(t, StatementV::Let { ident: name, mutable, ty, value: Some(v) }, q, true, start),
                                }
                            } else {
                                finish_stmt(t, StatementV::Let { ident: name, mutable, ty, value: None }, p4, true, start)
                            },
                        }
                    }
                },
                _ => Err(found_error(t, p1, "Expected identifier after `let`. Found `"@, "`"@)),
            }
        }
    }
}

/// The rest of `return [value];` after `return`: without a value, it returns
/// `()` (at the span of `return`).
#[verifier::opaque]
pub open spec fn return_stmt(t: Seq<SpannedTokenV>, p: int, start: Span) -> Parsed<Node<StatementV>> {
    if p < 1 || p >= t.len() {
        Err(out_of_tokens(t, p))
    } else if t[p].token is Semicolon {
        let unit = Node { item: ExpressionV::Literal { value: Literal::UnitType, ty: TypeV::Unknown }, span: t[p - 1].span };
        finish_stmt(t, StatementV::Return { expression: unit }, p, true, start)
    } else {
        match parse_expr(t, p) {
            Err(e) => Err(e),
            Ok((x, q)) => finish_stmt(t, StatementV::Return { expression: x }, q, true, start),
        }
    }
}

/// The assignment an operator token stands for.
pub open spec fn assignment_of(t: TokenV) -> AssignmentOp {
    match t {
        TokenV::Equals => AssignmentOp::Assign,
        TokenV::Plus => AssignmentOp::AddAssign,
        TokenV::Minus => AssignmentOp::SubtractAssign,
        TokenV::Asterisk => AssignmentOp::MultiplyAssign,
        _ => AssignmentOp::DivideAssign,
    }
}

/// The rest of a statement that starts with the identifier `name`: an
/// assignment `name op= value;` or `name = value;`, or `name` returned.
#[verifier::opaque]
pub open spec fn ident_stmt(t: Seq<SpannedTokenV>, p: int, start: Span, name: Seq<char>) -> Parsed<Node<StatementV>> {
    if p < 1 || p >= t.len() {
        Err(out_of_tokens(t, p))
    } else {
        let op = t[p];
        if op.token is Equals || op.token is Plus || op.token is Minus || op.token is Asterisk || op.token is Slash {
            let p1 = if op.token is Equals { p } else { p + 1 };
            if p1 >= t.len() {
                Err(out_of_tokens(t, p1))
            } else if t[p1].token is Equals {
                let operator = Node { item: assignment_of(op.token), span: span_to(t, op.span, p1 + 1) };
                match parse_expr(t, p1 + 1) {
                    Err(e) => Err(e),
                    Ok((x, q)) => finish_stmt(t, StatementV::Assign {
                        lhs: Node { item: ExpressionV::Ident { name, ty: TypeV::Unknown }, span: start },
                        operator,
                        expression: x,
                    }, q, true, start),
                }
            } else {
                Err(ParseErrorV::Syntax {
                    message: "Expected `"@ + token_display(op.token) + "=` to create an op-assign statement. Found `"@ + token_display(op.token) + "`"@,
                    span: op.span,
                })
            }
        } else if op.token is Semicolon {
            Err(ParseErrorV::Syntax { message: "Identifier as statement does nothing"@, span: op.span })
        } else {
            let x = Node { item: ExpressionV::Ident { name, ty: TypeV::Unknown }, span: span_to(t, start, p) };
            finish_stmt(t, StatementV::ImplicitReturn { expression: x, is_function_return: false }, p, false, start)
        }
    }
}

/// A statement: `let`, `return`, an assignment, or an expression (returned
/// when no `;` follows).
#[verifier::opaque]
pub open spec fn parse_stmt(t: Seq<SpannedTokenV>, p: int) -> Parsed<Node<StatementV>> {
    if p < 0 || p >= t.len() {
        Err(out_of_tokens(t, p))
    } else {
        let start = t[p].span;
        match t[p].token {
            TokenV::Keyword(Keyword::Let) => let_stmt(t, p + 1, start),
            TokenV::Keyword(Keyword::Return) => return_stmt(t, p + 1, start),
            TokenV::Ident(name) => ident_stmt(t, p + 1, start, name),
            _ => match parse_expr(t, p) {
                Err(e) => Err(e),
                Ok((x, q)) => if q < 0 || q >= t.len() {
                    Err(out_of_tokens(t, q))
                } else if t[q].token is Semicolon {
                    finish_stmt(t, StatementV::Expression(x), q, true, start)
                } else {
                    finish_stmt(t, StatementV::ImplicitReturn { expression: x, is_function_return: false }, q, false, start)
                },
            },
        }
    }
}

/// The statements of a block from `p` up to its `}`, after `acc`; the
/// position after the `}`.
pub open spec fn block_stmts(t: Seq<SpannedTokenV>, p: int, acc: Seq<Node<StatementV>>) -> Parsed<Seq<Node<StatementV>>>
    decreases t.len() - p,
{
    if p < 0 || p >= t.len() {
        Err(out_of_tokens(t, p))
    } else if t[p].token is CloseCurlyBrace {
        Ok((acc, p + 1))
    } else {
        match parse_stmt(t, p) {
            Err(e) => Err(e),
            Ok((st, q)) => if p < q <= t.len() {
                block_stmts(t, q, acc.push(st))
            } else {
                Err(out_of_tokens(t, q))
            },
        }
    }
}

/// A block `{ statements }`.
#[verifier::opaque]
pub open spec fn parse_block(t: Seq<SpannedTokenV>, p: int) -> Parsed<Node<BlockExpressionV>> {
    if p < 0 || p >= t.len() {
        Err(out_of_tokens(t, p))
    } else if t[p].token is OpenCurlyBrace {
        let start = t[p].span;
        match block_stmts(t, p + 1, Seq::empty()) {
            Err(e) => Err(e),
            Ok((ss, q)) => if p < q <= t.len() {
                let body = Node { item: ss, span: span_to(t, start, q) };
                Ok((Node { item: BlockExpressionV { block: body, ty: TypeV::Unknown }, span: span_to(t, start, q) }, q))
            } else {
                Err(out_of_tokens(t, q))
            },
        }
    } else {
        Err(found_error(t, p, "Expected `{` to form a statement block implementing a function. Found `"@, "`"@))
    }
}

//////////////////// Functions ////////////////////

/// Parameters from `p` on, after `acc`, up to (not including) the token that
/// ends the list; the position of that token.
pub open spec fn params_loop(t: Seq<SpannedTokenV>, p: int, acc: Seq<Node<FunctionParameterV>>) -> Parsed<Seq<Node<FunctionParameterV>>>
    decreases t.len() - p,
{
    if p < 0 || p >= t.len() {
        Err(out_of_tokens(t, p))
    } else if t[p].token is Comma {
        Err(ParseErrorV::Syntax {
            message: "Only one additional comma is allowed in function parameters following the final parameter"@,
            span: t[p].span,
        })
    } else {
        let span = t[p].span;
        let mutable = t[p].token == TokenV::Keyword(Keyword::Mut);
        let p1 = if mutable { p + 1 } else { p };
        let one: Result<(Seq<Node<FunctionParameterV>>, int), ParseErrorV> = if p1 >= t.len() {
            Err(out_of_tokens(t, p1))
        } else {
            match t[p1].token {
                TokenV::Ident(name) => if p1 + 1 >= t.len() {
                    Err(out_of_tokens(t, p1 + 1))
                } else if t[p1 + 1].token is Colon {
                    if p1 + 2 >= t.len() {
                        Err(out_of_tokens(t, p1 + 2))
                    } else {
                        match t[p1 + 2].token {
                            TokenV::Ident(tn) => Ok((acc.push(Node {
                                item: FunctionParameterV { mutable, name, ty: resolve_builtin(tn) },
                                span: span_to(t, span, p1 + 3),
                            }), p1 + 3)),
                            _ => Err(found_error(t, p1 + 2, "Expected type parameter type after `:`. Found `"@, ""@)),
                        }
                    }
                } else {
                    Err(found_error(t, p1 + 1, "Expected `:` after function parameter. Found `"@, "`"@))
                },
                _ => Ok((acc, p1)),
            }
        };
        match one {
            Err(e) => Err(e),
            Ok((acc1, p4)) => if p4 >= t.len() {
                Err(out_of_tokens(t, p4))
            } else if t[p4].token is Comma {
                params_loop(t, p4 + 1, acc1)
            } else {
                Ok((acc1, p4))
            },
        }
    }
}

/// `param: type, ..)` after `(`.
#[verifier::opaque]
pub open spec fn parse_params(t: Seq<SpannedTokenV>, p: int) -> Parsed<Node<Seq<Node<FunctionParameterV>>>> {
    match params_loop(t, p, Seq::empty()) {
        Err(e) => Err(e),
        Ok((ps, q)) => if q < 1 || q >= t.len() {
            Err(out_of_tokens(t, q))
        } else if t[q].token is CloseParen {
            Ok((Node { item: ps, span: span_to(t, t[p - 1].span, q + 1) }, q + 1))
        } else {
            Err(found_error(t, q, "Expected `)` to end function parameter list. Found `"@, "`"@))
        },
    }
}

/// `name(params) [-> type]` after `fn`.
#[verifier::opaque]
pub open spec fn parse_prototype(t: Seq<SpannedTokenV>, p: int) -> Parsed<Node<FunctionPrototypeV>> {
    if p < 1 || p >= t.len() {
        Err(out_of_tokens(t, p))
    } else {
        let start = t[p - 1].span;
        match t[p].token {
            TokenV::Ident(name) => if p + 1 >= t.len() {
                Err(out_of_tokens(t, p + 1))
            } else if t[p + 1].token is OpenParen {
                match parse_params(t, p + 2) {
                    Err(e) => Err(e),
                    Ok((ps, q)) => {
                        let ret: Result<(TypeV, int), ParseErrorV> = if q >= t.len() {
                            Err(out_of_tokens(t, q))
                        } else if t[q].token is Minus {
                            if q + 1 >= t.len() {
                                Err(out_of_tokens(t, q + 1))
                            } else if t[q + 1].token is RightAngleBracket {
                                if q + 2 >= t.len() {
                                    Err(out_of_tokens(t, q + 2))
                                } else {
                                    match t[q + 2].token {
                                        TokenV::Ident(rt) => Ok((resolve_builtin(rt), q + 3)),
                                        _ => Err(found_error(t, q + 2, "Expected a return type after `->`. Founds `"@, "`"@)),
                                    }
                                }
                            } else {
                                Err(found_error(t, q + 1, "Expected `->`. Found `"@, "`"@))
                            }
                        } else {
                            Ok((TypeV::Unit, q))
                        };
                        match ret {
                            Err(e) => Err(e),
                            Ok((rt, q3)) => Ok((Node {
                                item: FunctionPrototypeV { name, parameters: ps, return_type: rt },
                                span: span_to(t, start, q3),
                            }, q3)),
                        }
                    },
                }
            } else {
                Err(ParseErrorV::Fatal("Expected `(` after function name. Found `"@ + token_display(t[p + 1].token) + "`"@))
            },
            _ => Err(found_error(t, p, "Expected identifier, found `"@, "` while parsing function definition"@)),
        }
    }
}

/// `name(params) [-> type] { body }` after `fn`.
#[verifier::opaque]
pub open spec fn parse_function(t: Seq<SpannedTokenV>, p: int) -> Parsed<Node<FunctionV>> {
    match parse_prototype(t, p) {
        Err(e) => Err(e),
        Ok((proto, q)) => match parse_block(t, q) {
            Err(e) => Err(e),
            Ok((body, q2)) => Ok((Node {
                item: FunctionV { prototype: proto, body, is_public: false },
                span: span_to(t, t[p - 1].span, q2),
            }, q2)),
        },
    }
}

//////////////////// Structs ////////////////////

/// Fields from `p` on, after `acc`, up to the token that ends them.
pub open spec fn fields_loop(t: Seq<SpannedTokenV>, p: int, acc: Seq<Node<StructFieldV>>) -> Parsed<Seq<Node<StructFieldV>>>
    decreases t.len() - p,
{
    if p < 0 || p >= t.len() {
        Err(out_of_tokens(t, p))
    } else if t[p].token is Comma {
        Err(ParseErrorV::Syntax { message: "Only one trailing comma is allowed after struct fields"@, span: t[p].span })
    } else {
        let span = t[p].span;
        let one: Result<(Seq<Node<StructFieldV>>, int), ParseErrorV> = match t[p].token {
            TokenV::Ident(name) => if p + 1 >= t.len() {
                Err(out_of_tokens(t, p + 1))
            } else if t[p + 1].token is Colon {
                if p + 2 >= t.len() {
                    Err(out_of_tokens(t, p + 2))
                } else {
                    match t[p + 2].token {
                        TokenV::Ident(tn) => Ok((acc.push(Node {
                            item: StructFieldV { name, ty: resolve_builtin(tn), is_public: false },
                            span: span_to(t, span, p + 3),
                        }), p + 3)),
                        _ => Err(found_error(t, p + 2, "Expected type parameter type after `:`. Found `"@, ""@)),
                    }
                }
            } else {
                Err(found_error(t, p + 1, "Expected `:` after struct field name. Found `"@, "`"@))
            },
            _ => Ok((acc, p)),
        };
        match one {
            Err(e) => Err(e),
            Ok((acc1, p4)) => if p4 >= t.len() {
                Err(out_of_tokens(t, p4))
            } else if t[p4].token is Comma {
                fields_loop(t, p4 + 1, acc1)
            } else {
                Ok((acc1, p4))
            },
        }
    }
}

/// `field: type, .. }` after `{`.
#[verifier::opaque]
pub open spec fn parse_struct_fields(t: Seq<SpannedTokenV>, p: int) -> Parsed<Node<Seq<Node<StructFieldV>>>> {
    match fields_loop(t, p, Seq::empty()) {
        Err(e) => Err(e),
        Ok((fs, q)) => if q < 1 || q >= t.len() {
            Err(out_of_tokens(t, q))
        } else if t[q].token is CloseCurlyBrace {
            Ok((Node { item: fs, span: span_to(t, t[p - 1].span, q + 1) }, q + 1))
        } else {
            Err(found_error(t, q, "Expected `}` to end struct declaration. Found `"@, "`"@))
        },
    }
}

/// `name { fields }` after `struct`.
#[verifier::opaque]
pub open spec fn parse_struct(t: Seq<SpannedTokenV>, p: int) -> Parsed<Node<StructV>> {
    if p < 1 || p >= t.len() {
        Err(out_of_tokens(t, p))
    } else {
        match t[p].token {
            TokenV::Ident(name) => if p + 1 >= t.len() {
                Err(out_of_tokens(t, p + 1))
            } else if t[p + 1].token is OpenCurlyBrace {
                match parse_struct_fields(t, p + 2) {
                    Err(e) => Err(e),
                    Ok((fields, q)) => Ok((Node {
                        item: StructV { name, fields, is_public: false },
                        span: span_to(t, t[p - 1].span, q),
                    }, q)),
                }
            } else {
                Err(found_error(t, p + 1, "Expected `{` after struct name. Found `"@, "`"@))
            },
            _ => Err(found_error(t, p, "Expected identifier after keyword `struct`. Found `"@, "`"@)),
        }
    }
}

//////////////////// Traits and impls ////////////////////

/// The items of a trait from `p` up to its `}`: required functions (a
/// prototype and `;`) and default functions (with a body); the position
/// after the `}`.
pub open spec fn trait_items(
    t: Seq<SpannedTokenV>,
    p: int,
    required: Seq<Node<FunctionPrototypeV>>,
    defaults: Seq<Node<FunctionV>>,
) -> Parsed<(Seq<Node<FunctionPrototypeV>>, Seq<Node<FunctionV>>)>
    decreases t.len() - p,
{
    if p < 0 || p >= t.len() {
        Err(out_of_tokens(t, p))
    } else if t[p].token is CloseCurlyBrace {
        Ok(((required, defaults), p + 1))
    } else if t[p].token == TokenV::Keyword(Keyword::Fn) {
        match parse_prototype(t, p + 1) {
            Err(e) => Err(e),
            Ok((proto, q)) => if q < p || q >= t.len() {
                Err(out_of_tokens(t, q))
            } else if t[q].token is Semicolon {
                trait_items(t, q + 1, required.push(proto), defaults)
            } else {
                match parse_block(t, q) {
                    Err(e) => Err(e),
                    Ok((body, q2)) => if q < q2 <= t.len() {
                        trait_items(t, q2, required, defaults.push(Node {
                            item: FunctionV { prototype: proto, body, is_public: false },
                            span: span_to(t, t[p].span, q2),
                        }))
                    } else {
                        Err(out_of_tokens(t, q2))
                    },
                }
            },
        }
    } else {
        Err(found_error(t, p, "Expected one of `fn`, `const`, `type`. Found `"@, "`"@))
    }
}

/// `name { items }` after `trait`.
#[verifier::opaque]
pub open spec fn parse_trait(t: Seq<SpannedTokenV>, p: int) -> Parsed<Node<TraitV>> {
    if p < 1 || p >= t.len() {
        Err(out_of_tokens(t, p))
    } else {
        match t[p].token {
            TokenV::Ident(name) => if p + 1 >= t.len() {
                Err(out_of_tokens(t, p + 1))
            } else if t[p + 1].token is OpenCurlyBrace {
                match trait_items(t, p + 2, Seq::empty(), Seq::empty()) {
                    Err(e) => Err(e),
                    Ok((items, q)) => Ok((Node {
                        item: TraitV { name, default_functions: items.1, required_functions: items.0, is_public: false },
                        span: span_to(t, t[p - 1].span, q),
                    }, q)),
                }
            } else {
                Err(found_error(t, p + 1, "Expected `{`, found `"@, "`"@))
            },
            _ => Err(found_error(t, p, "Expected trait identifier. Found `"@, "`"@)),
        }
    }
}

/// The functions of an impl from `p` on (each `fn ...`), after `acc`; the
/// position after them.
pub open spec fn impl_functions(t: Seq<SpannedTokenV>, p: int, acc: Seq<Node<FunctionV>>) -> Parsed<Seq<Node<FunctionV>>>
    decreases t.len() - p,
{
    if p < 0 || p >= t.len() {
        Err(out_of_tokens(t, p))
    } else if t[p].token == TokenV::Keyword(Keyword::Fn) {
        match parse_function(t, p + 1) {
            Err(e) => Err(e),
            Ok((f, q)) => if p < q <= t.len() {
                impl_functions(t, q, acc.push(f))
            } else {
                Err(out_of_tokens(t, q))
            },
        }
    } else {
        Ok((acc, p))
    }
}

/// `{ functions }` of an impl, from its `{` at `p`.
pub open spec fn impl_body(t: Seq<SpannedTokenV>, p: int, start: Span, trait_name: Seq<char>, target_name: Seq<char>) -> Parsed<Node<ImplV>> {
    if p < 0 || p >= t.len() {
        Err(out_of_tokens(t, p))
    } else if t[p].token is OpenCurlyBrace {
        match impl_functions(t, p + 1, Seq::empty()) {
            Err(e) => Err(e),
            Ok((fs, q)) => if q < 1 || q >= t.len() {
                Err(out_of_tokens(t, q))
            } else if t[q].token is CloseCurlyBrace {
                Ok((Node {
                    item: ImplV { trait_name, target_name, functions: fs },
                    span: span_to(t, start, q + 1),
                }, q + 1))
            } else {
                Err(found_error(t, q, "Expected `}`. Found `"@, "`"@))
            },
        }
    } else {
        Err(found_error(t, p, "Expected `{`. Found `"@, "`"@))
    }
}

/// `Trait for Type { .. }` or `Type { .. }` after `impl`; an inherent impl
/// has an empty trait name.
#[verifier::opaque]
pub open spec fn parse_impl(t: Seq<SpannedTokenV>, p: int) -> Parsed<Node<ImplV>> {
    if p < 1 || p >= t.len() {
        Err(out_of_tokens(t, p))
    } else {
        let start = t[p - 1].span;
        match t[p].token {
            TokenV::Ident(name1) => if p + 1 >= t.len() {
                Err(out_of_tokens(t, p + 1))
            } else if t[p + 1].token == TokenV::Keyword(Keyword::For) {
                if p + 2 >= t.len() {
                    Err(out_of_tokens(t, p + 2))
                } else {
                    match t[p + 2].token {
                        TokenV::Ident(target) => impl_body(t, p + 3, start, name1, target),
                        _ => Err(found_error(t, p + 2, "Expected identifier. Found `"@, "`"@)),
                    }
                }
            } else if t[p + 1].token is OpenCurlyBrace {
                impl_body(t, p + 1, start, Seq::empty(), name1)
            } else {
                Err(found_error(t, p + 1, "Expected `for` or `{`. Found `"@, "`"@))
            },
            _ => Err(found_error(t, p, "Expected identifier. Found `"@, "`"@)),
        }
    }
}

//////////////////// Items ////////////////////

/// A top-level item: a function, trait, impl or struct.
#[verifier::opaque]
pub open spec fn parse_top(t: Seq<SpannedTokenV>, p: int) -> Parsed<TopLevelV> {
    if p < 0 || p >= t.len() {
        Err(out_of_tokens(t, p))
    } else {
        match t[p].token {
            TokenV::Keyword(Keyword::Fn) => match parse_function(t, p + 1) {
                Err(e) => Err(e),
                Ok((f, q)) => Ok((TopLevelV::Function(f), q)),
            },
            TokenV::Keyword(Keyword::Trait) => match parse_trait(t, p + 1) {
                Err(e) => Err(e),
                Ok((x, q)) => Ok((TopLevelV::Trait(x), q)),
            },
            TokenV::Keyword(Keyword::Impl) => match parse_impl(t, p + 1) {
                Err(e) => Err(e),
                Ok((x, q)) => Ok((TopLevelV::Impl(x), q)),
            },
            TokenV::Keyword(Keyword::Struct) => match parse_struct(t, p + 1) {
                Err(e) => Err(e),
                Ok((x, q)) => Ok((TopLevelV::Struct(x), q)),
            },
            TokenV::Keyword(_) => Err(found_error(t, p, "Expected one of `fn`, `trait`, `impl`, `struct`. Found unexpected keyword `"@, "`"@)),
            _ => Err(found_error(t, p, "Expected an item (`fn`, `trait`, `impl` or `struct`). Found unexpected token `"@, "`"@)),
        }
    }
}

/// The items from `p` to the end, filed into `a`.
pub open spec fn parse_items(t: Seq<SpannedTokenV>, p: int, a: super::ast::ASTV) -> Result<super::ast::ASTV, ParseErrorV>
    decreases t.len() - p,
{
    if p < 0 || p >= t.len() {
        Ok(a)
    } else {
        match parse_top(t, p) {
            Err(e) => Err(e),
            Ok((item, q)) => if p < q <= t.len() {
                parse_items(t, q, super::ast::insert_top_level(a, item))
            } else {
                Err(out_of_tokens(t, q))
            },
        }
    }
}

} // verus!
