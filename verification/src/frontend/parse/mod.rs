//! The parser: a recursive-descent reading of spanned tokens into the AST.
pub mod ast;
pub mod grammar;

use vstd::prelude::*;

use crate::span::Span;
use crate::text::{copy_str, decimal_string};
use crate::frontend::lex::token::{Keyword, SpannedToken, SpannedTokenV, Token, TokenV, spanned_views};
use crate::frontend::validate::types::{Type, TypeV};
use ast::{
    Expression, ExpressionV, Node, Statement, StatementV, BlockExpression, AssignmentOp,
    FunctionParameter, FunctionPrototype, Function, StructField, Struct, Trait, Impl, TopLevel, AST,
    expr_node_view, stmt_node_view, stmt_views,
    node_view, node_views, list_node_view,
};
use grammar::{
    ParseErrorV, Parsed, parse_expr, parse_additive, additive_tail, parse_multiplicative,
    multiplicative_tail, parse_unary, parse_base, out_of_tokens, found_error, span_to, finish_stmt,
    let_stmt, return_stmt, ident_stmt, parse_stmt, block_stmts, parse_block, params_loop,
    parse_params, parse_prototype, parse_function, fields_loop, parse_struct_fields, parse_struct,
    trait_items, parse_trait, impl_functions, impl_body, parse_impl, parse_top, parse_items,
};

verus! {

/// Why parsing stopped. `Syntax`: the source is not valid here, with the
/// message and the place. `Fatal`: the parser halts, with the message (it
/// ran out of tokens, or reached a case it does not handle).
#[derive(Debug)]
pub enum ParseError {
    Syntax { message: String, span: Span },
    Fatal(String),
}

impl View for ParseError {
    type V = ParseErrorV;

    open spec fn view(&self) -> ParseErrorV {
        match self {
            ParseError::Syntax { message, span } => ParseErrorV::Syntax { message: message@, span: *span },
            ParseError::Fatal(m) => ParseErrorV::Fatal(m@),
        }
    }
}

/// The value of a parse result, given the value of what was parsed and the
/// parser's position after it.
pub open spec fn parsed_view<T, V>(r: Result<T, ParseError>, f: spec_fn(T) -> V, p: int) -> Parsed<V> {
    match r {
        Ok(x) => Ok((f(x), p)),
        Err(e) => Err(e@),
    }
}

/// A parser over a list of spanned tokens.
pub struct Parser {
    file_path: String,
    tokens: Vec<SpannedToken>,
    position: usize,
}

impl Parser {
    /// The tokens being parsed.
    pub closed spec fn tokens(&self) -> Seq<SpannedTokenV> {
        spanned_views(self.tokens@)
    }

    /// The position of the next token to read.
    pub closed spec fn position(&self) -> int {
        self.position as int
    }

    pub closed spec fn well_formed(&self) -> bool {
        self.position <= self.tokens@.len()
    }

    pub closed spec fn file(&self) -> Seq<char> {
        self.file_path@
    }

    pub fn new(file_path: String, tokens: Vec<SpannedToken>) -> (r: Self)
        ensures
            r.well_formed(),
            r.tokens() == spanned_views(tokens@),
            r.position() == 0,
            r.file() == file_path@,
    {
        Parser { file_path, tokens, position: 0 }
    }

    /// The path of the file being parsed.
    pub fn file_path(&self) -> (r: &String)
        ensures
            r@ == self.file(),
    {
        &self.file_path
    }

    /// The error of reading the token at `p`, past the last one.
    fn out_of_tokens(&self, p: usize) -> (e: ParseError)
        ensures
            e@ == out_of_tokens(self.tokens(), p as int),
    {
        let mut m = copy_str("index out of bounds: the len is ");
        let l = decimal_string(self.tokens.len());
        m.append(l.as_str());
        m.append(" but the index is ");
        let i = decimal_string(p);
        m.append(i.as_str());
        ParseError::Fatal(m)
    }

    /// The error "`prefix`<token at p>`suffix`" at the token's span.
    fn found_error(&self, p: usize, prefix: &str, suffix: &str) -> (e: ParseError)
        requires
            p < self.tokens@.len(),
        ensures
            e@ == found_error(self.tokens(), p as int, prefix@, suffix@),
    {
        let mut m = copy_str(prefix);
        let shown = self.tokens[p].token.to_display_string();
        m.append(shown.as_str());
        m.append(suffix);
        ParseError::Syntax { message: m, span: self.tokens[p].span }
    }

    /// The span from the start of `start` to the end of the last token read.
    fn span_to_here(&self, start: Span) -> (s: Span)
        requires
            0 < self.position <= self.tokens@.len(),
        ensures
            s == span_to(self.tokens(), start, self.position()),
    {
        start.extend(self.tokens[self.position - 1].span)
    }

    /// The token at the position, if there is one.
    fn peek(&self) -> (r: Option<&Token>)
        requires
            self.well_formed(),
        ensures
            self.tokens().len() == self.tokens@.len(),
            match r {
                Some(t) => self.position() < self.tokens().len() && t@ == self.tokens()[self.position()].token,
                None => self.position() == self.tokens().len(),
            },
    {
        if self.position < self.tokens.len() {
            Some(&self.tokens[self.position].token)
        } else {
            None
        }
    }

    //////////////// Expressions ////////////////

    /// Parses an expression.
    pub fn parse_expression(&mut self) -> (r: Result<Node<Expression>, ParseError>)
        requires
            old(self).well_formed(),
        ensures
            final(self).well_formed(),
            final(self).tokens() == old(self).tokens(),
            final(self).file() == old(self).file(),
            parsed_view(r, |n: Node<Expression>| expr_node_view(n), final(self).position()) == parse_expr(old(self).tokens(), old(self).position()),
            r is Ok ==> old(self).position() < final(self).position(),
        decreases old(self).tokens().len() - old(self).position(), 6nat,
    {
        self.parse_expression_additive()
    }

    /// Parses operands joined by `+` and `-`.
    fn parse_expression_additive(&mut self) -> (r: Result<Node<Expression>, ParseError>)
        requires
            old(self).well_formed(),
        ensures
            final(self).well_formed(),
            final(self).tokens() == old(self).tokens(),
            final(self).file() == old(self).file(),
            parsed_view(r, |n: Node<Expression>| expr_node_view(n), final(self).position()) == parse_additive(old(self).tokens(), old(self).position()),
            r is Ok ==> old(self).position() < final(self).position(),
        decreases old(self).tokens().len() - old(self).position(), 5nat,
    {
        let expression = self.parse_expression_multiplicative()?;
        let start = expression.span;
        self.additive_tail(expression, start)
    }

    fn additive_tail(&mut self, lhs: Node<Expression>, start: Span) -> (r: Result<Node<Expression>, ParseError>)
        requires
            old(self).well_formed(),
        ensures
            final(self).well_formed(),
            final(self).tokens() == old(self).tokens(),
            final(self).file() == old(self).file(),
            parsed_view(r, |n: Node<Expression>| expr_node_view(n), final(self).position())
                == additive_tail(old(self).tokens(), expr_node_view(lhs), start, old(self).position()),
            r is Ok ==> old(self).position() <= final(self).position(),
        decreases old(self).tokens().len() - old(self).position(), 4nat,
    {
        let p = self.position;
        if p >= self.tokens.len() {
            return Err(self.out_of_tokens(p));
        }
        match &self.tokens[p].token {
            Token::Plus | Token::Minus => {
                let op_span = self.tokens[p].span;
                let op = if let Token::Plus = self.tokens[p].token { ast::BinaryOp::Add } else { ast::BinaryOp::Subtract };
                self.position = p + 1;
                let rhs = self.parse_expression_multiplicative()?;
                let span = self.span_to_here(start);
                let e = Node {
                    item: Expression::BinaryExpression { lhs: Box::new(lhs), op: Node { item: op, span: op_span }, rhs: Box::new(rhs), ty: Type::Unknown },
                    span,
                };
                self.additive_tail(e, start)
            },
            _ => Ok(lhs),
        }
    }

    /// Parses operands joined by `*` and `/`.
    fn parse_expression_multiplicative(&mut self) -> (r: Result<Node<Expression>, ParseError>)
        requires
            old(self).well_formed(),
        ensures
            final(self).well_formed(),
            final(self).tokens() == old(self).tokens(),
            final(self).file() == old(self).file(),
            parsed_view(r, |n: Node<Expression>| expr_node_view(n), final(self).position()) == parse_multiplicative(old(self).tokens(), old(self).position()),
            r is Ok ==> old(self).position() < final(self).position(),
        decreases old(self).tokens().len() - old(self).position(), 3nat,
    {
        let expression = self.parse_expression_unary()?;
        let start = expression.span;
        self.multiplicative_tail(expression, start)
    }

    fn multiplicative_tail(&mut self, lhs: Node<Expression>, start: Span) -> (r: Result<Node<Expression>, ParseError>)
        requires
            old(self).well_formed(),
        ensures
            final(self).well_formed(),
            final(self).tokens() == old(self).tokens(),
            final(self).file() == old(self).file(),
            parsed_view(r, |n: Node<Expression>| expr_node_view(n), final(self).position())
                == multiplicative_tail(old(self).tokens(), expr_node_view(lhs), start, old(self).position()),
            r is Ok ==> old(self).position() <= final(self).position(),
        decreases old(self).tokens().len() - old(self).position(), 2nat,
    {
        let p = self.position;
        if p >= self.tokens.len() {
            return Err(self.out_of_tokens(p));
        }
        match &self.tokens[p].token {
            Token::Asterisk | Token::Slash => {
                let op_span = self.tokens[p].span;
                let op = if let Token::Asterisk = self.tokens[p].token { ast::BinaryOp::Multiply } else { ast::BinaryOp::Divide };
                self.position = p + 1;
                let rhs = self.parse_expression_unary()?;
                let span = self.span_to_here(start);
                let e = Node {
                    item: Expression::BinaryExpression { lhs: Box::new(lhs), op: Node { item: op, span: op_span }, rhs: Box::new(rhs), ty: Type::Unknown },
                    span,
                };
                self.multiplicative_tail(e, start)
            },
            _ => Ok(lhs),
        }
    }

    /// Parses `-` or `!` applied to an expression, or a base expression.
    fn parse_expression_unary(&mut self) -> (r: Result<Node<Expression>, ParseError>)
        requires
            old(self).well_formed(),
        ensures
            final(self).well_formed(),
            final(self).tokens() == old(self).tokens(),
            final(self).file() == old(self).file(),
            parsed_view(r, |n: Node<Expression>| expr_node_view(n), final(self).position()) == parse_unary(old(self).tokens(), old(self).position()),
            r is Ok ==> old(self).position() < final(self).position(),
        decreases old(self).tokens().len() - old(self).position(), 1nat,
    {
        let p = self.position;
        if p >= self.tokens.len() {
            return Err(self.out_of_tokens(p));
        }
        match &self.tokens[p].token {
            Token::Minus | Token::Bang => {
                let op_span = self.tokens[p].span;
                let op = if let Token::Minus = self.tokens[p].token { ast::UnaryOp::Negate } else { ast::UnaryOp::Not };
                self.position = p + 1;
                let x = self.parse_expression()?;
                let span = self.span_to_here(op_span);
                Ok(Node { item: Expression::UnaryExpression { op: Node { item: op, span: op_span }, expr: Box::new(x), ty: Type::Unknown }, span })
            },
            _ => self.parse_expression_base(),
        }
    }

    /// Parses a parenthesized expression, a number or an identifier.
    fn parse_expression_base(&mut self) -> (r: Result<Node<Expression>, ParseError>)
        requires
            old(self).well_formed(),
        ensures
            final(self).well_formed(),
            final(self).tokens() == old(self).tokens(),
            final(self).file() == old(self).file(),
            parsed_view(r, |n: Node<Expression>| expr_node_view(n), final(self).position()) == parse_base(old(self).tokens(), old(self).position()),
            r is Ok ==> old(self).position() < final(self).position(),
        decreases old(self).tokens().len() - old(self).position(), 0nat,
    {
        let p = self.position;
        if p >= self.tokens.len() {
            return Err(self.out_of_tokens(p));
        }
        let start = self.tokens[p].span;
        match &self.tokens[p].token {
            Token::OpenParen => {
                self.position = p + 1;
                let x = self.parse_expression()?;
                let q = self.position;
                match self.peek() {
                    None => Err(self.out_of_tokens(q)),
                    Some(Token::CloseParen) => {
                        self.position = q + 1;
                        let span = self.span_to_here(start);
                        Ok(Node { item: x.item, span })
                    },
                    Some(_) => Err(self.found_error(q, "Expected ')' to end parenthesized expression. Found `", "`")),
                }
            },
            Token::Number(n) => {
                if *n > isize::MAX as usize {
                    return Err(self.found_error(p, "Integer literal out of range: `", "`"));
                }
                let value = ast::Literal::Integer(*n as isize);
                self.position = p + 1;
                Ok(Node { item: Expression::Literal { value, ty: Type::Unknown }, span: start })
            },
            Token::Ident(name) => {
                let name = name.clone();
                self.position = p + 1;
                Ok(Node { item: Expression::Ident { name, ty: Type::Unknown }, span: start })
            },
            _ => Err(self.found_error(p, "Expected a base expression. Found `", "`")),
        }
    }

    //////////////// Statements ////////////////

    /// Ends a statement that started at `start`.
    fn finish_statement(&mut self, statement: Statement, needs_semicolon: bool, start: Span) -> (r: Result<Node<Statement>, ParseError>)
        requires
            old(self).well_formed(),
        ensures
            final(self).well_formed(),
            final(self).tokens() == old(self).tokens(),
            final(self).file() == old(self).file(),
            parsed_view(r, |n: Node<Statement>| stmt_node_view(n), final(self).position())
                == finish_stmt(old(self).tokens(), statement@, old(self).position(), needs_semicolon, start),
            r is Ok ==> old(self).position() <= final(self).position(),
    {
        reveal(finish_stmt);
        let q = self.position;
        if q < 1 || q >= self.tokens.len() {
            return Err(self.out_of_tokens(q));
        }
        if let Token::Semicolon = self.tokens[q].token {
            self.position = q + 1;
            let span = self.span_to_here(start);
            Ok(Node { item: statement, span })
        } else if needs_semicolon {
            Err(self.found_error(q, "Expected `;` to terminate a statement. Found `", "`"))
        } else {
            let span = self.span_to_here(start);
            Ok(Node { item: statement, span })
        }
    }

    /// Parses the rest of a `let` statement.
    fn parse_let(&mut self, start: Span) -> (r: Result<Node<Statement>, ParseError>)
        requires
            old(self).well_formed(),
        ensures
            final(self).well_formed(),
            final(self).tokens() == old(self).tokens(),
            final(self).file() == old(self).file(),
            parsed_view(r, |n: Node<Statement>| stmt_node_view(n), final(self).position())
                == let_stmt(old(self).tokens(), old(self).position(), start),
            r is Ok ==> old(self).position() < final(self).position(),
    {
        reveal(let_stmt);
        let p = self.position;
        if p >= self.tokens.len() {
            return Err(self.out_of_tokens(p));
        }
        let mutable = if let Token::Keyword(Keyword::Mut) = self.tokens[p].token { true } else { false };
        let p1 = if mutable { p + 1 } else { p };
        if p1 >= self.tokens.len() {
            return Err(self.out_of_tokens(p1));
        }
        let name = match &self.tokens[p1].token {
            Token::Ident(name) => name.clone(),
            _ => {
                return Err(self.found_error(p1, "Expected identifier after `let`. Found `", "`"));
            },
        };
        let p2 = p1 + 1;
        if p2 >= self.tokens.len() {
            return Err(self.out_of_tokens(p2));
        }
        let (ty, p4) = if let Token::Colon = self.tokens[p2].token {
            if p2 + 1 >= self.tokens.len() {
                return Err(self.out_of_tokens(p2 + 1));
            }
            match &self.tokens[p2 + 1].token {
                Token::Ident(tn) => (Type::resolve_builtin(tn.as_str()), p2 + 2),
                _ => {
                    return Err(self.found_error(p2 + 1, "Expected type after `:`. Found `", "`"));
                },
            }
        } else {
            (Type::Unknown, p2)
        };
        if p4 >= self.tokens.len() {
            return Err(self.out_of_tokens(p4));
        }
        if let Token::Equals = self.tokens[p4].token {
            self.position = p4 + 1;
            let value = self.parse_expression()?;
            self.finish_statement(Statement::Let { ident: name, mutable, ty, value: Some(value) }, true, start)
        } else {
            self.position = p4;
            self.finish_statement(Statement::Let { ident: name, mutable, ty, value: None }, true, start)
        }
    }

    /// Parses the rest of a `return` statement.
    fn parse_return(&mut self, start: Span) -> (r: Result<Node<Statement>, ParseError>)
        requires
            old(self).well_formed(),
        ensures
            final(self).well_formed(),
            final(self).tokens() == old(self).tokens(),
            final(self).file() == old(self).file(),
            parsed_view(r, |n: Node<Statement>| stmt_node_view(n), final(self).position())
                == return_stmt(old(self).tokens(), old(self).position(), start),
            r is Ok ==> old(self).position() <= final(self).position(),
    {
        reveal(return_stmt);
        let p = self.position;
        if p < 1 || p >= self.tokens.len() {
            return Err(self.out_of_tokens(p));
        }
        if let Token::Semicolon = self.tokens[p].token {
            let unit = Node { item: Expression::Literal { value: ast::Literal::UnitType, ty: Type::Unknown }, span: self.tokens[p - 1].span };
            self.finish_statement(Statement::Return { expression: unit }, true, start)
        } else {
            let x = self.parse_expression()?;
            self.finish_statement(Statement::Return { expression: x }, true, start)
        }
    }

    /// Parses the rest of a statement that starts with the identifier `name`.
    fn parse_ident_statement(&mut self, start: Span, name: String) -> (r: Result<Node<Statement>, ParseError>)
        requires
            old(self).well_formed(),
        ensures
            final(self).well_formed(),
            final(self).tokens() == old(self).tokens(),
            final(self).file() == old(self).file(),
            parsed_view(r, |n: Node<Statement>| stmt_node_view(n), final(self).position())
                == ident_stmt(old(self).tokens(), old(self).position(), start, name@),
            r is Ok ==> old(self).position() <= final(self).position(),
    {
        reveal(ident_stmt);
        let p = self.position;
        if p < 1 || p >= self.tokens.len() {
            return Err(self.out_of_tokens(p));
        }
        let op_span = self.tokens[p].span;
        match &self.tokens[p].token {
            Token::Equals | Token::Plus | Token::Minus | Token::Asterisk | Token::Slash => {
                let is_equals = if let Token::Equals = self.tokens[p].token { true } else { false };
                let p1 = if is_equals { p } else { p + 1 };
                if p1 >= self.tokens.len() {
                    return Err(self.out_of_tokens(p1));
                }
                if let Token::Equals = self.tokens[p1].token {
                    let op = AssignmentOp::from_token(&self.tokens[p]);
                    self.position = p1 + 1;
                    let op_node_span = self.span_to_here(op_span);
                    let x = self.parse_expression()?;
                    let lhs = Node { item: Expression::Ident { name, ty: Type::Unknown }, span: start };
                    self.finish_statement(Statement::Assign { lhs, operator: Node { item: op, span: op_node_span }, expression: x }, true, start)
                } else {
                    let shown = self.tokens[p].token.to_display_string();
                    let mut m = copy_str("Expected `");
                    m.append(shown.as_str());
                    m.append("=` to create an op-assign statement. Found `");
                    m.append(shown.as_str());
                    m.append("`");
                    Err(ParseError::Syntax { message: m, span: op_span })
                }
            },
            Token::Semicolon => Err(ParseError::Syntax { message: copy_str("Identifier as statement does nothing"), span: op_span }),
            _ => {
                let span = self.span_to_here(start);
                let x = Node { item: Expression::Ident { name, ty: Type::Unknown }, span };
                self.finish_statement(Statement::ImplicitReturn { expression: x, is_function_return: false }, false, start)
            },
        }
    }

    /// Parses a statement terminated by `;`; an expression without one is an
    /// implicit return.
    pub fn parse_statement(&mut self) -> (r: Result<Node<Statement>, ParseError>)
        requires
            old(self).well_formed(),
        ensures
            final(self).well_formed(),
            final(self).tokens() == old(self).tokens(),
            final(self).file() == old(self).file(),
            parsed_view(r, |n: Node<Statement>| stmt_node_view(n), final(self).position())
                == parse_stmt(old(self).tokens(), old(self).position()),
            r is Ok ==> old(self).position() < final(self).position(),
    {
        reveal(parse_stmt);
        let p = self.position;
        if p >= self.tokens.len() {
            return Err(self.out_of_tokens(p));
        }
        let start = self.tokens[p].span;
        match &self.tokens[p].token {
            Token::Keyword(Keyword::Let) => {
                self.position = p + 1;
                self.parse_let(start)
            },
            Token::Keyword(Keyword::Return) => {
                self.position = p + 1;
                self.parse_return(start)
            },
            Token::Ident(name) => {
                let name = name.clone();
                self.position = p + 1;
                self.parse_ident_statement(start, name)
            },
            _ => {
                let x = self.parse_expression()?;
                let q = self.position;
                if q >= self.tokens.len() {
                    return Err(self.out_of_tokens(q));
                }
                if let Token::Semicolon = self.tokens[q].token {
                    self.finish_statement(Statement::Expression(x), true, start)
                } else {
                    self.finish_statement(Statement::ImplicitReturn { expression: x, is_function_return: false }, false, start)
                }
            },
        }
    }

    /// The position is at the end of the tokens or at a `}`.
    fn at_block_end(&self) -> (r: bool)
        requires
            self.well_formed(),
        ensures
            self.tokens().len() == self.tokens@.len(),
            r == (self.position() >= self.tokens().len() || self.tokens()[self.position()].token is CloseCurlyBrace),
    {
        if self.position >= self.tokens.len() {
            return true;
        }
        if let Token::CloseCurlyBrace = self.tokens[self.position].token { true } else { false }
    }

    /// Parses a block `{ statements }`.
    pub fn parse_expression_block(&mut self) -> (r: Result<Node<BlockExpression>, ParseError>)
        requires
            old(self).well_formed(),
        ensures
            final(self).well_formed(),
            final(self).tokens() == old(self).tokens(),
            final(self).file() == old(self).file(),
            parsed_view(r, |n: Node<BlockExpression>| node_view(n), final(self).position())
                == parse_block(old(self).tokens(), old(self).position()),
            r is Ok ==> old(self).position() < final(self).position(),
    {
        reveal(parse_block);
        let p = self.position;
        if p >= self.tokens.len() {
            return Err(self.out_of_tokens(p));
        }
        if let Token::OpenCurlyBrace = self.tokens[p].token {
        } else {
            return Err(self.found_error(p, "Expected `{` to form a statement block implementing a function. Found `", "`"));
        }
        let start = self.tokens[p].span;
        self.position = p + 1;
        let ghost t = self.tokens();
        let mut body: Vec<Node<Statement>> = Vec::new();
        proof {
            assert(stmt_views(body@) =~= Seq::<Node<StatementV>>::empty());
        }
        while !self.at_block_end()
            invariant
                self.well_formed(),
                self.tokens() == t,
                self.file() == old(self).file(),
                t == old(self).tokens(),
                p < self.position,
                p == old(self).position(),
                p < t.len(),
                t[p as int].token is OpenCurlyBrace,
                block_stmts(t, self.position(), stmt_views(body@)) == block_stmts(t, p + 1, Seq::empty()),
            decreases self.tokens@.len() - self.position,
        {
            proof {
                reveal(parse_block);
            }
            let st = match self.parse_statement() {
                Err(e) => {
                    return Err(e);
                },
                Ok(st) => st,
            };
            proof {
                assert(stmt_views(body@.push(st)) =~= stmt_views(body@).push(stmt_node_view(st)));
            }
            body.push(st);
        }
        let q = self.position;
        if q >= self.tokens.len() {
            return Err(self.out_of_tokens(q));
        }
        self.position = q + 1;
        let span = self.span_to_here(start);
        let b = BlockExpression { block: Node { item: body, span }, ty: Type::Unknown };
        proof {
            ast::lemma_block_view(Node { item: body, span }, Type::Unknown);
        }
        Ok(Node { item: b, span })
    }

    //////////////// Functions ////////////////

    /// Parses parameters `param: type, ..` up to the token that ends them.
    fn parse_parameter_list(&mut self) -> (r: Result<Vec<Node<FunctionParameter>>, ParseError>)
        requires
            old(self).well_formed(),
        ensures
            final(self).well_formed(),
            final(self).tokens() == old(self).tokens(),
            final(self).file() == old(self).file(),
            parsed_view(r, |v: Vec<Node<FunctionParameter>>| node_views(v@), final(self).position())
                == params_loop(old(self).tokens(), old(self).position(), Seq::empty()),
            r is Ok ==> old(self).position() <= final(self).position(),
    {
        let ghost t = self.tokens();
        let ghost p0 = self.position();
        let mut params: Vec<Node<FunctionParameter>> = Vec::new();
        proof {
            assert(node_views(params@) =~= Seq::<Node<ast::FunctionParameterV>>::empty());
        }
        loop
            invariant
                self.well_formed(),
                self.tokens() == t,
                t == old(self).tokens(),
                self.file() == old(self).file(),
                p0 == old(self).position(),
                p0 <= self.position(),
                params_loop(t, self.position(), node_views(params@)) == params_loop(t, p0, Seq::empty()),
            decreases self.tokens@.len() - self.position,
        {
            let p = self.position;
            if p >= self.tokens.len() {
                return Err(self.out_of_tokens(p));
            }
            if let Token::Comma = self.tokens[p].token {
                return Err(ParseError::Syntax {
                    message: copy_str("Only one additional comma is allowed in function parameters following the final parameter"),
                    span: self.tokens[p].span,
                });
            }
            let span = self.tokens[p].span;
            let mutable = if let Token::Keyword(Keyword::Mut) = self.tokens[p].token { true } else { false };
            let p1 = if mutable { p + 1 } else { p };
            if p1 >= self.tokens.len() {
                return Err(self.out_of_tokens(p1));
            }
            let mut p4 = p1;
            if let Token::Ident(name) = &self.tokens[p1].token {
                if p1 + 1 >= self.tokens.len() {
                    return Err(self.out_of_tokens(p1 + 1));
                }
                if let Token::Colon = self.tokens[p1 + 1].token {
                    if p1 + 2 >= self.tokens.len() {
                        return Err(self.out_of_tokens(p1 + 2));
                    }
                    match &self.tokens[p1 + 2].token {
                        Token::Ident(tn) => {
                            let ty = Type::resolve_builtin(tn.as_str());
                            let name = name.clone();
                            self.position = p1 + 3;
                            let pspan = self.span_to_here(span);
                            let param = Node { item: FunctionParameter { mutable, name, ty }, span: pspan };
                            proof {
                                assert(node_views(params@.push(param)) =~= node_views(params@).push(node_view(param)));
                            }
                            params.push(param);
                            p4 = p1 + 3;
                        },
                        _ => {
                            return Err(self.found_error(p1 + 2, "Expected type parameter type after `:`. Found `", ""));
                        },
                    }
                } else {
                    return Err(self.found_error(p1 + 1, "Expected `:` after function parameter. Found `", "`"));
                }
            }
            if p4 >= self.tokens.len() {
                return Err(self.out_of_tokens(p4));
            }
            if let Token::Comma = self.tokens[p4].token {
                self.position = p4 + 1;
            } else {
                self.position = p4;
                return Ok(params);
            }
        }
    }

    /// Parses `param: type, ..)` after `(`.
    pub fn parse_function_parameters(&mut self) -> (r: Result<Node<Vec<Node<FunctionParameter>>>, ParseError>)
        requires
            old(self).well_formed(),
            old(self).position() >= 1,
        ensures
            final(self).well_formed(),
            final(self).tokens() == old(self).tokens(),
            final(self).file() == old(self).file(),
            parsed_view(r, |n: Node<Vec<Node<FunctionParameter>>>| list_node_view(n), final(self).position())
                == parse_params(old(self).tokens(), old(self).position()),
            r is Ok ==> old(self).position() < final(self).position(),
    {
        reveal(parse_params);
        let start = self.tokens[self.position - 1].span;
        let params = self.parse_parameter_list()?;
        let q = self.position;
        if q < 1 || q >= self.tokens.len() {
            return Err(self.out_of_tokens(q));
        }
        if let Token::CloseParen = self.tokens[q].token {
            self.position = q + 1;
            let span = self.span_to_here(start);
            Ok(Node { item: params, span })
        } else {
            Err(self.found_error(q, "Expected `)` to end function parameter list. Found `", "`"))
        }
    }

    /// Parses `name(params) [-> type]` after `fn`.
    pub fn parse_function_prototype(&mut self) -> (r: Result<Node<FunctionPrototype>, ParseError>)
        requires
            old(self).well_formed(),
        ensures
            final(self).well_formed(),
            final(self).tokens() == old(self).tokens(),
            final(self).file() == old(self).file(),
            parsed_view(r, |n: Node<FunctionPrototype>| node_view(n), final(self).position())
                == parse_prototype(old(self).tokens(), old(self).position()),
            r is Ok ==> old(self).position() < final(self).position(),
            r is Ok ==> old(self).position() >= 1,
    {
        reveal(parse_prototype);
        let p = self.position;
        if p < 1 || p >= self.tokens.len() {
            return Err(self.out_of_tokens(p));
        }
        let start = self.tokens[p - 1].span;
        let name = match &self.tokens[p].token {
            Token::Ident(name) => name.clone(),
            _ => {
                return Err(self.found_error(p, "Expected identifier, found `", "` while parsing function definition"));
            },
        };
        if p + 1 >= self.tokens.len() {
            return Err(self.out_of_tokens(p + 1));
        }
        if let Token::OpenParen = self.tokens[p + 1].token {
        } else {
            let mut m = copy_str("Expected `(` after function name. Found `");
            let shown = self.tokens[p + 1].token.to_display_string();
            m.append(shown.as_str());
            m.append("`");
            return Err(ParseError::Fatal(m));
        }
        self.position = p + 2;
        let parameters = self.parse_function_parameters()?;
        let q = self.position;
        if q >= self.tokens.len() {
            return Err(self.out_of_tokens(q));
        }
        let return_type = if let Token::Minus = self.tokens[q].token {
            if q + 1 >= self.tokens.len() {
                return Err(self.out_of_tokens(q + 1));
            }
            if let Token::RightAngleBracket = self.tokens[q + 1].token {
                if q + 2 >= self.tokens.len() {
                    return Err(self.out_of_tokens(q + 2));
                }
                match &self.tokens[q + 2].token {
                    Token::Ident(rt) => {
                        let ty = Type::resolve_builtin(rt.as_str());
                        self.position = q + 3;
                        ty
                    },
                    _ => {
                        return Err(self.found_error(q + 2, "Expected a return type after `->`. Founds `", "`"));
                    },
                }
            } else {
                return Err(self.found_error(q + 1, "Expected `->`. Found `", "`"));
            }
        } else {
            Type::Unit
        };
        let span = self.span_to_here(start);
        Ok(Node { item: FunctionPrototype { name, parameters, return_type }, span })
    }

    /// Parses `name(params) [-> type] { body }` after `fn`.
    pub fn parse_function_definition(&mut self) -> (r: Result<Node<Function>, ParseError>)
        requires
            old(self).well_formed(),
        ensures
            final(self).well_formed(),
            final(self).tokens() == old(self).tokens(),
            final(self).file() == old(self).file(),
            parsed_view(r, |n: Node<Function>| node_view(n), final(self).position())
                == parse_function(old(self).tokens(), old(self).position()),
            r is Ok ==> old(self).position() < final(self).position(),
    {
        reveal(parse_function);
        let p = self.position;
        let prototype = self.parse_function_prototype()?;
        let start = self.tokens[p - 1].span;
        let body = self.parse_expression_block()?;
        let span = self.span_to_here(start);
        Ok(Node { item: Function { prototype, body, is_public: false }, span })
    }

    //////////////// Structs ////////////////

    /// Parses fields `name: type, ..` up to the token that ends them.
    fn parse_field_list(&mut self) -> (r: Result<Vec<Node<StructField>>, ParseError>)
        requires
            old(self).well_formed(),
        ensures
            final(self).well_formed(),
            final(self).tokens() == old(self).tokens(),
            final(self).file() == old(self).file(),
            parsed_view(r, |v: Vec<Node<StructField>>| node_views(v@), final(self).position())
                == fields_loop(old(self).tokens(), old(self).position(), Seq::empty()),
            r is Ok ==> old(self).position() <= final(self).position(),
    {
        let ghost t = self.tokens();
        let ghost p0 = self.position();
        let mut fields: Vec<Node<StructField>> = Vec::new();
        proof {
            assert(node_views(fields@) =~= Seq::<Node<ast::StructFieldV>>::empty());
        }
        loop
            invariant
                self.well_formed(),
                self.tokens() == t,
                t == old(self).tokens(),
                self.file() == old(self).file(),
                p0 == old(self).position(),
                p0 <= self.position(),
                fields_loop(t, self.position(), node_views(fields@)) == fields_loop(t, p0, Seq::empty()),
            decreases self.tokens@.len() - self.position,
        {
            let p = self.position;
            if p >= self.tokens.len() {
                return Err(self.out_of_tokens(p));
            }
            if let Token::Comma = self.tokens[p].token {
                return Err(ParseError::Syntax {
                    message: copy_str("Only one trailing comma is allowed after struct fields"),
                    span: self.tokens[p].span,
                });
            }
            let span = self.tokens[p].span;
            let mut p4 = p;
            if let Token::Ident(name) = &self.tokens[p].token {
                if p + 1 >= self.tokens.len() {
                    return Err(self.out_of_tokens(p + 1));
                }
                if let Token::Colon = self.tokens[p + 1].token {
                    if p + 2 >= self.tokens.len() {
                        return Err(self.out_of_tokens(p + 2));
                    }
                    match &self.tokens[p + 2].token {
                        Token::Ident(tn) => {
                            let ty = Type::resolve_builtin(tn.as_str());
                            let name = name.clone();
                            self.position = p + 3;
                            let fspan = self.span_to_here(span);
                            let field = Node { item: StructField { name, ty, is_public: false }, span: fspan };
                            proof {
                                assert(node_views(fields@.push(field)) =~= node_views(fields@).push(node_view(field)));
                            }
                            fields.push(field);
                            p4 = p + 3;
                        },
                        _ => {
                            return Err(self.found_error(p + 2, "Expected type parameter type after `:`. Found `", ""));
                        },
                    }
                } else {
                    return Err(self.found_error(p + 1, "Expected `:` after struct field name. Found `", "`"));
                }
            }
            if p4 >= self.tokens.len() {
                return Err(self.out_of_tokens(p4));
            }
            if let Token::Comma = self.tokens[p4].token {
                self.position = p4 + 1;
            } else {
                self.position = p4;
                return Ok(fields);
            }
        }
    }

    /// Parses `name: type, .. }` after `{`.
    pub fn parse_struct_fields(&mut self) -> (r: Result<Node<Vec<Node<StructField>>>, ParseError>)
        requires
            old(self).well_formed(),
            old(self).position() >= 1,
        ensures
            final(self).well_formed(),
            final(self).tokens() == old(self).tokens(),
            final(self).file() == old(self).file(),
            parsed_view(r, |n: Node<Vec<Node<StructField>>>| list_node_view(n), final(self).position())
                == parse_struct_fields(old(self).tokens(), old(self).position()),
            r is Ok ==> old(self).position() < final(self).position(),
    {
        reveal(parse_struct_fields);
        let start = self.tokens[self.position - 1].span;
        let fields = self.parse_field_list()?;
        let q = self.position;
        if q < 1 || q >= self.tokens.len() {
            return Err(self.out_of_tokens(q));
        }
        if let Token::CloseCurlyBrace = self.tokens[q].token {
            self.position = q + 1;
            let span = self.span_to_here(start);
            Ok(Node { item: fields, span })
        } else {
            Err(self.found_error(q, "Expected `}` to end struct declaration. Found `", "`"))
        }
    }

    /// Parses `name { fields }` after `struct`.
    pub fn parse_struct_definition(&mut self) -> (r: Result<Node<Struct>, ParseError>)
        requires
            old(self).well_formed(),
        ensures
            final(self).well_formed(),
            final(self).tokens() == old(self).tokens(),
            final(self).file() == old(self).file(),
            parsed_view(r, |n: Node<Struct>| node_view(n), final(self).position())
                == parse_struct(old(self).tokens(), old(self).position()),
            r is Ok ==> old(self).position() < final(self).position(),
    {
        reveal(parse_struct);
        let p = self.position;
        if p < 1 || p >= self.tokens.len() {
            return Err(self.out_of_tokens(p));
        }
        let start = self.tokens[p - 1].span;
        let name = match &self.tokens[p].token {
            Token::Ident(name) => name.clone(),
            _ => {
                return Err(self.found_error(p, "Expected identifier after keyword `struct`. Found `", "`"));
            },
        };
        if p + 1 >= self.tokens.len() {
            return Err(self.out_of_tokens(p + 1));
        }
        if let Token::OpenCurlyBrace = self.tokens[p + 1].token {
        } else {
            return Err(self.found_error(p + 1, "Expected `{` after struct name. Found `", "`"));
        }
        self.position = p + 2;
        let fields = self.parse_struct_fields()?;
        let span = self.span_to_here(start);
        Ok(Node { item: Struct { name, fields, is_public: false }, span })
    }

    //////////////// Traits and impls ////////////////

    /// Parses `name { items }` after `trait`.
    pub fn parse_trait_definition(&mut self) -> (r: Result<Node<Trait>, ParseError>)
        requires
            old(self).well_formed(),
        ensures
            final(self).well_formed(),
            final(self).tokens() == old(self).tokens(),
            final(self).file() == old(self).file(),
            parsed_view(r, |n: Node<Trait>| node_view(n), final(self).position())
                == parse_trait(old(self).tokens(), old(self).position()),
            r is Ok ==> old(self).position() < final(self).position(),
    {
        reveal(parse_trait);
        let p = self.position;
        if p < 1 || p >= self.tokens.len() {
            return Err(self.out_of_tokens(p));
        }
        let start = self.tokens[p - 1].span;
        let name = match &self.tokens[p].token {
            Token::Ident(name) => name.clone(),
            _ => {
                return Err(self.found_error(p, "Expected trait identifier. Found `", "`"));
            },
        };
        if p + 1 >= self.tokens.len() {
            return Err(self.out_of_tokens(p + 1));
        }
        if let Token::OpenCurlyBrace = self.tokens[p + 1].token {
        } else {
            return Err(self.found_error(p + 1, "Expected `{`, found `", "`"));
        }
        self.position = p + 2;
        let ghost t = self.tokens();
        let mut required_functions: Vec<Node<FunctionPrototype>> = Vec::new();
        let mut default_functions: Vec<Node<Function>> = Vec::new();
        proof {
            assert(node_views(required_functions@) =~= Seq::<Node<ast::FunctionPrototypeV>>::empty());
            assert(node_views(default_functions@) =~= Seq::<Node<ast::FunctionV>>::empty());
        }
        loop
            invariant
                self.well_formed(),
                self.tokens() == t,
                t == old(self).tokens(),
                self.file() == old(self).file(),
                p == old(self).position(),
                1 <= p < t.len(),
                t[p as int].token == TokenV::Ident(name@),
                t[p + 1].token is OpenCurlyBrace,
                start == t[p - 1].span,
                p < self.position(),
                trait_items(t, self.position(), node_views(required_functions@), node_views(default_functions@))
                    == trait_items(t, p + 2, Seq::empty(), Seq::empty()),
            decreases self.tokens@.len() - self.position,
        {
            proof {
                reveal(parse_trait);
            }
            let q = self.position;
            if q >= self.tokens.len() {
                return Err(self.out_of_tokens(q));
            }
            if let Token::CloseCurlyBrace = self.tokens[q].token {
                self.position = q + 1;
                let span = self.span_to_here(start);
                return Ok(Node {
                    item: Trait { name, default_functions, required_functions, is_public: false },
                    span,
                });
            }
            if let Token::Keyword(Keyword::Fn) = self.tokens[q].token {
            } else {
                return Err(self.found_error(q, "Expected one of `fn`, `const`, `type`. Found `", "`"));
            }
            let fn_start = self.tokens[q].span;
            self.position = q + 1;
            let prototype = match self.parse_function_prototype() {
                Err(e) => {
                    return Err(e);
                },
                Ok(x) => x,
            };
            let q1 = self.position;
            if q1 >= self.tokens.len() {
                return Err(self.out_of_tokens(q1));
            }
            if let Token::Semicolon = self.tokens[q1].token {
                self.position = q1 + 1;
                proof {
                    assert(node_views(required_functions@.push(prototype)) =~= node_views(required_functions@).push(node_view(prototype)));
                }
                required_functions.push(prototype);
            } else {
                let body = match self.parse_expression_block() {
                    Err(e) => {
                        return Err(e);
                    },
                    Ok(x) => x,
                };
                let span = self.span_to_here(fn_start);
                let f = Node { item: Function { prototype, body, is_public: false }, span };
                proof {
                    assert(node_views(default_functions@.push(f)) =~= node_views(default_functions@).push(node_view(f)));
                }
                default_functions.push(f);
            }
        }
    }

    /// Parses the functions of an impl.
    fn parse_impl_functions(&mut self) -> (r: Result<Vec<Node<Function>>, ParseError>)
        requires
            old(self).well_formed(),
        ensures
            final(self).well_formed(),
            final(self).tokens() == old(self).tokens(),
            final(self).file() == old(self).file(),
            parsed_view(r, |v: Vec<Node<Function>>| node_views(v@), final(self).position())
                == impl_functions(old(self).tokens(), old(self).position(), Seq::empty()),
            r is Ok ==> old(self).position() <= final(self).position(),
    {
        let ghost t = self.tokens();
        let ghost p0 = self.position();
        let mut functions: Vec<Node<Function>> = Vec::new();
        proof {
            assert(node_views(functions@) =~= Seq::<Node<ast::FunctionV>>::empty());
        }
        loop
            invariant
                self.well_formed(),
                self.tokens() == t,
                t == old(self).tokens(),
                self.file() == old(self).file(),
                p0 == old(self).position(),
                p0 <= self.position(),
                impl_functions(t, self.position(), node_views(functions@)) == impl_functions(t, p0, Seq::empty()),
            decreases self.tokens@.len() - self.position,
        {
            let p = self.position;
            if p >= self.tokens.len() {
                return Err(self.out_of_tokens(p));
            }
            if let Token::Keyword(Keyword::Fn) = self.tokens[p].token {
            } else {
                return Ok(functions);
            }
            self.position = p + 1;
            let f = match self.parse_function_definition() {
                Err(e) => {
                    return Err(e);
                },
                Ok(f) => f,
            };
            proof {
                assert(node_views(functions@.push(f)) =~= node_views(functions@).push(node_view(f)));
            }
            functions.push(f);
        }
    }

    /// Parses `{ functions }` of an impl from its `{`.
    fn parse_impl_body(&mut self, start: Span, trait_name: String, target_name: String) -> (r: Result<Node<Impl>, ParseError>)
        requires
            old(self).well_formed(),
        ensures
            final(self).well_formed(),
            final(self).tokens() == old(self).tokens(),
            final(self).file() == old(self).file(),
            parsed_view(r, |n: Node<Impl>| node_view(n), final(self).position())
                == impl_body(old(self).tokens(), old(self).position(), start, trait_name@, target_name@),
            r is Ok ==> old(self).position() < final(self).position(),
    {
        let p = self.position;
        if p >= self.tokens.len() {
            return Err(self.out_of_tokens(p));
        }
        if let Token::OpenCurlyBrace = self.tokens[p].token {
        } else {
            return Err(self.found_error(p, "Expected `{`. Found `", "`"));
        }
        self.position = p + 1;
        let functions = self.parse_impl_functions()?;
        let q = self.position;
        if q < 1 || q >= self.tokens.len() {
            return Err(self.out_of_tokens(q));
        }
        if let Token::CloseCurlyBrace = self.tokens[q].token {
            self.position = q + 1;
            let span = self.span_to_here(start);
            Ok(Node { item: Impl { trait_name, target_name, functions }, span })
        } else {
            Err(self.found_error(q, "Expected `}`. Found `", "`"))
        }
    }

    /// Parses `Trait for Type { .. }` or `Type { .. }` after `impl`.
    pub fn parse_impl(&mut self) -> (r: Result<Node<Impl>, ParseError>)
        requires
            old(self).well_formed(),
        ensures
            final(self).well_formed(),
            final(self).tokens() == old(self).tokens(),
            final(self).file() == old(self).file(),
            parsed_view(r, |n: Node<Impl>| node_view(n), final(self).position())
                == parse_impl(old(self).tokens(), old(self).position()),
            r is Ok ==> old(self).position() < final(self).position(),
    {
        reveal(parse_impl);
        let p = self.position;
        if p < 1 || p >= self.tokens.len() {
            return Err(self.out_of_tokens(p));
        }
        let start = self.tokens[p - 1].span;
        let name1 = match &self.tokens[p].token {
            Token::Ident(name) => name.clone(),
            _ => {
                return Err(self.found_error(p, "Expected identifier. Found `", "`"));
            },
        };
        if p + 1 >= self.tokens.len() {
            return Err(self.out_of_tokens(p + 1));
        }
        match &self.tokens[p + 1].token {
            Token::Keyword(Keyword::For) => {
                if p + 2 >= self.tokens.len() {
                    return Err(self.out_of_tokens(p + 2));
                }
                let target = match &self.tokens[p + 2].token {
                    Token::Ident(target) => target.clone(),
                    _ => {
                        return Err(self.found_error(p + 2, "Expected identifier. Found `", "`"));
                    },
                };
                self.position = p + 3;
                self.parse_impl_body(start, name1, target)
            },
            Token::OpenCurlyBrace => {
                self.position = p + 1;
                self.parse_impl_body(start, String::new(), name1)
            },
            _ => Err(self.found_error(p + 1, "Expected `for` or `{`. Found `", "`")),
        }
    }

    //////////////// Items ////////////////

    /// Parses a top-level item: a function, trait, impl or struct.
    pub fn parse_top_level(&mut self) -> (r: Result<TopLevel, ParseError>)
        requires
            old(self).well_formed(),
        ensures
            final(self).well_formed(),
            final(self).tokens() == old(self).tokens(),
            final(self).file() == old(self).file(),
            parsed_view(r, |x: TopLevel| x@, final(self).position()) == parse_top(old(self).tokens(), old(self).position()),
            r is Ok ==> old(self).position() < final(self).position(),
            r matches Ok(x) ==> !(x is ConstDeclaration),
    {
        reveal(parse_top);
        let p = self.position;
        if p >= self.tokens.len() {
            return Err(self.out_of_tokens(p));
        }
        match &self.tokens[p].token {
            Token::Keyword(Keyword::Fn) => {
                self.position = p + 1;
                let f = self.parse_function_definition()?;
                Ok(TopLevel::Function(f))
            },
            Token::Keyword(Keyword::Trait) => {
                self.position = p + 1;
                let x = self.parse_trait_definition()?;
                Ok(TopLevel::Trait(x))
            },
            Token::Keyword(Keyword::Impl) => {
                self.position = p + 1;
                let x = self.parse_impl()?;
                Ok(TopLevel::Impl(x))
            },
            Token::Keyword(Keyword::Struct) => {
                self.position = p + 1;
                let x = self.parse_struct_definition()?;
                Ok(TopLevel::Struct(x))
            },
            Token::Keyword(_) => Err(self.found_error(p, "Expected one of `fn`, `trait`, `impl`, `struct`. Found unexpected keyword `", "`")),
            _ => Err(self.found_error(p, "Expected an item (`fn`, `trait`, `impl` or `struct`). Found unexpected token `", "`")),
        }
    }

    /// Parses the remaining items into the AST of module `module`.
    pub fn parse_ast(&mut self, module: String) -> (r: Result<AST, ParseError>)
        requires
            old(self).well_formed(),
        ensures
            final(self).well_formed(),
            final(self).tokens() == old(self).tokens(),
            match r {
                Ok(a) => parse_items(old(self).tokens(), old(self).position(), ast::empty_ast(module@)) == Ok::<ast::ASTV, ParseErrorV>(a@),
                Err(e) => parse_items(old(self).tokens(), old(self).position(), ast::empty_ast(module@)) == Err::<ast::ASTV, ParseErrorV>(e@),
            },
    {
        let ghost t = self.tokens();
        let ghost p0 = self.position();
        let ghost m = module@;
        let mut a = AST::new(module);
        while self.position < self.tokens.len()
            invariant
                self.well_formed(),
                self.tokens() == t,
                t == old(self).tokens(),
                p0 == old(self).position(),
                m == module@,
                parse_items(t, self.position(), a@) == parse_items(t, p0, ast::empty_ast(m)),
            decreases self.tokens@.len() - self.position,
        {
            let item = match self.parse_top_level() {
                Err(e) => {
                    return Err(e);
                },
                Ok(item) => item,
            };
            a.insert_top_level(item);
        }
        Ok(a)
    }
}

} // verus!
