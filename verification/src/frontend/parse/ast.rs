//! The abstract syntax tree, and its values.
use vstd::prelude::*;

use crate::span::Span;
use crate::frontend::lex::token::{Token, TokenV, token_views};
use crate::frontend::validate::types::{Type, TypeV};

verus! {

/// An AST item together with the span of source it was parsed from.
#[derive(Debug)]
pub struct Node<NodeType> {
    pub item: NodeType,
    pub span: Span,
}

impl<T> Node<T> {
    pub fn new(item: T, span: Span) -> (r: Self)
        ensures
            r.item == item,
            r.span == span,
    {
        Node { item, span }
    }
}

/// `use a::b::c;` holds the path `[a, b, c]`.
#[derive(Debug)]
pub struct Use {
    pub path: Vec<String>,
}

pub type ExternBlock = Vec<Node<FunctionPrototype>>;

#[derive(Debug)]
pub struct Function {
    pub prototype: Node<FunctionPrototype>,
    pub body: Node<BlockExpression>,
    pub is_public: bool,
}

/// A custom operator and the function it stands for.
#[derive(Debug)]
pub struct Operator {
    pub pattern: Vec<Token>,
    pub associated_function: String,
    pub is_binary: bool,
    pub is_public: bool,
}

#[derive(Debug)]
pub struct Trait {
    pub name: String,
    pub default_functions: Vec<Node<Function>>,
    pub required_functions: Vec<Node<FunctionPrototype>>,
    pub is_public: bool,
}

#[derive(Debug)]
pub struct Impl {
    pub trait_name: String,
    pub target_name: String,
    pub functions: Vec<Node<Function>>,
}

#[derive(Debug)]
pub struct FunctionPrototype {
    pub name: String,
    pub parameters: Node<FunctionParameterList>,
    pub return_type: Type,
}

#[derive(Debug)]
pub struct Struct {
    pub name: String,
    pub fields: Node<StructFieldList>,
    pub is_public: bool,
}

pub type StructFieldList = Vec<Node<StructField>>;

#[derive(Debug)]
pub struct StructField {
    pub name: String,
    pub ty: Type,
    pub is_public: bool,
}

pub type FunctionParameterList = Vec<Node<FunctionParameter>>;

#[derive(Debug)]
pub struct FunctionParameter {
    pub mutable: bool,
    pub name: String,
    pub ty: Type,
}

#[derive(Debug)]
pub enum Statement {
    Let { ident: String, mutable: bool, ty: Type, value: Option<Node<Expression>> },
    Assign { lhs: Node<Expression>, operator: Node<AssignmentOp>, expression: Node<Expression> },
    ImplicitReturn { expression: Node<Expression>, is_function_return: bool },
    Return { expression: Node<Expression> },
    Expression(Node<Expression>),
}

#[derive(Debug)]
#[allow(inconsistent_fields)]
pub enum Expression {
    BinaryExpression { lhs: Box<Node<Expression>>, op: Node<BinaryOp>, rhs: Box<Node<Expression>>, ty: Type },
    UnaryExpression { op: Node<UnaryOp>, expr: Box<Node<Expression>>, ty: Type },
    /// Constructor for a type with fields: the type, and (field name, value)
    /// pairs.
    FieldConstructor { ty: Type, fields: Vec<(String, Node<Expression>)> },
    /// Accessing a field: the `lhs` of `lhs.field`, the field, and the field's
    /// type.
    FieldAccess { base_expr: Box<Node<Expression>>, field: String, ty: Type },
    /// Call of a function by name with its inputs in order, and the type it
    /// returns.
    FunctionCall { name: String, inputs: Vec<Node<Expression>>, ty: Type },
    Block(BlockExpression),
    Literal { value: Literal, ty: Type },
    Ident { name: String, ty: Type },
}

#[derive(Debug)]
pub struct BlockExpression {
    pub block: Node<Vec<Node<Statement>>>,
    pub ty: Type,
}

/// A literal value.
#[derive(Debug, Clone, Copy, PartialEq, Eq, Structural)]
pub enum Literal {
    /// Integer of any type
    Integer(isize),
    /// Floating point number of any type, held as its IEEE 754 bit pattern
    Float(u64),
    /// `()` type
    UnitType,
}

#[derive(Debug)]
pub enum UnaryOp {
    Negate,
    Not,
    Custom(Vec<Token>),
}

#[derive(Debug)]
pub enum BinaryOp {
    Add,
    Subtract,
    Multiply,
    Divide,
    Custom(Vec<Token>),
}

#[derive(Debug, Clone, Copy, PartialEq, Eq, Structural)]
pub enum AssignmentOp {
    Assign,
    AddAssign,
    SubtractAssign,
    MultiplyAssign,
    DivideAssign,
}

/// An AST held as indexed parts: all top-level items of one kind can be
/// iterated over without walking the tree.
#[derive(Debug)]
pub struct AST {
    pub module: String,
    pub externs: Vec<Node<ExternBlock>>,
    pub functions: Vec<Node<Function>>,
    pub operators: Vec<Operator>,
    pub traits: Vec<Node<Trait>>,
    pub impls: Vec<Node<Impl>>,
    pub structs: Vec<Node<Struct>>,
    pub uses: Vec<Node<Use>>,
}

#[derive(Debug)]
pub enum TopLevel {
    ExternBlock(Node<ExternBlock>),
    Function(Node<Function>),
    Operator(Node<Operator>, Node<Function>),
    Trait(Node<Trait>),
    Impl(Node<Impl>),
    Struct(Node<Struct>),
    Use(Node<Use>),
    ConstDeclaration,
}

//////////////////// Values ////////////////////

pub enum UnaryOpV {
    Negate,
    Not,
    Custom(Seq<TokenV>),
}

pub enum BinaryOpV {
    Add,
    Subtract,
    Multiply,
    Divide,
    Custom(Seq<TokenV>),
}

#[allow(inconsistent_fields)]
pub enum ExpressionV {
    BinaryExpression { lhs: Box<Node<ExpressionV>>, op: Node<BinaryOpV>, rhs: Box<Node<ExpressionV>>, ty: TypeV },
    UnaryExpression { op: Node<UnaryOpV>, expr: Box<Node<ExpressionV>>, ty: TypeV },
    FieldConstructor { ty: TypeV, fields: Seq<(Seq<char>, Node<ExpressionV>)> },
    FieldAccess { base_expr: Box<Node<ExpressionV>>, field: Seq<char>, ty: TypeV },
    FunctionCall { name: Seq<char>, inputs: Seq<Node<ExpressionV>>, ty: TypeV },
    Block(BlockExpressionV),
    Literal { value: Literal, ty: TypeV },
    Ident { name: Seq<char>, ty: TypeV },
}

pub struct BlockExpressionV {
    pub block: Node<Seq<Node<StatementV>>>,
    pub ty: TypeV,
}

pub enum StatementV {
    Let { ident: Seq<char>, mutable: bool, ty: TypeV, value: Option<Node<ExpressionV>> },
    Assign { lhs: Node<ExpressionV>, operator: Node<AssignmentOp>, expression: Node<ExpressionV> },
    ImplicitReturn { expression: Node<ExpressionV>, is_function_return: bool },
    Return { expression: Node<ExpressionV> },
    Expression(Node<ExpressionV>),
}

pub struct FunctionParameterV {
    pub mutable: bool,
    pub name: Seq<char>,
    pub ty: TypeV,
}

pub struct FunctionPrototypeV {
    pub name: Seq<char>,
    pub parameters: Node<Seq<Node<FunctionParameterV>>>,
    pub return_type: TypeV,
}

pub struct FunctionV {
    pub prototype: Node<FunctionPrototypeV>,
    pub body: Node<BlockExpressionV>,
    pub is_public: bool,
}

pub struct StructFieldV {
    pub name: Seq<char>,
    pub ty: TypeV,
    pub is_public: bool,
}

pub struct StructV {
    pub name: Seq<char>,
    pub fields: Node<Seq<Node<StructFieldV>>>,
    pub is_public: bool,
}

pub struct TraitV {
    pub name: Seq<char>,
    pub default_functions: Seq<Node<FunctionV>>,
    pub required_functions: Seq<Node<FunctionPrototypeV>>,
    pub is_public: bool,
}

pub struct ImplV {
    pub trait_name: Seq<char>,
    pub target_name: Seq<char>,
    pub functions: Seq<Node<FunctionV>>,
}

pub struct OperatorV {
    pub pattern: Seq<TokenV>,
    pub associated_function: Seq<char>,
    pub is_binary: bool,
    pub is_public: bool,
}

pub struct UseV {
    pub path: Seq<Seq<char>>,
}

#[verifier::ext_equal]
pub struct ASTV {
    pub module: Seq<char>,
    pub externs: Seq<Node<Seq<Node<FunctionPrototypeV>>>>,
    pub functions: Seq<Node<FunctionV>>,
    pub operators: Seq<OperatorV>,
    pub traits: Seq<Node<TraitV>>,
    pub impls: Seq<Node<ImplV>>,
    pub structs: Seq<Node<StructV>>,
    pub uses: Seq<Node<UseV>>,
}

pub open spec fn unary_op_view(op: UnaryOp) -> UnaryOpV {
    match op {
        UnaryOp::Negate => UnaryOpV::Negate,
        UnaryOp::Not => UnaryOpV::Not,
        UnaryOp::Custom(ts) => UnaryOpV::Custom(token_views(ts@)),
    }
}

pub open spec fn binary_op_view(op: BinaryOp) -> BinaryOpV {
    match op {
        BinaryOp::Add => BinaryOpV::Add,
        BinaryOp::Subtract => BinaryOpV::Subtract,
        BinaryOp::Multiply => BinaryOpV::Multiply,
        BinaryOp::Divide => BinaryOpV::Divide,
        BinaryOp::Custom(ts) => BinaryOpV::Custom(token_views(ts@)),
    }
}

pub open spec fn expr_node_view(n: Node<Expression>) -> Node<ExpressionV>
    decreases n, 1nat,
{
    Node { item: expr_view(n.item), span: n.span }
}

pub open spec fn expr_view(e: Expression) -> ExpressionV
    decreases e, 0nat,
{
    match e {
        Expression::BinaryExpression { lhs, op, rhs, ty } => ExpressionV::BinaryExpression {
            lhs: Box::new(expr_node_view(*lhs)),
            op: Node { item: binary_op_view(op.item), span: op.span },
            rhs: Box::new(expr_node_view(*rhs)),
            ty: ty@,
        },
        Expression::UnaryExpression { op, expr, ty } => ExpressionV::UnaryExpression {
            op: Node { item: unary_op_view(op.item), span: op.span },
            expr: Box::new(expr_node_view(*expr)),
            ty: ty@,
        },
        Expression::FieldConstructor { ty, fields } => ExpressionV::FieldConstructor {
            ty: ty@,
            fields: Seq::new(
                fields@.len(),
                |i: int| if 0 <= i < fields@.len() {
                    (fields@[i].0@, expr_node_view(fields@[i].1))
                } else {
                    (Seq::empty(), Node { item: ExpressionV::Literal { value: Literal::UnitType, ty: TypeV::Unknown }, span: Span { start_line: 0, start_column: 0, end_line: 0, end_column: 0 } })
                },
            ),
        },
        Expression::FieldAccess { base_expr, field, ty } => ExpressionV::FieldAccess {
            base_expr: Box::new(expr_node_view(*base_expr)),
            field: field@,
            ty: ty@,
        },
        Expression::FunctionCall { name, inputs, ty } => ExpressionV::FunctionCall {
            name: name@,
            inputs: Seq::new(
                inputs@.len(),
                |i: int| if 0 <= i < inputs@.len() {
                    expr_node_view(inputs@[i])
                } else {
                    Node { item: ExpressionV::Literal { value: Literal::UnitType, ty: TypeV::Unknown }, span: Span { start_line: 0, start_column: 0, end_line: 0, end_column: 0 } }
                },
            ),
            ty: ty@,
        },
        Expression::Block(b) => ExpressionV::Block(block_view(b)),
        Expression::Literal { value, ty } => ExpressionV::Literal { value, ty: ty@ },
        Expression::Ident { name, ty } => ExpressionV::Ident { name: name@, ty: ty@ },
    }
}

pub open spec fn block_view(b: BlockExpression) -> BlockExpressionV
    decreases b, 0nat,
{
    BlockExpressionV {
        block: Node {
            item: Seq::new(
                b.block.item@.len(),
                |i: int| if 0 <= i < b.block.item@.len() {
                    stmt_node_view(b.block.item@[i])
                } else {
                    Node { item: StatementV::Return { expression: Node { item: ExpressionV::Literal { value: Literal::UnitType, ty: TypeV::Unknown }, span: Span { start_line: 0, start_column: 0, end_line: 0, end_column: 0 } } }, span: Span { start_line: 0, start_column: 0, end_line: 0, end_column: 0 } }
                },
            ),
            span: b.block.span,
        },
        ty: b.ty@,
    }
}

pub open spec fn stmt_node_view(n: Node<Statement>) -> Node<StatementV>
    decreases n, 1nat,
{
    Node { item: stmt_view(n.item), span: n.span }
}

pub open spec fn stmt_view(s: Statement) -> StatementV
    decreases s, 0nat,
{
    match s {
        Statement::Let { ident, mutable, ty, value } => StatementV::Let {
            ident: ident@,
            mutable,
            ty: ty@,
            value: match value {
                Some(v) => Some(expr_node_view(v)),
                None => None,
            },
        },
        Statement::Assign { lhs, operator, expression } => StatementV::Assign {
            lhs: expr_node_view(lhs),
            operator,
            expression: expr_node_view(expression),
        },
        Statement::ImplicitReturn { expression, is_function_return } => StatementV::ImplicitReturn {
            expression: expr_node_view(expression),
            is_function_return,
        },
        Statement::Return { expression } => StatementV::Return { expression: expr_node_view(expression) },
        Statement::Expression(e) => StatementV::Expression(expr_node_view(e)),
    }
}

impl View for Expression {
    type V = ExpressionV;

    open spec fn view(&self) -> ExpressionV {
        expr_view(*self)
    }
}

impl View for Statement {
    type V = StatementV;

    open spec fn view(&self) -> StatementV {
        stmt_view(*self)
    }
}

impl View for BlockExpression {
    type V = BlockExpressionV;

    open spec fn view(&self) -> BlockExpressionV {
        block_view(*self)
    }
}

impl View for UnaryOp {
    type V = UnaryOpV;

    open spec fn view(&self) -> UnaryOpV {
        unary_op_view(*self)
    }
}

impl View for BinaryOp {
    type V = BinaryOpV;

    open spec fn view(&self) -> BinaryOpV {
        binary_op_view(*self)
    }
}

/// The value of a node: the value of its item, and its span.
pub open spec fn node_view<T: View>(n: Node<T>) -> Node<T::V> {
    Node { item: n.item@, span: n.span }
}

/// The values of a list of nodes.
pub open spec fn node_views<T: View>(v: Seq<Node<T>>) -> Seq<Node<T::V>> {
    v.map_values(|n: Node<T>| node_view(n))
}

/// The value of a node that holds a list of nodes.
pub open spec fn list_node_view<T: View>(n: Node<Vec<Node<T>>>) -> Node<Seq<Node<T::V>>> {
    Node { item: node_views(n.item@), span: n.span }
}

impl View for FunctionParameter {
    type V = FunctionParameterV;

    open spec fn view(&self) -> FunctionParameterV {
        FunctionParameterV { mutable: self.mutable, name: self.name@, ty: self.ty@ }
    }
}

impl View for StructField {
    type V = StructFieldV;

    open spec fn view(&self) -> StructFieldV {
        StructFieldV { name: self.name@, ty: self.ty@, is_public: self.is_public }
    }
}

impl View for FunctionPrototype {
    type V = FunctionPrototypeV;

    open spec fn view(&self) -> FunctionPrototypeV {
        FunctionPrototypeV {
            name: self.name@,
            parameters: list_node_view(self.parameters),
            return_type: self.return_type@,
        }
    }
}

impl View for Function {
    type V = FunctionV;

    open spec fn view(&self) -> FunctionV {
        FunctionV {
            prototype: node_view(self.prototype),
            body: node_view(self.body),
            is_public: self.is_public,
        }
    }
}

impl View for Struct {
    type V = StructV;

    open spec fn view(&self) -> StructV {
        StructV { name: self.name@, fields: list_node_view(self.fields), is_public: self.is_public }
    }
}

impl View for Trait {
    type V = TraitV;

    open spec fn view(&self) -> TraitV {
        TraitV {
            name: self.name@,
            default_functions: node_views(self.default_functions@),
            required_functions: node_views(self.required_functions@),
            is_public: self.is_public,
        }
    }
}

impl View for Impl {
    type V = ImplV;

    open spec fn view(&self) -> ImplV {
        ImplV {
            trait_name: self.trait_name@,
            target_name: self.target_name@,
            functions: node_views(self.functions@),
        }
    }
}

impl View for Operator {
    type V = OperatorV;

    open spec fn view(&self) -> OperatorV {
        OperatorV {
            pattern: token_views(self.pattern@),
            associated_function: self.associated_function@,
            is_binary: self.is_binary,
            is_public: self.is_public,
        }
    }
}

impl View for Use {
    type V = UseV;

    open spec fn view(&self) -> UseV {
        UseV { path: self.path@.map_values(|p: String| p@) }
    }
}

impl View for AST {
    type V = ASTV;

    open spec fn view(&self) -> ASTV {
        ASTV {
            module: self.module@,
            externs: self.externs@.map_values(|n: Node<ExternBlock>| list_node_view(n)),
            functions: node_views(self.functions@),
            operators: self.operators@.map_values(|o: Operator| o@),
            traits: node_views(self.traits@),
            impls: node_views(self.impls@),
            structs: node_views(self.structs@),
            uses: node_views(self.uses@),
        }
    }
}

/// The empty AST of a module.
pub open spec fn empty_ast(module: Seq<char>) -> ASTV {
    ASTV {
        module,
        externs: Seq::empty(),
        functions: Seq::empty(),
        operators: Seq::empty(),
        traits: Seq::empty(),
        impls: Seq::empty(),
        structs: Seq::empty(),
        uses: Seq::empty(),
    }
}

pub enum TopLevelV {
    ExternBlock(Node<Seq<Node<FunctionPrototypeV>>>),
    Function(Node<FunctionV>),
    Operator(Node<OperatorV>, Node<FunctionV>),
    Trait(Node<TraitV>),
    Impl(Node<ImplV>),
    Struct(Node<StructV>),
    Use(Node<UseV>),
    ConstDeclaration,
}

impl View for TopLevel {
    type V = TopLevelV;

    open spec fn view(&self) -> TopLevelV {
        match self {
            TopLevel::ExternBlock(n) => TopLevelV::ExternBlock(list_node_view(*n)),
            TopLevel::Function(n) => TopLevelV::Function(node_view(*n)),
            TopLevel::Operator(o, f) => TopLevelV::Operator(node_view(*o), node_view(*f)),
            TopLevel::Trait(n) => TopLevelV::Trait(node_view(*n)),
            TopLevel::Impl(n) => TopLevelV::Impl(node_view(*n)),
            TopLevel::Struct(n) => TopLevelV::Struct(node_view(*n)),
            TopLevel::Use(n) => TopLevelV::Use(node_view(*n)),
            TopLevel::ConstDeclaration => TopLevelV::ConstDeclaration,
        }
    }
}

/// The AST after `item` has been filed under its kind (an operator files
/// its definition and its function).
pub open spec fn insert_top_level(ast: ASTV, item: TopLevelV) -> ASTV {
    match item {
        TopLevelV::ExternBlock(i) => ASTV { externs: ast.externs.push(i), ..ast },
        TopLevelV::Function(i) => ASTV { functions: ast.functions.push(i), ..ast },
        TopLevelV::Operator(o, f) => ASTV {
            operators: ast.operators.push(o.item),
            functions: ast.functions.push(f),
            ..ast
        },
        TopLevelV::Trait(i) => ASTV { traits: ast.traits.push(i), ..ast },
        TopLevelV::Impl(i) => ASTV { impls: ast.impls.push(i), ..ast },
        TopLevelV::Struct(i) => ASTV { structs: ast.structs.push(i), ..ast },
        TopLevelV::Use(i) => ASTV { uses: ast.uses.push(i), ..ast },
        TopLevelV::ConstDeclaration => ast,
    }
}

impl AST {
    pub fn new(module: String) -> (r: Self)
        ensures
            r@ == empty_ast(module@),
    {
        let r = AST {
            module,
            externs: Vec::new(),
            functions: Vec::new(),
            operators: Vec::new(),
            traits: Vec::new(),
            impls: Vec::new(),
            structs: Vec::new(),
            uses: Vec::new(),
        };
        assert(r@ =~= empty_ast(r.module@));
        r
    }

    /// A placeholder AST with no heap allocations.
    pub fn placeholder() -> (r: Self)
        ensures
            r@ == empty_ast(Seq::empty()),
    {
        AST::new(String::new())
    }

    /// Files a top-level item under its kind. A constant declaration is not
    /// supported.
    pub fn insert_top_level(&mut self, item: TopLevel)
        requires
            !(item is ConstDeclaration),
        ensures
            final(self)@ == insert_top_level(old(self)@, item@),
    {
        let ghost iv = item@;
        match item {
            TopLevel::ExternBlock(i) => self.externs.push(i),
            TopLevel::Function(i) => self.functions.push(i),
            TopLevel::Operator(o, f) => {
                self.operators.push(o.item);
                self.functions.push(f);
            },
            TopLevel::Trait(i) => self.traits.push(i),
            TopLevel::Impl(i) => self.impls.push(i),
            TopLevel::Struct(i) => self.structs.push(i),
            TopLevel::Use(i) => self.uses.push(i),
            TopLevel::ConstDeclaration => {},
        }
        assert(self@ =~= insert_top_level(old(self)@, iv));
    }
}

impl BinaryOp {
    /// The operator that a `+`, `-`, `*` or `/` token stands for.
    pub fn from_token(symbol_token: &crate::frontend::lex::token::SpannedToken) -> (r: BinaryOp)
        requires
            symbol_token.token@ is Plus || symbol_token.token@ is Minus || symbol_token.token@ is Asterisk
                || symbol_token.token@ is Slash,
        ensures
            r@ == match symbol_token.token@ {
                TokenV::Plus => BinaryOpV::Add,
                TokenV::Minus => BinaryOpV::Subtract,
                TokenV::Asterisk => BinaryOpV::Multiply,
                _ => BinaryOpV::Divide,
            },
    {
        match symbol_token.token {
            Token::Plus => BinaryOp::Add,
            Token::Minus => BinaryOp::Subtract,
            Token::Asterisk => BinaryOp::Multiply,
            _ => BinaryOp::Divide,
        }
    }
}

impl AssignmentOp {
    /// The assignment that a `=`, `+`, `-`, `*` or `/` token stands for.
    pub fn from_token(op_token: &crate::frontend::lex::token::SpannedToken) -> (r: AssignmentOp)
        requires
            op_token.token@ is Equals || op_token.token@ is Plus || op_token.token@ is Minus
                || op_token.token@ is Asterisk || op_token.token@ is Slash,
        ensures
            r == match op_token.token@ {
                TokenV::Equals => AssignmentOp::Assign,
                TokenV::Plus => AssignmentOp::AddAssign,
                TokenV::Minus => AssignmentOp::SubtractAssign,
                TokenV::Asterisk => AssignmentOp::MultiplyAssign,
                _ => AssignmentOp::DivideAssign,
            },
    {
        match op_token.token {
            Token::Equals => AssignmentOp::Assign,
            Token::Plus => AssignmentOp::AddAssign,
            Token::Minus => AssignmentOp::SubtractAssign,
            Token::Asterisk => AssignmentOp::MultiplyAssign,
            _ => AssignmentOp::DivideAssign,
        }
    }
}

/// The values of the fields of a constructor.
pub open spec fn field_views(v: Seq<(String, Node<Expression>)>) -> Seq<(Seq<char>, Node<ExpressionV>)> {
    v.map_values(|f: (String, Node<Expression>)| (f.0@, expr_node_view(f.1)))
}

/// The values of the inputs of a call.
pub open spec fn input_views(v: Seq<Node<Expression>>) -> Seq<Node<ExpressionV>> {
    v.map_values(|n: Node<Expression>| expr_node_view(n))
}

/// The values of the statements of a block.
pub open spec fn stmt_views(v: Seq<Node<Statement>>) -> Seq<Node<StatementV>> {
    v.map_values(|n: Node<Statement>| stmt_node_view(n))
}

pub proof fn lemma_constructor_view(ty: Type, fields: Vec<(String, Node<Expression>)>)
    ensures
        expr_view(Expression::FieldConstructor { ty, fields }) == (ExpressionV::FieldConstructor {
            ty: ty@,
            fields: field_views(fields@),
        }),
{
    if let ExpressionV::FieldConstructor { fields: a, .. } = expr_view(Expression::FieldConstructor { ty, fields }) {
        assert(a =~= field_views(fields@));
    }
}

pub proof fn lemma_call_view(name: String, inputs: Vec<Node<Expression>>, ty: Type)
    ensures
        expr_view(Expression::FunctionCall { name, inputs, ty }) == (ExpressionV::FunctionCall {
            name: name@,
            inputs: input_views(inputs@),
            ty: ty@,
        }),
{
    if let ExpressionV::FunctionCall { inputs: a, .. } = expr_view(Expression::FunctionCall { name, inputs, ty }) {
        assert(a =~= input_views(inputs@));
    }
}

pub proof fn lemma_block_view(block: Node<Vec<Node<Statement>>>, ty: Type)
    ensures
        block_view(BlockExpression { block, ty }) == (BlockExpressionV {
            block: Node { item: stmt_views(block.item@), span: block.span },
            ty: ty@,
        }),
{
    assert(block_view(BlockExpression { block, ty }).block.item =~= stmt_views(block.item@));
}

/// A copy of a list of tokens.
pub fn duplicate_tokens(ts: &Vec<Token>) -> (r: Vec<Token>)
    ensures
        token_views(r@) == token_views(ts@),
{
    let mut r: Vec<Token> = Vec::new();
    let mut i: usize = 0;
    while i < ts.len()
        invariant
            i <= ts@.len(),
            r@.len() == i,
            forall|j: int| 0 <= j < i ==> #[trigger] r@[j]@ == ts@[j]@,
        decreases ts@.len() - i,
    {
        r.push(ts[i].duplicate());
        i += 1;
    }
    assert(token_views(r@) =~= token_views(ts@));
    r
}

impl BinaryOp {
    pub fn duplicate(&self) -> (r: BinaryOp)
        ensures
            r@ == self@,
    {
        match self {
            BinaryOp::Add => BinaryOp::Add,
            BinaryOp::Subtract => BinaryOp::Subtract,
            BinaryOp::Multiply => BinaryOp::Multiply,
            BinaryOp::Divide => BinaryOp::Divide,
            BinaryOp::Custom(ts) => BinaryOp::Custom(duplicate_tokens(ts)),
        }
    }
}

impl UnaryOp {
    pub fn duplicate(&self) -> (r: UnaryOp)
        ensures
            r@ == self@,
    {
        match self {
            UnaryOp::Negate => UnaryOp::Negate,
            UnaryOp::Not => UnaryOp::Not,
            UnaryOp::Custom(ts) => UnaryOp::Custom(duplicate_tokens(ts)),
        }
    }
}

impl Node<Expression> {
    /// A copy of the expression node.
    pub fn duplicate(&self) -> (r: Node<Expression>)
        ensures
            expr_node_view(r) == expr_node_view(*self),
        decreases self, 1nat,
    {
        Node { item: self.item.duplicate(), span: self.span }
    }
}

impl Node<Statement> {
    /// A copy of the statement node.
    pub fn duplicate(&self) -> (r: Node<Statement>)
        ensures
            stmt_node_view(r) == stmt_node_view(*self),
        decreases self, 1nat,
    {
        Node { item: self.item.duplicate(), span: self.span }
    }
}

impl Expression {
    /// A copy of the expression.
    #[verifier::loop_isolation(false)]
    pub fn duplicate(&self) -> (r: Expression)
        ensures
            r@ == self@,
        decreases self, 0nat,
    {
        match self {
            Expression::BinaryExpression { lhs, op, rhs, ty } => {
                let l = (**lhs).duplicate();
                let rr = (**rhs).duplicate();
                let r = Expression::BinaryExpression {
                    lhs: Box::new(l),
                    op: Node { item: op.item.duplicate(), span: op.span },
                    rhs: Box::new(rr),
                    ty: ty.duplicate(),
                };
                r
            },
            Expression::UnaryExpression { op, expr, ty } => {
                let x = (**expr).duplicate();
                Expression::UnaryExpression {
                    op: Node { item: op.item.duplicate(), span: op.span },
                    expr: Box::new(x),
                    ty: ty.duplicate(),
                }
            },
            Expression::FieldConstructor { ty, fields } => {
                let mut r: Vec<(String, Node<Expression>)> = Vec::new();
                let mut i: usize = 0;
                while i < fields.len()
                    invariant
                        i <= fields@.len(),
                        r@.len() == i,
                        forall|j: int| 0 <= j < i ==> #[trigger] r@[j].0@ == fields@[j].0@
                            && expr_node_view(r@[j].1) == expr_node_view(fields@[j].1),
                    decreases fields@.len() - i,
                {
                    proof {
                        assert(decreases_to!(*fields => fields[i as int]));
                        assert(decreases_to!(fields[i as int] => fields[i as int].1));
                    }
                    let d = fields[i].1.duplicate();
                    r.push((fields[i].0.clone(), d));
                    i += 1;
                }
                let out = Expression::FieldConstructor { ty: ty.duplicate(), fields: r };
                proof {
                    if let ExpressionV::FieldConstructor { fields: a, .. } = out@ {
                        if let ExpressionV::FieldConstructor { fields: b, .. } = self@ {
                            assert(a =~= b);
                        }
                    }
                }
                out
            },
            Expression::FieldAccess { base_expr, field, ty } => {
                let b = (**base_expr).duplicate();
                Expression::FieldAccess { base_expr: Box::new(b), field: field.clone(), ty: ty.duplicate() }
            },
            Expression::FunctionCall { name, inputs, ty } => {
                let mut r: Vec<Node<Expression>> = Vec::new();
                let mut i: usize = 0;
                while i < inputs.len()
                    invariant
                        i <= inputs@.len(),
                        r@.len() == i,
                        forall|j: int| 0 <= j < i ==> #[trigger] expr_node_view(r@[j]) == expr_node_view(inputs@[j]),
                    decreases inputs@.len() - i,
                {
                    proof {
                        assert(decreases_to!(*inputs => inputs[i as int]));
                    }
                    let d = inputs[i].duplicate();
                    r.push(d);
                    i += 1;
                }
                let ghost rv = r@;
                let out = Expression::FunctionCall { name: name.clone(), inputs: r, ty: ty.duplicate() };
                proof {
                    if let ExpressionV::FunctionCall { inputs: a, .. } = out@ {
                        if let ExpressionV::FunctionCall { inputs: b, .. } = self@ {
                            assert forall|j: int| 0 <= j < a.len() implies a[j] == b[j] by {
                                assert(expr_node_view(rv[j]) == expr_node_view(inputs@[j]));
                            }
                            assert(a =~= b);
                        }
                    }
                }
                out
            },
            Expression::Block(b) => Expression::Block(b.duplicate()),
            Expression::Literal { value, ty } => Expression::Literal { value: *value, ty: ty.duplicate() },
            Expression::Ident { name, ty } => Expression::Ident { name: name.clone(), ty: ty.duplicate() },
        }
    }
}

impl BlockExpression {
    /// A copy of the block.
    #[verifier::loop_isolation(false)]
    pub fn duplicate(&self) -> (r: BlockExpression)
        ensures
            r@ == self@,
        decreases self, 0nat,
    {
        let stmts = &self.block.item;
        let mut r: Vec<Node<Statement>> = Vec::new();
        let mut i: usize = 0;
        while i < stmts.len()
            invariant
                i <= stmts@.len(),
                r@.len() == i,
                forall|j: int| 0 <= j < i ==> #[trigger] stmt_node_view(r@[j]) == stmt_node_view(stmts@[j]),
            decreases stmts@.len() - i,
        {
            proof {
                assert(decreases_to!(self => self.block));
                assert(decreases_to!(self.block => self.block.item));
                assert(decreases_to!(self.block.item => self.block.item[i as int]));
            }
            let d = stmts[i].duplicate();
            r.push(d);
            i += 1;
        }
        let ghost rv = r@;
        let out = BlockExpression { block: Node { item: r, span: self.block.span }, ty: self.ty.duplicate() };
        assert forall|j: int| 0 <= j < out@.block.item.len() implies out@.block.item[j] == self@.block.item[j] by {
            assert(stmt_node_view(rv[j]) == stmt_node_view(stmts@[j]));
        }
        assert(out@.block.item =~= self@.block.item);
        out
    }
}

impl Statement {
    /// A copy of the statement.
    pub fn duplicate(&self) -> (r: Statement)
        ensures
            r@ == self@,
        decreases self, 0nat,
    {
        match self {
            Statement::Let { ident, mutable, ty, value } => {
                let v = match value {
                    Some(v) => Some(v.duplicate()),
                    None => None,
                };
                Statement::Let { ident: ident.clone(), mutable: *mutable, ty: ty.duplicate(), value: v }
            },
            Statement::Assign { lhs, operator, expression } => Statement::Assign {
                lhs: lhs.duplicate(),
                operator: Node { item: operator.item, span: operator.span },
                expression: expression.duplicate(),
            },
            Statement::ImplicitReturn { expression, is_function_return } => Statement::ImplicitReturn {
                expression: expression.duplicate(),
                is_function_return: *is_function_return,
            },
            Statement::Return { expression } => Statement::Return { expression: expression.duplicate() },
            Statement::Expression(e) => Statement::Expression(e.duplicate()),
        }
    }
}

impl Expression {
    /// The type of the expression as known at that time (unknown before
    /// validation).
    pub fn get_type(&self) -> (r: &Type)
        ensures
            r@ == expr_type(self@),
    {
        match self {
            Expression::BinaryExpression { ty, .. } => ty,
            Expression::UnaryExpression { ty, .. } => ty,
            Expression::FieldConstructor { ty, .. } => ty,
            Expression::FieldAccess { ty, .. } => ty,
            Expression::FunctionCall { ty, .. } => ty,
            Expression::Block(block) => &block.ty,
            Expression::Literal { ty, .. } => ty,
            Expression::Ident { ty, .. } => ty,
        }
    }
}

/// The type recorded in an expression.
pub open spec fn expr_type(e: ExpressionV) -> TypeV {
    match e {
        ExpressionV::BinaryExpression { ty, .. } => ty,
        ExpressionV::UnaryExpression { ty, .. } => ty,
        ExpressionV::FieldConstructor { ty, .. } => ty,
        ExpressionV::FieldAccess { ty, .. } => ty,
        ExpressionV::FunctionCall { ty, .. } => ty,
        ExpressionV::Block(b) => b.ty,
        ExpressionV::Literal { ty, .. } => ty,
        ExpressionV::Ident { ty, .. } => ty,
    }
}

} // verus!
