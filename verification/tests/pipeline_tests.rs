use jitter::frontend::lex::token::SpannedToken;
use jitter::frontend::lex::{LexStep, Lexer};
use jitter::frontend::parse::ast::{AST, Expression, Statement, TopLevel};
use jitter::frontend::parse::{ParseError, Parser};
use jitter::frontend::validate::context::{Context, ValidateError};
use jitter::frontend::validate::types::Type;
use jitter::frontend::validate::MemoryUsage;

fn lex_all(input: &str) -> Vec<SpannedToken> {
    let mut lexer = Lexer::new("test.jitter".to_string(), input.to_string(), true);
    match lexer.lex() {
        LexStep::Finished(Ok(tokens)) => tokens,
        LexStep::Finished(Err(errors)) => panic!("lexing errors: {:?}", errors),
        LexStep::Include(path) => panic!("unexpected include of {}", path),
    }
}

fn parse(input: &str) -> Result<AST, ParseError> {
    let tokens = lex_all(input);
    let mut parser = Parser::new("test.jitter".to_string(), tokens);
    parser.parse_ast("test".to_string())
}

fn validate(input: &str) -> (Context, Result<(), ValidateError>) {
    let ast = parse(input).expect("parses");
    let mut context = Context::new();
    let r = context.validate(ast);
    (context, r)
}

fn invalid_message(r: Result<(), ValidateError>) -> String {
    match r {
        Err(ValidateError::Invalid(m)) => m,
        other => panic!("expected an invalid program, got {:?}", other),
    }
}

#[test]
fn parser() {
    let ast = parse("struct Point { x: i32, y: i32 }\nfn area(w: i32, h: i32) -> i32 {\n    let a: i32 = w * h;\n    a\n}\n").unwrap();
    assert_eq!(ast.module, "test");
    assert_eq!(ast.structs.len(), 1);
    assert_eq!(ast.functions.len(), 1);
    assert_eq!(ast.structs[0].item.name, "Point");
    assert_eq!(ast.structs[0].item.fields.item.len(), 2);
    assert_eq!(ast.structs[0].item.fields.item[1].item.name, "y");
    let f = &ast.functions[0].item;
    assert_eq!(f.prototype.item.name, "area");
    assert_eq!(f.prototype.item.parameters.item.len(), 2);
    assert_eq!(f.prototype.item.return_type, Type::i32);
    assert_eq!(f.body.item.block.item.len(), 2);
    assert!(matches!(f.body.item.block.item[1].item, Statement::ImplicitReturn { .. }));
}

#[test]
fn parse_precedence() {
    let ast = parse("fn f() -> i32 { 1 + 2 * 3 }").unwrap();
    let body = &ast.functions[0].item.body.item.block.item;
    match &body[0].item {
        Statement::ImplicitReturn { expression, .. } => match &expression.item {
            Expression::BinaryExpression { rhs, .. } => {
                assert!(matches!(rhs.item, Expression::BinaryExpression { .. }));
            },
            _ => panic!("expected a binary expression"),
        },
        _ => panic!("expected an implicit return"),
    }
}

#[test]
fn parse_trait_and_impl() {
    let ast = parse("trait Shape { fn area() -> i32; fn zero() -> i32 { 0 } }\nimpl Shape for Square { fn area() -> i32 { 4 } }\nimpl Square { }").unwrap();
    assert_eq!(ast.traits.len(), 1);
    assert_eq!(ast.traits[0].item.required_functions.len(), 1);
    assert_eq!(ast.traits[0].item.default_functions.len(), 1);
    assert_eq!(ast.impls.len(), 2);
    assert_eq!(ast.impls[0].item.trait_name, "Shape");
    assert_eq!(ast.impls[0].item.target_name, "Square");
    assert_eq!(ast.impls[1].item.trait_name, "");
    assert_eq!(ast.impls[0].item.functions.len(), 1);
}

#[test]
fn parse_missing_semicolon() {
    match parse("fn f() { let x = 1 let y = 2; }") {
        Err(ParseError::Syntax { message, span }) => {
            assert_eq!(message, "Expected `;` to terminate a statement. Found `keyword: let`");
            assert_eq!(span.start_column, 19);
        },
        other => panic!("expected a syntax error, got {:?}", other.err()),
    }
}

#[test]
fn parse_bad_top_level() {
    match parse("let x = 1;") {
        Err(ParseError::Syntax { message, .. }) => {
            assert_eq!(message, "Expected one of `fn`, `trait`, `impl`, `struct`. Found unexpected keyword `keyword: let`");
        },
        other => panic!("expected a syntax error, got {:?}", other.err()),
    }
}

#[test]
fn parse_runs_out_of_tokens() {
    assert!(matches!(parse("fn"), Err(ParseError::Fatal(_))));
}

#[test]
fn parse_op_assign() {
    let ast = parse("fn f(mut a: i32) -> i32 { a += 1; a }").unwrap();
    let body = &ast.functions[0].item.body.item.block.item;
    match &body[0].item {
        Statement::Assign { operator, .. } => {
            assert_eq!(operator.item, jitter::frontend::parse::ast::AssignmentOp::AddAssign);
        },
        _ => panic!("expected an assignment"),
    }
    assert!(ast.functions[0].item.prototype.item.parameters.item[0].item.mutable);
}

#[test]
fn validate_valid_program() {
    let (context, r) = validate("fn area(w: i32, h: i32) -> i32 {\n    let mut a: i32 = w * h;\n    a += w;\n    a\n}\n");
    assert!(r.is_ok(), "{:?}", r);
    assert!(matches!(context.allocations.get_usage("area", "w"), MemoryUsage::FunctionParam));
    assert!(matches!(context.allocations.get_usage("area", "a"), MemoryUsage::StackSlot));
    // The validated AST is kept, with its types filled in.
    let f = &context.ast.functions[0].item;
    match &f.body.item.block.item[2].item {
        Statement::ImplicitReturn { expression, is_function_return } => {
            assert!(*is_function_return);
            assert_eq!(*expression.item.get_type(), Type::i32);
        },
        _ => panic!("expected the implicit return"),
    }
    assert_eq!(f.body.item.ty, Type::i32);
}

#[test]
fn validate_wrong_return_type() {
    let (_, r) = validate("fn f(a: i32) -> bool { a }");
    assert_eq!(invalid_message(r), "Expected function `f` to have return type `bool` but found `i32`");
}

#[test]
fn validate_unknown_variable() {
    let (_, r) = validate("fn f() -> i32 { b }");
    assert_eq!(invalid_message(r), "No variable `b` in scope");
}

#[test]
fn validate_immutable_assignment() {
    let (_, r) = validate("fn f(a: i32) -> i32 { a = a; a }");
    assert_eq!(invalid_message(r), "Cannot assign to immutable variable `a`");
}

#[test]
fn validate_duplicate_variable() {
    let (_, r) = validate("fn f(a: i32) -> i32 { let a: i32 = a; a }");
    assert_eq!(invalid_message(r), "Variable `a` is already defined in this scope");
}

#[test]
fn validate_let_type_mismatch() {
    let (_, r) = validate("fn f(a: i32, b: bool) -> i32 { let c: i32 = b; a }");
    assert_eq!(invalid_message(r), "Variable `c` has type `i32`, but is assigned the type `bool`");
}

#[test]
fn validate_unknown_type() {
    let (_, r) = validate("fn f(a: Thing) -> i32 { 1 }");
    assert_eq!(invalid_message(r), "Type `Thing` is not valid");
}

#[test]
fn validate_duplicate_function() {
    let (_, r) = validate("fn f() { }\nfn f() { }");
    assert_eq!(invalid_message(r), "Function `f` already exists");
}

#[test]
fn validate_unsupported_subtraction() {
    let (_, r) = validate("fn f(a: i32) -> i32 { let b: i32 = a - a; b }");
    assert!(matches!(r, Err(ValidateError::Fatal(_))));
}

#[test]
fn validate_struct_layout() {
    let (context, r) = validate("struct S { a: u8, b: u32, c: u16 }\nfn f() { }");
    assert!(r.is_ok(), "{:?}", r);
    let s = Type::User("S".to_string());
    assert_eq!(context.types.size_of(&s), 12);
    assert_eq!(context.types.alignment_of(&s), 4);
    assert_eq!(context.get_field_offset(&s, &"a".to_string()).unwrap(), 0);
    assert_eq!(context.get_field_offset(&s, &"b".to_string()).unwrap(), 4);
    assert_eq!(context.get_field_offset(&s, &"c".to_string()).unwrap(), 8);
    assert_eq!(context.get_field_type(&s, &"c".to_string()).unwrap(), Type::u16);
    assert_eq!(context.is_field_public(&s, &"c".to_string()).unwrap(), false);
    match context.get_field_type(&s, &"d".to_string()) {
        Err(ValidateError::Invalid(m)) => assert_eq!(m, "Type `S` has no field `d`"),
        other => panic!("expected an error, got {:?}", other),
    }
    match context.get_field_type(&Type::i32, &"d".to_string()) {
        Err(ValidateError::Invalid(m)) => assert_eq!(m, "Type `i32` cannot have any fields (tried accessing field `d`)"),
        other => panic!("expected an error, got {:?}", other),
    }
}

#[test]
fn validate_empty_struct_has_size_zero() {
    let (context, r) = validate("struct E { }");
    assert!(r.is_ok(), "{:?}", r);
    let e = Type::User("E".to_string());
    assert_eq!(context.types.size_of(&e), 0);
    assert_eq!(context.types.alignment_of(&e), 1);
}

#[test]
fn validate_duplicate_struct() {
    let (_, r) = validate("struct S { a: u8 }\nstruct S { b: u8 }");
    assert_eq!(invalid_message(r), "Type S already exists");
}

#[test]
fn validate_struct_top_level() {
    // A struct parsed at top level is filed under the AST's structs.
    let ast = parse("struct S { a: u8 }").unwrap();
    assert!(matches!(ast.structs[0].item.fields.item[0].item.ty, Type::u8));
    let _ = TopLevel::ConstDeclaration;
}
