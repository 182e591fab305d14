use jitter::arithmetic::{Lexer as ArithmeticLexer, Literal as Lit, Token as T};
use jitter::assoc::AssocMap;
use jitter::backend::{call_shape, plan, IrType, MemoryMap, TypeMap};
use jitter::extension::{meta_item, Item, Nodify};
use jitter::frontend::lex::debug::tokens_debug_string;
use jitter::frontend::lex::token::{Keyword, SpannedToken, Token};
use jitter::frontend::lex::{LexStep, Lexer};
use jitter::frontend::modules::{display_module, locate_module, SearchStep};
use jitter::frontend::parse::ast::{BinaryOp, Expression, Node, Operator, Statement, TopLevel, AST};
use jitter::frontend::parse::Parser;
use jitter::frontend::validate::context::{Context, ValidateError};
use jitter::frontend::validate::types::Type;
use jitter::frontend::validate::{MemoryUsage, Scopes, TypeTable, TypeTableEntry};
use jitter::frontend::LexerCallback;
use jitter::Span;

fn lex_all(input: &str) -> Vec<SpannedToken> {
    let mut lexer = Lexer::new("lib.jitter".to_string(), input.to_string(), true);
    match lexer.lex() {
        LexStep::Finished(Ok(tokens)) => tokens,
        LexStep::Finished(Err(errors)) => panic!("lexing errors: {:?}", errors),
        LexStep::Include(path) => panic!("unexpected include of {}", path),
    }
}

fn parse(input: &str) -> AST {
    let tokens = lex_all(input);
    let mut parser = Parser::new("lib.jitter".to_string(), tokens);
    parser.parse_ast("lib".to_string()).expect("parses")
}

fn segments(names: &[&str]) -> Vec<String> {
    names.iter().map(|s| s.to_string()).collect()
}

#[test]
fn span_extend_keeps_start_takes_end() {
    let a = Span::new(1, 2, 3, 4);
    let b = Span::new(5, 6, 7, 8);
    assert_eq!(a.extend(b), Span::new(1, 2, 7, 8));
}

#[test]
fn display_module_joins_segments() {
    assert_eq!(display_module(&segments(&["a", "b", "c"])), "a::b::c");
    assert_eq!(display_module(&segments(&["solo"])), "solo");
    assert_eq!(display_module(&Vec::new()), "");
}

#[test]
fn module_search_finds_file_after_folder() {
    let (mut search, step) = locate_module(segments(&["a", "b"]));
    assert_eq!(step, SearchStep::CheckFolder(1));
    // `a` is a folder: go on to `a/b`
    assert_eq!(search.answer(true), SearchStep::CheckFolder(2));
    // `a/b` is no folder: look for `a/b.jitter`
    assert_eq!(search.answer(false), SearchStep::CheckFile(2));
    assert_eq!(search.answer(true), SearchStep::Found(2));
}

#[test]
fn module_search_file_at_first_segment() {
    let (mut search, step) = locate_module(segments(&["util", "inner"]));
    assert_eq!(step, SearchStep::CheckFolder(1));
    assert_eq!(search.answer(false), SearchStep::CheckFile(1));
    assert_eq!(search.answer(true), SearchStep::Found(1));
}

#[test]
fn module_search_not_found() {
    let (mut search, _) = locate_module(segments(&["a", "b"]));
    assert_eq!(search.answer(false), SearchStep::CheckFile(1));
    assert_eq!(search.answer(false), SearchStep::CheckFolder(2));
    assert_eq!(search.answer(false), SearchStep::CheckFile(2));
    assert_eq!(
        search.answer(false),
        SearchStep::NotFound("Could not locate module source: `a::b`".to_string())
    );
}

#[test]
fn module_search_empty_path() {
    let (_, step) = locate_module(Vec::new());
    assert_eq!(step, SearchStep::NotFound("Could not locate module source: ``".to_string()));
}

#[test]
fn type_map_builtin_and_unknown() {
    let map = TypeMap::new();
    assert_eq!(map.get("i32"), Ok(IrType::I32));
    assert_eq!(map.get("u8"), Ok(IrType::I8));
    assert_eq!(map.get("bool"), Ok(IrType::B1));
    assert_eq!(map.get("f64"), Ok(IrType::F64));
    assert_eq!(map.get("()"), Ok(IrType::Invalid));
    assert_eq!(map.get("Point"), Err("Type not defined: `Point`".to_string()));
}

#[test]
fn assoc_map_insert_then_get() {
    let key = |s: &str| s.to_string();
    let mut m: AssocMap<String, u64> = AssocMap::new();
    assert!(!m.insert(key("a"), 10));
    assert!(!m.insert(key("b"), 20));
    assert!(m.insert(key("a"), 11));
    assert_eq!(m.len(), 2);
    assert_eq!(m.get(&key("a")), Some(&11));
    assert_eq!(m.get(&key("b")), Some(&20));
    assert_eq!(m.get(&key("c")), None);
    assert!(m.contains_key(&key("b")));
}

#[test]
fn tokens_debug_text() {
    let tokens = vec![Token::Ident("x".to_string()), Token::Plus, Token::Number(3), Token::Keyword(Keyword::Let)];
    assert_eq!(tokens_debug_string(&tokens), format!("{:?}", tokens));
    assert_eq!(tokens_debug_string(&vec![]), "[]");
    let s = vec![Token::String("a\"b".to_string())];
    assert_eq!(tokens_debug_string(&s), format!("{:?}", s));
}

#[test]
fn type_display_text() {
    assert_eq!(Type::i32.to_display_string(), "i32");
    assert_eq!(Type::User("Point".to_string()).to_display_string(), "Point");
}

#[test]
fn type_table_insert_twice_is_error() {
    let mut table = TypeTable::new();
    assert_eq!(table.size_of(&Type::u64), 8);
    assert_eq!(table.alignment_of(&Type::u16), 2);
    let s = Type::User("S".to_string());
    assert!(!table.contains(&s));
    assert_eq!(table.insert(&s, TypeTableEntry::new(8, 4)), Ok(()));
    assert_eq!(table.size_of(&s), 8);
    assert_eq!(table.insert(&s, TypeTableEntry::new(16, 8)), Err("Type S already exists".to_string()));
    assert_eq!(table.size_of(&s), 16);
    assert_eq!(
        table.assert_valid(&Type::User("T".to_string())),
        Err("Type `T` is not valid".to_string())
    );
    assert_eq!(table.assert_valid(&Type::bool), Ok(()));
}

#[test]
fn scopes_enter_then_leave() {
    let mut scopes = Scopes::new();
    scopes.push_scope();
    assert!(scopes.add_var_to_scope("x".to_string(), false, Type::i32, MemoryUsage::StackSlot).is_ok());
    scopes.push_scope();
    assert!(scopes.add_var_to_scope("y".to_string(), true, Type::u8, MemoryUsage::StackSlot).is_ok());
    assert_eq!(scopes.depth(), 2);
    assert!(scopes.get_variable(&"y".to_string()).is_ok());
    let inner = scopes.pop_scope();
    drop(inner);
    assert_eq!(scopes.depth(), 1);
    assert!(scopes.get_variable(&"y".to_string()).is_err());
    assert!(scopes.get_variable(&"x".to_string()).is_ok());
}

#[test]
fn scopes_duplicate_in_same_scope() {
    let mut scopes = Scopes::new();
    scopes.push_scope();
    assert!(scopes.add_var_to_scope("x".to_string(), false, Type::i32, MemoryUsage::StackSlot).is_ok());
    assert!(scopes.add_var_to_scope("x".to_string(), false, Type::i32, MemoryUsage::StackSlot).is_err());
}

#[test]
fn meta_item_takes_functions_and_structs() {
    let ast = parse("struct P { a: u8 }\nfn f() { }");
    let mut ast = ast;
    let s = ast.structs.pop().unwrap();
    let f = ast.functions.pop().unwrap();
    match meta_item(TopLevel::Struct(s)) {
        Ok(Item::Struct(s)) => {
            assert_eq!(s.name, "P");
            match Item::Struct(s).into() {
                TopLevel::Struct(n) => {
                    assert_eq!(n.item.name, "P");
                    assert_eq!(n.span, Span::new(0, 0, 0, 0));
                },
                other => panic!("{:?}", other),
            }
        },
        _ => panic!("expected a struct item"),
    }
    match meta_item(TopLevel::Function(f)) {
        Ok(Item::Function(f)) => assert_eq!(f.prototype.item.name, "f"),
        _ => panic!("expected a function item"),
    }
    assert!(matches!(meta_item(TopLevel::ConstDeclaration), Err(TopLevel::ConstDeclaration)));
}

#[test]
fn nodify_gives_empty_span() {
    let n = 7u32.nodify();
    assert_eq!(n.item, 7);
    assert_eq!(n.span, Span::new(0, 0, 0, 0));
}

#[test]
fn validate_custom_binary_operator_becomes_call() {
    let mut ast = parse("fn twice(a: i32, b: i32) -> i32 { a }\nfn f(x: i32) -> i32 { let y: i32 = x + x; y }");
    match &mut ast.functions[1].item.body.item.block.item[0].item {
        Statement::Let { value: Some(v), .. } => match &mut v.item {
            Expression::BinaryExpression { op, .. } => op.item = BinaryOp::Custom(vec![Token::DollarSign]),
            other => panic!("{:?}", other),
        },
        other => panic!("{:?}", other),
    }
    ast.operators.push(Operator {
        pattern: vec![Token::DollarSign],
        associated_function: "twice".to_string(),
        is_binary: true,
        is_public: false,
    });
    let mut context = Context::new();
    let r = context.validate(ast);
    assert!(r.is_ok(), "{:?}", r);
    match &context.ast.functions[1].item.body.item.block.item[0].item {
        Statement::Let { value: Some(v), .. } => match &v.item {
            Expression::FunctionCall { name, inputs, ty } => {
                assert_eq!(name, "twice");
                assert_eq!(inputs.len(), 2);
                assert_eq!(*ty, Type::i32);
            },
            other => panic!("{:?}", other),
        },
        other => panic!("{:?}", other),
    }
}

#[test]
fn validate_unknown_custom_operator() {
    let mut ast = parse("fn f(x: i32) -> i32 { let y: i32 = x + x; y }");
    match &mut ast.functions[0].item.body.item.block.item[0].item {
        Statement::Let { value: Some(v), .. } => match &mut v.item {
            Expression::BinaryExpression { op, .. } => op.item = BinaryOp::Custom(vec![Token::DollarSign]),
            other => panic!("{:?}", other),
        },
        other => panic!("{:?}", other),
    }
    let mut context = Context::new();
    let r = context.validate(ast);
    assert!(matches!(r, Err(ValidateError::Invalid(_))), "{:?}", r);
}

#[test]
fn layout_is_repr_c() {
    // u8 at 0, u64 aligned to 8, u16 after it; size rounded up to 8
    let ast = parse("struct S { a: u8, b: u64, c: u16 }\nfn f() { }");
    let mut context = Context::new();
    assert!(context.validate(ast).is_ok());
    let s = Type::User("S".to_string());
    assert_eq!(context.get_field_offset(&s, &"a".to_string()).unwrap(), 0);
    assert_eq!(context.get_field_offset(&s, &"b".to_string()).unwrap(), 8);
    assert_eq!(context.get_field_offset(&s, &"c".to_string()).unwrap(), 16);
    assert_eq!(context.types.size_of(&s), 24);
    assert_eq!(context.types.alignment_of(&s), 8);
}

#[test]
fn layout_nested_struct() {
    let ast = parse("struct A { x: u16, y: u8 }\nstruct B { p: u8, q: A }\nfn f() { }");
    let mut context = Context::new();
    assert!(context.validate(ast).is_ok());
    let a = Type::User("A".to_string());
    let b = Type::User("B".to_string());
    assert_eq!(context.types.size_of(&a), 4);
    assert_eq!(context.get_field_offset(&b, &"q".to_string()).unwrap(), 2);
    assert_eq!(context.types.size_of(&b), 6);
    assert_eq!(context.types.alignment_of(&b), 2);
}

fn lexer_callback(string: &str, replacement: &str) -> LexerCallback {
    LexerCallback { string: string.to_string(), replacement: replacement.to_string() }
}

#[test]
fn lexer_callback_replaces_token() {
    let mut lexer = Lexer::new("cb.jitter".to_string(), "a $ b".to_string(), true);
    assert_eq!(lexer.parse_callbacks(vec![lexer_callback("$", "+ *")]), Ok(()));
    match lexer.lex() {
        LexStep::Finished(Ok(tokens)) => {
            let tokens: Vec<Token> = tokens.into_iter().map(|t| t.token).collect();
            assert_eq!(
                tokens,
                vec![Token::Ident("a".to_string()), Token::Plus, Token::Asterisk, Token::Ident("b".to_string())]
            );
        },
        _ => panic!("lexing failed"),
    }
}

#[test]
fn validate_call_of_later_function() {
    // Every prototype is declared before any body is checked, so `first`
    // may call `second`, which comes after it.
    let mut ast = parse("fn first(a: i32) -> i32 { a }\nfn second(b: i32) -> i32 { b }");
    match &mut ast.functions[0].item.body.item.block.item[0].item {
        Statement::ImplicitReturn { expression, .. } => {
            let span = expression.span;
            expression.item = Expression::FunctionCall {
                name: "second".to_string(),
                inputs: vec![Node::new(Expression::Ident { name: "a".to_string(), ty: Type::Unknown }, span)],
                ty: Type::Unknown,
            };
        },
        other => panic!("{:?}", other),
    }
    let mut context = Context::new();
    let r = context.validate(ast);
    assert!(r.is_ok(), "{:?}", r);
    match &context.ast.functions[0].item.body.item.block.item[0].item {
        Statement::ImplicitReturn { expression, .. } => assert_eq!(*expression.item.get_type(), Type::i32),
        other => panic!("{:?}", other),
    }
}

#[test]
fn memory_map_numbers_variables() {
    let mut map = MemoryMap::new();
    assert_eq!(map.create_variable("a"), 0);
    assert_eq!(map.create_variable("b"), 1);
    assert_eq!(map.create_variable("a"), 2);
    assert_eq!(map.get_variable("a"), 2);
    assert_eq!(map.get_variable("b"), 1);
    assert!(!map.contains_variable("c"));
    assert_eq!(map.variable_count(), 3);
    assert!(!map.has_struct_return_slot());
    map.register_struct_return_slot(4);
    assert_eq!(map.get_struct_return_slot(), 4);
}

#[test]
fn call_shapes() {
    let s = call_shape(2, &Type::i32, false);
    assert_eq!((s.pointer_params, s.struct_return, s.imported), (2, true, false));
    let s = call_shape(0, &Type::Unit, true);
    assert_eq!((s.pointer_params, s.struct_return, s.imported), (0, false, true));
}

#[test]
fn validate_not_records_bool_type() {
    let ast = parse("fn f(b: bool) -> bool { let c: bool = !b; c }");
    let mut context = Context::new();
    let r = context.validate(ast);
    assert!(r.is_ok(), "{:?}", r);
    match &context.ast.functions[0].item.body.item.block.item[0].item {
        Statement::Let { value: Some(v), .. } => assert_eq!(*v.item.get_type(), Type::bool),
        other => panic!("{:?}", other),
    }
}

#[test]
fn validate_assignment_type_mismatch_message() {
    let ast = parse("fn f(a: i32, b: bool) { let mut x: i32 = a; x = b; }");
    let mut context = Context::new();
    match context.validate(ast) {
        Err(ValidateError::Invalid(m)) => {
            assert_eq!(m, "Tried assigning type `i32` to incompatible type `bool`")
        },
        other => panic!("{:?}", other),
    }
}

#[test]
fn arithmetic_lexer_tokens() {
    let tokens = ArithmeticLexer::lex_str("-1 + 3 * 4 - 22 / 7".to_string());
    assert_eq!(
        tokens,
        vec![
            T::Minus,
            T::Literal(Lit::Number(1)),
            T::Plus,
            T::Literal(Lit::Number(3)),
            T::Asterisk,
            T::Literal(Lit::Number(4)),
            T::Minus,
            T::Literal(Lit::Number(22)),
            T::Slash,
            T::Literal(Lit::Number(7)),
        ]
    );
    assert_eq!(ArithmeticLexer::lex_str("  ".to_string()), vec![]);
}

#[test]
fn validate_expression_statement_without_scope() {
    let mut context = Context::new();
    let mut statement = Statement::Expression(Node::new(
        Expression::Literal { value: jitter::frontend::parse::ast::Literal::Integer(1), ty: Type::i32 },
        Span::new(1, 0, 1, 1),
    ));
    assert!(context.validate_statement(&mut statement).is_ok());
}

#[test]
fn stripped_lexing_leaves_no_blank_tokens() {
    let tokens = lex_all("let x: i32 = 1;\n\n  // comment\n\tx\n");
    assert!(!tokens.is_empty());
    for t in tokens {
        assert!(t.token != Token::Whitespace && t.token != Token::NewLine, "{:?}", t.token);
    }
}

#[test]
fn code_plan_sizes_and_offsets() {
    let ast = parse("struct S { a: u8, b: u32 }\nfn f() { }");
    let mut context = Context::new();
    assert!(context.validate(ast).is_ok());
    let s = Type::User("S".to_string());
    assert_eq!(plan::slot_size(&context, &s), Some(8));
    assert_eq!(plan::slot_size(&context, &Type::User("T".to_string())), None);
    assert_eq!(plan::field_offset(&context, &s, &"b".to_string()), Some(4));
    assert_eq!(plan::field_offset(&context, &s, &"c".to_string()), None);
    assert_eq!(plan::literal_plan(&context, &Type::u32, IrType::I64), Some((IrType::I32, 4)));
    let fields = vec![
        ("b".to_string(), Node::new(Expression::Literal { value: jitter::frontend::parse::ast::Literal::Integer(1), ty: Type::u32 }, Span::new(0, 0, 0, 0))),
        ("a".to_string(), Node::new(Expression::Literal { value: jitter::frontend::parse::ast::Literal::Integer(2), ty: Type::u8 }, Span::new(0, 0, 0, 0))),
    ];
    assert_eq!(plan::field_copies(&context, &s, &fields), Some(vec![(4, 4), (0, 1)]));
}
