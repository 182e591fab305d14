use jitter::frontend::lex::token::{Keyword, SpannedToken, Token};
use jitter::frontend::lex::{LexStep, Lexer};
use jitter::frontend::parse::ast::{Expression, Literal, Node, UnaryOp};
use jitter::frontend::validate::types::Type;
use jitter::Span;

fn lex_all(path: &str, input: &str) -> Vec<SpannedToken> {
    let mut lexer = Lexer::new(path.to_string(), input.to_string(), true);
    match lexer.lex() {
        LexStep::Finished(Ok(tokens)) => tokens,
        LexStep::Finished(Err(errors)) => panic!("lexing errors: {:?}", errors),
        LexStep::Include(path) => panic!("unexpected include of {}", path),
    }
}

#[test]
fn nodes() {
    let child = Expression::Literal { value: Literal::Integer(7), ty: Type::i32 };

    let child_node = Node::new(child, Span::new(0, 0, 0, 0));

    let parent = Expression::UnaryExpression {
        op: Node::new(UnaryOp::Negate, Span::new(0, 0, 0, 0)),
        expr: Box::new(child_node),
        ty: Type::Unknown,
    };

    let parent_node = Node::new(parent, Span::new(0, 0, 0, 0));
    match parent_node.item {
        Expression::UnaryExpression { expr, .. } => {
            assert!(matches!(expr.item, Expression::Literal { value: Literal::Integer(7), ty: Type::i32 }));
        },
        _ => panic!("expected a unary expression"),
    }
}

#[test]
fn lexer() {
    let test_input = "1_230\n321\n123.456\n99.78\n10.88f32\n100usize\nident _0_1 _1test test1_\n\
        box extern enum for fn impl let mut pub return self struct trait use\n\
        @ - + * / = < > . , : ; & ! | ( ) { } [ ]\n";

    // Remove spans
    let test_tokens = lex_all("lex_test.txt", test_input)
        .into_iter()
        .map(|spanned| spanned.token)
        .collect::<Vec<Token>>();

    let expected = vec![
        // Numbers
        Token::Number(1230),
        Token::Number(321),
        Token::Number(123),
        Token::Dot,
        Token::Number(456),
        Token::Number(99),
        Token::Dot,
        Token::Number(78),
        Token::Number(10),
        Token::Dot,
        Token::Number(88),
        Token::Ident("f32".to_string()),
        Token::Number(100),
        Token::Ident("usize".to_string()),
        // Identifiers
        Token::Ident("ident".to_string()),
        Token::Ident("_0_1".to_string()),
        Token::Ident("_1test".to_string()),
        Token::Ident("test1_".to_string()),
        // Keywords
        Token::Keyword(Keyword::Box),
        Token::Keyword(Keyword::Extern),
        Token::Keyword(Keyword::Enum),
        Token::Keyword(Keyword::For),
        Token::Keyword(Keyword::Fn),
        Token::Keyword(Keyword::Impl),
        Token::Keyword(Keyword::Let),
        Token::Keyword(Keyword::Mut),
        Token::Keyword(Keyword::Pub),
        Token::Keyword(Keyword::Return),
        Token::Keyword(Keyword::Self_),
        Token::Keyword(Keyword::Struct),
        Token::Keyword(Keyword::Trait),
        Token::Keyword(Keyword::Use),
        // Symbols
        Token::At,
        Token::Minus,
        Token::Plus,
        Token::Asterisk,
        Token::Slash,
        Token::Equals,
        Token::LeftAngleBracket,
        Token::RightAngleBracket,
        Token::Dot,
        Token::Comma,
        Token::Colon,
        Token::Semicolon,
        Token::And,
        Token::Bang,
        Token::Pipe,
        Token::OpenParen,
        Token::CloseParen,
        Token::OpenCurlyBrace,
        Token::CloseCurlyBrace,
        Token::OpenSquareBracket,
        Token::CloseSquareBracket,
    ];

    assert_eq!(test_tokens, expected);
}
