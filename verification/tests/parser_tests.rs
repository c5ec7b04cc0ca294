use parsefront::ast::{
    Expression, Function, FunctionSignature, Statement, TopLevelStatement, Type, Variable,
};
use parsefront::context::{Error, TokenStream};
use parsefront::lexer::tokenize;
use parsefront::operator::Binary;
use parsefront::token::{FilePos, Identifier, Literal, Operator, Token, Trace, TracedToken};
use parsefront::{category, expression, statement};

fn stream_of(source: &str) -> TokenStream {
    TokenStream::new(tokenize(source.to_string()).unwrap())
}

fn ident(name: &str) -> Identifier {
    Identifier(name.to_string())
}

fn reference(name: &str) -> Expression {
    Expression::ObjectReference(ident(name))
}

#[test]
fn consume_type() {
    let cases: Vec<(&str, Type)> = vec![
        ("unit", Type::Unit),
        ("i64", Type::I64),
        ("i32", Type::I32),
        ("i8", Type::I8),
        ("u64", Type::U64),
        ("u32", Type::U32),
        ("u8", Type::U8),
        ("f32", Type::F32),
        ("f64", Type::F64),
        ("usize", Type::USize),
        ("BruhMoment", Type::custom("BruhMoment")),
        ("Vec<i32>", Type::template("Vec", vec![Type::I32])),
        ("Vec<i32, f32>", Type::template("Vec", vec![Type::I32, Type::F32])),
        ("*i32", Type::I32.as_pointer()),
        ("***i32", Type::I32.as_pointer().as_pointer().as_pointer()),
        ("const *i32", Type::I32.as_pointer().as_const()),
        ("* const i32", Type::I32.as_const().as_pointer()),
        ("const const const const i32", Type::I32.as_const()),
        ("[f32; 10]", Type::F32.as_array(10)),
    ];
    for (source, ty) in cases {
        let mut ctx = stream_of(source);
        assert_eq!(category::consume_type(&mut ctx).unwrap(), ty);
    }
}

#[test]
fn const_wrapping_collapses_when_parsed() {
    let mut ctx = stream_of("const const const i32");
    assert_eq!(
        category::consume_type(&mut ctx).unwrap(),
        Type::Const(Box::new(Type::I32))
    );
}

#[test]
fn parse_type_inverts_name() {
    let samples: Vec<Type> = vec![
        Type::Unit,
        Type::I32.as_pointer(),
        Type::U32.as_const(),
        Type::U8.as_const().as_pointer(),
        Type::I32.as_const().as_pointer().as_const(),
        Type::F32.as_array(10),
        Type::custom("BruhMoment"),
        Type::template("Vec", vec![Type::I64, Type::F32.as_pointer()]),
        Type::template("Map", vec![Type::custom("Key"), Type::U64.as_array(3)]),
    ];
    for ty in samples {
        let rendered = ty.name();
        let parsed = parsefront::parse_type(&rendered).unwrap();
        assert_eq!(parsed, ty);
    }
}

#[test]
fn consume_expression() {
    let t = |s: &str| expression::consume(&mut stream_of(s)).unwrap();

    assert_eq!(t("wha "), reference("wha"));
    assert_eq!(
        t("a*b"),
        Expression::Binary {
            lhs: Box::new(reference("a")),
            operator: Binary::Multiply,
            rhs: Box::new(reference("b")),
        }
    );
    assert_eq!(
        t("a*b + c"),
        Expression::Binary {
            lhs: Box::new(Expression::Binary {
                lhs: Box::new(reference("a")),
                operator: Binary::Multiply,
                rhs: Box::new(reference("b")),
            }),
            operator: Binary::Add,
            rhs: Box::new(reference("c")),
        }
    );
    assert_eq!(
        t("4 + 2"),
        Expression::Binary {
            lhs: Box::new(Expression::Literal(Literal::Integer(4))),
            operator: Binary::Add,
            rhs: Box::new(Expression::Literal(Literal::Integer(2))),
        }
    );
}

#[test]
fn consume_statement() {
    let t = |s: &str| statement::consume(&mut stream_of(s)).unwrap();

    assert_eq!(
        t("var a: i32"),
        Statement::Declaration { var: Variable::new("a", Type::I32), initialisation: None }
    );
    assert_eq!(
        t("var a: i32 = bruh"),
        Statement::Declaration {
            var: Variable::new("a", Type::I32),
            initialisation: Some(reference("bruh")),
        }
    );
    assert_eq!(
        t("let a: i32 = bruh"),
        Statement::Declaration {
            var: Variable::new("a", Type::I32.as_const()),
            initialisation: Some(reference("bruh")),
        }
    );
    assert_eq!(
        t("let a: *const i32 = bruh"),
        Statement::Declaration {
            var: Variable::new("a", Type::I32.as_const().as_pointer().as_const()),
            initialisation: Some(reference("bruh")),
        }
    );
}

#[test]
fn consume_top_level() {
    let t = |s: &str| TokenStream::parse(tokenize(s.to_string()).unwrap()).unwrap();

    {
        let what_unit = vec![TopLevelStatement::Function {
            ident: ident("what"),
            function: Function {
                signature: FunctionSignature::new_named(vec![], Type::Unit),
                body: Box::new(Expression::Scope(vec![])),
            },
        }];

        assert_eq!(t("function what() {}"), what_unit);
        assert_eq!(t("function what() -> unit {}"), what_unit);

        assert_eq!(
            t(r#"function huh(x: f32, y: f32) {}"#),
            vec![TopLevelStatement::Function {
                ident: ident("huh"),
                function: Function {
                    signature: FunctionSignature::new_named(
                        vec![Variable::new("x", Type::F32), Variable::new("y", Type::F32)],
                        Type::Unit,
                    ),
                    body: Box::new(Expression::Scope(vec![])),
                },
            }]
        );

        assert_eq!(
            t(r#"function huh() -> Bruh {
				{}
			}"#),
            vec![TopLevelStatement::Function {
                ident: ident("huh"),
                function: Function {
                    signature: FunctionSignature::new_named(vec![], Type::custom("Bruh")),
                    body: Box::new(Expression::Scope(vec![Statement::Expression(
                        Expression::Scope(vec![])
                    )])),
                },
            }]
        );

        assert_eq!(
            t(r#"function man() -> Bruh {
				man
			}"#),
            vec![TopLevelStatement::Function {
                ident: ident("man"),
                function: Function {
                    signature: FunctionSignature::new_named(vec![], Type::custom("Bruh")),
                    body: Box::new(Expression::Scope(vec![Statement::Expression(reference(
                        "man"
                    ))])),
                },
            }]
        );

        assert_eq!(
            t(r#"function lambda() -> f32 => bruh"#),
            vec![TopLevelStatement::Function {
                ident: ident("lambda"),
                function: Function {
                    signature: FunctionSignature::new_named(vec![], Type::F32),
                    body: Box::new(reference("bruh")),
                },
            }]
        );
    }
}

#[test]
fn parse_is_even_end_to_end() {
    let program = parsefront::parse("function is_even(n: i32) { return n % 2 == 0 }".to_string())
        .unwrap();
    assert_eq!(program.len(), 1);
    match &program[0] {
        TopLevelStatement::Function { ident: name, function } => {
            assert_eq!(name, &ident("is_even"));
            assert_eq!(
                function.signature,
                FunctionSignature::new_named(vec![Variable::new("n", Type::I32)], Type::Unit)
            );
            let expected_body = Expression::Scope(vec![Statement::Return(Expression::Binary {
                lhs: Box::new(Expression::Binary {
                    lhs: Box::new(reference("n")),
                    operator: Binary::Mod,
                    rhs: Box::new(Expression::Literal(Literal::Integer(2))),
                }),
                operator: Binary::Equals,
                rhs: Box::new(Expression::Literal(Literal::Integer(0))),
            })]);
            assert_eq!(*function.body, expected_body);
        }
        other => panic!("expected a function, got {:?}", other),
    }
}

#[test]
fn malformed_parameter_fails_fast() {
    let result = parsefront::parse("function f( : i32".to_string());
    match result {
        Err(Error::ExpectedToken { expected, given }) => {
            assert_eq!(expected, Token::Identifier(ident("")));
            assert_eq!(given, Token::Operator(Operator::Colon));
        }
        other => panic!("expected a missing-identifier error, got {:?}", other),
    }
}

#[test]
fn trailing_garbage_is_an_error() {
    let result = parsefront::parse("function what() {} )".to_string());
    assert!(matches!(result, Err(Error::UnexpectedToken(_))));
}

#[test]
fn empty_input_parses_to_nothing() {
    assert_eq!(parsefront::parse(String::new()).unwrap(), vec![]);
}

#[test]
fn signature_identity_ignores_parameter_names() {
    let a = FunctionSignature::new_named(vec![Variable::new("x", Type::I32)], Type::Unit);
    let b = FunctionSignature::new_named(vec![Variable::new("y", Type::I32)], Type::Unit);
    let c = FunctionSignature::new_named(vec![Variable::new("x", Type::U32)], Type::Unit);
    assert_eq!(a, b);
    assert_ne!(a, c);
    assert_eq!(FunctionSignature::new(vec![Type::I32], Type::Unit), a);
}

#[test]
fn invalid_array_size_is_an_error() {
    let tokens = vec![
        TracedToken {
            token: Token::Parenthetical(parsefront::token::Parenthetical::BracketOpen),
            trace: trace_at_origin(),
        },
        TracedToken { token: Token::Identifier(ident("i32")), trace: trace_at_origin() },
        TracedToken { token: Token::Operator(Operator::SemiColon), trace: trace_at_origin() },
        TracedToken { token: Token::Literal(Literal::Integer(-5)), trace: trace_at_origin() },
        TracedToken {
            token: Token::Parenthetical(parsefront::token::Parenthetical::BracketClose),
            trace: trace_at_origin(),
        },
    ];
    let mut ctx = TokenStream::new(tokens);
    match category::consume_type(&mut ctx) {
        Err(Error::InvalidArraySize(v)) => assert_eq!(v, -5),
        other => panic!("expected an invalid-array-size error, got {:?}", other),
    }
}

fn trace_at_origin() -> Trace {
    Trace {
        source_file: String::new(),
        begin_pos: FilePos::beginning(),
        end_pos: FilePos::beginning(),
    }
}

#[test]
fn unary_prefix_parses() {
    let e = expression::consume(&mut stream_of("-x")).unwrap();
    assert_eq!(
        e,
        Expression::Unary {
            operator: parsefront::operator::Unary::Negate,
            expr: Box::new(reference("x")),
        }
    );
}

#[test]
fn parenthesised_expression_groups() {
    let e = expression::consume(&mut stream_of("a * (b + c)")).unwrap();
    assert_eq!(
        e,
        Expression::Binary {
            lhs: Box::new(reference("a")),
            operator: Binary::Multiply,
            rhs: Box::new(Expression::Binary {
                lhs: Box::new(reference("b")),
                operator: Binary::Add,
                rhs: Box::new(reference("c")),
            }),
        }
    );
    let unit = expression::consume(&mut stream_of("()")).unwrap();
    assert_eq!(unit, Expression::Literal(Literal::Unit));
}
