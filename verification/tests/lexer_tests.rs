use parsefront::lexer::{tokenize, LexerError};
use parsefront::token::{Keyword, Literal, Operator, Parenthetical, Token};

fn tokens_of(source: &str) -> Vec<Token> {
    tokenize(source.to_string())
        .unwrap()
        .into_iter()
        .map(|t| t.token)
        .collect()
}

#[test]
fn keyword() {
    let cases: Vec<(&str, Keyword)> = vec![
        ("function", Keyword::Function),
        ("return", Keyword::Return),
        ("break", Keyword::Break),
        ("while", Keyword::While),
        ("for", Keyword::For),
        ("let", Keyword::Let),
        ("var", Keyword::Var),
        ("in", Keyword::In),
    ];
    for (contents, keyword) in cases {
        let tokens = tokens_of(contents);
        assert_eq!(tokens.len(), 1);
        assert_eq!(tokens[0], Token::Keyword(keyword));
    }
}

#[test]
fn identifier() {
    let cases: Vec<(&str, Vec<&str>)> = vec![
        ("bruh moment", vec!["bruh", "moment"]),
        ("the2", vec!["the2"]),
        ("wha_42_b muh", vec!["wha_42_b", "muh"]),
    ];
    for (contents, idents) in cases {
        let tokens = tokens_of(contents);
        assert_eq!(tokens.len(), idents.len());
        for (token, ident) in tokens.into_iter().zip(idents.iter()) {
            assert_eq!(
                token,
                Token::Identifier(parsefront::token::Identifier(ident.to_string()))
            );
        }
    }
}

#[test]
fn int_literals() {
    let cases: Vec<(&str, Vec<i64>)> = vec![
        ("42_2", vec![422]),
        ("919", vec![919]),
        ("100_532_3", vec![1_005_323]),
        ("48 597 816", vec![48, 597, 816]),
        ("000___420___69___", vec![42069]),
    ];
    for (contents, values) in cases {
        let tokens = tokens_of(contents);
        assert_eq!(tokens.len(), values.len());
        for (token, value) in tokens.into_iter().zip(values.iter()) {
            assert_eq!(token, Token::Literal(Literal::Integer(*value)));
        }
    }
}

#[test]
fn float_literals() {
    let cases: Vec<(&str, Vec<f64>)> = vec![
        ("584.38", vec![584.38]),
        ("42.", vec![42.]),
        ("100.__52", vec![100.52]),
        ("72.78 735.53", vec![72.78, 735.53]),
    ];
    for (contents, values) in cases {
        let tokens = tokens_of(contents);
        assert_eq!(tokens.len(), values.len());
        for (token, value) in tokens.into_iter().zip(values.iter()) {
            match token {
                Token::Literal(Literal::Float(text)) => {
                    assert_eq!(text.parse::<f64>().unwrap(), *value);
                }
                other => panic!("expected a float literal, got {:?}", other),
            }
        }
    }
}

#[test]
fn operators_simple() {
    let cases: Vec<(&str, Vec<Operator>)> = vec![
        (":", vec![Operator::Colon]),
        ("+", vec![Operator::Add]),
        ("-", vec![Operator::Minus]),
        ("*", vec![Operator::Star]),
        ("/", vec![Operator::Divide]),
        ("%", vec![Operator::Mod]),
        (",", vec![Operator::Comma]),
        (".", vec![Operator::Dot]),
        ("==", vec![Operator::Equals]),
        (">", vec![Operator::Greater]),
        (">=", vec![Operator::GreaterOrEquals]),
        ("<", vec![Operator::Less]),
        ("<=", vec![Operator::LessOrEquals]),
        ("=", vec![Operator::Assignment]),
        ("and", vec![Operator::And]),
        ("or", vec![Operator::Or]),
        ("not", vec![Operator::Not]),
        ("xor", vec![Operator::Xor]),
        ("->", vec![Operator::ThinArrow]),
        ("=>", vec![Operator::Arrow]),
        ("&", vec![Operator::Reference]),
        (
            "+ - % > <= > and or -> => = > , . xor &",
            vec![
                Operator::Add,
                Operator::Minus,
                Operator::Mod,
                Operator::Greater,
                Operator::LessOrEquals,
                Operator::Greater,
                Operator::And,
                Operator::Or,
                Operator::ThinArrow,
                Operator::Arrow,
                Operator::Assignment,
                Operator::Greater,
                Operator::Comma,
                Operator::Dot,
                Operator::Xor,
                Operator::Reference,
            ],
        ),
    ];
    for (contents, expected) in cases {
        let tokens = tokens_of(contents);
        assert_eq!(tokens.len(), expected.len());
        for (token, operator) in tokens.into_iter().zip(expected.iter()) {
            assert_eq!(token, Token::Operator(*operator));
        }
    }
}

#[test]
fn string_literal() {
    let cases: Vec<(&str, Vec<&str>)> = vec![
        (r#" "hello world" "#, vec!["hello world"]),
        (
            r#" "wha \\ moment ' \" " "\n""#,
            vec![r#"wha \ moment ' " "#, "\n"],
        ),
        (r#" "\u0289 bruh" "#, vec!["\u{289} bruh"]),
    ];
    for (contents, expected) in cases {
        let tokens = tokens_of(contents);
        assert_eq!(tokens.len(), expected.len());
        for (token, text) in tokens.into_iter().zip(expected.iter()) {
            assert_eq!(token, Token::Literal(Literal::String(text.to_string())));
        }
    }
}

#[test]
fn string_escape_decodes_to_newline() {
    let tokens = tokens_of(r#"" \n ""#);
    assert_eq!(tokens.len(), 1);
    match &tokens[0] {
        Token::Literal(Literal::String(s)) => {
            assert_eq!(s, " \n ");
            assert!(s.contains('\n'));
            assert!(!s.contains('\\'));
        }
        other => panic!("expected a string literal, got {:?}", other),
    }
}

#[test]
fn char_literal() {
    let cases: Vec<(&str, Vec<char>)> = vec![
        (r#" 'a' "#, vec!['a']),
        (r#" '\u0050' '\n'"#, vec!['\u{50}', '\n']),
    ];
    for (contents, expected) in cases {
        let tokens = tokens_of(contents);
        assert_eq!(tokens.len(), expected.len());
        for (token, c) in tokens.into_iter().zip(expected.iter()) {
            assert_eq!(token, Token::Literal(Literal::Character(*c)));
        }
    }
}

#[test]
fn program_is_even() {
    const CONTENTS: &str = r#"
		function is_even(n: i32) {
			return n % 2 == 0
		}
 "#;
    let tokens = tokenize(CONTENTS.to_string()).unwrap();
    let expected = vec![
        Token::Keyword(Keyword::Function),
        Token::Identifier(parsefront::token::Identifier("is_even".to_string())),
        Token::Parenthetical(Parenthetical::NormalOpen),
        Token::Identifier(parsefront::token::Identifier("n".to_string())),
        Token::Operator(Operator::Colon),
        Token::Identifier(parsefront::token::Identifier("i32".to_string())),
        Token::Parenthetical(Parenthetical::NormalClose),
        Token::Parenthetical(Parenthetical::CurlyOpen),
        Token::Keyword(Keyword::Return),
        Token::Identifier(parsefront::token::Identifier("n".to_string())),
        Token::Operator(Operator::Mod),
        Token::Literal(Literal::Integer(2)),
        Token::Operator(Operator::Equals),
        Token::Literal(Literal::Integer(0)),
        Token::Parenthetical(Parenthetical::CurlyClose),
    ];
    let tokens: Vec<_> = tokens.into_iter().map(|x| x.token).collect();
    assert_eq!(tokens, expected);
}

#[test]
fn general_program() {
    const CONTENTS: &str = "\n\t\tfunction bruh\n ";
    let tokens = tokens_of(CONTENTS);
    let expected = vec![
        Token::Keyword(Keyword::Function),
        Token::Identifier(parsefront::token::Identifier("bruh".to_string())),
    ];
    assert_eq!(tokens, expected);
}

#[test]
fn traces_are_contiguous() {
    let tokens = tokenize("a + b\n  c".to_string()).unwrap();
    assert!(tokens.len() >= 2);
    assert_eq!(tokens[0].trace.begin_pos.row, 0);
    assert_eq!(tokens[0].trace.begin_pos.column, 0);
    for i in 1..tokens.len() {
        assert_eq!(tokens[i].trace.begin_pos, tokens[i - 1].trace.end_pos);
    }
    let last = &tokens[tokens.len() - 1];
    assert_eq!(last.trace.end_pos.row, 1);
}

#[test]
fn unexpected_char_is_an_error() {
    match tokenize("a $ b".to_string()) {
        Err(LexerError::UnexpectedChar(c)) => assert_eq!(c, '$'),
        other => panic!("expected an unexpected-character error, got {:?}", other),
    }
}

#[test]
fn unterminated_literal_is_an_error() {
    match tokenize("\"abc".to_string()) {
        Err(LexerError::UnterminatedLiteral(partial)) => assert_eq!(partial, "abc"),
        other => panic!("expected an unterminated-literal error, got {:?}", other),
    }
}

#[test]
fn invalid_literal_is_an_error() {
    match tokenize(r#""bad \q escape""#.to_string()) {
        Err(LexerError::InvalidLiteral(partial, cause)) => {
            assert_eq!(partial, r#"bad \q escape"#);
            assert!(!cause.is_empty());
        }
        other => panic!("expected an invalid-literal error, got {:?}", other),
    }
}

#[test]
fn empty_char_literal_is_an_error() {
    match tokenize("''".to_string()) {
        Err(LexerError::EmptyLiteral) => {}
        other => panic!("expected an empty-literal error, got {:?}", other),
    }
}

#[test]
fn long_char_literal_is_an_error() {
    match tokenize("'ab'".to_string()) {
        Err(LexerError::LongCharacterLiteral(text)) => assert_eq!(text, "ab"),
        other => panic!("expected a long-character-literal error, got {:?}", other),
    }
}

#[test]
fn oversized_int_literal_is_detected() {
    assert!(!parsefront::lexer::int_literals_fit("99999999999999999999"));
    assert!(parsefront::lexer::int_literals_fit("9223372036854775807"));
    assert!(parsefront::lexer::int_literals_fit(
        "\"99999999999999999999\""
    ));
    assert!(parsefront::try_parse("function f() => 99999999999999999999".to_string()).is_none());
}
