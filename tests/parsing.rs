use frontend::ast::{
    Alias, Constructor, Expression, Infix, Literal, Prefix, Program, Statement, Type,
    TypeConstructor,
};
use frontend::lexer::Lexer;
use frontend::parser::{ParseError, Parser, Precedence};
use frontend::token::Token;

fn ident(s: &str) -> Token {
    Token::Identifier(s.to_string())
}

fn int_lit(s: &str) -> Token {
    Token::IntegerLiteral(s.to_string())
}

fn parse(tokens: Vec<Token>) -> (Program, Vec<ParseError>) {
    let mut p = Parser::new(Lexer::new(tokens));
    let program = p.parse_program();
    (program, p.errors)
}

fn lit(n: i64) -> Box<Expression> {
    Box::new(Expression::Literal(Literal::Integer(n)))
}

fn id_expr(s: &str) -> Box<Expression> {
    Box::new(Expression::Identifier(ident(s)))
}

fn builtin(c: Constructor) -> Alias {
    Alias { name: TypeConstructor::BuiltIn(c), parameters: Vec::new() }
}

#[test]
fn empty_stream_gives_empty_program() {
    let (program, errors) = parse(vec![]);
    assert!(program.is_empty());
    assert!(errors.is_empty());
    let (program, errors) = parse(vec![Token::End]);
    assert!(program.is_empty());
    assert!(errors.is_empty());
}

#[test]
fn let_statement() {
    let (program, errors) =
        parse(vec![Token::Let, ident("x"), Token::Assign, int_lit("5"), Token::SemiColon, Token::End]);
    assert_eq!(program, vec![Statement::Let(ident("x"), Expression::Literal(Literal::Integer(5)))]);
    assert!(errors.is_empty());
}

#[test]
fn product_binds_tighter_than_sum() {
    let (program, errors) =
        parse(vec![int_lit("1"), Token::Plus, int_lit("2"), Token::Product, int_lit("3"), Token::End]);
    assert!(errors.is_empty());
    assert_eq!(
        program,
        vec![Statement::Expression(Expression::Infix(
            Infix::Plus,
            lit(1),
            Box::new(Expression::Infix(Infix::Product, lit(2), lit(3))),
        ))]
    );
}

#[test]
fn equal_precedence_is_left_associative() {
    let (program, errors) =
        parse(vec![int_lit("1"), Token::Minus, int_lit("2"), Token::Minus, int_lit("3"), Token::End]);
    assert!(errors.is_empty());
    assert_eq!(
        program,
        vec![Statement::Expression(Expression::Infix(
            Infix::Minus,
            Box::new(Expression::Infix(Infix::Minus, lit(1), lit(2))),
            lit(3),
        ))]
    );
}

#[test]
fn single_line_function() {
    let (program, errors) = parse(vec![
        Token::Fn,
        ident("x"),
        Token::Arrow,
        ident("x"),
        Token::Plus,
        int_lit("1"),
        Token::SemiColon,
        Token::End,
    ]);
    assert!(errors.is_empty());
    assert_eq!(
        program,
        vec![Statement::Expression(Expression::Function {
            parameters: vec![ident("x")],
            body: vec![Statement::Expression(Expression::Infix(Infix::Plus, id_expr("x"), lit(1)))],
        })]
    );
}

#[test]
fn single_line_function_needs_semicolon() {
    let (program, errors) =
        parse(vec![Token::Fn, ident("x"), Token::Arrow, ident("x"), Token::End]);
    assert!(!errors.is_empty());
    assert!(program.iter().all(|s| !matches!(s, Statement::Expression(Expression::Function { .. }))));
}

#[test]
fn block_function_with_implicit_value() {
    let (program, errors) = parse(vec![
        Token::Fn,
        ident("x"),
        Token::Arrow,
        Token::LeftBrace,
        ident("x"),
        Token::Plus,
        int_lit("1"),
        Token::RightBrace,
        Token::End,
    ]);
    assert!(errors.is_empty());
    assert_eq!(
        program,
        vec![Statement::Expression(Expression::Function {
            parameters: vec![ident("x")],
            body: vec![Statement::Expression(Expression::Infix(Infix::Plus, id_expr("x"), lit(1)))],
        })]
    );
}

#[test]
fn block_function_with_trailing_semicolon_is_rejected() {
    let (program, errors) = parse(vec![
        Token::Fn,
        ident("x"),
        Token::Arrow,
        Token::LeftBrace,
        ident("x"),
        Token::Plus,
        int_lit("1"),
        Token::SemiColon,
        Token::RightBrace,
        Token::End,
    ]);
    assert!(!errors.is_empty());
    assert!(program.iter().all(|s| !matches!(s, Statement::Expression(Expression::Function { .. }))));
}

#[test]
fn block_function_with_return() {
    let (program, errors) = parse(vec![
        Token::Fn,
        Token::UnitName,
        Token::Arrow,
        Token::LeftBrace,
        Token::Return,
        int_lit("7"),
        Token::SemiColon,
        Token::RightBrace,
        Token::End,
    ]);
    assert!(errors.is_empty());
    assert_eq!(
        program,
        vec![Statement::Expression(Expression::Function {
            parameters: vec![Token::UnitName],
            body: vec![Statement::Return(Expression::Literal(Literal::Integer(7)))],
        })]
    );
}

#[test]
fn empty_function_block_is_rejected() {
    let (_, errors) =
        parse(vec![Token::Fn, ident("x"), Token::Arrow, Token::LeftBrace, Token::RightBrace, Token::End]);
    assert!(errors.contains(&ParseError::Log("Empty function body".to_string())));
}

#[test]
fn union_declaration() {
    let (program, errors) = parse(vec![
        Token::Type,
        ident("Shape"),
        Token::Assign,
        Token::Vbar,
        ident("Circle"),
        Token::Of,
        Token::FloatName,
        Token::Vbar,
        ident("Square"),
        Token::Of,
        Token::FloatName,
        Token::Vbar,
        ident("Point"),
        Token::SemiColon,
        Token::End,
    ]);
    assert!(errors.is_empty());
    assert_eq!(
        program,
        vec![Statement::Type(
            ident("Shape"),
            Type::Union(vec![
                (ident("Circle"), Some(builtin(Constructor::Float))),
                (ident("Square"), Some(builtin(Constructor::Float))),
                (ident("Point"), None),
            ]),
        )]
    );
}

#[test]
fn record_declaration() {
    let (program, errors) = parse(vec![
        Token::Type,
        ident("Point"),
        Token::Assign,
        Token::LeftBrace,
        ident("x"),
        Token::Colon,
        Token::IntType,
        Token::Comma,
        ident("y"),
        Token::Colon,
        Token::IntType,
        Token::RightBrace,
        Token::SemiColon,
        Token::End,
    ]);
    assert!(errors.is_empty());
    assert_eq!(
        program,
        vec![Statement::Type(
            ident("Point"),
            Type::Record(vec![
                (ident("x"), builtin(Constructor::Int)),
                (ident("y"), builtin(Constructor::Int)),
            ]),
        )]
    );
}

#[test]
fn alias_declaration_with_parameter() {
    let (program, errors) = parse(vec![
        Token::Type,
        ident("Names"),
        Token::Assign,
        Token::ListName,
        Token::StrName,
        Token::SemiColon,
        Token::End,
    ]);
    assert!(errors.is_empty());
    assert_eq!(
        program,
        vec![Statement::Type(
            ident("Names"),
            Type::Alias(Alias {
                name: TypeConstructor::BuiltIn(Constructor::List),
                parameters: vec![builtin(Constructor::Str)],
            }),
        )]
    );
}

#[test]
fn lowercase_custom_type_is_rejected() {
    let (program, errors) = parse(vec![
        Token::Type,
        ident("T"),
        Token::Assign,
        ident("shape"),
        Token::SemiColon,
        Token::End,
    ]);
    assert!(errors.contains(&ParseError::Log(
        "Custom type identifier 'shape' must start with uppercase letter".to_string()
    )));
    assert!(program.iter().all(|s| !matches!(s, Statement::Type(..))));
}

#[test]
fn lowercase_custom_type_in_union_is_rejected() {
    let (program, errors) = parse(vec![
        Token::Type,
        ident("T"),
        Token::Assign,
        Token::Vbar,
        ident("A"),
        Token::Of,
        ident("point"),
        Token::SemiColon,
        Token::End,
    ]);
    assert!(!errors.is_empty());
    assert!(program.iter().all(|s| !matches!(s, Statement::Type(..))));
}

#[test]
fn uppercase_custom_type_is_accepted() {
    let (program, errors) = parse(vec![
        Token::Type,
        ident("T"),
        Token::Assign,
        ident("Shape"),
        Token::SemiColon,
        Token::End,
    ]);
    assert!(errors.is_empty());
    assert_eq!(
        program,
        vec![Statement::Type(
            ident("T"),
            Type::Alias(Alias { name: TypeConstructor::Custom(ident("Shape")), parameters: vec![] }),
        )]
    );
}

#[test]
fn let_without_name_reports_and_terminates() {
    let tokens = vec![Token::Let, Token::Assign, int_lit("5"), Token::SemiColon, Token::End];
    let mut p = Parser::new(Lexer::new(tokens));
    let program = p.parse_program();
    assert!(!p.errors.is_empty());
    assert!(program.iter().all(|s| !matches!(s, Statement::Let(..))));
    assert_eq!(p.curr, Token::End);
    assert_eq!(p.peek, Token::End);
}

#[test]
fn missing_assign_in_let_is_unexpected_token() {
    let (program, errors) = parse(vec![Token::Let, ident("x"), int_lit("5"), Token::End]);
    assert_eq!(
        errors[0],
        ParseError::UnexpectedToken { want: Some(Token::Assign), got: int_lit("5") }
    );
    assert!(program.iter().all(|s| !matches!(s, Statement::Let(..))));
}

#[test]
fn unknown_leading_token_is_reported() {
    let (program, errors) = parse(vec![Token::RightParen, Token::End]);
    assert!(program.is_empty());
    assert_eq!(
        errors,
        vec![ParseError::Log("No prefix parse function for RightParen found".to_string())]
    );
}

#[test]
fn integer_out_of_range_is_reported() {
    let (program, errors) = parse(vec![int_lit("9223372036854775808"), Token::End]);
    assert!(program.is_empty());
    assert_eq!(
        errors,
        vec![ParseError::Log("Could not parse 9223372036854775808 as integer".to_string())]
    );
    let (program, errors) = parse(vec![int_lit("9223372036854775807"), Token::End]);
    assert!(errors.is_empty());
    assert_eq!(
        program,
        vec![Statement::Expression(Expression::Literal(Literal::Integer(i64::MAX)))]
    );
}

#[test]
fn float_literal_is_kept_as_text() {
    let (program, errors) = parse(vec![Token::FloatLiteral("2.5".to_string()), Token::End]);
    assert!(errors.is_empty());
    assert_eq!(
        program,
        vec![Statement::Expression(Expression::Literal(Literal::Float("2.5".to_string())))]
    );
    let (program, errors) = parse(vec![Token::FloatLiteral("2.5.1".to_string()), Token::End]);
    assert!(program.is_empty());
    assert_eq!(errors, vec![ParseError::Log("Could not parse 2.5.1 as float".to_string())]);
}

#[test]
fn prefix_and_grouping() {
    let (program, errors) = parse(vec![
        Token::Minus,
        Token::LeftParen,
        int_lit("1"),
        Token::Plus,
        int_lit("2"),
        Token::RightParen,
        Token::End,
    ]);
    assert!(errors.is_empty());
    assert_eq!(
        program,
        vec![Statement::Expression(Expression::Prefix(
            Prefix::Minus,
            Box::new(Expression::Infix(Infix::Plus, lit(1), lit(2))),
        ))]
    );
}

#[test]
fn unclosed_group_is_reported() {
    let (program, errors) = parse(vec![Token::LeftParen, int_lit("1"), Token::End]);
    assert!(program.is_empty());
    assert_eq!(errors[0], ParseError::UnexpectedToken { want: Some(Token::RightParen), got: Token::End });
}

#[test]
fn call_with_arguments() {
    let (program, errors) = parse(vec![
        ident("f"),
        Token::LeftParen,
        int_lit("1"),
        Token::Comma,
        ident("y"),
        Token::RightParen,
        Token::End,
    ]);
    assert!(errors.is_empty());
    assert_eq!(
        program,
        vec![Statement::Expression(Expression::Call {
            function: id_expr("f"),
            arguments: vec![Expression::Literal(Literal::Integer(1)), Expression::Identifier(ident("y"))],
        })]
    );
    let (program, errors) = parse(vec![ident("g"), Token::LeftParen, Token::RightParen, Token::End]);
    assert!(errors.is_empty());
    assert_eq!(
        program,
        vec![Statement::Expression(Expression::Call { function: id_expr("g"), arguments: vec![] })]
    );
}

#[test]
fn if_else_expression() {
    let (program, errors) = parse(vec![
        Token::If,
        ident("c"),
        Token::LeftBrace,
        int_lit("1"),
        Token::RightBrace,
        Token::Else,
        Token::LeftBrace,
        int_lit("2"),
        Token::RightBrace,
        Token::End,
    ]);
    assert!(errors.is_empty());
    assert_eq!(
        program,
        vec![Statement::Expression(Expression::If {
            condition: id_expr("c"),
            consequence: vec![Statement::Expression(Expression::Literal(Literal::Integer(1)))],
            alternative: Some(vec![Statement::Expression(Expression::Literal(Literal::Integer(2)))]),
        })]
    );
}

#[test]
fn some_wraps_the_whole_infix_chain() {
    let (program, errors) =
        parse(vec![Token::KwSome, int_lit("1"), Token::Plus, int_lit("2"), Token::End]);
    assert!(errors.is_empty());
    assert_eq!(
        program,
        vec![Statement::Expression(Expression::OptionSome(Box::new(Expression::Infix(
            Infix::Plus,
            lit(1),
            lit(2),
        ))))]
    );
}

#[test]
fn constructors_none_ok_error() {
    let (program, errors) = parse(vec![
        Token::KwNone,
        Token::SemiColon,
        Token::KwOk,
        int_lit("1"),
        Token::SemiColon,
        Token::KwError,
        Token::Boolean(false),
        Token::End,
    ]);
    assert!(errors.is_empty());
    assert_eq!(
        program,
        vec![
            Statement::Expression(Expression::OptionNone),
            Statement::Expression(Expression::ResultOk(lit(1))),
            Statement::Expression(Expression::ResultErr(Box::new(Expression::Literal(
                Literal::Boolean(false)
            )))),
        ]
    );
}

#[test]
fn bitwise_operators_are_not_binary() {
    // `&` and `^` have a precedence level but no binary operator.
    let (program, _) = parse(vec![int_lit("1"), Token::Ampersand, int_lit("2"), Token::End]);
    assert_eq!(program[0], Statement::Expression(Expression::Literal(Literal::Integer(1))));
}

#[test]
fn precedence_levels_are_ordered() {
    assert!(Precedence::Lowest < Precedence::Pipe);
    assert!(Precedence::Sum < Precedence::Product);
    assert!(Precedence::Prefix < Precedence::Call);
    assert_eq!(Precedence::Call.level(), 9);
    assert_eq!(Precedence::Lowest.level(), 0);
}

#[test]
fn fn_parameters_list() {
    let tokens = vec![ident("a"), Token::Comma, ident("b"), Token::Comma, ident("c"), Token::Arrow];
    let mut p = Parser::new(Lexer::new(tokens));
    assert_eq!(p.parse_fn_parameters(), Some(vec![ident("a"), ident("b"), ident("c")]));
    assert_eq!(p.curr, ident("c"));
    let mut p = Parser::new(Lexer::new(vec![int_lit("1")]));
    assert_eq!(p.parse_fn_parameters(), None);
    let mut p = Parser::new(Lexer::new(vec![ident("a"), Token::Comma, int_lit("1")]));
    assert_eq!(p.parse_fn_parameters(), None);
}

#[test]
fn whole_stream_is_consumed_despite_errors() {
    let tokens = vec![
        Token::RightParen,
        Token::Let,
        Token::Assign,
        Token::Comma,
        int_lit("3"),
        Token::Plus,
        Token::End,
        int_lit("99"),
    ];
    let mut p = Parser::new(Lexer::new(tokens));
    let program = p.parse_program();
    assert!(!p.errors.is_empty());
    assert!(program.is_empty());
    assert_eq!(p.curr, Token::End);
    assert_eq!(p.lexer.position(), 6);
    let p = Parser::new(Lexer::new(vec![int_lit("1")]));
    assert_eq!(p.lexer.position(), 1);
}

#[test]
fn lexer_stops_at_sentinel() {
    let mut l = Lexer::new(vec![int_lit("1"), Token::End, int_lit("2")]);
    assert_eq!(l.advance(), int_lit("1"));
    assert_eq!(l.advance(), Token::End);
    assert_eq!(l.advance(), Token::End);
    assert_eq!(l.position(), 1);
}

#[test]
fn let_bound_block_function_then_next_statement() {
    let (program, errors) = parse(vec![
        Token::Let,
        ident("f"),
        Token::Assign,
        Token::Fn,
        ident("a"),
        Token::Comma,
        ident("b"),
        Token::Arrow,
        Token::LeftBrace,
        Token::Let,
        ident("s"),
        Token::Assign,
        ident("a"),
        Token::Plus,
        ident("b"),
        Token::SemiColon,
        ident("s"),
        Token::RightBrace,
        Token::SemiColon,
        Token::Let,
        ident("y"),
        Token::Assign,
        int_lit("2"),
        Token::SemiColon,
        Token::End,
    ]);
    assert!(errors.is_empty());
    assert_eq!(
        program,
        vec![
            Statement::Let(
                ident("f"),
                Expression::Function {
                    parameters: vec![ident("a"), ident("b")],
                    body: vec![
                        Statement::Let(
                            ident("s"),
                            Expression::Infix(Infix::Plus, id_expr("a"), id_expr("b")),
                        ),
                        Statement::Expression(Expression::Identifier(ident("s"))),
                    ],
                },
            ),
            Statement::Let(ident("y"), Expression::Literal(Literal::Integer(2))),
        ]
    );
}

#[test]
fn missing_type_name_is_reported() {
    let (program, errors) = parse(vec![Token::Type, Token::Assign, Token::IntName, Token::SemiColon, Token::End]);
    assert!(!errors.is_empty());
    assert!(program.iter().all(|s| !matches!(s, Statement::Type(..))));
}

#[test]
fn relational_and_multiplicative_operators() {
    let (program, errors) = parse(vec![ident("a"), Token::LTOrEqual, ident("b"), Token::End]);
    assert!(errors.is_empty());
    assert_eq!(
        program,
        vec![Statement::Expression(Expression::Infix(Infix::LTOrEqual, id_expr("a"), id_expr("b")))]
    );
    let (program, errors) = parse(vec![
        ident("a"),
        Token::GTOrEqual,
        ident("b"),
        Token::Modulo,
        int_lit("2"),
        Token::End,
    ]);
    assert!(errors.is_empty());
    assert_eq!(
        program,
        vec![Statement::Expression(Expression::Infix(
            Infix::GTOrEqual,
            id_expr("a"),
            Box::new(Expression::Infix(Infix::Modulo, id_expr("b"), lit(2))),
        ))]
    );
    let (program, errors) = parse(vec![ident("f"), Token::Period, ident("g"), Token::End]);
    assert!(errors.is_empty());
    assert_eq!(
        program,
        vec![Statement::Expression(Expression::Infix(Infix::Period, id_expr("f"), id_expr("g")))]
    );
}

#[test]
fn custom_type_name_must_start_uppercase() {
    for name in ["_x", "9x", ""] {
        let (program, errors) = parse(vec![
            Token::Type,
            ident("T"),
            Token::Assign,
            ident(name),
            Token::SemiColon,
            Token::End,
        ]);
        assert_eq!(
            errors[0],
            ParseError::Log(format!("Custom type identifier '{}' must start with uppercase letter", name))
        );
        assert!(program.iter().all(|s| !matches!(s, Statement::Type(..))));
    }
}

#[test]
fn record_field_custom_and_list_types() {
    let (program, errors) = parse(vec![
        Token::Type,
        ident("R"),
        Token::Assign,
        Token::LeftBrace,
        ident("xs"),
        Token::Colon,
        Token::ListName,
        Token::IntType,
        Token::Comma,
        ident("p"),
        Token::Colon,
        ident("Point"),
        Token::RightBrace,
        Token::SemiColon,
        Token::End,
    ]);
    assert!(errors.is_empty());
    assert_eq!(
        program,
        vec![Statement::Type(
            ident("R"),
            Type::Record(vec![
                (
                    ident("xs"),
                    Alias {
                        name: TypeConstructor::BuiltIn(Constructor::List),
                        parameters: vec![builtin(Constructor::Int)],
                    },
                ),
                (ident("p"), Alias { name: TypeConstructor::Custom(ident("Point")), parameters: vec![] }),
            ]),
        )]
    );
}

#[test]
fn float_text_forms() {
    for text in ["1e5", "2.5E-3", "-inf", "NaN", "+Infinity", ".5", "5.", "0.25e+2"] {
        let (program, errors) = parse(vec![Token::FloatLiteral(text.to_string()), Token::End]);
        assert!(errors.is_empty(), "{}", text);
        assert_eq!(
            program,
            vec![Statement::Expression(Expression::Literal(Literal::Float(text.to_string())))]
        );
    }
    for text in ["1e", "e5", ".", "1.2.3", "infx", "", "1e+"] {
        let (program, errors) = parse(vec![Token::FloatLiteral(text.to_string()), Token::End]);
        assert!(program.is_empty(), "{}", text);
        assert_eq!(errors, vec![ParseError::Log(format!("Could not parse {} as float", text))]);
    }
}

#[test]
fn failed_let_is_dropped_and_parsing_goes_on() {
    let (program, errors) = parse(vec![
        Token::Let,
        Token::Assign,
        int_lit("5"),
        Token::SemiColon,
        Token::Let,
        ident("y"),
        Token::Assign,
        int_lit("2"),
        Token::SemiColon,
        Token::End,
    ]);
    assert_eq!(errors.len(), 2);
    assert_eq!(
        program,
        vec![
            Statement::Expression(Expression::Literal(Literal::Integer(5))),
            Statement::Let(ident("y"), Expression::Literal(Literal::Integer(2))),
        ]
    );
}

#[test]
fn unclosed_record_reports_missing_semicolon() {
    let (_, errors) = parse(vec![
        Token::Type,
        ident("P"),
        Token::Assign,
        Token::LeftBrace,
        ident("x"),
        Token::Colon,
        Token::IntType,
        Token::RightBrace,
        Token::End,
    ]);
    assert_eq!(errors[0], ParseError::UnexpectedToken { want: Some(Token::SemiColon), got: Token::End });
}

#[test]
fn diagnostics_show_token_text() {
    let (_, errors) = parse(vec![Token::Let, int_lit("5"), Token::End]);
    assert_eq!(
        errors[0],
        ParseError::Log("Expected identifier after let, got IntegerLiteral(5)".to_string())
    );
    let (_, errors) = parse(vec![Token::Type, Token::Boolean(true), Token::End]);
    assert_eq!(
        errors[0],
        ParseError::Log("Expected type name after type, got Boolean(true)".to_string())
    );
}
