use langc::statement::{
    consume_whitespace, consume_whitespace_required, generate_ast, node_to_expression, parse_node,
    parse_save, token_to_operator, AstError, Node, Operator, StmtExpr, StmtValue,
};
use langc::tokens::{extract_tokens, Token};

#[test]
fn test_expr() {
    assert_eq!(
        extract_tokens(String::from("5+5.")),
        vec![Token::Number(5), Token::Plus, Token::Number(5), Token::Period]
    );
}

#[test]
fn test_string() {
    assert_eq!(
        extract_tokens(String::from(r#""hello world"."#)),
        vec![Token::Str("hello world".to_string()), Token::Period]
    );
}

#[test]
fn keywords_idents_and_whitespace() {
    assert_eq!(
        extract_tokens(String::from("save 12 to total")),
        vec![
            Token::Save,
            Token::Whitespace,
            Token::Number(12),
            Token::Whitespace,
            Token::To,
            Token::Whitespace,
            Token::Ident("total".to_string()),
        ]
    );
    assert_eq!(extract_tokens(String::from("saved \t\n x")), vec![
        Token::Ident("saved".to_string()),
        Token::Whitespace,
        Token::Ident("x".to_string()),
    ]);
}

#[test]
fn unknown_characters() {
    assert_eq!(extract_tokens(String::new()), vec![]);
    assert_eq!(extract_tokens(String::from("\"open")), vec![Token::Unknown('"'), Token::Ident("open".to_string())]);
    assert_eq!(extract_tokens(String::from("5*")), vec![Token::Number(5), Token::Unknown('*')]);
    assert_eq!(extract_tokens(String::from("18446744073709551615")), vec![Token::Number(u64::MAX)]);
    assert_eq!(extract_tokens(String::from("18446744073709551616.")), vec![Token::Unknown('1'), Token::Period]);
}

#[test]
fn statements() {
    let nodes = generate_ast(extract_tokens(String::from("5 + 5. save \"a\" to b."))).unwrap();
    assert_eq!(
        nodes,
        vec![
            Node::Expression(StmtExpr::Operator {
                lhs: Box::new(StmtExpr::Value(StmtValue::Number(5))),
                rhs: Box::new(StmtExpr::Value(StmtValue::Number(5))),
                op: Operator::Add,
            }),
            Node::Binding { name: "b".to_string(), value: StmtExpr::Value(StmtValue::Str("a".to_string())) },
        ]
    );
}

#[test]
fn statement_errors() {
    assert_eq!(generate_ast(extract_tokens(String::from("5"))), Err(AstError::EndOfInput));
    assert_eq!(generate_ast(extract_tokens(String::from("5 5."))), Err(AstError::ExpectedToken(Token::Period)));
    assert_eq!(generate_ast(extract_tokens(String::from("to."))), Err(AstError::UnexpectedToken(Token::To)));
    let toks = extract_tokens(String::from("save 1 as x"));
    assert_eq!(parse_save(&toks, 0), Err(AstError::ExpectedToken(Token::To)));
    let toks = extract_tokens(String::from("save 1 to 2"));
    assert_eq!(parse_save(&toks, 0), Err(AstError::ExpectedIdent));
    let toks = extract_tokens(String::from("save1"));
    assert_eq!(parse_node(&toks, 0), Err(AstError::ExpectedToken(Token::Whitespace)));
    let toks = extract_tokens(String::from("x."));
    assert_eq!(parse_node(&toks, 0), Err(AstError::UnexpectedToken(Token::Ident("x".to_string()))));
}

#[test]
fn whitespace_and_operators() {
    let toks = extract_tokens(String::from("  5"));
    assert_eq!(consume_whitespace(&toks, 0), 1);
    assert_eq!(consume_whitespace_required(&toks, 1), Err(AstError::ExpectedToken(Token::Whitespace)));
    assert_eq!(token_to_operator(&Token::Plus), Some(Operator::Add));
    assert_eq!(token_to_operator(&Token::Period), None);
}

#[test]
fn node_expressions() {
    let e = node_to_expression(Node::Expression(StmtExpr::Variable("x".to_string())));
    assert_eq!(e, StmtExpr::Variable("x".to_string()));
    let b = node_to_expression(Node::Binding { name: "y".to_string(), value: StmtExpr::Value(StmtValue::Number(1)) });
    assert_eq!(b, StmtExpr::Value(StmtValue::Unit));
}
