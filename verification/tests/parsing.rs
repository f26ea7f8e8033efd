use roz::lexer::{Lexer, Token, TokenType};
use roz::literal::Literal;
use roz::parser::{ParseError, Parser};
use roz::stmt::{Expr, Stmt};

fn numeral(text: &str) -> u32 {
    text.parse::<f32>().unwrap().to_bits()
}

fn tokens_of(source: &str) -> Vec<Token> {
    let mut lexer = Lexer::new(source);
    lexer.scan_tokens(&numeral);
    assert_eq!(lexer.errors, vec![]);
    lexer.tokens
}

fn parse(source: &str) -> Result<Vec<Stmt>, ParseError> {
    Parser::new(tokens_of(source)).parse()
}

fn expression(source: &str) -> Expr {
    let mut parser = Parser::new(tokens_of(source));
    let expr = parser.expression().unwrap();
    assert!(parser.is_at_end(), "{}", source);
    expr
}

fn failure(source: &str) -> (TokenType, String, String) {
    let error = parse(source).unwrap_err();
    (error.token.token_type, error.token.lexeme, error.message)
}

fn tok(token_type: TokenType, lexeme: &str) -> Token {
    Token::new(token_type, lexeme.to_string(), Literal::Null, 1)
}

fn num(x: f32) -> Expr {
    Expr::Literal(Literal::Number(x.to_bits()))
}

fn var(name: &str) -> Expr {
    Expr::Variable(tok(TokenType::Identifier, name))
}

fn binary(left: Expr, token_type: TokenType, lexeme: &str, right: Expr) -> Expr {
    Expr::Binary(Box::new(left), tok(token_type, lexeme), Box::new(right))
}

fn logical(left: Expr, token_type: TokenType, lexeme: &str, right: Expr) -> Expr {
    Expr::Logical(Box::new(left), tok(token_type, lexeme), Box::new(right))
}

#[test]
fn literals_are_primary_expressions() {
    assert_eq!(expression("true"), Expr::Literal(Literal::Bool(true)));
    assert_eq!(expression("false"), Expr::Literal(Literal::Bool(false)));
    assert_eq!(expression("nil"), Expr::Literal(Literal::Null));
    assert_eq!(expression("1.5"), num(1.5));
    assert_eq!(expression("\"s\""), Expr::Literal(Literal::String("s".to_string())));
    assert_eq!(expression("x"), var("x"));
    assert_eq!(expression("(x)"), Expr::Grouping(Box::new(var("x"))));
}

#[test]
fn factors_bind_tighter_than_terms() {
    assert_eq!(
        expression("1 + 2 * 3"),
        binary(num(1.0), TokenType::Plus, "+", binary(num(2.0), TokenType::Star, "*", num(3.0)))
    );
    assert_eq!(
        expression("1 * 2 + 3"),
        binary(binary(num(1.0), TokenType::Star, "*", num(2.0)), TokenType::Plus, "+", num(3.0))
    );
    assert_eq!(
        expression("(1 + 2) * 3"),
        binary(
            Expr::Grouping(Box::new(binary(num(1.0), TokenType::Plus, "+", num(2.0)))),
            TokenType::Star,
            "*",
            num(3.0)
        )
    );
}

#[test]
fn terms_associate_to_the_left() {
    assert_eq!(
        expression("1 - 2 - 3"),
        binary(binary(num(1.0), TokenType::Minus, "-", num(2.0)), TokenType::Minus, "-", num(3.0))
    );
    assert_eq!(
        expression("8 / 4 / 2"),
        binary(binary(num(8.0), TokenType::Slash, "/", num(4.0)), TokenType::Slash, "/", num(2.0))
    );
}

#[test]
fn equality_associates_to_the_left() {
    assert_eq!(
        expression("a == b != c"),
        binary(
            binary(var("a"), TokenType::EqualEqual, "==", var("b")),
            TokenType::BangEqual,
            "!=",
            var("c")
        )
    );
}

#[test]
fn comparison_binds_tighter_than_equality() {
    assert_eq!(
        expression("a < b == c >= d"),
        binary(
            binary(var("a"), TokenType::Less, "<", var("b")),
            TokenType::EqualEqual,
            "==",
            binary(var("c"), TokenType::GreaterEqual, ">=", var("d"))
        )
    );
}

#[test]
fn and_and_or_associate_to_the_left() {
    assert_eq!(
        expression("a and b and c"),
        logical(logical(var("a"), TokenType::And, "and", var("b")), TokenType::And, "and", var("c"))
    );
    assert_eq!(
        expression("a or b or c"),
        logical(logical(var("a"), TokenType::Or, "or", var("b")), TokenType::Or, "or", var("c"))
    );
    assert_eq!(
        expression("a or b and c"),
        logical(var("a"), TokenType::Or, "or", logical(var("b"), TokenType::And, "and", var("c")))
    );
}

#[test]
fn unary_operators_nest() {
    assert_eq!(
        expression("!-x"),
        Expr::Unary(
            tok(TokenType::Bang, "!"),
            Box::new(Expr::Unary(tok(TokenType::Minus, "-"), Box::new(var("x"))))
        )
    );
    assert_eq!(
        expression("-1 - -2"),
        binary(
            Expr::Unary(tok(TokenType::Minus, "-"), Box::new(num(1.0))),
            TokenType::Minus,
            "-",
            Expr::Unary(tok(TokenType::Minus, "-"), Box::new(num(2.0)))
        )
    );
}

#[test]
fn assignment_associates_to_the_right() {
    assert_eq!(
        expression("a = b = 1"),
        Expr::Assign(
            tok(TokenType::Identifier, "a"),
            Box::new(Expr::Assign(tok(TokenType::Identifier, "b"), Box::new(num(1.0))))
        )
    );
}

#[test]
fn only_a_variable_can_be_assigned() {
    assert_eq!(
        failure("1 = 2;"),
        (TokenType::Equal, "=".to_string(), "invalid assignment target.".to_string())
    );
    assert_eq!(
        failure("(a) = 2;"),
        (TokenType::Equal, "=".to_string(), "invalid assignment target.".to_string())
    );
    assert_eq!(
        failure("a + b = 2;"),
        (TokenType::Equal, "=".to_string(), "invalid assignment target.".to_string())
    );
}

#[test]
fn calls_chain() {
    assert_eq!(
        expression("f(a)(b, 1)"),
        Expr::Call(
            Box::new(Expr::Call(
                Box::new(var("f")),
                tok(TokenType::RightParen, ")"),
                vec![var("a")]
            )),
            tok(TokenType::RightParen, ")"),
            vec![var("b"), num(1.0)]
        )
    );
    assert_eq!(
        expression("f()"),
        Expr::Call(Box::new(var("f")), tok(TokenType::RightParen, ")"), vec![])
    );
}

#[test]
fn a_call_needs_its_closing_parenthesis() {
    assert_eq!(
        failure("f(a;"),
        (TokenType::Semicolon, ";".to_string(), "Expected ')' after arguments.".to_string())
    );
    assert_eq!(
        failure("f(a,);"),
        (
            TokenType::RightParen,
            ")".to_string(),
            "Unable to parse the provided expression".to_string()
        )
    );
}

fn call_with(count: usize) -> String {
    let arguments: Vec<String> = (0..count).map(|i| i.to_string()).collect();
    format!("f({});", arguments.join(", "))
}

#[test]
fn too_many_arguments_are_reported_and_parsed_all_the_same() {
    let mut parser = Parser::new(tokens_of(&call_with(255)));
    assert!(parser.parse().is_ok());
    assert_eq!(parser.errors, vec![]);

    let mut parser = Parser::new(tokens_of(&call_with(257)));
    let stmts = parser.parse().unwrap();
    match &stmts[0] {
        Stmt::Expression(Expr::Call(_, _, arguments)) => assert_eq!(arguments.len(), 257),
        other => panic!("{:?}", other),
    }
    let found: Vec<(String, String)> = parser
        .errors
        .iter()
        .map(|e| (e.token.lexeme.clone(), e.message.clone()))
        .collect();
    assert_eq!(
        found,
        vec![
            ("255".to_string(), "Can't have more than 255 arguments.".to_string()),
            ("256".to_string(), "Can't have more than 255 arguments.".to_string()),
        ]
    );
}

fn function_with(count: usize) -> String {
    let parameters: Vec<String> = (0..count).map(|i| format!("p{}", i)).collect();
    format!("fn f({}) {{ }}", parameters.join(", "))
}

#[test]
fn too_many_parameters_stop_the_parser() {
    assert!(parse(&function_with(255)).is_ok());
    assert_eq!(
        failure(&function_with(256)),
        (
            TokenType::Identifier,
            "p255".to_string(),
            "Can't have more than 255 parameters.".to_string()
        )
    );
}

#[test]
fn an_expression_must_start_somewhere() {
    assert_eq!(
        failure("+ 1;"),
        (
            TokenType::Plus,
            "+".to_string(),
            "Unable to parse the provided expression".to_string()
        )
    );
    assert_eq!(
        failure("print"),
        (TokenType::EOF, "".to_string(), "Unable to parse the provided expression".to_string())
    );
    assert_eq!(
        failure("(1 + 2"),
        (TokenType::EOF, "".to_string(), "Expected ')' after expression.".to_string())
    );
}

#[test]
fn statements_end_with_a_semicolon() {
    assert_eq!(
        failure("print 1"),
        (TokenType::EOF, "".to_string(), "';' expected.".to_string())
    );
    assert_eq!(
        failure("1 + 2 print"),
        (TokenType::Print, "print".to_string(), "';' expected.".to_string())
    );
    assert_eq!(
        failure("let x = 1"),
        (TokenType::EOF, "".to_string(), "Expected ';'".to_string())
    );
    assert_eq!(
        failure("let x 1;"),
        (TokenType::Number, "1".to_string(), "Expected ';'".to_string())
    );
    assert_eq!(
        failure("return 1"),
        (TokenType::EOF, "".to_string(), "Expected ';' after return value.".to_string())
    );
}

#[test]
fn declarations_need_names() {
    assert_eq!(
        failure("let 1 = 2;"),
        (TokenType::Number, "1".to_string(), "Expected variable name".to_string())
    );
    assert_eq!(
        failure("fn (a) {}"),
        (TokenType::LeftParen, "(".to_string(), "Expected function name".to_string())
    );
    assert_eq!(
        failure("fn f a) {}"),
        (TokenType::Identifier, "a".to_string(), "Expected '(' after function name".to_string())
    );
    assert_eq!(
        failure("fn f(1) {}"),
        (TokenType::Number, "1".to_string(), "Expected parameter name".to_string())
    );
    assert_eq!(
        failure("fn f(a b) {}"),
        (TokenType::Identifier, "b".to_string(), "Expected ')' after parameters".to_string())
    );
    assert_eq!(
        failure("fn f(a) print 1;"),
        (TokenType::Print, "print".to_string(), "Expected '{' before function body".to_string())
    );
    assert_eq!(
        failure("fn f(a) { print 1;"),
        (TokenType::EOF, "".to_string(), "Expected '}'.".to_string())
    );
}

#[test]
fn conditions_stand_in_parentheses() {
    assert_eq!(
        failure("if x) print 1;"),
        (TokenType::Identifier, "x".to_string(), "Expected '(' before expression.".to_string())
    );
    assert_eq!(
        failure("while (x print 1;"),
        (TokenType::Print, "print".to_string(), "Expected ')' after expression.".to_string())
    );
    assert_eq!(
        failure("for x;;) print 1;"),
        (TokenType::Identifier, "x".to_string(), "Expected '(' before expressions.".to_string())
    );
    assert_eq!(
        failure("for (;x) print 1;"),
        (
            TokenType::RightParen,
            ")".to_string(),
            "Expected ';' after loop condition.".to_string()
        )
    );
    assert_eq!(
        failure("for (;;x; print 1;"),
        (TokenType::Semicolon, ";".to_string(), "Expected ')' after for clauses.".to_string())
    );
}

#[test]
fn let_without_initializer_starts_as_nil() {
    assert_eq!(
        parse("let x;"),
        Ok(vec![Stmt::Var(tok(TokenType::Identifier, "x"), Expr::Literal(Literal::Null))])
    );
    assert_eq!(
        parse("let x = 1;"),
        Ok(vec![Stmt::Var(tok(TokenType::Identifier, "x"), num(1.0))])
    );
}

#[test]
fn simple_statements() {
    assert_eq!(parse("print x;"), Ok(vec![Stmt::Print(var("x"))]));
    assert_eq!(parse("x;"), Ok(vec![Stmt::Expression(var("x"))]));
    assert_eq!(
        parse("{ x; { } }"),
        Ok(vec![Stmt::Block(vec![Stmt::Expression(var("x")), Stmt::Block(vec![])])])
    );
    assert_eq!(parse(""), Ok(vec![]));
}

#[test]
fn return_takes_an_optional_value() {
    assert_eq!(
        parse("return;"),
        Ok(vec![Stmt::Return(tok(TokenType::Return, "return"), Expr::Absent)])
    );
    assert_eq!(
        parse("return x;"),
        Ok(vec![Stmt::Return(tok(TokenType::Return, "return"), var("x"))])
    );
}

#[test]
fn if_takes_an_optional_else() {
    assert_eq!(
        parse("if (x) print 1;"),
        Ok(vec![Stmt::If(
            var("x"),
            Box::new(Stmt::Print(num(1.0))),
            Box::new(Stmt::Absent)
        )])
    );
    assert_eq!(
        parse("if (x) print 1; else print 2;"),
        Ok(vec![Stmt::If(
            var("x"),
            Box::new(Stmt::Print(num(1.0))),
            Box::new(Stmt::Print(num(2.0)))
        )])
    );
}

#[test]
fn else_belongs_to_the_nearest_if() {
    assert_eq!(
        parse("if (a) if (b) x; else y;"),
        Ok(vec![Stmt::If(
            var("a"),
            Box::new(Stmt::If(
                var("b"),
                Box::new(Stmt::Expression(var("x"))),
                Box::new(Stmt::Expression(var("y")))
            )),
            Box::new(Stmt::Absent)
        )])
    );
}

#[test]
fn while_has_a_condition_and_a_body() {
    assert_eq!(
        parse("while (x) { }"),
        Ok(vec![Stmt::While(var("x"), Box::new(Stmt::Block(vec![])))])
    );
}

#[test]
fn functions_have_parameters_and_a_block() {
    assert_eq!(
        parse("fn add(a, b) { return a + b; }"),
        Ok(vec![Stmt::Function(
            tok(TokenType::Identifier, "add"),
            vec![tok(TokenType::Identifier, "a"), tok(TokenType::Identifier, "b")],
            Box::new(Stmt::Block(vec![Stmt::Return(
                tok(TokenType::Return, "return"),
                binary(var("a"), TokenType::Plus, "+", var("b"))
            )]))
        )])
    );
    assert_eq!(
        parse("fn f() { }"),
        Ok(vec![Stmt::Function(
            tok(TokenType::Identifier, "f"),
            vec![],
            Box::new(Stmt::Block(vec![]))
        )])
    );
}

#[test]
fn for_stands_for_a_while_loop() {
    let increment = Expr::Assign(
        tok(TokenType::Identifier, "i"),
        Box::new(binary(var("i"), TokenType::Plus, "+", num(1.0))),
    );
    assert_eq!(
        parse("for (let i = 0; i < 3; i = i + 1) print i;"),
        Ok(vec![Stmt::Block(vec![
            Stmt::Var(tok(TokenType::Identifier, "i"), num(0.0)),
            Stmt::While(
                binary(var("i"), TokenType::Less, "<", num(3.0)),
                Box::new(Stmt::Block(vec![
                    Stmt::Print(var("i")),
                    Stmt::Expression(increment)
                ]))
            ),
        ])])
    );
}

#[test]
fn for_clauses_may_be_left_out() {
    assert_eq!(
        parse("for (;;) x;"),
        Ok(vec![Stmt::While(
            Expr::Literal(Literal::Bool(true)),
            Box::new(Stmt::Expression(var("x")))
        )])
    );
    assert_eq!(
        parse("for (i = 0;;) x;"),
        Ok(vec![Stmt::Block(vec![
            Stmt::Expression(Expr::Assign(tok(TokenType::Identifier, "i"), Box::new(num(0.0)))),
            Stmt::While(
                Expr::Literal(Literal::Bool(true)),
                Box::new(Stmt::Expression(var("x")))
            ),
        ])])
    );
    assert_eq!(
        parse("for (; a; b) x;"),
        Ok(vec![Stmt::While(
            var("a"),
            Box::new(Stmt::Block(vec![
                Stmt::Expression(var("x")),
                Stmt::Expression(var("b"))
            ]))
        )])
    );
}

#[test]
fn the_parser_stops_at_the_first_error() {
    let mut parser = Parser::new(tokens_of("print 1; print ; print 3;"));
    let error = parser.parse().unwrap_err();
    assert_eq!(error.message, "Unable to parse the provided expression");
    assert_eq!(error.token.token_type, TokenType::Semicolon);
    assert_eq!(parser.current, 4);
}

#[test]
fn the_parser_can_be_driven_by_hand() {
    let mut parser = Parser::new(tokens_of("1 + 2 ;"));
    assert!(!parser.is_at_end());
    assert!(parser.check(&TokenType::Number));
    assert_eq!(parser.peek().lexeme, "1");
    assert_eq!(parser.primary(), Ok(num(1.0)));
    assert_eq!(parser.previous().lexeme, "1");
    assert!(!parser.match_token_type(&[TokenType::Minus, TokenType::Star]));
    assert!(parser.match_token_type(&[TokenType::Minus, TokenType::Plus]));
    assert_eq!(parser.advance().lexeme, "2");
    assert_eq!(
        parser.consume(TokenType::Comma, "comma").unwrap_err().message,
        "comma"
    );
    assert_eq!(parser.consume(TokenType::Semicolon, "semicolon").unwrap().lexeme, ";");
    assert!(parser.is_at_end());
    assert_eq!(parser.advance().lexeme, ";");
    assert!(parser.is_at_end());
}

#[test]
fn each_level_can_be_parsed_alone() {
    assert_eq!(
        Parser::new(tokens_of("a or b")).or(),
        Ok(logical(var("a"), TokenType::Or, "or", var("b")))
    );
    assert_eq!(
        Parser::new(tokens_of("a and b")).and(),
        Ok(logical(var("a"), TokenType::And, "and", var("b")))
    );
    assert_eq!(
        Parser::new(tokens_of("a == b")).equality(),
        Ok(binary(var("a"), TokenType::EqualEqual, "==", var("b")))
    );
    assert_eq!(
        Parser::new(tokens_of("a > b")).comparison(),
        Ok(binary(var("a"), TokenType::Greater, ">", var("b")))
    );
    assert_eq!(
        Parser::new(tokens_of("a - b")).term(),
        Ok(binary(var("a"), TokenType::Minus, "-", var("b")))
    );
    assert_eq!(
        Parser::new(tokens_of("a * b")).factor(),
        Ok(binary(var("a"), TokenType::Star, "*", var("b")))
    );
    assert_eq!(Parser::new(tokens_of("a or b")).and(), Ok(var("a")));
    assert_eq!(
        Parser::new(tokens_of("-a")).unary(),
        Ok(Expr::Unary(tok(TokenType::Minus, "-"), Box::new(var("a"))))
    );
    assert_eq!(Parser::new(tokens_of("a")).call(), Ok(var("a")));
    assert_eq!(Parser::new(tokens_of("a = 1")).assignment().is_ok(), true);
}

#[test]
fn statements_keep_their_blocks_for_the_interpreter() {
    let block = Stmt::Block(vec![Stmt::Absent]);
    assert_eq!(block.get_block_body(), Some(&vec![Stmt::Absent]));
    assert_eq!(Stmt::Absent.get_block_body(), None);
    assert_eq!(block.clone(), block);
    let call = expression("f(a, g(b))");
    assert_eq!(call.clone(), call);
}
