use roz::lexer::{keywords, Lexer, LexicalError, Token, TokenType};
use roz::literal::Literal;

fn read_number(text: &str) -> u32 {
    text.parse::<f32>().unwrap().to_bits()
}

fn scan(source: &str) -> (Vec<Token>, Vec<LexicalError>) {
    let mut lexer = Lexer::new(source);
    lexer.scan_tokens(&read_number);
    (lexer.tokens, lexer.errors)
}

fn types(source: &str) -> Vec<TokenType> {
    scan(source).0.iter().map(|t| t.token_type).collect()
}

fn token(token_type: TokenType, lexeme: &str, literal: Literal, line: usize) -> Token {
    Token::new(token_type, lexeme.to_string(), literal, line)
}

fn plain(token_type: TokenType, lexeme: &str, line: usize) -> Token {
    token(token_type, lexeme, Literal::Null, line)
}

#[test]
fn empty_source_gives_the_end_token() {
    assert_eq!(scan(""), (vec![plain(TokenType::EOF, "", 1)], vec![]));
}

#[test]
fn punctuation_is_scanned() {
    assert_eq!(
        types("(){},.;-+/*"),
        vec![
            TokenType::LeftParen,
            TokenType::RightParen,
            TokenType::LeftBrace,
            TokenType::RightBrace,
            TokenType::Comma,
            TokenType::Dot,
            TokenType::Semicolon,
            TokenType::Minus,
            TokenType::Plus,
            TokenType::Slash,
            TokenType::Star,
            TokenType::EOF,
        ]
    );
}

#[test]
fn operators_of_one_and_two_characters() {
    assert_eq!(
        scan("= == ! != < <= > >=").0,
        vec![
            plain(TokenType::Equal, "=", 1),
            plain(TokenType::EqualEqual, "==", 1),
            plain(TokenType::Bang, "!", 1),
            plain(TokenType::BangEqual, "!=", 1),
            plain(TokenType::Less, "<", 1),
            plain(TokenType::LessEqual, "<=", 1),
            plain(TokenType::Greater, ">", 1),
            plain(TokenType::GreaterEqual, ">=", 1),
            plain(TokenType::EOF, "", 1),
        ]
    );
    assert_eq!(
        types("==="),
        vec![TokenType::EqualEqual, TokenType::Equal, TokenType::EOF]
    );
}

#[test]
fn strings_keep_their_text() {
    assert_eq!(
        scan("\"hello world\"").0,
        vec![
            token(
                TokenType::String,
                "\"hello world\"",
                Literal::String("hello world".to_string()),
                1
            ),
            plain(TokenType::EOF, "", 1),
        ]
    );
    assert_eq!(
        scan("\"\"").0[0],
        token(TokenType::String, "\"\"", Literal::String(String::new()), 1)
    );
    assert_eq!(
        scan("\"a\\n\"").0[0],
        token(TokenType::String, "\"a\\n\"", Literal::String("a\\n".to_string()), 1)
    );
}

#[test]
fn strings_run_over_lines() {
    let (tokens, errors) = scan("\"a\nb\" x");
    assert_eq!(errors, vec![]);
    assert_eq!(
        tokens,
        vec![
            token(TokenType::String, "\"a\nb\"", Literal::String("a\nb".to_string()), 2),
            plain(TokenType::Identifier, "x", 2),
            plain(TokenType::EOF, "", 2),
        ]
    );
}

#[test]
fn unterminated_string_is_reported_where_it_started() {
    let (tokens, errors) = scan("let a;\n\"abc\ndef");
    assert_eq!(
        errors,
        vec![LexicalError { line: 2, message: "Unterminated string.".to_string() }]
    );
    assert_eq!(
        tokens,
        vec![
            plain(TokenType::Let, "let", 1),
            plain(TokenType::Identifier, "a", 1),
            plain(TokenType::Semicolon, ";", 1),
            plain(TokenType::EOF, "", 3),
        ]
    );
    let (tokens, errors) = scan("\"");
    assert_eq!(errors.len(), 1);
    assert_eq!(tokens, vec![plain(TokenType::EOF, "", 1)]);
}

#[test]
fn numbers_have_values() {
    assert_eq!(
        scan("12 3.25 0").0,
        vec![
            token(TokenType::Number, "12", Literal::Number(12.0f32.to_bits()), 1),
            token(TokenType::Number, "3.25", Literal::Number(3.25f32.to_bits()), 1),
            token(TokenType::Number, "0", Literal::Number(0.0f32.to_bits()), 1),
            plain(TokenType::EOF, "", 1),
        ]
    );
}

#[test]
fn the_reader_gets_the_text_of_each_number() {
    let spy = |text: &str| -> u32 { text.len() as u32 + 100 };
    let mut lexer = Lexer::new("1 22.5 333");
    lexer.scan_tokens(&spy);
    let values: Vec<Literal> = lexer.tokens.iter().map(|t| t.literal.clone()).collect();
    assert_eq!(
        values,
        vec![Literal::Number(101), Literal::Number(104), Literal::Number(103), Literal::Null]
    );
}

#[test]
fn a_dot_without_digits_is_not_part_of_a_number() {
    assert_eq!(
        scan("1. 2.x .5").0,
        vec![
            token(TokenType::Number, "1", Literal::Number(1.0f32.to_bits()), 1),
            plain(TokenType::Dot, ".", 1),
            token(TokenType::Number, "2", Literal::Number(2.0f32.to_bits()), 1),
            plain(TokenType::Dot, ".", 1),
            plain(TokenType::Identifier, "x", 1),
            plain(TokenType::Dot, ".", 1),
            token(TokenType::Number, "5", Literal::Number(5.0f32.to_bits()), 1),
            plain(TokenType::EOF, "", 1),
        ]
    );
    assert_eq!(
        scan("1.2.3").0,
        vec![
            token(TokenType::Number, "1.2", Literal::Number(1.2f32.to_bits()), 1),
            plain(TokenType::Dot, ".", 1),
            token(TokenType::Number, "3", Literal::Number(3.0f32.to_bits()), 1),
            plain(TokenType::EOF, "", 1),
        ]
    );
}

#[test]
fn identifiers_and_reserved_words() {
    assert_eq!(
        scan("foo _bar b4z fn fnx Fn").0,
        vec![
            plain(TokenType::Identifier, "foo", 1),
            plain(TokenType::Identifier, "_bar", 1),
            plain(TokenType::Identifier, "b4z", 1),
            plain(TokenType::Fn, "fn", 1),
            plain(TokenType::Identifier, "fnx", 1),
            plain(TokenType::Identifier, "Fn", 1),
            plain(TokenType::EOF, "", 1),
        ]
    );
    assert_eq!(
        types("and or class super this if else for while false true fn return print let nil"),
        vec![
            TokenType::And,
            TokenType::Or,
            TokenType::Class,
            TokenType::Super,
            TokenType::This,
            TokenType::If,
            TokenType::Else,
            TokenType::For,
            TokenType::While,
            TokenType::False,
            TokenType::True,
            TokenType::Fn,
            TokenType::Return,
            TokenType::Print,
            TokenType::Let,
            TokenType::Nil,
            TokenType::EOF,
        ]
    );
}

#[test]
fn identifiers_may_hold_letters_of_any_script() {
    assert_eq!(
        scan("größe = 1;").0[0],
        plain(TokenType::Identifier, "größe", 1)
    );
    assert_eq!(
        scan("\"é\" x").0,
        vec![
            token(TokenType::String, "\"é\"", Literal::String("é".to_string()), 1),
            plain(TokenType::Identifier, "x", 1),
            plain(TokenType::EOF, "", 1),
        ]
    );
}

#[test]
fn the_keyword_table_has_sixteen_words() {
    let table = keywords();
    assert_eq!(table.len(), 16);
    assert!(table.contains(&("while", TokenType::While)));
    assert!(table.contains(&("nil", TokenType::Nil)));
    assert!(!table.iter().any(|(word, _)| *word == "var"));
}

#[test]
fn blanks_are_skipped_and_lines_counted() {
    assert_eq!(
        scan(" a\t\r\n\n  b \n").0,
        vec![
            plain(TokenType::Identifier, "a", 1),
            plain(TokenType::Identifier, "b", 3),
            plain(TokenType::EOF, "", 4),
        ]
    );
}

#[test]
fn unexpected_characters_are_reported_and_scanning_goes_on() {
    let (tokens, errors) = scan("a @ b\n# c");
    assert_eq!(
        errors,
        vec![
            LexicalError { line: 1, message: "Unexpected character: @".to_string() },
            LexicalError { line: 2, message: "Unexpected character: #".to_string() },
        ]
    );
    assert_eq!(
        tokens,
        vec![
            plain(TokenType::Identifier, "a", 1),
            plain(TokenType::Identifier, "b", 1),
            plain(TokenType::Identifier, "c", 2),
            plain(TokenType::EOF, "", 2),
        ]
    );
}

#[test]
fn a_statement_is_scanned_whole() {
    assert_eq!(
        types("let x = (1 + 2) * 3; print x >= 9;"),
        vec![
            TokenType::Let,
            TokenType::Identifier,
            TokenType::Equal,
            TokenType::LeftParen,
            TokenType::Number,
            TokenType::Plus,
            TokenType::Number,
            TokenType::RightParen,
            TokenType::Star,
            TokenType::Number,
            TokenType::Semicolon,
            TokenType::Print,
            TokenType::Identifier,
            TokenType::GreaterEqual,
            TokenType::Number,
            TokenType::Semicolon,
            TokenType::EOF,
        ]
    );
}

#[test]
fn the_lexer_can_be_driven_by_hand() {
    let mut lexer = Lexer::new("<= x");
    assert!(!lexer.is_at_end());
    assert_eq!(lexer.peek(), Some('<'));
    assert_eq!(lexer.peek_next(), Some('='));
    assert_eq!(lexer.advance(), '<');
    assert_eq!(
        lexer.next_char_equal('=', TokenType::LessEqual, TokenType::Less),
        TokenType::LessEqual
    );
    lexer.add_token(TokenType::LessEqual, Literal::Null);
    assert_eq!(lexer.tokens, vec![plain(TokenType::LessEqual, "<=", 1)]);
    assert_eq!(
        lexer.next_char_equal('=', TokenType::LessEqual, TokenType::Less),
        TokenType::Less
    );
    lexer.start = lexer.current;
    lexer.scan_token(&read_number);
    lexer.start = lexer.current;
    lexer.scan_token(&read_number);
    assert!(lexer.is_at_end());
    assert_eq!(lexer.peek(), None);
    assert_eq!(lexer.tokens[1], plain(TokenType::Identifier, "x", 1));
}

#[test]
fn token_types_have_names() {
    assert_eq!(TokenType::LeftParen.to_string(), "LEFT_PAREN");
    assert_eq!(TokenType::RightBrace.to_string(), "RIGHT_BRACE");
    assert_eq!(TokenType::EqualEqual.to_string(), "EQUALEQUAL");
    assert_eq!(TokenType::BangEqual.to_string(), "BANGEQUAL");
    assert_eq!(TokenType::GreaterEqual.to_string(), "GREATEREQUAL");
    assert_eq!(TokenType::Identifier.to_string(), "IDENTIFIER");
    assert_eq!(TokenType::String.to_string(), "STRING");
    assert_eq!(TokenType::Number.to_string(), "NUMBER");
    assert_eq!(TokenType::While.to_string(), "WHILE");
    assert_eq!(TokenType::Nil.to_string(), "NIL");
    assert_eq!(TokenType::EOF.to_string(), "EOF");
}

#[test]
fn tokens_have_text() {
    assert_eq!(plain(TokenType::Plus, "+", 1).to_string("", ""), "PLUS + null");
    assert_eq!(
        token(TokenType::Number, "5", Literal::Number(5.0f32.to_bits()), 1).to_string("5", "5.0"),
        "NUMBER 5 5.0"
    );
    assert_eq!(
        token(TokenType::String, "\"a\"", Literal::String("a".to_string()), 1).to_string("", ""),
        "STRING \"a\" a"
    );
}
