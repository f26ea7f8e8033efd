//! The lexer: source text to a flat sequence of tokens.

use vstd::prelude::*;
use vstd::string::*;
use crate::literal::{Literal, LiteralView, literal_text};
use crate::text::same_text;

verus! {

/// The categories of tokens.
#[derive(Debug, Clone, Copy, PartialEq, Eq, Structural)]
pub enum TokenType {
    // single-character tokens
    LeftParen,
    RightParen,
    LeftBrace,
    RightBrace,
    Comma,
    Dot,
    Semicolon,
    Minus,
    Plus,
    Slash,
    Star,
    // operators
    Equal,
    EqualEqual,
    Bang,
    BangEqual,
    Less,
    LessEqual,
    Greater,
    GreaterEqual,
    // literals
    Identifier,
    String,
    Number,
    // reserved words
    And,
    Or,
    Class,
    Super,
    This,
    If,
    Else,
    For,
    While,
    False,
    True,
    Fn,
    Return,
    Print,
    Let,
    Nil,
    EOF,
}

/// The upper-case name of a token type.
pub open spec fn token_type_name(token_type: TokenType) -> Seq<char> {
    match token_type {
        TokenType::LeftParen => "LEFT_PAREN"@,
        TokenType::RightParen => "RIGHT_PAREN"@,
        TokenType::LeftBrace => "LEFT_BRACE"@,
        TokenType::RightBrace => "RIGHT_BRACE"@,
        TokenType::Comma => "COMMA"@,
        TokenType::Dot => "DOT"@,
        TokenType::Semicolon => "SEMICOLON"@,
        TokenType::Minus => "MINUS"@,
        TokenType::Plus => "PLUS"@,
        TokenType::Slash => "SLASH"@,
        TokenType::Star => "STAR"@,
        TokenType::Equal => "EQUAL"@,
        TokenType::EqualEqual => "EQUALEQUAL"@,
        TokenType::Bang => "BANG"@,
        TokenType::BangEqual => "BANGEQUAL"@,
        TokenType::Less => "LESS"@,
        TokenType::LessEqual => "LESSEQUAL"@,
        TokenType::Greater => "GREATER"@,
        TokenType::GreaterEqual => "GREATEREQUAL"@,
        TokenType::Identifier => "IDENTIFIER"@,
        TokenType::String => "STRING"@,
        TokenType::Number => "NUMBER"@,
        TokenType::And => "AND"@,
        TokenType::Or => "OR"@,
        TokenType::Class => "CLASS"@,
        TokenType::Super => "SUPER"@,
        TokenType::This => "THIS"@,
        TokenType::If => "IF"@,
        TokenType::Else => "ELSE"@,
        TokenType::For => "FOR"@,
        TokenType::While => "WHILE"@,
        TokenType::False => "FALSE"@,
        TokenType::True => "TRUE"@,
        TokenType::Fn => "FN"@,
        TokenType::Return => "RETURN"@,
        TokenType::Print => "PRINT"@,
        TokenType::Let => "LET"@,
        TokenType::Nil => "NIL"@,
        TokenType::EOF => "EOF"@,
    }
}

impl TokenType {
    /// The upper-case name of the token type.
    pub fn to_string(&self) -> (r: String)
        ensures
            r@ == token_type_name(*self),
    {
        match self {
            Self::LeftParen => "LEFT_PAREN".to_owned(),
            Self::RightParen => "RIGHT_PAREN".to_owned(),
            Self::LeftBrace => "LEFT_BRACE".to_owned(),
            Self::RightBrace => "RIGHT_BRACE".to_owned(),
            Self::Comma => "COMMA".to_owned(),
            Self::Dot => "DOT".to_owned(),
            Self::Semicolon => "SEMICOLON".to_owned(),
            Self::Minus => "MINUS".to_owned(),
            Self::Plus => "PLUS".to_owned(),
            Self::Slash => "SLASH".to_owned(),
            Self::Star => "STAR".to_owned(),
            Self::Equal => "EQUAL".to_owned(),
            Self::EqualEqual => "EQUALEQUAL".to_owned(),
            Self::Bang => "BANG".to_owned(),
            Self::BangEqual => "BANGEQUAL".to_owned(),
            Self::Less => "LESS".to_owned(),
            Self::LessEqual => "LESSEQUAL".to_owned(),
            Self::Greater => "GREATER".to_owned(),
            Self::GreaterEqual => "GREATEREQUAL".to_owned(),
            Self::Identifier => "IDENTIFIER".to_owned(),
            Self::String => "STRING".to_owned(),
            Self::Number => "NUMBER".to_owned(),
            Self::And => "AND".to_owned(),
            Self::Or => "OR".to_owned(),
            Self::Class => "CLASS".to_owned(),
            Self::Super => "SUPER".to_owned(),
            Self::This => "THIS".to_owned(),
            Self::If => "IF".to_owned(),
            Self::Else => "ELSE".to_owned(),
            Self::For => "FOR".to_owned(),
            Self::While => "WHILE".to_owned(),
            Self::False => "FALSE".to_owned(),
            Self::True => "TRUE".to_owned(),
            Self::Fn => "FN".to_owned(),
            Self::Return => "RETURN".to_owned(),
            Self::Print => "PRINT".to_owned(),
            Self::Let => "LET".to_owned(),
            Self::Nil => "NIL".to_owned(),
            Self::EOF => "EOF".to_owned(),
        }
    }
}

/// A lexical unit: its category, the exact source text it was read from, its
/// value where it has one, and the line it ends on.
#[derive(Debug, PartialEq)]
pub struct Token {
    pub token_type: TokenType,
    pub lexeme: String,
    pub literal: Literal,
    pub line: usize,
}

/// The mathematical content of a [`Token`].
pub struct TokenView {
    pub token_type: TokenType,
    pub lexeme: Seq<char>,
    pub literal: LiteralView,
    pub line: nat,
}

impl View for Token {
    type V = TokenView;

    open spec fn view(&self) -> TokenView {
        TokenView {
            token_type: self.token_type,
            lexeme: self.lexeme@,
            literal: self.literal@,
            line: self.line as nat,
        }
    }
}

impl Clone for Token {
    fn clone(&self) -> (r: Self)
        ensures
            r == *self,
    {
        Token {
            token_type: self.token_type,
            lexeme: self.lexeme.clone(),
            literal: self.literal.clone(),
            line: self.line,
        }
    }
}

/// The text of a token: its type, its lexeme and its value, with a blank between.
pub open spec fn token_text(token: TokenView, plain: Seq<char>, fixed: Seq<char>) -> Seq<char> {
    token_type_name(token.token_type) + " "@ + token.lexeme + " "@ + literal_text(
        token.literal,
        plain,
        fixed,
    )
}

impl Token {
    /// A token of the given parts.
    pub fn new(token_type: TokenType, lexeme: String, literal: Literal, line: usize) -> (r: Self)
        ensures
            r == (Token { token_type, lexeme, literal, line }),
    {
        Token { token_type, lexeme, literal, line }
    }

    /// The text of this token. Where its value is a number, `plain` and
    /// `fixed` are that number's shortest decimal form and its form with one
    /// decimal.
    pub fn to_string(&self, plain: &str, fixed: &str) -> (r: String)
        ensures
            r@ == token_text(self@, plain@, fixed@),
    {
        let mut s = self.token_type.to_string();
        s.append(" ");
        s.append(self.lexeme.as_str());
        s.append(" ");
        let value = self.literal.to_string(plain, fixed);
        s.append(value.as_str());
        s
    }
}

/// The views of a sequence of tokens.
pub open spec fn token_views(tokens: Seq<Token>) -> Seq<TokenView> {
    tokens.map_values(|t: Token| t@)
}

/// The views of a sequence with one more token.
pub proof fn lemma_token_views_push(tokens: Seq<Token>, last: Token)
    ensures
        token_views(tokens.push(last)) == token_views(tokens).push(last@),
{
    assert(token_views(tokens.push(last)) =~= token_views(tokens).push(last@));
}

/// A fault in the source text, with the line it was found on.
#[derive(Debug, PartialEq)]
pub struct LexicalError {
    pub line: usize,
    pub message: String,
}

/// The mathematical content of a [`LexicalError`].
pub struct LexicalErrorView {
    pub line: nat,
    pub message: Seq<char>,
}

impl View for LexicalError {
    type V = LexicalErrorView;

    open spec fn view(&self) -> LexicalErrorView {
        LexicalErrorView { line: self.line as nat, message: self.message@ }
    }
}

/// The views of a sequence of lexical errors.
pub open spec fn error_views(errors: Seq<LexicalError>) -> Seq<LexicalErrorView> {
    errors.map_values(|e: LexicalError| e@)
}

/// What `char::is_alphabetic` returns for `c`.
pub uninterp spec fn alphabetic(c: char) -> bool;

/// What `char::is_alphanumeric` returns for `c`.
pub uninterp spec fn alphanumeric(c: char) -> bool;

/// `char::is_alphabetic`: whether Unicode gives the character the property
/// Alphabetic. The answer is a function of the character alone.
pub assume_specification[ char::is_alphabetic ](c: char) -> (b: bool)
    ensures
        b == alphabetic(c),
;

/// `char::is_alphanumeric`: whether Unicode counts the character as
/// alphabetic or numeric. The answer is a function of the character alone.
pub assume_specification[ char::is_alphanumeric ](c: char) -> (b: bool)
    ensures
        b == alphanumeric(c),
;

/// A decimal digit.
pub open spec fn digit(c: char) -> bool {
    '0' <= c && c <= '9'
}

/// A character that may continue an identifier.
pub open spec fn word_char(c: char) -> bool {
    alphanumeric(c) || c == '_'
}

/// A character that may start an identifier.
pub open spec fn word_start(c: char) -> bool {
    alphabetic(c) || c == '_'
}

/// The kinds of run that the lexer reads to its end.
pub enum CharRun {
    /// Decimal digits.
    Digits,
    /// The characters of an identifier.
    Word,
    /// Anything but a double quote.
    Quoted,
}

/// Whether `c` belongs to a run of the given kind.
pub open spec fn in_run(run: CharRun, c: char) -> bool {
    match run {
        CharRun::Digits => digit(c),
        CharRun::Word => word_char(c),
        CharRun::Quoted => c != '"',
    }
}

/// The first position at or after `from` whose character does not belong to
/// the run, or the length of the source.
pub open spec fn run_end(source: Seq<char>, from: nat, run: CharRun) -> nat
    decreases source.len() - from,
{
    if from < source.len() && in_run(run, source[from as int]) {
        run_end(source, from + 1, run)
    } else {
        from
    }
}

/// The number of line breaks in `source` from `from` up to `to`.
pub open spec fn line_breaks(source: Seq<char>, from: nat, to: nat) -> nat
    decreases to,
{
    if to <= from || to > source.len() {
        0
    } else {
        line_breaks(source, from, (to - 1) as nat) + if source[to - 1] == '\n' {
            1nat
        } else {
            0nat
        }
    }
}

/// The reserved words with their token types.
pub open spec fn keyword_table() -> Seq<(Seq<char>, TokenType)> {
    seq![
        ("and"@, TokenType::And),
        ("or"@, TokenType::Or),
        ("class"@, TokenType::Class),
        ("super"@, TokenType::Super),
        ("this"@, TokenType::This),
        ("if"@, TokenType::If),
        ("else"@, TokenType::Else),
        ("for"@, TokenType::For),
        ("while"@, TokenType::While),
        ("false"@, TokenType::False),
        ("true"@, TokenType::True),
        ("fn"@, TokenType::Fn),
        ("return"@, TokenType::Return),
        ("print"@, TokenType::Print),
        ("let"@, TokenType::Let),
        ("nil"@, TokenType::Nil),
    ]
}

/// The type of the first entry of `table` at or after `from` whose word is `text`.
pub open spec fn lookup(table: Seq<(Seq<char>, TokenType)>, text: Seq<char>, from: nat) -> Option<
    TokenType,
>
    decreases table.len() - from,
{
    if from >= table.len() {
        None
    } else if table[from as int].0 == text {
        Some(table[from as int].1)
    } else {
        lookup(table, text, from + 1)
    }
}

/// The token type of a word: that of the reserved word it is, or `Identifier`.
pub open spec fn word_type(text: Seq<char>) -> TokenType {
    match lookup(keyword_table(), text, 0) {
        Some(token_type) => token_type,
        None => TokenType::Identifier,
    }
}

/// The views of the entries of a table of reserved words.
pub open spec fn table_view(table: Seq<(&'static str, TokenType)>) -> Seq<(Seq<char>, TokenType)> {
    table.map_values(|entry: (&'static str, TokenType)| (entry.0@, entry.1))
}

/// The table of reserved words.
pub fn keywords() -> (table: Vec<(&'static str, TokenType)>)
    ensures
        table_view(table@) == keyword_table(),
{
    let mut table: Vec<(&'static str, TokenType)> = Vec::new();
    table.push(("and", TokenType::And));
    table.push(("or", TokenType::Or));
    table.push(("class", TokenType::Class));
    table.push(("super", TokenType::Super));
    table.push(("this", TokenType::This));
    table.push(("if", TokenType::If));
    table.push(("else", TokenType::Else));
    table.push(("for", TokenType::For));
    table.push(("while", TokenType::While));
    table.push(("false", TokenType::False));
    table.push(("true", TokenType::True));
    table.push(("fn", TokenType::Fn));
    table.push(("return", TokenType::Return));
    table.push(("print", TokenType::Print));
    table.push(("let", TokenType::Let));
    table.push(("nil", TokenType::Nil));
    assert(table_view(table@) =~= keyword_table());
    table
}

/// The state of a scan: what has been produced, and where the lexer stands.
pub struct ScanState {
    pub tokens: Seq<TokenView>,
    pub errors: Seq<LexicalErrorView>,
    /// Where the token being read starts.
    pub start: nat,
    /// The next character to read.
    pub current: nat,
    pub line: nat,
}

/// The state after a token of the given type and value has been added: its
/// lexeme is the source from `start` up to `current`.
pub open spec fn added(
    source: Seq<char>,
    st: ScanState,
    token_type: TokenType,
    literal: LiteralView,
) -> ScanState {
    ScanState {
        tokens: st.tokens.push(
            TokenView {
                token_type,
                lexeme: source.subrange(st.start as int, st.current as int),
                literal,
                line: st.line,
            },
        ),
        ..st
    }
}

/// The state after an error has been recorded on the current line.
pub open spec fn faulted(st: ScanState, line: nat, message: Seq<char>) -> ScanState {
    ScanState { errors: st.errors.push(LexicalErrorView { line, message }), ..st }
}

/// A one- or two-character operator: `long` if the next character is `second`,
/// which is then consumed, else `short`.
pub open spec fn operator_scan(
    source: Seq<char>,
    st: ScanState,
    second: char,
    long: TokenType,
    short: TokenType,
) -> ScanState {
    if st.current < source.len() && source[st.current as int] == second {
        added(source, ScanState { current: st.current + 1, ..st }, long, LiteralView::Null)
    } else {
        added(source, st, short, LiteralView::Null)
    }
}

/// An identifier or reserved word, whose first character has been consumed.
pub open spec fn identifier_scan(source: Seq<char>, st: ScanState) -> ScanState {
    let end = run_end(source, st.current, CharRun::Word);
    added(
        source,
        ScanState { current: end, ..st },
        word_type(source.subrange(st.start as int, end as int)),
        LiteralView::Null,
    )
}

/// Where a number ends whose digits are being read at `from`: after the
/// digits, and after a dot and further digits if a digit follows the dot.
pub open spec fn number_end(source: Seq<char>, from: nat) -> nat {
    let whole = run_end(source, from, CharRun::Digits);
    if whole + 1 < source.len() && source[whole as int] == '.' && digit(source[whole as int + 1]) {
        run_end(source, whole + 1, CharRun::Digits)
    } else {
        whole
    }
}

/// A number, whose first digit has been consumed; `read` gives the value of
/// its text.
pub open spec fn number_scan(
    read: spec_fn(Seq<char>) -> u32,
    source: Seq<char>,
    st: ScanState,
) -> ScanState {
    let end = number_end(source, st.current);
    added(
        source,
        ScanState { current: end, ..st },
        TokenType::Number,
        LiteralView::Number(read(source.subrange(st.start as int, end as int))),
    )
}

/// A string, whose opening quote has been consumed. It runs to the next
/// quote, over line breaks, and its value is the text between the quotes.
/// Without a closing quote the rest of the source is consumed and an error is
/// recorded on the line where the string started.
pub open spec fn string_scan(source: Seq<char>, st: ScanState) -> ScanState {
    let close = run_end(source, st.current, CharRun::Quoted);
    let line = st.line + line_breaks(source, st.current, close);
    if close < source.len() {
        added(
            source,
            ScanState { current: close + 1, line, ..st },
            TokenType::String,
            LiteralView::String(source.subrange(st.start as int + 1, close as int)),
        )
    } else {
        faulted(ScanState { current: close, line, ..st }, st.line, "Unterminated string."@)
    }
}

/// The state after one token, blank or faulty character has been read at
/// `st.current`.
pub open spec fn token_scan(
    read: spec_fn(Seq<char>) -> u32,
    source: Seq<char>,
    st: ScanState,
) -> ScanState {
    let c = source[st.current as int];
    let st1 = ScanState { current: st.current + 1, ..st };
    if c == '(' {
        added(source, st1, TokenType::LeftParen, LiteralView::Null)
    } else if c == ')' {
        added(source, st1, TokenType::RightParen, LiteralView::Null)
    } else if c == '{' {
        added(source, st1, TokenType::LeftBrace, LiteralView::Null)
    } else if c == '}' {
        added(source, st1, TokenType::RightBrace, LiteralView::Null)
    } else if c == ',' {
        added(source, st1, TokenType::Comma, LiteralView::Null)
    } else if c == '.' {
        added(source, st1, TokenType::Dot, LiteralView::Null)
    } else if c == ';' {
        added(source, st1, TokenType::Semicolon, LiteralView::Null)
    } else if c == '-' {
        added(source, st1, TokenType::Minus, LiteralView::Null)
    } else if c == '+' {
        added(source, st1, TokenType::Plus, LiteralView::Null)
    } else if c == '/' {
        added(source, st1, TokenType::Slash, LiteralView::Null)
    } else if c == '*' {
        added(source, st1, TokenType::Star, LiteralView::Null)
    } else if c == '=' {
        operator_scan(source, st1, '=', TokenType::EqualEqual, TokenType::Equal)
    } else if c == '!' {
        operator_scan(source, st1, '=', TokenType::BangEqual, TokenType::Bang)
    } else if c == '<' {
        operator_scan(source, st1, '=', TokenType::LessEqual, TokenType::Less)
    } else if c == '>' {
        operator_scan(source, st1, '=', TokenType::GreaterEqual, TokenType::Greater)
    } else if c == '"' {
        string_scan(source, st1)
    } else if c == '\n' {
        ScanState { line: st1.line + 1, ..st1 }
    } else if c == ' ' || c == '\r' || c == '\t' {
        st1
    } else if word_start(c) {
        identifier_scan(source, st1)
    } else if digit(c) {
        number_scan(read, source, st1)
    } else {
        faulted(st1, st1.line, "Unexpected character: "@.push(c))
    }
}

/// The state after the whole source has been read from `st.current` on: one
/// token after the other, then the end-of-input token.
pub open spec fn scan(
    read: spec_fn(Seq<char>) -> u32,
    source: Seq<char>,
    st: ScanState,
) -> ScanState
    decreases source.len() - st.current,
{
    if st.current >= source.len() {
        ScanState {
            tokens: st.tokens.push(
                TokenView {
                    token_type: TokenType::EOF,
                    lexeme: Seq::empty(),
                    literal: LiteralView::Null,
                    line: st.line,
                },
            ),
            ..st
        }
    } else {
        let next = token_scan(read, source, ScanState { start: st.current, ..st });
        if st.current < next.current <= source.len() {
            scan(read, source, next)
        } else {
            st
        }
    }
}

/// The state in which a scan begins.
pub open spec fn initial_state() -> ScanState {
    ScanState { tokens: Seq::empty(), errors: Seq::empty(), start: 0, current: 0, line: 1 }
}

/// The tokens and the errors of a whole source text.
pub open spec fn scan_source(read: spec_fn(Seq<char>) -> u32, source: Seq<char>) -> ScanState {
    scan(read, source, initial_state())
}

/// A run ends at or after the position it was read from, and within the source.
pub proof fn lemma_run_end_bounds(source: Seq<char>, from: nat, run: CharRun)
    requires
        from <= source.len(),
    ensures
        from <= run_end(source, from, run) <= source.len(),
    decreases source.len() - from,
{
    if from < source.len() && in_run(run, source[from as int]) {
        lemma_run_end_bounds(source, from + 1, run);
    }
}

/// A position up to which every character belongs to the run, and at which
/// the run cannot go on, is the end of the run.
pub proof fn lemma_run_end_is(source: Seq<char>, from: nat, run: CharRun, end: nat)
    requires
        from <= end <= source.len(),
        forall|i: int| from <= i < end ==> in_run(run, source[i]),
        end == source.len() || !in_run(run, source[end as int]),
    ensures
        run_end(source, from, run) == end,
    decreases end - from,
{
    if from < end {
        lemma_run_end_is(source, from + 1, run, end);
    }
}

/// Reading one token moves the lexer forward and keeps it within the source.
pub proof fn lemma_token_scan_advances(
    read: spec_fn(Seq<char>) -> u32,
    source: Seq<char>,
    st: ScanState,
)
    requires
        st.current < source.len(),
    ensures
        st.current < token_scan(read, source, st).current <= source.len(),
{
    let next = st.current + 1;
    lemma_run_end_bounds(source, next, CharRun::Word);
    lemma_run_end_bounds(source, next, CharRun::Quoted);
    lemma_run_end_bounds(source, next, CharRun::Digits);
    let whole = run_end(source, next, CharRun::Digits);
    if whole + 1 < source.len() {
        lemma_run_end_bounds(source, whole + 1, CharRun::Digits);
    }
}

/// A token without the value that the host read for it: a number has none.
pub open spec fn without_value(token: TokenView) -> TokenView {
    if token.token_type == TokenType::Number {
        TokenView { literal: LiteralView::Null, ..token }
    } else {
        token
    }
}

/// A state without the values that the host read for its numbers: what the
/// source alone decides.
pub open spec fn outline(st: ScanState) -> ScanState {
    ScanState { tokens: st.tokens.map_values(|token: TokenView| without_value(token)), ..st }
}

/// The reading of numerals that gives every text the value `value`.
pub open spec fn constantly(value: u32) -> spec_fn(Seq<char>) -> u32 {
    |text: Seq<char>| value
}

/// Adding a token to two states with one outline gives one outline, if the
/// tokens differ at most in the value of a number.
proof fn lemma_added_outline(
    source: Seq<char>,
    first: ScanState,
    second: ScanState,
    token_type: TokenType,
    one: LiteralView,
    other: LiteralView,
)
    requires
        outline(first) == outline(second),
        token_type == TokenType::Number || one == other,
    ensures
        outline(added(source, first, token_type, one)) == outline(
            added(source, second, token_type, other),
        ),
{
    let a = added(source, first, token_type, one);
    let b = added(source, second, token_type, other);
    assert(outline(a).tokens =~= outline(first).tokens.push(without_value(a.tokens.last())));
    assert(outline(b).tokens =~= outline(second).tokens.push(without_value(b.tokens.last())));
}

/// Moving on in two states with one outline gives one outline.
proof fn lemma_moved_outline(first: ScanState, second: ScanState, current: nat, line: nat)
    requires
        outline(first) == outline(second),
    ensures
        outline(ScanState { current, line, ..first }) == outline(
            ScanState { current, line, ..second },
        ),
{
}

/// Recording an error in two states with one outline gives one outline.
proof fn lemma_faulted_outline(
    first: ScanState,
    second: ScanState,
    line: nat,
    message: Seq<char>,
)
    requires
        outline(first) == outline(second),
    ensures
        outline(faulted(first, line, message)) == outline(faulted(second, line, message)),
{
}

/// What one step of the scan adds to the outline does not depend on how the
/// host reads numerals.
pub proof fn lemma_token_scan_outline(
    one: spec_fn(Seq<char>) -> u32,
    other: spec_fn(Seq<char>) -> u32,
    source: Seq<char>,
    first: ScanState,
    second: ScanState,
)
    requires
        outline(first) == outline(second),
    ensures
        outline(token_scan(one, source, first)) == outline(token_scan(other, source, second)),
{
    let c = source[first.current as int];
    let a = ScanState { current: first.current + 1, ..first };
    let b = ScanState { current: second.current + 1, ..second };
    lemma_moved_outline(first, second, first.current + 1, first.line);
    assert(outline(a) == outline(b));
    if c == '=' || c == '!' || c == '<' || c == '>' {
        lemma_moved_outline(a, b, a.current + 1, a.line);
        let long = if c == '=' {
            TokenType::EqualEqual
        } else if c == '!' {
            TokenType::BangEqual
        } else if c == '<' {
            TokenType::LessEqual
        } else {
            TokenType::GreaterEqual
        };
        let short = if c == '=' {
            TokenType::Equal
        } else if c == '!' {
            TokenType::Bang
        } else if c == '<' {
            TokenType::Less
        } else {
            TokenType::Greater
        };
        lemma_added_outline(
            source,
            ScanState { current: a.current + 1, ..a },
            ScanState { current: b.current + 1, ..b },
            long,
            LiteralView::Null,
            LiteralView::Null,
        );
        lemma_added_outline(source, a, b, short, LiteralView::Null, LiteralView::Null);
    } else if c == '"' {
        let close = run_end(source, a.current, CharRun::Quoted);
        let line = a.line + line_breaks(source, a.current, close);
        lemma_moved_outline(a, b, close + 1, line);
        lemma_moved_outline(a, b, close, line);
        lemma_added_outline(
            source,
            ScanState { current: close + 1, line, ..a },
            ScanState { current: close + 1, line, ..b },
            TokenType::String,
            LiteralView::String(source.subrange(a.start as int + 1, close as int)),
            LiteralView::String(source.subrange(b.start as int + 1, close as int)),
        );
        lemma_faulted_outline(
            ScanState { current: close, line, ..a },
            ScanState { current: close, line, ..b },
            a.line,
            "Unterminated string."@,
        );
    } else if c == '\n' {
        lemma_moved_outline(a, b, a.current, a.line + 1);
    } else if c == ' ' || c == '\r' || c == '\t' {
    } else if c == '(' || c == ')' || c == '{' || c == '}' || c == ',' || c == '.' || c == ';' || c
        == '-' || c == '+' || c == '/' || c == '*' {
        let token_type = token_scan(one, source, first).tokens.last().token_type;
        lemma_added_outline(source, a, b, token_type, LiteralView::Null, LiteralView::Null);
    } else if word_start(c) {
        let end = run_end(source, a.current, CharRun::Word);
        lemma_moved_outline(a, b, end, a.line);
        lemma_added_outline(
            source,
            ScanState { current: end, ..a },
            ScanState { current: end, ..b },
            word_type(source.subrange(a.start as int, end as int)),
            LiteralView::Null,
            LiteralView::Null,
        );
    } else if digit(c) {
        let end = number_end(source, a.current);
        lemma_moved_outline(a, b, end, a.line);
        lemma_added_outline(
            source,
            ScanState { current: end, ..a },
            ScanState { current: end, ..b },
            TokenType::Number,
            LiteralView::Number(one(source.subrange(a.start as int, end as int))),
            LiteralView::Number(other(source.subrange(b.start as int, end as int))),
        );
    } else {
        lemma_faulted_outline(a, b, a.line, "Unexpected character: "@.push(c));
    }
}

/// The outline of a scan does not depend on how the host reads numerals: the
/// types of the tokens, their lexemes and lines, and the errors are decided
/// by the source alone.
pub proof fn lemma_scan_outline(
    one: spec_fn(Seq<char>) -> u32,
    other: spec_fn(Seq<char>) -> u32,
    source: Seq<char>,
    first: ScanState,
    second: ScanState,
)
    requires
        outline(first) == outline(second),
    ensures
        outline(scan(one, source, first)) == outline(scan(other, source, second)),
    decreases source.len() - first.current,
{
    if first.current >= source.len() {
        let last = TokenView {
            token_type: TokenType::EOF,
            lexeme: Seq::empty(),
            literal: LiteralView::Null,
            line: first.line,
        };
        assert(outline(scan(one, source, first)).tokens =~= outline(first).tokens.push(last));
        assert(outline(scan(other, source, second)).tokens =~= outline(second).tokens.push(last));
    } else {
        let a = ScanState { start: first.current, ..first };
        let b = ScanState { start: second.current, ..second };
        assert(outline(a) == outline(b));
        lemma_token_scan_outline(one, other, source, a, b);
        let next_a = token_scan(one, source, a);
        let next_b = token_scan(other, source, b);
        if first.current < next_a.current <= source.len() {
            lemma_scan_outline(one, other, source, next_a, next_b);
        }
    }
}

/// The host's reading of numerals can be called on every text.
pub open spec fn reader_total<P: Fn(&str) -> u32>(reader: &P) -> bool {
    forall|text: &str| call_requires(reader, (text,))
}

/// The host's reading of numerals returns the same value whenever it is
/// given the same text.
pub open spec fn reader_deterministic<P: Fn(&str) -> u32>(reader: &P) -> bool {
    forall|first: &str, second: &str, r1: u32, r2: u32|
        first@ == second@ && #[trigger] call_ensures(reader, (first,), r1) && #[trigger] call_ensures(
            reader,
            (second,),
            r2,
        ) ==> r1 == r2
}

/// A value that the host's reading may return for a string of the given text.
pub open spec fn read_as<P: Fn(&str) -> u32>(reader: &P, text: Seq<char>, r: u32) -> bool {
    exists|t: &str| t@ == text && #[trigger] call_ensures(reader, (t,), r)
}

/// The function that the host's reading of numerals computes: for each
/// text, a value that it may return.
pub open spec fn reader_function<P: Fn(&str) -> u32>(reader: &P) -> spec_fn(Seq<char>) -> u32 {
    |text: Seq<char>| choose|r: u32| read_as(reader, text, r)
}

/// What a deterministic reading returned is the value of its function.
pub proof fn lemma_reader_function<P: Fn(&str) -> u32>(reader: &P, text: &str, r: u32)
    requires
        reader_deterministic(reader),
        call_ensures(reader, (text,), r),
    ensures
        reader_function(reader)(text@) == r,
{
    assert(read_as(reader, text@, r));
    let chosen = choose|r: u32| read_as(reader, text@, r);
    assert(read_as(reader, text@, chosen));
    let witness = choose|t: &str| t@ == text@ && call_ensures(reader, (t,), chosen);
    assert(call_ensures(reader, (witness,), chosen));
}

/// A lexer over one source text.
pub struct Lexer {
    pub source: String,
    pub tokens: Vec<Token>,
    pub errors: Vec<LexicalError>,
    /// The number of characters of the source.
    pub length: usize,
    pub start: usize,
    pub current: usize,
    pub line: usize,
    pub reserved: Vec<(&'static str, TokenType)>,
}

impl Lexer {
    /// The lexer's state, over views.
    pub open spec fn state(&self) -> ScanState {
        ScanState {
            tokens: token_views(self.tokens@),
            errors: error_views(self.errors@),
            start: self.start as nat,
            current: self.current as nat,
            line: self.line as nat,
        }
    }

    /// The lexer stands within its source, and its line counter has counted
    /// no more line breaks than characters were read.
    pub open spec fn wf(&self) -> bool {
        &&& self.length == self.source@.len()
        &&& self.length < usize::MAX
        &&& self.start <= self.current <= self.length
        &&& 1 <= self.line <= self.current + 1
        &&& table_view(self.reserved@) == keyword_table()
    }

    /// `other` reads the same source as `self`.
    pub open spec fn same_source(&self, other: &Lexer) -> bool {
        &&& self.source == other.source
        &&& self.length == other.length
        &&& self.reserved == other.reserved
    }

    /// A lexer at the start of the source, on line 1, with no tokens yet.
    pub fn new(source: &str) -> (r: Self)
        requires
            source@.len() < usize::MAX,
        ensures
            r.wf(),
            r.source@ == source@,
            r.state() == initial_state(),
    {
        let r = Self {
            source: source.to_owned(),
            tokens: Vec::new(),
            errors: Vec::new(),
            length: source.unicode_len(),
            start: 0,
            current: 0,
            line: 1,
            reserved: keywords(),
        };
        assert(r.state().tokens =~= Seq::empty());
        assert(r.state().errors =~= Seq::empty());
        r
    }

    /// Whether every character has been read.
    pub fn is_at_end(&self) -> (r: bool)
        requires
            self.wf(),
        ensures
            r == (self.current >= self.source@.len()),
    {
        self.current >= self.length
    }

    /// The next character, if there is one.
    pub fn peek(&self) -> (r: Option<char>)
        requires
            self.wf(),
        ensures
            r == if self.current < self.source@.len() {
                Some(self.source@[self.current as int])
            } else {
                None
            },
    {
        if self.current < self.length {
            Some(self.source.as_str().get_char(self.current))
        } else {
            None
        }
    }

    /// The character after the next, if there is one.
    pub fn peek_next(&self) -> (r: Option<char>)
        requires
            self.wf(),
        ensures
            r == if self.current + 1 < self.source@.len() {
                Some(self.source@[self.current + 1])
            } else {
                None
            },
    {
        if self.current + 1 < self.length {
            Some(self.source.as_str().get_char(self.current + 1))
        } else {
            None
        }
    }

    /// Consumes the next character and returns it.
    pub fn advance(&mut self) -> (c: char)
        requires
            old(self).wf(),
            old(self).current < old(self).source@.len(),
        ensures
            final(self).wf(),
            final(self).same_source(old(self)),
            final(self).current >= old(self).current,
            c == old(self).source@[old(self).current as int],
            final(self).state() == (ScanState {
                current: old(self).current as nat + 1,
                ..old(self).state()
            }),
    {
        let c = self.source.as_str().get_char(self.current);
        self.current += 1;
        c
    }

    /// Consumes the next character if it is `c`, and says which of two token
    /// types then applies.
    pub fn next_char_equal(&mut self, c: char, equal_type: TokenType, unequal_type: TokenType) -> (r:
        TokenType)
        requires
            old(self).wf(),
        ensures
            final(self).wf(),
            final(self).same_source(old(self)),
            final(self).current >= old(self).current,
            old(self).current < old(self).source@.len() && old(self).source@[old(
                self,
            ).current as int] == c ==> r == equal_type && final(self).state() == (ScanState {
                current: old(self).current as nat + 1,
                ..old(self).state()
            }),
            !(old(self).current < old(self).source@.len() && old(self).source@[old(
                self,
            ).current as int] == c) ==> r == unequal_type && final(self).state() == old(
                self,
            ).state(),
    {
        if let Some(x) = self.peek() {
            if x == c {
                self.advance();
                return equal_type;
            }
        }
        unequal_type
    }

    /// Adds a token whose lexeme is the source from `start` up to `current`.
    pub fn add_token(&mut self, token_type: TokenType, literal: Literal)
        requires
            old(self).wf(),
        ensures
            final(self).wf(),
            final(self).same_source(old(self)),
            final(self).current >= old(self).current,
            final(self).state() == added(
                old(self).source@,
                old(self).state(),
                token_type,
                literal@,
            ),
    {
        let text = self.source.as_str().substring_char(self.start, self.current);
        let token = Token::new(token_type, text.to_owned(), literal, self.line);
        self.tokens.push(token);
        assert(final(self).state().tokens =~= added(
            old(self).source@,
            old(self).state(),
            token_type,
            literal@,
        ).tokens) by {
            assert(self.tokens@ == old(self).tokens@.push(token));
        }
    }

    /// Records an error on the given line.
    fn fault(&mut self, line: usize, message: String)
        requires
            old(self).wf(),
        ensures
            final(self).wf(),
            final(self).same_source(old(self)),
            final(self).state() == faulted(old(self).state(), line as nat, message@),
    {
        let error = LexicalError { line, message };
        self.errors.push(error);
        assert(final(self).state().errors =~= faulted(
            old(self).state(),
            line as nat,
            message@,
        ).errors) by {
            assert(self.errors@ == old(self).errors@.push(error));
        }
    }

    /// Consumes the characters of the given kind of run.
    fn skip_run(&mut self, run: CharRun)
        requires
            old(self).wf(),
        ensures
            final(self).wf(),
            final(self).same_source(old(self)),
            final(self).current >= old(self).current,
            final(self).state() == (ScanState {
                current: run_end(old(self).source@, old(self).current as nat, run),
                line: old(self).line as nat + if run is Quoted {
                    line_breaks(
                        old(self).source@,
                        old(self).current as nat,
                        run_end(old(self).source@, old(self).current as nat, run),
                    )
                } else {
                    0
                },
                ..old(self).state()
            }),
    {
        let ghost from = self.current as nat;
        loop
            invariant
                self.wf(),
                self.same_source(old(self)),
                from == old(self).current,
                from <= self.current,
                forall|i: int| from <= i < self.current ==> in_run(run, self.source@[i]),
                self.state() == (ScanState {
                    current: self.current as nat,
                    line: self.line as nat,
                    ..old(self).state()
                }),
                run is Quoted ==> self.line == old(self).line + line_breaks(
                    self.source@,
                    from,
                    self.current as nat,
                ),
                !(run is Quoted) ==> self.line == old(self).line,
                self.line <= old(self).line + (self.current - from),
            ensures
                self.current == self.source@.len() || !in_run(
                    run,
                    self.source@[self.current as int],
                ),
            decreases self.length - self.current,
        {
            match self.peek() {
                None => {
                    break ;
                },
                Some(c) => {
                    let belongs = match run {
                        CharRun::Digits => c >= '0' && c <= '9',
                        CharRun::Word => c.is_alphanumeric() || c == '_',
                        CharRun::Quoted => c != '"',
                    };
                    if !belongs {
                        break ;
                    }
                    if c == '\n' {
                        if let CharRun::Quoted = run {
                            self.line += 1;
                        }
                    }
                    self.current += 1;
                },
            }
        }
        proof {
            lemma_run_end_is(self.source@, from, run, self.current as nat);
        }
    }

    /// Reads an identifier or a reserved word, whose first character has been
    /// consumed.
    pub fn identifier(&mut self)
        requires
            old(self).wf(),
        ensures
            final(self).wf(),
            final(self).same_source(old(self)),
            final(self).current >= old(self).current,
            final(self).state() == identifier_scan(old(self).source@, old(self).state()),
    {
        self.skip_run(CharRun::Word);
        let text = self.source.as_str().substring_char(self.start, self.current);
        let mut token_type = TokenType::Identifier;
        let mut i: usize = 0;
        let mut found = false;
        while i < self.reserved.len() && !found
            invariant
                i <= self.reserved.len(),
                found ==> lookup(table_view(self.reserved@), text@, 0) == Some(token_type),
                !found ==> token_type == TokenType::Identifier,
                !found ==> lookup(table_view(self.reserved@), text@, 0) == lookup(
                    table_view(self.reserved@),
                    text@,
                    i as nat,
                ),
            decreases self.reserved.len() - i + if found { 0int } else { 1int },
        {
            if same_text(text, self.reserved[i].0) {
                token_type = self.reserved[i].1;
                found = true;
            } else {
                i += 1;
            }
        }
        self.add_token(token_type, Literal::Null);
    }

    /// Reads a string, whose opening quote has been consumed.
    pub fn string(&mut self)
        requires
            old(self).wf(),
            old(self).start < old(self).current,
        ensures
            final(self).wf(),
            final(self).same_source(old(self)),
            final(self).current >= old(self).current,
            final(self).state() == string_scan(old(self).source@, old(self).state()),
    {
        let first_line = self.line;
        self.skip_run(CharRun::Quoted);
        if self.current < self.length {
            let text = self.source.as_str().substring_char(self.start + 1, self.current);
            self.current += 1;
            self.add_token(TokenType::String, Literal::String(text.to_owned()));
        } else {
            self.fault(first_line, "Unterminated string.".to_owned());
        }
    }

    /// Reads a number, whose first digit has been consumed. Its value is what
    /// `reader` returns for its text.
    pub fn number<P: Fn(&str) -> u32>(&mut self, reader: &P)
        requires
            old(self).wf(),
            reader_total(reader),
        ensures
            final(self).wf(),
            final(self).same_source(old(self)),
            final(self).current >= old(self).current,
            exists|value: u32|
                #[trigger] read_as(
                    reader,
                    old(self).source@.subrange(
                        old(self).start as int,
                        number_end(old(self).source@, old(self).current as nat) as int,
                    ),
                    value,
                ) && final(self).state() == number_scan(
                    constantly(value),
                    old(self).source@,
                    old(self).state(),
                ),
            reader_deterministic(reader) ==> final(self).state() == number_scan(
                reader_function(reader),
                old(self).source@,
                old(self).state(),
            ),
    {
        self.skip_run(CharRun::Digits);
        if let Some('.') = self.peek() {
            if let Some(x) = self.peek_next() {
                if x >= '0' && x <= '9' {
                    self.advance();
                    self.skip_run(CharRun::Digits);
                }
            }
        }
        let text = self.source.as_str().substring_char(self.start, self.current);
        let value = reader(text);
        proof {
            if reader_deterministic(reader) {
                lemma_reader_function(reader, text, value);
            }
            assert(read_as(reader, text@, value));
        }
        self.add_token(TokenType::Number, Literal::Number(value));
        proof {
            let lexeme = old(self).source@.subrange(
                old(self).start as int,
                number_end(old(self).source@, old(self).current as nat) as int,
            );
            assert(lexeme == text@);
            assert(read_as(reader, lexeme, value));
            assert(self.state() == number_scan(
                constantly(value),
                old(self).source@,
                old(self).state(),
            ));
        }
    }

    /// Reads one token, blank or faulty character. The lexer is not at the
    /// end of its source. But for the value of a number, what is read is
    /// decided by the source alone.
    pub fn scan_token<P: Fn(&str) -> u32>(&mut self, reader: &P)
        requires
            old(self).wf(),
            old(self).current < old(self).source@.len(),
            reader_total(reader),
        ensures
            final(self).wf(),
            final(self).same_source(old(self)),
            final(self).current > old(self).current,
            outline(final(self).state()) == outline(
                token_scan(constantly(0), old(self).source@, old(self).state()),
            ),
            reader_deterministic(reader) ==> final(self).state() == token_scan(
                reader_function(reader),
                old(self).source@,
                old(self).state(),
            ),
    {
        let c = self.advance();
        let ghost advanced = self.state();
        match c {
            '(' => self.add_token(TokenType::LeftParen, Literal::Null),
            ')' => self.add_token(TokenType::RightParen, Literal::Null),
            '{' => self.add_token(TokenType::LeftBrace, Literal::Null),
            '}' => self.add_token(TokenType::RightBrace, Literal::Null),
            ',' => self.add_token(TokenType::Comma, Literal::Null),
            '.' => self.add_token(TokenType::Dot, Literal::Null),
            ';' => self.add_token(TokenType::Semicolon, Literal::Null),
            '-' => self.add_token(TokenType::Minus, Literal::Null),
            '+' => self.add_token(TokenType::Plus, Literal::Null),
            '/' => self.add_token(TokenType::Slash, Literal::Null),
            '*' => self.add_token(TokenType::Star, Literal::Null),
            '=' => {
                let token_type = self.next_char_equal('=', TokenType::EqualEqual, TokenType::Equal);
                self.add_token(token_type, Literal::Null);
            },
            '!' => {
                let token_type = self.next_char_equal('=', TokenType::BangEqual, TokenType::Bang);
                self.add_token(token_type, Literal::Null);
            },
            '<' => {
                let token_type = self.next_char_equal('=', TokenType::LessEqual, TokenType::Less);
                self.add_token(token_type, Literal::Null);
            },
            '>' => {
                let token_type = self.next_char_equal(
                    '=',
                    TokenType::GreaterEqual,
                    TokenType::Greater,
                );
                self.add_token(token_type, Literal::Null);
            },
            '"' => {
                self.string();
            },
            '\n' => {
                self.line += 1;
            },
            ' ' | '\r' | '\t' => (),
            x => {
                if x.is_alphabetic() || x == '_' {
                    self.identifier();
                } else if x >= '0' && x <= '9' {
                    self.number(reader);
                    proof {
                        let value = choose|value: u32|
                            self.state() == number_scan(
                                constantly(value),
                                old(self).source@,
                                advanced,
                            );
                        lemma_token_scan_outline(
                            constantly(value),
                            constantly(0),
                            old(self).source@,
                            old(self).state(),
                            old(self).state(),
                        );
                    }
                } else {
                    let mut message = "Unexpected character: ".to_owned();
                    message.push(c);
                    let line = self.line;
                    self.fault(line, message);
                }
            },
        }
        proof {
            lemma_run_end_bounds(old(self).source@, old(self).current as nat + 1, CharRun::Word);
        }
    }

    /// Reads the whole source and ends the tokens with the end-of-input token.
    /// The types of the tokens, their lexemes and lines, and the errors are
    /// decided by the source alone; the value of each number is what `reader`
    /// returns for its text.
    pub fn scan_tokens<P: Fn(&str) -> u32>(&mut self, reader: &P)
        requires
            old(self).wf(),
            reader_total(reader),
        ensures
            final(self).wf(),
            final(self).same_source(old(self)),
            final(self).tokens@.len() > 0,
            final(self).tokens@.last().token_type == TokenType::EOF,
            outline(final(self).state()) == outline(
                scan(constantly(0), old(self).source@, old(self).state()),
            ),
            reader_deterministic(reader) ==> final(self).state() == scan(
                reader_function(reader),
                old(self).source@,
                old(self).state(),
            ),
    {
        loop
            invariant
                self.wf(),
                self.same_source(old(self)),
                reader_total(reader),
                outline(scan(constantly(0), self.source@, self.state())) == outline(
                    scan(constantly(0), old(self).source@, old(self).state()),
                ),
                reader_deterministic(reader) ==> scan(
                    reader_function(reader),
                    self.source@,
                    self.state(),
                )
                        == scan(reader_function(reader), old(self).source@, old(self).state()),
            ensures
                self.current >= self.source@.len(),
            decreases self.length - self.current,
        {
            if self.is_at_end() {
                break ;
            }
            self.start = self.current;
            let ghost started = self.state();
            self.scan_token(reader);
            proof {
                lemma_scan_outline(
                    constantly(0),
                    constantly(0),
                    self.source@,
                    self.state(),
                    token_scan(constantly(0), self.source@, started),
                );
            }
        }
        let ghost before = *self;
        let token = Token::new(TokenType::EOF, String::new(), Literal::Null, self.line);
        self.tokens.push(token);
        proof {
            assert(self.tokens@ == before.tokens@.push(token));
            assert(self.state().tokens =~= before.state().tokens.push(token@));
            assert(token@.lexeme =~= Seq::empty());
            assert(self.state() == scan(constantly(0), self.source@, before.state()));
        }
    }
}

} // verus!
