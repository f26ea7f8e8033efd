//! A whole run: source text in, diagnostics and printed values out.

use vstd::prelude::*;
use vstd::string::*;
use crate::grammar;
use crate::grammar::{Cursor, ParseErrorView};
use crate::interpreter::{
    Interpreter, RuntimeError, RuntimeException, Signal, DEFAULT_DEPTH, unit_outcome,
};
use crate::lexer::{
    Lexer, LexicalError, LexicalErrorView, Token, TokenType, TokenView, error_views,
    reader_deterministic, reader_function, reader_total, scan_source,
};
use crate::literal::{
    ArithOp, Literal, LiteralView, host_deterministic, host_function, host_total, literal_views,
};
use crate::parser::{ParseError, Parser, parse_error_views};
use crate::environment::ScopeView;
use crate::semantics;
use crate::semantics::State;
use crate::stmt::StmtView;
use crate::text::{decimal, decimal_digits};

verus! {

/// The line of a diagnostic: the line, where on it, and what is wrong.
pub open spec fn report_text(line: nat, location: Seq<char>, message: Seq<char>) -> Seq<char> {
    "[line "@ + decimal_digits(line) + "] Error "@ + location + ": "@ + message
}

/// Where a token is, in words: at the end of the input, or at its lexeme.
pub open spec fn location_text(token: TokenView) -> Seq<char> {
    if token.token_type == TokenType::EOF {
        "at the end"@
    } else {
        "at '"@ + token.lexeme + "'"@
    }
}

/// The two lines of the diagnostic of a fault at run time.
pub open spec fn runtime_error_text(line: nat, message: Seq<char>) -> Seq<char> {
    message + "\n[line "@ + decimal_digits(line) + "]"@
}

/// The diagnostic for a fault on the given line, `whr` being where on it.
pub fn report(line: usize, whr: &str, message: &str) -> (r: String)
    ensures
        r@ == report_text(line as nat, whr@, message@),
{
    let mut text = "[line ".to_owned();
    text.append(decimal(line).as_str());
    text.append("] Error ");
    text.append(whr);
    text.append(": ");
    text.append(message);
    text
}

/// The diagnostic for a fault in the source text.
pub fn lexical_error(line: usize, message: &str) -> (r: String)
    ensures
        r@ == report_text(line as nat, Seq::empty(), message@),
{
    let r = report(line, "", message);
    proof {
        reveal_strlit("");
        assert(""@ =~= Seq::<char>::empty());
    }
    r
}

/// The diagnostic for a syntax error at a token.
pub fn error(token: &Token, message: &str) -> (r: String)
    ensures
        r@ == report_text(token@.line, location_text(token@), message@),
{
    if token.token_type == TokenType::EOF {
        report(token.line, "at the end", message)
    } else {
        let mut location = "at '".to_owned();
        location.append(token.lexeme.as_str());
        location.append("'");
        report(token.line, location.as_str(), message)
    }
}

/// The diagnostic for a fault at run time.
pub fn runtime_error(error: &RuntimeError) -> (r: String)
    ensures
        r@ == runtime_error_text(error.token@.line, error.message@),
{
    let mut text = error.message.clone();
    text.append("\n[line ");
    text.append(decimal(error.token.line).as_str());
    text.append("]");
    text
}

/// What a run gave.
pub struct Run {
    /// The faults found in the source text.
    pub lexical_errors: Vec<LexicalError>,
    /// The syntax errors: those reported on the way, then the one that
    /// stopped the parser.
    pub parse_errors: Vec<ParseError>,
    /// How the program ended; none where it was not started.
    pub outcome: Option<Result<(), RuntimeException>>,
    /// The values that the program printed.
    pub output: Vec<Literal>,
}

/// The mathematical content of a [`Run`].
pub struct RunView {
    pub lexical_errors: Seq<LexicalErrorView>,
    pub parse_errors: Seq<ParseErrorView>,
    pub outcome: Option<Result<(), Signal>>,
    pub output: Seq<LiteralView>,
}

impl View for Run {
    type V = RunView;

    open spec fn view(&self) -> RunView {
        RunView {
            lexical_errors: error_views(self.lexical_errors@),
            parse_errors: parse_error_views(self.parse_errors@),
            outcome: match self.outcome {
                Some(ended) => Some(unit_outcome(ended)),
                None => None,
            },
            output: literal_views(self.output@),
        }
    }
}

/// The state in which a program starts: the global scope alone, empty.
pub open spec fn initial_state() -> State {
    State {
        scopes: seq![ScopeView { values: Map::empty(), enclosing: None }],
        functions: Seq::empty(),
        output: Seq::empty(),
    }
}

/// The syntax errors of a parse: those reported on the way, then the one that
/// stopped it.
pub open spec fn syntax_errors(parsed: grammar::Step<Seq<StmtView>>) -> Seq<ParseErrorView> {
    match parsed.result {
        Ok(_) => parsed.to.reports,
        Err(error) => parsed.to.reports.push(error),
    }
}

/// What a run of `source` gives, where `read` gives the value of a numeral
/// and `f` is the arithmetic of the host: the program is scanned and parsed,
/// and it is executed only if neither found a fault.
pub open spec fn run_of(
    read: spec_fn(Seq<char>) -> u32,
    f: spec_fn(ArithOp, u32, u32) -> u32,
    source: Seq<char>,
) -> RunView {
    let scanned = scan_source(read, source);
    let parsed = grammar::program(scanned.tokens, Cursor { at: 0, reports: Seq::empty() });
    if scanned.errors.len() > 0 || syntax_errors(parsed).len() > 0 {
        RunView {
            lexical_errors: scanned.errors,
            parse_errors: syntax_errors(parsed),
            outcome: None,
            output: Seq::empty(),
        }
    } else {
        let ran = semantics::run(
            f,
            parsed.result->Ok_0,
            initial_state(),
            DEFAULT_DEPTH as nat,
            usize::MAX as nat,
        );
        RunView {
            lexical_errors: scanned.errors,
            parse_errors: syntax_errors(parsed),
            outcome: Some(ran.result),
            output: ran.state.output,
        }
    }
}

/// The status with which a process that made the run should end: 65 where
/// the program was rejected, 70 where it failed, 0 otherwise. A `return`
/// outside any function ends the program as its last statement would.
pub open spec fn status_of(run: RunView) -> u8 {
    match run.outcome {
        None => 65,
        Some(Err(Signal::Error { .. })) => 70,
        Some(Err(Signal::Exhausted)) => 70,
        Some(_) => 0,
    }
}

/// The status with which a process that made the run should end.
pub fn exit_code(run: &Run) -> (r: u8)
    ensures
        r == status_of(run@),
{
    match &run.outcome {
        None => 65,
        Some(Err(RuntimeException::Error(_))) => 70,
        Some(Err(RuntimeException::Exhausted)) => 70,
        Some(_) => 0,
    }
}

/// Scans, parses and executes a program. `reader` gives the value of a
/// numeral and `host` the result of arithmetic on two numbers.
pub fn run<P: Fn(&str) -> u32, A: Fn(ArithOp, u32, u32) -> u32>(input: &str, reader: &P, host: &A) -> (r:
    Run)
    requires
        input@.len() < usize::MAX,
        reader_total(reader),
        host_total(host),
    ensures
        reader_deterministic(reader) && host_deterministic(host) ==> r@ == run_of(
            reader_function(reader),
            host_function(host),
            input@,
        ),
{
    let mut lexer = Lexer::new(input);
    lexer.scan_tokens(reader);
    let Lexer { tokens, errors: lexical_errors, .. } = lexer;
    let mut parser = Parser::new(tokens);
    let parsed = parser.parse();
    let Parser { errors: mut parse_errors, .. } = parser;
    match parsed {
        Ok(stmts) => {
            if lexical_errors.len() > 0 || parse_errors.len() > 0 {
                let r = Run { lexical_errors, parse_errors, outcome: None, output: Vec::new() };
                assert(r@.output =~= Seq::empty());
                r
            } else {
                let mut interpreter = Interpreter::new();
                let outcome = interpreter.interpret(stmts.as_slice(), host);
                let Interpreter { output, .. } = interpreter;
                Run { lexical_errors, parse_errors, outcome: Some(outcome), output }
            }
        },
        Err(error) => {
            let ghost reports = parse_errors@;
            parse_errors.push(error);
            proof {
                crate::parser::lemma_parse_error_views_push(reports, error);
            }
            let r = Run { lexical_errors, parse_errors, outcome: None, output: Vec::new() };
            assert(r@.output =~= Seq::empty());
            r
        },
    }
}

} // verus!
