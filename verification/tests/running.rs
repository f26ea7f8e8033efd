use roz::environment::Environment;
use roz::function::Function;
use roz::interpreter::{Interpreter, Return, RuntimeError, RuntimeException};
use roz::lexer::{Lexer, LexicalError, Token, TokenType};
use roz::literal::{ArithOp, Literal};
use roz::parser::Parser;
use roz::roz::{error, exit_code, lexical_error, report, run, runtime_error, Run};
use roz::stmt::{Expr, Stmt};

fn parse_number(text: &str) -> u32 {
    text.parse::<f32>().unwrap().to_bits()
}

fn arithmetic(op: ArithOp, a: u32, b: u32) -> u32 {
    let (x, y) = (f32::from_bits(a), f32::from_bits(b));
    let r = match op {
        ArithOp::Add => x + y,
        ArithOp::Sub => x - y,
        ArithOp::Mul => x * y,
        ArithOp::Div => x / y,
    };
    r.to_bits()
}

fn shown(value: &Literal) -> String {
    match value {
        Literal::Number(bits) => {
            let x = f32::from_bits(*bits);
            value.to_string(&format!("{}", x), &format!("{:.1}", x))
        }
        other => other.to_string("", ""),
    }
}

fn execute(source: &str) -> Run {
    run(source, &parse_number, &arithmetic)
}

fn lines(run: &Run) -> Vec<String> {
    run.output.iter().map(shown).collect()
}

fn prints(source: &str) -> Vec<String> {
    let run = execute(source);
    assert_eq!(run.lexical_errors, vec![], "{}", source);
    assert_eq!(run.parse_errors, vec![], "{}", source);
    assert_eq!(run.outcome, Some(Ok(())), "{}", source);
    lines(&run)
}

fn fails(source: &str) -> (String, usize, Vec<String>) {
    let run = execute(source);
    assert_eq!(run.parse_errors, vec![], "{}", source);
    match &run.outcome {
        Some(Err(RuntimeException::Error(e))) => (e.message.clone(), e.token.line, lines(&run)),
        other => panic!("{}: {:?}", source, other),
    }
}

fn name(lexeme: &str) -> Token {
    Token::new(TokenType::Identifier, lexeme.to_string(), Literal::Null, 1)
}

fn number(x: f32) -> Literal {
    Literal::Number(x.to_bits())
}

#[test]
fn arithmetic_is_the_hosts() {
    assert_eq!(prints("print 1 + 2;"), vec!["3.0"]);
    assert_eq!(prints("print 7 - 10;"), vec!["-3.0"]);
    assert_eq!(prints("print 1.5 * 4;"), vec!["6.0"]);
    assert_eq!(prints("print 1 / 4;"), vec!["0.25"]);
    assert_eq!(prints("print 1 + 2 * 3 - 4 / 2;"), vec!["5.0"]);
    assert_eq!(prints("print (1 + 2) * 3;"), vec!["9.0"]);
    assert_eq!(prints("print 0.1 + 0.2;"), vec![shown(&number(0.1f32 + 0.2f32))]);
}

#[test]
fn division_by_zero_follows_the_floats() {
    assert_eq!(prints("print 1 / 0;"), vec!["inf"]);
    assert_eq!(prints("print -1 / 0;"), vec!["-inf"]);
    assert_eq!(prints("print 0 / 0;"), vec!["NaN"]);
    assert_eq!(prints("print 0 / 0 == 0 / 0;"), vec!["false"]);
}

#[test]
fn strings_concatenate() {
    assert_eq!(prints("print \"ab\" + \"cd\";"), vec!["abcd"]);
    assert_eq!(prints("let a = \"x\"; print a + a + a;"), vec!["xxx"]);
}

#[test]
fn a_string_plus_a_number_is_an_error() {
    assert_eq!(
        fails("print \"a\" + 1;"),
        ("Cannot add 'string' and 'number'".to_string(), 1, vec![])
    );
    assert_eq!(
        fails("print 1 + nil;"),
        ("Cannot add 'number' and 'null'".to_string(), 1, vec![])
    );
}

#[test]
fn nil_is_not_equal_to_nil() {
    assert_eq!(prints("print nil == nil;"), vec!["false"]);
    assert_eq!(prints("print nil != nil;"), vec!["true"]);
    assert_eq!(prints("print nil == 1;"), vec!["false"]);
    assert_eq!(prints("print 1 == nil;"), vec!["false"]);
    assert_eq!(prints("let a; print a == a;"), vec!["false"]);
}

#[test]
fn other_values_equal_themselves() {
    assert_eq!(prints("print 1 == 1;"), vec!["true"]);
    assert_eq!(prints("print 1 != 1;"), vec!["false"]);
    assert_eq!(prints("print 1 == 2;"), vec!["false"]);
    assert_eq!(prints("print \"a\" == \"a\";"), vec!["true"]);
    assert_eq!(prints("print \"a\" == \"b\";"), vec!["false"]);
    assert_eq!(prints("print true == true;"), vec!["true"]);
    assert_eq!(prints("print true != false;"), vec!["true"]);
    assert_eq!(prints("print 1 == \"1\";"), vec!["false"]);
    assert_eq!(prints("print 0 == -0;"), vec!["true"]);
    assert_eq!(prints("fn f() {} fn g() {} print f == f; print f == g;"), vec!["true", "false"]);
}

#[test]
fn zero_and_the_empty_string_are_true() {
    assert_eq!(prints("if (0) print \"yes\";"), vec!["yes"]);
    assert_eq!(prints("if (\"\") print \"yes\";"), vec!["yes"]);
    assert_eq!(prints("if (\"no\") print \"yes\";"), vec!["yes"]);
    assert_eq!(prints("if (true) print \"yes\"; else print \"no\";"), vec!["yes"]);
    assert_eq!(prints("fn f() {} if (f) print \"yes\";"), vec!["yes"]);
}

#[test]
fn nil_and_false_are_false() {
    assert_eq!(prints("if (nil) print \"yes\"; else print \"no\";"), vec!["no"]);
    assert_eq!(prints("if (false) print \"yes\"; else print \"no\";"), vec!["no"]);
    assert_eq!(prints("if (false) print \"yes\";"), Vec::<String>::new());
    assert_eq!(prints("let a; if (a) print \"yes\"; else print \"no\";"), vec!["no"]);
}

#[test]
fn an_inner_let_shadows() {
    assert_eq!(prints("let x = 1; { let x = 2; print x; } print x;"), vec!["2.0", "1.0"]);
    assert_eq!(
        prints("let x = 1; { let x = x + 1; { let x = x + 1; print x; } print x; } print x;"),
        vec!["3.0", "2.0", "1.0"]
    );
}

#[test]
fn an_assignment_changes_the_outer_binding() {
    assert_eq!(prints("let x = 1; { x = 2; } print x;"), vec!["2.0"]);
    assert_eq!(prints("let x = 1; { { x = x + 5; } } print x;"), vec!["6.0"]);
    assert_eq!(prints("let x = 1; { let x = 2; x = 3; print x; } print x;"), vec!["3.0", "1.0"]);
    assert_eq!(prints("let x; print x = 4; print x;"), vec!["4.0", "4.0"]);
}

#[test]
fn a_let_in_the_same_scope_rebinds() {
    assert_eq!(prints("let x = 1; let x = 2; print x;"), vec!["2.0"]);
    assert_eq!(prints("let x; print x;"), vec!["null"]);
}

#[test]
fn a_block_ends_its_bindings() {
    assert_eq!(
        fails("{ let y = 1; } print y;"),
        ("undefined variable 'y'".to_string(), 1, vec![])
    );
}

#[test]
fn undefined_names_are_errors() {
    assert_eq!(fails("print x;"), ("undefined variable 'x'".to_string(), 1, vec![]));
    assert_eq!(fails("\n\nx = 1;"), ("undefined variable 'x'".to_string(), 3, vec![]));
    assert_eq!(
        fails("print 1;\nprint y;\nprint 2;"),
        ("undefined variable 'y'".to_string(), 2, vec!["1.0".to_string()])
    );
}

#[test]
fn functions_return_values() {
    assert_eq!(prints("fn add(a, b) { return a + b; } print add(2, 3);"), vec!["5.0"]);
    assert_eq!(prints("fn f() { return; } print f();"), vec!["null"]);
    assert_eq!(prints("fn f() { } print f();"), vec!["null"]);
    assert_eq!(prints("fn f() { print 1; } f(); f();"), vec!["1.0", "1.0"]);
    assert_eq!(prints("fn f() { } print f;"), vec!["<fn>"]);
}

#[test]
fn return_unwinds_blocks_and_loops() {
    assert_eq!(
        prints("fn f() { while (true) { { return 7; } } } print f(); print 8;"),
        vec!["7.0", "8.0"]
    );
    assert_eq!(
        prints("fn f(n) { if (n < 1) { return \"low\"; } else { return \"high\"; } print 0; } print f(0); print f(1);"),
        vec!["low", "high"]
    );
    assert_eq!(
        prints("let x = 1; fn f() { let x = 2; { let x = 3; return x; } } print f(); print x;"),
        vec!["3.0", "1.0"]
    );
}

#[test]
fn functions_recurse() {
    assert_eq!(
        prints("fn fib(n) { if (n < 2) return n; return fib(n - 1) + fib(n - 2); } print fib(10);"),
        vec!["55.0"]
    );
    assert_eq!(
        prints("fn count(n) { if (n > 0) { count(n - 1); print n; } } count(3);"),
        vec!["1.0", "2.0", "3.0"]
    );
}

#[test]
fn functions_are_values() {
    assert_eq!(
        prints("fn twice(f, x) { return f(f(x)); } fn inc(n) { return n + 1; } print twice(inc, 1);"),
        vec!["3.0"]
    );
    assert_eq!(
        prints("fn make() { fn inner() { return 5; } return inner; } print make()();"),
        vec!["5.0"]
    );
    assert_eq!(prints("fn f() { return 1; } let g = f; print g();"), vec!["1.0"]);
}

#[test]
fn a_call_sees_the_globals_and_not_the_callers_locals() {
    assert_eq!(prints("let g = 1; fn f() { return g; } { let g = 2; print f(); }"), vec!["1.0"]);
    assert_eq!(prints("let g = 1; fn f() { g = g + 1; } f(); f(); print g;"), vec!["3.0"]);
    assert_eq!(
        fails("fn f() { return local; } { let local = 2; print f(); }"),
        ("undefined variable 'local'".to_string(), 1, vec![])
    );
}

#[test]
fn arguments_are_evaluated_before_the_call() {
    assert_eq!(
        prints("fn show(n) { print n; return n; } fn pair(a, b) { print \"in\"; } pair(show(1), show(2));"),
        vec!["1.0", "2.0", "in"]
    );
    assert_eq!(
        fails("fn show(n) { print n; return n; } fn one(a) { } one(show(1), show(2));"),
        (
            "Expected 1 arguments but got 2.".to_string(),
            1,
            vec!["1.0".to_string(), "2.0".to_string()]
        )
    );
}

#[test]
fn and_does_not_evaluate_its_right_side_after_false() {
    assert_eq!(
        prints("let n = 0; fn touch() { n = n + 1; return true; } print false and touch(); print n;"),
        vec!["false", "0.0"]
    );
    assert_eq!(
        prints("let n = 0; fn touch() { n = n + 1; return true; } print nil and touch(); print n;"),
        vec!["null", "0.0"]
    );
    assert_eq!(
        prints("let n = 0; fn touch() { n = n + 1; return 7; } print true and touch(); print n;"),
        vec!["7.0", "1.0"]
    );
}

#[test]
fn or_does_not_evaluate_its_right_side_after_true() {
    assert_eq!(
        prints("let n = 0; fn touch() { n = n + 1; return true; } print 1 or touch(); print n;"),
        vec!["1.0", "0.0"]
    );
    assert_eq!(
        prints("let n = 0; fn touch() { n = n + 1; return 7; } print false or touch(); print n;"),
        vec!["7.0", "1.0"]
    );
    assert_eq!(prints("print nil or false;"), vec!["false"]);
}

#[test]
fn the_wrong_number_of_arguments_is_an_error() {
    assert_eq!(
        fails("fn add(a, b) { print \"never\"; return a + b; }\nprint add(1);"),
        ("Expected 2 arguments but got 1.".to_string(), 2, vec![])
    );
    assert_eq!(
        fails("fn f() { } f(1, 2, 3);"),
        ("Expected 0 arguments but got 3.".to_string(), 1, vec![])
    );
}

#[test]
fn only_functions_can_be_called() {
    assert_eq!(
        fails("\"text\"();"),
        ("Can only call functions and classes.".to_string(), 1, vec![])
    );
    assert_eq!(fails("1(2);"), ("Can only call functions and classes.".to_string(), 1, vec![]));
    assert_eq!(
        fails("let x; x();"),
        ("Can only call functions and classes.".to_string(), 1, vec![])
    );
    assert_eq!(
        fails("fn f() { } f()();"),
        ("Can only call functions and classes.".to_string(), 1, vec![])
    );
}

#[test]
fn for_loops_count() {
    assert_eq!(
        prints("for (let i = 0; i < 3; i = i + 1) print i;"),
        vec!["0.0", "1.0", "2.0"]
    );
    assert_eq!(
        prints("let i = 5; for (let i = 0; i < 2; i = i + 1) { print i; } print i;"),
        vec!["0.0", "1.0", "5.0"]
    );
    assert_eq!(
        prints("let i = 0; for (; i < 2;) i = i + 1; print i;"),
        vec!["2.0"]
    );
}

#[test]
fn while_tests_before_each_round() {
    assert_eq!(prints("while (false) print 1; print 2;"), vec!["2.0"]);
    assert_eq!(
        prints("let n = 3; while (n > 0) { print n; n = n - 1; }"),
        vec!["3.0", "2.0", "1.0"]
    );
    assert_eq!(
        prints("let i = 0; let s = 0; while (i < 100) { i = i + 1; s = s + i; } print s;"),
        vec!["5050.0"]
    );
}

#[test]
fn comparisons_take_numbers() {
    assert_eq!(prints("print 1 < 2; print 2 < 1; print 1 < 1;"), vec!["true", "false", "false"]);
    assert_eq!(prints("print 1 <= 2; print 2 <= 1; print 1 <= 1;"), vec!["true", "false", "true"]);
    assert_eq!(prints("print 1 > 2; print 2 > 1; print 1 > 1;"), vec!["false", "true", "false"]);
    assert_eq!(prints("print 1 >= 2; print 2 >= 1; print 1 >= 1;"), vec!["false", "true", "true"]);
    assert_eq!(
        fails("print \"a\" < \"b\";"),
        ("Expected both operands to be double.".to_string(), 1, vec![])
    );
    assert_eq!(
        fails("print 1 >= nil;"),
        ("Expected both operands to be double.".to_string(), 1, vec![])
    );
}

#[test]
fn arithmetic_takes_numbers() {
    assert_eq!(
        fails("print \"a\" - 1;"),
        ("Expected both operands to be double.".to_string(), 1, vec![])
    );
    assert_eq!(
        fails("print true * 2;"),
        ("Expected both operands to be double.".to_string(), 1, vec![])
    );
    assert_eq!(
        fails("print 1 / \"2\";"),
        ("Expected both operands to be double.".to_string(), 1, vec![])
    );
}

#[test]
fn unary_operators_take_numbers() {
    assert_eq!(prints("print -3; print --3; print -(1 + 2);"), vec!["-3.0", "3.0", "-3.0"]);
    assert_eq!(prints("print !0;"), vec!["false"]);
    assert_eq!(
        fails("print -\"a\";"),
        ("Expected the operand to be a double.".to_string(), 1, vec![])
    );
    assert_eq!(
        fails("print !true;"),
        ("Expected the operand to be a double.".to_string(), 1, vec![])
    );
}

#[test]
fn a_fault_stops_the_run() {
    assert_eq!(
        fails("print 1; print 2 + nil; print 3;"),
        ("Cannot add 'number' and 'null'".to_string(), 1, vec!["1.0".to_string()])
    );
    assert_eq!(
        fails("fn f() { return 1 - \"x\"; } print \"a\"; print f(); print \"b\";"),
        ("Expected both operands to be double.".to_string(), 1, vec!["a".to_string()])
    );
}

#[test]
fn a_return_outside_a_function_ends_the_program() {
    let run = execute("print 1; return 5; print 2;");
    assert_eq!(lines(&run), vec!["1.0"]);
    assert_eq!(
        run.outcome,
        Some(Err(RuntimeException::Return(Return { value: number(5.0) })))
    );
    assert_eq!(exit_code(&run), 0);
}

#[test]
fn calls_nest_only_so_deep() {
    let run = execute("fn f(n) { return f(n + 1); } print 1; print f(0); print 2;");
    assert_eq!(run.outcome, Some(Err(RuntimeException::Exhausted)));
    assert_eq!(lines(&run), vec!["1.0"]);
    assert_eq!(exit_code(&run), 70);
    assert_eq!(
        prints("fn down(n) { if (n > 0) return down(n - 1); return \"done\"; } print down(99);"),
        vec!["done"]
    );
    let run = execute("fn down(n) { if (n > 0) return down(n - 1); return \"done\"; } print down(100);");
    assert_eq!(run.outcome, Some(Err(RuntimeException::Exhausted)));
}

fn program(source: &str) -> Vec<Stmt> {
    let mut lexer = Lexer::new(source);
    lexer.scan_tokens(&parse_number);
    Parser::new(lexer.tokens).parse().unwrap()
}

#[test]
fn loops_go_round_only_so_often() {
    let stmts = program("let n = 0; while (n < 10) { n = n + 1; print n; }");
    let mut interpreter = Interpreter::with_limits(10, 10);
    assert_eq!(interpreter.interpret(&stmts, &arithmetic), Ok(()));
    assert_eq!(interpreter.output.len(), 10);
    let stmts = program("let n = 0; while (n < 11) { n = n + 1; print n; }");
    let mut interpreter = Interpreter::with_limits(10, 10);
    assert_eq!(interpreter.interpret(&stmts, &arithmetic), Err(RuntimeException::Exhausted));
    assert_eq!(interpreter.output.len(), 10);
    let stmts = program("for (let i = 0; i < 3; i = i + 1) for (let j = 0; j < 3; j = j + 1) print j;");
    let mut interpreter = Interpreter::with_limits(10, 3);
    assert_eq!(interpreter.interpret(&stmts, &arithmetic), Ok(()));
    assert_eq!(interpreter.output.len(), 9);
}

#[test]
fn the_limits_can_be_set() {
    let stmts = program("fn down(n) { if (n > 0) return down(n - 1); return n; } print down(3);");
    let mut interpreter = Interpreter::with_limits(4, 0);
    assert_eq!(interpreter.interpret(&stmts, &arithmetic), Ok(()));
    let mut interpreter = Interpreter::with_limits(3, 0);
    assert_eq!(interpreter.interpret(&stmts, &arithmetic), Err(RuntimeException::Exhausted));
    let mut interpreter = Interpreter::with_limits(0, 0);
    assert_eq!(interpreter.interpret(&program("print 1;"), &arithmetic), Ok(()));
    assert_eq!(
        interpreter.interpret(&program("while (true) { }"), &arithmetic),
        Err(RuntimeException::Exhausted)
    );
    let fresh = Interpreter::new();
    assert_eq!(fresh.max_depth, 100);
    assert_eq!(fresh.limit, usize::MAX);
}

#[test]
fn an_interpreter_keeps_its_state_between_programs() {
    let mut interpreter = Interpreter::new();
    assert_eq!(interpreter.interpret(&program("let x = 1; fn f() { return x; }"), &arithmetic), Ok(()));
    assert_eq!(interpreter.interpret(&program("x = x + 1; print f();"), &arithmetic), Ok(()));
    assert_eq!(interpreter.output, vec![number(2.0)]);
    assert_eq!(interpreter.environment.depth(), 1);
    assert_eq!(interpreter.functions.len(), 1);
}

#[test]
fn scopes_are_restored_after_a_fault() {
    let mut interpreter = Interpreter::new();
    let stmts = program("fn f() { { { return 1 + nil; } } } { { f(); } }");
    assert!(interpreter.interpret(&stmts, &arithmetic).is_err());
    assert_eq!(interpreter.environment.depth(), 1);
}

#[test]
fn expressions_can_be_evaluated_alone() {
    let mut interpreter = Interpreter::new();
    let mut parser = Parser::new({
        let mut lexer = Lexer::new("1 + 2 * 3");
        lexer.scan_tokens(&parse_number);
        lexer.tokens
    });
    let expr = parser.expression().unwrap();
    assert_eq!(interpreter.evaluate(&expr, &arithmetic, 0), Ok(number(7.0)));
    assert_eq!(interpreter.walk_expr(&expr, &arithmetic, 0), Ok(number(7.0)));
    assert_eq!(interpreter.visit_expr(&expr, &arithmetic, 0), Ok(number(7.0)));
    assert_eq!(interpreter.evaluate(&Expr::Absent, &arithmetic, 0), Ok(Literal::Null));
    assert_eq!(interpreter.execute(&Stmt::Absent, &arithmetic, 0), Ok(()));
    assert_eq!(interpreter.walk_stmt(&Stmt::Print(expr.clone()), &arithmetic, 0), Ok(()));
    assert_eq!(interpreter.visit_stmt(&Stmt::Print(expr), &arithmetic, 0), Ok(()));
    assert_eq!(interpreter.output, vec![number(7.0), number(7.0)]);
}

#[test]
fn the_interpreter_judges_values() {
    let interpreter = Interpreter::new();
    assert!(interpreter.is_true(&number(0.0)));
    assert!(interpreter.is_true(&Literal::String(String::new())));
    assert!(interpreter.is_true(&Literal::Bool(true)));
    assert!(!interpreter.is_true(&Literal::Bool(false)));
    assert!(!interpreter.is_true(&Literal::Null));
    assert!(!interpreter.is_equal(&Literal::Null, &Literal::Null));
    assert!(interpreter.is_equal(&number(1.0), &number(1.0)));
    assert!(!interpreter.is_equal(&number(1.0), &Literal::Null));
    let plus = Token::new(TokenType::Plus, "+".to_string(), Literal::Null, 4);
    assert_eq!(interpreter.check_number_operand(&plus, &number(1.0)), Ok(()));
    assert_eq!(
        interpreter.check_number_operand(&plus, &Literal::Null),
        Err(RuntimeException::Error(RuntimeError {
            token: plus.clone(),
            message: "Expected the operand to be a double.".to_string()
        }))
    );
    assert_eq!(interpreter.check_number_operands(&number(1.0), &plus, &number(2.0)), Ok(()));
    assert_eq!(
        interpreter.check_number_operands(&number(1.0), &plus, &Literal::Bool(true)),
        Err(RuntimeException::Error(RuntimeError {
            token: plus.clone(),
            message: "Expected both operands to be double.".to_string()
        }))
    );
    assert_eq!(interpreter.unary_operation(&plus, number(3.0)), Ok(number(3.0)));
    assert_eq!(
        interpreter.binary_operation(&plus, number(3.0), number(4.0), &arithmetic),
        Ok(number(7.0))
    );
    let semicolon = Token::new(TokenType::Semicolon, ";".to_string(), Literal::Null, 1);
    assert_eq!(
        interpreter.binary_operation(&semicolon, number(3.0), number(4.0), &arithmetic),
        Ok(Literal::Null)
    );
    assert_eq!(interpreter.unary_operation(&semicolon, number(3.0)), Ok(Literal::Null));
}

#[test]
fn scopes_chain_outward() {
    let mut globals = Environment::new(None);
    globals.define("a".to_string(), number(1.0));
    globals.define("b".to_string(), number(2.0));
    let mut inner = Environment::new(Some(globals));
    inner.define("a".to_string(), number(10.0));
    assert_eq!(inner.depth(), 2);
    assert_eq!(inner.get(name("a")), Ok(number(10.0)));
    assert_eq!(inner.get(name("b")), Ok(number(2.0)));
    assert_eq!(inner.assign(name("b"), number(20.0)), Ok(()));
    assert_eq!(inner.assign(name("a"), number(11.0)), Ok(()));
    assert_eq!(
        inner.assign(name("c"), number(0.0)),
        Err(RuntimeException::Error(RuntimeError {
            token: name("c"),
            message: "undefined variable 'c'".to_string()
        }))
    );
    assert_eq!(
        inner.get(name("c")),
        Err(RuntimeException::Error(RuntimeError {
            token: name("c"),
            message: "undefined variable 'c'".to_string()
        }))
    );
    let outer = inner.get_enclosing_environment().unwrap();
    assert_eq!(outer.depth(), 1);
    assert_eq!(outer.get(name("a")), Ok(number(1.0)));
    assert_eq!(outer.get(name("b")), Ok(number(20.0)));
    assert!(outer.get_enclosing_environment().is_none());
}

#[test]
fn the_scope_of_a_call_hangs_on_the_global_scope() {
    let mut environment = Environment::new(None);
    environment.define("g".to_string(), number(1.0));
    environment.enter();
    environment.define("local".to_string(), number(2.0));
    environment.enter_call();
    assert_eq!(environment.depth(), 3);
    assert_eq!(environment.get(name("g")), Ok(number(1.0)));
    assert!(environment.get(name("local")).is_err());
    environment.leave();
    assert_eq!(environment.get(name("local")), Ok(number(2.0)));
}

#[test]
fn functions_know_their_name_and_arity() {
    let function = Function::new(name("add"), &[name("a"), name("b")], Stmt::Block(vec![]));
    assert_eq!(function.name(), "add");
    assert_eq!(function.arity(), 2);
    assert_eq!(function.clone(), function);
    let mut interpreter = Interpreter::new();
    assert_eq!(
        function.call(&mut interpreter, vec![number(1.0), number(2.0)], &arithmetic, 0),
        Ok(Literal::Null)
    );
    assert_eq!(interpreter.environment.depth(), 1);
    let body = program("{ return a - b; }").remove(0);
    let function = Function::new(name("sub"), &[name("a"), name("b")], body);
    assert_eq!(
        function.call(&mut interpreter, vec![number(1.0), number(2.0)], &arithmetic, 0),
        Ok(number(-1.0))
    );
}

#[test]
fn a_block_can_be_executed_in_a_prepared_scope() {
    let mut interpreter = Interpreter::new();
    interpreter.environment.enter();
    interpreter.environment.define("x".to_string(), number(4.0));
    let stmts = program("print x; let y = x;");
    assert_eq!(interpreter.execute_block(&stmts, &arithmetic, 0), Ok(()));
    assert_eq!(interpreter.output, vec![number(4.0)]);
    assert_eq!(interpreter.environment.depth(), 1);
    assert!(interpreter.environment.get(name("x")).is_err());
}

#[test]
fn diagnostics_name_the_line() {
    assert_eq!(report(3, "at 'x'", "Expected ';'"), "[line 3] Error at 'x': Expected ';'");
    assert_eq!(lexical_error(12, "Unterminated string."), "[line 12] Error : Unterminated string.");
    let token = Token::new(TokenType::Identifier, "foo".to_string(), Literal::Null, 7);
    assert_eq!(error(&token, "oops"), "[line 7] Error at 'foo': oops");
    let end = Token::new(TokenType::EOF, String::new(), Literal::Null, 9);
    assert_eq!(error(&end, "oops"), "[line 9] Error at the end: oops");
    let fault = RuntimeError { token, message: "undefined variable 'foo'".to_string() };
    assert_eq!(runtime_error(&fault), "undefined variable 'foo'\n[line 7]");
}

#[test]
fn a_program_with_a_lexical_error_is_not_run() {
    let run = execute("print 1; @");
    assert_eq!(
        run.lexical_errors,
        vec![LexicalError { line: 1, message: "Unexpected character: @".to_string() }]
    );
    assert_eq!(run.parse_errors, vec![]);
    assert_eq!(run.outcome, None);
    assert_eq!(lines(&run), Vec::<String>::new());
    assert_eq!(exit_code(&run), 65);
}

#[test]
fn a_program_with_a_syntax_error_is_not_run() {
    let run = execute("print 1;\nprint ;");
    assert_eq!(run.lexical_errors, vec![]);
    assert_eq!(run.parse_errors.len(), 1);
    assert_eq!(run.parse_errors[0].message, "Unable to parse the provided expression");
    assert_eq!(run.parse_errors[0].token.line, 2);
    assert_eq!(run.outcome, None);
    assert_eq!(lines(&run), Vec::<String>::new());
    assert_eq!(exit_code(&run), 65);
    let run = execute("\"open\nprint (;");
    assert_eq!(run.lexical_errors.len(), 1);
    assert_eq!(run.parse_errors.len(), 0);
    assert_eq!(run.outcome, None);
}

#[test]
fn a_program_with_too_many_arguments_is_not_run() {
    let arguments: Vec<String> = (0..256).map(|i| i.to_string()).collect();
    let source = format!("fn f() {{ }} print 1; f({});", arguments.join(", "));
    let run = execute(&source);
    assert_eq!(run.parse_errors.len(), 1);
    assert_eq!(run.parse_errors[0].message, "Can't have more than 255 arguments.");
    assert_eq!(run.outcome, None);
    assert_eq!(exit_code(&run), 65);
}

#[test]
fn exit_codes_tell_how_the_run_ended() {
    assert_eq!(exit_code(&execute("print 1;")), 0);
    assert_eq!(exit_code(&execute("")), 0);
    assert_eq!(exit_code(&execute("print x;")), 70);
    assert_eq!(exit_code(&execute("print")), 65);
    assert_eq!(exit_code(&execute("#")), 65);
    assert_eq!(exit_code(&execute("while (true) { fn f() { f(); } f(); }")), 70);
}
