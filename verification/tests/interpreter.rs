use std::rc::Rc;
use treewalk::ast::{BinOp, Expr, Lit, Stmt, UnOp};
use treewalk::callable::Callable;
use treewalk::error::{Error, OpId};
use treewalk::interp::Interpreter;
use treewalk::value::{Callee, Value};

const FUEL: u64 = 100_000;

fn num(n: i64) -> Expr {
    Expr::Literal(Lit::Num(n))
}

fn text(s: &str) -> Expr {
    Expr::Literal(Lit::Str(s.to_string()))
}

fn nil() -> Expr {
    Expr::Literal(Lit::Nil)
}

fn var(n: &str) -> Expr {
    Expr::Variable(n.to_string())
}

fn bin(op: BinOp, l: Expr, r: Expr) -> Expr {
    Expr::Binary(op, Box::new(l), Box::new(r))
}

fn call(callee: Expr, args: Vec<Expr>) -> Expr {
    Expr::Call(Box::new(callee), args)
}

fn assign(n: &str, e: Expr) -> Expr {
    Expr::Assign(n.to_string(), Box::new(e))
}

fn fun_decl(name: &str, params: &[&str], body: Vec<Stmt>) -> Stmt {
    Stmt::Function(
        name.to_string(),
        Rc::new(params.iter().map(|p| p.to_string()).collect()),
        Rc::new(body),
    )
}

fn print_s(e: Expr) -> Stmt {
    Stmt::Print(e)
}

fn var_s(n: &str, e: Expr) -> Stmt {
    Stmt::Var(n.to_string(), Some(e))
}

fn expr_s(e: Expr) -> Stmt {
    Stmt::Expression(e)
}

fn run(prog: Vec<Stmt>) -> (Interpreter, Result<(), Error>) {
    let mut it = Interpreter::new();
    let r = it.interpret(&prog, FUEL);
    (it, r)
}

#[test]
fn clock() {
    // print clock();
    let prog = vec![print_s(call(var("clock"), vec![]))];
    let (it, r) = run(prog);
    assert!(r.is_ok());
    assert_eq!(it.output().len(), 1);
    assert!(it.output()[0].chars().all(|c| c.is_ascii_digit()));
}

#[test]
fn count() {
    // fun count(n) { if (n > 1) count(n - 1); print n; } count(3);
    let body = vec![
        Stmt::If(
            bin(BinOp::Gt, var("n"), num(1)),
            Box::new(expr_s(call(var("count"), vec![bin(BinOp::Sub, var("n"), num(1))]))),
            None,
        ),
        print_s(var("n")),
    ];
    let prog = vec![
        fun_decl("count", &["n"], body),
        expr_s(call(var("count"), vec![num(3)])),
    ];
    let (it, r) = run(prog);
    assert!(r.is_ok());
    assert_eq!(it.output(), &vec!["1".to_string(), "2".to_string(), "3".to_string()]);
}

#[test]
fn closure() {
    // fun makeCounter() { var i = 0; fun count() { i = i + 1; print i; }
    // return count; } var counter = makeCounter(); counter(); counter();
    let inner = vec![
        expr_s(assign("i", bin(BinOp::Add, var("i"), num(1)))),
        print_s(var("i")),
    ];
    let outer = vec![
        var_s("i", num(0)),
        fun_decl("count", &[], inner),
        Stmt::Return(Some(var("count"))),
    ];
    let prog = vec![
        fun_decl("makeCounter", &[], outer),
        var_s("counter", call(var("makeCounter"), vec![])),
        expr_s(call(var("counter"), vec![])),
        expr_s(call(var("counter"), vec![])),
    ];
    let (it, r) = run(prog);
    assert!(r.is_ok());
    assert_eq!(it.output(), &vec!["1".to_string(), "2".to_string()]);
}

#[test]
fn function_global_mut() {
    // var d = 4; fun bob() { print d; d = 5; print d; } bob(); print d;
    let body = vec![
        print_s(var("d")),
        expr_s(assign("d", num(5))),
        print_s(var("d")),
    ];
    let prog = vec![
        var_s("d", num(4)),
        fun_decl("bob", &[], body),
        expr_s(call(var("bob"), vec![])),
        print_s(var("d")),
    ];
    let (it, r) = run(prog);
    assert!(r.is_ok());
    assert_eq!(it.output(), &vec!["4".to_string(), "5".to_string(), "5".to_string()]);
}

#[test]
fn shadowing_in_block() {
    // var a = 1; { var a = 2; print a; } print a;
    let prog = vec![
        var_s("a", num(1)),
        Stmt::Block(vec![var_s("a", num(2)), print_s(var("a"))]),
        print_s(var("a")),
    ];
    let (it, r) = run(prog);
    assert!(r.is_ok());
    assert_eq!(it.output(), &vec!["2".to_string(), "1".to_string()]);
}

#[test]
fn assignment_reaches_outer_frame() {
    // var i = 0; { i = i + 1; } print i;
    let prog = vec![
        var_s("i", num(0)),
        Stmt::Block(vec![expr_s(assign("i", bin(BinOp::Add, var("i"), num(1))))]),
        print_s(var("i")),
    ];
    let (it, r) = run(prog);
    assert!(r.is_ok());
    assert_eq!(it.output(), &vec!["1".to_string()]);
}

#[test]
fn arity_mismatch_no_args() {
    // fun one(p) { print p; } one();
    let prog = vec![
        fun_decl("one", &["p"], vec![print_s(var("p"))]),
        expr_s(call(var("one"), vec![])),
    ];
    let (it, r) = run(prog);
    match r {
        Err(Error::ArityMismatch { expected, got }) => {
            assert_eq!(expected, 1);
            assert_eq!(got, 0);
        }
        _ => panic!("expected an arity error"),
    }
    assert_eq!(it.output().len(), 0);
}

#[test]
fn arity_mismatch_two_args() {
    // fun one(p) { print p; } one(1, 2);
    let prog = vec![
        fun_decl("one", &["p"], vec![print_s(var("p"))]),
        expr_s(call(var("one"), vec![num(1), num(2)])),
    ];
    let (it, r) = run(prog);
    match r {
        Err(Error::ArityMismatch { expected, got }) => {
            assert_eq!(expected, 1);
            assert_eq!(got, 2);
        }
        _ => panic!("expected an arity error"),
    }
    assert_eq!(it.output().len(), 0);
}

#[test]
fn clock_monotone() {
    // print clock(); print clock();
    let prog = vec![
        print_s(call(var("clock"), vec![])),
        print_s(call(var("clock"), vec![])),
    ];
    let (it, r) = run(prog);
    assert!(r.is_ok());
    let a: i64 = it.output()[0].parse().unwrap();
    let b: i64 = it.output()[1].parse().unwrap();
    assert!(a >= 0);
    assert!(a <= b);
}

#[test]
fn lookup_is_idempotent() {
    // var x = 5; then two reads of the same frame chain
    let prog = vec![var_s("x", num(5))];
    let (it, r) = run(prog);
    assert!(r.is_ok());
    let name = "x".to_string();
    let first = it.env.get(0, &name).unwrap();
    let second = it.env.get(0, &name).unwrap();
    match (&*first, &*second) {
        (Value::Num(a), Value::Num(b)) => {
            assert_eq!(*a, 5);
            assert_eq!(*b, 5);
        }
        _ => panic!("expected numbers"),
    }
}

#[test]
fn undefined_variable() {
    let prog = vec![print_s(var("q"))];
    let (it, r) = run(prog);
    match r {
        Err(Error::UndefinedVariable(n)) => assert_eq!(n, "q"),
        _ => panic!("expected an undefined-variable error"),
    }
    assert_eq!(it.output().len(), 0);
}

#[test]
fn assignment_to_undeclared_name_fails() {
    let prog = vec![expr_s(assign("q", num(1)))];
    let (_, r) = run(prog);
    match r {
        Err(Error::UndefinedVariable(n)) => assert_eq!(n, "q"),
        _ => panic!("expected an undefined-variable error"),
    }
}

#[test]
fn type_mismatch_add() {
    // print 1 + nil;
    let prog = vec![print_s(bin(BinOp::Add, num(1), nil()))];
    let (it, r) = run(prog);
    match r {
        Err(Error::TypeMismatch { op: OpId::Bin(BinOp::Add), operands }) => {
            assert_eq!(operands.len(), 2);
        }
        _ => panic!("expected a type-mismatch error"),
    }
    assert_eq!(it.output().len(), 0);
}

#[test]
fn not_callable() {
    // 5();
    let prog = vec![expr_s(call(num(5), vec![]))];
    let (_, r) = run(prog);
    match r {
        Err(Error::NotCallable(v)) => match &*v {
            Value::Num(n) => assert_eq!(*n, 5),
            _ => panic!("expected the number as the callee"),
        },
        _ => panic!("expected a not-callable error"),
    }
}

#[test]
fn runaway_recursion_overflows() {
    // fun f() { f(); } f();
    let prog = vec![
        fun_decl("f", &[], vec![expr_s(call(var("f"), vec![]))]),
        expr_s(call(var("f"), vec![])),
    ];
    let mut it = Interpreter::new();
    let r = it.interpret(&prog, 1_000);
    assert!(matches!(r, Err(Error::StackOverflow)));
}

#[test]
fn division() {
    // print 7 / 2;
    let prog = vec![print_s(bin(BinOp::Div, num(7), num(2)))];
    let (it, r) = run(prog);
    assert!(r.is_ok());
    assert_eq!(it.output(), &vec!["3".to_string()]);
}

#[test]
fn division_by_zero_fails() {
    let prog = vec![print_s(bin(BinOp::Div, num(1), num(0)))];
    let (_, r) = run(prog);
    assert!(matches!(r, Err(Error::TypeMismatch { op: OpId::Bin(BinOp::Div), .. })));
}

#[test]
fn string_concatenation() {
    let prog = vec![print_s(bin(BinOp::Add, text("ab"), text("cd")))];
    let (it, r) = run(prog);
    assert!(r.is_ok());
    assert_eq!(it.output(), &vec!["abcd".to_string()]);
}

#[test]
fn unary_operators() {
    // print -5; print !nil;
    let prog = vec![
        print_s(Expr::Unary(UnOp::Neg, Box::new(num(5)))),
        print_s(Expr::Unary(UnOp::Not, Box::new(nil()))),
    ];
    let (it, r) = run(prog);
    assert!(r.is_ok());
    assert_eq!(it.output(), &vec!["-5".to_string(), "true".to_string()]);
}

#[test]
fn while_loop_counts() {
    // var i = 0; while (i < 3) { i = i + 1; } print i;
    let prog = vec![
        var_s("i", num(0)),
        Stmt::While(
            bin(BinOp::Lt, var("i"), num(3)),
            Box::new(Stmt::Block(vec![expr_s(assign("i", bin(BinOp::Add, var("i"), num(1))))])),
        ),
        print_s(var("i")),
    ];
    let (it, r) = run(prog);
    assert!(r.is_ok());
    assert_eq!(it.output(), &vec!["3".to_string()]);
}

#[test]
fn render_of_each_kind() {
    // print nil; print 1 == 1; print "s"; print g; print clock;
    let prog = vec![
        fun_decl("g", &[], vec![]),
        print_s(nil()),
        print_s(bin(BinOp::Eq, num(1), num(1))),
        print_s(text("s")),
        print_s(var("g")),
        print_s(var("clock")),
    ];
    let (it, r) = run(prog);
    assert!(r.is_ok());
    assert_eq!(
        it.output(),
        &vec![
            "nil".to_string(),
            "true".to_string(),
            "s".to_string(),
            "<fn g>".to_string(),
            "<native fn>".to_string(),
        ]
    );
}

#[test]
fn bare_return_yields_nil() {
    // fun g() { return; } print g();
    let prog = vec![
        fun_decl("g", &[], vec![Stmt::Return(None)]),
        print_s(call(var("g"), vec![])),
    ];
    let (it, r) = run(prog);
    assert!(r.is_ok());
    assert_eq!(it.output(), &vec!["nil".to_string()]);
}

#[test]
fn grouping_and_comparisons() {
    // print (1 + 2) * 3; print 2 <= 2; print 3 != 4;
    let prog = vec![
        print_s(bin(
            BinOp::Mul,
            Expr::Grouping(Box::new(bin(BinOp::Add, num(1), num(2)))),
            num(3),
        )),
        print_s(bin(BinOp::Le, num(2), num(2))),
        print_s(bin(BinOp::Ne, num(3), num(4))),
    ];
    let (it, r) = run(prog);
    assert!(r.is_ok());
    assert_eq!(
        it.output(),
        &vec!["9".to_string(), "true".to_string(), "true".to_string()]
    );
}

#[test]
fn sibling_declared_later_is_visible() {
    // fun a() { b(); } fun b() { print 1; } a();
    let prog = vec![
        fun_decl("a", &[], vec![expr_s(call(var("b"), vec![]))]),
        fun_decl("b", &[], vec![print_s(num(1))]),
        expr_s(call(var("a"), vec![])),
    ];
    let (it, r) = run(prog);
    assert!(r.is_ok());
    assert_eq!(it.output(), &vec!["1".to_string()]);
}

#[test]
fn closure_outlives_its_block() {
    // var h; { fun g() { print 7; } h = g; } h();
    let prog = vec![
        Stmt::Var("h".to_string(), None),
        Stmt::Block(vec![
            fun_decl("g", &[], vec![print_s(num(7))]),
            expr_s(assign("h", var("g"))),
        ]),
        expr_s(call(var("h"), vec![])),
    ];
    let (it, r) = run(prog);
    assert!(r.is_ok());
    assert_eq!(it.output(), &vec!["7".to_string()]);
}

#[test]
fn numbers_wrap_at_the_boundary() {
    // print 9223372036854775807 + 1;
    let prog = vec![print_s(bin(BinOp::Add, num(i64::MAX), num(1)))];
    let (it, r) = run(prog);
    assert!(r.is_ok());
    assert_eq!(it.output(), &vec!["-9223372036854775808".to_string()]);
}

#[test]
fn return_unwinds_nested_constructs() {
    // fun f() { while (true) { if (true) { return 42; } } } print f();
    let body = vec![Stmt::While(
        Expr::Literal(Lit::Bool(true)),
        Box::new(Stmt::If(
            Expr::Literal(Lit::Bool(true)),
            Box::new(Stmt::Block(vec![Stmt::Return(Some(num(42)))])),
            None,
        )),
    )];
    let prog = vec![
        fun_decl("f", &[], body),
        print_s(call(var("f"), vec![])),
    ];
    let (it, r) = run(prog);
    assert!(r.is_ok());
    assert_eq!(it.output(), &vec!["42".to_string()]);
}

#[test]
fn var_without_initializer_is_nil() {
    let prog = vec![Stmt::Var("u".to_string(), None), print_s(var("u"))];
    let (it, r) = run(prog);
    assert!(r.is_ok());
    assert_eq!(it.output(), &vec!["nil".to_string()]);
}

#[test]
fn callable_trait_dispatch() {
    // calling through the Callable trait behaves like the evaluator
    let mut it = Interpreter::new();
    let clock = it.env.get(0, &"clock".to_string()).unwrap();
    match &*clock {
        Value::Callable(Callee::Native(c)) => {
            assert_eq!(c.arity(), 0);
            assert_eq!(c.to_text(), "<native fn>");
            let r = c.call(&mut it, Vec::new(), FUEL).unwrap();
            match r {
                Some(v) => assert!(matches!(&*v, Value::Num(_))),
                None => panic!("the clock returns a value"),
            }
        }
        _ => panic!("clock is the native callable"),
    }
}

#[test]
fn function_value_arity_and_text() {
    let prog = vec![fun_decl("pair", &["a", "b"], vec![])];
    let (it, r) = run(prog);
    assert!(r.is_ok());
    let f = it.env.get(0, &"pair".to_string()).unwrap();
    match &*f {
        Value::Callable(Callee::User(g)) => {
            assert_eq!(g.arity(), 2);
            assert_eq!(g.to_text(), "<fn pair>");
        }
        _ => panic!("expected the function value"),
    }
}

#[test]
fn arity_error_through_trait() {
    let prog = vec![fun_decl("one", &["p"], vec![print_s(var("p"))])];
    let (mut it, r) = run(prog);
    assert!(r.is_ok());
    let f = it.env.get(0, &"one".to_string()).unwrap();
    match &*f {
        Value::Callable(Callee::User(g)) => {
            let r2 = g.call(&mut it, Vec::new(), FUEL);
            assert!(matches!(r2, Err(Error::ArityMismatch { expected: 1, got: 0 })));
        }
        _ => panic!("expected the function value"),
    }
}
