//! End-to-end scenarios: build a guest program's tree, compile it, run it,
//! and check the namespace.

use sha2::Digest;
use typescript_jit::ast::{
    AssignOperation, Case, ElseIf, IfElse, Loop, Module, Operation, Statement, Switch, TryCatch,
    Value,
};
use typescript_jit::Runtime;

const FUEL: u64 = 100_000;

fn num(v: f64) -> Value {
    Value::Number(v.to_bits())
}

fn ident(name: &str) -> Value {
    Value::Identifier(vec![name.to_string()])
}

fn binop(left: Value, op: Operation, right: Value) -> Value {
    Value::Expression { left: Box::new(left), op, right: Box::new(right) }
}

fn let_stmt(name: &str, value: Value) -> Statement {
    Statement::Let { name: name.to_string(), value }
}

fn assign_stmt(name: &str, value: Value) -> Statement {
    Statement::Expression(Value::Assign {
        identifier: name.to_string(),
        op: AssignOperation::Neutral,
        value: Box::new(value),
    })
}

fn program(statements: Vec<Statement>) -> Module {
    let mut m = Module::new();
    m.statements = statements;
    m
}

fn check(rt: &Runtime, idx: usize, name: &str, goal: f64) {
    let m = rt.module_at(idx);
    assert_eq!(m.global_number(name), Some(goal.to_bits()), "variable {}", name);
}

/// `let a = 1 + 1; let b = -2; let c = 1 * 2; let d = 1 / 2;`
#[test]
fn run_assigns() {
    let tree = program(vec![
        let_stmt("a", binop(num(1.0), Operation::Add, num(1.0))),
        let_stmt("b", num(-2.0)),
        let_stmt("c", binop(num(1.0), Operation::Mul, num(2.0))),
        let_stmt("d", binop(num(1.0), Operation::Div, num(2.0))),
    ]);
    let mut rt = Runtime::new();
    let idx = rt
        .load_source("let a = 1 + 1; let b = -2; let c = 1 * 2; let d = 1 / 2;", &tree, FUEL)
        .unwrap();
    check(&rt, idx, "a", 2.0);
    check(&rt, idx, "b", -2.0);
    check(&rt, idx, "c", 2.0);
    check(&rt, idx, "d", 0.5);
    // Every temporary the emitted code produced was released: only the four
    // namespace values are still alive.
    assert_eq!(rt.module_at(idx).global_count(), 4);
    assert_eq!(rt.module_at(idx).live_cells(), 4);
}

/// `function addOne() { return iks + 1; } let iks = 41; let res = addOne();`
#[test]
fn run_functions() {
    let tree = program(vec![
        Statement::Function(typescript_jit::ast::Function {
            name: Some("addOne".to_string()),
            template_args: vec![],
            is_async: false,
            params: vec![],
            returns: vec![],
            block: vec![Statement::Return(binop(ident("iks"), Operation::Add, num(1.0)))],
        }),
        let_stmt("iks", num(41.0)),
        let_stmt("res", Value::Call { identifier: vec!["addOne".to_string()], args: vec![] }),
    ]);
    let mut rt = Runtime::new();
    let idx = rt
        .load_source(
            "function addOne() { return iks + 1; } let iks = 41; let res = addOne();",
            &tree,
            FUEL,
        )
        .unwrap();
    check(&rt, idx, "iks", 41.0);
    check(&rt, idx, "res", 42.0);
}

/// `let x = 5; let c = 0; if (x < 0) c = 1; else if (x == 0) c = 2; else c = 3;`
#[test]
fn run_ifs() {
    let tree = program(vec![
        let_stmt("x", num(5.0)),
        let_stmt("c", num(0.0)),
        Statement::If(IfElse {
            expr: binop(ident("x"), Operation::Lt, num(0.0)),
            block: vec![assign_stmt("c", num(1.0))],
            elseifs: vec![ElseIf {
                expr: binop(ident("x"), Operation::Eq, num(0.0)),
                block: vec![assign_stmt("c", num(2.0))],
            }],
            els: vec![assign_stmt("c", num(3.0))],
        }),
    ]);
    let mut rt = Runtime::new();
    let idx = rt
        .load_source(
            "let x = 5; let c = 0; if (x < 0) c = 1; else if (x == 0) c = 2; else c = 3;",
            &tree,
            FUEL,
        )
        .unwrap();
    check(&rt, idx, "c", 3.0);
}

/// With `x = 0` the same ladder takes the else-if arm: the primary condition
/// must branch to the first else-if check, not straight to the else block.
#[test]
fn elseif_arm_is_reachable() {
    let tree = program(vec![
        let_stmt("x", num(0.0)),
        let_stmt("c", num(0.0)),
        Statement::If(IfElse {
            expr: binop(ident("x"), Operation::Lt, num(0.0)),
            block: vec![assign_stmt("c", num(1.0))],
            elseifs: vec![ElseIf {
                expr: binop(ident("x"), Operation::Eq, num(0.0)),
                block: vec![assign_stmt("c", num(2.0))],
            }],
            els: vec![assign_stmt("c", num(3.0))],
        }),
    ]);
    let mut rt = Runtime::new();
    let idx = rt.load_source("elseif taken", &tree, FUEL).unwrap();
    check(&rt, idx, "c", 2.0);
}

/// `let sum = 0; for (let i = 0; i < 3; i++) sum = sum + 1;` and a `for…of`
/// over an array literal.
#[test]
fn run_loops() {
    let tree = program(vec![
        let_stmt("sum", num(0.0)),
        Statement::Loop(Loop::For {
            init: vec![let_stmt("i", num(0.0))],
            cond: binop(ident("i"), Operation::Lt, num(3.0)),
            after: Value::Assign {
                identifier: "i".to_string(),
                op: AssignOperation::Add,
                value: Box::new(num(1.0)),
            },
            block: vec![assign_stmt("sum", binop(ident("sum"), Operation::Add, num(1.0)))],
        }),
        let_stmt("arr", Value::Array(vec![num(1.0), num(2.0), num(3.0)])),
        let_stmt("forofSum", num(0.0)),
        Statement::Loop(Loop::ForOf {
            name: "x".to_string(),
            value: ident("arr"),
            block: vec![assign_stmt(
                "forofSum",
                binop(ident("forofSum"), Operation::Add, ident("x")),
            )],
        }),
    ]);
    let mut rt = Runtime::new();
    let idx = rt
        .load_source(
            "let sum = 0; for (let i = 0; i < 3; i++) sum = sum + 1; let arr = [1, 2, 3]; let forofSum = 0; for (const x of arr) forofSum = forofSum + x;",
            &tree,
            FUEL,
        )
        .unwrap();
    check(&rt, idx, "sum", 3.0);
    check(&rt, idx, "forofSum", 6.0);
    check(&rt, idx, "x", 3.0);
    // sum, i, arr, forofSum, x are bound; alive are the three elements, the
    // array instance and its wrapping value, and the sum, i and forofSum
    // numbers. The loop variable shares the last element's cell.
    assert_eq!(rt.module_at(idx).global_count(), 5);
    assert_eq!(rt.module_at(idx).live_cells(), 8);
}

/// `let choice = 0; switch (k) { case 1: choice = 1; break; case 2: choice = 2; break; default: choice = 9; }`
#[test]
fn run_switches() {
    let tree = program(vec![
        let_stmt("k", num(2.0)),
        let_stmt("choice", num(0.0)),
        Statement::Switch(Switch {
            value: ident("k"),
            branches: vec![
                Case { expr: num(1.0), block: vec![assign_stmt("choice", num(1.0))] },
                Case { expr: num(2.0), block: vec![assign_stmt("choice", num(2.0))] },
            ],
            default: Some(vec![assign_stmt("choice", num(9.0))]),
        }),
    ]);
    let mut rt = Runtime::new();
    let idx = rt
        .load_source(
            "let choice = 0; switch (k) { case 1: choice = 1; break; case 2: choice = 2; break; default: choice = 9; }",
            &tree,
            FUEL,
        )
        .unwrap();
    check(&rt, idx, "choice", 2.0);
}

/// The default arm runs when no case matches.
#[test]
fn switch_default_taken() {
    let tree = program(vec![
        let_stmt("k", num(7.0)),
        let_stmt("choice", num(0.0)),
        Statement::Switch(Switch {
            value: ident("k"),
            branches: vec![
                Case { expr: num(1.0), block: vec![assign_stmt("choice", num(1.0))] },
                Case { expr: num(2.0), block: vec![assign_stmt("choice", num(2.0))] },
            ],
            default: Some(vec![assign_stmt("choice", num(9.0))]),
        }),
    ]);
    let mut rt = Runtime::new();
    let idx = rt.load_source("switch default", &tree, FUEL).unwrap();
    check(&rt, idx, "choice", 9.0);
}

/// `try { nuff = 2; } catch (e) {} let nuff = 1;` — the try/catch is parsed
/// but lowered to a no-op; the program completes with nuff = 1.
#[test]
fn run_trycatch() {
    let tree = program(vec![
        Statement::TryCatch(TryCatch {
            try_block: vec![assign_stmt("nuff", num(2.0))],
            catch_name: "e".to_string(),
            catch_block: vec![],
        }),
        let_stmt("nuff", num(1.0)),
    ]);
    let mut rt = Runtime::new();
    let idx = rt.load_source("let nuff = 1;", &tree, FUEL).unwrap();
    check(&rt, idx, "nuff", 1.0);
    assert_eq!(rt.module_at(idx).global_count(), 1);
}

/// Loading the same source twice reuses the cached module.
#[test]
fn module_cache_reuses_by_hash() {
    let tree = program(vec![let_stmt("a", num(1.0))]);
    let mut rt = Runtime::new();
    let first = rt.load_source("let a = 1;", &tree, FUEL).unwrap();
    let second = rt.load_source("let a = 1;", &tree, FUEL).unwrap();
    assert_eq!(first, second);
    let other = rt.load_source("let a = 1; ", &tree, FUEL).unwrap();
    assert_ne!(first, other);
}

/// The module's identity is the SHA-256 digest of its source, and its name
/// spells that digest in hexadecimal.
#[test]
fn module_identity_is_source_digest() {
    let tree = program(vec![let_stmt("a", num(1.0))]);
    let mut rt = Runtime::new();
    let idx = rt.load_source("let a = 1;", &tree, FUEL).unwrap();
    let expected = sha2::Sha256::digest("let a = 1;".as_bytes()).to_vec();
    assert_eq!(rt.module_at(idx).id(), expected);
    assert_eq!(rt.module_at(idx).ir.name, hex::encode(&expected));
}

/// Two emissions of the same string literal intern to one module constant.
#[test]
fn string_literals_are_interned() {
    let tree = program(vec![
        let_stmt("a", Value::String("hello".to_string())),
        let_stmt("b", Value::String("hello".to_string())),
    ]);
    let mut rt = Runtime::new();
    let idx = rt.load_source("let a = \"hello\"; let b = \"hello\";", &tree, FUEL).unwrap();
    let strings = &rt.module_at(idx).ir.strings;
    assert_eq!(strings.iter().filter(|s| s.as_str() == "hello").count(), 1);
}
