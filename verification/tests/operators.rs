//! Operator semantics: arithmetic in double precision, IEEE-754 comparison
//! corner cases, structural equality, eager logical operators, and the
//! type-mismatch coercions the runtime documents.

use typescript_jit::ast::{AssignOperation, Module, Operation, Statement, Value};
use typescript_jit::Runtime;

const FUEL: u64 = 100_000;

fn num(v: f64) -> Value {
    Value::Number(v.to_bits())
}

fn ident(name: &str) -> Value {
    Value::Identifier(vec![name.to_string()])
}

fn binop(left: Value, op: Operation, right: Value) -> Value {
    Value::Expression { left: Box::new(left), op, right: Box::new(right) }
}

fn let_stmt(name: &str, value: Value) -> Statement {
    Statement::Let { name: name.to_string(), value }
}

fn program(statements: Vec<Statement>) -> Module {
    let mut m = Module::new();
    m.statements = statements;
    m
}

fn run(source: &str, statements: Vec<Statement>) -> Runtime {
    let tree = program(statements);
    let mut rt = Runtime::new();
    rt.load_source(source, &tree, FUEL).unwrap();
    rt
}

fn number(rt: &Runtime, name: &str) -> f64 {
    f64::from_bits(rt.module_at(0).global_number(name).unwrap())
}

fn boolean(rt: &Runtime, name: &str) -> bool {
    rt.module_at(0).global_bool(name).unwrap()
}

#[test]
fn arithmetic_in_double_precision() {
    let rt = run(
        "arith",
        vec![
            let_stmt("s", binop(num(5.0), Operation::Sub, num(2.0))),
            let_stmt("r", binop(num(7.0), Operation::Mod, num(4.0))),
            let_stmt("t", binop(num(0.1), Operation::Add, num(0.2))),
            let_stmt("q", binop(num(1.0), Operation::Div, num(3.0))),
        ],
    );
    assert_eq!(number(&rt, "s"), 3.0);
    assert_eq!(number(&rt, "r"), 3.0);
    assert_eq!(number(&rt, "t").to_bits(), (0.1f64 + 0.2f64).to_bits());
    assert_eq!(number(&rt, "q").to_bits(), (1.0f64 / 3.0f64).to_bits());
}

#[test]
fn compound_assignment_equals_expanded_form() {
    let rt = run(
        "compound",
        vec![
            let_stmt("x", num(10.0)),
            Statement::Expression(Value::Assign {
                identifier: "x".to_string(),
                op: AssignOperation::Sub,
                value: Box::new(num(4.0)),
            }),
            let_stmt("y", num(10.0)),
            Statement::Expression(Value::Assign {
                identifier: "y".to_string(),
                op: AssignOperation::Neutral,
                value: Box::new(binop(ident("y"), Operation::Sub, num(4.0))),
            }),
        ],
    );
    assert_eq!(number(&rt, "x"), 6.0);
    assert_eq!(number(&rt, "y"), 6.0);
    assert_eq!(number(&rt, "x"), number(&rt, "y"));
}

#[test]
fn comparisons_follow_ieee_rules() {
    let rt = run(
        "cmp",
        vec![
            let_stmt("lt", binop(num(2.0), Operation::Lt, num(3.0))),
            let_stmt("gte", binop(num(3.0), Operation::Gte, num(3.0))),
            // A NaN produced by zero over zero compares under nothing.
            let_stmt("nan", binop(num(0.0), Operation::Div, num(0.0))),
            let_stmt("nlt", binop(ident("nan"), Operation::Lt, num(1.0))),
            let_stmt("ngte", binop(ident("nan"), Operation::Gte, ident("nan"))),
            // The two zeros are equal.
            let_stmt("zeros", binop(num(-0.0), Operation::Eq, num(0.0))),
        ],
    );
    assert!(boolean(&rt, "lt"));
    assert!(boolean(&rt, "gte"));
    assert!(number(&rt, "nan").is_nan());
    assert!(!boolean(&rt, "nlt"));
    assert!(!boolean(&rt, "ngte"));
    assert!(boolean(&rt, "zeros"));
}

#[test]
fn equality_is_structural() {
    let rt = run(
        "eq",
        vec![
            let_stmt("n", binop(num(1.0), Operation::Eq, num(1.0))),
            let_stmt("ne2", binop(num(1.0), Operation::Ne, num(1.0))),
            let_stmt(
                "s",
                binop(
                    Value::String("a".to_string()),
                    Operation::Eq,
                    Value::String("a".to_string()),
                ),
            ),
            // Array literals build container instances, and two class values
            // compare by reference identity: never equal.
            let_stmt(
                "arr",
                binop(
                    Value::Array(vec![num(1.0), num(2.0)]),
                    Operation::Eq,
                    Value::Array(vec![num(1.0), num(2.0)]),
                ),
            ),
            // A NaN equals nothing, not even itself.
            let_stmt("nan", binop(num(0.0), Operation::Div, num(0.0))),
            let_stmt("nn", binop(ident("nan"), Operation::Eq, ident("nan"))),
            // Cross-variant compares are false.
            let_stmt("x", binop(num(1.0), Operation::Eq, Value::String("1".to_string()))),
        ],
    );
    assert!(boolean(&rt, "n"));
    assert!(!boolean(&rt, "ne2"));
    assert!(boolean(&rt, "s"));
    assert!(!boolean(&rt, "arr"));
    assert!(!boolean(&rt, "nn"));
    assert!(!boolean(&rt, "x"));
}

#[test]
fn logical_operators_evaluate_both_sides() {
    let rt = run(
        "logic",
        vec![
            let_stmt("t", Value::Boolean(true)),
            let_stmt("f", Value::Boolean(false)),
            let_stmt("and1", binop(ident("t"), Operation::And, ident("f"))),
            let_stmt("or1", binop(ident("f"), Operation::Or, ident("t"))),
            // Numbers coerce: zero is false, anything else true.
            let_stmt("and2", binop(num(1.0), Operation::And, num(0.0))),
            let_stmt("or2", binop(num(0.0), Operation::Or, num(2.0))),
        ],
    );
    assert!(!boolean(&rt, "and1"));
    assert!(boolean(&rt, "or1"));
    assert!(!boolean(&rt, "and2"));
    assert!(boolean(&rt, "or2"));
}

#[test]
fn type_mismatch_coercions() {
    let rt = run(
        "mismatch",
        vec![
            // Arithmetic on a non-number produces the number zero.
            let_stmt("a", binop(Value::String("x".to_string()), Operation::Add, num(1.0))),
            // Comparison on a non-number produces false.
            let_stmt("c", binop(Value::String("x".to_string()), Operation::Lt, num(1.0))),
            // A missing identifier reads as a boxed null, which is falsy.
            let_stmt("m", binop(ident("missing"), Operation::Or, ident("missing"))),
        ],
    );
    assert_eq!(number(&rt, "a"), 0.0);
    assert!(!boolean(&rt, "c"));
    assert!(!boolean(&rt, "m"));
}

#[test]
fn while_loop_runs_to_its_condition() {
    let rt = run(
        "while",
        vec![
            let_stmt("w", num(0.0)),
            Statement::Loop(typescript_jit::ast::Loop::While {
                cond: binop(ident("w"), Operation::Lt, num(4.0)),
                block: vec![Statement::Expression(Value::Assign {
                    identifier: "w".to_string(),
                    op: AssignOperation::Neutral,
                    value: Box::new(binop(ident("w"), Operation::Add, num(1.0))),
                })],
            }),
        ],
    );
    assert_eq!(number(&rt, "w"), 4.0);
}

#[test]
fn booleans_and_null_round_trip() {
    let rt = run(
        "bools",
        vec![
            let_stmt("t", Value::Boolean(true)),
            let_stmt("f", Value::Boolean(false)),
            let_stmt("n", Value::Null),
            let_stmt("u", Value::Undefined),
            let_stmt("nt", binop(ident("n"), Operation::Eq, ident("u"))),
        ],
    );
    assert!(boolean(&rt, "t"));
    assert!(!boolean(&rt, "f"));
    // Null equals null, and undefined lowers to null as well.
    assert!(boolean(&rt, "nt"));
}
