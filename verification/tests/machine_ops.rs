//! The runtime callbacks driven directly: container attributes, the
//! iteration protocol, reference counting, and the coercions.

use typescript_jit::ast::{AssignOperation, Operation, TsType};
use typescript_jit::machine::{Content, Machine};

#[test]
fn array_length_and_index_attributes() {
    let mut m = Machine::new();
    let arr = m.rt_array_new();
    let one = m.rt_number_new(1.5f64.to_bits());
    m.rt_array_push(arr, one);
    let two = m.rt_number_new(2.5f64.to_bits());
    m.rt_array_push(arr, two);

    let len_name = m.rt_string_from("length");
    let len = m.rt_get_attr(arr, len_name);
    match &m.heap[len].content {
        Content::Num(b) => assert_eq!(*b, 2.0f64.to_bits()),
        other => panic!("expected a number, got {:?}", other),
    }

    let idx = m.rt_number_new(1.0f64.to_bits());
    let elem = m.rt_get_attr(arr, idx);
    match &m.heap[elem].content {
        Content::Num(b) => assert_eq!(*b, 2.5f64.to_bits()),
        other => panic!("expected a number, got {:?}", other),
    }

    // An index past the end reads as a fresh null.
    let far = m.rt_number_new(9.0f64.to_bits());
    let nothing = m.rt_get_attr(arr, far);
    assert!(matches!(m.heap[nothing].content, Content::Null));
    assert!(!m.fault);
}

#[test]
fn iteration_protocol_walks_the_array() {
    let mut m = Machine::new();
    let arr = m.rt_array_new();
    for v in [10.0f64, 20.0, 30.0] {
        let n = m.rt_number_new(v.to_bits());
        m.rt_array_push(arr, n);
    }
    let it = m.rt_array_iterator(arr);
    let mut seen = Vec::new();
    loop {
        let step = m.rt_array_iterator_next(it);
        let done_name = m.rt_string_from("done");
        let done = m.rt_get_attr(step, done_name);
        if m.rt_to_bool(done) {
            break;
        }
        let value_name = m.rt_string_from("value");
        let value = m.rt_get_attr(step, value_name);
        match &m.heap[value].content {
            Content::Num(b) => seen.push(f64::from_bits(*b)),
            other => panic!("expected a number, got {:?}", other),
        }
    }
    assert_eq!(seen, vec![10.0, 20.0, 30.0]);
    assert!(!m.fault);
}

#[test]
fn reference_counts_balance() {
    let mut m = Machine::new();
    let n = m.rt_number_new(7.0f64.to_bits());
    assert_eq!(m.heap[n].rc, 1);
    m.retain(n);
    assert_eq!(m.heap[n].rc, 2);
    m.release(n, 8);
    assert_eq!(m.heap[n].rc, 1);
    m.release(n, 8);
    assert_eq!(m.heap[n].rc, 0);
    assert!(!m.fault);
}

#[test]
fn releasing_an_array_releases_its_elements() {
    let mut m = Machine::new();
    let arr = m.rt_array_new();
    let a = m.rt_number_new(1.0f64.to_bits());
    m.rt_array_push(arr, a);
    let b = m.rt_number_new(2.0f64.to_bits());
    m.rt_array_push(arr, b);
    m.release(arr, 16);
    assert_eq!(m.heap[a].rc, 0);
    assert_eq!(m.heap[b].rc, 0);
    assert!(!m.fault);
}

#[test]
fn global_namespace_set_then_get() {
    let mut m = Machine::new();
    let key = m.rt_string_from("answer");
    let val = m.rt_number_new(42.0f64.to_bits());
    m.rt_global_set(key, val, 8);
    let got = m.rt_global_get(key);
    // The read hands back the very cell that was stored, retained once more.
    assert_eq!(got, val);
    assert_eq!(m.heap[val].rc, 2);
    // A key the namespace does not know reads as a fresh boxed null.
    let other = m.rt_string_from("unknown");
    let nothing = m.rt_global_get(other);
    assert!(matches!(m.heap[nothing].content, Content::Null));
    assert!(!m.fault);
}

#[test]
fn to_bool_coercion_table() {
    let mut m = Machine::new();
    let zero = m.rt_number_new(0.0f64.to_bits());
    let negzero = m.rt_number_new((-0.0f64).to_bits());
    let nan = m.rt_number_new(f64::NAN.to_bits());
    let one = m.rt_number_new(1.0f64.to_bits());
    let t = m.rt_bool_new(true);
    let f = m.rt_bool_new(false);
    let nul = m.rt_global_null();
    let s = m.rt_string_from("");
    assert!(!m.rt_to_bool(zero));
    assert!(!m.rt_to_bool(negzero));
    // The coercion compares against zero, so a NaN is truthy.
    assert!(m.rt_to_bool(nan));
    assert!(m.rt_to_bool(one));
    assert!(m.rt_to_bool(t));
    assert!(!m.rt_to_bool(f));
    assert!(!m.rt_to_bool(nul));
    assert!(m.rt_to_bool(s));
    // Coercion is an involution on boolean space.
    let boxed = m.rt_bool_new(m.rt_to_bool(nan));
    assert_eq!(m.rt_to_bool(boxed), m.rt_to_bool(nan));
}

#[test]
fn method_addresses_come_from_bound_methods() {
    let mut m = Machine::new();
    let arr = m.rt_array_new();
    let iter_name = m.rt_string_from("@iterator");
    let method = m.rt_get_attr(arr, iter_name);
    assert!(matches!(m.heap[method].content, Content::Method { .. }));
    let addr = m.rt_get_func_addr(method);
    assert_ne!(addr, 0);
    let num = m.rt_number_new(1.0f64.to_bits());
    assert_eq!(m.rt_get_func_addr(num), 0);
}

#[test]
fn operator_tokens_parse() {
    assert_eq!(Operation::from("+"), Operation::Add);
    assert_eq!(Operation::from("%"), Operation::Mod);
    assert_eq!(Operation::from("==="), Operation::Eq);
    assert_eq!(Operation::from("!=="), Operation::Ne);
    assert_eq!(Operation::from("<="), Operation::Lte);
    assert_eq!(Operation::from("mystery"), Operation::Add);
    assert_eq!(AssignOperation::from("+="), AssignOperation::Add);
    assert_eq!(AssignOperation::from("="), AssignOperation::Neutral);
    assert_eq!(Operation::of_assign(&AssignOperation::Mul), Operation::Mul);
    assert!(matches!(TsType::from("number"), TsType::Number));
    assert!(matches!(TsType::from("boolean"), TsType::Boolean));
    match TsType::from("Widget") {
        TsType::Custom(name) => assert_eq!(name, "Widget"),
        other => panic!("expected a custom type, got {:?}", other),
    }
}

#[test]
fn container_set_replaces_in_range_only() {
    let mut m = Machine::new();
    let arr = m.rt_array_new();
    let a = m.rt_number_new(1.0f64.to_bits());
    m.rt_array_push(arr, a);
    let b = m.rt_number_new(2.0f64.to_bits());
    m.rt_array_push(arr, b);

    // Replace index zero: the displaced element is released.
    let key = m.rt_number_new(0.0f64.to_bits());
    let repl = m.rt_number_new(9.0f64.to_bits());
    m.rt_class_set(arr, key, repl, 16);
    assert_eq!(m.heap[a].rc, 0);
    let idx0 = m.rt_number_new(0.0f64.to_bits());
    let got = m.rt_get_attr(arr, idx0);
    match &m.heap[got].content {
        Content::Num(bits) => assert_eq!(*bits, 9.0f64.to_bits()),
        other => panic!("expected a number, got {:?}", other),
    }

    // An out-of-range store is a no-op.
    let far = m.rt_number_new(5.0f64.to_bits());
    let lost = m.rt_number_new(7.0f64.to_bits());
    m.rt_class_set(arr, far, lost, 16);
    let probe = m.rt_number_new(1.0f64.to_bits());
    let still = m.rt_get_attr(arr, probe);
    match &m.heap[still].content {
        Content::Num(bits) => assert_eq!(*bits, 2.0f64.to_bits()),
        other => panic!("expected a number, got {:?}", other),
    }
    assert!(!m.fault);
}

#[test]
fn global_set_consumes_the_value_even_without_a_name() {
    let mut m = Machine::new();
    // A numeric key resolves to no name: the namespace stays empty, and the
    // handed-over reference is still consumed — one release for every
    // reference a callback takes over.
    let key = m.rt_number_new(3.0f64.to_bits());
    let val = m.rt_number_new(8.0f64.to_bits());
    m.rt_global_set(key, val, 8);
    assert_eq!(m.heap[val].rc, 0);
    assert_eq!(m.vars.len(), 0);
    assert!(!m.fault);
}
