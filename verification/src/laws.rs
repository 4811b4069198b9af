//! The library's cross-cutting guarantees, stated and proved once.
//!
//! Two more guarantees live next to the code they speak about: that every
//! emitted basic block of a verified module carries exactly one terminator is
//! [`crate::ir::lemma_verified_blocks_have_one_terminator`], and that every
//! module the builder finishes passes the verifier is the contract of
//! [`crate::builder::Builder::build`]. That running a module mutates only its
//! machine is the contract of [`crate::module::Module::run`].

use vstd::prelude::*;

use crate::ir::Callback;
use crate::machine::{
    arith_bits, is_arith_cb, key_name, lookup_spec, set_spec, truthy, Cell, Content,
};

verus! {

/// Assigning a name and then reading it back within the same namespace hands
/// back exactly the value that was assigned.
pub proof fn law_assign_then_read(vars: Seq<(String, usize)>, name: String, id: usize)
    ensures
        lookup_spec(set_spec(vars, name, id), name@) == Some(id),
{
    crate::machine::lemma_set_then_lookup(vars, name, id);
}

/// Assigning one name never disturbs any other name's binding.
pub proof fn law_assign_preserves_others(
    vars: Seq<(String, usize)>,
    name: String,
    id: usize,
    other: Seq<char>,
)
    requires
        other != name@,
    ensures
        lookup_spec(set_spec(vars, name, id), other) == lookup_spec(vars, other),
{
    crate::machine::lemma_set_preserves_others(vars, name, id, other);
}

/// Boxing a literal, storing it under a name, and reading the name back
/// yields a cell holding exactly the literal: for any evaluated literal
/// content, `let a = e; read(a)` equals `eval(e)`.
pub proof fn law_literal_assign_then_read(
    heap: Seq<Cell>,
    vars: Seq<(String, usize)>,
    name: String,
    id: usize,
    lit: Content,
)
    requires
        id as int == heap.len(),
    ensures
        ({
            let heap2 = heap.push(Cell { rc: 1, content: lit });
            let vars2 = set_spec(vars, name, id);
            lookup_spec(vars2, name@) == Some(id) && heap2[id as int].content == lit
        }),
{
    crate::machine::lemma_set_then_lookup(vars, name, id);
}

/// The two key forms the namespace accepts agree: a plain string key and an
/// array key whose first element spells the same characters resolve to the
/// same name, so both read and write the same binding.
pub proof fn law_key_forms_agree(heap: Seq<Cell>, skey: int, akey: int)
    requires
        0 <= skey < heap.len(),
        0 <= akey < heap.len(),
        heap[skey].content is Str,
        heap[akey].content matches Content::Arr(els) && ({
            &&& els@.len() > 0
            &&& els@[0] < heap.len()
            &&& (heap[els@[0] as int].content matches Content::Str(s) && s@ == heap[skey].content->Str_0@)
        }),
    ensures
        key_name(heap, akey) == key_name(heap, skey),
{
}

/// The number an arithmetic operator callback stores after the namespace is
/// read under the given key cell: the old binding's payload combined with
/// the operand, a number demanded on both sides and zero produced otherwise,
/// and a missing or unresolvable binding reading as null.
pub open spec fn stored_via_key(
    heap: Seq<Cell>,
    vars: Seq<(String, usize)>,
    key: int,
    cb: Callback,
    vbits: u64,
) -> Content {
    let read = match key_name(heap, key) {
        Some(n) => match lookup_spec(vars, n) {
            Some(xi) => if 0 <= xi < heap.len() {
                heap[xi as int].content
            } else {
                Content::Null
            },
            None => Content::Null,
        },
        None => Content::Null,
    };
    match read {
        Content::Num(a) => Content::Num(arith_bits(cb, a, vbits)),
        _ => Content::Num(crate::num::ZERO_BITS),
    }
}

/// Compound-assignment equivalence: for every arithmetic operator, every
/// namespace and every operand, `x op= v` stores the same number that
/// `x = x op v` stores. The compound lowering reads the old value under the
/// plain string key it built; the expanded form's identifier read goes
/// through a one-element array key; both resolve to the same name, so both
/// reads hit the same binding and the operator combines the same numbers.
pub proof fn law_compound_assignment(
    heap: Seq<Cell>,
    vars: Seq<(String, usize)>,
    skey: int,
    akey: int,
    cb: Callback,
    vbits: u64,
)
    requires
        is_arith_cb(cb),
        0 <= skey < heap.len(),
        0 <= akey < heap.len(),
        heap[skey].content is Str,
        heap[akey].content matches Content::Arr(els) && ({
            &&& els@.len() > 0
            &&& els@[0] < heap.len()
            &&& (heap[els@[0] as int].content matches Content::Str(s) && s@ == heap[skey].content->Str_0@)
        }),
    ensures
        stored_via_key(heap, vars, skey, cb, vbits) == stored_via_key(heap, vars, akey, cb, vbits),
{
    law_key_forms_agree(heap, skey, akey);
}

/// Coercion to a boolean is an involution on boolean space: coercing a value,
/// boxing the bit, and coercing again changes nothing.
pub proof fn law_to_bool_involution(c: Content)
    ensures
        truthy(Content::Bool(truthy(c))) == truthy(c),
{
}

} // verus!

