//! The execution engine: runs a verified module's entry function against a
//! machine.
//!
//! Virtual registers hold what the emitted code's SSA values would hold at
//! run time: a pointer to a boxed value, a machine integer, or a branch bit.
//! Every access is bounds-checked; anything that native code would crash on
//! ends the run with a fault outcome instead. Fuel bounds the number of
//! basic-block executions and call depth, so a runaway guest loop ends in an
//! out-of-fuel outcome rather than wedging the host.

use vstd::prelude::*;

use crate::ir::{module_wf, Callback, Inst, IrModule, Operand, Term};
use crate::machine::{Machine, ADDR_ARRAY_ITERATOR, ADDR_ARRAY_ITERATOR_NEXT, ADDR_USER_BASE};

verus! {

/// What a virtual register holds.
#[derive(Debug, Clone, Copy)]
pub enum RegVal {
    /// A strong reference to a heap cell.
    Ptr(usize),
    /// A machine integer: a function address, a coercion byte, or a number
    /// literal on its way into the boxing callback.
    Int(u64),
    /// An interned-string constant on its way into the boxing callback.
    StrId(usize),
    /// The namespace pointer.
    Ctx,
    /// A branch bit.
    Bit(bool),
}

/// How a run ended.
#[derive(Debug, Clone, Copy, PartialEq, Eq, Structural)]
pub enum Outcome {
    /// The function returned; a value-returning function hands back the cell
    /// it returned.
    Done,
    /// The fuel ran out before the function returned.
    OutOfFuel,
    /// The code did something native execution could not survive.
    Fault,
}

fn eval_operand(regs: &Vec<Option<RegVal>>, o: &Operand) -> (r: Option<RegVal>) {
    match o {
        Operand::Reg(i) => {
            if *i < regs.len() {
                match regs[*i] {
                    Some(v) => Some(v),
                    None => None,
                }
            } else {
                None
            }
        },
        Operand::NumConst(b) => Some(RegVal::Int(*b)),
        Operand::StrConst(s) => Some(RegVal::StrId(*s)),
        Operand::Namespace => Some(RegVal::Ctx),
    }
}

/// Read an operand as a heap pointer in range.
fn as_ptr(v: Option<RegVal>, heap_len: usize) -> (r: Option<usize>)
    ensures
        r matches Some(id) ==> id < heap_len,
{
    match v {
        Some(RegVal::Ptr(id)) => {
            if id < heap_len {
                Some(id)
            } else {
                None
            }
        },
        _ => None,
    }
}

/// The release fuel that covers any cascade on a downward-pointing heap.
fn cascade_fuel(mach: &Machine) -> (r: u64) {
    let len = mach.heap.len() as u64;
    if len < u64::MAX {
        len + 1
    } else {
        len
    }
}

/// Run one callback over evaluated arguments, returning what the destination
/// register receives.
fn dispatch_callback(
    m: &IrModule,
    mach: &mut Machine,
    cb: Callback,
    args: &Vec<Option<RegVal>>,
) -> (r: Option<RegVal>)
    requires
        old(mach).inv(),
    ensures
        final(mach).inv(),
{
    let hl = mach.heap.len();
    match cb {
        Callback::GlobalNull => Some(RegVal::Ptr(mach.rt_global_null())),
        Callback::GlobalGet => {
            if args.len() != 2 {
                return None;
            }
            match (args[0], as_ptr(args[1], hl)) {
                (Some(RegVal::Ctx), Some(k)) => Some(RegVal::Ptr(mach.rt_global_get(k))),
                _ => None,
            }
        },
        Callback::GlobalSet => {
            if args.len() != 3 {
                return None;
            }
            let fuel = cascade_fuel(mach);
            match (args[0], as_ptr(args[1], hl), as_ptr(args[2], hl)) {
                (Some(RegVal::Ctx), Some(k), Some(v)) => {
                    mach.rt_global_set(k, v, fuel);
                    Some(RegVal::Int(0))
                },
                _ => None,
            }
        },
        Callback::GetAttr => {
            if args.len() != 2 {
                return None;
            }
            match (as_ptr(args[0], hl), as_ptr(args[1], hl)) {
                (Some(o), Some(n)) => Some(RegVal::Ptr(mach.rt_get_attr(o, n))),
                _ => None,
            }
        },
        Callback::ValueDelete => {
            if args.len() != 1 {
                return None;
            }
            let fuel = cascade_fuel(mach);
            match as_ptr(args[0], hl) {
                Some(v) => {
                    mach.release(v, fuel);
                    Some(RegVal::Int(0))
                },
                None => None,
            }
        },
        Callback::StringNew => Some(RegVal::Ptr(mach.rt_string_new())),
        Callback::StringCopy => {
            if args.len() != 1 {
                return None;
            }
            match as_ptr(args[0], hl) {
                Some(v) => Some(RegVal::Ptr(mach.rt_string_copy(v))),
                None => None,
            }
        },
        Callback::Add | Callback::Sub | Callback::Mul | Callback::Div | Callback::Mod => {
            if args.len() != 2 {
                return None;
            }
            let fuel = cascade_fuel(mach);
            match (as_ptr(args[0], hl), as_ptr(args[1], hl)) {
                (Some(l), Some(r)) => Some(RegVal::Ptr(mach.rt_arith(cb, l, r, fuel))),
                _ => None,
            }
        },
        Callback::Gt | Callback::Gte | Callback::Lt | Callback::Lte => {
            if args.len() != 2 {
                return None;
            }
            let fuel = cascade_fuel(mach);
            match (as_ptr(args[0], hl), as_ptr(args[1], hl)) {
                (Some(l), Some(r)) => Some(RegVal::Ptr(mach.rt_cmp(cb, l, r, fuel))),
                _ => None,
            }
        },
        Callback::Eq | Callback::Neq => {
            if args.len() != 2 {
                return None;
            }
            let neq = match cb {
                Callback::Neq => true,
                _ => false,
            };
            match (as_ptr(args[0], hl), as_ptr(args[1], hl)) {
                (Some(l), Some(r)) => Some(RegVal::Ptr(mach.rt_eq(neq, l, r))),
                _ => None,
            }
        },
        Callback::And | Callback::Or => {
            if args.len() != 2 {
                return None;
            }
            let and = match cb {
                Callback::And => true,
                _ => false,
            };
            let fuel = cascade_fuel(mach);
            match (as_ptr(args[0], hl), as_ptr(args[1], hl)) {
                (Some(l), Some(r)) => Some(RegVal::Ptr(mach.rt_logic(and, l, r, fuel))),
                _ => None,
            }
        },
        Callback::GetFuncAddr => {
            if args.len() != 1 {
                return None;
            }
            match as_ptr(args[0], hl) {
                Some(v) => Some(RegVal::Int(mach.rt_get_func_addr(v))),
                None => None,
            }
        },
        Callback::ToBool => {
            if args.len() != 1 {
                return None;
            }
            match as_ptr(args[0], hl) {
                Some(v) => Some(
                    RegVal::Int(
                        if mach.rt_to_bool(v) {
                            1
                        } else {
                            0
                        },
                    ),
                ),
                None => None,
            }
        },
        Callback::StringFrom => {
            if args.len() != 1 {
                return None;
            }
            match args[0] {
                Some(RegVal::StrId(i)) => {
                    if i < m.strings.len() {
                        let s = String::clone(&m.strings[i]);
                        Some(RegVal::Ptr(mach.rt_string_from(s.as_str())))
                    } else {
                        None
                    }
                },
                _ => None,
            }
        },
        Callback::NumberNew => {
            if args.len() != 1 {
                return None;
            }
            match args[0] {
                Some(RegVal::Int(b)) => Some(RegVal::Ptr(mach.rt_number_new(b))),
                _ => None,
            }
        },
        Callback::BoolNew => {
            if args.len() != 1 {
                return None;
            }
            match args[0] {
                Some(RegVal::Int(b)) => Some(RegVal::Ptr(mach.rt_bool_new(b != 0))),
                _ => None,
            }
        },
        Callback::ArrayNew => Some(RegVal::Ptr(mach.rt_array_new())),
        Callback::ArrayPush => {
            if args.len() != 2 {
                return None;
            }
            match (as_ptr(args[0], hl), as_ptr(args[1], hl)) {
                (Some(a), Some(v)) => {
                    mach.rt_array_push(a, v);
                    Some(RegVal::Int(0))
                },
                _ => None,
            }
        },
        Callback::ArrayIterator => {
            if args.len() != 1 {
                return None;
            }
            match as_ptr(args[0], hl) {
                Some(v) => Some(RegVal::Ptr(mach.rt_array_iterator(v))),
                None => None,
            }
        },
        Callback::ArrayIteratorNext => {
            if args.len() != 1 {
                return None;
            }
            match as_ptr(args[0], hl) {
                Some(v) => Some(RegVal::Ptr(mach.rt_array_iterator_next(v))),
                None => None,
            }
        },
        Callback::Print => {
            if args.len() != 1 {
                return None;
            }
            match as_ptr(args[0], hl) {
                Some(v) => Some(RegVal::Ptr(mach.rt_print(v))),
                None => None,
            }
        },
    }
}

/// Execute function `func` of the module. `Done` pairs with the returned
/// cell through `out`: a value-returning function leaves it there.
pub fn run_function(
    m: &IrModule,
    mach: &mut Machine,
    func: usize,
    fuel: u64,
    out: &mut Option<usize>,
) -> (o: Outcome)
    requires
        old(mach).inv(),
        module_wf(*m),
        func < m.funcs@.len(),
    ensures
        final(mach).inv(),
        (*final(out)) matches Some(id) ==> id < final(mach).heap@.len(),
        o == Outcome::Done && m.funcs@[func as int].returns_value ==> (*final(out)) is Some,
        fuel == 0 ==> o == Outcome::OutOfFuel,
    decreases fuel,
{
    *out = None;
    if fuel == 0 {
        return Outcome::OutOfFuel;
    }
    let n_regs = m.funcs[func].n_regs;
    let mut regs: Vec<Option<RegVal>> = Vec::new();
    let mut j: usize = 0;
    while j < n_regs
        invariant
            j <= n_regs,
            regs@.len() == j,
        decreases n_regs - j,
    {
        regs.push(None);
        j += 1;
    }
    let mut blk: usize = 0;
    let mut steps: u64 = fuel;
    loop
        invariant
            mach.inv(),
            module_wf(*m),
            func < m.funcs@.len(),
            blk < m.funcs@[func as int].blocks@.len(),
            steps <= fuel,
            fuel > 0,
            *out is None,
        decreases steps,
    {
        if steps == 0 {
            return Outcome::OutOfFuel;
        }
        steps = steps - 1;
        proof {
            assert(crate::ir::func_wf(
                m.funcs@[func as int],
                m.strings@.len() as int,
                m.funcs@.len() as int,
            ));
        }
        let n_insts = m.funcs[func].blocks[blk].insts.len();
        let mut i: usize = 0;
        while i < n_insts
            invariant
                mach.inv(),
                module_wf(*m),
                func < m.funcs@.len(),
                blk < m.funcs@[func as int].blocks@.len(),
                n_insts == m.funcs@[func as int].blocks@[blk as int].insts@.len(),
                i <= n_insts,
                steps < fuel,
                *out is None,
            decreases n_insts - i,
        {
            let dest;
            let written;
            match &m.funcs[func].blocks[blk].insts[i] {
                Inst::CallC { dest: d, callee, args } => {
                    let mut vals: Vec<Option<RegVal>> = Vec::new();
                    let na = args.len();
                    let mut k: usize = 0;
                    while k < na
                        invariant
                            k <= na,
                            na == args@.len(),
                            vals@.len() == k,
                        decreases na - k,
                    {
                        vals.push(eval_operand(&regs, &args[k]));
                        k += 1;
                    }
                    dest = *d;
                    written = dispatch_callback(m, mach, *callee, &vals);
                },
                Inst::CallU { dest: d, func: callee, args: _ } => {
                    dest = *d;
                    if *callee < m.funcs.len() {
                        let mut sub: Option<usize> = None;
                        let oc = run_function(m, mach, *callee, steps, &mut sub);
                        match oc {
                            Outcome::Done => {
                                written = match sub {
                                    Some(id) => Some(RegVal::Ptr(id)),
                                    None => Some(RegVal::Int(0)),
                                };
                            },
                            Outcome::OutOfFuel => {
                                return Outcome::OutOfFuel;
                            },
                            Outcome::Fault => {
                                return Outcome::Fault;
                            },
                        }
                    } else {
                        written = None;
                    }
                },
                Inst::CallInd { dest: d, addr, args } => {
                    dest = *d;
                    let av = eval_operand(&regs, addr);
                    let first = if args.len() >= 1 {
                        as_ptr(eval_operand(&regs, &args[0]), mach.heap.len())
                    } else {
                        None
                    };
                    match av {
                        Some(RegVal::Int(a)) => {
                            if a == ADDR_ARRAY_ITERATOR {
                                match first {
                                    Some(v) => {
                                        written = Some(RegVal::Ptr(mach.rt_array_iterator(v)));
                                    },
                                    None => {
                                        written = None;
                                    },
                                }
                            } else if a == ADDR_ARRAY_ITERATOR_NEXT {
                                match first {
                                    Some(v) => {
                                        written = Some(
                                            RegVal::Ptr(mach.rt_array_iterator_next(v)),
                                        );
                                    },
                                    None => {
                                        written = None;
                                    },
                                }
                            } else if a >= ADDR_USER_BASE && (a - ADDR_USER_BASE)
                                < m.funcs.len() as u64 {
                                let callee = (a - ADDR_USER_BASE) as usize;
                                let mut sub: Option<usize> = None;
                                let oc = run_function(m, mach, callee, steps, &mut sub);
                                match oc {
                                    Outcome::Done => {
                                        written = match sub {
                                            Some(id) => Some(RegVal::Ptr(id)),
                                            None => Some(RegVal::Int(0)),
                                        };
                                    },
                                    Outcome::OutOfFuel => {
                                        return Outcome::OutOfFuel;
                                    },
                                    Outcome::Fault => {
                                        return Outcome::Fault;
                                    },
                                }
                            } else {
                                written = None;
                            }
                        },
                        _ => {
                            written = None;
                        },
                    }
                },
                Inst::IcmpEqOne { dest: d, src } => {
                    dest = *d;
                    match eval_operand(&regs, src) {
                        Some(RegVal::Int(b)) => {
                            written = Some(RegVal::Bit(b == 1));
                        },
                        _ => {
                            written = None;
                        },
                    }
                },
            }
            match written {
                Some(v) => {
                    if dest < regs.len() {
                        regs[dest] = Some(v);
                    } else {
                        return Outcome::Fault;
                    }
                },
                None => {
                    return Outcome::Fault;
                },
            }
            i += 1;
        }
        proof {
            assert(crate::ir::block_wf(
                m.funcs@[func as int].blocks@[blk as int],
                m.funcs@[func as int].n_regs as int,
                m.strings@.len() as int,
                m.funcs@.len() as int,
                m.funcs@[func as int].blocks@.len() as int,
                m.funcs@[func as int].returns_value,
            ));
            assert(crate::ir::block_terminated(m.funcs@[func as int].blocks@[blk as int]));
        }
        match &m.funcs[func].blocks[blk].term {
            Option::Some(Term::Br(t)) => {
                blk = *t;
            },
            Option::Some(Term::CondBr { cond, then_to, else_to }) => {
                match eval_operand(&regs, cond) {
                    Some(RegVal::Bit(b)) => {
                        if b {
                            blk = *then_to;
                        } else {
                            blk = *else_to;
                        }
                    },
                    _ => {
                        return Outcome::Fault;
                    },
                }
            },
            Option::Some(Term::Ret(op)) => {
                match as_ptr(eval_operand(&regs, op), mach.heap.len()) {
                    Some(id) => {
                        *out = Some(id);
                        return Outcome::Done;
                    },
                    None => {
                        return Outcome::Fault;
                    },
                }
            },
            Option::Some(Term::RetVoid) => {
                return Outcome::Done;
            },
            Option::None => {
                return Outcome::Fault;
            },
        }
    }
}

} // verus!
