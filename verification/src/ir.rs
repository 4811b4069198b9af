//! The intermediate representation emitted by the builder.
//!
//! A module holds interned strings and a list of functions; each function is
//! a list of basic blocks; each block is a list of instructions followed by
//! exactly one terminator. Instructions call runtime callbacks, user
//! functions, or an address computed at run time, and write their result to a
//! virtual register of the enclosing function.

use vstd::prelude::*;

verus! {

/// The fixed table of runtime callbacks. Emitted code reaches the runtime
/// only through these.
#[derive(Debug, Clone, Copy, PartialEq, Eq, Structural)]
pub enum Callback {
    GlobalNull,
    GlobalGet,
    GlobalSet,
    GetAttr,
    ValueDelete,
    StringNew,
    StringCopy,
    Add,
    Sub,
    Mul,
    Div,
    Mod,
    Gt,
    Gte,
    Lt,
    Lte,
    Eq,
    Neq,
    And,
    Or,
    GetFuncAddr,
    ToBool,
    StringFrom,
    NumberNew,
    BoolNew,
    ArrayNew,
    ArrayPush,
    ArrayIterator,
    ArrayIteratorNext,
    Print,
}

impl Callback {
    /// How many arguments the callback takes.
    pub open spec fn spec_arity(self) -> int {
        match self {
            Callback::GlobalNull => 0,
            Callback::GlobalGet => 2,
            Callback::GlobalSet => 3,
            Callback::GetAttr => 2,
            Callback::ValueDelete => 1,
            Callback::StringNew => 0,
            Callback::StringCopy => 1,
            Callback::Add => 2,
            Callback::Sub => 2,
            Callback::Mul => 2,
            Callback::Div => 2,
            Callback::Mod => 2,
            Callback::Gt => 2,
            Callback::Gte => 2,
            Callback::Lt => 2,
            Callback::Lte => 2,
            Callback::Eq => 2,
            Callback::Neq => 2,
            Callback::And => 2,
            Callback::Or => 2,
            Callback::GetFuncAddr => 1,
            Callback::ToBool => 1,
            Callback::StringFrom => 1,
            Callback::NumberNew => 1,
            Callback::BoolNew => 1,
            Callback::ArrayNew => 0,
            Callback::ArrayPush => 2,
            Callback::ArrayIterator => 1,
            Callback::ArrayIteratorNext => 1,
            Callback::Print => 1,
        }
    }

    pub fn arity(self) -> (r: usize)
        ensures
            r as int == self.spec_arity(),
    {
        match self {
            Callback::GlobalNull => 0,
            Callback::GlobalGet => 2,
            Callback::GlobalSet => 3,
            Callback::GetAttr => 2,
            Callback::ValueDelete => 1,
            Callback::StringNew => 0,
            Callback::StringCopy => 1,
            Callback::Add => 2,
            Callback::Sub => 2,
            Callback::Mul => 2,
            Callback::Div => 2,
            Callback::Mod => 2,
            Callback::Gt => 2,
            Callback::Gte => 2,
            Callback::Lt => 2,
            Callback::Lte => 2,
            Callback::Eq => 2,
            Callback::Neq => 2,
            Callback::And => 2,
            Callback::Or => 2,
            Callback::GetFuncAddr => 1,
            Callback::ToBool => 1,
            Callback::StringFrom => 1,
            Callback::NumberNew => 1,
            Callback::BoolNew => 1,
            Callback::ArrayNew => 0,
            Callback::ArrayPush => 2,
            Callback::ArrayIterator => 1,
            Callback::ArrayIteratorNext => 1,
            Callback::Print => 1,
        }
    }
}

/// An argument of an instruction.
#[derive(Debug, Clone, Copy, PartialEq, Eq, Structural)]
pub enum Operand {
    /// A virtual register of the enclosing function.
    Reg(usize),
    /// A number literal: an IEEE-754 binary64 bit pattern.
    NumConst(u64),
    /// An interned module string.
    StrConst(usize),
    /// The namespace pointer baked into the module.
    Namespace,
}

/// One instruction. Every instruction writes its result, if any, to the
/// register `dest` of the enclosing function.
#[derive(Debug)]
pub enum Inst {
    /// Call a runtime callback.
    CallC { dest: usize, callee: Callback, args: Vec<Operand> },
    /// Call a user-defined function of this module directly.
    CallU { dest: usize, func: usize, args: Vec<Operand> },
    /// Call through a function address computed at run time.
    CallInd { dest: usize, addr: Operand, args: Vec<Operand> },
    /// Compare a callback's byte result against one, yielding a branch bit.
    IcmpEqOne { dest: usize, src: Operand },
}

/// A block's single terminator.
#[derive(Debug, Clone, Copy, PartialEq, Eq, Structural)]
pub enum Term {
    /// Unconditional jump.
    Br(usize),
    /// Branch on a bit register.
    CondBr { cond: Operand, then_to: usize, else_to: usize },
    /// Return a value; only in functions that return one.
    Ret(Operand),
    /// Return nothing; only in the entry function.
    RetVoid,
}

/// A basic block: instructions in order, then exactly one terminator. While
/// a block is under construction its terminator is still absent.
#[derive(Debug)]
pub struct Block {
    pub insts: Vec<Inst>,
    pub term: Option<Term>,
}

/// One function of the module. Block 0 is its entry block.
#[derive(Debug)]
pub struct IrFunction {
    pub name: String,
    pub arity: usize,
    /// Whether the function returns a value; the module entry does not.
    pub returns_value: bool,
    /// Number of virtual registers the blocks write to.
    pub n_regs: usize,
    pub blocks: Vec<Block>,
}

/// A whole module: interned strings, functions, and the index of the entry
/// function.
#[derive(Debug)]
pub struct IrModule {
    pub name: String,
    pub strings: Vec<String>,
    pub funcs: Vec<IrFunction>,
    pub main: usize,
}

pub open spec fn operand_wf(o: Operand, n_regs: int, n_strings: int) -> bool {
    match o {
        Operand::Reg(r) => r < n_regs,
        Operand::NumConst(_) => true,
        Operand::StrConst(s) => s < n_strings,
        Operand::Namespace => true,
    }
}

pub open spec fn args_wf(args: Seq<Operand>, n_regs: int, n_strings: int) -> bool {
    forall|i: int| 0 <= i < args.len() ==> operand_wf(#[trigger] args[i], n_regs, n_strings)
}

pub open spec fn inst_wf(inst: Inst, n_regs: int, n_strings: int, n_funcs: int) -> bool {
    match inst {
        Inst::CallC { dest, callee, args } => {
            &&& dest < n_regs
            &&& args@.len() == callee.spec_arity()
            &&& args_wf(args@, n_regs, n_strings)
        },
        Inst::CallU { dest, func, args } => {
            &&& dest < n_regs
            &&& func < n_funcs
            &&& args_wf(args@, n_regs, n_strings)
        },
        Inst::CallInd { dest, addr, args } => {
            &&& dest < n_regs
            &&& operand_wf(addr, n_regs, n_strings)
            &&& args_wf(args@, n_regs, n_strings)
        },
        Inst::IcmpEqOne { dest, src } => {
            &&& dest < n_regs
            &&& operand_wf(src, n_regs, n_strings)
        },
    }
}

pub open spec fn term_wf(t: Term, n_regs: int, n_strings: int, n_blocks: int, returns_value: bool) -> bool {
    match t {
        Term::Br(b) => b < n_blocks,
        Term::CondBr { cond, then_to, else_to } => {
            &&& operand_wf(cond, n_regs, n_strings)
            &&& then_to < n_blocks
            &&& else_to < n_blocks
        },
        Term::Ret(op) => returns_value && operand_wf(op, n_regs, n_strings),
        Term::RetVoid => !returns_value,
    }
}

/// Structural well-formedness of a block, not counting termination.
pub open spec fn block_wf(
    b: Block,
    n_regs: int,
    n_strings: int,
    n_funcs: int,
    n_blocks: int,
    returns_value: bool,
) -> bool {
    &&& forall|i: int|
        0 <= i < b.insts@.len() ==> inst_wf(#[trigger] b.insts@[i], n_regs, n_strings, n_funcs)
    &&& match b.term {
        Some(t) => term_wf(t, n_regs, n_strings, n_blocks, returns_value),
        None => true,
    }
}

/// A block is complete when it holds exactly one terminator.
pub open spec fn block_terminated(b: Block) -> bool {
    b.term is Some
}

/// Structural well-formedness of a function, not counting termination.
pub open spec fn func_wf(f: IrFunction, n_strings: int, n_funcs: int) -> bool {
    &&& f.blocks@.len() > 0
    &&& forall|i: int|
        0 <= i < f.blocks@.len() ==> block_wf(
            #[trigger] f.blocks@[i],
            f.n_regs as int,
            n_strings,
            n_funcs,
            f.blocks@.len() as int,
            f.returns_value,
        )
}

/// Every block of the function carries its terminator.
pub open spec fn func_terminated(f: IrFunction) -> bool {
    forall|i: int| 0 <= i < f.blocks@.len() ==> block_terminated(#[trigger] f.blocks@[i])
}

/// What the module verifier checks: every function is structurally sound,
/// every basic block ends in exactly one terminator, every branch target and
/// register and interned string and callee is in range, every callback call
/// has the callback's arity, and the entry function takes no arguments and
/// returns nothing.
pub open spec fn module_wf(m: IrModule) -> bool {
    &&& m.main < m.funcs@.len()
    &&& m.funcs@[m.main as int].arity == 0
    &&& !m.funcs@[m.main as int].returns_value
    &&& forall|i: int|
        0 <= i < m.funcs@.len() ==> func_wf(#[trigger] m.funcs@[i], m.strings@.len() as int, m.funcs@.len() as int)
    &&& forall|i: int| 0 <= i < m.funcs@.len() ==> func_terminated(#[trigger] m.funcs@[i])
}

impl IrModule {
    /// The module verifier. It accepts exactly the well-formed modules.
    pub fn verify(&self) -> (r: bool)
        ensures
            r == module_wf(*self),
    {
        if !(self.main < self.funcs.len()) {
            return false;
        }
        if self.funcs[self.main].arity != 0 {
            return false;
        }
        if self.funcs[self.main].returns_value {
            return false;
        }
        let n_strings = self.strings.len();
        let n_funcs = self.funcs.len();
        let mut i: usize = 0;
        while i < self.funcs.len()
            invariant
                i <= self.funcs@.len(),
                n_strings == self.strings@.len(),
                n_funcs == self.funcs@.len(),
                forall|k: int|
                    0 <= k < i ==> func_wf(#[trigger] self.funcs@[k], n_strings as int, n_funcs as int),
                forall|k: int| 0 <= k < i ==> func_terminated(#[trigger] self.funcs@[k]),
            decreases self.funcs@.len() - i,
        {
            if !Self::verify_func(&self.funcs[i], n_strings, n_funcs) {
                return false;
            }
            i += 1;
        }
        true
    }

    fn verify_func(f: &IrFunction, n_strings: usize, n_funcs: usize) -> (r: bool)
        ensures
            r == (func_wf(*f, n_strings as int, n_funcs as int) && func_terminated(*f)),
    {
        if f.blocks.len() == 0 {
            return false;
        }
        let n_blocks = f.blocks.len();
        let mut i: usize = 0;
        while i < f.blocks.len()
            invariant
                i <= f.blocks@.len(),
                n_blocks == f.blocks@.len(),
                f.blocks@.len() > 0,
                forall|k: int|
                    0 <= k < i ==> block_wf(
                        #[trigger] f.blocks@[k],
                        f.n_regs as int,
                        n_strings as int,
                        n_funcs as int,
                        n_blocks as int,
                        f.returns_value,
                    ),
                forall|k: int| 0 <= k < i ==> block_terminated(#[trigger] f.blocks@[k]),
            decreases f.blocks@.len() - i,
        {
            if !Self::verify_block(&f.blocks[i], f.n_regs, n_strings, n_funcs, n_blocks, f.returns_value) {
                return false;
            }
            i += 1;
        }
        true
    }

    fn verify_block(
        b: &Block,
        n_regs: usize,
        n_strings: usize,
        n_funcs: usize,
        n_blocks: usize,
        returns_value: bool,
    ) -> (r: bool)
        ensures
            r == (block_wf(*b, n_regs as int, n_strings as int, n_funcs as int, n_blocks as int, returns_value)
                && block_terminated(*b)),
    {
        let mut i: usize = 0;
        while i < b.insts.len()
            invariant
                i <= b.insts@.len(),
                forall|k: int|
                    0 <= k < i ==> inst_wf(#[trigger] b.insts@[k], n_regs as int, n_strings as int, n_funcs as int),
            decreases b.insts@.len() - i,
        {
            if !Self::verify_inst(&b.insts[i], n_regs, n_strings, n_funcs) {
                return false;
            }
            i += 1;
        }
        match &b.term {
            Option::None => false,
            Option::Some(t) => Self::verify_term(t, n_regs, n_strings, n_blocks, returns_value),
        }
    }

    fn verify_inst(inst: &Inst, n_regs: usize, n_strings: usize, n_funcs: usize) -> (r: bool)
        ensures
            r == inst_wf(*inst, n_regs as int, n_strings as int, n_funcs as int),
    {
        match inst {
            Inst::CallC { dest, callee, args } => {
                *dest < n_regs && args.len() == callee.arity() && Self::verify_args(args, n_regs, n_strings)
            },
            Inst::CallU { dest, func, args } => {
                *dest < n_regs && *func < n_funcs && Self::verify_args(args, n_regs, n_strings)
            },
            Inst::CallInd { dest, addr, args } => {
                *dest < n_regs && Self::verify_operand(addr, n_regs, n_strings) && Self::verify_args(
                    args,
                    n_regs,
                    n_strings,
                )
            },
            Inst::IcmpEqOne { dest, src } => *dest < n_regs && Self::verify_operand(src, n_regs, n_strings),
        }
    }

    fn verify_args(args: &Vec<Operand>, n_regs: usize, n_strings: usize) -> (r: bool)
        ensures
            r == args_wf(args@, n_regs as int, n_strings as int),
    {
        let mut i: usize = 0;
        while i < args.len()
            invariant
                i <= args@.len(),
                forall|k: int| 0 <= k < i ==> operand_wf(#[trigger] args@[k], n_regs as int, n_strings as int),
            decreases args@.len() - i,
        {
            if !Self::verify_operand(&args[i], n_regs, n_strings) {
                return false;
            }
            i += 1;
        }
        true
    }

    fn verify_operand(o: &Operand, n_regs: usize, n_strings: usize) -> (r: bool)
        ensures
            r == operand_wf(*o, n_regs as int, n_strings as int),
    {
        match o {
            Operand::Reg(r) => *r < n_regs,
            Operand::NumConst(_) => true,
            Operand::StrConst(s) => *s < n_strings,
            Operand::Namespace => true,
        }
    }

    fn verify_term(t: &Term, n_regs: usize, n_strings: usize, n_blocks: usize, returns_value: bool) -> (r: bool)
        ensures
            r == term_wf(*t, n_regs as int, n_strings as int, n_blocks as int, returns_value),
    {
        match t {
            Term::Br(b) => *b < n_blocks,
            Term::CondBr { cond, then_to, else_to } => {
                Self::verify_operand(cond, n_regs, n_strings) && *then_to < n_blocks && *else_to < n_blocks
            },
            Term::Ret(op) => returns_value && Self::verify_operand(op, n_regs, n_strings),
            Term::RetVoid => !returns_value,
        }
    }
}

/// Well-formedness is insensitive to growing any of the bounds: an operand,
/// instruction, or block that is sound against smaller counts stays sound
/// when more registers, strings, functions, or blocks exist.
pub proof fn lemma_block_wf_mono(
    b: Block,
    r1: int,
    s1: int,
    f1: int,
    k1: int,
    r2: int,
    s2: int,
    f2: int,
    k2: int,
    rv: bool,
)
    requires
        block_wf(b, r1, s1, f1, k1, rv),
        r1 <= r2,
        s1 <= s2,
        f1 <= f2,
        k1 <= k2,
    ensures
        block_wf(b, r2, s2, f2, k2, rv),
{
    assert forall|i: int| 0 <= i < b.insts@.len() implies inst_wf(#[trigger] b.insts@[i], r2, s2, f2) by {
        assert(inst_wf(b.insts@[i], r1, s1, f1));
        lemma_inst_wf_mono(b.insts@[i], r1, s1, f1, r2, s2, f2);
    }
}

pub proof fn lemma_inst_wf_mono(inst: Inst, r1: int, s1: int, f1: int, r2: int, s2: int, f2: int)
    requires
        inst_wf(inst, r1, s1, f1),
        r1 <= r2,
        s1 <= s2,
        f1 <= f2,
    ensures
        inst_wf(inst, r2, s2, f2),
{
}

/// A function that is sound against smaller string and function counts stays
/// sound against larger ones.
pub proof fn lemma_func_wf_mono(f: IrFunction, s1: int, n1: int, s2: int, n2: int)
    requires
        func_wf(f, s1, n1),
        s1 <= s2,
        n1 <= n2,
    ensures
        func_wf(f, s2, n2),
{
    assert forall|i: int| 0 <= i < f.blocks@.len() implies block_wf(
        #[trigger] f.blocks@[i],
        f.n_regs as int,
        s2,
        n2,
        f.blocks@.len() as int,
        f.returns_value,
    ) by {
        assert(block_wf(f.blocks@[i], f.n_regs as int, s1, n1, f.blocks@.len() as int, f.returns_value));
        lemma_block_wf_mono(
            f.blocks@[i],
            f.n_regs as int,
            s1,
            n1,
            f.blocks@.len() as int,
            f.n_regs as int,
            s2,
            n2,
            f.blocks@.len() as int,
            f.returns_value,
        );
    }
}

/// Every basic block of a module that the verifier accepts has exactly one
/// terminator.
pub proof fn lemma_verified_blocks_have_one_terminator(m: IrModule)
    requires
        module_wf(m),
    ensures
        forall|f: int, b: int|
            0 <= f < m.funcs@.len() && 0 <= b < m.funcs@[f].blocks@.len() ==> (#[trigger] m.funcs@[f].blocks@[b].term)
                is Some,
{
    assert forall|f: int, b: int|
        0 <= f < m.funcs@.len() && 0 <= b < m.funcs@[f].blocks@.len() implies (
    #[trigger] m.funcs@[f].blocks@[b].term) is Some by {
        assert(func_terminated(m.funcs@[f]));
        assert(block_terminated(m.funcs@[f].blocks@[b]));
    }
}

} // verus!
