//! The IR-emission engine.
//!
//! The builder owns the module under construction and an insertion point: the
//! current function and the current basic block. A ghost set [`Builder::open`]
//! tracks exactly which blocks still miss their terminator. Every lowering
//! step leaves the module structurally sound, closes every block it opened
//! except the one it leaves the insertion point on, and never reopens a closed
//! block. When the entry function's last block is closed the set is empty and
//! the finished module passes the verifier.

use vstd::prelude::*;

use crate::ir::{
    args_wf, block_terminated, block_wf, func_terminated, func_wf, inst_wf, lemma_block_wf_mono,
    operand_wf, term_wf, Block, Callback, Inst, IrFunction, IrModule, Operand, Term,
};
use crate::text::str_eq;

verus! {

/// The IR-emission engine of one module.
pub struct Builder {
    pub module: IrModule,
    pub cur_func: usize,
    pub cur_block: usize,
    /// User-defined functions registered so far, by name.
    pub function_cache: Vec<(String, usize)>,
    pub stdlib: bool,
    pub id: Option<Vec<u8>>,
    pub save_ir: Option<String>,
    /// The (function, block) pairs still missing their terminator.
    pub open: Ghost<Set<(int, int)>>,
}

impl Builder {
    pub open spec fn cur_f(self) -> IrFunction {
        self.module.funcs@[self.cur_func as int]
    }

    pub open spec fn n_regs(self) -> int {
        self.cur_f().n_regs as int
    }

    pub open spec fn n_blocks(self) -> int {
        self.cur_f().blocks@.len() as int
    }

    pub open spec fn n_strings(self) -> int {
        self.module.strings@.len() as int
    }

    pub open spec fn n_funcs(self) -> int {
        self.module.funcs@.len() as int
    }

    /// The insertion point as an element of the open set.
    pub open spec fn cur_pair(self) -> (int, int) {
        (self.cur_func as int, self.cur_block as int)
    }

    /// The instructions of the current block.
    pub open spec fn cur_insts(self) -> Seq<Inst> {
        self.cur_f().blocks@[self.cur_block as int].insts@
    }

    /// How many instructions the current block holds.
    pub open spec fn cur_insts_len(self) -> int {
        self.cur_f().blocks@[self.cur_block as int].insts@.len() as int
    }

    /// The open set lists exactly the unterminated blocks, all in range.
    pub open spec fn open_ok(self) -> bool {
        &&& forall|f: int, b: int|
            0 <= f < self.module.funcs@.len() && 0 <= b < self.module.funcs@[f].blocks@.len() ==> (
            self.open@.contains((f, b)) <==> !block_terminated(
                #[trigger] self.module.funcs@[f].blocks@[b],
            ))
        &&& forall|p: (int, int)|
            #[trigger] self.open@.contains(p) ==> 0 <= p.0 < self.module.funcs@.len() && 0 <= p.1
                < self.module.funcs@[p.0].blocks@.len()
    }

    /// The builder's invariant between emission steps.
    pub open spec fn inv(self) -> bool {
        &&& self.module.main < self.module.funcs@.len()
        &&& self.module.funcs@[self.module.main as int].arity == 0
        &&& !self.module.funcs@[self.module.main as int].returns_value
        &&& self.cur_func < self.module.funcs@.len()
        &&& self.cur_block < self.cur_f().blocks@.len()
        &&& forall|i: int|
            0 <= i < self.module.funcs@.len() ==> func_wf(
                #[trigger] self.module.funcs@[i],
                self.n_strings(),
                self.n_funcs(),
            )
        &&& forall|i: int|
            0 <= i < self.function_cache@.len() ==> (#[trigger] self.function_cache@[i]).1
                < self.module.funcs@.len()
        &&& forall|i: int, j: int|
            0 <= i < j < self.module.strings@.len() ==> (#[trigger] self.module.strings@[i])@ != (
            #[trigger] self.module.strings@[j])@
        &&& self.open_ok()
    }

    /// The insertion point is open.
    pub open spec fn at_open_block(self) -> bool {
        self.open@.contains(self.cur_pair())
    }
}

/// How one whole lowering step may change the builder: the insertion point
/// stays in the same function, counts only grow, and the open set changes by
/// exactly closing the old insertion point's block and opening the block the
/// insertion point moved to (which was not open before, unless it is the same
/// block).
/// A block that already carries its terminator keeps it: nothing ever
/// rewrites a closed block's ending.
pub open spec fn terms_kept(old: Builder, new: Builder) -> bool {
    forall|f: int, b: int|
        0 <= f < old.module.funcs@.len() && 0 <= b < old.module.funcs@[f].blocks@.len()
            && (#[trigger] old.module.funcs@[f].blocks@[b]).term is Some
            ==> new.module.funcs@[f].blocks@[b].term == old.module.funcs@[f].blocks@[b].term
}

/// Functions other than the one the insertion point stands in are untouched.
pub open spec fn others_preserved(old: Builder, new: Builder) -> bool {
    forall|i: int|
        0 <= i < old.module.funcs@.len() && i != old.cur_func ==> #[trigger] new.module.funcs@[i]
            == old.module.funcs@[i]
}

pub open spec fn builder_step(old: Builder, new: Builder) -> bool {
    &&& new.cur_func == old.cur_func
    &&& others_preserved(old, new)
    &&& terms_kept(old, new)
    &&& old.n_regs() <= new.n_regs()
    &&& old.n_blocks() <= new.n_blocks()
    &&& old.n_strings() <= new.n_strings()
    &&& old.n_funcs() <= new.n_funcs()
    &&& new.cur_f().returns_value == old.cur_f().returns_value
    &&& new.module.main == old.module.main
    &&& new.open@ =~= old.open@.remove(old.cur_pair()).insert(new.cur_pair())
    &&& !old.open@.remove(old.cur_pair()).contains(new.cur_pair())
}

/// [`builder_step`] composes.
pub proof fn lemma_step_trans(a: Builder, b: Builder, c: Builder)
    requires
        builder_step(a, b),
        builder_step(b, c),
    ensures
        builder_step(a, c),
{
    let pa = a.cur_pair();
    let pb = b.cur_pair();
    let pc = c.cur_pair();
    assert(c.open@ =~= a.open@.remove(pa).insert(pc)) by {
        assert(b.open@ =~= a.open@.remove(pa).insert(pb));
        assert(c.open@ =~= b.open@.remove(pb).insert(pc));
    }
    if a.open@.remove(pa).contains(pc) {
        assert(b.open@.remove(pb).contains(pc));
    }
}

impl Builder {
    /// Allocate a fresh virtual register in the current function.
    fn alloc_reg(&mut self) -> (r: usize)
        requires
            old(self).inv(),
        ensures
            final(self).inv(),
            step_here(*old(self), *final(self)),
            r < final(self).n_regs(),
            old(self).n_regs() < usize::MAX ==> r as int == old(self).n_regs(),
            final(self).cur_insts() == old(self).cur_insts(),
    {
        let cf = self.cur_func;
        let ghost pre = *self;
        let f = &mut self.module.funcs[cf];
        if f.n_regs < usize::MAX {
            f.n_regs = f.n_regs + 1;
        }
        let r = f.n_regs - 1;
        proof {
            lemma_regs_grow(pre, *self);
        }
        r
    }
}

/// A step that leaves the insertion point, the open set, the strings, the
/// block structure and the function list exactly where they were; only
/// registers may have been allocated and instructions appended to the current
/// block.
pub open spec fn step_here(old: Builder, new: Builder) -> bool {
    &&& new.cur_func == old.cur_func
    &&& new.cur_block == old.cur_block
    &&& new.open@ == old.open@
    &&& new.module.main == old.module.main
    &&& new.module.name == old.module.name
    &&& new.module.strings == old.module.strings
    &&& new.function_cache == old.function_cache
    &&& old.n_regs() <= new.n_regs()
    &&& new.module.funcs@.len() == old.module.funcs@.len()
    &&& forall|i: int|
        0 <= i < old.module.funcs@.len() && i != old.cur_func ==> #[trigger] new.module.funcs@[i]
            == old.module.funcs@[i]
    &&& new.cur_f().name == old.cur_f().name
    &&& new.cur_f().arity == old.cur_f().arity
    &&& new.cur_f().returns_value == old.cur_f().returns_value
    &&& new.cur_f().blocks@.len() == old.cur_f().blocks@.len()
    &&& forall|i: int|
        0 <= i < old.cur_f().blocks@.len() && i != old.cur_block ==> #[trigger] new.cur_f().blocks@[i]
            == old.cur_f().blocks@[i]
    &&& new.cur_f().blocks@[old.cur_block as int].term
        == old.cur_f().blocks@[old.cur_block as int].term
    &&& old.cur_insts_len() <= new.cur_insts_len()
    &&& (forall|i: int|
        0 <= i < old.cur_insts().len() ==> #[trigger] new.cur_insts()[i] == old.cur_insts()[i])
    &&& terms_kept(old, new)
}

/// A straight-line lowering step: the insertion point and the open set do not
/// move, and all counts only grow.
pub open spec fn line_step(old: Builder, new: Builder) -> bool {
    &&& new.cur_func == old.cur_func
    &&& new.cur_block == old.cur_block
    &&& others_preserved(old, new)
    &&& terms_kept(old, new)
    &&& old.cur_insts_len() <= new.cur_insts_len()
    &&& (forall|i: int|
        0 <= i < old.cur_insts().len() ==> #[trigger] new.cur_insts()[i] == old.cur_insts()[i])
    &&& new.open@ == old.open@
    &&& new.module.main == old.module.main
    &&& old.n_regs() <= new.n_regs()
    &&& old.n_blocks() <= new.n_blocks()
    &&& old.n_strings() <= new.n_strings()
    &&& old.n_funcs() <= new.n_funcs()
    &&& new.cur_f().returns_value == old.cur_f().returns_value
}

/// A straight-line step from an open block is a [`builder_step`].
pub proof fn lemma_line_step_is_step(old: Builder, new: Builder)
    requires
        old.at_open_block(),
        line_step(old, new),
    ensures
        builder_step(old, new),
{
    assert(new.open@ =~= old.open@.remove(old.cur_pair()).insert(new.cur_pair()));
}

impl Builder {
    /// Append one instruction to the current block.
    fn push_inst(&mut self, inst: Inst)
        requires
            old(self).inv(),
            inst_wf(inst, old(self).n_regs(), old(self).n_strings(), old(self).n_funcs()),
        ensures
            final(self).inv(),
            step_here(*old(self), *final(self)),
            final(self).cur_insts_len() == old(self).cur_insts_len() + 1,
            final(self).cur_insts() == old(self).cur_insts().push(inst),
    {
        let cf = self.cur_func;
        let cb = self.cur_block;
        let ghost pre = *self;
        let f = &mut self.module.funcs[cf];
        let b = &mut f.blocks[cb];
        b.insts.push(inst);
        proof {
            let post = *self;
            assert(post.cur_f().blocks@[cb as int].insts@ == pre.cur_f().blocks@[cb as int].insts@.push(
                inst,
            ));
            assert(block_wf(
                post.cur_f().blocks@[cb as int],
                post.n_regs(),
                post.n_strings(),
                post.n_funcs(),
                post.n_blocks(),
                post.cur_f().returns_value,
            )) by {
                let oldb = pre.cur_f().blocks@[cb as int];
                let newb = post.cur_f().blocks@[cb as int];
                assert(block_wf(
                    oldb,
                    pre.n_regs(),
                    pre.n_strings(),
                    pre.n_funcs(),
                    pre.n_blocks(),
                    pre.cur_f().returns_value,
                ));
                assert forall|i: int| 0 <= i < newb.insts@.len() implies inst_wf(
                    #[trigger] newb.insts@[i],
                    post.n_regs(),
                    post.n_strings(),
                    post.n_funcs(),
                ) by {
                    if i < oldb.insts@.len() {
                        assert(newb.insts@[i] == oldb.insts@[i]);
                    } else {
                        assert(newb.insts@[i] == inst);
                    }
                }
            }
            lemma_touch_cur_block(pre, post);
        }
    }

    /// Append a fresh, open, empty block to the current function and return
    /// its index. The insertion point does not move.
    fn append_block(&mut self) -> (b: usize)
        requires
            old(self).inv(),
        ensures
            final(self).inv(),
            b as int == old(self).n_blocks(),
            b < final(self).n_blocks(),
            final(self).open@ == old(self).open@.insert((old(self).cur_func as int, b as int)),
            !old(self).open@.contains((old(self).cur_func as int, b as int)),
            same_but_blocks(*old(self), *final(self)),
            terms_kept(*old(self), *final(self)),
            final(self).n_blocks() == old(self).n_blocks() + 1,
            forall|i: int|
                0 <= i < old(self).n_blocks() ==> #[trigger] final(self).cur_f().blocks@[i] == old(
                    self,
                ).cur_f().blocks@[i],
    {
        let cf = self.cur_func;
        let ghost pre = *self;
        let f = &mut self.module.funcs[cf];
        let b = f.blocks.len();
        f.blocks.push(Block { insts: Vec::new(), term: Option::None });
        proof {
            self.open@ = self.open@.insert((cf as int, b as int));
        }
        proof {
            let post = *self;
            assert forall|i: int|
                0 <= i < post.module.funcs@.len() implies func_wf(
                #[trigger] post.module.funcs@[i],
                post.n_strings(),
                post.n_funcs(),
            ) by {
                if i == cf {
                    let oldf = pre.module.funcs@[i];
                    let newf = post.module.funcs@[i];
                    assert(func_wf(oldf, pre.n_strings(), pre.n_funcs()));
                    assert forall|k: int| 0 <= k < newf.blocks@.len() implies block_wf(
                        #[trigger] newf.blocks@[k],
                        newf.n_regs as int,
                        post.n_strings(),
                        post.n_funcs(),
                        newf.blocks@.len() as int,
                        newf.returns_value,
                    ) by {
                        if k < oldf.blocks@.len() {
                            assert(newf.blocks@[k] == oldf.blocks@[k]);
                            lemma_block_wf_mono(
                                oldf.blocks@[k],
                                oldf.n_regs as int,
                                pre.n_strings(),
                                pre.n_funcs(),
                                oldf.blocks@.len() as int,
                                newf.n_regs as int,
                                post.n_strings(),
                                post.n_funcs(),
                                newf.blocks@.len() as int,
                                newf.returns_value,
                            );
                        } else {
                            assert(newf.blocks@[k].insts@.len() == 0);
                        }
                    }
                } else {
                    assert(post.module.funcs@[i] == pre.module.funcs@[i]);
                }
            }
            assert forall|ff: int, bb: int|
                0 <= ff < post.module.funcs@.len() && 0 <= bb < post.module.funcs@[ff].blocks@.len()
                    implies (post.open@.contains((ff, bb)) <==> !block_terminated(
                #[trigger] post.module.funcs@[ff].blocks@[bb],
            )) by {
                if ff == cf as int && bb == b as int {
                } else {
                    if ff == cf as int {
                        assert(post.module.funcs@[ff].blocks@[bb] == pre.module.funcs@[ff].blocks@[bb]);
                    } else {
                        assert(post.module.funcs@[ff] == pre.module.funcs@[ff]);
                    }
                    assert(pre.open@.contains((ff, bb)) <==> !block_terminated(
                        pre.module.funcs@[ff].blocks@[bb],
                    ));
                }
            }
        }
        b
    }

    /// Close block `blk` of the current function with terminator `t`.
    fn set_term(&mut self, blk: usize, t: Term)
        requires
            old(self).inv(),
            old(self).open@.contains((old(self).cur_func as int, blk as int)),
            term_wf(
                t,
                old(self).n_regs(),
                old(self).n_strings(),
                old(self).n_blocks(),
                old(self).cur_f().returns_value,
            ),
        ensures
            final(self).inv(),
            final(self).open@ == old(self).open@.remove((old(self).cur_func as int, blk as int)),
            final(self).cur_f().blocks@[blk as int].term == Some(t),
            same_but_blocks(*old(self), *final(self)),
            terms_kept(*old(self), *final(self)),
            final(self).n_blocks() == old(self).n_blocks(),
            forall|i: int|
                0 <= i < old(self).n_blocks() && i != blk ==> #[trigger] final(self).cur_f().blocks@[i]
                    == old(self).cur_f().blocks@[i],
    {
        let cf = self.cur_func;
        let ghost pre = *self;
        let f = &mut self.module.funcs[cf];
        let b = &mut f.blocks[blk];
        b.term = Option::Some(t);
        proof {
            self.open@ = self.open@.remove((cf as int, blk as int));
        }
        proof {
            let post = *self;
            assert forall|i: int|
                0 <= i < post.module.funcs@.len() implies func_wf(
                #[trigger] post.module.funcs@[i],
                post.n_strings(),
                post.n_funcs(),
            ) by {
                if i == cf {
                    let oldf = pre.module.funcs@[i];
                    let newf = post.module.funcs@[i];
                    assert(func_wf(oldf, pre.n_strings(), pre.n_funcs()));
                    assert forall|k: int| 0 <= k < newf.blocks@.len() implies block_wf(
                        #[trigger] newf.blocks@[k],
                        newf.n_regs as int,
                        post.n_strings(),
                        post.n_funcs(),
                        newf.blocks@.len() as int,
                        newf.returns_value,
                    ) by {
                        if k == blk {
                            assert(block_wf(
                                oldf.blocks@[k],
                                oldf.n_regs as int,
                                pre.n_strings(),
                                pre.n_funcs(),
                                oldf.blocks@.len() as int,
                                oldf.returns_value,
                            ));
                            assert(newf.blocks@[k].insts == oldf.blocks@[k].insts);
                        } else {
                            assert(newf.blocks@[k] == oldf.blocks@[k]);
                        }
                    }
                } else {
                    assert(post.module.funcs@[i] == pre.module.funcs@[i]);
                }
            }
            assert forall|ff: int, bb: int|
                0 <= ff < post.module.funcs@.len() && 0 <= bb < post.module.funcs@[ff].blocks@.len()
                    implies (post.open@.contains((ff, bb)) <==> !block_terminated(
                #[trigger] post.module.funcs@[ff].blocks@[bb],
            )) by {
                if ff == cf as int && bb == blk as int {
                } else {
                    if ff == cf as int {
                        assert(post.module.funcs@[ff].blocks@[bb] == pre.module.funcs@[ff].blocks@[bb]);
                    } else {
                        assert(post.module.funcs@[ff] == pre.module.funcs@[ff]);
                    }
                    assert(pre.open@.contains((ff, bb)) <==> !block_terminated(
                        pre.module.funcs@[ff].blocks@[bb],
                    ));
                }
            }
        }
    }

    /// Move the insertion point to the open block `blk` of the current
    /// function.
    fn set_cur(&mut self, blk: usize)
        requires
            old(self).inv(),
            old(self).open@.contains((old(self).cur_func as int, blk as int)),
        ensures
            final(self).inv(),
            final(self).at_open_block(),
            *final(self) == (Builder { cur_block: blk, ..*old(self) }),
    {
        self.cur_block = blk;
        proof {
            assert(self.cur_block < self.cur_f().blocks@.len());
        }
    }

    /// Intern a string constant, returning its index in the module's string
    /// table. Two emissions of the same characters yield the same index.
    fn intern(&mut self, s: &str) -> (r: usize)
        requires
            old(self).inv(),
        ensures
            final(self).inv(),
            r < final(self).n_strings(),
            final(self).module.strings@[r as int]@ == s@,
            same_but_strings(*old(self), *final(self)),
            old(self).n_strings() <= final(self).n_strings(),
            // interning: a string already present leaves the table unchanged
            (exists|i: int|
                0 <= i < old(self).n_strings() && (#[trigger] old(self).module.strings@[i])@ == s@)
                ==> final(self).module.strings == old(self).module.strings,
            forall|i: int|
                0 <= i < old(self).n_strings() ==> #[trigger] final(self).module.strings@[i] == old(
                    self,
                ).module.strings@[i],
    {
        let ghost pre = *self;
        let n = self.strings_len();
        let mut i: usize = 0;
        while i < n
            invariant
                *self == pre,
                pre == *old(self),
                pre.inv(),
                n as int == pre.n_strings(),
                i <= n,
                forall|k: int| 0 <= k < i ==> (#[trigger] pre.module.strings@[k])@ != s@,
            decreases n - i,
        {
            if str_eq(self.module.strings[i].as_str(), s) {
                return i;
            }
            i += 1;
        }
        let r = self.module.strings.len();
        self.module.strings.push(String::from_str(s));
        proof {
            let post = *self;
            assert forall|k: int, j: int|
                0 <= k < j < post.module.strings@.len() implies (#[trigger] post.module.strings@[k])@
                != (#[trigger] post.module.strings@[j])@ by {
                if j == r as int {
                    assert(post.module.strings@[k] == pre.module.strings@[k]);
                } else {
                    assert(post.module.strings@[k] == pre.module.strings@[k]);
                    assert(post.module.strings@[j] == pre.module.strings@[j]);
                }
            }
            assert forall|k: int|
                0 <= k < post.module.funcs@.len() implies func_wf(
                #[trigger] post.module.funcs@[k],
                post.n_strings(),
                post.n_funcs(),
            ) by {
                let f = post.module.funcs@[k];
                assert(f == pre.module.funcs@[k]);
                assert(func_wf(f, pre.n_strings(), pre.n_funcs()));
                assert forall|q: int| 0 <= q < f.blocks@.len() implies block_wf(
                    #[trigger] f.blocks@[q],
                    f.n_regs as int,
                    post.n_strings(),
                    post.n_funcs(),
                    f.blocks@.len() as int,
                    f.returns_value,
                ) by {
                    lemma_block_wf_mono(
                        f.blocks@[q],
                        f.n_regs as int,
                        pre.n_strings(),
                        pre.n_funcs(),
                        f.blocks@.len() as int,
                        f.n_regs as int,
                        post.n_strings(),
                        post.n_funcs(),
                        f.blocks@.len() as int,
                        f.returns_value,
                    );
                }
            }
            assert forall|ff: int, bb: int|
                0 <= ff < post.module.funcs@.len() && 0 <= bb < post.module.funcs@[ff].blocks@.len()
                    implies (post.open@.contains((ff, bb)) <==> !block_terminated(
                #[trigger] post.module.funcs@[ff].blocks@[bb],
            )) by {
                assert(post.module.funcs@[ff] == pre.module.funcs@[ff]);
                assert(pre.open@.contains((ff, bb)) <==> !block_terminated(
                    pre.module.funcs@[ff].blocks@[bb],
                ));
            }
        }
        r
    }

    fn strings_len(&self) -> (r: usize)
        ensures
            r as int == self.n_strings(),
    {
        self.module.strings.len()
    }

    /// Emit a callback call into the current block.
    fn emit_c(&mut self, callee: Callback, args: Vec<Operand>) -> (r: usize)
        requires
            old(self).inv(),
            old(self).at_open_block(),
            args@.len() == callee.spec_arity(),
            args_wf(args@, old(self).n_regs(), old(self).n_strings()),
        ensures
            final(self).inv(),
            final(self).at_open_block(),
            line_step(*old(self), *final(self)),
            r < final(self).n_regs(),
            old(self).cur_insts_len() < final(self).cur_insts_len(),
            final(self).n_regs() < usize::MAX ==> old(self).n_regs() <= r,
            final(self).cur_insts() == old(self).cur_insts().push(
                Inst::CallC { dest: r, callee, args },
            ),
            final(self).module.strings == old(self).module.strings,
    {
        let ghost pre = *self;
        let dest = self.alloc_reg();
        proof {
            assert forall|i: int| 0 <= i < args@.len() implies operand_wf(
                #[trigger] args@[i],
                self.n_regs(),
                self.n_strings(),
            ) by {
                assert(operand_wf(args@[i], pre.n_regs(), pre.n_strings()));
            }
        }
        self.push_inst(Inst::CallC { dest, callee, args });
        dest
    }

    /// Emit a direct call to a user function into the current block.
    fn emit_u(&mut self, func: usize, args: Vec<Operand>) -> (r: usize)
        requires
            old(self).inv(),
            old(self).at_open_block(),
            func < old(self).n_funcs(),
            args_wf(args@, old(self).n_regs(), old(self).n_strings()),
        ensures
            final(self).inv(),
            final(self).at_open_block(),
            line_step(*old(self), *final(self)),
            r < final(self).n_regs(),
            old(self).cur_insts_len() < final(self).cur_insts_len(),
            final(self).n_regs() < usize::MAX ==> old(self).n_regs() <= r,
            final(self).cur_insts() == old(self).cur_insts().push(
                Inst::CallU { dest: r, func, args },
            ),
            final(self).module.strings == old(self).module.strings,
    {
        let ghost pre = *self;
        let dest = self.alloc_reg();
        proof {
            assert forall|i: int| 0 <= i < args@.len() implies operand_wf(
                #[trigger] args@[i],
                self.n_regs(),
                self.n_strings(),
            ) by {
                assert(operand_wf(args@[i], pre.n_regs(), pre.n_strings()));
            }
        }
        self.push_inst(Inst::CallU { dest, func, args });
        dest
    }

    /// Emit a call through a run-time address into the current block.
    fn emit_ind(&mut self, addr: Operand, args: Vec<Operand>) -> (r: usize)
        requires
            old(self).inv(),
            old(self).at_open_block(),
            operand_wf(addr, old(self).n_regs(), old(self).n_strings()),
            args_wf(args@, old(self).n_regs(), old(self).n_strings()),
        ensures
            final(self).inv(),
            final(self).at_open_block(),
            line_step(*old(self), *final(self)),
            r < final(self).n_regs(),
            old(self).cur_insts_len() < final(self).cur_insts_len(),
            final(self).n_regs() < usize::MAX ==> old(self).n_regs() <= r,
            final(self).cur_insts() == old(self).cur_insts().push(
                Inst::CallInd { dest: r, addr, args },
            ),
            final(self).module.strings == old(self).module.strings,
    {
        let ghost pre = *self;
        let dest = self.alloc_reg();
        proof {
            assert forall|i: int| 0 <= i < args@.len() implies operand_wf(
                #[trigger] args@[i],
                self.n_regs(),
                self.n_strings(),
            ) by {
                assert(operand_wf(args@[i], pre.n_regs(), pre.n_strings()));
            }
        }
        self.push_inst(Inst::CallInd { dest, addr, args });
        dest
    }

    /// Emit the byte-against-one comparison that turns a callback's coercion
    /// result into a branch bit.
    fn emit_icmp(&mut self, src: Operand) -> (r: usize)
        requires
            old(self).inv(),
            old(self).at_open_block(),
            operand_wf(src, old(self).n_regs(), old(self).n_strings()),
        ensures
            final(self).inv(),
            final(self).at_open_block(),
            line_step(*old(self), *final(self)),
            r < final(self).n_regs(),
            old(self).cur_insts_len() < final(self).cur_insts_len(),
            final(self).n_regs() < usize::MAX ==> old(self).n_regs() <= r,
            final(self).cur_insts() == old(self).cur_insts().push(
                Inst::IcmpEqOne { dest: r, src },
            ),
            final(self).module.strings == old(self).module.strings,
    {
        let dest = self.alloc_reg();
        self.push_inst(Inst::IcmpEqOne { dest, src });
        dest
    }
}

/// Everything but the current function's blocks and the open set is where it
/// was; registers did not change either.
pub open spec fn same_but_blocks(old: Builder, new: Builder) -> bool {
    &&& new.cur_func == old.cur_func
    &&& new.cur_block == old.cur_block
    &&& new.module.main == old.module.main
    &&& new.module.name == old.module.name
    &&& new.module.strings == old.module.strings
    &&& new.function_cache == old.function_cache
    &&& new.n_regs() == old.n_regs()
    &&& new.module.funcs@.len() == old.module.funcs@.len()
    &&& forall|i: int|
        0 <= i < old.module.funcs@.len() && i != old.cur_func ==> #[trigger] new.module.funcs@[i]
            == old.module.funcs@[i]
    &&& new.cur_f().name == old.cur_f().name
    &&& new.cur_f().arity == old.cur_f().arity
    &&& new.cur_f().returns_value == old.cur_f().returns_value
    &&& old.n_blocks() <= new.n_blocks()
}

/// Everything but the string table is where it was.
pub open spec fn same_but_strings(old: Builder, new: Builder) -> bool {
    &&& new.cur_func == old.cur_func
    &&& new.cur_block == old.cur_block
    &&& new.open@ == old.open@
    &&& new.module.main == old.module.main
    &&& new.module.name == old.module.name
    &&& new.module.funcs == old.module.funcs
    &&& new.function_cache == old.function_cache
}

/// One-operand argument list.
fn args1(a: Operand) -> (v: Vec<Operand>)
    ensures
        v@ =~= seq![a],
{
    let mut v: Vec<Operand> = Vec::new();
    v.push(a);
    v
}

/// Two-operand argument list.
fn args2(a: Operand, b: Operand) -> (v: Vec<Operand>)
    ensures
        v@ =~= seq![a, b],
{
    let mut v: Vec<Operand> = Vec::new();
    v.push(a);
    v.push(b);
    v
}

/// Three-operand argument list.
fn args3(a: Operand, b: Operand, c: Operand) -> (v: Vec<Operand>)
    ensures
        v@ =~= seq![a, b, c],
{
    let mut v: Vec<Operand> = Vec::new();
    v.push(a);
    v.push(b);
    v.push(c);
    v
}

/// The new instructions are exactly the old ones with `k` appended.
pub open spec fn appended(old: Seq<Inst>, new: Seq<Inst>, k: int) -> bool {
    &&& new.len() == old.len() + k
    &&& forall|i: int| 0 <= i < old.len() ==> #[trigger] new[i] == old[i]
}

/// The instructions grew and now end with a namespace read under some
/// freshly built key register, the key released right after — the tail of an
/// identifier read.
pub open spec fn key_read_tail_at(old: Seq<Inst>, new: Seq<Inst>, r: usize, arr: usize) -> bool {
    &&& new.len() >= old.len() + 3
    &&& emits_callc(
        new[new.len() - 2],
        r,
        Callback::GlobalGet,
        seq![Operand::Namespace, Operand::Reg(arr)],
    )
    &&& emits_call_args(new.last(), Callback::ValueDelete, seq![Operand::Reg(arr)])
}

pub open spec fn key_read_tail(old: Seq<Inst>, new: Seq<Inst>, r: usize) -> bool {
    exists|arr: usize| #[trigger] key_read_tail_at(old, new, r, arr)
}

/// The instructions end with the coercion of some value into a branch bit:
/// the `to_bool` call, the value's release, and the byte-against-one compare.
pub open spec fn cmp_tail_at(old: Seq<Inst>, new: Seq<Inst>, r: usize, val: usize, byte: usize) -> bool {
    &&& new.len() >= old.len() + 4
    &&& emits_callc(new[new.len() - 3], byte, Callback::ToBool, seq![Operand::Reg(val)])
    &&& emits_call_args(new[new.len() - 2], Callback::ValueDelete, seq![Operand::Reg(val)])
    &&& new.last() == (Inst::IcmpEqOne { dest: r, src: Operand::Reg(byte) })
}

pub open spec fn cmp_tail(old: Seq<Inst>, new: Seq<Inst>, r: usize) -> bool {
    exists|val: usize, byte: usize| #[trigger] cmp_tail_at(old, new, r, val, byte)
}

/// The instructions end with a binary operator application writing `r`: the
/// operator callback over two registers, followed for the non-consuming
/// equality callbacks by the release of both operands.
pub open spec fn op_apply_tail_at(new: Seq<Inst>, cb: Callback, r: usize, a: usize, b: usize) -> bool {
    if cb == Callback::Eq || cb == Callback::Neq {
        &&& new.len() >= 3
        &&& emits_callc(new[new.len() - 3], r, cb, seq![Operand::Reg(a), Operand::Reg(b)])
        &&& emits_call_args(new[new.len() - 2], Callback::ValueDelete, seq![Operand::Reg(a)])
        &&& emits_call_args(new.last(), Callback::ValueDelete, seq![Operand::Reg(b)])
    } else {
        &&& new.len() >= 1
        &&& emits_callc(new.last(), r, cb, seq![Operand::Reg(a), Operand::Reg(b)])
    }
}

pub open spec fn op_apply_tail(new: Seq<Inst>, cb: Callback, r: usize) -> bool {
    exists|a: usize, b: usize| #[trigger] op_apply_tail_at(new, cb, r, a, b)
}

/// The last instruction is a boxed string from an interned module constant
/// spelling the given characters.
pub open spec fn string_box_at(b: Builder, r: usize, sid: int, txt: Seq<char>) -> bool {
    &&& 0 <= sid < b.n_strings()
    &&& b.module.strings@[sid]@ == txt
    &&& b.cur_insts().len() >= 1
    &&& emits_callc(
        b.cur_insts().last(),
        r,
        Callback::StringFrom,
        seq![Operand::StrConst(sid as usize)],
    )
}

/// The instructions end with a namespace store under some key register, the
/// key released right after — the tail every declaration and assignment
/// lowers to.
pub open spec fn store_tail_at(new: Seq<Inst>, name: usize, val: usize) -> bool {
    &&& new.len() >= 2
    &&& emits_call_args(
        new[new.len() - 2],
        Callback::GlobalSet,
        seq![Operand::Namespace, Operand::Reg(name), Operand::Reg(val)],
    )
    &&& emits_call_args(new.last(), Callback::ValueDelete, seq![Operand::Reg(name)])
}

pub open spec fn store_tail(new: Seq<Inst>) -> bool {
    exists|name: usize, val: usize| #[trigger] store_tail_at(new, name, val)
}

/// The last instruction is a call — to a callback or a user function — that
/// writes `r`: the shape every guest call lowers to, a null factory included.
pub open spec fn call_tail(new: Seq<Inst>, r: usize) -> bool {
    new.len() >= 1 && (match new.last() {
        Inst::CallC { dest, callee: _, args: _ } => dest == r,
        Inst::CallU { dest, func: _, args: _ } => dest == r,
        _ => false,
    })
}

/// The instruction is a callback call with this destination, callee and
/// argument list.
pub open spec fn emits_callc(inst: Inst, dest: usize, callee: Callback, args: Seq<Operand>) -> bool {
    inst matches Inst::CallC { dest: d, callee: c, args: a } && d == dest && c == callee && a@
        == args
}

/// The instruction is a callback call on these arguments, whatever its
/// destination.
pub open spec fn emits_call_args(inst: Inst, callee: Callback, args: Seq<Operand>) -> bool {
    inst matches Inst::CallC { dest: _, callee: c, args: a } && c == callee && a@ == args
}

/// The instruction is a direct user-function call with this destination.
pub open spec fn emits_callu(inst: Inst, dest: usize, func: usize, args: Seq<Operand>) -> bool {
    inst matches Inst::CallU { dest: d, func: f, args: a } && d == dest && f == func && a@ == args
}

/// The register operands over a list of registers.
pub open spec fn reg_operands(regs: Seq<usize>) -> Seq<Operand> {
    Seq::new(regs.len(), |i: int| Operand::Reg(regs[i]))
}

/// The callback implementing a binary operator.
pub open spec fn spec_op_callback(op: crate::ast::Operation) -> Callback {
    match op {
        crate::ast::Operation::Add => Callback::Add,
        crate::ast::Operation::Sub => Callback::Sub,
        crate::ast::Operation::Mul => Callback::Mul,
        crate::ast::Operation::Div => Callback::Div,
        crate::ast::Operation::Mod => Callback::Mod,
        crate::ast::Operation::And => Callback::And,
        crate::ast::Operation::Or => Callback::Or,
        crate::ast::Operation::Gt => Callback::Gt,
        crate::ast::Operation::Gte => Callback::Gte,
        crate::ast::Operation::Lt => Callback::Lt,
        crate::ast::Operation::Lte => Callback::Lte,
        crate::ast::Operation::Eq => Callback::Eq,
        crate::ast::Operation::Ne => Callback::Neq,
    }
}

pub fn op_callback(op: &crate::ast::Operation) -> (r: Callback)
    ensures
        r == spec_op_callback(*op),
        r.spec_arity() == 2,
{
    match op {
        crate::ast::Operation::Add => Callback::Add,
        crate::ast::Operation::Sub => Callback::Sub,
        crate::ast::Operation::Mul => Callback::Mul,
        crate::ast::Operation::Div => Callback::Div,
        crate::ast::Operation::Mod => Callback::Mod,
        crate::ast::Operation::And => Callback::And,
        crate::ast::Operation::Or => Callback::Or,
        crate::ast::Operation::Gt => Callback::Gt,
        crate::ast::Operation::Gte => Callback::Gte,
        crate::ast::Operation::Lt => Callback::Lt,
        crate::ast::Operation::Lte => Callback::Lte,
        crate::ast::Operation::Eq => Callback::Eq,
        crate::ast::Operation::Ne => Callback::Neq,
    }
}

/// The name table of the extern callbacks a guest call expression may name,
/// with the container callbacks and `print` gated behind the standard
/// library. All of them take and return boxed values, so any such call is
/// sound to emit.
pub open spec fn spec_callback_by_name(name: Seq<char>, stdlib: bool) -> Option<Callback> {
    if name == "__global_null"@ {
        Some(Callback::GlobalNull)
    } else if name == "__global_get"@ {
        Some(Callback::GlobalGet)
    } else if name == "__global_set"@ {
        Some(Callback::GlobalSet)
    } else if name == "__get_attr"@ {
        Some(Callback::GetAttr)
    } else if name == "__value_delete"@ {
        Some(Callback::ValueDelete)
    } else if name == "__string_new"@ {
        Some(Callback::StringNew)
    } else if name == "__string_copy"@ {
        Some(Callback::StringCopy)
    } else if name == "__add"@ {
        Some(Callback::Add)
    } else if name == "__sub"@ {
        Some(Callback::Sub)
    } else if name == "__mul"@ {
        Some(Callback::Mul)
    } else if name == "__div"@ {
        Some(Callback::Div)
    } else if name == "__mod"@ {
        Some(Callback::Mod)
    } else if name == "__gt"@ {
        Some(Callback::Gt)
    } else if name == "__gte"@ {
        Some(Callback::Gte)
    } else if name == "__lt"@ {
        Some(Callback::Lt)
    } else if name == "__lte"@ {
        Some(Callback::Lte)
    } else if name == "__eq"@ {
        Some(Callback::Eq)
    } else if name == "__neq"@ {
        Some(Callback::Neq)
    } else if name == "__and"@ {
        Some(Callback::And)
    } else if name == "__or"@ {
        Some(Callback::Or)
    } else if stdlib && name == "__array_new"@ {
        Some(Callback::ArrayNew)
    } else if stdlib && name == "__array_push"@ {
        Some(Callback::ArrayPush)
    } else if stdlib && name == "__array_iterator"@ {
        Some(Callback::ArrayIterator)
    } else if stdlib && name == "__array_iterator_next"@ {
        Some(Callback::ArrayIteratorNext)
    } else if stdlib && name == "print"@ {
        Some(Callback::Print)
    } else {
        None
    }
}

/// Resolve a guest-callable callback name against the table.
pub fn callback_by_name(name: &str, stdlib: bool) -> (r: Option<Callback>)
    ensures
        r == spec_callback_by_name(name@, stdlib),
        r matches Some(cb) ==> cb.spec_arity() <= 3,
{
    if str_eq(name, "__global_null") {
        Some(Callback::GlobalNull)
    } else if str_eq(name, "__global_get") {
        Some(Callback::GlobalGet)
    } else if str_eq(name, "__global_set") {
        Some(Callback::GlobalSet)
    } else if str_eq(name, "__get_attr") {
        Some(Callback::GetAttr)
    } else if str_eq(name, "__value_delete") {
        Some(Callback::ValueDelete)
    } else if str_eq(name, "__string_new") {
        Some(Callback::StringNew)
    } else if str_eq(name, "__string_copy") {
        Some(Callback::StringCopy)
    } else if str_eq(name, "__add") {
        Some(Callback::Add)
    } else if str_eq(name, "__sub") {
        Some(Callback::Sub)
    } else if str_eq(name, "__mul") {
        Some(Callback::Mul)
    } else if str_eq(name, "__div") {
        Some(Callback::Div)
    } else if str_eq(name, "__mod") {
        Some(Callback::Mod)
    } else if str_eq(name, "__gt") {
        Some(Callback::Gt)
    } else if str_eq(name, "__gte") {
        Some(Callback::Gte)
    } else if str_eq(name, "__lt") {
        Some(Callback::Lt)
    } else if str_eq(name, "__lte") {
        Some(Callback::Lte)
    } else if str_eq(name, "__eq") {
        Some(Callback::Eq)
    } else if str_eq(name, "__neq") {
        Some(Callback::Neq)
    } else if str_eq(name, "__and") {
        Some(Callback::And)
    } else if str_eq(name, "__or") {
        Some(Callback::Or)
    } else if stdlib && str_eq(name, "__array_new") {
        Some(Callback::ArrayNew)
    } else if stdlib && str_eq(name, "__array_push") {
        Some(Callback::ArrayPush)
    } else if stdlib && str_eq(name, "__array_iterator") {
        Some(Callback::ArrayIterator)
    } else if stdlib && str_eq(name, "__array_iterator_next") {
        Some(Callback::ArrayIteratorNext)
    } else if stdlib && str_eq(name, "print") {
        Some(Callback::Print)
    } else {
        None
    }
}

impl Builder {
    /// Look up a user-defined function by name.
    fn lookup_function(&self, name: &str) -> (r: Option<usize>)
        requires
            self.inv(),
        ensures
            r matches Some(f) ==> f < self.n_funcs(),
    {
        let mut i: usize = 0;
        let n = self.function_cache.len();
        while i < n
            invariant
                self.inv(),
                n == self.function_cache@.len(),
                i <= n,
            decreases n - i,
        {
            if str_eq(self.function_cache[i].0.as_str(), name) {
                let f = self.function_cache[i].1;
                return Some(f);
            }
            i += 1;
        }
        None
    }

    /// Lower a string literal: intern the bytes as a module constant and emit
    /// the call that boxes them into a fresh string value.
    pub fn build_string(&mut self, s: &str) -> (r: usize)
        requires
            old(self).inv(),
            old(self).at_open_block(),
        ensures
            final(self).inv(),
            final(self).at_open_block(),
            line_step(*old(self), *final(self)),
            r < final(self).n_regs(),
            old(self).cur_insts_len() < final(self).cur_insts_len(),
            final(self).n_regs() < usize::MAX ==> old(self).n_regs() <= r,
            exists|sid: int|
                0 <= sid < final(self).n_strings() && (#[trigger] final(self).module.strings@[sid])@
                    == s@ && appended(old(self).cur_insts(), final(self).cur_insts(), 1)
                    && emits_callc(
                    final(self).cur_insts().last(),
                    r,
                    Callback::StringFrom,
                    seq![Operand::StrConst(sid as usize)],
                ),
    {
        let sid = self.intern(s);
        let r = self.emit_c(Callback::StringFrom, args1(Operand::StrConst(sid)));
        proof {
            assert(self.module.strings@[sid as int]@ == s@);
            assert(emits_callc(
                self.cur_insts().last(),
                r,
                Callback::StringFrom,
                seq![Operand::StrConst(sid)],
            ));
            assert(appended(old(self).cur_insts(), self.cur_insts(), 1));
        }
        r
    }

    /// Read the namespace under an already-emitted key register, optionally
    /// releasing the key afterwards.
    pub fn build_global_get(&mut self, name: usize, cleanup: bool) -> (r: usize)
        requires
            old(self).inv(),
            old(self).at_open_block(),
            name < old(self).n_regs(),
        ensures
            final(self).inv(),
            final(self).at_open_block(),
            line_step(*old(self), *final(self)),
            r < final(self).n_regs(),
            old(self).cur_insts_len() < final(self).cur_insts_len(),
            final(self).n_regs() < usize::MAX ==> old(self).n_regs() <= r,
            appended(old(self).cur_insts(), final(self).cur_insts(), if cleanup { 2int } else { 1int }),
            emits_callc(
                final(self).cur_insts()[old(self).cur_insts().len() as int],
                r,
                Callback::GlobalGet,
                seq![Operand::Namespace, Operand::Reg(name)],
            ),
            cleanup ==> emits_call_args(
                final(self).cur_insts().last(),
                Callback::ValueDelete,
                seq![Operand::Reg(name)],
            ),
    {
        let res = self.emit_c(Callback::GlobalGet, args2(Operand::Namespace, Operand::Reg(name)));
        if cleanup {
            self.emit_c(Callback::ValueDelete, args1(Operand::Reg(name)));
        }
        res
    }

    /// Store an already-emitted value under an already-emitted key register,
    /// optionally releasing the key afterwards. The store consumes the
    /// value's reference.
    pub fn build_global_set(&mut self, name: usize, value: usize, cleanup: bool)
        requires
            old(self).inv(),
            old(self).at_open_block(),
            name < old(self).n_regs(),
            value < old(self).n_regs(),
        ensures
            final(self).inv(),
            final(self).at_open_block(),
            line_step(*old(self), *final(self)),
            old(self).cur_insts_len() < final(self).cur_insts_len(),
            appended(old(self).cur_insts(), final(self).cur_insts(), if cleanup { 2int } else { 1int }),
            emits_call_args(
                final(self).cur_insts()[old(self).cur_insts().len() as int],
                Callback::GlobalSet,
                seq![Operand::Namespace, Operand::Reg(name), Operand::Reg(value)],
            ),
            cleanup ==> emits_call_args(
                final(self).cur_insts().last(),
                Callback::ValueDelete,
                seq![Operand::Reg(name)],
            ),
    {
        self.emit_c(
            Callback::GlobalSet,
            args3(Operand::Namespace, Operand::Reg(name), Operand::Reg(value)),
        );
        if cleanup {
            self.emit_c(Callback::ValueDelete, args1(Operand::Reg(name)));
        }
    }

    /// Lower a binary operator application over two already-emitted operand
    /// registers. The arithmetic, comparison and logical callbacks consume
    /// their operands; the equality callbacks do not, so their operands are
    /// released right after the call.
    pub fn build_generic_op(&mut self, op: &crate::ast::Operation, left: usize, right: usize) -> (r:
        usize)
        requires
            old(self).inv(),
            old(self).at_open_block(),
            left < old(self).n_regs(),
            right < old(self).n_regs(),
        ensures
            final(self).inv(),
            final(self).at_open_block(),
            line_step(*old(self), *final(self)),
            r < final(self).n_regs(),
            old(self).cur_insts_len() < final(self).cur_insts_len(),
            final(self).n_regs() < usize::MAX ==> old(self).n_regs() <= r,
            ((*op) is Eq || (*op) is Ne) ==> appended(old(self).cur_insts(), final(self).cur_insts(), 3)
                && emits_callc(
                final(self).cur_insts()[old(self).cur_insts().len() as int],
                r,
                spec_op_callback(*op),
                seq![Operand::Reg(left), Operand::Reg(right)],
            ) && emits_call_args(
                final(self).cur_insts()[old(self).cur_insts().len() as int + 1],
                Callback::ValueDelete,
                seq![Operand::Reg(left)],
            ) && emits_call_args(
                final(self).cur_insts().last(),
                Callback::ValueDelete,
                seq![Operand::Reg(right)],
            ),
            !((*op) is Eq || (*op) is Ne) ==> appended(
                old(self).cur_insts(),
                final(self).cur_insts(),
                1,
            ) && emits_callc(
                final(self).cur_insts().last(),
                r,
                spec_op_callback(*op),
                seq![Operand::Reg(left), Operand::Reg(right)],
            ),
    {
        let cb = op_callback(op);
        let res = self.emit_c(cb, args2(Operand::Reg(left), Operand::Reg(right)));
        match op {
            crate::ast::Operation::Eq | crate::ast::Operation::Ne => {
                self.emit_c(Callback::ValueDelete, args1(Operand::Reg(left)));
                self.emit_c(Callback::ValueDelete, args1(Operand::Reg(right)));
            },
            _ => {},
        }
        res
    }

    /// Lower an expression into a branch bit: coerce its value with the
    /// `to_bool` callback, release the value, and compare the byte with one.
    pub fn build_cmp(&mut self, v: &crate::ast::Value) -> (r: usize)
        requires
            old(self).inv(),
            old(self).at_open_block(),
        ensures
            final(self).inv(),
            final(self).at_open_block(),
            line_step(*old(self), *final(self)),
            r < final(self).n_regs(),
            old(self).cur_insts_len() < final(self).cur_insts_len(),
            final(self).n_regs() < usize::MAX ==> old(self).n_regs() <= r,
            cmp_tail(old(self).cur_insts(), final(self).cur_insts(), r),
        decreases *v, 1int,
    {
        let val = self.build_value(v);
        let byte = self.emit_c(Callback::ToBool, args1(Operand::Reg(val)));
        self.emit_c(Callback::ValueDelete, args1(Operand::Reg(val)));
        let bit = self.emit_icmp(Operand::Reg(byte));
        proof {
            assert(cmp_tail_at(old(self).cur_insts(), self.cur_insts(), bit, val, byte));
        }
        bit
    }

    /// Lower an expression, leaving one owned boxed value in the returned
    /// register. Constructs the builder cannot lower produce a fresh null.
    ///
    /// A dotted identifier is read by building each segment as a string,
    /// collecting the segments into a fresh array, asking the namespace for
    /// the array key, and releasing the key. A call resolves its single-name
    /// callee first among the extern callbacks, then among the user-defined
    /// functions, and only with the callee's argument count; anything else is
    /// a null. An assignment stores under the name and evaluates to null; a
    /// compound assignment reads the old value, applies the operator, and
    /// stores the result.
    #[verifier::rlimit(80)]
    pub fn build_value(&mut self, v: &crate::ast::Value) -> (r: usize)
        requires
            old(self).inv(),
            old(self).at_open_block(),
        ensures
            final(self).inv(),
            final(self).at_open_block(),
            line_step(*old(self), *final(self)),
            r < final(self).n_regs(),
            old(self).cur_insts_len() < final(self).cur_insts_len(),
            final(self).n_regs() < usize::MAX ==> old(self).n_regs() <= r,
            (*v) matches crate::ast::Value::Number(bits) ==> appended(
                old(self).cur_insts(),
                final(self).cur_insts(),
                1,
            ) && emits_callc(
                final(self).cur_insts().last(),
                r,
                Callback::NumberNew,
                seq![Operand::NumConst(bits)],
            ),
            (*v) matches crate::ast::Value::Boolean(b) ==> appended(
                old(self).cur_insts(),
                final(self).cur_insts(),
                1,
            ) && emits_callc(
                final(self).cur_insts().last(),
                r,
                Callback::BoolNew,
                seq![Operand::NumConst(if b { 1u64 } else { 0u64 })],
            ),
            ((*v) is Null || (*v) is Undefined) ==> appended(
                old(self).cur_insts(),
                final(self).cur_insts(),
                1,
            ) && emits_callc(final(self).cur_insts().last(), r, Callback::GlobalNull, Seq::empty()),
            (*v) matches crate::ast::Value::String(s) ==> exists|sid: int|
                #[trigger] string_box_at(*final(self), r, sid, s@),
            (*v) is Identifier ==> key_read_tail(old(self).cur_insts(), final(self).cur_insts(), r),
            (*v) matches crate::ast::Value::Expression { left: _, op, right: _ } ==> op_apply_tail(
                final(self).cur_insts(),
                spec_op_callback(op),
                r,
            ),
            (*v) is Assign ==> final(self).cur_insts().len() >= 1 && emits_callc(
                final(self).cur_insts().last(),
                r,
                Callback::GlobalNull,
                Seq::empty(),
            ),
            (*v) is Call ==> call_tail(final(self).cur_insts(), r),
        decreases *v, 0int,
    {
        match v {
            crate::ast::Value::Number(bits) => self.emit_c(
                Callback::NumberNew,
                args1(Operand::NumConst(*bits)),
            ),
            crate::ast::Value::String(s) => {
                let owned = String::clone(s);
                let ghost txt = owned@;
                let r = self.build_string(owned.as_str());
                proof {
                    let sid = choose|sid: int|
                        0 <= sid < self.n_strings() && (#[trigger] self.module.strings@[sid])@
                            == txt && appended(old(self).cur_insts(), self.cur_insts(), 1)
                            && emits_callc(
                            self.cur_insts().last(),
                            r,
                            Callback::StringFrom,
                            seq![Operand::StrConst(sid as usize)],
                        );
                    assert(string_box_at(*self, r, sid, txt));
                }
                r
            },
            crate::ast::Value::Boolean(b) => self.emit_c(
                Callback::BoolNew,
                args1(Operand::NumConst(if *b { 1 } else { 0 })),
            ),
            crate::ast::Value::Null | crate::ast::Value::Undefined => self.emit_c(
                Callback::GlobalNull,
                Vec::new(),
            ),
            crate::ast::Value::Identifier(parts) => {
                let ghost pre = *self;
                let mut regs: Vec<usize> = Vec::new();
                let n = parts.len();
                let mut i: usize = 0;
                while i < n
                    invariant
                        self.inv(),
                        self.at_open_block(),
                        line_step(pre, *self),
                        n == parts@.len(),
                        i <= n,
                        forall|k: int| 0 <= k < regs@.len() ==> (#[trigger] regs@[k]) < self.n_regs(),
                    decreases n - i,
                {
                    let part = String::clone(&parts[i]);
                    let r = self.build_string(part.as_str());
                    regs.push(r);
                    i += 1;
                }
                let ghost mid = *self;
                let r = self.build_key_array_get(regs);
                proof {
                    let arr = choose|arr: usize|
                        #[trigger] key_read_tail_at(mid.cur_insts(), self.cur_insts(), r, arr);
                    assert(key_read_tail_at(old(self).cur_insts(), self.cur_insts(), r, arr));
                }
                r
            },
            crate::ast::Value::Array(elems) => {
                let regs = self.build_args(elems);
                self.build_array(regs)
            },
            crate::ast::Value::Call { identifier, args } => {
                if identifier.len() == 1 {
                    let name = String::clone(&identifier[0]);
                    if let Some(cb) = callback_by_name(name.as_str(), self.stdlib) {
                        if args.len() == cb.arity() {
                            let regs = self.build_args(args);
                            return self.emit_call_regs_c(cb, regs);
                        }
                    } else if let Some(fidx) = self.lookup_function(name.as_str()) {
                        let regs = self.build_args(args);
                        return self.emit_call_regs_u(fidx, regs);
                    }
                }
                self.emit_c(Callback::GlobalNull, Vec::new())
            },
            crate::ast::Value::Expression { left, op, right } => {
                let l = self.build_value(left);
                let r = self.build_value(right);
                let res = self.build_generic_op(op, l, r);
                proof {
                    assert(op_apply_tail_at(self.cur_insts(), spec_op_callback(*op), res, l, r));
                }
                res
            },
            crate::ast::Value::Assign { identifier, op, value } => {
                let owned = String::clone(identifier);
                let name = self.build_string(owned.as_str());
                let val = self.build_value(value);
                if *op == crate::ast::AssignOperation::Neutral {
                    self.build_global_set(name, val, true);
                } else {
                    let old_val = self.build_global_get(name, false);
                    let computed = self.build_generic_op(
                        &crate::ast::Operation::of_assign(op),
                        old_val,
                        val,
                    );
                    self.build_global_set(name, computed, true);
                }
                self.emit_c(Callback::GlobalNull, Vec::new())
            },
        }
    }

    /// Build a fresh array from already-emitted element registers.
    pub fn build_array(&mut self, regs: Vec<usize>) -> (r: usize)
        requires
            old(self).inv(),
            old(self).at_open_block(),
            forall|k: int| 0 <= k < regs@.len() ==> (#[trigger] regs@[k]) < old(self).n_regs(),
        ensures
            final(self).inv(),
            final(self).at_open_block(),
            line_step(*old(self), *final(self)),
            r < final(self).n_regs(),
            old(self).cur_insts_len() < final(self).cur_insts_len(),
            final(self).n_regs() < usize::MAX ==> old(self).n_regs() <= r,
            appended(old(self).cur_insts(), final(self).cur_insts(), 1 + regs@.len() as int),
            emits_callc(
                final(self).cur_insts()[old(self).cur_insts().len() as int],
                r,
                Callback::ArrayNew,
                Seq::empty(),
            ),
            forall|i: int|
                0 <= i < regs@.len() ==> emits_call_args(
                    #[trigger] final(self).cur_insts()[old(self).cur_insts().len() as int + 1 + i],
                    Callback::ArrayPush,
                    seq![Operand::Reg(r), Operand::Reg(regs@[i])],
                ),
    {
        let ghost pre = *self;
        let arr = self.emit_c(Callback::ArrayNew, Vec::new());
        let n = regs.len();
        let mut i: usize = 0;
        while i < n
            invariant
                self.inv(),
                self.at_open_block(),
                line_step(pre, *self),
                n == regs@.len(),
                i <= n,
                arr < self.n_regs(),
                pre.cur_insts_len() < self.cur_insts_len(),
                self.n_regs() < usize::MAX ==> pre.n_regs() <= arr,
                forall|k: int| 0 <= k < regs@.len() ==> (#[trigger] regs@[k]) < self.n_regs(),
                appended(pre.cur_insts(), self.cur_insts(), 1 + i),
                emits_callc(
                    self.cur_insts()[pre.cur_insts().len() as int],
                    arr,
                    Callback::ArrayNew,
                    Seq::empty(),
                ),
                forall|k: int|
                    0 <= k < i ==> emits_call_args(
                        #[trigger] self.cur_insts()[pre.cur_insts().len() as int + 1 + k],
                        Callback::ArrayPush,
                        seq![Operand::Reg(arr), Operand::Reg(regs@[k])],
                    ),
            decreases n - i,
        {
            let e = regs[i];
            self.emit_c(Callback::ArrayPush, args2(Operand::Reg(arr), Operand::Reg(e)));
            i += 1;
        }
        arr
    }

    /// Build the key array of an identifier and ask the namespace for it,
    /// releasing the key afterwards.
    fn build_key_array_get(&mut self, regs: Vec<usize>) -> (r: usize)
        requires
            old(self).inv(),
            old(self).at_open_block(),
            forall|k: int| 0 <= k < regs@.len() ==> (#[trigger] regs@[k]) < old(self).n_regs(),
        ensures
            final(self).inv(),
            final(self).at_open_block(),
            line_step(*old(self), *final(self)),
            r < final(self).n_regs(),
            old(self).cur_insts_len() < final(self).cur_insts_len(),
            final(self).n_regs() < usize::MAX ==> old(self).n_regs() <= r,
            key_read_tail(old(self).cur_insts(), final(self).cur_insts(), r),
    {
        let arr = self.build_array(regs);
        let res = self.build_global_get(arr, true);
        proof {
            assert(key_read_tail_at(old(self).cur_insts(), self.cur_insts(), res, arr));
        }
        res
    }

    /// Lower a call's arguments in order.
    fn build_args(&mut self, args: &Vec<crate::ast::Value>) -> (regs: Vec<usize>)
        requires
            old(self).inv(),
            old(self).at_open_block(),
        ensures
            final(self).inv(),
            final(self).at_open_block(),
            line_step(*old(self), *final(self)),
            forall|k: int| 0 <= k < regs@.len() ==> (#[trigger] regs@[k]) < final(self).n_regs(),
            regs@.len() == args@.len(),
        decreases args@,
    {
        let ghost pre = *self;
        let mut regs: Vec<usize> = Vec::new();
        let n = args.len();
        let mut i: usize = 0;
        while i < n
            invariant
                self.inv(),
                self.at_open_block(),
                line_step(pre, *self),
                n == args@.len(),
                i <= n,
                regs@.len() == i,
                forall|k: int| 0 <= k < regs@.len() ==> (#[trigger] regs@[k]) < self.n_regs(),
            decreases n - i,
        {
            let r = self.build_value(&args[i]);
            regs.push(r);
            i += 1;
        }
        regs
    }

    /// Emit a callback call over argument registers.
    fn emit_call_regs_c(&mut self, cb: Callback, regs: Vec<usize>) -> (r: usize)
        requires
            old(self).inv(),
            old(self).at_open_block(),
            regs@.len() == cb.spec_arity(),
            forall|k: int| 0 <= k < regs@.len() ==> (#[trigger] regs@[k]) < old(self).n_regs(),
        ensures
            final(self).inv(),
            final(self).at_open_block(),
            line_step(*old(self), *final(self)),
            r < final(self).n_regs(),
            old(self).cur_insts_len() < final(self).cur_insts_len(),
            final(self).n_regs() < usize::MAX ==> old(self).n_regs() <= r,
            appended(old(self).cur_insts(), final(self).cur_insts(), 1),
            emits_callc(final(self).cur_insts().last(), r, cb, reg_operands(regs@)),
    {
        let ops = regs_to_operands(regs);
        proof {
            assert(ops@ =~= reg_operands(regs@));
        }
        self.emit_c(cb, ops)
    }

    /// Emit a user-function call over argument registers.
    fn emit_call_regs_u(&mut self, fidx: usize, regs: Vec<usize>) -> (r: usize)
        requires
            old(self).inv(),
            old(self).at_open_block(),
            fidx < old(self).n_funcs(),
            forall|k: int| 0 <= k < regs@.len() ==> (#[trigger] regs@[k]) < old(self).n_regs(),
        ensures
            final(self).inv(),
            final(self).at_open_block(),
            line_step(*old(self), *final(self)),
            r < final(self).n_regs(),
            old(self).cur_insts_len() < final(self).cur_insts_len(),
            final(self).n_regs() < usize::MAX ==> old(self).n_regs() <= r,
            appended(old(self).cur_insts(), final(self).cur_insts(), 1),
            emits_callu(final(self).cur_insts().last(), r, fidx, reg_operands(regs@)),
    {
        let ops = regs_to_operands(regs);
        proof {
            assert(ops@ =~= reg_operands(regs@));
        }
        self.emit_u(fidx, ops)
    }
}

/// Turn a list of register indices into register operands.
fn regs_to_operands(regs: Vec<usize>) -> (ops: Vec<Operand>)
    ensures
        ops@.len() == regs@.len(),
        forall|k: int| 0 <= k < regs@.len() ==> #[trigger] ops@[k] == Operand::Reg(regs@[k]),
{
    let mut ops: Vec<Operand> = Vec::new();
    let n = regs.len();
    let mut i: usize = 0;
    while i < n
        invariant
            n == regs@.len(),
            i <= n,
            ops@.len() == i,
            forall|k: int| 0 <= k < i ==> #[trigger] ops@[k] == Operand::Reg(regs@[k]),
        decreases n - i,
    {
        ops.push(Operand::Reg(regs[i]));
        i += 1;
    }
    ops
}

/// Changing only the instructions of the current block — its terminator, all
/// other blocks, and everything else staying as they were — preserves the
/// invariant, provided the changed block is still sound.
proof fn lemma_touch_cur_block(pre: Builder, post: Builder)
    requires
        pre.inv(),
        step_here(pre, post),
        post.n_blocks() == pre.n_blocks(),
        block_wf(
            post.cur_f().blocks@[pre.cur_block as int],
            post.n_regs(),
            post.n_strings(),
            post.n_funcs(),
            post.n_blocks(),
            post.cur_f().returns_value,
        ),
    ensures
        post.inv(),
{
    assert forall|i: int|
        0 <= i < post.module.funcs@.len() implies func_wf(
        #[trigger] post.module.funcs@[i],
        post.n_strings(),
        post.n_funcs(),
    ) by {
        if i == pre.cur_func {
            let oldf = pre.module.funcs@[i];
            let newf = post.module.funcs@[i];
            assert(func_wf(oldf, pre.n_strings(), pre.n_funcs()));
            assert forall|k: int| 0 <= k < newf.blocks@.len() implies block_wf(
                #[trigger] newf.blocks@[k],
                newf.n_regs as int,
                post.n_strings(),
                post.n_funcs(),
                newf.blocks@.len() as int,
                newf.returns_value,
            ) by {
                if k != pre.cur_block as int {
                    assert(newf.blocks@[k] == oldf.blocks@[k]);
                    lemma_block_wf_mono(
                        oldf.blocks@[k],
                        oldf.n_regs as int,
                        pre.n_strings(),
                        pre.n_funcs(),
                        oldf.blocks@.len() as int,
                        newf.n_regs as int,
                        post.n_strings(),
                        post.n_funcs(),
                        newf.blocks@.len() as int,
                        newf.returns_value,
                    );
                }
            }
        } else {
            assert(post.module.funcs@[i] == pre.module.funcs@[i]);
        }
    }
    assert forall|f: int, b: int|
        0 <= f < post.module.funcs@.len() && 0 <= b < post.module.funcs@[f].blocks@.len() implies (
    post.open@.contains((f, b)) <==> !block_terminated(#[trigger] post.module.funcs@[f].blocks@[b])) by {
        if f == pre.cur_func && b == pre.cur_block {
            assert(post.module.funcs@[f].blocks@[b].term == pre.module.funcs@[f].blocks@[b].term);
        } else if f == pre.cur_func {
            assert(post.module.funcs@[f].blocks@[b] == pre.module.funcs@[f].blocks@[b]);
        } else {
            assert(post.module.funcs@[f] == pre.module.funcs@[f]);
        }
        assert(pre.open@.contains((f, b)) <==> !block_terminated(pre.module.funcs@[f].blocks@[b]));
    }
}

/// Growing the register count of the current function, leaving everything
/// else as it was, preserves the invariant.
proof fn lemma_regs_grow(pre: Builder, post: Builder)
    requires
        pre.inv(),
        step_here(pre, post),
        forall|i: int|
            0 <= i < pre.cur_f().blocks@.len() ==> #[trigger] post.cur_f().blocks@[i]
                == pre.cur_f().blocks@[i],
    ensures
        post.inv(),
{
    assert forall|i: int|
        0 <= i < post.module.funcs@.len() implies func_wf(
        #[trigger] post.module.funcs@[i],
        post.n_strings(),
        post.n_funcs(),
    ) by {
        if i == pre.cur_func {
            let oldf = pre.module.funcs@[i];
            let newf = post.module.funcs@[i];
            assert(func_wf(oldf, pre.n_strings(), pre.n_funcs()));
            assert forall|k: int| 0 <= k < newf.blocks@.len() implies block_wf(
                #[trigger] newf.blocks@[k],
                newf.n_regs as int,
                post.n_strings(),
                post.n_funcs(),
                newf.blocks@.len() as int,
                newf.returns_value,
            ) by {
                assert(newf.blocks@[k] == oldf.blocks@[k]);
                lemma_block_wf_mono(
                    oldf.blocks@[k],
                    oldf.n_regs as int,
                    pre.n_strings(),
                    pre.n_funcs(),
                    oldf.blocks@.len() as int,
                    newf.n_regs as int,
                    post.n_strings(),
                    post.n_funcs(),
                    newf.blocks@.len() as int,
                    newf.returns_value,
                );
            }
        } else {
            assert(post.module.funcs@[i] == pre.module.funcs@[i]);
        }
    }
    assert forall|f: int, b: int|
        0 <= f < post.module.funcs@.len() && 0 <= b < post.module.funcs@[f].blocks@.len() implies (
    post.open@.contains((f, b)) <==> !block_terminated(#[trigger] post.module.funcs@[f].blocks@[b])) by {
        if f == pre.cur_func {
            assert(post.module.funcs@[f].blocks@[b] == pre.module.funcs@[f].blocks@[b]);
        } else {
            assert(post.module.funcs@[f] == pre.module.funcs@[f]);
        }
        assert(pre.open@.contains((f, b)) <==> !block_terminated(pre.module.funcs@[f].blocks@[b]));
    }
}

} // verus!

verus! {

/// Whether lowering the statement emits anything: class, interface and type
/// declarations, `try`/`catch`, `throw` and `for…in` loops lower to nothing.
pub open spec fn statement_emits(s: crate::ast::Statement) -> bool {
    match s {
        crate::ast::Statement::TryCatch(_) => false,
        crate::ast::Statement::Throw(_) => false,
        crate::ast::Statement::Class(_) => false,
        crate::ast::Statement::Interface(_) => false,
        crate::ast::Statement::Type(_) => false,
        crate::ast::Statement::Loop(crate::ast::Loop::ForIn { .. }) => false,
        _ => true,
    }
}

impl Builder {
    /// Read an attribute of an already-emitted value: build the attribute
    /// name, ask for the attribute, and release the name.
    pub fn build_get_attr(&mut self, obj: usize, attr: &str) -> (r: usize)
        requires
            old(self).inv(),
            old(self).at_open_block(),
            obj < old(self).n_regs(),
        ensures
            final(self).inv(),
            final(self).at_open_block(),
            line_step(*old(self), *final(self)),
            r < final(self).n_regs(),
            old(self).cur_insts_len() < final(self).cur_insts_len(),
            final(self).n_regs() < usize::MAX ==> old(self).n_regs() <= r,
            exists|sid: int, n: usize|
                #![trigger emits_callc(
                    final(self).cur_insts()[old(self).cur_insts().len() as int],
                    n,
                    Callback::StringFrom,
                    seq![Operand::StrConst(sid as usize)],
                )]
                0 <= sid < final(self).n_strings() && final(self).module.strings@[sid]@ == attr@
                    && appended(old(self).cur_insts(), final(self).cur_insts(), 3) && emits_callc(
                    final(self).cur_insts()[old(self).cur_insts().len() as int],
                    n,
                    Callback::StringFrom,
                    seq![Operand::StrConst(sid as usize)],
                ) && emits_callc(
                    final(self).cur_insts()[old(self).cur_insts().len() as int + 1],
                    r,
                    Callback::GetAttr,
                    seq![Operand::Reg(obj), Operand::Reg(n)],
                ) && emits_call_args(
                    final(self).cur_insts().last(),
                    Callback::ValueDelete,
                    seq![Operand::Reg(n)],
                ),
    {
        let name = self.build_string(attr);
        let ghost mid1 = *self;
        let res = self.emit_c(Callback::GetAttr, args2(Operand::Reg(obj), Operand::Reg(name)));
        self.emit_c(Callback::ValueDelete, args1(Operand::Reg(name)));
        proof {
            let sid = choose|sid: int|
                0 <= sid < mid1.n_strings() && (#[trigger] mid1.module.strings@[sid])@ == attr@
                    && appended(old(self).cur_insts(), mid1.cur_insts(), 1) && emits_callc(
                    mid1.cur_insts().last(),
                    name,
                    Callback::StringFrom,
                    seq![Operand::StrConst(sid as usize)],
                );
            assert(self.cur_insts()[old(self).cur_insts().len() as int] == mid1.cur_insts().last());
            assert(self.module.strings@[sid]@ == attr@);
            assert(emits_callc(
                self.cur_insts()[old(self).cur_insts().len() as int],
                name,
                Callback::StringFrom,
                seq![Operand::StrConst(sid as usize)],
            ));
            assert(emits_callc(
                self.cur_insts()[old(self).cur_insts().len() as int + 1],
                res,
                Callback::GetAttr,
                seq![Operand::Reg(obj), Operand::Reg(name)],
            ));
            assert(emits_call_args(
                self.cur_insts().last(),
                Callback::ValueDelete,
                seq![Operand::Reg(name)],
            ));
            assert(appended(old(self).cur_insts(), self.cur_insts(), 3));
        }
        res
    }

    /// Lower a statement. The returned register holds the statement's value,
    /// if it produced one: only expression statements do. Declarations store
    /// their value in the namespace and release the key. A `return` inside a
    /// user function emits its value and returns it; at module level it
    /// releases the value and leaves the module, and in both cases lowering
    /// continues on a fresh unreachable block. Class, interface and type
    /// declarations, `try`/`catch` and `throw` are not lowered.
    pub fn build_statement(&mut self, s: &crate::ast::Statement) -> (r: Option<usize>)
        requires
            old(self).inv(),
            old(self).at_open_block(),
        ensures
            final(self).inv(),
            final(self).at_open_block(),
            builder_step(*old(self), *final(self)),
            r matches Some(x) ==> x < final(self).n_regs(),
            statement_emits(*s) ==> old(self).n_blocks() < final(self).n_blocks()
                || old(self).n_funcs() < final(self).n_funcs() || (final(self).cur_block
                == old(self).cur_block && old(self).cur_insts_len() < final(self).cur_insts_len()),
            ((*s) is Const || (*s) is Let) ==> final(self).cur_block == old(self).cur_block
                && store_tail(final(self).cur_insts()),
            (*s) is Return ==> (match final(self).cur_f().blocks@[old(self).cur_block as int].term {
                Some(t) => t is Ret || t is RetVoid,
                None => false,
            }),
        decreases *s, 2int,
    {
        let ghost s0 = *self;
        match s {
            crate::ast::Statement::Const { name, value } | crate::ast::Statement::Let {
                name,
                value,
            } => {
                let owned = String::clone(name);
                let nr = self.build_string(owned.as_str());
                let vr = self.build_value(value);
                self.build_global_set(nr, vr, true);
                proof {
                    lemma_line_step_is_step(s0, *self);
                    assert(store_tail_at(self.cur_insts(), nr, vr));
                }
                None
            },
            crate::ast::Statement::Expression(v) => {
                let r = self.build_value(v);
                proof {
                    lemma_line_step_is_step(s0, *self);
                }
                Some(r)
            },
            crate::ast::Statement::If(ifelse) => {
                self.build_if(ifelse);
                None
            },
            crate::ast::Statement::Switch(sw) => {
                self.build_switch(sw);
                None
            },
            crate::ast::Statement::Loop(lp) => {
                self.build_loop(lp);
                None
            },
            crate::ast::Statement::Return(v) => {
                let r = self.build_value(v);
                let rv = self.returns_value();
                if !rv {
                    self.emit_c(Callback::ValueDelete, args1(Operand::Reg(r)));
                }
                let nb = self.append_block();
                let cur = self.cur_block;
                if rv {
                    self.set_term(cur, Term::Ret(Operand::Reg(r)));
                } else {
                    self.set_term(cur, Term::RetVoid);
                }
                self.set_cur(nb);
                proof {
                    assert(final(self).open@ =~= s0.open@.remove(s0.cur_pair()).insert(
                        final(self).cur_pair(),
                    ));
                }
                None
            },
            crate::ast::Statement::Function(f) => {
                self.build_function(f);
                None
            },
            crate::ast::Statement::TryCatch(_) | crate::ast::Statement::Throw(_)
                | crate::ast::Statement::Class(_) | crate::ast::Statement::Interface(_)
                | crate::ast::Statement::Type(_) => {
                proof {
                    lemma_line_step_is_step(s0, *self);
                }
                None
            },
        }
    }

    fn returns_value(&self) -> (r: bool)
        requires
            self.cur_func < self.module.funcs@.len(),
        ensures
            r == self.cur_f().returns_value,
    {
        self.module.funcs[self.cur_func].returns_value
    }

    /// Lower a block of statements, releasing every statement value but the
    /// last one, which is handed back for a function body's return.
    pub fn build_statements(&mut self, block: &Vec<crate::ast::Statement>) -> (r: Option<usize>)
        requires
            old(self).inv(),
            old(self).at_open_block(),
        ensures
            final(self).inv(),
            final(self).at_open_block(),
            builder_step(*old(self), *final(self)),
            r matches Some(x) ==> x < final(self).n_regs(),
        decreases block@, 3int,
    {
        let ghost s0 = *self;
        proof {
            lemma_line_step_is_step(s0, *self);
        }
        let mut last: Option<usize> = None;
        let n = block.len();
        let mut i: usize = 0;
        while i < n
            invariant
                self.inv(),
                self.at_open_block(),
                builder_step(s0, *self),
                n == block@.len(),
                i <= n,
                last matches Some(x) ==> x < self.n_regs(),
            decreases n - i,
        {
            let ghost mid0 = *self;
            if let Some(r) = last {
                self.emit_c(Callback::ValueDelete, args1(Operand::Reg(r)));
                proof {
                    lemma_line_step_is_step(mid0, *self);
                    lemma_step_trans(s0, mid0, *self);
                }
            }
            let ghost mid1 = *self;
            last = self.build_statement(&block[i]);
            proof {
                lemma_step_trans(s0, mid1, *self);
            }
            i += 1;
        }
        last
    }

    /// Lower a block of statements and release every value they produce.
    pub fn build_statements_drop(&mut self, block: &Vec<crate::ast::Statement>)
        requires
            old(self).inv(),
            old(self).at_open_block(),
        ensures
            final(self).inv(),
            final(self).at_open_block(),
            builder_step(*old(self), *final(self)),
        decreases block@, 4int,
    {
        let ghost s0 = *self;
        let last = self.build_statements(block);
        let ghost mid = *self;
        if let Some(r) = last {
            self.emit_c(Callback::ValueDelete, args1(Operand::Reg(r)));
            proof {
                lemma_line_step_is_step(mid, *self);
                lemma_step_trans(s0, mid, *self);
            }
        }
    }
}

} // verus!

verus! {

impl Builder {
    /// Lower an `if` / `else if` / `else` ladder.
    ///
    /// The insertion point branches to a fresh condition block; the coerced
    /// condition branches to the then-block, or to the first else-if check if
    /// any exists, or else to the else-block. Every arm ends on the merge
    /// block, which becomes the insertion point.
    pub fn build_if(&mut self, stmnt: &crate::ast::IfElse)
        requires
            old(self).inv(),
            old(self).at_open_block(),
        ensures
            final(self).inv(),
            final(self).at_open_block(),
            builder_step(*old(self), *final(self)),
            old(self).n_blocks() + 4 <= final(self).n_blocks(),
            // the old insertion point ends in a jump to the construct's fresh
            // first block, and lowering continues on a fresh block
            final(self).cur_f().blocks@[old(self).cur_block as int].term == Some(
                Term::Br(old(self).n_blocks() as usize),
            ),
            old(self).n_blocks() <= final(self).cur_block as int,
        decreases *stmnt, 5int,
    {
        let ghost s0 = *self;
        let ghost cf = self.cur_func as int;
        let cb0 = self.cur_block;
        let ifblk = self.append_block();
        self.set_term(cb0, Term::Br(ifblk));
        self.set_cur(ifblk);
        let cond = self.build_cmp(&stmnt.expr);
        let thenb = self.append_block();
        let elseb = self.append_block();
        let merge = self.append_block();
        let ghost pe = (cf, elseb as int);
        let ghost pm = (cf, merge as int);
        let first_alt = if stmnt.elseifs.len() > 0 {
            self.append_block()
        } else {
            elseb
        };
        let cur = self.cur_block;
        self.set_term(
            cur,
            Term::CondBr { cond: Operand::Reg(cond), then_to: thenb, else_to: first_alt },
        );
        self.set_cur(thenb);
        self.build_statements_drop(&stmnt.block);
        let cur = self.cur_block;
        self.set_term(cur, Term::Br(merge));
        let ghost base = s0.open@.remove(s0.cur_pair());
        proof {
            assert(self.open@ =~= base.insert((cf, first_alt as int)).insert(pe).insert(pm));
        }
        let mut chk = first_alt;
        let n = stmnt.elseifs.len();
        let mut i: usize = 0;
        while i < n
            invariant
                self.inv(),
                s0.inv(),
                self.cur_func == s0.cur_func,
                self.cur_func as int == cf,
                self.module.main == s0.module.main,
                s0.n_regs() <= self.n_regs(),
                s0.n_blocks() <= self.n_blocks(),
                s0.n_strings() <= self.n_strings(),
                s0.n_funcs() <= self.n_funcs(),
                self.cur_f().returns_value == s0.cur_f().returns_value,
                others_preserved(s0, *self),
                terms_kept(s0, *self),
                self.cur_f().blocks@[s0.cur_block as int].term == Some(
                    Term::Br(s0.n_blocks() as usize),
                ),
                n == stmnt.elseifs@.len(),
                i <= n,
                chk < self.n_blocks(),
                elseb < self.n_blocks(),
                merge < self.n_blocks(),
                pe == (cf, elseb as int),
                pm == (cf, merge as int),
                self.open@ =~= base.insert((cf, chk as int)).insert(pe).insert(pm),
                !base.contains((cf, chk as int)),
                !base.contains(pe),
                !base.contains(pm),
                pe != pm,
                i < n ==> (cf, chk as int) != pe && (cf, chk as int) != pm,
                i == n ==> chk == elseb,
            decreases n - i,
        {
            self.set_cur(chk);
            let bit = self.build_cmp(&stmnt.elseifs[i].expr);
            let body = self.append_block();
            let next = if i + 1 < n {
                self.append_block()
            } else {
                elseb
            };
            let cur = self.cur_block;
            self.set_term(
                cur,
                Term::CondBr { cond: Operand::Reg(bit), then_to: body, else_to: next },
            );
            self.set_cur(body);
            self.build_statements_drop(&stmnt.elseifs[i].block);
            let cur = self.cur_block;
            self.set_term(cur, Term::Br(merge));
            proof {
                assert(self.open@ =~= base.insert((cf, next as int)).insert(pe).insert(pm));
            }
            chk = next;
            i += 1;
        }
        proof {
            assert(self.open@ =~= base.insert(pe).insert(pm));
        }
        self.set_cur(elseb);
        self.build_statements_drop(&stmnt.els);
        let cur = self.cur_block;
        proof {
            assert(self.open@ =~= base.insert(pm).insert((cf, cur as int)));
        }
        self.set_term(cur, Term::Br(merge));
        proof {
            assert(self.open@ =~= base.insert(pm));
        }
        self.set_cur(merge);
        proof {
            assert(self.open@ =~= s0.open@.remove(s0.cur_pair()).insert(self.cur_pair()));
        }
    }

    /// Lower a `switch`. Each case checks the scrutinee against its
    /// expression through the equality callback; a matching case's body jumps
    /// straight to the merge block, so there is no fallthrough. The scrutinee
    /// is released once, on the merge block.
    pub fn build_switch(&mut self, sw: &crate::ast::Switch)
        requires
            old(self).inv(),
            old(self).at_open_block(),
        ensures
            final(self).inv(),
            final(self).at_open_block(),
            builder_step(*old(self), *final(self)),
            old(self).n_blocks() + 3 <= final(self).n_blocks(),
            // the old insertion point ends in a jump to the construct's fresh
            // first block, and lowering continues on a fresh block
            final(self).cur_f().blocks@[old(self).cur_block as int].term == Some(
                Term::Br(old(self).n_blocks() as usize),
            ),
            old(self).n_blocks() <= final(self).cur_block as int,
        decreases *sw, 5int,
    {
        let ghost s0 = *self;
        let ghost cf = self.cur_func as int;
        let cb0 = self.cur_block;
        let swblk = self.append_block();
        self.set_term(cb0, Term::Br(swblk));
        self.set_cur(swblk);
        let exp = self.build_value(&sw.value);
        let default_blk = self.append_block();
        let merge = self.append_block();
        let ghost pd = (cf, default_blk as int);
        let ghost pm = (cf, merge as int);
        let ghost base = s0.open@.remove(s0.cur_pair());
        let n = sw.branches.len();
        if n == 0 {
            let cur = self.cur_block;
            self.set_term(cur, Term::Br(default_blk));
        } else {
            let chk0 = self.append_block();
            let cur = self.cur_block;
            self.set_term(cur, Term::Br(chk0));
            let mut chk = chk0;
            let mut i: usize = 0;
            proof {
                assert(self.open@ =~= base.insert((cf, chk as int)).insert(pd).insert(pm));
            }
            while i < n
                invariant
                    self.inv(),
                    s0.inv(),
                    self.cur_func == s0.cur_func,
                    self.cur_func as int == cf,
                    self.module.main == s0.module.main,
                    s0.n_regs() <= self.n_regs(),
                    s0.n_blocks() <= self.n_blocks(),
                    s0.n_strings() <= self.n_strings(),
                    s0.n_funcs() <= self.n_funcs(),
                    self.cur_f().returns_value == s0.cur_f().returns_value,
                    others_preserved(s0, *self),
                    terms_kept(s0, *self),
                    self.cur_f().blocks@[s0.cur_block as int].term == Some(
                        Term::Br(s0.n_blocks() as usize),
                    ),
                    n == sw.branches@.len(),
                    i <= n,
                    exp < self.n_regs(),
                    chk < self.n_blocks(),
                    default_blk < self.n_blocks(),
                    merge < self.n_blocks(),
                    pd == (cf, default_blk as int),
                    pm == (cf, merge as int),
                    self.open@ =~= base.insert((cf, chk as int)).insert(pd).insert(pm),
                    !base.contains((cf, chk as int)),
                    !base.contains(pd),
                    !base.contains(pm),
                    pd != pm,
                    i < n ==> (cf, chk as int) != pd && (cf, chk as int) != pm,
                    i == n ==> chk == default_blk,
                decreases n - i,
            {
                self.set_cur(chk);
                let caseval = self.build_value(&sw.branches[i].expr);
                let eqr = self.emit_c(
                    Callback::Eq,
                    args2(Operand::Reg(exp), Operand::Reg(caseval)),
                );
                self.emit_c(Callback::ValueDelete, args1(Operand::Reg(caseval)));
                let byte = self.emit_c(Callback::ToBool, args1(Operand::Reg(eqr)));
                self.emit_c(Callback::ValueDelete, args1(Operand::Reg(eqr)));
                let bit = self.emit_icmp(Operand::Reg(byte));
                let body = self.append_block();
                let next = if i + 1 < n {
                    self.append_block()
                } else {
                    default_blk
                };
                let cur = self.cur_block;
                self.set_term(
                    cur,
                    Term::CondBr { cond: Operand::Reg(bit), then_to: body, else_to: next },
                );
                self.set_cur(body);
                self.build_statements_drop(&sw.branches[i].block);
                let cur = self.cur_block;
                self.set_term(cur, Term::Br(merge));
                proof {
                    assert(self.open@ =~= base.insert((cf, next as int)).insert(pd).insert(pm));
                }
                chk = next;
                i += 1;
            }
        }
        proof {
            assert(self.open@ =~= base.insert(pd).insert(pm));
        }
        self.set_cur(default_blk);
        self.build_default(sw);
        let cur = self.cur_block;
        proof {
            assert(self.open@ =~= base.insert(pm).insert((cf, cur as int)));
        }
        self.set_term(cur, Term::Br(merge));
        proof {
            assert(self.open@ =~= base.insert(pm));
        }
        self.set_cur(merge);
        self.emit_c(Callback::ValueDelete, args1(Operand::Reg(exp)));
        proof {
            assert(self.open@ =~= s0.open@.remove(s0.cur_pair()).insert(self.cur_pair()));
        }
    }

    /// Lower a switch's default arm, if it has one.
    fn build_default(&mut self, sw: &crate::ast::Switch)
        requires
            old(self).inv(),
            old(self).at_open_block(),
        ensures
            final(self).inv(),
            final(self).at_open_block(),
            builder_step(*old(self), *final(self)),
        decreases *sw, 4int,
    {
        let ghost s0 = *self;
        match &sw.default {
            Option::Some(d) => {
                self.build_statements_drop(d);
            },
            Option::None => {
                proof {
                    lemma_line_step_is_step(s0, *self);
                }
            },
        }
    }
}

} // verus!

verus! {

impl Builder {
    /// Lower a loop.
    ///
    /// A C-style `for` uses the five-block skeleton init / cond / body /
    /// after / end. A `while` is the same shape without the init and after
    /// stages. A `for…of` drives the iteration protocol: fetch the iterable's
    /// `@iterator` method, call it through its extracted address, and at each
    /// pass call the iterator's `next`, branch on the step object's `done`,
    /// bind its `value` to the loop variable, and run the body. A `for…in` is
    /// not lowered.
    #[verifier::rlimit(80)]
    pub fn build_loop(&mut self, lp: &crate::ast::Loop)
        requires
            old(self).inv(),
            old(self).at_open_block(),
        ensures
            final(self).inv(),
            final(self).at_open_block(),
            builder_step(*old(self), *final(self)),
            (*lp) matches crate::ast::Loop::For { .. }
                ==> old(self).n_blocks() + 5 <= final(self).n_blocks(),
            (*lp) matches crate::ast::Loop::While { .. }
                ==> old(self).n_blocks() + 3 <= final(self).n_blocks(),
            (*lp) matches crate::ast::Loop::ForOf { .. }
                ==> old(self).n_blocks() + 4 <= final(self).n_blocks(),
            !((*lp) matches crate::ast::Loop::ForIn { .. })
                ==> final(self).cur_f().blocks@[old(self).cur_block as int].term == Some(
                Term::Br(old(self).n_blocks() as usize),
            ) && old(self).n_blocks() <= final(self).cur_block as int,
        decreases *lp, 5int,
    {
        let ghost s0 = *self;
        match lp {
            crate::ast::Loop::For { init, cond, after, block } => {
                let cb0 = self.cur_block;
                let for_init = self.append_block();
                self.set_term(cb0, Term::Br(for_init));
                self.set_cur(for_init);
                self.build_statements_drop(init);
                let for_cond = self.append_block();
                let cur = self.cur_block;
                self.set_term(cur, Term::Br(for_cond));
                self.set_cur(for_cond);
                let bit = self.build_cmp(cond);
                let for_block = self.append_block();
                let for_end = self.append_block();
                let cur = self.cur_block;
                self.set_term(
                    cur,
                    Term::CondBr { cond: Operand::Reg(bit), then_to: for_block, else_to: for_end },
                );
                self.set_cur(for_block);
                self.build_statements_drop(block);
                let for_after = self.append_block();
                let cur = self.cur_block;
                self.set_term(cur, Term::Br(for_after));
                self.set_cur(for_after);
                let r = self.build_value(after);
                self.emit_c(Callback::ValueDelete, args1(Operand::Reg(r)));
                let cur = self.cur_block;
                self.set_term(cur, Term::Br(for_cond));
                self.set_cur(for_end);
                proof {
                    assert(self.open@ =~= s0.open@.remove(s0.cur_pair()).insert(self.cur_pair()));
                }
            },
            crate::ast::Loop::While { cond, block } => {
                let cb0 = self.cur_block;
                let w_cond = self.append_block();
                self.set_term(cb0, Term::Br(w_cond));
                self.set_cur(w_cond);
                let bit = self.build_cmp(cond);
                let w_body = self.append_block();
                let w_end = self.append_block();
                let cur = self.cur_block;
                self.set_term(
                    cur,
                    Term::CondBr { cond: Operand::Reg(bit), then_to: w_body, else_to: w_end },
                );
                self.set_cur(w_body);
                self.build_statements_drop(block);
                let cur = self.cur_block;
                self.set_term(cur, Term::Br(w_cond));
                self.set_cur(w_end);
                proof {
                    assert(self.open@ =~= s0.open@.remove(s0.cur_pair()).insert(self.cur_pair()));
                }
            },
            crate::ast::Loop::ForOf { name, value, block } => {
                let cb0 = self.cur_block;
                let init_blk = self.append_block();
                self.set_term(cb0, Term::Br(init_blk));
                self.set_cur(init_blk);
                let owned = String::clone(name);
                let name_reg = self.build_string(owned.as_str());
                let value_reg = self.build_value(value);
                let iter_method = self.build_get_attr(value_reg, "@iterator");
                let iter_addr = self.emit_c(
                    Callback::GetFuncAddr,
                    args1(Operand::Reg(iter_method)),
                );
                self.emit_c(Callback::ValueDelete, args1(Operand::Reg(iter_method)));
                let iter_ref = self.emit_ind(Operand::Reg(iter_addr), args1(Operand::Reg(value_reg)));
                let next_method = self.build_get_attr(iter_ref, "next");
                let next_addr = self.emit_c(
                    Callback::GetFuncAddr,
                    args1(Operand::Reg(next_method)),
                );
                self.emit_c(Callback::ValueDelete, args1(Operand::Reg(next_method)));
                let cond_blk = self.append_block();
                let cur = self.cur_block;
                self.set_term(cur, Term::Br(cond_blk));
                self.set_cur(cond_blk);
                let step_reg = self.emit_ind(Operand::Reg(next_addr), args1(Operand::Reg(iter_ref)));
                let done_reg = self.build_get_attr(step_reg, "done");
                let byte = self.emit_c(Callback::ToBool, args1(Operand::Reg(done_reg)));
                self.emit_c(Callback::ValueDelete, args1(Operand::Reg(done_reg)));
                let bit = self.emit_icmp(Operand::Reg(byte));
                let body_blk = self.append_block();
                let end_blk = self.append_block();
                let cur = self.cur_block;
                self.set_term(
                    cur,
                    Term::CondBr { cond: Operand::Reg(bit), then_to: end_blk, else_to: body_blk },
                );
                self.set_cur(body_blk);
                let value_attr = self.build_get_attr(step_reg, "value");
                self.build_global_set(name_reg, value_attr, false);
                self.emit_c(Callback::ValueDelete, args1(Operand::Reg(step_reg)));
                self.build_statements_drop(block);
                let cur = self.cur_block;
                self.set_term(cur, Term::Br(cond_blk));
                self.set_cur(end_blk);
                self.emit_c(Callback::ValueDelete, args1(Operand::Reg(step_reg)));
                self.emit_c(Callback::ValueDelete, args1(Operand::Reg(iter_ref)));
                self.emit_c(Callback::ValueDelete, args1(Operand::Reg(value_reg)));
                self.emit_c(Callback::ValueDelete, args1(Operand::Reg(name_reg)));
                proof {
                    assert(self.open@ =~= s0.open@.remove(s0.cur_pair()).insert(self.cur_pair()));
                }
            },
            crate::ast::Loop::ForIn { name: _, value: _, block: _ } => {
                proof {
                    lemma_line_step_is_step(s0, *self);
                }
            },
        }
    }

    /// Lower a function definition.
    ///
    /// The function is declared with one boxed parameter per declared
    /// parameter and a boxed result, registered under its name before its
    /// body is lowered so that it can call itself, and its body's last value
    /// — or a fresh null when the body produces none — becomes its return
    /// value. The insertion point is restored afterwards.
    pub fn build_function(&mut self, f: &crate::ast::Function)
        requires
            old(self).inv(),
            old(self).at_open_block(),
        ensures
            final(self).inv(),
            final(self).at_open_block(),
            builder_step(*old(self), *final(self)),
            old(self).n_funcs() < final(self).n_funcs(),
        decreases *f, 5int,
    {
        let ghost s0 = *self;
        let name = match &f.name {
            Option::Some(n) => String::clone(n),
            Option::None => String::from_str("generic"),
        };
        let named = f.name.is_some();
        let fidx = self.push_function(name, f.params.len());
        if named {
            let cache_name = match &f.name {
                Option::Some(n) => String::clone(n),
                Option::None => String::from_str("generic"),
            };
            self.function_cache.push((cache_name, fidx));
            proof {
                assert forall|i: int|
                    0 <= i < self.function_cache@.len() implies (
                #[trigger] self.function_cache@[i]).1 < self.module.funcs@.len() by {
                    if i < self.function_cache@.len() - 1 {
                        assert(self.function_cache@[i] == old(self).function_cache@[i]);
                    }
                }
            }
        }
        let save_f = self.cur_func;
        let save_b = self.cur_block;
        let ghost mid0 = *self;
        self.cur_func = fidx;
        self.cur_block = 0;
        let last = self.build_statements(&f.block);
        let lastr = match last {
            Option::Some(r) => r,
            Option::None => self.emit_c(Callback::GlobalNull, Vec::new()),
        };
        let cur = self.cur_block;
        self.set_term(cur, Term::Ret(Operand::Reg(lastr)));
        self.cur_func = save_f;
        self.cur_block = save_b;
        proof {
            assert(self.at_open_block()) by {
                assert(s0.open@.contains(s0.cur_pair()));
            }
            assert(self.open@ =~= s0.open@.remove(s0.cur_pair()).insert(self.cur_pair()));
        }
    }

    /// Declare a fresh function of the module: one open entry block, no
    /// registers yet, boxed parameters and a boxed result.
    fn push_function(&mut self, name: String, arity: usize) -> (fidx: usize)
        requires
            old(self).inv(),
        ensures
            final(self).inv(),
            fidx as int == old(self).n_funcs(),
            fidx < final(self).n_funcs(),
            final(self).n_funcs() == old(self).n_funcs() + 1,
            final(self).cur_func == old(self).cur_func,
            final(self).cur_block == old(self).cur_block,
            final(self).module.main == old(self).module.main,
            final(self).module.strings == old(self).module.strings,
            final(self).function_cache == old(self).function_cache,
            forall|i: int|
                0 <= i < old(self).module.funcs@.len() ==> #[trigger] final(self).module.funcs@[i]
                    == old(self).module.funcs@[i],
            final(self).module.funcs@[fidx as int].returns_value,
            final(self).module.funcs@[fidx as int].blocks@.len() == 1,
            final(self).open@ == old(self).open@.insert((fidx as int, 0int)),
            !old(self).open@.contains((fidx as int, 0int)),
            terms_kept(*old(self), *final(self)),
    {
        let ghost pre = *self;
        let fidx = self.module.funcs.len();
        self.module.funcs.push(
            IrFunction {
                name,
                arity,
                returns_value: true,
                n_regs: 0,
                blocks: vec![Block { insts: Vec::new(), term: Option::None }],
            },
        );
        proof {
            self.open@ = self.open@.insert((fidx as int, 0int));
        }
        proof {
            let post = *self;
            assert(post.module.funcs@[fidx as int].blocks@.len() == 1);
            assert(post.module.funcs@[fidx as int].blocks@[0].insts@.len() == 0);
            assert forall|i: int|
                0 <= i < post.module.funcs@.len() implies func_wf(
                #[trigger] post.module.funcs@[i],
                post.n_strings(),
                post.n_funcs(),
            ) by {
                if i < fidx as int {
                    assert(post.module.funcs@[i] == pre.module.funcs@[i]);
                    assert(func_wf(pre.module.funcs@[i], pre.n_strings(), pre.n_funcs()));
                    crate::ir::lemma_func_wf_mono(
                        pre.module.funcs@[i],
                        pre.n_strings(),
                        pre.n_funcs(),
                        post.n_strings(),
                        post.n_funcs(),
                    );
                } else {
                    let nf = post.module.funcs@[i];
                    assert(nf.blocks@.len() == 1);
                    assert forall|k: int| 0 <= k < nf.blocks@.len() implies block_wf(
                        #[trigger] nf.blocks@[k],
                        nf.n_regs as int,
                        post.n_strings(),
                        post.n_funcs(),
                        nf.blocks@.len() as int,
                        nf.returns_value,
                    ) by {
                        assert(nf.blocks@[k].insts@.len() == 0);
                    }
                }
            }
            assert forall|ff: int, bb: int|
                0 <= ff < post.module.funcs@.len() && 0 <= bb < post.module.funcs@[ff].blocks@.len()
                    implies (post.open@.contains((ff, bb)) <==> !block_terminated(
                #[trigger] post.module.funcs@[ff].blocks@[bb],
            )) by {
                if ff == fidx as int {
                    assert(bb == 0);
                } else {
                    assert(post.module.funcs@[ff] == pre.module.funcs@[ff]);
                    assert(pre.open@.contains((ff, bb)) <==> !block_terminated(
                        pre.module.funcs@[ff].blocks@[bb],
                    ));
                }
            }
        }
        fidx
    }
}

} // verus!

verus! {

impl Builder {
    /// A builder holding one module with an open entry function and nothing
    /// else.
    fn fresh(name: String, stdlib: bool, id: Option<Vec<u8>>, save_ir: Option<String>) -> (r:
        Builder)
        ensures
            r.inv(),
            r.at_open_block(),
            r.open@ == Set::<(int, int)>::empty().insert((0int, 0int)),
            r.cur_func == 0,
            r.cur_block == 0,
            r.module.main == 0,
            r.module.funcs@.len() == 1,
            r.stdlib == stdlib,
            r.id == id,
            r.save_ir == save_ir,
    {
        let mut funcs: Vec<IrFunction> = Vec::new();
        funcs.push(
            IrFunction {
                name: String::from_str("__main__"),
                arity: 0,
                returns_value: false,
                n_regs: 0,
                blocks: vec![Block { insts: Vec::new(), term: Option::None }],
            },
        );
        let module = IrModule { name, strings: Vec::new(), funcs, main: 0 };
        let r = Builder {
            module,
            cur_func: 0,
            cur_block: 0,
            function_cache: Vec::new(),
            stdlib,
            id,
            save_ir,
            open: Ghost(Set::empty().insert((0int, 0int))),
        };
        proof {
            assert(r.module.funcs@[0].blocks@.len() == 1);
            assert(r.module.funcs@[0].blocks@[0].insts@.len() == 0);
            assert forall|i: int|
                0 <= i < r.module.funcs@.len() implies func_wf(
                #[trigger] r.module.funcs@[i],
                r.n_strings(),
                r.n_funcs(),
            ) by {
                let f = r.module.funcs@[i];
                assert forall|k: int| 0 <= k < f.blocks@.len() implies block_wf(
                    #[trigger] f.blocks@[k],
                    f.n_regs as int,
                    r.n_strings(),
                    r.n_funcs(),
                    f.blocks@.len() as int,
                    f.returns_value,
                ) by {
                    assert(f.blocks@[k].insts@.len() == 0);
                }
            }
        }
        r
    }

    /// A builder with nothing configured yet.
    pub fn new() -> (r: Builder)
        ensures
            r.inv(),
            r.at_open_block(),
            r.id is None,
            r.save_ir is None,
            !r.stdlib,
    {
        Builder::fresh(String::from_str("noname"), false, Option::None, Option::None)
    }

    /// Give the module its identity, normally the hash of its source.
    pub fn id(self, id: Vec<u8>) -> (r: Builder)
        ensures
            r == (Builder { id: Some(id), ..self }),
    {
        Builder { id: Some(id), ..self }
    }

    /// Remember where a textual dump of the finished representation should
    /// go. The library itself never writes a file: the field is an inert
    /// record for the embedding front end to read back and act on.
    pub fn save_ir(self, filename: &str) -> (r: Builder)
        ensures
            r.module == self.module,
            r.stdlib == self.stdlib,
            r.id == self.id,
            r.save_ir matches Some(f) && f@ == filename@,
    {
        Builder { save_ir: Some(String::from_str(filename)), ..self }
    }

    /// Link the standard library: the container callbacks and `print` become
    /// callable from guest code.
    pub fn standard_library(self) -> (r: Builder)
        ensures
            r == (Builder { stdlib: true, ..self }),
    {
        Builder { stdlib: true, ..self }
    }

    /// Compile an abstract syntax tree into a module.
    ///
    /// The module is named by the hexadecimal form of its identity. Every
    /// statement of the tree is lowered into the entry function, which ends
    /// by returning nothing. The finished representation always passes the
    /// module verifier: in particular every emitted basic block carries
    /// exactly one terminator.
    pub fn build(self, module: &crate::ast::Module) -> (r: Result<
        crate::module::Module,
        crate::error::JitError,
    >)
        ensures
            r is Ok,
            r matches Ok(md) ==> crate::ir::module_wf(md.ir) && md.wf(),
            r matches Ok(md) ==> md.spec_id() == (match self.id {
                Some(v) => v@,
                None => Seq::<u8>::empty(),
            }),
    {
        let name = match &self.id {
            Option::Some(v) => crate::text::hex_encode(v),
            Option::None => String::from_str("noname"),
        };
        let idv = match self.id {
            Option::Some(v) => v,
            Option::None => Vec::new(),
        };
        let mut b = Builder::fresh(name, self.stdlib, Option::None, Option::None);
        let ghost s0 = b;
        b.build_statements_drop(&module.statements);
        let cur = b.cur_block;
        b.set_term(cur, Term::RetVoid);
        proof {
            assert(b.open@ =~= Set::<(int, int)>::empty());
            assert forall|i: int|
                0 <= i < b.module.funcs@.len() implies func_terminated(
                #[trigger] b.module.funcs@[i],
            ) by {
                assert forall|k: int|
                    0 <= k < b.module.funcs@[i].blocks@.len() implies block_terminated(
                    #[trigger] b.module.funcs@[i].blocks@[k],
                ) by {
                    assert(!b.open@.contains((i, k)));
                }
            }
            assert(crate::ir::module_wf(b.module));
        }
        let ok = b.module.verify();
        if !ok {
            return Err(
                crate::error::JitError::ModuleVerify(
                    String::from_str("emitted representation rejected"),
                ),
            );
        }
        Ok(crate::module::Module::new(idv, b.module))
    }
}

} // verus!
