//! A compiled module: the verified representation, its execution state, and
//! the identity it is cached under.

use vstd::prelude::*;

use crate::engine::{run_function, Outcome};
use crate::ir::{module_wf, IrModule};
use crate::machine::{lookup_spec, Cell, Content, Machine};

verus! {

/// A compiled module. It owns the execution engine's state — the heap and
/// the namespace — for its whole lifetime.
#[derive(Debug)]
pub struct Module {
    pub id: Vec<u8>,
    pub ir: IrModule,
    pub machine: Machine,
}

impl Module {
    /// A compiled module is always verifier-clean with a sound machine.
    pub open spec fn wf(self) -> bool {
        &&& module_wf(self.ir)
        &&& self.machine.inv()
    }

    pub open spec fn spec_id(self) -> Seq<u8> {
        self.id@
    }

    /// Wrap a verified representation with a fresh namespace.
    pub fn new(id: Vec<u8>, ir: IrModule) -> (r: Module)
        requires
            module_wf(ir),
        ensures
            r.wf(),
            r.ir == ir,
            r.spec_id() == id@,
            r.machine.vars@.len() == 0,
            r.machine.heap@.len() == 0,
    {
        Module { id, ir, machine: Machine::new() }
    }

    /// The module's identity: the hash of the source it was compiled from.
    pub fn id(&self) -> (r: Vec<u8>)
        ensures
            r@ == self.spec_id(),
    {
        let mut out: Vec<u8> = Vec::new();
        let n = self.id.len();
        let mut i: usize = 0;
        while i < n
            invariant
                n == self.id@.len(),
                i <= n,
                out@ == self.id@.subrange(0, i as int),
            decreases n - i,
        {
            out.push(self.id[i]);
            proof {
                assert(out@ =~= self.id@.subrange(0, i + 1));
            }
            i += 1;
        }
        proof {
            assert(self.id@.subrange(0, n as int) =~= self.id@);
        }
        out
    }

    /// Execute the entry function against the module's namespace. Running
    /// mutates only the machine — never the compiled representation or the
    /// module's identity.
    pub fn run(&mut self, fuel: u64) -> (o: Outcome)
        requires
            old(self).wf(),
        ensures
            final(self).wf(),
            final(self).ir == old(self).ir,
            final(self).spec_id() == old(self).spec_id(),
    {
        let mut out: Option<usize> = None;
        let main = self.ir.main;
        run_function(&self.ir, &mut self.machine, main, fuel, &mut out)
    }

    /// Read a namespace variable that holds a number, as its bit pattern.
    pub fn global_number(&self, name: &str) -> (r: Option<u64>)
        requires
            self.wf(),
        ensures
            match lookup_spec(self.machine.vars@, name@) {
                Some(id) => r == (match self.machine.heap@[id as int].content {
                    Content::Num(b) => Some(b),
                    _ => None::<u64>,
                }),
                None => r is None,
            },
    {
        match self.machine.ns_lookup(name) {
            Some(id) => {
                proof {
                    crate::machine::lemma_lookup_found(self.machine.vars@, name@);
                }
                match &self.machine.heap[id].content {
                    Content::Num(b) => Some(*b),
                    _ => None,
                }
            },
            None => None,
        }
    }

    /// Read a namespace variable that holds a boolean.
    pub fn global_bool(&self, name: &str) -> (r: Option<bool>)
        requires
            self.wf(),
        ensures
            match lookup_spec(self.machine.vars@, name@) {
                Some(id) => r == (match self.machine.heap@[id as int].content {
                    Content::Bool(b) => Some(b),
                    _ => None::<bool>,
                }),
                None => r is None,
            },
    {
        match self.machine.ns_lookup(name) {
            Some(id) => {
                proof {
                    crate::machine::lemma_lookup_found(self.machine.vars@, name@);
                }
                match &self.machine.heap[id].content {
                    Content::Bool(b) => Some(*b),
                    _ => None,
                }
            },
            None => None,
        }
    }

    /// How many variables the namespace holds.
    pub fn global_count(&self) -> (r: usize)
        ensures
            r == self.machine.vars@.len(),
    {
        self.machine.vars.len()
    }

    /// How many heap cells still carry a strong reference. The tests use it
    /// to observe that after running the lowered scenarios, exactly the
    /// values the namespace keeps alive remain; that every program's emitted
    /// code balances its references is not a proved theorem of this crate.
    pub fn live_cells(&self) -> (r: usize)
        ensures
            r as int == live_count(self.machine.heap@, self.machine.heap@.len() as int),
    {
        let n = self.machine.heap.len();
        let mut count: usize = 0;
        let mut i: usize = 0;
        while i < n
            invariant
                n == self.machine.heap@.len(),
                i <= n,
                count as int == live_count(self.machine.heap@, i as int),
                count <= i,
            decreases n - i,
        {
            if self.machine.heap[i].rc > 0 {
                count += 1;
            }
            i += 1;
        }
        count
    }
}

/// How many of the first `n` cells are alive.
pub open spec fn live_count(heap: Seq<Cell>, n: int) -> int
    decreases n,
{
    if n <= 0 {
        0
    } else {
        live_count(heap, n - 1) + (if heap[n - 1].rc > 0 {
            1int
        } else {
            0int
        })
    }
}

} // verus!
