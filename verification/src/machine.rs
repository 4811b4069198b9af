//! The runtime: a heap of reference-counted boxed values, the module-global
//! namespace, and the callbacks that emitted code calls.
//!
//! Every boxed value lives in a heap cell with a strong reference count. A
//! pointer returned or consumed by a callback stands for exactly one strong
//! reference; a count that reaches zero frees the cell and releases the
//! values it owns. The machine never frees memory in the Rust sense — dead
//! cells stay as null tombstones — so cell ids stay stable and a misbehaving
//! caller can at worst raise the fault flag, never touch freed data.

use vstd::prelude::*;

use crate::text::str_eq;

verus! {

/// What a heap cell holds. `Class` wraps a polymorphic instance cell;
/// `ClassArr` and `ClassIter` are the two instance kinds the runtime defines:
/// the array container and its iterator.
#[derive(Debug)]
pub enum Content {
    /// An IEEE-754 binary64 bit pattern.
    Num(u64),
    Bool(bool),
    Str(String),
    /// A plain ordered sequence of shared values.
    Arr(Vec<usize>),
    /// A mapping from owned key to shared value.
    Obj(Vec<(String, usize)>),
    /// A user-defined function's address.
    Func(u64),
    /// A bound method: the instance it is bound to, and a native address.
    Method { class: usize, func: u64 },
    /// A value wrapping a polymorphic instance.
    Class(usize),
    /// An array instance: the elements it owns.
    ClassArr(Vec<usize>),
    /// An array iterator instance: its source array instance and the step
    /// counter.
    ClassIter { array: usize, step: usize },
    Null,
}

/// One heap cell: a strong reference count and the held value. A count of
/// zero marks a dead cell.
#[derive(Debug)]
pub struct Cell {
    pub rc: u64,
    pub content: Content,
}

/// Every cell id a content mentions is within the heap.
pub open spec fn content_ok(c: Content, n: int) -> bool {
    match c {
        Content::Arr(els) => forall|i: int| 0 <= i < els@.len() ==> (#[trigger] els@[i]) < n,
        Content::Obj(kvs) => forall|i: int| 0 <= i < kvs@.len() ==> (#[trigger] kvs@[i]).1 < n,
        Content::Method { class, func: _ } => class < n,
        Content::Class(inst) => inst < n,
        Content::ClassArr(els) => forall|i: int| 0 <= i < els@.len() ==> (#[trigger] els@[i]) < n,
        Content::ClassIter { array, step: _ } => array < n,
        _ => true,
    }
}

/// A content that owns no other cell: releasing it cannot cascade.
pub open spec fn childless(c: Content) -> bool {
    match c {
        Content::Num(_) | Content::Bool(_) | Content::Str(_) | Content::Func(_)
            | Content::Null => true,
        Content::Arr(els) => els@.len() == 0,
        Content::Obj(kvs) => kvs@.len() == 0,
        Content::ClassArr(els) => els@.len() == 0,
        _ => false,
    }
}

/// The first binding of `name` in the namespace list, if any.
pub open spec fn lookup_spec(vars: Seq<(String, usize)>, name: Seq<char>) -> Option<usize>
    decreases vars.len(),
{
    if vars.len() == 0 {
        None
    } else if vars[0].0@ == name {
        Some(vars[0].1)
    } else {
        lookup_spec(vars.drop_first(), name)
    }
}

/// A found binding comes from some entry of the list.
pub proof fn lemma_lookup_found(vars: Seq<(String, usize)>, name: Seq<char>)
    ensures
        lookup_spec(vars, name) matches Some(v) ==> exists|i: int|
            0 <= i < vars.len() && (#[trigger] vars[i]).1 == v && vars[i].0@ == name,
    decreases vars.len(),
{
    if vars.len() == 0 {
    } else if vars[0].0@ == name {
    } else {
        lemma_lookup_found(vars.drop_first(), name);
        let lv = lookup_spec(vars, name);
        if lv is Some {
            let v = lv->Some_0;
            let i = choose|i: int|
                0 <= i < vars.drop_first().len() && (#[trigger] vars.drop_first()[i]).1 == v
                    && vars.drop_first()[i].0@ == name;
            assert(vars[i + 1] == vars.drop_first()[i]);
        }
    }
}

/// What giving up one strong reference does to the cell itself: a count
/// above one steps down with the content kept; the last reference frees the
/// cell; a dead cell is left alone.
pub open spec fn consumed(pre: Cell, post: Cell) -> bool {
    if pre.rc > 1 {
        post.rc == pre.rc - 1 && post.content == pre.content
    } else if pre.rc == 1 {
        post.rc == 0
    } else {
        post == pre
    }
}

/// The execution state of one module: the heap, the namespace, and a fault
/// flag that the machine raises instead of ever faulting for real.
#[derive(Debug)]
pub struct Machine {
    pub heap: Vec<Cell>,
    pub vars: Vec<(String, usize)>,
    pub fault: bool,
}

impl Machine {
    /// Every stored id is in range, and namespace names are unique.
    pub open spec fn inv(self) -> bool {
        &&& forall|i: int|
            0 <= i < self.heap@.len() ==> content_ok(
                (#[trigger] self.heap@[i]).content,
                self.heap@.len() as int,
            )
        &&& forall|i: int|
            0 <= i < self.vars@.len() ==> (#[trigger] self.vars@[i]).1 < self.heap@.len()
        &&& forall|i: int, j: int|
            0 <= i < j < self.vars@.len() ==> (#[trigger] self.vars@[i]).0@ != (
            #[trigger] self.vars@[j]).0@
    }

    pub fn new() -> (r: Machine)
        ensures
            r.inv(),
            r.heap@.len() == 0,
            r.vars@.len() == 0,
            !r.fault,
    {
        Machine { heap: Vec::new(), vars: Vec::new(), fault: false }
    }

    /// Box a value into a fresh cell with one strong reference.
    pub fn alloc_cell(&mut self, c: Content) -> (id: usize)
        requires
            old(self).inv(),
            content_ok(c, old(self).heap@.len() as int),
        ensures
            final(self).inv(),
            id as int == old(self).heap@.len(),
            final(self).heap@ == old(self).heap@.push(Cell { rc: 1, content: c }),
            final(self).vars == old(self).vars,
            final(self).fault == old(self).fault,
    {
        let id = self.heap.len();
        self.heap.push(Cell { rc: 1, content: c });
        proof {
            assert forall|i: int|
                0 <= i < self.heap@.len() implies content_ok(
                (#[trigger] self.heap@[i]).content,
                self.heap@.len() as int,
            ) by {
                if i < self.heap@.len() - 1 {
                    assert(self.heap@[i] == old(self).heap@[i]);
                    lemma_content_ok_grow(
                        self.heap@[i].content,
                        old(self).heap@.len() as int,
                        self.heap@.len() as int,
                    );
                } else {
                    lemma_content_ok_grow(c, old(self).heap@.len() as int, self.heap@.len() as int);
                }
            }
        }
        id
    }

    /// Take one more strong reference on a live cell.
    pub fn retain(&mut self, id: usize)
        requires
            old(self).inv(),
            id < old(self).heap@.len(),
        ensures
            final(self).inv(),
            final(self).heap@.len() == old(self).heap@.len(),
            final(self).vars == old(self).vars,
            forall|k: int|
                0 <= k < old(self).heap@.len() && k != id ==> #[trigger] final(self).heap@[k]
                    == old(self).heap@[k],
            final(self).heap@[id as int].content == old(self).heap@[id as int].content,
            old(self).heap@[id as int].rc < u64::MAX ==> final(self).heap@[id as int].rc == old(
                self,
            ).heap@[id as int].rc + 1 && final(self).fault == old(self).fault,
    {
        let c = &mut self.heap[id];
        if c.rc < u64::MAX {
            c.rc = c.rc + 1;
        } else {
            self.fault = true;
        }
        proof {
            assert forall|i: int|
                0 <= i < self.heap@.len() implies content_ok(
                (#[trigger] self.heap@[i]).content,
                self.heap@.len() as int,
            ) by {
                assert(self.heap@[i].content == old(self).heap@[i].content);
            }
        }
    }

    /// Give up one strong reference. A count that reaches zero frees the
    /// cell and releases everything it owned; `fuel` bounds the cascade and
    /// raises the fault flag if it runs out, which no well-counted heap does.
    pub fn release(&mut self, id: usize, fuel: u64)
        requires
            old(self).inv(),
            id < old(self).heap@.len(),
        ensures
            final(self).inv(),
            final(self).heap@.len() == old(self).heap@.len(),
            final(self).vars == old(self).vars,
            old(self).heap@[id as int].rc > 1 ==> final(self).heap@ == old(self).heap@.update(
                id as int,
                Cell { rc: (old(self).heap@[id as int].rc - 1) as u64, content: old(self).heap@[id as int].content },
            ) && final(self).fault == old(self).fault,
            old(self).heap@[id as int].rc == 1 && childless(old(self).heap@[id as int].content)
                ==> final(self).heap@ == old(self).heap@.update(
                id as int,
                Cell { rc: 0, content: Content::Null },
            ) && final(self).fault == old(self).fault,
            old(self).heap@[id as int].rc == 0 ==> final(self).heap@ == old(self).heap@,
            old(self).heap@[id as int].rc == 1 ==> final(self).heap@[id as int] == (Cell {
                rc: 0,
                content: Content::Null,
            }),
            consumed(old(self).heap@[id as int], final(self).heap@[id as int]),
            forall|k: int|
                0 <= k < old(self).heap@.len() && old(self).heap@[k].rc == 0
                    ==> #[trigger] final(self).heap@[k] == old(self).heap@[k],
            // every touched cell only steps its count down, keeping its
            // content until the count dies
            forall|k: int|
                0 <= k < old(self).heap@.len() ==> #[trigger] final(self).heap@[k]
                    == old(self).heap@[k] || (final(self).heap@[k].rc < old(self).heap@[k].rc
                    && (final(self).heap@[k].content == old(self).heap@[k].content
                    || final(self).heap@[k] == (Cell { rc: 0, content: Content::Null }))),
        decreases fuel,
    {
        let rc = self.heap[id].rc;
        if rc == 0 {
            self.fault = true;
            return;
        }
        if rc > 1 {
            let c = &mut self.heap[id];
            c.rc = rc - 1;
            proof {
                lemma_heap_update_same_content(*old(self), *self, id as int);
                assert(self.heap@ =~= old(self).heap@.update(
                    id as int,
                    Cell { rc: (rc - 1) as u64, content: old(self).heap@[id as int].content },
                ));
            }
            return;
        }
        let children = collect_ids(&self.heap[id].content);
        let ghost pre = *self;
        self.heap[id] = Cell { rc: 0, content: Content::Null };
        proof {
            assert forall|i: int|
                0 <= i < self.heap@.len() implies content_ok(
                (#[trigger] self.heap@[i]).content,
                self.heap@.len() as int,
            ) by {
                if i != id {
                    assert(self.heap@[i] == pre.heap@[i]);
                }
            }
            if childless(old(self).heap@[id as int].content) {
                assert(children@.len() == 0);
                assert(self.heap@ =~= old(self).heap@.update(
                    id as int,
                    Cell { rc: 0, content: Content::Null },
                ));
            }
        }
        let n = children.len();
        if n > 0 && fuel == 0 {
            self.fault = true;
            return;
        }
        let mut i: usize = 0;
        while i < n
            invariant
                self.inv(),
                n == children@.len(),
                i <= n,
                self.heap@.len() == old(self).heap@.len(),
                self.vars == old(self).vars,
                forall|k: int| 0 <= k < children@.len() ==> (#[trigger] children@[k]) < self.heap@.len(),
                n == 0 ==> self.heap@ == old(self).heap@.update(
                    id as int,
                    Cell { rc: 0, content: Content::Null },
                ) && self.fault == old(self).fault,
                n > 0 ==> fuel > 0,
                id < self.heap@.len(),
                self.heap@[id as int] == (Cell { rc: 0, content: Content::Null }),
                forall|k: int|
                    0 <= k < old(self).heap@.len() && old(self).heap@[k].rc == 0
                        ==> #[trigger] self.heap@[k] == old(self).heap@[k],
                forall|k: int|
                    0 <= k < old(self).heap@.len() ==> #[trigger] self.heap@[k]
                        == old(self).heap@[k] || (self.heap@[k].rc < old(self).heap@[k].rc
                        && (self.heap@[k].content == old(self).heap@[k].content
                        || self.heap@[k] == (Cell { rc: 0, content: Content::Null }))),
            decreases n - i,
        {
            let child = children[i];
            self.release(child, fuel - 1);
            i += 1;
        }
    }
}

/// Copy the child cell ids out of a content.
fn collect_ids(c: &Content) -> (r: Vec<usize>)
    ensures
        childless(*c) <==> r@.len() == 0,
        forall|n: int| content_ok(*c, n) ==> forall|i: int| 0 <= i < r@.len() ==> (#[trigger] r@[i]) < n,
{
    let mut out: Vec<usize> = Vec::new();
    match c {
        Content::Arr(els) | Content::ClassArr(els) => {
            let n = els.len();
            let mut i: usize = 0;
            while i < n
                invariant
                    n == els@.len(),
                    i <= n,
                    out@.len() == i,
                    forall|k: int| 0 <= k < i ==> #[trigger] out@[k] == els@[k],
                decreases n - i,
            {
                out.push(els[i]);
                i += 1;
            }
        },
        Content::Obj(kvs) => {
            let n = kvs.len();
            let mut i: usize = 0;
            while i < n
                invariant
                    n == kvs@.len(),
                    i <= n,
                    out@.len() == i,
                    forall|k: int| 0 <= k < i ==> #[trigger] out@[k] == kvs@[k].1,
                decreases n - i,
            {
                out.push(kvs[i].1);
                i += 1;
            }
        },
        Content::Method { class, func: _ } => {
            out.push(*class);
        },
        Content::Class(inst) => {
            out.push(*inst);
        },
        Content::ClassIter { array, step: _ } => {
            out.push(*array);
        },
        Content::Num(_) | Content::Bool(_) | Content::Str(_) | Content::Func(_)
            | Content::Null => {},
    }
    out
}

/// Growing the heap keeps every content sound.
pub proof fn lemma_content_ok_grow(c: Content, n1: int, n2: int)
    requires
        content_ok(c, n1),
        n1 <= n2,
    ensures
        content_ok(c, n2),
{
}

/// A mutation that only changed one cell's count left the invariant alone.
proof fn lemma_heap_update_same_content(pre: Machine, post: Machine, id: int)
    requires
        pre.inv(),
        post.heap@.len() == pre.heap@.len(),
        post.vars == pre.vars,
        0 <= id < pre.heap@.len(),
        forall|k: int| 0 <= k < pre.heap@.len() && k != id ==> #[trigger] post.heap@[k] == pre.heap@[k],
        post.heap@[id].content == pre.heap@[id].content,
    ensures
        post.inv(),
{
    assert forall|i: int|
        0 <= i < post.heap@.len() implies content_ok(
        (#[trigger] post.heap@[i]).content,
        post.heap@.len() as int,
    ) by {
        if i != id {
            assert(post.heap@[i] == pre.heap@[i]);
        }
    }
}

} // verus!

verus! {

/// The namespace after binding `name` to `id`: the first binding of that
/// name is replaced, a missing name is appended.
pub open spec fn set_spec(vars: Seq<(String, usize)>, name: String, id: usize) -> Seq<
    (String, usize),
>
    decreases vars.len(),
{
    if vars.len() == 0 {
        seq![(name, id)]
    } else if vars[0].0@ == name@ {
        seq![(vars[0].0, id)] + vars.drop_first()
    } else {
        seq![vars[0]] + set_spec(vars.drop_first(), name, id)
    }
}

/// Binding a name and then looking it up yields the bound value.
pub proof fn lemma_set_then_lookup(vars: Seq<(String, usize)>, name: String, id: usize)
    ensures
        lookup_spec(set_spec(vars, name, id), name@) == Some(id),
    decreases vars.len(),
{
    if vars.len() == 0 {
        assert(set_spec(vars, name, id) == seq![(name, id)]);
        assert(set_spec(vars, name, id).drop_first() =~= Seq::<(String, usize)>::empty());
    } else if vars[0].0@ == name@ {
        assert(set_spec(vars, name, id)[0] == (vars[0].0, id));
    } else {
        lemma_set_then_lookup(vars.drop_first(), name, id);
        assert(set_spec(vars, name, id).drop_first() =~= set_spec(vars.drop_first(), name, id));
    }
}

/// Binding one name leaves every other name's binding alone.
pub proof fn lemma_set_preserves_others(
    vars: Seq<(String, usize)>,
    name: String,
    id: usize,
    other: Seq<char>,
)
    requires
        other != name@,
    ensures
        lookup_spec(set_spec(vars, name, id), other) == lookup_spec(vars, other),
    decreases vars.len(),
{
    let s = set_spec(vars, name, id);
    if vars.len() == 0 {
        assert(s == seq![(name, id)]);
        assert(s[0] == (name, id));
        assert(s.drop_first() =~= Seq::<(String, usize)>::empty());
        assert(lookup_spec(s, other) == lookup_spec(s.drop_first(), other));
    } else if vars[0].0@ == name@ {
        assert(s[0] == (vars[0].0, id));
        assert(s.len() == vars.len());
        assert(s.drop_first() =~= vars.drop_first());
        assert(lookup_spec(s, other) == lookup_spec(s.drop_first(), other));
        assert(lookup_spec(vars, other) == lookup_spec(vars.drop_first(), other));
    } else {
        lemma_set_preserves_others(vars.drop_first(), name, id, other);
        assert(s[0] == vars[0]);
        assert(s.len() == 1 + set_spec(vars.drop_first(), name, id).len());
        assert(s.drop_first() =~= set_spec(vars.drop_first(), name, id));
        if vars[0].0@ == other {
            assert(lookup_spec(s, other) == Some(vars[0].1));
            assert(lookup_spec(vars, other) == Some(vars[0].1));
        } else {
            assert(lookup_spec(s, other) == lookup_spec(s.drop_first(), other));
            assert(lookup_spec(vars, other) == lookup_spec(vars.drop_first(), other));
        }
    }
}

impl Machine {
    /// Find the cell bound to `name` in the namespace.
    pub fn ns_lookup(&self, name: &str) -> (r: Option<usize>)
        ensures
            r == lookup_spec(self.vars@, name@),
    {
        let n = self.vars.len();
        let mut i: usize = 0;
        proof {
            assert(self.vars@.skip(0) =~= self.vars@);
        }
        while i < n
            invariant
                n == self.vars@.len(),
                i <= n,
                lookup_spec(self.vars@, name@) == lookup_spec(self.vars@.skip(i as int), name@),
                forall|k: int| 0 <= k < i ==> (#[trigger] self.vars@[k]).0@ != name@,
            decreases n - i,
        {
            if str_eq(self.vars[i].0.as_str(), name) {
                proof {
                    assert(self.vars@.skip(i as int)[0] == self.vars@[i as int]);
                }
                let r = self.vars[i].1;
                return Some(r);
            }
            proof {
                assert(self.vars@.skip(i as int).drop_first() =~= self.vars@.skip(i as int + 1));
                assert(self.vars@.skip(i as int)[0] == self.vars@[i as int]);
            }
            i += 1;
        }
        proof {
            assert(self.vars@.skip(n as int) =~= Seq::<(String, usize)>::empty());
        }
        None
    }

    /// Bind `name` to the cell `id`, taking over the one strong reference the
    /// caller held. The heap is untouched: a displaced binding must have been
    /// released by the caller first.
    pub fn ns_update(&mut self, name: String, id: usize)
        requires
            old(self).inv(),
            id < old(self).heap@.len(),
        ensures
            final(self).inv(),
            final(self).heap == old(self).heap,
            final(self).fault == old(self).fault,
            final(self).vars@ == set_spec(old(self).vars@, name, id),
    {
        let ghost pre = *self;
        let n = self.vars.len();
        let mut i: usize = 0;
        while i < n
            invariant
                *self == pre,
                pre == *old(self),
                pre.inv(),
                id < pre.heap@.len(),
                n == self.vars@.len(),
                i <= n,
                forall|k: int| 0 <= k < i ==> (#[trigger] self.vars@[k]).0@ != name@,
            decreases n - i,
        {
            if str_eq(self.vars[i].0.as_str(), name.as_str()) {
                let e = &mut self.vars[i];
                e.1 = id;
                proof {
                    lemma_set_spec_first_match(pre.vars@, name, id, i as int);
                    assert(self.vars@ =~= pre.vars@.update(
                        i as int,
                        (pre.vars@[i as int].0, id),
                    ));
                    assert forall|a: int, j: int|
                        0 <= a < j < self.vars@.len() implies (#[trigger] self.vars@[a]).0@ != (
                    #[trigger] self.vars@[j]).0@ by {
                        assert(self.vars@[a].0 == pre.vars@[a].0);
                        assert(self.vars@[j].0 == pre.vars@[j].0);
                    }
                }
                return;
            }
            i += 1;
        }
        self.vars.push((name, id));
        proof {
            lemma_set_spec_no_match(pre.vars@, name, id);
            assert forall|a: int, j: int|
                0 <= a < j < self.vars@.len() implies (#[trigger] self.vars@[a]).0@ != (
            #[trigger] self.vars@[j]).0@ by {
                if j < self.vars@.len() - 1 {
                    assert(self.vars@[a] == pre.vars@[a]);
                    assert(self.vars@[j] == pre.vars@[j]);
                } else {
                    assert(self.vars@[a] == pre.vars@[a]);
                }
            }
        }
    }
}

/// When index `i` holds the first binding of the name, [`set_spec`] is an
/// update in place.
proof fn lemma_set_spec_first_match(vars: Seq<(String, usize)>, name: String, id: usize, i: int)
    requires
        0 <= i < vars.len(),
        vars[i].0@ == name@,
        forall|k: int| 0 <= k < i ==> (#[trigger] vars[k]).0@ != name@,
    ensures
        set_spec(vars, name, id) == vars.update(i, (vars[i].0, id)),
    decreases i,
{
    if i == 0 {
        assert(set_spec(vars, name, id) =~= vars.update(0, (vars[0].0, id)));
    } else {
        assert(vars.drop_first()[i - 1].0@ == name@);
        assert forall|k: int| 0 <= k < i - 1 implies (#[trigger] vars.drop_first()[k]).0@
            != name@ by {
            assert(vars.drop_first()[k] == vars[k + 1]);
        }
        lemma_set_spec_first_match(vars.drop_first(), name, id, i - 1);
        assert(set_spec(vars, name, id) =~= vars.update(i, (vars[i].0, id)));
    }
}

/// When no binding of the name exists, [`set_spec`] appends one.
proof fn lemma_set_spec_no_match(vars: Seq<(String, usize)>, name: String, id: usize)
    requires
        forall|k: int| 0 <= k < vars.len() ==> (#[trigger] vars[k]).0@ != name@,
    ensures
        set_spec(vars, name, id) == vars.push((name, id)),
    decreases vars.len(),
{
    if vars.len() == 0 {
        assert(set_spec(vars, name, id) =~= vars.push((name, id)));
    } else {
        assert forall|k: int| 0 <= k < vars.drop_first().len() implies (
        #[trigger] vars.drop_first()[k]).0@ != name@ by {
            assert(vars.drop_first()[k] == vars[k + 1]);
        }
        lemma_set_spec_no_match(vars.drop_first(), name, id);
        assert(set_spec(vars, name, id) =~= vars.push((name, id)));
    }
}

} // verus!

verus! {

/// Whether the callback is one of the five arithmetic operations.
pub open spec fn is_arith_cb(cb: crate::ir::Callback) -> bool {
    cb == crate::ir::Callback::Add || cb == crate::ir::Callback::Sub || cb
        == crate::ir::Callback::Mul || cb == crate::ir::Callback::Div || cb
        == crate::ir::Callback::Mod
}

/// Whether the callback is one of the four numeric comparisons.
pub open spec fn is_cmp_cb(cb: crate::ir::Callback) -> bool {
    cb == crate::ir::Callback::Gt || cb == crate::ir::Callback::Gte || cb
        == crate::ir::Callback::Lt || cb == crate::ir::Callback::Lte
}

/// The binary64 pattern an arithmetic callback computes from two number
/// patterns.
pub open spec fn arith_bits(cb: crate::ir::Callback, a: u64, b: u64) -> u64 {
    match cb {
        crate::ir::Callback::Add => crate::num::num_add(a, b),
        crate::ir::Callback::Sub => crate::num::num_sub(a, b),
        crate::ir::Callback::Mul => crate::num::num_mul(a, b),
        crate::ir::Callback::Div => crate::num::num_div(a, b),
        crate::ir::Callback::Mod => crate::num::num_rem(a, b),
        _ => 0,
    }
}

/// What a numeric comparison callback answers on two number patterns.
pub open spec fn cmp_bits(cb: crate::ir::Callback, a: u64, b: u64) -> bool {
    match cb {
        crate::ir::Callback::Gt => crate::num::ieee_gt(a, b),
        crate::ir::Callback::Gte => crate::num::ieee_gte(a, b),
        crate::ir::Callback::Lt => crate::num::ieee_lt(a, b),
        crate::ir::Callback::Lte => crate::num::ieee_lte(a, b),
        _ => false,
    }
}

/// The coercion to a branch bit: a number is false exactly on the two zero
/// patterns, a boolean is itself, a null is false, and everything else —
/// strings, containers, functions, methods, class values — is true.
pub open spec fn truthy(c: Content) -> bool {
    match c {
        Content::Num(b) => !crate::num::is_zero_bits(b),
        Content::Bool(b) => b,
        Content::Null => false,
        _ => true,
    }
}

/// The name a namespace key resolves to: a string's characters; for an array
/// or a container instance, the characters of its first element when that is
/// a string.
pub open spec fn key_name(heap: Seq<Cell>, key: int) -> Option<Seq<char>> {
    if !(0 <= key < heap.len()) {
        None
    } else {
        match heap[key].content {
            Content::Str(s) => Some(s@),
            Content::Arr(a) => {
                if a@.len() > 0 && a@[0] < heap.len() {
                    match heap[a@[0] as int].content {
                        Content::Str(s) => Some(s@),
                        _ => None,
                    }
                } else {
                    None
                }
            },
            Content::Class(inst) => {
                if inst < heap.len() {
                    match heap[inst as int].content {
                        Content::ClassArr(els) => {
                            if els@.len() > 0 && els@[0] < heap.len() {
                                match heap[els@[0] as int].content {
                                    Content::Str(s) => Some(s@),
                                    _ => None,
                                }
                            } else {
                                None
                            }
                        },
                        _ => None,
                    }
                } else {
                    None
                }
            },
            _ => None,
        }
    }
}

impl Machine {
    /// Resolve a namespace key cell to the name it denotes.
    fn resolve_key(&self, key: usize) -> (r: Option<String>)
        requires
            self.inv(),
            key < self.heap@.len(),
        ensures
            r matches Some(s) ==> key_name(self.heap@, key as int) == Some(s@),
            r is None ==> key_name(self.heap@, key as int) is None,
    {
        match &self.heap[key].content {
            Content::Str(s) => Some(String::clone(s)),
            Content::Arr(a) => {
                if a.len() > 0 {
                    let first = a[0];
                    if first < self.heap.len() {
                        match &self.heap[first].content {
                            Content::Str(s) => Some(String::clone(s)),
                            _ => None,
                        }
                    } else {
                        None
                    }
                } else {
                    None
                }
            },
            Content::Class(inst) => {
                let inst = *inst;
                if inst < self.heap.len() {
                    match &self.heap[inst].content {
                        Content::ClassArr(els) => {
                            if els.len() > 0 {
                                let first = els[0];
                                if first < self.heap.len() {
                                    match &self.heap[first].content {
                                        Content::Str(s) => Some(String::clone(s)),
                                        _ => None,
                                    }
                                } else {
                                    None
                                }
                            } else {
                                None
                            }
                        },
                        _ => None,
                    }
                } else {
                    None
                }
            },
            _ => None,
        }
    }

    /// The `global_null` callback: a fresh null.
    pub fn rt_global_null(&mut self) -> (r: usize)
        requires
            old(self).inv(),
        ensures
            final(self).inv(),
            final(self).heap@ == old(self).heap@.push(Cell { rc: 1, content: Content::Null }),
            r as int == old(self).heap@.len(),
            final(self).vars == old(self).vars,
            final(self).fault == old(self).fault,
    {
        self.alloc_cell(Content::Null)
    }

    /// The `global_get` callback: read the namespace under the name the key
    /// resolves to. A bound name hands out one fresh strong reference to the
    /// very cell that is bound; anything else yields a fresh null. The key is
    /// not consumed.
    pub fn rt_global_get(&mut self, key: usize) -> (r: usize)
        requires
            old(self).inv(),
            key < old(self).heap@.len(),
        ensures
            final(self).inv(),
            final(self).vars == old(self).vars,
            r < final(self).heap@.len(),
            old(self).heap@.len() <= final(self).heap@.len(),
            match key_name(old(self).heap@, key as int) {
                Some(n) => match lookup_spec(old(self).vars@, n) {
                    Some(v) => r == v && final(self).heap@.len() == old(self).heap@.len()
                        && final(self).heap@[r as int].content == old(self).heap@[r as int].content
                        && (old(self).heap@[r as int].rc < u64::MAX
                        ==> final(self).heap@[r as int].rc == old(self).heap@[r as int].rc + 1)
                        && forall|k: int|
                        0 <= k < old(self).heap@.len() && k != r ==> #[trigger] final(self).heap@[k]
                            == old(self).heap@[k],
                    None => final(self).heap@ == old(self).heap@.push(
                        Cell { rc: 1, content: Content::Null },
                    ) && r as int == old(self).heap@.len(),
                },
                None => final(self).heap@ == old(self).heap@.push(
                    Cell { rc: 1, content: Content::Null },
                ) && r as int == old(self).heap@.len(),
            },
    {
        let name = self.resolve_key(key);
        match name {
            Some(n) => {
                match self.ns_lookup(n.as_str()) {
                    Some(v) => {
                        proof {
                            lemma_lookup_found(self.vars@, n@);
                        }
                        self.retain(v);
                        v
                    },
                    None => self.alloc_cell(Content::Null),
                }
            },
            None => self.alloc_cell(Content::Null),
        }
    }

    /// The `global_set` callback: bind the name the key resolves to, taking
    /// over the caller's strong reference on the value and releasing any
    /// displaced binding. The handed-over reference is consumed in every
    /// case: a key that resolves to no name leaves the namespace alone and
    /// releases the value — one release for every reference a callback
    /// takes over. The key itself is not consumed.
    pub fn rt_global_set(&mut self, key: usize, val: usize, fuel: u64)
        requires
            old(self).inv(),
            key < old(self).heap@.len(),
            val < old(self).heap@.len(),
        ensures
            final(self).inv(),
            final(self).heap@.len() == old(self).heap@.len(),
            key_name(old(self).heap@, key as int) is None ==> final(self).vars == old(self).vars
                && consumed(old(self).heap@[val as int], final(self).heap@[val as int]) && (
            childless(old(self).heap@[val as int].content) ==> forall|k: int|
                0 <= k < old(self).heap@.len() && k != val ==> #[trigger] final(self).heap@[k]
                    == old(self).heap@[k]),
            match key_name(old(self).heap@, key as int) {
                Some(n) => {
                    &&& lookup_spec(final(self).vars@, n) == Some(val)
                    &&& forall|o: Seq<char>|
                        o != n ==> #[trigger] lookup_spec(final(self).vars@, o) == lookup_spec(
                            old(self).vars@,
                            o,
                        )
                    &&& (lookup_spec(old(self).vars@, n) is None ==> final(self).heap
                        == old(self).heap)
                    &&& (match lookup_spec(old(self).vars@, n) {
                        Some(d) => consumed(
                            old(self).heap@[d as int],
                            final(self).heap@[d as int],
                        ) && (childless(old(self).heap@[d as int].content) ==> forall|k: int|
                            0 <= k < old(self).heap@.len() && k != d
                                ==> #[trigger] final(self).heap@[k] == old(self).heap@[k]),
                        None => true,
                    })
                },
                None => true,
            },
    {
        let name = self.resolve_key(key);
        match name {
            Some(n) => {
                let displaced = self.ns_lookup(n.as_str());
                if let Some(old_id) = displaced {
                    proof {
                        lemma_lookup_found(self.vars@, n@);
                    }
                    self.release(old_id, fuel);
                }
                let ghost pre_vars = self.vars@;
                let owned = String::clone(&n);
                self.ns_update(owned, val);
                proof {
                    lemma_set_then_lookup(pre_vars, owned, val);
                    assert forall|o: Seq<char>| o != n@ implies #[trigger] lookup_spec(
                        self.vars@,
                        o,
                    ) == lookup_spec(pre_vars, o) by {
                        lemma_set_preserves_others(pre_vars, owned, val, o);
                    }
                }
            },
            None => {
                self.release(val, fuel);
            },
        }
    }

    /// The `to_bool` callback: coerce without consuming.
    pub fn rt_to_bool(&self, id: usize) -> (r: bool)
        requires
            self.inv(),
            id < self.heap@.len(),
        ensures
            r == truthy(self.heap@[id as int].content),
    {
        match &self.heap[id].content {
            Content::Num(b) => {
                let b = *b;
                !(b & crate::num::MAG_MASK == 0)
            },
            Content::Bool(b) => *b,
            Content::Null => false,
            _ => true,
        }
    }

    /// An arithmetic callback: numbers combine in double precision; any other
    /// operand makes the result the number zero. Both argument references are
    /// consumed.
    pub fn rt_arith(&mut self, cb: crate::ir::Callback, l: usize, rr: usize, fuel: u64) -> (res:
        usize)
        requires
            old(self).inv(),
            is_arith_cb(cb),
            l < old(self).heap@.len(),
            rr < old(self).heap@.len(),
        ensures
            final(self).inv(),
            final(self).vars == old(self).vars,
            final(self).heap@.len() == old(self).heap@.len() + 1,
            res as int == old(self).heap@.len(),
            final(self).heap@[res as int].content == (match (
                old(self).heap@[l as int].content,
                old(self).heap@[rr as int].content,
            ) {
                (Content::Num(a), Content::Num(b)) => Content::Num(arith_bits(cb, a, b)),
                _ => Content::Num(crate::num::ZERO_BITS),
            }),
            final(self).heap@[res as int].rc == 1,
            l == rr && childless(old(self).heap@[l as int].content) ==> ({
                &&& (old(self).heap@[l as int].rc > 2 ==> final(self).heap@[l as int].rc
                    == old(self).heap@[l as int].rc - 2 && final(self).heap@[l as int].content
                    == old(self).heap@[l as int].content)
                &&& (old(self).heap@[l as int].rc == 2 ==> final(self).heap@[l as int].rc == 0)
                &&& forall|k: int|
                    0 <= k < old(self).heap@.len() && k != l ==> #[trigger] final(self).heap@[k]
                        == old(self).heap@[k]
            }),
            l != rr && childless(old(self).heap@[l as int].content) && childless(
                old(self).heap@[rr as int].content,
            ) ==> consumed(old(self).heap@[l as int], final(self).heap@[l as int]) && consumed(
                old(self).heap@[rr as int],
                final(self).heap@[rr as int],
            ) && (forall|k: int|
                0 <= k < old(self).heap@.len() && k != l && k != rr
                    ==> #[trigger] final(self).heap@[k] == old(self).heap@[k]),
    {
        let la = match &self.heap[l].content {
            Content::Num(a) => Some(*a),
            _ => None,
        };
        let rb = match &self.heap[rr].content {
            Content::Num(b) => Some(*b),
            _ => None,
        };
        self.release(l, fuel);
        self.release(rr, fuel);
        let bits = match (la, rb) {
            (Some(a), Some(b)) => match cb {
                crate::ir::Callback::Add => crate::num::add_bits(a, b),
                crate::ir::Callback::Sub => crate::num::sub_bits(a, b),
                crate::ir::Callback::Mul => crate::num::mul_bits(a, b),
                crate::ir::Callback::Div => crate::num::div_bits(a, b),
                _ => crate::num::rem_bits(a, b),
            },
            _ => crate::num::ZERO_BITS,
        };
        self.alloc_cell(Content::Num(bits))
    }

    /// A numeric comparison callback: numbers order as IEEE-754 doubles; any
    /// other operand makes the answer false. Both argument references are
    /// consumed.
    pub fn rt_cmp(&mut self, cb: crate::ir::Callback, l: usize, rr: usize, fuel: u64) -> (res:
        usize)
        requires
            old(self).inv(),
            is_cmp_cb(cb),
            l < old(self).heap@.len(),
            rr < old(self).heap@.len(),
        ensures
            final(self).inv(),
            final(self).vars == old(self).vars,
            final(self).heap@.len() == old(self).heap@.len() + 1,
            res as int == old(self).heap@.len(),
            final(self).heap@[res as int].content == (match (
                old(self).heap@[l as int].content,
                old(self).heap@[rr as int].content,
            ) {
                (Content::Num(a), Content::Num(b)) => Content::Bool(cmp_bits(cb, a, b)),
                _ => Content::Bool(false),
            }),
            final(self).heap@[res as int].rc == 1,
            l == rr && childless(old(self).heap@[l as int].content) ==> ({
                &&& (old(self).heap@[l as int].rc > 2 ==> final(self).heap@[l as int].rc
                    == old(self).heap@[l as int].rc - 2 && final(self).heap@[l as int].content
                    == old(self).heap@[l as int].content)
                &&& (old(self).heap@[l as int].rc == 2 ==> final(self).heap@[l as int].rc == 0)
                &&& forall|k: int|
                    0 <= k < old(self).heap@.len() && k != l ==> #[trigger] final(self).heap@[k]
                        == old(self).heap@[k]
            }),
            l != rr && childless(old(self).heap@[l as int].content) && childless(
                old(self).heap@[rr as int].content,
            ) ==> consumed(old(self).heap@[l as int], final(self).heap@[l as int]) && consumed(
                old(self).heap@[rr as int],
                final(self).heap@[rr as int],
            ) && (forall|k: int|
                0 <= k < old(self).heap@.len() && k != l && k != rr
                    ==> #[trigger] final(self).heap@[k] == old(self).heap@[k]),
    {
        let la = match &self.heap[l].content {
            Content::Num(a) => Some(*a),
            _ => None,
        };
        let rb = match &self.heap[rr].content {
            Content::Num(b) => Some(*b),
            _ => None,
        };
        self.release(l, fuel);
        self.release(rr, fuel);
        let b = match (la, rb) {
            (Some(a), Some(b)) => match cb {
                crate::ir::Callback::Gt => crate::num::gt_bits(a, b),
                crate::ir::Callback::Gte => crate::num::gte_bits(a, b),
                crate::ir::Callback::Lt => crate::num::lt_bits(a, b),
                _ => crate::num::lte_bits(a, b),
            },
            _ => false,
        };
        self.alloc_cell(Content::Bool(b))
    }

    /// A logical callback: the boolean combination of the two coercions,
    /// with both sides evaluated — there is no short circuit. Both argument
    /// references are consumed.
    pub fn rt_logic(&mut self, and: bool, l: usize, rr: usize, fuel: u64) -> (res: usize)
        requires
            old(self).inv(),
            l < old(self).heap@.len(),
            rr < old(self).heap@.len(),
        ensures
            final(self).inv(),
            final(self).vars == old(self).vars,
            final(self).heap@.len() == old(self).heap@.len() + 1,
            res as int == old(self).heap@.len(),
            final(self).heap@[res as int].content == Content::Bool(
                if and {
                    truthy(old(self).heap@[l as int].content) && truthy(
                        old(self).heap@[rr as int].content,
                    )
                } else {
                    truthy(old(self).heap@[l as int].content) || truthy(
                        old(self).heap@[rr as int].content,
                    )
                },
            ),
            final(self).heap@[res as int].rc == 1,
            l == rr && childless(old(self).heap@[l as int].content) ==> ({
                &&& (old(self).heap@[l as int].rc > 2 ==> final(self).heap@[l as int].rc
                    == old(self).heap@[l as int].rc - 2 && final(self).heap@[l as int].content
                    == old(self).heap@[l as int].content)
                &&& (old(self).heap@[l as int].rc == 2 ==> final(self).heap@[l as int].rc == 0)
                &&& forall|k: int|
                    0 <= k < old(self).heap@.len() && k != l ==> #[trigger] final(self).heap@[k]
                        == old(self).heap@[k]
            }),
            l != rr && childless(old(self).heap@[l as int].content) && childless(
                old(self).heap@[rr as int].content,
            ) ==> consumed(old(self).heap@[l as int], final(self).heap@[l as int]) && consumed(
                old(self).heap@[rr as int],
                final(self).heap@[rr as int],
            ) && (forall|k: int|
                0 <= k < old(self).heap@.len() && k != l && k != rr
                    ==> #[trigger] final(self).heap@[k] == old(self).heap@[k]),
    {
        let lb = self.rt_to_bool(l);
        let rb = self.rt_to_bool(rr);
        self.release(l, fuel);
        self.release(rr, fuel);
        let b = if and {
            lb && rb
        } else {
            lb || rb
        };
        self.alloc_cell(Content::Bool(b))
    }

    /// The `get_func_addr` callback: the native address carried by a function
    /// or bound method, zero for anything else. Nothing is consumed.
    pub fn rt_get_func_addr(&self, id: usize) -> (r: u64)
        requires
            self.inv(),
            id < self.heap@.len(),
        ensures
            r == (match self.heap@[id as int].content {
                Content::Func(f) => f,
                Content::Method { class: _, func } => func,
                _ => 0u64,
            }),
    {
        match &self.heap[id].content {
            Content::Func(f) => *f,
            Content::Method { class: _, func } => *func,
            _ => 0,
        }
    }

    /// The `number_new` callback: box a number pattern.
    pub fn rt_number_new(&mut self, bits: u64) -> (r: usize)
        requires
            old(self).inv(),
        ensures
            final(self).inv(),
            final(self).heap@ == old(self).heap@.push(Cell { rc: 1, content: Content::Num(bits) }),
            r as int == old(self).heap@.len(),
            final(self).vars == old(self).vars,
            final(self).fault == old(self).fault,
    {
        self.alloc_cell(Content::Num(bits))
    }

    /// The boolean factory: box a bit.
    pub fn rt_bool_new(&mut self, b: bool) -> (r: usize)
        requires
            old(self).inv(),
        ensures
            final(self).inv(),
            final(self).heap@ == old(self).heap@.push(Cell { rc: 1, content: Content::Bool(b) }),
            r as int == old(self).heap@.len(),
            final(self).vars == old(self).vars,
            final(self).fault == old(self).fault,
    {
        self.alloc_cell(Content::Bool(b))
    }

    /// The `string_from` callback: box a copy of an interned constant.
    pub fn rt_string_from(&mut self, s: &str) -> (r: usize)
        requires
            old(self).inv(),
        ensures
            final(self).inv(),
            final(self).heap@.len() == old(self).heap@.len() + 1,
            r as int == old(self).heap@.len(),
            final(self).heap@[r as int].content matches Content::Str(t) && t@ == s@,
            final(self).heap@[r as int].rc == 1,
            forall|k: int|
                0 <= k < old(self).heap@.len() ==> #[trigger] final(self).heap@[k] == old(
                    self,
                ).heap@[k],
            final(self).vars == old(self).vars,
            final(self).fault == old(self).fault,
    {
        self.alloc_cell(Content::Str(String::from_str(s)))
    }

    /// The `string_new` callback: a fresh empty string.
    pub fn rt_string_new(&mut self) -> (r: usize)
        requires
            old(self).inv(),
        ensures
            final(self).inv(),
            final(self).heap@.len() == old(self).heap@.len() + 1,
            r as int == old(self).heap@.len(),
            final(self).heap@[r as int].content matches Content::Str(t) && t@ == Seq::<
                char,
            >::empty(),
            final(self).vars == old(self).vars,
    {
        self.alloc_cell(Content::Str(String::new()))
    }

    /// The `string_copy` callback: the argument's reference is consumed and a
    /// reference to the same cell handed back, leaving the count unchanged.
    pub fn rt_string_copy(&self, id: usize) -> (r: usize)
        requires
            self.inv(),
            id < self.heap@.len(),
        ensures
            r == id,
    {
        id
    }
}

} // verus!

verus! {

/// The native address of the array iterator factory.
pub const ADDR_ARRAY_ITERATOR: u64 = 1;

/// The native address of the array iterator's `next`.
pub const ADDR_ARRAY_ITERATOR_NEXT: u64 = 2;

/// User-defined function `i` lives at this address plus `i`.
pub const ADDR_USER_BASE: u64 = 16;

/// What an attribute read hands back: an existing cell with one fresh
/// reference taken, a freshly boxed number, a freshly minted bound method —
/// which retains its instance — or a fresh null.
#[derive(Debug, Clone, Copy, PartialEq, Eq, Structural)]
pub enum AttrOutcome {
    Shared(usize),
    FreshNum(u64),
    FreshMethod { class: usize, func: u64 },
    FreshNull,
}

/// The first value under `name` in an object's entries.
pub open spec fn obj_find_spec(kvs: Seq<(String, usize)>, name: Seq<char>) -> Option<usize>
    decreases kvs.len(),
{
    if kvs.len() == 0 {
        None
    } else if kvs[0].0@ == name {
        Some(kvs[0].1)
    } else {
        obj_find_spec(kvs.drop_first(), name)
    }
}

/// A found object entry comes from some entry of the list.
pub proof fn lemma_obj_find_found(kvs: Seq<(String, usize)>, name: Seq<char>)
    ensures
        obj_find_spec(kvs, name) matches Some(v) ==> exists|i: int|
            0 <= i < kvs.len() && (#[trigger] kvs[i]).1 == v,
    decreases kvs.len(),
{
    if kvs.len() == 0 {
    } else if kvs[0].0@ == name {
    } else {
        lemma_obj_find_found(kvs.drop_first(), name);
        let lv = obj_find_spec(kvs, name);
        if lv is Some {
            let v = lv->Some_0;
            let i = choose|i: int|
                0 <= i < kvs.drop_first().len() && (#[trigger] kvs.drop_first()[i]).1 == v;
            assert(kvs[i + 1] == kvs.drop_first()[i]);
        }
    }
}

/// What `get_attr` does, as a function of the heap: an object looks the name
/// up in its entries; an array instance answers numeric indices, `length`,
/// and `@iterator`; an iterator instance answers `next`; everything else is
/// a fresh null.
pub open spec fn attr_outcome(heap: Seq<Cell>, obj: int, name: int) -> AttrOutcome {
    if !(0 <= obj < heap.len()) || !(0 <= name < heap.len()) {
        AttrOutcome::FreshNull
    } else {
        match heap[obj].content {
            Content::Obj(kvs) => match heap[name].content {
                Content::Str(s) => match obj_find_spec(kvs@, s@) {
                    Some(v) => AttrOutcome::Shared(v),
                    None => AttrOutcome::FreshNull,
                },
                _ => AttrOutcome::FreshNull,
            },
            Content::Class(inst) => class_get_outcome(heap, inst as int, name),
            _ => AttrOutcome::FreshNull,
        }
    }
}

/// What a polymorphic instance answers to `get`.
pub open spec fn class_get_outcome(heap: Seq<Cell>, inst: int, name: int) -> AttrOutcome {
    if !(0 <= inst < heap.len()) {
        AttrOutcome::FreshNull
    } else {
        match heap[inst].content {
            Content::ClassArr(els) => match heap[name].content {
                Content::Num(bits) => {
                    let idx = crate::num::trunc_bits(bits);
                    if idx < els@.len() {
                        AttrOutcome::Shared(els@[idx as int])
                    } else {
                        AttrOutcome::FreshNull
                    }
                },
                Content::Str(s) => if s@ == "length"@ {
                    AttrOutcome::FreshNum(crate::num::num_of_u64(els@.len() as u64))
                } else if s@ == "@iterator"@ {
                    AttrOutcome::FreshMethod { class: inst as usize, func: ADDR_ARRAY_ITERATOR }
                } else {
                    AttrOutcome::FreshNull
                },
                _ => AttrOutcome::FreshNull,
            },
            Content::ClassIter { array: _, step: _ } => match heap[name].content {
                Content::Str(s) => if s@ == "next"@ {
                    AttrOutcome::FreshMethod { class: inst as usize, func: ADDR_ARRAY_ITERATOR_NEXT }
                } else {
                    AttrOutcome::FreshNull
                },
                _ => AttrOutcome::FreshNull,
            },
            _ => AttrOutcome::FreshNull,
        }
    }
}

impl Machine {
    /// Decide what an attribute read does, without touching anything.
    fn attr_plan(&self, obj: usize, name: usize) -> (p: AttrOutcome)
        requires
            self.inv(),
            obj < self.heap@.len(),
            name < self.heap@.len(),
        ensures
            p == attr_outcome(self.heap@, obj as int, name as int),
    {
        match &self.heap[obj].content {
            Content::Obj(kvs) => {
                match &self.heap[name].content {
                    Content::Str(s) => {
                        let n = kvs.len();
                        let mut i: usize = 0;
                        proof {
                            assert(kvs@.skip(0) =~= kvs@);
                        }
                        while i < n
                            invariant
                                n == kvs@.len(),
                                i <= n,
                                obj < self.heap@.len(),
                                name < self.heap@.len(),
                                self.heap@[obj as int].content == Content::Obj(*kvs),
                                self.heap@[name as int].content == Content::Str(*s),
                                obj_find_spec(kvs@, s@) == obj_find_spec(kvs@.skip(i as int), s@),
                            decreases n - i,
                        {
                            if str_eq(kvs[i].0.as_str(), s.as_str()) {
                                proof {
                                    assert(kvs@.skip(i as int)[0] == kvs@[i as int]);
                                }
                                return AttrOutcome::Shared(kvs[i].1);
                            }
                            proof {
                                assert(kvs@.skip(i as int).drop_first() =~= kvs@.skip(i as int + 1));
                                assert(kvs@.skip(i as int)[0] == kvs@[i as int]);
                            }
                            i += 1;
                        }
                        proof {
                            assert(kvs@.skip(n as int) =~= Seq::<(String, usize)>::empty());
                        }
                        AttrOutcome::FreshNull
                    },
                    _ => AttrOutcome::FreshNull,
                }
            },
            Content::Class(inst) => {
                let inst = *inst;
                match &self.heap[inst].content {
                    Content::ClassArr(els) => {
                        match &self.heap[name].content {
                            Content::Num(bits) => {
                                let idx = crate::num::trunc_index(*bits);
                                if idx < els.len() as u64 {
                                    AttrOutcome::Shared(els[idx as usize])
                                } else {
                                    AttrOutcome::FreshNull
                                }
                            },
                            Content::Str(s) => {
                                if str_eq(s.as_str(), "length") {
                                    AttrOutcome::FreshNum(crate::num::u64_to_bits(els.len() as u64))
                                } else if str_eq(s.as_str(), "@iterator") {
                                    AttrOutcome::FreshMethod {
                                        class: inst,
                                        func: ADDR_ARRAY_ITERATOR,
                                    }
                                } else {
                                    AttrOutcome::FreshNull
                                }
                            },
                            _ => AttrOutcome::FreshNull,
                        }
                    },
                    Content::ClassIter { array: _, step: _ } => {
                        match &self.heap[name].content {
                            Content::Str(s) => {
                                if str_eq(s.as_str(), "next") {
                                    AttrOutcome::FreshMethod {
                                        class: inst,
                                        func: ADDR_ARRAY_ITERATOR_NEXT,
                                    }
                                } else {
                                    AttrOutcome::FreshNull
                                }
                            },
                            _ => AttrOutcome::FreshNull,
                        }
                    },
                    _ => AttrOutcome::FreshNull,
                }
            },
            _ => AttrOutcome::FreshNull,
        }
    }

    /// The `get_attr` callback. Neither argument is consumed; the result is
    /// one fresh strong reference as [`attr_outcome`] describes.
    pub fn rt_get_attr(&mut self, obj: usize, name: usize) -> (res: usize)
        requires
            old(self).inv(),
            obj < old(self).heap@.len(),
            name < old(self).heap@.len(),
        ensures
            final(self).inv(),
            final(self).vars == old(self).vars,
            res < final(self).heap@.len(),
            old(self).heap@.len() <= final(self).heap@.len(),
            attr_post(*old(self), *final(self), obj as int, name as int, res),
    {
        let plan = self.attr_plan(obj, name);
        proof {
            assert(content_ok(self.heap@[obj as int].content, self.heap@.len() as int));
            let oc = self.heap@[obj as int].content;
            let nc = self.heap@[name as int].content;
            if oc is Class {
                assert(content_ok(self.heap@[oc->Class_0 as int].content, self.heap@.len() as int));
            }
            if oc is Obj && nc is Str {
                lemma_obj_find_found(oc->Obj_0@, nc->Str_0@);
            }
        }
        match plan {
            AttrOutcome::Shared(v) => {
                self.retain(v);
                v
            },
            AttrOutcome::FreshNum(b) => self.alloc_cell(Content::Num(b)),
            AttrOutcome::FreshMethod { class, func } => {
                self.retain(class);
                self.alloc_cell(Content::Method { class, func })
            },
            AttrOutcome::FreshNull => self.alloc_cell(Content::Null),
        }
    }
}

/// How the heap after an attribute read relates to the heap before it, per
/// the read's [`attr_outcome`]: an existing cell is handed out with one more
/// strong reference and nothing else moves; a fresh number or null is purely
/// appended; a fresh method is appended while its instance gains the one
/// reference the method holds.
pub open spec fn attr_post(pre: Machine, post: Machine, obj: int, name: int, res: usize) -> bool {
    match attr_outcome(pre.heap@, obj, name) {
        AttrOutcome::Shared(v) => res == v && post.heap@.len() == pre.heap@.len()
            && post.heap@[res as int].content == pre.heap@[res as int].content && (
        pre.heap@[res as int].rc < u64::MAX ==> post.heap@[res as int].rc == pre.heap@[res as int].rc
            + 1) && (forall|k: int|
            0 <= k < pre.heap@.len() && k != res ==> #[trigger] post.heap@[k] == pre.heap@[k]),
        AttrOutcome::FreshNum(b) => post.heap@ == pre.heap@.push(
            Cell { rc: 1, content: Content::Num(b) },
        ) && res as int == pre.heap@.len(),
        AttrOutcome::FreshMethod { class, func } => post.heap@.len() == pre.heap@.len() + 1
            && res as int == pre.heap@.len() && post.heap@[res as int] == (Cell {
            rc: 1,
            content: Content::Method { class, func },
        }) && post.heap@[class as int].content == pre.heap@[class as int].content && (
        pre.heap@[class as int].rc < u64::MAX ==> post.heap@[class as int].rc
            == pre.heap@[class as int].rc + 1) && (forall|k: int|
            0 <= k < pre.heap@.len() && k != class ==> #[trigger] post.heap@[k] == pre.heap@[k]),
        AttrOutcome::FreshNull => post.heap@ == pre.heap@.push(
            Cell { rc: 1, content: Content::Null },
        ) && res as int == pre.heap@.len(),
    }
}

} // verus!

verus! {

/// Find the first value bound under a key in an object's entries.
fn obj_find(kvs: &Vec<(String, usize)>, key: &str) -> (r: Option<usize>)
    ensures
        r == obj_find_spec(kvs@, key@),
{
    let n = kvs.len();
    let mut i: usize = 0;
    proof {
        assert(kvs@.skip(0) =~= kvs@);
    }
    while i < n
        invariant
            n == kvs@.len(),
            i <= n,
            obj_find_spec(kvs@, key@) == obj_find_spec(kvs@.skip(i as int), key@),
        decreases n - i,
    {
        proof {
            assert(kvs@.skip(i as int)[0] == kvs@[i as int]);
            assert(kvs@.skip(i as int).drop_first() =~= kvs@.skip(i as int + 1));
        }
        if str_eq(kvs[i].0.as_str(), key) {
            let v = kvs[i].1;
            return Some(v);
        }
        i += 1;
    }
    proof {
        assert(kvs@.skip(n as int) =~= Seq::<(String, usize)>::empty());
    }
    None
}

/// Structural equality of two boxed values: numbers by IEEE-754 equality, booleans, strings, functions and bound
/// methods by payload, arrays element by element, objects as mappings —
/// each entry matched by key, whatever the insertion order — null equal to
/// null, two class values never equal, and
/// any cross-variant pair unequal. The fuel bounds the recursion; any heap
/// whose cells only point downward is decided long before a fuel of its
/// length runs out.
pub open spec fn val_eq(heap: Seq<Cell>, a: int, b: int, fuel: nat) -> bool
    decreases fuel,
{
    if fuel == 0 || !(0 <= a < heap.len()) || !(0 <= b < heap.len()) {
        false
    } else {
        match (heap[a].content, heap[b].content) {
            (Content::Num(x), Content::Num(y)) => crate::num::ieee_eq(x, y),
            (Content::Bool(x), Content::Bool(y)) => x == y,
            (Content::Str(x), Content::Str(y)) => x@ == y@,
            (Content::Arr(x), Content::Arr(y)) => x@.len() == y@.len() && (forall|i: int|
                0 <= i < x@.len() ==> val_eq(
                    heap,
                    (#[trigger] x@[i]) as int,
                    y@[i] as int,
                    (fuel - 1) as nat,
                )),
            (Content::Obj(x), Content::Obj(y)) => x@.len() == y@.len() && (forall|i: int|
                0 <= i < x@.len() ==> (match obj_find_spec(y@, (#[trigger] x@[i]).0@) {
                    Some(v) => val_eq(heap, x@[i].1 as int, v as int, (fuel - 1) as nat),
                    None => false,
                })),
            (Content::Func(x), Content::Func(y)) => x == y,
            (Content::Method { class: _, func: x }, Content::Method { class: _, func: y }) => x
                == y,
            (Content::Null, Content::Null) => true,
            _ => false,
        }
    }
}

impl Machine {
    /// Decide structural equality.
    pub fn val_eq_exec(&self, a: usize, b: usize, fuel: u64) -> (r: bool)
        requires
            self.inv(),
        ensures
            r == val_eq(self.heap@, a as int, b as int, fuel as nat),
        decreases fuel,
    {
        if fuel == 0 {
            return false;
        }
        if !(a < self.heap.len()) || !(b < self.heap.len()) {
            return false;
        }
        match &self.heap[a].content {
            Content::Num(x) => {
                match &self.heap[b].content {
                    Content::Num(y) => crate::num::eq_bits(*x, *y),
                    _ => false,
                }
            },
            Content::Bool(x) => {
                match &self.heap[b].content {
                    Content::Bool(y) => *x == *y,
                    _ => false,
                }
            },
            Content::Str(x) => {
                match &self.heap[b].content {
                    Content::Str(y) => str_eq(x.as_str(), y.as_str()),
                    _ => false,
                }
            },
            Content::Arr(x) => {
                match &self.heap[b].content {
                    Content::Arr(y) => {
                        if x.len() != y.len() {
                            return false;
                        }
                        let n = x.len();
                        let mut i: usize = 0;
                        while i < n
                            invariant
                                self.inv(),
                                fuel >= 1,
                                a < self.heap@.len(),
                                b < self.heap@.len(),
                                self.heap@[a as int].content == Content::Arr(*x),
                                self.heap@[b as int].content == Content::Arr(*y),
                                n == x@.len(),
                                y@.len() == n,
                                i <= n,
                                forall|k: int|
                                    0 <= k < i ==> val_eq(
                                        self.heap@,
                                        (#[trigger] x@[k]) as int,
                                        y@[k] as int,
                                        (fuel - 1) as nat,
                                    ),
                            decreases n - i,
                        {
                            if !self.val_eq_exec(x[i], y[i], fuel - 1) {
                                return false;
                            }
                            i += 1;
                        }
                        true
                    },
                    _ => false,
                }
            },
            Content::Obj(x) => {
                match &self.heap[b].content {
                    Content::Obj(y) => {
                        if x.len() != y.len() {
                            return false;
                        }
                        let n = x.len();
                        let mut i: usize = 0;
                        while i < n
                            invariant
                                self.inv(),
                                fuel >= 1,
                                a < self.heap@.len(),
                                b < self.heap@.len(),
                                self.heap@[a as int].content == Content::Obj(*x),
                                self.heap@[b as int].content == Content::Obj(*y),
                                n == x@.len(),
                                y@.len() == n,
                                i <= n,
                                forall|k: int|
                                    0 <= k < i ==> (match obj_find_spec(
                                        y@,
                                        (#[trigger] x@[k]).0@,
                                    ) {
                                        Some(v) => val_eq(
                                            self.heap@,
                                            x@[k].1 as int,
                                            v as int,
                                            (fuel - 1) as nat,
                                        ),
                                        None => false,
                                    }),
                            decreases n - i,
                        {
                            match obj_find(y, x[i].0.as_str()) {
                                Some(v) => {
                                    if !self.val_eq_exec(x[i].1, v, fuel - 1) {
                                        return false;
                                    }
                                },
                                None => {
                                    return false;
                                },
                            }
                            i += 1;
                        }
                        true
                    },
                    _ => false,
                }
            },
            Content::Func(x) => {
                match &self.heap[b].content {
                    Content::Func(y) => *x == *y,
                    _ => false,
                }
            },
            Content::Method { class: _, func: x } => {
                match &self.heap[b].content {
                    Content::Method { class: _, func: y } => *x == *y,
                    _ => false,
                }
            },
            Content::Null => {
                match &self.heap[b].content {
                    Content::Null => true,
                    _ => false,
                }
            },
            _ => false,
        }
    }

    /// The fuel the equality callbacks run with: one more than the heap is
    /// long, which decides any downward-pointing heap.
    pub open spec fn eq_fuel(self) -> nat {
        (if self.heap@.len() < u64::MAX { self.heap@.len() + 1 } else { self.heap@.len() }) as nat
    }

    /// The `eq` and `neq` callbacks: a fresh boolean answering structural
    /// equality, negated for `neq`.
    ///
    /// Ownership deviates deliberately from the arithmetic convention:
    /// neither argument is consumed here, and emitted code releases both
    /// right after the call. A consuming equality callback would free a
    /// switch scrutinee on its first case check while every later check
    /// still passes it — a double free — so the non-consuming convention is
    /// the one the reference-count discipline admits.
    pub fn rt_eq(&mut self, neq: bool, l: usize, rr: usize) -> (res: usize)
        requires
            old(self).inv(),
            l < old(self).heap@.len(),
            rr < old(self).heap@.len(),
        ensures
            final(self).inv(),
            final(self).vars == old(self).vars,
            final(self).heap@.len() == old(self).heap@.len() + 1,
            res as int == old(self).heap@.len(),
            forall|k: int|
                0 <= k < old(self).heap@.len() ==> #[trigger] final(self).heap@[k] == old(
                    self,
                ).heap@[k],
            final(self).heap@[res as int].content == Content::Bool(
                if neq {
                    !val_eq(old(self).heap@, l as int, rr as int, old(self).eq_fuel())
                } else {
                    val_eq(old(self).heap@, l as int, rr as int, old(self).eq_fuel())
                },
            ),
            final(self).heap@[res as int].rc == 1,
    {
        let len = self.heap.len() as u64;
        let fuel = if len < u64::MAX {
            len + 1
        } else {
            len
        };
        let e = self.val_eq_exec(l, rr, fuel);
        let b = if neq {
            !e
        } else {
            e
        };
        self.alloc_cell(Content::Bool(b))
    }

    /// The `array_new` callback: a fresh empty array instance wrapped in a
    /// fresh class value.
    pub fn rt_array_new(&mut self) -> (res: usize)
        requires
            old(self).inv(),
        ensures
            final(self).inv(),
            final(self).vars == old(self).vars,
            final(self).heap@.len() == old(self).heap@.len() + 2,
            res as int == old(self).heap@.len() + 1,
            final(self).heap@[res as int].content == Content::Class(
                (old(self).heap@.len()) as usize,
            ),
            final(self).heap@[old(self).heap@.len() as int].content matches Content::ClassArr(els)
                && els@.len() == 0,
    {
        let inst = self.alloc_cell(Content::ClassArr(Vec::new()));
        self.alloc_cell(Content::Class(inst))
    }

    /// The `array_push` callback: append the value to the array the class
    /// value wraps, taking over the caller's reference on the value. A
    /// target that is no array leaves the reference unclaimed.
    pub fn rt_array_push(&mut self, arr: usize, v: usize)
        requires
            old(self).inv(),
            arr < old(self).heap@.len(),
            v < old(self).heap@.len(),
        ensures
            final(self).inv(),
            final(self).vars == old(self).vars,
            final(self).fault == old(self).fault,
            final(self).heap@.len() == old(self).heap@.len(),
            match old(self).heap@[arr as int].content {
                Content::Class(inst) => match old(self).heap@[inst as int].content {
                    Content::ClassArr(els) => {
                        &&& final(self).heap@[inst as int].content matches Content::ClassArr(els2)
                            && els2@ == els@.push(v)
                        &&& final(self).heap@[inst as int].rc == old(self).heap@[inst as int].rc
                        &&& forall|k: int|
                            0 <= k < old(self).heap@.len() && k != inst
                                ==> #[trigger] final(self).heap@[k] == old(self).heap@[k]
                    },
                    _ => final(self).heap@ == old(self).heap@,
                },
                _ => final(self).heap@ == old(self).heap@,
            },
    {
        let target = match &self.heap[arr].content {
            Content::Class(inst) => Some(*inst),
            _ => None,
        };
        match target {
            Some(inst) => {
                proof {
                    assert(content_ok(self.heap@[arr as int].content, self.heap@.len() as int));
                }
                let mut tmp = Content::Null;
                let cellref = &mut self.heap[inst];
                core::mem::swap(&mut tmp, &mut cellref.content);
                let ghost mid = *self;
                match tmp {
                    Content::ClassArr(els) => {
                        let mut els = els;
                        els.push(v);
                        let c2 = &mut self.heap[inst];
                        c2.content = Content::ClassArr(els);
                        proof {
                            assert forall|k: int|
                                0 <= k < old(self).heap@.len() && k != inst implies
                                #[trigger] self.heap@[k] == old(self).heap@[k] by {
                                assert(self.heap@[k] == mid.heap@[k]);
                                assert(mid.heap@[k] == old(self).heap@[k]);
                            }
                        }
                    },
                    other => {
                        let c2 = &mut self.heap[inst];
                        c2.content = other;
                        proof {
                            assert(self.heap@ =~= old(self).heap@);
                        }
                    },
                }
                proof {
                    assert forall|i: int|
                        0 <= i < self.heap@.len() implies content_ok(
                        (#[trigger] self.heap@[i]).content,
                        self.heap@.len() as int,
                    ) by {
                        if i != inst {
                            assert(self.heap@[i] == old(self).heap@[i]);
                        } else {
                            assert(content_ok(
                                old(self).heap@[inst as int].content,
                                self.heap@.len() as int,
                            ));
                        }
                    }
                }
            },
            None => {},
        }
    }

}

/// A step object: one strong reference, entries `value` and `done` in that
/// order, pointing at the given cells.
pub open spec fn step_object(cell: Cell, value_id: usize, done_id: usize) -> bool {
    &&& cell.rc == 1
    &&& cell.content matches Content::Obj(kvs) && kvs@.len() == 2 && kvs@[0].0@ == "value"@
        && kvs@[0].1 == value_id && kvs@[1].0@ == "done"@ && kvs@[1].1 == done_id
}

/// The exhausted answer of the iteration protocol: a fresh null, a fresh
/// true bit, and a fresh step object over them, purely appended.
pub open spec fn iter_done_post(pre: Machine, post: Machine, res: usize) -> bool {
    &&& post.heap@.len() == pre.heap@.len() + 3
    &&& res as int == pre.heap@.len() + 2
    &&& post.heap@[pre.heap@.len() as int] == (Cell { rc: 1, content: Content::Null })
    &&& post.heap@[pre.heap@.len() as int + 1] == (Cell { rc: 1, content: Content::Bool(true) })
    &&& step_object(
        post.heap@[res as int],
        pre.heap@.len() as usize,
        (pre.heap@.len() + 1) as usize,
    )
    &&& forall|k: int| 0 <= k < pre.heap@.len() ==> #[trigger] post.heap@[k] == pre.heap@[k]
}

/// What `array_iterator_next` does. While elements remain, the iterator's
/// step counter advances by one and the step object carries one fresh
/// reference to the element and a false `done`; in every other case —
/// exhausted, or anything that is no iterator over an array — the exhausted
/// answer comes back and nothing else moves. The in-range clauses are
/// guarded against the degenerate case of an array containing its own
/// iterator cell.
pub open spec fn iter_next_post(pre: Machine, post: Machine, itval: int, res: usize) -> bool {
    match pre.heap@[itval].content {
        Content::Class(inst) => match pre.heap@[inst as int].content {
            Content::ClassIter { array, step } => match pre.heap@[array as int].content {
                Content::ClassArr(els) => if step < els@.len() {
                    let e = els@[step as int];
                    (e != inst) ==> ({
                        &&& post.heap@.len() == pre.heap@.len() + 2
                        &&& res as int == pre.heap@.len() + 1
                        &&& post.heap@[inst as int].content == (Content::ClassIter {
                            array,
                            step: (step + 1) as usize,
                        })
                        &&& post.heap@[inst as int].rc == pre.heap@[inst as int].rc
                        &&& post.heap@[e as int].content == pre.heap@[e as int].content
                        &&& (pre.heap@[e as int].rc < u64::MAX ==> post.heap@[e as int].rc
                            == pre.heap@[e as int].rc + 1)
                        &&& post.heap@[pre.heap@.len() as int] == (Cell {
                            rc: 1,
                            content: Content::Bool(false),
                        })
                        &&& step_object(post.heap@[res as int], e, pre.heap@.len() as usize)
                        &&& forall|k: int|
                            0 <= k < pre.heap@.len() && k != inst as int && k != e as int
                                ==> #[trigger] post.heap@[k] == pre.heap@[k]
                    })
                } else {
                    iter_done_post(pre, post, res)
                },
                _ => iter_done_post(pre, post, res),
            },
            _ => iter_done_post(pre, post, res),
        },
        _ => iter_done_post(pre, post, res),
    }
}

impl Machine {
    /// The `array_iterator` callback: a fresh iterator over the array the
    /// class value wraps, holding one strong reference to the array instance
    /// for the iterator's lifetime; anything that wraps no instance yields a
    /// fresh null. The argument is not consumed.
    pub fn rt_array_iterator(&mut self, arrval: usize) -> (res: usize)
        requires
            old(self).inv(),
            arrval < old(self).heap@.len(),
        ensures
            final(self).inv(),
            final(self).vars == old(self).vars,
            res < final(self).heap@.len(),
            old(self).heap@.len() <= final(self).heap@.len(),
            match old(self).heap@[arrval as int].content {
                Content::Class(inst) => {
                    &&& final(self).heap@.len() == old(self).heap@.len() + 2
                    &&& res as int == old(self).heap@.len() + 1
                    &&& final(self).heap@[old(self).heap@.len() as int] == (Cell {
                        rc: 1,
                        content: Content::ClassIter { array: inst, step: 0 },
                    })
                    &&& final(self).heap@[res as int].content matches Content::Class(it)
                        && it as int == old(self).heap@.len()
                    &&& final(self).heap@[res as int].rc == 1
                    &&& final(self).heap@[inst as int].content
                        == old(self).heap@[inst as int].content
                    &&& (old(self).heap@[inst as int].rc < u64::MAX
                        ==> final(self).heap@[inst as int].rc
                        == old(self).heap@[inst as int].rc + 1)
                    &&& forall|k: int|
                        0 <= k < old(self).heap@.len() && k != inst
                            ==> #[trigger] final(self).heap@[k] == old(self).heap@[k]
                },
                _ => final(self).heap@ == old(self).heap@.push(
                    Cell { rc: 1, content: Content::Null },
                ) && res as int == old(self).heap@.len(),
            },
    {
        let target = match &self.heap[arrval].content {
            Content::Class(inst) => Some(*inst),
            _ => None,
        };
        match target {
            Some(inst) => {
                proof {
                    assert(content_ok(
                        self.heap@[arrval as int].content,
                        self.heap@.len() as int,
                    ));
                }
                self.retain(inst);
                let it_inst = self.alloc_cell(Content::ClassIter { array: inst, step: 0 });
                self.alloc_cell(Content::Class(it_inst))
            },
            None => self.alloc_cell(Content::Null),
        }
    }

    /// The `array_iterator_next` callback: step the iterator the class value
    /// wraps, as [`iter_next_post`] describes. While elements remain, the
    /// step object holds one fresh reference to the next element and a false
    /// `done`; afterwards a null and a true `done`. The argument is not
    /// consumed.
    pub fn rt_array_iterator_next(&mut self, itval: usize) -> (res: usize)
        requires
            old(self).inv(),
            itval < old(self).heap@.len(),
        ensures
            final(self).inv(),
            final(self).vars == old(self).vars,
            res < final(self).heap@.len(),
            old(self).heap@.len() <= final(self).heap@.len(),
            iter_next_post(*old(self), *final(self), itval as int, res),
    {
        let target = match &self.heap[itval].content {
            Content::Class(inst) => Some(*inst),
            _ => None,
        };
        proof {
            assert(content_ok(self.heap@[itval as int].content, self.heap@.len() as int));
        }
        let iter = match target {
            Some(inst) => {
                match &self.heap[inst].content {
                    Content::ClassIter { array, step } => Some((inst, *array, *step)),
                    _ => None,
                }
            },
            None => None,
        };
        match iter {
            Some((inst, array, step)) => {
                proof {
                    assert(content_ok(
                        self.heap@[inst as int].content,
                        self.heap@.len() as int,
                    ));
                }
                let elem = match &self.heap[array].content {
                    Content::ClassArr(els) => {
                        if step < els.len() {
                            proof {
                                assert(content_ok(
                                    self.heap@[array as int].content,
                                    self.heap@.len() as int,
                                ));
                            }
                            Some(els[step])
                        } else {
                            None
                        }
                    },
                    _ => None,
                };
                match elem {
                    Some(e) => {
                        self.retain(e);
                        let c = &mut self.heap[inst];
                        c.content = Content::ClassIter { array, step: step + 1 };
                        proof {
                            assert forall|i: int|
                                0 <= i < self.heap@.len() implies content_ok(
                                (#[trigger] self.heap@[i]).content,
                                self.heap@.len() as int,
                            ) by {}
                        }
                        let done = self.alloc_cell(Content::Bool(false));
                        self.alloc_cell(
                            Content::Obj(
                                vec![(String::from_str("value"), e), (String::from_str("done"), done)],
                            ),
                        )
                    },
                    None => {
                        let nul = self.alloc_cell(Content::Null);
                        let done = self.alloc_cell(Content::Bool(true));
                        self.alloc_cell(
                            Content::Obj(
                                vec![
                                    (String::from_str("value"), nul),
                                    (String::from_str("done"), done),
                                ],
                            ),
                        )
                    },
                }
            },
            None => {
                let nul = self.alloc_cell(Content::Null);
                let done = self.alloc_cell(Content::Bool(true));
                self.alloc_cell(
                    Content::Obj(
                        vec![(String::from_str("value"), nul), (String::from_str("done"), done)],
                    ),
                )
            },
        }
    }

}

/// What the container `set` does. When the target wraps an array, the key is
/// a number, and its truncation is in range, the element there is replaced:
/// the displaced element loses the array's strong reference and the stored
/// value's handed-over reference is now owned by the array. Everything else
/// — an out-of-range index, a non-numeric key, a target that is no array —
/// changes nothing, leaving the handed-over reference unclaimed. The exact
/// clauses are guarded against the degenerate aliasing cases a cascading
/// release could disturb.
pub open spec fn class_set_post(pre: Machine, post: Machine, obj: int, key: int, val: usize) -> bool {
    match pre.heap@[obj].content {
        Content::Class(inst) => match pre.heap@[inst as int].content {
            Content::ClassArr(els) => match pre.heap@[key].content {
                Content::Num(bits) => {
                    let idx = crate::num::trunc_bits(bits);
                    if idx < usize::MAX as u64 && idx < els@.len() {
                        let d = els@[idx as int];
                        (d != inst as int && (pre.heap@[d as int].rc > 1 || childless(
                            pre.heap@[d as int].content,
                        ))) ==> ({
                            &&& post.heap@[inst as int].content matches Content::ClassArr(els2)
                                && els2@ == els@.update(idx as int, val)
                            &&& post.heap@[inst as int].rc == pre.heap@[inst as int].rc
                            &&& consumed(pre.heap@[d as int], post.heap@[d as int])
                            &&& forall|k: int|
                                0 <= k < pre.heap@.len() && k != inst as int && k != d
                                    ==> #[trigger] post.heap@[k] == pre.heap@[k]
                        })
                    } else {
                        post.heap@ == pre.heap@
                    }
                },
                _ => post.heap@ == pre.heap@,
            },
            _ => post.heap@ == pre.heap@,
        },
        _ => post.heap@ == pre.heap@,
    }
}

impl Machine {
    /// The `set` half of the container capability: store `val` under a
    /// numeric key of the array the class value wraps, releasing the element
    /// it displaces and taking over the caller's reference. An out-of-range
    /// index, a non-numeric key, or a target that is no array changes
    /// nothing and leaves the reference unclaimed.
    pub fn rt_class_set(&mut self, obj: usize, key: usize, val: usize, fuel: u64)
        requires
            old(self).inv(),
            obj < old(self).heap@.len(),
            key < old(self).heap@.len(),
            val < old(self).heap@.len(),
        ensures
            final(self).inv(),
            final(self).vars == old(self).vars,
            final(self).heap@.len() == old(self).heap@.len(),
            class_set_post(*old(self), *final(self), obj as int, key as int, val),
            // whatever cascades, every touched cell other than the array
            // instance only steps its count down until it dies
            forall|k: int|
                0 <= k < old(self).heap@.len() && (match old(self).heap@[obj as int].content {
                    Content::Class(inst) => k != inst as int,
                    _ => true,
                }) ==> #[trigger] final(self).heap@[k] == old(self).heap@[k]
                    || (final(self).heap@[k].rc < old(self).heap@[k].rc
                    && (final(self).heap@[k].content == old(self).heap@[k].content
                    || final(self).heap@[k] == (Cell { rc: 0, content: Content::Null }))),
    {
        let target = match &self.heap[obj].content {
            Content::Class(inst) => Some(*inst),
            _ => None,
        };
        let idx = match &self.heap[key].content {
            Content::Num(bits) => {
                let t = crate::num::trunc_index(*bits);
                if t < usize::MAX as u64 {
                    Some(t as usize)
                } else {
                    None
                }
            },
            _ => None,
        };
        match (target, idx) {
            (Some(inst), Some(i)) => {
                proof {
                    assert(content_ok(self.heap@[obj as int].content, self.heap@.len() as int));
                }
                let displaced = match &self.heap[inst].content {
                    Content::ClassArr(els) => {
                        if i < els.len() {
                            proof {
                                assert(content_ok(
                                    self.heap@[inst as int].content,
                                    self.heap@.len() as int,
                                ));
                            }
                            Some(els[i])
                        } else {
                            None
                        }
                    },
                    _ => None,
                };
                match displaced {
                    Some(old_elem) => {
                        self.release(old_elem, fuel);
                        let ghost pre = *self;
                        let mut tmp = Content::Null;
                        let cellref = &mut self.heap[inst];
                        core::mem::swap(&mut tmp, &mut cellref.content);
                        match tmp {
                            Content::ClassArr(els) => {
                                let mut els = els;
                                if i < els.len() {
                                    els[i] = val;
                                }
                                let c2 = &mut self.heap[inst];
                                c2.content = Content::ClassArr(els);
                            },
                            other => {
                                let c2 = &mut self.heap[inst];
                                c2.content = other;
                            },
                        }
                        proof {
                            assert forall|k: int|
                                0 <= k < self.heap@.len() implies content_ok(
                                (#[trigger] self.heap@[k]).content,
                                self.heap@.len() as int,
                            ) by {
                                if k != inst {
                                    assert(self.heap@[k] == pre.heap@[k]);
                                } else {
                                    assert(content_ok(
                                        pre.heap@[inst as int].content,
                                        pre.heap@.len() as int,
                                    ));
                                }
                            }
                            let d = old_elem as int;
                            if d != inst as int && (old(self).heap@[d].rc > 1 || childless(
                                old(self).heap@[d].content,
                            )) {
                                assert(pre.heap@[inst as int] == old(self).heap@[inst as int]);
                                assert(self.heap@[inst as int].rc == pre.heap@[inst as int].rc);
                                assert(consumed(old(self).heap@[d], pre.heap@[d]));
                                assert(self.heap@[d] == pre.heap@[d]);
                                assert forall|k: int|
                                    0 <= k < old(self).heap@.len() && k != inst as int && k != d
                                        implies #[trigger] self.heap@[k] == old(self).heap@[k] by {
                                    assert(self.heap@[k] == pre.heap@[k]);
                                    assert(pre.heap@[k] == old(self).heap@[k]);
                                }
                            }
                        }
                    },
                    None => {},
                }
            },
            _ => {},
        }
    }

    /// The `print` callback, modeled as effect-free: the host binding writes
    /// to its own output, the machine only hands back a fresh null. What a
    /// guest program prints is therefore not observable through the library.
    pub fn rt_print(&mut self, _v: usize) -> (res: usize)
        requires
            old(self).inv(),
        ensures
            final(self).inv(),
            final(self).heap@ == old(self).heap@.push(Cell { rc: 1, content: Content::Null }),
            res as int == old(self).heap@.len(),
            final(self).vars == old(self).vars,
    {
        self.alloc_cell(Content::Null)
    }
}

} // verus!
