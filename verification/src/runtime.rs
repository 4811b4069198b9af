//! The per-process runtime: compiles sources into modules and caches them by
//! source hash, so loading the same source twice reuses the compiled module.

use sha2::Digest;
use vstd::prelude::*;

use crate::ast;
use crate::builder::Builder;
use crate::error::JitError;
use crate::module::Module;

verus! {

/// The digest of a source text.
pub uninterp spec fn sha256_of(s: Seq<char>) -> Seq<u8>;

/// Relies on sha2's Sha256: the 32-byte digest of the source bytes, a
/// function of the source alone.
#[verifier::external_body]
pub(crate) fn source_hash(source: &str) -> (r: Vec<u8>)
    ensures
        r@ == sha256_of(source@),
        r@.len() == 32,
{
    sha2::Sha256::digest(source.as_bytes()).to_vec()
}

/// The position of the cached module with the given identity.
pub open spec fn cache_find(mods: Seq<Module>, id: Seq<u8>) -> Option<int>
    decreases mods.len(),
{
    if mods.len() == 0 {
        None
    } else if mods[0].spec_id() == id {
        Some(0int)
    } else {
        match cache_find(mods.drop_first(), id) {
            Some(i) => Some(i + 1),
            None => None,
        }
    }
}

/// The runtime: a cache of compiled modules keyed by source hash.
pub struct Runtime {
    pub modules: Vec<Module>,
}

impl Runtime {
    pub open spec fn wf(self) -> bool {
        forall|i: int| 0 <= i < self.modules@.len() ==> (#[trigger] self.modules@[i]).wf()
    }

    pub fn new() -> (r: Runtime)
        ensures
            r.wf(),
            r.modules@.len() == 0,
    {
        Runtime { modules: Vec::new() }
    }

    /// Load a parsed source: hash the text, reuse the module cached under
    /// that hash, or else compile the tree, run the fresh module once with
    /// the given fuel, and cache it. Hands back the module's position in the
    /// cache.
    pub fn load_source(&mut self, source: &str, tree: &ast::Module, fuel: u64) -> (r: Result<
        usize,
        JitError,
    >)
        requires
            old(self).wf(),
        ensures
            final(self).wf(),
            r is Ok,
            r matches Ok(i) ==> i < final(self).modules@.len() && final(self).modules@[i as int].spec_id()
                == sha256_of(source@),
            cache_find(old(self).modules@, sha256_of(source@)) is Some ==> final(self).modules
                == old(self).modules,
            cache_find(old(self).modules@, sha256_of(source@)) is None
                ==> final(self).modules@.len() == old(self).modules@.len() + 1,
    {
        let hash = source_hash(source);
        let n = self.modules.len();
        let mut i: usize = 0;
        proof {
            assert(self.modules@.skip(0) =~= self.modules@);
        }
        while i < n
            invariant
                *self == *old(self),
                old(self).wf(),
                hash@ == sha256_of(source@),
                n == self.modules@.len(),
                i <= n,
                (match cache_find(self.modules@.skip(i as int), hash@) {
                    Some(j) => cache_find(self.modules@, hash@) == Some(j + i),
                    None => cache_find(self.modules@, hash@) is None,
                }),
            decreases n - i,
        {
            proof {
                assert(self.modules@.skip(i as int)[0] == self.modules@[i as int]);
                assert(self.modules@.skip(i as int).drop_first() =~= self.modules@.skip(
                    i as int + 1,
                ));
            }
            if vec_u8_eq(&self.modules[i].id, &hash) {
                return Ok(i);
            }
            i += 1;
        }
        proof {
            assert(self.modules@.skip(n as int) =~= Seq::<Module>::empty());
        }
        let builder = Builder::new().id(hash).standard_library();
        let built = builder.build(tree);
        match built {
            Ok(module) => {
                let mut module = module;
                module.run(fuel);
                let idx = self.modules.len();
                self.modules.push(module);
                proof {
                    assert forall|k: int|
                        0 <= k < self.modules@.len() implies (#[trigger] self.modules@[k]).wf() by {
                        if k < self.modules@.len() - 1 {
                            assert(self.modules@[k] == old(self).modules@[k]);
                        }
                    }
                }
                Ok(idx)
            },
            Err(e) => Err(e),
        }
    }

    /// Borrow a cached module.
    pub fn module_at(&self, i: usize) -> (r: &Module)
        requires
            i < self.modules@.len(),
        ensures
            *r == self.modules@[i as int],
    {
        &self.modules[i]
    }
}

/// Byte-vector equality, stated over the views.
fn vec_u8_eq(a: &Vec<u8>, b: &Vec<u8>) -> (r: bool)
    ensures
        r == (a@ == b@),
{
    if a.len() != b.len() {
        proof {
            assert(a@.len() != b@.len());
        }
        return false;
    }
    let n = a.len();
    let mut i: usize = 0;
    while i < n
        invariant
            n == a@.len(),
            b@.len() == n,
            i <= n,
            forall|k: int| 0 <= k < i ==> a@[k] == b@[k],
        decreases n - i,
    {
        if a[i] != b[i] {
            return false;
        }
        i += 1;
    }
    proof {
        assert(a@ =~= b@);
    }
    true
}

} // verus!
