use vstd::prelude::*;
use crate::codegen::{CodeGen, ModuleView};
use crate::ir::FuncId;

verus! {

/// Every block of every function of `m` is finished by a terminator.
pub open spec fn module_verifies(m: ModuleView) -> bool {
    forall|f: int, b: int|
        0 <= f < m.funcs.len() && 0 <= b < m.funcs[f].blocks.len() ==> (
        #[trigger] m.funcs[f].blocks[b]).term is Some
}

/// A block that has no terminator.
#[derive(Clone, Copy, Debug, PartialEq, Eq, Structural)]
pub struct VerificationError {
    pub func: FuncId,
    pub block: usize,
}

/// A module whose every block is finished. Only `CodeGen::finish` makes one,
/// so emission never sees a module that failed verification.
pub struct VerifiedModule {
    pub(crate) cg: CodeGen,
}

impl VerifiedModule {
    pub closed spec fn module(&self) -> ModuleView {
        self.cg@
    }

    pub closed spec fn inv(&self) -> bool {
        self.cg@.wf() && module_verifies(self.cg@)
    }

    pub(crate) fn codegen(&self) -> (r: &CodeGen)
        requires
            self.inv(),
        ensures
            r@ == self.module(),
            r@.wf(),
            module_verifies(r@),
    {
        &self.cg
    }
}

impl CodeGen {
    /// Ends construction: the module moves on as a `VerifiedModule` when
    /// every block is finished, and fails with the first unfinished block
    /// otherwise.
    pub fn finish(self) -> (r: Result<VerifiedModule, VerificationError>)
        requires
            self@.wf(),
        ensures
            r is Ok <==> module_verifies(self@),
            r is Ok ==> r->Ok_0.inv() && r->Ok_0.module() == self@,
            r is Err ==> ({
                let e = r->Err_0;
                &&& e.func < self@.funcs.len()
                &&& e.block < self@.funcs[e.func as int].blocks.len()
                &&& self@.funcs[e.func as int].blocks[e.block as int].term is None
            }),
    {
        match self.verify() {
            Ok(()) => Ok(VerifiedModule { cg: self }),
            Err(e) => Err(e),
        }
    }
}

/// A module with a block that has no terminator fails verification, and so
/// never becomes a `VerifiedModule` from which an object is emitted.
pub proof fn unfinished_block_fails_verification(m: ModuleView, f: int, b: int)
    requires
        0 <= f < m.funcs.len(),
        0 <= b < m.funcs[f].blocks.len(),
        m.funcs[f].blocks[b].term is None,
    ensures
        !module_verifies(m),
{
    assert(m.funcs[f].blocks[b].term is None);
}

} // verus!
