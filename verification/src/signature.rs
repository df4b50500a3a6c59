//! What placement needs to know of a library function: which placements each
//! parameter accepts, and what each branch does to the stack and defines.

use vstd::prelude::*;
use crate::program::TypeId;

verus! {

/// The form of a value that has not been written to a cell yet.
#[derive(Clone, Copy, Debug, PartialEq, Eq, Hash, Structural)]
pub enum DeferredVariableKind {
    /// A compile-time literal.
    Const,
    /// A base plus a compile-time offset.
    AddConst,
    /// Any other deferred form.
    Generic,
}

/// Which deferred forms a parameter accepts without a store.
#[derive(Clone, Copy, Debug, PartialEq, Eq, Hash, Structural)]
pub struct ParamSignature {
    pub allow_deferred: bool,
    pub allow_add_const: bool,
    pub allow_const: bool,
}

impl ParamSignature {
    /// Whether a deferred value of the given kind may be passed as it is.
    pub open spec fn allows(self, kind: DeferredVariableKind) -> bool {
        match kind {
            DeferredVariableKind::Const => self.allow_const,
            DeferredVariableKind::AddConst => self.allow_add_const,
            DeferredVariableKind::Generic => self.allow_deferred,
        }
    }

    /// Whether a deferred value of the given kind may be passed as it is.
    pub fn accepts(&self, kind: DeferredVariableKind) -> (r: bool)
        ensures
            r == self.allows(kind),
    {
        match kind {
            DeferredVariableKind::Const => self.allow_const,
            DeferredVariableKind::AddConst => self.allow_add_const,
            DeferredVariableKind::Generic => self.allow_deferred,
        }
    }
}

/// The change of the stack pointer that a branch causes.
#[derive(Clone, Copy, Debug, PartialEq, Eq, Hash, Structural)]
pub enum ApChange {
    /// The stack pointer moves by a known number of cells.
    Known(u64),
    /// The branch aligns the stack pointer with that of its sibling branches.
    BranchAlign,
    /// The movement of the stack pointer is not known statically.
    Unknown,
}

/// How a branch makes one of its results available.
#[derive(Clone, Copy, Debug, PartialEq, Eq, Hash, Structural)]
pub enum OutputKind {
    /// A new cell on top of the stack; `slot` numbers the new cells of the branch.
    NewTempVar { slot: u64 },
    /// A new frame cell.
    NewLocalVar,
    /// A deferred value of the given kind.
    Deferred { kind: DeferredVariableKind },
    /// The placement of the argument with the given index, unchanged.
    SameAsParam { param_idx: usize },
}

/// Type and placement of one result of a branch.
#[derive(Clone, Copy, Debug, PartialEq, Eq, Hash, Structural)]
pub struct OutputVarInfo {
    pub ty: TypeId,
    pub kind: OutputKind,
}

/// What one branch of a library function defines and does to the stack.
#[derive(Clone, Debug, PartialEq, Eq, Hash)]
pub struct BranchSignature {
    /// One entry per result, in result order.
    pub vars: Vec<OutputVarInfo>,
    pub ap_change: ApChange,
}

/// The signature of a library function.
#[derive(Clone, Debug, PartialEq, Eq, Hash)]
pub struct LibfuncSignature {
    /// One entry per argument, in argument order.
    pub param_signatures: Vec<ParamSignature>,
    /// One entry per branch, in branch order.
    pub branch_signatures: Vec<BranchSignature>,
}

/// Information about a library function that placement needs.
#[derive(Clone, Debug, PartialEq, Eq, Hash)]
pub struct LibfuncInfo {
    pub signature: LibfuncSignature,
}

/// Mathematical view of a [`BranchSignature`].
pub struct BranchSignatureView {
    pub vars: Seq<OutputVarInfo>,
    pub ap_change: ApChange,
}

/// Mathematical view of a [`LibfuncSignature`].
pub struct LibfuncSignatureView {
    pub param_signatures: Seq<ParamSignature>,
    pub branch_signatures: Seq<BranchSignatureView>,
}

/// Mathematical view of a [`LibfuncInfo`].
pub struct LibfuncInfoView {
    pub signature: LibfuncSignatureView,
}

impl View for BranchSignature {
    type V = BranchSignatureView;

    open spec fn view(&self) -> BranchSignatureView {
        BranchSignatureView { vars: self.vars@, ap_change: self.ap_change }
    }
}

/// The views of a sequence of branch signatures.
pub open spec fn branch_signatures_view(branches: Seq<BranchSignature>) -> Seq<
    BranchSignatureView,
> {
    Seq::new(branches.len(), |i: int| branches[i]@)
}

impl View for LibfuncSignature {
    type V = LibfuncSignatureView;

    open spec fn view(&self) -> LibfuncSignatureView {
        LibfuncSignatureView {
            param_signatures: self.param_signatures@,
            branch_signatures: branch_signatures_view(self.branch_signatures@),
        }
    }
}

impl View for LibfuncInfo {
    type V = LibfuncInfoView;

    open spec fn view(&self) -> LibfuncInfoView {
        LibfuncInfoView { signature: self.signature@ }
    }
}

} // verus!
