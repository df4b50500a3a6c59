//! The statements of the linear intermediate representation, and their
//! mathematical views.

use vstd::prelude::*;

verus! {

/// Identifier of a variable.
pub type VarId = u64;

/// Identifier of a concrete type.
pub type TypeId = u64;

/// Identifier of a label.
pub type LabelId = u64;

/// Identifier of a library function. The four instructions that placement
/// inserts are named by what they do and the type they act on; every other
/// function is known by its number only.
#[derive(Clone, Copy, Debug, PartialEq, Eq, Hash, Structural)]
pub enum LibfuncId {
    /// `store_temp<ty>`: writes a value to the top of the stack.
    StoreTemp(TypeId),
    /// `store_local<ty>`: writes a value to a frame cell allocated beforehand.
    StoreLocal(TypeId),
    /// `dup<ty>`: duplicates a value, keeping both copies.
    Dup(TypeId),
    /// `rename<ty>`: gives a value another name.
    Rename(TypeId),
    /// Any other library function.
    Other(u64),
}

/// Where control goes after a branch of an invocation.
#[derive(Clone, Copy, Debug, PartialEq, Eq, Hash, Structural)]
pub enum BranchTarget {
    /// To the next statement.
    Fallthrough,
    /// To the statement that follows the given label.
    Statement(LabelId),
}

/// One outgoing branch of an invocation.
#[derive(Clone, Debug, PartialEq, Eq, Hash)]
pub struct BranchInfo {
    pub target: BranchTarget,
    /// The variables that the branch defines, in result order.
    pub results: Vec<VarId>,
}

/// A call of a library function.
#[derive(Clone, Debug, PartialEq, Eq, Hash)]
pub struct Invocation {
    pub libfunc_id: LibfuncId,
    pub args: Vec<VarId>,
    pub branches: Vec<BranchInfo>,
}

/// A request to have `var` on top of the stack under the name `var_on_stack`.
#[derive(Clone, Copy, Debug, PartialEq, Eq, Hash, Structural)]
pub struct PushValue {
    pub var: VarId,
    pub var_on_stack: VarId,
    pub ty: TypeId,
    /// Whether `var` stays live after the push.
    pub dup: bool,
}

/// A statement of the intermediate representation.
#[derive(Clone, Debug, PartialEq, Eq, Hash)]
pub enum Statement {
    Invocation(Invocation),
    Return(Vec<VarId>),
    Label(LabelId),
    PushValues(Vec<PushValue>),
}

/// Mathematical view of a [`BranchInfo`].
pub struct BranchInfoView {
    pub target: BranchTarget,
    pub results: Seq<VarId>,
}

/// Mathematical view of an [`Invocation`].
pub struct InvocationView {
    pub libfunc_id: LibfuncId,
    pub args: Seq<VarId>,
    pub branches: Seq<BranchInfoView>,
}

/// Mathematical view of a [`Statement`].
pub enum StatementView {
    Invocation(InvocationView),
    Return(Seq<VarId>),
    Label(LabelId),
    PushValues(Seq<PushValue>),
}

impl View for BranchInfo {
    type V = BranchInfoView;

    open spec fn view(&self) -> BranchInfoView {
        BranchInfoView { target: self.target, results: self.results@ }
    }
}

/// The views of a sequence of branches.
pub open spec fn branches_view(branches: Seq<BranchInfo>) -> Seq<BranchInfoView> {
    Seq::new(branches.len(), |i: int| branches[i]@)
}

impl View for Invocation {
    type V = InvocationView;

    open spec fn view(&self) -> InvocationView {
        InvocationView {
            libfunc_id: self.libfunc_id,
            args: self.args@,
            branches: branches_view(self.branches@),
        }
    }
}

impl View for Statement {
    type V = StatementView;

    open spec fn view(&self) -> StatementView {
        match self {
            Statement::Invocation(invocation) => StatementView::Invocation(invocation@),
            Statement::Return(vars) => StatementView::Return(vars@),
            Statement::Label(id) => StatementView::Label(*id),
            Statement::PushValues(values) => StatementView::PushValues(values@),
        }
    }
}

/// The views of a sequence of statements.
pub open spec fn statements_view(statements: Seq<Statement>) -> Seq<StatementView> {
    Seq::new(statements.len(), |i: int| statements[i]@)
}

/// An invocation with one fallthrough branch: `results := libfunc_id(args)`.
pub open spec fn simple_statement_view(
    libfunc_id: LibfuncId,
    args: Seq<VarId>,
    results: Seq<VarId>,
) -> StatementView {
    StatementView::Invocation(
        InvocationView {
            libfunc_id,
            args,
            branches: seq![BranchInfoView { target: BranchTarget::Fallthrough, results }],
        },
    )
}

/// Builds an invocation with one fallthrough branch.
pub fn simple_statement(libfunc_id: LibfuncId, args: Vec<VarId>, results: Vec<VarId>) -> (r:
    Statement)
    ensures
        r@ == simple_statement_view(libfunc_id, args@, results@),
{
    let mut branches: Vec<BranchInfo> = Vec::new();
    branches.push(BranchInfo { target: BranchTarget::Fallthrough, results });
    let r = Statement::Invocation(Invocation { libfunc_id, args, branches });
    proof {
        assert(branches_view(branches@) =~= seq![
            BranchInfoView { target: BranchTarget::Fallthrough, results: results@ },
        ]);
    }
    r
}

/// `store_temp<ty>(var) -> var_on_stack`.
pub open spec fn store_temp_view(var: VarId, var_on_stack: VarId, ty: TypeId) -> StatementView {
    simple_statement_view(LibfuncId::StoreTemp(ty), seq![var], seq![var_on_stack])
}

/// `store_local<ty>(uninitialized_local, var) -> var`.
pub open spec fn store_local_view(var: VarId, uninitialized_local: VarId, ty: TypeId)
    -> StatementView {
    simple_statement_view(LibfuncId::StoreLocal(ty), seq![uninitialized_local, var], seq![var])
}

/// `dup<ty>(var) -> (var, dup_var)`.
pub open spec fn dup_view(var: VarId, dup_var: VarId, ty: TypeId) -> StatementView {
    simple_statement_view(LibfuncId::Dup(ty), seq![var], seq![var, dup_var])
}

/// `rename<ty>(src) -> dst`.
pub open spec fn rename_view(src: VarId, dst: VarId, ty: TypeId) -> StatementView {
    simple_statement_view(LibfuncId::Rename(ty), seq![src], seq![dst])
}

/// Whether `s` has the shape of an instruction that placement inserts: a call
/// of `store_temp`, `store_local`, `dup` or `rename` with one fallthrough branch.
pub open spec fn is_store_instruction(s: StatementView) -> bool {
    match s {
        StatementView::Invocation(invocation) => {
            &&& !(invocation.libfunc_id is Other)
            &&& invocation.branches.len() == 1
            &&& invocation.branches[0].target is Fallthrough
        },
        _ => false,
    }
}

} // verus!
