//! The ways in which a statement sequence can be malformed.

use vstd::prelude::*;
use crate::program::VarId;

verus! {

/// Why placement stopped. Each of these shows a defect in the statement
/// sequence or in the signatures, not in the program that was compiled.
#[derive(Clone, Copy, Debug, PartialEq, Eq, Hash, Structural)]
pub enum StoreError {
    /// A statement other than a label stands where control cannot arrive.
    UnreachableStatement,
    /// A statement uses a variable that is not live.
    UnknownVariable(VarId),
    /// A signature does not fit the invocation it is looked up for.
    SignatureMismatch,
    /// Control can run past the last statement.
    ReachableEnd,
    /// A branch targets a label that never follows.
    UnhandledLabel,
}

} // verus!
