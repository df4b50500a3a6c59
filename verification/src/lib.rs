//! Placement of store instructions in a linear intermediate representation.
//!
//! The front end of the compiler writes statements in which a library
//! function may return a deferred value: an expression that no cell holds
//! yet. Before a statement that needs such a value in a cell,
//! [`add_store_statements`] adds the instruction that writes it to the stack
//! or to the frame.

pub mod collections;
pub mod error;
pub mod known_stack;
pub mod laws;
pub mod ordered_map;
pub mod placement;
pub mod program;
pub mod signature;
pub mod state;
pub mod store_variables;
pub mod test_config;

pub use crate::collections::LocalVariables;
pub use crate::error::StoreError;
pub use crate::signature::LibfuncInfo;
pub use crate::store_variables::{add_store_statements, try_add_store_statements};
pub use crate::test_config::{
    try_extract_test_config, PanicExpectation, TestConfig, TestExpectation,
};
