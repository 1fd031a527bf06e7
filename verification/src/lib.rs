//! A small toy language: syntax trees, a run-time memory, an interpreter, a
//! type checker, an arithmetic-expression parser and the lowering of function
//! bodies to LLVM builder operations.
pub mod assoc;
pub mod ast;
pub mod error;
pub mod memory;
pub mod interpret;
pub mod scope_laws;
pub mod fuel_laws;
pub mod type_checker;
pub mod parser;
pub mod llvm;
pub mod llvm_laws;
pub mod operator_laws;
pub mod control_laws;
pub mod output_laws;
