//! An assembler and virtual machine for a small register-based assembly language.
pub mod text;
pub mod number;
pub mod reg;
pub mod value;
pub mod instruction;
pub mod table;
pub mod assembler;
pub mod runnable;
pub mod machine;
pub mod app;
