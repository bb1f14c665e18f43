//! A host for WebAssembly modules: bounds-checked access to linear memory,
//! the boxed calling convention between WebAssembly values and host callbacks,
//! and registration and composition of imports.
pub mod exception;
pub mod imports;
pub mod memory;
pub mod value;
pub mod resolver;
