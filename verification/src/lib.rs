//! Ahead-of-time execution core of a zero-knowledge virtual machine: translation
//! of guest programs to host assembly, the register file shared between guest
//! memory and generated code, the build plan of the runtime, and the controller
//! that cuts a metered run into segments.

pub mod base_alu;
pub mod compiler;
pub mod consistency;
pub mod emitted;
pub mod error;
pub mod executor;
pub mod ffi;
pub mod fragment_shape;
pub mod host;
pub mod instruction;
pub mod memory;
pub mod register_ops;
pub mod runtime;
pub mod segment_ctx;
pub mod segment_report;
pub mod sha2_config;
pub mod sha2_hasher;
pub mod text;
