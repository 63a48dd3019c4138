//! Compiler pieces of a TypeScript-to-native toolchain: the project and
//! plugin configuration model, the PE image writer, the NaN-boxed runtime
//! value model, the HIR with its front-end helpers, and linker planning.

pub mod bytes;
pub mod text;
pub mod ts_parser;
pub mod pe_builder;
pub mod builtins;
pub mod codegen;
pub mod config;
pub mod extension;
pub mod hir;
pub mod ir;
pub mod ir_build;
pub mod linker;
pub mod laws;
pub mod lower_model;
pub mod ast;
pub mod swc_transform;
pub mod numbers;
pub mod lowering;
pub mod emit;
pub mod cli;
pub mod outline;
pub mod parse_model;
pub mod runtime;
pub mod syntax_check;
