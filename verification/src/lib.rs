pub mod analysis;
pub mod build_manager;
pub mod compiler;
pub mod engine;
pub mod eir;
pub mod errors;
pub mod formatter;
pub mod grammar;
pub mod graph;
pub mod hir;
pub mod host_gen;
pub mod runtime;
pub mod text;
