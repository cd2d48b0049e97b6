//! Resolution and build orchestration for proxies that run the LLVM tools
//! shipped with a Rust toolchain on the artifacts of a Cargo build.

pub mod args;
pub mod cargo;
pub mod classify;
pub mod config;
pub mod context;
pub mod invoke;
pub mod llvm;
pub mod machine;
pub mod orchestrator;
pub mod paths;
pub mod postprocess;
pub mod product;
pub mod report;
pub mod rustc;
pub mod scan;
pub mod text;
pub mod tool;
pub mod util;

pub use context::Context;
pub use tool::Tool;
