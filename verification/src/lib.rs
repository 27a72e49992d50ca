//! Front end of a method-at-a-time just-in-time compiler: translation of
//! stack-machine bytecode into an SSA control-flow graph, the union-find
//! substrate that later rewrites use, and the append-only code buffer.

pub mod code_block;
pub mod hir;
pub mod virtualmem;
