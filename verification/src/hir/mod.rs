//! High-level intermediate representation.

pub mod builder;
pub mod frame_state;
pub mod function;
pub mod id;
pub mod insn;
pub mod iseq;
pub mod jump_targets;
pub mod lowering;
pub mod printer;
pub mod profile;
pub mod union_find;
pub mod value;

pub use builder::iseq_to_hir;
pub use frame_state::{ep_offset_to_local_idx, FrameState, FrameStateView};
pub use frame_state::{ParseError, ParseErrorView};
pub use function::{Block, BlockView, Function, FunctionView};
pub use id::{BlockId, DenseId, InsnId};
pub use insn::{BranchEdge, BranchEdgeView, CallInfo, CallInfoView, Insn, InsnView, Invariant};
pub use iseq::{get_arg, num_lead_params, num_locals, CallData, InsnInfo, Iseq};
pub use jump_targets::{compute_jump_targets, insn_idx_at_offset};
pub use printer::{write_vec, FunctionPrinter};
pub use profile::{InsnProfile, IseqPayload};
pub use union_find::UnionFind;
pub use value::{RUBY_Qfalse, RUBY_Qnil, RUBY_Qtrue, VALUE};
