//! Incremental compilation and execution core for an interactive Rust
//! evaluator. Each submission of source text is split into provenance-tagged
//! segments, combined with the state accumulated from earlier successful runs
//! into one compilation unit, and the results of compiling and running that
//! unit are folded back into the state.

pub mod code_block;
pub mod commands;
pub mod diag;
pub mod errors;
pub mod fixups;
pub mod imports;
pub mod manifest;
pub mod outputs;
pub mod protocol;
pub mod session;
pub mod state;
pub mod strmap;
pub mod synth;
pub mod text;
pub mod variables;

pub use code_block::CodeBlock;
pub use code_block::CodeKind;
pub use code_block::CommandCall;
pub use code_block::Segment;
pub use code_block::UserCodeMetadata;
pub use commands::CommandDef;
pub use commands::CommandEffect;
pub use commands::available_commands;
pub use commands::command_error;
pub use commands::parse_dep_args;
pub use commands::render_vars;
pub use commands::run_command;
pub use diag::origin_of_output_line;
pub use diag::origins_any_user;
pub use diag::parse_compiler_message;
pub use diag::prefer_child;
pub use errors::CodeOrigin;
pub use errors::CompilationError;
pub use errors::Error;
pub use errors::Span;
pub use errors::SpannedMessage;
pub use fixups::FixupAction;
pub use manifest::BuildInvocation;
pub use manifest::build_invocation;
pub use manifest::cargo_manifest;
pub use outputs::EvalOutputs;
pub use protocol::ExecutionTracker;
pub use protocol::LineAction;
pub use protocol::WorkerLine;
pub use session::RetryBudget;
pub use session::RetryDecision;
pub use session::Session;
pub use state::Config;
pub use state::ContextState;
pub use state::TypeName;
pub use strmap::StrEntry;
pub use strmap::StrMap;
pub use synth::CompilationMode;
pub use synth::StatementInfo;
pub use synth::SynthesizedUnit;
pub use text::str_eq;
pub use variables::UserCodeSpan;
pub use variables::VarEntry;
pub use variables::VarMap;
pub use variables::VariableMoveState;
pub use variables::VariableState;
