//! The parts of evaluation that work on the concrete syntax alone: diagnostics, argument
//! checks, optional arguments, the environment registry, the inline reading of tokens, and the
//! per-source evaluation context.

pub mod arity;
pub mod body_scan;
pub mod cite;
pub mod code_block;
pub mod command;
pub mod context;
pub mod environment;
pub mod error;
pub mod footnote;
pub mod heading;
pub mod inline;
pub mod link;
pub mod list;
pub mod numbering;
pub mod opt_args;
pub mod paragraph;
pub mod placement;
pub mod quote;
pub mod table;
pub mod theorem;
