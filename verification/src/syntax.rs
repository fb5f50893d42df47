//! Concrete syntax of Seiran sources: spans, tokens, the green tree and its parser.

pub mod span;
pub mod token;
pub mod green;
pub mod parser;
pub mod view;
