//! Seiran document compiler: the verified core of its front end and project model.

pub mod evaluator;
pub mod failures;
pub mod length;
pub mod project;
pub mod publication;
pub mod strs;
pub mod syntax;
