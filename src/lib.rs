//! Typing-practice trainer core: the reference-text cache and the typing
//! session engine.

pub mod cache;
pub mod content;
pub mod metrics;
pub mod session;
pub mod text;
