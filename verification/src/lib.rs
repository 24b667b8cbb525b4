//! A runtime for language-model agents: provider wire formats, prompt budgets,
//! session state machines, tool scheduling, response caching and the small
//! daemon and terminal client around them.
//!
//! Everything in this crate is free of I/O. What a socket, a clock or a task
//! scheduler has to supply is taken as plain values.

pub mod aura;
pub mod budget;
pub mod cache;
pub mod codec;
pub mod engine;
pub mod json;
pub mod neat;
pub mod observe;
pub mod prompt;
pub mod provider;
pub mod session;
pub mod store;
pub mod table;
pub mod text;
pub mod text_laws;
pub mod time;
pub mod tool;
pub mod usual_laws;
pub mod view_laws;
