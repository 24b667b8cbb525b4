//! Tools: what is known of them, where they are registered, and how their calls
//! are scheduled.

pub mod definition;
pub mod executor;
pub mod laws;
pub mod registry;
