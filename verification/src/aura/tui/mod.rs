//! The terminal client: what it shows, and what a key press does.

use vstd::prelude::*;

pub mod app;
pub mod edit;
pub mod keys;
pub mod laws;
