//! The daemon that keeps instances of agents, and its terminal client.

use vstd::prelude::*;

pub mod args;
pub mod calendar;
pub mod instance;
pub mod laws;
pub mod protocol;
pub mod tools;
pub mod tui;
