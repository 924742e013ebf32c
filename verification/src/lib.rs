//! A reliable pane fabric for agents: every decision that an MCP server over the zellij CLI
//! takes, from a tool request to the arguments of `zellij` and from its output to the answer.
//!
//! - [`schema`]: what the tools take and return.
//! - [`server`]: the tools, each a task that asks for runs of `zellij` and goes on with what
//!   they came to.
//! - [`zellij`]: the arguments of each zellij action, and the tasks that take several runs.
//! - [`command`]: what a run printed, and the steps of a task.
//! - [`panes`] and [`sessions`]: the listings that zellij prints.
//! - [`json`], [`number`] and [`text`]: the formats that they are written in.
//! - [`outside`]: what is taken from the standard library on trust.
//! - [`laws`]: what holds of the tasks and tools from their first step to their last.
//! - [`call_laws`] and [`spawn_laws`]: what the tools promise of a call, from its input to the
//!   runs that it asks for and the answer that it gives.
//! - [`listing_laws`] and [`text_laws`]: what reading the listings promises of what is printed.
//!
//! A task is a value that is resumed with the outcome of each run. Nothing here starts a
//! process, waits or reads a clock: whoever drives a task does.

pub mod call_laws;
pub mod command;
pub mod json;
pub mod laws;
pub mod listing_laws;
pub mod number;
pub mod outside;
pub mod panes;
pub mod schema;
pub mod server;
pub mod sessions;
pub mod spawn_laws;
pub mod text;
pub mod text_laws;
pub mod zellij;
