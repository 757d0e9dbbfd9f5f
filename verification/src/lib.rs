//! State synchronisation for debug sessions.
//!
//! A session follows a debuggee through a debug adapter: it keeps the
//! state of every thread, reads the stack and the variables of a thread
//! that has stopped, and decides what to ask of the adapter and of its
//! host as events come in. Nothing here performs a request: plans and
//! sessions hand out what is to be done and take in what came of it.
//!
//! - [`thread`]: thread states and what they hold
//! - [`store`]: the thread states of a session, by thread id
//! - [`variables`], [`tree`]: the fetch of a tree of variables, and the
//!   tree it gives
//! - [`reconcile`]: the reading of a stopped thread
//! - [`session`], [`events`]: the life of a session and its actions
//! - [`highlight`]: the current line in the source viewer
//! - [`config`]: launch configurations and their merge
//! - [`debugger_panel`], [`elevation`]: what the panel shows, and how
//! - [`error`]: what can go wrong

pub mod config;
pub mod debugger_panel;
pub mod elevation;
pub mod error;
pub mod events;
pub mod highlight;
pub mod reconcile;
pub mod session;
pub mod store;
pub mod thread;
pub mod tree;
pub mod variables;
