//! Backend logic of a desktop text-search tool.
//!
//! The tool runs a line-oriented search program, streams its output to the
//! user interface in batches and lets the user cancel a search. This library
//! holds the decisions and leaves the acts to its caller: it spawns no
//! process, reads no file and sends no event.
//!
//! - [`stream`]: the batching streamer, one step at a time.
//! - [`session`]: whole streaming sessions, and what holds of each of them.
//! - [`threshold`]: what a slow and a fast producer get for batches.
//! - [`slot`] and [`controller`]: the one search that is current.
//! - [`process`]: the handle of a search process.
//! - [`event`] and [`error`]: what the user interface is told.
//! - [`chunk`] and [`update`]: a range of a file's lines; the latest release.

pub mod chunk;
pub mod controller;
pub mod error;
pub mod event;
pub mod process;
pub mod session;
pub mod slot;
pub mod stream;
pub mod threshold;
pub mod update;
