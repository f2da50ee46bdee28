//! Forwards macOS notifications to a webhook.
//!
//! ```text
//! accessibility event -> scan -> parse -> filter -> deduplicate -> queue -> post
//! ```
//!
//! The library decides, from plain values to plain values; its caller reads the
//! screen, the disk and the clock, posts requests and draws the window.
//!
//! - [`element`], [`scanner`], [`parser`]: from accessibility elements to
//!   notifications
//! - [`filter`], [`dedup`], [`tally`], [`engine`]: what becomes of them
//! - [`client`], [`retry`], [`queue`]: how they reach the webhook
//! - [`process`], [`observer`], [`session`]: when to look for what
//! - [`config`], [`args`], [`gui`], [`window`], [`status`], [`commands`]: what is
//!   set, asked for and shown
//! - [`model`], [`time`], [`clock`], [`tables`], [`text`], [`pairs`], [`rows`]: the
//!   data underneath

pub mod args;
pub mod client;
pub mod clock;
pub mod commands;
pub mod config;
pub mod dedup;
pub mod element;
pub mod engine;
pub mod filter;
pub mod gui;
pub mod model;
pub mod observer;
pub mod pairs;
pub mod parser;
pub mod process;
pub mod queue;
pub mod retry;
pub mod rows;
pub mod scanner;
pub mod session;
pub mod status;
pub mod tables;
pub mod tally;
pub mod text;
pub mod time;
pub mod window;
