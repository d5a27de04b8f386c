//! ceilidh: a caller that queues turns for coding agents, the runners that
//! play them, and the tools that let one session spawn another.
//!
//! Everything in this crate is plain data in, plain data out. Storage, HTTP,
//! child processes and the clock live in the program around it.

pub mod access;
pub mod access_laws;
pub mod adapters;
pub mod archive;
pub mod audit;
pub mod auth;
pub mod book_laws;
pub mod caller;
pub mod claim_laws;
pub mod claims;
pub mod config;
pub mod drive;
pub mod harness_laws;
pub mod json;
pub mod laws;
pub mod mcp;
pub mod names;
pub mod order;
pub mod outside;
pub mod protocol;
pub mod release;
pub mod repos;
pub mod runner;
pub mod runners;
pub mod sessions;
pub mod startup;
pub mod store;
pub mod stream_laws;
pub mod streams;
pub mod subagent_laws;
pub mod subagents;
pub mod test_support;
pub mod text;
pub mod text_laws;
pub mod tree;
pub mod turns;
pub mod workspace;
