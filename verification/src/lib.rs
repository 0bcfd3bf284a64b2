//! A web path scanner: the decisions it makes about wordlists, requests,
//! responses, filters, plugins and reports.
pub mod text;
pub mod headers;
pub mod types;
pub mod digest;
pub mod pattern;
pub mod filter;
pub mod error;
pub mod wordlist;
pub mod baseline;
pub mod plugin;
pub mod plugins;
pub mod client;
pub mod engine;
pub mod cli;
pub mod output;
pub mod tui;
