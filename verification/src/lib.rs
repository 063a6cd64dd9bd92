//! A client for the MiniMax chat API (its Anthropic-compatible endpoint),
//! with the request framing, the reading of replies and the extraction of
//! shell commands verified.

pub mod config;
pub mod json;
pub mod api;
pub mod commands;
pub mod models;
pub mod client;
