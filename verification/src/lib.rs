//! A command-line client for a light Zcash wallet: the verified core.
//!
//! The wallet reads its settings from a `key=value` file, can forward a
//! command to a running wallet daemon over JSON-RPC on HTTP with basic
//! authentication, and can itself serve that JSON-RPC interface. This crate
//! holds the logic of all three, each function proved against its contract;
//! the sockets, threads and files around it live in the program that uses it.

pub mod text;
pub mod number;
pub mod codec;
pub mod document;
pub mod config;
pub mod http;
pub mod client;
pub mod server;
pub mod launch;
pub mod laws;
