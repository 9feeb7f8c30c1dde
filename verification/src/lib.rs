//! Command parsing, protocol types and terminal logic of the Fluffy
//! LAN administration terminal.
pub mod text;
pub mod commands;
pub mod parser;
pub mod plugin;
pub mod example_plugin;
pub mod protocol;
pub mod app;
pub mod repl;
pub mod keys;
pub mod local;
pub mod encoding;
pub mod platform;
pub mod handlers;
pub mod order;
pub mod sizes;
pub mod paths;
pub mod files;
pub mod network;
pub mod accounts;
pub mod sysreport;
pub mod server;
pub mod manager;
pub mod launch;
pub mod ui;
pub mod panel;
pub mod executor;
pub mod local_reports;
pub mod other_platforms;
pub mod laws;
