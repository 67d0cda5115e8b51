//! A structured knowledge base for coding agents: paths of the `.kb/` layout,
//! domain validation, reference checking, sessions, access and change logs,
//! and the decisions behind the agent-facing tools.

pub mod text;
pub mod types;
pub mod pattern;
pub mod digest;
pub mod config;
pub mod check;
pub mod session;
pub mod access_log;
pub mod changelog;
pub mod tools;
pub mod steps;
pub mod handler;
pub mod commands;
