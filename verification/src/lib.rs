//! Verified core of the OpenClaw desktop assistant: the decisions, parsers and
//! validators behind installing, checking, configuring and removing the
//! `openclaw` command line tool. Process spawning, file access and the UI
//! bridge live in the application crate around this library.
pub mod text;
pub mod task;
pub mod gateway;
pub mod platform;
pub mod install;
pub mod config;
pub mod paths;
pub mod semver;
pub mod openclaw;
pub mod install_flow;
pub mod uninstall_flow;
pub mod stream;
pub mod commands;
pub mod search;
