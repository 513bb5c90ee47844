//! Verified core of an SSH connection manager: configuration model and
//! inheritance, server search, tunnel overrides, Wallix menu selection,
//! ssh_config import and SSH argument construction.
pub mod text;
pub mod tilde;
pub mod config;
pub mod state;
pub mod vars;
pub mod resolve;
pub mod sorting;
pub mod search;
pub mod i18n;
pub mod forms;
pub mod wallix;
pub mod wallix_select;
pub mod ssh;
pub mod import;
pub mod cli;
pub mod validation;
pub mod tree;
pub mod tui;
pub mod tunnels;
pub mod transfers;
pub mod wallix_ui;
pub mod includes;
pub mod wallix_pty;
pub mod keys;
pub mod display;
pub mod probe;
