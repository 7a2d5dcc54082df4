//! Verified core of celily: configuration merging, path policy, naming,
//! shell quoting and the command lines handed to the LXD/Incus CLI.

pub mod cli;
pub mod envmap;
pub mod mount;
pub mod naming;
pub mod path;
pub mod order;
pub mod shell;
pub mod strings;
pub mod username;
pub mod validate;
pub mod config;
pub mod distro;
pub mod instance;
pub mod network;
pub mod limits;
pub mod backend;
pub mod command;
pub mod context;
pub mod secrets;
pub mod run;
pub mod util;
pub mod notifications;
