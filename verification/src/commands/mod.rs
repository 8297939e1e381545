//! The commands.

pub mod auth;
pub mod create;
pub mod debug;
pub mod diff;
pub mod export;
pub mod feedback;
pub mod fetch;
pub mod flows;
pub mod folder;
pub mod fork;
pub mod info;
pub mod info_chunks;
pub mod init;
pub mod install;
pub mod interview;
pub mod laws;
pub mod link;
pub mod mark;
pub mod publish;
pub mod pull;
pub mod rate;
pub mod reports;
pub mod run;
pub mod runs;
pub mod search;
pub mod sync;
pub mod uninstall;
pub mod upgrade;
pub mod validate;
