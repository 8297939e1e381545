//! Skills for agents: kept in a repository of one's own or in the cloud, published in
//! versions, linked into the agents of a machine, and measured by their runs.
//!
//! The library decides. It reads no file, starts no process and opens no connection:
//! what was read comes in as plain values, and what is to be done goes out as plain
//! values. Every function states what it returns, and the properties that span several
//! functions are proof functions whose names start with `law_`.

pub mod api;
pub mod archive;
pub mod commands;
pub mod config;
pub mod errors;
pub mod frontmatter;
pub mod github;
pub mod ids;
pub mod json;
pub mod laws;
pub mod numbers;
pub mod order;
pub mod output;
pub mod picks;
pub mod skill_pack;
pub mod skill_validators;
pub mod slug;
pub mod text;
pub mod time;
pub mod tls;
pub mod types;
pub mod yaml;
