//! Skills and their telemetry in a repository of the user's own.

pub mod aggregate;
pub mod bootstrap;
pub mod external;
pub mod git;
pub mod laws;
pub mod runs;
pub mod workspace;
