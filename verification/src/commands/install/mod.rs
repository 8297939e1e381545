//! Setting agents up, and the skills that are linked into them.

pub mod installed;
pub mod laws;
pub mod linked;
pub mod shim;
pub mod targets;
