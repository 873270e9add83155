//! Host-side logic for executing a block as a set of subblocks and an
//! aggregation program: how program inputs are framed, where artifacts and
//! cache files live, and in which order the host performs its work.

pub mod aggregation;
pub mod cache;
pub mod decimal;
pub mod encoding;
pub mod paths;
pub mod schedule;
pub mod stdin;
mod text;
