//! Hydra: a volunteer-computing scheduler and worker, with the scheduling
//! decisions, chunk bookkeeping and byte-level protocols verified.

pub mod chunking;
pub mod clock;
pub mod confidential;
pub mod grid;
pub mod job;
pub mod laws;
pub mod ordering;
pub mod scheduler;
pub mod tiling;
pub mod tokens;
pub mod worker;
