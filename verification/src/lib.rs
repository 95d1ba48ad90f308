//! Verified core of a line-batching command runner.
//!
//! Records read from input are grouped into fixed-size batches; each batch is
//! written into a pool of reusable temporary files, and a user-supplied
//! command is invoked once per batch with the batch's file paths substituted
//! into its argument list (or, in list mode, with the path of a single file
//! that lists them). The modules here hold the verified logic: the error
//! protocol, placeholder resolution, batch partitioning, the tempfile
//! pool, and the per-run state machine that an unverified driver steps
//! through.

pub mod batching;
pub mod errors;
pub mod limits;
pub mod pool;
pub mod resolve;
pub mod runner;
pub mod text;
