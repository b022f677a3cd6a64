//! Verified core of a bulk media downloader.
//!
//! Given a delimited list of target identifiers and a shared configuration
//! (mode, quality tier, destination directory), the library builds one job
//! specification per target, constructs the argument list for the external
//! download tool, and collects per-job process results into an ordered
//! outcome sequence in which no job's failure can affect a sibling's result.
//! All prompting, process spawning and result styling live outside the
//! library; it receives plain values and hands plain values back.

pub mod dispatch;
pub mod jobs;
pub mod probe;
pub mod text;
