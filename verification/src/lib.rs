//! Verified core of an Emacs process-metrics reporter: turning raw kernel
//! records into metric rows, tracking per-process baselines between samples,
//! aggregating VM regions, parsing ELPA package directories, and the checks
//! and formatting used by the uploader and the merge tool.
pub mod text;
pub mod paths;
pub mod clock;
pub mod random;
pub mod packages;
pub mod platform;
pub mod extra_data;
pub mod reporter;
pub mod bz2;
pub mod merge;
pub mod uploader;
pub mod motd;
