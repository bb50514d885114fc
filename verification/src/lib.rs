//! The logic of a downloader for Gofile folder shares: which files a share holds, where they go,
//! and what is to be done, step by step, to read the share and to download its files.
//!
//! Nothing here reads or writes anything. The steps that need the outside world are state
//! machines: they say what is to be done, and are told what became of it.

pub mod client;
pub mod content;
pub mod download;
pub mod download_runs;
pub mod listing;
pub mod names;
pub mod paths;
pub mod programs;
pub mod scrape;
pub mod scrape_runs;
pub mod session;
pub mod share;
pub mod status;
pub mod text;
pub mod units;
