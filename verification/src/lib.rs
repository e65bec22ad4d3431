//! Verified core of the arkama download manager: byte-range planning,
//! resume bookkeeping, transfer state machines, header interpretation, the
//! command line and daemon rules, and the human-readable formatting used by
//! the front ends.

pub mod api;
pub mod cli;
pub mod daemon;
pub mod desktop;
pub mod elapsed;
pub mod events;
pub mod error;
pub mod format;
pub mod http;
pub mod output;
pub mod pacing;
pub mod plan;
pub mod records;
pub mod segment;
pub mod text;
pub mod transfer;

pub use api::{DownloadEvent, DownloadRequest, DownloadRequestBuilder, DownloadSummary, DEFAULT_CONNECTIONS};
pub use elapsed::Elapsed;
pub use error::Error;
