//! The decisions of a concurrent downloader, verified: what a link, a path and a set of
//! options must satisfy, how a server is profiled, which transfer strategy follows from a
//! profile, how a file is cut into byte ranges and how each range is retried.
pub mod address;
pub mod error;
pub mod jito;
pub mod link;
pub mod logic;
pub mod net;
pub mod numbers;
pub mod probe;
pub mod quality;
pub mod range_transfer;
pub mod ratio;
pub mod session;
pub mod single_stream;
pub mod text;
