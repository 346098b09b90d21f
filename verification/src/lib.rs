//! Building blocks for probing a list of websites with a pool of concurrent
//! workers, together with a few small text and number utilities.

pub mod clock;
pub mod collector;
pub mod config;
pub mod numbers;
pub mod outcome;
pub mod pool;
pub mod queue;
pub mod quotes;
pub mod report;
pub mod retry;
pub mod shell;
pub mod targets;
pub mod text;
pub mod words;
