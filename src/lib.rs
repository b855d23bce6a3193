//! Load generation and throughput measurement for a blockchain node: nonce
//! sequenced batches, head-and-tail submission, a shared metrics record and the
//! statistics computed from it.
pub mod batch;
pub mod dispatch;
pub mod finality;
pub mod keys;
pub mod metrics;
pub mod report;
