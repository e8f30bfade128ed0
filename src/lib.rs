//! Chain-state monitoring and opportunity-execution pipeline of a trading
//! agent: block-height scanning, pending-transaction decoding, and the
//! submission state machine that keeps at most one in-flight submission per
//! opportunity fingerprint.

pub mod types;
pub mod codec;
pub mod swap_call;
pub mod dex;
pub mod engine;
pub mod stream;
pub mod block_scanner;
pub mod mempool;
pub mod nonce;
pub mod address_book;
pub mod config;
