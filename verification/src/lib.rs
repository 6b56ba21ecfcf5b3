//! Request batching for a sequence-classification service.
//!
//! Independent classification requests are admitted one at a time into a FIFO
//! queue, grouped into batches no larger than a configured size, handed to a
//! batched backend, and the per-request outcomes are routed back to the callers
//! that are waiting for them. A multi-input client request is split into
//! single-input submissions and its sub-responses are merged again in input order.
//!
//! Everything in this crate is verified with Verus; the few places where it
//! relies on other crates are marked and documented as unproved contracts.

pub mod types;
pub mod error;
pub mod config;
pub mod channel;
pub mod batched_engine;
pub mod delivery;
pub mod fanout;
pub mod stamp;
pub mod text;
pub mod deberta_engine;
