//! Execution-pipeline layer of a columnar query engine: the mixing stage.
//!
//! The mixing stage fans in M upstream streams of data blocks into one
//! arrival-ordered stream and redistributes it round-robin over N
//! independently consumable output slots. Several lightweight handles share
//! one worker; the worker starts its pumping apparatus exactly once, hands
//! out each output slot exactly once, and rejects a configuration with no
//! upstream at all.

pub mod block;
pub mod error;
pub mod fanin;
pub mod fanout;
pub mod indexing;
pub mod mixed;
