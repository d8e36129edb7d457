//! Core of a small interactive shell: a quote-aware line tokenizer and the
//! dispatch policy that chooses between built-in actions and external
//! process execution.
//!
//! The read loop, the working-directory change and the process spawn are
//! side effects performed by the surrounding binary; this library decides
//! what they should do and states those decisions as verified contracts.

pub mod dispatch;
pub mod text;
pub mod tokenizer;
