//! Synthetic chess-board images: random board encodings, render requests,
//! the plan of the edge filter, and the bookkeeping of a batch of attempts.
//!
//! Everything here computes on plain values. Fetching an image, running the
//! image operations and writing files is the caller's work; the library says
//! what to ask for, in which order, and what each answer means.

pub mod attempt;
pub mod batch;
pub mod board;
pub mod chance;
pub mod error;
pub mod filter;
pub mod overlay;
pub mod render;
pub mod shape;
pub mod text;
