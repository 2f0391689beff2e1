//! Core of an image viewer: an event bus with one frame of latency, a file
//! catalog that can be sorted, filtered and walked through, and the state of
//! the image pipeline that plays decoded frames.
//!
//! Everything in this crate works on plain values. Reading directories,
//! decoding images, talking to the GPU and storing ratings are left to the
//! host, which hands the results in and carries the returned actions out.

pub mod components;
pub mod data;
pub mod support;
pub mod systems;
