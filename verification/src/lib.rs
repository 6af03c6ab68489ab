//! Remuxing of a video-only and an audio-only MPEG-4 container into one
//! container with two tracks, and the small rules around it.
//!
//! - `mux` copies the chosen tracks of two sources into one output;
//!   `plan` chooses the tracks and declares the tracks of the output;
//!   `laws` states what holds of every remux.
//! - `source` reads a container from its bytes and `sink` builds one, both
//!   through the `mp4` crate; `nesting` and `tables` tell beforehand
//!   whether the boxes and the sample tables of a source are sound enough
//!   to be read.
//! - `media` holds the plain values that pass between them, `error` the
//!   failures.
//! - `info` holds the rules by which the fragments of a download are found
//!   and its output is named, `cache` the rule by which cached blobs are
//!   told from other files.

pub mod cache;
pub mod error;
pub mod info;
pub mod laws;
pub mod media;
pub mod mux;
pub mod nesting;
pub mod outside;
pub mod plan;
pub mod sink;
pub mod source;
pub mod tables;
