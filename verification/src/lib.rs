//! A verified N-body simulation engine on a bounded 2D canvas.
//!
//! Bodies attract each other pairwise, colliding pairs turn into an orbiting
//! center/satellite relationship, and positions reflect elastically off the
//! canvas edges. All state and arithmetic is fixed-point integer, so every
//! step is specified and verified exactly.

pub mod fp;
pub mod body;
pub mod engine;
