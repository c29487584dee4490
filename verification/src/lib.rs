//! A note-triggered sample player core: decoded PCM buffers are looked up by
//! note and streamed round-robin into a fixed pool of render channels, each
//! fed through its own handoff queue.
//!
//! Samples are carried as `u32` values holding the IEEE-754 bit pattern of a
//! single-precision amplitude; the library moves them and never computes on
//! them. Silence is the pattern of `+0.0`.
//!
//! - [`screen`] tells which files may be opened at all;
//! - [`session`] reads an audio file with `symphonia`, and [`decode`] holds
//!   the rules by which its units become one buffer;
//! - [`loader`] and [`library`] build the sample library;
//! - [`event`] filters raw note messages;
//! - [`sampler`] dispatches a note to the next channel of the [`pool`];
//! - [`router`] makes the same decision where each queue is held elsewhere;
//! - [`queue`] is the handoff queue that a render callback drains.

pub mod decode;
pub mod event;
pub mod library;
pub mod loader;
pub mod pcm;
pub mod pool;
pub mod queue;
pub mod router;
pub mod sampler;
pub mod screen;
pub mod session;
