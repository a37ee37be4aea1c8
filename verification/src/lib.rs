//! Normalizes line endings in byte buffers: every bare line feed (one not
//! already preceded by a carriage return) gains a carriage return, buffers
//! that look binary are left alone, and a small pipeline type reports what
//! was decided for each buffer.

pub mod endings;
pub mod pipeline;
