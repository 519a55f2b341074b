//! A minimal in-memory character device: a fixed-capacity byte buffer with a
//! write cursor (`tail`) and a read cursor (`head`). Writes append up to the
//! remaining capacity and silently drop what does not fit, reads drain the
//! pending region `[head, tail)` and reset both cursors once the buffer is
//! empty. [`buffer`] holds the verified single-owner buffer, [`device`] wraps
//! it in a lock so that concurrent sessions can share one instance.

pub mod buffer;
pub mod device;
