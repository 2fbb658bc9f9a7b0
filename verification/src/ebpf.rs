//! Records that the kernel side hands over through its ring buffer.
pub mod events;
