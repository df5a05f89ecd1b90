//! Reusable byte buffers for hot I/O paths.
//!
//! [`MBuf`] is a growable byte buffer whose backing region is shared between
//! duplicated handles and copied before a shared region would be written.
//! [`Cursor`] is a read-only traversal of one buffer, and [`MPool`] recycles
//! buffers of a configured capacity.

pub mod mbuf;
pub mod mbuf_pool;

pub use mbuf::Cursor;
pub use mbuf::MBuf;
pub use mbuf_pool::MPool;
