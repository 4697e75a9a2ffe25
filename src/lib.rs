//! Verified core of a completion-ring I/O runtime: the result carrier that
//! returns buffers to their owners, buffer capabilities and fixed-buffer
//! collections, the slab of in-flight operations with detach-on-drop, the
//! submission backlog, the shared descriptor's lifetime, and the progress rules
//! of positional read-exact and write-all loops.

pub mod buf;
pub mod driver;
pub mod error;
pub mod file;
pub mod fixed;
pub mod result;
pub mod shared_fd;
pub mod slab;
pub mod token;

pub use buf::{FixedBuf, IoBuf, IoBufMut, Slice};
pub use error::Error;
pub use file::File;
pub use result::{BufError, BufResult, ResultExt};
