//! Positional byte I/O: reading and writing at an offset that the caller
//! names, through a shared reference, and a cursor on top of it for code that
//! wants a conventional sequential stream.

pub mod adapter;
pub mod cursor;
pub mod error;
pub mod exact;
pub mod read;
pub mod size;
pub mod vectored;
pub mod write;

pub use adapter::{Adapter, SeekFrom};
pub use error::{fill_buffer_error, invalid_seek, unsupported, write_buffer_error, Error, ErrorKind};
pub use read::ReadAt;
pub use size::Size;
pub use write::WriteAt;
