//! Positioned input and output: reading and writing bytes at explicit byte
//! offsets, with no shared cursor state.
//!
//! A backing resource offers up to three independent capabilities — reporting
//! its total size, reading at an offset, and writing at an offset — described
//! by the traits in [`traits`]. Because every call carries its own offset,
//! read access needs no exclusive lock: concurrent readers at different
//! offsets cannot disturb one another.
//!
//! Two adapters build on the capability traits. [`cursor::Cursor`] owns a
//! single position and turns positioned access into a conventional sequential
//! stream with read, write and seek. [`slice::Slice`] presents a bounded
//! window of a positioned resource as a complete positioned resource of its
//! own, translating offsets and clipping transfers at its boundary.
//!
//! The contracts are stated over a small mathematical model of byte contents,
//! found in [`model`].

pub mod cursor;
pub mod error;
pub mod mem;
pub mod model;
pub mod slice;
pub mod traits;

pub use crate::cursor::Cursor;
pub use crate::cursor::SeekFrom;
pub use crate::error::IoError;
pub use crate::mem::StreamMem;
pub use crate::slice::Slice;
pub use crate::slice::SliceBound;
pub use crate::traits::PositionedIo;
pub use crate::traits::ReadAt;
pub use crate::traits::Size;
pub use crate::traits::WriteAt;
pub use crate::traits::read_exact_at;
pub use crate::traits::write_all_at;
