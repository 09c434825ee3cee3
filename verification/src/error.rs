use vstd::prelude::*;

verus! {

/// The error conditions a positioned-access operation can report.
///
/// Clipping at a slice boundary and short reads or writes are successful
/// outcomes with reduced byte counts, never errors.
#[derive(Clone, Copy, Debug, PartialEq, Eq, Structural)]
pub enum IoError {
    /// An input/output failure reported by the backing resource, surfaced to
    /// the caller unchanged. Also reported when a resource accepts no bytes
    /// while a write-everything operation still has data left.
    Failed,
    /// A seek that would land before position zero, or an end-relative seek
    /// on a resource whose size is unknown. The position is left unchanged.
    InvalidSeek,
    /// An end-anchored slice was requested over a resource that cannot
    /// report its size.
    UnavailableSize,
    /// The end of the data was reached before an exact read could fill its
    /// buffer.
    UnexpectedEof,
}

} // verus!
