use vstd::prelude::*;

verus! {

/// A typed failure returned by an operation that could not run.
///
/// Every operation is all-or-nothing: when one of these is returned the
/// buffer is left exactly as it was before the offending call.
#[derive(Debug)]
pub enum Error {
    /// A row, column or pair index was at or beyond the buffer's
    /// corresponding dimension. Out-of-range indices are always reported,
    /// never clamped.
    IndexOutOfBounds,
    /// A bulk write-back was handed a pixel sequence whose length does not
    /// equal the size of the destination run.
    ShapeMismatch,
    /// An opaque failure surfaced by the image-encoding collaborator,
    /// carried through as the collaborator's own message.
    EncodeFailure(String),
}

} // verus!
