use vstd::prelude::*;

verus! {

/// Why a snapshot could not be decoded or quoted.
#[derive(Clone, Copy, Debug, PartialEq, Eq, Structural)]
pub enum QuoteError {
    /// The buffer does not have the length the record needs, or an index in
    /// the snapshot points outside its table or back into a path already
    /// walked.
    LayoutError,
    /// A product or a sum of snapshot values does not fit in 64 bits.
    ArithmeticOverflow,
    /// The fee is more than 10000 basis points.
    InvalidFeeConfiguration,
}

} // verus!
