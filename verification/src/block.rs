use crate::error::ErrorCode;
use vstd::prelude::*;

verus! {

/// A unit of columnar data flowing between pipeline stages. The mixing
/// stage never looks inside a block; it only moves blocks around, so the
/// payload is reduced to the one measure the pipeline reports.
#[derive(Clone, Copy, Debug, PartialEq, Eq, Structural)]
pub struct DataBlock {
    pub num_rows: usize,
}

/// One item of a data stream: a block, or an in-band failure.
pub type BlockItem = Result<DataBlock, ErrorCode>;

} // verus!
