use vstd::prelude::*;

verus! {

/// Version tag of the serialized pruning-index formats (min-max, partition,
/// sparse), so the on-disk layout can evolve without breaking readers.
#[derive(Clone, Copy, Debug, PartialEq, Eq, Structural)]
pub enum IndexSchemaVersion {
    V1,
}

} // verus!
