use vstd::prelude::*;

verus! {

/// Upper bound on physical CPU ids: one slot per possible bit of a zone's
/// CPU bitmap.
pub const MAX_CPUS: usize = 64;

} // verus!
