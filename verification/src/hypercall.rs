use vstd::prelude::*;

verus! {

/// SGI reserved for inter-CPU control, among it the resume kick that wakes
/// a CPU suspended on a virtio cfg request.
pub const SGI_HV_ID: u64 = 15;

/// SGI a non-root zone sends to the root zone to announce a queued virtio
/// request.
pub const SGI_VIRTIO_REQ_ID: u64 = 14;

/// SGI the root zone sends to a non-root CPU to announce a completed virtio
/// notify request.
pub const SGI_VIRTIO_RESULT_ID: u64 = 13;

} // verus!
