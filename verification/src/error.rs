use vstd::prelude::*;

verus! {

/// The error kinds that cross component boundaries.
///
/// Guest misbehaviour (an access to an unmapped address or to an unassigned
/// device) is never an error: the guest sees zeros, ignored writes or a
/// phantom device instead. Transient shortages (a full list-register pool)
/// are likewise handled in place by dropping the injection. What remains are
/// inconsistent static configuration and out-of-range parameters, both fatal
/// at boot.
#[derive(Clone, Copy, Debug, PartialEq, Eq, Structural)]
pub enum HvError {
    /// A static configuration is inconsistent: overlapping regions,
    /// a device assigned twice, a probe table of the wrong shape.
    InvalidConfig,
    /// A caller-supplied parameter lies outside the range the platform
    /// supports, such as a CPU id past the per-CPU array.
    InvalidParam,
}

pub type HvResult = Result<(), HvError>;

} // verus!
