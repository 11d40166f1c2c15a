use vstd::prelude::*;

verus! {

/// The mapped interval may be read by the guest.
pub const MEM_FLAG_READ: u64 = 1;
/// The mapped interval may be written by the guest.
pub const MEM_FLAG_WRITE: u64 = 2;

/// One interval of a zone's guest-physical memory map: guest-physical start,
/// host-physical start, size in bytes, and access flags.
#[derive(Clone, Copy, Debug, PartialEq, Eq, Structural)]
pub struct MemoryRegion {
    pub virtual_start: u64,
    pub physical_start: u64,
    pub size: u64,
    pub flags: u64,
}

impl MemoryRegion {
    /// A region that maps the guest-physical interval starting at `gpa`
    /// to the host-physical interval starting at `hpa`.
    pub fn new_with_offset_mapper(gpa: u64, hpa: u64, size: u64, flags: u64) -> (r: Self)
        ensures
            r == (MemoryRegion { virtual_start: gpa, physical_start: hpa, size, flags }),
    {
        MemoryRegion { virtual_start: gpa, physical_start: hpa, size, flags }
    }
}

/// One guest MMIO access as decoded from a stage-2 data abort. `address` is
/// relative to the base of the trapped region once the router has dispatched
/// the access; `size` is 1, 2, 4 or 8 bytes.
#[derive(Clone, Copy, Debug, PartialEq, Eq, Structural)]
pub struct MMIOAccess {
    pub address: u64,
    pub size: u64,
    pub is_write: bool,
    pub value: u64,
}

/// The mask that keeps the low `size` bytes of a value.
pub open spec fn spec_access_mask(size: u64) -> u64 {
    if size == 1 {
        0xff
    } else if size == 2 {
        0xffff
    } else if size == 4 {
        0xffff_ffff
    } else {
        0xffff_ffff_ffff_ffff
    }
}

/// The mask that keeps the low `size` bytes of a value.
pub fn access_mask(size: u64) -> (m: u64)
    ensures
        m == spec_access_mask(size),
{
    if size == 1 {
        0xff
    } else if size == 2 {
        0xffff
    } else if size == 4 {
        0xffff_ffff
    } else {
        0xffff_ffff_ffff_ffff
    }
}

/// The value half of a sized access to physical hardware.
///
/// The load or store itself happens outside this crate: for a read, the
/// caller passes the value the sized load returned in `phys_read_val` and
/// this function moves it, masked to the access size, into `mmio.value`;
/// for a write it leaves the access untouched and reports, by returning
/// true, that the caller must perform the store of `mmio.value`.
pub fn mmio_perform_access(mmio: &mut MMIOAccess, phys_read_val: u64) -> (do_write: bool)
    ensures
        do_write == old(mmio).is_write,
        old(mmio).is_write ==> *final(mmio) == *old(mmio),
        !old(mmio).is_write ==> *final(mmio) == (MMIOAccess {
            value: phys_read_val & spec_access_mask(old(mmio).size),
            ..*old(mmio)
        }),
{
    if mmio.is_write {
        true
    } else {
        let m = access_mask(mmio.size);
        mmio.value = phys_read_val & m;
        false
    }
}

} // verus!
