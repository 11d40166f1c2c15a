use vstd::prelude::*;

use crate::error::HvError;
use crate::memory::MMIOAccess;
use crate::memory::MemoryRegion;
use crate::pci::PciRoot;

verus! {

/// Which component services a trapped MMIO region. The handlers themselves
/// take the raw values read from hardware, so the table records the
/// component rather than a code address.
#[derive(Clone, Copy, Debug, PartialEq, Eq, Structural)]
pub enum MmioHandler {
    Pci,
    Virtio,
}

/// One trapped MMIO interval of a zone: base, size, the component that
/// handles it, and an opaque argument handed to the handler.
#[derive(Clone, Copy, Debug, PartialEq, Eq, Structural)]
pub struct MmioRegion {
    pub base: u64,
    pub size: u64,
    pub handler: MmioHandler,
    pub arg: u64,
}

/// Whether `addr` lies inside the region.
pub open spec fn spec_mmio_contains(r: MmioRegion, addr: u64) -> bool {
    r.base <= addr < r.base + r.size
}

/// Whether two trapped intervals share no address.
pub open spec fn spec_mmio_disjoint(a: MmioRegion, b: MmioRegion) -> bool {
    a.base + a.size <= b.base || b.base + b.size <= a.base
}

/// Whether two guest-physical intervals share no guest address.
pub open spec fn spec_gpm_disjoint(a: MemoryRegion, b: MemoryRegion) -> bool {
    a.virtual_start + a.size <= b.virtual_start || b.virtual_start + b.size <= a.virtual_start
}

/// One partition: its id, the fixed CPU bitmap, the interrupt whitelist,
/// the trapped MMIO table, the guest-physical memory map, and its PCI view.
#[derive(Debug)]
pub struct Zone {
    pub id: u64,
    pub cpu_set: u64,
    pub irqs: Vec<u64>,
    pub mmio_regions: Vec<MmioRegion>,
    pub gpm: Vec<MemoryRegion>,
    pub pciroot: PciRoot,
}

impl Zone {
    /// The trapped MMIO table holds non-empty, in-range, pairwise disjoint
    /// intervals, so every guest-physical address has at most one handler.
    pub open spec fn mmio_wf(self) -> bool {
        &&& forall|i: int|
            0 <= i < self.mmio_regions@.len() ==> (#[trigger] self.mmio_regions@[i]).size > 0
                && self.mmio_regions@[i].base + self.mmio_regions@[i].size <= u64::MAX
        &&& forall|i: int, j: int|
            0 <= i < j < self.mmio_regions@.len() ==> spec_mmio_disjoint(
                #[trigger] self.mmio_regions@[i],
                #[trigger] self.mmio_regions@[j],
            )
    }

    /// The guest-physical map holds non-empty, in-range intervals that are
    /// pairwise disjoint on the guest side, so a guest address reaches at
    /// most one host interval.
    pub open spec fn gpm_wf(self) -> bool {
        &&& forall|i: int|
            0 <= i < self.gpm@.len() ==> (#[trigger] self.gpm@[i]).size > 0
                && self.gpm@[i].virtual_start + self.gpm@[i].size <= u64::MAX
        &&& forall|i: int, j: int|
            0 <= i < j < self.gpm@.len() ==> spec_gpm_disjoint(
                #[trigger] self.gpm@[i],
                #[trigger] self.gpm@[j],
            )
    }

    pub fn new(id: u64, cpu_set: u64) -> (z: Self)
        ensures
            z.id == id,
            z.cpu_set == cpu_set,
            z.irqs@ == Seq::<u64>::empty(),
            z.mmio_regions@ == Seq::<MmioRegion>::empty(),
            z.gpm@ == Seq::<MemoryRegion>::empty(),
            z.pciroot.endpoints@.len() == 0,
            z.pciroot.bridges@.len() == 0,
            z.pciroot.alloc_devs@.len() == 0,
            z.pciroot.bar_regions@.len() == 0,
            z.mmio_wf(),
            z.gpm_wf(),
    {
        Zone {
            id,
            cpu_set,
            irqs: Vec::new(),
            mmio_regions: Vec::new(),
            gpm: Vec::new(),
            pciroot: PciRoot::new(),
        }
    }
}

/// Whether a new trap region may be added: it must be non-empty, fit the
/// address space, and overlap no registered region.
pub open spec fn spec_can_register(rs: Seq<MmioRegion>, nr: MmioRegion) -> bool {
    &&& nr.size > 0
    &&& nr.base + nr.size <= u64::MAX
    &&& forall|i: int| 0 <= i < rs.len() ==> spec_mmio_disjoint(#[trigger] rs[i], nr)
}

/// The trap table after registering each region of `ws` in order; a region
/// that overlaps is refused and the rest still register.
pub open spec fn spec_register_all(rs: Seq<MmioRegion>, ws: Seq<MmioRegion>) -> Seq<MmioRegion>
    decreases ws.len(),
{
    if ws.len() == 0 {
        rs
    } else if spec_can_register(rs, ws[0]) {
        spec_register_all(rs.push(ws[0]), ws.drop_first())
    } else {
        spec_register_all(rs, ws.drop_first())
    }
}

/// Whether every region of `ws`, registered in order, is accepted.
pub open spec fn spec_register_all_ok(rs: Seq<MmioRegion>, ws: Seq<MmioRegion>) -> bool
    decreases ws.len(),
{
    if ws.len() == 0 {
        true
    } else {
        spec_can_register(rs, ws[0]) && spec_register_all_ok(rs.push(ws[0]), ws.drop_first())
    }
}

/// Whether a new guest-physical mapping may be added.
pub open spec fn spec_can_map(gpm: Seq<MemoryRegion>, nr: MemoryRegion) -> bool {
    &&& nr.size > 0
    &&& nr.virtual_start + nr.size <= u64::MAX
    &&& forall|i: int| 0 <= i < gpm.len() ==> spec_gpm_disjoint(#[trigger] gpm[i], nr)
}

/// The guest-physical map after an insert attempt: accepted if it fits,
/// silently skipped otherwise.
pub open spec fn spec_gpm_insert(gpm: Seq<MemoryRegion>, nr: MemoryRegion) -> Seq<MemoryRegion> {
    if spec_can_map(gpm, nr) {
        gpm.push(nr)
    } else {
        gpm
    }
}

/// The guest-physical map after inserting each region of `ws` in order,
/// skipping the ones that do not fit.
pub open spec fn spec_gpm_insert_all(
    gpm: Seq<MemoryRegion>,
    ws: Seq<MemoryRegion>,
) -> Seq<MemoryRegion>
    decreases ws.len(),
{
    if ws.len() == 0 {
        gpm
    } else {
        spec_gpm_insert_all(spec_gpm_insert(gpm, ws[0]), ws.drop_first())
    }
}

impl Zone {
    /// Register one trapped MMIO interval.
    ///
    /// Overlap between trap regions is a configuration error: the table is
    /// left untouched and the caller learns why.
    pub fn mmio_region_register(
        &mut self,
        base: u64,
        size: u64,
        handler: MmioHandler,
        arg: u64,
    ) -> (r: Result<(), HvError>)
        requires
            old(self).mmio_wf(),
        ensures
            final(self).mmio_wf(),
            (r is Ok) <==> spec_can_register(
                old(self).mmio_regions@,
                (MmioRegion { base, size, handler, arg }),
            ),
            r is Ok ==> *final(self) == (Zone {
                mmio_regions: final(self).mmio_regions,
                ..*old(self)
            }) && final(self).mmio_regions@ == old(self).mmio_regions@.push(
                (MmioRegion { base, size, handler, arg }),
            ),
            r is Err ==> *final(self) == *old(self) && r == Err::<(), HvError>(
                HvError::InvalidConfig,
            ),
    {
        let nr = MmioRegion { base, size, handler, arg };
        if size == 0 {
            return Err(HvError::InvalidConfig);
        }
        if base > u64::MAX - size {
            return Err(HvError::InvalidConfig);
        }
        let n = self.mmio_regions.len();
        let mut i: usize = 0;
        while i < n
            invariant
                self.mmio_wf(),
                n == self.mmio_regions@.len(),
                i <= n,
                size > 0,
                base + size <= u64::MAX,
                nr == (MmioRegion { base, size, handler, arg }),
                forall|k: int| 0 <= k < i ==> spec_mmio_disjoint(#[trigger] self.mmio_regions@[k], nr),
            decreases n - i,
        {
            let reg = self.mmio_regions[i];
            if !(reg.base + reg.size <= base || base + size <= reg.base) {
                return Err(HvError::InvalidConfig);
            }
            i = i + 1;
        }
        self.mmio_regions.push(nr);
        Ok(())
    }

    /// Find the unique trap region containing a guest-physical address.
    pub fn find_mmio_region(&self, addr: u64) -> (r: Option<MmioRegion>)
        requires
            self.mmio_wf(),
        ensures
            (r is Some) <==> exists|i: int|
                0 <= i < self.mmio_regions@.len() && spec_mmio_contains(
                    #[trigger] self.mmio_regions@[i],
                    addr,
                ),
            r matches Some(reg) ==> self.mmio_regions@.contains(reg) && spec_mmio_contains(
                reg,
                addr,
            ),
    {
        let n = self.mmio_regions.len();
        let mut i: usize = 0;
        while i < n
            invariant
                n == self.mmio_regions@.len(),
                i <= n,
                forall|k: int|
                    0 <= k < i ==> !spec_mmio_contains(#[trigger] self.mmio_regions@[k], addr),
            decreases n - i,
        {
            let reg = self.mmio_regions[i];
            if reg.base <= addr && addr - reg.base < reg.size {
                return Some(reg);
            }
            i = i + 1;
        }
        None
    }

    /// Route one stage-2 MMIO fault: find the containing trap region and
    /// build the access the handler sees, with the address made relative to
    /// the region base. A fault outside every region returns nothing; the
    /// caller then applies `unmapped_mmio_access`, which fixes the default
    /// policy.
    pub fn route_mmio_access(&self, gpa: u64, size: u64, is_write: bool, value: u64) -> (r: Option<
        (MmioRegion, MMIOAccess),
    >)
        requires
            self.mmio_wf(),
        ensures
            (r is Some) <==> exists|i: int|
                0 <= i < self.mmio_regions@.len() && spec_mmio_contains(
                    #[trigger] self.mmio_regions@[i],
                    gpa,
                ),
            r matches Some(pair) ==> self.mmio_regions@.contains(pair.0) && spec_mmio_contains(
                pair.0,
                gpa,
            ) && pair.1 == (MMIOAccess { address: (gpa - pair.0.base) as u64, size, is_write, value }),
    {
        match self.find_mmio_region(gpa) {
            Some(reg) => {
                let access = MMIOAccess { address: gpa - reg.base, size, is_write, value };
                Some((reg, access))
            },
            None => None,
        }
    }

    /// Insert one interval into the guest-physical map; an interval that
    /// overlaps on the guest side is refused.
    pub fn gpm_insert(&mut self, region: MemoryRegion) -> (r: Result<(), HvError>)
        requires
            old(self).gpm_wf(),
        ensures
            final(self).gpm_wf(),
            (r is Ok) <==> spec_can_map(old(self).gpm@, region),
            final(self).gpm@ == spec_gpm_insert(old(self).gpm@, region),
            *final(self) == (Zone { gpm: final(self).gpm, ..*old(self) }),
            r is Err ==> r == Err::<(), HvError>(HvError::InvalidConfig),
    {
        if region.size == 0 {
            return Err(HvError::InvalidConfig);
        }
        if region.virtual_start > u64::MAX - region.size {
            return Err(HvError::InvalidConfig);
        }
        let n = self.gpm.len();
        let mut i: usize = 0;
        while i < n
            invariant
                self.gpm_wf(),
                n == self.gpm@.len(),
                i <= n,
                region.size > 0,
                region.virtual_start + region.size <= u64::MAX,
                forall|k: int| 0 <= k < i ==> spec_gpm_disjoint(#[trigger] self.gpm@[k], region),
            decreases n - i,
        {
            let reg = self.gpm[i];
            if !(reg.virtual_start + reg.size <= region.virtual_start || region.virtual_start
                + region.size <= reg.virtual_start) {
                return Err(HvError::InvalidConfig);
            }
            i = i + 1;
        }
        self.gpm.push(region);
        Ok(())
    }
}

/// The policy for a fault that no trap region contains: the guest sees a
/// zero on a read, a write is ignored, and execution continues — guest
/// misbehaviour is never fatal.
pub fn unmapped_mmio_access(mmio: &mut MMIOAccess) -> (r: Result<(), HvError>)
    ensures
        r is Ok,
        !old(mmio).is_write ==> *final(mmio) == (MMIOAccess { value: 0, ..*old(mmio) }),
        old(mmio).is_write ==> *final(mmio) == *old(mmio),
{
    if !mmio.is_write {
        mmio.value = 0;
    }
    Ok(())
}

/// All registered MMIO trap regions of a zone are pairwise disjoint.
pub proof fn lemma_mmio_region_disjointness(z: Zone, i: int, j: int)
    requires
        z.mmio_wf(),
        0 <= i < z.mmio_regions@.len(),
        0 <= j < z.mmio_regions@.len(),
        i != j,
    ensures
        spec_mmio_disjoint(z.mmio_regions@[i], z.mmio_regions@[j]),
{
}

/// Whether no BDF appears in the device sets of two different zones.
pub open spec fn spec_devs_disjoint(a: Seq<u64>, b: Seq<u64>) -> bool {
    forall|x: u64| a.contains(x) ==> !b.contains(x)
}

/// Whether the zones' assigned-device sets are pairwise disjoint.
pub open spec fn spec_zone_devs_disjoint(zones: Seq<Zone>) -> bool {
    forall|i: int, j: int|
        0 <= i < j < zones.len() ==> spec_devs_disjoint(
            (#[trigger] zones[i]).pciroot.alloc_devs@,
            (#[trigger] zones[j]).pciroot.alloc_devs@,
        )
}

/// Whether two device lists share an element.
fn devs_intersect(a: &Vec<u64>, b: &Vec<u64>) -> (r: bool)
    ensures
        r == !spec_devs_disjoint(a@, b@),
{
    let n = a.len();
    let mut i: usize = 0;
    while i < n
        invariant
            n == a@.len(),
            i <= n,
            forall|k: int| 0 <= k < i ==> !b@.contains(#[trigger] a@[k]),
        decreases n - i,
    {
        let m = b.len();
        let mut j: usize = 0;
        while j < m
            invariant
                n == a@.len(),
                m == b@.len(),
                i < n,
                j <= m,
                forall|k: int| 0 <= k < j ==> b@[k] != a@[i as int],
            decreases m - j,
        {
            if b[j] == a[i] {
                assert(b@.contains(a@[i as int]));
                assert(a@.contains(a@[i as int]));
                return true;
            }
            j = j + 1;
        }
        assert(!b@.contains(a@[i as int]));
        i = i + 1;
    }
    assert forall|x: u64| a@.contains(x) implies !b@.contains(x) by {
        let k = choose|k: int| 0 <= k < a@.len() && a@[k] == x;
        assert(!b@.contains(a@[k]));
    }
    false
}

/// The boot-time configuration check behind device isolation: accept a set
/// of zones only if no PCI device is assigned to two of them.
pub fn check_zone_device_isolation(zones: &Vec<Zone>) -> (r: bool)
    ensures
        r == spec_zone_devs_disjoint(zones@),
{
    let n = zones.len();
    let mut i: usize = 0;
    while i < n
        invariant
            n == zones@.len(),
            i <= n,
            forall|a: int, b: int|
                0 <= a < b < zones@.len() && a < i ==> spec_devs_disjoint(
                    (#[trigger] zones@[a]).pciroot.alloc_devs@,
                    (#[trigger] zones@[b]).pciroot.alloc_devs@,
                ),
        decreases n - i,
    {
        let mut j: usize = i + 1;
        while j < n
            invariant
                n == zones@.len(),
                i < n,
                i < j,
                j <= n,
                forall|a: int, b: int|
                    0 <= a < b < zones@.len() && a < i ==> spec_devs_disjoint(
                        (#[trigger] zones@[a]).pciroot.alloc_devs@,
                        (#[trigger] zones@[b]).pciroot.alloc_devs@,
                    ),
                forall|b: int|
                    i < b < j ==> spec_devs_disjoint(
                        zones@[i as int].pciroot.alloc_devs@,
                        (#[trigger] zones@[b]).pciroot.alloc_devs@,
                    ),
            decreases n - j,
        {
            if devs_intersect(&zones[i].pciroot.alloc_devs, &zones[j].pciroot.alloc_devs) {
                return false;
            }
            j = j + 1;
        }
        i = i + 1;
    }
    true
}

/// Membership in a joined device list comes from one of its halves.
proof fn lemma_devs_append_contains(a: Seq<u64>, b: Seq<u64>, x: u64)
    requires
        (a + b).contains(x),
    ensures
        a.contains(x) || b.contains(x),
{
    let idx = choose|idx: int| 0 <= idx < (a + b).len() && (a + b)[idx] == x;
    if idx < a.len() {
        assert(a[idx] == x);
    } else {
        assert(b[idx - a.len()] == x);
    }
}

/// Isolation is kept across device assignment: when one zone gains a row
/// of BDFs that no other zone holds — which is what a static configuration
/// assigning each device to exactly one zone provides — the zones' device
/// sets stay pairwise disjoint. `Zone::pci_init` performs exactly such a
/// gain: it appends its configured row to its own set and touches no other
/// zone.
pub proof fn lemma_isolation_after_assignment(
    zs0: Seq<Zone>,
    zs1: Seq<Zone>,
    k: int,
    added: Seq<u64>,
)
    requires
        spec_zone_devs_disjoint(zs0),
        0 <= k < zs0.len(),
        zs1.len() == zs0.len(),
        forall|j: int|
            0 <= j < zs1.len() && j != k ==> (#[trigger] zs1[j]).pciroot.alloc_devs@
                == zs0[j].pciroot.alloc_devs@,
        zs1[k].pciroot.alloc_devs@ == zs0[k].pciroot.alloc_devs@ + added,
        forall|j: int|
            0 <= j < zs0.len() && j != k ==> spec_devs_disjoint(
                added,
                (#[trigger] zs0[j]).pciroot.alloc_devs@,
            ),
    ensures
        spec_zone_devs_disjoint(zs1),
{
    assert forall|i: int, j: int| 0 <= i < j < zs1.len() implies spec_devs_disjoint(
        (#[trigger] zs1[i]).pciroot.alloc_devs@,
        (#[trigger] zs1[j]).pciroot.alloc_devs@,
    ) by {
        assert(spec_devs_disjoint(zs0[i].pciroot.alloc_devs@, zs0[j].pciroot.alloc_devs@));
        if i == k {
            assert forall|x: u64| zs1[i].pciroot.alloc_devs@.contains(x) implies !zs1[
                j
            ].pciroot.alloc_devs@.contains(x) by {
                lemma_devs_append_contains(zs0[k].pciroot.alloc_devs@, added, x);
                assert(spec_devs_disjoint(added, zs0[j].pciroot.alloc_devs@));
            }
        } else if j == k {
            assert forall|x: u64| zs1[i].pciroot.alloc_devs@.contains(x) implies !zs1[
                j
            ].pciroot.alloc_devs@.contains(x) by {
                if zs1[j].pciroot.alloc_devs@.contains(x) {
                    lemma_devs_append_contains(zs0[k].pciroot.alloc_devs@, added, x);
                    assert(spec_devs_disjoint(added, zs0[i].pciroot.alloc_devs@));
                }
            }
        }
    }
}

/// Isolation: a device assigned to one zone is assigned to no other. Any
/// BDF found in one zone's device set is absent from every other zone's,
/// provided the sets are pairwise disjoint, which
/// `check_zone_device_isolation` establishes at boot.
pub proof fn lemma_device_isolation(zones: Seq<Zone>, i: int, j: int, bdf: u64)
    requires
        spec_zone_devs_disjoint(zones),
        0 <= i < zones.len(),
        0 <= j < zones.len(),
        i != j,
        zones[i].pciroot.alloc_devs@.contains(bdf),
    ensures
        !zones[j].pciroot.alloc_devs@.contains(bdf),
{
    if i < j {
        assert(spec_devs_disjoint(zones[i].pciroot.alloc_devs@, zones[j].pciroot.alloc_devs@));
    } else {
        assert(spec_devs_disjoint(zones[j].pciroot.alloc_devs@, zones[i].pciroot.alloc_devs@));
        if zones[j].pciroot.alloc_devs@.contains(bdf) {
            assert(!zones[i].pciroot.alloc_devs@.contains(bdf));
        }
    }
}

} // verus!
