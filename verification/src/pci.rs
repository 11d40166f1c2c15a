use vstd::prelude::*;

use crate::error::HvError;
use crate::error::HvResult;
use crate::memory::MMIOAccess;
use crate::memory::spec_access_mask;

verus! {

/// Config-space header presented for a populated slot the zone does not own:
/// a phantom vendor/device pair, so guest enumerators see a stub device and
/// leave its BARs alone.
pub const PHANTOM_DEV_HEADER: u64 = 0xffff_0001;

/// Smallest mappable unit; every BAR region is rounded up to it.
pub const PAGE_SIZE: u64 = 0x1000;

/// A type-0 (endpoint) header has six BARs.
pub const NUM_BAR_REGS_TYPE0: usize = 6;

/// A type-1 (bridge) header has two BARs.
pub const NUM_BAR_REGS_TYPE1: usize = 2;

/// What a BAR decodes to.
#[derive(Clone, Copy, Debug, PartialEq, Eq, Structural)]
pub enum BarKind {
    Mem32,
    Mem64,
    Io,
}

/// One sized BAR window: host-physical start, size in bytes, and kind.
#[derive(Clone, Copy, Debug, PartialEq, Eq, Structural)]
pub struct BarRegion {
    pub start: u64,
    pub size: u64,
    pub kind: BarKind,
    pub prefetchable: bool,
}

/// The two raw values the sizing pass reads from one BAR register:
/// the original value, and the value read back after writing all ones.
#[derive(Clone, Copy, Debug, PartialEq, Eq, Structural)]
pub struct BarProbe {
    pub origin_val: u32,
    pub new_val: u32,
}

/// Whether `x` is a power of two.
pub open spec fn spec_is_pow2(x: u64) -> bool {
    x != 0 && x & ((x - 1) as u64) == 0
}

/// Whether `x` is a power of two.
pub fn is_pow2(x: u64) -> (r: bool)
    ensures
        r == spec_is_pow2(x),
{
    x != 0 && x & (x - 1) == 0
}

/// The BAR regions decoded from a sequence of sizing probes.
///
/// The low bit of the read-back mask selects I/O against memory; for memory
/// BARs, bits 2:1 equal to 0b10 mean a 64-bit BAR whose upper half consumes
/// the next slot; the size is the two's complement of the mask with its
/// attribute bits cleared. A BAR whose mask decodes to size zero or to a size
/// that is not a power of two is unimplemented or malformed and yields no
/// region; a 64-bit BAR in the last slot has no upper half and ends the scan.
pub open spec fn spec_decode_bars(probes: Seq<BarProbe>) -> Seq<BarRegion>
    decreases probes.len(),
{
    if probes.len() == 0 {
        Seq::empty()
    } else {
        let p = probes[0];
        if p.new_val & 1 == 1 {
            let m = (p.new_val & 0xffff_fffc) as u64;
            let size = (0x1_0000_0000u64 - m) as u64;
            let rest = spec_decode_bars(probes.drop_first());
            if m != 0 && spec_is_pow2(size) {
                seq![
                    (BarRegion {
                        start: (p.origin_val & 0xffff_fffc) as u64,
                        size,
                        kind: BarKind::Io,
                        prefetchable: false,
                    }),
                ] + rest
            } else {
                rest
            }
        } else if (p.new_val >> 1) & 3 == 2 {
            if probes.len() == 1 {
                Seq::empty()
            } else {
                let hi = probes[1];
                let m = ((hi.new_val as u64) << 32) | ((p.new_val & 0xffff_fff0) as u64);
                let size = ((m ^ 0xffff_ffff_ffff_ffffu64) + 1) as u64;
                let rest = spec_decode_bars(probes.drop_first().drop_first());
                if m != 0 && spec_is_pow2(size) {
                    seq![
                        (BarRegion {
                            start: ((hi.origin_val as u64) << 32) | ((p.origin_val
                                & 0xffff_fff0) as u64),
                            size,
                            kind: BarKind::Mem64,
                            prefetchable: (p.new_val >> 3) & 1 == 1,
                        }),
                    ] + rest
                } else {
                    rest
                }
            }
        } else {
            let m = (p.new_val & 0xffff_fff0) as u64;
            let size = (0x1_0000_0000u64 - m) as u64;
            let rest = spec_decode_bars(probes.drop_first());
            if m != 0 && spec_is_pow2(size) {
                seq![
                    (BarRegion {
                        start: (p.origin_val & 0xffff_fff0) as u64,
                        size,
                        kind: BarKind::Mem32,
                        prefetchable: (p.new_val >> 3) & 1 == 1,
                    }),
                ] + rest
            } else {
                rest
            }
        }
    }
}

/// Every region the decoder yields has a power-of-two size.
pub proof fn lemma_decode_bars_pow2(probes: Seq<BarProbe>)
    ensures
        forall|k: int|
            0 <= k < spec_decode_bars(probes).len() ==> spec_is_pow2(
                #[trigger] spec_decode_bars(probes)[k].size,
            ),
    decreases probes.len(),
{
    if probes.len() == 0 {
    } else {
        lemma_decode_bars_pow2(probes.drop_first());
        if probes.len() > 1 {
            lemma_decode_bars_pow2(probes.drop_first().drop_first());
        }
    }
}

/// Decode the regions declared by a row of BAR sizing probes.
pub fn decode_bars(probes: &Vec<BarProbe>) -> (r: Vec<BarRegion>)
    ensures
        r@ == spec_decode_bars(probes@),
{
    let mut out: Vec<BarRegion> = Vec::new();
    let n = probes.len();
    let mut i: usize = 0;
    proof {
        assert(probes@.skip(0) =~= probes@);
    }
    while i < n
        invariant
            n == probes@.len(),
            i <= n,
            out@ + spec_decode_bars(probes@.skip(i as int)) == spec_decode_bars(probes@),
        decreases n - i,
    {
        let p = probes[i];
        proof {
            assert(probes@.skip(i as int)[0] == probes@[i as int]);
        }
        if p.new_val & 1 == 1 {
            let m: u64 = (p.new_val & 0xffff_fffc) as u64;
            let size: u64 = 0x1_0000_0000u64 - m;
            if m != 0 && is_pow2(size) {
                out.push(
                    BarRegion {
                        start: (p.origin_val & 0xffff_fffc) as u64,
                        size,
                        kind: BarKind::Io,
                        prefetchable: false,
                    },
                );
            }
            proof {
                assert(probes@.skip(i as int).drop_first() =~= probes@.skip(i as int + 1));
            }
            i = i + 1;
        } else if (p.new_val >> 1) & 3 == 2 {
            if i + 1 >= n {
                i = n;
            } else {
                let hi = probes[i + 1];
                proof {
                    assert(probes@.skip(i as int)[1] == probes@[i as int + 1]);
                }
                let m: u64 = ((hi.new_val as u64) << 32) | ((p.new_val & 0xffff_fff0) as u64);
                if m != 0 {
                    proof {
                        assert((m ^ 0xffff_ffff_ffff_ffffu64) < 0xffff_ffff_ffff_ffffu64)
                            by (bit_vector)
                            requires
                                m != 0,
                        ;
                    }
                    let size: u64 = (m ^ 0xffff_ffff_ffff_ffff) + 1;
                    if is_pow2(size) {
                        out.push(
                            BarRegion {
                                start: ((hi.origin_val as u64) << 32) | ((p.origin_val
                                    & 0xffff_fff0) as u64),
                                size,
                                kind: BarKind::Mem64,
                                prefetchable: (p.new_val >> 3) & 1 == 1,
                            },
                        );
                    }
                }
                proof {
                    assert(probes@.skip(i as int).drop_first().drop_first() =~= probes@.skip(
                        i as int + 2,
                    ));
                }
                i = i + 2;
            }
        } else {
            let m: u64 = (p.new_val & 0xffff_fff0) as u64;
            let size: u64 = 0x1_0000_0000u64 - m;
            if m != 0 && is_pow2(size) {
                out.push(
                    BarRegion {
                        start: (p.origin_val & 0xffff_fff0) as u64,
                        size,
                        kind: BarKind::Mem32,
                        prefetchable: (p.new_val >> 3) & 1 == 1,
                    },
                );
            }
            proof {
                assert(probes@.skip(i as int).drop_first() =~= probes@.skip(i as int + 1));
            }
            i = i + 1;
        }
    }
    proof {
        assert(probes@.skip(n as int) =~= Seq::<BarProbe>::empty());
    }
    out
}

/// One type-0 device: its BDF and the BAR regions its sizing pass found.
#[derive(Debug)]
pub struct EndpointConfig {
    pub bdf: u64,
    pub bars: Vec<BarRegion>,
}

impl EndpointConfig {
    pub fn new(bdf: u64) -> (r: Self)
        ensures
            r.bdf == bdf,
            r.bars@ == Seq::<BarRegion>::empty(),
    {
        EndpointConfig { bdf, bars: Vec::new() }
    }
}

/// One type-1 bridge: its BDF and the BAR regions its sizing pass found.
#[derive(Debug)]
pub struct BridgeConfig {
    pub bdf: u64,
    pub bars: Vec<BarRegion>,
}

impl BridgeConfig {
    pub fn new(bdf: u64) -> (r: Self)
        ensures
            r.bdf == bdf,
            r.bars@ == Seq::<BarRegion>::empty(),
    {
        BridgeConfig { bdf, bars: Vec::new() }
    }
}

/// A BAR region rounded up to the page size.
pub open spec fn spec_round_region(r: BarRegion) -> BarRegion {
    if r.size < PAGE_SIZE {
        BarRegion { size: PAGE_SIZE, ..r }
    } else {
        r
    }
}

/// The page-rounded BAR regions of a row of endpoints, in order.
pub open spec fn spec_ep_regions(eps: Seq<EndpointConfig>) -> Seq<BarRegion>
    decreases eps.len(),
{
    if eps.len() == 0 {
        Seq::empty()
    } else {
        spec_ep_regions(eps.drop_last()) + eps.last().bars@.map_values(
            |r: BarRegion| spec_round_region(r),
        )
    }
}

/// The page-rounded BAR regions of a row of bridges, in order.
pub open spec fn spec_bridge_regions(bridges: Seq<BridgeConfig>) -> Seq<BarRegion>
    decreases bridges.len(),
{
    if bridges.len() == 0 {
        Seq::empty()
    } else {
        spec_bridge_regions(bridges.drop_last()) + bridges.last().bars@.map_values(
            |r: BarRegion| spec_round_region(r),
        )
    }
}

/// The PCI view of one zone: the classified devices, the BDFs the zone owns
/// (the host bridge, BDF 0, included), and the BAR regions its devices
/// declare.
#[derive(Debug)]
pub struct PciRoot {
    pub endpoints: Vec<EndpointConfig>,
    pub bridges: Vec<BridgeConfig>,
    pub alloc_devs: Vec<u64>,
    pub bar_regions: Vec<BarRegion>,
}

impl PciRoot {
    pub fn new() -> (r: Self)
        ensures
            r.endpoints@ == Seq::<EndpointConfig>::empty(),
            r.bridges@ == Seq::<BridgeConfig>::empty(),
            r.alloc_devs@ == Seq::<u64>::empty(),
            r.bar_regions@ == Seq::<BarRegion>::empty(),
    {
        PciRoot {
            endpoints: Vec::new(),
            bridges: Vec::new(),
            alloc_devs: Vec::new(),
            bar_regions: Vec::new(),
        }
    }

    /// Whether `bdf` is one of the devices assigned to this zone.
    pub fn is_assigned_device(&self, bdf: u64) -> (r: bool)
        ensures
            r == self.alloc_devs@.contains(bdf),
    {
        let n = self.alloc_devs.len();
        let mut i: usize = 0;
        while i < n
            invariant
                n == self.alloc_devs@.len(),
                i <= n,
                forall|k: int| 0 <= k < i ==> self.alloc_devs@[k] != bdf,
            decreases n - i,
        {
            if self.alloc_devs[i] == bdf {
                return true;
            }
            i = i + 1;
        }
        false
    }

    /// Decode each endpoint's BARs from its probe row.
    fn ep_bars_init(&mut self, probes: &Vec<Vec<BarProbe>>)
        requires
            probes@.len() == old(self).endpoints@.len(),
        ensures
            final(self).endpoints@.len() == old(self).endpoints@.len(),
            forall|k: int|
                0 <= k < old(self).endpoints@.len() ==> (#[trigger] final(self).endpoints@[k]).bdf
                    == old(self).endpoints@[k].bdf && final(self).endpoints@[k].bars@
                    == spec_decode_bars(probes@[k]@),
            final(self).bridges@ == old(self).bridges@,
            final(self).alloc_devs@ == old(self).alloc_devs@,
            final(self).bar_regions@ == old(self).bar_regions@,
    {
        let n = self.endpoints.len();
        let mut new_eps: Vec<EndpointConfig> = Vec::new();
        let mut i: usize = 0;
        while i < n
            invariant
                *self == *old(self),
                n == self.endpoints@.len(),
                probes@.len() == n,
                i <= n,
                new_eps@.len() == i,
                forall|k: int|
                    0 <= k < i ==> (#[trigger] new_eps@[k]).bdf == self.endpoints@[k].bdf
                        && new_eps@[k].bars@ == spec_decode_bars(probes@[k]@),
            decreases n - i,
        {
            let bdf = self.endpoints[i].bdf;
            let bars = decode_bars(&probes[i]);
            new_eps.push(EndpointConfig { bdf, bars });
            i = i + 1;
        }
        self.endpoints = new_eps;
    }

    /// Decode each bridge's BARs from its probe row.
    fn bridge_bars_init(&mut self, probes: &Vec<Vec<BarProbe>>)
        requires
            probes@.len() == old(self).bridges@.len(),
        ensures
            final(self).bridges@.len() == old(self).bridges@.len(),
            forall|k: int|
                0 <= k < old(self).bridges@.len() ==> (#[trigger] final(self).bridges@[k]).bdf
                    == old(self).bridges@[k].bdf && final(self).bridges@[k].bars@
                    == spec_decode_bars(probes@[k]@),
            final(self).endpoints@ == old(self).endpoints@,
            final(self).alloc_devs@ == old(self).alloc_devs@,
            final(self).bar_regions@ == old(self).bar_regions@,
    {
        let n = self.bridges.len();
        let mut new_bridges: Vec<BridgeConfig> = Vec::new();
        let mut i: usize = 0;
        while i < n
            invariant
                *self == *old(self),
                n == self.bridges@.len(),
                probes@.len() == n,
                i <= n,
                new_bridges@.len() == i,
                forall|k: int|
                    0 <= k < i ==> (#[trigger] new_bridges@[k]).bdf == self.bridges@[k].bdf
                        && new_bridges@[k].bars@ == spec_decode_bars(probes@[k]@),
            decreases n - i,
        {
            let bdf = self.bridges[i].bdf;
            let bars = decode_bars(&probes[i]);
            new_bridges.push(BridgeConfig { bdf, bars });
            i = i + 1;
        }
        self.bridges = new_bridges;
    }

    /// Collect every device's BAR regions, rounding each up to a page.
    pub fn get_bars_regions(&mut self)
        ensures
            final(self).bar_regions@ == old(self).bar_regions@ + spec_ep_regions(
                old(self).endpoints@,
            ) + spec_bridge_regions(old(self).bridges@),
            final(self).endpoints@ == old(self).endpoints@,
            final(self).bridges@ == old(self).bridges@,
            final(self).alloc_devs@ == old(self).alloc_devs@,
    {
        let ep_n = self.endpoints.len();
        let mut i: usize = 0;
        proof {
            assert(old(self).endpoints@.take(0) =~= Seq::<EndpointConfig>::empty());
        }
        while i < ep_n
            invariant
                self.endpoints@ == old(self).endpoints@,
                self.bridges@ == old(self).bridges@,
                self.alloc_devs@ == old(self).alloc_devs@,
                ep_n == self.endpoints@.len(),
                i <= ep_n,
                self.bar_regions@ == old(self).bar_regions@ + spec_ep_regions(
                    old(self).endpoints@.take(i as int),
                ),
            decreases ep_n - i,
        {
            let m = self.endpoints[i].bars.len();
            let ghost bars = self.endpoints@[i as int].bars@;
            let mut j: usize = 0;
            proof {
                assert(bars.take(0).map_values(|r: BarRegion| spec_round_region(r)) =~= Seq::<
                    BarRegion,
                >::empty());
            }
            while j < m
                invariant
                    self.endpoints@ == old(self).endpoints@,
                    self.bridges@ == old(self).bridges@,
                    self.alloc_devs@ == old(self).alloc_devs@,
                    ep_n == self.endpoints@.len(),
                    i < ep_n,
                    bars == self.endpoints@[i as int].bars@,
                    m == bars.len(),
                    j <= m,
                    self.bar_regions@ == old(self).bar_regions@ + spec_ep_regions(
                        old(self).endpoints@.take(i as int),
                    ) + bars.take(j as int).map_values(|r: BarRegion| spec_round_region(r)),
                decreases m - j,
            {
                let mut region = self.endpoints[i].bars[j];
                if region.size < PAGE_SIZE {
                    region.size = PAGE_SIZE;
                }
                self.bar_regions.push(region);
                proof {
                    assert(bars.take(j as int + 1).map_values(
                        |r: BarRegion| spec_round_region(r),
                    ) =~= bars.take(j as int).map_values(|r: BarRegion| spec_round_region(r)).push(
                        spec_round_region(bars[j as int]),
                    ));
                }
                j = j + 1;
            }
            proof {
                assert(bars.take(m as int) =~= bars);
                assert(old(self).endpoints@.take(i as int + 1).drop_last() =~= old(
                    self,
                ).endpoints@.take(i as int));
                assert(old(self).endpoints@.take(i as int + 1).last() == old(
                    self,
                ).endpoints@[i as int]);
            }
            i = i + 1;
        }
        proof {
            assert(old(self).endpoints@.take(ep_n as int) =~= old(self).endpoints@);
        }
        let br_n = self.bridges.len();
        let mut i2: usize = 0;
        proof {
            assert(old(self).bridges@.take(0) =~= Seq::<BridgeConfig>::empty());
        }
        while i2 < br_n
            invariant
                self.endpoints@ == old(self).endpoints@,
                self.bridges@ == old(self).bridges@,
                self.alloc_devs@ == old(self).alloc_devs@,
                br_n == self.bridges@.len(),
                i2 <= br_n,
                self.bar_regions@ == old(self).bar_regions@ + spec_ep_regions(
                    old(self).endpoints@,
                ) + spec_bridge_regions(old(self).bridges@.take(i2 as int)),
            decreases br_n - i2,
        {
            let m = self.bridges[i2].bars.len();
            let ghost bars = self.bridges@[i2 as int].bars@;
            let mut j: usize = 0;
            proof {
                assert(bars.take(0).map_values(|r: BarRegion| spec_round_region(r)) =~= Seq::<
                    BarRegion,
                >::empty());
            }
            while j < m
                invariant
                    self.endpoints@ == old(self).endpoints@,
                    self.bridges@ == old(self).bridges@,
                    self.alloc_devs@ == old(self).alloc_devs@,
                    br_n == self.bridges@.len(),
                    i2 < br_n,
                    bars == self.bridges@[i2 as int].bars@,
                    m == bars.len(),
                    j <= m,
                    self.bar_regions@ == old(self).bar_regions@ + spec_ep_regions(
                        old(self).endpoints@,
                    ) + spec_bridge_regions(old(self).bridges@.take(i2 as int)) + bars.take(
                        j as int,
                    ).map_values(|r: BarRegion| spec_round_region(r)),
                decreases m - j,
            {
                let mut region = self.bridges[i2].bars[j];
                if region.size < PAGE_SIZE {
                    region.size = PAGE_SIZE;
                }
                self.bar_regions.push(region);
                proof {
                    assert(bars.take(j as int + 1).map_values(
                        |r: BarRegion| spec_round_region(r),
                    ) =~= bars.take(j as int).map_values(|r: BarRegion| spec_round_region(r)).push(
                        spec_round_region(bars[j as int]),
                    ));
                }
                j = j + 1;
            }
            proof {
                assert(bars.take(m as int) =~= bars);
                assert(old(self).bridges@.take(i2 as int + 1).drop_last() =~= old(
                    self,
                ).bridges@.take(i2 as int));
                assert(old(self).bridges@.take(i2 as int + 1).last() == old(
                    self,
                ).bridges@[i2 as int]);
            }
            i2 = i2 + 1;
        }
        proof {
            assert(old(self).bridges@.take(br_n as int) =~= old(self).bridges@);
        }
    }
}

/// Whether every decoded BAR of every endpoint has a power-of-two size.
pub open spec fn spec_ep_bars_pow2(eps: Seq<EndpointConfig>) -> bool {
    forall|i: int, j: int|
        0 <= i < eps.len() && 0 <= j < eps[i].bars@.len() ==> spec_is_pow2(
            (#[trigger] eps[i].bars@[j]).size,
        )
}

/// Whether every decoded BAR of every bridge has a power-of-two size.
pub open spec fn spec_bridge_bars_pow2(bridges: Seq<BridgeConfig>) -> bool {
    forall|i: int, j: int|
        0 <= i < bridges.len() && 0 <= j < bridges[i].bars@.len() ==> spec_is_pow2(
            (#[trigger] bridges[i].bars@[j]).size,
        )
}

/// Rounding keeps a power-of-two size and never goes below a page.
proof fn lemma_round_region_props(r: BarRegion)
    requires
        spec_is_pow2(r.size),
    ensures
        spec_round_region(r).size >= PAGE_SIZE,
        spec_is_pow2(spec_round_region(r).size),
{
    assert(spec_is_pow2(0x1000u64)) by (bit_vector);
}

/// Every region collected from a row of endpoints is page-rounded and keeps
/// a power-of-two size.
proof fn lemma_ep_regions_props(eps: Seq<EndpointConfig>)
    requires
        spec_ep_bars_pow2(eps),
    ensures
        forall|k: int|
            0 <= k < spec_ep_regions(eps).len() ==> (#[trigger] spec_ep_regions(eps)[k]).size
                >= PAGE_SIZE && spec_is_pow2(spec_ep_regions(eps)[k].size),
    decreases eps.len(),
{
    if eps.len() > 0 {
        assert forall|i: int, j: int|
            0 <= i < eps.drop_last().len() && 0 <= j < eps.drop_last()[i].bars@.len() implies
            spec_is_pow2((#[trigger] eps.drop_last()[i].bars@[j]).size) by {
            assert(eps.drop_last()[i] == eps[i]);
            assert(spec_is_pow2(eps[i].bars@[j].size));
        }
        assert(spec_ep_bars_pow2(eps.drop_last()));
        lemma_ep_regions_props(eps.drop_last());
        let mapped = eps.last().bars@.map_values(|r: BarRegion| spec_round_region(r));
        assert forall|k: int| 0 <= k < mapped.len() implies (#[trigger] mapped[k]).size
            >= PAGE_SIZE && spec_is_pow2(mapped[k].size) by {
            assert(eps[eps.len() - 1] == eps.last());
            assert(spec_is_pow2(eps.last().bars@[k].size));
            lemma_round_region_props(eps.last().bars@[k]);
        }
    }
}

/// Every region collected from a row of bridges is page-rounded and keeps
/// a power-of-two size.
proof fn lemma_bridge_regions_props(bridges: Seq<BridgeConfig>)
    requires
        spec_bridge_bars_pow2(bridges),
    ensures
        forall|k: int|
            0 <= k < spec_bridge_regions(bridges).len() ==> (#[trigger] spec_bridge_regions(
                bridges,
            )[k]).size >= PAGE_SIZE && spec_is_pow2(spec_bridge_regions(bridges)[k].size),
    decreases bridges.len(),
{
    if bridges.len() > 0 {
        assert forall|i: int, j: int|
            0 <= i < bridges.drop_last().len() && 0 <= j < bridges.drop_last()[i].bars@.len()
            implies spec_is_pow2((#[trigger] bridges.drop_last()[i].bars@[j]).size) by {
            assert(bridges.drop_last()[i] == bridges[i]);
            assert(spec_is_pow2(bridges[i].bars@[j].size));
        }
        assert(spec_bridge_bars_pow2(bridges.drop_last()));
        lemma_bridge_regions_props(bridges.drop_last());
        let mapped = bridges.last().bars@.map_values(|r: BarRegion| spec_round_region(r));
        assert forall|k: int| 0 <= k < mapped.len() implies (#[trigger] mapped[k]).size
            >= PAGE_SIZE && spec_is_pow2(mapped[k].size) by {
            assert(bridges[bridges.len() - 1] == bridges.last());
            assert(spec_is_pow2(bridges.last().bars@[k].size));
            lemma_round_region_props(bridges.last().bars@[k]);
        }
    }
}

/// Whether the probe tables have the shape the sizing pass needs: one row of
/// six probes per endpoint and one row of two probes per bridge.
pub open spec fn spec_probe_shape_ok(
    eps: Seq<EndpointConfig>,
    bridges: Seq<BridgeConfig>,
    ep_probes: Seq<Vec<BarProbe>>,
    bridge_probes: Seq<Vec<BarProbe>>,
) -> bool {
    &&& ep_probes.len() == eps.len()
    &&& forall|i: int| 0 <= i < ep_probes.len() ==> (#[trigger] ep_probes[i])@.len()
        == NUM_BAR_REGS_TYPE0
    &&& bridge_probes.len() == bridges.len()
    &&& forall|i: int| 0 <= i < bridge_probes.len() ==> (#[trigger] bridge_probes[i])@.len()
        == NUM_BAR_REGS_TYPE1
}

impl PciRoot {
    /// The BAR sizing pass over every classified device.
    ///
    /// Each probe row holds, per BAR register, the original value and the
    /// read-back after writing all ones; this pass decodes them, rounds each
    /// region up to a page, and records the result. Every recorded region has
    /// a size that is at least one page and a power of two.
    pub fn bars_register(
        &mut self,
        ep_probes: &Vec<Vec<BarProbe>>,
        bridge_probes: &Vec<Vec<BarProbe>>,
    ) -> (r: HvResult)
        ensures
            (r is Ok) <==> spec_probe_shape_ok(
                old(self).endpoints@,
                old(self).bridges@,
                ep_probes@,
                bridge_probes@,
            ),
            r is Err ==> *final(self) == *old(self) && r == Err::<(), HvError>(
                HvError::InvalidConfig,
            ),
            final(self).alloc_devs@ == old(self).alloc_devs@,
            r is Ok ==> final(self).endpoints@.len() == old(self).endpoints@.len() && forall|
                k: int,
            |
                0 <= k < old(self).endpoints@.len() ==> (#[trigger] final(self).endpoints@[k]).bdf
                    == old(self).endpoints@[k].bdf && final(self).endpoints@[k].bars@
                    == spec_decode_bars(ep_probes@[k]@),
            r is Ok ==> final(self).bridges@.len() == old(self).bridges@.len() && forall|k: int|
                0 <= k < old(self).bridges@.len() ==> (#[trigger] final(self).bridges@[k]).bdf
                    == old(self).bridges@[k].bdf && final(self).bridges@[k].bars@
                    == spec_decode_bars(bridge_probes@[k]@),
            r is Ok ==> final(self).bar_regions@ == old(self).bar_regions@ + spec_ep_regions(
                final(self).endpoints@,
            ) + spec_bridge_regions(final(self).bridges@),
            r is Ok ==> forall|k: int|
                old(self).bar_regions@.len() <= k < final(self).bar_regions@.len() ==> (
                #[trigger] final(self).bar_regions@[k]).size >= PAGE_SIZE && spec_is_pow2(
                    final(self).bar_regions@[k].size,
                ),
    {
        if ep_probes.len() != self.endpoints.len() {
            return Err(HvError::InvalidConfig);
        }
        if bridge_probes.len() != self.bridges.len() {
            return Err(HvError::InvalidConfig);
        }
        let mut i: usize = 0;
        let n = ep_probes.len();
        while i < n
            invariant
                *self == *old(self),
                n == ep_probes@.len(),
                i <= n,
                forall|k: int|
                    0 <= k < i ==> (#[trigger] ep_probes@[k])@.len() == NUM_BAR_REGS_TYPE0,
            decreases n - i,
        {
            if ep_probes[i].len() != NUM_BAR_REGS_TYPE0 {
                return Err(HvError::InvalidConfig);
            }
            i = i + 1;
        }
        let mut i2: usize = 0;
        let n2 = bridge_probes.len();
        while i2 < n2
            invariant
                *self == *old(self),
                n2 == bridge_probes@.len(),
                i2 <= n2,
                forall|k: int|
                    0 <= k < i2 ==> (#[trigger] bridge_probes@[k])@.len() == NUM_BAR_REGS_TYPE1,
            decreases n2 - i2,
        {
            if bridge_probes[i2].len() != NUM_BAR_REGS_TYPE1 {
                return Err(HvError::InvalidConfig);
            }
            i2 = i2 + 1;
        }
        self.ep_bars_init(ep_probes);
        self.bridge_bars_init(bridge_probes);
        let ghost mid = *self;
        self.get_bars_regions();
        proof {
            assert(spec_ep_bars_pow2(mid.endpoints@)) by {
                assert forall|a: int, b: int|
                    0 <= a < mid.endpoints@.len() && 0 <= b < mid.endpoints@[a].bars@.len() implies
                    spec_is_pow2((#[trigger] mid.endpoints@[a].bars@[b]).size) by {
                    lemma_decode_bars_pow2(ep_probes@[a]@);
                }
            }
            assert(spec_bridge_bars_pow2(mid.bridges@)) by {
                assert forall|a: int, b: int|
                    0 <= a < mid.bridges@.len() && 0 <= b < mid.bridges@[a].bars@.len() implies
                    spec_is_pow2((#[trigger] mid.bridges@[a].bars@[b]).size) by {
                    lemma_decode_bars_pow2(bridge_probes@[a]@);
                }
            }
            lemma_ep_regions_props(mid.endpoints@);
            lemma_bridge_regions_props(mid.bridges@);
        }
        Ok(())
    }
}

/// The address of the config space of `bdf` inside an ECAM window that
/// starts at `ecam_base`: bits 31:12 of the window offset are the BDF.
pub fn cfg_base(ecam_base: u64, bdf: u64) -> (r: u64)
    requires
        bdf < 0x1_0000,
        ecam_base + bdf * 0x1000 <= u64::MAX,
    ensures
        r == ecam_base + bdf * 0x1000,
{
    proof {
        assert(bdf << 12 == bdf * 0x1000) by (bit_vector)
            requires
                bdf < 0x1_0000u64,
        ;
    }
    ecam_base + (bdf << 12)
}

/// The value an ECAM read returns to the guest.
///
/// An access to an assigned device, or to any register but the first of an
/// unassigned one, reads the physical ECAM; a read of register zero of an
/// unassigned slot reports either an empty slot or the phantom device.
pub open spec fn spec_ecam_read_value(
    assigned: bool,
    address: u64,
    size: u64,
    phys_read_val: u64,
    header_val: u32,
) -> u64 {
    if assigned || address & 0xfff != 0 {
        phys_read_val & spec_access_mask(size)
    } else if header_val == 0xffff_ffffu32 {
        0xffff_ffff
    } else {
        PHANTOM_DEV_HEADER
    }
}

/// The ECAM trap handler for one zone.
///
/// The fault address inside the window decodes as BDF in bits 31:12 and the
/// config register in bits 11:0. An access to a device the zone owns goes
/// straight to the physical ECAM. On a foreign or empty slot, register zero
/// answers with all ones (empty) or with the phantom header (occupied), and
/// every other register passes through read-only, which keeps BARs and
/// interrupt pins visible to enumerators without handing the device over.
///
/// The physical side happens outside this crate: `phys_read_val` is what a
/// sized load at the faulting config address returned, `header_val` a 32-bit
/// load at the same place, and a true result tells the caller to perform the
/// store of `mmio.value` there.
pub fn mmio_pci_handler(
    root: &PciRoot,
    mmio: &mut MMIOAccess,
    phys_read_val: u64,
    header_val: u32,
) -> (r: (HvResult, bool))
    ensures
        r.0 is Ok,
        r.1 == (old(mmio).is_write && (root.alloc_devs@.contains(old(mmio).address >> 12) || old(
            mmio,
        ).address & 0xfff != 0)),
        final(mmio).address == old(mmio).address,
        final(mmio).size == old(mmio).size,
        final(mmio).is_write == old(mmio).is_write,
        !old(mmio).is_write ==> final(mmio).value == spec_ecam_read_value(
            root.alloc_devs@.contains(old(mmio).address >> 12),
            old(mmio).address,
            old(mmio).size,
            phys_read_val,
            header_val,
        ),
        old(mmio).is_write ==> final(mmio).value == (if !root.alloc_devs@.contains(
            old(mmio).address >> 12,
        ) && old(mmio).address & 0xfff == 0 {
            (if header_val == 0xffff_ffffu32 {
                0xffff_ffffu64
            } else {
                PHANTOM_DEV_HEADER
            })
        } else {
            old(mmio).value
        }),
{
    let reg_addr: u64 = mmio.address & 0xfff;
    let bdf: u64 = mmio.address >> 12;
    let is_assigned = root.is_assigned_device(bdf);
    if is_assigned {
        let do_write = crate::memory::mmio_perform_access(mmio, phys_read_val);
        (Ok(()), do_write)
    } else {
        if reg_addr == 0 {
            if header_val == 0xffff_ffffu32 {
                // empty slot
                mmio.value = 0xffff_ffff;
            } else {
                // populated but foreign: present the phantom device
                mmio.value = PHANTOM_DEV_HEADER;
            }
            (Ok(()), false)
        } else {
            // BARs, interrupt pins and the rest stay visible read-only
            let do_write = crate::memory::mmio_perform_access(mmio, phys_read_val);
            (Ok(()), do_write)
        }
    }
}

} // verus!



use crate::zone::MmioHandler;
use crate::zone::MmioRegion;
use crate::zone::Zone;
use crate::zone::spec_can_register;
use crate::zone::spec_register_all;
use crate::zone::spec_register_all_ok;
use crate::zone::spec_gpm_insert;
use crate::zone::spec_gpm_insert_all;
use crate::memory::MemoryRegion;
use crate::memory::MEM_FLAG_READ;
use crate::memory::MEM_FLAG_WRITE;

verus! {

/// The PCI window plan of one zone: ECAM, I/O, 32-bit and 64-bit memory
/// windows, each as base and size.
#[derive(Clone, Copy, Debug, PartialEq, Eq, Structural)]
pub struct HvPciConfig {
    pub ecam_base: u64,
    pub ecam_size: u64,
    pub io_base: u64,
    pub io_size: u64,
    pub mem32_base: u64,
    pub mem32_size: u64,
    pub mem64_base: u64,
    pub mem64_size: u64,
}

/// The ECAM trap region of a window plan.
pub open spec fn spec_ecam_region(cfg: HvPciConfig) -> MmioRegion {
    MmioRegion { base: cfg.ecam_base, size: cfg.ecam_size, handler: MmioHandler::Pci, arg: cfg.ecam_base }
}

/// The four trap regions a non-root zone places over its PCI windows.
pub open spec fn spec_pci_windows(cfg: HvPciConfig) -> Seq<MmioRegion> {
    seq![
        spec_ecam_region(cfg),
        (MmioRegion { base: cfg.io_base, size: cfg.io_size, handler: MmioHandler::Pci, arg: cfg.io_base }),
        (MmioRegion { base: cfg.mem32_base, size: cfg.mem32_size, handler: MmioHandler::Pci, arg: cfg.mem32_base }),
        (MmioRegion { base: cfg.mem64_base, size: cfg.mem64_size, handler: MmioHandler::Pci, arg: cfg.mem64_base }),
    ]
}

/// An identity guest-physical mapping with read and write access.
pub open spec fn spec_identity_rw(base: u64, size: u64) -> MemoryRegion {
    MemoryRegion {
        virtual_start: base,
        physical_start: base,
        size,
        flags: MEM_FLAG_READ | MEM_FLAG_WRITE,
    }
}

/// The three identity mappings the root zone gets over its PCI windows.
pub open spec fn spec_root_gpm_windows(cfg: HvPciConfig) -> Seq<MemoryRegion> {
    seq![
        spec_identity_rw(cfg.io_base, cfg.io_size),
        spec_identity_rw(cfg.mem32_base, cfg.mem32_size),
        spec_identity_rw(cfg.mem64_base, cfg.mem64_size),
    ]
}

/// The BDFs of the endpoints among the assigned devices: every non-zero BDF
/// whose header-type byte says type 0. BDF 0 is the host bridge and is
/// never classified; an unknown header type is dropped.
pub open spec fn spec_classify_eps(devs: Seq<u64>, headers: Seq<u8>) -> Seq<u64>
    decreases devs.len(),
{
    if devs.len() == 0 {
        Seq::empty()
    } else {
        let tail: Seq<u64> = if devs.last() != 0 && headers.last() & 0x7f == 0 {
            seq![devs.last()]
        } else {
            Seq::empty()
        };
        spec_classify_eps(devs.drop_last(), headers.drop_last()) + tail
    }
}

/// The BDFs of the bridges among the assigned devices: every non-zero BDF
/// whose header-type byte says type 1.
pub open spec fn spec_classify_bridges(devs: Seq<u64>, headers: Seq<u8>) -> Seq<u64>
    decreases devs.len(),
{
    if devs.len() == 0 {
        Seq::empty()
    } else {
        let tail: Seq<u64> = if devs.last() != 0 && headers.last() & 0x7f == 1 {
            seq![devs.last()]
        } else {
            Seq::empty()
        };
        spec_classify_bridges(devs.drop_last(), headers.drop_last()) + tail
    }
}

/// The identity mapping a BAR region receives in the zone's memory map.
pub open spec fn spec_bar_map_region(r: BarRegion) -> MemoryRegion {
    spec_identity_rw(r.start, r.size)
}

impl Zone {
    /// PCI setup of the root zone: trap the ECAM window and identity-map
    /// the I/O and memory windows read-write, so ordinary MMIO to assigned
    /// devices bypasses emulation. A window that overlaps an existing
    /// mapping is skipped, as `spec_gpm_insert` says.
    pub fn root_pci_init(&mut self, pci_config: &HvPciConfig) -> (r: HvResult)
        requires
            old(self).mmio_wf(),
            old(self).gpm_wf(),
        ensures
            final(self).mmio_wf(),
            final(self).gpm_wf(),
            (r is Ok) <==> spec_can_register(old(self).mmio_regions@, spec_ecam_region(*pci_config)),
            final(self).mmio_regions@ == spec_register_all(
                old(self).mmio_regions@,
                seq![spec_ecam_region(*pci_config)],
            ),
            final(self).gpm@ == spec_gpm_insert_all(old(self).gpm@, spec_root_gpm_windows(*pci_config)),
            final(self).id == old(self).id,
            final(self).cpu_set == old(self).cpu_set,
            final(self).irqs@ == old(self).irqs@,
            final(self).pciroot.endpoints@ == old(self).pciroot.endpoints@,
            final(self).pciroot.bridges@ == old(self).pciroot.bridges@,
            final(self).pciroot.alloc_devs@ == old(self).pciroot.alloc_devs@,
            final(self).pciroot.bar_regions@ == old(self).pciroot.bar_regions@,
    {
        let ghost s0 = self.mmio_regions@;
        let ghost g0 = self.gpm@;
        let r = self.mmio_region_register(
            pci_config.ecam_base,
            pci_config.ecam_size,
            MmioHandler::Pci,
            pci_config.ecam_base,
        );
        let ghost s1 = self.mmio_regions@;
        let _ = self.gpm_insert(
            MemoryRegion::new_with_offset_mapper(
                pci_config.io_base,
                pci_config.io_base,
                pci_config.io_size,
                MEM_FLAG_READ | MEM_FLAG_WRITE,
            ),
        );
        let ghost g1 = self.gpm@;
        let _ = self.gpm_insert(
            MemoryRegion::new_with_offset_mapper(
                pci_config.mem32_base,
                pci_config.mem32_base,
                pci_config.mem32_size,
                MEM_FLAG_READ | MEM_FLAG_WRITE,
            ),
        );
        let ghost g2 = self.gpm@;
        let _ = self.gpm_insert(
            MemoryRegion::new_with_offset_mapper(
                pci_config.mem64_base,
                pci_config.mem64_base,
                pci_config.mem64_size,
                MEM_FLAG_READ | MEM_FLAG_WRITE,
            ),
        );
        proof {
            let ghost g3 = self.gpm@;
            let ws = seq![spec_ecam_region(*pci_config)];
            assert(ws.drop_first() =~= Seq::<MmioRegion>::empty());
            assert(ws[0] == spec_ecam_region(*pci_config));
            assert(spec_register_all(s0, ws) == spec_register_all(s1, ws.drop_first()));
            assert(spec_register_all(s1, ws.drop_first()) == s1);
            let gws = spec_root_gpm_windows(*pci_config);
            let w_io = spec_identity_rw(pci_config.io_base, pci_config.io_size);
            let w_m32 = spec_identity_rw(pci_config.mem32_base, pci_config.mem32_size);
            let w_m64 = spec_identity_rw(pci_config.mem64_base, pci_config.mem64_size);
            assert(gws[0] == w_io);
            assert(gws.drop_first() =~= seq![w_m32, w_m64]);
            assert(gws.drop_first().drop_first() =~= seq![w_m64]);
            assert(gws.drop_first().drop_first().drop_first() =~= Seq::<MemoryRegion>::empty());
            assert(g1 == spec_gpm_insert(g0, w_io));
            assert(spec_gpm_insert_all(g0, gws) == spec_gpm_insert_all(g1, gws.drop_first()));
            assert(g2 == spec_gpm_insert(g1, w_m32));
            assert(spec_gpm_insert_all(g1, gws.drop_first()) == spec_gpm_insert_all(
                g2,
                gws.drop_first().drop_first(),
            ));
            assert(g3 == spec_gpm_insert(g2, w_m64));
            assert(spec_gpm_insert_all(g2, gws.drop_first().drop_first()) == spec_gpm_insert_all(
                g3,
                gws.drop_first().drop_first().drop_first(),
            ));
        }
        r
    }

    /// PCI setup of a non-root zone: trap all four PCI windows, so accesses
    /// to phantom and unassigned devices reach the emulation.
    pub fn virtual_pci_mmio_init(&mut self, pci_config: &HvPciConfig) -> (r: HvResult)
        requires
            old(self).mmio_wf(),
        ensures
            final(self).mmio_wf(),
            (r is Ok) <==> spec_register_all_ok(old(self).mmio_regions@, spec_pci_windows(*pci_config)),
            final(self).mmio_regions@ == spec_register_all(
                old(self).mmio_regions@,
                spec_pci_windows(*pci_config),
            ),
            final(self).id == old(self).id,
            final(self).cpu_set == old(self).cpu_set,
            final(self).irqs@ == old(self).irqs@,
            final(self).gpm@ == old(self).gpm@,
            final(self).pciroot.endpoints@ == old(self).pciroot.endpoints@,
            final(self).pciroot.bridges@ == old(self).pciroot.bridges@,
            final(self).pciroot.alloc_devs@ == old(self).pciroot.alloc_devs@,
            final(self).pciroot.bar_regions@ == old(self).pciroot.bar_regions@,
    {
        let ghost s0 = self.mmio_regions@;
        let r1 = self.mmio_region_register(
            pci_config.ecam_base,
            pci_config.ecam_size,
            MmioHandler::Pci,
            pci_config.ecam_base,
        );
        let ghost s1 = self.mmio_regions@;
        let r2 = self.mmio_region_register(
            pci_config.io_base,
            pci_config.io_size,
            MmioHandler::Pci,
            pci_config.io_base,
        );
        let ghost s2 = self.mmio_regions@;
        let r3 = self.mmio_region_register(
            pci_config.mem32_base,
            pci_config.mem32_size,
            MmioHandler::Pci,
            pci_config.mem32_base,
        );
        let ghost s3 = self.mmio_regions@;
        let r4 = self.mmio_region_register(
            pci_config.mem64_base,
            pci_config.mem64_size,
            MmioHandler::Pci,
            pci_config.mem64_base,
        );
        proof {
            let ws = spec_pci_windows(*pci_config);
            assert(ws.drop_first() =~= seq![
                (MmioRegion { base: pci_config.io_base, size: pci_config.io_size, handler: MmioHandler::Pci, arg: pci_config.io_base }),
                (MmioRegion { base: pci_config.mem32_base, size: pci_config.mem32_size, handler: MmioHandler::Pci, arg: pci_config.mem32_base }),
                (MmioRegion { base: pci_config.mem64_base, size: pci_config.mem64_size, handler: MmioHandler::Pci, arg: pci_config.mem64_base }),
            ]);
            assert(ws.drop_first().drop_first() =~= seq![
                (MmioRegion { base: pci_config.mem32_base, size: pci_config.mem32_size, handler: MmioHandler::Pci, arg: pci_config.mem32_base }),
                (MmioRegion { base: pci_config.mem64_base, size: pci_config.mem64_size, handler: MmioHandler::Pci, arg: pci_config.mem64_base }),
            ]);
            assert(ws.drop_first().drop_first().drop_first() =~= seq![
                (MmioRegion { base: pci_config.mem64_base, size: pci_config.mem64_size, handler: MmioHandler::Pci, arg: pci_config.mem64_base }),
            ]);
            assert(ws.drop_first().drop_first().drop_first().drop_first() =~= Seq::<MmioRegion>::empty());
            let ghost s4 = self.mmio_regions@;
            let w1 = spec_ecam_region(*pci_config);
            let w2 = MmioRegion { base: pci_config.io_base, size: pci_config.io_size, handler: MmioHandler::Pci, arg: pci_config.io_base };
            let w3 = MmioRegion { base: pci_config.mem32_base, size: pci_config.mem32_size, handler: MmioHandler::Pci, arg: pci_config.mem32_base };
            let w4 = MmioRegion { base: pci_config.mem64_base, size: pci_config.mem64_size, handler: MmioHandler::Pci, arg: pci_config.mem64_base };
            assert(ws[0] == w1);
            assert(ws.drop_first()[0] == w2);
            assert(ws.drop_first().drop_first()[0] == w3);
            assert(ws.drop_first().drop_first().drop_first()[0] == w4);
            assert(spec_register_all(s0, ws) == spec_register_all(s1, ws.drop_first()));
            assert(spec_register_all(s1, ws.drop_first()) == spec_register_all(
                s2,
                ws.drop_first().drop_first(),
            ));
            assert(spec_register_all(s2, ws.drop_first().drop_first()) == spec_register_all(
                s3,
                ws.drop_first().drop_first().drop_first(),
            ));
            assert(spec_register_all(s3, ws.drop_first().drop_first().drop_first())
                == spec_register_all(s4, ws.drop_first().drop_first().drop_first().drop_first()));
            let t1 = ws.drop_first();
            let t2 = t1.drop_first();
            let t3 = t2.drop_first();
            let t4 = t3.drop_first();
            if spec_can_register(s0, w1) {
                assert(s1 == s0.push(w1));
                assert(spec_register_all_ok(s0, ws) == spec_register_all_ok(s1, t1));
                if spec_can_register(s1, w2) {
                    assert(s2 == s1.push(w2));
                    assert(spec_register_all_ok(s1, t1) == spec_register_all_ok(s2, t2));
                    if spec_can_register(s2, w3) {
                        assert(s3 == s2.push(w3));
                        assert(spec_register_all_ok(s2, t2) == spec_register_all_ok(s3, t3));
                        if spec_can_register(s3, w4) {
                            assert(s4 == s3.push(w4));
                            assert(spec_register_all_ok(s3, t3) == spec_register_all_ok(s4, t4));
                            assert(spec_register_all_ok(s4, t4));
                        } else {
                            assert(!spec_register_all_ok(s2, t2));
                        }
                    } else {
                        assert(!spec_register_all_ok(s1, t1));
                    }
                } else {
                    assert(!spec_register_all_ok(s0, ws));
                }
            } else {
                assert(!spec_register_all_ok(s0, ws));
            }
        }
        if r1.is_ok() && r2.is_ok() && r3.is_ok() && r4.is_ok() {
            Ok(())
        } else {
            Err(HvError::InvalidConfig)
        }
    }
}

} // verus!

verus! {

/// Inserting a row of mappings one more at the end is one more insert.
proof fn lemma_gpm_insert_all_snoc(g: Seq<MemoryRegion>, ws: Seq<MemoryRegion>, w: MemoryRegion)
    ensures
        spec_gpm_insert_all(g, ws.push(w)) == spec_gpm_insert(spec_gpm_insert_all(g, ws), w),
    decreases ws.len(),
{
    if ws.len() == 0 {
        assert(ws.push(w)[0] == w);
        assert(ws.push(w).drop_first() =~= Seq::<MemoryRegion>::empty());
        assert(spec_gpm_insert_all(g, ws) == g);
        assert(spec_gpm_insert_all(spec_gpm_insert(g, w), Seq::<MemoryRegion>::empty())
            == spec_gpm_insert(g, w));
        assert(spec_gpm_insert_all(g, ws.push(w)) == spec_gpm_insert_all(
            spec_gpm_insert(g, w),
            ws.push(w).drop_first(),
        ));
    } else {
        assert(ws.push(w)[0] == ws[0]);
        assert(ws.push(w).drop_first() =~= ws.drop_first().push(w));
        lemma_gpm_insert_all_snoc(spec_gpm_insert(g, ws[0]), ws.drop_first(), w);
    }
}

impl Zone {
    /// Identity-map every recorded BAR region read-write into the zone's
    /// guest-physical map, so MMIO to an assigned device needs no trap.
    /// A region that overlaps an existing mapping is skipped.
    pub fn pci_bars_register(&mut self) -> (r: HvResult)
        requires
            old(self).gpm_wf(),
        ensures
            final(self).gpm_wf(),
            final(self).gpm@ == spec_gpm_insert_all(
                old(self).gpm@,
                old(self).pciroot.bar_regions@.map_values(|b: BarRegion| spec_bar_map_region(b)),
            ),
            *final(self) == (Zone { gpm: final(self).gpm, ..*old(self) }),
            r is Ok,
    {
        let ghost mapped = old(self).pciroot.bar_regions@.map_values(
            |b: BarRegion| spec_bar_map_region(b),
        );
        let n = self.pciroot.bar_regions.len();
        let mut i: usize = 0;
        proof {
            assert(mapped.take(0) =~= Seq::<MemoryRegion>::empty());
        }
        while i < n
            invariant
                self.gpm_wf(),
                n == self.pciroot.bar_regions@.len(),
                i <= n,
                mapped == old(self).pciroot.bar_regions@.map_values(
                    |b: BarRegion| spec_bar_map_region(b),
                ),
                *self == (Zone { gpm: self.gpm, ..*old(self) }),
                self.gpm@ == spec_gpm_insert_all(old(self).gpm@, mapped.take(i as int)),
            decreases n - i,
        {
            let region = self.pciroot.bar_regions[i];
            let _ = self.gpm_insert(
                MemoryRegion::new_with_offset_mapper(
                    region.start,
                    region.start,
                    region.size,
                    MEM_FLAG_READ | MEM_FLAG_WRITE,
                ),
            );
            proof {
                assert(mapped[i as int] == spec_bar_map_region(old(self).pciroot.bar_regions@[i as int]));
                assert(mapped.take(i as int + 1) =~= mapped.take(i as int).push(mapped[i as int]));
                lemma_gpm_insert_all_snoc(old(self).gpm@, mapped.take(i as int), mapped[i as int]);
            }
            i = i + 1;
        }
        proof {
            assert(mapped.take(n as int) =~= mapped);
        }
        Ok(())
    }

    /// Classify each assigned device by its header-type byte and run the
    /// BAR sizing pass over the result.
    ///
    /// `headers` holds, per assigned BDF, the byte read at config offset
    /// 0x0e. BDF 0 is the host bridge and is skipped; type 0 becomes an
    /// endpoint, type 1 a bridge, anything else is dropped as unsupported.
    /// The probe rows pair up with the classified devices in order; with
    /// them the sizing pass fills the BAR regions and identity-maps each
    /// into the zone's memory map.
    pub fn virtual_pci_device_init(
        &mut self,
        headers: &Vec<u8>,
        ep_probes: &Vec<Vec<BarProbe>>,
        bridge_probes: &Vec<Vec<BarProbe>>,
    ) -> (r: HvResult)
        requires
            old(self).gpm_wf(),
            old(self).pciroot.endpoints@.len() == 0,
            old(self).pciroot.bridges@.len() == 0,
            old(self).pciroot.bar_regions@.len() == 0,
        ensures
            final(self).gpm_wf(),
            final(self).mmio_regions@ == old(self).mmio_regions@,
            final(self).pciroot.alloc_devs@ == old(self).pciroot.alloc_devs@,
            headers@.len() != old(self).pciroot.alloc_devs@.len() ==> *final(self) == *old(self)
                && r == Err::<(), HvError>(HvError::InvalidParam),
            (r is Ok) <==> (headers@.len() == old(self).pciroot.alloc_devs@.len() && {
                let eps = spec_classify_eps(old(self).pciroot.alloc_devs@, headers@);
                let brs = spec_classify_bridges(old(self).pciroot.alloc_devs@, headers@);
                &&& ep_probes@.len() == eps.len()
                &&& forall|i: int| 0 <= i < ep_probes@.len() ==> (#[trigger] ep_probes@[i])@.len()
                    == NUM_BAR_REGS_TYPE0
                &&& bridge_probes@.len() == brs.len()
                &&& forall|i: int| 0 <= i < bridge_probes@.len() ==> (
                #[trigger] bridge_probes@[i])@.len() == NUM_BAR_REGS_TYPE1
            }),
            r is Ok ==> {
                let eps = spec_classify_eps(old(self).pciroot.alloc_devs@, headers@);
                let brs = spec_classify_bridges(old(self).pciroot.alloc_devs@, headers@);
                &&& final(self).pciroot.endpoints@.len() == eps.len()
                &&& forall|k: int|
                    0 <= k < eps.len() ==> (#[trigger] final(self).pciroot.endpoints@[k]).bdf
                        == eps[k] && final(self).pciroot.endpoints@[k].bars@ == spec_decode_bars(
                        ep_probes@[k]@,
                    )
                &&& final(self).pciroot.bridges@.len() == brs.len()
                &&& forall|k: int|
                    0 <= k < brs.len() ==> (#[trigger] final(self).pciroot.bridges@[k]).bdf
                        == brs[k] && final(self).pciroot.bridges@[k].bars@ == spec_decode_bars(
                        bridge_probes@[k]@,
                    )
                &&& final(self).pciroot.bar_regions@ == spec_ep_regions(
                    final(self).pciroot.endpoints@,
                ) + spec_bridge_regions(final(self).pciroot.bridges@)
                &&& forall|k: int|
                    0 <= k < final(self).pciroot.bar_regions@.len() ==> (#[trigger] final(self).pciroot.bar_regions@[k]).size >= PAGE_SIZE && spec_is_pow2(
                        final(self).pciroot.bar_regions@[k].size,
                    )
                &&& final(self).gpm@ == spec_gpm_insert_all(
                    old(self).gpm@,
                    final(self).pciroot.bar_regions@.map_values(
                        |b: BarRegion| spec_bar_map_region(b),
                    ),
                )
            },
            r is Err ==> final(self).gpm@ == old(self).gpm@ && final(self).pciroot.bar_regions@.len() == 0,
    {
        let n = self.pciroot.alloc_devs.len();
        if headers.len() != n {
            return Err(HvError::InvalidParam);
        }
        let ghost devs = self.pciroot.alloc_devs@;
        let mut idx: usize = 0;
        proof {
            assert(devs.take(0) =~= Seq::<u64>::empty());
            assert(headers@.take(0) =~= Seq::<u8>::empty());
            assert(spec_classify_eps(devs.take(0), headers@.take(0)) =~= Seq::<u64>::empty());
            assert(spec_classify_bridges(devs.take(0), headers@.take(0)) =~= Seq::<u64>::empty());
        }
        while idx < n
            invariant
                n == self.pciroot.alloc_devs@.len(),
                headers@.len() == n,
                devs == self.pciroot.alloc_devs@,
                idx <= n,
                self.id == old(self).id,
                self.cpu_set == old(self).cpu_set,
                self.irqs@ == old(self).irqs@,
                self.mmio_regions@ == old(self).mmio_regions@,
                self.gpm@ == old(self).gpm@,
                self.gpm_wf(),
                self.pciroot.alloc_devs@ == old(self).pciroot.alloc_devs@,
                self.pciroot.bar_regions@.len() == 0,
                self.pciroot.endpoints@.len() == spec_classify_eps(
                    devs.take(idx as int),
                    headers@.take(idx as int),
                ).len(),
                forall|k: int|
                    0 <= k < self.pciroot.endpoints@.len() ==> (
                    #[trigger] self.pciroot.endpoints@[k]).bdf == spec_classify_eps(
                        devs.take(idx as int),
                        headers@.take(idx as int),
                    )[k] && self.pciroot.endpoints@[k].bars@.len() == 0,
                self.pciroot.bridges@.len() == spec_classify_bridges(
                    devs.take(idx as int),
                    headers@.take(idx as int),
                ).len(),
                forall|k: int|
                    0 <= k < self.pciroot.bridges@.len() ==> (
                    #[trigger] self.pciroot.bridges@[k]).bdf == spec_classify_bridges(
                        devs.take(idx as int),
                        headers@.take(idx as int),
                    )[k] && self.pciroot.bridges@[k].bars@.len() == 0,
            decreases n - idx,
        {
            let bdf = self.pciroot.alloc_devs[idx];
            if bdf != 0 {
                let header_val = headers[idx] & 0x7f;
                if header_val == 0 {
                    self.pciroot.endpoints.push(EndpointConfig::new(bdf));
                } else if header_val == 1 {
                    self.pciroot.bridges.push(BridgeConfig::new(bdf));
                }
                // any other type is unsupported and dropped
            }
            proof {
                assert(devs.take(idx as int + 1).drop_last() =~= devs.take(idx as int));
                assert(headers@.take(idx as int + 1).drop_last() =~= headers@.take(idx as int));
                assert(devs.take(idx as int + 1).last() == devs[idx as int]);
                assert(headers@.take(idx as int + 1).last() == headers@[idx as int]);
            }
            idx = idx + 1;
        }
        proof {
            assert(devs.take(n as int) =~= devs);
            assert(headers@.take(n as int) =~= headers@);
        }
        match self.pciroot.bars_register(ep_probes, bridge_probes) {
            Ok(()) => {},
            Err(e) => {
                return Err(e);
            },
        }
        let r = self.pci_bars_register();
        r
    }

    /// PCI setup of one zone: record the assigned BDFs and place the trap
    /// windows. The root zone traps only ECAM and gets its windows mapped
    /// through; a non-root zone traps all four windows and is expected to
    /// classify and size its devices afterwards with
    /// `virtual_pci_device_init`.
    pub fn pci_init(
        &mut self,
        pci_config: &HvPciConfig,
        num_pci_devs: usize,
        alloc_pci_devs: &Vec<u64>,
    ) -> (r: HvResult)
        requires
            old(self).mmio_wf(),
            old(self).gpm_wf(),
        ensures
            final(self).mmio_wf(),
            final(self).gpm_wf(),
            num_pci_devs > alloc_pci_devs@.len() ==> *final(self) == *old(self) && r == Err::<
                (),
                HvError,
            >(HvError::InvalidParam),
            num_pci_devs <= alloc_pci_devs@.len() ==> {
                &&& final(self).pciroot.alloc_devs@ == old(self).pciroot.alloc_devs@
                    + alloc_pci_devs@.take(num_pci_devs as int)
                &&& final(self).pciroot.endpoints@ == old(self).pciroot.endpoints@
                &&& final(self).pciroot.bridges@ == old(self).pciroot.bridges@
                &&& final(self).pciroot.bar_regions@ == old(self).pciroot.bar_regions@
                &&& final(self).id == old(self).id
                &&& final(self).irqs@ == old(self).irqs@
            },
            num_pci_devs <= alloc_pci_devs@.len() && old(self).id == 0 ==> {
                &&& final(self).mmio_regions@ == spec_register_all(
                    old(self).mmio_regions@,
                    seq![spec_ecam_region(*pci_config)],
                )
                &&& final(self).gpm@ == spec_gpm_insert_all(
                    old(self).gpm@,
                    spec_root_gpm_windows(*pci_config),
                )
                &&& (r is Ok) <==> spec_can_register(
                    old(self).mmio_regions@,
                    spec_ecam_region(*pci_config),
                )
            },
            num_pci_devs <= alloc_pci_devs@.len() && old(self).id != 0 ==> {
                &&& final(self).mmio_regions@ == spec_register_all(
                    old(self).mmio_regions@,
                    spec_pci_windows(*pci_config),
                )
                &&& final(self).gpm@ == old(self).gpm@
                &&& (r is Ok) <==> spec_register_all_ok(
                    old(self).mmio_regions@,
                    spec_pci_windows(*pci_config),
                )
            },
    {
        if num_pci_devs > alloc_pci_devs.len() {
            return Err(HvError::InvalidParam);
        }
        let mut idx: usize = 0;
        proof {
            assert(alloc_pci_devs@.take(0) =~= Seq::<u64>::empty());
            assert(old(self).pciroot.alloc_devs@ + Seq::<u64>::empty() =~= old(
                self,
            ).pciroot.alloc_devs@);
        }
        while idx < num_pci_devs
            invariant
                num_pci_devs <= alloc_pci_devs@.len(),
                idx <= num_pci_devs,
                *self == (Zone { pciroot: self.pciroot, ..*old(self) }),
                self.pciroot.endpoints@ == old(self).pciroot.endpoints@,
                self.pciroot.bridges@ == old(self).pciroot.bridges@,
                self.pciroot.bar_regions@ == old(self).pciroot.bar_regions@,
                self.pciroot.alloc_devs@ == old(self).pciroot.alloc_devs@ + alloc_pci_devs@.take(
                    idx as int,
                ),
            decreases num_pci_devs - idx,
        {
            self.pciroot.alloc_devs.push(alloc_pci_devs[idx]);
            proof {
                assert(alloc_pci_devs@.take(idx as int + 1) =~= alloc_pci_devs@.take(
                    idx as int,
                ).push(alloc_pci_devs@[idx as int]));
                assert(old(self).pciroot.alloc_devs@ + alloc_pci_devs@.take(idx as int + 1) =~= (
                old(self).pciroot.alloc_devs@ + alloc_pci_devs@.take(idx as int)).push(
                    alloc_pci_devs@[idx as int],
                ));
            }
            idx = idx + 1;
        }
        if self.id == 0 {
            self.root_pci_init(pci_config)
        } else {
            self.virtual_pci_mmio_init(pci_config)
        }
    }
}

} // verus!
