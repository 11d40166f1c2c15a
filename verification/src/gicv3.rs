use vstd::prelude::*;

use crate::hypercall::SGI_HV_ID;
use crate::hypercall::SGI_VIRTIO_REQ_ID;
use crate::hypercall::SGI_VIRTIO_RESULT_ID;

verus! {

/// The distributor block of the GIC, by its MMIO base.
#[derive(Clone, Copy, Debug, PartialEq, Eq, Structural)]
pub struct GICD {
    pub base: usize,
}

/// The redistributor block of this CPU: its MMIO base and the last value
/// loaded from its TYPER register, whose top half carries the affinity.
#[derive(Clone, Copy, Debug, PartialEq, Eq, Structural)]
pub struct GICR {
    pub base: usize,
    pub typer: u64,
}

/// The GICv3 as one zone's CPU sees it: the shared distributor and this
/// CPU's redistributor.
#[derive(Clone, Copy, Debug, PartialEq, Eq, Structural)]
pub struct GICv3 {
    pub gicd: GICD,
    pub gicr: GICR,
}

impl GICv3 {
    pub fn new(gicd_mmio_start_addr: usize, gicr_mmio_start_addr: usize) -> (r: Self)
        ensures
            r == (GICv3 {
                gicd: GICD { base: gicd_mmio_start_addr },
                gicr: GICR { base: gicr_mmio_start_addr, typer: 0 },
            }),
    {
        GICv3 {
            gicd: GICD { base: gicd_mmio_start_addr },
            gicr: GICR { base: gicr_mmio_start_addr, typer: 0 },
        }
    }

    /// Record the raw TYPER value read from the redistributor.
    pub fn load_typer(&mut self, typer: u64)
        ensures
            *final(self) == (GICv3 { gicr: GICR { typer, ..old(self).gicr }, ..*old(self) }),
    {
        self.gicr.typer = typer;
    }

    /// The affinity of this CPU's redistributor: the top half of TYPER.
    pub fn read_aff(&self) -> (r: u64)
        ensures
            r == self.gicr.typer >> 32,
    {
        self.gicr.typer >> 32
    }
}

/// The register values one write of `gicv3_cpu_init` programs into the CPU
/// interface and its virtualization control.
#[derive(Clone, Copy, Debug, PartialEq, Eq, Structural)]
pub struct GicCpuInitWrites {
    pub ctlr: u64,
    pub pmr: u64,
    pub igrpen: u64,
    pub vmcr: u64,
    pub hcr: u64,
}

/// Per-CPU GIC bring-up: enable group-1 interrupts, set the priority mask
/// to 0xf0, present a group-1 vPE through VMCR whose priority field
/// carries that same mask, and enable the virtual interface (HCR.En).
/// The writes are constant, so a second run on a CPU programs the very
/// same state: the bring-up is idempotent per CPU.
pub fn gicv3_cpu_init() -> (w: GicCpuInitWrites)
    ensures
        w == (GicCpuInitWrites {
            ctlr: 0x2,
            pmr: 0xf0,
            igrpen: 0x1,
            vmcr: (0xf0u64 << 24) | (1u64 << 1) | (1u64 << 9),
            hcr: 0x1,
        }),
{
    GicCpuInitWrites {
        ctlr: 0x2,
        pmr: 0xf0,
        igrpen: 0x1,
        vmcr: (0xf0u64 << 24) | (1u64 << 1) | (1u64 << 9),
        hcr: 0x1,
    }
}

/// The interrupt a read of IAR acknowledged, if any: values from 0x3fe up
/// are spurious.
pub fn pending_irq(iar: u64) -> (r: Option<u64>)
    ensures
        r == (if iar >= 0x3fe {
            Option::<u64>::None
        } else {
            Option::Some(iar)
        }),
{
    if iar >= 0x3fe {
        None
    } else {
        Some(iar)
    }
}

/// The deactivation writes one acknowledged interrupt receives: EOIR1
/// always, DIR additionally for SGIs (the split EOImode leaves an SGI
/// active after EOIR until DIR drops it).
pub fn deactivate_irq(irq_id: u64) -> (w: (u64, Option<u64>))
    ensures
        w.0 == irq_id,
        w.1 == (if irq_id < 16 {
            Option::Some(irq_id)
        } else {
            Option::<u64>::None
        }),
{
    if irq_id < 16 {
        (irq_id, Some(irq_id))
    } else {
        (irq_id, None)
    }
}

/// The list-register pool of this CPU's virtual interface: the VTR value
/// that sizes it, the empty-slot bitmap ELRSR, and the sixteen LR values.
#[derive(Debug)]
pub struct LrPool {
    pub vtr: u64,
    pub elrsr: u64,
    pub lrs: Vec<u64>,
}

impl LrPool {
    /// The register file always holds all sixteen architected slots.
    pub open spec fn wf(self) -> bool {
        self.lrs@.len() == 16
    }

    /// How many list registers the hardware implements: VTR.ListRegs + 1.
    pub open spec fn lr_count(self) -> int {
        (self.vtr & 0xf) as int + 1
    }

    /// Whether slot `i` is empty: its ELRSR bit is set.
    pub open spec fn slot_free(self, i: int) -> bool {
        (self.elrsr >> (i as u64)) & 1 == 1
    }

    /// Whether some occupied slot already carries virtual id `virq`.
    pub open spec fn has_duplicate(self, virq: u64) -> bool {
        exists|i: int|
            0 <= i < self.lr_count() && !self.slot_free(i) && spec_lr_vid(#[trigger] self.lrs@[i])
                == virq
    }

    /// A fresh pool: every slot empty and zeroed.
    pub fn new(vtr: u64) -> (r: Self)
        ensures
            r.wf(),
            r.vtr == vtr,
            r.elrsr == 0xffff,
            r.lrs@.len() == 16,
            forall|i: int| 0 <= i < 16 ==> r.lrs@[i] == 0,
    {
        let mut lrs: Vec<u64> = Vec::new();
        let mut i: usize = 0;
        while i < 16
            invariant
                i <= 16,
                lrs@.len() == i,
                forall|k: int| 0 <= k < i ==> lrs@[k] == 0,
            decreases 16 - i,
        {
            lrs.push(0);
            i = i + 1;
        }
        LrPool { vtr, elrsr: 0xffff, lrs }
    }

    /// Read one list register.
    pub fn read_lr(&self, id: usize) -> (v: u64)
        requires
            self.wf(),
            id < 16,
        ensures
            v == self.lrs@[id as int],
    {
        self.lrs[id]
    }

    /// Write one list register and keep ELRSR in step: a value whose state
    /// bits 63:62 are zero leaves the slot empty, any other occupies it.
    pub fn write_lr(&mut self, id: usize, val: u64)
        requires
            old(self).wf(),
            id < 16,
        ensures
            final(self).wf(),
            final(self).vtr == old(self).vtr,
            final(self).lrs@ == old(self).lrs@.update(id as int, val),
            final(self).elrsr == (if (val >> 62) & 3 == 0 {
                old(self).elrsr | (1u64 << (id as u64))
            } else {
                old(self).elrsr & !(1u64 << (id as u64))
            }),
    {
        self.lrs.set(id, val);
        if (val >> 62) & 3 == 0 {
            self.elrsr = self.elrsr | (1u64 << (id as u64));
        } else {
            self.elrsr = self.elrsr & !(1u64 << (id as u64));
        }
    }
}

/// The virtual id carried in bits 9:0 of a list-register value.
pub open spec fn spec_lr_vid(v: u64) -> u64 {
    v & 0x3ff
}

/// The value injected for a pending virtual interrupt: bits 9:0 the virtual
/// id, bit 60 group 1, bit 62 state pending; for a hardware-backed
/// interrupt also bit 61 and the physical id in bits 41:32.
pub open spec fn spec_pending_lr(virq: u64, hw: bool) -> u64 {
    if hw {
        virq | (1u64 << 60) | (1u64 << 62) | (1u64 << 61) | (virq << 32)
    } else {
        virq | (1u64 << 60) | (1u64 << 62)
    }
}

/// The lowest index below `n` whose ELRSR bit is set, or -1 if none.
pub open spec fn spec_first_free(elrsr: u64, n: int) -> int
    decreases n,
{
    if n <= 0 {
        -1
    } else if spec_first_free(elrsr, n - 1) != -1 {
        spec_first_free(elrsr, n - 1)
    } else if (elrsr >> ((n - 1) as u64)) & 1 == 1 {
        n - 1
    } else {
        -1
    }
}

/// How one injection attempt relates the pool before (`p0`) and after
/// (`p1`): a duplicate virtual id or a full pool drops the injection and
/// changes nothing; otherwise the lowest free slot receives the pending
/// value and its ELRSR bit clears.
pub open spec fn spec_inject_outcome(p0: LrPool, p1: LrPool, virq: u64, hw: bool, r: bool) -> bool {
    if p0.has_duplicate(virq) {
        !r && p1.vtr == p0.vtr && p1.elrsr == p0.elrsr && p1.lrs@ == p0.lrs@
    } else if spec_first_free(p0.elrsr, p0.lr_count()) == -1 {
        !r && p1.vtr == p0.vtr && p1.elrsr == p0.elrsr && p1.lrs@ == p0.lrs@
    } else {
        let j = spec_first_free(p0.elrsr, p0.lr_count());
        &&& r
        &&& p1.vtr == p0.vtr
        &&& p1.lrs@ == p0.lrs@.update(j, spec_pending_lr(virq, hw))
        &&& p1.elrsr == (p0.elrsr & !(1u64 << (j as u64)))
    }
}

impl LrPool {
    /// Queue virtual interrupt `virq` as pending in the guest's interface.
    ///
    /// The occupied slots are scanned first: if any already carries `virq`,
    /// the guest has not consumed the previous injection and the attempt is
    /// a no-op that returns false. With no free slot the attempt is likewise
    /// dropped — the hardware line of a level-triggered source stays
    /// asserted, so nothing is lost. Otherwise the lowest free slot takes
    /// the pending value; a hardware-backed PPI or SPI is linked to
    /// physical id `virq`. An SGI is never hardware-linked: for an id below
    /// 16 the hardware flag is ignored and the plain pending form is
    /// written.
    pub fn inject_irq(&mut self, virq: u64, is_hardware: bool) -> (r: bool)
        requires
            old(self).wf(),
            virq < 1024,
        ensures
            final(self).wf(),
            spec_inject_outcome(*old(self), *final(self), virq, is_hardware && virq >= 16, r),
    {
        let bits = self.vtr & 0xf;
        proof {
            let v = old(self).vtr;
            assert((v & 0xf) <= 0xf) by (bit_vector);
        }
        let lr_num: usize = (bits as usize) + 1;
        let mut lr_idx: isize = -1;
        let mut i: usize = 0;
        while i < lr_num
            invariant
                self == old(self),
                self.wf(),
                lr_num == self.lr_count(),
                lr_num <= 16,
                i <= lr_num,
                forall|k: int|
                    0 <= k < i && !self.slot_free(k) ==> spec_lr_vid(#[trigger] self.lrs@[k])
                        != virq,
                lr_idx == spec_first_free(self.elrsr, i as int),
                -1 <= lr_idx < i,
            decreases lr_num - i,
        {
            if (self.elrsr >> (i as u64)) & 1 == 1 {
                if lr_idx == -1 {
                    lr_idx = i as isize;
                }
            } else {
                let lr_val = self.lrs[i];
                if lr_val & 0x3ff == virq {
                    // the guest has not consumed this id yet
                    assert(self.has_duplicate(virq));
                    return false;
                }
            }
            i = i + 1;
        }
        assert(!self.has_duplicate(virq));
        if lr_idx == -1 {
            // no free slot: drop the injection
            false
        } else {
            let idx = lr_idx as usize;
            let hw = is_hardware && virq >= 16;
            let val: u64 = if hw {
                virq | (1u64 << 60) | (1u64 << 62) | (1u64 << 61) | (virq << 32)
            } else {
                virq | (1u64 << 60) | (1u64 << 62)
            };
            proof {
                if hw {
                    assert(((virq | (1u64 << 60) | (1u64 << 62) | (1u64 << 61) | (virq << 32))
                        >> 62) & 3 != 0) by (bit_vector);
                } else {
                    assert(((virq | (1u64 << 60) | (1u64 << 62)) >> 62) & 3 != 0) by (bit_vector);
                }
            }
            self.write_lr(idx, val);
            true
        }
    }
}

/// What one guest interrupt servicing the hypervisor consumes itself, if
/// anything: the control SGI, a virtio request (root side), or a virtio
/// completion (non-root side).
#[derive(Clone, Copy, Debug, PartialEq, Eq, Structural)]
pub enum ControlEvent {
    HvControl,
    VirtioReq,
    VirtioResult,
}

/// The EOIR1 write of one acknowledgement: every acknowledged id, spurious
/// reads none.
pub open spec fn spec_irq_eoir(iar: u64) -> Option<u64> {
    if iar >= 0x3fe {
        Option::None
    } else {
        Option::Some(iar)
    }
}

/// The DIR write of one acknowledgement: SGIs only.
pub open spec fn spec_irq_dir(iar: u64) -> Option<u64> {
    if iar < 16 {
        Option::Some(iar)
    } else {
        Option::None
    }
}

/// The control-plane event one acknowledgement raises, if the id is one of
/// the reserved hypervisor SGIs of this side.
pub open spec fn spec_irq_control(iar: u64, is_root: bool) -> Option<ControlEvent> {
    if iar >= 0x3fe {
        Option::None
    } else if iar == SGI_HV_ID {
        Option::Some(ControlEvent::HvControl)
    } else if is_root && iar == SGI_VIRTIO_REQ_ID {
        Option::Some(ControlEvent::VirtioReq)
    } else if !is_root && iar == SGI_VIRTIO_RESULT_ID {
        Option::Some(ControlEvent::VirtioResult)
    } else {
        Option::None
    }
}

/// Whether an acknowledged id is forwarded into the guest: every SGI the
/// hypervisor does not consume, and every PPI or SPI on the zone's
/// whitelist.
pub open spec fn spec_irq_forward(iar: u64, is_root: bool, whitelist: Seq<u64>) -> bool {
    &&& iar < 0x3fe
    &&& spec_irq_control(iar, is_root) is None
    &&& (iar < 16 || whitelist.contains(iar))
}

/// Everything one run of the interrupt handler does.
#[derive(Clone, Copy, Debug, PartialEq, Eq)]
pub struct IrqOutcome {
    pub eoir_write: Option<u64>,
    pub dir_write: Option<u64>,
    pub control: Option<ControlEvent>,
    pub injected: bool,
}

/// Whether `x` is in the whitelist.
fn irqs_contains(irqs: &Vec<u64>, x: u64) -> (r: bool)
    ensures
        r == irqs@.contains(x),
{
    let n = irqs.len();
    let mut i: usize = 0;
    while i < n
        invariant
            n == irqs@.len(),
            i <= n,
            forall|k: int| 0 <= k < i ==> irqs@[k] != x,
        decreases n - i,
    {
        if irqs[i] == x {
            return true;
        }
        i = i + 1;
    }
    false
}

/// Service one interrupt acknowledgement.
///
/// `iar` is the value a read of ICC_IAR1_EL1 returned. A spurious read does
/// nothing at all. Every real acknowledgement is deactivated exactly once:
/// one EOIR1 write, plus one DIR write for an SGI. A reserved hypervisor
/// SGI raises its control event and is consumed; any other SGI is forwarded
/// to the guest without hardware linkage; a PPI or SPI is forwarded
/// hardware-linked if the zone's whitelist allows it and is dropped
/// otherwise. The caller performs the returned register writes and
/// dispatches the control event.
pub fn gicv3_handle_irq_el1(
    pool: &mut LrPool,
    whitelist: &Vec<u64>,
    is_root: bool,
    iar: u64,
) -> (out: IrqOutcome)
    requires
        old(pool).wf(),
    ensures
        final(pool).wf(),
        out.eoir_write == spec_irq_eoir(iar),
        out.dir_write == (if iar >= 0x3fe {
            Option::<u64>::None
        } else {
            spec_irq_dir(iar)
        }),
        out.control == spec_irq_control(iar, is_root),
        !spec_irq_forward(iar, is_root, whitelist@) ==> *final(pool) == *old(pool)
            && !out.injected,
        spec_irq_forward(iar, is_root, whitelist@) ==> spec_inject_outcome(
            *old(pool),
            *final(pool),
            iar,
            iar >= 16,
            out.injected,
        ),
{
    match pending_irq(iar) {
        None => {
            IrqOutcome { eoir_write: None, dir_write: None, control: None, injected: false }
        },
        Some(irq_id) => {
            let (eoir, dir) = deactivate_irq(irq_id);
            let control: Option<ControlEvent> = if irq_id == SGI_HV_ID {
                Some(ControlEvent::HvControl)
            } else if is_root && irq_id == SGI_VIRTIO_REQ_ID {
                Some(ControlEvent::VirtioReq)
            } else if !is_root && irq_id == SGI_VIRTIO_RESULT_ID {
                Some(ControlEvent::VirtioResult)
            } else {
                None
            };
            let injected: bool = if control.is_none() {
                if irq_id < 16 {
                    pool.inject_irq(irq_id, false)
                } else if irqs_contains(whitelist, irq_id) {
                    pool.inject_irq(irq_id, true)
                } else {
                    // not whitelisted for this zone: dropped
                    false
                }
            } else {
                false
            };
            IrqOutcome { eoir_write: Some(eoir), dir_write: dir, control, injected }
        },
    }
}

/// How many entries of `iars` acknowledge physical id `id`.
pub open spec fn spec_ack_count(iars: Seq<u64>, id: u64) -> nat
    decreases iars.len(),
{
    if iars.len() == 0 {
        0
    } else {
        spec_ack_count(iars.drop_last(), id) + (if iars.last() < 0x3fe && iars.last() == id {
            1nat
        } else {
            0nat
        })
    }
}

/// How many EOIR1 writes for `id` a run over `iars` performs.
pub open spec fn spec_eoir_count(iars: Seq<u64>, id: u64) -> nat
    decreases iars.len(),
{
    if iars.len() == 0 {
        0
    } else {
        spec_eoir_count(iars.drop_last(), id) + (if spec_irq_eoir(iars.last())
            == Option::Some(id) {
            1nat
        } else {
            0nat
        })
    }
}

/// How many DIR writes for `id` a run over `iars` performs.
pub open spec fn spec_dir_count(iars: Seq<u64>, id: u64) -> nat
    decreases iars.len(),
{
    if iars.len() == 0 {
        0
    } else {
        spec_dir_count(iars.drop_last(), id) + (if iars.last() < 0x3fe && spec_irq_dir(iars.last())
            == Option::Some(id) {
            1nat
        } else {
            0nat
        })
    }
}

/// Interrupt conservation: across a whole run of acknowledgements, every
/// acknowledged physical id receives exactly one EOIR1 write, and an SGI id
/// additionally exactly one DIR write — no more, no fewer. The per-event
/// writes are the ones `gicv3_handle_irq_el1` promises through
/// `spec_irq_eoir` and `spec_irq_dir`.
pub proof fn lemma_irq_conservation(iars: Seq<u64>, id: u64)
    ensures
        spec_eoir_count(iars, id) == spec_ack_count(iars, id),
        spec_dir_count(iars, id) == (if id < 16 {
            spec_ack_count(iars, id)
        } else {
            0nat
        }),
    decreases iars.len(),
{
    if iars.len() > 0 {
        lemma_irq_conservation(iars.drop_last(), id);
    }
}

} // verus!
