use vstd::prelude::*;

use crate::consts::MAX_CPUS;

verus! {

broadcast use vstd::array::axiom_spec_array_fill_for_copy_type;

/// Stack and state block reserved for each CPU.
pub const PER_CPU_SIZE: usize = 0x80000;

/// Where the per-CPU array sits in the hypervisor's address space.
pub const PER_CPU_ARRAY_PTR: usize = 0x8010_0000;

/// The IPI mailbox action that starts a parked secondary core.
pub const SMP_BOOT_CPU: u32 = 1;

/// The architectural state of one CPU held by the hypervisor: the general
/// registers, the saved program counter, the stack top, the CPU id, and
/// whether the core was brought up.
#[derive(Debug)]
pub struct ArchCpu {
    pub r: [usize; 32],
    pub sepc: usize,
    pub stack_top: usize,
    pub cpuid: usize,
    pub power_on: bool,
}

/// The stack top of the CPU with id `cpuid`: the end of its slot in the
/// per-CPU array, less one slot for the initial frame.
pub open spec fn spec_stack_top(cpuid: usize) -> int {
    PER_CPU_ARRAY_PTR + (cpuid + 1) * PER_CPU_SIZE - 8
}

impl ArchCpu {
    pub fn new(cpuid: usize) -> (r: Self)
        ensures
            forall|i: int| 0 <= i < 32 ==> r.r@[i] == 0,
            r.sepc == 0,
            r.stack_top == 0,
            r.cpuid == cpuid,
            r.power_on == false,
    {
        ArchCpu { r: [0; 32], sepc: 0, stack_top: 0, cpuid, power_on: false }
    }

    pub fn get_cpuid(&self) -> (r: usize)
        ensures
            r == self.cpuid,
    {
        self.cpuid
    }

    /// The stack top this CPU's slot in the per-CPU array yields.
    pub fn stack_top(&self) -> (r: usize)
        requires
            self.cpuid < MAX_CPUS,
        ensures
            r == spec_stack_top(self.cpuid),
    {
        PER_CPU_ARRAY_PTR + (self.get_cpuid() + 1) * PER_CPU_SIZE - 8
    }

    /// Prepare this CPU to enter its guest: program counter at `entry`,
    /// stack top from the per-CPU array, a cleared register file, and the
    /// core marked powered off until bring-up confirms it.
    pub fn init(&mut self, entry: usize, cpu_id: usize, _dtb: usize)
        requires
            cpu_id < MAX_CPUS,
        ensures
            forall|i: int| 0 <= i < 32 ==> final(self).r@[i] == 0,
            final(self).sepc == entry,
            final(self).stack_top == spec_stack_top(cpu_id),
            final(self).cpuid == cpu_id,
            final(self).power_on == false,
    {
        self.r = [0; 32];
        self.sepc = entry;
        self.cpuid = cpu_id;
        self.stack_top = PER_CPU_ARRAY_PTR + (cpu_id + 1) * PER_CPU_SIZE - 8;
        self.power_on = false;
    }
}

/// The mailbox programming that starts one secondary core: enable every
/// IPI source on the target, put the entry address in its mailbox, and
/// kick the boot action.
#[derive(Clone, Copy, Debug, PartialEq, Eq, Structural)]
pub struct CpuStartPlan {
    pub cpuid: usize,
    pub ipi_enable: u32,
    pub mailbox_entry: usize,
    pub action: u32,
}

/// Plan the bring-up of a parked secondary core through its IPI mailbox.
///
/// Only cores 1 to 3 have a mailbox block; any other id is a configuration
/// error and yields no plan. The caller performs the three mailbox writes
/// of the plan in order.
pub fn cpu_start(cpuid: usize, start_addr: usize, _opaque: usize) -> (r: Option<CpuStartPlan>)
    ensures
        (r is Some) <==> (1 <= cpuid <= 3),
        r matches Some(plan) ==> plan == (CpuStartPlan {
            cpuid,
            ipi_enable: 0xffffffff,
            mailbox_entry: start_addr,
            action: SMP_BOOT_CPU,
        }),
{
    if cpuid >= 1 && cpuid <= 3 {
        Some(
            CpuStartPlan {
                cpuid,
                ipi_enable: 0xffffffff,
                mailbox_entry: start_addr,
                action: SMP_BOOT_CPU,
            },
        )
    } else {
        None
    }
}

} // verus!
