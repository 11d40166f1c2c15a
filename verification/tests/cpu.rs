use hvcore::cpu::ArchCpu;
use hvcore::cpu::CpuStartPlan;
use hvcore::cpu::PER_CPU_ARRAY_PTR;
use hvcore::cpu::PER_CPU_SIZE;
use hvcore::cpu::SMP_BOOT_CPU;
use hvcore::cpu::cpu_start;
use hvcore::memory::MMIOAccess;
use hvcore::memory::mmio_perform_access;

#[test]
fn fresh_cpu_is_cleared_and_powered_off() {
    let cpu = ArchCpu::new(2);
    assert_eq!(cpu.get_cpuid(), 2);
    assert!(!cpu.power_on);
    assert_eq!(cpu.sepc, 0);
    assert!(cpu.r.iter().all(|&v| v == 0));
}

#[test]
fn stack_tops_stack_up_per_cpu() {
    let c0 = ArchCpu::new(0);
    let c1 = ArchCpu::new(1);
    assert_eq!(c0.stack_top(), PER_CPU_ARRAY_PTR + PER_CPU_SIZE - 8);
    assert_eq!(c1.stack_top(), PER_CPU_ARRAY_PTR + 2 * PER_CPU_SIZE - 8);
    assert_eq!(c1.stack_top() - c0.stack_top(), PER_CPU_SIZE);
}

#[test]
fn init_prepares_the_guest_entry() {
    let mut cpu = ArchCpu::new(0);
    cpu.r[5] = 0xdead;
    cpu.init(0x0028_0000, 3, 0x0830_0000);
    assert_eq!(cpu.sepc, 0x0028_0000);
    assert_eq!(cpu.cpuid, 3);
    assert_eq!(cpu.stack_top, PER_CPU_ARRAY_PTR + 4 * PER_CPU_SIZE - 8);
    assert!(!cpu.power_on);
    assert!(cpu.r.iter().all(|&v| v == 0));
}

#[test]
fn cpu_start_plans_the_mailbox_kick() {
    let plan = cpu_start(2, 0x0028_0000, 0).unwrap();
    assert_eq!(
        plan,
        CpuStartPlan {
            cpuid: 2,
            ipi_enable: 0xffff_ffff,
            mailbox_entry: 0x0028_0000,
            action: SMP_BOOT_CPU,
        }
    );
    assert!(cpu_start(1, 0x1000, 0).is_some());
    assert!(cpu_start(3, 0x1000, 0).is_some());
}

#[test]
fn cpu_start_refuses_cores_without_a_mailbox() {
    assert!(cpu_start(0, 0x1000, 0).is_none());
    assert!(cpu_start(4, 0x1000, 0).is_none());
    assert!(cpu_start(100, 0x1000, 0).is_none());
}

#[test]
fn sized_reads_are_masked_and_writes_passed_on() {
    let mut read = MMIOAccess { address: 0x10, size: 2, is_write: false, value: 0 };
    let do_write = mmio_perform_access(&mut read, 0xaabb_ccdd);
    assert!(!do_write);
    assert_eq!(read.value, 0xccdd);

    let mut write = MMIOAccess { address: 0x10, size: 4, is_write: true, value: 0x55 };
    let do_write = mmio_perform_access(&mut write, 0);
    assert!(do_write);
    assert_eq!(write.value, 0x55);
}
