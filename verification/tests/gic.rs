use hvcore::gicv3::ControlEvent;
use hvcore::gicv3::GICv3;
use hvcore::gicv3::LrPool;
use hvcore::gicv3::deactivate_irq;
use hvcore::gicv3::gicv3_cpu_init;
use hvcore::gicv3::gicv3_handle_irq_el1;
use hvcore::gicv3::pending_irq;

#[test]
fn spurious_irq_does_nothing() {
    // ICC_IAR1_EL1 reads 0x3ff: the handler returns without any EOI or DIR
    let mut pool = LrPool::new(0xf);
    let whitelist: Vec<u64> = vec![0x76];
    let out = gicv3_handle_irq_el1(&mut pool, &whitelist, false, 0x3ff);
    assert_eq!(out.eoir_write, None);
    assert_eq!(out.dir_write, None);
    assert_eq!(out.control, None);
    assert!(!out.injected);
    assert_eq!(pool.elrsr, 0xffff);
    for i in 0..16 {
        assert_eq!(pool.read_lr(i), 0);
    }
}

#[test]
fn inject_into_empty_pool_takes_slot_zero() {
    // ELRSR = 0xffff, inject virq 32 hardware-backed with phys 32
    let mut pool = LrPool::new(0xf);
    assert_eq!(pool.elrsr, 0xffff);
    let ok = pool.inject_irq(32, true);
    assert!(ok);
    let expected: u64 = (1 << 62) | (1 << 61) | (1 << 60) | (32u64 << 32) | 32;
    assert_eq!(pool.read_lr(0), expected);
    assert_eq!(pool.elrsr, 0xfffe);
}

#[test]
fn inject_duplicate_is_noop_and_false() {
    // injecting virtual id v while v sits in an LR changes nothing
    let mut pool = LrPool::new(0xf);
    assert!(pool.inject_irq(32, true));
    let lr0 = pool.read_lr(0);
    let elrsr = pool.elrsr;
    let again = pool.inject_irq(32, true);
    assert!(!again);
    assert_eq!(pool.read_lr(0), lr0);
    assert_eq!(pool.elrsr, elrsr);
}

#[test]
fn inject_with_full_pool_is_dropped() {
    let mut pool = LrPool::new(0xf);
    for virq in 32..48 {
        assert!(pool.inject_irq(virq, true));
    }
    assert_eq!(pool.elrsr, 0);
    let ok = pool.inject_irq(100, true);
    assert!(!ok);
    assert_eq!(pool.elrsr, 0);
}

#[test]
fn second_injection_takes_next_slot() {
    let mut pool = LrPool::new(0xf);
    assert!(pool.inject_irq(32, true));
    assert!(pool.inject_irq(33, true));
    assert_eq!(pool.elrsr, 0xfffc);
    assert_eq!(pool.read_lr(1) & 0x3ff, 33);
}

#[test]
fn whitelisted_spi_is_deactivated_and_injected() {
    let mut pool = LrPool::new(0xf);
    let whitelist: Vec<u64> = vec![0x76];
    let out = gicv3_handle_irq_el1(&mut pool, &whitelist, false, 0x76);
    assert_eq!(out.eoir_write, Some(0x76));
    assert_eq!(out.dir_write, None);
    assert_eq!(out.control, None);
    assert!(out.injected);
    let expected: u64 = (1 << 62) | (1 << 61) | (1 << 60) | (0x76u64 << 32) | 0x76;
    assert_eq!(pool.read_lr(0), expected);
}

#[test]
fn foreign_spi_is_deactivated_but_dropped() {
    let mut pool = LrPool::new(0xf);
    let whitelist: Vec<u64> = vec![0x76];
    let out = gicv3_handle_irq_el1(&mut pool, &whitelist, false, 0x99);
    assert_eq!(out.eoir_write, Some(0x99));
    assert_eq!(out.dir_write, None);
    assert!(!out.injected);
    assert_eq!(pool.elrsr, 0xffff);
}

#[test]
fn plain_sgi_is_forwarded_without_hw_link() {
    let mut pool = LrPool::new(0xf);
    let whitelist: Vec<u64> = vec![];
    let out = gicv3_handle_irq_el1(&mut pool, &whitelist, false, 5);
    assert_eq!(out.eoir_write, Some(5));
    assert_eq!(out.dir_write, Some(5));
    assert_eq!(out.control, None);
    assert!(out.injected);
    let expected: u64 = (1 << 62) | (1 << 60) | 5;
    assert_eq!(pool.read_lr(0), expected);
}

#[test]
fn reserved_sgis_raise_control_events() {
    let mut pool = LrPool::new(0xf);
    let whitelist: Vec<u64> = vec![];

    let out = gicv3_handle_irq_el1(&mut pool, &whitelist, false, 15);
    assert_eq!(out.control, Some(ControlEvent::HvControl));
    assert_eq!(out.eoir_write, Some(15));
    assert_eq!(out.dir_write, Some(15));
    assert!(!out.injected);

    let out = gicv3_handle_irq_el1(&mut pool, &whitelist, true, 14);
    assert_eq!(out.control, Some(ControlEvent::VirtioReq));

    let out = gicv3_handle_irq_el1(&mut pool, &whitelist, false, 13);
    assert_eq!(out.control, Some(ControlEvent::VirtioResult));

    // the root does not consume the result SGI, a non-root not the request SGI
    let out = gicv3_handle_irq_el1(&mut pool, &whitelist, false, 14);
    assert_eq!(out.control, None);

    assert_eq!(pool.read_lr(0) & 0x3ff, 14);
}

#[test]
fn pending_irq_decodes_iar() {
    assert_eq!(pending_irq(0x3fe), None);
    assert_eq!(pending_irq(0x3ff), None);
    assert_eq!(pending_irq(100), Some(100));
    assert_eq!(pending_irq(0), Some(0));
}

#[test]
fn deactivation_writes_dir_only_for_sgis() {
    assert_eq!(deactivate_irq(5), (5, Some(5)));
    assert_eq!(deactivate_irq(15), (15, Some(15)));
    assert_eq!(deactivate_irq(16), (16, None));
    assert_eq!(deactivate_irq(0x76), (0x76, None));
}

#[test]
fn cpu_init_programs_the_interface() {
    let w = gicv3_cpu_init();
    assert_eq!(w.ctlr, 0x2);
    assert_eq!(w.pmr, 0xf0);
    assert_eq!(w.igrpen, 0x1);
    assert_eq!(w.vmcr, (0xf0u64 << 24) | (1 << 1) | (1 << 9));
    assert_eq!(w.hcr, 0x1);
    // idempotent per CPU: the VMCR priority field carries the mask the
    // bring-up itself programs, so a rerun writes the identical state
    assert_eq!(gicv3_cpu_init(), w);
}

#[test]
fn read_aff_returns_typer_top_half() {
    let mut gic = GICv3::new(0xfd40_0000, 0xfd46_0000);
    assert_eq!(gic.gicd.base, 0xfd40_0000);
    assert_eq!(gic.gicr.base, 0xfd46_0000);
    assert_eq!(gic.read_aff(), 0);
    gic.load_typer(0xaabb_ccdd_0000_0001);
    assert_eq!(gic.read_aff(), 0xaabb_ccdd);
}

#[test]
fn write_lr_keeps_elrsr_in_step() {
    let mut pool = LrPool::new(0xf);
    pool.write_lr(3, (1 << 62) | 42);
    assert_eq!(pool.elrsr, 0xffff & !(1 << 3));
    assert_eq!(pool.read_lr(3), (1 << 62) | 42);
    pool.write_lr(3, 0);
    assert_eq!(pool.elrsr, 0xffff);
}

#[test]
fn irq_conservation_across_a_run() {
    // across a run, each acknowledged id gets exactly one EOIR1 write and
    // each SGI acknowledgement exactly one DIR write
    let mut pool = LrPool::new(0xf);
    let whitelist: Vec<u64> = vec![0x76];
    let run: Vec<u64> = vec![5, 0x3ff, 0x76, 5, 0x3fe, 15, 0x99];
    let mut eoir: Vec<u64> = Vec::new();
    let mut dir: Vec<u64> = Vec::new();
    for &iar in &run {
        let out = gicv3_handle_irq_el1(&mut pool, &whitelist, false, iar);
        if let Some(id) = out.eoir_write {
            eoir.push(id);
        }
        if let Some(id) = out.dir_write {
            dir.push(id);
        }
    }
    let acks: Vec<u64> = run.iter().copied().filter(|&i| i < 0x3fe).collect();
    for &id in &[5u64, 0x76, 15, 0x99] {
        let acked = acks.iter().filter(|&&i| i == id).count();
        assert_eq!(eoir.iter().filter(|&&i| i == id).count(), acked);
        let dirs = dir.iter().filter(|&&i| i == id).count();
        assert_eq!(dirs, if id < 16 { acked } else { 0 });
    }
    // the spurious reads produced no write at all
    assert_eq!(eoir.len(), acks.len());
}

#[test]
fn sgi_injection_ignores_the_hardware_flag() {
    // an SGI is never hardware-linked, whatever the caller asked for
    let mut pool = LrPool::new(0xf);
    assert!(pool.inject_irq(5, true));
    let lr0 = pool.read_lr(0);
    assert_eq!(lr0, (1 << 62) | (1 << 60) | 5);
    assert_eq!(lr0 & (1 << 61), 0);
    assert_eq!((lr0 >> 32) & 0x3ff, 0);
}
