use hvcore::memory::MMIOAccess;
use hvcore::pci::BarKind;
use hvcore::pci::BarProbe;
use hvcore::pci::PciRoot;
use hvcore::pci::PHANTOM_DEV_HEADER;
use hvcore::pci::cfg_base;
use hvcore::pci::decode_bars;
use hvcore::pci::mmio_pci_handler;
use hvcore::HvError;

fn unimplemented_bar() -> BarProbe {
    BarProbe { origin_val: 0, new_val: 0 }
}

#[test]
fn ecam_read_of_empty_slot_returns_ones() {
    // offset 0 of a BDF the zone does not own, physical header all ones
    let root = PciRoot::new();
    let bdf: u64 = 0x0008;
    let mut mmio = MMIOAccess { address: bdf << 12, size: 4, is_write: false, value: 0 };
    let (r, do_write) = mmio_pci_handler(&root, &mut mmio, 0xffff_ffff, 0xffff_ffff);
    assert!(r.is_ok());
    assert!(!do_write);
    assert_eq!(mmio.value, 0xffff_ffff);
}

#[test]
fn ecam_read_of_occupied_foreign_slot_returns_phantom() {
    // offset 0 of a BDF the zone does not own, physical header 0x1234_5678
    let root = PciRoot::new();
    let bdf: u64 = 0x0008;
    let mut mmio = MMIOAccess { address: bdf << 12, size: 4, is_write: false, value: 0 };
    let (r, do_write) = mmio_pci_handler(&root, &mut mmio, 0x1234_5678, 0x1234_5678);
    assert!(r.is_ok());
    assert!(!do_write);
    assert_eq!(mmio.value, PHANTOM_DEV_HEADER);
    assert_ne!(mmio.value, 0x1234_5678);
}

#[test]
fn ecam_access_to_assigned_device_passes_through() {
    let mut root = PciRoot::new();
    root.alloc_devs.push(0x0008);
    let mut mmio = MMIOAccess { address: (0x0008u64 << 12) | 0x10, size: 4, is_write: false, value: 0 };
    let (r, do_write) = mmio_pci_handler(&root, &mut mmio, 0xf000_0000, 0xf000_0000);
    assert!(r.is_ok());
    assert!(!do_write);
    assert_eq!(mmio.value, 0xf000_0000);

    let mut wr = MMIOAccess { address: (0x0008u64 << 12) | 0x10, size: 4, is_write: true, value: 0x1234 };
    let (r, do_write) = mmio_pci_handler(&root, &mut wr, 0, 0);
    assert!(r.is_ok());
    assert!(do_write);
    assert_eq!(wr.value, 0x1234);
}

#[test]
fn ecam_foreign_bar_offset_stays_readable() {
    let root = PciRoot::new();
    let mut mmio = MMIOAccess { address: (0x0008u64 << 12) | 0x10, size: 2, is_write: false, value: 0 };
    let (r, do_write) = mmio_pci_handler(&root, &mut mmio, 0xabcd_1234, 0xabcd_1234);
    assert!(r.is_ok());
    assert!(!do_write);
    // the sized read is masked to the two accessed bytes
    assert_eq!(mmio.value, 0x1234);
}

#[test]
fn bar_sizing_of_4k_mem32() {
    // original value 0xf000_0000, mask after writing ones 0xffff_f000:
    // a 32-bit non-prefetchable memory BAR of size 0x1000 at 0xf000_0000
    let probe = BarProbe { origin_val: 0xf000_0000, new_val: 0xffff_f000 };
    let regions = decode_bars(&vec![probe]);
    assert_eq!(regions.len(), 1);
    assert_eq!(regions[0].start, 0xf000_0000);
    assert_eq!(regions[0].size, 0x1000);
    assert_eq!(regions[0].kind, BarKind::Mem32);
    assert!(!regions[0].prefetchable);
}

#[test]
fn bar_sizing_decodes_io_and_mem64() {
    let io = BarProbe { origin_val: 0x0000_3001, new_val: 0xffff_fffd };
    let regions = decode_bars(&vec![io]);
    assert_eq!(regions.len(), 1);
    assert_eq!(regions[0].kind, BarKind::Io);
    assert_eq!(regions[0].start, 0x3000);
    assert_eq!(regions[0].size, 4);

    let lo = BarProbe { origin_val: 0xe000_000c, new_val: 0xffff_f00c };
    let hi = BarProbe { origin_val: 0x0000_00ab, new_val: 0xffff_ffff };
    let regions = decode_bars(&vec![lo, hi]);
    assert_eq!(regions.len(), 1);
    assert_eq!(regions[0].kind, BarKind::Mem64);
    assert_eq!(regions[0].start, 0x0000_00ab_e000_0000);
    assert_eq!(regions[0].size, 0x1000);
    assert!(regions[0].prefetchable);
}

#[test]
fn bar_sizing_skips_unimplemented_and_malformed() {
    // mask zero: not implemented; a mask with holes sizes to no power of two
    let none = unimplemented_bar();
    let malformed = BarProbe { origin_val: 0, new_val: 0xffff_0f00 };
    let regions = decode_bars(&vec![none, malformed]);
    assert_eq!(regions.len(), 0);
}

#[test]
fn bars_register_rounds_to_page_and_keeps_pow2() {
    // a 16-byte BAR comes out as one page; every size is a power of two
    let mut root = PciRoot::new();
    root.endpoints.push(hvcore::pci::EndpointConfig::new(0x10));
    let mut probes = vec![BarProbe { origin_val: 0x9000_0000, new_val: 0xffff_fff0 }];
    for _ in 0..5 {
        probes.push(unimplemented_bar());
    }
    let r = root.bars_register(&vec![probes], &vec![]);
    assert!(r.is_ok());
    assert_eq!(root.bar_regions.len(), 1);
    assert_eq!(root.bar_regions[0].start, 0x9000_0000);
    assert_eq!(root.bar_regions[0].size, 0x1000);
    for region in &root.bar_regions {
        assert!(region.size >= 0x1000);
        assert_eq!(region.size & (region.size - 1), 0);
    }
}

#[test]
fn bars_register_refuses_probe_rows_of_wrong_shape() {
    let mut root = PciRoot::new();
    root.endpoints.push(hvcore::pci::EndpointConfig::new(0x10));
    // one endpoint but no probe row
    let r = root.bars_register(&vec![], &vec![]);
    assert_eq!(r, Err(HvError::InvalidConfig));
    // a row of five probes where six are due
    let r = root.bars_register(&vec![vec![unimplemented_bar(); 5]], &vec![]);
    assert_eq!(r, Err(HvError::InvalidConfig));
}

#[test]
fn assigned_devices_are_found() {
    let mut root = PciRoot::new();
    assert!(!root.is_assigned_device(0));
    root.alloc_devs.push(0);
    root.alloc_devs.push(0x0008);
    assert!(root.is_assigned_device(0));
    assert!(root.is_assigned_device(0x0008));
    assert!(!root.is_assigned_device(0x0010));
}

#[test]
fn cfg_base_places_bdf_in_bits_31_to_12() {
    assert_eq!(cfg_base(0x4_0000_0000, 0), 0x4_0000_0000);
    assert_eq!(cfg_base(0x4_0000_0000, 0x0008), 0x4_0000_8000);
    assert_eq!(cfg_base(0x4_0000_0000, 0xffff), 0x4_0fff_f000);
}
