use hvcore::memory::MEM_FLAG_READ;
use hvcore::memory::MEM_FLAG_WRITE;
use hvcore::memory::MMIOAccess;
use hvcore::memory::MemoryRegion;
use hvcore::pci::BarProbe;
use hvcore::pci::HvPciConfig;
use hvcore::zone::MmioHandler;
use hvcore::zone::Zone;
use hvcore::zone::check_zone_device_isolation;
use hvcore::HvError;

fn window_plan() -> HvPciConfig {
    HvPciConfig {
        ecam_base: 0x4_0000_0000,
        ecam_size: 0x1000_0000,
        io_base: 0x3eff_0000,
        io_size: 0x1_0000,
        mem32_base: 0x1000_0000,
        mem32_size: 0x2eff_0000,
        mem64_base: 0x80_0000_0000,
        mem64_size: 0x80_0000_0000,
    }
}

#[test]
fn mmio_regions_register_and_route() {
    let mut z = Zone::new(1, 0b10);
    assert!(z.mmio_region_register(0x1000, 0x1000, MmioHandler::Pci, 0x1000).is_ok());
    assert!(z.mmio_region_register(0x8000, 0x100, MmioHandler::Virtio, 7).is_ok());

    let hit = z.find_mmio_region(0x1800).unwrap();
    assert_eq!(hit.base, 0x1000);
    assert_eq!(hit.handler, MmioHandler::Pci);
    assert!(z.find_mmio_region(0x2000).is_none());
    assert!(z.find_mmio_region(0xfff).is_none());

    let (region, access) = z.route_mmio_access(0x8010, 4, false, 0).unwrap();
    assert_eq!(region.handler, MmioHandler::Virtio);
    assert_eq!(region.arg, 7);
    assert_eq!(access.address, 0x10);
    assert_eq!(access.size, 4);
    assert!(!access.is_write);
    assert!(z.route_mmio_access(0x9000, 4, false, 0).is_none());
}

#[test]
fn unmapped_mmio_reads_zero_and_ignores_writes() {
    let mut read = MMIOAccess { address: 0x9000, size: 4, is_write: false, value: 0x5555 };
    assert!(hvcore::zone::unmapped_mmio_access(&mut read).is_ok());
    assert_eq!(read.value, 0);
    let mut write = MMIOAccess { address: 0x9000, size: 4, is_write: true, value: 0x5555 };
    assert!(hvcore::zone::unmapped_mmio_access(&mut write).is_ok());
    assert_eq!(write.value, 0x5555);
}

#[test]
fn overlapping_mmio_region_is_refused() {
    // overlap between trap regions is forbidden: the table stays disjoint
    let mut z = Zone::new(0, 1);
    assert!(z.mmio_region_register(0x1000, 0x1000, MmioHandler::Pci, 0).is_ok());
    let r = z.mmio_region_register(0x1800, 0x1000, MmioHandler::Virtio, 0);
    assert_eq!(r, Err(HvError::InvalidConfig));
    assert_eq!(z.mmio_regions.len(), 1);
    // an empty region is a configuration error too
    assert_eq!(z.mmio_region_register(0x5000, 0, MmioHandler::Pci, 0), Err(HvError::InvalidConfig));
}

#[test]
fn gpm_insert_refuses_guest_side_overlap() {
    let mut z = Zone::new(0, 1);
    let a = MemoryRegion::new_with_offset_mapper(0x0, 0x4000_0000, 0x1000, MEM_FLAG_READ);
    let b = MemoryRegion::new_with_offset_mapper(0x800, 0x5000_0000, 0x1000, MEM_FLAG_WRITE);
    assert!(z.gpm_insert(a).is_ok());
    assert_eq!(z.gpm_insert(b), Err(HvError::InvalidConfig));
    assert_eq!(z.gpm.len(), 1);
}

#[test]
fn device_isolation_across_zones() {
    // no BDF may sit in two zones' device sets
    let mut z0 = Zone::new(0, 0b01);
    let mut z1 = Zone::new(1, 0b10);
    z0.pciroot.alloc_devs.push(0);
    z0.pciroot.alloc_devs.push(0x0008);
    z1.pciroot.alloc_devs.push(0x0010);
    let zones = vec![z0, z1];
    assert!(check_zone_device_isolation(&zones));

    let mut z0 = Zone::new(0, 0b01);
    let mut z1 = Zone::new(1, 0b10);
    z0.pciroot.alloc_devs.push(0x0008);
    z1.pciroot.alloc_devs.push(0x0008);
    let zones = vec![z0, z1];
    assert!(!check_zone_device_isolation(&zones));
}

#[test]
fn root_zone_pci_init_traps_ecam_and_maps_windows() {
    let cfg = window_plan();
    let mut z = Zone::new(0, 0b1111);
    let r = z.pci_init(&cfg, 2, &vec![0, 0x0008, 0x9999]);
    assert!(r.is_ok());
    assert_eq!(z.pciroot.alloc_devs, vec![0, 0x0008]);
    assert_eq!(z.mmio_regions.len(), 1);
    assert_eq!(z.mmio_regions[0].base, cfg.ecam_base);
    assert_eq!(z.mmio_regions[0].size, cfg.ecam_size);
    assert_eq!(z.mmio_regions[0].handler, MmioHandler::Pci);
    assert_eq!(z.gpm.len(), 3);
    assert_eq!(z.gpm[0].virtual_start, cfg.io_base);
    assert_eq!(z.gpm[0].physical_start, cfg.io_base);
    assert_eq!(z.gpm[1].virtual_start, cfg.mem32_base);
    assert_eq!(z.gpm[2].virtual_start, cfg.mem64_base);
    assert_eq!(z.gpm[0].flags, MEM_FLAG_READ | MEM_FLAG_WRITE);
}

#[test]
fn non_root_zone_pci_init_traps_all_windows() {
    let cfg = window_plan();
    let mut z = Zone::new(1, 0b1);
    let r = z.pci_init(&cfg, 1, &vec![0x0008]);
    assert!(r.is_ok());
    assert_eq!(z.mmio_regions.len(), 4);
    assert_eq!(z.mmio_regions[0].base, cfg.ecam_base);
    assert_eq!(z.mmio_regions[1].base, cfg.io_base);
    assert_eq!(z.mmio_regions[2].base, cfg.mem32_base);
    assert_eq!(z.mmio_regions[3].base, cfg.mem64_base);
    assert_eq!(z.gpm.len(), 0);
}

#[test]
fn pci_init_rejects_device_count_past_the_table() {
    let cfg = window_plan();
    let mut z = Zone::new(0, 1);
    let r = z.pci_init(&cfg, 3, &vec![0, 0x0008]);
    assert_eq!(r, Err(HvError::InvalidParam));
    assert_eq!(z.mmio_regions.len(), 0);
    assert_eq!(z.pciroot.alloc_devs.len(), 0);
}

#[test]
fn virtual_pci_device_init_classifies_sizes_and_maps() {
    let cfg = window_plan();
    let mut z = Zone::new(1, 0b1);
    assert!(z.pci_init(&cfg, 3, &vec![0, 0x0008, 0x0010]).is_ok());

    // BDF 0 is the host bridge; 0x0008 an endpoint; 0x0010 a bridge
    let headers: Vec<u8> = vec![0x00, 0x00, 0x01];
    let mut ep_row = vec![BarProbe { origin_val: 0x9000_0000, new_val: 0xffff_f000 }];
    for _ in 0..5 {
        ep_row.push(BarProbe { origin_val: 0, new_val: 0 });
    }
    let bridge_row = vec![BarProbe { origin_val: 0, new_val: 0 }; 2];
    let gpm_before = z.gpm.len();
    let r = z.virtual_pci_device_init(&headers, &vec![ep_row], &vec![bridge_row]);
    assert!(r.is_ok());
    assert_eq!(z.pciroot.endpoints.len(), 1);
    assert_eq!(z.pciroot.endpoints[0].bdf, 0x0008);
    assert_eq!(z.pciroot.bridges.len(), 1);
    assert_eq!(z.pciroot.bridges[0].bdf, 0x0010);
    assert_eq!(z.pciroot.bar_regions.len(), 1);
    assert_eq!(z.pciroot.bar_regions[0].start, 0x9000_0000);
    assert_eq!(z.pciroot.bar_regions[0].size, 0x1000);
    assert_eq!(z.gpm.len(), gpm_before + 1);
    assert_eq!(z.gpm[gpm_before].virtual_start, 0x9000_0000);
    assert_eq!(z.gpm[gpm_before].physical_start, 0x9000_0000);
    assert_eq!(z.gpm[gpm_before].size, 0x1000);
}

#[test]
fn virtual_pci_device_init_rejects_header_table_of_wrong_length() {
    let cfg = window_plan();
    let mut z = Zone::new(1, 0b1);
    assert!(z.pci_init(&cfg, 2, &vec![0, 0x0008]).is_ok());
    let r = z.virtual_pci_device_init(&vec![0x00], &vec![], &vec![]);
    assert_eq!(r, Err(HvError::InvalidParam));
    assert_eq!(z.pciroot.endpoints.len(), 0);
}

#[test]
fn unknown_header_type_is_dropped() {
    let cfg = window_plan();
    let mut z = Zone::new(1, 0b1);
    assert!(z.pci_init(&cfg, 2, &vec![0, 0x0008]).is_ok());
    let headers: Vec<u8> = vec![0x00, 0x7a];
    let r = z.virtual_pci_device_init(&headers, &vec![], &vec![]);
    assert!(r.is_ok());
    assert_eq!(z.pciroot.endpoints.len(), 0);
    assert_eq!(z.pciroot.bridges.len(), 0);
    assert_eq!(z.pciroot.bar_regions.len(), 0);
}
