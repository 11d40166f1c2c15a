use hvcore::gicv3::LrPool;
use hvcore::hypercall::SGI_HV_ID;
use hvcore::hypercall::SGI_VIRTIO_REQ_ID;
use hvcore::hypercall::SGI_VIRTIO_RESULT_ID;
use hvcore::memory::MMIOAccess;
use hvcore::virtio::SgiAction;
use hvcore::virtio::Trampoline;
use hvcore::virtio::VirtioReq;
use hvcore::virtio::handle_virtio_result;
use hvcore::virtio::mmio_virtio_handler;
use hvcore::virtio::process_virtio_requests;
use hvcore::virtio::virtio_cfg_wakeup;

#[test]
fn cfg_read_rpc_round_trip() {
    // non-root CPU 3 faults on a config register, suspends, the root zone
    // writes 0xdead_beef into its slot and kicks it; the woken CPU sees
    // the value in mmio.value
    let mut tramp = Trampoline::new();
    let mut mmio = MMIOAccess { address: 0x10, size: 4, is_write: false, value: 0 };
    let (r, action) = mmio_virtio_handler(&mut tramp, &mut mmio, 0x1000_0000, 1, 3);
    assert!(r.is_ok());
    assert_eq!(action.send, SgiAction { target_cpu: 0, sgi_id: SGI_VIRTIO_REQ_ID });
    assert!(action.suspend);
    assert_eq!(mmio.address, 0x1000_0010);
    assert_eq!(tramp.req_list.len(), 1);
    assert!(tramp.req_list[0].is_cfg);
    assert_eq!(tramp.req_list[0].src_cpu, 3);
    assert_eq!(tramp.req_list[0].src_cell, 1);

    // root side: serve the queue
    let actions = process_virtio_requests(&mut tramp, &vec![0xdead_beef]);
    assert_eq!(actions, vec![SgiAction { target_cpu: 3, sgi_id: SGI_HV_ID }]);
    assert_eq!(tramp.req_list.len(), 0);
    assert_eq!(tramp.result_map[3], Some(0xdead_beef));

    // the woken CPU takes its result
    virtio_cfg_wakeup(&mut tramp, &mut mmio, 3);
    assert_eq!(mmio.value, 0xdead_beef);
    assert_eq!(tramp.result_map[3], None);
}

#[test]
fn cfg_write_rpc_leaves_value_alone() {
    let mut tramp = Trampoline::new();
    let mut mmio = MMIOAccess { address: 0x14, size: 4, is_write: true, value: 0x77 };
    let (_, action) = mmio_virtio_handler(&mut tramp, &mut mmio, 0x1000_0000, 1, 2);
    assert!(action.suspend);
    let _ = process_virtio_requests(&mut tramp, &vec![0]);
    virtio_cfg_wakeup(&mut tramp, &mut mmio, 2);
    assert_eq!(mmio.value, 0x77);
    assert_eq!(tramp.result_map[2], None);
}

#[test]
fn notify_does_not_suspend_and_completes_by_interrupt() {
    // an access at the queue-notify offset is a notify: the source CPU
    // keeps running and the completion is injected as an interrupt
    let mut tramp = Trampoline::new();
    let mut mmio = MMIOAccess { address: 0x50, size: 4, is_write: true, value: 1 };
    let (r, action) = mmio_virtio_handler(&mut tramp, &mut mmio, 0x1000_0000, 2, 5);
    assert!(r.is_ok());
    assert!(!action.suspend);
    assert!(!tramp.req_list[0].is_cfg);

    let actions = process_virtio_requests(&mut tramp, &vec![77]);
    assert_eq!(actions, vec![SgiAction { target_cpu: 5, sgi_id: SGI_VIRTIO_RESULT_ID }]);
    assert_eq!(tramp.result_map[5], Some(77));

    let mut pool = LrPool::new(0xf);
    let injected = handle_virtio_result(&tramp, &mut pool, 5);
    assert!(injected);
    assert_eq!(pool.read_lr(0), (1 << 62) | (1 << 60) | 77);
}

#[test]
fn requests_queue_in_fifo_order() {
    let mut tramp = Trampoline::new();
    let mut a = MMIOAccess { address: 0x50, size: 4, is_write: true, value: 1 };
    let mut b = MMIOAccess { address: 0x20, size: 4, is_write: false, value: 0 };
    let _ = mmio_virtio_handler(&mut tramp, &mut a, 0x1000_0000, 1, 1);
    let _ = mmio_virtio_handler(&mut tramp, &mut b, 0x2000_0000, 1, 2);
    assert_eq!(tramp.req_list.len(), 2);
    assert_eq!(tramp.req_list[0].src_cpu, 1);
    assert_eq!(tramp.req_list[1].src_cpu, 2);
    let actions = process_virtio_requests(&mut tramp, &vec![5, 6]);
    assert_eq!(actions.len(), 2);
    assert_eq!(actions[0], SgiAction { target_cpu: 1, sgi_id: SGI_VIRTIO_RESULT_ID });
    assert_eq!(actions[1], SgiAction { target_cpu: 2, sgi_id: SGI_HV_ID });
    assert_eq!(tramp.result_map[1], Some(5));
    assert_eq!(tramp.result_map[2], Some(6));
}

#[test]
fn virtio_req_new_fills_every_field() {
    let mmio = MMIOAccess { address: 0x1000_0050, size: 4, is_write: true, value: 9 };
    let req = VirtioReq::new(3, 7, false, mmio);
    assert_eq!(req.src_cell, 3);
    assert_eq!(req.src_cpu, 7);
    assert!(!req.is_cfg);
    assert_eq!(req.mmio, mmio);
}
