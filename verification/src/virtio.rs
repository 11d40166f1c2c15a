use vstd::prelude::*;

use crate::consts::MAX_CPUS;
use crate::error::HvError;
use crate::error::HvResult;
use crate::gicv3::LrPool;
use crate::gicv3::spec_inject_outcome;
use crate::hypercall::SGI_HV_ID;
use crate::hypercall::SGI_VIRTIO_REQ_ID;
use crate::hypercall::SGI_VIRTIO_RESULT_ID;
use crate::memory::MMIOAccess;

verus! {

/// Offset of the virtio queue-notify register inside a device's MMIO
/// window; an access there is a notify, everything else is cfg.
pub const QUEUE_NOTIFY: u64 = 0x50;

/// One marshalled MMIO access a non-root zone hands to the root zone:
/// where it came from, whether it is a cfg access (which suspends the
/// source CPU), and the access itself with its absolute guest-physical
/// address.
#[derive(Clone, Copy, Debug, PartialEq, Eq, Structural)]
pub struct VirtioReq {
    pub src_cell: u32,
    pub src_cpu: u64,
    pub is_cfg: bool,
    pub mmio: MMIOAccess,
}

impl VirtioReq {
    pub fn new(src_cell: u32, src_cpu: u64, is_cfg: bool, mmio: MMIOAccess) -> (r: Self)
        ensures
            r == (VirtioReq { src_cell, src_cpu, is_cfg, mmio }),
    {
        VirtioReq { src_cell, src_cpu, is_cfg, mmio }
    }
}

/// One software-generated interrupt to send: which CPU, which SGI.
#[derive(Clone, Copy, Debug, PartialEq, Eq, Structural)]
pub struct SgiAction {
    pub target_cpu: u64,
    pub sgi_id: u64,
}

/// What the non-root request handler asks of its caller: send the request
/// SGI, and suspend this CPU if the request was cfg.
#[derive(Clone, Copy, Debug, PartialEq, Eq, Structural)]
pub struct VirtioHandlerAction {
    pub send: SgiAction,
    pub suspend: bool,
}

/// The shared state of the virtio trampoline: the FIFO of pending requests
/// and the per-CPU result slots. The caller keeps it behind its lock; the
/// operations here are the short critical sections.
#[derive(Debug)]
pub struct Trampoline {
    pub req_list: Vec<VirtioReq>,
    pub result_map: Vec<Option<u64>>,
}

impl Trampoline {
    /// One result slot per possible CPU, and every queued request names a
    /// CPU that has a slot.
    pub open spec fn wf(self) -> bool {
        &&& self.result_map@.len() == MAX_CPUS
        &&& forall|i: int|
            0 <= i < self.req_list@.len() ==> (#[trigger] self.req_list@[i]).src_cpu < MAX_CPUS
    }

    pub fn new() -> (r: Self)
        ensures
            r.wf(),
            r.req_list@ == Seq::<VirtioReq>::empty(),
            r.result_map@.len() == MAX_CPUS,
            forall|i: int| 0 <= i < MAX_CPUS ==> r.result_map@[i] is None,
    {
        let mut result_map: Vec<Option<u64>> = Vec::new();
        let mut i: usize = 0;
        while i < MAX_CPUS
            invariant
                i <= MAX_CPUS,
                result_map@.len() == i,
                forall|k: int| 0 <= k < i ==> result_map@[k] is None,
            decreases MAX_CPUS - i,
        {
            result_map.push(None);
            i = i + 1;
        }
        Trampoline { req_list: Vec::new(), result_map }
    }
}

/// The SGI each completed request triggers: a cfg request resumes its
/// suspended source CPU with the control SGI, a notify request tells the
/// source CPU about the completion with the result SGI.
pub open spec fn spec_drain_actions(reqs: Seq<VirtioReq>) -> Seq<SgiAction> {
    reqs.map_values(
        |q: VirtioReq|
            SgiAction {
                target_cpu: q.src_cpu,
                sgi_id: if q.is_cfg {
                    SGI_HV_ID
                } else {
                    SGI_VIRTIO_RESULT_ID
                },
            },
    )
}

/// The result map after the root zone serves a queue of requests: each
/// request in order writes its result into its source CPU's slot.
pub open spec fn spec_apply_results(
    map: Seq<Option<u64>>,
    reqs: Seq<VirtioReq>,
    results: Seq<u64>,
) -> Seq<Option<u64>>
    decreases reqs.len(),
{
    if reqs.len() == 0 {
        map
    } else {
        spec_apply_results(
            map.update(reqs[0].src_cpu as int, Option::Some(results[0])),
            reqs.drop_first(),
            results.drop_first(),
        )
    }
}

/// Serving one more request at the end writes one more slot.
proof fn lemma_apply_results_snoc(
    map: Seq<Option<u64>>,
    reqs: Seq<VirtioReq>,
    results: Seq<u64>,
    q: VirtioReq,
    v: u64,
)
    requires
        results.len() == reqs.len(),
    ensures
        spec_apply_results(map, reqs.push(q), results.push(v)) == spec_apply_results(
            map,
            reqs,
            results,
        ).update(q.src_cpu as int, Option::Some(v)),
    decreases reqs.len(),
{
    if reqs.len() == 0 {
        assert(reqs.push(q)[0] == q);
        assert(results.push(v)[0] == v);
        assert(reqs.push(q).drop_first() =~= Seq::<VirtioReq>::empty());
        assert(results.push(v).drop_first() =~= Seq::<u64>::empty());
        assert(spec_apply_results(map, reqs, results) == map);
        let map1 = map.update(q.src_cpu as int, Option::Some(v));
        assert(spec_apply_results(map1, Seq::<VirtioReq>::empty(), Seq::<u64>::empty()) == map1);
        assert(spec_apply_results(map, reqs.push(q), results.push(v)) == spec_apply_results(
            map1,
            reqs.push(q).drop_first(),
            results.push(v).drop_first(),
        ));
    } else {
        assert(reqs.push(q)[0] == reqs[0]);
        assert(results.push(v)[0] == results[0]);
        assert(reqs.push(q).drop_first() =~= reqs.drop_first().push(q));
        assert(results.push(v).drop_first() =~= results.drop_first().push(v));
        lemma_apply_results_snoc(
            map.update(reqs[0].src_cpu as int, Option::Some(results[0])),
            reqs.drop_first(),
            results.drop_first(),
            q,
            v,
        );
    }
}

/// A slot once written stays written while the queue drains.
proof fn lemma_apply_results_preserves_some(
    map: Seq<Option<u64>>,
    reqs: Seq<VirtioReq>,
    results: Seq<u64>,
    c: int,
)
    requires
        results.len() == reqs.len(),
        forall|i: int| 0 <= i < reqs.len() ==> 0 <= (#[trigger] reqs[i]).src_cpu < map.len(),
        0 <= c < map.len(),
        map[c] is Some,
    ensures
        spec_apply_results(map, reqs, results)[c] is Some,
    decreases reqs.len(),
{
    if reqs.len() > 0 {
        let map1 = map.update(reqs[0].src_cpu as int, Option::Some(results[0]));
        assert(forall|i: int|
            0 <= i < reqs.drop_first().len() ==> 0 <= (#[trigger] reqs.drop_first()[i]).src_cpu
                < map1.len());
        lemma_apply_results_preserves_some(map1, reqs.drop_first(), results.drop_first(), c);
    }
}

/// Virtio RPC liveness: every cfg request in a served queue leaves a
/// result in its source CPU's slot, and its resume SGI is among the
/// actions the drain emits — both are in place before the suspended CPU
/// can observe that it has woken, because the drain returns them together.
pub proof fn lemma_virtio_rpc_liveness(
    map: Seq<Option<u64>>,
    reqs: Seq<VirtioReq>,
    results: Seq<u64>,
    i: int,
)
    requires
        results.len() == reqs.len(),
        forall|k: int| 0 <= k < reqs.len() ==> 0 <= (#[trigger] reqs[k]).src_cpu < map.len(),
        0 <= i < reqs.len(),
        reqs[i].is_cfg,
    ensures
        spec_apply_results(map, reqs, results)[reqs[i].src_cpu as int] is Some,
        spec_drain_actions(reqs)[i] == (SgiAction { target_cpu: reqs[i].src_cpu, sgi_id: SGI_HV_ID }),
    decreases i,
{
    let map1 = map.update(reqs[0].src_cpu as int, Option::Some(results[0]));
    if i == 0 {
        assert(map1[reqs[0].src_cpu as int] is Some);
        assert(forall|k: int|
            0 <= k < reqs.drop_first().len() ==> 0 <= (#[trigger] reqs.drop_first()[k]).src_cpu
                < map1.len());
        lemma_apply_results_preserves_some(
            map1,
            reqs.drop_first(),
            results.drop_first(),
            reqs[0].src_cpu as int,
        );
    } else {
        assert(reqs.drop_first()[i - 1] == reqs[i]);
        assert(forall|k: int|
            0 <= k < reqs.drop_first().len() ==> 0 <= (#[trigger] reqs.drop_first()[k]).src_cpu
                < map1.len());
        lemma_virtio_rpc_liveness(map1, reqs.drop_first(), results.drop_first(), i - 1);
    }
}

/// The non-root side of a trapped virtio access.
///
/// An access at the queue-notify offset is a notify, anything else is cfg.
/// The access is rewritten to its absolute guest-physical address, queued,
/// and announced to CPU 0 of the root zone with the request SGI. A cfg
/// request asks the caller to suspend this CPU; once resumed it finishes
/// with `virtio_cfg_wakeup`. A notify returns at once — the completion
/// arrives later as an interrupt.
pub fn mmio_virtio_handler(
    tramp: &mut Trampoline,
    mmio: &mut MMIOAccess,
    base: u64,
    src_zone: u32,
    src_cpu: u64,
) -> (r: (HvResult, VirtioHandlerAction))
    requires
        old(tramp).wf(),
        src_cpu < MAX_CPUS as u64,
        old(mmio).address + base <= u64::MAX,
    ensures
        final(tramp).wf(),
        r.0 is Ok,
        r.1.send == (SgiAction { target_cpu: 0, sgi_id: SGI_VIRTIO_REQ_ID }),
        r.1.suspend == (old(mmio).address != QUEUE_NOTIFY),
        *final(mmio) == (MMIOAccess { address: (old(mmio).address + base) as u64, ..*old(mmio) }),
        final(tramp).req_list@ == old(tramp).req_list@.push(
            (VirtioReq {
                src_cell: src_zone,
                src_cpu,
                is_cfg: old(mmio).address != QUEUE_NOTIFY,
                mmio: *final(mmio),
            }),
        ),
        final(tramp).result_map@ == old(tramp).result_map@,
{
    let is_cfg = mmio.address != QUEUE_NOTIFY;
    mmio.address = mmio.address + base;
    let req = VirtioReq::new(src_zone, src_cpu, is_cfg, *mmio);
    tramp.req_list.push(req);
    (
        Ok(()),
        VirtioHandlerAction {
            send: SgiAction { target_cpu: 0, sgi_id: SGI_VIRTIO_REQ_ID },
            suspend: is_cfg,
        },
    )
}

/// The tail of a cfg request, run on the source CPU after it resumed: take
/// the result the root zone left in this CPU's slot, clear the slot, and
/// for a read move the value into the access.
pub fn virtio_cfg_wakeup(tramp: &mut Trampoline, mmio: &mut MMIOAccess, cpu: u64)
    requires
        old(tramp).wf(),
        cpu < MAX_CPUS as u64,
        old(tramp).result_map@[cpu as int] is Some,
    ensures
        final(tramp).wf(),
        final(tramp).req_list@ == old(tramp).req_list@,
        final(tramp).result_map@ == old(tramp).result_map@.update(
            cpu as int,
            Option::<u64>::None,
        ),
        !old(mmio).is_write ==> *final(mmio) == (MMIOAccess {
            value: old(tramp).result_map@[cpu as int].unwrap(),
            ..*old(mmio)
        }),
        old(mmio).is_write ==> *final(mmio) == *old(mmio),
{
    let slot = tramp.result_map[cpu as usize];
    tramp.result_map.set(cpu as usize, None);
    if !mmio.is_write {
        match slot {
            Some(v) => {
                mmio.value = v;
            },
            None => {
                // excluded by the caller's obligation: a suspended CPU is
                // woken only after its slot was written
            },
        }
    }
}

/// The root side of the trampoline, run in SGI context: drain the request
/// queue, given the backend's result for each request in order, write each
/// result into the source CPU's slot and emit the SGI that completes the
/// request — the resume kick for a cfg request, the result SGI for a
/// notify.
pub fn process_virtio_requests(tramp: &mut Trampoline, results: &Vec<u64>) -> (actions: Vec<
    SgiAction,
>)
    requires
        old(tramp).wf(),
        results@.len() == old(tramp).req_list@.len(),
    ensures
        final(tramp).wf(),
        final(tramp).req_list@ == Seq::<VirtioReq>::empty(),
        final(tramp).result_map@ == spec_apply_results(
            old(tramp).result_map@,
            old(tramp).req_list@,
            results@,
        ),
        actions@ == spec_drain_actions(old(tramp).req_list@),
{
    let ghost reqs0 = old(tramp).req_list@;
    let ghost map0 = old(tramp).result_map@;
    let mut actions: Vec<SgiAction> = Vec::new();
    let n = tramp.req_list.len();
    let mut i: usize = 0;
    proof {
        assert(reqs0.take(0) =~= Seq::<VirtioReq>::empty());
        assert(results@.take(0) =~= Seq::<u64>::empty());
        assert(spec_drain_actions(reqs0.take(0)) =~= Seq::<SgiAction>::empty());
    }
    while i < n
        invariant
            tramp.wf(),
            n == tramp.req_list@.len(),
            tramp.req_list@ == reqs0,
            results@.len() == n,
            i <= n,
            tramp.result_map@ == spec_apply_results(map0, reqs0.take(i as int), results@.take(i as int)),
            actions@ == spec_drain_actions(reqs0.take(i as int)),
        decreases n - i,
    {
        let req = tramp.req_list[i];
        let value = results[i];
        tramp.result_map.set(req.src_cpu as usize, Some(value));
        if req.is_cfg {
            actions.push(SgiAction { target_cpu: req.src_cpu, sgi_id: SGI_HV_ID });
        } else {
            actions.push(SgiAction { target_cpu: req.src_cpu, sgi_id: SGI_VIRTIO_RESULT_ID });
        }
        proof {
            assert(reqs0.take(i as int + 1) =~= reqs0.take(i as int).push(reqs0[i as int]));
            assert(results@.take(i as int + 1) =~= results@.take(i as int).push(
                results@[i as int],
            ));
            lemma_apply_results_snoc(
                map0,
                reqs0.take(i as int),
                results@.take(i as int),
                reqs0[i as int],
                results@[i as int],
            );
            assert(spec_drain_actions(reqs0.take(i as int + 1)) =~= spec_drain_actions(
                reqs0.take(i as int),
            ).push(spec_drain_actions(reqs0)[i as int]));
        }
        i = i + 1;
    }
    tramp.req_list.clear();
    proof {
        assert(reqs0.take(n as int) =~= reqs0);
        assert(results@.take(n as int) =~= results@);
    }
    actions
}

/// The non-root side of a completed notify: the root zone left the virtual
/// interrupt id of the completion in this CPU's slot; inject it into the
/// local guest. The injection result follows the list-register rules; the
/// slot keeps its value, as the next completion overwrites it.
pub fn handle_virtio_result(tramp: &Trampoline, pool: &mut LrPool, cpu: u64) -> (r: bool)
    requires
        tramp.wf(),
        old(pool).wf(),
        cpu < MAX_CPUS as u64,
        tramp.result_map@[cpu as int] is Some,
        tramp.result_map@[cpu as int].unwrap() < 1024,
    ensures
        final(pool).wf(),
        spec_inject_outcome(
            *old(pool),
            *final(pool),
            tramp.result_map@[cpu as int].unwrap(),
            false,
            r,
        ),
{
    let slot = tramp.result_map[cpu as usize];
    match slot {
        Some(irq_id) => pool.inject_irq(irq_id, false),
        None => {
            // excluded by the caller's obligation: the result SGI arrives
            // only after the slot was written
            false
        },
    }
}

} // verus!
