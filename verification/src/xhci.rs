//! xHCI (USB 3) host controller: capability decoding, transfer request
//! blocks, the producer side of command and transfer rings, the consumer
//! side of the event ring, HID boot-protocol reports and the table of
//! enumerated devices.  Doorbell and register writes happen outside.
use vstd::prelude::*;

verus! {

/// Capability registers.
pub struct Qw {
    pub caplength: u8,
    pub _reserved: u8,
    pub hciversion: u16,
    pub hcsparams1: u32,
    pub hcsparams2: u32,
    pub hcsparams3: u32,
    pub hccparams1: u32,
    pub dboff: u32,
    pub rtsoff: u32,
    pub hccparams2: u32,
}

impl Qw {
    /// Device slots supported (HCSPARAMS1 bits 0..8).
    pub fn max_slots(&self) -> (n: u8)
        ensures
            n == self.hcsparams1 % 0x100,
    {
        (self.hcsparams1 % 0x100) as u8
    }

    /// Interrupters supported (HCSPARAMS1 bits 8..19).
    pub fn qov(&self) -> (n: u16)
        ensures
            n == (self.hcsparams1 / 0x100) % 0x800,
    {
        ((self.hcsparams1 / 0x100) % 0x800) as u16
    }

    /// Root hub ports (HCSPARAMS1 bits 24..32).
    pub fn max_ports(&self) -> (n: u8)
        ensures
            n == self.hcsparams1 / 0x100_0000,
    {
        (self.hcsparams1 / 0x100_0000) as u8
    }

    /// Bytes per context: 64 when HCCPARAMS1 bit 2 (CSZ) is set, else 32.
    pub fn context_size(&self) -> (n: usize)
        ensures
            n == (if (self.hccparams1 / 4) % 2 == 1 { 64int } else { 32int }),
    {
        if (self.hccparams1 / 4) % 2 == 1 {
            64
        } else {
            32
        }
    }
}

/// Operational registers.
pub struct Ags {
    pub usbcmd: u32,
    pub usbsts: u32,
    pub pagesize: u32,
    pub _reserved1: [u32; 2],
    pub dnctrl: u32,
    pub crcr: u64,
    pub _reserved2: [u32; 4],
    pub dcbaap: u64,
    pub config: u32,
}

/// Registers of one root hub port.
#[derive(Clone, Copy)]
pub struct Qx {
    pub portsc: u32,
    pub portpmsc: u32,
    pub portli: u32,
    pub porthlpmc: u32,
}

/// TRB types used here.
pub const TRB_NORMAL: u32 = 1;
pub const TRB_SETUP: u32 = 2;
pub const TRB_DATA: u32 = 3;
pub const TRB_STATUS: u32 = 4;
pub const TRB_LINK: u32 = 6;
pub const TRB_ENABLE_SLOT: u32 = 9;
pub const TRB_ADDRESS_DEVICE: u32 = 11;
pub const TRB_CONFIGURE_EP: u32 = 12;
pub const TRB_TRANSFER_EVENT: u32 = 32;
pub const TRB_COMMAND_COMPLETION: u32 = 33;

/// Transfer request block.
#[derive(Clone, Copy)]
pub struct Trb {
    pub parameter: u64,
    pub status: u32,
    pub control: u32,
}

/// Type field of a TRB's control word (bits 10..16).
pub open spec fn trb_type(control: u32) -> int {
    (control as int / 1024) % 64
}

/// Cycle bit of a TRB's control word (bit 0).
pub open spec fn trb_cycle(control: u32) -> bool {
    control % 2 == 1
}

impl Trb {
    pub fn new() -> (t: Self)
        ensures
            t.parameter == 0 && t.status == 0 && t.control == 0,
    {
        Trb { parameter: 0, status: 0, control: 0 }
    }

    /// Link TRB pointing at `next_ring_phys`, with its cycle bit set.
    pub fn link(next_ring_phys: u64) -> (t: Self)
        ensures
            t.parameter == next_ring_phys,
            t.status == 0,
            t.control == 0x1801,
            trb_type(t.control) == TRB_LINK,
            trb_cycle(t.control),
    {
        Trb { parameter: next_ring_phys, status: 0, control: TRB_LINK * 1024 + 1 }
    }

    /// The TRB's type.
    pub fn cer(&self) -> (n: u8)
        ensures
            n == trb_type(self.control),
    {
        ((self.control / 1024) % 64) as u8
    }

    /// The TRB's cycle bit.
    pub fn qce(&self) -> (b: bool)
        ensures
            b == trb_cycle(self.control),
    {
        self.control % 2 == 1
    }
}

/// Control word with its cycle bit forced to `cycle`.
pub open spec fn with_cycle(control: u32, cycle: bool) -> u32 {
    if cycle {
        control | 1
    } else {
        control & !1u32
    }
}

/// Control word of the link TRB written at the end of a ring: type Link,
/// toggle-cycle set, cycle bit as the producer's.
pub open spec fn link_control(cycle: bool) -> u32 {
    if cycle {
        0x1803
    } else {
        0x1802
    }
}

/// Slots in a ring; the last one holds the link back to the start.
pub const RING_SLOTS: usize = 256;

/// A producer ring: 256 TRBs, the next slot to fill and the producer's
/// cycle state.
pub struct TransferRing {
    pub trbs: Vec<Trb>,
    pub phys: u64,
    pub enqueue: usize,
    pub cycle: bool,
}

impl TransferRing {
    /// The slot to fill is always before the link slot.
    pub open spec fn wf(&self) -> bool {
        self.trbs@.len() == RING_SLOTS && self.enqueue < 255
    }

    /// An empty ring at `phys`, starting with cycle state 1.
    pub fn new(phys: u64) -> (r: Self)
        ensures
            r.wf(),
            r.phys == phys,
            r.enqueue == 0,
            r.cycle,
            forall|i: int| 0 <= i < 256 ==> #[trigger] r.trbs@[i] == Trb::new_spec(),
    {
        let mut trbs: Vec<Trb> = Vec::new();
        let mut i: usize = 0;
        while i < RING_SLOTS
            invariant
                i <= RING_SLOTS,
                trbs@.len() == i,
                forall|k: int| 0 <= k < i ==> #[trigger] trbs@[k] == Trb::new_spec(),
            decreases RING_SLOTS - i,
        {
            trbs.push(Trb::new());
            i = i + 1;
        }
        TransferRing { trbs, phys, enqueue: 0, cycle: true }
    }

    /// Writes `t` with the producer's cycle bit into the next slot; on
    /// reaching the link slot, writes the link TRB, toggles the cycle state
    /// and starts over.
    pub fn enqueue_trb(&mut self, t: Trb)
        requires
            old(self).wf(),
        ensures
            final(self).wf(),
            final(self).phys == old(self).phys,
            ring_enqueued(old(self).trbs@, old(self).enqueue, old(self).cycle, old(self).phys, t,
                final(self).trbs@, final(self).enqueue, final(self).cycle),
    {
        let (e, c) = ring_put(&mut self.trbs, self.enqueue, self.cycle, self.phys, t);
        self.enqueue = e;
        self.cycle = c;
    }
}

impl Trb {
    pub open spec fn new_spec() -> Trb {
        Trb { parameter: 0, status: 0, control: 0 }
    }
}

/// What one enqueue does to a ring's slots, position and cycle state.
pub open spec fn ring_enqueued(
    trbs: Seq<Trb>,
    enq: usize,
    cycle: bool,
    phys: u64,
    t: Trb,
    trbs2: Seq<Trb>,
    enq2: usize,
    cycle2: bool,
) -> bool {
    let put = Trb { parameter: t.parameter, status: t.status, control: with_cycle(t.control, cycle) };
    let step = ring_step(enq as int, cycle);
    &&& enq2 == step.0 && cycle2 == step.1
    &&& trbs2.len() == trbs.len()
    &&& trbs2[enq as int] == put
    &&& enq + 1 >= 255 ==> trbs2[255] == (Trb {
        parameter: phys,
        status: trbs[255].status,
        control: link_control(cycle),
    })
    &&& forall|i: int|
        0 <= i < trbs.len() && i != enq && !(enq + 1 >= 255 && i == 255) ==> #[trigger] trbs2[i]
            == trbs[i]
}

/// Position and cycle state after one enqueue.
pub open spec fn ring_step(enq: int, cycle: bool) -> (int, bool) {
    if enq + 1 >= 255 {
        (0, !cycle)
    } else {
        (enq + 1, cycle)
    }
}

/// Position and cycle state after `n` enqueues.
pub open spec fn ring_steps(n: nat, enq: int, cycle: bool) -> (int, bool)
    decreases n,
{
    if n == 0 {
        (enq, cycle)
    } else {
        let s = ring_step(enq, cycle);
        ring_steps((n - 1) as nat, s.0, s.1)
    }
}

fn ring_put(trbs: &mut Vec<Trb>, enq: usize, cycle: bool, phys: u64, t: Trb) -> (r: (usize, bool))
    requires
        old(trbs)@.len() == RING_SLOTS,
        enq < 255,
    ensures
        r.0 < 255,
        ring_enqueued(old(trbs)@, enq, cycle, phys, t, final(trbs)@, r.0, r.1),
{
    let mut put = t;
    if cycle {
        put.control = put.control | 1;
    } else {
        put.control = put.control & !1u32;
    }
    trbs.set(enq, put);
    let next = enq + 1;
    if next >= 255 {
        let old_status = trbs[255].status;
        let ctl: u32 = if cycle { 0x1803 } else { 0x1802 };
        trbs.set(255, Trb { parameter: phys, status: old_status, control: ctl });
        (0, !cycle)
    } else {
        (next, cycle)
    }
}

/// Within one lap the position advances by one per enqueue and the cycle
/// state holds.
proof fn lemma_ring_lap(n: nat, enq: int, cycle: bool)
    requires
        0 <= enq,
        enq + n <= 254,
    ensures
        ring_steps(n, enq, cycle) == (enq + n, cycle),
    decreases n,
{
    if n > 0 {
        lemma_ring_lap((n - 1) as nat, enq + 1, cycle);
    }
}

proof fn lemma_ring_steps_split(a: nat, b: nat, enq: int, cycle: bool)
    ensures
        ring_steps(a + b, enq, cycle) == {
            let s = ring_steps(a, enq, cycle);
            ring_steps(b, s.0, s.1)
        },
    decreases a,
{
    if a > 0 {
        let s = ring_step(enq, cycle);
        assert((a + b - 1) as nat == ((a - 1) as nat + b) as nat);
        lemma_ring_steps_split((a - 1) as nat, b, s.0, s.1);
    }
}

/// Ring law: 255 enqueues (one per usable slot) bring the producer back to
/// the same slot with its cycle state toggled, so the consumer can tell the
/// new lap's TRBs from the old.
pub proof fn law_ring_lap_toggles_cycle(enq: int, cycle: bool)
    requires
        0 <= enq < 255,
    ensures
        ring_steps(255, enq, cycle) == (enq, !cycle),
{
    let first = (254 - enq) as nat;
    lemma_ring_lap(first, enq, cycle);
    lemma_ring_steps_split(first, (255 - first) as nat, enq, cycle);
    let rest = (255 - first) as nat;
    assert(rest == (enq + 1) as nat);
    assert(ring_steps(rest, 254, cycle) == ring_steps((rest - 1) as nat, 0, !cycle));
    lemma_ring_lap((rest - 1) as nat, 0, !cycle);
}

/// Command ring: 256 TRBs, the last one the link back.
pub struct Xh {
    pub trbs: Vec<Trb>,
}

/// Event ring segment table entry.
#[derive(Clone, Copy)]
pub struct Yk {
    pub ring_base: u64,
    pub dxu: u16,
    pub _reserved: [u16; 3],
}

/// Interrupter register set.
pub struct Kz {
    pub iman: u32,
    pub imod: u32,
    pub erstsz: u32,
    pub _reserved: u32,
    pub erstba: u64,
    pub erdp: u64,
}

/// Slot context.
#[derive(Clone, Copy)]
pub struct SlotContext {
    pub data: [u32; 8],
}

/// Endpoint context.
#[derive(Clone, Copy)]
pub struct EndpointContext {
    pub data: [u32; 8],
}

/// Output device context: the slot and its 31 endpoints.
pub struct Ol {
    pub slot: SlotContext,
    pub endpoints: [EndpointContext; 31],
}

/// Input context: control flags, then slot and endpoints.
pub struct Axy {
    pub input_control: Alu,
    pub slot: SlotContext,
    pub endpoints: [EndpointContext; 31],
}

/// Input control context.
#[derive(Clone, Copy)]
pub struct Alu {
    pub drop_flags: u32,
    pub add_flags: u32,
    pub _reserved: [u32; 6],
}

/// An enumerated USB device.
#[derive(Debug)]
pub struct Jh {
    pub slot_id: u8,
    pub port: u8,
    pub speed: u8,
    pub vendor_id: u16,
    pub product_id: u16,
    pub class: u8,
    pub subclass: u8,
    pub protocol: u8,
    pub num_configs: u8,
    pub max_packet_size: u16,
    pub manufacturer: String,
    pub product: String,
}

/// Same record, strings compared by content.
pub open spec fn same_usb_device(a: Jh, b: Jh) -> bool {
    &&& a.slot_id == b.slot_id && a.port == b.port && a.speed == b.speed
    &&& a.vendor_id == b.vendor_id && a.product_id == b.product_id
    &&& a.class == b.class && a.subclass == b.subclass && a.protocol == b.protocol
    &&& a.num_configs == b.num_configs && a.max_packet_size == b.max_packet_size
    &&& a.manufacturer@ == b.manufacturer@ && a.product@ == b.product@
}

impl Jh {
    pub fn copy(&self) -> (d: Jh)
        ensures
            same_usb_device(d, *self),
    {
        Jh {
            slot_id: self.slot_id,
            port: self.port,
            speed: self.speed,
            vendor_id: self.vendor_id,
            product_id: self.product_id,
            class: self.class,
            subclass: self.subclass,
            protocol: self.protocol,
            num_configs: self.num_configs,
            max_packet_size: self.max_packet_size,
            manufacturer: self.manufacturer.clone(),
            product: self.product.clone(),
        }
    }
}

/// Controller state: register locations (as addresses), the device context
/// base array, command and event rings with their positions and cycle
/// states, and the enumerated devices.
pub struct An {
    pub base_phys: u64,
    pub base_virt: u64,
    pub cap_regs: u64,
    pub glc: u64,
    pub doorbell_base: u64,
    pub runtime_base: u64,
    pub dcbaa: Vec<u64>,
    pub fqt: u64,
    pub cmd_ring: Xh,
    pub cmd_ring_phys: u64,
    pub cmd_enqueue: usize,
    pub cmd_cycle: bool,
    pub event_ring: Vec<Trb>,
    pub event_ring_phys: u64,
    pub fvf: Vec<Yk>,
    pub fvg: u64,
    pub event_dequeue: usize,
    pub event_cycle: bool,
    pub device_contexts: Vec<Option<Box<Ol>>>,
    pub devices: Vec<Jh>,
    pub max_slots: u8,
    pub max_ports: u8,
    pub context_size: usize,
    pub initialized: bool,
}

impl An {
    /// Both rings hold 256 TRBs and their positions are in range.
    pub open spec fn rings_wf(&self) -> bool {
        &&& self.cmd_ring.trbs@.len() == RING_SLOTS && self.cmd_enqueue < 255
        &&& self.event_ring@.len() == RING_SLOTS && self.event_dequeue < RING_SLOTS
    }
}

/// Places a command on the command ring (the doorbell is rung by the
/// caller).
pub fn eap(ar: &mut An, t: Trb)
    requires
        old(ar).rings_wf(),
    ensures
        final(ar).rings_wf(),
        final(ar).event_ring@ == old(ar).event_ring@,
        final(ar).event_dequeue == old(ar).event_dequeue,
        final(ar).event_cycle == old(ar).event_cycle,
        final(ar).devices@ == old(ar).devices@,
        final(ar).cmd_ring_phys == old(ar).cmd_ring_phys,
        ring_enqueued(old(ar).cmd_ring.trbs@, old(ar).cmd_enqueue, old(ar).cmd_cycle, old(ar).cmd_ring_phys,
            t, final(ar).cmd_ring.trbs@, final(ar).cmd_enqueue, final(ar).cmd_cycle),
{
    let (e, c) = ring_put(&mut ar.cmd_ring.trbs, ar.cmd_enqueue, ar.cmd_cycle, ar.cmd_ring_phys, t);
    ar.cmd_enqueue = e;
    ar.cmd_cycle = c;
}

/// Takes the next event when its cycle bit matches the consumer's cycle
/// state (the hardware has written it), advancing the dequeue position and
/// toggling the cycle state at the end of the ring; otherwise leaves the
/// ring as it is.
pub fn next_event(ar: &mut An) -> (r: Option<Trb>)
    requires
        old(ar).rings_wf(),
    ensures
        final(ar).rings_wf(),
        final(ar).event_ring@ == old(ar).event_ring@,
        final(ar).cmd_ring.trbs@ == old(ar).cmd_ring.trbs@,
        final(ar).cmd_enqueue == old(ar).cmd_enqueue,
        final(ar).cmd_cycle == old(ar).cmd_cycle,
        final(ar).devices@ == old(ar).devices@,
        final(ar).event_ring_phys == old(ar).event_ring_phys,
        ({
            let t = old(ar).event_ring@[old(ar).event_dequeue as int];
            if trb_cycle(t.control) == old(ar).event_cycle {
                &&& r == Some(t)
                &&& old(ar).event_dequeue + 1 >= 256 ==> final(ar).event_dequeue == 0 && final(ar).event_cycle
                    == !old(ar).event_cycle
                &&& old(ar).event_dequeue + 1 < 256 ==> final(ar).event_dequeue == old(ar).event_dequeue + 1
                    && final(ar).event_cycle == old(ar).event_cycle
            } else {
                r is None && final(ar).event_dequeue == old(ar).event_dequeue && final(ar).event_cycle
                    == old(ar).event_cycle
            }
        }),
{
    let t = ar.event_ring[ar.event_dequeue];
    if (t.control % 2 == 1) == ar.event_cycle {
        ar.event_dequeue = ar.event_dequeue + 1;
        if ar.event_dequeue >= RING_SLOTS {
            ar.event_dequeue = 0;
            ar.event_cycle = !ar.event_cycle;
        }
        Some(t)
    } else {
        None
    }
}

/// Value to write to the interrupter's dequeue pointer register: the
/// address of the next event slot, with the handler-busy bit (bit 3) set.
pub fn erdp_value(ar: &An) -> (v: u64)
    requires
        ar.rings_wf(),
        ar.event_ring_phys + 4096 <= u64::MAX,
    ensures
        v == ((ar.event_ring_phys + ar.event_dequeue * 16) as u64 | 8),
{
    (ar.event_ring_phys + (ar.event_dequeue as u64) * 16) | 8
}

/// Completion code, slot and command address of a command completion
/// event; `None` for other events.
pub fn command_completion(t: &Trb) -> (r: Option<(u8, u8, u64)>)
    ensures
        trb_type(t.control) == TRB_COMMAND_COMPLETION ==> r == Some(
            ((t.status / 0x100_0000) as u8, (t.control / 0x100_0000) as u8, t.parameter),
        ),
        trb_type(t.control) != TRB_COMMAND_COMPLETION ==> r is None,
{
    if (t.control / 1024) % 64 == TRB_COMMAND_COMPLETION {
        Some(((t.status / 0x100_0000) as u8, (t.control / 0x100_0000) as u8, t.parameter))
    } else {
        None
    }
}

/// Completion code, residual length and endpoint of a transfer event; for
/// a command completion, its code, no length and its slot; `None` for
/// other events.
pub fn transfer_event(t: &Trb) -> (r: Option<(u8, u32, u8)>)
    ensures
        trb_type(t.control) == TRB_TRANSFER_EVENT ==> r == Some(
            (
                (t.status / 0x100_0000) as u8,
                t.status % 0x100_0000,
                ((t.control / 0x1_0000) % 32) as u8,
            ),
        ),
        trb_type(t.control) == TRB_COMMAND_COMPLETION ==> r == Some(
            ((t.status / 0x100_0000) as u8, 0u32, (t.control / 0x100_0000) as u8),
        ),
        trb_type(t.control) != TRB_TRANSFER_EVENT && trb_type(t.control) != TRB_COMMAND_COMPLETION
            ==> r is None,
{
    let ty = (t.control / 1024) % 64;
    if ty == TRB_TRANSFER_EVENT {
        Some(((t.status / 0x100_0000) as u8, t.status % 0x100_0000, ((t.control / 0x1_0000) % 32) as u8))
    } else if ty == TRB_COMMAND_COMPLETION {
        Some(((t.status / 0x100_0000) as u8, 0, (t.control / 0x100_0000) as u8))
    } else {
        None
    }
}

/// Virtual address of physical address `phys` in the higher-half direct
/// map at offset `hhdm` (wrapping).
pub fn wk(phys: u64, hhdm: u64) -> (v: u64)
    ensures
        v as int == (phys as int + hhdm as int) % 0x1_0000_0000_0000_0000,
{
    phys.wrapping_add(hhdm)
}

/// Whether the controller was set up.
pub fn is_initialized(ctrl: &Option<An>) -> (b: bool)
    ensures
        b == match ctrl {
            Some(c) => c.initialized,
            None => false,
        },
{
    match ctrl {
        Some(c) => c.initialized,
        None => false,
    }
}

/// Number of enumerated devices.
pub fn aqg(ctrl: &Option<An>) -> (n: usize)
    ensures
        n == match ctrl {
            Some(c) => c.devices@.len(),
            None => 0,
        },
{
    match ctrl {
        Some(c) => c.devices.len(),
        None => 0,
    }
}

/// Copies of all enumerated devices.
pub fn adz(ctrl: &Option<An>) -> (v: Vec<Jh>)
    ensures
        match ctrl {
            Some(c) => v@.len() == c.devices@.len() && forall|i: int|
                0 <= i < v@.len() ==> same_usb_device(#[trigger] v@[i], c.devices@[i]),
            None => v@.len() == 0,
        },
{
    let mut v: Vec<Jh> = Vec::new();
    match ctrl {
        Some(c) => {
            let mut i: usize = 0;
            while i < c.devices.len()
                invariant
                    i <= c.devices@.len(),
                    v@.len() == i,
                    forall|k: int| 0 <= k < i ==> same_usb_device(#[trigger] v@[k], c.devices@[k]),
                decreases c.devices@.len() - i,
            {
                v.push(c.devices[i].copy());
                i = i + 1;
            }
        },
        None => {},
    }
    v
}

/// The first device record in slot `slot_id`.
pub fn qhq(ctrl: &Option<An>, slot_id: u8) -> (r: Option<Jh>)
    ensures
        match ctrl {
            None => r is None,
            Some(c) => match r {
                Some(d) => exists|i: int|
                    0 <= i < c.devices@.len() && c.devices@[i].slot_id == slot_id && (forall|j: int|
                        0 <= j < i ==> c.devices@[j].slot_id != slot_id) && same_usb_device(d, c.devices@[i]),
                None => forall|j: int| 0 <= j < c.devices@.len() ==> c.devices@[j].slot_id != slot_id,
            },
        },
{
    match ctrl {
        None => None,
        Some(c) => match find_slot(&c.devices, slot_id) {
            Some(i) => Some(c.devices[i].copy()),
            None => None,
        },
    }
}

fn find_slot(devices: &Vec<Jh>, slot_id: u8) -> (r: Option<usize>)
    ensures
        match r {
            Some(i) => i < devices@.len() && devices@[i as int].slot_id == slot_id && forall|j: int|
                0 <= j < i ==> devices@[j].slot_id != slot_id,
            None => forall|j: int| 0 <= j < devices@.len() ==> devices@[j].slot_id != slot_id,
        },
{
    let mut i: usize = 0;
    while i < devices.len()
        invariant
            i <= devices@.len(),
            forall|j: int| 0 <= j < i ==> devices@[j].slot_id != slot_id,
        decreases devices@.len() - i,
    {
        if devices[i].slot_id == slot_id {
            return Some(i);
        }
        i = i + 1;
    }
    None
}

/// ASCII for a HID boot-keyboard usage code under the given modifier
/// byte (either Shift: bits 1 or 5); 0 when the key has none.
pub open spec fn hid_ascii(keycode: u8, modifiers: u8) -> u8 {
    let shift = (modifiers & 0x22) != 0;
    if 0x04 <= keycode <= 0x1D {
        let base = (0x61 + (keycode - 0x04)) as u8;
        if shift { (base - 32) as u8 } else { base }
    } else if 0x1E <= keycode <= 0x26 {
        if shift {
            if keycode == 0x1E { 0x21 } else if keycode == 0x1F { 0x40 } else if keycode == 0x20 { 0x23 }
            else if keycode == 0x21 { 0x24 } else if keycode == 0x22 { 0x25 } else if keycode == 0x23 { 0x5E }
            else if keycode == 0x24 { 0x26 } else if keycode == 0x25 { 0x2A } else { 0x28 }
        } else {
            (0x31 + (keycode - 0x1E)) as u8
        }
    } else if keycode == 0x27 { if shift { 0x29 } else { 0x30 } }
    else if keycode == 0x28 { 0x0D }
    else if keycode == 0x29 { 0x1B }
    else if keycode == 0x2A { 0x08 }
    else if keycode == 0x2B { 0x09 }
    else if keycode == 0x2C { 0x20 }
    else if keycode == 0x2D { if shift { 0x5F } else { 0x2D } }
    else if keycode == 0x2E { if shift { 0x2B } else { 0x3D } }
    else if keycode == 0x2F { if shift { 0x7B } else { 0x5B } }
    else if keycode == 0x30 { if shift { 0x7D } else { 0x5D } }
    else if keycode == 0x31 { if shift { 0x7C } else { 0x5C } }
    else if keycode == 0x33 { if shift { 0x3A } else { 0x3B } }
    else if keycode == 0x34 { if shift { 0x22 } else { 0x27 } }
    else if keycode == 0x35 { if shift { 0x7E } else { 0x60 } }
    else if keycode == 0x36 { if shift { 0x3C } else { 0x2C } }
    else if keycode == 0x37 { if shift { 0x3E } else { 0x2E } }
    else if keycode == 0x38 { if shift { 0x3F } else { 0x2F } }
    else { 0 }
}

/// Keyboard-map law: each character comes from one key. Two different
/// usage codes never give the same non-zero character, whatever the
/// modifiers; so the map, shifted or not, is one-to-one on the keys that
/// type something.
pub proof fn law_hid_keys_distinct(a: u8, b: u8, ma: u8, mb: u8)
    requires
        a != b,
        hid_ascii(a, ma) != 0,
    ensures
        hid_ascii(a, ma) != hid_ascii(b, mb),
{
    let sa = (ma & 0x22) != 0;
    let sb = (mb & 0x22) != 0;
    assert(hid_ascii(a, ma) == hid_ascii(a, if sa { 0x02u8 } else { 0u8 })) by {
        assert(((0x02u8 & 0x22u8) != 0) && ((0u8 & 0x22u8) == 0)) by (bit_vector);
    }
    assert(hid_ascii(b, mb) == hid_ascii(b, if sb { 0x02u8 } else { 0u8 })) by {
        assert(((0x02u8 & 0x22u8) != 0) && ((0u8 & 0x22u8) == 0)) by (bit_vector);
    }
}

/// Keyboard-layout law (US): letters type a to z in usage order and Shift
/// gives the same letter in upper case; the number row types 1 to 9 then 0;
/// the comma and period keys type ',' and '.', and Shift turns them into
/// '<' and '>'; a usage with no character types 0.
pub proof fn law_hid_us_layout(k: u8, m: u8)
    ensures
        0x04 <= k <= 0x1D ==> hid_ascii(k, 0) == 0x61 + (k - 0x04),
        0x04 <= k <= 0x1D && (m & 0x22) != 0 ==> hid_ascii(k, m) + 32 == hid_ascii(k, 0),
        0x1E <= k <= 0x26 ==> hid_ascii(k, 0) == 0x31 + (k - 0x1E),
        hid_ascii(0x27, 0) == 0x30,
        hid_ascii(0x36, 0) == 0x2C && hid_ascii(0x37, 0) == 0x2E,
        hid_ascii(0x36, 0x02) == 0x3C && hid_ascii(0x37, 0x02) == 0x3E,
        hid_ascii(0x2C, m) == 0x20,
        k > 0x38 || k < 0x04 || k == 0x32 ==> hid_ascii(k, m) == 0,
{
    assert(((0x02u8 & 0x22u8) != 0) && ((0u8 & 0x22u8) == 0)) by (bit_vector);
}

/// ASCII for a boot-keyboard key.
pub fn mli(keycode: u8, modifiers: u8) -> (c: u8)
    ensures
        c == hid_ascii(keycode, modifiers),
{
    let shift = (modifiers & 0x22) != 0;
    if 0x04 <= keycode && keycode <= 0x1D {
        let base = 0x61 + (keycode - 0x04);
        if shift { base - 32 } else { base }
    } else if 0x1E <= keycode && keycode <= 0x26 {
        if shift {
            match keycode {
                0x1E => 0x21,
                0x1F => 0x40,
                0x20 => 0x23,
                0x21 => 0x24,
                0x22 => 0x25,
                0x23 => 0x5E,
                0x24 => 0x26,
                0x25 => 0x2A,
                _ => 0x28,
            }
        } else {
            0x31 + (keycode - 0x1E)
        }
    } else {
        match keycode {
            0x27 => if shift { 0x29 } else { 0x30 },
            0x28 => 0x0D,
            0x29 => 0x1B,
            0x2A => 0x08,
            0x2B => 0x09,
            0x2C => 0x20,
            0x2D => if shift { 0x5F } else { 0x2D },
            0x2E => if shift { 0x2B } else { 0x3D },
            0x2F => if shift { 0x7B } else { 0x5B },
            0x30 => if shift { 0x7D } else { 0x5D },
            0x31 => if shift { 0x7C } else { 0x5C },
            0x33 => if shift { 0x3A } else { 0x3B },
            0x34 => if shift { 0x22 } else { 0x27 },
            0x35 => if shift { 0x7E } else { 0x60 },
            0x36 => if shift { 0x3C } else { 0x2C },
            0x37 => if shift { 0x3E } else { 0x2E },
            0x38 => if shift { 0x3F } else { 0x2F },
            _ => 0,
        }
    }
}

/// Characters typed by a boot-keyboard report: for each of the six key
/// slots (bytes 2..8) holding a key with an ASCII meaning, that character.
pub open spec fn report_chars(report: Seq<u8>, upto: int) -> Seq<u8>
    decreases upto,
{
    if upto <= 2 {
        Seq::<u8>::empty()
    } else {
        let prev = report_chars(report, upto - 1);
        let k = report[upto - 1];
        let c = hid_ascii(k, report[0]);
        if k != 0 && c != 0 {
            prev.push(c)
        } else {
            prev
        }
    }
}

/// Characters typed by a boot-keyboard report (none for a short report).
pub fn keyboard_report_chars(report: &[u8]) -> (v: Vec<u8>)
    ensures
        report@.len() < 8 ==> v@.len() == 0,
        report@.len() >= 8 ==> v@ == report_chars(report@, 8),
{
    let mut v: Vec<u8> = Vec::new();
    if report.len() < 8 {
        return v;
    }
    let mut i: usize = 2;
    while i < 8
        invariant
            2 <= i <= 8,
            report@.len() >= 8,
            v@ == report_chars(report@, i as int),
        decreases 8 - i,
    {
        let k = report[i];
        if k != 0 {
            let c = mli(k, report[0]);
            if c != 0 {
                v.push(c);
            }
        }
        i = i + 1;
    }
    v
}

/// Movement, buttons and wheel of a boot-mouse report.
#[derive(Clone, Copy, Debug, PartialEq, Eq, Structural)]
pub struct MouseReport {
    pub dx: i32,
    pub dy: i32,
    pub left: bool,
    pub right: bool,
    pub middle: bool,
    pub scroll: i8,
}

/// Byte `b` read as a two's-complement signed value.
pub open spec fn signed8(b: u8) -> int {
    if b < 128 {
        b as int
    } else {
        b as int - 256
    }
}

/// The mouse report in `report` (at least three bytes; the wheel byte is
/// optional).
pub fn parse_mouse_report(report: &[u8]) -> (r: Option<MouseReport>)
    ensures
        report@.len() < 3 ==> r is None,
        report@.len() >= 3 ==> r == Some(
            MouseReport {
                dx: signed8(report@[1]) as i32,
                dy: signed8(report@[2]) as i32,
                left: report@[0] % 2 == 1,
                right: (report@[0] / 2) % 2 == 1,
                middle: (report@[0] / 4) % 2 == 1,
                scroll: if report@.len() >= 4 { signed8(report@[3]) as i8 } else { 0i8 },
            },
        ),
{
    if report.len() < 3 {
        return None;
    }
    let b = report[0];
    let dx: i32 = if report[1] < 128 { report[1] as i32 } else { report[1] as i32 - 256 };
    let dy: i32 = if report[2] < 128 { report[2] as i32 } else { report[2] as i32 - 256 };
    let scroll: i8 = if report.len() >= 4 {
        if report[3] < 128 { report[3] as i8 } else { (report[3] as i32 - 256) as i8 }
    } else {
        0
    };
    Some(MouseReport { dx, dy, left: b % 2 == 1, right: (b / 2) % 2 == 1, middle: (b / 4) % 2 == 1, scroll })
}

/// What the port scan does with a port, from its status and control word.
#[derive(Clone, Copy, Debug, PartialEq, Eq, Structural)]
pub enum PortAction {
    /// Nothing attached.
    Empty,
    /// A device on an enabled port: acknowledge the change bits (write
    /// the value) and record a device of this speed.
    Record { ack: u32, speed: u8 },
    /// A device on a disabled port: acknowledge the change bits, then
    /// start a port reset (write `reset`) and record the device if the
    /// port comes up enabled.
    Reset { ack: u32, reset: u32, speed: u8 },
}

/// The port scan's decision for a PORTSC value: connected (bit 0) or not;
/// enabled (bit 1) or to be reset (bit 4, with the enable bit cleared so
/// that writing it does not disable the port); the change bits 17 and 21
/// acknowledged; the speed in bits 10..14.
pub fn port_action(portsc: u32) -> (a: PortAction)
    ensures
        a == (if portsc % 2 == 0 {
            PortAction::Empty
        } else if (portsc / 2) % 2 == 1 {
            PortAction::Record { ack: portsc | 0x0022_0000, speed: ((portsc / 0x400) % 16) as u8 }
        } else {
            PortAction::Reset { ack: portsc | 0x0022_0000, reset: (portsc & !2u32) | 0x10, speed: ((portsc / 0x400) % 16) as u8 }
        }),
{
    if portsc % 2 == 0 {
        PortAction::Empty
    } else {
        let speed = ((portsc / 0x400) % 16) as u8;
        if (portsc / 2) % 2 == 1 {
            PortAction::Record { ack: portsc | 0x0022_0000, speed }
        } else {
            PortAction::Reset { ack: portsc | 0x0022_0000, reset: (portsc & !2u32) | 0x10, speed }
        }
    }
}

/// Whether a port reset has finished: the reset bit (4) clear and the
/// reset-change bit (21) set.
pub fn port_reset_done(portsc: u32) -> (b: bool)
    ensures
        b == ((portsc / 0x10) % 2 == 0 && (portsc / 0x20_0000) % 2 == 1),
{
    (portsc / 0x10) % 2 == 0 && (portsc / 0x20_0000) % 2 == 1
}

/// Whether a port came up enabled (bit 1) after its reset.
pub fn port_enabled(portsc: u32) -> (b: bool)
    ensures
        b == ((portsc / 2) % 2 == 1),
{
    (portsc / 2) % 2 == 1
}

/// One step of the walk over the extended capabilities, looking for the
/// legacy-support capability (id 1).
#[derive(Clone, Copy, Debug, PartialEq, Eq, Structural)]
pub enum LegacyAction {
    /// The capability is BIOS-owned (bit 16): write `request` (the OS-owned
    /// request, bit 24, set) and wait for the BIOS to let go.
    Handoff { request: u32 },
    /// The capability is already the OS's: nothing to do.
    AlreadyOwned,
    /// Another capability: go on `next` dwords further.
    Next { next: u32 },
    /// Another capability and the last one.
    End,
}

/// The walk's decision on a capability header word (id in bits 0..8,
/// next pointer in dwords in bits 8..16).
pub fn legacy_step(cap_word: u32) -> (a: LegacyAction)
    ensures
        a == (if cap_word % 256 == 1 {
            if (cap_word / 0x10000) % 2 == 1 {
                LegacyAction::Handoff { request: cap_word | 0x100_0000 }
            } else {
                LegacyAction::AlreadyOwned
            }
        } else if (cap_word / 256) % 256 == 0 {
            LegacyAction::End
        } else {
            LegacyAction::Next { next: (cap_word / 256) % 256 }
        }),
{
    if cap_word % 256 == 1 {
        if (cap_word / 0x10000) % 2 == 1 {
            LegacyAction::Handoff { request: cap_word | 0x100_0000 }
        } else {
            LegacyAction::AlreadyOwned
        }
    } else if (cap_word / 256) % 256 == 0 {
        LegacyAction::End
    } else {
        LegacyAction::Next { next: (cap_word / 256) % 256 }
    }
}

/// Whether the BIOS has let go of the controller (bit 16 clear).
pub fn bios_released(cap_word: u32) -> (b: bool)
    ensures
        b == ((cap_word / 0x10000) % 2 == 0),
{
    (cap_word / 0x10000) % 2 == 0
}

/// The capability word that takes the controller from a BIOS that did not
/// answer: BIOS-owned cleared, OS-owned set.
pub fn forced_ownership(cap_word: u32) -> (w: u32)
    ensures
        w == ((cap_word & !0x1_0000u32) | 0x100_0000),
{
    (cap_word & !0x1_0000u32) | 0x100_0000
}

/// Number of scratchpad buffers the controller asks for: bits 21..26 of
/// HCSPARAMS2 above bits 27..32.
pub fn scratchpad_count(hcsparams2: u32) -> (n: u32)
    ensures
        n == ((hcsparams2 / 0x20_0000) % 32) * 32 + (hcsparams2 / 0x800_0000) % 32,
{
    ((hcsparams2 / 0x20_0000) % 32) * 32 + (hcsparams2 / 0x800_0000) % 32
}

/// The values the controller is programmed with before it runs.
pub struct ControllerSetup {
    /// Device slots enabled (CONFIG).
    pub config: u32,
    /// Device context base address array (DCBAAP).
    pub dcbaap: u64,
    /// Command ring with its cycle state 1 (CRCR).
    pub crcr: u64,
    /// Interrupter 0: segment table size, its address, the dequeue pointer,
    /// interrupts off and no moderation.
    pub erstsz: u32,
    pub erstba: u64,
    pub erdp: u64,
    pub iman: u32,
    pub imod: u32,
    /// USBCMD: run, interrupts enabled.
    pub usbcmd: u32,
}

/// The programming of a controller with `max_slots` slots whose context
/// array, command ring, event ring and segment table are at the given
/// physical addresses.
pub fn controller_setup(max_slots: u8, dcbaa: u64, cmd_ring: u64, event_ring: u64, erst: u64) -> (c: ControllerSetup)
    ensures
        c.config == max_slots,
        c.dcbaap == dcbaa,
        c.crcr == cmd_ring | 1,
        c.erstsz == 1 && c.erstba == erst && c.erdp == event_ring,
        c.iman == 0 && c.imod == 0,
        c.usbcmd == 5,
{
    ControllerSetup {
        config: max_slots as u32,
        dcbaap: dcbaa,
        crcr: cmd_ring | 1,
        erstsz: 1,
        erstba: erst,
        erdp: event_ring,
        iman: 0,
        imod: 0,
        usbcmd: 5,
    }
}

/// A controller just programmed: an empty context array of 256 entries,
/// a command ring of 256 empty TRBs whose last is the link back to its
/// start, an event ring of 256 empty TRBs described by one 256-TRB segment,
/// both producer and consumer at slot 0 with cycle state 1, no device.
pub fn new_controller(
    base_phys: u64,
    base_virt: u64,
    cap_regs: u64,
    glc: u64,
    doorbell_base: u64,
    runtime_base: u64,
    dcbaa_phys: u64,
    cmd_ring_phys: u64,
    event_ring_phys: u64,
    erst_phys: u64,
    max_slots: u8,
    max_ports: u8,
    context_size: usize,
) -> (ar: An)
    ensures
        ar.rings_wf(),
        ar.base_phys == base_phys && ar.base_virt == base_virt && ar.cap_regs == cap_regs && ar.glc == glc,
        ar.doorbell_base == doorbell_base && ar.runtime_base == runtime_base,
        ar.dcbaa@.len() == 256 && forall|i: int| 0 <= i < 256 ==> #[trigger] ar.dcbaa@[i] == 0,
        ar.fqt == dcbaa_phys,
        ar.cmd_ring_phys == cmd_ring_phys && ar.cmd_enqueue == 0 && ar.cmd_cycle,
        forall|i: int| 0 <= i < 255 ==> #[trigger] ar.cmd_ring.trbs@[i] == Trb::new_spec(),
        ar.cmd_ring.trbs@[255] == (Trb { parameter: cmd_ring_phys, status: 0, control: 0x1801 }),
        ar.event_ring_phys == event_ring_phys && ar.event_dequeue == 0 && ar.event_cycle,
        forall|i: int| 0 <= i < 256 ==> #[trigger] ar.event_ring@[i] == Trb::new_spec(),
        ar.fvf@.len() == 1 && ar.fvf@[0].ring_base == event_ring_phys && ar.fvf@[0].dxu == 256,
        ar.fvg == erst_phys,
        ar.device_contexts@.len() == 256,
        ar.devices@.len() == 0,
        ar.max_slots == max_slots && ar.max_ports == max_ports && ar.context_size == context_size,
        ar.initialized,
{
    let mut dcbaa: Vec<u64> = Vec::new();
    let mut cmd: Vec<Trb> = Vec::new();
    let mut events: Vec<Trb> = Vec::new();
    let mut contexts: Vec<Option<Box<Ol>>> = Vec::new();
    let mut i: usize = 0;
    while i < 256
        invariant
            i <= 256,
            dcbaa@.len() == i && cmd@.len() == i && events@.len() == i && contexts@.len() == i,
            forall|k: int| 0 <= k < i ==> #[trigger] dcbaa@[k] == 0,
            forall|k: int| 0 <= k < i ==> #[trigger] cmd@[k] == Trb::new_spec(),
            forall|k: int| 0 <= k < i ==> #[trigger] events@[k] == Trb::new_spec(),
        decreases 256 - i,
    {
        dcbaa.push(0);
        cmd.push(Trb::new());
        events.push(Trb::new());
        contexts.push(None);
        i = i + 1;
    }
    cmd.set(255, Trb::link(cmd_ring_phys));
    let mut erst: Vec<Yk> = Vec::new();
    erst.push(Yk { ring_base: event_ring_phys, dxu: 256, _reserved: [0; 3] });
    An {
        base_phys,
        base_virt,
        cap_regs,
        glc,
        doorbell_base,
        runtime_base,
        dcbaa,
        fqt: dcbaa_phys,
        cmd_ring: Xh { trbs: cmd },
        cmd_ring_phys,
        cmd_enqueue: 0,
        cmd_cycle: true,
        event_ring: events,
        event_ring_phys,
        fvf: erst,
        fvg: erst_phys,
        event_dequeue: 0,
        event_cycle: true,
        device_contexts: contexts,
        devices: Vec::new(),
        max_slots,
        max_ports,
        context_size,
        initialized: true,
    }
}

} // verus!
