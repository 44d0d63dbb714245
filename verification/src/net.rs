//! Networking: the network driver interface, the registry of network
//! drivers, access to the active driver, and the drivers' own state and
//! declarations (RTL8139, RTL8169, e1000 with its descriptor rings,
//! virtio-net).
use vstd::prelude::*;
use crate::util::wrap_add;
use crate::framework::{Bb, Cw, DriverCategory, DriverRegistry, DriverStatus, LoadOutcome, PciFunction, id_matches, info_matches, load_result};

verus! {

/// Interface of a network driver.
pub trait Dd: Cw {
    /// The adapter's MAC address.
    fn mac_address(&self) -> [u8; 6];

    /// Whether the link is up.
    fn link_up(&self) -> bool;

    /// Link speed in Mbit/s; 0 when unknown.
    fn cbj(&self) -> u32 {
        0
    }

    /// Sends one frame.
    fn send(&mut self, data: &[u8]) -> Result<(), &'static str>;

    /// Takes one received frame, if any.
    fn receive(&mut self) -> Option<Vec<u8>>;

    /// Services the adapter.
    fn poll(&mut self);

    /// Traffic counters.
    fn stats(&self) -> NetStats;

    /// Switches promiscuous mode; not supported by default.
    fn jfi(&mut self, enabled: bool) -> Result<(), &'static str> {
        Err("Not supported")
    }

    /// Sets the MAC address; not supported by default.
    fn pxt(&mut self, mac: [u8; 6]) -> Result<(), &'static str> {
        Err("Not supported")
    }
}

/// Traffic counters.
#[derive(Clone, Copy, Debug, PartialEq, Eq, Structural)]
pub struct NetStats {
    pub tx_packets: u64,
    pub rx_packets: u64,
    pub tx_bytes: u64,
    pub rx_bytes: u64,
    pub tx_errors: u64,
    pub rx_errors: u64,
    pub tx_dropped: u64,
    pub rx_dropped: u64,
}

pub open spec fn zero_stats() -> NetStats {
    NetStats {
        tx_packets: 0,
        rx_packets: 0,
        tx_bytes: 0,
        rx_bytes: 0,
        tx_errors: 0,
        rx_errors: 0,
        tx_dropped: 0,
        rx_dropped: 0,
    }
}

impl Default for NetStats {
    fn default() -> (s: Self)
        ensures
            s == zero_stats(),
    {
        NetStats {
            tx_packets: 0,
            rx_packets: 0,
            tx_bytes: 0,
            rx_bytes: 0,
            tx_errors: 0,
            rx_errors: 0,
            tx_dropped: 0,
            rx_dropped: 0,
        }
    }
}

/// Network drivers known (declarations in registration order) and whether
/// one is active.
pub struct NetRegistry {
    pub entries: Vec<Bb>,
    pub active: bool,
}

impl NetRegistry {
    pub fn new() -> (r: Self)
        ensures
            r.entries@.len() == 0,
            !r.active,
    {
        NetRegistry { entries: Vec::new(), active: false }
    }
}

/// Adds a network driver.
pub fn eyh(reg: &mut NetRegistry, info: Bb)
    ensures
        final(reg).entries@ == old(reg).entries@.push(info),
        final(reg).active == old(reg).active,
{
    reg.entries.push(info);
}

/// Registers the built-in network drivers (virtio-net, e1000, RTL8139,
/// RTL8169, in that order) with the driver framework and the network
/// registry.
pub fn oei(drivers: &mut DriverRegistry, net: &mut NetRegistry)
    ensures
        final(drivers).entries@.len() == old(drivers).entries@.len() + 4,
        final(net).entries@.len() == old(net).entries@.len() + 4,
        final(drivers).loaded == old(drivers).loaded,
        final(net).active == old(net).active,
{
    virtio_register(drivers, net);
    e1000_register(drivers, net);
    rtl8139_register(drivers, net);
    rtl8169_register(drivers, net);
}

/// Finds and starts a network driver for a PCI function: every entry, in
/// order, is tried once per declared id covering the function.  The first
/// that starts becomes the active driver; one that probes but fails to
/// start ends the search.
pub fn goi<F: Fn(usize) -> LoadOutcome>(reg: &mut NetRegistry, vendor: u16, device: u16, try_load: F) -> (ok: bool)
    requires
        forall|i: usize| call_requires(try_load, (i,)),
    ensures
        final(reg).entries@ == old(reg).entries@,
        ok ==> final(reg).active && exists|i: usize|
            i < old(reg).entries@.len() && info_matches(old(reg).entries@[i as int], vendor, device)
                && #[trigger] load_result(try_load, i, LoadOutcome::Started) && forall|j: usize|
                j < i && info_matches(old(reg).entries@[j as int], vendor, device) ==> #[trigger] load_result(
                try_load,
                j,
                LoadOutcome::ProbeFailed,
            ),
        !ok ==> final(reg).active == old(reg).active,
        (forall|i: int| 0 <= i < old(reg).entries@.len() ==> !info_matches(old(reg).entries@[i], vendor, device))
            ==> !ok,
        !ok ==> (forall|i: usize| i < old(reg).entries@.len() && info_matches(old(reg).entries@[i as int], vendor, device)
            ==> #[trigger] load_result(try_load, i, LoadOutcome::ProbeFailed)) || (exists|i: usize|
            i < old(reg).entries@.len() && info_matches(old(reg).entries@[i as int], vendor, device)
                && #[trigger] load_result(try_load, i, LoadOutcome::StartFailed) && forall|j: usize|
                j < i && info_matches(old(reg).entries@[j as int], vendor, device) ==> #[trigger] load_result(
                try_load,
                j,
                LoadOutcome::ProbeFailed,
            )),
{
    let mut i: usize = 0;
    while i < reg.entries.len()
        invariant
            i <= reg.entries@.len(),
            reg.entries@ == old(reg).entries@,
            reg.active == old(reg).active,
            forall|q: usize| call_requires(try_load, (q,)),
            forall|j: usize| j < i && info_matches(old(reg).entries@[j as int], vendor, device) ==> #[trigger] load_result(
                try_load,
                j,
                LoadOutcome::ProbeFailed,
            ),
        decreases reg.entries@.len() - i,
    {
        let mut k: usize = 0;
        while k < reg.entries[i].vendor_ids.len()
            invariant
                i < reg.entries@.len(),
                k <= reg.entries@[i as int].vendor_ids@.len(),
                reg.entries@ == old(reg).entries@,
                reg.active == old(reg).active,
                forall|q: usize| call_requires(try_load, (q,)),
                forall|j: usize| j < i && info_matches(old(reg).entries@[j as int], vendor, device) ==> #[trigger] load_result(
                    try_load,
                    j,
                    LoadOutcome::ProbeFailed,
                ),
                (exists|q: int| 0 <= q < k && id_matches(#[trigger] reg.entries@[i as int].vendor_ids@[q], vendor, device))
                    ==> load_result(try_load, i, LoadOutcome::ProbeFailed),
            decreases reg.entries@[i as int].vendor_ids@.len() - k,
        {
            let (v, d) = reg.entries[i].vendor_ids[k];
            if vendor == v && (d == 0xFFFF || device == d) {
                assert(id_matches(reg.entries@[i as int].vendor_ids@[k as int], vendor, device));
                let o = try_load(i);
                match o {
                    LoadOutcome::Started => {
                        reg.active = true;
                        assert(load_result(try_load, i, LoadOutcome::Started));
                        return true;
                    },
                    LoadOutcome::StartFailed => {
                        assert(load_result(try_load, i, LoadOutcome::StartFailed));
                        assert(info_matches(old(reg).entries@[i as int], vendor, device));
                        return false;
                    },
                    LoadOutcome::ProbeFailed => {
                        assert(load_result(try_load, i, LoadOutcome::ProbeFailed));
                    },
                }
            }
            k = k + 1;
        }
        assert(info_matches(old(reg).entries@[i as int], vendor, device) ==> load_result(try_load, i, LoadOutcome::ProbeFailed));
        i = i + 1;
    }
    false
}

/// Whether a network driver is active.
pub fn aoh(reg: &NetRegistry) -> (b: bool)
    ensures
        b == reg.active,
{
    reg.active
}

/// MAC address of the active driver.
pub fn aqt<D: Dd>(drv: &Option<D>) -> (r: Option<[u8; 6]>)
    ensures
        drv is None ==> r is None,
        drv is Some ==> r is Some,
{
    match drv {
        Some(d) => Some(d.mac_address()),
        None => None,
    }
}

/// Whether the active driver's link is up (false without one).
pub fn link_up<D: Dd>(drv: &Option<D>) -> (b: bool)
    ensures
        drv is None ==> !b,
{
    match drv {
        Some(d) => d.link_up(),
        None => false,
    }
}

/// Sends a frame through the active driver.
pub fn send<D: Dd>(drv: &mut Option<D>, data: &[u8]) -> (r: Result<(), &'static str>)
    ensures
        (*old(drv)) is None ==> r == Err::<(), &'static str>("No network driver") && (*final(drv)) is None,
        (*old(drv)) is Some ==> (*final(drv)) is Some,
{
    match drv {
        Some(d) => d.send(data),
        None => Err("No network driver"),
    }
}

/// Takes a received frame from the active driver.
pub fn receive<D: Dd>(drv: &mut Option<D>) -> (r: Option<Vec<u8>>)
    ensures
        (*old(drv)) is None ==> r is None && (*final(drv)) is None,
        (*old(drv)) is Some ==> (*final(drv)) is Some,
{
    match drv {
        Some(d) => d.receive(),
        None => None,
    }
}

/// Services the active driver.
pub fn poll<D: Dd>(drv: &mut Option<D>)
    ensures
        (*old(drv)) is None <==> (*final(drv)) is None,
{
    match drv {
        Some(d) => d.poll(),
        None => {},
    }
}

/// Counters of the active driver (all zero without one).
pub fn stats<D: Dd>(drv: &Option<D>) -> (s: NetStats)
    ensures
        drv is None ==> s == zero_stats(),
{
    match drv {
        Some(d) => d.stats(),
        None => NetStats::default(),
    }
}

// ---- RTL8139 ----

/// RTL8139 driver: a stub that declines every device.
pub struct Rtl8139Driver {
    pub status: DriverStatus,
    pub mac: [u8; 6],
}

impl Rtl8139Driver {
    pub fn new() -> (d: Self)
        ensures
            d.status == DriverStatus::Unloaded,
            d.mac@ == seq![0x52u8, 0x54, 0x00, 0x81, 0x39, 0x00],
    {
        let d = Rtl8139Driver { status: DriverStatus::Unloaded, mac: [0x52, 0x54, 0x00, 0x81, 0x39, 0x00] };
        assert(d.mac@ =~= seq![0x52u8, 0x54, 0x00, 0x81, 0x39, 0x00]);
        d
    }
}

pub fn rtl8139_info() -> (b: Bb)
    ensures
        b.name == "rtl8139",
        b.category == DriverCategory::Network,
        b.vendor_ids@ == seq![(0x10ECu16, 0x8139u16)],
{
    let ids: Vec<(u16, u16)> = vec![(0x10EC, 0x8139)];
    assert(ids@ =~= seq![(0x10ECu16, 0x8139u16)]);
    Bb { name: "rtl8139", version: "0.1.0", author: "T-RustOs Team", category: DriverCategory::Network, vendor_ids: ids }
}

impl Cw for Rtl8139Driver {
    fn info(&self) -> Bb {
        rtl8139_info()
    }

    fn probe(&mut self, pci_device: &PciFunction) -> (r: Result<(), &'static str>)
        ensures
            final(self).status == DriverStatus::Loading,
            r == Err::<(), &'static str>("RTL8139 driver not implemented yet"),
    {
        self.status = DriverStatus::Loading;
        Err("RTL8139 driver not implemented yet")
    }

    fn start(&mut self) -> (r: Result<(), &'static str>)
        ensures
            final(self).status == DriverStatus::Running,
            r is Ok,
    {
        self.status = DriverStatus::Running;
        Ok(())
    }

    fn stop(&mut self) -> (r: Result<(), &'static str>)
        ensures
            final(self).status == DriverStatus::Suspended,
            r is Ok,
    {
        self.status = DriverStatus::Suspended;
        Ok(())
    }

    fn status(&self) -> (s: DriverStatus)
        ensures
            s == self.status,
    {
        self.status
    }
}

impl Dd for Rtl8139Driver {
    fn mac_address(&self) -> (m: [u8; 6])
        ensures
            m == self.mac,
    {
        self.mac
    }

    fn link_up(&self) -> (b: bool)
        ensures
            !b,
    {
        false
    }

    fn send(&mut self, data: &[u8]) -> (r: Result<(), &'static str>)
        ensures
            r == Err::<(), &'static str>("Not implemented"),
    {
        Err("Not implemented")
    }

    fn receive(&mut self) -> (r: Option<Vec<u8>>)
        ensures
            r is None,
    {
        None
    }

    fn poll(&mut self) {
    }

    fn stats(&self) -> (s: NetStats)
        ensures
            s == zero_stats(),
    {
        NetStats::default()
    }
}

pub open spec fn rtl8139_ids() -> Seq<(u16, u16)> {
    seq![(0x10ECu16, 0x8139u16)]
}

/// Registers the RTL8139 driver with both registries.
pub fn rtl8139_register(drivers: &mut DriverRegistry, net: &mut NetRegistry)
    ensures
        final(drivers).entries@ == old(drivers).entries@.push(final(drivers).entries@.last()),
        final(net).entries@ == old(net).entries@.push(final(net).entries@.last()),
        final(drivers).entries@.last().name == "rtl8139" && final(drivers).entries@.last().vendor_ids@ == rtl8139_ids(),
        final(net).entries@.last().name == "rtl8139" && final(net).entries@.last().vendor_ids@ == rtl8139_ids(),
        final(drivers).loaded == old(drivers).loaded,
        final(net).active == old(net).active,
{
    crate::framework::register(drivers, rtl8139_info());
    eyh(net, rtl8139_info());
}

// ---- virtio-net ----

/// virtio-net driver state: traffic counters (the device itself is run
/// by the platform's virtio-net layer).
pub struct VirtioNetDriver {
    pub status: DriverStatus,
    pub tx_pkts: u64,
    pub rx_pkts: u64,
    pub tx_bytes: u64,
    pub rx_bytes: u64,
}

impl VirtioNetDriver {
    pub fn new() -> (d: Self)
        ensures
            d.status == DriverStatus::Unloaded,
            d.tx_pkts == 0 && d.rx_pkts == 0 && d.tx_bytes == 0 && d.rx_bytes == 0,
    {
        VirtioNetDriver { status: DriverStatus::Unloaded, tx_pkts: 0, rx_pkts: 0, tx_bytes: 0, rx_bytes: 0 }
    }
}

pub open spec fn virtio_net_ids() -> Seq<(u16, u16)> {
    seq![(0x1AF4u16, 0x1000u16), (0x1AF4u16, 0x1041u16)]
}

pub fn virtio_net_info() -> (b: Bb)
    ensures
        b.name == "virtio-net",
        b.category == DriverCategory::Network,
        b.vendor_ids@ == virtio_net_ids(),
{
    let ids: Vec<(u16, u16)> = vec![(0x1AF4u16, 0x1000u16), (0x1AF4u16, 0x1041u16)];
    assert(ids@ =~= virtio_net_ids());
    Bb { name: "virtio-net", version: "1.0.0", author: "T-RustOs Team", category: DriverCategory::Network, vendor_ids: ids }
}

/// Registers the virtio-net driver with both registries.
pub fn virtio_register(drivers: &mut DriverRegistry, net: &mut NetRegistry)
    ensures
        final(drivers).entries@ == old(drivers).entries@.push(final(drivers).entries@.last()),
        final(net).entries@ == old(net).entries@.push(final(net).entries@.last()),
        final(drivers).entries@.last().name == "virtio-net" && final(drivers).entries@.last().vendor_ids@ == virtio_net_ids(),
        final(net).entries@.last().name == "virtio-net" && final(net).entries@.last().vendor_ids@ == virtio_net_ids(),
        final(drivers).loaded == old(drivers).loaded,
        final(net).active == old(net).active,
{
    crate::framework::register(drivers, virtio_net_info());
    eyh(net, virtio_net_info());
}

// ---- e1000 ----

/// Receive descriptor.
#[derive(Clone, Copy, Debug)]
pub struct RxDesc {
    pub buffer_addr: u64,
    pub length: u16,
    pub checksum: u16,
    pub status: u8,
    pub errors: u8,
    pub special: u16,
}

/// Transmit descriptor.
#[derive(Clone, Copy, Debug)]
pub struct TxDesc {
    pub buffer_addr: u64,
    pub length: u16,
    pub cso: u8,
    pub cmd: u8,
    pub status: u8,
    pub css: u8,
    pub special: u16,
}

/// Ring sizes and buffer size.
pub const E1000_RX_DESCS: usize = 32;
pub const E1000_TX_DESCS: usize = 8;
pub const E1000_BUF: usize = 2048;
/// Descriptor-done status bit; transmit command end-of-packet, insert FCS
/// and report status.
pub const DESC_DD: u8 = 1;
pub const TX_CMD_EOP_IFCS_RS: u8 = 0x0B;

/// e1000 driver state: descriptor rings and their buffers (with the
/// buffers' physical addresses), ring positions and counters.
pub struct E1000Driver {
    pub status: DriverStatus,
    pub mmio_base: u64,
    pub mac: [u8; 6],
    pub is_ich: bool,
    pub is_spt: bool,
    pub rx_descs: Vec<RxDesc>,
    pub tx_descs: Vec<TxDesc>,
    pub rx_buffers: Vec<Vec<u8>>,
    pub tx_buffers: Vec<Vec<u8>>,
    pub tx_buffer_phys: Vec<u64>,
    pub rx_cur: usize,
    pub tx_cur: usize,
    pub tx_packets: u64,
    pub rx_packets: u64,
    pub tx_bytes: u64,
    pub rx_bytes: u64,
    pub tx_errors: u64,
    pub rx_errors: u64,
    pub link_up: bool,
    pub initialized: bool,
}

impl E1000Driver {
    /// Once set up: rings and buffers of the right sizes, positions in range.
    pub open spec fn rings_wf(&self) -> bool {
        &&& self.rx_descs@.len() == E1000_RX_DESCS && self.rx_buffers@.len() == E1000_RX_DESCS
        &&& self.tx_descs@.len() == E1000_TX_DESCS && self.tx_buffers@.len() == E1000_TX_DESCS
        &&& self.tx_buffer_phys@.len() == E1000_TX_DESCS
        &&& self.rx_cur < E1000_RX_DESCS && self.tx_cur < E1000_TX_DESCS
        &&& forall|i: int| 0 <= i < E1000_RX_DESCS ==> #[trigger] self.rx_buffers@[i]@.len() == E1000_BUF
        &&& forall|i: int| 0 <= i < E1000_TX_DESCS ==> #[trigger] self.tx_buffers@[i]@.len() == E1000_BUF
    }

    pub fn new() -> (d: Self)
        ensures
            d.status == DriverStatus::Unloaded,
            d.mmio_base == 0,
            d.mac@ == seq![0x52u8, 0x54, 0x00, 0xE1, 0x00, 0x00],
            !d.initialized && !d.link_up,
            d.rx_cur == 0 && d.tx_cur == 0,
            d.tx_packets == 0 && d.rx_packets == 0 && d.tx_bytes == 0 && d.rx_bytes == 0,
            d.tx_errors == 0 && d.rx_errors == 0,
    {
        let d = E1000Driver {
            status: DriverStatus::Unloaded,
            mmio_base: 0,
            mac: [0x52, 0x54, 0x00, 0xE1, 0x00, 0x00],
            is_ich: false,
            is_spt: false,
            rx_descs: Vec::new(),
            tx_descs: Vec::new(),
            rx_buffers: Vec::new(),
            tx_buffers: Vec::new(),
            tx_buffer_phys: Vec::new(),
            rx_cur: 0,
            tx_cur: 0,
            tx_packets: 0,
            rx_packets: 0,
            tx_bytes: 0,
            rx_bytes: 0,
            tx_errors: 0,
            rx_errors: 0,
            link_up: false,
            initialized: false,
        };
        assert(d.mac@ =~= seq![0x52u8, 0x54, 0x00, 0xE1, 0x00, 0x00]);
        d
    }

    /// Link speed in Mbit/s from the status register's speed field (bits
    /// 6..8): 10, 100, else 1000; 0 when the registers are not mapped.
    pub fn link_speed(&self, status_reg: u32) -> (mbps: u32)
        ensures
            self.mmio_base == 0 ==> mbps == 0,
            self.mmio_base != 0 ==> mbps == (if (status_reg / 64) % 4 == 0 {
                10u32
            } else if (status_reg / 64) % 4 == 1 {
                100u32
            } else {
                1000u32
            }),
    {
        if self.mmio_base == 0 {
            return 0;
        }
        let s = (status_reg / 64) % 4;
        if s == 0 {
            10
        } else if s == 1 {
            100
        } else {
            1000
        }
    }

    /// Queues a frame in the next transmit slot: 14 to 2048 bytes, the
    /// slot's previous frame sent (DD set; otherwise a transmit error is
    /// counted).  The frame is copied into the slot's buffer, the
    /// descriptor filled and the position advanced; the value to write to
    /// the transmit tail register is returned.
    pub fn transmit(&mut self, data: &[u8]) -> (r: Result<u32, &'static str>)
        requires
            old(self).initialized ==> old(self).rings_wf(),
        ensures
            final(self).initialized == old(self).initialized,
            old(self).initialized ==> final(self).rings_wf(),
            !old(self).initialized ==> r == Err::<u32, &'static str>("Driver not initialized"),
            old(self).initialized && data@.len() > E1000_BUF ==> r == Err::<u32, &'static str>("Packet too large"),
            old(self).initialized && data@.len() <= E1000_BUF && data@.len() < 14 ==> r == Err::<u32, &'static str>(
                "Packet too small",
            ),
            !old(self).initialized || data@.len() > E1000_BUF || data@.len() < 14 ==> *final(self) == *old(self),
            old(self).initialized && 14 <= data@.len() <= E1000_BUF ==> {
                let t = old(self).tx_cur as int;
                let d = old(self).tx_descs@[t];
                if d.status % 2 == 0 {
                    &&& r == Err::<u32, &'static str>("TX timeout")
                    &&& *final(self) == (E1000Driver { tx_errors: wrap_add(old(self).tx_errors, 1), ..*old(self) })
                } else {
                    &&& final(self).tx_errors == old(self).tx_errors
                    &&& final(self).rx_cur == old(self).rx_cur
                    &&& final(self).rx_packets == old(self).rx_packets
                    &&& final(self).rx_bytes == old(self).rx_bytes
                    &&& r == Ok::<u32, &'static str>(((t + 1) % 8) as u32)
                    &&& final(self).tx_cur == (t + 1) % 8
                    &&& final(self).tx_buffers@[t]@.subrange(0, data@.len() as int) == data@
                    &&& final(self).tx_descs@[t] == (TxDesc {
                        buffer_addr: old(self).tx_buffer_phys@[t],
                        length: data@.len() as u16,
                        cmd: TX_CMD_EOP_IFCS_RS,
                        status: 0,
                        ..d
                    })
                    &&& final(self).tx_packets == wrap_add(old(self).tx_packets, 1)
                    &&& final(self).tx_bytes == wrap_add(old(self).tx_bytes, data@.len() as int)
                }
            },
    {
        if !self.initialized {
            return Err("Driver not initialized");
        }
        if data.len() > E1000_BUF {
            return Err("Packet too large");
        }
        if data.len() < 14 {
            return Err("Packet too small");
        }
        let t = self.tx_cur;
        if self.tx_descs[t].status % 2 == 0 {
            self.tx_errors = self.tx_errors.wrapping_add(1);
            return Err("TX timeout");
        }
        let mut buf = self.tx_buffers[t].clone();
        let mut k: usize = 0;
        while k < data.len()
            invariant
                k <= data@.len() <= E1000_BUF,
                buf@.len() == E1000_BUF,
                forall|q: int| 0 <= q < k ==> buf@[q] == data@[q],
            decreases data@.len() - k,
        {
            buf.set(k, data[k]);
            k = k + 1;
        }
        assert(buf@.subrange(0, data@.len() as int) =~= data@);
        self.tx_buffers.set(t, buf);
        let mut d = self.tx_descs[t];
        d.buffer_addr = self.tx_buffer_phys[t];
        d.length = data.len() as u16;
        d.cmd = TX_CMD_EOP_IFCS_RS;
        d.status = 0;
        self.tx_descs.set(t, d);
        self.tx_cur = (self.tx_cur + 1) % E1000_TX_DESCS;
        self.tx_packets = self.tx_packets.wrapping_add(1);
        self.tx_bytes = self.tx_bytes.wrapping_add(data.len() as u64);
        Ok(self.tx_cur as u32)
    }

    /// Takes the frame in the current receive slot when the hardware has
    /// filled it (DD set): a slot with errors or a length of 0 or above
    /// 2048 is counted or skipped and released; a good frame is returned
    /// with the receive tail value to write (the slot's index).
    pub fn take_received(&mut self) -> (r: Option<(Vec<u8>, u32)>)
        requires
            old(self).initialized ==> old(self).rings_wf(),
        ensures
            final(self).initialized == old(self).initialized,
            old(self).initialized ==> final(self).rings_wf(),
            !old(self).initialized ==> r is None,
            old(self).initialized ==> {
                let t = old(self).rx_cur as int;
                let d = old(self).rx_descs@[t];
                if d.status % 2 == 0 {
                    r is None && final(self).rx_cur == old(self).rx_cur
                } else if d.errors != 0 {
                    r is None && final(self).rx_errors == wrap_add(old(self).rx_errors, 1) && final(self).rx_cur == (t + 1) % 32
                } else if d.length == 0 || d.length > E1000_BUF {
                    r is None && final(self).rx_cur == (t + 1) % 32
                } else {
                    &&& r is Some
                    &&& r->Some_0.0@ == old(self).rx_buffers@[t]@.subrange(0, d.length as int)
                    &&& r->Some_0.1 == t
                    &&& final(self).rx_cur == (t + 1) % 32
                    &&& final(self).rx_packets == wrap_add(old(self).rx_packets, 1)
                    &&& final(self).rx_bytes == wrap_add(old(self).rx_bytes, d.length as int)
                }
            },
    {
        if !self.initialized {
            return None;
        }
        let t = self.rx_cur;
        let d = self.rx_descs[t];
        if d.status % 2 == 0 {
            return None;
        }
        if d.errors != 0 {
            self.rx_errors = self.rx_errors.wrapping_add(1);
            let mut nd = d;
            nd.status = 0;
            self.rx_descs.set(t, nd);
            self.rx_cur = (self.rx_cur + 1) % E1000_RX_DESCS;
            return None;
        }
        let len = d.length as usize;
        if len == 0 || len > E1000_BUF {
            let mut nd = d;
            nd.status = 0;
            self.rx_descs.set(t, nd);
            self.rx_cur = (self.rx_cur + 1) % E1000_RX_DESCS;
            return None;
        }
        let mut frame: Vec<u8> = Vec::new();
        let mut k: usize = 0;
        while k < len
            invariant
                k <= len <= E1000_BUF,
                t < self.rx_buffers@.len(),
                self.rx_buffers@[t as int]@.len() == E1000_BUF,
                frame@ == self.rx_buffers@[t as int]@.subrange(0, k as int),
            decreases len - k,
        {
            frame.push(self.rx_buffers[t][k]);
            k = k + 1;
            assert(frame@ =~= self.rx_buffers@[t as int]@.subrange(0, k as int));
        }
        let mut nd = d;
        nd.status = 0;
        nd.length = 0;
        self.rx_descs.set(t, nd);
        self.rx_cur = (self.rx_cur + 1) % E1000_RX_DESCS;
        self.rx_packets = self.rx_packets.wrapping_add(1);
        self.rx_bytes = self.rx_bytes.wrapping_add(len as u64);
        Some((frame, t as u32))
    }

    /// Traffic counters (nothing dropped is counted).
    pub fn counters(&self) -> (s: NetStats)
        ensures
            s == (NetStats {
                tx_packets: self.tx_packets,
                rx_packets: self.rx_packets,
                tx_bytes: self.tx_bytes,
                rx_bytes: self.rx_bytes,
                tx_errors: self.tx_errors,
                rx_errors: self.rx_errors,
                tx_dropped: 0,
                rx_dropped: 0,
            }),
    {
        NetStats {
            tx_packets: self.tx_packets,
            rx_packets: self.rx_packets,
            tx_bytes: self.tx_bytes,
            rx_bytes: self.rx_bytes,
            tx_errors: self.tx_errors,
            rx_errors: self.rx_errors,
            tx_dropped: 0,
            rx_dropped: 0,
        }
    }
}

pub open spec fn e1000_ids() -> Seq<(u16, u16)> {
    seq![(0x8086u16, 0x100Eu16), (0x8086u16, 0x100Fu16), (0x8086u16, 0x10D3u16), (0x8086u16, 0x153Au16), (0x8086u16, 0x153Bu16), (0x8086u16, 0x1533u16), (0x8086u16, 0x15A0u16), (0x8086u16, 0x15A1u16), (0x8086u16, 0x15A2u16), (0x8086u16, 0x15A3u16), (0x8086u16, 0x15B7u16), (0x8086u16, 0x15B8u16), (0x8086u16, 0x15B9u16), (0x8086u16, 0x15D6u16), (0x8086u16, 0x15D7u16), (0x8086u16, 0x15D8u16), (0x8086u16, 0x15E3u16), (0x8086u16, 0x0D4Eu16), (0x8086u16, 0x0D4Fu16), (0x8086u16, 0x0D4Cu16), (0x8086u16, 0x0D4Du16), (0x8086u16, 0x1049u16), (0x8086u16, 0x104Au16), (0x8086u16, 0x104Bu16), (0x8086u16, 0x104Cu16), (0x8086u16, 0x104Du16), (0x8086u16, 0x10BDu16), (0x8086u16, 0x10BFu16), (0x8086u16, 0x10C0u16), (0x8086u16, 0x10C2u16), (0x8086u16, 0x10C3u16), (0x8086u16, 0x10CBu16), (0x8086u16, 0x10CCu16), (0x8086u16, 0x10CDu16), (0x8086u16, 0x10CEu16), (0x8086u16, 0x10DEu16), (0x8086u16, 0x10DFu16), (0x8086u16, 0x10E5u16), (0x8086u16, 0x10EAu16), (0x8086u16, 0x10EBu16), (0x8086u16, 0x10EFu16), (0x8086u16, 0x10F0u16), (0x8086u16, 0x10F5u16)]
}

pub fn e1000_info() -> (b: Bb)
    ensures
        b.name == "e1000",
        b.category == DriverCategory::Network,
        b.vendor_ids@ == e1000_ids(),
{
    let ids: Vec<(u16, u16)> = vec![(0x8086u16, 0x100Eu16), (0x8086u16, 0x100Fu16), (0x8086u16, 0x10D3u16), (0x8086u16, 0x153Au16), (0x8086u16, 0x153Bu16), (0x8086u16, 0x1533u16), (0x8086u16, 0x15A0u16), (0x8086u16, 0x15A1u16), (0x8086u16, 0x15A2u16), (0x8086u16, 0x15A3u16), (0x8086u16, 0x15B7u16), (0x8086u16, 0x15B8u16), (0x8086u16, 0x15B9u16), (0x8086u16, 0x15D6u16), (0x8086u16, 0x15D7u16), (0x8086u16, 0x15D8u16), (0x8086u16, 0x15E3u16), (0x8086u16, 0x0D4Eu16), (0x8086u16, 0x0D4Fu16), (0x8086u16, 0x0D4Cu16), (0x8086u16, 0x0D4Du16), (0x8086u16, 0x1049u16), (0x8086u16, 0x104Au16), (0x8086u16, 0x104Bu16), (0x8086u16, 0x104Cu16), (0x8086u16, 0x104Du16), (0x8086u16, 0x10BDu16), (0x8086u16, 0x10BFu16), (0x8086u16, 0x10C0u16), (0x8086u16, 0x10C2u16), (0x8086u16, 0x10C3u16), (0x8086u16, 0x10CBu16), (0x8086u16, 0x10CCu16), (0x8086u16, 0x10CDu16), (0x8086u16, 0x10CEu16), (0x8086u16, 0x10DEu16), (0x8086u16, 0x10DFu16), (0x8086u16, 0x10E5u16), (0x8086u16, 0x10EAu16), (0x8086u16, 0x10EBu16), (0x8086u16, 0x10EFu16), (0x8086u16, 0x10F0u16), (0x8086u16, 0x10F5u16)];
    assert(ids@ =~= e1000_ids());
    Bb { name: "e1000", version: "1.0.0", author: "TrustOS Team", category: DriverCategory::Network, vendor_ids: ids }
}

/// Registers the e1000 driver with both registries.
pub fn e1000_register(drivers: &mut DriverRegistry, net: &mut NetRegistry)
    ensures
        final(drivers).entries@ == old(drivers).entries@.push(final(drivers).entries@.last()),
        final(net).entries@ == old(net).entries@.push(final(net).entries@.last()),
        final(drivers).entries@.last().name == "e1000" && final(drivers).entries@.last().vendor_ids@ == e1000_ids(),
        final(net).entries@.last().name == "e1000" && final(net).entries@.last().vendor_ids@ == e1000_ids(),
        final(drivers).loaded == old(drivers).loaded,
        final(net).active == old(net).active,
{
    crate::framework::register(drivers, e1000_info());
    eyh(net, e1000_info());
}

// ---- RTL8169 ----

/// RTL8169 descriptor.
#[derive(Clone, Copy, Debug)]
pub struct Descriptor {
    pub opts1: u32,
    pub opts2: u32,
    pub buf_lo: u32,
    pub buf_hi: u32,
}

/// RTL8169 driver state.
pub struct Rtl8169Driver {
    pub status: DriverStatus,
    pub mmio_base: u64,
    pub mac: [u8; 6],
    pub rx_descs: Vec<Descriptor>,
    pub tx_descs: Vec<Descriptor>,
    pub rx_buffers: Vec<Vec<u8>>,
    pub tx_buffers: Vec<Vec<u8>>,
    pub rx_cur: usize,
    pub tx_cur: usize,
    pub tx_packets: u64,
    pub rx_packets: u64,
    pub tx_bytes: u64,
    pub rx_bytes: u64,
    pub tx_errors: u64,
    pub rx_errors: u64,
    pub link_up: bool,
    pub initialized: bool,
}

impl Rtl8169Driver {
    pub fn new() -> (d: Self)
        ensures
            d.status == DriverStatus::Unloaded,
            d.mmio_base == 0,
            d.mac@ == seq![0x52u8, 0x54, 0x00, 0x81, 0x69, 0x00],
            !d.initialized && !d.link_up,
            d.rx_cur == 0 && d.tx_cur == 0,
            d.tx_packets == 0 && d.rx_packets == 0 && d.tx_bytes == 0 && d.rx_bytes == 0,
            d.tx_errors == 0 && d.rx_errors == 0,
    {
        let d = Rtl8169Driver {
            status: DriverStatus::Unloaded,
            mmio_base: 0,
            mac: [0x52, 0x54, 0x00, 0x81, 0x69, 0x00],
            rx_descs: Vec::new(),
            tx_descs: Vec::new(),
            rx_buffers: Vec::new(),
            tx_buffers: Vec::new(),
            rx_cur: 0,
            tx_cur: 0,
            tx_packets: 0,
            rx_packets: 0,
            tx_bytes: 0,
            rx_bytes: 0,
            tx_errors: 0,
            rx_errors: 0,
            link_up: false,
            initialized: false,
        };
        assert(d.mac@ =~= seq![0x52u8, 0x54, 0x00, 0x81, 0x69, 0x00]);
        d
    }
}

pub open spec fn rtl8169_ids() -> Seq<(u16, u16)> {
    seq![(0x10ECu16, 0x8169u16), (0x10ECu16, 0x8168u16), (0x10ECu16, 0x8161u16), (0x10ECu16, 0x8136u16)]
}

pub fn rtl8169_info() -> (b: Bb)
    ensures
        b.name == "rtl8169",
        b.category == DriverCategory::Network,
        b.vendor_ids@ == rtl8169_ids(),
{
    let ids: Vec<(u16, u16)> = vec![(0x10ECu16, 0x8169u16), (0x10ECu16, 0x8168u16), (0x10ECu16, 0x8161u16), (0x10ECu16, 0x8136u16)];
    assert(ids@ =~= rtl8169_ids());
    Bb { name: "rtl8169", version: "1.0.0", author: "TrustOS Team", category: DriverCategory::Network, vendor_ids: ids }
}

/// Registers the RTL8169 driver with both registries.
pub fn rtl8169_register(drivers: &mut DriverRegistry, net: &mut NetRegistry)
    ensures
        final(drivers).entries@ == old(drivers).entries@.push(final(drivers).entries@.last()),
        final(net).entries@ == old(net).entries@.push(final(net).entries@.last()),
        final(drivers).entries@.last().name == "rtl8169" && final(drivers).entries@.last().vendor_ids@ == rtl8169_ids(),
        final(net).entries@.last().name == "rtl8169" && final(net).entries@.last().vendor_ids@ == rtl8169_ids(),
        final(drivers).loaded == old(drivers).loaded,
        final(net).active == old(net).active,
{
    crate::framework::register(drivers, rtl8169_info());
    eyh(net, rtl8169_info());
}

/// Whether the RTL8169 is up: whether a network driver is active.
pub fn rtl8169_is_initialized(net: &NetRegistry) -> (b: bool)
    ensures
        b == net.active,
{
    aoh(net)
}

} // verus!
