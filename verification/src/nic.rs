//! What the e1000 and RTL8169 drivers decide about their hardware: the
//! chip variant, the MAC address from its registers or EEPROM, the values
//! programmed into the control registers, and the RTL8169's descriptor
//! rings (transmit, receive and the return of a slot to the NIC).
use vstd::prelude::*;
use crate::util::wrap_add;
use crate::net::{Descriptor, E1000Driver, NetStats, Rtl8169Driver, RxDesc, TxDesc, E1000_BUF, E1000_RX_DESCS,
    E1000_TX_DESCS};

verus! {

// ---------------------------------------------------------------- e1000

/// Device ids of the ICH/PCH (e1000e) family.
pub open spec fn is_ich_id(id: u16) -> bool {
    id == 0x1049 || id == 0x104A || id == 0x104B || id == 0x104C || id == 0x104D || id == 0x10BD || id == 0x10BF
        || id == 0x10C0 || id == 0x10C2 || id == 0x10C3 || id == 0x10CB || id == 0x10CC || id == 0x10CD || id == 0x10CE
        || id == 0x10DE || id == 0x10DF || id == 0x10E5 || id == 0x10EA || id == 0x10EB || id == 0x10EF || id == 0x10F0
        || id == 0x10F5 || id == 0x153A || id == 0x153B || id == 0x15A0 || id == 0x15A1 || id == 0x15A2 || id == 0x15A3
        || is_spt_id(id)
}

/// Device ids of the Sunrise Point and later PCH parts.
pub open spec fn is_spt_id(id: u16) -> bool {
    id == 0x15B7 || id == 0x15B8 || id == 0x15B9 || id == 0x15D6 || id == 0x15D7 || id == 0x15D8 || id == 0x15E3
        || id == 0x0D4C || id == 0x0D4D || id == 0x0D4E || id == 0x0D4F
}

/// (ICH family, Sunrise Point) for a device id.
pub fn e1000_variant(device_id: u16) -> (r: (bool, bool))
    ensures
        r == (is_ich_id(device_id), is_spt_id(device_id)),
{
    let id = device_id;
    let spt = id == 0x15B7 || id == 0x15B8 || id == 0x15B9 || id == 0x15D6 || id == 0x15D7 || id == 0x15D8 || id == 0x15E3
        || id == 0x0D4C || id == 0x0D4D || id == 0x0D4E || id == 0x0D4F;
    let ich = id == 0x1049 || id == 0x104A || id == 0x104B || id == 0x104C || id == 0x104D || id == 0x10BD || id == 0x10BF
        || id == 0x10C0 || id == 0x10C2 || id == 0x10C3 || id == 0x10CB || id == 0x10CC || id == 0x10CD || id == 0x10CE
        || id == 0x10DE || id == 0x10DF || id == 0x10E5 || id == 0x10EA || id == 0x10EB || id == 0x10EF || id == 0x10F0
        || id == 0x10F5 || id == 0x153A || id == 0x153B || id == 0x15A0 || id == 0x15A1 || id == 0x15A2 || id == 0x15A3
        || spt;
    (ich, spt)
}

/// The MAC address held in a receive-address register pair (low register
/// bytes 0..4, high register bytes 4..6), little-endian.
pub open spec fn mac_of_regs(lo: u32, hi: u32) -> Seq<u8> {
    seq![(lo % 256) as u8, ((lo / 0x100) % 256) as u8, ((lo / 0x10000) % 256) as u8, ((lo / 0x1000000) % 256) as u8,
        (hi % 256) as u8, ((hi / 0x100) % 256) as u8]
}

pub fn mac_from_regs(lo: u32, hi: u32) -> (m: [u8; 6])
    ensures
        m@ == mac_of_regs(lo, hi),
{
    let m = [(lo % 256) as u8, ((lo / 0x100) % 256) as u8, ((lo / 0x10000) % 256) as u8, ((lo / 0x1000000) % 256) as u8,
        (hi % 256) as u8, ((hi / 0x100) % 256) as u8];
    assert(m@ =~= mac_of_regs(lo, hi));
    m
}

/// The e1000's address from its receive-address registers, when they hold
/// one (not both zero).
pub fn e1000_mac_from_receive_address(ral: u32, rah: u32) -> (r: Option<[u8; 6]>)
    ensures
        (ral == 0 && rah == 0) <==> r is None,
        r matches Some(m) ==> m@ == mac_of_regs(ral, rah),
{
    if ral != 0 || rah != 0 { Some(mac_from_regs(ral, rah)) } else { None }
}

/// EEPROM read command for word `i`: start bit, address at bit 2 (ICH) or
/// bit 8.
pub fn eeprom_read_command(i: u32, is_ich: bool) -> (c: u32)
    requires
        i < 3,
    ensures
        c == 1 + i * (if is_ich { 4int } else { 256int }),
{
    1 + i * (if is_ich { 4 } else { 256 })
}

/// The word an EEPROM read register holds once its done bit (bit 1 on
/// ICH, bit 4 otherwise) is set: its upper half.
pub fn eeprom_word(value: u32, is_ich: bool) -> (r: Option<u16>)
    ensures
        r == (if (value as int / (if is_ich { 2int } else { 16int })) % 2 == 1 { Some((value / 65536) as u16) } else { None::<u16> }),
{
    let done = if is_ich { (value / 2) % 2 == 1 } else { (value / 16) % 2 == 1 };
    if done { Some((value / 65536) as u16) } else { None }
}

/// A MAC address, with the locally administered default when it is all
/// zero.
pub fn mac_or_default(mac: [u8; 6], default: [u8; 6]) -> (m: [u8; 6])
    ensures
        m == (if mac@ == seq![0u8, 0, 0, 0, 0, 0] { default } else { mac }),
{
    if mac[0] == 0 && mac[1] == 0 && mac[2] == 0 && mac[3] == 0 && mac[4] == 0 && mac[5] == 0 {
        assert(mac@ =~= seq![0u8, 0, 0, 0, 0, 0]);
        default
    } else {
        mac
    }
}

/// The receive-address register pair that holds `mac`, marked valid (bit 31
/// of the high register).
pub fn receive_address_regs(mac: [u8; 6]) -> (r: (u32, u32))
    ensures
        r.0 == mac[0] as int + mac[1] as int * 0x100 + mac[2] as int * 0x10000 + mac[3] as int * 0x1000000,
        r.1 == mac[4] as int + mac[5] as int * 0x100 + 0x8000_0000,
{
    (mac[0] as u32 + mac[1] as u32 * 0x100 + mac[2] as u32 * 0x10000 + mac[3] as u32 * 0x1000000,
        mac[4] as u32 + mac[5] as u32 * 0x100 + 0x8000_0000)
}

/// Receive control: enable, store bad packets, unicast and multicast
/// promiscuous, broadcast accept, strip CRC.
pub const E1000_RCTL: u32 = 0x0400_801E;
/// Transmit control: enable, pad short packets, collision threshold 15,
/// collision distance 64, retransmit on late collision.
pub const E1000_TCTL: u32 = 0x0104_00FA;
/// Transmit inter-packet gap.
pub const E1000_TIPG: u32 = 0x0060_200A;

/// Device control after link set-up: set link up; on Sunrise Point clear
/// the forced speed and duplex and auto-detect speed, else auto-detect
/// speed and full duplex.
pub fn e1000_link_ctrl(ctrl: u32, is_spt: bool) -> (c: u32)
    ensures
        c == (if is_spt { (ctrl | 0x40) & !0x1800u32 | 0x20 } else { ctrl | 0x40 | 0x20 | 0x01 }),
{
    let c = ctrl | 0x40;
    if is_spt { c & !0x1800u32 | 0x20 } else { c | 0x20 | 0x01 }
}

/// Receive control with unicast and multicast promiscuous mode switched.
pub fn promiscuous_rctl(rctl: u32, enabled: bool) -> (r: u32)
    ensures
        r == (if enabled { rctl | 0x18 } else { rctl & !0x18u32 }),
{
    if enabled { rctl | 0x18 } else { rctl & !0x18u32 }
}

impl E1000Driver {
    /// Builds the descriptor rings over buffers at the given physical
    /// addresses: receive descriptors point at their buffers with status 0,
    /// transmit descriptors start done; positions at 0.
    pub fn setup_rings(&mut self, rx_phys: &Vec<u64>, tx_phys: &Vec<u64>)
        requires
            rx_phys@.len() == E1000_RX_DESCS,
            tx_phys@.len() == E1000_TX_DESCS,
        ensures
            final(self).rings_wf(),
            final(self).rx_cur == 0 && final(self).tx_cur == 0,
            final(self).tx_buffer_phys@ == tx_phys@,
            forall|i: int| 0 <= i < E1000_RX_DESCS ==> #[trigger] final(self).rx_descs@[i].buffer_addr == rx_phys@[i]
                && final(self).rx_descs@[i].status == 0,
            forall|i: int| 0 <= i < E1000_TX_DESCS ==> #[trigger] final(self).tx_descs@[i].status == 1,
            final(self).initialized == old(self).initialized,
            final(self).mmio_base == old(self).mmio_base,
    {
        let mut rx: Vec<RxDesc> = Vec::new();
        let mut rxb: Vec<Vec<u8>> = Vec::new();
        let mut i: usize = 0;
        while i < E1000_RX_DESCS
            invariant
                i <= E1000_RX_DESCS,
                rx_phys@.len() == E1000_RX_DESCS,
                rx@.len() == i && rxb@.len() == i,
                forall|k: int| 0 <= k < i ==> #[trigger] rx@[k].buffer_addr == rx_phys@[k] && rx@[k].status == 0,
                forall|k: int| 0 <= k < i ==> #[trigger] rxb@[k]@.len() == E1000_BUF,
            decreases E1000_RX_DESCS - i,
        {
            rx.push(RxDesc { buffer_addr: rx_phys[i], length: 0, checksum: 0, status: 0, errors: 0, special: 0 });
            rxb.push(vec![0u8; E1000_BUF]);
            i = i + 1;
        }
        let mut tx: Vec<TxDesc> = Vec::new();
        let mut txb: Vec<Vec<u8>> = Vec::new();
        let mut j: usize = 0;
        while j < E1000_TX_DESCS
            invariant
                j <= E1000_TX_DESCS,
                tx@.len() == j && txb@.len() == j,
                forall|k: int| 0 <= k < j ==> #[trigger] tx@[k].status == 1,
                forall|k: int| 0 <= k < j ==> #[trigger] txb@[k]@.len() == E1000_BUF,
            decreases E1000_TX_DESCS - j,
        {
            tx.push(TxDesc { buffer_addr: 0, length: 0, cso: 0, cmd: 0, status: 1, css: 0, special: 0 });
            txb.push(vec![0u8; E1000_BUF]);
            j = j + 1;
        }
        self.rx_descs = rx;
        self.rx_buffers = rxb;
        self.tx_descs = tx;
        self.tx_buffers = txb;
        self.tx_buffer_phys = tx_phys.clone();
        self.rx_cur = 0;
        self.tx_cur = 0;
    }
}

// ---------------------------------------------------------------- RTL8169

pub const RTL_DESCS: usize = 64;
pub const RTL_BUF: usize = 2048;
/// Descriptor flags: owned by the NIC, end of ring, first and last segment.
pub const RTL_OWN: u32 = 0x8000_0000;
pub const RTL_EOR: u32 = 0x4000_0000;
pub const RTL_FS: u32 = 0x2000_0000;
pub const RTL_LS: u32 = 0x1000_0000;

/// The flags of receive descriptor `i` handed to the NIC: owned, buffer
/// size, end of ring on the last.
pub open spec fn rtl_rx_flags(i: int) -> u32 {
    (if i == RTL_DESCS - 1 { RTL_OWN + RTL_EOR + RTL_BUF } else { RTL_OWN + RTL_BUF }) as u32
}

/// The flags of a transmit descriptor queued with `len` bytes in slot `i`.
pub open spec fn rtl_tx_flags(i: int, len: int) -> u32 {
    (RTL_OWN + RTL_FS + RTL_LS + len % 0x4000 + if i == RTL_DESCS - 1 { RTL_EOR as int } else { 0 }) as u32
}

/// The RTL8169's address from its ID registers, with its default when they
/// hold zero.
pub fn rtl8169_mac(idr0: u32, idr4: u32) -> (m: [u8; 6])
    ensures
        m@ == (if mac_of_regs(idr0, idr4) == seq![0u8, 0, 0, 0, 0, 0] { seq![0x52u8, 0x54, 0x00, 0x12, 0x81, 0x69] } else {
            mac_of_regs(idr0, idr4)
        }),
{
    let d = [0x52u8, 0x54, 0x00, 0x12, 0x81, 0x69];
    assert(d@ =~= seq![0x52u8, 0x54, 0x00, 0x12, 0x81, 0x69]);
    mac_or_default(mac_from_regs(idr0, idr4), d)
}

/// Link state and speed from the PHY status register: (up, Mbit/s), the
/// speed 0 when no speed bit is set.
pub fn rtl8169_link(phy_status: u32) -> (r: (bool, u32))
    ensures
        r.0 == ((phy_status / 2) % 2 == 1),
        r.1 == (if (phy_status / 16) % 2 == 1 { 1000u32 } else if (phy_status / 8) % 2 == 1 { 100u32 } else if (phy_status
            / 4) % 2 == 1 { 10u32 } else { 0u32 }),
{
    let speed = if (phy_status / 16) % 2 == 1 {
        1000
    } else if (phy_status / 8) % 2 == 1 {
        100
    } else if (phy_status / 4) % 2 == 1 {
        10
    } else {
        0
    };
    ((phy_status / 2) % 2 == 1, speed)
}

/// Receive configuration: accept broadcast, multicast and own-address
/// frames, unlimited DMA burst, no FIFO threshold.
pub const RTL_RX_CONFIG: u32 = 0x0000_E70E;
/// Transmit configuration: standard inter-frame gap, unlimited DMA burst.
pub const RTL_TX_CONFIG: u32 = 0x0300_0700;

/// Receive configuration with accept-all-physical switched.
pub fn rtl_promiscuous(rx_config: u32, enabled: bool) -> (r: u32)
    ensures
        r == (if enabled { rx_config | 1 } else { rx_config & !1u32 }),
{
    if enabled { rx_config | 1 } else { rx_config & !1u32 }
}

impl Rtl8169Driver {
    /// Once set up: both rings of 64 slots with 2048-byte buffers and the
    /// positions in range.
    pub open spec fn rings_wf(&self) -> bool {
        &&& self.rx_descs@.len() == RTL_DESCS && self.rx_buffers@.len() == RTL_DESCS
        &&& self.tx_descs@.len() == RTL_DESCS && self.tx_buffers@.len() == RTL_DESCS
        &&& self.rx_cur < RTL_DESCS && self.tx_cur < RTL_DESCS
        &&& forall|i: int| 0 <= i < RTL_DESCS ==> #[trigger] self.rx_buffers@[i]@.len() == RTL_BUF
        &&& forall|i: int| 0 <= i < RTL_DESCS ==> #[trigger] self.tx_buffers@[i]@.len() == RTL_BUF
    }

    /// Builds both rings over buffers at the given physical addresses:
    /// receive slots handed to the NIC, transmit slots owned by the driver,
    /// the last of each marked end of ring.
    pub fn setup_rings(&mut self, rx_phys: &Vec<u64>, tx_phys: &Vec<u64>)
        requires
            rx_phys@.len() == RTL_DESCS,
            tx_phys@.len() == RTL_DESCS,
        ensures
            final(self).rings_wf(),
            final(self).rx_cur == 0 && final(self).tx_cur == 0,
            forall|i: int| 0 <= i < RTL_DESCS ==> #[trigger] final(self).rx_descs@[i] == (Descriptor {
                opts1: rtl_rx_flags(i), opts2: 0, buf_lo: (rx_phys@[i] % 0x1_0000_0000) as u32,
                buf_hi: (rx_phys@[i] / 0x1_0000_0000) as u32 }),
            forall|i: int| 0 <= i < RTL_DESCS ==> #[trigger] final(self).tx_descs@[i] == (Descriptor {
                opts1: if i == RTL_DESCS - 1 { RTL_EOR } else { 0 }, opts2: 0,
                buf_lo: (tx_phys@[i] % 0x1_0000_0000) as u32, buf_hi: (tx_phys@[i] / 0x1_0000_0000) as u32 }),
            final(self).initialized == old(self).initialized,
            final(self).mmio_base == old(self).mmio_base,
    {
        let mut rx: Vec<Descriptor> = Vec::new();
        let mut tx: Vec<Descriptor> = Vec::new();
        let mut rxb: Vec<Vec<u8>> = Vec::new();
        let mut txb: Vec<Vec<u8>> = Vec::new();
        let mut i: usize = 0;
        while i < RTL_DESCS
            invariant
                i <= RTL_DESCS,
                rx_phys@.len() == RTL_DESCS && tx_phys@.len() == RTL_DESCS,
                rx@.len() == i && tx@.len() == i && rxb@.len() == i && txb@.len() == i,
                forall|k: int| 0 <= k < i ==> #[trigger] rx@[k] == (Descriptor { opts1: rtl_rx_flags(k), opts2: 0,
                    buf_lo: (rx_phys@[k] % 0x1_0000_0000) as u32, buf_hi: (rx_phys@[k] / 0x1_0000_0000) as u32 }),
                forall|k: int| 0 <= k < i ==> #[trigger] tx@[k] == (Descriptor {
                    opts1: if k == RTL_DESCS - 1 { RTL_EOR } else { 0 }, opts2: 0,
                    buf_lo: (tx_phys@[k] % 0x1_0000_0000) as u32, buf_hi: (tx_phys@[k] / 0x1_0000_0000) as u32 }),
                forall|k: int| 0 <= k < i ==> #[trigger] rxb@[k]@.len() == RTL_BUF,
                forall|k: int| 0 <= k < i ==> #[trigger] txb@[k]@.len() == RTL_BUF,
            decreases RTL_DESCS - i,
        {
            let last = i == RTL_DESCS - 1;
            let rflags: u32 = if last { RTL_OWN + RTL_EOR + 2048 } else { RTL_OWN + 2048 };
            rx.push(Descriptor { opts1: rflags, opts2: 0, buf_lo: (rx_phys[i] % 0x1_0000_0000) as u32,
                buf_hi: (rx_phys[i] / 0x1_0000_0000) as u32 });
            tx.push(Descriptor { opts1: if last { RTL_EOR } else { 0 }, opts2: 0,
                buf_lo: (tx_phys[i] % 0x1_0000_0000) as u32, buf_hi: (tx_phys[i] / 0x1_0000_0000) as u32 });
            rxb.push(vec![0u8; RTL_BUF]);
            txb.push(vec![0u8; RTL_BUF]);
            i = i + 1;
        }
        self.rx_descs = rx;
        self.tx_descs = tx;
        self.rx_buffers = rxb;
        self.tx_buffers = txb;
        self.rx_cur = 0;
        self.tx_cur = 0;
    }

    /// Queues a frame of 14 to 2048 bytes in the current transmit slot,
    /// unless the NIC still owns it (a transmit error).  The slot is then
    /// handed to the NIC as a single segment.
    pub fn transmit(&mut self, data: &[u8]) -> (r: Result<(), &'static str>)
        requires
            old(self).initialized ==> old(self).rings_wf(),
        ensures
            final(self).initialized == old(self).initialized,
            old(self).initialized ==> final(self).rings_wf(),
            !old(self).initialized ==> r == Err::<(), &'static str>("Driver not initialized"),
            old(self).initialized && data@.len() > RTL_BUF ==> r == Err::<(), &'static str>("Packet too large"),
            old(self).initialized && data@.len() <= RTL_BUF && data@.len() < 14 ==> r == Err::<(), &'static str>(
                "Packet too small",
            ),
            !old(self).initialized || data@.len() > RTL_BUF || data@.len() < 14 ==> *final(self) == *old(self),
            old(self).initialized && 14 <= data@.len() <= RTL_BUF ==> {
                let t = old(self).tx_cur as int;
                let d = old(self).tx_descs@[t];
                if d.opts1 >= RTL_OWN {
                    &&& r == Err::<(), &'static str>("TX timeout — descriptor still owned by NIC")
                    &&& *final(self) == (Rtl8169Driver { tx_errors: wrap_add(old(self).tx_errors, 1), ..*old(self) })
                } else {
                    &&& r is Ok
                    &&& final(self).tx_errors == old(self).tx_errors
                    &&& final(self).rx_cur == old(self).rx_cur
                    &&& final(self).tx_cur == (t + 1) % 64
                    &&& final(self).tx_buffers@[t]@.subrange(0, data@.len() as int) == data@
                    &&& final(self).tx_descs@[t] == (Descriptor { opts1: rtl_tx_flags(t, data@.len() as int), opts2: 0, ..d })
                    &&& final(self).tx_packets == wrap_add(old(self).tx_packets, 1)
                    &&& final(self).tx_bytes == wrap_add(old(self).tx_bytes, data@.len() as int)
                }
            },
    {
        if !self.initialized {
            return Err("Driver not initialized");
        }
        if data.len() > RTL_BUF {
            return Err("Packet too large");
        }
        if data.len() < 14 {
            return Err("Packet too small");
        }
        let t = self.tx_cur;
        if self.tx_descs[t].opts1 >= RTL_OWN {
            self.tx_errors = self.tx_errors.wrapping_add(1);
            return Err("TX timeout — descriptor still owned by NIC");
        }
        let mut buf = self.tx_buffers[t].clone();
        let mut k: usize = 0;
        while k < data.len()
            invariant
                k <= data@.len() <= RTL_BUF,
                buf@.len() == RTL_BUF,
                forall|q: int| 0 <= q < k ==> buf@[q] == data@[q],
            decreases data@.len() - k,
        {
            buf.set(k, data[k]);
            k = k + 1;
        }
        assert(buf@.subrange(0, data@.len() as int) =~= data@);
        self.tx_buffers.set(t, buf);
        let mut d = self.tx_descs[t];
        let eor: u32 = if t == RTL_DESCS - 1 { RTL_EOR } else { 0 };
        d.opts1 = RTL_OWN + RTL_FS + RTL_LS + (data.len() as u32 % 0x4000) + eor;
        d.opts2 = 0;
        self.tx_descs.set(t, d);
        self.tx_cur = (self.tx_cur + 1) % RTL_DESCS;
        self.tx_packets = self.tx_packets.wrapping_add(1);
        self.tx_bytes = self.tx_bytes.wrapping_add(data.len() as u64);
        Ok(())
    }

    /// Hands receive slot `idx` back to the NIC and moves to the next slot.
    pub fn reclaim_rx(&mut self, idx: usize)
        requires
            old(self).rings_wf(),
            idx < RTL_DESCS,
        ensures
            final(self).rings_wf(),
            final(self).rx_descs@ == old(self).rx_descs@.update(idx as int, Descriptor {
                opts1: rtl_rx_flags(idx as int), opts2: 0, ..old(self).rx_descs@[idx as int] }),
            final(self).rx_cur == (old(self).rx_cur + 1) % 64,
            final(self).rx_buffers == old(self).rx_buffers,
            final(self).tx_descs == old(self).tx_descs,
            final(self).tx_buffers == old(self).tx_buffers,
            final(self).tx_cur == old(self).tx_cur,
            final(self).initialized == old(self).initialized,
            final(self).rx_errors == old(self).rx_errors && final(self).rx_packets == old(self).rx_packets
                && final(self).rx_bytes == old(self).rx_bytes,
            final(self).tx_errors == old(self).tx_errors && final(self).tx_packets == old(self).tx_packets
                && final(self).tx_bytes == old(self).tx_bytes,
    {
        let mut d = self.rx_descs[idx];
        d.opts1 = if idx == RTL_DESCS - 1 { RTL_OWN + RTL_EOR + 2048 } else { RTL_OWN + 2048 };
        d.opts2 = 0;
        self.rx_descs.set(idx, d);
        self.rx_cur = (self.rx_cur + 1) % RTL_DESCS;
    }

    /// Takes the frame in the current receive slot once the NIC has
    /// released it: a slot not holding one whole frame, or with a length
    /// under 4 or above 2048, counts an error; the frame is returned without
    /// its 4-byte CRC (an empty one is dropped).  Every released slot goes
    /// back to the NIC.
    pub fn take_received(&mut self) -> (r: Option<Vec<u8>>)
        requires
            old(self).initialized ==> old(self).rings_wf(),
        ensures
            final(self).initialized == old(self).initialized,
            old(self).initialized ==> final(self).rings_wf(),
            !old(self).initialized ==> r is None,
            old(self).initialized ==> {
                let t = old(self).rx_cur as int;
                let f = old(self).rx_descs@[t].opts1;
                let len = f % 0x4000;
                if f >= RTL_OWN {
                    r is None && final(self).rx_cur == old(self).rx_cur
                } else if (f / 0x1000_0000) % 4 != 3 || len < 4 || len > RTL_BUF {
                    r is None && final(self).rx_errors == wrap_add(old(self).rx_errors, 1) && final(self).rx_cur == (t + 1) % 64
                } else if len == 4 {
                    r is None && final(self).rx_cur == (t + 1) % 64
                } else {
                    &&& r is Some
                    &&& r->Some_0@ == old(self).rx_buffers@[t]@.subrange(0, len - 4)
                    &&& final(self).rx_cur == (t + 1) % 64
                    &&& final(self).rx_packets == wrap_add(old(self).rx_packets, 1)
                    &&& final(self).rx_bytes == wrap_add(old(self).rx_bytes, len - 4)
                }
            },
    {
        if !self.initialized {
            return None;
        }
        let t = self.rx_cur;
        let f = self.rx_descs[t].opts1;
        if f >= RTL_OWN {
            return None;
        }
        let len = (f % 0x4000) as usize;
        if (f / 0x1000_0000) % 4 != 3 || len < 4 || len > RTL_BUF {
            self.rx_errors = self.rx_errors.wrapping_add(1);
            self.reclaim_rx(t);
            return None;
        }
        let n = len - 4;
        if n == 0 {
            self.reclaim_rx(t);
            return None;
        }
        let mut frame: Vec<u8> = Vec::new();
        let mut k: usize = 0;
        while k < n
            invariant
                k <= n <= RTL_BUF,
                t < self.rx_buffers@.len(),
                self.rx_buffers@[t as int]@.len() == RTL_BUF,
                frame@ == self.rx_buffers@[t as int]@.subrange(0, k as int),
            decreases n - k,
        {
            frame.push(self.rx_buffers[t][k]);
            k = k + 1;
            assert(frame@ =~= self.rx_buffers@[t as int]@.subrange(0, k as int));
        }
        self.reclaim_rx(t);
        self.rx_packets = self.rx_packets.wrapping_add(1);
        self.rx_bytes = self.rx_bytes.wrapping_add(n as u64);
        Some(frame)
    }

    /// Traffic counters (nothing dropped is counted).
    pub fn counters(&self) -> (s: NetStats)
        ensures
            s == (NetStats {
                tx_packets: self.tx_packets,
                rx_packets: self.rx_packets,
                tx_bytes: self.tx_bytes,
                rx_bytes: self.rx_bytes,
                tx_errors: self.tx_errors,
                rx_errors: self.rx_errors,
                tx_dropped: 0,
                rx_dropped: 0,
            }),
    {
        NetStats {
            tx_packets: self.tx_packets,
            rx_packets: self.rx_packets,
            tx_bytes: self.tx_bytes,
            rx_bytes: self.rx_bytes,
            tx_errors: self.tx_errors,
            rx_errors: self.rx_errors,
            tx_dropped: 0,
            rx_dropped: 0,
        }
    }
}

} // verus!
