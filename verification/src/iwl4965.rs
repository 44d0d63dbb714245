//! Intel 4965-family Wi-Fi: supported devices, the firmware image layout,
//! information elements and scan notifications, channel frequencies and
//! the periphery register protocol.  Register access is handed in.
use vstd::prelude::*;
use crate::framework::{DriverStatus, PciFunction};
use crate::net::NetStats;
use crate::util::le32;
use crate::wifi::{Fg, WifiSecurity, WifiState};

verus! {

/// Intel's PCI vendor id.
pub const INTEL_VENDOR: u16 = 0x8086;

/// Device ids this driver supports.
pub open spec fn supported_ids() -> Seq<u16> {
    seq![
        0x4229u16, 0x4230, 0x4232, 0x4235, 0x4236, 0x4237, 0x4238, 0x4239, 0x008A, 0x008B, 0x0082, 0x0083,
        0x0084, 0x0085, 0x0089, 0x0887, 0x0888, 0x0890, 0x0891, 0x0893, 0x0894, 0x088E, 0x088F, 0x24F3,
        0x24F4, 0x2526, 0x2723, 0x2725, 0x7A70,
    ]
}

/// Whether the driver supports an Intel device id.
pub fn is_supported(device_id: u16) -> (b: bool)
    ensures
        b == supported_ids().contains(device_id),
{
    let ids: Vec<u16> = vec![
        0x4229u16, 0x4230, 0x4232, 0x4235, 0x4236, 0x4237, 0x4238, 0x4239, 0x008A, 0x008B, 0x0082, 0x0083,
        0x0084, 0x0085, 0x0089, 0x0887, 0x0888, 0x0890, 0x0891, 0x0893, 0x0894, 0x088E, 0x088F, 0x24F3,
        0x24F4, 0x2526, 0x2723, 0x2725, 0x7A70,
    ];
    assert(ids@ =~= supported_ids());
    let mut i: usize = 0;
    while i < ids.len()
        invariant
            i <= ids@.len(),
            ids@ == supported_ids(),
            forall|k: int| 0 <= k < i ==> ids@[k] != device_id,
        decreases ids@.len() - i,
    {
        if ids[i] == device_id {
            assert(supported_ids()[i as int] == device_id);
            return true;
        }
        i = i + 1;
    }
    false
}

/// Firmware image stored for the driver (a copy of the file's bytes).
pub struct FirmwareStore {
    pub data: Option<Vec<u8>>,
}

/// Stores the firmware file.
pub fn oox(store: &mut FirmwareStore, data: &[u8])
    ensures
        final(store).data is Some && final(store).data->Some_0@ == data@,
{
    let mut v: Vec<u8> = Vec::new();
    let mut i: usize = 0;
    while i < data.len()
        invariant
            i <= data@.len(),
            v@ == data@.subrange(0, i as int),
        decreases data@.len() - i,
    {
        v.push(data[i]);
        i = i + 1;
        assert(v@ =~= data@.subrange(0, i as int));
    }
    assert(v@ =~= data@);
    store.data = Some(v);
}

/// Whether firmware is stored.
pub fn eou(store: &FirmwareStore) -> (b: bool)
    ensures
        b == store.data is Some,
{
    store.data.is_some()
}

/// Driver state of a 4965-family adapter.
pub struct Iwl4965 {
    pub pci_bus: u8,
    pub pci_device: u8,
    pub pci_function: u8,
    pub device_id: u16,
    pub mmio_base: usize,
    pub mmio_size: usize,
    pub status: DriverStatus,
    pub wifi_state: WifiState,
    pub hw_rev: u32,
    pub mac_addr: [u8; 6],
    pub firmware_loaded: bool,
    pub fw_alive: bool,
    pub cmd_seq: u16,
    pub scan_results: Vec<Fg>,
    pub scan_start_tick: u64,
    pub scanning: bool,
    pub connected_ssid: Option<String>,
    pub connected_bssid: [u8; 6],
    pub current_channel: u8,
    pub signal_dbm: i8,
    pub rx_pending: Vec<Vec<u8>>,
    pub stats: NetStats,
    pub initialized: bool,
}

impl Iwl4965 {
    /// A fresh, unprobed adapter.
    pub fn new() -> (d: Self)
        ensures
            d.status == DriverStatus::Unloaded,
            d.wifi_state == WifiState::Disabled,
            d.scan_results@.len() == 0,
            !d.initialized && !d.firmware_loaded && !d.fw_alive && !d.scanning,
            d.connected_ssid is None,
    {
        Iwl4965 {
            pci_bus: 0,
            pci_device: 0,
            pci_function: 0,
            device_id: 0,
            mmio_base: 0,
            mmio_size: 0,
            status: DriverStatus::Unloaded,
            wifi_state: WifiState::Disabled,
            hw_rev: 0,
            mac_addr: [0u8; 6],
            firmware_loaded: false,
            fw_alive: false,
            cmd_seq: 0,
            scan_results: Vec::new(),
            scan_start_tick: 0,
            scanning: false,
            connected_ssid: None,
            connected_bssid: [0u8; 6],
            current_channel: 0,
            signal_dbm: 0,
            rx_pending: Vec::new(),
            stats: crate::net::NetStats::default(),
            initialized: false,
        }
    }
}

/// Whether the driver takes a PCI function: an Intel device it supports.
pub fn probe(f: &PciFunction) -> (b: bool)
    ensures
        b == (f.vendor_id == INTEL_VENDOR && supported_ids().contains(f.device_id)),
{
    if f.vendor_id != INTEL_VENDOR {
        return false;
    }
    is_supported(f.device_id)
}

/// Periphery access registers.
pub const HBUS_TARG_PRPH_WADDR: u32 = 0x444;
pub const HBUS_TARG_PRPH_RADDR: u32 = 0x448;
pub const HBUS_TARG_PRPH_WDAT: u32 = 0x44C;
pub const HBUS_TARG_PRPH_RDAT: u32 = 0x450;

/// Periphery address word: the 20-bit address with access size 3 in bits
/// 24..26.
pub open spec fn prph_addr(addr: u32) -> u32 {
    (addr % 0x10_0000 + 0x300_0000) as u32
}

fn prph_word(addr: u32) -> (w: u32)
    ensures
        w == prph_addr(addr),
{
    addr % 0x10_0000 + 0x300_0000
}

/// The two register writes that store `val` at periphery address `addr`:
/// the address word to the write address register, then the value to the
/// data register.
pub fn prph_write_ops(addr: u32, val: u32) -> (ops: [(u32, u32); 2])
    ensures
        ops@ == seq![(HBUS_TARG_PRPH_WADDR, prph_addr(addr)), (HBUS_TARG_PRPH_WDAT, val)],
{
    let ops = [(HBUS_TARG_PRPH_WADDR, prph_word(addr)), (HBUS_TARG_PRPH_WDAT, val)];
    assert(ops@ =~= seq![(HBUS_TARG_PRPH_WADDR, prph_addr(addr)), (HBUS_TARG_PRPH_WDAT, val)]);
    ops
}

/// The register write that selects periphery address `addr` for reading;
/// the value is then read from `HBUS_TARG_PRPH_RDAT`.
pub fn prph_read_select(addr: u32) -> (op: (u32, u32))
    ensures
        op == (HBUS_TARG_PRPH_RADDR, prph_addr(addr)),
{
    (HBUS_TARG_PRPH_RADDR, prph_word(addr))
}

/// The register write a direct write makes: `val` to `offset` of the
/// registers at `base`, only below 0x2000 and with registers mapped. The
/// write is reported done exactly when there is one.
pub fn lce(base: Option<usize>, offset: u32, val: u32) -> (w: Option<(usize, u32, u32)>)
    ensures
        w == (if offset < 0x2000 && base is Some { Some((base->Some_0, offset, val)) } else { None }),
{
    if offset >= 0x2000 {
        return None;
    }
    match base {
        Some(b) => Some((b, offset, val)),
        None => None,
    }
}

/// A periphery read with registers at `base`: the select write to make
/// before the data register is read, or `None` (no read) without mapped
/// registers.
pub fn fqy(base: Option<usize>, addr: u32) -> (op: Option<(u32, u32)>)
    ensures
        op == (if base is Some { Some((HBUS_TARG_PRPH_RADDR, prph_addr(addr))) } else { None }),
{
    match base {
        None => None,
        Some(_) => Some(prph_read_select(addr)),
    }
}

/// A periphery write with registers at `base`: the two writes to make, or
/// `None` (nothing written, reported as failed) without mapped registers.
pub fn lcf(base: Option<usize>, addr: u32, val: u32) -> (ops: Option<[(u32, u32); 2]>)
    ensures
        base is None ==> ops is None,
        base is Some ==> ops is Some && ops->Some_0@ == seq![(HBUS_TARG_PRPH_WADDR, prph_addr(addr)), (HBUS_TARG_PRPH_WDAT, val)],
{
    match base {
        None => None,
        Some(_) => Some(prph_write_ops(addr, val)),
    }
}

/// Centre frequency of a channel in MHz: 2.4 GHz band up to channel 14,
/// 5 GHz band above.
pub open spec fn channel_freq_spec(channel: u8) -> u16 {
    if channel <= 14 {
        (2407 + channel * 5) as u16
    } else {
        (5000 + channel * 5) as u16
    }
}

pub fn channel_freq(channel: u8) -> (f: u16)
    ensures
        f == channel_freq_spec(channel),
{
    if channel <= 14 {
        2407 + (channel as u16) * 5
    } else {
        5000 + (channel as u16) * 5
    }
}

/// The sections of a firmware file.
pub struct FirmwareImage {
    pub version: u32,
    pub inst: Vec<u8>,
    pub data: Vec<u8>,
    pub init_inst: Vec<u8>,
    pub init_data: Vec<u8>,
    pub boot: Vec<u8>,
}

/// Byte `k` of `s`, 0 past its end.
pub open spec fn byte_or_zero(s: Seq<u8>, k: int) -> int {
    if 0 <= k < s.len() { s[k] as int } else { 0 }
}

/// The bootstrap image as the little-endian dwords written to the
/// bootstrap SRAM, the last one padded with zero bytes.
pub open spec fn boot_dwords(boot: Seq<u8>) -> Seq<u32> {
    Seq::new(((boot.len() + 3) / 4) as nat, |i: int| (byte_or_zero(boot, 4 * i) + byte_or_zero(boot, 4 * i + 1) * 0x100
        + byte_or_zero(boot, 4 * i + 2) * 0x10000 + byte_or_zero(boot, 4 * i + 3) * 0x100_0000) as u32)
}

fn byte_at(s: &[u8], k: usize) -> (b: u32)
    ensures
        b == byte_or_zero(s@, k as int),
{
    if k < s.len() { s[k] as u32 } else { 0 }
}

/// The dwords of a bootstrap image.
pub fn boot_words(boot: &[u8]) -> (v: Vec<u32>)
    requires
        boot@.len() + 3 <= usize::MAX,
    ensures
        v@ == boot_dwords(boot@),
{
    let n = (boot.len() + 3) / 4;
    let mut v: Vec<u32> = Vec::new();
    let mut i: usize = 0;
    while i < n
        invariant
            n == (boot@.len() + 3) / 4,
            boot@.len() + 3 <= usize::MAX,
            i <= n,
            v@ == boot_dwords(boot@).subrange(0, i as int),
        decreases n - i,
    {
        assert(4 * i + 3 <= boot@.len() + 3) by (nonlinear_arith)
            requires i < n, n == (boot@.len() + 3) / 4;
        let w = byte_at(boot, 4 * i) + byte_at(boot, 4 * i + 1) * 0x100 + byte_at(boot, 4 * i + 2) * 0x10000
            + byte_at(boot, 4 * i + 3) * 0x100_0000;
        v.push(w);
        i = i + 1;
        assert(v@ =~= boot_dwords(boot@).subrange(0, i as int));
    }
    assert(boot_dwords(boot@).subrange(0, n as int) =~= boot_dwords(boot@));
    v
}

/// What one poll of the firmware's start-up shows.
#[derive(Clone, Copy, Debug, PartialEq, Eq, Structural)]
pub enum AliveCheck {
    /// The firmware is alive; the interrupt bits to acknowledge (0 for none).
    Alive(u32),
    /// A hardware error was raised; the interrupt bits to acknowledge.
    HwError(u32),
    /// Not yet.
    Pending,
}

/// Reads one poll of the start-up: the ALIVE interrupt (bit 0) means
/// alive; else a hardware error (bit 29) means failure; else the
/// wake-up interrupt (bit 26) of a readable interrupt register, a readable
/// non-zero microcode status, or an ALIVE notification already received
/// mean alive; else keep waiting.
pub fn alive_check(int_reg: u32, ucode_reg: u32, notified: bool) -> (r: AliveCheck)
    ensures
        r == (if int_reg % 2 == 1 {
            AliveCheck::Alive(int_reg)
        } else if (int_reg / 0x2000_0000) % 2 == 1 {
            AliveCheck::HwError(int_reg)
        } else if int_reg != 0xFFFF_FFFF && (int_reg / 0x400_0000) % 2 == 1 {
            AliveCheck::Alive(int_reg)
        } else if ucode_reg != 0 && ucode_reg != 0xFFFF_FFFF || notified {
            AliveCheck::Alive(0)
        } else {
            AliveCheck::Pending
        }),
{
    if int_reg % 2 == 1 {
        AliveCheck::Alive(int_reg)
    } else if (int_reg / 0x2000_0000) % 2 == 1 {
        AliveCheck::HwError(int_reg)
    } else if int_reg != 0xFFFF_FFFF && (int_reg / 0x400_0000) % 2 == 1 {
        AliveCheck::Alive(int_reg)
    } else if ucode_reg != 0 && ucode_reg != 0xFFFF_FFFF || notified {
        AliveCheck::Alive(0)
    } else {
        AliveCheck::Pending
    }
}

/// Bytes in the firmware header: version and five section sizes.
pub const FW_HEADER: usize = 24;

/// Total length a firmware file claims: header plus sections.
pub open spec fn fw_claimed(d: Seq<u8>) -> int {
    FW_HEADER + le32(d, 4) + le32(d, 8) + le32(d, 12) + le32(d, 16) + le32(d, 20)
}

/// Splits a firmware file into its sections (runtime code and data,
/// initialisation code and data, bootstrap), which follow the header in
/// that order with the sizes it gives.
pub fn nqi(d: &[u8]) -> (r: Result<FirmwareImage, &'static str>)
    ensures
        d@.len() < FW_HEADER ==> r == Err::<FirmwareImage, &'static str>("Firmware too small for header"),
        d@.len() >= FW_HEADER && d@.len() < fw_claimed(d@) ==> r == Err::<FirmwareImage, &'static str>(
            "Firmware file truncated",
        ),
        d@.len() >= FW_HEADER && d@.len() >= fw_claimed(d@) ==> r is Ok && {
            let img = r->Ok_0;
            let a = FW_HEADER as int;
            let b = a + le32(d@, 4);
            let c = b + le32(d@, 8);
            let e = c + le32(d@, 12);
            let f = e + le32(d@, 16);
            let g = f + le32(d@, 20);
            &&& img.version == le32(d@, 0)
            &&& img.inst@ == d@.subrange(a, b)
            &&& img.data@ == d@.subrange(b, c)
            &&& img.init_inst@ == d@.subrange(c, e)
            &&& img.init_data@ == d@.subrange(e, f)
            &&& img.boot@ == d@.subrange(f, g)
        },
{
    if d.len() < FW_HEADER {
        return Err("Firmware too small for header");
    }
    let version = crate::util::read_le32(d, 0);
    let s1 = crate::util::read_le32(d, 4) as u64;
    let s2 = crate::util::read_le32(d, 8) as u64;
    let s3 = crate::util::read_le32(d, 12) as u64;
    let s4 = crate::util::read_le32(d, 16) as u64;
    let s5 = crate::util::read_le32(d, 20) as u64;
    let total: u64 = 24 + s1 + s2 + s3 + s4 + s5;
    if (d.len() as u64) < total {
        return Err("Firmware file truncated");
    }
    let a: usize = 24;
    let b: usize = a + s1 as usize;
    let c: usize = b + s2 as usize;
    let e: usize = c + s3 as usize;
    let f: usize = e + s4 as usize;
    let g: usize = f + s5 as usize;
    let inst = copy_range(d, a, b);
    let data = copy_range(d, b, c);
    let init_inst = copy_range(d, c, e);
    let init_data = copy_range(d, e, f);
    let boot = copy_range(d, f, g);
    Ok(FirmwareImage { version, inst, data, init_inst, init_data, boot })
}

/// Firmware law: the sections, in order, are exactly the bytes of the
/// file after the header up to its claimed length.
pub proof fn law_firmware_sections_partition(d: Seq<u8>, img: FirmwareImage)
    requires
        d.len() >= FW_HEADER,
        d.len() >= fw_claimed(d),
        ({
            let a = FW_HEADER as int;
            let b = a + le32(d, 4);
            let c = b + le32(d, 8);
            let e = c + le32(d, 12);
            let f = e + le32(d, 16);
            let g = f + le32(d, 20);
            &&& img.inst@ == d.subrange(a, b)
            &&& img.data@ == d.subrange(b, c)
            &&& img.init_inst@ == d.subrange(c, e)
            &&& img.init_data@ == d.subrange(e, f)
            &&& img.boot@ == d.subrange(f, g)
        }),
    ensures
        img.inst@ + img.data@ + img.init_inst@ + img.init_data@ + img.boot@ == d.subrange(FW_HEADER as int, fw_claimed(d)),
{
    assert(img.inst@ + img.data@ + img.init_inst@ + img.init_data@ + img.boot@ =~= d.subrange(FW_HEADER as int, fw_claimed(d)));
}

/// The bytes `from..to` of `d`.
pub fn copy_range(d: &[u8], from: usize, to: usize) -> (v: Vec<u8>)
    requires
        from <= to <= d@.len(),
    ensures
        v@ == d@.subrange(from as int, to as int),
{
    let mut v: Vec<u8> = Vec::new();
    let mut i: usize = from;
    while i < to
        invariant
            from <= i <= to <= d@.len(),
            v@ == d@.subrange(from as int, i as int),
        decreases to - i,
    {
        v.push(d[i]);
        i = i + 1;
        assert(v@ =~= d@.subrange(from as int, i as int));
    }
    v
}

/// Information element ids used: SSID, RSN, vendor specific.
pub const IE_SSID: u8 = 0;
pub const IE_RSN: u8 = 48;
pub const IE_VENDOR: u8 = 221;

/// End of the element starting at `i`: after its declared length, or at
/// the end of the data.
pub open spec fn ie_end(d: Seq<u8>, i: int) -> int {
    let e = i + 2 + d[i + 1] as int;
    if e < d.len() { e } else { d.len() as int }
}

/// The bytes of a vendor element starting at `s` can be compared with the
/// WPA prefix 00:50:F2:01 one by one, stopping at the first that differs.
pub open spec fn vendor_prefix_readable(d: Seq<u8>, s: int) -> bool {
    s + 1 <= d.len() && (d[s] != 0x00 || (s + 2 <= d.len() && (d[s + 1] != 0x50 || (s + 3 <= d.len() && (
    d[s + 2] != 0xF2 || s + 4 <= d.len())))))
}

/// The elements can be read: every vendor element that claims four bytes
/// or more has the bytes its prefix comparison reads.
pub open spec fn ies_safe(d: Seq<u8>, i: int) -> bool
    decreases d.len() - i,
{
    if i < 0 || i + 2 > d.len() {
        true
    } else {
        (d[i] == IE_VENDOR && d[i + 1] >= 4 ==> vendor_prefix_readable(d, i + 2)) && ies_safe(d, ie_end(d, i))
    }
}

/// The network name and security after reading the elements from `i` on,
/// starting from `ssid` and `sec`: a valid UTF-8 SSID element of 1 to 32
/// bytes sets the name; an RSN element means WPA2; a WPA vendor element
/// (OUI 00:50:F2 type 1) means WPA unless something stronger was seen.
pub open spec fn ies_walk(d: Seq<u8>, i: int, ssid: Seq<char>, sec: WifiSecurity) -> (Seq<char>, WifiSecurity)
    decreases d.len() - i,
{
    if i < 0 || i + 2 > d.len() {
        (ssid, sec)
    } else {
        let len = d[i + 1] as int;
        let s = i + 2;
        let e = ie_end(d, i);
        let next: (Seq<char>, WifiSecurity) = if d[i] == IE_SSID {
            if 0 < len <= 32 && vstd::utf8::valid_utf8(d.subrange(s, e)) {
                (vstd::utf8::decode_utf8(d.subrange(s, e)), sec)
            } else {
                (ssid, sec)
            }
        } else if d[i] == IE_RSN {
            (ssid, WifiSecurity::WPA2)
        } else if d[i] == IE_VENDOR {
            if len >= 4 && d[s] == 0x00 && d[s + 1] == 0x50 && d[s + 2] == 0xF2 && d[s + 3] == 0x01 && sec
                == WifiSecurity::Open {
                (ssid, WifiSecurity::WPA)
            } else {
                (ssid, sec)
            }
        } else {
            (ssid, sec)
        };
        ies_walk(d, e, next.0, next.1)
    }
}

/// Network name and security from a beacon's information elements.
pub fn parse_ies(d: &[u8]) -> (r: (String, WifiSecurity))
    requires
        ies_safe(d@, 0),
    ensures
        (r.0@, r.1) == ies_walk(d@, 0, Seq::<char>::empty(), WifiSecurity::Open),
{
    let mut ssid = String::new();
    let mut sec = WifiSecurity::Open;
    let mut i: usize = 0;
    while d.len() - i >= 2
        invariant
            i <= d@.len(),
            ies_safe(d@, i as int),
            ies_walk(d@, i as int, ssid@, sec) == ies_walk(d@, 0, Seq::<char>::empty(), WifiSecurity::Open),
        decreases d@.len() - i,
    {
        let id = d[i];
        let len = d[i + 1] as usize;
        let s = i + 2;
        let e = if len < d.len() - s { s + len } else { d.len() };
        if id == IE_SSID {
            if len > 0 && len <= 32 {
                let field = copy_range(d, s, e);
                match crate::util::decode_text(field.as_slice()) {
                    Some(t) => {
                        ssid = t;
                    },
                    None => {},
                }
            }
        } else if id == IE_RSN {
            sec = WifiSecurity::WPA2;
        } else if id == IE_VENDOR {
            if len >= 4 && d[s] == 0x00 && d[s + 1] == 0x50 && d[s + 2] == 0xF2 && d[s + 3] == 0x01 {
                if sec == WifiSecurity::Open {
                    sec = WifiSecurity::WPA;
                }
            }
        }
        i = e;
    }
    (ssid, sec)
}

/// A scan entry as plain values: name, BSSID, channel, signal, security,
/// frequency.
pub open spec fn net_view(f: Fg) -> (Seq<char>, Seq<u8>, u8, i8, WifiSecurity, u16) {
    (f.ssid@, f.bssid@, f.channel, f.signal_dbm, f.security, f.frequency_mhz)
}

pub open spec fn views_of(v: Seq<Fg>) -> Seq<(Seq<char>, Seq<u8>, u8, i8, WifiSecurity, u16)> {
    v.map_values(|f: Fg| net_view(f))
}

/// Most networks kept from scans.
pub const MAX_SCAN_RESULTS: usize = 32;

/// End of the information elements of the entry at `off`.
pub open spec fn entry_end(d: Seq<u8>, off: int) -> int {
    let e = off + 10 + crate::util::le16(d, off + 8);
    if e < d.len() { e } else { d.len() as int }
}

/// Every entry's elements can be read.
pub open spec fn notif_safe(d: Seq<u8>, off: int, remaining: int) -> bool
    decreases remaining,
{
    if remaining <= 0 || off + 20 > d.len() {
        true
    } else {
        ies_safe(d.subrange(off + 10, entry_end(d, off)), 0) && notif_safe(d, entry_end(d, off), remaining - 1)
    }
}

/// The scan list after reading `remaining` entries from `off`: an entry
/// (20 bytes at least: BSSID, channel, signal, element length, elements)
/// is added when it names a network, the list holds fewer than 32 and no
/// entry with its BSSID.
pub open spec fn notif_walk(
    d: Seq<u8>,
    off: int,
    remaining: int,
    acc: Seq<(Seq<char>, Seq<u8>, u8, i8, WifiSecurity, u16)>,
) -> Seq<(Seq<char>, Seq<u8>, u8, i8, WifiSecurity, u16)>
    decreases remaining,
{
    if remaining <= 0 || off + 20 > d.len() {
        acc
    } else {
        let bssid = d.subrange(off, off + 6);
        let ch = d[off + 6];
        let sig = crate::xhci::signed8(d[off + 7]) as i8;
        let e = entry_end(d, off);
        let parsed = ies_walk(d.subrange(off + 10, e), 0, Seq::<char>::empty(), WifiSecurity::Open);
        let seen = exists|k: int| 0 <= k < acc.len() && (#[trigger] acc[k]).1 == bssid;
        let acc2 = if parsed.0.len() > 0 && acc.len() < MAX_SCAN_RESULTS && !seen {
            acc.push((parsed.0, bssid, ch, sig, parsed.1, channel_freq_spec(ch)))
        } else {
            acc
        };
        notif_walk(d, e, remaining - 1, acc2)
    }
}

/// A scan list that names each BSSID once and holds at most 32 networks.
pub open spec fn scan_list_ok(v: Seq<(Seq<char>, Seq<u8>, u8, i8, WifiSecurity, u16)>) -> bool {
    &&& v.len() <= MAX_SCAN_RESULTS
    &&& forall|i: int, j: int| 0 <= i < j < v.len() ==> (#[trigger] v[i]).1 != (#[trigger] v[j]).1
}

/// Scan law: reading a scan notification keeps what the list held, in
/// front, and keeps it free of repeated BSSIDs and within 32 networks.
pub proof fn law_scan_list_stays_ok(
    d: Seq<u8>,
    off: int,
    remaining: int,
    acc: Seq<(Seq<char>, Seq<u8>, u8, i8, WifiSecurity, u16)>,
)
    requires
        scan_list_ok(acc),
    ensures
        scan_list_ok(notif_walk(d, off, remaining, acc)),
        acc.len() <= notif_walk(d, off, remaining, acc).len(),
        notif_walk(d, off, remaining, acc).subrange(0, acc.len() as int) == acc,
    decreases remaining,
{
    if remaining <= 0 || off + 20 > d.len() {
        assert(acc.subrange(0, acc.len() as int) =~= acc);
    } else {
        let bssid = d.subrange(off, off + 6);
        let ch = d[off + 6];
        let sig = crate::xhci::signed8(d[off + 7]) as i8;
        let e = entry_end(d, off);
        let parsed = ies_walk(d.subrange(off + 10, e), 0, Seq::<char>::empty(), WifiSecurity::Open);
        let seen = exists|k: int| 0 <= k < acc.len() && (#[trigger] acc[k]).1 == bssid;
        let acc2 = if parsed.0.len() > 0 && acc.len() < MAX_SCAN_RESULTS && !seen {
            acc.push((parsed.0, bssid, ch, sig, parsed.1, channel_freq_spec(ch)))
        } else {
            acc
        };
        if parsed.0.len() > 0 && acc.len() < MAX_SCAN_RESULTS && !seen {
            assert forall|i: int, j: int| 0 <= i < j < acc2.len() implies (#[trigger] acc2[i]).1 != (#[trigger] acc2[j]).1 by {
                if j == acc.len() {
                    assert(acc[i] == acc2[i]);
                }
            }
        }
        law_scan_list_stays_ok(d, e, remaining - 1, acc2);
        let r = notif_walk(d, e, remaining - 1, acc2);
        assert(r.subrange(0, acc.len() as int) =~= r.subrange(0, acc2.len() as int).subrange(0, acc.len() as int));
        assert(acc2.subrange(0, acc.len() as int) =~= acc);
    }
}

fn bssid_seen(list: &Vec<Fg>, bssid: &[u8; 6]) -> (b: bool)
    ensures
        b == exists|k: int| 0 <= k < list@.len() && (#[trigger] views_of(list@)[k]).1 == bssid@,
{
    let mut i: usize = 0;
    while i < list.len()
        invariant
            i <= list@.len(),
            forall|k: int| 0 <= k < i ==> (#[trigger] views_of(list@)[k]).1 != bssid@,
        decreases list@.len() - i,
    {
        let mut same = true;
        let mut j: usize = 0;
        while j < 6
            invariant
                j <= 6,
                i < list@.len(),
                same <==> (forall|q: int| 0 <= q < j ==> list@[i as int].bssid@[q] == bssid@[q]),
            decreases 6 - j,
        {
            if list[i].bssid[j] != bssid[j] {
                same = false;
            }
            j = j + 1;
        }
        if same {
            assert(list@[i as int].bssid@ =~= bssid@);
            assert(views_of(list@)[i as int].1 == bssid@);
            return true;
        }
        assert(list@[i as int].bssid@ != bssid@) by {
            if list@[i as int].bssid@ == bssid@ {
                assert(forall|q: int| 0 <= q < 6 ==> list@[i as int].bssid@[q] == bssid@[q]);
            }
        }
        i = i + 1;
    }
    false
}

impl Iwl4965 {
    /// Adds the networks of a scan notification to the scan list (nothing
    /// when it is shorter than its 12-byte header; byte 8 gives the number
    /// of entries, which start at byte 12).
    pub fn parse_scan_notification(&mut self, d: &[u8])
        requires
            d@.len() >= 12 ==> notif_safe(d@, 12, d@[8] as int),
        ensures
            d@.len() < 12 ==> views_of(final(self).scan_results@) == views_of(old(self).scan_results@),
            d@.len() >= 12 ==> views_of(final(self).scan_results@) == notif_walk(d@, 12, d@[8] as int, views_of(old(self).scan_results@)),
    {
        if d.len() < 12 {
            return;
        }
        let count = d[8] as usize;
        let mut off: usize = 12;
        let mut n: usize = 0;
        while n < count
            invariant
                n <= count,
                count == d@[8],
                off <= d@.len(),
                notif_safe(d@, off as int, (count - n) as int),
                notif_walk(d@, off as int, (count - n) as int, views_of(self.scan_results@)) == notif_walk(
                    d@,
                    12,
                    d@[8] as int,
                    views_of(old(self).scan_results@),
                ),
            ensures
                views_of(self.scan_results@) == notif_walk(d@, 12, d@[8] as int, views_of(old(self).scan_results@)),
            decreases count - n,
        {
            if d.len() - off < 20 {
                break;
            }
            let bssid: [u8; 6] = [d[off], d[off + 1], d[off + 2], d[off + 3], d[off + 4], d[off + 5]];
            assert(bssid@ =~= d@.subrange(off as int, off + 6));
            let ch = d[off + 6];
            let raw = d[off + 7];
            let sig: i8 = if raw < 128 { raw as i8 } else { (raw as i32 - 256) as i8 };
            let ie_len = crate::util::read_le16(d, off + 8) as usize;
            let s = off + 10;
            let e = if ie_len < d.len() - s { s + ie_len } else { d.len() };
            let region = copy_range(d, s, e);
            let (ssid, security) = parse_ies(region.as_slice());
            let ghost before = views_of(self.scan_results@);
            let seen = bssid_seen(&self.scan_results, &bssid);
            if ssid.unicode_len() > 0 && self.scan_results.len() < MAX_SCAN_RESULTS && !seen {
                let freq = channel_freq(ch);
                let f = Fg { ssid, bssid, channel: ch, signal_dbm: sig, security, frequency_mhz: freq };
                self.scan_results.push(f);
                assert(views_of(self.scan_results@) =~= before.push(net_view(f)));
            }
            off = e;
            n = n + 1;
        }
    }
}

} // verus!
