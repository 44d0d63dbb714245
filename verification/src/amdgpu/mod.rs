//! AMD GPU support: the adapter description, how it is found on the PCI
//! bus, and its display engine.
pub mod dcn;
pub mod compute;
pub mod sdma;
pub mod neural;
pub mod firmware;

use vstd::prelude::*;
use crate::framework::PciFunction;
use crate::util::{decimal, hex_upper, hex_upper_padded, push_decimal, push_hex_upper, push_hex_upper_padded, push_text, chars_to_string, views, push_line};

verus! {

/// AMD's PCI vendor id.
pub const AMD_VENDOR: u16 = 0x1002;

/// PCI class of display controllers.
pub const PCI_CLASS_DISPLAY: u8 = 0x03;

/// Known Navi device ids, in the order they are looked for.
pub open spec fn navi_ids() -> Seq<u16> {
    seq![0x7310u16, 0x7312, 0x7318, 0x7319, 0x731A, 0x731B, 0x731E, 0x731F, 0x7340, 0x7341, 0x7347, 0x734F]
}

fn navi_id_list() -> (v: Vec<u16>)
    ensures
        v@ == navi_ids(),
{
    let v: Vec<u16> = vec![0x7310u16, 0x7312, 0x7318, 0x7319, 0x731A, 0x731B, 0x731E, 0x731F, 0x7340, 0x7341, 0x7347, 0x734F];
    assert(v@ =~= navi_ids());
    v
}

/// Index of the first function with the given vendor and device id.
pub open spec fn first_with_id(devs: Seq<PciFunction>, vendor: u16, id: u16) -> Option<int> {
    if exists|i: int| 0 <= i < devs.len() && devs[i].vendor_id == vendor && devs[i].device_id == id {
        Some(
            choose|i: int|
                0 <= i < devs.len() && devs[i].vendor_id == vendor && devs[i].device_id == id && forall|j: int|
                    0 <= j < i ==> !(devs[j].vendor_id == vendor && devs[j].device_id == id),
        )
    } else {
        None
    }
}

/// The GPU chosen: the first function carrying the first known Navi id
/// that is present (ids tried in list order); else the first AMD display
/// controller; else none.
pub open spec fn probe_spec(devs: Seq<PciFunction>) -> Option<PciFunction>
{
    probe_from(devs, 0)
}

pub open spec fn probe_from(devs: Seq<PciFunction>, k: int) -> Option<PciFunction>
    decreases 12 - k,
{
    if k >= 12 || k < 0 {
        if exists|i: int| 0 <= i < devs.len() && devs[i].class == PCI_CLASS_DISPLAY && devs[i].vendor_id == AMD_VENDOR {
            let i = choose|i: int|
                0 <= i < devs.len() && devs[i].class == PCI_CLASS_DISPLAY && devs[i].vendor_id == AMD_VENDOR
                    && forall|j: int| 0 <= j < i ==> !(devs[j].class == PCI_CLASS_DISPLAY && devs[j].vendor_id == AMD_VENDOR);
            Some(devs[i])
        } else {
            None
        }
    } else {
        match first_with_id(devs, AMD_VENDOR, navi_ids()[k]) {
            Some(i) => Some(devs[i]),
            None => probe_from(devs, k + 1),
        }
    }
}

fn find_id(devs: &Vec<PciFunction>, vendor: u16, id: u16) -> (r: Option<usize>)
    ensures
        match r {
            Some(i) => i < devs@.len() && first_with_id(devs@, vendor, id) == Some(i as int),
            None => first_with_id(devs@, vendor, id) is None,
        },
{
    let mut i: usize = 0;
    while i < devs.len()
        invariant
            i <= devs@.len(),
            forall|j: int| 0 <= j < i ==> !(devs@[j].vendor_id == vendor && devs@[j].device_id == id),
        decreases devs@.len() - i,
    {
        if devs[i].vendor_id == vendor && devs[i].device_id == id {
            let ghost w = choose|q: int|
                0 <= q < devs@.len() && devs@[q].vendor_id == vendor && devs@[q].device_id == id && forall|j: int|
                    0 <= j < q ==> !(devs@[j].vendor_id == vendor && devs@[j].device_id == id);
            assert(exists|q: int| 0 <= q < devs@.len() && devs@[q].vendor_id == vendor && devs@[q].device_id == id && forall|j: int|
                    0 <= j < q ==> !(devs@[j].vendor_id == vendor && devs@[j].device_id == id)) by {
                assert(devs@[i as int].vendor_id == vendor);
            }
            proof {
                if w > i {
                    assert(!(devs@[i as int].vendor_id == vendor && devs@[i as int].device_id == id));
                }
            }
            return Some(i);
        }
        i = i + 1;
    }
    None
}

/// Finds the GPU among the enumerated PCI functions.
pub fn probe(devs: &Vec<PciFunction>) -> (r: Option<PciFunction>)
    ensures
        r == probe_spec(devs@),
{
    let ids = navi_id_list();
    let mut k: usize = 0;
    while k < 12
        invariant
            k <= 12,
            ids@ == navi_ids(),
            probe_from(devs@, k as int) == probe_from(devs@, 0),
        decreases 12 - k,
    {
        match find_id(devs, AMD_VENDOR, ids[k]) {
            Some(i) => {
                return Some(devs[i]);
            },
            None => {},
        }
        k = k + 1;
    }
    let mut i: usize = 0;
    while i < devs.len()
        invariant
            i <= devs@.len(),
            probe_from(devs@, 12) == probe_from(devs@, 0),
            forall|j: int| 0 <= j < i ==> !(devs@[j].class == PCI_CLASS_DISPLAY && devs@[j].vendor_id == AMD_VENDOR),
        decreases devs@.len() - i,
    {
        if devs[i].class == PCI_CLASS_DISPLAY && devs[i].vendor_id == AMD_VENDOR {
            let ghost w = choose|q: int|
                0 <= q < devs@.len() && devs@[q].class == PCI_CLASS_DISPLAY && devs@[q].vendor_id == AMD_VENDOR
                    && forall|j: int| 0 <= j < q ==> !(devs@[j].class == PCI_CLASS_DISPLAY && devs@[j].vendor_id == AMD_VENDOR);
            assert(exists|q: int| 0 <= q < devs@.len() && devs@[q].class == PCI_CLASS_DISPLAY && devs@[q].vendor_id == AMD_VENDOR
                    && forall|j: int| 0 <= j < q ==> !(devs@[j].class == PCI_CLASS_DISPLAY && devs@[j].vendor_id == AMD_VENDOR)) by {
                assert(devs@[i as int].class == PCI_CLASS_DISPLAY);
            }
            proof {
                if w > i {
                    assert(!(devs@[i as int].class == PCI_CLASS_DISPLAY && devs@[i as int].vendor_id == AMD_VENDOR));
                }
            }
            return Some(devs[i]);
        }
        i = i + 1;
    }
    None
}

/// Description of the adapter found.
#[derive(Clone, Copy, Debug)]
pub struct Hz {
    pub vendor_id: u16,
    pub device_id: u16,
    pub bus: u8,
    pub device: u8,
    pub function: u8,
    pub revision: u8,
    pub asic_family: u32,
    pub chip_external_rev: u32,
    pub family_name: &'static str,
    pub vram_size: u64,
    pub vram_type: &'static str,
    pub mmio_base_phys: u64,
    pub mmio_base_virt: u64,
    pub mmio_size: u64,
    pub vram_aperture_phys: u64,
    pub vram_aperture_size: u64,
    pub pcie_link_speed: u8,
    pub pcie_link_width: u8,
    pub has_msi: bool,
    pub has_msix: bool,
    pub compute_units: u32,
    pub gpu_clock_mhz: u32,
}

pub open spec fn gpu_name_spec(h: Hz) -> &'static str {
    if h.device_id == 0x731F {
        if h.revision == 0xC1 {
            "AMD Radeon RX 5700 XT"
        } else if h.revision == 0xC0 || h.revision == 0xC4 {
            "AMD Radeon RX 5700"
        } else if h.revision == 0xC2 || h.revision == 0xC3 {
            "AMD Radeon RX 5600 XT"
        } else {
            "AMD Radeon Navi 10"
        }
    } else if h.device_id == 0x7340 {
        "AMD Radeon RX 5500 XT"
    } else if h.device_id == 0x7341 {
        "AMD Radeon Pro W5500"
    } else if h.device_id == 0x7312 {
        "AMD Radeon Pro W5700X"
    } else {
        "AMD Radeon (Unknown Navi)"
    }
}

/// Memory size in the largest whole unit: "N GB", "N MB", "N KB", or
/// "Unknown" for 0.
pub open spec fn vram_text(n: u64) -> Seq<char> {
    if n >= 0x4000_0000 {
        decimal((n / 0x4000_0000) as nat) + " GB"@
    } else if n >= 0x10_0000 {
        decimal((n / 0x10_0000) as nat) + " MB"@
    } else if n > 0 {
        decimal((n / 1024) as nat) + " KB"@
    } else {
        "Unknown"@
    }
}

pub open spec fn link_speed_text(speed: u8) -> &'static str {
    if speed == 1 {
        "2.5 GT/s (Gen1)"
    } else if speed == 2 {
        "5.0 GT/s (Gen2)"
    } else if speed == 3 {
        "8.0 GT/s (Gen3)"
    } else if speed == 4 {
        "16.0 GT/s (Gen4)"
    } else {
        "Unknown"
    }
}

/// "PCIe xW SPEED".
pub open spec fn pcie_text(h: Hz) -> Seq<char> {
    "PCIe x"@ + decimal(h.pcie_link_width as nat) + " "@ + link_speed_text(h.pcie_link_speed)@
}

impl Hz {
    /// Marketing name from device id and revision.
    pub fn gpu_name(&self) -> (s: &'static str)
        ensures
            s == gpu_name_spec(*self),
    {
        match self.device_id {
            0x731F => match self.revision {
                0xC1 => "AMD Radeon RX 5700 XT",
                0xC0 | 0xC4 => "AMD Radeon RX 5700",
                0xC2 | 0xC3 => "AMD Radeon RX 5600 XT",
                _ => "AMD Radeon Navi 10",
            },
            0x7340 => "AMD Radeon RX 5500 XT",
            0x7341 => "AMD Radeon Pro W5500",
            0x7312 => "AMD Radeon Pro W5700X",
            _ => "AMD Radeon (Unknown Navi)",
        }
    }

    fn vram_string_chars(&self) -> (out: Vec<char>)
        ensures
            out@ == vram_text(self.vram_size),
    {
        let mut out: Vec<char> = Vec::new();
        let n = self.vram_size;
        if n >= 0x4000_0000 {
            push_decimal(&mut out, n / 0x4000_0000);
            push_text(&mut out, " GB");
        } else if n >= 0x10_0000 {
            push_decimal(&mut out, n / 0x10_0000);
            push_text(&mut out, " MB");
        } else if n > 0 {
            push_decimal(&mut out, n / 1024);
            push_text(&mut out, " KB");
        } else {
            push_text(&mut out, "Unknown");
        }
        out
    }

    /// Video memory size as text.
    pub fn vram_string(&self) -> (s: String)
        ensures
            s@ == vram_text(self.vram_size),
    {
        chars_to_string(self.vram_string_chars())
    }

    fn pcie_link_chars(&self) -> (out: Vec<char>)
        ensures
            out@ == pcie_text(*self),
    {
        let mut out: Vec<char> = Vec::new();
        push_text(&mut out, "PCIe x");
        push_decimal(&mut out, self.pcie_link_width as u64);
        push_text(&mut out, " ");
        let speed = match self.pcie_link_speed {
            1 => "2.5 GT/s (Gen1)",
            2 => "5.0 GT/s (Gen2)",
            3 => "8.0 GT/s (Gen3)",
            4 => "16.0 GT/s (Gen4)",
            _ => "Unknown",
        };
        push_text(&mut out, speed);
        out
    }

    /// PCIe link width and speed as text.
    pub fn pcie_link_string(&self) -> (s: String)
        ensures
            s@ == pcie_text(*self),
    {
        chars_to_string(self.pcie_link_chars())
    }
}

/// Family name of an ASIC family id.
pub open spec fn family_name_spec(f: u32) -> &'static str {
    if f == 143 {
        "Navi 10 (RDNA 1)"
    } else if f == 144 {
        "Navi 14 (RDNA 1)"
    } else if f == 141 {
        "Vega 10 (GCN 5)"
    } else if f == 142 {
        "Raven (Vega APU)"
    } else {
        "Unknown"
    }
}

pub fn family_name(f: u32) -> (s: &'static str)
    ensures
        s == family_name_spec(f),
{
    match f {
        143 => "Navi 10 (RDNA 1)",
        144 => "Navi 14 (RDNA 1)",
        141 => "Vega 10 (GCN 5)",
        142 => "Raven (Vega APU)",
        _ => "Unknown",
    }
}

/// Whether a BAR is the low half of a 64-bit memory BAR (memory space,
/// type 2) whose high half (the next BAR) exists.
pub fn bar_is_64(orig: u32, bar_index: usize) -> (b: bool)
    ensures
        b == (orig % 2 == 0 && (orig / 2) % 4 == 2 && bar_index < 5),
{
    orig % 2 == 0 && (orig / 2) % 4 == 2 && bar_index < 5
}

/// Size of a BAR from its original value and what it read after all ones
/// were written (`hi`: the same for the upper half of a 64-bit BAR).
/// Memory BARs ignore the low four bits, I/O BARs the low two and report
/// at most 64 KiB; a BAR reading 0 has size 0.
pub open spec fn bar_size_spec(orig: u32, probed: u32, hi: Option<u32>) -> int {
    if probed == 0 {
        0
    } else if orig % 2 == 0 {
        let mask = probed - probed % 16;
        if mask == 0 {
            0
        } else {
            match hi {
                Some(h) => 0x1_0000_0000_0000_0000 - (h * 0x1_0000_0000 + mask),
                None => 0x1_0000_0000 - mask,
            }
        }
    } else {
        let mask = probed - probed % 4;
        if mask == 0 {
            0
        } else {
            (0x1_0000_0000 - mask) % 0x1_0000
        }
    }
}

pub fn bar_size(orig: u32, probed: u32, hi: Option<u32>) -> (n: u64)
    ensures
        n == bar_size_spec(orig, probed, hi),
{
    if probed == 0 {
        return 0;
    }
    if orig % 2 == 0 {
        let mask = probed - probed % 16;
        if mask == 0 {
            return 0;
        }
        match hi {
            Some(h) => {
                let full: u64 = (h as u64) * 0x1_0000_0000 + mask as u64;
                0u64.wrapping_sub(full)
            },
            None => 0x1_0000_0000u64 - mask as u64,
        }
    } else {
        let mask = probed - probed % 4;
        if mask == 0 {
            return 0;
        }
        (0x1_0000_0000u64 - mask as u64) % 0x1_0000
    }
}

/// Link speed (bits 0..4) and width (bits 4..10) of a PCIe link status
/// word.
pub fn link_status(status: u16) -> (r: (u8, u8))
    ensures
        r.0 == status % 16,
        r.1 == (status / 16) % 64,
{
    ((status % 16) as u8, ((status / 16) % 64) as u8)
}

/// Driver state: whether set up, and the adapter's description.
pub struct GpuState {
    pub initialized: bool,
    pub gpu_info: Option<Hz>,
}

/// Records the adapter found.  Without one, or when its register BAR is
/// missing, nothing is recorded.
pub fn init(st: &mut GpuState, found: Option<Hz>)
    ensures
        match found {
            Some(h) if h.mmio_base_phys != 0 => final(st).initialized && final(st).gpu_info == Some(h),
            _ => *final(st) == *old(st),
        },
{
    match found {
        Some(h) => {
            if h.mmio_base_phys != 0 {
                st.initialized = true;
                st.gpu_info = Some(h);
            }
        },
        None => {},
    }
}

/// Number of set bits among the low `n` bits of `x`.
pub open spec fn ones(x: nat, n: nat) -> nat
    decreases n,
{
    if n == 0 { 0 } else { x % 2 + ones(x / 2, (n - 1) as nat) }
}

/// What the identity registers tell: (ASIC family, GC version as read,
/// compute units, clock in MHz, memory channel field).  The family is
/// Navi 10 (143) for GC 10.1, Navi 14 (144) for GC 10.3, else unknown (0);
/// the compute units are 40 less the disabled ones (the set bits of the
/// shader-array configuration's low half, 0 when that half reads all
/// ones); the clock is the low half of the clock-pin register unless it
/// reads 0 or all ones.
pub open spec fn identity_spec(gc_version: u32, shader_cfg: u32, clk_pin: u32, ramcfg: u32) -> (u32, u32, u32, u32, u32) {
    let major = (gc_version / 0x10000) % 256;
    let minor = (gc_version / 0x100) % 256;
    let family: u32 = if major == 10 && minor == 1 { 143 } else if major == 10 && minor == 3 { 144 } else { 0 };
    let mask = shader_cfg % 0x10000;
    let disabled = ones(mask as nat, 16);
    let cus: u32 = if mask != 0xFFFF { (if disabled < 40 { 40 - disabled } else { 0 }) as u32 } else { 0 };
    let clock: u32 = if clk_pin != 0 && clk_pin != 0xFFFF_FFFF { clk_pin % 0x10000 } else { 0 };
    (family, gc_version, cus, clock, (ramcfg / 0x100) % 256)
}

/// Decodes the identity registers.
pub fn decode_identity(gc_version: u32, shader_cfg: u32, clk_pin: u32, ramcfg: u32) -> (r: (u32, u32, u32, u32, u32))
    ensures
        r == identity_spec(gc_version, shader_cfg, clk_pin, ramcfg),
{
    let major = (gc_version / 0x10000) % 256;
    let minor = (gc_version / 0x100) % 256;
    let family: u32 = if major == 10 && minor == 1 { 143 } else if major == 10 && minor == 3 { 144 } else { 0 };
    let mask = shader_cfg % 0x10000;
    let mut disabled: u32 = 0;
    let mut x: u32 = mask;
    let mut k: u32 = 0;
    while k < 16
        invariant
            k <= 16,
            x < 0x10000,
            disabled <= k,
            disabled + ones(x as nat, (16 - k) as nat) == ones(mask as nat, 16),
        decreases 16 - k,
    {
        disabled = disabled + x % 2;
        x = x / 2;
        k = k + 1;
    }
    proof {
        assert(ones(x as nat, 0) == 0);
    }
    let cus: u32 = if mask != 0xFFFF { if disabled < 40 { 40 - disabled } else { 0 } } else { 0 };
    let clock: u32 = if clk_pin != 0 && clk_pin != 0xFFFF_FFFF { clk_pin % 0x10000 } else { 0 };
    (family, gc_version, cus, clock, (ramcfg / 0x100) % 256)
}

/// VRAM size in bytes: from the frame-buffer location registers (base and
/// top in MB, low 16 bits) when the top lies above a readable base and the
/// size is at most 32 GB; else from the memory-size register in MB unless
/// it reads 0 or all ones; else 0.
pub fn vram_size(fb_base: u32, fb_top: u32, memsize: u32) -> (n: u64)
    ensures
        n == (if fb_top > fb_base && fb_base != 0xFFFF_FFFF && (fb_top % 0x10000 >= fb_base % 0x10000)
            && ((fb_top % 0x10000 - fb_base % 0x10000 + 1) * 0x10_0000 <= 32 * 0x4000_0000) {
            ((fb_top % 0x10000 - fb_base % 0x10000 + 1) * 0x10_0000) as u64
        } else if memsize != 0 && memsize != 0xFFFF_FFFF {
            (memsize as int * 0x10_0000) as u64
        } else {
            0u64
        }),
{
    if fb_top > fb_base && fb_base != 0xFFFF_FFFF {
        let lo = (fb_base % 0x10000) as u64;
        let hi = (fb_top % 0x10000) as u64;
        if hi >= lo {
            let size = (hi - lo + 1) * 1024 * 1024;
            if size <= 32 * 1024 * 1024 * 1024 {
                return size;
            }
        }
    }
    if memsize != 0 && memsize != 0xFFFF_FFFF {
        return (memsize as u64) * 1024 * 1024;
    }
    0
}

/// Memory type named by bits 28..32 of the memory sequencer register.
pub fn vram_type(misc0: u32) -> (s: &'static str)
    ensures
        s == (match misc0 / 0x1000_0000 {
            1 => "DDR2",
            2 => "DDR3",
            3 => "GDDR3",
            4 => "GDDR4",
            5 => "GDDR5",
            6 => "HBM",
            7 => "HBM2",
            8 | 9 => "GDDR6",
            _ => "GDDR6 (assumed)",
        }),
{
    match misc0 / 0x1000_0000 {
        1 => "DDR2",
        2 => "DDR3",
        3 => "GDDR3",
        4 => "GDDR4",
        5 => "GDDR5",
        6 => "HBM",
        7 => "HBM2",
        8 | 9 => "GDDR6",
        _ => "GDDR6 (assumed)",
    }
}

/// Whether the adapter was set up.
pub fn aud(st: &GpuState) -> (b: bool)
    ensures
        b == st.initialized,
{
    st.initialized
}

/// The adapter's description.
pub fn rk(st: &GpuState) -> (r: Option<Hz>)
    ensures
        r == st.gpu_info,
{
    st.gpu_info
}

pub open spec fn cu_text(n: u32) -> Seq<char> {
    if n > 0 { decimal(n as nat) } else { "?"@ }
}

fn cu_chars(n: u32) -> (out: Vec<char>)
    ensures
        out@ == cu_text(n),
{
    let mut out: Vec<char> = Vec::new();
    if n > 0 {
        push_decimal(&mut out, n as u64);
    } else {
        push_text(&mut out, "?");
    }
    out
}

pub open spec fn summary_spec(st: GpuState) -> Seq<char> {
    match st.gpu_info {
        Some(info) => (gpu_name_spec(info))@ + " | "@ + (vram_text(info.vram_size)) + " "@ + (info.vram_type)@ + " | "@ + (pcie_text(info)) + " | CU:"@ + (cu_text(info.compute_units)),
        None => "No AMD GPU detected"@,
    }
}

/// One-line description of the adapter.
pub fn summary(st: &GpuState) -> (s: String)
    ensures
        s@ == summary_spec(*st),
{
    let mut out: Vec<char> = Vec::new();
    match rk(st) {
        Some(info) => {
            push_text(&mut out, info.gpu_name());
            push_text(&mut out, " | ");
            crate::util::append_chars(&mut out, &info.vram_string_chars());
            push_text(&mut out, " ");
            push_text(&mut out, info.vram_type);
            push_text(&mut out, " | ");
            crate::util::append_chars(&mut out, &info.pcie_link_chars());
            push_text(&mut out, " | CU:");
            crate::util::append_chars(&mut out, &cu_chars(info.compute_units));
        },
        None => {
            push_text(&mut out, "No AMD GPU detected");
        },
    }
    chars_to_string(out)
}

pub open spec fn yes_no(b: bool) -> &'static str {
    if b { "Yes" } else { "No " }
}

fn yes_no_text(b: bool) -> (s: &'static str)
    ensures
        s == yes_no(b),
{
    if b { "Yes" } else { "No " }
}

pub open spec fn info_spec(st: GpuState) -> Seq<Seq<char>> {
    match st.gpu_info {
        Some(info) => seq!["╔══════════════════════════════════════════════╗"@, "║        AMD GPU — "@ + (gpu_name_spec(info))@ + "        ║"@, "╠══════════════════════════════════════════════╣"@, "║ PCI ID:    "@ + hex_upper_padded((info.vendor_id) as nat, 4nat) + ":"@ + hex_upper_padded((info.device_id) as nat, 4nat) + " rev "@ + hex_upper_padded((info.revision) as nat, 2nat) + "                 ║"@, "║ Location:  "@ + hex_upper_padded((info.bus) as nat, 2nat) + ":"@ + hex_upper_padded((info.device) as nat, 2nat) + "."@ + decimal((info.function) as nat) + "                          ║"@, "║ Family:    "@ + (info.family_name)@ + "               ║"@, "║ VRAM:      "@ + (vram_text(info.vram_size)) + " ("@ + (info.vram_type)@ + ")            ║"@, "║ PCIe:      "@ + (pcie_text(info)) + "              ║"@] + (if info.compute_units > 0 { seq!["║ CUs:       "@ + decimal((info.compute_units) as nat) + "                               ║"@] } else { Seq::<Seq<char>>::empty() })
            + seq!["║ MMIO:      "@ + "0x"@ + hex_upper((info.mmio_base_virt) as nat) + " ("@ + decimal((info.mmio_size / 1024) as nat) + " KB)        ║"@, "║ VRAM Apt:  "@ + "0x"@ + hex_upper((info.vram_aperture_phys) as nat) + " ("@ + decimal((info.vram_aperture_size / 0x10_0000u64) as nat) + " MB)     ║"@, "║ MSI: "@ + (yes_no(info.has_msi))@ + "  MSI-X: "@ + (yes_no(info.has_msix))@ + "                        ║"@, "╚══════════════════════════════════════════════╝"@],
        None => seq!["No AMD GPU detected"@, "(GPU passthrough or bare metal required)"@],
    }
}

/// The adapter's description as a framed table.
pub fn info_lines(st: &GpuState) -> (lines: Vec<String>)
    ensures
        views(lines@) == info_spec(*st),
{
    let mut lines: Vec<String> = Vec::new();
    match rk(st) {
        Some(info) => {
            let mut out: Vec<char> = Vec::new();
            push_text(&mut out, "╔══════════════════════════════════════════════╗");
            push_line(&mut lines, out);
            let mut out: Vec<char> = Vec::new();
            push_text(&mut out, "║        AMD GPU — ");
            push_text(&mut out, info.gpu_name());
            push_text(&mut out, "        ║");
            push_line(&mut lines, out);
            let mut out: Vec<char> = Vec::new();
            push_text(&mut out, "╠══════════════════════════════════════════════╣");
            push_line(&mut lines, out);
            let mut out: Vec<char> = Vec::new();
            push_text(&mut out, "║ PCI ID:    ");
            push_hex_upper_padded(&mut out, (info.vendor_id) as u64, 4);
            push_text(&mut out, ":");
            push_hex_upper_padded(&mut out, (info.device_id) as u64, 4);
            push_text(&mut out, " rev ");
            push_hex_upper_padded(&mut out, (info.revision) as u64, 2);
            push_text(&mut out, "                 ║");
            push_line(&mut lines, out);
            let mut out: Vec<char> = Vec::new();
            push_text(&mut out, "║ Location:  ");
            push_hex_upper_padded(&mut out, (info.bus) as u64, 2);
            push_text(&mut out, ":");
            push_hex_upper_padded(&mut out, (info.device) as u64, 2);
            push_text(&mut out, ".");
            push_decimal(&mut out, (info.function) as u64);
            push_text(&mut out, "                          ║");
            push_line(&mut lines, out);
            let mut out: Vec<char> = Vec::new();
            push_text(&mut out, "║ Family:    ");
            push_text(&mut out, info.family_name);
            push_text(&mut out, "               ║");
            push_line(&mut lines, out);
            let mut out: Vec<char> = Vec::new();
            push_text(&mut out, "║ VRAM:      ");
            crate::util::append_chars(&mut out, &info.vram_string_chars());
            push_text(&mut out, " (");
            push_text(&mut out, info.vram_type);
            push_text(&mut out, ")            ║");
            push_line(&mut lines, out);
            let mut out: Vec<char> = Vec::new();
            push_text(&mut out, "║ PCIe:      ");
            crate::util::append_chars(&mut out, &info.pcie_link_chars());
            push_text(&mut out, "              ║");
            push_line(&mut lines, out);
            assert(views(lines@) =~= seq!["╔══════════════════════════════════════════════╗"@, "║        AMD GPU — "@ + (gpu_name_spec(info))@ + "        ║"@, "╠══════════════════════════════════════════════╣"@, "║ PCI ID:    "@ + hex_upper_padded((info.vendor_id) as nat, 4nat) + ":"@ + hex_upper_padded((info.device_id) as nat, 4nat) + " rev "@ + hex_upper_padded((info.revision) as nat, 2nat) + "                 ║"@, "║ Location:  "@ + hex_upper_padded((info.bus) as nat, 2nat) + ":"@ + hex_upper_padded((info.device) as nat, 2nat) + "."@ + decimal((info.function) as nat) + "                          ║"@, "║ Family:    "@ + (info.family_name)@ + "               ║"@, "║ VRAM:      "@ + (vram_text(info.vram_size)) + " ("@ + (info.vram_type)@ + ")            ║"@, "║ PCIe:      "@ + (pcie_text(info)) + "              ║"@]);
            let ghost h = views(lines@);
            if info.compute_units > 0 {
                let mut out: Vec<char> = Vec::new();
                push_text(&mut out, "║ CUs:       ");
                push_decimal(&mut out, (info.compute_units) as u64);
                push_text(&mut out, "                               ║");
                push_line(&mut lines, out);
            }
            assert(views(lines@) =~= h + (if info.compute_units > 0 { seq!["║ CUs:       "@ + decimal((info.compute_units) as nat) + "                               ║"@] } else { Seq::<Seq<char>>::empty() }));
            let mut out: Vec<char> = Vec::new();
            push_text(&mut out, "║ MMIO:      ");
            push_text(&mut out, "0x");
            push_hex_upper(&mut out, (info.mmio_base_virt) as u64);
            push_text(&mut out, " (");
            push_decimal(&mut out, (info.mmio_size / 1024) as u64);
            push_text(&mut out, " KB)        ║");
            push_line(&mut lines, out);
            let mut out: Vec<char> = Vec::new();
            push_text(&mut out, "║ VRAM Apt:  ");
            push_text(&mut out, "0x");
            push_hex_upper(&mut out, (info.vram_aperture_phys) as u64);
            push_text(&mut out, " (");
            push_decimal(&mut out, (info.vram_aperture_size / 0x10_0000) as u64);
            push_text(&mut out, " MB)     ║");
            push_line(&mut lines, out);
            let mut out: Vec<char> = Vec::new();
            push_text(&mut out, "║ MSI: ");
            push_text(&mut out, yes_no_text(info.has_msi));
            push_text(&mut out, "  MSI-X: ");
            push_text(&mut out, yes_no_text(info.has_msix));
            push_text(&mut out, "                        ║");
            push_line(&mut lines, out);
            let mut out: Vec<char> = Vec::new();
            push_text(&mut out, "╚══════════════════════════════════════════════╝");
            push_line(&mut lines, out);
        },
        None => {
            let mut out: Vec<char> = Vec::new();
            push_text(&mut out, "No AMD GPU detected");
            push_line(&mut lines, out);
            let mut out: Vec<char> = Vec::new();
            push_text(&mut out, "(GPU passthrough or bare metal required)");
            push_line(&mut lines, out);
        },
    }
    assert(views(lines@) =~= info_spec(*st));
    lines
}

} // verus!
