//! NVIDIA (NV50 family) adapters: description and state as reported.
use vstd::prelude::*;
use crate::util::{decimal, push_decimal, push_text, chars_to_string};

verus! {

/// Description of the adapter found.
#[derive(Clone, Copy, Debug)]
pub struct Pr {
    pub vendor_id: u16,
    pub device_id: u16,
    pub revision: u8,
    pub bus: u8,
    pub device: u8,
    pub function: u8,
    pub chipset_id: u8,
    pub stepping: u8,
    pub gpu_name: &'static str,
    pub vram_size: u64,
    pub mmio_base: u64,
    pub mmio_size: u64,
    pub vram_base: u64,
    pub vram_aperture_size: u64,
    pub pcie_gen: u8,
    pub pcie_width: u8,
}

pub open spec fn chipset_name_spec(id: u8) -> &'static str {
    if id == 0x50 {
        "G80"
    } else if id == 0x84 {
        "G84"
    } else if id == 0x86 {
        "G86"
    } else if id == 0x92 {
        "G92"
    } else if id == 0x94 {
        "G94"
    } else if id == 0x96 {
        "G96"
    } else if id == 0x98 {
        "G98"
    } else if id == 0xA0 {
        "GT200"
    } else {
        "NV50-unknown"
    }
}

impl Pr {
    /// Chipset name from its id.
    pub fn chipset_name(&self) -> (s: &'static str)
        ensures
            s == chipset_name_spec(self.chipset_id),
    {
        match self.chipset_id {
            0x50 => "G80",
            0x84 => "G84",
            0x86 => "G86",
            0x92 => "G92",
            0x94 => "G94",
            0x96 => "G96",
            0x98 => "G98",
            0xA0 => "GT200",
            _ => "NV50-unknown",
        }
    }

    pub open spec fn summary_spec(&self) -> Seq<char> {
        (self.gpu_name)@ + " ("@ + (chipset_name_spec(self.chipset_id))@ + ") | "@ + decimal((self.vram_size / 0x10_0000u64) as nat) + " MB VRAM | PCIe Gen"@ + decimal((self.pcie_gen) as nat) + " x"@ + decimal((self.pcie_width) as nat)
    }

    /// One line: name, chipset, memory in MB and PCIe link.
    pub fn summary_string(&self) -> (s: String)
        ensures
            s@ == self.summary_spec(),
    {
        let mut out: Vec<char> = Vec::new();
        push_text(&mut out, self.gpu_name);
        push_text(&mut out, " (");
        push_text(&mut out, self.chipset_name());
        push_text(&mut out, ") | ");
        push_decimal(&mut out, (self.vram_size / 0x10_0000) as u64);
        push_text(&mut out, " MB VRAM | PCIe Gen");
        push_decimal(&mut out, (self.pcie_gen) as u64);
        push_text(&mut out, " x");
        push_decimal(&mut out, (self.pcie_width) as u64);
        chars_to_string(out)
    }
}

/// Driver state: set up, adapter found, 2D acceleration ready.
pub struct Abv {
    pub initialized: bool,
    pub gpu_info: Option<Pr>,
    pub accel_2d_ready: bool,
}

/// Whether the adapter was set up.
pub fn aud(st: &Abv) -> (b: bool)
    ensures
        b == st.initialized,
{
    st.initialized
}

/// Whether 2D acceleration is ready.
pub fn mrv(st: &Abv) -> (b: bool)
    ensures
        b == st.accel_2d_ready,
{
    st.accel_2d_ready
}

/// The adapter's description.
pub fn rk(st: &Abv) -> (r: Option<Pr>)
    ensures
        r == st.gpu_info,
{
    st.gpu_info
}

pub open spec fn summary_text(st: Abv) -> Seq<char> {
    match st.gpu_info {
        Some(p) => p.summary_spec(),
        None => "No NVIDIA GPU detected"@,
    }
}

/// One-line state.
pub fn summary(st: &Abv) -> (s: String)
    ensures
        s@ == summary_text(*st),
{
    match rk(st) {
        Some(p) => p.summary_string(),
        None => String::from_str("No NVIDIA GPU detected"),
    }
}


/// Marketing name of an NV50-family device id, by the id ranges known;
/// `None` outside them.
pub open spec fn model_name(id: u16) -> Option<&'static str> {
    if 0x0190 <= id <= 0x019F {
        Some("GeForce 8800")
    } else if 0x0400 <= id <= 0x040F {
        Some("GeForce 8600")
    } else if 0x0420 <= id <= 0x042F {
        Some("Quadro NVS 140M / GeForce 8500")
    } else if 0x0600 <= id <= 0x060F {
        Some("GeForce 8800/9800")
    } else if 0x0620 <= id <= 0x063F {
        Some("GeForce 9600")
    } else if 0x0640 <= id <= 0x065F {
        Some("GeForce 9500/9400")
    } else if 0x06E0 <= id <= 0x06EF {
        Some("GeForce G100/G105M")
    } else if 0x05E0 <= id <= 0x05EF {
        Some("GeForce GTX 260/280")
    } else if 0x0840 <= id <= 0x084F {
        Some("GeForce 8200M")
    } else if 0x0860 <= id <= 0x086F {
        Some("GeForce 8100/8200")
    } else {
        None
    }
}

fn model_lookup(id: u16) -> (r: Option<&'static str>)
    ensures
        r == model_name(id),
{
    let table: [(u16, u16, &'static str); 10] = [
        (0x0190, 0x019F, "GeForce 8800"),
        (0x0400, 0x040F, "GeForce 8600"),
        (0x0420, 0x042F, "Quadro NVS 140M / GeForce 8500"),
        (0x0600, 0x060F, "GeForce 8800/9800"),
        (0x0620, 0x063F, "GeForce 9600"),
        (0x0640, 0x065F, "GeForce 9500/9400"),
        (0x06E0, 0x06EF, "GeForce G100/G105M"),
        (0x05E0, 0x05EF, "GeForce GTX 260/280"),
        (0x0840, 0x084F, "GeForce 8200M"),
        (0x0860, 0x086F, "GeForce 8100/8200"),
    ];
    let mut i: usize = 0;
    while i < 10
        invariant
            i <= 10,
            table@ == seq![
                (0x0190u16, 0x019Fu16, "GeForce 8800"),
                (0x0400u16, 0x040Fu16, "GeForce 8600"),
                (0x0420u16, 0x042Fu16, "Quadro NVS 140M / GeForce 8500"),
                (0x0600u16, 0x060Fu16, "GeForce 8800/9800"),
                (0x0620u16, 0x063Fu16, "GeForce 9600"),
                (0x0640u16, 0x065Fu16, "GeForce 9500/9400"),
                (0x06E0u16, 0x06EFu16, "GeForce G100/G105M"),
                (0x05E0u16, 0x05EFu16, "GeForce GTX 260/280"),
                (0x0840u16, 0x084Fu16, "GeForce 8200M"),
                (0x0860u16, 0x086Fu16, "GeForce 8100/8200"),
            ],
            forall|k: int| 0 <= k < i ==> !((#[trigger] table@[k]).0 <= id <= table@[k].1),
        decreases 10 - i,
    {
        let (lo, hi, name) = table[i];
        if id >= lo && id <= hi {
            return Some(name);
        }
        i = i + 1;
    }
    None
}

/// Marketing name of a device id ("NVIDIA (Unknown)" outside the known
/// ranges).
pub fn mfv(device_id: u16) -> (s: &'static str)
    ensures
        s == match model_name(device_id) {
            Some(n) => n,
            None => "NVIDIA (Unknown)",
        },
{
    match model_lookup(device_id) {
        Some(n) => n,
        None => "NVIDIA (Unknown)",
    }
}

/// Whether a display function is an NVIDIA adapter of a known range.
pub open spec fn supported(f: crate::framework::PciFunction) -> bool {
    f.vendor_id == 0x10DE && model_name(f.device_id) is Some
}

/// The first supported NVIDIA adapter among the display functions `devs`.
pub fn ccv(devs: &Vec<crate::framework::PciFunction>) -> (r: Option<crate::framework::PciFunction>)
    ensures
        match r {
            Some(f) => exists|i: int| 0 <= i < devs@.len() && devs@[i] == f && supported(f) && forall|j: int|
                0 <= j < i ==> !supported(#[trigger] devs@[j]),
            None => forall|j: int| 0 <= j < devs@.len() ==> !supported(#[trigger] devs@[j]),
        },
{
    let mut i: usize = 0;
    while i < devs.len()
        invariant
            i <= devs@.len(),
            forall|j: int| 0 <= j < i ==> !supported(#[trigger] devs@[j]),
        decreases devs@.len() - i,
    {
        let f = devs[i];
        if f.vendor_id == 0x10DE {
            match model_lookup(f.device_id) {
                Some(_) => {
                    return Some(f);
                },
                None => {},
            }
        }
        i = i + 1;
    }
    None
}

/// Chipset and stepping from PMC_BOOT_0 (bits 20..28 and 0..8).
pub fn boot_ids(boot0: u32) -> (r: (u8, u8))
    ensures
        r == (((boot0 / 0x100000) % 256) as u8, (boot0 % 256) as u8),
{
    (((boot0 / 0x100000) % 256) as u8, (boot0 % 256) as u8)
}

/// VRAM size in bytes from PFB_CFG1: its low twelve bits in MiB, 128 MiB
/// when they are zero.
pub fn vram_bytes(cfg1: u32) -> (n: u64)
    ensures
        n == (if cfg1 % 4096 > 0 { cfg1 % 4096 } else { 128 }) * 0x100000,
{
    let mb: u64 = if cfg1 % 4096 > 0 { (cfg1 % 4096) as u64 } else { 128 };
    mb * 0x100000
}

/// PCIe (generation, width) from the link status register; generation 1,
/// width 16 without a PCIe capability.
pub fn pcie_link(status: Option<u32>) -> (r: (u8, u8))
    ensures
        r == match status {
            Some(v) => ((v % 16) as u8, ((v / 16) % 64) as u8),
            None => (1u8, 16u8),
        },
{
    match status {
        Some(v) => ((v % 16) as u8, ((v / 16) % 64) as u8),
        None => (1, 16),
    }
}

/// The rows and columns of a fill clipped to the framebuffer: the
/// exclusive right and bottom edges, or none when the framebuffer is empty
/// or the rectangle starts outside it.
pub fn fill_clip(x: u32, y: u32, w: u32, h: u32, fb_w: u32, fb_h: u32) -> (r: Option<(u32, u32)>)
    requires
        x + w <= u32::MAX,
        y + h <= u32::MAX,
    ensures
        (fb_w == 0 || fb_h == 0 || x >= fb_w || y >= fb_h) <==> r is None,
        r matches Some((xe, ye)) ==> xe == (if x + w < fb_w { x + w } else { fb_w as int }) && ye == (if y + h
            < fb_h { y + h } else { fb_h as int }),
{
    if fb_w == 0 || fb_h == 0 || x >= fb_w || y >= fb_h {
        return None;
    }
    Some((if x + w < fb_w { x + w } else { fb_w }, if y + h < fb_h { y + h } else { fb_h }))
}

/// Whether a screen copy must run backwards (bottom-up, right to left):
/// the destination lies after the source.
pub fn copy_backwards(src_x: u32, src_y: u32, dst_x: u32, dst_y: u32) -> (b: bool)
    ensures
        b == (dst_y > src_y || (dst_y == src_y && dst_x > src_x)),
{
    dst_y > src_y || (dst_y == src_y && dst_x > src_x)
}

} // verus!
