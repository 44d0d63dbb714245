//! Display Core Next: display timings, connectors, scanout surfaces and
//! the engine's state as reported to the user.
use vstd::prelude::*;
use crate::util::{decimal, hex_upper, push_decimal, push_hex_upper, push_text, chars_to_string, views, push_line};

verus! {

/// A display timing: active area, porches and sync widths in pixels and
/// lines, pixel clock and refresh rate.
#[derive(Clone, Copy, Debug)]
pub struct Cv {
    pub h_active: u32,
    pub h_front_porch: u32,
    pub h_sync_width: u32,
    pub h_back_porch: u32,
    pub v_active: u32,
    pub v_front_porch: u32,
    pub v_sync_width: u32,
    pub v_back_porch: u32,
    pub pixel_clock_khz: u32,
    pub refresh_hz: u32,
    pub h_sync_positive: bool,
    pub v_sync_positive: bool,
}

impl Cv {
    pub open spec fn h_total_spec(&self) -> int {
        self.h_active + self.h_front_porch + self.h_sync_width + self.h_back_porch
    }

    pub open spec fn v_total_spec(&self) -> int {
        self.v_active + self.v_front_porch + self.v_sync_width + self.v_back_porch
    }

    /// Totals fit in 32 bits.
    pub open spec fn fits(&self) -> bool {
        self.h_total_spec() <= u32::MAX && self.v_total_spec() <= u32::MAX
    }

    /// Pixels per line, blanking included.
    pub fn h_total(&self) -> (n: u32)
        requires
            self.h_total_spec() <= u32::MAX,
        ensures
            n == self.h_total_spec(),
    {
        self.h_active + self.h_front_porch + self.h_sync_width + self.h_back_porch
    }

    /// Lines per frame, blanking included.
    pub fn v_total(&self) -> (n: u32)
        requires
            self.v_total_spec() <= u32::MAX,
        ensures
            n == self.v_total_spec(),
    {
        self.v_active + self.v_front_porch + self.v_sync_width + self.v_back_porch
    }

    /// First pixel of horizontal sync.
    pub fn h_sync_start(&self) -> (n: u32)
        requires
            self.h_total_spec() <= u32::MAX,
        ensures
            n == self.h_active + self.h_front_porch,
    {
        self.h_active + self.h_front_porch
    }

    /// First pixel after horizontal sync.
    pub fn h_sync_end(&self) -> (n: u32)
        requires
            self.h_total_spec() <= u32::MAX,
        ensures
            n == self.h_active + self.h_front_porch + self.h_sync_width,
    {
        self.h_active + self.h_front_porch + self.h_sync_width
    }

    /// First line of vertical sync.
    pub fn v_sync_start(&self) -> (n: u32)
        requires
            self.v_total_spec() <= u32::MAX,
        ensures
            n == self.v_active + self.v_front_porch,
    {
        self.v_active + self.v_front_porch
    }

    /// First line after vertical sync.
    pub fn v_sync_end(&self) -> (n: u32)
        requires
            self.v_total_spec() <= u32::MAX,
        ensures
            n == self.v_active + self.v_front_porch + self.v_sync_width,
    {
        self.v_active + self.v_front_porch + self.v_sync_width
    }

    pub open spec fn modeline_spec(&self) -> Seq<char> {
        decimal(self.h_active as nat) + "x"@ + decimal(self.v_active as nat) + "@"@ + decimal(
            self.refresh_hz as nat,
        ) + "Hz pclk="@ + decimal(self.pixel_clock_khz as nat) + "kHz htotal="@ + decimal(
            self.h_total_spec() as nat,
        ) + " vtotal="@ + decimal(self.v_total_spec() as nat)
    }

    /// One-line description: "WxH@RHz pclk=KkHz htotal=T vtotal=V".
    pub fn modeline(&self) -> (s: String)
        requires
            self.fits(),
        ensures
            s@ == self.modeline_spec(),
    {
        let mut out: Vec<char> = Vec::new();
        push_decimal(&mut out, self.h_active as u64);
        push_text(&mut out, "x");
        push_decimal(&mut out, self.v_active as u64);
        push_text(&mut out, "@");
        push_decimal(&mut out, self.refresh_hz as u64);
        push_text(&mut out, "Hz pclk=");
        push_decimal(&mut out, self.pixel_clock_khz as u64);
        push_text(&mut out, "kHz htotal=");
        push_decimal(&mut out, self.h_total() as u64);
        push_text(&mut out, " vtotal=");
        push_decimal(&mut out, self.v_total() as u64);
        chars_to_string(out)
    }
}

pub open spec fn timing(
    ha: u32, hf: u32, hs: u32, hb: u32, va: u32, vf: u32, vs: u32, vb: u32, clk: u32, hz: u32, hp: bool, vp: bool,
) -> Cv {
    Cv {
        h_active: ha,
        h_front_porch: hf,
        h_sync_width: hs,
        h_back_porch: hb,
        v_active: va,
        v_front_porch: vf,
        v_sync_width: vs,
        v_back_porch: vb,
        pixel_clock_khz: clk,
        refresh_hz: hz,
        h_sync_positive: hp,
        v_sync_positive: vp,
    }
}

/// The standard modes: 640x480, 1280x720, 1920x1080, 2560x1440 and
/// 3840x2160, all at 60 Hz.
pub open spec fn standard_modes() -> Seq<Cv> {
    seq![
        timing(640, 16, 96, 48, 480, 10, 2, 33, 25175, 60, false, false),
        timing(1280, 110, 40, 220, 720, 5, 5, 20, 74250, 60, true, true),
        timing(1920, 88, 44, 148, 1080, 4, 5, 36, 148500, 60, true, true),
        timing(2560, 48, 32, 80, 1440, 3, 5, 33, 241500, 60, true, false),
        timing(3840, 176, 88, 296, 2160, 8, 10, 72, 533250, 60, true, false),
    ]
}

fn mk_timing(
    ha: u32, hf: u32, hs: u32, hb: u32, va: u32, vf: u32, vs: u32, vb: u32, clk: u32, hz: u32, hp: bool, vp: bool,
) -> (c: Cv)
    ensures
        c == timing(ha, hf, hs, hb, va, vf, vs, vb, clk, hz, hp, vp),
{
    Cv {
        h_active: ha,
        h_front_porch: hf,
        h_sync_width: hs,
        h_back_porch: hb,
        v_active: va,
        v_front_porch: vf,
        v_sync_width: vs,
        v_back_porch: vb,
        pixel_clock_khz: clk,
        refresh_hz: hz,
        h_sync_positive: hp,
        v_sync_positive: vp,
    }
}

/// The standard modes.
pub fn ovz() -> (v: Vec<Cv>)
    ensures
        v@ == standard_modes(),
{
    let mut v: Vec<Cv> = Vec::new();
    v.push(mk_timing(640, 16, 96, 48, 480, 10, 2, 33, 25175, 60, false, false));
    v.push(mk_timing(1280, 110, 40, 220, 720, 5, 5, 20, 74250, 60, true, true));
    v.push(mk_timing(1920, 88, 44, 148, 1080, 4, 5, 36, 148500, 60, true, true));
    v.push(mk_timing(2560, 48, 32, 80, 1440, 3, 5, 33, 241500, 60, true, false));
    v.push(mk_timing(3840, 176, 88, 296, 2160, 8, 10, 72, 533250, 60, true, false));
    assert(v@ =~= standard_modes());
    v
}

/// Kinds of display connector.
#[derive(Clone, Copy, Debug, PartialEq, Eq, Structural)]
pub enum ConnectorType {
    Absent,
    DisplayPort,
    HDMI,
    DVI,
    VGA,
    Unknown,
}

pub open spec fn connector_name(t: ConnectorType) -> &'static str {
    match t {
        ConnectorType::Absent => "None",
        ConnectorType::DisplayPort => "DisplayPort",
        ConnectorType::HDMI => "HDMI",
        ConnectorType::DVI => "DVI",
        ConnectorType::VGA => "VGA",
        ConnectorType::Unknown => "Unknown",
    }
}

impl ConnectorType {
    pub fn name(&self) -> (s: &'static str)
        ensures
            s == connector_name(*self),
    {
        match self {
            ConnectorType::Absent => "None",
            ConnectorType::DisplayPort => "DisplayPort",
            ConnectorType::HDMI => "HDMI",
            ConnectorType::DVI => "DVI",
            ConnectorType::VGA => "VGA",
            ConnectorType::Unknown => "Unknown",
        }
    }
}

/// Whether a display is attached.
#[derive(Clone, Copy, Debug, PartialEq, Eq, Structural)]
pub enum ConnectorStatus {
    Disconnected,
    Connected,
    Unknown,
}

/// A display connector and what was learned of it.
#[derive(Clone, Copy, Debug)]
pub struct Lm {
    pub index: u8,
    pub connector_type: ConnectorType,
    pub status: ConnectorStatus,
    pub dig_encoder: u8,
    pub phy_index: u8,
    pub hpd_pin: u8,
    pub current_mode: Option<Cv>,
    pub dpcd_rev: u8,
    pub max_link_rate: u8,
    pub max_lane_count: u8,
}

/// Pixel formats of a scanout surface.
#[derive(Clone, Copy, Debug, PartialEq, Eq, Structural)]
pub enum SurfaceFormat {
    Argb8888,
    Xrgb8888,
    Abgr8888,
    Rgb565,
}

pub open spec fn format_bpp(f: SurfaceFormat) -> u32 {
    match f {
        SurfaceFormat::Rgb565 => 2,
        _ => 4,
    }
}

pub open spec fn format_code(f: SurfaceFormat) -> u32 {
    match f {
        SurfaceFormat::Argb8888 => 0x0A,
        SurfaceFormat::Xrgb8888 => 0x08,
        SurfaceFormat::Abgr8888 => 0x0C,
        SurfaceFormat::Rgb565 => 0x04,
    }
}

pub open spec fn format_label(f: SurfaceFormat) -> Seq<char> {
    match f {
        SurfaceFormat::Argb8888 => "Argb8888"@,
        SurfaceFormat::Xrgb8888 => "Xrgb8888"@,
        SurfaceFormat::Abgr8888 => "Abgr8888"@,
        SurfaceFormat::Rgb565 => "Rgb565"@,
    }
}

impl SurfaceFormat {
    /// Bytes per pixel.
    pub fn bpp(&self) -> (n: u32)
        ensures
            n == format_bpp(*self),
    {
        match self {
            SurfaceFormat::Argb8888 | SurfaceFormat::Xrgb8888 | SurfaceFormat::Abgr8888 => 4,
            SurfaceFormat::Rgb565 => 2,
        }
    }

    /// The display hub's code for the format.
    pub fn dcn_format_code(&self) -> (n: u32)
        ensures
            n == format_code(*self),
    {
        match self {
            SurfaceFormat::Argb8888 => 0x0A,
            SurfaceFormat::Xrgb8888 => 0x08,
            SurfaceFormat::Abgr8888 => 0x0C,
            SurfaceFormat::Rgb565 => 0x04,
        }
    }

    fn label(&self) -> (s: &'static str)
        ensures
            s@ == format_label(*self),
    {
        match self {
            SurfaceFormat::Argb8888 => "Argb8888",
            SurfaceFormat::Xrgb8888 => "Xrgb8888",
            SurfaceFormat::Abgr8888 => "Abgr8888",
            SurfaceFormat::Rgb565 => "Rgb565",
        }
    }
}

/// A surface a display hub scans out.
#[derive(Clone, Copy, Debug)]
pub struct Qf {
    pub fb_phys_addr: u64,
    pub width: u32,
    pub height: u32,
    pub pitch: u32,
    pub format: SurfaceFormat,
}

/// The surface a hub's registers describe: address from the high and low
/// address registers; width and height from the size register's two
/// halves; pitch in bytes from the pitch register (in pixels).  None when
/// the address is 0 or all ones, the configuration reads all ones, or a
/// side is 0 or 16384 and above.
pub open spec fn hubp_surface_spec(addr_hi: u32, addr_lo: u32, config: u32, pitch: u32, size: u32) -> Option<Qf> {
    let addr = addr_hi as int * 0x1_0000_0000 + addr_lo as int;
    let w = size % 0x10000;
    let h = size / 0x10000;
    if addr != 0 && addr != 0xFFFF_FFFF_FFFF_FFFF && config != 0xFFFF_FFFF && w > 0 && h > 0 && w < 16384
        && h < 16384 {
        Some(
            Qf {
                fb_phys_addr: addr as u64,
                width: w as u32,
                height: h as u32,
                pitch: ((pitch as nat * 4nat) % 0x1_0000_0000nat) as u32,
                format: SurfaceFormat::Xrgb8888,
            },
        )
    } else {
        None
    }
}

pub fn hubp_surface(addr_hi: u32, addr_lo: u32, config: u32, pitch: u32, size: u32) -> (r: Option<Qf>)
    ensures
        r == hubp_surface_spec(addr_hi, addr_lo, config, pitch, size),
{
    let addr: u64 = (addr_hi as u64) * 0x1_0000_0000 + addr_lo as u64;
    let w = size % 0x10000;
    let h = size / 0x10000;
    if addr != 0 && addr != 0xFFFF_FFFF_FFFF_FFFF && config != 0xFFFF_FFFF && w > 0 && h > 0 && w < 16384
        && h < 16384 {
        Some(Qf { fb_phys_addr: addr, width: w, height: h, pitch: pitch.wrapping_mul(4), format: SurfaceFormat::Xrgb8888 })
    } else {
        None
    }
}

/// Engine state: version, connectors, active displays and the surfaces
/// of its six display hubs.
pub struct Xq {
    pub initialized: bool,
    pub connectors: Vec<Lm>,
    pub active_displays: u8,
    pub dcn_version: (u8, u8),
    pub max_pipes: u8,
    pub scanouts: [Option<Qf>; 6],
}

/// Whether the engine was probed.
pub fn is_ready(st: &Xq) -> (b: bool)
    ensures
        b == st.initialized,
{
    st.initialized
}

/// The connectors found.
pub fn qhi(st: &Xq) -> (v: Vec<Lm>)
    ensures
        v@ == st.connectors@,
{
    st.connectors.clone()
}

/// Number of displays with an active timing.
pub fn pxq(st: &Xq) -> (n: u8)
    ensures
        n == st.active_displays,
{
    st.active_displays
}

/// Engine version (major, minor).
pub fn dcn_version(st: &Xq) -> (v: (u8, u8))
    ensures
        v == st.dcn_version,
{
    st.dcn_version
}

/// Number of connectors with a display attached.
pub open spec fn connected_count(cs: Seq<Lm>) -> nat
    decreases cs.len(),
{
    if cs.len() == 0 {
        0
    } else {
        connected_count(cs.drop_last()) + if cs.last().status == ConnectorStatus::Connected {
            1nat
        } else {
            0nat
        }
    }
}

fn count_connected(cs: &Vec<Lm>) -> (n: u64)
    ensures
        n == connected_count(cs@),
{
    let mut n: u64 = 0;
    let mut i: usize = 0;
    while i < cs.len()
        invariant
            i <= cs@.len(),
            n == connected_count(cs@.subrange(0, i as int)),
            n <= i,
        decreases cs@.len() - i,
    {
        assert(cs@.subrange(0, i + 1).drop_last() =~= cs@.subrange(0, i as int));
        if cs[i].status == ConnectorStatus::Connected {
            n = n + 1;
        }
        i = i + 1;
    }
    assert(cs@.subrange(0, cs@.len() as int) =~= cs@);
    n
}

pub open spec fn summary_spec(st: Xq) -> Seq<char> {
    if st.initialized {
        "DCN "@ + decimal(st.dcn_version.0 as nat) + "."@ + decimal(st.dcn_version.1 as nat) + " \u{2014} "@
            + decimal(st.active_displays as nat) + " display(s), "@ + decimal(
            connected_count(st.connectors@),
        ) + " connected"@
    } else {
        "DCN not initialized"@
    }
}

/// One-line state: version, active displays and connected connectors.
pub fn summary(st: &Xq) -> (s: String)
    ensures
        s@ == summary_spec(*st),
{
    let mut out: Vec<char> = Vec::new();
    if st.initialized {
        push_text(&mut out, "DCN ");
        push_decimal(&mut out, st.dcn_version.0 as u64);
        push_text(&mut out, ".");
        push_decimal(&mut out, st.dcn_version.1 as u64);
        push_text(&mut out, " \u{2014} ");
        push_decimal(&mut out, st.active_displays as u64);
        push_text(&mut out, " display(s), ");
        let n = count_connected(&st.connectors);
        push_decimal(&mut out, n);
        push_text(&mut out, " connected");
    } else {
        push_text(&mut out, "DCN not initialized");
    }
    chars_to_string(out)
}

pub open spec fn status_label(s: ConnectorStatus) -> Seq<char> {
    match s {
        ConnectorStatus::Connected => "CONNECTED"@,
        ConnectorStatus::Disconnected => "disconnected"@,
        ConnectorStatus::Unknown => "unknown"@,
    }
}

pub open spec fn connector_line(c: Lm) -> Seq<char> {
    "  Connector "@ + decimal(c.index as nat) + ": "@ + connector_name(c.connector_type)@ + " ["@
        + status_label(c.status) + "]"@ + match c.current_mode {
        Some(m) => " \u{2014} "@ + decimal(m.h_active as nat) + "x"@ + decimal(m.v_active as nat) + "@"@
            + decimal(m.refresh_hz as nat) + "Hz"@,
        None => Seq::<char>::empty(),
    }
}

pub open spec fn surface_line(i: int, q: Qf) -> Seq<char> {
    "    HUBP"@ + decimal(i as nat) + ": "@ + decimal(q.width as nat) + "x"@ + decimal(q.height as nat) + " "@
        + format_label(q.format) + " @ 0x"@ + hex_upper(q.fb_phys_addr as nat)
}

/// Lines for the hub surfaces `0..n` that are set.
pub open spec fn surface_lines(sc: Seq<Option<Qf>>, n: int) -> Seq<Seq<char>>
    decreases n,
{
    if n <= 0 {
        Seq::<Seq<char>>::empty()
    } else {
        surface_lines(sc, n - 1) + match sc[n - 1] {
            Some(q) => seq![surface_line(n - 1, q)],
            None => Seq::<Seq<char>>::empty(),
        }
    }
}

pub open spec fn info_spec(st: Xq) -> Seq<Seq<char>> {
    if st.initialized {
        seq![
            "DCN "@ + decimal(st.dcn_version.0 as nat) + "."@ + decimal(st.dcn_version.1 as nat) + " Display Engine"@,
            "  Pipes: "@ + decimal(st.max_pipes as nat) + " max, "@ + decimal(st.active_displays as nat) + " active"@,
            Seq::<char>::empty(),
        ] + st.connectors@.map_values(|c: Lm| connector_line(c)) + seq![Seq::<char>::empty(), "  Active Surfaces:"@]
            + surface_lines(st.scanouts@, 6)
    } else {
        seq!["DCN display engine not initialized"@]
    }
}

fn connector_text(c: &Lm) -> (out: Vec<char>)
    ensures
        out@ == connector_line(*c),
{
    let mut out: Vec<char> = Vec::new();
    push_text(&mut out, "  Connector ");
    push_decimal(&mut out, c.index as u64);
    push_text(&mut out, ": ");
    push_text(&mut out, c.connector_type.name());
    push_text(&mut out, " [");
    match c.status {
        ConnectorStatus::Connected => push_text(&mut out, "CONNECTED"),
        ConnectorStatus::Disconnected => push_text(&mut out, "disconnected"),
        ConnectorStatus::Unknown => push_text(&mut out, "unknown"),
    }
    push_text(&mut out, "]");
    match c.current_mode {
        Some(m) => {
            push_text(&mut out, " \u{2014} ");
            push_decimal(&mut out, m.h_active as u64);
            push_text(&mut out, "x");
            push_decimal(&mut out, m.v_active as u64);
            push_text(&mut out, "@");
            push_decimal(&mut out, m.refresh_hz as u64);
            push_text(&mut out, "Hz");
        },
        None => {},
    }
    out
}

fn surface_text(i: usize, q: &Qf) -> (out: Vec<char>)
    ensures
        out@ == surface_line(i as int, *q),
{
    let mut out: Vec<char> = Vec::new();
    push_text(&mut out, "    HUBP");
    push_decimal(&mut out, i as u64);
    push_text(&mut out, ": ");
    push_decimal(&mut out, q.width as u64);
    push_text(&mut out, "x");
    push_decimal(&mut out, q.height as u64);
    push_text(&mut out, " ");
    push_text(&mut out, q.format.label());
    push_text(&mut out, " @ 0x");
    push_hex_upper(&mut out, q.fb_phys_addr);
    out
}

/// Report lines: version, pipes, one line per connector, and one per
/// active hub surface.
pub fn info_lines(st: &Xq) -> (lines: Vec<String>)
    ensures
        views(lines@) == info_spec(*st),
{
    let mut lines: Vec<String> = Vec::new();
    if !st.initialized {
        let mut out: Vec<char> = Vec::new();
        push_text(&mut out, "DCN display engine not initialized");
        push_line(&mut lines, out);
        assert(views(lines@) =~= info_spec(*st));
        return lines;
    }
    let mut out: Vec<char> = Vec::new();
    push_text(&mut out, "DCN ");
    push_decimal(&mut out, st.dcn_version.0 as u64);
    push_text(&mut out, ".");
    push_decimal(&mut out, st.dcn_version.1 as u64);
    push_text(&mut out, " Display Engine");
    push_line(&mut lines, out);
    let mut out: Vec<char> = Vec::new();
    push_text(&mut out, "  Pipes: ");
    push_decimal(&mut out, st.max_pipes as u64);
    push_text(&mut out, " max, ");
    push_decimal(&mut out, st.active_displays as u64);
    push_text(&mut out, " active");
    push_line(&mut lines, out);
    push_line(&mut lines, Vec::new());
    let ghost head = views(lines@);
    let mut i: usize = 0;
    while i < st.connectors.len()
        invariant
            i <= st.connectors@.len(),
            views(lines@) == head + st.connectors@.subrange(0, i as int).map_values(|c: Lm| connector_line(c)),
        decreases st.connectors@.len() - i,
    {
        let t = connector_text(&st.connectors[i]);
        push_line(&mut lines, t);
        i = i + 1;
        assert(st.connectors@.subrange(0, i as int).map_values(|c: Lm| connector_line(c)) =~= st.connectors@.subrange(
            0,
            (i - 1) as int,
        ).map_values(|c: Lm| connector_line(c)).push(connector_line(st.connectors@[i - 1])));
    }
    assert(st.connectors@.subrange(0, st.connectors@.len() as int) =~= st.connectors@);
    push_line(&mut lines, Vec::new());
    let mut out: Vec<char> = Vec::new();
    push_text(&mut out, "  Active Surfaces:");
    push_line(&mut lines, out);
    let ghost mid = views(lines@);
    let mut k: usize = 0;
    while k < 6
        invariant
            k <= 6,
            views(lines@) == mid + surface_lines(st.scanouts@, k as int),
        decreases 6 - k,
    {
        match &st.scanouts[k] {
            Some(q) => {
                let t = surface_text(k, q);
                push_line(&mut lines, t);
            },
            None => {},
        }
        k = k + 1;
    }
    assert(views(lines@) =~= info_spec(*st));
    lines
}

/// `a - b`, or 0 when `b` is larger.
pub open spec fn sat_sub(a: int, b: int) -> int {
    if a > b { a - b } else { 0 }
}

pub open spec fn lo15(v: u32) -> int {
    (v % 0x8000) as int
}

pub open spec fn hi15(v: u32) -> int {
    ((v / 0x1_0000) % 0x8000) as int
}

/// The timing a running output timing generator is programmed with, from
/// its control, total, blank and sync registers and the pixel clock
/// register; `None` when the generator is off or the totals or active
/// sizes make no sense (zero, or totals above 8192).
pub open spec fn otg_timing(
    control: u32,
    h_total: u32,
    h_blank: u32,
    h_sync: u32,
    v_total: u32,
    v_blank: u32,
    v_sync: u32,
    pixclk: u32,
) -> Option<Cv> {
    let ht = lo15(h_total);
    let vt = lo15(v_total);
    let ha = if lo15(h_blank) <= ht { lo15(h_blank) } else { ht };
    let va = if lo15(v_blank) <= vt { lo15(v_blank) } else { vt };
    let clock = if pixclk != 0 && pixclk != 0xFFFF_FFFF { (pixclk % 0x1_0000) * 10 } else { ht * vt * 60 / 1000 };
    if control % 2 == 0 || ht == 0 || vt == 0 || ht > 8192 || vt > 8192 || ha == 0 || va == 0 {
        None
    } else {
        Some(Cv {
            h_active: ha as u32,
            h_front_porch: sat_sub(hi15(h_sync), ha) as u32,
            h_sync_width: sat_sub(lo15(h_sync), hi15(h_sync)) as u32,
            h_back_porch: sat_sub(ht, lo15(h_sync)) as u32,
            v_active: va as u32,
            v_front_porch: sat_sub(hi15(v_sync), va) as u32,
            v_sync_width: sat_sub(lo15(v_sync), hi15(v_sync)) as u32,
            v_back_porch: sat_sub(vt, lo15(v_sync)) as u32,
            pixel_clock_khz: clock as u32,
            refresh_hz: (if clock > 0 { clock * 1000 / (ht * vt) } else { 60 }) as u32,
            h_sync_positive: true,
            v_sync_positive: true,
        })
    }
}

fn sub_or_zero(a: u32, b: u32) -> (r: u32)
    ensures
        r == sat_sub(a as int, b as int),
{
    if a > b { a - b } else { 0 }
}

/// Reads back the timing of an output timing generator from its registers
/// (see `otg_timing`).
pub fn ocn(
    control: u32,
    h_total: u32,
    h_blank: u32,
    h_sync: u32,
    v_total: u32,
    v_blank: u32,
    v_sync: u32,
    pixclk: u32,
) -> (r: Option<Cv>)
    ensures
        r == otg_timing(control, h_total, h_blank, h_sync, v_total, v_blank, v_sync, pixclk),
{
    if control % 2 == 0 {
        return None;
    }
    let ht = h_total % 0x8000;
    let vt = v_total % 0x8000;
    if ht == 0 || vt == 0 || ht > 8192 || vt > 8192 {
        return None;
    }
    let hb = h_blank % 0x8000;
    let vb = v_blank % 0x8000;
    let ha = if hb <= ht { hb } else { ht };
    let va = if vb <= vt { vb } else { vt };
    if ha == 0 || va == 0 {
        return None;
    }
    let hss = (h_sync / 0x1_0000) % 0x8000;
    let hse = h_sync % 0x8000;
    let vss = (v_sync / 0x1_0000) % 0x8000;
    let vse = v_sync % 0x8000;
    assert(ht * vt <= 8192 * 8192) by (nonlinear_arith)
        requires ht <= 8192, vt <= 8192;
    let clock: u32 = if pixclk != 0 && pixclk != 0xFFFF_FFFF {
        (pixclk % 0x1_0000) * 10
    } else {
        ((ht as u64) * (vt as u64) * 60 / 1000) as u32
    };
    let refresh: u32 = if clock > 0 {
        assert(ht * vt > 0) by (nonlinear_arith)
            requires ht > 0, vt > 0;
        assert(clock as u64 * 1000 / ((ht as u64) * (vt as u64)) <= clock as u64 * 1000) by (nonlinear_arith)
            requires ht * vt > 0;
        ((clock as u64) * 1000 / ((ht as u64) * (vt as u64))) as u32
    } else {
        60
    };
    Some(Cv {
        h_active: ha,
        h_front_porch: sub_or_zero(hss, ha),
        h_sync_width: sub_or_zero(hse, hss),
        h_back_porch: sub_or_zero(ht, hse),
        v_active: va,
        v_front_porch: sub_or_zero(vss, va),
        v_sync_width: sub_or_zero(vse, vss),
        v_back_porch: sub_or_zero(vt, vse),
        pixel_clock_khz: clock,
        refresh_hz: refresh,
        h_sync_positive: true,
        v_sync_positive: true,
    })
}

/// Connector `i` as its hot-plug and digital front-end registers show it:
/// the front end's source select (bits 16..20) names DisplayPort, HDMI or
/// DVI; other values mean DisplayPort when the hot-plug control register
/// reads as a real value, else unknown. Connected when the hot-plug status
/// senses a sink (bit 0, which an all-ones read also has set).
pub open spec fn connector_spec(i: u8, hpd_status: u32, hpd_control: u32, dig_fe: u32) -> Lm {
    let src = (dig_fe / 0x1_0000) % 16;
    Lm {
        index: i,
        connector_type: if src == 0 {
            ConnectorType::DisplayPort
        } else if src == 1 {
            ConnectorType::HDMI
        } else if src == 2 {
            ConnectorType::DVI
        } else if hpd_control != 0 && hpd_control != 0xFFFF_FFFF {
            ConnectorType::DisplayPort
        } else {
            ConnectorType::Unknown
        },
        status: if hpd_status % 2 == 1 {
            ConnectorStatus::Connected
        } else if hpd_status == 0xFFFF_FFFF {
            ConnectorStatus::Unknown
        } else {
            ConnectorStatus::Disconnected
        },
        dig_encoder: i,
        phy_index: i,
        hpd_pin: i,
        current_mode: None,
        dpcd_rev: 0,
        max_link_rate: 0,
        max_lane_count: 0,
    }
}

pub fn connector_from_regs(i: u8, hpd_status: u32, hpd_control: u32, dig_fe: u32) -> (c: Lm)
    ensures
        c == connector_spec(i, hpd_status, hpd_control, dig_fe),
{
    let src = (dig_fe / 0x1_0000) % 16;
    let connector_type = if src == 0 {
        ConnectorType::DisplayPort
    } else if src == 1 {
        ConnectorType::HDMI
    } else if src == 2 {
        ConnectorType::DVI
    } else if hpd_control != 0 && hpd_control != 0xFFFF_FFFF {
        ConnectorType::DisplayPort
    } else {
        ConnectorType::Unknown
    };
    let status = if hpd_status % 2 == 1 {
        ConnectorStatus::Connected
    } else if hpd_status == 0xFFFF_FFFF {
        ConnectorStatus::Unknown
    } else {
        ConnectorStatus::Disconnected
    };
    Lm {
        index: i,
        connector_type,
        status,
        dig_encoder: i,
        phy_index: i,
        hpd_pin: i,
        current_mode: None,
        dpcd_rev: 0,
        max_link_rate: 0,
        max_lane_count: 0,
    }
}

/// Number of pipes with a timing.
pub open spec fn active_count(modes: Seq<Option<Cv>>) -> nat
    decreases modes.len(),
{
    if modes.len() == 0 {
        0
    } else {
        active_count(modes.drop_last()) + if modes.last() is Some { 1nat } else { 0nat }
    }
}

/// The engine state a probe records: the version from DCN_VERSION (major
/// in bits 8..16, minor in bits 0..8), the six connectors each with the
/// timing of the pipe of the same number, the number of pipes running, and
/// the six hub surfaces.
pub fn probe_state(version: u32, connectors: Vec<Lm>, modes: &Vec<Option<Cv>>, scanouts: [Option<Qf>; 6]) -> (st: Xq)
    requires
        connectors@.len() == 6,
        modes@.len() == 6,
    ensures
        st.initialized,
        st.max_pipes == 6,
        st.dcn_version == (((version / 256) % 256) as u8, (version % 256) as u8),
        st.scanouts == scanouts,
        st.active_displays == active_count(modes@),
        st.connectors@.len() == 6,
        forall|i: int| 0 <= i < 6 ==> #[trigger] st.connectors@[i] == (Lm { current_mode: modes@[i], ..connectors@[i] }),
{
    let mut cs = connectors;
    let mut n: u8 = 0;
    let mut i: usize = 0;
    assert(modes@.subrange(0, 0) =~= Seq::<Option<Cv>>::empty());
    while i < 6
        invariant
            i <= 6,
            modes@.len() == 6,
            cs@.len() == 6,
            n == active_count(modes@.subrange(0, i as int)),
            n <= i,
            forall|j: int| 0 <= j < i ==> #[trigger] cs@[j] == (Lm { current_mode: modes@[j], ..connectors@[j] }),
            forall|j: int| i <= j < 6 ==> #[trigger] cs@[j] == connectors@[j],
        decreases 6 - i,
    {
        assert(modes@.subrange(0, i + 1).drop_last() =~= modes@.subrange(0, i as int));
        let mut c = cs[i];
        c.current_mode = modes[i];
        cs.set(i, c);
        if modes[i].is_some() {
            n = n + 1;
        }
        i = i + 1;
    }
    assert(modes@.subrange(0, 6) =~= modes@);
    Xq {
        initialized: true,
        connectors: cs,
        active_displays: n,
        dcn_version: (((version / 256) % 256) as u8, (version % 256) as u8),
        max_pipes: 6,
        scanouts,
    }
}

} // verus!
