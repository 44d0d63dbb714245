//! Readable dumps of a codec's state, built from the words its verbs
//! returned: the codec dump (pins, converters, the mixers and selectors
//! on the output paths) and the amplifier probe.
use vstd::prelude::*;
use crate::hda::{find_widget_index, gnb, pin_device_label, widget_index, widget_label, Aw, WidgetType, Wk};
use crate::hda_stream::{amp_steps, probe_gain};
use crate::util::{decimal, hex_upper_padded, pad_left, push_decimal, push_hex_upper_padded, push_padded_left, push_text};

verus! {

/// `n` as `0x` and at least `digits` upper-case hex digits.
pub open spec fn hx(n: nat, digits: nat) -> Seq<char> {
    "0x"@ + hex_upper_padded(n, digits)
}

/// `n` right-aligned in two characters.
pub open spec fn dec2(n: nat) -> Seq<char> {
    pad_left(decimal(n), 2)
}

pub open spec fn flag(b: bool) -> Seq<char> {
    if b { "true"@ } else { "false"@ }
}

/// Node ids as a list: `[a, b, c]`.
pub open spec fn nid_list(s: Seq<u16>) -> Seq<char> {
    "["@ + nid_items(s) + "]"@
}

pub open spec fn nid_items(s: Seq<u16>) -> Seq<char>
    decreases s.len(),
{
    if s.len() == 0 {
        Seq::empty()
    } else if s.len() == 1 {
        decimal(s[0] as nat)
    } else {
        nid_items(s.drop_last()) + ", "@ + decimal(s.last() as nat)
    }
}

fn push_hx(out: &mut Vec<char>, n: u64, digits: usize)
    ensures
        final(out)@ == old(out)@ + hx(n as nat, digits as nat),
{
    let ghost start = out@;
    push_text(out, "0x");
    push_hex_upper_padded(out, n, digits);
    proof {
        reveal_strlit("0x");
    }
    assert(out@ =~= start + hx(n as nat, digits as nat));
}

fn push_dec2(out: &mut Vec<char>, n: u64)
    ensures
        final(out)@ == old(out)@ + dec2(n as nat),
{
    let mut d: Vec<char> = Vec::new();
    push_decimal(&mut d, n);
    assert(d@ =~= decimal(n as nat));
    push_padded_left(out, &d, 2);
}

fn push_flag(out: &mut Vec<char>, b: bool)
    ensures
        final(out)@ == old(out)@ + flag(b),
{
    if b {
        push_text(out, "true");
    } else {
        push_text(out, "false");
    }
}

fn push_nid_list(out: &mut Vec<char>, s: &Vec<u16>)
    ensures
        final(out)@ == old(out)@ + nid_list(s@),
{
    let ghost start = out@;
    push_text(out, "[");
    let mut i: usize = 0;
    assert(s@.subrange(0, 0) =~= Seq::<u16>::empty());
    while i < s.len()
        invariant
            i <= s@.len(),
            out@ == start + "["@ + nid_items(s@.subrange(0, i as int)),
        decreases s@.len() - i,
    {
        let ghost before = out@;
        assert(s@.subrange(0, i + 1).drop_last() =~= s@.subrange(0, i as int));
        if i > 0 {
            push_text(out, ", ");
        }
        push_decimal(out, s[i] as u64);
        i = i + 1;
        proof {
            let t = s@.subrange(0, i as int);
            if i == 1 {
                assert(t.len() == 1 && t[0] == s@[0]);
                assert(nid_items(s@.subrange(0, 0)) =~= Seq::<char>::empty());
            } else {
                assert(t.last() == s@[i - 1]);
            }
            assert(out@ =~= start + "["@ + nid_items(t));
        }
    }
    push_text(out, "]");
    assert(s@.subrange(0, s@.len() as int) =~= s@);
    assert(out@ =~= start + nid_list(s@));
}

/// What the pin dump reads from one pin complex.
#[derive(Debug, Clone, Copy)]
pub struct PinDump {
    pub nid: u16,
    pub config: u32,
    pub amp_caps: u32,
    pub pin_ctl: u32,
    pub eapd: u32,
    pub power: u32,
    pub wcaps: u32,
    pub amp_l: u32,
    pub amp_r: u32,
    pub pin_caps: u32,
}

/// Connection kind of a pin configuration (bits 30..32).
pub open spec fn port_kind(config: u32) -> Seq<char> {
    let k = (config / 0x4000_0000) % 4;
    if k == 0 { "Jack"@ } else if k == 1 { "None"@ } else if k == 2 { "Fixed"@ } else { "Both"@ }
}

/// The four lines of one pin.
pub open spec fn pin_text(p: PinDump) -> Seq<char> {
    pin_line1(p) + pin_line2(p) + pin_line3(p) + pin_line4(p)
}

pub open spec fn pin_line1(p: PinDump) -> Seq<char> {
    "  NID "@ + dec2(p.nid as nat) + ": "@ + pin_device_label(p.config) + " ("@ + port_kind(p.config) + ") loc="@
        + hx(((p.config / 0x100_0000) % 64) as nat, 2) + " cfg="@ + hx(p.config as nat, 8) + "\n"@
}

pub open spec fn pin_line2(p: PinDump) -> Seq<char> {
    "         wcaps="@ + hx(p.wcaps as nat, 8) + "(out_amp="@ + flag((p.wcaps / 4) % 2 == 1) + " amp_ovrd="@
        + flag((p.wcaps / 8) % 2 == 1) + ") pin_caps="@ + hx(p.pin_caps as nat, 8) + "\n"@
}

pub open spec fn pin_line3(p: PinDump) -> Seq<char> {
    "         pin_ctl="@ + hx(p.pin_ctl as nat, 2) + "(out="@ + flag((p.pin_ctl / 0x40) % 2 == 1) + " hp="@
        + flag((p.pin_ctl / 0x80) % 2 == 1) + ") eapd="@ + hx(p.eapd as nat, 2) + "(on="@ + flag((p.eapd / 2) % 2 == 1)
        + " has="@ + flag((p.pin_caps / 0x1_0000) % 2 == 1) + ")\n"@
}

pub open spec fn pin_line4(p: PinDump) -> Seq<char> {
    "         power=D"@ + decimal((p.power % 16) as nat) + " amp_out L="@ + hx(p.amp_l as nat, 2) + " R="@
        + hx(p.amp_r as nat, 2) + " amp_caps="@ + hx(p.amp_caps as nat, 8) + "\n"@
}

fn port_kind_text(config: u32) -> (s: &'static str)
    ensures
        s@ == port_kind(config),
{
    let k = (config / 0x4000_0000) % 4;
    if k == 0 { "Jack" } else if k == 1 { "None" } else if k == 2 { "Fixed" } else { "Both" }
}

fn push_pin_line1(out: &mut Vec<char>, p: &PinDump)
    ensures
        final(out)@ == old(out)@ + pin_line1(*p),
{
    let ghost start = out@;
    push_text(out, "  NID ");
    push_dec2(out, p.nid as u64);
    push_text(out, ": ");
    push_text(out, gnb(p.config));
    push_text(out, " (");
    push_text(out, port_kind_text(p.config));
    push_text(out, ") loc=");
    push_hx(out, ((p.config / 0x100_0000) % 64) as u64, 2);
    push_text(out, " cfg=");
    push_hx(out, p.config as u64, 8);
    push_text(out, "\n");
    assert(out@ =~= start + pin_line1(*p));
}

fn push_pin_line2(out: &mut Vec<char>, p: &PinDump)
    ensures
        final(out)@ == old(out)@ + pin_line2(*p),
{
    let ghost start = out@;
    push_text(out, "         wcaps=");
    push_hx(out, p.wcaps as u64, 8);
    push_text(out, "(out_amp=");
    push_flag(out, (p.wcaps / 4) % 2 == 1);
    push_text(out, " amp_ovrd=");
    push_flag(out, (p.wcaps / 8) % 2 == 1);
    push_text(out, ") pin_caps=");
    push_hx(out, p.pin_caps as u64, 8);
    push_text(out, "\n");
    assert(out@ =~= start + pin_line2(*p));
}

#[verifier::rlimit(50)]
fn push_pin_line3(out: &mut Vec<char>, p: &PinDump)
    ensures
        final(out)@ == old(out)@ + pin_line3(*p),
{
    let ghost start = out@;
    push_text(out, "         pin_ctl=");
    push_hx(out, p.pin_ctl as u64, 2);
    push_text(out, "(out=");
    push_flag(out, (p.pin_ctl / 0x40) % 2 == 1);
    push_text(out, " hp=");
    push_flag(out, (p.pin_ctl / 0x80) % 2 == 1);
    push_text(out, ") eapd=");
    push_hx(out, p.eapd as u64, 2);
    push_text(out, "(on=");
    push_flag(out, (p.eapd / 2) % 2 == 1);
    push_text(out, " has=");
    push_flag(out, (p.pin_caps / 0x1_0000) % 2 == 1);
    push_text(out, ")\n");
    assert(out@ =~= start + pin_line3(*p));
}

fn push_pin_line4(out: &mut Vec<char>, p: &PinDump)
    ensures
        final(out)@ == old(out)@ + pin_line4(*p),
{
    let ghost start = out@;
    push_text(out, "         power=D");
    push_decimal(out, (p.power % 16) as u64);
    push_text(out, " amp_out L=");
    push_hx(out, p.amp_l as u64, 2);
    push_text(out, " R=");
    push_hx(out, p.amp_r as u64, 2);
    push_text(out, " amp_caps=");
    push_hx(out, p.amp_caps as u64, 8);
    push_text(out, "\n");
    assert(out@ =~= start + pin_line4(*p));
}

fn push_pin(out: &mut Vec<char>, p: &PinDump)
    ensures
        final(out)@ == old(out)@ + pin_text(*p),
{
    let ghost start = out@;
    push_pin_line1(out, p);
    push_pin_line2(out, p);
    push_pin_line3(out, p);
    push_pin_line4(out, p);
    assert(out@ =~= start + pin_text(*p));
}

/// What the converter dump reads from one DAC.
#[derive(Debug, Clone, Copy)]
pub struct DacDump {
    pub nid: u16,
    pub power: u32,
    pub stream: u32,
    pub fmt: u32,
    pub wcaps: u32,
    pub amp_l: u32,
    pub amp_r: u32,
    pub caps: u32,
}

pub open spec fn amp_flags_line(wcaps: u32) -> Seq<char> {
    "         wcaps="@ + hx(wcaps as nat, 8) + "(out_amp="@ + flag((wcaps / 4) % 2 == 1) + " in_amp="@ + flag(
        (wcaps / 2) % 2 == 1,
    ) + ")\n"@
}

pub open spec fn dac_head(d: DacDump) -> Seq<char> {
    "  NID "@ + dec2(d.nid as nat) + ": power=D"@ + decimal((d.power % 16) as nat) + " stream_tag="@ + decimal(
        ((d.stream / 16) % 16) as nat,
    ) + " chan="@ + decimal((d.stream % 16) as nat) + " fmt="@ + hx(d.fmt as nat, 4) + "\n"@
}

pub open spec fn dac_text(d: DacDump) -> Seq<char> {
    dac_head(d) + amp_flags_line(d.wcaps) + amp_line("         amp_out L="@, d.amp_l, d.amp_r, " caps="@, d.caps)
}

fn push_amp_flags_line(out: &mut Vec<char>, wcaps: u32)
    ensures
        final(out)@ == old(out)@ + amp_flags_line(wcaps),
{
    let ghost start = out@;
    push_text(out, "         wcaps=");
    push_hx(out, wcaps as u64, 8);
    push_text(out, "(out_amp=");
    push_flag(out, (wcaps / 4) % 2 == 1);
    push_text(out, " in_amp=");
    push_flag(out, (wcaps / 2) % 2 == 1);
    push_text(out, ")\n");
    assert(out@ =~= start + amp_flags_line(wcaps));
}

/// Appends ` L=`, `R=` and a capability word after `label`.
pub open spec fn amp_line(label: Seq<char>, l: u32, r: u32, caps_label: Seq<char>, caps: u32) -> Seq<char> {
    label + hx(l as nat, 2) + " R="@ + hx(r as nat, 2) + caps_label + hx(caps as nat, 8) + "\n"@
}

fn push_amp_line(out: &mut Vec<char>, label: &str, l: u32, r: u32, caps_label: &str, caps: u32)
    ensures
        final(out)@ == old(out)@ + amp_line(label@, l, r, caps_label@, caps),
{
    let ghost start = out@;
    push_text(out, label);
    push_hx(out, l as u64, 2);
    push_text(out, " R=");
    push_hx(out, r as u64, 2);
    push_text(out, caps_label);
    push_hx(out, caps as u64, 8);
    push_text(out, "\n");
    assert(out@ =~= start + amp_line(label@, l, r, caps_label@, caps));
}

fn push_dac_head(out: &mut Vec<char>, d: &DacDump)
    ensures
        final(out)@ == old(out)@ + dac_head(*d),
{
    let ghost start = out@;
    push_text(out, "  NID ");
    push_dec2(out, d.nid as u64);
    push_text(out, ": power=D");
    push_decimal(out, (d.power % 16) as u64);
    push_text(out, " stream_tag=");
    push_decimal(out, ((d.stream / 16) % 16) as u64);
    push_text(out, " chan=");
    push_decimal(out, (d.stream % 16) as u64);
    push_text(out, " fmt=");
    push_hx(out, d.fmt as u64, 4);
    push_text(out, "\n");
    assert(out@ =~= start + dac_head(*d));
}

fn push_dac(out: &mut Vec<char>, d: &DacDump)
    ensures
        final(out)@ == old(out)@ + dac_text(*d),
{
    let ghost start = out@;
    push_dac_head(out, d);
    push_amp_flags_line(out, d.wcaps);
    push_amp_line(out, "         amp_out L=", d.amp_l, d.amp_r, " caps=", d.caps);
    assert(out@ =~= start + dac_text(*d));
}

/// What the mixer dump reads from one mixer or selector on a path.
#[derive(Debug, Clone)]
pub struct MixDump {
    pub nid: u16,
    pub widget_type: WidgetType,
    pub conns: Vec<u16>,
    pub wcaps: u32,
    pub out_l: u32,
    pub out_r: u32,
    pub in_l: u32,
    pub in_r: u32,
    pub ocaps: u32,
    pub icaps: u32,
    pub sel: u32,
    pub power: u32,
}

pub open spec fn mix_head(m: MixDump) -> Seq<char> {
    "  NID "@ + dec2(m.nid as nat) + ": "@ + widget_label(m.widget_type) + " conns="@ + nid_list(m.conns@) + "\n"@
}

pub open spec fn mix_tail(m: MixDump) -> Seq<char> {
    "         conn_sel="@ + decimal(m.sel as nat) + " power=D"@ + decimal((m.power % 16) as nat) + "\n"@
}

pub open spec fn mix_text(m: MixDump) -> Seq<char> {
    mix_head(m) + amp_flags_line(m.wcaps) + amp_line("         out L="@, m.out_l, m.out_r, " ocaps="@, m.ocaps)
        + amp_line("         in[0] L="@, m.in_l, m.in_r, " icaps="@, m.icaps) + mix_tail(m)
}

fn push_mix_head(out: &mut Vec<char>, m: &MixDump)
    ensures
        final(out)@ == old(out)@ + mix_head(*m),
{
    let ghost start = out@;
    push_text(out, "  NID ");
    push_dec2(out, m.nid as u64);
    push_text(out, ": ");
    push_text(out, m.widget_type.name());
    push_text(out, " conns=");
    push_nid_list(out, &m.conns);
    push_text(out, "\n");
    assert(out@ =~= start + mix_head(*m));
}

fn push_mix_tail(out: &mut Vec<char>, m: &MixDump)
    ensures
        final(out)@ == old(out)@ + mix_tail(*m),
{
    let ghost start = out@;
    push_text(out, "         conn_sel=");
    push_decimal(out, m.sel as u64);
    push_text(out, " power=D");
    push_decimal(out, (m.power % 16) as u64);
    push_text(out, "\n");
    assert(out@ =~= start + mix_tail(*m));
}

fn push_mix(out: &mut Vec<char>, m: &MixDump)
    ensures
        final(out)@ == old(out)@ + mix_text(*m),
{
    let ghost start = out@;
    push_mix_head(out, m);
    push_amp_flags_line(out, m.wcaps);
    push_amp_line(out, "         out L=", m.out_l, m.out_r, " ocaps=", m.ocaps);
    push_amp_line(out, "         in[0] L=", m.in_l, m.in_r, " icaps=", m.icaps);
    push_mix_tail(out, m);
    assert(out@ =~= start + mix_text(*m));
}

/// Everything the codec dump shows.
#[derive(Debug, Clone)]
pub struct CodecDump {
    pub codec: u8,
    /// The vendor parameter, when the codec answered.
    pub vendor: Option<u32>,
    pub widget_count: usize,
    pub paths: Vec<Wk>,
    pub gpio_count: u32,
    pub gpio_mask: u32,
    pub gpio_dir: u32,
    pub gpio_data: u32,
    pub pins: Vec<PinDump>,
    pub dacs: Vec<DacDump>,
    pub mixers: Vec<MixDump>,
}

pub open spec fn vendor_line(codec: u8, vendor: Option<u32>) -> Seq<char> {
    match vendor {
        Some(v) => "Codec "@ + decimal(codec as nat) + ": vendor="@ + hx(((v / 0x10000) % 0x10000) as nat, 4)
            + " device="@ + hx((v % 0x10000) as nat, 4) + "\n"@,
        None => Seq::empty(),
    }
}

pub open spec fn path_line(i: int, w: Wk) -> Seq<char> {
    "  Path["@ + decimal(i as nat) + "]: pin="@ + decimal(w.pin_nid as nat) + " dac="@ + decimal(w.dac_nid as nat)
        + " type="@ + w.device_type@ + " route="@ + nid_list(w.path@) + "\n"@
}

pub open spec fn paths_text(ps: Seq<Wk>) -> Seq<char>
    decreases ps.len(),
{
    if ps.len() == 0 { Seq::empty() } else { paths_text(ps.drop_last()) + path_line(ps.len() - 1, ps.last()) }
}

pub open spec fn pins_text(ps: Seq<PinDump>) -> Seq<char>
    decreases ps.len(),
{
    if ps.len() == 0 { Seq::empty() } else { pins_text(ps.drop_last()) + pin_text(ps.last()) }
}

pub open spec fn dacs_text(ds: Seq<DacDump>) -> Seq<char>
    decreases ds.len(),
{
    if ds.len() == 0 { Seq::empty() } else { dacs_text(ds.drop_last()) + dac_text(ds.last()) }
}

pub open spec fn mixes_text(ms: Seq<MixDump>) -> Seq<char>
    decreases ms.len(),
{
    if ms.len() == 0 { Seq::empty() } else { mixes_text(ms.drop_last()) + mix_text(ms.last()) }
}

pub open spec fn gpio_line(d: CodecDump) -> Seq<char> {
    "GPIO: count="@ + decimal((d.gpio_count % 256) as nat) + " mask="@ + hx(d.gpio_mask as nat, 2) + " dir="@ + hx(
        d.gpio_dir as nat,
        2,
    ) + " data="@ + hx(d.gpio_data as nat, 2) + "\n"@
}

/// The codec dump's text.
pub open spec fn codec_dump_spec(d: CodecDump) -> Seq<char> {
    vendor_line(d.codec, d.vendor) + "Widgets: "@ + decimal(d.widget_count as nat) + " discovered\nOutput paths: "@
        + decimal(d.paths@.len()) + "\n"@ + paths_text(d.paths@) + gpio_line(d) + "\n--- Pin Widgets ---\n"@
        + pins_text(d.pins@) + "\n--- DAC Widgets ---\n"@ + dacs_text(d.dacs@) + "\n--- Path Mixer/Selector ---\n"@
        + mixes_text(d.mixers@)
}

fn push_vendor_line(out: &mut Vec<char>, codec: u8, vendor: Option<u32>)
    ensures
        final(out)@ == old(out)@ + vendor_line(codec, vendor),
{
    let ghost start = out@;
    match vendor {
        Some(v) => {
            push_text(out, "Codec ");
            push_decimal(out, codec as u64);
            push_text(out, ": vendor=");
            push_hx(out, ((v / 0x10000) % 0x10000) as u64, 4);
            push_text(out, " device=");
            push_hx(out, (v % 0x10000) as u64, 4);
            push_text(out, "\n");
        },
        None => {},
    }
    assert(out@ =~= start + vendor_line(codec, vendor));
}

fn push_path_line(out: &mut Vec<char>, i: usize, w: &Wk)
    ensures
        final(out)@ == old(out)@ + path_line(i as int, *w),
{
    let ghost start = out@;
    push_text(out, "  Path[");
    push_decimal(out, i as u64);
    push_text(out, "]: pin=");
    push_decimal(out, w.pin_nid as u64);
    push_text(out, " dac=");
    push_decimal(out, w.dac_nid as u64);
    push_text(out, " type=");
    push_text(out, w.device_type);
    push_text(out, " route=");
    push_nid_list(out, &w.path);
    push_text(out, "\n");
    assert(out@ =~= start + path_line(i as int, *w));
}

fn push_gpio_line(out: &mut Vec<char>, d: &CodecDump)
    ensures
        final(out)@ == old(out)@ + gpio_line(*d),
{
    let ghost start = out@;
    push_text(out, "GPIO: count=");
    push_decimal(out, (d.gpio_count % 256) as u64);
    push_text(out, " mask=");
    push_hx(out, d.gpio_mask as u64, 2);
    push_text(out, " dir=");
    push_hx(out, d.gpio_dir as u64, 2);
    push_text(out, " data=");
    push_hx(out, d.gpio_data as u64, 2);
    push_text(out, "\n");
    assert(out@ =~= start + gpio_line(*d));
}

fn push_paths(out: &mut Vec<char>, ps: &Vec<Wk>)
    ensures
        final(out)@ == old(out)@ + paths_text(ps@),
{
    let ghost start = out@;
    let mut i: usize = 0;
    assert(paths_text(ps@.subrange(0, 0)) =~= Seq::<char>::empty());
    while i < ps.len()
        invariant
            i <= ps@.len(),
            out@ == start + paths_text(ps@.subrange(0, i as int)),
        decreases ps@.len() - i,
    {
        assert(ps@.subrange(0, i + 1).drop_last() =~= ps@.subrange(0, i as int));
        push_path_line(out, i, &ps[i]);
        i = i + 1;
        assert(out@ =~= start + paths_text(ps@.subrange(0, i as int)));
    }
    assert(ps@.subrange(0, ps@.len() as int) =~= ps@);
}

fn push_pins(out: &mut Vec<char>, ps: &Vec<PinDump>)
    ensures
        final(out)@ == old(out)@ + pins_text(ps@),
{
    let ghost start = out@;
    let mut i: usize = 0;
    assert(pins_text(ps@.subrange(0, 0)) =~= Seq::<char>::empty());
    while i < ps.len()
        invariant
            i <= ps@.len(),
            out@ == start + pins_text(ps@.subrange(0, i as int)),
        decreases ps@.len() - i,
    {
        assert(ps@.subrange(0, i + 1).drop_last() =~= ps@.subrange(0, i as int));
        push_pin(out, &ps[i]);
        i = i + 1;
        assert(out@ =~= start + pins_text(ps@.subrange(0, i as int)));
    }
    assert(ps@.subrange(0, ps@.len() as int) =~= ps@);
}

fn push_dacs(out: &mut Vec<char>, ds: &Vec<DacDump>)
    ensures
        final(out)@ == old(out)@ + dacs_text(ds@),
{
    let ghost start = out@;
    let mut i: usize = 0;
    assert(dacs_text(ds@.subrange(0, 0)) =~= Seq::<char>::empty());
    while i < ds.len()
        invariant
            i <= ds@.len(),
            out@ == start + dacs_text(ds@.subrange(0, i as int)),
        decreases ds@.len() - i,
    {
        assert(ds@.subrange(0, i + 1).drop_last() =~= ds@.subrange(0, i as int));
        push_dac(out, &ds[i]);
        i = i + 1;
        assert(out@ =~= start + dacs_text(ds@.subrange(0, i as int)));
    }
    assert(ds@.subrange(0, ds@.len() as int) =~= ds@);
}

fn push_mixes(out: &mut Vec<char>, ms: &Vec<MixDump>)
    ensures
        final(out)@ == old(out)@ + mixes_text(ms@),
{
    let ghost start = out@;
    let mut i: usize = 0;
    assert(mixes_text(ms@.subrange(0, 0)) =~= Seq::<char>::empty());
    while i < ms.len()
        invariant
            i <= ms@.len(),
            out@ == start + mixes_text(ms@.subrange(0, i as int)),
        decreases ms@.len() - i,
    {
        assert(ms@.subrange(0, i + 1).drop_last() =~= ms@.subrange(0, i as int));
        push_mix(out, &ms[i]);
        i = i + 1;
        assert(out@ =~= start + mixes_text(ms@.subrange(0, i as int)));
    }
    assert(ms@.subrange(0, ms@.len() as int) =~= ms@);
}

/// The codec dump: the vendor line when the codec answered, the widget and
/// path counts, each output path, the GPIO state, then each pin, each
/// converter and each mixer or selector on the paths.
pub fn codec_dump_text(d: &CodecDump) -> (s: String)
    ensures
        s@ == codec_dump_spec(*d),
{
    let mut out: Vec<char> = Vec::new();
    push_vendor_line(&mut out, d.codec, d.vendor);
    push_text(&mut out, "Widgets: ");
    push_decimal(&mut out, d.widget_count as u64);
    push_text(&mut out, " discovered\nOutput paths: ");
    push_decimal(&mut out, d.paths.len() as u64);
    push_text(&mut out, "\n");
    push_paths(&mut out, &d.paths);
    push_gpio_line(&mut out, d);
    push_text(&mut out, "\n--- Pin Widgets ---\n");
    push_pins(&mut out, &d.pins);
    push_text(&mut out, "\n--- DAC Widgets ---\n");
    push_dacs(&mut out, &d.dacs);
    push_text(&mut out, "\n--- Path Mixer/Selector ---\n");
    push_mixes(&mut out, &d.mixers);
    assert(out@ =~= codec_dump_spec(*d));
    crate::util::chars_to_string(out)
}

/// The nodes of all routes, route after route.
pub open spec fn path_nodes(ps: Seq<Wk>) -> Seq<u16>
    decreases ps.len(),
{
    if ps.len() == 0 { Seq::empty() } else { path_nodes(ps.drop_last()) + ps.last().path@ }
}

/// `s` with every repeat of an earlier element left out.
pub open spec fn first_occurrences(s: Seq<u16>) -> Seq<u16>
    decreases s.len(),
{
    if s.len() == 0 {
        Seq::empty()
    } else if first_occurrences(s.drop_last()).contains(s.last()) {
        first_occurrences(s.drop_last())
    } else {
        first_occurrences(s.drop_last()).push(s.last())
    }
}

/// Whether the first widget with id `nid` is a mixer or a selector.
pub open spec fn is_mix_node(ws: Seq<Aw>, nid: u16) -> bool {
    let i = widget_index(ws, nid);
    i >= 0 && (ws[i].widget_type == WidgetType::AudioMixer || ws[i].widget_type == WidgetType::AudioSelector)
}

/// The elements of `s` that are mixers or selectors, in order.
pub open spec fn mix_nodes(ws: Seq<Aw>, s: Seq<u16>) -> Seq<u16>
    decreases s.len(),
{
    if s.len() == 0 {
        Seq::empty()
    } else if is_mix_node(ws, s.last()) {
        mix_nodes(ws, s.drop_last()).push(s.last())
    } else {
        mix_nodes(ws, s.drop_last())
    }
}

fn contains_nid(v: &Vec<u16>, x: u16) -> (b: bool)
    ensures
        b == v@.contains(x),
{
    let mut i: usize = 0;
    while i < v.len()
        invariant
            i <= v@.len(),
            forall|j: int| 0 <= j < i ==> v@[j] != x,
        decreases v@.len() - i,
    {
        if v[i] == x {
            assert(v@[i as int] == x);
            return true;
        }
        i = i + 1;
    }
    false
}

/// Walks the route nodes in order and keeps the first occurrence of each
/// node that `keep` lets through (every node, or the mixers and selectors).
fn route_nodes(ws: &Vec<Aw>, ps: &Vec<Wk>, mix_only: bool) -> (r: Vec<u16>)
    ensures
        r@ == (if mix_only { first_occurrences(mix_nodes(ws@, path_nodes(ps@))) } else { first_occurrences(
            path_nodes(ps@),
        ) }),
{
    let mut r: Vec<u16> = Vec::new();
    let mut i: usize = 0;
    assert(ps@.subrange(0, 0) =~= Seq::<Wk>::empty());
    assert(path_nodes(ps@.subrange(0, 0)) =~= Seq::<u16>::empty());
    while i < ps.len()
        invariant
            i <= ps@.len(),
            r@ == (if mix_only { first_occurrences(mix_nodes(ws@, path_nodes(ps@.subrange(0, i as int)))) } else {
                first_occurrences(path_nodes(ps@.subrange(0, i as int)))
            }),
        decreases ps@.len() - i,
    {
        let ghost done = path_nodes(ps@.subrange(0, i as int));
        let path = &ps[i].path;
        let mut j: usize = 0;
        assert(done + path@.subrange(0, 0) =~= done);
        while j < path.len()
            invariant
                j <= path@.len(),
                r@ == (if mix_only { first_occurrences(mix_nodes(ws@, done + path@.subrange(0, j as int))) } else {
                    first_occurrences(done + path@.subrange(0, j as int))
                }),
            decreases path@.len() - j,
        {
            let nid = path[j];
            let ghost s = done + path@.subrange(0, j as int);
            let ghost s1 = done + path@.subrange(0, j + 1);
            assert(s1.drop_last() =~= s);
            assert(s1.last() == nid);
            let keep = if mix_only {
                match find_widget_index(ws, nid) {
                    Some(k) => ws[k].widget_type == WidgetType::AudioMixer || ws[k].widget_type
                        == WidgetType::AudioSelector,
                    None => false,
                }
            } else {
                true
            };
            assert(mix_only ==> keep == is_mix_node(ws@, nid));
            proof {
                if mix_only {
                    let m = mix_nodes(ws@, s);
                    assert(m.push(nid).drop_last() =~= m);
                    assert(mix_nodes(ws@, s1) == (if is_mix_node(ws@, nid) { m.push(nid) } else { m }));
                }
            }
            if keep && !contains_nid(&r, nid) {
                r.push(nid);
            }
            j = j + 1;
        }
        assert(ps@.subrange(0, i + 1).drop_last() =~= ps@.subrange(0, i as int));
        assert(ps@.subrange(0, i + 1).last() == ps@[i as int]);
        assert(path@.subrange(0, path@.len() as int) =~= path@);
        i = i + 1;
    }
    assert(ps@.subrange(0, ps@.len() as int) =~= ps@);
    r
}

/// Every node on the output routes, each once, in the order first met.
pub fn path_nodes_distinct(ps: &Vec<Wk>) -> (r: Vec<u16>)
    ensures
        r@ == first_occurrences(path_nodes(ps@)),
{
    let ws: Vec<Aw> = Vec::new();
    route_nodes(&ws, ps, false)
}

/// The mixers and selectors on the output routes, each once, in the order
/// first met.
pub fn path_mixers(ws: &Vec<Aw>, ps: &Vec<Wk>) -> (r: Vec<u16>)
    ensures
        r@ == first_occurrences(mix_nodes(ws@, path_nodes(ps@))),
{
    route_nodes(ws, ps, true)
}

/// What the amplifier probe read and did at one node: the widget and
/// amplifier capabilities (zero where the node has no such amplifier), the
/// left gains before and after the set, and whether each set was accepted.
#[derive(Debug, Clone, Copy)]
pub struct ProbeDump {
    pub nid: u16,
    pub wcaps: u32,
    pub out_caps: u32,
    pub in_caps: u32,
    pub out_before: u32,
    pub out_after: u32,
    pub in_before: u32,
    pub in_after: u32,
    pub set_out_ok: bool,
    pub set_in_ok: bool,
}

/// The gain the probe sets: the amplifier's step count, or 0x1F where it
/// reports none.
pub open spec fn probe_gain_of(caps: u32) -> int {
    if amp_steps(caps) > 0 { amp_steps(caps) } else { 0x1F }
}

pub open spec fn probe_side(label: Seq<char>, before: u32, after: u32, ok: bool, caps: u32) -> Seq<char> {
    label + hx(before as nat, 2) + "->"@ + hx(after as nat, 2) + (if before != after { " CHANGED"@ } else {
        " same"@
    }) + " set="@ + (if ok { "ok"@ } else { "ERR"@ }) + " gain="@ + decimal(probe_gain_of(caps) as nat) + "\n"@
}

pub open spec fn probe_head(p: ProbeDump) -> Seq<char> {
    "NID "@ + dec2(p.nid as nat) + " type="@ + decimal(((p.wcaps / 0x10_0000) % 16) as nat) + " oamp="@ + flag(
        (p.wcaps / 4) % 2 == 1,
    ) + "("@ + decimal(amp_steps(p.out_caps) as nat) + ") iamp="@ + flag((p.wcaps / 2) % 2 == 1) + "("@ + decimal(
        amp_steps(p.in_caps) as nat,
    ) + ")\n"@
}

pub open spec fn probe_text(p: ProbeDump) -> Seq<char> {
    probe_head(p) + probe_side("  OUT: "@, p.out_before, p.out_after, p.set_out_ok, p.out_caps) + probe_side(
        "  IN:  "@,
        p.in_before,
        p.in_after,
        p.set_in_ok,
        p.in_caps,
    )
}

pub open spec fn probes_text(ps: Seq<ProbeDump>) -> Seq<char>
    decreases ps.len(),
{
    if ps.len() == 0 { Seq::empty() } else { probes_text(ps.drop_last()) + probe_text(ps.last()) }
}

/// The amplifier probe's text: a header, then three lines per node.
pub open spec fn amp_probe_spec(ps: Seq<ProbeDump>) -> Seq<char> {
    "=== Amp Probe (SET then GET) ===\n"@ + probes_text(ps)
}

fn changed_word(changed: bool) -> (s: &'static str)
    ensures
        s@ == (if changed { " CHANGED"@ } else { " same"@ }),
{
    if changed { " CHANGED" } else { " same" }
}

fn ok_word(ok: bool) -> (s: &'static str)
    ensures
        s@ == (if ok { "ok"@ } else { "ERR"@ }),
{
    if ok { "ok" } else { "ERR" }
}

fn push_probe_side(out: &mut Vec<char>, label: &str, before: u32, after: u32, ok: bool, caps: u32)
    ensures
        final(out)@ == old(out)@ + probe_side(label@, before, after, ok, caps),
{
    let ghost start = out@;
    push_text(out, label);
    push_hx(out, before as u64, 2);
    push_text(out, "->");
    push_hx(out, after as u64, 2);
    push_text(out, changed_word(before != after));
    push_text(out, " set=");
    push_text(out, ok_word(ok));
    push_text(out, " gain=");
    push_decimal(out, probe_gain(caps) as u64);
    push_text(out, "\n");
    assert(out@ =~= start + probe_side(label@, before, after, ok, caps));
}

fn push_probe_head(out: &mut Vec<char>, p: &ProbeDump)
    ensures
        final(out)@ == old(out)@ + probe_head(*p),
{
    let ghost start = out@;
    push_text(out, "NID ");
    push_dec2(out, p.nid as u64);
    push_text(out, " type=");
    push_decimal(out, ((p.wcaps / 0x10_0000) % 16) as u64);
    push_text(out, " oamp=");
    push_flag(out, (p.wcaps / 4) % 2 == 1);
    push_text(out, "(");
    push_decimal(out, ((p.out_caps / 256) % 128) as u64);
    push_text(out, ") iamp=");
    push_flag(out, (p.wcaps / 2) % 2 == 1);
    push_text(out, "(");
    push_decimal(out, ((p.in_caps / 256) % 128) as u64);
    push_text(out, ")\n");
    assert(out@ =~= start + probe_head(*p));
}

fn push_probe(out: &mut Vec<char>, p: &ProbeDump)
    ensures
        final(out)@ == old(out)@ + probe_text(*p),
{
    let ghost start = out@;
    push_probe_head(out, p);
    push_probe_side(out, "  OUT: ", p.out_before, p.out_after, p.set_out_ok, p.out_caps);
    push_probe_side(out, "  IN:  ", p.in_before, p.in_after, p.set_in_ok, p.in_caps);
    proof {
        reveal_strlit("  OUT: ");
        reveal_strlit("  IN:  ");
    }
    assert(out@ =~= start + probe_text(*p));
}

/// The amplifier probe's report, from what was read at each node.
pub fn amp_probe_text(ps: &Vec<ProbeDump>) -> (s: String)
    ensures
        s@ == amp_probe_spec(ps@),
{
    let mut out: Vec<char> = Vec::new();
    push_text(&mut out, "=== Amp Probe (SET then GET) ===\n");
    let mut i: usize = 0;
    assert(probes_text(ps@.subrange(0, 0)) =~= Seq::<char>::empty());
    while i < ps.len()
        invariant
            i <= ps@.len(),
            out@ == "=== Amp Probe (SET then GET) ===\n"@ + probes_text(ps@.subrange(0, i as int)),
        decreases ps@.len() - i,
    {
        assert(ps@.subrange(0, i + 1).drop_last() =~= ps@.subrange(0, i as int));
        push_probe(&mut out, &ps[i]);
        i = i + 1;
        assert(out@ =~= "=== Amp Probe (SET then GET) ===\n"@ + probes_text(ps@.subrange(0, i as int)));
    }
    assert(ps@.subrange(0, ps@.len() as int) =~= ps@);
    crate::util::chars_to_string(out)
}

} // verus!
