//! What the HD Audio controller and codec set-up decides: the controller's
//! capabilities, the command and response rings, the codec graph read
//! from parameter responses, the amplifier and connection settings of the
//! output paths, and the contents of the playback buffer.
use vstd::prelude::*;
use crate::hda::{Aw, WidgetType, widget_index};
use crate::util::{tdiv, tdiv_i32};

verus! {

/// Stream counts and addressing of a controller, from its GCAP register.
#[derive(Clone, Copy, Debug, PartialEq, Eq, Structural)]
pub struct StreamCaps {
    pub output: u8,
    pub input: u8,
    pub bidir: u8,
    pub addr64: bool,
}

/// Decodes GCAP: output streams in bits 12..16, input streams in 8..12,
/// bidirectional streams in 3..8, 64-bit addressing in bit 0.
pub fn gcap_streams(gcap: u16) -> (c: StreamCaps)
    ensures
        c.output == gcap / 4096,
        c.input == (gcap / 256) % 16,
        c.bidir == (gcap / 8) % 32,
        c.addr64 == (gcap % 2 == 1),
{
    StreamCaps {
        output: (gcap / 4096) as u8,
        input: ((gcap / 256) % 16) as u8,
        bidir: ((gcap / 8) % 32) as u8,
        addr64: gcap % 2 == 1,
    }
}

/// Size selection of a command or response ring from its size-capability
/// byte: (selector, entries), the largest size offered of 256, 16 and 2.
pub fn ring_size(cap: u8) -> (r: (u8, u16))
    ensures
        r == (if (cap / 64) % 2 == 1 { (2u8, 256u16) } else if (cap / 32) % 2 == 1 { (1u8, 16u16) } else { (0u8, 2u16) }),
{
    if (cap / 64) % 2 == 1 {
        (2, 256)
    } else if (cap / 32) % 2 == 1 {
        (1, 16)
    } else {
        (0, 2)
    }
}

/// The ring slot after the one a pointer register names (its low byte).
pub fn ring_next(pointer: u16, entries: u16) -> (r: u16)
    requires
        entries > 0,
    ensures
        r == ((pointer % 256) + 1) % (entries as int),
        r < entries,
{
    ((pointer % 256) + 1) % entries
}

/// Byte offset of output stream descriptor `index`: descriptors start at
/// 0x80, 0x20 bytes each, input streams first.
pub fn output_descriptor(num_input: u8, index: u8) -> (r: u32)
    ensures
        r == 0x80 + (num_input as int + index as int) * 0x20,
{
    0x80 + (num_input as u32 + index as u32) * 0x20
}

/// The codec addresses present, from the state-change status register:
/// every address below 15 whose bit is set, in increasing order.
pub open spec fn present_codecs(bits: int, from: int, n: nat) -> Seq<u8>
    decreases n,
{
    if n == 0 {
        Seq::<u8>::empty()
    } else {
        (if bits % 2 == 1 { seq![from as u8] } else { Seq::<u8>::empty() }) + present_codecs(bits / 2, from + 1, (n - 1) as nat)
    }
}

pub fn codec_addresses(statests: u16) -> (v: Vec<u8>)
    ensures
        v@ == present_codecs(statests as int, 0, 15),
{
    let mut v: Vec<u8> = Vec::new();
    let mut rest: u16 = statests;
    let mut i: u8 = 0;
    while i < 15
        invariant
            i <= 15,
            v@ + present_codecs(rest as int, i as int, (15 - i) as nat) == present_codecs(statests as int, 0, 15),
        decreases 15 - i,
    {
        let ghost before = v@;
        let ghost tail = present_codecs(rest as int / 2, i as int + 1, (15 - i - 1) as nat);
        assert(present_codecs(rest as int, i as int, (15 - i) as nat)
            == (if rest % 2 == 1 { seq![i] } else { Seq::<u8>::empty() }) + tail);
        if rest % 2 == 1 {
            v.push(i);
            assert(before + (seq![i] + tail) =~= v@ + tail);
        } else {
            assert(before + (Seq::<u8>::empty() + tail) =~= v@ + tail);
        }
        rest = rest / 2;
        i = i + 1;
    }
    assert(v@ + present_codecs(rest as int, 15, 0) =~= v@);
    v
}

/// A node-count parameter response: (first node, number of nodes).
pub fn node_range(resp: u32) -> (r: (u16, u16))
    ensures
        r.0 == (resp / 65536) % 256,
        r.1 == resp % 256,
{
    (((resp / 65536) % 256) as u16, (resp % 256) as u16)
}

/// A connection-list-length response: (number of entries, long form).
pub fn connection_list_length(resp: u32) -> (r: (u16, bool))
    ensures
        r.0 == resp % 128,
        r.1 == ((resp / 128) % 2 == 1),
{
    ((resp % 128) as u16, (resp / 128) % 2 == 1)
}

/// Byte `k` (0 to 3) of a response.
pub open spec fn response_byte(resp: u32, k: int) -> u16 {
    let scale: int = if k == 0 { 1 } else if k == 1 { 0x100 } else if k == 2 { 0x10000 } else { 0x1000000 };
    ((resp as int / scale) % 256) as u16
}

/// The entries that one connection-list response at `offset` carries
/// for a list of `count` entries: up to four, one per byte.
pub open spec fn connection_entries_spec(resp: u32, offset: u8, count: u16) -> Seq<u16> {
    let left = count as int - offset as int;
    let n = if left < 0 { 0 } else if left > 4 { 4 } else { left };
    Seq::new(n as nat, |k: int| response_byte(resp, k))
}

pub fn connection_entries(resp: u32, offset: u8, count: u16) -> (v: Vec<u16>)
    ensures
        v@ == connection_entries_spec(resp, offset, count),
{
    let mut v: Vec<u16> = Vec::new();
    let mut k: u16 = 0;
    let ghost left = count as int - offset as int;
    let ghost n: int = if left < 0 { 0 } else if left > 4 { 4 } else { left };
    while k < 4
        invariant
            k <= 4,
            k <= n,
            n == (if left < 0 { 0 } else if left > 4 { 4 } else { left }),
            left == count as int - offset as int,
            v@.len() == k,
            forall|j: int| 0 <= j < k ==> v@[j] == response_byte(resp, j),
        ensures
            v@.len() == n,
            forall|j: int| 0 <= j < n ==> v@[j] == response_byte(resp, j),
        decreases 4 - k,
    {
        if offset as u16 + k >= count {
            break;
        }
        let b: u16 = if k == 0 {
            (resp % 256) as u16
        } else if k == 1 {
            (resp / 0x100 % 256) as u16
        } else if k == 2 {
            (resp / 0x10000 % 256) as u16
        } else {
            (resp / 0x1000000 % 256) as u16
        };
        v.push(b);
        k = k + 1;
    }
    assert(v@ =~= connection_entries_spec(resp, offset, count));
    v
}

/// Whether a widget's own amplifier capabilities are to be read: it has
/// the amplifier (output: bit 2, input: bit 1) and overrides the function
/// group's amplifier parameters (bit 3).
pub open spec fn has_amp(wcaps: u32, output: bool) -> bool {
    if output { (wcaps / 4) % 2 == 1 } else { (wcaps / 2) % 2 == 1 }
}

pub fn needs_amp_query(wcaps: u32, output: bool) -> (r: bool)
    ensures
        r == (has_amp(wcaps, output) && (wcaps / 8) % 2 == 1),
{
    (if output { (wcaps / 4) % 2 == 1 } else { (wcaps / 2) % 2 == 1 }) && (wcaps / 8) % 2 == 1
}

/// Amplifier capabilities of a widget: none without the amplifier; its own
/// when it overrides and they are not zero; else the function group's.
pub fn amp_caps_for(wcaps: u32, output: bool, own: u32, group: u32) -> (r: u32)
    ensures
        r == (if !has_amp(wcaps, output) { 0 } else if (wcaps / 8) % 2 == 1 && own != 0 { own } else { group }),
{
    let present = if output { (wcaps / 4) % 2 == 1 } else { (wcaps / 2) % 2 == 1 };
    if !present {
        0
    } else if (wcaps / 8) % 2 == 1 && own != 0 {
        own
    } else {
        group
    }
}

/// Gain steps of an amplifier (bits 8..15 of its capabilities).
pub open spec fn amp_steps(caps: u32) -> int {
    (caps as int / 256) % 128
}

/// The set-amplifier payloads that unmute a widget at full gain: output
/// side, input side, then the input side of each further connection up to
/// the sixteenth.  A widget without its own gain steps takes the function
/// group's.
pub open spec fn unmute_payloads_spec(out_caps: u32, in_caps: u32, group_out: u32, group_in: u32, num_conns: int) -> Seq<u16> {
    let og = if amp_steps(out_caps) > 0 { amp_steps(out_caps) } else { amp_steps(group_out) };
    let ig = if amp_steps(in_caps) > 0 { amp_steps(in_caps) } else { amp_steps(group_in) };
    let extra = if num_conns > 1 { (if num_conns < 16 { num_conns } else { 16 }) - 1 } else { 0 };
    seq![(0xB000 + og) as u16, (0x7000 + ig) as u16] + Seq::new(extra as nat, |k: int| (0x7000 + (k + 1) * 256 + ig) as u16)
}

pub fn unmute_payloads(out_caps: u32, in_caps: u32, group_out: u32, group_in: u32, num_conns: usize) -> (v: Vec<u16>)
    ensures
        v@ == unmute_payloads_spec(out_caps, in_caps, group_out, group_in, num_conns as int),
{
    let os = ((out_caps / 256) % 128) as u16;
    let is = ((in_caps / 256) % 128) as u16;
    let og: u16 = if os > 0 { os } else { ((group_out / 256) % 128) as u16 };
    let ig: u16 = if is > 0 { is } else { ((group_in / 256) % 128) as u16 };
    let mut v: Vec<u16> = Vec::new();
    v.push(0xB000 + og);
    v.push(0x7000 + ig);
    if num_conns > 1 {
        let top: u16 = if num_conns < 16 { num_conns as u16 } else { 16 };
        let mut idx: u16 = 1;
        while idx < top
            invariant
                1 <= idx <= top <= 16,
                ig < 128,
                v@.len() == 2 + idx - 1,
                v@[0] == 0xB000 + og,
                v@[1] == 0x7000 + ig,
                og < 128,
                forall|j: int| 2 <= j < v@.len() ==> v@[j] == (0x7000 + (j - 1) * 256 + ig) as u16,
            decreases top - idx,
        {
            v.push(0x7000 + idx * 256 + ig);
            idx = idx + 1;
        }
    }
    assert(v@ =~= unmute_payloads_spec(out_caps, in_caps, group_out, group_in, num_conns as int));
    v
}

/// Gain forced on the pins of the output paths: the function group's
/// output steps, or 3 when it has none.
pub fn path_pin_gain(group_out: u32) -> (g: u16)
    ensures
        g == (if amp_steps(group_out) > 0 { amp_steps(group_out) } else { 3 }),
{
    let s = ((group_out / 256) % 128) as u16;
    if s > 0 { s } else { 3 }
}

/// Index of the first `x` in `s`, or -1.
pub open spec fn first_pos(s: Seq<u16>, x: u16) -> int
    decreases s.len(),
{
    if s.len() == 0 {
        -1
    } else if first_pos(s.drop_last(), x) >= 0 {
        first_pos(s.drop_last(), x)
    } else if s.last() == x {
        s.len() - 1
    } else {
        -1
    }
}

proof fn lemma_first_pos(s: Seq<u16>, x: u16)
    ensures
        -1 <= first_pos(s, x) < s.len(),
        first_pos(s, x) >= 0 ==> s[first_pos(s, x)] == x,
        forall|j: int| 0 <= j < s.len() && s[j] == x ==> first_pos(s, x) >= 0 && first_pos(s, x) <= j,
    decreases s.len(),
{
    if s.len() > 0 {
        let d = s.drop_last();
        lemma_first_pos(d, x);
        assert forall|j: int| 0 <= j < d.len() implies d[j] == s[j] by {}
    }
}

fn find_first(s: &Vec<u16>, x: u16) -> (r: Option<usize>)
    ensures
        r is None <==> first_pos(s@, x) < 0,
        r matches Some(i) ==> i == first_pos(s@, x),
{
    proof { lemma_first_pos(s@, x); }
    let mut i: usize = 0;
    while i < s.len()
        invariant
            i <= s@.len(),
            forall|j: int| 0 <= j < i ==> s@[j] != x,
            -1 <= first_pos(s@, x) < s@.len(),
            first_pos(s@, x) >= 0 ==> s@[first_pos(s@, x)] == x,
            forall|j: int| 0 <= j < s@.len() && s@[j] == x ==> first_pos(s@, x) >= 0 && first_pos(s@, x) <= j,
        decreases s@.len() - i,
    {
        if s[i] == x {
            return Some(i);
        }
        i = i + 1;
    }
    None
}

/// The connection select for node `path[k]` of an output path: when the
/// node is a known widget and its first occurrence in the path has a
/// successor among the widget's connections, (node, index of the first
/// such connection).
pub open spec fn conn_select_at(ws: Seq<Aw>, path: Seq<u16>, k: int) -> Option<(u16, u8)> {
    let nid = path[k];
    let w = widget_index(ws, nid);
    let pos = first_pos(path, nid);
    if w < 0 || pos + 1 >= path.len() {
        None
    } else {
        let ci = first_pos(ws[w].connections@, path[pos + 1]);
        if ci < 0 { None } else { Some((nid, ci as u8)) }
    }
}

/// The connection selects of the first `n` nodes of a path, in path order.
pub open spec fn conn_selects_spec(ws: Seq<Aw>, path: Seq<u16>, n: int) -> Seq<(u16, u8)>
    decreases n,
{
    if n <= 0 {
        Seq::<(u16, u8)>::empty()
    } else {
        conn_selects_spec(ws, path, n - 1) + match conn_select_at(ws, path, n - 1) {
            Some(c) => seq![c],
            None => Seq::<(u16, u8)>::empty(),
        }
    }
}

pub fn conn_selects(ws: &Vec<Aw>, path: &Vec<u16>) -> (v: Vec<(u16, u8)>)
    ensures
        v@ == conn_selects_spec(ws@, path@, path@.len() as int),
{
    let mut v: Vec<(u16, u8)> = Vec::new();
    let mut k: usize = 0;
    while k < path.len()
        invariant
            k <= path@.len(),
            v@ == conn_selects_spec(ws@, path@, k as int),
        decreases path@.len() - k,
    {
        let nid = path[k];
        proof { lemma_first_pos(path@, nid); }
        let sel: Option<(u16, u8)> = match crate::hda::find_widget_index(ws, nid) {
            None => None,
            Some(w) => {
                match find_first(path, nid) {
                    None => None,
                    Some(pos) => {
                        if pos + 1 >= path.len() {
                            None
                        } else {
                            match find_first(&ws[w].connections, path[pos + 1]) {
                                None => None,
                                Some(ci) => Some((nid, ci as u8)),
                            }
                        }
                    },
                }
            },
        };
        assert(sel == conn_select_at(ws@, path@, k as int));
        match sel {
            Some(c) => v.push(c),
            None => {},
        }
        k = k + 1;
        assert(v@ =~= conn_selects_spec(ws@, path@, k as int));
    }
    v
}

/// The triangle wave of the playback test tone at position `pos` of a
/// period of `period` frames: up over the first quarter, down over the
/// middle half, up again at the end; amplitude 16000, clamped to ±32000.
pub open spec fn triangle_at(pos: int, period: int, quarter: int) -> i16 {
    let v = if pos < quarter {
        tdiv(16000 * pos, quarter)
    } else if pos < 3 * quarter {
        tdiv(16000 * (2 * quarter - pos), quarter)
    } else {
        tdiv(16000 * (pos - period), quarter)
    };
    (if v < -32000 { -32000 } else if v > 32000 { 32000 } else { v }) as i16
}

/// The playback buffer (`buf_size` bytes, as 16-bit samples) holding a
/// stereo test tone of `freq_hz` for `duration_ms`, as much as fits,
/// silence after it; none when the tone's period is under one frame.
pub open spec fn tone_buffer_spec(freq_hz: u32, duration_ms: u32, buf_size: u32) -> Option<Seq<i16>> {
    let period = 48000int / (freq_hz as int);
    if period == 0 {
        None
    } else {
        let quarter = if period / 4 > 0 { period / 4 } else { 1 };
        let wanted = 48000 * (duration_ms as int) / 1000;
        let frames = if wanted < buf_size as int / 4 { wanted } else { buf_size as int / 4 };
        Some(Seq::new((buf_size / 2) as nat, |j: int|
            if j / 2 < frames { triangle_at((j / 2) % period, period, quarter) } else { 0i16 }))
    }
}

fn triangle_exec(pos: i32, period: i32, quarter: i32) -> (r: i16)
    requires
        0 <= pos < period <= 48000,
        1 <= quarter <= period,
    ensures
        r == triangle_at(pos as int, period as int, quarter as int),
{
    let v: i32 = if pos < quarter {
        tdiv_i32(16000 * pos, quarter)
    } else if pos < 3 * quarter {
        tdiv_i32(16000 * (2 * quarter - pos), quarter)
    } else {
        tdiv_i32(16000 * (pos - period), quarter)
    };
    (if v < -32000 { -32000 } else if v > 32000 { 32000 } else { v }) as i16
}

pub fn tone_buffer(freq_hz: u32, duration_ms: u32, buf_size: u32) -> (r: Option<Vec<i16>>)
    requires
        freq_hz > 0,
        48000 * (duration_ms as int) <= u32::MAX,
    ensures
        match tone_buffer_spec(freq_hz, duration_ms, buf_size) {
            None => r is None,
            Some(s) => r matches Some(v) && v@ == s,
        },
{
    let period = 48000 / freq_hz;
    if period == 0 {
        return None;
    }
    let quarter = if period / 4 > 0 { period / 4 } else { 1 };
    let wanted = 48000 * duration_ms / 1000;
    let frames = if wanted < buf_size / 4 { wanted } else { buf_size / 4 };
    let total = buf_size / 2;
    let ghost spec_s = tone_buffer_spec(freq_hz, duration_ms, buf_size)->Some_0;
    let mut v: Vec<i16> = Vec::new();
    let mut i: u32 = 0;
    while i < frames
        invariant
            i <= frames <= buf_size / 4,
            1 <= quarter <= period <= 48000,
            period == 48000int / (freq_hz as int),
            quarter == (if period / 4 > 0 { period / 4 } else { 1 }),
            frames == (if 48000 * (duration_ms as int) / 1000 < buf_size / 4 { 48000 * (duration_ms as int) / 1000 } else { buf_size as int / 4 }),
            spec_s == tone_buffer_spec(freq_hz, duration_ms, buf_size)->Some_0,
            spec_s.len() == buf_size / 2,
            v@.len() == 2 * i,
            forall|j: int| 0 <= j < v@.len() ==> v@[j] == spec_s[j],
        decreases frames - i,
    {
        let s = triangle_exec((i % period) as i32, period as i32, quarter as i32);
        assert(spec_s[2 * i as int] == s && spec_s[2 * i + 1] == s) by {
            assert((2 * i as int) / 2 == i && (2 * i as int + 1) / 2 == i);
        }
        v.push(s);
        v.push(s);
        i = i + 1;
    }
    assert forall|j: int| 2 * frames <= j < total implies spec_s[j] == 0i16 by {
        assert(j / 2 >= frames);
    }
    while (v.len() as u32) < total
        invariant
            forall|j: int| 2 * frames <= j < total ==> spec_s[j] == 0i16,
            2 * frames <= v@.len() <= total,
            total == buf_size / 2,
            spec_s.len() == total,
            frames == (if 48000 * (duration_ms as int) / 1000 < buf_size / 4 { 48000 * (duration_ms as int) / 1000 } else { buf_size as int / 4 }),
            spec_s == tone_buffer_spec(freq_hz, duration_ms, buf_size)->Some_0,
            forall|j: int| 0 <= j < v@.len() ==> v@[j] == spec_s[j],
        decreases total - v@.len(),
    {
        v.push(0);
    }
    assert(v@ =~= spec_s);
    Some(v)
}

/// Codecs that need extra power-up steps, by vendor id (bits 16..32 of the
/// vendor parameter).
#[derive(Clone, Copy, Debug, PartialEq, Eq, Structural)]
pub enum CodecQuirk {
    Plain,
    AnalogDevices,
    Conexant,
}

pub fn codec_quirk(vendor_param: u32) -> (q: CodecQuirk)
    ensures
        q == (if vendor_param / 65536 == 0x11D4 { CodecQuirk::AnalogDevices } else if vendor_param / 65536 == 0x14F1 {
            CodecQuirk::Conexant
        } else {
            CodecQuirk::Plain
        }),
{
    let vendor = vendor_param / 65536;
    if vendor == 0x11D4 {
        CodecQuirk::AnalogDevices
    } else if vendor == 0x14F1 {
        CodecQuirk::Conexant
    } else {
        CodecQuirk::Plain
    }
}

/// Node ids of the widgets of type `t`, in widget order.
pub open spec fn nids_of_type(ws: Seq<Aw>, t: WidgetType) -> Seq<u16>
    decreases ws.len(),
{
    if ws.len() == 0 {
        Seq::<u16>::empty()
    } else {
        nids_of_type(ws.drop_last(), t) + if ws.last().widget_type == t { seq![ws.last().nid] } else { Seq::<u16>::empty() }
    }
}

pub fn widgets_of_type(ws: &Vec<Aw>, t: WidgetType) -> (v: Vec<u16>)
    ensures
        v@ == nids_of_type(ws@, t),
{
    let mut v: Vec<u16> = Vec::new();
    let mut i: usize = 0;
    while i < ws.len()
        invariant
            i <= ws@.len(),
            v@ == nids_of_type(ws@.subrange(0, i as int), t),
        decreases ws@.len() - i,
    {
        assert(ws@.subrange(0, i + 1).drop_last() =~= ws@.subrange(0, i as int));
        if ws[i].widget_type == t {
            v.push(ws[i].nid);
        }
        i = i + 1;
        assert(v@ =~= nids_of_type(ws@.subrange(0, i as int), t));
    }
    assert(ws@.subrange(0, ws@.len() as int) =~= ws@);
    v
}

/// Whether a pin's default device is a line out, speaker or headphone.
pub open spec fn is_speaker_pin(w: Aw) -> bool {
    w.widget_type == WidgetType::PinComplex && (w.pin_config / 0x100000) % 16 <= 2
}

/// The pins that the codec quirks power up: line-out, speaker and
/// headphone pins, in widget order.
pub open spec fn speaker_pins_spec(ws: Seq<Aw>) -> Seq<u16>
    decreases ws.len(),
{
    if ws.len() == 0 {
        Seq::<u16>::empty()
    } else {
        speaker_pins_spec(ws.drop_last()) + if is_speaker_pin(ws.last()) { seq![ws.last().nid] } else { Seq::<u16>::empty() }
    }
}

pub fn speaker_pins(ws: &Vec<Aw>) -> (v: Vec<u16>)
    ensures
        v@ == speaker_pins_spec(ws@),
{
    let mut v: Vec<u16> = Vec::new();
    let mut i: usize = 0;
    while i < ws.len()
        invariant
            i <= ws@.len(),
            v@ == speaker_pins_spec(ws@.subrange(0, i as int)),
        decreases ws@.len() - i,
    {
        assert(ws@.subrange(0, i + 1).drop_last() =~= ws@.subrange(0, i as int));
        if ws[i].widget_type == WidgetType::PinComplex && (ws[i].pin_config / 0x100000) % 16 <= 2 {
            v.push(ws[i].nid);
        }
        i = i + 1;
        assert(v@ =~= speaker_pins_spec(ws@.subrange(0, i as int)));
    }
    assert(ws@.subrange(0, ws@.len() as int) =~= ws@);
    v
}

/// Stream format of playback: 48 kHz, 16 bits, two channels.
pub const STREAM_FORMAT: u16 = 0x0011;

/// Byte 2 of a stream descriptor's control register: the stream tag in
/// bits 4..8.
pub fn stream_tag_byte(tag: u8) -> (b: u8)
    ensures
        b == (tag as int * 16) % 256,
{
    ((tag as u32 * 16) % 256) as u8
}

/// Buffer descriptor list: `count` fragments of `fragment` bytes each,
/// back to back from `phys`, each raising an interrupt on completion:
/// (address, length, interrupt-on-completion).
pub fn bdl_entries(phys: u64, fragment: u32, count: u32) -> (v: Vec<(u64, u32, u32)>)
    requires
        phys + count as int * fragment as int <= u64::MAX,
    ensures
        v@.len() == count,
        forall|i: int| 0 <= i < count ==> #[trigger] v@[i] == ((phys + i * fragment) as u64, fragment, 1u32),
{
    let mut v: Vec<(u64, u32, u32)> = Vec::new();
    let mut i: u32 = 0;
    while i < count
        invariant
            i <= count,
            phys + count as int * fragment as int <= u64::MAX,
            v@.len() == i,
            forall|k: int| 0 <= k < i ==> #[trigger] v@[k] == ((phys + k * fragment) as u64, fragment, 1u32),
        decreases count - i,
    {
        assert(i as int * fragment as int <= count as int * fragment as int) by (nonlinear_arith)
            requires i < count;
        v.push((phys + i as u64 * fragment as u64, fragment, 1));
        i = i + 1;
    }
    v
}

/// Bytes of the playback buffer that a tone of `duration_ms` fills
/// (stereo, 16-bit, 48 kHz), at most the buffer.
pub fn play_target(duration_ms: u32, buf_size: u32) -> (t: u32)
    requires
        48000 * (duration_ms as int) <= u32::MAX,
    ensures
        t == (if 48000 * (duration_ms as int) / 1000 * 4 < buf_size { 48000 * (duration_ms as int) / 1000 * 4 } else { buf_size as int }),
{
    let bytes = 48000 * duration_ms / 1000 * 4;
    if bytes < buf_size { bytes } else { buf_size }
}

/// The playback buffer (`buf_size` bytes) holding `samples`, cut to fit,
/// then silence.
pub fn staged_samples(samples: &[i16], buf_size: u32) -> (v: Vec<i16>)
    ensures
        v@.len() == buf_size / 2,
        forall|i: int| 0 <= i < v@.len() ==> #[trigger] v@[i] == (if i < samples@.len() { samples@[i] } else { 0i16 }),
{
    let cap = (buf_size / 2) as usize;
    let mut v: Vec<i16> = Vec::new();
    let mut i: usize = 0;
    while i < cap
        invariant
            i <= cap == buf_size / 2,
            v@.len() == i,
            forall|k: int| 0 <= k < i ==> #[trigger] v@[k] == (if k < samples@.len() { samples@[k] } else { 0i16 }),
        decreases cap - i,
    {
        if i < samples.len() {
            v.push(samples[i]);
        } else {
            v.push(0);
        }
        i = i + 1;
    }
    v
}

/// Gain set while probing an amplifier: its steps, or 0x1F when it
/// reports none.
pub fn probe_gain(caps: u32) -> (g: u16)
    ensures
        g == (if amp_steps(caps) > 0 { amp_steps(caps) } else { 0x1F }),
{
    let s = ((caps / 256) % 128) as u16;
    if s > 0 { s } else { 0x1F }
}

} // verus!
