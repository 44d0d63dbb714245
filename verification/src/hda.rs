//! Intel High Definition Audio: codec widget decoding, output path search,
//! verb encoding, and the sample synthesis of tones, effects, melodies and
//! WAV playback.
use vstd::prelude::*;
use crate::hda_plan::{dac_amp_steps, volume_steps, CodecGraph, HdaStep, SET_AMP};
use crate::util::{le16, le32, read_le16, read_le32, tdiv, tdiv_i32, lemma_tdiv_bound};
use vstd::string::StringSliceAdditionalSpecFns;
use vstd::arithmetic::power2::{pow2, lemma2_to64, lemma_pow2_pos, lemma_pow2_strictly_increases, lemma_pow2_unfold};
use vstd::arithmetic::div_mod::{lemma_div_is_ordered, lemma_div_denominator};
use vstd::bits::{lemma_u32_shl_is_mul, lemma_u32_shr_is_div};

verus! {

/// Kind of a codec widget.
#[derive(Debug, Clone, Copy, PartialEq, Eq, Structural)]
pub enum WidgetType {
    AudioOutput,
    AudioInput,
    AudioMixer,
    AudioSelector,
    PinComplex,
    Power,
    VolumeKnob,
    BeepGen,
    VendorDef,
    Unknown,
}

/// Widget kind from the type field (bits 20..24) of its capabilities.
pub open spec fn spec_widget_type(caps: u32) -> WidgetType {
    let t = (caps >> 20) & 0xF;
    if t == 0 { WidgetType::AudioOutput }
    else if t == 1 { WidgetType::AudioInput }
    else if t == 2 { WidgetType::AudioMixer }
    else if t == 3 { WidgetType::AudioSelector }
    else if t == 4 { WidgetType::PinComplex }
    else if t == 5 { WidgetType::Power }
    else if t == 6 { WidgetType::VolumeKnob }
    else if t == 7 { WidgetType::BeepGen }
    else if t == 0xF { WidgetType::VendorDef }
    else { WidgetType::Unknown }
}

pub open spec fn widget_label(w: WidgetType) -> Seq<char> {
    match w {
        WidgetType::AudioOutput => "Audio Output (DAC)"@,
        WidgetType::AudioInput => "Audio Input (ADC)"@,
        WidgetType::AudioMixer => "Audio Mixer"@,
        WidgetType::AudioSelector => "Audio Selector"@,
        WidgetType::PinComplex => "Pin Complex"@,
        WidgetType::Power => "Power Widget"@,
        WidgetType::VolumeKnob => "Volume Knob"@,
        WidgetType::BeepGen => "Beep Generator"@,
        WidgetType::VendorDef => "Vendor Defined"@,
        WidgetType::Unknown => "Unknown"@,
    }
}

impl WidgetType {
    /// Widget kind from its capabilities word.
    pub fn lzc(caps: u32) -> (r: Self)
        ensures
            r == spec_widget_type(caps),
    {
        match (caps >> 20) & 0xF {
            0 => Self::AudioOutput,
            1 => Self::AudioInput,
            2 => Self::AudioMixer,
            3 => Self::AudioSelector,
            4 => Self::PinComplex,
            5 => Self::Power,
            6 => Self::VolumeKnob,
            7 => Self::BeepGen,
            0xF => Self::VendorDef,
            _ => Self::Unknown,
        }
    }

    /// Display name of the widget kind.
    pub fn name(&self) -> (r: &'static str)
        ensures
            r@ == widget_label(*self),
    {
        match self {
            Self::AudioOutput => "Audio Output (DAC)",
            Self::AudioInput => "Audio Input (ADC)",
            Self::AudioMixer => "Audio Mixer",
            Self::AudioSelector => "Audio Selector",
            Self::PinComplex => "Pin Complex",
            Self::Power => "Power Widget",
            Self::VolumeKnob => "Volume Knob",
            Self::BeepGen => "Beep Generator",
            Self::VendorDef => "Vendor Defined",
            Self::Unknown => "Unknown",
        }
    }
}

/// Name of the default device of a pin, from its configuration default
/// (bits 20..24).
pub open spec fn pin_device_label(config: u32) -> Seq<char> {
    let d = (config >> 20) & 0xF;
    if d == 0x0 { "Line Out"@ }
    else if d == 0x1 { "Speaker"@ }
    else if d == 0x2 { "HP Out"@ }
    else if d == 0x3 { "CD"@ }
    else if d == 0x4 { "SPDIF Out"@ }
    else if d == 0x5 { "Digital Other Out"@ }
    else if d == 0x6 { "Modem Line Side"@ }
    else if d == 0x7 { "Modem Handset"@ }
    else if d == 0x8 { "Line In"@ }
    else if d == 0x9 { "AUX"@ }
    else if d == 0xA { "Mic In"@ }
    else if d == 0xB { "Telephony"@ }
    else if d == 0xC { "SPDIF In"@ }
    else if d == 0xD { "Digital Other In"@ }
    else if d == 0xE { "Reserved"@ }
    else { "Other"@ }
}

/// Name of a pin's default device.
pub fn gnb(config: u32) -> (r: &'static str)
    ensures
        r@ == pin_device_label(config),
{
    let d = (config >> 20) & 0xF;
    assert(d <= 0xF) by (bit_vector) requires d == (config >> 20) & 0xF;
    match d {
        0x0 => "Line Out",
        0x1 => "Speaker",
        0x2 => "HP Out",
        0x3 => "CD",
        0x4 => "SPDIF Out",
        0x5 => "Digital Other Out",
        0x6 => "Modem Line Side",
        0x7 => "Modem Handset",
        0x8 => "Line In",
        0x9 => "AUX",
        0xA => "Mic In",
        0xB => "Telephony",
        0xC => "SPDIF In",
        0xD => "Digital Other In",
        0xE => "Reserved",
        _ => "Other",
    }
}

/// A codec widget.
#[derive(Debug, Clone)]
pub struct Aw {
    pub nid: u16,
    pub widget_type: WidgetType,
    pub caps: u32,
    pub pin_config: u32,
    pub connections: Vec<u16>,
    pub amp_in_caps: u32,
    pub amp_out_caps: u32,
}

/// A route from an output pin to a DAC.
#[derive(Debug, Clone)]
pub struct Wk {
    pub pin_nid: u16,
    pub dac_nid: u16,
    /// Node ids from the pin to the DAC.
    pub path: Vec<u16>,
    pub device_type: &'static str,
}

/// Whether a pin complex is taken as an output: its port is connected
/// (jack or fixed) or its default device is an output kind.
pub open spec fn is_output_pin_config(config: u32) -> bool {
    let conn = (config >> 30) & 0x3;
    let dev = (config >> 20) & 0xF;
    let output_dev = dev == 0x0 || dev == 0x1 || dev == 0x2 || dev == 0x4 || dev == 0x5 || dev == 0x6 || dev == 0xF;
    let connected = conn == 0 || conn == 2;
    (conn != 1 && output_dev) || connected
}

pub fn is_output_pin(config: u32) -> (r: bool)
    ensures
        r == is_output_pin_config(config),
{
    let conn = (config >> 30) & 0x3;
    let dev = (config >> 20) & 0xF;
    let output_dev = dev == 0x0 || dev == 0x1 || dev == 0x2 || dev == 0x4 || dev == 0x5 || dev == 0x6 || dev == 0xF;
    let connected = conn == 0 || conn == 2;
    (conn != 1 && output_dev) || connected
}

/// Index of the first widget with node id `nid` in `ws`, if any.
pub open spec fn widget_index(ws: Seq<Aw>, nid: u16) -> int
    decreases ws.len(),
{
    if ws.len() == 0 {
        -1
    } else if widget_index(ws.drop_last(), nid) >= 0 {
        widget_index(ws.drop_last(), nid)
    } else if ws.last().nid == nid {
        ws.len() - 1
    } else {
        -1
    }
}

proof fn lemma_widget_index(ws: Seq<Aw>, nid: u16)
    ensures
        -1 <= widget_index(ws, nid) < ws.len(),
        widget_index(ws, nid) >= 0 ==> ws[widget_index(ws, nid)].nid == nid,
        widget_index(ws, nid) >= 0 ==> forall|j: int| 0 <= j < widget_index(ws, nid) ==> ws[j].nid != nid,
        widget_index(ws, nid) < 0 ==> forall|j: int| 0 <= j < ws.len() ==> ws[j].nid != nid,
    decreases ws.len(),
{
    if ws.len() > 0 {
        let d = ws.drop_last();
        lemma_widget_index(d, nid);
        assert forall|j: int| 0 <= j < d.len() implies d[j] == ws[j] by {}
    }
}

/// Finds the first widget with node id `nid`.
pub fn find_widget_index(ws: &Vec<Aw>, nid: u16) -> (r: Option<usize>)
    ensures
        r is None <==> widget_index(ws@, nid) < 0,
        r matches Some(i) ==> i == widget_index(ws@, nid) && i < ws@.len() && ws@[i as int].nid == nid,
{
    proof { lemma_widget_index(ws@, nid); }
    find_widget(ws, nid)
}

fn find_widget(ws: &Vec<Aw>, nid: u16) -> (r: Option<usize>)
    ensures
        r is None <==> widget_index(ws@, nid) < 0,
        r matches Some(i) ==> i == widget_index(ws@, nid),
{
    proof { lemma_widget_index(ws@, nid); }
    let mut i: usize = 0;
    while i < ws.len()
        invariant
            i <= ws@.len(),
            forall|j: int| 0 <= j < i ==> ws@[j].nid != nid,
            -1 <= widget_index(ws@, nid) < ws@.len(),
            widget_index(ws@, nid) >= 0 ==> ws@[widget_index(ws@, nid)].nid == nid,
            widget_index(ws@, nid) >= 0 ==> forall|j: int| 0 <= j < widget_index(ws@, nid) ==> ws@[j].nid != nid,
            widget_index(ws@, nid) < 0 ==> forall|j: int| 0 <= j < ws@.len() ==> ws@[j].nid != nid,
        decreases ws@.len() - i,
    {
        if ws[i].nid == nid {
            return Some(i);
        }
        i = i + 1;
    }
    None
}

/// Whether `path` is a route through the widget graph `ws`: it starts at
/// `from`, each node lists the next among its connections, no node repeats
/// and none is in `avoid`, and it ends at an audio output (DAC).
pub open spec fn is_dac_route(ws: Seq<Aw>, path: Seq<u16>, from: u16, avoid: Seq<u16>) -> bool {
    &&& path.len() >= 1
    &&& path[0] == from
    &&& forall|k: int| 0 <= k < path.len() ==> widget_index(ws, #[trigger] path[k]) >= 0
    &&& forall|k: int| 0 <= k < path.len() - 1 ==> ws[widget_index(ws, path[k])].connections@.contains(#[trigger] path[k + 1])
    &&& forall|k: int| 0 <= k < path.len() - 1 ==> ws[widget_index(ws, #[trigger] path[k])].widget_type != WidgetType::AudioOutput
    &&& ws[widget_index(ws, path.last())].widget_type == WidgetType::AudioOutput
    &&& forall|k: int| 0 <= k < path.len() ==> !avoid.contains(#[trigger] path[k])
    &&& forall|a: int, b: int| 0 <= a < b < path.len() ==> path[a] != path[b]
}

/// A node the search is done with: no widget has its id, or its widget is
/// not a DAC and every node it connects to has been visited (is in `a`).
pub open spec fn node_done(ws: Seq<Aw>, a: Seq<u16>, x: u16) -> bool {
    let w = widget_index(ws, x);
    w < 0 || (ws[w].widget_type != WidgetType::AudioOutput && forall|c: u16|
        #[trigger] ws[w].connections@.contains(c) ==> a.contains(c))
}

/// Every node visited at positions `lo..hi` of `a` is done.
pub open spec fn done_range(ws: Seq<Aw>, a: Seq<u16>, lo: int, hi: int) -> bool {
    forall|j: int| lo <= j < hi ==> node_done(ws, a, #[trigger] a[j])
}

/// Whether a route leads from `nid` to a DAC.
pub open spec fn has_dac_route(ws: Seq<Aw>, nid: u16) -> bool {
    exists|p: Seq<u16>| #[trigger] is_dac_route(ws, p, nid, Seq::empty())
}

/// Being done holds on in a longer visit list.
proof fn lemma_done_range_grows(ws: Seq<Aw>, a: Seq<u16>, b: Seq<u16>, lo: int, hi: int)
    requires
        done_range(ws, a, lo, hi),
        0 <= lo,
        hi <= a.len() <= b.len(),
        b.subrange(0, a.len() as int) == a,
    ensures
        done_range(ws, b, lo, hi),
{
    assert forall|j: int| lo <= j < hi implies node_done(ws, b, #[trigger] b[j]) by {
        assert(b[j] == a[j]);
        let x = a[j];
        let w = widget_index(ws, x);
        if w >= 0 {
            assert forall|c: u16| #[trigger] ws[w].connections@.contains(c) implies b.contains(c) by {
                assert(a.contains(c));
                let q = choose|q: int| 0 <= q < a.len() && a[q] == c;
                assert(b[q] == a[q]);
            }
        }
    }
}

/// A route from a node that was visited but not avoided, through nodes the
/// search is done with, cannot exist.
proof fn lemma_no_route(ws: Seq<Aw>, a: Seq<u16>, lo: int, p: Seq<u16>, nid: u16, k: int)
    requires
        0 <= lo <= a.len(),
        done_range(ws, a, lo, a.len() as int),
        0 <= k < p.len(),
        a.contains(p[k]),
    ensures
        !is_dac_route(ws, p, nid, a.subrange(0, lo)),
    decreases p.len() - k,
{
    let avoid = a.subrange(0, lo);
    if is_dac_route(ws, p, nid, avoid) {
        let x = p[k];
        assert(!avoid.contains(x));
        let q = choose|q: int| 0 <= q < a.len() && a[q] == x;
        if q < lo {
            assert(avoid[q] == x);
        }
        assert(node_done(ws, a, a[q]));
        let w = widget_index(ws, x);
        assert(w >= 0);
        if k == p.len() - 1 {
            assert(p.last() == x);
            assert(ws[w].widget_type == WidgetType::AudioOutput);
        } else {
            assert(ws[widget_index(ws, p[k])].connections@.contains(p[k + 1]));
            lemma_no_route(ws, a, lo, p, nid, k + 1);
        }
    }
}

/// When the search from `nid` ends without a route, having visited the
/// nodes after `start` and finished with them, no route avoids `start`.
proof fn lemma_search_complete(ws: Seq<Aw>, start: Seq<u16>, a: Seq<u16>, nid: u16)
    requires
        start.len() <= a.len(),
        a.subrange(0, start.len() as int) == start,
        a.contains(nid),
        done_range(ws, a, start.len() as int, a.len() as int),
    ensures
        forall|p: Seq<u16>| !#[trigger] is_dac_route(ws, p, nid, start),
{
    assert forall|p: Seq<u16>| !#[trigger] is_dac_route(ws, p, nid, start) by {
        if p.len() >= 1 && p[0] == nid {
            lemma_no_route(ws, a, start.len() as int, p, nid, 0);
        }
    }
}

/// Whether `b` extends `a`.
pub open spec fn extends(a: Seq<u16>, b: Seq<u16>) -> bool {
    a.len() <= b.len() && b.subrange(0, a.len() as int) == a
}

proof fn lemma_extends_contains(a: Seq<u16>, b: Seq<u16>, x: u16)
    requires
        extends(a, b),
        a.contains(x),
    ensures
        b.contains(x),
{
    let q = choose|q: int| 0 <= q < a.len() && a[q] == x;
    assert(b[q] == b.subrange(0, a.len() as int)[q]);
}

/// `b` is `a` followed by nodes that are distinct and not in `a`.
pub open spec fn fresh_after(a: Seq<u16>, b: Seq<u16>) -> bool {
    &&& extends(a, b)
    &&& forall|i: int, j: int| a.len() <= i < j < b.len() ==> b[i] != b[j]
    &&& forall|i: int| a.len() <= i < b.len() ==> !a.contains(#[trigger] b[i])
}

proof fn lemma_fresh_chain(a: Seq<u16>, b: Seq<u16>, c: Seq<u16>)
    requires
        fresh_after(a, b),
        fresh_after(b, c),
    ensures
        fresh_after(a, c),
{
    assert(c.subrange(0, a.len() as int) =~= b.subrange(0, a.len() as int));
    assert forall|i: int| a.len() <= i < c.len() implies !a.contains(#[trigger] c[i]) by {
        if i < b.len() {
            assert(c[i] == b[i]);
        } else if a.contains(c[i]) {
            lemma_extends_contains(a, b, c[i]);
        }
    }
    assert forall|i: int, j: int| a.len() <= i < j < c.len() implies c[i] != c[j] by {
        if j < b.len() {
            assert(c[i] == b[i] && c[j] == b[j]);
        } else if i < b.len() {
            assert(c[i] == b[i]);
            assert(b.contains(b[i]));
        }
    }
}

/// Number of 16-bit node ids below `k` that `s` does not hold.
pub open spec fn missing_ids(s: Seq<u16>, k: int) -> int
    decreases k,
{
    if k <= 0 {
        0
    } else {
        missing_ids(s, k - 1) + if s.contains((k - 1) as u16) { 0int } else { 1int }
    }
}

proof fn lemma_missing_nonneg(s: Seq<u16>, k: int)
    ensures
        0 <= missing_ids(s, k),
    decreases k,
{
    if k > 0 {
        lemma_missing_nonneg(s, k - 1);
    }
}

/// Visiting a new node leaves one id fewer unvisited.
proof fn lemma_missing_push(s: Seq<u16>, x: u16, k: int)
    requires
        !s.contains(x),
        0 <= k <= 0x10000,
    ensures
        missing_ids(s.push(x), k) == missing_ids(s, k) - (if (x as int) < k { 1int } else { 0int }),
    decreases k,
{
    if k > 0 {
        lemma_missing_push(s, x, k - 1);
        let y = (k - 1) as u16;
        assert(y as int == k - 1);
        if s.push(x).contains(y) {
            let q = choose|q: int| 0 <= q < s.push(x).len() && s.push(x)[q] == y;
            if q < s.len() {
                assert(s[q] == y);
            }
        }
        if s.contains(y) {
            let q = choose|q: int| 0 <= q < s.len() && s[q] == y;
            assert(s.push(x)[q] == y);
        }
        if x == y {
            assert(s.push(x)[s.len() as int] == y);
        }
    }
}

/// A longer visit list leaves no more ids unvisited.
proof fn lemma_missing_mono(a: Seq<u16>, b: Seq<u16>, k: int)
    requires
        extends(a, b),
    ensures
        missing_ids(b, k) <= missing_ids(a, k),
    decreases k,
{
    if k > 0 {
        lemma_missing_mono(a, b, k - 1);
        if a.contains((k - 1) as u16) {
            lemma_extends_contains(a, b, (k - 1) as u16);
        }
    }
}

/// Depth-first search for a route from node `nid` to a DAC that avoids the
/// nodes already in `anc` (which it extends with each node it visits).
pub fn trace_to_dac(ws: &Vec<Aw>, nid: u16, anc: &mut Vec<u16>) -> (r: Option<Vec<u16>>)
    ensures
        fresh_after(old(anc)@, final(anc)@),
        final(anc)@.len() >= old(anc)@.len(),
        final(anc)@.subrange(0, old(anc)@.len() as int) == old(anc)@,
        r matches Some(p) ==> is_dac_route(ws@, p@, nid, old(anc)@),
        r is None ==> final(anc)@.contains(nid) && done_range(ws@, final(anc)@, old(anc)@.len() as int,
            final(anc)@.len() as int),
        r is None ==> forall|p: Seq<u16>| !#[trigger] is_dac_route(ws@, p, nid, old(anc)@),
        old(anc)@.contains(nid) ==> r is None && final(anc)@ == old(anc)@,
    decreases missing_ids(old(anc)@, 0x10000),
{
    let mut i: usize = 0;
    while i < anc.len()
        invariant
            i <= anc@.len(),
            anc@ == old(anc)@,
            forall|j: int| 0 <= j < i ==> anc@[j] != nid,
        decreases anc@.len() - i,
    {
        if anc[i] == nid {
            proof {
                assert(anc@.subrange(0, anc@.len() as int) =~= anc@);
                lemma_search_complete(ws@, anc@, anc@, nid);
            }
            return None;
        }
        i = i + 1;
    }
    assert(!anc@.contains(nid));
    let ghost anc0 = anc@;
    proof {
        lemma_missing_push(anc0, nid, 0x10000);
        lemma_missing_nonneg(anc0.push(nid), 0x10000);
    }
    anc.push(nid);
    assert(anc@[anc0.len() as int] == nid);
    proof {
        assert(anc@.subrange(0, anc0.len() as int) =~= anc0);
        assert(fresh_after(anc0, anc@));
    }
    let widx = match find_widget(ws, nid) {
        Some(w) => w,
        None => {
            proof {
                assert(anc@.subrange(0, anc0.len() as int) =~= anc0);
                assert(done_range(ws@, anc@, anc0.len() as int, anc@.len() as int));
                lemma_search_complete(ws@, anc0, anc@, nid);
            }
            return None;
        },
    };
    proof { lemma_widget_index(ws@, nid); }
    if ws[widx].widget_type == WidgetType::AudioOutput {
        let mut p: Vec<u16> = Vec::new();
        p.push(nid);
        return Some(p);
    }
    let n = ws[widx].connections.len();
    let mut c: usize = 0;
    while c < n
        invariant
            c <= n,
            widx < ws@.len(),
            anc0 == old(anc)@,
            n == ws@[widx as int].connections@.len(),
            widx == widget_index(ws@, nid),
            ws@[widx as int].nid == nid,
            ws@[widx as int].widget_type != WidgetType::AudioOutput,
            !anc0.contains(nid),
            anc@.len() >= anc0.len() + 1,
            anc@.subrange(0, anc0.len() as int) == anc0,
            anc@[anc0.len() as int] == nid,
            fresh_after(anc0, anc@),
            missing_ids(anc@, 0x10000) < missing_ids(anc0, 0x10000),
            0 <= missing_ids(anc@, 0x10000),
            done_range(ws@, anc@, anc0.len() as int + 1, anc@.len() as int),
            forall|q: int| 0 <= q < c ==> anc@.contains(#[trigger] ws@[widx as int].connections@[q]),
        decreases n - c,
    {
        let foe = ws[widx].connections[c];
        let ghost before = anc@;
        let sub = trace_to_dac(ws, foe, anc);
        proof {
            lemma_fresh_chain(anc0, before, anc@);
            lemma_missing_mono(before, anc@, 0x10000);
            lemma_missing_nonneg(anc@, 0x10000);
            assert(anc@.subrange(0, anc0.len() as int) =~= before.subrange(0, before.len() as int).subrange(0, anc0.len() as int));
            assert(anc@[anc0.len() as int] == before[anc0.len() as int]);
        }
        match sub {
            Some(mut path) => {
                let ghost tail = path@;
                path.insert(0, nid);
                proof {
                    let p = path@;
                    assert(p == seq![nid] + tail);
                    assert(ws@[widx as int].connections@.contains(foe)) by {
                        assert(ws@[widx as int].connections@[c as int] == foe);
                    }
                    assert forall|k: int| 0 <= k < p.len() implies widget_index(ws@, #[trigger] p[k]) >= 0 by {
                        if k > 0 { assert(p[k] == tail[k - 1]); }
                    }
                    assert forall|k: int| 0 <= k < p.len() - 1 implies ws@[widget_index(ws@, p[k])].connections@.contains(#[trigger] p[k + 1]) by {
                        if k > 0 {
                            assert(p[k] == tail[k - 1]);
                            assert(p[k + 1] == tail[k]);
                            assert(widget_index(ws@, tail[k - 1]) >= 0);
                            let km = k - 1;
                            assert(0 <= km < tail.len() - 1);
                            assert(ws@[widget_index(ws@, tail[km])].connections@.contains(tail[km + 1]));
                        } else {
                            assert(p[1] == tail[0]);
                            assert(p[0] == nid);
                            assert(tail[0] == foe);
                            assert(widget_index(ws@, nid) == widx);
                        }
                    }
                    assert forall|k: int| 0 <= k < p.len() - 1 implies ws@[widget_index(ws@, #[trigger] p[k])].widget_type != WidgetType::AudioOutput by {
                        if k > 0 {
                            assert(p[k] == tail[k - 1]);
                            assert(widget_index(ws@, tail[k - 1]) >= 0);
                        } else {
                            assert(p[0] == nid);
                        }
                    }
                    assert(p.last() == tail.last());
                    assert forall|k: int| 0 <= k < p.len() implies !anc0.contains(#[trigger] p[k]) by {
                        if k > 0 {
                            assert(p[k] == tail[k - 1]);
                            assert(!before.contains(tail[k - 1]));
                            if anc0.contains(tail[k - 1]) {
                                let j = choose|j: int| 0 <= j < anc0.len() && anc0[j] == tail[k - 1];
                                assert(before[j] == anc0[j]);
                            }
                        }
                    }
                    assert forall|a: int, b: int| 0 <= a < b < p.len() implies p[a] != p[b] by {
                        if a == 0 {
                            assert(p[b] == tail[b - 1]);
                            assert(before[anc0.len() as int] == nid);
                            assert(!before.contains(tail[b - 1]));
                        } else {
                            assert(p[a] == tail[a - 1]);
                            assert(p[b] == tail[b - 1]);
                        }
                    }
                }
                return Some(path);
            },
            None => {
                proof {
                    assert(extends(before, anc@));
                    lemma_done_range_grows(ws@, before, anc@, anc0.len() as int + 1, before.len() as int);
                    assert forall|q: int| 0 <= q < c + 1 implies anc@.contains(#[trigger] ws@[widx as int].connections@[q]) by {
                        if q < c {
                            lemma_extends_contains(before, anc@, ws@[widx as int].connections@[q]);
                        }
                    }
                }
            },
        }
        c = c + 1;
    }
    proof {
        assert(node_done(ws@, anc@, nid)) by {
            assert forall|x: u16| #[trigger] ws@[widx as int].connections@.contains(x) implies anc@.contains(x) by {
                let q = choose|q: int| 0 <= q < n && ws@[widx as int].connections@[q] == x;
            }
        }
        assert(done_range(ws@, anc@, anc0.len() as int, anc@.len() as int));
        assert(anc@.contains(nid));
        lemma_search_complete(ws@, anc0, anc@, nid);
    }
    None
}


/// Whether widget `i` yields an output route: it is a pin complex taken as
/// an output (as is the first widget with its id), and a route leads from
/// it to a DAC.
pub open spec fn emits_route(ws: Seq<Aw>, i: int) -> bool {
    let w = ws[i];
    let f = widget_index(ws, w.nid);
    &&& w.widget_type == WidgetType::PinComplex && is_output_pin_config(w.pin_config)
    &&& has_dac_route(ws, w.nid)
    &&& ws[f].widget_type == WidgetType::PinComplex && is_output_pin_config(ws[f].pin_config)
}

/// Pin ids of the widgets among the first `n` that yield routes, in order.
pub open spec fn routed_pins(ws: Seq<Aw>, n: int) -> Seq<u16>
    decreases n,
{
    if n <= 0 {
        Seq::<u16>::empty()
    } else {
        routed_pins(ws, n - 1) + if emits_route(ws, n - 1) { seq![ws[n - 1].nid] } else { Seq::<u16>::empty() }
    }
}

/// Output routes of the codec: for each pin complex taken as an output, in
/// widget order, the route to a DAC when one exists.
pub fn find_output_paths(ws: &Vec<Aw>) -> (paths: Vec<Wk>)
    ensures
        paths@.map_values(|w: Wk| w.pin_nid) == routed_pins(ws@, ws@.len() as int),
        forall|i: int| 0 <= i < paths@.len() ==> {
            let w = #[trigger] paths@[i];
            &&& is_dac_route(ws@, w.path@, w.pin_nid, Seq::empty())
            &&& w.dac_nid == w.path@.last()
            &&& w.device_type@ == pin_device_label(ws@[widget_index(ws@, w.pin_nid)].pin_config)
            &&& ws@[widget_index(ws@, w.pin_nid)].widget_type == WidgetType::PinComplex
            &&& is_output_pin_config(ws@[widget_index(ws@, w.pin_nid)].pin_config)
        },
{
    let mut paths: Vec<Wk> = Vec::new();
    let mut i: usize = 0;
    while i < ws.len()
        invariant
            i <= ws@.len(),
            paths@.map_values(|w: Wk| w.pin_nid) == routed_pins(ws@, i as int),
            forall|k: int| 0 <= k < paths@.len() ==> {
                let w = #[trigger] paths@[k];
                &&& is_dac_route(ws@, w.path@, w.pin_nid, Seq::empty())
                &&& w.dac_nid == w.path@.last()
                &&& w.device_type@ == pin_device_label(ws@[widget_index(ws@, w.pin_nid)].pin_config)
                &&& ws@[widget_index(ws@, w.pin_nid)].widget_type == WidgetType::PinComplex
                &&& is_output_pin_config(ws@[widget_index(ws@, w.pin_nid)].pin_config)
            },
        decreases ws@.len() - i,
    {
        let nid = ws[i].nid;
        let ghost before = paths@;
        if ws[i].widget_type == WidgetType::PinComplex && is_output_pin(ws[i].pin_config) {
            let mut anc: Vec<u16> = Vec::new();
            assert(anc@ =~= Seq::<u16>::empty());
            let found = trace_to_dac(ws, nid, &mut anc);
            match found {
                Some(path) => {
                    assert(is_dac_route(ws@, path@, nid, Seq::empty()));
                    assert(has_dac_route(ws@, nid));
                    assert(widget_index(ws@, path@[0]) >= 0);
                    let widx = find_widget(ws, nid);
                    proof { lemma_widget_index(ws@, nid); }
                    // The search found the widget, so it is the first with this id.
                    let cfg_idx: usize = match widx { Some(w) => w, None => i };
                    let config = ws[cfg_idx].pin_config;
                    if ws[cfg_idx].widget_type == WidgetType::PinComplex && is_output_pin(config) {
                        let last = path[path.len() - 1];
                        let device = gnb(config);
                        let ghost before = paths@;
                        paths.push(Wk { pin_nid: nid, dac_nid: last, path, device_type: device });
                        proof {
                            assert(Seq::<u16>::empty() =~= anc@.subrange(0, 0));
                            assert(emits_route(ws@, i as int));
                            assert(paths@.map_values(|w: Wk| w.pin_nid) =~= before.map_values(|w: Wk| w.pin_nid).push(nid));
                        }
                    } else {
                        assert(!emits_route(ws@, i as int));
                    }
                },
                None => {
                    assert(!has_dac_route(ws@, nid));
                },
            }
        }
        proof {
            assert(routed_pins(ws@, i + 1) == routed_pins(ws@, i as int) + if emits_route(ws@, i as int) {
                seq![ws@[i as int].nid] } else { Seq::<u16>::empty() });
            if paths@ == before {
                assert(!emits_route(ws@, i as int));
                assert(routed_pins(ws@, i + 1) =~= routed_pins(ws@, i as int));
            }
        }
        i = i + 1;
    }
    paths
}

// ---------------------------------------------------------------- verbs

/// Command word for verb `verb` (12-bit id and 8-bit payload, or 4-bit id
/// and 16-bit payload) to node `nid` of codec `codec`.
pub fn verb_command(codec: u8, nid: u16, verb: u32) -> (cmd: u32)
    ensures
        cmd == ((codec as u32) << 28) | (((nid as u32) & 0xFF) << 20) | (verb & 0xFFFFF),
{
    ((codec as u32) << 28) | (((nid as u32) & 0xFF) << 20) | (verb & 0xFFFFF)
}

/// Verb word of a 12-bit verb with an 8-bit payload.
pub fn codec_cmd_word(verb: u32, data: u8) -> (w: u32)
    ensures
        w == (verb << 8) | (data as u32),
{
    (verb << 8) | (data as u32)
}

/// Verb word of a 4-bit verb (given as `verb_id` bits 8..12) with a 16-bit payload.
pub fn set_verb_16_word(verb_id: u32, payload: u16) -> (w: u32)
    ensures
        w == ((verb_id & 0xF00) << 8) | (payload as u32),
{
    ((verb_id & 0xF00) << 8) | (payload as u32)
}

/// Gain step for a volume `level` (percent, capped at 100) on an amplifier
/// with `steps` steps (39 when unknown or zero).
pub open spec fn spec_volume_gain(level: u8, steps: u16) -> int {
    let l = if level > 100 { 100 } else { level as int };
    let n = if steps == 0 { 39 } else { steps as int };
    l * n / 100
}

/// Amplifier gain for a volume level; `out_caps` are the DAC's output
/// amplifier capabilities, when the DAC is known.
pub fn volume_gain(level: u8, out_caps: Option<u32>) -> (g: u16)
    ensures
        g == spec_volume_gain(level, match out_caps { Some(c) => ((c >> 8) & 0x7F) as u16, None => 39u16 }),
        g <= 127,
{
    let level = if level > 100 { 100 } else { level };
    let eua: u16 = match out_caps {
        Some(c) => {
            assert((c >> 8) & 0x7F <= 127) by (bit_vector);
            ((c >> 8) & 0x7F) as u16
        },
        None => 39,
    };
    let eua = if eua == 0 { 39 } else { eua };
    assert((level as u32) * (eua as u32) <= 100 * 127) by (nonlinear_arith)
        requires level <= 100, eua <= 127;
    let g = ((level as u32) * (eua as u32) / 100) as u16;
    g
}

/// Set-amplifier payloads for a gain: output side then input side, both
/// channels (bits 15/14 select output/input, bits 13 and 12 left and right).
pub fn amp_gain_payloads(gain: u16) -> (r: (u16, u16))
    ensures
        r.0 == (0xB000u16 | (gain & 0x7F)),
        r.1 == (0x7000u16 | (gain & 0x7F)),
{
    (0xB000u16 | (gain & 0x7F), 0x7000u16 | (gain & 0x7F))
}

/// Set-amplifier payloads that mute the output and input sides.
pub fn amp_mute_payloads() -> (r: (u16, u16))
    ensures
        r.0 == 0xB080u16,
        r.1 == 0x7080u16,
{
    (0xB080u16, 0x7080u16)
}

/// Output volume, in percent.
pub struct VolumeState {
    pub level: u8,
}

impl VolumeState {
    /// The power-on volume, 80 %.
    pub fn new() -> (v: Self)
        ensures
            v.level == 80,
    {
        VolumeState { level: 80 }
    }
}

/// Stores the volume, capped at 100 %; returns the gain for the output
/// amplifiers of a DAC with output amplifier capabilities `out_caps`.
pub fn store_volume(vol: &mut VolumeState, level: u8, out_caps: Option<u32>) -> (g: u16)
    ensures
        final(vol).level == (if level > 100 { 100 } else { level }),
        g == spec_volume_gain(final(vol).level, match out_caps { Some(c) => ((c >> 8) & 0x7F) as u16, None => 39u16 }),
        g <= 127,
{
    let l = if level > 100 { 100 } else { level };
    vol.level = l;
    volume_gain(l, out_caps)
}

/// Sets the volume to `level` percent (at most 100): the level is kept
/// whatever follows; refused when there is no controller; no verbs when it
/// has no codec or no output path; else the gain, scaled to the first
/// path's converter, set on every node of the first path.
pub fn set_volume(vol: &mut VolumeState, level: u8, ctrl: Option<&CodecGraph>) -> (r: Result<Vec<HdaStep>, &'static str>)
    ensures
        final(vol).level == (if level > 100 { 100 } else { level }),
        ctrl is None <==> r == Err::<Vec<HdaStep>, &'static str>("HDA: not initialized"),
        ctrl matches Some(g) ==> ((g.codecs@.len() == 0 || g.paths@.len() == 0) ==> (r matches Ok(v) && v@.len() == 0)),
        ctrl matches Some(g) ==> (g.codecs@.len() > 0 && g.paths@.len() > 0 ==> (r matches Ok(v) && v@ == volume_steps(
            g.codecs@[0],
            g.paths@[0].path@,
            spec_volume_gain(final(vol).level, dac_amp_steps(*g)),
        ))),
{
    let g = match ctrl {
        None => {
            vol.level = if level > 100 { 100 } else { level };
            return Err("HDA: not initialized");
        },
        Some(g) => g,
    };
    if g.codecs.len() == 0 || g.paths.len() == 0 {
        vol.level = if level > 100 { 100 } else { level };
        return Ok(Vec::new());
    }
    let caps = match find_widget_index(&g.widgets, g.paths[0].dac_nid) {
        Some(i) => Some(g.widgets[i].amp_out_caps),
        None => None,
    };
    let gain = store_volume(vol, level, caps);
    let codec = g.codecs[0];
    let path = &g.paths[0].path;
    let mut out: Vec<HdaStep> = Vec::new();
    let mut i: usize = 0;
    assert(volume_steps(codec, path@.subrange(0, 0), gain as int) =~= Seq::<HdaStep>::empty());
    while i < path.len()
        invariant
            i <= path@.len(),
            gain <= 127,
            out@ == volume_steps(codec, path@.subrange(0, i as int), gain as int),
        decreases path@.len() - i,
    {
        assert(path@.subrange(0, i + 1).drop_last() =~= path@.subrange(0, i as int));
        out.push(HdaStep::Verb16 { codec: codec, nid: path[i], verb: SET_AMP, payload: 0xB000 + gain });
        out.push(HdaStep::Verb16 { codec: codec, nid: path[i], verb: SET_AMP, payload: 0x7000 + gain });
        i = i + 1;
        assert(out@ =~= volume_steps(codec, path@.subrange(0, i as int), gain as int));
    }
    assert(path@.subrange(0, path@.len() as int) =~= path@);
    Ok(out)
}

/// The current volume, in percent.
pub fn ica(vol: &VolumeState) -> (r: u8)
    ensures
        r == vol.level,
{
    vol.level
}


// ---------------------------------------------------------------- synthesis

/// Output sample rate.
pub const SAMPLE_RATE: u32 = 48000;

/// Shape of the tone wave at `phase` (0..256 is one period): a parabola
/// rising to 127 over the first half and falling to -127 over the second.
pub open spec fn wave_shape(phase: int) -> int {
    if phase < 128 {
        let t = phase - 64;
        tdiv((64 * 64 - t * t) * 127, 4096int)
    } else {
        let t = phase - 192;
        tdiv((t * t - 64 * 64) * 127, 4096int)
    }
}

/// Wave value at `phase` scaled to amplitude `amp`.
pub open spec fn wave_sample(phase: int, amp: int) -> int {
    tdiv(wave_shape(phase) * amp, 127)
}

/// One sample of the tone wave.
pub fn otg(phase: u8, bqf: i16) -> (r: i16)
    ensures
        r == wave_sample(phase as int, bqf as int) as i16,
{
    let x = phase as i32;
    let mhe: i32 = if x < 128 {
        let t = x - 64;
        assert(0 <= t * t <= 4096) by (nonlinear_arith) requires -64 <= t <= 63;
        let dm = -(t * t) + 64 * 64;
        assert(0 <= dm <= 4096) by (nonlinear_arith) requires dm == -(t * t) + 4096, -64 <= t <= 63;
        dm * 127 / (64 * 64)
    } else {
        let t = (x - 128) - 64;
        assert(0 <= t * t <= 4096) by (nonlinear_arith) requires -64 <= t <= 63;
        let dm = (t * t) - 64 * 64;
        assert(-4096 <= dm <= 0) by (nonlinear_arith) requires dm == t * t - 4096, -64 <= t <= 63;
        tdiv_i32(dm * 127, 64 * 64)
    };
    assert(-127 <= mhe <= 127) by (nonlinear_arith)
        requires mhe == wave_shape(x as int), 0 <= x < 256;
    proof {
        if x < 128 {
            let t = x - 64;
            assert(0 <= (4096 - t * t) * 127) by (nonlinear_arith) requires -64 <= t <= 63;
        }
    }
    assert(-127 * 32768 <= mhe * bqf <= 127 * 32768) by (nonlinear_arith)
        requires -127 <= mhe <= 127, -32768 <= bqf <= 32767;
    let p = mhe * (bqf as i32);
    let v = tdiv_i32(p, 127);
    v as i16
}


/// Number of frames in `duration_ms` milliseconds.
pub open spec fn frame_count(duration_ms: u32) -> int {
    (SAMPLE_RATE as int) * (duration_ms as int) / 1000
}

/// Phase (0..256) of the wave at frame `i` of a tone of `freq` Hz.
pub open spec fn tone_phase(freq: u32, i: int) -> int {
    ((freq as int) * i * 256 / (SAMPLE_RATE as int)) % 256
}

/// Number of frames faded in at the start and out at the end: 5 ms, at
/// most half the tone.
pub open spec fn fade_len(n: int) -> int {
    if 240 < n / 2 { 240 } else { n / 2 }
}

/// Amplitude after volume scaling.
pub open spec fn scaled_amp(amp: i16, volume: u8) -> int {
    tdiv((amp as int) * (volume as int), 100)
}

/// Value of frame `j` of a tone of `n` frames, fades applied.
pub open spec fn tone_frame(freq: u32, n: int, amp: int, j: int) -> i16 {
    let b = wave_sample(tone_phase(freq, j), amp) as i16;
    let e = fade_len(n);
    if j < e {
        tdiv(b * (j * 256 / e), 256) as i16
    } else if j >= n - e {
        tdiv(b * ((n - 1 - j) * 256 / e), 256) as i16
    } else {
        b
    }
}

/// Whether `s` holds the stereo samples of a tone, frames below `lo` and
/// from `hi` on with their fades applied, the others without.
pub open spec fn tone_fading(s: Seq<i16>, freq: u32, n: int, amp: int, lo: int, hi: int) -> bool {
    forall|j: int| 0 <= j < n ==> #[trigger] s[2 * j] == (if j < lo || j >= hi { tone_frame(freq, n, amp, j) }
        else { wave_sample(tone_phase(freq, j), amp) as i16 })
        && s[2 * j + 1] == (if j < lo || j >= hi { tone_frame(freq, n, amp, j) }
        else { wave_sample(tone_phase(freq, j), amp) as i16 })
}

/// Whether `s` holds the stereo samples of a tone: each frame twice.
pub open spec fn is_tone(s: Seq<i16>, freq: u32, duration_ms: u32, amp: i16, volume: u8) -> bool {
    &&& s.len() == 2 * frame_count(duration_ms)
    &&& forall|j: int| 0 <= j < frame_count(duration_ms) ==> #[trigger] s[2 * j] == tone_frame(freq, frame_count(duration_ms), scaled_amp(amp, volume), j)
        && s[2 * j + 1] == tone_frame(freq, frame_count(duration_ms), scaled_amp(amp, volume), j)
}

/// Applies the 5 ms fades to the raw stereo samples of a tone of `cbz` frames.
#[verifier::spinoff_prover]
#[verifier::rlimit(40)]
fn apply_fades(jo: &mut Vec<i16>, freq_hz: u32, cbz: usize, amp: Ghost<int>) -> (emb: usize)
    requires
        old(jo)@.len() == 2 * cbz,
        2 * cbz <= usize::MAX,
        tone_fading(old(jo)@, freq_hz, cbz as int, amp@, 0, cbz as int),
    ensures
        final(jo)@.len() == 2 * cbz,
        emb == fade_len(cbz as int),
        2 * emb <= cbz,
        tone_fading(final(jo)@, freq_hz, cbz as int, amp@, emb as int, cbz - emb),
{
    let ghost amp = amp@;
    let half = cbz / 2;
    let emb: usize = if 240 < half { 240 } else { half };
    assert(2 * half <= cbz) by (nonlinear_arith) requires half == cbz / 2;
    let mut k: usize = 0;
    while k < emb
        invariant
            k <= emb,
            emb == fade_len(cbz as int),
            
            jo@.len() == 2 * cbz,
            tone_fading(jo@, freq_hz, cbz as int, amp, k as int, cbz as int),
        decreases emb - k,
    {
        let ha: i32 = (k as i32) * 256 / (emb as i32);
        assert(0 <= ha <= 256) by (nonlinear_arith) requires ha == (k as int) * 256 / (emb as int), k < emb;
        let a0 = jo[2 * k] as i32;
        let a1 = jo[2 * k + 1] as i32;
        assert(-32768 * 256 <= a0 * ha <= 32767 * 256) by (nonlinear_arith) requires 0 <= ha <= 256, -32768 <= a0 <= 32767;
        assert(-32768 * 256 <= a1 * ha <= 32767 * 256) by (nonlinear_arith) requires 0 <= ha <= 256, -32768 <= a1 <= 32767;
        let v0 = tdiv_i32(a0 * ha, 256) as i16;
        let v1 = tdiv_i32(a1 * ha, 256) as i16;
        let ghost before = jo@;
        proof {
            assert(before[2 * (k as int)] == wave_sample(tone_phase(freq_hz, k as int), amp) as i16);
            assert(before[2 * (k as int) + 1] == wave_sample(tone_phase(freq_hz, k as int), amp) as i16);
        }
        jo.set(2 * k, v0);
        jo.set(2 * k + 1, v1);
        proof {
            assert(v0 == tone_frame(freq_hz, cbz as int, amp, k as int));
            assert(v1 == tone_frame(freq_hz, cbz as int, amp, k as int));
            assert forall|j: int| 0 <= j < cbz implies #[trigger] jo@[2 * j] == (if j < k + 1 || j >= cbz { tone_frame(freq_hz, cbz as int, amp, j) }
                else { wave_sample(tone_phase(freq_hz, j), amp) as i16 })
                && jo@[2 * j + 1] == (if j < k + 1 || j >= cbz { tone_frame(freq_hz, cbz as int, amp, j) }
                else { wave_sample(tone_phase(freq_hz, j), amp) as i16 }) by {
                if j != k {
                    assert(jo@[2 * j] == before[2 * j]);
                    assert(jo@[2 * j + 1] == before[2 * j + 1]);
                }
            }
        }
        k = k + 1;
    }
    let mut m: usize = 0;
    while m < emb
        invariant
            m <= emb,
            emb == fade_len(cbz as int),
            2 * emb <= cbz,
            2 * cbz <= usize::MAX,
            
            jo@.len() == 2 * cbz,
            tone_fading(jo@, freq_hz, cbz as int, amp, emb as int, cbz - m),
        decreases emb - m,
    {
        let idx = cbz - 1 - m;
        let ha: i32 = (m as i32) * 256 / (emb as i32);
        assert(0 <= ha <= 256) by (nonlinear_arith) requires ha == (m as int) * 256 / (emb as int), m < emb;
        if idx * 2 + 1 < jo.len() {
            let a0 = jo[idx * 2] as i32;
            let a1 = jo[idx * 2 + 1] as i32;
            assert(-32768 * 256 <= a0 * ha <= 32767 * 256) by (nonlinear_arith) requires 0 <= ha <= 256, -32768 <= a0 <= 32767;
            assert(-32768 * 256 <= a1 * ha <= 32767 * 256) by (nonlinear_arith) requires 0 <= ha <= 256, -32768 <= a1 <= 32767;
            let v0 = tdiv_i32(a0 * ha, 256) as i16;
            let v1 = tdiv_i32(a1 * ha, 256) as i16;
            let ghost before = jo@;
            proof {
                assert(before[2 * (idx as int)] == wave_sample(tone_phase(freq_hz, idx as int), amp) as i16);
                assert(before[2 * (idx as int) + 1] == wave_sample(tone_phase(freq_hz, idx as int), amp) as i16);
            }
            jo.set(idx * 2, v0);
            jo.set(idx * 2 + 1, v1);
            proof {
                assert(v0 == tone_frame(freq_hz, cbz as int, amp, idx as int));
                assert(v1 == tone_frame(freq_hz, cbz as int, amp, idx as int));
                assert forall|j: int| 0 <= j < cbz implies #[trigger] jo@[2 * j] == (if j < emb || j >= cbz - (m + 1) { tone_frame(freq_hz, cbz as int, amp, j) }
                    else { wave_sample(tone_phase(freq_hz, j), amp) as i16 })
                    && jo@[2 * j + 1] == (if j < emb || j >= cbz - (m + 1) { tone_frame(freq_hz, cbz as int, amp, j) }
                    else { wave_sample(tone_phase(freq_hz, j), amp) as i16 }) by {
                    if j != idx {
                        assert(jo@[2 * j] == before[2 * j]);
                        assert(jo@[2 * j + 1] == before[2 * j + 1]);
                    }
                }
            }
        }
        m = m + 1;
    }
    emb
}

/// Stereo samples of a `freq` Hz tone lasting `duration_ms` at amplitude
/// `bqf` scaled by `volume` percent, with 5 ms fades at both ends.
pub fn cyi(freq_hz: u32, duration_ms: u32, bqf: i16, volume: u8) -> (jo: Vec<i16>)
    requires
        volume <= 100,
        (freq_hz as int) * frame_count(duration_ms) * 256 <= u64::MAX,
        2 * frame_count(duration_ms) <= usize::MAX,
    ensures
        is_tone(jo@, freq_hz, duration_ms, bqf, volume),
{
    let sample_rate = 48000u32;
    let cbz64: u64 = sample_rate as u64 * duration_ms as u64 / 1000;
    let cbz = cbz64 as usize;
    let mut jo: Vec<i16> = Vec::new();
    let vd = volume as i32;
    assert(-32768 * 100 <= (bqf as i32) * vd <= 32767 * 100) by (nonlinear_arith)
        requires 0 <= vd <= 100, -32768 <= bqf <= 32767;
    let sv = tdiv_i32((bqf as i32) * vd, 100);
    proof { lemma_tdiv_bound((bqf as int) * vd, 100int, 32768 * 100int); }
    assert(-32768 <= sv <= 32767) by (nonlinear_arith)
        requires sv == tdiv((bqf as int) * vd, 100), 0 <= vd <= 100, -32768 <= bqf <= 32767;
    let oku = sv as i16;
    let ghost amp = scaled_amp(bqf, volume);
    assert(oku == amp);
    let mut i: usize = 0;
    while i < cbz
        invariant
            i <= cbz,
            cbz == frame_count(duration_ms),
            (freq_hz as int) * frame_count(duration_ms) * 256 <= u64::MAX,
            2 * frame_count(duration_ms) <= usize::MAX,
            oku == amp,
            jo@.len() == 2 * i,
            forall|j: int| 0 <= j < i ==> #[trigger] jo@[2 * j] == wave_sample(tone_phase(freq_hz, j), amp) as i16
                && jo@[2 * j + 1] == wave_sample(tone_phase(freq_hz, j), amp) as i16,
        decreases cbz - i,
    {
        assert((freq_hz as int) * (i as int) * 256 <= (freq_hz as int) * (cbz as int) * 256) by (nonlinear_arith)
            requires i <= cbz;
        let q: u64 = (freq_hz as u64 * i as u64 * 256) / 48000u64;
        let nue = q as u32;
        let nuc = (nue & 0xFF) as u8;
        proof {
            assert(((q as u32) & 0xFF) as u8 == q % 256) by (bit_vector);
        }
        assert(nuc as int == tone_phase(freq_hz, i as int));
        let sample = otg(nuc, oku);
        let ghost before = jo@;
        jo.push(sample);
        jo.push(sample);
        proof {
            assert forall|j: int| 0 <= j < i + 1 implies #[trigger] jo@[2 * j] == wave_sample(tone_phase(freq_hz, j), amp) as i16
                && jo@[2 * j + 1] == wave_sample(tone_phase(freq_hz, j), amp) as i16 by {
                if j < i {
                    assert(jo@[2 * j] == before[2 * j]);
                    assert(jo@[2 * j + 1] == before[2 * j + 1]);
                }
            }
        }
        i = i + 1;
    }
    assert(tone_fading(jo@, freq_hz, cbz as int, amp, 0, cbz as int)) by {
        assert forall|j: int| 0 <= j < cbz implies #[trigger] jo@[2 * j] == (if j < 0 || j >= cbz { tone_frame(freq_hz, cbz as int, amp, j) }
            else { wave_sample(tone_phase(freq_hz, j), amp) as i16 })
            && jo@[2 * j + 1] == (if j < 0 || j >= cbz { tone_frame(freq_hz, cbz as int, amp, j) }
            else { wave_sample(tone_phase(freq_hz, j), amp) as i16 }) by {
            assert(jo@[2 * j] == wave_sample(tone_phase(freq_hz, j), amp) as i16);
        }
    }
    let emb = apply_fades(&mut jo, freq_hz, cbz, Ghost(amp));
    let m = emb;
    assert forall|j: int| 0 <= j < cbz implies #[trigger] jo@[2 * j] == tone_frame(freq_hz, cbz as int, amp, j)
        && jo@[2 * j + 1] == tone_frame(freq_hz, cbz as int, amp, j) by {
        assert(jo@[2 * j] == (if j < emb || j >= cbz - m { tone_frame(freq_hz, cbz as int, amp, j) }
            else { wave_sample(tone_phase(freq_hz, j), amp) as i16 }));
        if !(j < emb || j >= cbz - m) {
            assert(tone_frame(freq_hz, cbz as int, amp, j) == wave_sample(tone_phase(freq_hz, j), amp) as i16);
        }
    }
    assert(jo@.len() == 2 * frame_count(duration_ms));
    assert(amp == scaled_amp(bqf, volume));
    assert(cbz as int == frame_count(duration_ms));
    assert(is_tone(jo@, freq_hz, duration_ms, bqf, volume)) by {
        let n = frame_count(duration_ms);
        assert forall|j: int| 0 <= j < n implies #[trigger] jo@[2 * j] == tone_frame(freq_hz, n, scaled_amp(bqf, volume), j)
            && jo@[2 * j + 1] == tone_frame(freq_hz, n, scaled_amp(bqf, volume), j) by {
            assert(jo@[2 * j] == tone_frame(freq_hz, cbz as int, amp, j));
        }
        assert(jo@.len() == 2 * n);
        lemma_is_tone_intro(jo@, freq_hz, duration_ms, bqf, volume);
    }
    jo
}

proof fn lemma_is_tone_intro(s: Seq<i16>, freq: u32, duration_ms: u32, amp: i16, volume: u8)
    requires
        s.len() == 2 * frame_count(duration_ms),
        forall|j: int| 0 <= j < frame_count(duration_ms) ==> #[trigger] s[2 * j] == tone_frame(freq, frame_count(duration_ms), scaled_amp(amp, volume), j)
        && s[2 * j + 1] == tone_frame(freq, frame_count(duration_ms), scaled_amp(amp, volume), j),
    ensures
        is_tone(s, freq, duration_ms, amp, volume),
{
}


// ---------------------------------------------------------------- WAV

/// Format of a PCM WAV file.
#[derive(Debug, Clone)]
pub struct Agr {
    pub channels: u16,
    pub sample_rate: u32,
    pub bits_per_sample: u16,
    pub data_offset: usize,
    pub data_size: usize,
}

/// Outcome of walking the chunks of a RIFF file.
pub enum WavWalk {
    /// A `fmt ` chunk is cut short: reading it would go past the end.
    Truncated,
    /// The format is not PCM.
    NotPcm,
    /// The walk ended: format fields seen last, and the data chunk (offset 0
    /// when none was found).
    Done { channels: u16, sample_rate: u32, bits: u16, data_offset: int, data_size: int },
}

/// Walks the chunks of `d` from offset `off`, with format fields `ch`, `sr`,
/// `bits` seen so far.
pub open spec fn wav_walk(d: Seq<u8>, off: int, ch: u16, sr: u32, bits: u16) -> WavWalk
    decreases (if off <= d.len() { d.len() - off } else { 0 }),
{
    if off < 0 || off + 8 > d.len() {
        WavWalk::Done { channels: ch, sample_rate: sr, bits, data_offset: 0, data_size: 0 }
    } else {
        let size = le32(d, off + 4);
        proof { assert(size >= 0); }
        let next0 = off + 8 + size;
        let next = if next0 % 2 != 0 { next0 + 1 } else { next0 };
        if d.subrange(off, off + 4) == "fmt "@.map_values(|c: char| c as u8) && size >= 16 {
            if off + 24 > d.len() {
                WavWalk::Truncated
            } else if le16(d, off + 8) != 1 {
                WavWalk::NotPcm
            } else {
                wav_walk(d, next, le16(d, off + 10) as u16, le32(d, off + 12) as u32, le16(d, off + 22) as u16)
            }
        } else if d.subrange(off, off + 4) == "data"@.map_values(|c: char| c as u8) {
            let data_offset = off + 8;
            let avail = d.len() - data_offset;
            WavWalk::Done { channels: ch, sample_rate: sr, bits, data_offset, data_size: if size < avail { size } else { avail } }
        } else {
            wav_walk(d, next, ch, sr, bits)
        }
    }
}

/// The four bytes of a chunk id.
pub open spec fn tag_bytes(a: u8, b: u8, c: u8, d: u8) -> Seq<u8> {
    seq![a, b, c, d]
}

/// A walk's outcome with its data chunk `n` bytes further on.
pub open spec fn shifted_walk(w: WavWalk, n: int) -> WavWalk {
    match w {
        WavWalk::Done { channels, sample_rate, bits, data_offset, data_size } => if data_offset == 0 {
            w
        } else {
            WavWalk::Done { channels, sample_rate, bits, data_offset: data_offset + n, data_size }
        },
        _ => w,
    }
}

/// Walking `e`, which is `d` with `n` (even) bytes more before position
/// `start`, from `q + n` goes as walking `d` from `q`, `n` bytes further on.
proof fn lemma_wav_walk_shift(d: Seq<u8>, e: Seq<u8>, n: int, start: int, q: int, ch: u16, sr: u32, bits: u16)
    requires
        n >= 0,
        n % 2 == 0,
        e.len() == d.len() + n,
        0 <= start <= q,
        forall|k: int| start <= k < d.len() ==> e[k + n] == #[trigger] d[k],
    ensures
        wav_walk(e, q + n, ch, sr, bits) == shifted_walk(wav_walk(d, q, ch, sr, bits), n),
    decreases (if q <= d.len() { d.len() - q } else { 0 }),
{
    if q + 8 <= d.len() {
        let p = q + n;
        assert(e.subrange(p, p + 4) =~= d.subrange(q, q + 4)) by {
            assert forall|i: int| 0 <= i < 4 implies #[trigger] e.subrange(p, p + 4)[i] == d.subrange(q, q + 4)[i] by {
                assert(d[q + i] == e[q + i + n]);
            }
        }
        assert(d[q + 4] == e[p + 4] && d[q + 5] == e[p + 5] && d[q + 6] == e[p + 6] && d[q + 7] == e[p + 7]);
        assert(le32(e, p + 4) == le32(d, q + 4));
        let size = le32(d, q + 4);
        let next0 = q + 8 + size;
        let next = if next0 % 2 != 0 { next0 + 1 } else { next0 };
        assert((next0 + n) % 2 == next0 % 2);
        if q + 24 <= d.len() {
            assert(d[q + 8] == e[p + 8] && d[q + 9] == e[p + 9] && d[q + 10] == e[p + 10] && d[q + 11] == e[p + 11]);
            assert(d[q + 12] == e[p + 12] && d[q + 13] == e[p + 13] && d[q + 14] == e[p + 14] && d[q + 15] == e[p + 15]);
            assert(d[q + 22] == e[p + 22] && d[q + 23] == e[p + 23]);
            assert(le16(e, p + 8) == le16(d, q + 8));
            assert(le16(e, p + 10) == le16(d, q + 10));
            assert(le32(e, p + 12) == le32(d, q + 12));
            assert(le16(e, p + 22) == le16(d, q + 22));
            lemma_wav_walk_shift(d, e, n, start, next, le16(d, q + 10) as u16, le32(d, q + 12) as u32, le16(d, q + 22) as u16);
        }
        lemma_wav_walk_shift(d, e, n, start, next, ch, sr, bits);
        assert(next + n == (if (p + 8 + size) % 2 != 0 { p + 8 + size + 1 } else { p + 8 + size }));
    }
}

/// Chunk-skipping law: a chunk whose id is neither "fmt " nor "data" (with
/// a size field that matches its even length) is stepped over. Putting
/// such a chunk `c` at offset `off` of `d` changes nothing of what the walk
/// from `off` finds but the data chunk's offset, which moves by the
/// chunk's length, `8` plus its size. (Chunks start at even offsets: the
/// walk starts at 12 and pads every chunk to an even length.)
pub proof fn law_wav_skips_other_chunks(d: Seq<u8>, off: int, c: Seq<u8>, ch: u16, sr: u32, bits: u16)
    requires
        0 <= off <= d.len(),
        off % 2 == 0,
        c.len() >= 8,
        c.len() % 2 == 0,
        le32(c, 4) == c.len() - 8,
        c.subrange(0, 4) != tag_bytes(0x66, 0x6D, 0x74, 0x20),
        c.subrange(0, 4) != tag_bytes(0x64, 0x61, 0x74, 0x61),
    ensures
        wav_walk(d.subrange(0, off) + c + d.subrange(off, d.len() as int), off, ch, sr, bits) == shifted_walk(
            wav_walk(d, off, ch, sr, bits),
            c.len() as int,
        ),
{
    let e = d.subrange(0, off) + c + d.subrange(off, d.len() as int);
    let n = c.len() as int;
    lemma_fmt_tag();
    assert forall|k: int| off <= k < d.len() implies e[k + n] == #[trigger] d[k] by {
        assert(e[k + n] == d.subrange(off, d.len() as int)[k - off]);
    }
    assert(e.subrange(off, off + 4) =~= c.subrange(0, 4));
    assert(e[off + 4] == c[4] && e[off + 5] == c[5] && e[off + 6] == c[6] && e[off + 7] == c[7]);
    assert(le32(e, off + 4) == le32(c, 4));
    assert(e.len() == d.len() + n);
    assert(off + 8 + le32(e, off + 4) == off + n);
    assert(e.subrange(off, off + 4) != "fmt "@.map_values(|c: char| c as u8));
    assert(e.subrange(off, off + 4) != "data"@.map_values(|c: char| c as u8));
    assert(wav_walk(e, off, ch, sr, bits) == wav_walk(e, off + n, ch, sr, bits));
    lemma_wav_walk_shift(d, e, n, off, off, ch, sr, bits);
}

/// The same law for a whole file, as `ewj` reads it: a file whose first
/// chunk (at 12) is a 16-byte PCM "fmt " chunk, with another chunk put
/// right after it, gives the same channels, rate and bits, and its data
/// chunk `c.len()` bytes further on.
pub proof fn law_wav_other_chunk_after_fmt(d: Seq<u8>, c: Seq<u8>)
    requires
        d.len() >= 36,
        d.subrange(12, 16) == tag_bytes(0x66, 0x6D, 0x74, 0x20),
        le32(d, 16) == 16,
        le16(d, 20) == 1,
        c.len() >= 8,
        c.len() % 2 == 0,
        le32(c, 4) == c.len() - 8,
        c.subrange(0, 4) != tag_bytes(0x66, 0x6D, 0x74, 0x20),
        c.subrange(0, 4) != tag_bytes(0x64, 0x61, 0x74, 0x61),
    ensures
        wav_walk(d.subrange(0, 36) + c + d.subrange(36, d.len() as int), 12, 0, 0, 0) == shifted_walk(
            wav_walk(d, 12, 0, 0, 0),
            c.len() as int,
        ),
{
    let e = d.subrange(0, 36) + c + d.subrange(36, d.len() as int);
    lemma_fmt_tag();
    assert forall|k: int| 0 <= k < 36 implies #[trigger] e[k] == d[k] by {}
    assert(e.subrange(12, 16) =~= d.subrange(12, 16));
    assert(le32(e, 16) == le32(d, 16));
    assert(le16(e, 20) == le16(d, 20));
    assert(le16(e, 22) == le16(d, 22));
    assert(le32(e, 24) == le32(d, 24));
    assert(le16(e, 34) == le16(d, 34));
    let ch = le16(d, 22) as u16;
    let sr = le32(d, 24) as u32;
    let bits = le16(d, 34) as u16;
    assert(wav_walk(d, 12, 0, 0, 0) == wav_walk(d, 36, ch, sr, bits));
    assert(wav_walk(e, 12, 0, 0, 0) == wav_walk(e, 36, ch, sr, bits));
    law_wav_skips_other_chunks(d, 36, c, ch, sr, bits);
}

/// Whether a WAV file can be read without running past its end.
pub open spec fn wav_readable(d: Seq<u8>) -> bool {
    d.len() < 44 || d.subrange(0, 4) != tag_bytes(0x52, 0x49, 0x46, 0x46)
        || d.subrange(8, 12) != tag_bytes(0x57, 0x41, 0x56, 0x45)
        || !(wav_walk(d, 12, 0, 0, 0) is Truncated)
}

fn bytes_are(d: &[u8], off: usize, a: u8, b: u8, c: u8, e: u8) -> (r: bool)
    requires
        off + 4 <= d.len(),
    ensures
        r == (d@.subrange(off as int, off as int + 4) == tag_bytes(a, b, c, e)),
{
    let r = d[off] == a && d[off + 1] == b && d[off + 2] == c && d[off + 3] == e;
    proof {
        if r {
            assert(d@.subrange(off as int, off as int + 4) =~= tag_bytes(a, b, c, e));
        } else if d@.subrange(off as int, off as int + 4) == tag_bytes(a, b, c, e) {
            assert(d@.subrange(off as int, off as int + 4)[0] == a);
            assert(d@.subrange(off as int, off as int + 4)[1] == b);
            assert(d@.subrange(off as int, off as int + 4)[2] == c);
            assert(d@.subrange(off as int, off as int + 4)[3] == e);
        }
    }
    r
}

proof fn lemma_fmt_tag()
    ensures
        "fmt "@.map_values(|c: char| c as u8) == tag_bytes(0x66, 0x6D, 0x74, 0x20),
        "data"@.map_values(|c: char| c as u8) == tag_bytes(0x64, 0x61, 0x74, 0x61),
{
    reveal_strlit("fmt ");
    reveal_strlit("data");
    assert("fmt "@.map_values(|c: char| c as u8) =~= tag_bytes(0x66, 0x6D, 0x74, 0x20));
    assert("data"@.map_values(|c: char| c as u8) =~= tag_bytes(0x64, 0x61, 0x74, 0x61));
}

/// Whether a WAV file is refused: too short, without its RIFF/WAVE tags,
/// not PCM, or without a format or a data chunk.
pub open spec fn wav_rejected(d: Seq<u8>) -> bool {
    d.len() < 44 || d.subrange(0, 4) != tag_bytes(0x52, 0x49, 0x46, 0x46)
        || d.subrange(8, 12) != tag_bytes(0x57, 0x41, 0x56, 0x45)
        || wav_walk(d, 12, 0, 0, 0) is NotPcm
        || (wav_walk(d, 12, 0, 0, 0) matches WavWalk::Done { channels, data_offset, .. }
            && (channels == 0 || data_offset == 0))
}

/// The message a refused WAV file gets, checks in this order: length,
/// RIFF tag, WAVE tag, a non-PCM format chunk, then a missing format or
/// data chunk; none for a file that is read.
pub open spec fn wav_error(d: Seq<u8>) -> Option<&'static str> {
    if d.len() < 44 {
        Some("WAV: too short")
    } else if d.subrange(0, 4) != tag_bytes(0x52, 0x49, 0x46, 0x46) {
        Some("WAV: missing RIFF")
    } else if d.subrange(8, 12) != tag_bytes(0x57, 0x41, 0x56, 0x45) {
        Some("WAV: missing WAVE")
    } else if wav_walk(d, 12, 0, 0, 0) is NotPcm {
        Some("WAV: not PCM format")
    } else if wav_walk(d, 12, 0, 0, 0) matches WavWalk::Done { channels, data_offset, .. } && (channels == 0
        || data_offset == 0) {
        Some("WAV: missing fmt or data chunk")
    } else {
        None
    }
}

/// Reads the format and the data chunk of a PCM WAV file.
pub fn ewj(data: &[u8]) -> (r: Result<Agr, &'static str>)
    requires
        wav_readable(data@),
        data@.len() <= 0x1_0000_0000_0000,
    ensures
        data@.len() < 44 ==> r is Err,
        r matches Ok(info) ==> {
            &&& data@.len() >= 44
            &&& data@.subrange(0, 4) == tag_bytes(0x52, 0x49, 0x46, 0x46)
            &&& data@.subrange(8, 12) == tag_bytes(0x57, 0x41, 0x56, 0x45)
            &&& wav_walk(data@, 12, 0, 0, 0) == (WavWalk::Done {
                channels: info.channels, sample_rate: info.sample_rate, bits: info.bits_per_sample,
                data_offset: info.data_offset as int, data_size: info.data_size as int })
            &&& info.data_offset != 0
            &&& info.channels != 0
        },
        r is Err ==> wav_rejected(data@),
        r is Err <==> wav_error(data@) is Some,
        r matches Err(e) ==> wav_error(data@) == Some(e),
{
    if data.len() < 44 {
        return Err("WAV: too short");
    }
    if !bytes_are(data, 0, 0x52, 0x49, 0x46, 0x46) {
        return Err("WAV: missing RIFF");
    }
    if !bytes_are(data, 8, 0x57, 0x41, 0x56, 0x45) {
        return Err("WAV: missing WAVE");
    }
    proof { lemma_fmt_tag(); }
    let len = data.len() as u64;
    let mut offset: u64 = 12;
    let mut channels: u16 = 0;
    let mut sample_rate: u32 = 0;
    let mut bits_per_sample: u16 = 0;
    let mut data_offset: u64 = 0;
    let mut data_size: u64 = 0;
    while offset + 8 <= len
        invariant_except_break
            len == data@.len(),
            offset <= len + 0x1_0000_0010,
            len <= 0x1_0000_0000_0000,
            data_offset == 0 && data_size == 0,
            wav_walk(data@, 12, 0, 0, 0) == wav_walk(data@, offset as int, channels, sample_rate, bits_per_sample),
            !(wav_walk(data@, 12, 0, 0, 0) is Truncated),
            data@.len() >= 44,
            data@.subrange(0, 4) == tag_bytes(0x52, 0x49, 0x46, 0x46),
            data@.subrange(8, 12) == tag_bytes(0x57, 0x41, 0x56, 0x45),
        ensures
            len == data@.len(),
            wav_walk(data@, 12, 0, 0, 0) == (WavWalk::Done {
                channels, sample_rate, bits: bits_per_sample, data_offset: data_offset as int, data_size: data_size as int }),
            data_offset <= len,
            data_size <= len,
        decreases len + 0x1_0000_0010 - offset,
    {
        proof { lemma_fmt_tag(); }
        let ghost old_off = offset as int;
        assert(offset + 8 <= data.len());
        let o = offset as usize;
        assert(o as int == offset as int);
        let rs = read_le32(data, o + 4) as u64;
        if bytes_are(data, o, 0x66, 0x6D, 0x74, 0x20) && rs >= 16 {
            let fmt = read_le16(data, o + 8);
            if fmt != 1 {
                assert(wav_walk(data@, offset as int, channels, sample_rate, bits_per_sample) is NotPcm);
                return Err("WAV: not PCM format");
            }
            channels = read_le16(data, o + 10);
            sample_rate = read_le32(data, o + 12);
            bits_per_sample = read_le16(data, o + 22);
        } else if bytes_are(data, o, 0x64, 0x61, 0x74, 0x61) {
            data_offset = offset + 8;
            let avail = len - data_offset;
            data_size = if rs < avail { rs } else { avail };
            break;
        }
        offset = offset + 8 + rs;
        if offset % 2 != 0 {
            offset = offset + 1;
        }
    }
    if data_offset == 0 || channels == 0 {
        return Err("WAV: missing fmt or data chunk");
    }
    Ok(Agr {
        channels,
        sample_rate,
        bits_per_sample,
        data_offset: data_offset as usize,
        data_size: data_size as usize,
    })
}


/// Whether a WAV file can be handed to the player: reading it stays within
/// the file, and a 16-bit format it declares has a sample rate.
pub fn wav_precheck(data: &[u8]) -> (ok: bool)
    requires
        data@.len() <= 0x1_0000_0000_0000,
    ensures
        ok == (wav_readable(data@) && wav_playable(data@)),
{
    proof { lemma_fmt_tag(); }
    let len = data.len() as u64;
    let mut offset: u64 = 12;
    let mut channels: u16 = 0;
    let mut sample_rate: u32 = 0;
    let mut bits: u16 = 0;
    let mut truncated = false;
    let mut not_pcm = false;
    while offset + 8 <= len
        invariant_except_break
            len == data@.len(),
            offset <= len + 0x1_0000_0010,
            len <= 0x1_0000_0000_0000,
            !truncated && !not_pcm,
            wav_walk(data@, 12, 0, 0, 0) == wav_walk(data@, offset as int, channels, sample_rate, bits),
        ensures
            len == data@.len(),
            truncated ==> wav_walk(data@, 12, 0, 0, 0) is Truncated,
            not_pcm ==> wav_walk(data@, 12, 0, 0, 0) is NotPcm,
            !truncated && !not_pcm ==> (wav_walk(data@, 12, 0, 0, 0) matches WavWalk::Done { sample_rate: sr, bits: b, .. }
                && sr == sample_rate && b == bits),
        decreases len + 0x1_0000_0010 - offset,
    {
        proof { lemma_fmt_tag(); }
        assert(offset + 8 <= data.len());
        let o = offset as usize;
        assert(o as int == offset as int);
        let rs = read_le32(data, o + 4) as u64;
        if bytes_are(data, o, 0x66, 0x6D, 0x74, 0x20) && rs >= 16 {
            if offset + 24 > len {
                truncated = true;
                break;
            }
            if read_le16(data, o + 8) != 1 {
                not_pcm = true;
                break;
            }
            channels = read_le16(data, o + 10);
            sample_rate = read_le32(data, o + 12);
            bits = read_le16(data, o + 22);
        } else if bytes_are(data, o, 0x64, 0x61, 0x74, 0x61) {
            break;
        }
        offset = offset + 8 + rs;
        if offset % 2 != 0 {
            offset = offset + 1;
        }
    }
    let tagged = data.len() >= 44 && bytes_are(data, 0, 0x52, 0x49, 0x46, 0x46) && bytes_are(data, 8, 0x57, 0x41, 0x56, 0x45);
    let readable = !tagged || !truncated;
    let playable = truncated || not_pcm || bits != 16 || sample_rate > 0;
    proof {
        if !playable {
            let w = wav_walk(data@, 12, 0, 0, 0);
            if let WavWalk::Done { channels: c, sample_rate: r, bits: b, data_offset: o, data_size: z } = w {
                assert(w == (WavWalk::Done { channels: c, sample_rate: r, bits: 16, data_offset: o, data_size: z }));
                assert(!(r > 0));
            }
        }
    }
    readable && playable
}

/// Whether a melody at `bpm` can be rendered (see `parts_renderable`).
pub fn melody_renderable(notes: &Vec<Note>, bpm: u32) -> (ok: bool)
    requires
        0 < bpm,
        bpm * 4 <= u32::MAX,
    ensures
        ok == parts_renderable(notes@.map_values(|n: Note| note_part(n, bpm))),
{
    let oti = 60_000 / (bpm * 4);
    let ghost target = notes@.map_values(|n: Note| note_part(n, bpm));
    let mut total: u64 = 0;
    let mut i: usize = 0;
    while i < notes.len()
        invariant
            i <= notes@.len(),
            oti == sixteenth_ms(bpm),
            oti <= 60_000,
            target == notes@.map_values(|n: Note| note_part(n, bpm)),
            total == parts_ms(target.subrange(0, i as int)),
            total + 50 <= u32::MAX,
            forall|k: int| 0 <= k < i ==> (#[trigger] target[k]).1 <= 89478,
        decreases notes@.len() - i,
    {
        let d16 = notes[i].duration_16th as u32;
        assert(oti * d16 <= 60_000 * 255) by (nonlinear_arith) requires oti <= 60_000, d16 <= 255;
        let dur = oti * d16;
        assert(target[i as int].1 == dur);
        assert(target.subrange(0, i + 1).drop_last() =~= target.subrange(0, i as int));
        if dur > 89478 {
            return false;
        }
        total = total + dur as u64;
        i = i + 1;
        if total + 50 > u32::MAX as u64 {
            proof { lemma_parts_ms_prefix(target, i as int); }
            return false;
        }
    }
    assert(target.subrange(0, notes@.len() as int) =~= target);
    96 * total <= usize::MAX as u64
}

// ---------------------------------------------------------------- sequences

/// The samples of a tone as a sequence.
pub open spec fn tone_seq(freq: u32, duration_ms: u32, amp: i16, volume: u8) -> Seq<i16> {
    let n = frame_count(duration_ms);
    Seq::new((2 * n) as nat, |k: int| tone_frame(freq, n, scaled_amp(amp, volume), k / 2))
}

proof fn lemma_is_tone_seq(s: Seq<i16>, freq: u32, duration_ms: u32, amp: i16, volume: u8)
    requires
        is_tone(s, freq, duration_ms, amp, volume),
    ensures
        s == tone_seq(freq, duration_ms, amp, volume),
{
    let t = tone_seq(freq, duration_ms, amp, volume);
    assert forall|k: int| 0 <= k < s.len() implies s[k] == t[k] by {
        let j = k / 2;
        assert(k == 2 * j || k == 2 * j + 1);
        assert(s[2 * j] == tone_frame(freq, frame_count(duration_ms), scaled_amp(amp, volume), j));
    }
    assert(s =~= t);
}

/// `n` frames of stereo silence.
pub open spec fn silence_seq(frames: int) -> Seq<i16> {
    Seq::new((2 * frames) as nat, |k: int| 0i16)
}

/// Appends `frames` frames of stereo silence.
pub fn push_silence(out: &mut Vec<i16>, frames: usize)
    requires
        old(out)@.len() + 2 * frames <= usize::MAX,
    ensures
        final(out)@ == old(out)@ + silence_seq(frames as int),
{
    let ghost start = out@;
    let mut i: usize = 0;
    while i < frames
        invariant
            i <= frames,
            out@ == start + silence_seq(i as int),
            start.len() + 2 * frames <= usize::MAX,
        decreases frames - i,
    {
        out.push(0);
        out.push(0);
        i = i + 1;
        assert(out@ =~= start + silence_seq(i as int));
    }
}

/// Appends all of `src`.
pub fn append_samples(out: &mut Vec<i16>, src: &Vec<i16>)
    ensures
        final(out)@ == old(out)@ + src@,
{
    let ghost start = out@;
    let mut i: usize = 0;
    while i < src.len()
        invariant
            i <= src@.len(),
            out@ == start + src@.subrange(0, i as int),
        decreases src@.len() - i,
    {
        out.push(src[i]);
        i = i + 1;
        assert(out@ =~= start + src@.subrange(0, i as int));
    }
    assert(src@.subrange(0, src@.len() as int) =~= src@);
}

/// One part of a sound effect: a tone (or silence, for frequency 0).
pub open spec fn effect_part(freq: u32, dur: u32, amp: i16, volume: u8) -> Seq<i16> {
    if freq == 0 {
        silence_seq(48000 * (dur as int) / 1000)
    } else {
        tone_seq(freq, dur, amp, volume)
    }
}

/// Samples of a list of parts played one after the other.
pub open spec fn parts_samples(parts: Seq<(u32, u32, i16)>, volume: u8) -> Seq<i16>
    decreases parts.len(),
{
    if parts.len() == 0 {
        Seq::empty()
    } else {
        parts_samples(parts.drop_last(), volume) + effect_part(parts.last().0, parts.last().1, parts.last().2, volume)
    }
}

/// Total length in ms of a list of parts.
pub open spec fn parts_ms(parts: Seq<(u32, u32, i16)>) -> int
    decreases parts.len(),
{
    if parts.len() == 0 { 0 } else { parts_ms(parts.drop_last()) + parts.last().1 }
}

proof fn lemma_parts_ms_prefix(parts: Seq<(u32, u32, i16)>, i: int)
    requires
        0 <= i <= parts.len(),
    ensures
        0 <= parts_ms(parts.subrange(0, i)) <= parts_ms(parts),
    decreases parts.len(),
{
    if parts.len() > 0 {
        if i == parts.len() {
            assert(parts.subrange(0, i) =~= parts);
            lemma_parts_ms_prefix(parts.drop_last(), 0);
        } else {
            assert(parts.subrange(0, i) =~= parts.drop_last().subrange(0, i));
            lemma_parts_ms_prefix(parts.drop_last(), i);
        }
    }
}

/// Whether a list of parts can be rendered: each part lasts at most
/// 89478 ms (so that its frame count fits in 32 bits), and the whole list's
/// samples and length fit.
pub open spec fn parts_renderable(parts: Seq<(u32, u32, i16)>) -> bool {
    &&& forall|i: int| 0 <= i < parts.len() ==> (#[trigger] parts[i]).1 <= 89478
    &&& parts_ms(parts) + 50 <= u32::MAX
    &&& 96 * parts_ms(parts) <= usize::MAX
}

/// Plays a list of (frequency, ms, amplitude) parts into one sample buffer;
/// returns it with the total length in ms.
pub fn render_parts(parts: &Vec<(u32, u32, i16)>, volume: u8) -> (r: (Vec<i16>, u32))
    requires
        volume <= 100,
        parts_renderable(parts@),
    ensures
        r.0@ == parts_samples(parts@, volume),
        r.1 == parts_ms(parts@),
{
    let mut cfu: Vec<i16> = Vec::new();
    let mut total_ms: u32 = 0;
    let mut i: usize = 0;
    while i < parts.len()
        invariant
            i <= parts@.len(),
            volume <= 100,
            parts_renderable(parts@),
            cfu@ == parts_samples(parts@.subrange(0, i as int), volume),
            total_ms == parts_ms(parts@.subrange(0, i as int)),
            cfu@.len() <= 96 * total_ms,
        decreases parts@.len() - i,
    {
        let (freq, dur_ms, ank) = parts[i];
        let ghost sub = parts@.subrange(0, i + 1);
        assert(sub.drop_last() =~= parts@.subrange(0, i as int));
        proof { lemma_parts_ms_prefix(parts@, i + 1); }
        assert(dur_ms <= 89478);
        if freq == 0 {
            let ost = (48000u32 * dur_ms / 1000) as usize;
            push_silence(&mut cfu, ost);
        } else {
            assert((freq as int) * frame_count(dur_ms) * 256 <= 0xFFFF_FFFF * 4_294_944 * 256) by (nonlinear_arith)
                requires freq <= 0xFFFF_FFFF, 0 <= frame_count(dur_ms) <= 4_294_944;
            let gzj = cyi(freq, dur_ms, ank, volume);
            proof { lemma_is_tone_seq(gzj@, freq, dur_ms, ank, volume); }
            append_samples(&mut cfu, &gzj);
        }
        total_ms = total_ms + dur_ms;
        i = i + 1;
    }
    assert(parts@.subrange(0, parts@.len() as int) =~= parts@);
    (cfu, total_ms)
}

/// Built-in sound effects.
#[derive(Clone, Copy, Debug)]
pub enum SoundEffect {
    BootChime,
    Click,
    Error,
    Notification,
    Warning,
    Success,
    Keypress,
}

/// The (frequency, ms, amplitude) parts of a sound effect.
pub open spec fn effect_parts(e: SoundEffect) -> Seq<(u32, u32, i16)> {
    match e {
        SoundEffect::BootChime => seq![(523u32, 150u32, 20000i16), (659, 150, 20000), (784, 250, 22000)],
        SoundEffect::Click => seq![(1000u32, 15u32, 16000i16)],
        SoundEffect::Error => seq![(400u32, 120u32, 22000i16), (0, 60, 0), (400, 120, 22000)],
        SoundEffect::Notification => seq![(880u32, 100u32, 18000i16), (1109, 100, 18000), (1319, 200, 20000)],
        SoundEffect::Warning => seq![(880u32, 200u32, 20000i16), (660, 300, 18000)],
        SoundEffect::Success => seq![(523u32, 100u32, 18000i16), (659, 200, 20000)],
        SoundEffect::Keypress => seq![(2000u32, 8u32, 8000i16)],
    }
}

/// Samples of a sound effect, and how long to play them (50 ms more than
/// the effect lasts).
pub fn nvi(aoa: SoundEffect, volume: u8) -> (r: (Vec<i16>, u32))
    requires
        volume <= 100,
    ensures
        r.0@ == parts_samples(effect_parts(aoa), volume),
        r.1 == parts_ms(effect_parts(aoa)) + 50,
{
    let plc: Vec<(u32, u32, i16)> = match aoa {
        SoundEffect::BootChime => vec![(523, 150, 20000), (659, 150, 20000), (784, 250, 22000)],
        SoundEffect::Click => vec![(1000, 15, 16000)],
        SoundEffect::Error => vec![(400, 120, 22000), (0, 60, 0), (400, 120, 22000)],
        SoundEffect::Notification => vec![(880, 100, 18000), (1109, 100, 18000), (1319, 200, 20000)],
        SoundEffect::Warning => vec![(880, 200, 20000), (660, 300, 18000)],
        SoundEffect::Success => vec![(523, 100, 18000), (659, 200, 20000)],
        SoundEffect::Keypress => vec![(2000, 8, 8000)],
    };
    assert(plc@ == effect_parts(aoa));
    proof {
        reveal_with_fuel(parts_ms, 4);
    }
    let (cfu, total) = render_parts(&plc, volume);
    (cfu, total + 50)
}


// ---------------------------------------------------------------- melodies

/// A note of a melody.
#[derive(Clone, Copy, Debug)]
pub struct Note {
    /// MIDI note number; 0 is a rest.
    pub midi_note: u8,
    /// Length in sixteenth notes.
    pub duration_16th: u8,
    /// Loudness, 0..=127.
    pub velocity: u8,
}

/// Frequency ratios of the twelve semitones, times 1000.
pub open spec fn semitone_ratio(k: int) -> int {
    seq![1000int, 1059, 1122, 1189, 1260, 1335, 1414, 1498, 1587, 1682, 1782, 1888][k]
}

/// Frequency in Hz of a MIDI note (A4 = 69 is 440 Hz), by octave shifts of a
/// table of the octave above A4; 0 for a rest.
pub open spec fn note_freq(midi: u8) -> u32 {
    if midi == 0 {
        0
    } else {
        let f = midi - 69;
        let octave = f / 12;
        let semi = f % 12;
        let base = (semitone_ratio(semi) * 440 / 1000) as u32;
        if octave >= 0 {
            base << (octave as u32)
        } else {
            base >> ((-octave) as u32)
        }
    }
}

impl Note {
    pub fn new(aad: u8, blz: u8, anb: u8) -> (n: Self)
        ensures
            n == (Note { midi_note: aad, duration_16th: blz, velocity: anb }),
    {
        Self { midi_note: aad, duration_16th: blz, velocity: anb }
    }

    /// A rest lasting `blz` sixteenth notes.
    pub fn ef(blz: u8) -> (n: Self)
        ensures
            n == (Note { midi_note: 0, duration_16th: blz, velocity: 0 }),
    {
        Self { midi_note: 0, duration_16th: blz, velocity: 0 }
    }

    /// Frequency of the note in Hz.
    pub fn freq_hz(&self) -> (f: u32)
        ensures
            f == note_freq(self.midi_note),
    {
        if self.midi_note == 0 {
            return 0;
        }
        let faa: i32 = self.midi_note as i32 - 69;
        let gki: i32 = if faa >= 0 { faa / 12 } else { -((-faa + 11) / 12) };
        let dee: usize = (faa - gki * 12) as usize;
        proof {
            assert(gki == faa / 12 && dee == faa % 12) by (nonlinear_arith)
                requires gki == (if faa >= 0 { faa / 12 } else { -((-faa + 11) / 12) }), dee == faa - gki * 12, -69 <= faa <= 186;
        }
        let table: [u32; 12] = [1000, 1059, 1122, 1189, 1260, 1335, 1414, 1498, 1587, 1682, 1782, 1888];
        assert(table@ =~= seq![1000u32, 1059, 1122, 1189, 1260, 1335, 1414, 1498, 1587, 1682, 1782, 1888]);
        let hgw = table[dee] * 440 / 1000;
        assert(hgw == semitone_ratio(dee as int) * 440 / 1000);
        if gki >= 0 {
            hgw << (gki as u32)
        } else {
            hgw >> ((-gki) as u32)
        }
    }
}

/// Pitch law: a higher MIDI note never sounds lower (a rest, note 0, is
/// 0 Hz).
pub proof fn law_note_freq_monotone(a: u8, b: u8)
    requires
        a <= b,
    ensures
        note_freq(a) <= note_freq(b),
    decreases b - a,
{
    if a < b {
        lemma_note_freq_step((b - 1) as u8);
        law_note_freq_monotone(a, (b - 1) as u8);
    }
}

/// Octave law: from A4 up, the note an octave higher sounds at exactly
/// twice the frequency.
pub proof fn law_note_octave_doubles(a: u8)
    requires
        69 <= a <= 243,
    ensures
        note_freq((a + 12) as u8) == 2 * note_freq(a),
{
    let b = (a + 12) as u8;
    lemma_note_freq_arith(a);
    lemma_note_freq_arith(b);
    let o = (a - 69) / 12;
    assert((b - 69) / 12 == o + 1 && (b - 69) % 12 == (a - 69) % 12);
    lemma_pow2_unfold((o + 1) as nat);
    let base = note_base((a - 69) % 12);
    let p = pow2(o as nat) as int;
    assert(base * (2 * p) == 2 * (base * p)) by (nonlinear_arith);
}

/// The frequency of the lowest note of a semitone's octave, rounded down.
spec fn note_base(s: int) -> int {
    semitone_ratio(s) * 440 / 1000
}

proof fn lemma_note_base(s: int)
    requires
        0 <= s < 12,
    ensures
        440 <= note_base(s) <= 830,
        s < 11 ==> note_base(s) <= note_base(s + 1),
        note_base(0) == 440,
        note_base(11) == 830,
{
    assert(note_base(0) == 440);
    assert(note_base(1) == 465);
    assert(note_base(2) == 493);
    assert(note_base(3) == 523);
    assert(note_base(4) == 554);
    assert(note_base(5) == 587);
    assert(note_base(6) == 622);
    assert(note_base(7) == 659);
    assert(note_base(8) == 698);
    assert(note_base(9) == 740);
    assert(note_base(10) == 784);
    assert(note_base(11) == 830);
}

/// `note_freq` with its shifts read as multiplication and division by
/// powers of two.
proof fn lemma_note_freq_arith(a: u8)
    requires
        a > 0,
    ensures
        -6 <= (a - 69) / 12 <= 15,
        (a - 69) / 12 >= 0 ==> note_freq(a) == note_base((a - 69) % 12) * pow2(((a - 69) / 12) as nat),
        (a - 69) / 12 < 0 ==> note_freq(a) == note_base((a - 69) % 12) / (pow2((-((a - 69) / 12)) as nat) as int),
{
    let f = a - 69;
    let o = f / 12;
    let s = f % 12;
    lemma_note_base(s);
    let base = (semitone_ratio(s) * 440 / 1000) as u32;
    assert(base == note_base(s));
    lemma2_to64();
    if o >= 0 {
        if o < 15 {
            lemma_pow2_strictly_increases(o as nat, 15);
        }
        assert(base * pow2(o as nat) <= 830 * 32768) by (nonlinear_arith)
            requires base <= 830, pow2(o as nat) <= 32768;
        lemma_u32_shl_is_mul(base, o as u32);
    } else {
        lemma_u32_shr_is_div(base, (-o) as u32);
    }
}

proof fn lemma_note_freq_step(a: u8)
    requires
        a < 255,
    ensures
        note_freq(a) <= note_freq((a + 1) as u8),
{
    let b = (a + 1) as u8;
    if a == 0 {
        return;
    }
    lemma_note_freq_arith(a);
    lemma_note_freq_arith(b);
    let o = (a - 69) / 12;
    let s = (a - 69) % 12;
    lemma_note_base(s);
    if s < 11 {
        assert((b - 69) / 12 == o && (b - 69) % 12 == s + 1);
        if o >= 0 {
            let p = pow2(o as nat) as int;
            assert(note_base(s) * p <= note_base(s + 1) * p) by (nonlinear_arith)
                requires note_base(s) <= note_base(s + 1), p >= 0;
        } else {
            lemma_pow2_pos((-o) as nat);
            lemma_div_is_ordered(note_base(s), note_base(s + 1), pow2((-o) as nat) as int);
        }
    } else {
        assert((b - 69) / 12 == o + 1 && (b - 69) % 12 == 0);
        if o >= 0 {
            lemma_pow2_unfold((o + 1) as nat);
            let p = pow2(o as nat) as int;
            assert(830 * p <= 440 * (2 * p)) by (nonlinear_arith)
                requires p >= 0;
        } else if o == -1 {
            lemma2_to64();
            assert(s == 11 && (-o) as nat == 1);
            assert(pow2(1) == 2);
            assert(note_freq(a) == note_base(11) / 2);
            assert(note_freq(b) == 440);
        } else {
            let k = (-o) as nat;
            lemma_pow2_unfold(k);
            let q = pow2((k - 1) as nat) as int;
            lemma_pow2_pos((k - 1) as nat);
            lemma_div_is_ordered(830, 880, 2 * q);
            lemma_div_denominator(880, 2, q);
            assert(pow2(k) == 2 * q);
            assert(note_freq(a) == 830int / (2 * q));
            assert(note_freq(b) == 440int / q);
        }
    }
}

/// Whether a byte separates melody tokens.
pub open spec fn is_space_byte(b: u8) -> bool {
    b == 0x20 || b == 0x09 || b == 0x0A || b == 0x0D || b == 0x0B || b == 0x0C
}

/// Sixteenth notes for a length letter: w, h, q, e, s; a quarter otherwise.
pub open spec fn length_code(s: Seq<u8>) -> u8 {
    if s.len() == 0 {
        4
    } else if s[0] == 0x77 {
        16
    } else if s[0] == 0x68 {
        8
    } else if s[0] == 0x71 {
        4
    } else if s[0] == 0x65 {
        2
    } else if s[0] == 0x73 {
        1
    } else {
        4
    }
}

/// Semitone above C of a note letter (either case), or 255.
pub open spec fn letter_semitone(b: u8) -> u8 {
    if b == 0x43 || b == 0x63 { 0 }
    else if b == 0x44 || b == 0x64 { 2 }
    else if b == 0x45 || b == 0x65 { 4 }
    else if b == 0x46 || b == 0x66 { 5 }
    else if b == 0x47 || b == 0x67 { 7 }
    else if b == 0x41 || b == 0x61 { 9 }
    else if b == 0x42 || b == 0x62 { 11 }
    else { 255 }
}

/// The note a token such as `C#5q`, `Ee` or `Rh` stands for; `None` for a
/// token that is not a note.
pub open spec fn token_note(t: Seq<u8>) -> Option<Note> {
    if t.len() == 0 {
        None
    } else if t[0] == 0x52 || t[0] == 0x72 {
        Some(Note { midi_note: 0, duration_16th: length_code(t.subrange(1, t.len() as int)), velocity: 0 })
    } else if letter_semitone(t[0]) == 255 {
        None
    } else {
        let sharp = t.len() > 1 && t[1] == 0x23;
        let base = if sharp { (letter_semitone(t[0]) + 1) % 12 } else { letter_semitone(t[0]) as int };
        let rest = if sharp { t.subrange(2, t.len() as int) } else { t.subrange(1, t.len() as int) };
        let has_octave = rest.len() > 0 && 0x30 <= rest[0] <= 0x39;
        let octave = if has_octave { rest[0] - 0x30 } else { 4 };
        let rest2 = if has_octave { rest.subrange(1, rest.len() as int) } else { rest };
        Some(Note { midi_note: (12 * (octave + 1) + base) as u8, duration_16th: length_code(rest2), velocity: 100 })
    }
}

/// End of the token that starts at `i`.
pub open spec fn token_end(s: Seq<u8>, i: int) -> int
    decreases s.len() - i,
{
    if i >= s.len() || is_space_byte(s[i]) { i } else { token_end(s, i + 1) }
}

/// Notes of a melody string from byte `i` on.
pub open spec fn melody_notes(s: Seq<u8>, i: int) -> Seq<Note>
    decreases s.len() - i,
{
    if i < 0 || i >= s.len() {
        Seq::empty()
    } else if is_space_byte(s[i]) {
        melody_notes(s, i + 1)
    } else {
        let j = token_end(s, i);
        proof { lemma_token_end(s, i); }
        if j <= i {
            Seq::empty()
        } else {
            match token_note(s.subrange(i, j)) {
                Some(n) => seq![n] + melody_notes(s, j),
                None => melody_notes(s, j),
            }
        }
    }
}

pub proof fn lemma_token_end(s: Seq<u8>, i: int)
    requires
        0 <= i <= s.len(),
    ensures
        i <= token_end(s, i) <= s.len(),
        forall|k: int| i <= k < token_end(s, i) ==> !is_space_byte(#[trigger] s[k]),
    decreases s.len() - i,
{
    if i < s.len() && !is_space_byte(s[i]) {
        lemma_token_end(s, i + 1);
    }
}

fn letter_semitone_exec(b: u8) -> (r: u8)
    ensures
        r == letter_semitone(b),
{
    match b {
        0x43 | 0x63 => 0,
        0x44 | 0x64 => 2,
        0x45 | 0x65 => 4,
        0x46 | 0x66 => 5,
        0x47 | 0x67 => 7,
        0x41 | 0x61 => 9,
        0x42 | 0x62 => 11,
        _ => 255,
    }
}

/// The note that the token `s[start..end]` stands for.
fn token_note_exec(s: &[u8], start: usize, end: usize) -> (r: Option<Note>)
    requires
        start < end <= s@.len(),
    ensures
        r == token_note(s@.subrange(start as int, end as int)),
{
    let ghost t = s@.subrange(start as int, end as int);
    if s[start] == 0x52 || s[start] == 0x72 {
        let d = length_code_in(s, start + 1, end);
        assert(t.subrange(1, t.len() as int) =~= s@.subrange(start + 1, end as int));
        return Some(Note::ef(d));
    }
    let base0 = letter_semitone_exec(s[start]);
    if base0 == 255 {
        return None;
    }
    let sharp = end - start > 1 && s[start + 1] == 0x23;
    let base: u8 = if sharp { (base0 + 1) % 12 } else { base0 };
    let rest: usize = if sharp { start + 2 } else { start + 1 };
    assert(rest <= end);
    assert(t.subrange(if sharp { 2int } else { 1int }, t.len() as int) =~= s@.subrange(rest as int, end as int));
    let has_octave = rest < end && 0x30 <= s[rest] && s[rest] <= 0x39;
    let octave: u8 = if has_octave { s[rest] - 0x30 } else { 4 };
    let rest2: usize = if has_octave { rest + 1 } else { rest };
    assert(s@.subrange(rest as int, end as int).subrange(if has_octave { 1int } else { 0int }, (end - rest) as int)
        =~= s@.subrange(rest2 as int, end as int));
    let d = length_code_in(s, rest2, end);
    let midi: u8 = 12 * (octave + 1) + base;
    Some(Note::new(midi, d, 100))
}

/// Length code of the bytes `s[from..end]`.
fn length_code_in(s: &[u8], from: usize, end: usize) -> (r: u8)
    requires
        from <= end <= s@.len(),
    ensures
        r == length_code(s@.subrange(from as int, end as int)),
{
    if from >= end {
        return 4;
    }
    match s[from] {
        0x77 => 16,
        0x68 => 8,
        0x71 => 4,
        0x65 => 2,
        0x73 => 1,
        _ => 4,
    }
}

/// Parses a melody: notes such as `C4q`, `D#5e` or `Rh` separated by white
/// space (letter, optional sharp, optional octave digit defaulting to 4,
/// optional length letter w/h/q/e/s defaulting to a quarter); tokens that
/// are not notes are skipped.
pub fn parse_melody(bcq: &str) -> (notes: Vec<Note>)
    ensures
        notes@ == melody_notes(bcq.spec_bytes(), 0),
{
    let bytes = bcq.as_bytes();
    let mut notes: Vec<Note> = Vec::new();
    let mut i: usize = 0;
    while i < bytes.len()
        invariant
            i <= bytes@.len(),
            notes@ + melody_notes(bytes@, i as int) == melody_notes(bytes@, 0),
        decreases bytes@.len() - i,
    {
        if bytes[i] == 0x20 || bytes[i] == 0x09 || bytes[i] == 0x0A || bytes[i] == 0x0D || bytes[i] == 0x0B || bytes[i] == 0x0C {
            i = i + 1;
        } else {
            let start = i;
            let mut j = i;
            proof { lemma_token_end(bytes@, i as int); }
            while j < bytes.len() && !(bytes[j] == 0x20 || bytes[j] == 0x09 || bytes[j] == 0x0A || bytes[j] == 0x0D || bytes[j] == 0x0B || bytes[j] == 0x0C)
                invariant
                    start <= j <= bytes@.len(),
                    token_end(bytes@, j as int) == token_end(bytes@, start as int),
                decreases bytes@.len() - j,
            {
                j = j + 1;
            }
            match token_note_exec(bytes, start, j) {
                Some(n) => {
                    let ghost before = notes@;
                    notes.push(n);
                    assert(notes@ + melody_notes(bytes@, j as int) =~= before + (seq![n] + melody_notes(bytes@, j as int)));
                },
                None => {},
            }
            i = j;
        }
    }
    notes
}


/// Length in ms of a sixteenth note at `bpm` beats per minute.
pub open spec fn sixteenth_ms(bpm: u32) -> int {
    60_000int / (bpm * 4)
}

/// The (frequency, ms, amplitude) part that a note plays: silence for a rest
/// or a note of velocity 0.
pub open spec fn note_part(n: Note, bpm: u32) -> (u32, u32, i16) {
    let dur = (sixteenth_ms(bpm) * n.duration_16th) as u32;
    if note_freq(n.midi_note) == 0 || n.velocity == 0 {
        (0u32, dur, 0i16)
    } else {
        (note_freq(n.midi_note), dur, (n.velocity * 24000 / 127) as i16)
    }
}

/// Samples of a melody at `bpm`, and how long to play them (50 ms more than
/// the melody lasts); `None` for an empty melody, which plays nothing.
pub fn nvm(notes: &Vec<Note>, bpm: u32, volume: u8) -> (r: Option<(Vec<i16>, u32)>)
    requires
        volume <= 100,
        0 < bpm,
        bpm * 4 <= u32::MAX,
        parts_renderable(notes@.map_values(|n: Note| note_part(n, bpm))),
    ensures
        notes@.len() == 0 ==> r is None,
        notes@.len() > 0 ==> (r matches Some((samples, ms))
            && samples@ == parts_samples(notes@.map_values(|n: Note| note_part(n, bpm)), volume)
            && ms == parts_ms(notes@.map_values(|n: Note| note_part(n, bpm))) + 50),
{
    if notes.len() == 0 {
        return None;
    }
    let oti = 60_000 / (bpm * 4);
    let ghost target = notes@.map_values(|n: Note| note_part(n, bpm));
    let mut parts: Vec<(u32, u32, i16)> = Vec::new();
    let mut i: usize = 0;
    while i < notes.len()
        invariant
            i <= notes@.len(),
            0 < bpm,
            bpm * 4 <= u32::MAX,
            oti == sixteenth_ms(bpm),
            target == notes@.map_values(|n: Note| note_part(n, bpm)),
            parts@ == target.subrange(0, i as int),
            parts_renderable(target),
        decreases notes@.len() - i,
    {
        let note = notes[i];
        assert(target[i as int] == note_part(note, bpm));
        assert(oti * (note.duration_16th as u32) <= 89478) by {
            assert(target[i as int].1 <= 89478);
            assert(oti * note.duration_16th <= 60_000 * 255) by (nonlinear_arith)
                requires oti <= 60_000, note.duration_16th <= 255;
        }
        let dur = oti * note.duration_16th as u32;
        let freq = note.freq_hz();
        let part = if freq == 0 || note.velocity == 0 {
            (0u32, dur, 0i16)
        } else {
            let ank = (note.velocity as i32 * 24000 / 127) as i16;
            (freq, dur, ank)
        };
        parts.push(part);
        assert(parts@ =~= target.subrange(0, i + 1));
        i = i + 1;
    }
    assert(parts@ =~= target);
    let (cfu, total) = render_parts(&parts, volume);
    Some((cfu, total + 50))
}

/// The melody of "Ode to Joy" (first phrase) at 120 bpm.
pub fn nvh(volume: u8) -> (r: Vec<Note>)
    requires
        volume <= 100,
    ensures
        r@ == melody_notes("E4q E4q F4q G4q G4q F4q E4q D4q C4q C4q D4q E4q E4q D4h".spec_bytes(), 0),
{
    parse_melody("E4q E4q F4q G4q G4q F4q E4q D4q C4q C4q D4q E4q E4q D4h")
}


/// Parses and renders a melody string at `bpm`; `None` when it holds no note.
pub fn nvl(bcq: &str, bpm: u32, volume: u8) -> (r: Option<(Vec<i16>, u32)>)
    requires
        volume <= 100,
        0 < bpm,
        bpm * 4 <= u32::MAX,
        parts_renderable(melody_notes(bcq.spec_bytes(), 0).map_values(|n: Note| note_part(n, bpm))),
    ensures
        melody_notes(bcq.spec_bytes(), 0).len() == 0 ==> r is None,
        melody_notes(bcq.spec_bytes(), 0).len() > 0 ==> (r matches Some((samples, ms))
            && samples@ == parts_samples(melody_notes(bcq.spec_bytes(), 0).map_values(|n: Note| note_part(n, bpm)), volume)
            && ms == parts_ms(melody_notes(bcq.spec_bytes(), 0).map_values(|n: Note| note_part(n, bpm))) + 50),
{
    let notes = parse_melody(bcq);
    nvm(&notes, bpm, volume)
}

/// Two bytes read as a signed little-endian 16-bit sample.
pub open spec fn s16(v: int) -> int {
    if v < 0x8000 { v } else { v - 0x1_0000 }
}

/// Sample `k` of a data region of `size` bytes at `off`; 0 past its end.
pub open spec fn pcm_at(d: Seq<u8>, off: int, size: int, k: int) -> int {
    if k * 2 + 1 < size { s16(le16(d, off + 2 * k)) } else { 0 }
}

/// Frames of the output at 48 kHz for `frames` input frames at `sr` Hz.
pub open spec fn out_frames(frames: int, sr: int) -> int {
    frames * 48000 / sr
}

/// Left and right samples of output frame `f` (nearest earlier input
/// frame; a mono input feeds both channels, and a missing right sample
/// repeats the left), scaled by `volume` percent.
pub open spec fn resampled(d: Seq<u8>, info: Agr, volume: int, f: int) -> (int, int) {
    let src = f * info.sample_rate as int / 48000;
    let idx = src * info.channels as int;
    let left = pcm_at(d, info.data_offset as int, info.data_size as int, idx);
    let right = if info.channels >= 2 {
        if (idx + 1) * 2 + 1 < info.data_size { pcm_at(d, info.data_offset as int, info.data_size as int, idx + 1) } else { left }
    } else {
        left
    };
    (tdiv(left * volume, 100), tdiv(right * volume, 100))
}

proof fn lemma_src_in_range(f: int, dbw: int, dvq: int, sr: int)
    requires
        sr > 0,
        dvq >= 0,
        0 <= f < dbw,
        dbw == dvq * 48000 / sr,
    ensures
        f * sr / 48000 < dvq,
        0 <= f * sr / 48000,
{
    assert(dbw * sr <= dvq * 48000) by (nonlinear_arith)
        requires
            sr > 0,
            dvq >= 0,
            dbw == dvq * 48000 / sr,
    ;
    assert(f * sr / 48000 < dvq) by (nonlinear_arith)
        requires
            sr > 0,
            0 <= f < dbw,
            dbw * sr <= dvq * 48000,
    ;
    assert(0 <= f * sr / 48000) by (nonlinear_arith)
        requires
            sr > 0,
            0 <= f,
    ;
}

/// The data chunk a walk finds lies inside the file.
proof fn lemma_walk_bounds(d: Seq<u8>, off: int, ch: u16, sr: u32, bits: u16)
    ensures
        match wav_walk(d, off, ch, sr, bits) {
            WavWalk::Done { data_offset, data_size, .. } => (data_offset == 0 && data_size == 0) || (0 <= data_offset
                && 0 <= data_size && data_offset + data_size <= d.len()),
            _ => true,
        },
    decreases (if off <= d.len() { d.len() - off } else { 0 }),
{
    if off < 0 || off + 8 > d.len() {
    } else {
        let size = le32(d, off + 4);
        let next0 = off + 8 + size;
        let next = if next0 % 2 != 0 { next0 + 1 } else { next0 };
        if d.subrange(off, off + 4) == "fmt "@.map_values(|c: char| c as u8) && size >= 16 {
            if off + 24 > d.len() {
            } else if le16(d, off + 8) != 1 {
            } else {
                lemma_walk_bounds(d, next, le16(d, off + 10) as u16, le32(d, off + 12) as u32, le16(d, off + 22) as u16);
            }
        } else if d.subrange(off, off + 4) == "data"@.map_values(|c: char| c as u8) {
        } else {
            lemma_walk_bounds(d, next, ch, sr, bits);
        }
    }
}

proof fn lemma_frame_index(src: int, dvq: int, size: int, ch: int)
    requires
        ch >= 1,
        size >= 0,
        dvq == size / (2 * ch),
        0 <= src < dvq,
    ensures
        0 <= src * ch,
        (src * ch) * 2 + 2 * ch <= size,
{
    assert((src * ch) * 2 + 2 * ch <= size && 0 <= src * ch) by (nonlinear_arith)
        requires
            ch >= 1,
            size >= 0,
            dvq == size / (2 * ch),
            0 <= src < dvq,
    ;
}

/// Whether a WAV file that parses as 16-bit PCM has a sample rate (the
/// resampler divides by it).
pub open spec fn wav_playable(d: Seq<u8>) -> bool {
    forall|ch: u16, sr: u32, off: int, size: int|
        wav_walk(d, 12, 0, 0, 0) == (WavWalk::Done { channels: ch, sample_rate: sr, bits: 16, data_offset: off, data_size: size })
            ==> sr > 0
}

/// The samples of a 16-bit PCM WAV file resampled to 48 kHz stereo at
/// `volume` percent, with the playing time in milliseconds.
pub fn qqp(data: &[u8], volume: u8) -> (r: Result<(Vec<i16>, u32), &'static str>)
    requires
        wav_readable(data@),
        wav_playable(data@),
        data@.len() <= 0x1_0000_0000_0000,
        volume <= 100,
    ensures
        r is Ok ==> exists|info: Agr| {
            &&& wav_walk(data@, 12, 0, 0, 0) == (WavWalk::Done {
                channels: info.channels, sample_rate: info.sample_rate, bits: info.bits_per_sample,
                data_offset: info.data_offset as int, data_size: info.data_size as int })
            &&& info.bits_per_sample == 16 && info.channels != 0 && info.sample_rate > 0
            &&& {
                let frames = out_frames(info.data_size as int / (2 * info.channels as int), info.sample_rate as int);
                &&& r->Ok_0.0@.len() == 2 * frames
                &&& forall|f: int| 0 <= f < frames ==> {
                    let p = #[trigger] resampled(data@, info, volume as int, f);
                    r->Ok_0.0@[2 * f] == p.0 && r->Ok_0.0@[2 * f + 1] == p.1
                }
                &&& r->Ok_0.1 == (frames * 1000 / 48000) as u32
            }
        },
        r is Err ==> wav_rejected(data@) || (wav_walk(data@, 12, 0, 0, 0) matches WavWalk::Done { bits, .. }
            && bits != 16),
        wav_error(data@) matches Some(e) ==> r == Err::<(Vec<i16>, u32), &'static str>(e),
        wav_error(data@) is None ==> ((wav_walk(data@, 12, 0, 0, 0) matches WavWalk::Done { bits, .. } && bits != 16)
            <==> r == Err::<(Vec<i16>, u32), &'static str>("WAV: only 16-bit PCM supported")),
        wav_error(data@) is None && (wav_walk(data@, 12, 0, 0, 0) matches WavWalk::Done { bits, .. } && bits == 16)
            ==> r is Ok,
{
    let dlen = data.len();
    let info = match ewj(data) {
        Ok(i) => i,
        Err(e) => {
            return Err(e);
        },
    };
    if info.bits_per_sample != 16 {
        return Err("WAV: only 16-bit PCM supported");
    }
    proof {
        lemma_walk_bounds(data@, 12, 0, 0, 0);
    }
    let ch = info.channels as u64;
    let sr = info.sample_rate as u64;
    let off = info.data_offset as u64;
    let size = info.data_size as u64;
    assert(sr > 0);
    let dvq: u64 = size / (2 * ch);
    let dbw: u64 = dvq * 48000 / sr;
    let vol = volume as i32;
    let mut out: Vec<i16> = Vec::new();
    let mut f: u64 = 0;
    while f < dbw
        invariant
            f <= dbw,
            dbw == out_frames(dvq as int, sr as int),
            dvq as int == size as int / (2 * ch as int),
            ch == info.channels,
            ch >= 1,
            sr == info.sample_rate,
            sr > 0,
            off == info.data_offset,
            size == info.data_size,
            off + size <= data@.len(),
            dlen == data@.len(),
            data@.len() <= 0x1_0000_0000_0000,
            vol == volume as int,
            volume <= 100,
            out@.len() == 2 * f,
            forall|g: int| 0 <= g < f ==> {
                let p = #[trigger] resampled(data@, info, volume as int, g);
                out@[2 * g] == p.0 && out@[2 * g + 1] == p.1
            },
        decreases dbw - f,
    {
        proof {
            lemma_src_in_range(f as int, dbw as int, dvq as int, sr as int);
        }
        let src: u64 = f * sr / 48000;
        proof {
            lemma_frame_index(src as int, dvq as int, size as int, ch as int);
        }
        let idx: u64 = src * ch;
        let yk: u64 = idx * 2;
        let left: i32 = if yk + 1 < size {
            let v = read_le16(data, (off + yk) as usize) as i32;
            if v < 0x8000 { v } else { v - 0x1_0000 }
        } else {
            0
        };
        let right: i32 = if ch >= 2 {
            let rk: u64 = (idx + 1) * 2;
            if rk + 1 < size {
                let v = read_le16(data, (off + rk) as usize) as i32;
                if v < 0x8000 { v } else { v - 0x1_0000 }
            } else {
                left
            }
        } else {
            left
        };
        assert(-32768 * 100 <= left * vol <= 32767 * 100) by (nonlinear_arith)
            requires
                -32768 <= left <= 32767,
                0 <= vol <= 100,
        ;
        assert(-32768 * 100 <= right * vol <= 32767 * 100) by (nonlinear_arith)
            requires
                -32768 <= right <= 32767,
                0 <= vol <= 100,
        ;
        let l = tdiv_i32(left * vol, 100);
        let rr = tdiv_i32(right * vol, 100);
        proof {
            lemma_tdiv_bound(left * vol, 100, 3276800int);
            lemma_tdiv_bound(right * vol, 100, 3276800int);
        }
        out.push(l as i16);
        out.push(rr as i16);
        f = f + 1;
    }
    let duration = #[verifier::truncate] ((dbw as u128 * 1000 / 48000) as u32);
    let r: Result<(Vec<i16>, u32), &'static str> = Ok((out, duration));
    assert(wav_walk(data@, 12, 0, 0, 0) == (WavWalk::Done {
                channels: info.channels, sample_rate: info.sample_rate, bits: info.bits_per_sample,
                data_offset: info.data_offset as int, data_size: info.data_size as int }));
    r
}

/// Which audio device to drive: the first HD Audio function (subclass
/// 0x03), else the first AC'97-style one (subclass 0x01).
pub open spec fn first_with(s: Seq<u8>, v: u8, i: int) -> bool {
    0 <= i < s.len() && s[i] == v && forall|j: int| 0 <= j < i ==> s[j] != v
}

pub fn select_audio_device(subclasses: &Vec<u8>) -> (r: Option<usize>)
    ensures
        (exists|i: int| 0 <= i < subclasses@.len() && subclasses@[i] == 0x03) ==> r is Some && first_with(subclasses@, 0x03, r->Some_0 as int),
        (forall|i: int| 0 <= i < subclasses@.len() ==> subclasses@[i] != 0x03) ==> match r {
            Some(k) => first_with(subclasses@, 0x01, k as int),
            None => forall|i: int| 0 <= i < subclasses@.len() ==> subclasses@[i] != 0x01,
        },
{
    let mut i: usize = 0;
    while i < subclasses.len()
        invariant
            i <= subclasses@.len(),
            forall|j: int| 0 <= j < i ==> subclasses@[j] != 0x03,
        decreases subclasses@.len() - i,
    {
        if subclasses[i] == 0x03 {
            return Some(i);
        }
        i = i + 1;
    }
    let mut k: usize = 0;
    while k < subclasses.len()
        invariant
            k <= subclasses@.len(),
            forall|j: int| 0 <= j < subclasses@.len() ==> subclasses@[j] != 0x03,
            forall|j: int| 0 <= j < k ==> subclasses@[j] != 0x01,
        decreases subclasses@.len() - k,
    {
        if subclasses[k] == 0x01 {
            return Some(k);
        }
        k = k + 1;
    }
    None
}

/// Whether `b` is a note letter, A to G in either case.
pub open spec fn is_note_letter(b: u8) -> bool {
    (0x41 <= b <= 0x47) || (0x61 <= b <= 0x67)
}

/// Note-letter law: the letters name the C major scale. C is 0 semitones
/// above C; the steps C-D, D-E, F-G, G-A and A-B are whole tones, E-F and
/// B-C half tones, so the scale closes on the next octave's C. Lower and
/// upper case name the same note, and only A to G are notes.
pub proof fn law_note_letters(b: u8)
    ensures
        letter_semitone(0x43) == 0,
        letter_semitone(0x44) == letter_semitone(0x43) + 2,
        letter_semitone(0x45) == letter_semitone(0x44) + 2,
        letter_semitone(0x46) == letter_semitone(0x45) + 1,
        letter_semitone(0x47) == letter_semitone(0x46) + 2,
        letter_semitone(0x41) == letter_semitone(0x47) + 2,
        letter_semitone(0x42) == letter_semitone(0x41) + 2,
        letter_semitone(0x42) + 1 == 12,
        0x41 <= b <= 0x47 ==> letter_semitone((b + 0x20) as u8) == letter_semitone(b),
        is_note_letter(b) <==> letter_semitone(b) != 255,
        is_note_letter(b) ==> letter_semitone(b) < 12,
{
}

/// Note-token law: a letter `L` followed by an octave digit `o` is MIDI
/// note `12 * (o + 1)` plus the letter's semitone, a quarter note at
/// velocity 100; the same letter an octave up is 12 notes higher; a sharp
/// raises any letter but B by one, and B sharp is read as the C of the same
/// octave digit; and A4 is note 69, 440 Hz.
pub proof fn law_note_tokens(l: u8, o: u8)
    ensures
        is_note_letter(l) && o <= 9 ==> token_note(seq![l, (0x30 + o) as u8]) == Some(
            Note { midi_note: (12 * (o + 1) + letter_semitone(l)) as u8, duration_16th: 4, velocity: 100 },
        ),
        is_note_letter(l) && o < 9 ==> token_note(seq![l, (0x31 + o) as u8])->Some_0.midi_note
            == token_note(seq![l, (0x30 + o) as u8])->Some_0.midi_note + 12,
        is_note_letter(l) && l != 0x42 && l != 0x62 && o <= 9 ==> token_note(seq![l, 0x23, (0x30 + o) as u8])->Some_0.midi_note
            == token_note(seq![l, (0x30 + o) as u8])->Some_0.midi_note + 1,
        o <= 9 ==> token_note(seq![0x42u8, 0x23, (0x30 + o) as u8]) == token_note(seq![0x43u8, (0x30 + o) as u8]),
        token_note(seq![0x41u8, 0x34]) == Some(Note { midi_note: 69, duration_16th: 4, velocity: 100 }),
        note_freq(69) == 440,
{
    law_note_letters(l);
    let t = seq![l, (0x30 + o) as u8];
    assert(t.subrange(1, 2).subrange(1, 1) =~= Seq::<u8>::empty());
    assert(t.subrange(1, t.len() as int) =~= seq![(0x30 + o) as u8]);
    let u = seq![l, (0x31 + o) as u8];
    assert(u.subrange(1, u.len() as int) =~= seq![(0x31 + o) as u8]);
    let v = seq![l, 0x23u8, (0x30 + o) as u8];
    assert(v.subrange(2, v.len() as int) =~= seq![(0x30 + o) as u8]);
    assert(seq![(0x30 + o) as u8].subrange(1, 1) =~= Seq::<u8>::empty());
    assert(seq![(0x31 + o) as u8].subrange(1, 1) =~= Seq::<u8>::empty());
    let a = seq![0x41u8, 0x34];
    assert(a.subrange(1, a.len() as int) =~= seq![0x34u8]);
    assert(seq![0x34u8].subrange(1, 1) =~= Seq::<u8>::empty());
    let w = seq![0x42u8, 0x23, (0x30 + o) as u8];
    assert(w.subrange(2, w.len() as int) =~= seq![(0x30 + o) as u8]);
    let x = seq![0x43u8, (0x30 + o) as u8];
    assert(x.subrange(1, x.len() as int) =~= seq![(0x30 + o) as u8]);
    assert(440u32 << 0u32 == 440u32) by (bit_vector);
}

} // verus!
