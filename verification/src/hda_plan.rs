//! The verbs that configure a codec for playback, as a list of steps that
//! the controller sends in order.
use vstd::prelude::*;
use crate::hda::{Aw, Wk, WidgetType, spec_widget_type, widget_index, find_widget_index, spec_volume_gain, VolumeState};
use crate::hda_stream::{
    codec_quirk, conn_selects, conn_selects_spec, nids_of_type, path_pin_gain, speaker_pins, speaker_pins_spec,
    stream_tag_byte, unmute_payloads, unmute_payloads_spec, widgets_of_type, amp_steps, CodecQuirk, STREAM_FORMAT,
    connection_entries, connection_entries_spec, has_amp, amp_caps_for, needs_amp_query,
};

verus! {

/// Selects the input of a mixer or selector.
pub const SET_CONN_SEL: u32 = 0x701;
/// Sets a node's power state.
pub const SET_POWER: u32 = 0x705;
/// Binds a converter to a stream tag and channel.
pub const SET_STREAM: u32 = 0x706;
/// Sets a pin's control bits.
pub const SET_PIN_CTL: u32 = 0x707;
/// Sets a pin's external amplifier enable.
pub const SET_EAPD: u32 = 0x70C;
/// Sets a converter's stream format.
pub const SET_FORMAT: u32 = 0x200;
/// Sets an amplifier's gain and mute.
pub const SET_AMP: u32 = 0x300;
/// Writes a vendor coefficient.
pub const SET_COEF: u32 = 0x400;
/// Sets the GPIO data lines.
pub const SET_GPIO_DATA: u32 = 0x715;
/// Sets the GPIO enable mask.
pub const SET_GPIO_MASK: u32 = 0x716;
/// Sets the GPIO directions.
pub const SET_GPIO_DIR: u32 = 0x717;

/// One step of a codec configuration.
#[derive(Clone, Copy, Debug, PartialEq, Eq, Structural)]
pub enum HdaStep {
    /// A verb with an 8-bit payload for node `nid` of codec `codec`.
    Verb { codec: u8, nid: u16, verb: u32, data: u8 },
    /// A verb with a 16-bit payload.
    Verb16 { codec: u8, nid: u16, verb: u32, payload: u16 },
    /// A pause, in microseconds.
    Delay { us: u32 },
}

/// Powers up each node of `nids` (power state D0), in order.
pub open spec fn power_steps(c: u8, nids: Seq<u16>) -> Seq<HdaStep> {
    nids.map_values(|n: u16| HdaStep::Verb { codec: c, nid: n, verb: SET_POWER, data: 0 })
}

/// Enables the output and the external amplifier of each pin of `pins`.
pub open spec fn pin_enable_steps(c: u8, pins: Seq<u16>) -> Seq<HdaStep>
    decreases pins.len(),
{
    if pins.len() == 0 {
        Seq::empty()
    } else {
        pin_enable_steps(c, pins.drop_last()) + seq![
            HdaStep::Verb { codec: c, nid: pins.last(), verb: SET_PIN_CTL, data: 0xC0 },
            HdaStep::Verb { codec: c, nid: pins.last(), verb: SET_EAPD, data: 0x02 },
        ]
    }
}

/// Binds each converter of `dacs` to the stream and sets its format.
pub open spec fn dac_steps(c: u8, dacs: Seq<u16>, tag_byte: u8) -> Seq<HdaStep>
    decreases dacs.len(),
{
    if dacs.len() == 0 {
        Seq::empty()
    } else {
        dac_steps(c, dacs.drop_last(), tag_byte) + seq![
            HdaStep::Verb { codec: c, nid: dacs.last(), verb: SET_STREAM, data: tag_byte },
            HdaStep::Verb16 { codec: c, nid: dacs.last(), verb: SET_FORMAT, payload: STREAM_FORMAT },
        ]
    }
}

/// Node ids of the widgets, in widget order.
pub open spec fn widget_nids(ws: Seq<Aw>) -> Seq<u16> {
    ws.map_values(|w: Aw| w.nid)
}

/// Unmutes every widget's amplifiers at their full gain.
pub open spec fn unmute_steps(c: u8, ws: Seq<Aw>, group_out: u32, group_in: u32) -> Seq<HdaStep>
    decreases ws.len(),
{
    if ws.len() == 0 {
        Seq::empty()
    } else {
        let w = ws.last();
        unmute_steps(c, ws.drop_last(), group_out, group_in) + unmute_payloads_spec(
            w.amp_out_caps,
            w.amp_in_caps,
            group_out,
            group_in,
            w.connections@.len() as int,
        ).map_values(|p: u16| HdaStep::Verb16 { codec: c, nid: w.nid, verb: SET_AMP, payload: p })
    }
}

/// Powers the nodes of each path and sets its pin's gain, output and
/// amplifier enable.
pub open spec fn path_steps(c: u8, paths: Seq<Wk>, out: u16, inp: u16) -> Seq<HdaStep>
    decreases paths.len(),
{
    if paths.len() == 0 {
        Seq::empty()
    } else {
        let p = paths.last();
        path_steps(c, paths.drop_last(), out, inp) + power_steps(c, p.path@) + seq![
            HdaStep::Verb16 { codec: c, nid: p.pin_nid, verb: SET_AMP, payload: out },
            HdaStep::Verb16 { codec: c, nid: p.pin_nid, verb: SET_AMP, payload: inp },
            HdaStep::Verb { codec: c, nid: p.pin_nid, verb: SET_PIN_CTL, data: 0xC0 },
            HdaStep::Verb { codec: c, nid: p.pin_nid, verb: SET_EAPD, data: 0x02 },
        ]
    }
}

/// Selects, along each path, the connection that leads to the next node.
pub open spec fn select_steps(c: u8, ws: Seq<Aw>, paths: Seq<Wk>) -> Seq<HdaStep>
    decreases paths.len(),
{
    if paths.len() == 0 {
        Seq::empty()
    } else {
        let p = paths.last();
        select_steps(c, ws, paths.drop_last()) + conn_selects_spec(ws, p.path@, p.path@.len() as int).map_values(
            |s: (u16, u8)| HdaStep::Verb { codec: c, nid: s.0, verb: SET_CONN_SEL, data: s.1 },
        )
    }
}

/// The extra power-up of codecs with quirks: the function group and every
/// widget powered with pauses between, the speaker pins enabled, a
/// coefficient for Analog Devices codecs, the group's amplifier gain and
/// GPIO 1 driven high.
pub open spec fn quirk_steps(c: u8, q: CodecQuirk, ws: Seq<Aw>) -> Seq<HdaStep> {
    if q == CodecQuirk::Plain {
        Seq::empty()
    } else {
        seq![HdaStep::Verb { codec: c, nid: 1, verb: SET_POWER, data: 0 }, HdaStep::Delay { us: 10_000 }]
            + power_steps(c, widget_nids(ws)) + seq![HdaStep::Delay { us: 100_000 }]
            + pin_enable_steps(c, speaker_pins_spec(ws))
            + (if q == CodecQuirk::AnalogDevices {
            seq![HdaStep::Verb16 { codec: c, nid: 1, verb: SET_COEF, payload: 0x0008 }]
        } else {
            Seq::empty()
        }) + seq![
            HdaStep::Verb16 { codec: c, nid: 1, verb: SET_AMP, payload: 0xB027 },
            HdaStep::Verb16 { codec: c, nid: 1, verb: SET_AMP, payload: 0x7027 },
            HdaStep::Verb { codec: c, nid: 1, verb: SET_GPIO_MASK, data: 0x02 },
            HdaStep::Verb { codec: c, nid: 1, verb: SET_GPIO_DIR, data: 0x02 },
            HdaStep::Verb { codec: c, nid: 1, verb: SET_GPIO_DATA, data: 0x02 },
        ]
    }
}

/// Gain of the path pins: the group's output steps, or 3.
pub open spec fn pin_gain(group_out: u32) -> int {
    if amp_steps(group_out) > 0 { amp_steps(group_out) } else { 3 }
}

/// Every step of the playback configuration, in the order they are sent.
pub open spec fn output_steps(
    c: u8,
    vendor: u32,
    ws: Seq<Aw>,
    paths: Seq<Wk>,
    stream_tag: u8,
    group_out: u32,
    group_in: u32,
) -> Seq<HdaStep> {
    let q = if vendor / 65536 == 0x11D4 {
        CodecQuirk::AnalogDevices
    } else if vendor / 65536 == 0x14F1 {
        CodecQuirk::Conexant
    } else {
        CodecQuirk::Plain
    };
    let g = pin_gain(group_out);
    power_steps(c, paths[0].path@) + quirk_steps(c, q, ws) + pin_enable_steps(c, seq![paths[0].pin_nid])
        + dac_steps(c, nids_of_type(ws, WidgetType::AudioOutput), ((stream_tag as int * 16) % 256) as u8)
        + seq![HdaStep::Delay { us: 5000 }] + unmute_steps(c, ws, group_out, group_in)
        + path_steps(c, paths, (0xB000 + g) as u16, (0x7000 + g) as u16) + select_steps(c, ws, paths)
}

fn push_power(out: &mut Vec<HdaStep>, c: u8, nids: &Vec<u16>)
    ensures
        final(out)@ == old(out)@ + power_steps(c, nids@),
{
    let ghost start = out@;
    let mut i: usize = 0;
    while i < nids.len()
        invariant
            i <= nids@.len(),
            out@ == start + power_steps(c, nids@.subrange(0, i as int)),
        decreases nids@.len() - i,
    {
        out.push(HdaStep::Verb { codec: c, nid: nids[i], verb: SET_POWER, data: 0 });
        i = i + 1;
        assert(out@ =~= start + power_steps(c, nids@.subrange(0, i as int)));
    }
    assert(nids@.subrange(0, nids@.len() as int) =~= nids@);
}

fn push_pin_enable(out: &mut Vec<HdaStep>, c: u8, pins: &Vec<u16>)
    ensures
        final(out)@ == old(out)@ + pin_enable_steps(c, pins@),
{
    let ghost start = out@;
    let mut i: usize = 0;
    assert(start + pin_enable_steps(c, pins@.subrange(0, 0)) =~= start);
    while i < pins.len()
        invariant
            i <= pins@.len(),
            out@ == start + pin_enable_steps(c, pins@.subrange(0, i as int)),
        decreases pins@.len() - i,
    {
        assert(pins@.subrange(0, i + 1).drop_last() =~= pins@.subrange(0, i as int));
        out.push(HdaStep::Verb { codec: c, nid: pins[i], verb: SET_PIN_CTL, data: 0xC0 });
        out.push(HdaStep::Verb { codec: c, nid: pins[i], verb: SET_EAPD, data: 0x02 });
        i = i + 1;
        assert(out@ =~= start + pin_enable_steps(c, pins@.subrange(0, i as int)));
    }
    assert(pins@.subrange(0, pins@.len() as int) =~= pins@);
}

fn push_dacs(out: &mut Vec<HdaStep>, c: u8, dacs: &Vec<u16>, tag_byte: u8)
    ensures
        final(out)@ == old(out)@ + dac_steps(c, dacs@, tag_byte),
{
    let ghost start = out@;
    let mut i: usize = 0;
    assert(start + dac_steps(c, dacs@.subrange(0, 0), tag_byte) =~= start);
    while i < dacs.len()
        invariant
            i <= dacs@.len(),
            out@ == start + dac_steps(c, dacs@.subrange(0, i as int), tag_byte),
        decreases dacs@.len() - i,
    {
        assert(dacs@.subrange(0, i + 1).drop_last() =~= dacs@.subrange(0, i as int));
        out.push(HdaStep::Verb { codec: c, nid: dacs[i], verb: SET_STREAM, data: tag_byte });
        out.push(HdaStep::Verb16 { codec: c, nid: dacs[i], verb: SET_FORMAT, payload: STREAM_FORMAT });
        i = i + 1;
        assert(out@ =~= start + dac_steps(c, dacs@.subrange(0, i as int), tag_byte));
    }
    assert(dacs@.subrange(0, dacs@.len() as int) =~= dacs@);
}

fn push_amp_payloads(out: &mut Vec<HdaStep>, c: u8, nid: u16, payloads: &Vec<u16>)
    ensures
        final(out)@ == old(out)@ + payloads@.map_values(|p: u16| HdaStep::Verb16 { codec: c, nid: nid, verb: SET_AMP, payload: p }),
{
    let ghost start = out@;
    let mut i: usize = 0;
    while i < payloads.len()
        invariant
            i <= payloads@.len(),
            out@ == start + payloads@.subrange(0, i as int).map_values(
                |p: u16| HdaStep::Verb16 { codec: c, nid: nid, verb: SET_AMP, payload: p },
            ),
        decreases payloads@.len() - i,
    {
        out.push(HdaStep::Verb16 { codec: c, nid: nid, verb: SET_AMP, payload: payloads[i] });
        i = i + 1;
        assert(out@ =~= start + payloads@.subrange(0, i as int).map_values(
            |p: u16| HdaStep::Verb16 { codec: c, nid: nid, verb: SET_AMP, payload: p },
        ));
    }
    assert(payloads@.subrange(0, payloads@.len() as int) =~= payloads@);
}

fn push_unmutes(out: &mut Vec<HdaStep>, c: u8, ws: &Vec<Aw>, group_out: u32, group_in: u32)
    ensures
        final(out)@ == old(out)@ + unmute_steps(c, ws@, group_out, group_in),
{
    let ghost start = out@;
    let mut i: usize = 0;
    assert(start + unmute_steps(c, ws@.subrange(0, 0), group_out, group_in) =~= start);
    while i < ws.len()
        invariant
            i <= ws@.len(),
            out@ == start + unmute_steps(c, ws@.subrange(0, i as int), group_out, group_in),
        decreases ws@.len() - i,
    {
        assert(ws@.subrange(0, i + 1).drop_last() =~= ws@.subrange(0, i as int));
        let w = &ws[i];
        let payloads = unmute_payloads(w.amp_out_caps, w.amp_in_caps, group_out, group_in, w.connections.len());
        push_amp_payloads(out, c, w.nid, &payloads);
        i = i + 1;
        assert(out@ =~= start + unmute_steps(c, ws@.subrange(0, i as int), group_out, group_in));
    }
    assert(ws@.subrange(0, ws@.len() as int) =~= ws@);
}

fn push_paths(out: &mut Vec<HdaStep>, c: u8, paths: &Vec<Wk>, o: u16, n: u16)
    ensures
        final(out)@ == old(out)@ + path_steps(c, paths@, o, n),
{
    let ghost start = out@;
    let mut i: usize = 0;
    assert(start + path_steps(c, paths@.subrange(0, 0), o, n) =~= start);
    while i < paths.len()
        invariant
            i <= paths@.len(),
            out@ == start + path_steps(c, paths@.subrange(0, i as int), o, n),
        decreases paths@.len() - i,
    {
        assert(paths@.subrange(0, i + 1).drop_last() =~= paths@.subrange(0, i as int));
        let p = &paths[i];
        push_power(out, c, &p.path);
        out.push(HdaStep::Verb16 { codec: c, nid: p.pin_nid, verb: SET_AMP, payload: o });
        out.push(HdaStep::Verb16 { codec: c, nid: p.pin_nid, verb: SET_AMP, payload: n });
        out.push(HdaStep::Verb { codec: c, nid: p.pin_nid, verb: SET_PIN_CTL, data: 0xC0 });
        out.push(HdaStep::Verb { codec: c, nid: p.pin_nid, verb: SET_EAPD, data: 0x02 });
        i = i + 1;
        assert(out@ =~= start + path_steps(c, paths@.subrange(0, i as int), o, n));
    }
    assert(paths@.subrange(0, paths@.len() as int) =~= paths@);
}

fn push_selects(out: &mut Vec<HdaStep>, c: u8, ws: &Vec<Aw>, paths: &Vec<Wk>)
    ensures
        final(out)@ == old(out)@ + select_steps(c, ws@, paths@),
{
    let ghost start = out@;
    let mut i: usize = 0;
    assert(start + select_steps(c, ws@, paths@.subrange(0, 0)) =~= start);
    while i < paths.len()
        invariant
            i <= paths@.len(),
            out@ == start + select_steps(c, ws@, paths@.subrange(0, i as int)),
        decreases paths@.len() - i,
    {
        assert(paths@.subrange(0, i + 1).drop_last() =~= paths@.subrange(0, i as int));
        let sels = conn_selects(ws, &paths[i].path);
        let ghost before = out@;
        let mut k: usize = 0;
        while k < sels.len()
            invariant
                k <= sels@.len(),
                out@ == before + sels@.subrange(0, k as int).map_values(
                    |s: (u16, u8)| HdaStep::Verb { codec: c, nid: s.0, verb: SET_CONN_SEL, data: s.1 },
                ),
            decreases sels@.len() - k,
        {
            out.push(HdaStep::Verb { codec: c, nid: sels[k].0, verb: SET_CONN_SEL, data: sels[k].1 });
            k = k + 1;
            assert(out@ =~= before + sels@.subrange(0, k as int).map_values(
                |s: (u16, u8)| HdaStep::Verb { codec: c, nid: s.0, verb: SET_CONN_SEL, data: s.1 },
            ));
        }
        assert(sels@.subrange(0, sels@.len() as int) =~= sels@);
        i = i + 1;
        assert(out@ =~= start + select_steps(c, ws@, paths@.subrange(0, i as int)));
    }
    assert(paths@.subrange(0, paths@.len() as int) =~= paths@);
}

fn push_quirks(out: &mut Vec<HdaStep>, codec: u8, q: CodecQuirk, widgets: &Vec<Aw>)
    ensures
        final(out)@ == old(out)@ + quirk_steps(codec, q, widgets@),
{
    let ghost s1 = out@;
    if q == CodecQuirk::Plain {
        assert(out@ =~= s1 + quirk_steps(codec, q, widgets@));
        return;
    }
    let mut all: Vec<u16> = Vec::new();
    let mut i: usize = 0;
    while i < widgets.len()
        invariant
            i <= widgets@.len(),
            all@ == widget_nids(widgets@.subrange(0, i as int)),
        decreases widgets@.len() - i,
    {
        all.push(widgets[i].nid);
        i = i + 1;
        assert(all@ =~= widget_nids(widgets@.subrange(0, i as int)));
    }
    assert(widgets@.subrange(0, widgets@.len() as int) =~= widgets@);
    let pins = speaker_pins(widgets);
    out.push(HdaStep::Verb { codec: codec, nid: 1, verb: SET_POWER, data: 0 });
    out.push(HdaStep::Delay { us: 10_000 });
    push_power(out, codec, &all);
    out.push(HdaStep::Delay { us: 100_000 });
    push_pin_enable(out, codec, &pins);
    if q == CodecQuirk::AnalogDevices {
        out.push(HdaStep::Verb16 { codec: codec, nid: 1, verb: SET_COEF, payload: 0x0008 });
    }
    out.push(HdaStep::Verb16 { codec: codec, nid: 1, verb: SET_AMP, payload: 0xB027 });
    out.push(HdaStep::Verb16 { codec: codec, nid: 1, verb: SET_AMP, payload: 0x7027 });
    out.push(HdaStep::Verb { codec: codec, nid: 1, verb: SET_GPIO_MASK, data: 0x02 });
    out.push(HdaStep::Verb { codec: codec, nid: 1, verb: SET_GPIO_DIR, data: 0x02 });
    out.push(HdaStep::Verb { codec: codec, nid: 1, verb: SET_GPIO_DATA, data: 0x02 });
    assert(out@ =~= s1 + quirk_steps(codec, q, widgets@));
}

/// The verbs that configure codec `codec` for playback on its first output
/// path, in the order they are sent: the path powered up, the quirks of
/// the codec's vendor, the path's pin enabled, every converter bound to
/// the stream, a pause, every amplifier unmuted, every path powered and
/// its pin set up, and the connection selects along every path.
/// Refused when there is no output path.
pub fn output_stream_plan(
    codec: u8,
    vendor: u32,
    widgets: &Vec<Aw>,
    paths: &Vec<Wk>,
    stream_tag: u8,
    afg_out: u32,
    afg_in: u32,
) -> (r: Result<Vec<HdaStep>, &'static str>)
    ensures
        paths@.len() == 0 <==> r == Err::<Vec<HdaStep>, &'static str>("HDA: no output paths to configure"),
        r matches Ok(v) ==> v@ == output_steps(codec, vendor, widgets@, paths@, stream_tag, afg_out, afg_in),
{
    if paths.len() == 0 {
        return Err("HDA: no output paths to configure");
    }
    let mut out: Vec<HdaStep> = Vec::new();
    let ghost s0 = out@;
    push_power(&mut out, codec, &paths[0].path);
    let ghost s1 = out@;
    let q = codec_quirk(vendor);
    push_quirks(&mut out, codec, q, widgets);
    assert(out@ =~= s1 + quirk_steps(codec, q, widgets@));
    let ghost s2 = out@;
    out.push(HdaStep::Verb { codec: codec, nid: paths[0].pin_nid, verb: SET_PIN_CTL, data: 0xC0 });
    out.push(HdaStep::Verb { codec: codec, nid: paths[0].pin_nid, verb: SET_EAPD, data: 0x02 });
    assert(seq![paths@[0].pin_nid].drop_last() =~= Seq::<u16>::empty());
    assert(pin_enable_steps(codec, Seq::<u16>::empty()) =~= Seq::<HdaStep>::empty());
    assert(seq![paths@[0].pin_nid].last() == paths@[0].pin_nid);
    assert(out@ =~= s2 + pin_enable_steps(codec, seq![paths@[0].pin_nid]));
    let dacs = widgets_of_type(widgets, WidgetType::AudioOutput);
    push_dacs(&mut out, codec, &dacs, stream_tag_byte(stream_tag));
    out.push(HdaStep::Delay { us: 5000 });
    push_unmutes(&mut out, codec, widgets, afg_out, afg_in);
    let g = path_pin_gain(afg_out);
    push_paths(&mut out, codec, paths, 0xB000 + g, 0x7000 + g);
    push_selects(&mut out, codec, widgets, paths);
    assert(out@ =~= output_steps(codec, vendor, widgets@, paths@, stream_tag, afg_out, afg_in));
    Ok(out)
}

/// What to ask a widget once its capabilities and connection-list length
/// are known: the offsets of the connection-list reads (short form only,
/// four entries per read), whether to read its pin configuration (pin
/// complexes) and its own output and input amplifier capabilities.
pub struct WidgetQueries {
    pub conn_offsets: Vec<u8>,
    pub pin_config: bool,
    pub amp_out: bool,
    pub amp_in: bool,
}

/// Number of connection-list reads for a connection-list-length reply.
pub open spec fn conn_reads(conn_len: u32) -> int {
    let len = conn_len % 128;
    let long_form = (conn_len / 128) % 2 == 1;
    if len == 0 || long_form { 0 } else { (len + 3) / 4 }
}

/// The widget queries that follow the capability and connection-length
/// replies.
pub fn widget_queries(caps: u32, conn_len: u32) -> (q: WidgetQueries)
    ensures
        q.conn_offsets@.len() == conn_reads(conn_len),
        forall|k: int| 0 <= k < q.conn_offsets@.len() ==> q.conn_offsets@[k] == 4 * k,
        q.pin_config == (spec_widget_type(caps) == WidgetType::PinComplex),
        q.amp_out == (has_amp(caps, true) && (caps / 8) % 2 == 1),
        q.amp_in == (has_amp(caps, false) && (caps / 8) % 2 == 1),
{
    let len = conn_len % 128;
    let long_form = (conn_len / 128) % 2 == 1;
    let mut offsets: Vec<u8> = Vec::new();
    if len > 0 && !long_form {
        let mut off: u32 = 0;
        while off < len
            invariant
                len < 128,
                off % 4 == 0,
                off <= len + 3,
                offsets@.len() == off / 4,
                forall|k: int| 0 <= k < offsets@.len() ==> offsets@[k] == 4 * k,
            decreases len + 4 - off,
        {
            offsets.push(off as u8);
            off = off + 4;
        }
        assert(offsets@.len() == (len + 3) / 4);
    }
    let t = WidgetType::lzc(caps);
    WidgetQueries {
        conn_offsets: offsets,
        pin_config: t == WidgetType::PinComplex,
        amp_out: needs_amp_query(caps, true),
        amp_in: needs_amp_query(caps, false),
    }
}

/// The connections that the first `n` connection-list replies name.
pub open spec fn conn_list(words: Seq<u32>, len: u16, n: int) -> Seq<u16>
    decreases n,
{
    if n <= 0 {
        Seq::empty()
    } else {
        conn_list(words, len, n - 1) + connection_entries_spec(words[n - 1], (4 * (n - 1)) as u8, len)
    }
}

/// The connections of a widget from its connection-list-length reply and
/// the connection-list replies read at offsets 0, 4, 8, ...: none for an
/// empty or long-form list.
pub open spec fn widget_connections(conn_len: u32, words: Seq<u32>) -> Seq<u16> {
    let n = if words.len() < conn_reads(conn_len) { words.len() as int } else { conn_reads(conn_len) };
    conn_list(words, (conn_len % 128) as u16, n)
}

/// A widget as discovery records it, from the replies to its queries: its
/// type from the capabilities, its connections, its pin configuration
/// (pin complexes only) and its amplifier capabilities (its own where it
/// overrides the function group's and they are not zero).
pub fn widget_from_replies(
    nid: u16,
    caps: u32,
    conn_len: u32,
    conn_words: &Vec<u32>,
    pin_cfg: u32,
    own_out: u32,
    own_in: u32,
    afg_out: u32,
    afg_in: u32,
) -> (w: Aw)
    ensures
        w.nid == nid,
        w.caps == caps,
        w.widget_type == spec_widget_type(caps),
        w.pin_config == (if spec_widget_type(caps) == WidgetType::PinComplex { pin_cfg } else { 0 }),
        w.connections@ == widget_connections(conn_len, conn_words@),
        w.amp_out_caps == (if !has_amp(caps, true) { 0 } else if (caps / 8) % 2 == 1 && own_out != 0 { own_out } else { afg_out }),
        w.amp_in_caps == (if !has_amp(caps, false) { 0 } else if (caps / 8) % 2 == 1 && own_in != 0 { own_in } else { afg_in }),
{
    let t = WidgetType::lzc(caps);
    let len = (conn_len % 128) as u16;
    let reads = if len == 0 || (conn_len / 128) % 2 == 1 { 0 } else { (len as usize + 3) / 4 };
    let n = if conn_words.len() < reads { conn_words.len() } else { reads };
    let mut connections: Vec<u16> = Vec::new();
    let mut k: usize = 0;
    while k < n
        invariant
            k <= n <= conn_words@.len(),
            n <= 32,
            connections@ == conn_list(conn_words@, len, k as int),
        decreases n - k,
    {
        let e = connection_entries(conn_words[k], (4 * k) as u8, len);
        connections.append(&mut e.clone());
        k = k + 1;
    }
    Aw {
        nid,
        widget_type: t,
        caps,
        pin_config: if t == WidgetType::PinComplex { pin_cfg } else { 0 },
        connections,
        amp_in_caps: amp_caps_for(caps, false, own_in, afg_in),
        amp_out_caps: amp_caps_for(caps, true, own_out, afg_out),
    }
}

/// What the controller knows of its codec graph: the codec addresses, the
/// widgets and the output paths.
pub struct CodecGraph {
    pub codecs: Vec<u8>,
    pub widgets: Vec<Aw>,
    pub paths: Vec<Wk>,
}

/// Amplifier steps of the first path's converter: bits 8..15 of its output
/// amplifier capabilities, 39 when the converter is not among the widgets.
pub open spec fn dac_amp_steps(g: CodecGraph) -> u16 {
    let i = widget_index(g.widgets@, g.paths@[0].dac_nid);
    if i >= 0 { ((g.widgets@[i].amp_out_caps >> 8) & 0x7F) as u16 } else { 39u16 }
}

/// Sets the gain on both amplifier sides of every node of a path.
pub open spec fn volume_steps(c: u8, path: Seq<u16>, gain: int) -> Seq<HdaStep>
    decreases path.len(),
{
    if path.len() == 0 {
        Seq::empty()
    } else {
        volume_steps(c, path.drop_last(), gain) + seq![
            HdaStep::Verb16 { codec: c, nid: path.last(), verb: SET_AMP, payload: (0xB000 + gain) as u16 },
            HdaStep::Verb16 { codec: c, nid: path.last(), verb: SET_AMP, payload: (0x7000 + gain) as u16 },
        ]
    }
}

} // verus!
