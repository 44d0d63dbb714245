//! xHCI device setup: control transfers on endpoint 0, the input contexts
//! of the Address Device and Configure Endpoint commands, and the device
//! and configuration descriptors a device returns.
use vstd::prelude::*;
use crate::util::le16;
use crate::xhci::{Jh, Trb};

verus! {

/// The eight-byte setup packet of a control transfer, as the parameter of
/// a Setup Stage TRB: request type, request, value, index and length, from
/// the lowest byte up.
pub open spec fn setup_packet(bm: u8, req: u8, value: u16, index: u16, length: u16) -> u64 {
    (bm as int + req as int * 0x100 + value as int * 0x1_0000 + index as int * 0x1_0000_0000 + length as int
        * 0x1_0000_0000_0000) as u64
}

/// Setup packet law: the fields of a setup packet can be read back from it.
pub proof fn law_setup_packet_fields(bm: u8, req: u8, value: u16, index: u16, length: u16)
    ensures
        setup_packet(bm, req, value, index, length) % 0x100 == bm,
        (setup_packet(bm, req, value, index, length) / 0x100) % 0x100 == req,
        (setup_packet(bm, req, value, index, length) / 0x1_0000) % 0x1_0000 == value,
        (setup_packet(bm, req, value, index, length) / 0x1_0000_0000) % 0x1_0000 == index,
        setup_packet(bm, req, value, index, length) / 0x1_0000_0000_0000 == length,
{
    let p = bm as int + req as int * 0x100 + value as int * 0x1_0000 + index as int * 0x1_0000_0000 + length as int
        * 0x1_0000_0000_0000;
    assert(0 <= p < 0x1_0000_0000_0000_0000);
    assert(setup_packet(bm, req, value, index, length) == p);
    let q1 = req as int + value as int * 0x100 + index as int * 0x100_0000 + length as int * 0x100_0000_0000;
    vstd::arithmetic::div_mod::lemma_fundamental_div_mod_converse(p, 0x100, q1, bm as int);
    assert(q1 % 0x100 == req) by {
        vstd::arithmetic::div_mod::lemma_fundamental_div_mod_converse(
            q1,
            0x100,
            value as int + index as int * 0x1_0000 + length as int * 0x1_0000_0000,
            req as int,
        );
    }
    assert(p / 0x1_0000 == value as int + index as int * 0x1_0000 + length as int * 0x1_0000_0000) by {
        vstd::arithmetic::div_mod::lemma_fundamental_div_mod_converse(
            p,
            0x1_0000,
            value as int + index as int * 0x1_0000 + length as int * 0x1_0000_0000,
            bm as int + req as int * 0x100,
        );
    }
    let q2 = value as int + index as int * 0x1_0000 + length as int * 0x1_0000_0000;
    assert(q2 % 0x1_0000 == value) by {
        vstd::arithmetic::div_mod::lemma_fundamental_div_mod_converse(
            q2,
            0x1_0000,
            index as int + length as int * 0x1_0000,
            value as int,
        );
    }
    assert(p / 0x1_0000_0000 == index as int + length as int * 0x1_0000) by {
        vstd::arithmetic::div_mod::lemma_fundamental_div_mod_converse(
            p,
            0x1_0000_0000,
            index as int + length as int * 0x1_0000,
            bm as int + req as int * 0x100 + value as int * 0x1_0000,
        );
    }
    let q3 = index as int + length as int * 0x1_0000;
    assert(q3 % 0x1_0000 == index) by {
        vstd::arithmetic::div_mod::lemma_fundamental_div_mod_converse(q3, 0x1_0000, length as int, index as int);
    }
    assert(p / 0x1_0000_0000_0000 == length) by {
        vstd::arithmetic::div_mod::lemma_fundamental_div_mod_converse(
            p,
            0x1_0000_0000_0000,
            length as int,
            bm as int + req as int * 0x100 + value as int * 0x1_0000 + index as int * 0x1_0000_0000,
        );
    }
}

fn setup_word(bm: u8, req: u8, value: u16, index: u16, length: u16) -> (w: u64)
    ensures
        w == setup_packet(bm, req, value, index, length),
{
    bm as u64 + (req as u64) * 0x100 + (value as u64) * 0x1_0000 + (index as u64) * 0x1_0000_0000 + (length as u64)
        * 0x1_0000_0000_0000
}

/// Control words: Setup Stage with immediate data (IDT, bit 6) and
/// transfer type IN (3 in bits 16..18) or no data; Data Stage reading (DIR,
/// bit 16); Status Stage interrupting on completion (IOC, bit 5), its
/// direction opposite to the data's.
pub const SETUP_IN_CONTROL: u32 = 0x30840;
pub const SETUP_NO_DATA_CONTROL: u32 = 0x840;
pub const DATA_IN_CONTROL: u32 = 0x10C00;
pub const STATUS_OUT_CONTROL: u32 = 0x1020;
pub const STATUS_IN_CONTROL: u32 = 0x11020;

/// The TRBs of a control read of `length` bytes into the buffer at
/// `buf_phys`: Setup, Data (only when something is read), Status.
pub fn control_in_trbs(bm: u8, req: u8, value: u16, index: u16, length: u16, buf_phys: u64) -> (v: Vec<Trb>)
    ensures
        v@.len() == (if length > 0 { 3int } else { 2int }),
        v@[0] == (Trb { parameter: setup_packet(bm, req, value, index, length), status: 8, control: SETUP_IN_CONTROL }),
        length > 0 ==> v@[1] == (Trb { parameter: buf_phys, status: length as u32, control: DATA_IN_CONTROL }),
        v@.last() == (Trb { parameter: 0, status: 0, control: STATUS_OUT_CONTROL }),
{
    let mut v: Vec<Trb> = Vec::new();
    v.push(Trb { parameter: setup_word(bm, req, value, index, length), status: 8, control: SETUP_IN_CONTROL });
    if length > 0 {
        v.push(Trb { parameter: buf_phys, status: length as u32, control: DATA_IN_CONTROL });
    }
    v.push(Trb { parameter: 0, status: 0, control: STATUS_OUT_CONTROL });
    v
}

/// The TRBs of a control request without data: Setup, then Status.
pub fn control_out_trbs(bm: u8, req: u8, value: u16, index: u16) -> (v: Vec<Trb>)
    ensures
        v@ == seq![
            Trb { parameter: setup_packet(bm, req, value, index, 0), status: 8, control: SETUP_NO_DATA_CONTROL },
            Trb { parameter: 0, status: 0, control: STATUS_IN_CONTROL },
        ],
{
    let mut v: Vec<Trb> = Vec::new();
    v.push(Trb { parameter: setup_word(bm, req, value, index, 0), status: 8, control: SETUP_NO_DATA_CONTROL });
    v.push(Trb { parameter: 0, status: 0, control: STATUS_IN_CONTROL });
    v
}

/// Root hub port speeds.
pub const SPEED_FULL: u8 = 1;
pub const SPEED_LOW: u8 = 2;
pub const SPEED_HIGH: u8 = 3;
pub const SPEED_SUPER: u8 = 4;

/// Largest packet of endpoint 0 before the device descriptor is read: 8 at
/// low and full speed, 64 at high speed, 512 at super speed, else 64.
pub open spec fn default_max_packet(speed: u8) -> u16 {
    if speed == SPEED_FULL || speed == SPEED_LOW {
        8
    } else if speed == SPEED_SUPER {
        512
    } else {
        64
    }
}

pub fn ep0_max_packet(speed: u8) -> (n: u16)
    ensures
        n == default_max_packet(speed),
{
    if speed == SPEED_FULL || speed == SPEED_LOW {
        8
    } else if speed == SPEED_SUPER {
        512
    } else {
        64
    }
}

/// Slot context word 0: the speed in bits 20.., the number of the last
/// valid context in bits 27...
pub open spec fn slot_dw0(speed: u8, entries: u8) -> u32 {
    ((speed as u32) << 20u32) | ((entries as u32) << 27u32)
}

/// Slot context word 1: the root hub port in bits 16...
pub open spec fn slot_dw1(port: u8) -> u32 {
    (port as u32) << 16u32
}

/// Endpoint context word 1: three retries (bits 1..3), the endpoint type
/// (bits 3..6) and the largest packet (bits 16..32).
pub open spec fn ep_dw1(ep_type: u32, max_packet: u16) -> u32 {
    (3u32 << 1u32) | (ep_type << 3u32) | ((max_packet as u32) << 16u32)
}

/// Endpoint types of endpoint context word 1.
pub const EP_TYPE_BULK_OUT: u32 = 2;
pub const EP_TYPE_CONTROL: u32 = 4;
pub const EP_TYPE_BULK_IN: u32 = 6;
pub const EP_TYPE_INTERRUPT_IN: u32 = 7;

/// What a command's input context holds: the add-context flags, the slot
/// context's first two words, and for each endpoint set up its device
/// context index with its words 0 and 1, its dequeue pointer (cycle bit
/// set) and word 4.
pub struct InputContext {
    pub add_flags: u32,
    pub slot_dw0: u32,
    pub slot_dw1: u32,
    pub endpoints: Vec<(u8, u32, u32, u64, u32)>,
}

fn dw0(speed: u8, entries: u8) -> (w: u32)
    ensures
        w == slot_dw0(speed, entries),
{
    ((speed as u32) << 20u32) | ((entries as u32) << 27u32)
}

fn dw1(ep_type: u32, max_packet: u16) -> (w: u32)
    ensures
        w == ep_dw1(ep_type, max_packet),
{
    (3u32 << 1u32) | (ep_type << 3u32) | ((max_packet as u32) << 16u32)
}

/// Input context of Address Device: slot and endpoint 0 added, one
/// context, endpoint 0 a control endpoint with the speed's default packet
/// size on the ring at `ring_phys`.
pub fn address_device_context(speed: u8, port: u8, ring_phys: u64) -> (c: InputContext)
    ensures
        c.add_flags == 3,
        c.slot_dw0 == slot_dw0(speed, 1),
        c.slot_dw1 == slot_dw1(port),
        c.endpoints@ == seq![(1u8, 0u32, ep_dw1(EP_TYPE_CONTROL, default_max_packet(speed)), ring_phys | 1, 8u32)],
{
    let mps = ep0_max_packet(speed);
    let mut eps: Vec<(u8, u32, u32, u64, u32)> = Vec::new();
    eps.push((1, 0, dw1(EP_TYPE_CONTROL, mps), ring_phys | 1, 8));
    InputContext { add_flags: 3, slot_dw0: dw0(speed, 1), slot_dw1: (port as u32) << 16u32, endpoints: eps }
}

/// Floor of the base-2 logarithm (0 for 0 and 1).
pub open spec fn log2_floor(v: nat) -> nat
    decreases v,
{
    if v <= 1 {
        0
    } else {
        1 + log2_floor(v / 2)
    }
}

/// Interval field of an interrupt endpoint from the descriptor's
/// bInterval (taken as at least 1): as is at high and super speed; at low
/// and full speed, where it counts frames, the exponent of the equivalent
/// number of 125 µs micro-frames, plus one.
pub open spec fn interval_field(speed: u8, binterval: u8) -> u32 {
    let b: nat = if binterval == 0 { 1 } else { binterval as nat };
    if speed == SPEED_HIGH || speed == SPEED_SUPER {
        b as u32
    } else {
        (log2_floor(b * 8) + 1) as u32
    }
}

proof fn lemma_log2_bound(v: nat)
    ensures
        log2_floor(v) <= v,
    decreases v,
{
    if v > 1 {
        lemma_log2_bound(v / 2);
    }
}

pub fn interrupt_interval(speed: u8, binterval: u8) -> (r: u32)
    ensures
        r == interval_field(speed, binterval),
{
    let b: u32 = if binterval == 0 { 1 } else { binterval as u32 };
    if speed == SPEED_HIGH || speed == SPEED_SUPER {
        return b;
    }
    let frames = b * 8;
    let mut log2: u32 = 0;
    let mut v: u32 = frames;
    proof { lemma_log2_bound(frames as nat); }
    while v > 1
        invariant
            log2 + log2_floor(v as nat) == log2_floor(frames as nat),
            log2_floor(frames as nat) <= frames,
            frames <= 255 * 8,
        decreases v,
    {
        v = v / 2;
        log2 = log2 + 1;
    }
    log2 + 1
}

/// Device context index of endpoint `ep_addr`: twice its number (the low
/// four bits), plus one for an IN endpoint.
pub open spec fn dci(ep_addr: u8, is_in: bool) -> u8 {
    ((ep_addr % 16) * 2 + if is_in { 1int } else { 0int }) as u8
}

/// Input context of Configure Endpoint for an interrupt IN endpoint:
/// slot and endpoint added, the endpoint's index the last valid context,
/// and the endpoint with its interval, packet size and ring.
pub fn interrupt_in_context(speed: u8, port: u8, ep_addr: u8, max_packet: u16, binterval: u8, ring_phys: u64) -> (c:
    InputContext)
    ensures
        c.add_flags == 1u32 | (1u32 << (dci(ep_addr, true) as u32)),
        c.slot_dw0 == slot_dw0(speed, dci(ep_addr, true)),
        c.slot_dw1 == slot_dw1(port),
        c.endpoints@ == seq![(
            dci(ep_addr, true),
            interval_field(speed, binterval) << 16u32,
            ep_dw1(EP_TYPE_INTERRUPT_IN, max_packet),
            ring_phys | 1,
            (max_packet as u32) | ((max_packet as u32) << 16u32),
        )],
{
    let n = ep_addr % 16;
    let d: u8 = n * 2 + 1;
    let ival = interrupt_interval(speed, binterval);
    let mut eps: Vec<(u8, u32, u32, u64, u32)> = Vec::new();
    eps.push((d, ival << 16u32, dw1(EP_TYPE_INTERRUPT_IN, max_packet), ring_phys | 1, (max_packet as u32) | ((
    max_packet as u32) << 16u32)));
    InputContext { add_flags: 1u32 | (1u32 << (d as u32)), slot_dw0: dw0(speed, d), slot_dw1: (port as u32) << 16u32, endpoints: eps }
}

/// Input context of Configure Endpoint for a bulk IN and a bulk OUT
/// endpoint, the larger index the last valid context.
pub fn bulk_context(
    speed: u8,
    port: u8,
    in_addr: u8,
    out_addr: u8,
    mps_in: u16,
    mps_out: u16,
    ring_in: u64,
    ring_out: u64,
) -> (c: InputContext)
    ensures
        c.add_flags == 1u32 | (1u32 << (dci(in_addr, true) as u32)) | (1u32 << (dci(out_addr, false) as u32)),
        c.slot_dw0 == slot_dw0(
            speed,
            if dci(in_addr, true) >= dci(out_addr, false) { dci(in_addr, true) } else { dci(out_addr, false) },
        ),
        c.slot_dw1 == slot_dw1(port),
        c.endpoints@ == seq![
            (dci(in_addr, true), 0u32, ep_dw1(EP_TYPE_BULK_IN, mps_in), ring_in | 1, mps_in as u32),
            (dci(out_addr, false), 0u32, ep_dw1(EP_TYPE_BULK_OUT, mps_out), ring_out | 1, mps_out as u32),
        ],
{
    let di: u8 = (in_addr % 16) * 2 + 1;
    let dout: u8 = (out_addr % 16) * 2;
    let last = if di >= dout { di } else { dout };
    let mut eps: Vec<(u8, u32, u32, u64, u32)> = Vec::new();
    eps.push((di, 0, dw1(EP_TYPE_BULK_IN, mps_in), ring_in | 1, mps_in as u32));
    eps.push((dout, 0, dw1(EP_TYPE_BULK_OUT, mps_out), ring_out | 1, mps_out as u32));
    InputContext {
        add_flags: 1u32 | (1u32 << (di as u32)) | (1u32 << (dout as u32)),
        slot_dw0: dw0(speed, last),
        slot_dw1: (port as u32) << 16u32,
        endpoints: eps,
    }
}

/// Takes the fields of an 18-byte device descriptor into a device record:
/// class, subclass and protocol (bytes 4..7), endpoint 0's packet size
/// (byte 7), vendor and product ids (bytes 8 and 10, little endian) and
/// the number of configurations (byte 17).
pub fn apply_device_descriptor(d: &mut Jh, buf: &[u8])
    requires
        buf@.len() >= 18,
    ensures
        final(d).class == buf@[4],
        final(d).subclass == buf@[5],
        final(d).protocol == buf@[6],
        final(d).max_packet_size == buf@[7] as u16,
        final(d).vendor_id == le16(buf@, 8),
        final(d).product_id == le16(buf@, 10),
        final(d).num_configs == buf@[17],
        final(d).slot_id == old(d).slot_id,
        final(d).port == old(d).port,
        final(d).speed == old(d).speed,
        final(d).manufacturer@ == old(d).manufacturer@,
        final(d).product@ == old(d).product@,
{
    d.class = buf[4];
    d.subclass = buf[5];
    d.protocol = buf[6];
    d.max_packet_size = buf[7] as u16;
    d.vendor_id = crate::util::read_le16(buf, 8);
    d.product_id = crate::util::read_le16(buf, 10);
    d.num_configs = buf[17];
}

/// Descriptor types.
pub const DESC_INTERFACE: u8 = 4;
pub const DESC_ENDPOINT: u8 = 5;

/// An endpoint worth driving: its interface's class, number, subclass and
/// protocol, then the endpoint's address, packet size and interval.
pub type EndpointInfo = (u8, u8, u8, u8, u8, u16, u8);

/// Walks the descriptors of a configuration from offset `off` while a
/// descriptor header lies below `total`, with `cur` the interface seen
/// last (class, number, subclass, protocol): an endpoint is kept when it is
/// an interrupt IN endpoint of a HID interface or a bulk endpoint of a
/// mass-storage interface.  A zero length ends the walk.
pub open spec fn config_walk(
    d: Seq<u8>,
    off: int,
    total: int,
    cur: (u8, u8, u8, u8),
    acc: Seq<EndpointInfo>,
) -> Seq<EndpointInfo>
    decreases (if off < total { total - off } else { 0 }),
{
    if off < 0 || off + 1 >= total || d[off] == 0 {
        acc
    } else {
        let len = d[off] as int;
        let ty = d[off + 1];
        if ty == DESC_INTERFACE && len >= 9 {
            config_walk(d, off + len, total, (d[off + 5], d[off + 2], d[off + 6], d[off + 7]), acc)
        } else if ty == DESC_ENDPOINT && len >= 7 {
            let ep = d[off + 2];
            let kind = d[off + 3] % 4;
            let keep = (cur.0 == 3 && kind == 3 && ep >= 0x80) || (cur.0 == 8 && kind == 2);
            let info: EndpointInfo = (cur.0, cur.1, cur.2, cur.3, ep, (le16(d, off + 4) % 0x800) as u16, d[off + 6]);
            config_walk(d, off + len, total, cur, if keep { acc.push(info) } else { acc })
        } else {
            config_walk(d, off + len, total, cur, acc)
        }
    }
}

/// The configuration value (byte 5) and the endpoints worth driving of a
/// configuration descriptor set of `total` bytes (`desc` holds at least
/// eight bytes more, as the walk reads a descriptor's fields whole).
pub fn parse_config_descriptor(desc: &[u8], total: usize) -> (r: (u8, Vec<EndpointInfo>))
    requires
        total <= 4096,
        total + 8 <= desc@.len(),
    ensures
        r.0 == desc@[5],
        r.1@ == config_walk(desc@, 0, total as int, (0u8, 0u8, 0u8, 0u8), Seq::empty()),
{
    let mut v: Vec<EndpointInfo> = Vec::new();
    let mut cur: (u8, u8, u8, u8) = (0, 0, 0, 0);
    let mut off: usize = 0;
    while off + 1 < total
        invariant_except_break
            total <= 4096,
            total + 8 <= desc@.len(),
            off <= total + 255,
            config_walk(desc@, off as int, total as int, cur, v@) == config_walk(
                desc@,
                0,
                total as int,
                (0u8, 0u8, 0u8, 0u8),
                Seq::empty(),
            ),
        ensures
            v@ == config_walk(desc@, 0, total as int, (0u8, 0u8, 0u8, 0u8), Seq::empty()),
        decreases total + 256 - off,
    {
        let len = desc[off] as usize;
        if len == 0 {
            break;
        }
        let ty = desc[off + 1];
        if ty == DESC_INTERFACE && len >= 9 {
            cur = (desc[off + 5], desc[off + 2], desc[off + 6], desc[off + 7]);
        } else if ty == DESC_ENDPOINT && len >= 7 {
            let ep = desc[off + 2];
            let kind = desc[off + 3] % 4;
            let mps = crate::util::read_le16(desc, off + 4) % 0x800;
            if (cur.0 == 3 && kind == 3 && ep >= 0x80) || (cur.0 == 8 && kind == 2) {
                v.push((cur.0, cur.1, cur.2, cur.3, ep, mps, desc[off + 6]));
            }
        }
        off = off + len;
    }
    (desc[5], v)
}

} // verus!
