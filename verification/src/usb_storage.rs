//! USB mass storage (bulk-only transport): command and status wrappers,
//! SCSI command blocks, and the bookkeeping of attached devices.
use vstd::prelude::*;
use crate::util::{le32, be32, read_le32, read_be32};

verus! {

/// Mass storage interface class.
pub const DDK_: u8 = 0x08;
/// SCSI transparent command set subclass.
pub const DDS_: u8 = 0x06;
/// Bulk-only transport protocol.
pub const DDO_: u8 = 0x50;
/// "USBC": command block wrapper signature.
pub const BOP_: u32 = 0x43425355;
/// "USBS": command status wrapper signature.
pub const BTA_: u32 = 0x53425355;
/// Transfer direction flags.
pub const APW_: u8 = 0x00;
pub const BOO_: u8 = 0x80;
/// Command status: passed.
pub const KN_: u8 = 0x00;
/// SCSI operation codes.
pub const CUN_: u8 = 0x00;
pub const CUM_: u8 = 0x03;
pub const CUJ_: u8 = 0x12;
pub const CUL_: u8 = 0x25;
pub const CUK_: u8 = 0x28;
pub const CUO_: u8 = 0x2A;
/// Bytes per sector when the device does not say otherwise.
pub const H_: usize = 512;
/// Most blocks moved by one SCSI command.
pub const BCE_: usize = 128;

/// Command block wrapper.
#[derive(Clone, Copy)]
pub struct Cbw {
    pub signature: u32,
    pub tag: u32,
    pub data_transfer_length: u32,
    pub flags: u8,
    pub lun: u8,
    pub cb_length: u8,
    pub cb: [u8; 16],
}

impl Cbw {
    /// A wrapper for command block `cmd` (at most 16 bytes are kept).
    pub fn new(tag: u32, bjr: u32, it: u8, lun: u8, cmd: &[u8]) -> (c: Self)
        ensures
            c.signature == BOP_,
            c.tag == tag,
            c.data_transfer_length == bjr,
            c.flags == it,
            c.lun == lun,
            c.cb_length == (if cmd@.len() < 16 { cmd@.len() } else { 16 }),
            forall|i: int| 0 <= i < 16 ==> #[trigger] c.cb@[i] == (if i < c.cb_length { cmd@[i] } else { 0u8 }),
    {
        let mut cb = [0u8; 16];
        let len: usize = if cmd.len() < 16 { cmd.len() } else { 16 };
        let mut i: usize = 0;
        while i < len
            invariant
                i <= len <= 16,
                len <= cmd@.len(),
                cb@.len() == 16,
                forall|j: int| 0 <= j < 16 ==> #[trigger] cb@[j] == (if j < i { cmd@[j] } else { 0u8 }),
            decreases len - i,
        {
            cb[i] = cmd[i];
            i = i + 1;
        }
        Self { signature: BOP_, tag, data_transfer_length: bjr, flags: it, lun, cb_length: len as u8, cb }
    }

    /// The 31 bytes of the wrapper as sent on the wire (little-endian fields).
    pub fn as_bytes(&self) -> (b: Vec<u8>)
        ensures
            b@.len() == 31,
            le32(b@, 0) == self.signature,
            le32(b@, 4) == self.tag,
            le32(b@, 8) == self.data_transfer_length,
            b@[12] == self.flags,
            b@[13] == self.lun,
            b@[14] == self.cb_length,
            b@.subrange(15, 31) == self.cb@,
    {
        let mut b: Vec<u8> = Vec::new();
        push_le32(&mut b, self.signature);
        let ghost s1 = b@;
        push_le32(&mut b, self.tag);
        let ghost s2 = b@;
        push_le32(&mut b, self.data_transfer_length);
        let ghost s3 = b@;
        b.push(self.flags);
        b.push(self.lun);
        b.push(self.cb_length);
        let ghost head = b@;
        assert(head.subrange(0, 12) =~= s3);
        assert(s3.subrange(0, 8) =~= s2);
        assert(s2.subrange(0, 4) =~= s1);
        assert(le32(head, 0) == le32(s1, 0)) by {
            assert(head[0] == s1[0] && head[1] == s1[1] && head[2] == s1[2] && head[3] == s1[3]);
        }
        assert(le32(head, 4) == le32(s2, 4)) by {
            assert(head[4] == s2[4] && head[5] == s2[5] && head[6] == s2[6] && head[7] == s2[7]);
        }
        assert(le32(head, 8) == le32(s3, 8));
        let mut i: usize = 0;
        while i < 16
            invariant
                i <= 16,
                self.cb@.len() == 16,
                b@.len() == 15 + i,
                b@.subrange(0, 15) == head,
                forall|j: int| 0 <= j < i ==> #[trigger] b@[15 + j] == self.cb@[j],
            decreases 16 - i,
        {
            b.push(self.cb[i]);
            i = i + 1;
            assert(b@.subrange(0, 15) =~= head);
        }
        assert forall|k: int| 0 <= k < 16 implies b@.subrange(15, 31)[k] == self.cb@[k] by {
            assert(b@[15 + k] == self.cb@[k]);
        }
        assert(b@.subrange(15, 31) =~= self.cb@);
        assert(b@[0] == head[0] && b@[1] == head[1] && b@[2] == head[2] && b@[3] == head[3]);
        assert(b@[4] == head[4] && b@[5] == head[5] && b@[6] == head[6] && b@[7] == head[7]);
        assert(b@[8] == head[8] && b@[9] == head[9] && b@[10] == head[10] && b@[11] == head[11]);
        assert(b@[12] == head[12] && b@[13] == head[13] && b@[14] == head[14]);
        b
    }
}

/// Appends a 32-bit value, little-endian.
pub fn push_le32(b: &mut Vec<u8>, v: u32)
    ensures
        final(b)@.len() == old(b)@.len() + 4,
        final(b)@.subrange(0, old(b)@.len() as int) == old(b)@,
        le32(final(b)@, old(b)@.len() as int) == v,
{
    let ghost start = b@;
    let b0 = (v % 0x100) as u8;
    let b1 = ((v / 0x100) % 0x100) as u8;
    let b2 = ((v / 0x10000) % 0x100) as u8;
    let b3 = (v / 0x1000000) as u8;
    assert(b0 + b1 * 0x100 + (b2 + b3 * 0x100) * 0x10000 == v) by (nonlinear_arith)
        requires b0 == v % 0x100, b1 == (v / 0x100) % 0x100, b2 == (v / 0x10000) % 0x100, b3 == v / 0x1000000, v <= 0xFFFF_FFFF;
    b.push(b0);
    b.push(b1);
    b.push(b2);
    b.push(b3);
    assert(b@.subrange(0, start.len() as int) =~= start);
    assert(b@[start.len() as int] == b0);
}

/// Command status wrapper.
#[derive(Clone, Copy)]
pub struct Csw {
    pub signature: u32,
    pub tag: u32,
    pub data_residue: u32,
    pub status: u8,
}

impl Csw {
    /// Decodes a status wrapper: at least 13 bytes with the "USBS" signature.
    pub fn bsv(data: &[u8]) -> (r: Option<Self>)
        ensures
            r is Some <==> data@.len() >= 13 && le32(data@, 0) == BTA_,
            r matches Some(c) ==> c.signature == BTA_ && c.tag == le32(data@, 4)
                && c.data_residue == le32(data@, 8) && c.status == data@[12],
    {
        if data.len() < 13 {
            return None;
        }
        let sig = read_le32(data, 0);
        if sig != BTA_ {
            return None;
        }
        Some(Self {
            signature: sig,
            tag: read_le32(data, 4),
            data_residue: read_le32(data, 8),
            status: data[12],
        })
    }
}

/// A wrapper's tag, signature and length as read back from its bytes are
/// those it was built with.
pub proof fn law_cbw_bytes_carry_fields(c: Cbw, b: Seq<u8>)
    requires
        b.len() == 31,
        le32(b, 0) == c.signature,
        le32(b, 4) == c.tag,
        le32(b, 8) == c.data_transfer_length,
    ensures
        le32(b, 0) == BOP_ ==> c.signature == BOP_,
        le32(b, 4) == c.tag,
{
}

/// SCSI READ(10) command block for `count` blocks from `lba`.
pub fn read10_cdb(hb: u32, count: u16) -> (cmd: [u8; 10])
    ensures
        cmd@ == seq![CUK_, 0u8, (hb / 0x1000000) as u8, ((hb / 0x10000) % 0x100) as u8,
            ((hb / 0x100) % 0x100) as u8, (hb % 0x100) as u8, 0u8, (count / 0x100) as u8, (count % 0x100) as u8, 0u8],
{
    let c = [CUK_, 0, (hb / 0x1000000) as u8, ((hb / 0x10000) % 0x100) as u8, ((hb / 0x100) % 0x100) as u8,
        (hb % 0x100) as u8, 0, (count / 0x100) as u8, (count % 0x100) as u8, 0];
    assert(c@ =~= seq![CUK_, 0u8, (hb / 0x1000000) as u8, ((hb / 0x10000) % 0x100) as u8,
            ((hb / 0x100) % 0x100) as u8, (hb % 0x100) as u8, 0u8, (count / 0x100) as u8, (count % 0x100) as u8, 0u8]);
    c
}

/// SCSI WRITE(10) command block for `count` blocks from `lba`.
pub fn write10_cdb(hb: u32, count: u16) -> (cmd: [u8; 10])
    ensures
        cmd@ == seq![CUO_, 0u8, (hb / 0x1000000) as u8, ((hb / 0x10000) % 0x100) as u8,
            ((hb / 0x100) % 0x100) as u8, (hb % 0x100) as u8, 0u8, (count / 0x100) as u8, (count % 0x100) as u8, 0u8],
{
    let c = [CUO_, 0, (hb / 0x1000000) as u8, ((hb / 0x10000) % 0x100) as u8, ((hb / 0x100) % 0x100) as u8,
        (hb % 0x100) as u8, 0, (count / 0x100) as u8, (count % 0x100) as u8, 0];
    assert(c@ =~= seq![CUO_, 0u8, (hb / 0x1000000) as u8, ((hb / 0x10000) % 0x100) as u8,
            ((hb / 0x100) % 0x100) as u8, (hb % 0x100) as u8, 0u8, (count / 0x100) as u8, (count % 0x100) as u8, 0u8]);
    c
}

/// Block address and block count that a READ(10) command block names.
pub open spec fn cdb10_fields(cmd: Seq<u8>) -> (int, int) {
    (be32(cmd, 2), cmd[7] * 0x100 + cmd[8])
}

/// A READ(10) command block names the blocks it was built for.
pub proof fn law_read10_roundtrip(hb: u32, count: u16, cmd: Seq<u8>)
    requires
        cmd == seq![CUK_, 0u8, (hb / 0x1000000) as u8, ((hb / 0x10000) % 0x100) as u8,
            ((hb / 0x100) % 0x100) as u8, (hb % 0x100) as u8, 0u8, (count / 0x100) as u8, (count % 0x100) as u8, 0u8],
    ensures
        cdb10_fields(cmd) == (hb as int, count as int),
{
}

/// INQUIRY (36 bytes of answer).
pub fn inquiry_cdb() -> (c: [u8; 6])
    ensures
        c@ == seq![CUJ_, 0u8, 0, 0, 36, 0],
{
    let c = [CUJ_, 0, 0, 0, 36, 0];
    assert(c@ =~= seq![CUJ_, 0u8, 0, 0, 36, 0]);
    c
}

/// TEST UNIT READY.
pub fn test_unit_ready_cdb() -> (c: [u8; 6])
    ensures
        c@ == seq![CUN_, 0u8, 0, 0, 0, 0],
{
    let c = [CUN_, 0, 0, 0, 0, 0];
    assert(c@ =~= seq![CUN_, 0u8, 0, 0, 0, 0]);
    c
}

/// REQUEST SENSE (18 bytes of answer).
pub fn request_sense_cdb() -> (c: [u8; 6])
    ensures
        c@ == seq![CUM_, 0u8, 0, 0, 18, 0],
{
    let c = [CUM_, 0, 0, 0, 18, 0];
    assert(c@ =~= seq![CUM_, 0u8, 0, 0, 18, 0]);
    c
}

/// READ CAPACITY(10).
pub fn read_capacity_cdb() -> (c: [u8; 10])
    ensures
        c@ == seq![CUL_, 0u8, 0, 0, 0, 0, 0, 0, 0, 0],
{
    let c = [CUL_, 0, 0, 0, 0, 0, 0, 0, 0, 0];
    assert(c@ =~= seq![CUL_, 0u8, 0, 0, 0, 0, 0, 0, 0, 0]);
    c
}

/// Block count (last block address plus one) and block size from a READ
/// CAPACITY(10) answer.
pub fn parse_capacity(buf: &[u8]) -> (r: (u64, u32))
    requires
        buf@.len() >= 8,
    ensures
        r.0 == be32(buf@, 0) + 1,
        r.1 == be32(buf@, 4),
{
    let last = read_be32(buf, 0);
    let size = read_be32(buf, 4);
    (last as u64 + 1, size)
}

/// Sense key, additional sense code and qualifier from a REQUEST SENSE answer.
pub fn parse_sense(buf: &[u8]) -> (r: (u8, u8, u8))
    requires
        buf@.len() >= 18,
    ensures
        r == (buf@[2] & 0x0F, buf@[12], buf@[13]),
{
    (buf[2] & 0x0F, buf[12], buf[13])
}

/// Whether an interface is USB mass storage over SCSI bulk-only transport.
pub fn iib(class: u8, subclass: u8, protocol: u8) -> (r: bool)
    ensures
        r == (class == DDK_ && subclass == DDS_ && protocol == DDO_),
{
    class == DDK_ && subclass == DDS_ && protocol == DDO_
}

/// Device context indices of the bulk endpoints: IN is number * 2 + 1,
/// OUT is number * 2.
pub fn bulk_dcis(bulk_in_ep: u8, bulk_out_ep: u8) -> (r: (u8, u8))
    ensures
        r.0 == (bulk_in_ep % 16) * 2 + 1,
        r.1 == (bulk_out_ep % 16) * 2,
{
    let kfz = bulk_in_ep & 0x0F;
    let kgb = bulk_out_ep & 0x0F;
    assert(kfz == bulk_in_ep % 16) by (bit_vector) requires kfz == bulk_in_ep & 0x0F;
    assert(kgb == bulk_out_ep % 16) by (bit_vector) requires kgb == bulk_out_ep & 0x0F;
    (kfz * 2 + 1, kgb * 2)
}

/// An attached mass storage device.
#[derive(Clone)]
pub struct Gc {
    pub slot_id: u8,
    pub lun: u8,
    pub bulk_in_dci: u8,
    pub bulk_out_dci: u8,
    pub max_packet_in: u16,
    pub max_packet_out: u16,
    pub block_count: u64,
    pub block_size: u32,
    pub vendor: String,
    pub product: String,
    pub ready: bool,
}

/// A device as first set up, before INQUIRY and READ CAPACITY fill it in.
pub fn mpb(slot_id: u8, bulk_in_ep: u8, bulk_out_ep: u8, max_packet_in: u16, max_packet_out: u16) -> (g: Gc)
    ensures
        g.slot_id == slot_id,
        g.lun == 0,
        g.bulk_in_dci == (bulk_in_ep % 16) * 2 + 1,
        g.bulk_out_dci == (bulk_out_ep % 16) * 2,
        g.max_packet_in == max_packet_in,
        g.max_packet_out == max_packet_out,
        g.block_count == 0,
        g.block_size == 512,
        g.vendor@ == Seq::<char>::empty(),
        g.product@ == Seq::<char>::empty(),
        !g.ready,
{
    let (bulk_in_dci, bulk_out_dci) = bulk_dcis(bulk_in_ep, bulk_out_ep);
    Gc {
        slot_id,
        lun: 0,
        bulk_in_dci,
        bulk_out_dci,
        max_packet_in,
        max_packet_out,
        block_count: 0,
        block_size: H_ as u32,
        vendor: String::new(),
        product: String::new(),
        ready: false,
    }
}

/// The attached devices.
pub struct StorageState {
    pub devices: Vec<Gc>,
    pub initialized: bool,
    /// Tag of the next command.
    pub next_tag: u32,
}

impl StorageState {
    pub fn new() -> (s: Self)
        ensures
            s.devices@.len() == 0,
            !s.initialized,
            s.next_tag == 1,
    {
        StorageState { devices: Vec::new(), initialized: false, next_tag: 1 }
    }
}

/// Takes the tag for the next command (tags wrap around).
pub fn nkh(st: &mut StorageState) -> (tag: u32)
    ensures
        tag == old(st).next_tag,
        final(st).next_tag == old(st).next_tag.wrapping_add(1),
        final(st).devices@ == old(st).devices@,
        final(st).initialized == old(st).initialized,
{
    let t = st.next_tag;
    st.next_tag = t.wrapping_add(1);
    t
}

/// Records a device that has been set up.
pub fn add_device(st: &mut StorageState, g: Gc)
    ensures
        final(st).devices@ == old(st).devices@.push(g),
        final(st).initialized,
        final(st).next_tag == old(st).next_tag,
{
    st.devices.push(g);
    st.initialized = true;
}

/// Whether a mass storage device has been set up.
pub fn sw(st: &StorageState) -> (r: bool)
    ensures
        r == st.initialized,
{
    st.initialized
}

/// Number of devices.
pub fn aqg(st: &StorageState) -> (r: usize)
    ensures
        r == st.devices@.len(),
{
    st.devices.len()
}

/// A block device handle on device `device_index`.
pub struct UsbBlockDevice {
    pub device_index: usize,
}

impl UsbBlockDevice {
    pub fn new(device_index: usize) -> (d: Self)
        ensures
            d.device_index == device_index,
    {
        Self { device_index }
    }
}

/// A block device handle on a ready device.
pub fn ibh(st: &StorageState, device_index: usize) -> (r: Option<UsbBlockDevice>)
    ensures
        r is Some <==> device_index < st.devices@.len() && st.devices@[device_index as int].ready,
        r matches Some(d) ==> d.device_index == device_index,
{
    if device_index < st.devices.len() && st.devices[device_index].ready {
        Some(UsbBlockDevice::new(device_index))
    } else {
        None
    }
}

/// Checks a transfer of `count` blocks against device `device_index` and a
/// buffer of `buf_len` bytes; returns the block size.
pub fn check_transfer(st: &StorageState, device_index: usize, count: usize, buf_len: usize) -> (r: Result<u32, &'static str>)
    ensures
        device_index >= st.devices@.len() ==> r == Err::<u32, &'static str>("Invalid device index"),
        device_index < st.devices@.len() && !st.devices@[device_index as int].ready ==> r == Err::<u32, &'static str>("Device not ready"),
        device_index < st.devices@.len() && st.devices@[device_index as int].ready ==> (
            if (buf_len as int) < (count as int) * st.devices@[device_index as int].block_size {
                r == Err::<u32, &'static str>("Buffer too small")
            } else {
                r == Ok::<u32, &'static str>(st.devices@[device_index as int].block_size)
            }),
{
    if device_index >= st.devices.len() {
        return Err("Invalid device index");
    }
    let s = &st.devices[device_index];
    if !s.ready {
        return Err("Device not ready");
    }
    let block_size = s.block_size as u128;
    assert((count as u128) * block_size <= 0xFFFF_FFFF_FFFF_FFFF * 0xFFFF_FFFF) by (nonlinear_arith)
        requires count <= 0xFFFF_FFFF_FFFF_FFFF, block_size <= 0xFFFF_FFFF;
    if (buf_len as u128) < (count as u128) * block_size {
        return Err("Buffer too small");
    }
    Ok(s.block_size)
}

/// A transfer that `check_transfer` lets through: the device exists, is
/// ready, and the buffer holds `count` of its blocks.
pub open spec fn transfer_accepted(st: &StorageState, device_index: usize, count: usize, buf_len: usize) -> bool {
    &&& device_index < st.devices@.len()
    &&& st.devices@[device_index as int].ready
    &&& (buf_len as int) >= (count as int) * st.devices@[device_index as int].block_size
}

/// The SCSI commands of a transfer: (block address, blocks, byte offset in
/// the buffer) for runs of at most 128 blocks, from `start` on.
pub open spec fn transfer_chunks(start: int, count: int, block_size: int, done: int) -> Seq<(u32, u16, usize)>
    decreases count - done,
{
    if done >= count || done < 0 {
        Seq::empty()
    } else {
        let n = if count - done < 128 { count - done } else { 128 };
        seq![((start + done) as u32, n as u16, (done * block_size) as usize)] + transfer_chunks(start, count, block_size, done + n)
    }
}

/// Splits a transfer of `count` blocks from block `start_lba` (taken modulo
/// 2^32) into READ(10)/WRITE(10) commands of at most 128 blocks.
pub fn transfer_plan(start_lba: u64, count: usize, block_size: u32) -> (plan: Vec<(u32, u16, usize)>)
    requires
        (start_lba as u32) + count <= u32::MAX,
        count * block_size <= usize::MAX,
    ensures
        plan@ == transfer_chunks((start_lba as u32) as int, count as int, block_size as int, 0),
{
    let mut plan: Vec<(u32, u16, usize)> = Vec::new();
    let mut hb: u32 = start_lba as u32;
    let mut offset: usize = 0;
    let mut ck: usize = count;
    let ghost start = (start_lba as u32) as int;
    while ck > 0
        invariant
            ck <= count,
            hb == start + (count - ck),
            start + count <= u32::MAX,
            offset == (count - ck) * block_size,
            count * block_size <= usize::MAX,
            plan@ + transfer_chunks(start, count as int, block_size as int, (count - ck) as int)
                == transfer_chunks(start, count as int, block_size as int, 0),
        decreases ck,
    {
        let df: usize = if ck < BCE_ { ck } else { BCE_ };
        assert((count - ck + df) * block_size <= count * block_size) by (nonlinear_arith)
            requires count - ck + df <= count, block_size >= 0;
        assert(df * block_size <= (count - ck + df) * block_size) by (nonlinear_arith)
            requires count - ck >= 0, block_size >= 0;
        let nb = df * block_size as usize;
        assert((count - ck) * block_size + df * block_size == (count - ck + df) * block_size) by (nonlinear_arith);
        let ghost before = plan@;
        plan.push((hb, df as u16, offset));
        assert(plan@ + transfer_chunks(start, count as int, block_size as int, (count - ck + df) as int)
            =~= before + transfer_chunks(start, count as int, block_size as int, (count - ck) as int));
        hb = hb + df as u32;
        offset = offset + nb;
        ck = ck - df;
    }
    assert(plan@ + Seq::<(u32, u16, usize)>::empty() =~= plan@);
    plan
}

} // verus!

verus! {

/// Text of an INQUIRY field: its bytes decoded as UTF-8 ("Unknown" when
/// they are not UTF-8), trimmed of surrounding white space.
pub open spec fn inquiry_text(b: Seq<u8>, decoded: Option<Seq<char>>) -> Seq<char> {
    match decoded {
        Some(cs) => crate::util::trim(cs),
        None => crate::util::trim("Unknown"@),
    }
}

/// Vendor and product strings from an INQUIRY answer (bytes 8..16 and 16..32).
pub fn parse_inquiry(buf: &[u8]) -> (r: (String, String))
    requires
        buf@.len() >= 36,
    ensures
        (exists|cs: Seq<char>| vstd::utf8::encode_utf8(cs) == buf@.subrange(8, 16))
            ==> exists|cs: Seq<char>| vstd::utf8::encode_utf8(cs) == buf@.subrange(8, 16) && r.0@ == crate::util::trim(cs),
        (forall|cs: Seq<char>| vstd::utf8::encode_utf8(cs) != buf@.subrange(8, 16)) ==> r.0@ == crate::util::trim("Unknown"@),
        (exists|cs: Seq<char>| vstd::utf8::encode_utf8(cs) == buf@.subrange(16, 32))
            ==> exists|cs: Seq<char>| vstd::utf8::encode_utf8(cs) == buf@.subrange(16, 32) && r.1@ == crate::util::trim(cs),
        (forall|cs: Seq<char>| vstd::utf8::encode_utf8(cs) != buf@.subrange(16, 32)) ==> r.1@ == crate::util::trim("Unknown"@),
{
    let v = inquiry_field(buf, 8, 16);
    let p = inquiry_field(buf, 16, 32);
    (v, p)
}

fn inquiry_field(buf: &[u8], from: usize, to: usize) -> (r: String)
    requires
        from <= to <= buf@.len(),
    ensures
        (exists|cs: Seq<char>| vstd::utf8::encode_utf8(cs) == buf@.subrange(from as int, to as int))
            ==> exists|cs: Seq<char>| vstd::utf8::encode_utf8(cs) == buf@.subrange(from as int, to as int) && r@ == crate::util::trim(cs),
        (forall|cs: Seq<char>| vstd::utf8::encode_utf8(cs) != buf@.subrange(from as int, to as int)) ==> r@ == crate::util::trim("Unknown"@),
{
    let mut field: Vec<u8> = Vec::new();
    let mut i: usize = from;
    while i < to
        invariant
            from <= i <= to <= buf@.len(),
            field@ == buf@.subrange(from as int, i as int),
        decreases to - i,
    {
        field.push(buf[i]);
        i = i + 1;
        assert(field@ =~= buf@.subrange(from as int, i as int));
    }
    let text = match crate::util::utf8_decode(field.as_slice()) {
        Some(s) => crate::util::string_chars(s.as_str()),
        None => crate::util::string_chars("Unknown"),
    };
    let t = crate::util::trim_chars(&text);
    crate::util::string_from_chars(&t)
}

/// Display name of a device: "vendor product", or "USB Storage (slot N)"
/// when the device gave neither.
pub open spec fn device_label(g: Gc) -> Seq<char> {
    if g.vendor@.len() == 0 && g.product@.len() == 0 {
        "USB Storage (slot "@ + crate::util::decimal(g.slot_id as nat) + ")"@
    } else {
        g.vendor@ + " "@ + g.product@
    }
}

pub fn device_name(g: &Gc) -> (s: String)
    ensures
        s@ == device_label(*g),
{
    let mut out: Vec<char> = Vec::new();
    let v = crate::util::string_chars(g.vendor.as_str());
    let p = crate::util::string_chars(g.product.as_str());
    if v.len() == 0 && p.len() == 0 {
        let a = crate::util::string_chars("USB Storage (slot ");
        crate::util::append_chars(&mut out, &a);
        crate::util::push_decimal(&mut out, g.slot_id as u64);
        let b = crate::util::string_chars(")");
        crate::util::append_chars(&mut out, &b);
    } else {
        crate::util::append_chars(&mut out, &v);
        let sp = crate::util::string_chars(" ");
        crate::util::append_chars(&mut out, &sp);
        crate::util::append_chars(&mut out, &p);
    }
    crate::util::string_from_chars(&out)
}

/// (name, block count, block size) of every device.
pub fn adz(st: &StorageState) -> (r: Vec<(String, u64, u32)>)
    ensures
        r@.len() == st.devices@.len(),
        forall|i: int| 0 <= i < r@.len() ==> (#[trigger] r@[i]).0@ == device_label(st.devices@[i])
            && r@[i].1 == st.devices@[i].block_count && r@[i].2 == st.devices@[i].block_size,
{
    let mut r: Vec<(String, u64, u32)> = Vec::new();
    let mut i: usize = 0;
    while i < st.devices.len()
        invariant
            i <= st.devices@.len(),
            r@.len() == i,
            forall|k: int| 0 <= k < i ==> (#[trigger] r@[k]).0@ == device_label(st.devices@[k])
                && r@[k].1 == st.devices@[k].block_count && r@[k].2 == st.devices@[k].block_size,
        decreases st.devices@.len() - i,
    {
        let g = &st.devices[i];
        let name = device_name(g);
        r.push((name, g.block_count, g.block_size));
        i = i + 1;
    }
    r
}

/// The SCSI READ(10) commands that read `count` blocks from `start_lba`
/// into a buffer of `buf_len` bytes: (block address, blocks, byte offset)
/// for runs of at most 128 blocks; refused as `check_transfer` says.
pub fn read_sectors(st: &StorageState, device_index: usize, start_lba: u64, count: usize, buf_len: usize) -> (r: Result<
    Vec<(u32, u16, usize)>,
    &'static str,
>)
    requires
        transfer_accepted(st, device_index, count, buf_len) ==> (start_lba as u32) + count <= u32::MAX,
    ensures
        device_index >= st.devices@.len() ==> r == Err::<Vec<(u32, u16, usize)>, &'static str>("Invalid device index"),
        device_index < st.devices@.len() && !st.devices@[device_index as int].ready ==> r == Err::<
            Vec<(u32, u16, usize)>,
            &'static str,
        >("Device not ready"),
        device_index < st.devices@.len() && st.devices@[device_index as int].ready ==> (if (buf_len as int) < (count as int)
            * st.devices@[device_index as int].block_size {
            r == Err::<Vec<(u32, u16, usize)>, &'static str>("Buffer too small")
        } else {
            r is Ok && r->Ok_0@ == transfer_chunks(
                (start_lba as u32) as int,
                count as int,
                st.devices@[device_index as int].block_size as int,
                0,
            )
        }),
{
    let bs = match check_transfer(st, device_index, count, buf_len) {
        Ok(b) => b,
        Err(e) => {
            return Err(e);
        },
    };
    Ok(transfer_plan(start_lba, count, bs))
}

/// The SCSI WRITE(10) commands that write `count` blocks at `start_lba`
/// from a buffer of `buf_len` bytes, in the same runs as a read.
pub fn write_sectors(st: &StorageState, device_index: usize, start_lba: u64, count: usize, buf_len: usize) -> (r: Result<
    Vec<(u32, u16, usize)>,
    &'static str,
>)
    requires
        transfer_accepted(st, device_index, count, buf_len) ==> (start_lba as u32) + count <= u32::MAX,
    ensures
        device_index >= st.devices@.len() ==> r == Err::<Vec<(u32, u16, usize)>, &'static str>("Invalid device index"),
        device_index < st.devices@.len() && !st.devices@[device_index as int].ready ==> r == Err::<
            Vec<(u32, u16, usize)>,
            &'static str,
        >("Device not ready"),
        device_index < st.devices@.len() && st.devices@[device_index as int].ready ==> (if (buf_len as int) < (count as int)
            * st.devices@[device_index as int].block_size {
            r == Err::<Vec<(u32, u16, usize)>, &'static str>("Buffer too small")
        } else {
            r is Ok && r->Ok_0@ == transfer_chunks(
                (start_lba as u32) as int,
                count as int,
                st.devices@[device_index as int].block_size as int,
                0,
            )
        }),
{
    read_sectors(st, device_index, start_lba, count, buf_len)
}

/// Blocks moved by a list of commands.
pub open spec fn chunk_blocks(c: Seq<(u32, u16, usize)>) -> int
    decreases c.len(),
{
    if c.len() == 0 {
        0
    } else {
        c[0].1 as int + chunk_blocks(c.drop_first())
    }
}

/// Transfer law: the commands of a transfer move exactly the blocks asked
/// for, at most 128 per command, each starting where the previous ended,
/// and each at the buffer offset of its first block.
pub proof fn law_transfer_chunks_cover(start: int, count: int, block_size: int, done: int)
    requires
        0 <= done <= count,
        0 <= start,
        start + count <= u32::MAX,
        0 <= block_size,
        count * block_size <= usize::MAX,
    ensures
        chunk_blocks(transfer_chunks(start, count, block_size, done)) == count - done,
        forall|i: int|
            0 <= i < transfer_chunks(start, count, block_size, done).len() ==> {
                let c = #[trigger] transfer_chunks(start, count, block_size, done)[i];
                1 <= c.1 <= 128 && start + done <= c.0 < start + count && c.2 == (c.0 - start) * block_size
            },
        forall|i: int|
            0 <= i < transfer_chunks(start, count, block_size, done).len() - 1 ==> #[trigger] transfer_chunks(
                start,
                count,
                block_size,
                done,
            )[i + 1].0 == transfer_chunks(start, count, block_size, done)[i].0 + transfer_chunks(start, count, block_size, done)[i].1,
    decreases count - done,
{
    if done < count {
        let n = if count - done < 128 { count - done } else { 128 };
        let rest = transfer_chunks(start, count, block_size, done + n);
        let all = transfer_chunks(start, count, block_size, done);
        law_transfer_chunks_cover(start, count, block_size, done + n);
        assert(all.drop_first() =~= rest);
        assert(done * block_size <= count * block_size) by (nonlinear_arith)
            requires
                0 <= done <= count,
                0 <= block_size,
        ;
        assert forall|i: int| 0 <= i < all.len() implies {
            let c = #[trigger] all[i];
            1 <= c.1 <= 128 && start + done <= c.0 < start + count && c.2 == (c.0 - start) * block_size
        } by {
            if i > 0 {
                assert(all[i] == rest[i - 1]);
            }
        }
        assert forall|i: int| 0 <= i < all.len() - 1 implies #[trigger] all[i + 1].0 == all[i].0 + all[i].1 by {
            if i == 0 {
                if rest.len() > 0 {
                    assert(all[1] == rest[0]);
                    assert(rest[0].0 == (start + done + n) as u32);
                }
            } else {
                assert(all[i + 1] == rest[i]);
                assert(all[i] == rest[i - 1]);
            }
        }
    }
}

} // verus!
