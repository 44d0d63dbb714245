//! System DMA engines: packet encoding, ring writes and the engines'
//! state as reported.
use vstd::prelude::*;
use crate::util::{decimal, hex_upper, push_decimal, push_hex_upper, push_text, chars_to_string, views, push_line};

verus! {

/// SDMA opcodes and sub-opcodes used.
pub const SDMA_OP_NOP: u32 = 0;
pub const SDMA_OP_COPY: u32 = 1;
pub const SDMA_OP_WRITE: u32 = 2;
pub const SDMA_OP_FENCE: u32 = 5;
pub const SDMA_OP_CONST_FILL: u32 = 11;
pub const SDMA_OP_POLL_REGMEM: u32 = 13;
pub const SDMA_SUBOP_COPY_LINEAR: u32 = 0;
pub const SDMA_SUBOP_WRITE_LINEAR: u32 = 0;
/// Dwords in each engine's ring.
pub const SDMA_RING_DWORDS: usize = 4096;
/// Size of the staging buffer in bytes.
pub const STAGING_BYTES: usize = 256 * 1024;

/// Packet header: sub-opcode in bits 26..28, opcode in bits 8..26.
pub open spec fn sdma_header(op: u32, sub_op: u32) -> u32 {
    ((sub_op % 4) * 0x400_0000 + (op % 0x4_0000) * 0x100) as u32
}

pub fn ddz(op: u32, sub_op: u32) -> (h: u32)
    ensures
        h == sdma_header(op, sub_op),
{
    (sub_op % 4) * 0x400_0000 + (op % 0x4_0000) * 0x100
}

/// NOP header.
pub fn qux() -> (h: u32)
    ensures
        h == sdma_header(SDMA_OP_NOP, 0),
{
    ddz(SDMA_OP_NOP, 0)
}

pub open spec fn lo32(a: u64) -> u32 {
    (a % 0x1_0000_0000) as u32
}

pub open spec fn hi32(a: u64) -> u32 {
    (a / 0x1_0000_0000) as u32
}

/// Linear copy of `bytes` bytes.
pub fn omj(src: u64, dst: u64, bytes: u32) -> (p: [u32; 7])
    ensures
        p@ == seq![sdma_header(SDMA_OP_COPY, SDMA_SUBOP_COPY_LINEAR), bytes, 0u32, lo32(src), hi32(src), lo32(dst), hi32(dst)],
{
    let p = [
        ddz(SDMA_OP_COPY, SDMA_SUBOP_COPY_LINEAR),
        bytes,
        0,
        (src % 0x1_0000_0000) as u32,
        (src / 0x1_0000_0000) as u32,
        (dst % 0x1_0000_0000) as u32,
        (dst / 0x1_0000_0000) as u32,
    ];
    assert(p@ =~= seq![sdma_header(SDMA_OP_COPY, SDMA_SUBOP_COPY_LINEAR), bytes, 0u32, lo32(src), hi32(src), lo32(dst), hi32(dst)]);
    p
}

/// Constant fill of `bytes` bytes with `value`.
pub fn omi(dst: u64, value: u32, bytes: u32) -> (p: [u32; 5])
    ensures
        p@ == seq![sdma_header(SDMA_OP_CONST_FILL, 0), lo32(dst), hi32(dst), value, bytes],
{
    let p = [ddz(SDMA_OP_CONST_FILL, 0), (dst % 0x1_0000_0000) as u32, (dst / 0x1_0000_0000) as u32, value, bytes];
    assert(p@ =~= seq![sdma_header(SDMA_OP_CONST_FILL, 0), lo32(dst), hi32(dst), value, bytes]);
    p
}

/// Fence: write `value` at `addr`.
pub fn jdt(addr: u64, value: u32) -> (p: [u32; 4])
    ensures
        p@ == seq![sdma_header(SDMA_OP_FENCE, 0), lo32(addr), hi32(addr), value],
{
    let p = [ddz(SDMA_OP_FENCE, 0), (addr % 0x1_0000_0000) as u32, (addr / 0x1_0000_0000) as u32, value];
    assert(p@ =~= seq![sdma_header(SDMA_OP_FENCE, 0), lo32(addr), hi32(addr), value]);
    p
}

/// Poll packet on `addr`.
pub fn quy(addr: u64) -> (p: [u32; 3])
    ensures
        p@ == seq![sdma_header(SDMA_OP_POLL_REGMEM, 0), lo32(addr), hi32(addr)],
{
    let p = [ddz(SDMA_OP_POLL_REGMEM, 0), (addr % 0x1_0000_0000) as u32, (addr / 0x1_0000_0000) as u32];
    assert(p@ =~= seq![sdma_header(SDMA_OP_POLL_REGMEM, 0), lo32(addr), hi32(addr)]);
    p
}

/// Linear write of `count` dwords (the packet holds `count - 1`, 0 for
/// none).
pub fn quz(dst: u64, count: u32) -> (p: [u32; 4])
    ensures
        p@ == seq![
            sdma_header(SDMA_OP_WRITE, SDMA_SUBOP_WRITE_LINEAR),
            lo32(dst),
            hi32(dst),
            if count == 0 { 0u32 } else { (count - 1) as u32 },
        ],
{
    let n = if count == 0 { 0 } else { count - 1 };
    let p = [ddz(SDMA_OP_WRITE, SDMA_SUBOP_WRITE_LINEAR), (dst % 0x1_0000_0000) as u32, (dst / 0x1_0000_0000) as u32, n];
    assert(p@ =~= seq![
            sdma_header(SDMA_OP_WRITE, SDMA_SUBOP_WRITE_LINEAR),
            lo32(dst),
            hi32(dst),
            if count == 0 { 0u32 } else { (count - 1) as u32 },
        ]);
    p
}

/// One DMA engine.
#[derive(Clone, Copy, Debug)]
pub struct Kp {
    pub index: usize,
    pub mmio_base: u64,
    pub reg_base: u32,
    pub ring_virt: u64,
    pub ring_phys: u64,
    pub wptr: u32,
    pub fence_seq: u32,
    pub transfers: u64,
    pub bytes: u64,
}

/// Both engines, the status and staging buffers, and the totals moved.
pub struct Aep {
    pub initialized: bool,
    pub mmio_base: u64,
    pub engines: [Option<Kp>; 2],
    pub status_virt: u64,
    pub status_phys: u64,
    pub staging_virt: u64,
    pub staging_phys: u64,
    pub total_bytes: u64,
    pub total_transfers: u64,
}

pub fn is_ready(st: &Aep) -> (b: bool)
    ensures
        b == st.initialized,
{
    st.initialized
}

/// Bytes moved by all transfers.
pub fn total_bytes(st: &Aep) -> (n: u64)
    ensures
        n == st.total_bytes,
{
    st.total_bytes
}

/// Number of transfers made.
pub fn jnz(st: &Aep) -> (n: u64)
    ensures
        n == st.total_transfers,
{
    st.total_transfers
}

/// Physical address of the staging buffer, once the engines are set up.
pub fn staging_phys(st: &Aep) -> (r: Option<u64>)
    ensures
        r == if st.initialized { Some(st.staging_phys) } else { None },
{
    if !st.initialized {
        return None;
    }
    Some(st.staging_phys)
}

/// Size of the staging buffer.
pub fn qxo() -> (n: usize)
    ensures
        n == STAGING_BYTES,
{
    STAGING_BYTES
}

pub open spec fn summary_spec(st: Aep) -> Seq<char> {
    if st.initialized {
        "SDMA: 2 engines, "@ + decimal((st.total_transfers) as nat) + " transfers, "@ + decimal((st.total_bytes / 1024) as nat) + " KB moved"@
    } else {
        "SDMA: not initialized"@
    }
}

/// One-line state of the DMA engines.
pub fn summary(st: &Aep) -> (s: String)
    ensures
        s@ == summary_spec(*st),
{
    let mut out: Vec<char> = Vec::new();
    if st.initialized {
        push_text(&mut out, "SDMA: 2 engines, ");
        push_decimal(&mut out, (st.total_transfers) as u64);
        push_text(&mut out, " transfers, ");
        push_decimal(&mut out, (st.total_bytes / 1024) as u64);
        push_text(&mut out, " KB moved");
    } else {
        push_text(&mut out, "SDMA: not initialized");
    }
    chars_to_string(out)
}

pub open spec fn engine_line(i: int, eng: Option<Kp>) -> Seq<char> {
    match eng {
        Some(e) => "║ SDMA"@ + decimal((i) as nat) + ": ring@"@ + "0x"@ + hex_upper((e.ring_phys) as nat) + " wptr="@ + decimal((e.wptr) as nat) + " seq="@ + decimal((e.fence_seq) as nat) + " xfers="@ + decimal((e.transfers) as nat) + " bytes="@ + decimal((e.bytes) as nat),
        None => "║ SDMA"@ + decimal((i) as nat) + ": not initialized                        ║"@,
    }
}

fn engine_text(i: usize, eng: &Option<Kp>) -> (out: Vec<char>)
    ensures
        out@ == engine_line(i as int, *eng),
{
    let mut out: Vec<char> = Vec::new();
    match eng {
        Some(e) => {
            push_text(&mut out, "║ SDMA");
            push_decimal(&mut out, (i) as u64);
            push_text(&mut out, ": ring@");
            push_text(&mut out, "0x");
            push_hex_upper(&mut out, (e.ring_phys) as u64);
            push_text(&mut out, " wptr=");
            push_decimal(&mut out, (e.wptr) as u64);
            push_text(&mut out, " seq=");
            push_decimal(&mut out, (e.fence_seq) as u64);
            push_text(&mut out, " xfers=");
            push_decimal(&mut out, (e.transfers) as u64);
            push_text(&mut out, " bytes=");
            push_decimal(&mut out, (e.bytes) as u64);
        },
        None => {
            push_text(&mut out, "║ SDMA");
            push_decimal(&mut out, (i) as u64);
            push_text(&mut out, ": not initialized                        ║");
        },
    }
    out
}

pub open spec fn info_spec(st: Aep) -> Seq<Seq<char>> {
    if st.initialized {
        seq!["╔══════════════════════════════════════════════════╗"@, "║       SDMA Engine — Bare-metal DMA Transfers     ║"@, "╠══════════════════════════════════════════════════╣"@, "║ Status Buffer: "@ + "0x"@ + hex_upper((st.status_phys) as nat) + "                      ║"@, "║ Staging:       "@ + "0x"@ + hex_upper((st.staging_phys) as nat) + " ("@ + decimal((256u64) as nat) + "KB)              ║"@, "║ Total Bytes:   "@ + decimal((st.total_bytes / 1024) as nat) + " KB                           ║"@, "║ Total Xfers:   "@ + decimal((st.total_transfers) as nat) + "                              ║"@, "╠══════════════════════════════════════════════════╣"@] + seq![engine_line(0, st.engines[0]), engine_line(1, st.engines[1])] + seq!["╚══════════════════════════════════════════════════╝"@]
    } else {
        seq!["SDMA not initialized (requires AMD GPU)"@]
    }
}

/// The DMA engines' state as a framed table.
pub fn info_lines(st: &Aep) -> (lines: Vec<String>)
    ensures
        views(lines@) == info_spec(*st),
{
    let mut lines: Vec<String> = Vec::new();
    if st.initialized {
        let mut out: Vec<char> = Vec::new();
        push_text(&mut out, "╔══════════════════════════════════════════════════╗");
        push_line(&mut lines, out);
        let mut out: Vec<char> = Vec::new();
        push_text(&mut out, "║       SDMA Engine — Bare-metal DMA Transfers     ║");
        push_line(&mut lines, out);
        let mut out: Vec<char> = Vec::new();
        push_text(&mut out, "╠══════════════════════════════════════════════════╣");
        push_line(&mut lines, out);
        let mut out: Vec<char> = Vec::new();
        push_text(&mut out, "║ Status Buffer: ");
        push_text(&mut out, "0x");
        push_hex_upper(&mut out, (st.status_phys) as u64);
        push_text(&mut out, "                      ║");
        push_line(&mut lines, out);
        let mut out: Vec<char> = Vec::new();
        push_text(&mut out, "║ Staging:       ");
        push_text(&mut out, "0x");
        push_hex_upper(&mut out, (st.staging_phys) as u64);
        push_text(&mut out, " (");
        push_decimal(&mut out, (256u64) as u64);
        push_text(&mut out, "KB)              ║");
        push_line(&mut lines, out);
        let mut out: Vec<char> = Vec::new();
        push_text(&mut out, "║ Total Bytes:   ");
        push_decimal(&mut out, (st.total_bytes / 1024) as u64);
        push_text(&mut out, " KB                           ║");
        push_line(&mut lines, out);
        let mut out: Vec<char> = Vec::new();
        push_text(&mut out, "║ Total Xfers:   ");
        push_decimal(&mut out, (st.total_transfers) as u64);
        push_text(&mut out, "                              ║");
        push_line(&mut lines, out);
        let mut out: Vec<char> = Vec::new();
        push_text(&mut out, "╠══════════════════════════════════════════════════╣");
        push_line(&mut lines, out);
        push_line(&mut lines, engine_text(0, &st.engines[0]));
        push_line(&mut lines, engine_text(1, &st.engines[1]));
        let mut out: Vec<char> = Vec::new();
        push_text(&mut out, "╚══════════════════════════════════════════════════╝");
        push_line(&mut lines, out);
    } else {
        let mut out: Vec<char> = Vec::new();
        push_text(&mut out, "SDMA not initialized (requires AMD GPU)");
        push_line(&mut lines, out);
    }
    assert(views(lines@) =~= info_spec(*st));
    lines
}

/// Largest transfer one packet moves: 64 MiB.
pub const SDMA_MAX_BYTES: u32 = 0x400_0000;
/// Offsets of the two engines' fences in the status buffer.
pub const FENCE_OFFSET_0: u64 = 0x00;
pub const FENCE_OFFSET_1: u64 = 0x10;

/// A transfer for an engine.
#[derive(Clone, Copy, Debug, PartialEq, Eq, Structural)]
pub enum SdmaOp {
    /// Copies `bytes` bytes from `src` to `dst` (physical addresses).
    Copy { src: u64, dst: u64, bytes: u32 },
    /// Fills `bytes` bytes at `dst` with the 32-bit `value`.
    Fill { dst: u64, value: u32, bytes: u32 },
}

/// What the driver writes to start a transfer: the engine, the ring
/// position the packets go to, the packets (the transfer, then the fence
/// write), the fence's physical and virtual addresses (its word is zeroed
/// first) and the value that marks completion.
pub struct SdmaSubmission {
    pub engine: usize,
    pub ring_pos: u32,
    pub packets: Vec<u32>,
    pub fence_phys: u64,
    pub fence_virt: u64,
    pub fence_value: u32,
}

/// The fence value after `s`: one more, wrapping past 0 to 1, so that a
/// zeroed fence word never reads as done.
pub open spec fn next_fence(s: u32) -> u32 {
    if s == u32::MAX { 1 } else { (s + 1) as u32 }
}

/// Fence law: the sequence never yields 0, and counts up by one until it
/// wraps to 1.
pub proof fn law_fence_never_zero(s: u32)
    ensures
        next_fence(s) != 0,
        s < u32::MAX ==> next_fence(s) == s + 1,
        s == u32::MAX ==> next_fence(s) == 1,
{
}

/// Bytes an operation moves.
pub open spec fn op_bytes(op: SdmaOp) -> u32 {
    match op {
        SdmaOp::Copy { bytes, .. } => bytes,
        SdmaOp::Fill { bytes, .. } => bytes,
    }
}

/// The refusal an operation gets before an engine is chosen, if any.
pub open spec fn op_refusal(op: SdmaOp) -> Option<&'static str> {
    match op {
        SdmaOp::Copy { bytes, .. } => if bytes > SDMA_MAX_BYTES {
            Some("Transfer too large (max 64MB per SDMA packet)")
        } else {
            None
        },
        SdmaOp::Fill { bytes, .. } => if bytes % 4 != 0 {
            Some("byte_count must be a multiple of 4")
        } else if bytes > SDMA_MAX_BYTES {
            Some("Fill too large (max 64MB per SDMA packet)")
        } else {
            None
        },
    }
}

/// The packet of an operation.
pub open spec fn op_packet(op: SdmaOp) -> Seq<u32> {
    match op {
        SdmaOp::Copy { src, dst, bytes } => seq![
            sdma_header(SDMA_OP_COPY, SDMA_SUBOP_COPY_LINEAR), bytes, 0u32, lo32(src), hi32(src), lo32(dst), hi32(dst)],
        SdmaOp::Fill { dst, value, bytes } => seq![sdma_header(SDMA_OP_CONST_FILL, 0), lo32(dst), hi32(dst), value, bytes],
    }
}

/// Whether the status buffer's fence words have addresses.
pub open spec fn status_addressable(st: Aep) -> bool {
    st.status_phys + FENCE_OFFSET_1 <= u64::MAX && st.status_virt + FENCE_OFFSET_1 <= u64::MAX
}

/// Starts an SDMA transfer on engine `engine_idx` (1 for any index above
/// 0): refused before setup, refused as `op_refusal` says, nothing to do
/// for 0 bytes, refused when the engine is missing; otherwise the engine's
/// fence sequence moves on (never to 0), its write pointer moves past the
/// two packets, and the submission is returned.
pub fn sdma_submit(st: &mut Aep, op: SdmaOp, engine_idx: usize) -> (r: Result<Option<SdmaSubmission>, &'static str>)
    requires
        old(st).initialized ==> status_addressable(*old(st)),
        forall|i: int| 0 <= i < 2 && (#[trigger] old(st).engines[i]) is Some ==> old(st).engines[i]->Some_0.wptr
            < SDMA_RING_DWORDS,
    ensures
        !old(st).initialized ==> r == Err::<Option<SdmaSubmission>, &'static str>("SDMA not initialized"),
        old(st).initialized && op_bytes(op) == 0 ==> r matches Ok(None),
        old(st).initialized && op_bytes(op) != 0 && op_refusal(op) is Some ==> r == Err::<
            Option<SdmaSubmission>,
            &'static str,
        >(op_refusal(op)->Some_0),
        (r is Err || (r matches Ok(None))) ==> *final(st) == *old(st),
        old(st).initialized && op_bytes(op) != 0 && op_refusal(op) is None ==> {
            let e = if engine_idx < 1 { 0int } else { 1int };
            match old(st).engines[e] {
                None => r == Err::<Option<SdmaSubmission>, &'static str>("SDMA engine not ready"),
                Some(k) => {
                    let off = if e == 0 { FENCE_OFFSET_0 } else { FENCE_OFFSET_1 };
                    let fence = seq![sdma_header(SDMA_OP_FENCE, 0), lo32((old(st).status_phys + off) as u64),
                        hi32((old(st).status_phys + off) as u64), k.fence_seq];
                    &&& r matches Ok(Some(sub)) && {
                        &&& sub.engine == e
                        &&& sub.ring_pos == k.wptr
                        &&& sub.packets@ == op_packet(op) + fence
                        &&& sub.fence_phys == old(st).status_phys + off
                        &&& sub.fence_virt == old(st).status_virt + off
                        &&& sub.fence_value == k.fence_seq
                    }
                    &&& final(st).engines[e] == Some(Kp {
                        fence_seq: next_fence(k.fence_seq),
                        wptr: ((k.wptr + (op_packet(op) + fence).len()) % (SDMA_RING_DWORDS as int)) as u32,
                        ..k
                    })
                    &&& final(st).engines[1 - e] == old(st).engines[1 - e]
                    &&& final(st).initialized == old(st).initialized
                    &&& final(st).status_phys == old(st).status_phys
                    &&& final(st).total_bytes == old(st).total_bytes
                    &&& final(st).total_transfers == old(st).total_transfers
                },
            }
        },
{
    if !st.initialized {
        return Err("SDMA not initialized");
    }
    let bytes = match op {
        SdmaOp::Copy { bytes, .. } => bytes,
        SdmaOp::Fill { bytes, .. } => bytes,
    };
    if bytes == 0 {
        return Ok(None);
    }
    match op {
        SdmaOp::Copy { .. } => {
            if bytes > SDMA_MAX_BYTES {
                return Err("Transfer too large (max 64MB per SDMA packet)");
            }
        },
        SdmaOp::Fill { .. } => {
            if bytes % 4 != 0 {
                return Err("byte_count must be a multiple of 4");
            }
            if bytes > SDMA_MAX_BYTES {
                return Err("Fill too large (max 64MB per SDMA packet)");
            }
        },
    }
    let e: usize = if engine_idx < 1 { 0 } else { 1 };
    let k = match st.engines[e] {
        Some(k) => k,
        None => {
            return Err("SDMA engine not ready");
        },
    };
    let off = if e == 0 { FENCE_OFFSET_0 } else { FENCE_OFFSET_1 };
    let fence_phys = st.status_phys + off;
    let fence_virt = st.status_virt + off;
    let mut packets: Vec<u32> = Vec::new();
    match op {
        SdmaOp::Copy { src, dst, bytes } => {
            let p = omj(src, dst, bytes);
            let mut i: usize = 0;
            while i < 7
                invariant
                    i <= 7,
                    packets@ == p@.subrange(0, i as int),
                decreases 7 - i,
            {
                packets.push(p[i]);
                i = i + 1;
                assert(packets@ =~= p@.subrange(0, i as int));
            }
            assert(p@.subrange(0, 7) =~= p@);
        },
        SdmaOp::Fill { dst, value, bytes } => {
            let p = omi(dst, value, bytes);
            let mut i: usize = 0;
            while i < 5
                invariant
                    i <= 5,
                    packets@ == p@.subrange(0, i as int),
                decreases 5 - i,
            {
                packets.push(p[i]);
                i = i + 1;
                assert(packets@ =~= p@.subrange(0, i as int));
            }
            assert(p@.subrange(0, 5) =~= p@);
        },
    }
    let f = jdt(fence_phys, k.fence_seq);
    packets.push(f[0]);
    packets.push(f[1]);
    packets.push(f[2]);
    packets.push(f[3]);
    let ghost fence = seq![sdma_header(SDMA_OP_FENCE, 0), lo32(fence_phys), hi32(fence_phys), k.fence_seq];
    assert(f@ == fence);
    assert(packets@ =~= op_packet(op) + fence);
    let next = if k.fence_seq == u32::MAX { 1 } else { k.fence_seq + 1 };
    let n = packets.len();
    let new_k = Kp { fence_seq: next, wptr: ((k.wptr as usize + n) % SDMA_RING_DWORDS) as u32, ..k };
    st.engines[e] = Some(new_k);
    Ok(Some(SdmaSubmission { engine: e, ring_pos: k.wptr, packets, fence_phys, fence_virt, fence_value: k.fence_seq }))
}

/// Records a finished transfer of `bytes` bytes on engine `e`: the engine's
/// and the driver's counters grow by one transfer and `bytes`.
pub fn sdma_complete(st: &mut Aep, e: usize, bytes: u32)
    requires
        e < 2,
        old(st).engines[e as int] is Some,
        old(st).engines[e as int]->Some_0.transfers < u64::MAX,
        old(st).engines[e as int]->Some_0.bytes + bytes <= u64::MAX,
        old(st).total_transfers < u64::MAX,
        old(st).total_bytes + bytes <= u64::MAX,
    ensures
        final(st).engines[e as int] == Some(Kp {
            transfers: (old(st).engines[e as int]->Some_0.transfers + 1) as u64,
            bytes: (old(st).engines[e as int]->Some_0.bytes + bytes) as u64,
            ..old(st).engines[e as int]->Some_0
        }),
        final(st).engines[1 - e] == old(st).engines[1 - e],
        *final(st) == (Aep {
            engines: final(st).engines,
            total_transfers: (old(st).total_transfers + 1) as u64,
            total_bytes: (old(st).total_bytes + bytes) as u64,
            ..*old(st)
        }),
{
    let k = match st.engines[e] {
        Some(k) => k,
        None => {
            return;
        },
    };
    st.engines[e] = Some(Kp { transfers: k.transfers + 1, bytes: k.bytes + bytes as u64, ..k });
    st.total_transfers = st.total_transfers + 1;
    st.total_bytes = st.total_bytes + bytes as u64;
}

/// The staged copies of an upload of `len` bytes to `dst`: (offset in the
/// data, bytes taken, bytes copied rounded up to a multiple of 4,
/// destination) for runs of at most the staging buffer's size.
pub open spec fn upload_chunks(len: int, dst: int, done: int) -> Seq<(usize, usize, u32, u64)>
    decreases len - done,
{
    if done >= len || done < 0 {
        Seq::empty()
    } else {
        let take = if len - done < STAGING_BYTES { len - done } else { STAGING_BYTES as int };
        seq![(done as usize, take as usize, ((take + 3) / 4 * 4) as u32, (dst + done) as u64)] + upload_chunks(len, dst, done + take)
    }
}

/// The staged copies of an upload.
pub fn upload_plan(len: usize, dst: u64) -> (v: Vec<(usize, usize, u32, u64)>)
    requires
        dst + len <= u64::MAX,
    ensures
        v@ == upload_chunks(len as int, dst as int, 0),
{
    let mut v: Vec<(usize, usize, u32, u64)> = Vec::new();
    let mut done: usize = 0;
    while done < len
        invariant
            done <= len,
            dst + len <= u64::MAX,
            v@ + upload_chunks(len as int, dst as int, done as int) == upload_chunks(len as int, dst as int, 0),
        decreases len - done,
    {
        let take = if len - done < STAGING_BYTES { len - done } else { STAGING_BYTES };
        let ghost before = v@;
        v.push((done, take, ((take + 3) / 4 * 4) as u32, dst + done as u64));
        assert(before + upload_chunks(len as int, dst as int, done as int) =~= v@ + upload_chunks(
            len as int,
            dst as int,
            (done + take) as int,
        ));
        done = done + take;
    }
    assert(v@ + upload_chunks(len as int, dst as int, done as int) =~= v@);
    v
}

/// The staged copies of a download of `len` bytes from `src`, as in
/// `upload_plan`: for each chunk, `padded` bytes are copied from the last
/// field's address to the staging buffer, and its first `take` bytes go to
/// the destination at `offset`.
pub fn download_plan(len: usize, src: u64) -> (v: Vec<(usize, usize, u32, u64)>)
    requires
        src + len <= u64::MAX,
    ensures
        v@ == upload_chunks(len as int, src as int, 0),
{
    upload_plan(len, src)
}

/// The first word that is not `expect`, if any.
pub fn first_mismatch(words: &[u32], expect: u32) -> (r: Option<usize>)
    ensures
        match r {
            Some(i) => i < words@.len() && words@[i as int] != expect && forall|j: int| 0 <= j < i ==> words@[j] == expect,
            None => forall|j: int| 0 <= j < words@.len() ==> words@[j] == expect,
        },
{
    let mut i: usize = 0;
    while i < words.len()
        invariant
            i <= words@.len(),
            forall|j: int| 0 <= j < i ==> words@[j] == expect,
        decreases words@.len() - i,
    {
        if words[i] != expect {
            return Some(i);
        }
        i = i + 1;
    }
    None
}

/// The first byte that breaks the ramp 0, 1, 2, ... (mod 256), if any.
pub fn ramp_mismatch(bytes: &[u8]) -> (r: Option<usize>)
    ensures
        match r {
            Some(i) => i < bytes@.len() && bytes@[i as int] != i % 256 && forall|j: int|
                0 <= j < i ==> bytes@[j] == j % 256,
            None => forall|j: int| 0 <= j < bytes@.len() ==> bytes@[j] == j % 256,
        },
{
    let mut i: usize = 0;
    while i < bytes.len()
        invariant
            i <= bytes@.len(),
            forall|j: int| 0 <= j < i ==> bytes@[j] == j % 256,
        decreases bytes@.len() - i,
    {
        if bytes[i] as usize != i % 256 {
            return Some(i);
        }
        i = i + 1;
    }
    None
}

/// Passed and failed counts of a self-test's results.
pub fn tally(results: &[bool]) -> (r: (u32, u32))
    requires
        results@.len() <= u32::MAX,
    ensures
        r.0 + r.1 == results@.len(),
        r.0 == results@.filter(|b: bool| b).len(),
{
    let mut pass: u32 = 0;
    let mut fail: u32 = 0;
    let mut i: usize = 0;
    while i < results.len()
        invariant
            i <= results@.len() <= u32::MAX,
            pass + fail == i,
            pass == results@.subrange(0, i as int).filter(|b: bool| b).len(),
        decreases results@.len() - i,
    {
        proof {
            reveal_with_fuel(Seq::filter, 1);
            assert(results@.subrange(0, i + 1).drop_last() =~= results@.subrange(0, i as int));
        }
        if results[i] {
            pass = pass + 1;
        } else {
            fail = fail + 1;
        }
        i = i + 1;
    }
    assert(results@.subrange(0, results@.len() as int) =~= results@);
    (pass, fail)
}

/// Size of a benchmark buffer: `size_kb` KiB, at most the staging size,
/// rounded up to whole words.
pub fn bench_bytes(size_kb: u32) -> (n: usize)
    ensures
        n == ((if size_kb * 1024 < STAGING_BYTES { size_kb * 1024 } else { STAGING_BYTES as int }) + 3) / 4 * 4,
{
    let b: u64 = if (size_kb as u64) * 1024 < STAGING_BYTES as u64 { (size_kb as u64) * 1024 } else { STAGING_BYTES as u64 };
    ((b + 3) / 4 * 4) as usize
}

/// Throughput in KiB per second of `total` bytes moved in `elapsed_ms`
/// milliseconds (at least one).
pub fn bench_rate(total: u64, elapsed_ms: u64) -> (r: u64)
    requires
        total * 1000 <= u64::MAX,
        elapsed_ms * 1024 <= u64::MAX,
    ensures
        r == total * 1000 / ((if elapsed_ms > 0 { elapsed_ms } else { 1 }) * 1024),
{
    let e = if elapsed_ms > 0 { elapsed_ms } else { 1 };
    total * 1000 / (e * 1024)
}

} // verus!
