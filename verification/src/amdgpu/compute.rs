//! Compute dispatch on the GPU: the agents (shaders) offered, PM4 packet
//! encoding, the command ring, and the engine's state as reported.
use vstd::prelude::*;
use crate::util::{decimal, hex_upper, push_decimal, push_hex_upper, push_text, chars_to_string, views, push_line, wrap_add};

verus! {

/// The compute agents.
#[derive(Clone, Copy, Debug, PartialEq, Eq, Structural)]
pub enum AgentKind {
    Incr,
    MemFill,
    MemCopy,
}

pub open spec fn agent_name(k: AgentKind) -> &'static str {
    match k {
        AgentKind::Incr => "incr",
        AgentKind::MemFill => "memfill",
        AgentKind::MemCopy => "memcopy",
    }
}

pub open spec fn agent_description(k: AgentKind) -> &'static str {
    match k {
        AgentKind::Incr => "Increment each u32 by 1 (proof-of-life)",
        AgentKind::MemFill => "Fill buffer with constant u32 value",
        AgentKind::MemCopy => "GPU-speed buffer copy (src \u{2192} dst)",
    }
}

/// Machine code of each agent's shader.
pub open spec fn agent_code(k: AgentKind) -> Seq<u32> {
    match k {
        AgentKind::Incr => seq![
            0x7E020284u32, 0x26020082, 0xE0502000, 0x80020100, 0xBF8C0070,
            0x4A040081, 0xE0702000, 0x80020100, 0xBF8C0070, 0xBF810000,
        ],
        AgentKind::MemFill => seq![
            0x26020082u32, 0x7E040204, 0xE0702000, 0x80020100, 0xBF8C0070, 0xBF810000,
        ],
        AgentKind::MemCopy => seq![
            0x26020082u32, 0xE0502000, 0x80020100, 0xBF8C0070, 0xE0702000,
            0x80030100, 0xBF8C0070, 0xBF810000,
        ],
    }
}

impl AgentKind {
    pub fn name(&self) -> (s: &'static str)
        ensures
            s == agent_name(*self),
    {
        match self {
            AgentKind::Incr => "incr",
            AgentKind::MemFill => "memfill",
            AgentKind::MemCopy => "memcopy",
        }
    }

    pub fn description(&self) -> (s: &'static str)
        ensures
            s == agent_description(*self),
    {
        match self {
            AgentKind::Incr => "Increment each u32 by 1 (proof-of-life)",
            AgentKind::MemFill => "Fill buffer with constant u32 value",
            AgentKind::MemCopy => "GPU-speed buffer copy (src \u{2192} dst)",
        }
    }

    /// The agent's shader.
    pub fn shader_code(&self) -> (v: Vec<u32>)
        ensures
            v@ == agent_code(*self),
    {
        let v: Vec<u32> = match self {
            AgentKind::Incr => vec![
                0x7E020284u32, 0x26020082, 0xE0502000, 0x80020100, 0xBF8C0070,
                0x4A040081, 0xE0702000, 0x80020100, 0xBF8C0070, 0xBF810000,
            ],
            AgentKind::MemFill => vec![
                0x26020082u32, 0x7E040204, 0xE0702000, 0x80020100, 0xBF8C0070, 0xBF810000,
            ],
            AgentKind::MemCopy => vec![
                0x26020082u32, 0xE0502000, 0x80020100, 0xBF8C0070, 0xE0702000,
                0x80030100, 0xBF8C0070, 0xBF810000,
            ],
        };
        assert(v@ =~= agent_code(*self));
        v
    }

    /// Scalar registers the shader uses.
    pub fn sgpr_count(&self) -> (n: u32)
        ensures
            n == match *self {
                AgentKind::Incr => 4u32,
                AgentKind::MemFill => 5u32,
                AgentKind::MemCopy => 8u32,
            },
    {
        match self {
            AgentKind::Incr => 4,
            AgentKind::MemFill => 5,
            AgentKind::MemCopy => 8,
        }
    }

    /// Vector registers the shader uses.
    pub fn vgpr_count(&self) -> (n: u32)
        ensures
            n == 3,
    {
        match self {
            AgentKind::Incr => 3,
            AgentKind::MemFill => 3,
            AgentKind::MemCopy => 3,
        }
    }

    /// Scalar registers preloaded by the dispatcher.
    pub fn user_sgpr_count(&self) -> (n: u32)
        ensures
            n == match *self {
                AgentKind::Incr => 4u32,
                AgentKind::MemFill => 5u32,
                AgentKind::MemCopy => 8u32,
            },
    {
        match self {
            AgentKind::Incr => 4,
            AgentKind::MemFill => 5,
            AgentKind::MemCopy => 8,
        }
    }
}

/// PM4 opcodes and the register base of SET_SH_REG.
pub const PM4_NOP: u32 = 0x10;
pub const PM4_DISPATCH_DIRECT: u32 = 0x15;
pub const PM4_RELEASE_MEM: u32 = 0x49;
pub const PM4_SET_SH_REG: u32 = 0x76;
pub const SH_REG_BASE: u32 = 0x2C00;
/// Dwords in the command ring.
pub const RING_DWORDS: usize = 1024;

/// Type-3 packet header: opcode in bits 8..16, body length minus one in
/// bits 0..14.
pub open spec fn pm4_header(opcode: u32, count: u32) -> u32 {
    (0xC000_0000 + (opcode % 0x100) * 0x100 + ((count - 1) % 0x4000)) as u32
}

pub fn dwq(opcode: u32, count: u32) -> (h: u32)
    requires
        count >= 1,
    ensures
        h == pm4_header(opcode, count),
{
    0xC000_0000 + (opcode % 0x100) * 0x100 + ((count - 1) % 0x4000)
}

/// NOP packet.
pub fn nvu() -> (p: [u32; 2])
    ensures
        p@ == seq![pm4_header(PM4_NOP, 1), 0u32],
{
    let p = [dwq(PM4_NOP, 1), 0];
    assert(p@ =~= seq![pm4_header(PM4_NOP, 1), 0u32]);
    p
}

/// SET_SH_REG of one register.
pub fn coh(reg: u32, value: u32) -> (p: [u32; 3])
    requires
        reg >= SH_REG_BASE,
    ensures
        p@ == seq![pm4_header(PM4_SET_SH_REG, 2), ((reg - SH_REG_BASE) / 4) as u32, value],
{
    let p = [dwq(PM4_SET_SH_REG, 2), (reg - SH_REG_BASE) / 4, value];
    assert(p@ =~= seq![pm4_header(PM4_SET_SH_REG, 2), ((reg - SH_REG_BASE) / 4) as u32, value]);
    p
}

/// SET_SH_REG of two consecutive registers.
pub fn nvw(reg: u32, val0: u32, val1: u32) -> (p: [u32; 4])
    requires
        reg >= SH_REG_BASE,
    ensures
        p@ == seq![pm4_header(PM4_SET_SH_REG, 3), ((reg - SH_REG_BASE) / 4) as u32, val0, val1],
{
    let p = [dwq(PM4_SET_SH_REG, 3), (reg - SH_REG_BASE) / 4, val0, val1];
    assert(p@ =~= seq![pm4_header(PM4_SET_SH_REG, 3), ((reg - SH_REG_BASE) / 4) as u32, val0, val1]);
    p
}

/// DISPATCH_DIRECT of a grid of workgroups.
pub fn nvt(groups_x: u32, groups_y: u32, groups_z: u32) -> (p: [u32; 5])
    ensures
        p@ == seq![pm4_header(PM4_DISPATCH_DIRECT, 4), groups_x, groups_y, groups_z, 1u32],
{
    let p = [dwq(PM4_DISPATCH_DIRECT, 4), groups_x, groups_y, groups_z, 1];
    assert(p@ =~= seq![pm4_header(PM4_DISPATCH_DIRECT, 4), groups_x, groups_y, groups_z, 1u32]);
    p
}

/// RELEASE_MEM writing the 64-bit `fence_value` at `addr` once the work
/// before it is done.
pub fn nvv(addr: u64, fence_value: u64) -> (p: [u32; 7])
    ensures
        p@ == seq![
            pm4_header(PM4_RELEASE_MEM, 6),
            0x514u32,
            0x4000_0000u32,
            (addr % 0x1_0000_0000) as u32,
            ((addr / 0x1_0000_0000) % 0x1_0000) as u32,
            (fence_value % 0x1_0000_0000) as u32,
            (fence_value / 0x1_0000_0000) as u32,
        ],
{
    let p = [
        dwq(PM4_RELEASE_MEM, 6),
        0x514,
        0x4000_0000,
        (addr % 0x1_0000_0000) as u32,
        ((addr / 0x1_0000_0000) % 0x1_0000) as u32,
        (fence_value % 0x1_0000_0000) as u32,
        (fence_value / 0x1_0000_0000) as u32,
    ];
    assert(p@ =~= seq![
            pm4_header(PM4_RELEASE_MEM, 6),
            0x514u32,
            0x4000_0000u32,
            (addr % 0x1_0000_0000) as u32,
            ((addr / 0x1_0000_0000) % 0x1_0000) as u32,
            (fence_value % 0x1_0000_0000) as u32,
            (fence_value / 0x1_0000_0000) as u32,
        ]);
    p
}

/// Buffer resource descriptor for `count` elements of `stride` bytes at
/// `gpu_addr`.
pub fn ket(gpu_addr: u64, count: u32, stride: u32) -> (d: [u32; 4])
    ensures
        d@ == seq![
            (gpu_addr % 0x1_0000_0000) as u32,
            ((gpu_addr / 0x1_0000_0000) % 0x1_0000 + (stride % 0x4000) * 0x1_0000) as u32,
            count,
            0x220FACu32,
        ],
{
    let lo = (gpu_addr % 0x1_0000_0000) as u32;
    let hi = ((gpu_addr / 0x1_0000_0000) % 0x1_0000) as u32;
    let d = [lo, hi + (stride % 0x4000) * 0x1_0000, count, 0x220FAC];
    assert(d@ =~= seq![
            (gpu_addr % 0x1_0000_0000) as u32,
            ((gpu_addr / 0x1_0000_0000) % 0x1_0000 + (stride % 0x4000) * 0x1_0000) as u32,
            count,
            0x220FACu32,
        ]);
    d
}

/// The ring after writing `d` starting at position `w`, wrapping at the
/// ring's end (a later dword overwrites an earlier one at the same place).
pub open spec fn ring_written(ring: Seq<u32>, w: int, d: Seq<u32>) -> Seq<u32>
    decreases d.len(),
{
    if d.len() == 0 {
        ring
    } else {
        ring_written(ring, w, d.drop_last()).update((w + d.len() - 1) % (RING_DWORDS as int), d.last())
    }
}

/// Ring law: a packet of at most one ring's worth of dwords, written at
/// position `w`, reads back at positions `w`, `w + 1`, ... (wrapping), and
/// the rest of the ring is as it was.
pub proof fn law_ring_read_after_write(ring: Seq<u32>, w: int, d: Seq<u32>)
    requires
        ring.len() == RING_DWORDS,
        0 <= w < RING_DWORDS,
        d.len() <= RING_DWORDS,
    ensures
        ring_written(ring, w, d).len() == RING_DWORDS,
        forall|i: int| 0 <= i < d.len() ==> #[trigger] ring_written(ring, w, d)[(w + i) % (RING_DWORDS as int)] == d[i],
        forall|p: int|
            0 <= p < RING_DWORDS && (p - w + RING_DWORDS as int) % (RING_DWORDS as int) >= d.len() ==> #[trigger] ring_written(ring, w, d)[p]
                == ring[p],
    decreases d.len(),
{
    if d.len() > 0 {
        let dl = d.drop_last();
        law_ring_read_after_write(ring, w, dl);
        let n = d.len() - 1;
        assert forall|i: int| 0 <= i < d.len() implies #[trigger] ring_written(ring, w, d)[(w + i) % (RING_DWORDS as int)] == d[i] by {
            if i < n {
                assert((w + i) % 1024 != (w + n) % 1024) by (nonlinear_arith)
                    requires
                        0 <= i < n,
                        n < 1024,
                        0 <= w,
                ;
                assert(dl[i] == d[i]);
            }
        }
        assert forall|p: int|
            0 <= p < RING_DWORDS && (p - w + RING_DWORDS as int) % (RING_DWORDS as int) >= d.len() implies #[trigger] ring_written(ring, w, d)[p]
                == ring[p] by {
            assert((w + n) % 1024 != p) by (nonlinear_arith)
                requires
                    0 <= p < 1024,
                    0 <= w < 1024,
                    0 <= n,
                    (p - w + 1024) % 1024 >= n + 1,
            ;
        }
    }
}

/// Copies `data` into the ring at the write pointer, wrapping, and moves
/// the write pointer past it; returns the number of dwords written.
pub fn aow(ring: &mut Vec<u32>, wptr: &mut u32, data: &[u32]) -> (n: usize)
    requires
        old(ring)@.len() == RING_DWORDS,
        *old(wptr) < RING_DWORDS,
        data@.len() + RING_DWORDS <= u32::MAX,
    ensures
        n == data@.len(),
        final(ring)@.len() == RING_DWORDS,
        final(ring)@ == ring_written(old(ring)@, *old(wptr) as int, data@),
        *final(wptr) == (*old(wptr) + data@.len()) % (RING_DWORDS as int),
{
    let ghost start = ring@;
    let w = *wptr;
    let mut i: usize = 0;
    while i < data.len()
        invariant
            i <= data@.len(),
            ring@.len() == RING_DWORDS,
            w < RING_DWORDS,
            data@.len() + RING_DWORDS <= u32::MAX,
            ring@ == ring_written(start, w as int, data@.take(i as int)),
        decreases data@.len() - i,
    {
        let idx = ((w as usize) + i) % RING_DWORDS;
        ring.set(idx, data[i]);
        assert(data@.take(i + 1).drop_last() =~= data@.take(i as int));
        i = i + 1;
    }
    assert(data@.take(data@.len() as int) =~= data@);
    *wptr = (w + data.len() as u32) % (RING_DWORDS as u32);
    data.len()
}

/// Compute engine state: ring, data and code buffer addresses, write
/// pointer and number of dispatches made.
pub struct Oi {
    pub initialized: bool,
    pub mmio_base: u64,
    pub ring_virt: u64,
    pub ring_phys: u64,
    pub data_virt: u64,
    pub data_phys: u64,
    pub code_virt: u64,
    pub code_phys: u64,
    pub wptr: u32,
    pub dispatch_count: u64,
}

pub fn is_ready(st: &Oi) -> (b: bool)
    ensures
        b == st.initialized,
{
    st.initialized
}

pub fn dispatch_count(st: &Oi) -> (n: u64)
    ensures
        n == st.dispatch_count,
{
    st.dispatch_count
}

pub open spec fn summary_spec(st: Oi) -> Seq<char> {
    if st.initialized {
        "GPU Compute: "@ + decimal((3u64) as nat) + " agents, "@ + decimal((st.dispatch_count) as nat) + " dispatches, ring@"@ + "0x"@ + hex_upper((st.ring_phys) as nat)
    } else {
        "GPU Compute: not initialized"@
    }
}

/// One-line state of the compute engine.
pub fn summary(st: &Oi) -> (s: String)
    ensures
        s@ == summary_spec(*st),
{
    let mut out: Vec<char> = Vec::new();
    if st.initialized {
        push_text(&mut out, "GPU Compute: ");
        push_decimal(&mut out, (3u64) as u64);
        push_text(&mut out, " agents, ");
        push_decimal(&mut out, (st.dispatch_count) as u64);
        push_text(&mut out, " dispatches, ring@");
        push_text(&mut out, "0x");
        push_hex_upper(&mut out, (st.ring_phys) as u64);
    } else {
        push_text(&mut out, "GPU Compute: not initialized");
    }
    chars_to_string(out)
}

pub open spec fn agent_line(k: AgentKind) -> Seq<char> {
    "║  "@ + crate::util::pad_right((agent_name(k))@, 10nat) + " — "@ + (agent_description(k))@ + "  ║"@
}

fn agent_text(k: AgentKind) -> (out: Vec<char>)
    ensures
        out@ == agent_line(k),
{
    let mut out: Vec<char> = Vec::new();
    push_text(&mut out, "║  ");
    crate::util::push_text_padded(&mut out, k.name(), 10);
    push_text(&mut out, " — ");
    push_text(&mut out, k.description());
    push_text(&mut out, "  ║");
    out
}

pub open spec fn info_spec(st: Oi) -> Seq<Seq<char>> {
    if st.initialized {
        seq!["╔══════════════════════════════════════════════════╗"@, "║    GPU Compute Agent — Bare-metal RDNA Dispatch  ║"@, "╠══════════════════════════════════════════════════╣"@, "║ Ring Buffer:  "@ + "0x"@ + hex_upper((st.ring_phys) as nat) + " ("@ + decimal((1024u64) as nat) + " dwords)          ║"@, "║ Data Buffer:  "@ + "0x"@ + hex_upper((st.data_phys) as nat) + " ("@ + decimal((64u64) as nat) + "KB)              ║"@, "║ Code Buffer:  "@ + "0x"@ + hex_upper((st.code_phys) as nat) + "                     ║"@, "║ Dispatches:   "@ + decimal((st.dispatch_count) as nat) + "                                  ║"@, "║ Ring WPTR:    "@ + decimal((st.wptr) as nat) + "                                  ║"@, "╠══════════════════════════════════════════════════╣"@, "║ Available Agents:                                ║"@] + seq![agent_line(AgentKind::Incr), agent_line(AgentKind::MemFill), agent_line(AgentKind::MemCopy)]
            + seq!["╚══════════════════════════════════════════════════╝"@]
    } else {
        seq!["GPU Compute Agent not initialized"@, "(Requires AMD GPU with MMIO access)"@]
    }
}

/// The compute engine's state as a framed table, with the agents offered.
pub fn info_lines(st: &Oi) -> (lines: Vec<String>)
    ensures
        views(lines@) == info_spec(*st),
{
    let mut lines: Vec<String> = Vec::new();
    if st.initialized {
        let mut out: Vec<char> = Vec::new();
        push_text(&mut out, "╔══════════════════════════════════════════════════╗");
        push_line(&mut lines, out);
        let mut out: Vec<char> = Vec::new();
        push_text(&mut out, "║    GPU Compute Agent — Bare-metal RDNA Dispatch  ║");
        push_line(&mut lines, out);
        let mut out: Vec<char> = Vec::new();
        push_text(&mut out, "╠══════════════════════════════════════════════════╣");
        push_line(&mut lines, out);
        let mut out: Vec<char> = Vec::new();
        push_text(&mut out, "║ Ring Buffer:  ");
        push_text(&mut out, "0x");
        push_hex_upper(&mut out, (st.ring_phys) as u64);
        push_text(&mut out, " (");
        push_decimal(&mut out, (1024u64) as u64);
        push_text(&mut out, " dwords)          ║");
        push_line(&mut lines, out);
        let mut out: Vec<char> = Vec::new();
        push_text(&mut out, "║ Data Buffer:  ");
        push_text(&mut out, "0x");
        push_hex_upper(&mut out, (st.data_phys) as u64);
        push_text(&mut out, " (");
        push_decimal(&mut out, (64u64) as u64);
        push_text(&mut out, "KB)              ║");
        push_line(&mut lines, out);
        let mut out: Vec<char> = Vec::new();
        push_text(&mut out, "║ Code Buffer:  ");
        push_text(&mut out, "0x");
        push_hex_upper(&mut out, (st.code_phys) as u64);
        push_text(&mut out, "                     ║");
        push_line(&mut lines, out);
        let mut out: Vec<char> = Vec::new();
        push_text(&mut out, "║ Dispatches:   ");
        push_decimal(&mut out, (st.dispatch_count) as u64);
        push_text(&mut out, "                                  ║");
        push_line(&mut lines, out);
        let mut out: Vec<char> = Vec::new();
        push_text(&mut out, "║ Ring WPTR:    ");
        push_decimal(&mut out, (st.wptr) as u64);
        push_text(&mut out, "                                  ║");
        push_line(&mut lines, out);
        let mut out: Vec<char> = Vec::new();
        push_text(&mut out, "╠══════════════════════════════════════════════════╣");
        push_line(&mut lines, out);
        let mut out: Vec<char> = Vec::new();
        push_text(&mut out, "║ Available Agents:                                ║");
        push_line(&mut lines, out);
        push_line(&mut lines, agent_text(AgentKind::Incr));
        push_line(&mut lines, agent_text(AgentKind::MemFill));
        push_line(&mut lines, agent_text(AgentKind::MemCopy));
        let mut out: Vec<char> = Vec::new();
        push_text(&mut out, "╚══════════════════════════════════════════════════╝");
        push_line(&mut lines, out);
    } else {
        let mut out: Vec<char> = Vec::new();
        push_text(&mut out, "GPU Compute Agent not initialized");
        push_line(&mut lines, out);
        let mut out: Vec<char> = Vec::new();
        push_text(&mut out, "(Requires AMD GPU with MMIO access)");
        push_line(&mut lines, out);
    }
    assert(views(lines@) =~= info_spec(*st));
    lines
}

/// Bytes of the data buffer; its last 64 bytes are kept for the fence.
pub const DATA_BYTES: u64 = 65536;
/// Most elements a dispatch works on: the data buffer less 64 bytes.
pub const MAX_ELEMENTS: u32 = 16368;
/// Offset of the fence in the data buffer.
pub const FENCE_OFFSET: u64 = 65520;
/// Value the end-of-dispatch packet writes to the fence.
pub const FENCE_VALUE: u64 = 0xDEAD_BEEF_CAFE_F00D;
/// Shader program address registers (low, high).
pub const COMPUTE_PGM_LO: u32 = 0x2E0C;
/// Shader resource registers.
pub const COMPUTE_PGM_RSRC1: u32 = 0x2E14;
pub const COMPUTE_PGM_RSRC2: u32 = 0x2E18;
/// Workgroup size registers.
pub const COMPUTE_NUM_THREAD_X: u32 = 0x2E20;
pub const COMPUTE_NUM_THREAD_Y: u32 = 0x2E24;
pub const COMPUTE_NUM_THREAD_Z: u32 = 0x2E28;
/// First user-data register.
pub const COMPUTE_USER_DATA_0: u32 = 0x2E40;

/// What a dispatch writes before the doorbell: the initial data buffer,
/// the shader, the packets from ring position 0, and where the fence is
/// written with which value when the work is done.
pub struct DispatchPlan {
    pub data: Vec<u32>,
    pub shader: Vec<u32>,
    pub packets: Vec<u32>,
    pub elements: u32,
    pub workgroups: u32,
    pub fence_addr: u64,
    pub fence_value: u64,
}

/// Initial data of an agent's `n` elements: the indices for `Incr`, zeros
/// for `MemFill`, and for `MemCopy` a source half of `0xA0A0_0000 + i`
/// followed by a zeroed destination half.
pub open spec fn initial_data(agent: AgentKind, n: int) -> Seq<u32> {
    Seq::new(n as nat, |i: int| match agent {
        AgentKind::Incr => i as u32,
        AgentKind::MemFill => 0u32,
        AgentKind::MemCopy => if i < n / 2 { (0xA0A0_0000 + i) as u32 } else { 0u32 },
    })
}

/// A SET_SH_REG packet for one register.
pub open spec fn set_reg(reg: u32, value: u32) -> Seq<u32> {
    seq![pm4_header(PM4_SET_SH_REG, 2), ((reg - SH_REG_BASE) / 4) as u32, value]
}

/// Scalar registers an agent's shader uses.
pub open spec fn agent_sgprs(k: AgentKind) -> int {
    match k {
        AgentKind::Incr => 4,
        AgentKind::MemFill => 5,
        AgentKind::MemCopy => 8,
    }
}

/// Register blocks, less one, of a register count (0 for none).
pub open spec fn reg_blocks(count: int) -> int {
    let b = (count + 7) / 8;
    if b >= 1 { b - 1 } else { 0 }
}

/// Shader resources: vector and scalar register blocks and float mode 3.
pub open spec fn rsrc1(k: AgentKind) -> u32 {
    (reg_blocks(3) % 64 + (reg_blocks(agent_sgprs(k)) % 16) * 64 + 3 * 0x100_0000) as u32
}

/// The packets of a dispatch of `n` elements: shader address, resources,
/// user registers, a 64 x 1 x 1 workgroup, the buffer descriptor in the
/// user data (and the fill value for `MemFill`), the dispatch of
/// `(n + 63) / 64` workgroups, the fence write and a NOP.
pub open spec fn dispatch_packets(st: Oi, agent: AgentKind, n: int, fill: u32) -> Seq<u32> {
    let pgm = st.code_phys as int / 256;
    let d = seq![
        (st.data_phys % 0x1_0000_0000) as u32,
        ((st.data_phys / 0x1_0000_0000) % 0x1_0000 + 4 * 0x1_0000) as u32,
        n as u32,
        0x220FACu32,
    ];
    let fence = st.data_phys + FENCE_OFFSET;
    seq![
        pm4_header(PM4_SET_SH_REG, 3),
        ((COMPUTE_PGM_LO - SH_REG_BASE) / 4) as u32,
        (pgm % 0x1_0000_0000) as u32,
        ((pgm / 0x1_0000_0000) % 0x1_0000) as u32,
    ] + set_reg(COMPUTE_PGM_RSRC1, rsrc1(agent)) + set_reg(COMPUTE_PGM_RSRC2, (agent_sgprs(agent) % 32) as u32)
        + set_reg(COMPUTE_NUM_THREAD_X, 64) + set_reg(COMPUTE_NUM_THREAD_Y, 1) + set_reg(COMPUTE_NUM_THREAD_Z, 1)
        + set_reg(COMPUTE_USER_DATA_0, d[0]) + set_reg((COMPUTE_USER_DATA_0 + 4) as u32, d[1])
        + set_reg((COMPUTE_USER_DATA_0 + 8) as u32, d[2]) + set_reg((COMPUTE_USER_DATA_0 + 12) as u32, d[3])
        + (if agent == AgentKind::MemFill { set_reg((COMPUTE_USER_DATA_0 + 16) as u32, fill) } else { Seq::empty() })
        + seq![pm4_header(PM4_DISPATCH_DIRECT, 4), ((n + 63) / 64) as u32, 1u32, 1u32, 1u32]
        + seq![
        pm4_header(PM4_RELEASE_MEM, 6),
        0x514u32,
        0x4000_0000u32,
        (fence % 0x1_0000_0000) as u32,
        ((fence / 0x1_0000_0000) % 0x1_0000) as u32,
        (FENCE_VALUE % 0x1_0000_0000) as u32,
        (FENCE_VALUE / 0x1_0000_0000) as u32,
    ] + seq![pm4_header(PM4_NOP, 1), 0u32]
}

fn put(out: &mut Vec<u32>, d: &[u32])
    ensures
        final(out)@ == old(out)@ + d@,
{
    let ghost start = out@;
    let mut i: usize = 0;
    while i < d.len()
        invariant
            i <= d@.len(),
            out@ == start + d@.subrange(0, i as int),
        decreases d@.len() - i,
    {
        out.push(d[i]);
        i = i + 1;
        assert(out@ =~= start + d@.subrange(0, i as int));
    }
    assert(d@.subrange(0, d@.len() as int) =~= d@);
}

/// Prepares a dispatch of `agent` on `n` elements (at most 16368): the
/// initial data, the shader and the packets, written from ring position
/// 0; the write pointer ends after the packets and the dispatch is
/// counted.  Refused, with nothing changed, before the engine is set up.
pub fn dispatch_plan(st: &mut Oi, agent: AgentKind, n: u32, fill: u32) -> (r: Result<DispatchPlan, &'static str>)
    requires
        old(st).initialized ==> old(st).data_phys + FENCE_OFFSET <= u64::MAX,
    ensures
        !old(st).initialized ==> r == Err::<DispatchPlan, &'static str>("GPU compute engine not initialized")
            && *final(st) == *old(st),
        old(st).initialized ==> r is Ok,
        r matches Ok(p) ==> {
            let m = if n < MAX_ELEMENTS { n as int } else { MAX_ELEMENTS as int };
            &&& p.elements == m
            &&& p.workgroups == (m + 63) / 64
            &&& p.data@ == initial_data(agent, m)
            &&& p.shader@ == agent_code(agent)
            &&& p.packets@ == dispatch_packets(*old(st), agent, m, fill)
            &&& p.fence_addr == old(st).data_phys + FENCE_OFFSET
            &&& p.fence_value == FENCE_VALUE
            &&& *final(st) == (Oi {
                wptr: (p.packets@.len() % (RING_DWORDS as nat)) as u32,
                dispatch_count: wrap_add(old(st).dispatch_count, 1),
                ..*old(st)
            })
        },
{
    if !st.initialized {
        return Err("GPU compute engine not initialized");
    }
    let m: u32 = if n < MAX_ELEMENTS { n } else { MAX_ELEMENTS };
    let mut data: Vec<u32> = Vec::new();
    let half = m / 2;
    let mut i: u32 = 0;
    while i < m
        invariant
            i <= m <= MAX_ELEMENTS,
            half == m / 2,
            data@ == initial_data(agent, m as int).subrange(0, i as int),
        decreases m - i,
    {
        let v: u32 = match agent {
            AgentKind::Incr => i,
            AgentKind::MemFill => 0,
            AgentKind::MemCopy => if i < half { 0xA0A0_0000 + i } else { 0 },
        };
        data.push(v);
        i = i + 1;
        assert(data@ =~= initial_data(agent, m as int).subrange(0, i as int));
    }
    assert(initial_data(agent, m as int).subrange(0, m as int) =~= initial_data(agent, m as int));
    let shader = agent.shader_code();
    let d = ket(st.data_phys, m, 4);
    let pgm = st.code_phys / 256;
    let blocks_v: u32 = if (agent.vgpr_count() + 7) / 8 >= 1 { (agent.vgpr_count() + 7) / 8 - 1 } else { 0 };
    let sg = agent.sgpr_count();
    let blocks_s: u32 = if (sg + 7) / 8 >= 1 { (sg + 7) / 8 - 1 } else { 0 };
    let r1: u32 = blocks_v % 64 + (blocks_s % 16) * 64 + 3 * 0x100_0000;
    let mut packets: Vec<u32> = Vec::new();
    put(&mut packets, &nvw(COMPUTE_PGM_LO, (pgm % 0x1_0000_0000) as u32, ((pgm / 0x1_0000_0000) % 0x1_0000) as u32));
    put(&mut packets, &coh(COMPUTE_PGM_RSRC1, r1));
    put(&mut packets, &coh(COMPUTE_PGM_RSRC2, agent.user_sgpr_count() % 32));
    put(&mut packets, &coh(COMPUTE_NUM_THREAD_X, 64));
    put(&mut packets, &coh(COMPUTE_NUM_THREAD_Y, 1));
    put(&mut packets, &coh(COMPUTE_NUM_THREAD_Z, 1));
    put(&mut packets, &coh(COMPUTE_USER_DATA_0, d[0]));
    put(&mut packets, &coh(COMPUTE_USER_DATA_0 + 4, d[1]));
    put(&mut packets, &coh(COMPUTE_USER_DATA_0 + 8, d[2]));
    put(&mut packets, &coh(COMPUTE_USER_DATA_0 + 12, d[3]));
    let ghost before_fill = packets@;
    if agent == AgentKind::MemFill {
        put(&mut packets, &coh(COMPUTE_USER_DATA_0 + 16, fill));
    }
    let groups = (m + 63) / 64;
    put(&mut packets, &nvt(groups, 1, 1));
    let fence = st.data_phys + FENCE_OFFSET;
    put(&mut packets, &nvv(fence, FENCE_VALUE));
    put(&mut packets, &nvu());
    assert(packets@ =~= dispatch_packets(*old(st), agent, m as int, fill));
    st.wptr = (packets.len() % RING_DWORDS) as u32;
    st.dispatch_count = st.dispatch_count.wrapping_add(1);
    Ok(DispatchPlan {
        data,
        shader,
        packets,
        elements: m,
        workgroups: groups,
        fence_addr: fence,
        fence_value: FENCE_VALUE,
    })
}

/// The value element `i` of `n` should hold after `agent` ran: one more
/// than its index for `Incr`, the fill value for `MemFill`, and for
/// `MemCopy` the source half's pattern in both halves.
pub open spec fn expected_element(agent: AgentKind, n: int, fill: u32, i: int) -> u32 {
    match agent {
        AgentKind::Incr => (i + 1) as u32,
        AgentKind::MemFill => fill,
        AgentKind::MemCopy => if i >= n / 2 { (0xA0A0_0000 + (i - n / 2)) as u32 } else { (0xA0A0_0000 + i) as u32 },
    }
}

/// Matching elements among the first `k`.
pub open spec fn matches_upto(agent: AgentKind, n: int, fill: u32, data: Seq<u32>, k: int) -> nat
    decreases k,
{
    if k <= 0 {
        0
    } else {
        matches_upto(agent, n, fill, data, k - 1) + if data[k - 1] == expected_element(agent, n, fill, k - 1) {
            1nat
        } else {
            0nat
        }
    }
}

/// Checks the first `min(n, 16368)` elements read back after a dispatch
/// (as many as `data` holds): (matching, differing).
pub fn verify_results(agent: AgentKind, n: u32, fill: u32, data: &Vec<u32>) -> (r: (u32, u32))
    ensures
        ({
            let m = if n < MAX_ELEMENTS { n as int } else { MAX_ELEMENTS as int };
            let k = if data@.len() < m { data@.len() as int } else { m };
            &&& r.0 == matches_upto(agent, m, fill, data@, k)
            &&& r.0 + r.1 == k
        }),
{
    let m: u32 = if n < MAX_ELEMENTS { n } else { MAX_ELEMENTS };
    let k: u32 = if (data.len() as u64) < (m as u64) { data.len() as u32 } else { m };
    let half = m / 2;
    let mut good: u32 = 0;
    let mut bad: u32 = 0;
    let mut i: u32 = 0;
    while i < k
        invariant
            i <= k <= m <= MAX_ELEMENTS,
            k <= data@.len(),
            half == m / 2,
            good == matches_upto(agent, m as int, fill, data@, i as int),
            good + bad == i,
        decreases k - i,
    {
        let expected: u32 = match agent {
            AgentKind::Incr => i + 1,
            AgentKind::MemFill => fill,
            AgentKind::MemCopy => if i >= half { 0xA0A0_0000 + (i - half) } else { 0xA0A0_0000 + i },
        };
        if data[i as usize] == expected {
            good = good + 1;
        } else {
            bad = bad + 1;
        }
        i = i + 1;
    }
    (good, bad)
}

} // verus!
