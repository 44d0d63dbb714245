//! AHCI (SATA) host controller: frame information structures, command
//! headers and tables, port register decoding, IDENTIFY parsing and the
//! controller's port table.  Register access and DMA polling happen outside
//! this module; what is decided from the values read is here.
use vstd::prelude::*;

verus! {

/// Frame Information Structure types.
#[derive(Clone, Copy, PartialEq, Eq, Structural, Debug)]
pub enum FisType {
    RegH2D,
    RegD2H,
    DmaActivate,
    DmaSetup,
    Data,
    Bist,
    PioSetup,
    DevBits,
}

pub open spec fn fis_type_code(t: FisType) -> u8 {
    match t {
        FisType::RegH2D => 0x27,
        FisType::RegD2H => 0x34,
        FisType::DmaActivate => 0x39,
        FisType::DmaSetup => 0x41,
        FisType::Data => 0x46,
        FisType::Bist => 0x58,
        FisType::PioSetup => 0x5F,
        FisType::DevBits => 0xA1,
    }
}

impl FisType {
    /// The type byte that opens a FIS of this kind.
    pub fn code(self) -> (c: u8)
        ensures
            c == fis_type_code(self),
    {
        match self {
            FisType::RegH2D => 0x27,
            FisType::RegD2H => 0x34,
            FisType::DmaActivate => 0x39,
            FisType::DmaSetup => 0x41,
            FisType::Data => 0x46,
            FisType::Bist => 0x58,
            FisType::PioSetup => 0x5F,
            FisType::DevBits => 0xA1,
        }
    }
}

/// ATA commands issued through the host-to-device register FIS.
pub const ATA_CMD_READ_DMA_EX: u8 = 0x25;
pub const ATA_CMD_WRITE_DMA_EX: u8 = 0x35;
pub const ATA_CMD_IDENTIFY: u8 = 0xEC;
pub const ATA_CMD_FLUSH_EX: u8 = 0xEA;

/// Bytes in one sector.
pub const SECTOR_SIZE: usize = 512;

/// Host-to-device register FIS.
#[derive(Clone, Copy)]
pub struct Mc {
    pub fis_type: u8,
    pub pmport_c: u8,
    pub command: u8,
    pub featurel: u8,
    pub lba0: u8,
    pub lba1: u8,
    pub lba2: u8,
    pub device: u8,
    pub lba3: u8,
    pub lba4: u8,
    pub lba5: u8,
    pub featureh: u8,
    pub countl: u8,
    pub counth: u8,
    pub ckt: u8,
    pub control: u8,
    pub _reserved: [u8; 4],
}

/// All fields of a register FIS other than its type byte are zero.
pub open spec fn fis_rest_zero(f: Mc) -> bool {
    &&& f.pmport_c == 0 && f.command == 0 && f.featurel == 0
    &&& f.lba0 == 0 && f.lba1 == 0 && f.lba2 == 0 && f.device == 0
    &&& f.lba3 == 0 && f.lba4 == 0 && f.lba5 == 0 && f.featureh == 0
    &&& f.countl == 0 && f.counth == 0 && f.ckt == 0 && f.control == 0
    &&& f._reserved@ == seq![0u8, 0u8, 0u8, 0u8]
}

impl Mc {
    /// An empty host-to-device register FIS.
    pub fn new() -> (f: Self)
        ensures
            f.fis_type == 0x27,
            fis_rest_zero(f),
    {
        Mc {
            fis_type: FisType::RegH2D.code(),
            pmport_c: 0,
            command: 0,
            featurel: 0,
            lba0: 0,
            lba1: 0,
            lba2: 0,
            device: 0,
            lba3: 0,
            lba4: 0,
            lba5: 0,
            featureh: 0,
            countl: 0,
            counth: 0,
            ckt: 0,
            control: 0,
            _reserved: [0u8, 0u8, 0u8, 0u8],
        }
    }
}

/// The register FIS of a 48-bit DMA transfer: command bit set, LBA mode,
/// the address in six bytes and the sector count in two.
pub open spec fn rw_fis_ok(f: Mc, command: u8, lba: u64, count: u16) -> bool {
    &&& f.fis_type == 0x27 && f.pmport_c == 0x80 && f.command == command
    &&& f.device == 0x40 && f.featurel == 0 && f.featureh == 0
    &&& f.lba0 == lba % 0x100
    &&& f.lba1 == (lba / 0x100) % 0x100
    &&& f.lba2 == (lba / 0x1_0000) % 0x100
    &&& f.lba3 == (lba / 0x100_0000) % 0x100
    &&& f.lba4 == (lba / 0x1_0000_0000) % 0x100
    &&& f.lba5 == (lba / 0x100_0000_0000) % 0x100
    &&& f.countl == count % 0x100
    &&& f.counth == count / 0x100
    &&& f.ckt == 0 && f.control == 0
}

/// Register FIS for READ DMA EXT (`write` false) or WRITE DMA EXT of
/// `count` sectors at `lba`.
pub fn rw_fis(write: bool, lba: u64, count: u16) -> (f: Mc)
    ensures
        rw_fis_ok(f, if write { ATA_CMD_WRITE_DMA_EX } else { ATA_CMD_READ_DMA_EX }, lba, count),
{
    let mut f = Mc::new();
    f.pmport_c = 0x80;
    f.command = if write { ATA_CMD_WRITE_DMA_EX } else { ATA_CMD_READ_DMA_EX };
    f.lba0 = (lba % 0x100) as u8;
    f.lba1 = ((lba / 0x100) % 0x100) as u8;
    f.lba2 = ((lba / 0x1_0000) % 0x100) as u8;
    f.device = 0x40;
    f.lba3 = ((lba / 0x100_0000) % 0x100) as u8;
    f.lba4 = ((lba / 0x1_0000_0000) % 0x100) as u8;
    f.lba5 = ((lba / 0x100_0000_0000) % 0x100) as u8;
    f.countl = (count % 0x100) as u8;
    f.counth = (count / 0x100) as u8;
    f
}

/// FIS law: the six address bytes of a read/write FIS give back the
/// 48-bit block address (the address modulo 2^48), and the two count bytes
/// the sector count.
pub proof fn law_rw_fis_carries_lba(f: Mc, command: u8, lba: u64, count: u16)
    requires
        rw_fis_ok(f, command, lba, count),
    ensures
        f.lba0 + f.lba1 * 0x100 + f.lba2 * 0x1_0000 + f.lba3 * 0x100_0000 + f.lba4 * 0x1_0000_0000 + f.lba5
            * 0x100_0000_0000 == lba % 0x1_0000_0000_0000,
        f.countl + f.counth * 0x100 == count,
{
    let l0 = lba % 0x100;
    let l1 = (lba / 0x100) % 0x100;
    let l2 = (lba / 0x1_0000) % 0x100;
    let l3 = (lba / 0x100_0000) % 0x100;
    let l4 = (lba / 0x1_0000_0000) % 0x100;
    let l5 = (lba / 0x100_0000_0000) % 0x100;
    assert(l0 + l1 * 0x100 + l2 * 0x1_0000 + l3 * 0x100_0000 + l4 * 0x1_0000_0000 + l5 * 0x100_0000_0000
        == lba % 0x1_0000_0000_0000) by (bit_vector)
        requires
            l0 == lba % 0x100,
            l1 == (lba / 0x100) % 0x100,
            l2 == (lba / 0x1_0000) % 0x100,
            l3 == (lba / 0x100_0000) % 0x100,
            l4 == (lba / 0x1_0000_0000) % 0x100,
            l5 == (lba / 0x100_0000_0000) % 0x100,
    ;
}

/// Register FIS for IDENTIFY DEVICE.
pub fn identify_fis() -> (f: Mc)
    ensures
        f.fis_type == 0x27,
        f.pmport_c == 0x80,
        f.command == ATA_CMD_IDENTIFY,
        f.device == 0,
        f.lba0 == 0 && f.lba1 == 0 && f.lba2 == 0 && f.lba3 == 0 && f.lba4 == 0 && f.lba5 == 0,
        f.countl == 0 && f.counth == 0,
{
    let mut f = Mc::new();
    f.pmport_c = 0x80;
    f.command = ATA_CMD_IDENTIFY;
    f
}

/// Register FIS for FLUSH CACHE EXT.
pub fn flush_fis() -> (f: Mc)
    ensures
        f.fis_type == 0x27,
        f.pmport_c == 0x80,
        f.command == ATA_CMD_FLUSH_EX,
        f.device == 0x40,
        f.countl == 0 && f.counth == 0,
{
    let mut f = Mc::new();
    f.pmport_c = 0x80;
    f.command = ATA_CMD_FLUSH_EX;
    f.device = 0x40;
    f
}

/// Device-to-host register FIS.
pub struct Akf {
    pub fis_type: u8,
    pub pmport_i: u8,
    pub status: u8,
    pub error: u8,
    pub lba0: u8,
    pub lba1: u8,
    pub lba2: u8,
    pub device: u8,
    pub lba3: u8,
    pub lba4: u8,
    pub lba5: u8,
    pub _reserved0: u8,
    pub countl: u8,
    pub counth: u8,
    pub _reserved1: [u8; 6],
}

/// PIO setup FIS.
pub struct Ake {
    pub fis_type: u8,
    pub pmport_di: u8,
    pub status: u8,
    pub error: u8,
    pub lba0: u8,
    pub lba1: u8,
    pub lba2: u8,
    pub device: u8,
    pub lba3: u8,
    pub lba4: u8,
    pub lba5: u8,
    pub _reserved0: u8,
    pub countl: u8,
    pub counth: u8,
    pub _reserved1: u8,
    pub e_status: u8,
    pub wo: u16,
    pub _reserved2: [u8; 2],
}

/// DMA setup FIS.
pub struct Akd {
    pub fis_type: u8,
    pub pmport_dai: u8,
    pub _reserved0: [u8; 2],
    pub dma_buffer_id: u64,
    pub _reserved1: u32,
    pub dma_buffer_offset: u32,
    pub transfer_count: u32,
    pub _reserved2: u32,
}

/// Area into which the HBA copies the FISes a port receives.
pub struct Akz {
    pub dsfis: Akd,
    pub _pad0: [u8; 4],
    pub psfis: Ake,
    pub _pad1: [u8; 12],
    pub rfis: Akf,
    pub _pad2: [u8; 4],
    pub sdbfis: [u8; 8],
    pub ufis: [u8; 64],
    pub _reserved: [u8; 96],
}

/// Command header: one slot of a port's command list.
#[derive(Clone, Copy)]
pub struct HbaCmdHeader {
    /// Bits 0..5: command FIS length in double words; bit 6: write.
    pub flags: u16,
    /// Entries in the physical region descriptor table.
    pub prdtl: u16,
    /// Bytes transferred so far.
    pub prdbc: u32,
    /// Physical address of the command table.
    pub ctba: u64,
    pub _reserved: [u32; 4],
}

impl HbaCmdHeader {
    /// An empty command header.
    pub fn new() -> (h: Self)
        ensures
            h.flags == 0,
            h.prdtl == 0,
            h.prdbc == 0,
            h.ctba == 0,
            h._reserved@ == seq![0u32, 0u32, 0u32, 0u32],
    {
        HbaCmdHeader { flags: 0, prdtl: 0, prdbc: 0, ctba: 0, _reserved: [0u32, 0u32, 0u32, 0u32] }
    }
}

/// Command header for a command whose FIS is five double words long, with
/// `prdtl` descriptors, writing to the device when `write` holds, and its
/// command table at `ctba`.
pub fn command_header(write: bool, prdtl: u16, ctba: u64) -> (h: HbaCmdHeader)
    ensures
        h.flags == (if write { 0x45int } else { 5int }),
        h.prdtl == prdtl,
        h.prdbc == 0,
        h.ctba == ctba,
{
    let mut h = HbaCmdHeader::new();
    h.flags = if write { 5 + 0x40 } else { 5 };
    h.prdtl = prdtl;
    h.ctba = ctba;
    h
}

/// Physical region descriptor: one contiguous buffer of a command.
#[derive(Clone, Copy)]
pub struct Ala {
    pub dba: u64,
    pub _reserved: u32,
    /// Bits 0..22: byte count minus one; bit 31: interrupt on completion.
    pub dbc_i: u32,
}

/// Descriptor for `bytes` bytes at `dba`, interrupting on completion.
pub fn prd_entry(dba: u64, bytes: u32) -> (e: Ala)
    requires
        1 <= bytes <= 0x40_0000,
    ensures
        e.dba == dba,
        e._reserved == 0,
        e.dbc_i == (bytes - 1) + 0x8000_0000,
{
    Ala { dba, _reserved: 0, dbc_i: (bytes - 1) + 0x8000_0000 }
}

/// Command table: the command FIS, an ATAPI command and the descriptors.
pub struct Me {
    pub cfis: [u8; 64],
    pub acmd: [u8; 16],
    pub _reserved: [u8; 48],
    pub prdt: [Ala; 8],
}

/// A port's command list: 32 command headers.
pub struct Zq {
    pub headers: [HbaCmdHeader; 32],
}

/// DMA memory of one port: command list, received-FIS area and the
/// command tables of the first eight slots.
pub struct PortMemory {
    pub cmd_list: Box<Zq>,
    pub fis: Box<Akz>,
    pub cmd_tables: [Box<Me>; 8],
}

/// HBA memory registers (generic host control followed by the ports).
pub struct Mf {
    pub cap: u32,
    pub ghc: u32,
    pub is: u32,
    pub pi: u32,
    pub vs: u32,
    pub ccc_ctl: u32,
    pub ccc_ports: u32,
    pub em_loc: u32,
    pub em_ctl: u32,
    pub cap2: u32,
    pub bohc: u32,
    pub _reserved: [u8; 116],
    pub _vendor: [u8; 96],
    pub ports: [Pc; 32],
}

/// Registers of one port.
#[derive(Clone, Copy)]
pub struct Pc {
    pub clb: u64,
    pub fb: u64,
    pub is: u32,
    pub drt: u32,
    pub cmd: u32,
    pub _reserved0: u32,
    pub tfd: u32,
    pub sig: u32,
    pub ssts: u32,
    pub sctl: u32,
    pub serr: u32,
    pub sact: u32,
    pub ci: u32,
    pub sntf: u32,
    pub fbs: u32,
    pub _reserved1: [u32; 11],
    pub _vendor: [u32; 4],
}

/// PxCMD bits: start, FIS receive enable, FIS receive running, command
/// list running.
pub const PXCMD_ST: u32 = 0x1;
pub const PXCMD_FRE: u32 = 0x10;
pub const PXCMD_FR: u32 = 0x4000;
pub const PXCMD_CR: u32 = 0x8000;

/// Whether bit `i` of `v` is set.
pub open spec fn bit_set(v: u32, i: u32) -> bool {
    (v >> i) & 1 != 0
}

/// Stops a port's command engine: clears ST, then FRE.
pub fn oxm(port: &mut Pc)
    ensures
        final(port).cmd == old(port).cmd & !PXCMD_ST & !PXCMD_FRE,
        final(port).clb == old(port).clb,
        final(port).fb == old(port).fb,
        final(port).ci == old(port).ci,
        final(port).sact == old(port).sact,
{
    port.cmd = port.cmd & !PXCMD_ST;
    port.cmd = port.cmd & !PXCMD_FRE;
}

/// Whether the engine has stopped: neither the command list nor FIS
/// receive is running.
pub fn engine_stopped(cmd: u32) -> (b: bool)
    ensures
        b == (cmd & PXCMD_CR == 0 && cmd & PXCMD_FR == 0),
{
    cmd & PXCMD_CR == 0 && cmd & PXCMD_FR == 0
}

/// Starts a port's command engine: sets FRE, then ST.
pub fn owc(port: &mut Pc)
    ensures
        final(port).cmd == old(port).cmd | PXCMD_FRE | PXCMD_ST,
        final(port).clb == old(port).clb,
        final(port).fb == old(port).fb,
        final(port).ci == old(port).ci,
        final(port).sact == old(port).sact,
{
    port.cmd = port.cmd | PXCMD_FRE;
    port.cmd = port.cmd | PXCMD_ST;
}

/// The lowest command slot that is neither active nor issued.
pub open spec fn is_free_slot(port: Pc, i: u32) -> bool {
    !bit_set(port.sact | port.ci, i)
}

pub fn emq(port: &Pc) -> (r: Option<u32>)
    ensures
        match r {
            Some(i) => i < 32 && is_free_slot(*port, i) && forall|j: u32| j < i ==> !is_free_slot(*port, j),
            None => forall|j: u32| j < 32 ==> !is_free_slot(*port, j),
        },
{
    let busy = port.sact | port.ci;
    let mut i: u32 = 0;
    while i < 32
        invariant
            i <= 32,
            busy == port.sact | port.ci,
            forall|j: u32| j < i ==> !is_free_slot(*port, j),
        decreases 32 - i,
    {
        if (busy >> i) & 1 == 0 {
            return Some(i);
        }
        i = i + 1;
    }
    None
}

/// Kinds of device a port can report by its signature.
#[derive(Clone, Copy, PartialEq, Eq, Structural, Debug)]
pub enum AhciDeviceType {
    Absent,
    Sata,
    Satapi,
    Semb,
    Pm,
}

pub const SIG_SATA: u32 = 0x0000_0101;
pub const SIG_ATAPI: u32 = 0xEB14_0101;
pub const SIG_SEMB: u32 = 0xC33C_0101;
pub const SIG_PM: u32 = 0x9669_0101;

pub open spec fn signature_type(sig: u32) -> AhciDeviceType {
    if sig == SIG_SATA {
        AhciDeviceType::Sata
    } else if sig == SIG_ATAPI {
        AhciDeviceType::Satapi
    } else if sig == SIG_SEMB {
        AhciDeviceType::Semb
    } else if sig == SIG_PM {
        AhciDeviceType::Pm
    } else {
        AhciDeviceType::Absent
    }
}

/// Device kind from a port's signature register.
pub fn classify_signature(sig: u32) -> (t: AhciDeviceType)
    ensures
        t == signature_type(sig),
{
    if sig == SIG_SATA {
        AhciDeviceType::Sata
    } else if sig == SIG_ATAPI {
        AhciDeviceType::Satapi
    } else if sig == SIG_SEMB {
        AhciDeviceType::Semb
    } else if sig == SIG_PM {
        AhciDeviceType::Pm
    } else {
        AhciDeviceType::Absent
    }
}

/// Whether SATA status shows a device present with communication
/// established (DET = 3) in the active power state (IPM = 1).
pub fn link_up(ssts: u32) -> (b: bool)
    ensures
        b == (ssts % 16 == 3 && (ssts / 256) % 16 == 1),
{
    ssts % 16 == 3 && (ssts / 256) % 16 == 1
}

/// Device kind attached to a port, from its status and signature
/// registers: absent unless the link is up.
pub fn port_device(ssts: u32, sig: u32) -> (t: AhciDeviceType)
    ensures
        t == (if ssts % 16 == 3 && (ssts / 256) % 16 == 1 { signature_type(sig) } else {
            AhciDeviceType::Absent
        }),
{
    if link_up(ssts) {
        classify_signature(sig)
    } else {
        AhciDeviceType::Absent
    }
}

/// Device kind on a port from its status and signature registers.
pub open spec fn port_device_spec(ssts: u32, sig: u32) -> AhciDeviceType {
    if ssts % 16 == 3 && (ssts / 256) % 16 == 1 { signature_type(sig) } else { AhciDeviceType::Absent }
}

/// Whether port `i` is implemented: bit `i` of the PI register.
pub open spec fn port_implemented(pi: u32, i: u32) -> bool {
    (pi >> i) & 1 == 1
}

/// The ports among the first `n` that are implemented and have a device,
/// in port order, with the kind of device each reports; `regs[i]` holds
/// port `i`'s status and signature registers.
pub open spec fn scanned_ports(pi: u32, regs: Seq<(u32, u32)>, n: int) -> Seq<(u8, AhciDeviceType)>
    decreases n,
{
    if n <= 0 {
        Seq::empty()
    } else {
        let i = n - 1;
        let t = port_device_spec(regs[i].0, regs[i].1);
        scanned_ports(pi, regs, n - 1) + if port_implemented(pi, i as u32) && t != AhciDeviceType::Absent {
            seq![(i as u8, t)]
        } else {
            Seq::empty()
        }
    }
}

/// The port scan: of the 32 ports, those implemented (PI bit set) whose
/// link is up and whose signature names a device, in port order, with the
/// device kind. `regs[i]` is port `i`'s (SATA status, signature); the
/// values given for unimplemented ports are not looked at.
pub fn scan_ports(pi: u32, regs: &Vec<(u32, u32)>) -> (v: Vec<(u8, AhciDeviceType)>)
    requires
        regs@.len() == 32,
    ensures
        v@ == scanned_ports(pi, regs@, 32),
{
    let mut v: Vec<(u8, AhciDeviceType)> = Vec::new();
    let mut i: u32 = 0;
    while i < 32
        invariant
            i <= 32,
            regs@.len() == 32,
            v@ == scanned_ports(pi, regs@, i as int),
        decreases 32 - i,
    {
        let ghost before = v@;
        if (pi >> i) & 1 == 1 {
            let (ssts, sig) = regs[i as usize];
            let t = port_device(ssts, sig);
            match t {
                AhciDeviceType::Absent => {},
                _ => {
                    v.push((i as u8, t));
                },
            }
        }
        i = i + 1;
        assert(v@ =~= scanned_ports(pi, regs@, i as int));
    }
    v
}

/// Whether a port's command list and received-FIS buffers are reachable:
/// below 4 GiB unless the controller has 64-bit addressing (S64A).
pub fn dma_in_reach(s64a: bool, cmd_list: u64, fis: u64) -> (b: bool)
    ensures
        b == (s64a || (cmd_list <= 0xFFFF_FFFF && fis <= 0xFFFF_FFFF)),
{
    s64a || (cmd_list <= 0xFFFF_FFFF && fis <= 0xFFFF_FFFF)
}

/// The commands a port issues: IDENTIFY, a sector transfer, a cache flush.
#[derive(Clone, Copy, PartialEq, Eq, Structural, Debug)]
pub enum AhciCommand {
    Identify,
    Transfer,
    Flush,
}

/// What one poll of an issued command decides.
#[derive(Clone, Copy, PartialEq, Eq, Debug)]
pub enum CommandPoll {
    /// Still running: poll again.
    Pending,
    /// Completed without error.
    Done,
    /// Failed, with the reason.
    Failed(&'static str),
}

/// Polls a command waits before it times out.
pub open spec fn poll_limit(kind: AhciCommand) -> u32 {
    if kind == AhciCommand::Flush { 30_000_000 } else { 10_000_000 }
}

/// The decision of poll number `polls` (from 1) of the command in `slot`,
/// from the port's command-issue register `ci` and then its interrupt
/// status `int_status`: done once the slot's issue bit clears (a transfer fails if
/// a task-file error is flagged by then); a task-file error before that
/// fails it; past the poll limit it times out.
pub open spec fn command_poll_spec(kind: AhciCommand, ci: u32, int_status: u32, slot: u32, polls: u32) -> CommandPoll {
    let tfe = (int_status >> 30u32) & 1 == 1;
    if (ci >> slot) & 1 == 0 {
        if kind == AhciCommand::Transfer && tfe { CommandPoll::Failed("Task file error after completion") } else {
            CommandPoll::Done
        }
    } else if tfe {
        CommandPoll::Failed(
            match kind {
                AhciCommand::Identify => "Task file error during IDENTIFY",
                AhciCommand::Transfer => "Task file error",
                AhciCommand::Flush => "Task file error during flush",
            },
        )
    } else if polls > poll_limit(kind) {
        CommandPoll::Failed(
            match kind {
                AhciCommand::Identify => "IDENTIFY command timeout",
                AhciCommand::Transfer => "Command timeout",
                AhciCommand::Flush => "Flush timeout",
            },
        )
    } else {
        CommandPoll::Pending
    }
}

pub fn command_poll(kind: AhciCommand, ci: u32, int_status: u32, slot: u32, polls: u32) -> (r: CommandPoll)
    requires
        slot < 32,
    ensures
        r == command_poll_spec(kind, ci, int_status, slot, polls),
{
    let tfe = (int_status >> 30u32) & 1 == 1;
    let limit: u32 = match kind {
        AhciCommand::Flush => 30_000_000,
        _ => 10_000_000,
    };
    if (ci >> slot) & 1 == 0 {
        match kind {
            AhciCommand::Transfer => {
                if tfe {
                    CommandPoll::Failed("Task file error after completion")
                } else {
                    CommandPoll::Done
                }
            },
            _ => CommandPoll::Done,
        }
    } else if tfe {
        CommandPoll::Failed(
            match kind {
                AhciCommand::Identify => "Task file error during IDENTIFY",
                AhciCommand::Transfer => "Task file error",
                AhciCommand::Flush => "Task file error during flush",
            },
        )
    } else if polls > limit {
        CommandPoll::Failed(
            match kind {
                AhciCommand::Identify => "IDENTIFY command timeout",
                AhciCommand::Transfer => "Command timeout",
                AhciCommand::Flush => "Flush timeout",
            },
        )
    } else {
        CommandPoll::Pending
    }
}

/// A device found on a port.
#[derive(Debug)]
pub struct Oa {
    pub port_num: u8,
    pub device_type: AhciDeviceType,
    pub sector_count: u64,
    pub model: String,
    pub serial: String,
}

impl Oa {
    /// A fresh entry for a device just detected: size and names unknown.
    pub fn detected(port_num: u8, device_type: AhciDeviceType) -> (o: Oa)
        ensures
            o.port_num == port_num,
            o.device_type == device_type,
            o.sector_count == 0,
            o.model@ == "Unknown"@,
            o.serial@ == "Unknown"@,
    {
        Oa {
            port_num,
            device_type,
            sector_count: 0,
            model: String::from_str("Unknown"),
            serial: String::from_str("Unknown"),
        }
    }

    pub fn copy(&self) -> (o: Oa)
        ensures
            o.port_num == self.port_num,
            o.device_type == self.device_type,
            o.sector_count == self.sector_count,
            o.model@ == self.model@,
            o.serial@ == self.serial@,
    {
        Oa {
            port_num: self.port_num,
            device_type: self.device_type,
            sector_count: self.sector_count,
            model: self.model.clone(),
            serial: self.serial.clone(),
        }
    }
}

/// The same device record, strings compared by content.
pub open spec fn same_device(a: Oa, b: Oa) -> bool {
    a.port_num == b.port_num && a.device_type == b.device_type && a.sector_count == b.sector_count
        && a.model@ == b.model@ && a.serial@ == b.serial@
}

/// Controller state: where its registers live and what it found.
pub struct Wf {
    pub base_addr: u64,
    pub virt_addr: u64,
    pub ports: Vec<Oa>,
    pub port_memory: Vec<Option<PortMemory>>,
    pub initialized: bool,
}

/// Number of devices found (0 without a controller), as a byte.
pub fn ibt(ctrl: &Option<Wf>) -> (n: u8)
    ensures
        n == match ctrl {
            Some(c) => (c.ports@.len() % 256) as u8,
            None => 0u8,
        },
{
    match ctrl {
        Some(c) => (c.ports.len() % 256) as u8,
        None => 0,
    }
}

/// Copies of all device records (none without a controller).
pub fn adz(ctrl: &Option<Wf>) -> (v: Vec<Oa>)
    ensures
        match ctrl {
            Some(c) => v@.len() == c.ports@.len() && forall|i: int|
                0 <= i < v@.len() ==> same_device(#[trigger] v@[i], c.ports@[i]),
            None => v@.len() == 0,
        },
{
    let mut v: Vec<Oa> = Vec::new();
    match ctrl {
        Some(c) => {
            let mut i: usize = 0;
            while i < c.ports.len()
                invariant
                    i <= c.ports@.len(),
                    v@.len() == i,
                    forall|k: int| 0 <= k < i ==> same_device(#[trigger] v@[k], c.ports@[k]),
                decreases c.ports@.len() - i,
            {
                v.push(c.ports[i].copy());
                i = i + 1;
            }
        },
        None => {},
    }
    v
}

/// Whether a controller was set up and found at least one device.
pub open spec fn ahci_up(ctrl: Option<Wf>) -> bool {
    match ctrl {
        Some(c) => c.initialized,
        None => false,
    }
}

/// Whether a controller was set up and found at least one device.
pub fn is_initialized(ctrl: &Option<Wf>) -> (b: bool)
    ensures
        b == match ctrl {
            Some(c) => c.initialized,
            None => false,
        },
{
    match ctrl {
        Some(c) => c.initialized,
        None => false,
    }
}

/// Index of the first device record on port `port_num`.
pub open spec fn first_on_port(ports: Seq<Oa>, port_num: u8, i: int) -> bool {
    0 <= i < ports.len() && ports[i].port_num == port_num && forall|j: int|
        0 <= j < i ==> ports[j].port_num != port_num
}

fn find_port(ports: &Vec<Oa>, port_num: u8) -> (r: Option<usize>)
    ensures
        match r {
            Some(i) => first_on_port(ports@, port_num, i as int),
            None => forall|j: int| 0 <= j < ports@.len() ==> ports@[j].port_num != port_num,
        },
{
    let mut i: usize = 0;
    while i < ports.len()
        invariant
            i <= ports@.len(),
            forall|j: int| 0 <= j < i ==> ports@[j].port_num != port_num,
        decreases ports@.len() - i,
    {
        if ports[i].port_num == port_num {
            return Some(i);
        }
        i = i + 1;
    }
    None
}

/// The record of the device on port `port_num`, if there is one.
pub fn fyw(ctrl: &Option<Wf>, port_num: u8) -> (r: Option<Oa>)
    ensures
        match ctrl {
            None => r is None,
            Some(c) => match r {
                Some(o) => exists|i: int| first_on_port(c.ports@, port_num, i) && same_device(o, c.ports@[i]),
                None => forall|j: int| 0 <= j < c.ports@.len() ==> c.ports@[j].port_num != port_num,
            },
        },
{
    match ctrl {
        None => None,
        Some(c) => match find_port(&c.ports, port_num) {
            Some(i) => Some(c.ports[i].copy()),
            None => None,
        },
    }
}

/// Ports whose devices are to be identified, in table order.
pub fn mnl(ctrl: &Option<Wf>) -> (v: Vec<u8>)
    ensures
        match ctrl {
            Some(c) => v@.len() == c.ports@.len() && forall|i: int|
                0 <= i < v@.len() ==> v@[i] == c.ports@[i].port_num,
            None => v@.len() == 0,
        },
{
    let mut v: Vec<u8> = Vec::new();
    match ctrl {
        Some(c) => {
            let mut i: usize = 0;
            while i < c.ports.len()
                invariant
                    i <= c.ports@.len(),
                    v@.len() == i,
                    forall|k: int| 0 <= k < i ==> v@[k] == c.ports@[k].port_num,
                decreases c.ports@.len() - i,
            {
                v.push(c.ports[i].port_num);
                i = i + 1;
            }
        },
        None => {},
    }
    v
}

/// Whether byte value `b` is printable ASCII.
pub open spec fn printable(b: int) -> bool {
    0x20 <= b < 0x7F
}

/// Characters an IDENTIFY word contributes to a text field: its high byte,
/// then its low byte, each only when printable.
pub open spec fn word_text(w: u16) -> Seq<char> {
    let hi = w as int / 256;
    let lo = w as int % 256;
    (if printable(hi) { seq![hi as char] } else { Seq::<char>::empty() }) + (if printable(lo) {
        seq![lo as char]
    } else {
        Seq::<char>::empty()
    })
}

/// Text of the IDENTIFY words `from..to`.
pub open spec fn words_text(ws: Seq<u16>, from: int, to: int) -> Seq<char>
    decreases to - from,
{
    if to <= from {
        Seq::<char>::empty()
    } else {
        words_text(ws, from, to - 1) + word_text(ws[to - 1])
    }
}

/// Sector count reported by IDENTIFY: the 48-bit count in words 100..104
/// when word 83 announces 48-bit addressing (bit 10), else the 28-bit count
/// in words 60..62.
pub open spec fn identify_sectors(ws: Seq<u16>) -> int {
    if (ws[83] as int / 1024) % 2 == 1 {
        ws[100] as int + ws[101] as int * 0x1_0000 + ws[102] as int * 0x1_0000_0000 + ws[103] as int
            * 0x1_0000_0000_0000
    } else {
        ws[60] as int + ws[61] as int * 0x1_0000
    }
}

/// The 256 little-endian words of an IDENTIFY block.
pub fn identify_words(buf: &[u8]) -> (ws: Vec<u16>)
    requires
        buf@.len() >= 512,
    ensures
        ws@.len() == 256,
        forall|i: int| 0 <= i < 256 ==> #[trigger] ws@[i] as int == crate::util::le16(buf@, 2 * i),
{
    let mut ws: Vec<u16> = Vec::new();
    let mut i: usize = 0;
    while i < 256
        invariant
            i <= 256,
            buf@.len() >= 512,
            ws@.len() == i,
            forall|k: int| 0 <= k < i ==> #[trigger] ws@[k] as int == crate::util::le16(buf@, 2 * k),
        decreases 256 - i,
    {
        let w = crate::util::read_le16(buf, 2 * i);
        ws.push(w);
        i = i + 1;
    }
    ws
}

/// Sector count from IDENTIFY words.
pub fn identify_sector_count(ws: &[u16]) -> (n: u64)
    requires
        ws@.len() >= 256,
    ensures
        n as int == identify_sectors(ws@),
{
    if (ws[83] / 1024) % 2 == 1 {
        ws[100] as u64 + (ws[101] as u64) * 0x1_0000 + (ws[102] as u64) * 0x1_0000_0000 + (
        ws[103] as u64) * 0x1_0000_0000_0000
    } else {
        ws[60] as u64 + (ws[61] as u64) * 0x1_0000
    }
}

/// Text field of IDENTIFY words `from..to`, trimmed.
pub fn identify_text(ws: &[u16], from: usize, to: usize) -> (s: String)
    requires
        from <= to <= ws@.len(),
    ensures
        s@ == crate::util::trim(words_text(ws@, from as int, to as int)),
{
    let mut cs: Vec<char> = Vec::new();
    let mut i: usize = from;
    while i < to
        invariant
            from <= i <= to <= ws@.len(),
            cs@ == words_text(ws@, from as int, i as int),
        decreases to - i,
    {
        let w = ws[i];
        let hi: u8 = (w / 256) as u8;
        let lo: u8 = (w % 256) as u8;
        let ghost before = cs@;
        if hi >= 0x20 && hi < 0x7F {
            cs.push(hi as char);
        }
        let ghost mid = cs@;
        if lo >= 0x20 && lo < 0x7F {
            cs.push(lo as char);
        }
        assert(cs@ =~= before + word_text(w));
        i = i + 1;
    }
    let t = crate::util::trim_chars(&cs);
    crate::util::string_from_chars(&t)
}

/// Sector count, model (words 27..47) and serial number (words 10..20) of
/// an IDENTIFY DEVICE answer.
pub fn parse_identify(buf: &[u8]) -> (r: (u64, String, String))
    requires
        buf@.len() >= 512,
    ensures
        exists|ws: Seq<u16>|
            ws.len() == 256 && (forall|i: int| 0 <= i < 256 ==> #[trigger] ws[i] as int == crate::util::le16(buf@, 2 * i))
                && r.0 as int == identify_sectors(ws) && r.1@ == crate::util::trim(
                words_text(ws, 27, 47),
            ) && r.2@ == crate::util::trim(words_text(ws, 10, 20)),
{
    let ws = identify_words(buf);
    let n = identify_sector_count(ws.as_slice());
    let model = identify_text(ws.as_slice(), 27, 47);
    let serial = identify_text(ws.as_slice(), 10, 20);
    (n, model, serial)
}

/// Records what IDENTIFY reported for the device on `port_num` (the first
/// record on that port); other records are unchanged.
pub fn record_identify(ctrl: &mut Wf, port_num: u8, sector_count: u64, model: String, serial: String)
    ensures
        final(ctrl).ports@.len() == old(ctrl).ports@.len(),
        final(ctrl).initialized == old(ctrl).initialized,
        forall|i: int|
            0 <= i < old(ctrl).ports@.len() && !first_on_port(old(ctrl).ports@, port_num, i)
                ==> #[trigger] final(ctrl).ports@[i] == old(ctrl).ports@[i],
        forall|i: int|
            first_on_port(old(ctrl).ports@, port_num, i) ==> {
                let o = #[trigger] final(ctrl).ports@[i];
                o.port_num == port_num && o.device_type == old(ctrl).ports@[i].device_type
                    && o.sector_count == sector_count && o.model@ == model@ && o.serial@ == serial@
            },
{
    match find_port(&ctrl.ports, port_num) {
        Some(i) => {
            let t = ctrl.ports[i].device_type;
            let o = Oa { port_num, device_type: t, sector_count, model, serial };
            ctrl.ports.set(i, o);
        },
        None => {},
    }
}

/// Bytes a transfer of `count` sectors moves, once its arguments are
/// checked: 1 to 128 sectors, into a buffer large enough.
pub fn check_transfer(count: u16, buf_len: usize) -> (r: Result<usize, &'static str>)
    ensures
        (count == 0 || count > 128) ==> r == Err::<usize, &'static str>("Invalid sector count (1-128)"),
        (1 <= count <= 128 && buf_len < count * 512) ==> r == Err::<usize, &'static str>("Buffer too small"),
        (1 <= count <= 128 && buf_len >= count * 512) ==> r == Ok::<usize, &'static str>((count * 512) as usize),
{
    if count == 0 || count > 128 {
        return Err("Invalid sector count (1-128)");
    }
    let need = (count as usize) * SECTOR_SIZE;
    if buf_len < need {
        return Err("Buffer too small");
    }
    Ok(need)
}

/// Why a guarded storage operation failed: refused by the security policy
/// (with the policy's own error), or failed on the device.
pub enum StorageError<S> {
    Security(S),
    Io(&'static str),
}

/// What a guard decides before the disk is touched: `Ok` to go on, or the
/// error to return; and the audit record to write (whether the access was
/// allowed), if any.
pub type Guard<T, S> = (Result<T, StorageError<S>>, Option<bool>);

/// Guarded sector read: a refusal returns the policy's error unaudited; an
/// allowed read is audited as allowed before it runs.
pub fn qvd<S>(permission: Result<(), S>) -> (r: Guard<(), S>)
    ensures
        r == (match permission {
            Err(e) => (Err(StorageError::Security(e)), None),
            Ok(()) => (Ok(()), Some(true)),
        }),
{
    match permission {
        Err(e) => (Err(StorageError::Security(e)), None),
        Ok(()) => (Ok(()), Some(true)),
    }
}

/// Guarded sector write: a refusal is audited as denied and returned; an
/// allowed write is audited as allowed before it runs.
pub fn qve<S>(permission: Result<(), S>) -> (r: Guard<(), S>)
    ensures
        r == (match permission {
            Err(e) => (Err(StorageError::Security(e)), Some(false)),
            Ok(()) => (Ok(()), Some(true)),
        }),
{
    match permission {
        Err(e) => (Err(StorageError::Security(e)), Some(false)),
        Ok(()) => (Ok(()), Some(true)),
    }
}

/// Guarded low-level format of the disk on `port_num`: a refusal is audited
/// as denied and returned; once allowed, the disk must be on a port and of
/// known size, and the result is the number of sectors to overwrite with
/// zeros, from sector 0 up (the allowed audit follows the last write).
pub fn qvc<S>(ctrl: &Option<Wf>, port_num: u8, permission: Result<(), S>) -> (r: Guard<u64, S>)
    ensures
        permission is Err ==> r == (Err::<u64, StorageError<S>>(StorageError::Security(permission->Err_0)), Some(
            false,
        )),
        permission is Ok ==> r.1 is None,
        permission is Ok ==> match ctrl {
            None => r.0 == Err::<u64, StorageError<S>>(StorageError::Io("Port not found")),
            Some(c) => {
                (forall|j: int| 0 <= j < c.ports@.len() ==> c.ports@[j].port_num != port_num) ==> r.0
                    == Err::<u64, StorageError<S>>(StorageError::Io("Port not found"))
            },
        },
        permission is Ok ==> forall|i: int|
            #![trigger ctrl->Some_0.ports@[i]]
            ctrl is Some && first_on_port(ctrl->Some_0.ports@, port_num, i) ==> r.0 == (if ctrl->Some_0.ports@[i].sector_count
                == 0 {
                Err::<u64, StorageError<S>>(StorageError::Io("Unknown disk size"))
            } else {
                Ok(ctrl->Some_0.ports@[i].sector_count)
            }),
{
    match permission {
        Err(e) => {
            return (Err(StorageError::Security(e)), Some(false));
        },
        Ok(()) => {},
    }
    let dev = match fyw(ctrl, port_num) {
        Some(d) => d,
        None => {
            return (Err(StorageError::Io("Port not found")), None);
        },
    };
    proof {
        let i = choose|i: int| first_on_port(ctrl->Some_0.ports@, port_num, i) && same_device(dev, ctrl->Some_0.ports@[i]);
        assert forall|j: int| ctrl is Some && first_on_port(ctrl->Some_0.ports@, port_num, j) implies j == i by {
            if j < i {
                assert(ctrl->Some_0.ports@[j].port_num != port_num);
            } else if j > i {
                assert(ctrl->Some_0.ports@[i].port_num != port_num);
            }
        }
    }
    if dev.sector_count == 0 {
        (Err(StorageError::Io("Unknown disk size")), None)
    } else {
        (Ok(dev.sector_count), None)
    }
}

} // verus!
