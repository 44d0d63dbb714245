//! Legacy IDE (PATA) disks: channels and positions, status decoding while
//! waiting on a drive, IDENTIFY parsing and the table of drives found.
use vstd::prelude::*;
use crate::ahci::{identify_sectors, identify_sector_count};

verus! {

/// The two legacy IDE channels.
#[derive(Clone, Copy, Debug, PartialEq, Eq, Structural)]
pub enum IdeChannel {
    Primary,
    Secondary,
}

/// Master or slave on a channel.
#[derive(Clone, Copy, Debug, PartialEq, Eq, Structural)]
pub enum DrivePosition {
    Master,
    Slave,
}

/// I/O bases of the channels.
pub const PRIMARY_BASE: u16 = 0x1F0;
pub const SECONDARY_BASE: u16 = 0x170;

/// Status bits: error, data request, drive fault, busy.
pub const STATUS_ERR: u8 = 0x01;
pub const STATUS_DRQ: u8 = 0x08;
pub const STATUS_DF: u8 = 0x20;
pub const STATUS_BSY: u8 = 0x80;

/// What one status reading says while waiting for a drive to be ready:
/// `None` to keep waiting (busy); otherwise the outcome.
pub open spec fn ready_step_spec(status: u8) -> Option<Result<(), &'static str>> {
    if status == 0xFF {
        Some(Err("No drive"))
    } else if status / 128 == 0 {
        if status % 2 == 1 {
            Some(Err("Drive error"))
        } else if (status / 32) % 2 == 1 {
            Some(Err("Drive fault"))
        } else {
            Some(Ok(()))
        }
    } else {
        None
    }
}

pub fn ready_step(status: u8) -> (r: Option<Result<(), &'static str>>)
    ensures
        r == ready_step_spec(status),
{
    if status == 0xFF {
        Some(Err("No drive"))
    } else if status / 128 == 0 {
        if status % 2 == 1 {
            Some(Err("Drive error"))
        } else if (status / 32) % 2 == 1 {
            Some(Err("Drive fault"))
        } else {
            Some(Ok(()))
        }
    } else {
        None
    }
}

/// What one status reading says while waiting for data: an error ends
/// the wait; not busy with data requested means ready; else keep waiting.
pub open spec fn drq_step_spec(status: u8) -> Option<Result<(), &'static str>> {
    if status % 2 == 1 {
        Some(Err("Drive error"))
    } else if status / 128 == 0 && (status / 8) % 2 == 1 {
        Some(Ok(()))
    } else {
        None
    }
}

pub fn drq_step(status: u8) -> (r: Option<Result<(), &'static str>>)
    ensures
        r == drq_step_spec(status),
{
    if status % 2 == 1 {
        Some(Err("Drive error"))
    } else if status / 128 == 0 && (status / 8) % 2 == 1 {
        Some(Ok(()))
    } else {
        None
    }
}

/// A drive found on a channel.
#[derive(Debug)]
pub struct Pd {
    pub channel: IdeChannel,
    pub position: DrivePosition,
    pub present: bool,
    pub atapi: bool,
    pub lba48: bool,
    pub sector_count: u64,
    pub model: String,
    pub serial: String,
}

pub open spec fn same_drive(a: Pd, b: Pd) -> bool {
    a.channel == b.channel && a.position == b.position && a.present == b.present && a.atapi == b.atapi
        && a.lba48 == b.lba48 && a.sector_count == b.sector_count && a.model@ == b.model@ && a.serial@ == b.serial@
}

impl Pd {
    pub fn copy(&self) -> (d: Pd)
        ensures
            same_drive(d, *self),
    {
        Pd {
            channel: self.channel,
            position: self.position,
            present: self.present,
            atapi: self.atapi,
            lba48: self.lba48,
            sector_count: self.sector_count,
            model: self.model.clone(),
            serial: self.serial.clone(),
        }
    }
}

/// Characters an IDENTIFY word gives a legacy IDE text field: high byte
/// then low byte, each only when a printable non-space character.
pub open spec fn ide_word_text(w: u16) -> Seq<char> {
    let hi = w as int / 256;
    let lo = w as int % 256;
    (if 0x20 < hi < 0x7F { seq![hi as char] } else { Seq::<char>::empty() }) + (if 0x20 < lo < 0x7F {
        seq![lo as char]
    } else {
        Seq::<char>::empty()
    })
}

pub open spec fn ide_text(ws: Seq<u16>, from: int, to: int) -> Seq<char>
    decreases to - from,
{
    if to <= from {
        Seq::<char>::empty()
    } else {
        ide_text(ws, from, to - 1) + ide_word_text(ws[to - 1])
    }
}

fn ide_field(ws: &[u16], from: usize, to: usize) -> (s: String)
    requires
        from <= to <= ws@.len(),
    ensures
        s@ == crate::util::trim_end(ide_text(ws@, from as int, to as int)),
{
    let mut cs: Vec<char> = Vec::new();
    let mut i: usize = from;
    while i < to
        invariant
            from <= i <= to <= ws@.len(),
            cs@ == ide_text(ws@, from as int, i as int),
        decreases to - i,
    {
        let w = ws[i];
        let hi: u8 = (w / 256) as u8;
        let lo: u8 = (w % 256) as u8;
        let ghost before = cs@;
        if hi > 0x20 && hi < 0x7F {
            cs.push(hi as char);
        }
        if lo > 0x20 && lo < 0x7F {
            cs.push(lo as char);
        }
        assert(cs@ =~= before + ide_word_text(w));
        i = i + 1;
    }
    let t = crate::util::trim_end_chars(&cs);
    crate::util::string_from_chars(&t)
}

/// The drive an IDENTIFY answer describes: on the channel at `base`
/// (primary when it is 0x1F0), in the given position; 48-bit addressing
/// from word 83 bit 10; size as IDENTIFY gives it; model from words 27..47
/// and serial from words 10..20, trailing spaces removed.
pub fn parse_identify(ws: &[u16], base: u16, slave: bool, atapi: bool) -> (d: Pd)
    requires
        ws@.len() >= 256,
    ensures
        d.channel == (if base == PRIMARY_BASE { IdeChannel::Primary } else { IdeChannel::Secondary }),
        d.position == (if slave { DrivePosition::Slave } else { DrivePosition::Master }),
        d.present,
        d.atapi == atapi,
        d.lba48 == ((ws@[83] as int / 1024) % 2 == 1),
        d.sector_count == identify_sectors(ws@),
        d.model@ == crate::util::trim_end(ide_text(ws@, 27, 47)),
        d.serial@ == crate::util::trim_end(ide_text(ws@, 10, 20)),
{
    let lba48 = (ws[83] / 1024) % 2 == 1;
    let sector_count = identify_sector_count(ws);
    let model = ide_field(ws, 27, 47);
    let serial = ide_field(ws, 10, 20);
    let channel = if base == PRIMARY_BASE { IdeChannel::Primary } else { IdeChannel::Secondary };
    let position = if slave { DrivePosition::Slave } else { DrivePosition::Master };
    Pd { channel, position, present: true, atapi, lba48, sector_count, model, serial }
}

/// Whether the signature left in the LBA mid and high registers after a
/// failed IDENTIFY marks an ATAPI device.
pub fn is_atapi_signature(mid: u8, high: u8) -> (b: bool)
    ensures
        b == (mid == 0x14 && high == 0xEB),
{
    mid == 0x14 && high == 0xEB
}

/// The drives found.
pub struct Aac {
    pub drives: Vec<Pd>,
    pub initialized: bool,
}

/// Number of drives among probe results.
/// The drives of `s` that were found, in order.
pub open spec fn found_drives(s: Seq<Option<Pd>>) -> Seq<Pd>
    decreases s.len(),
{
    if s.len() == 0 {
        Seq::<Pd>::empty()
    } else {
        let rest = found_drives(s.drop_last());
        match s.last() {
            Some(d) => rest.push(d),
            None => rest,
        }
    }
}

pub fn igt(st: &mut Option<Aac>, found: Vec<Option<Pd>>) -> (ok: bool)
    ensures
        (*final(st)) is Some,
        final(st)->Some_0.drives@ == found_drives(found@),
        ok == (final(st)->Some_0.drives@.len() > 0),
        final(st)->Some_0.initialized == ok,
{
    let mut drives: Vec<Pd> = Vec::new();
    let mut found = found;
    let ghost all = found@;
    let mut i: usize = 0;
    let n = found.len();
    while i < n
        invariant
            i <= n == all.len(),
            found@.len() == all.len(),
            drives@ == found_drives(all.subrange(0, i as int)),
            forall|k: int| i <= k < n ==> found@[k] == all[k],
        decreases n - i,
    {
        let mut item: Option<Pd> = None;
        found.set_and_swap(i, &mut item);
        assert(all.subrange(0, i + 1).drop_last() =~= all.subrange(0, i as int));
        match item {
            Some(d) => drives.push(d),
            None => {},
        }
        i = i + 1;
    }
    assert(all.subrange(0, n as int) =~= all);
    let ok = drives.len() > 0;
    *st = Some(Aac { drives, initialized: ok });
    ok
}

/// Whether the drive in the given place uses 48-bit addressing (false
/// when there is none).
pub fn htt(st: &Option<Aac>, channel: IdeChannel, slave: bool) -> (b: bool)
    ensures
        match st {
            None => !b,
            Some(c) => {
                let pos = if slave { DrivePosition::Slave } else { DrivePosition::Master };
                (exists|i: int| 0 <= i < c.drives@.len() && c.drives@[i].channel == channel && c.drives@[i].position == pos
                    && (forall|j: int| 0 <= j < i ==> !(c.drives@[j].channel == channel && c.drives@[j].position == pos))
                    && b == c.drives@[i].lba48) || ((forall|j: int| 0 <= j < c.drives@.len() ==> !(c.drives@[j].channel == channel
                    && c.drives@[j].position == pos)) && !b)
            },
        },
{
    let pos = if slave { DrivePosition::Slave } else { DrivePosition::Master };
    match st {
        None => false,
        Some(c) => match find_drive(&c.drives, channel, pos) {
            Some(i) => c.drives[i].lba48,
            None => false,
        },
    }
}

fn find_drive(drives: &Vec<Pd>, channel: IdeChannel, pos: DrivePosition) -> (r: Option<usize>)
    ensures
        match r {
            Some(i) => i < drives@.len() && drives@[i as int].channel == channel && drives@[i as int].position == pos
                && forall|j: int| 0 <= j < i ==> !(drives@[j].channel == channel && drives@[j].position == pos),
            None => forall|j: int| 0 <= j < drives@.len() ==> !(drives@[j].channel == channel && drives@[j].position == pos),
        },
{
    let mut i: usize = 0;
    while i < drives.len()
        invariant
            i <= drives@.len(),
            forall|j: int| 0 <= j < i ==> !(drives@[j].channel == channel && drives@[j].position == pos),
        decreases drives@.len() - i,
    {
        if drives[i].channel == channel && drives[i].position == pos {
            return Some(i);
        }
        i = i + 1;
    }
    None
}

/// Copies of the drives found.
pub fn eta(st: &Option<Aac>) -> (v: Vec<Pd>)
    ensures
        match st {
            Some(c) => v@.len() == c.drives@.len() && forall|i: int|
                0 <= i < v@.len() ==> same_drive(#[trigger] v@[i], c.drives@[i]),
            None => v@.len() == 0,
        },
{
    let mut v: Vec<Pd> = Vec::new();
    match st {
        Some(c) => {
            let mut i: usize = 0;
            while i < c.drives.len()
                invariant
                    i <= c.drives@.len(),
                    v@.len() == i,
                    forall|k: int| 0 <= k < i ==> same_drive(#[trigger] v@[k], c.drives@[k]),
                decreases c.drives@.len() - i,
            {
                v.push(c.drives[i].copy());
                i = i + 1;
            }
        },
        None => {},
    }
    v
}

/// Whether IDE was set up with at least one drive.
pub fn is_initialized(st: &Option<Aac>) -> (b: bool)
    ensures
        b == match st {
            Some(c) => c.initialized,
            None => false,
        },
{
    match st {
        Some(c) => c.initialized,
        None => false,
    }
}

/// Commands: IDENTIFY, IDENTIFY PACKET, READ and WRITE SECTORS (LBA28 and
/// LBA48), CACHE FLUSH (LBA28 and LBA48).
pub const CMD_IDENTIFY: u8 = 0xEC;
pub const CMD_IDENTIFY_PACKET: u8 = 0xA1;
pub const CMD_READ: u8 = 0x20;
pub const CMD_READ_EXT: u8 = 0x24;
pub const CMD_WRITE: u8 = 0x30;
pub const CMD_WRITE_EXT: u8 = 0x34;
pub const CMD_FLUSH: u8 = 0xE7;
pub const CMD_FLUSH_EXT: u8 = 0xEA;

/// Byte `k` (0 to 5, from the least significant) of a block address.
pub open spec fn lba_byte(lba: u64, k: nat) -> u8 {
    let scale: int = if k == 0 { 1 } else if k == 1 { 0x100 } else if k == 2 { 0x10000 } else if k == 3 {
        0x1000000
    } else if k == 4 { 0x100000000 } else { 0x10000000000 };
    ((lba as int / scale) % 256) as u8
}

/// The task-file writes that start a PIO transfer of `count` sectors at
/// `lba`: (offset from the channel base, byte) in issue order, the command
/// last.  With LBA48 the high address bytes go first, then the low ones.
pub open spec fn task_file_spec(lba: u64, count: u8, slave: bool, lba48: bool, write: bool) -> Seq<(u16, u8)> {
    let sel: u8 = if slave { 0x10 } else { 0 };
    if lba48 {
        seq![(2u16, 0u8), (3u16, lba_byte(lba, 3)), (4u16, lba_byte(lba, 4)), (5u16, lba_byte(lba, 5)),
            (2u16, count), (3u16, lba_byte(lba, 0)), (4u16, lba_byte(lba, 1)), (5u16, lba_byte(lba, 2)),
            (6u16, (0x40 + sel) as u8), (7u16, if write { CMD_WRITE_EXT } else { CMD_READ_EXT })]
    } else {
        seq![(2u16, count), (3u16, lba_byte(lba, 0)), (4u16, lba_byte(lba, 1)), (5u16, lba_byte(lba, 2)),
            (6u16, (0xE0 + sel + lba_byte(lba, 3) % 16) as u8), (7u16, if write { CMD_WRITE } else { CMD_READ })]
    }
}

/// The registers to program for a sector transfer; refused when the
/// buffer cannot hold `count` sectors.
pub fn transfer_registers(buf_len: usize, lba: u64, count: u8, slave: bool, lba48: bool, write: bool)
    -> (r: Result<Vec<(u16, u8)>, &'static str>)
    ensures
        buf_len < count as int * 512 <==> r is Err,
        r is Err ==> r->Err_0 == "Buffer too small",
        r is Ok ==> r->Ok_0@ == task_file_spec(lba, count, slave, lba48, write),
{
    if buf_len < count as usize * 512 {
        return Err("Buffer too small");
    }
    let b0 = (lba % 256) as u8;
    let b1 = (lba / 0x100 % 256) as u8;
    let b2 = (lba / 0x10000 % 256) as u8;
    let b3 = (lba / 0x1000000 % 256) as u8;
    let b4 = (lba / 0x100000000 % 256) as u8;
    let b5 = (lba / 0x10000000000 % 256) as u8;
    let sel: u8 = if slave { 0x10 } else { 0 };
    let mut v: Vec<(u16, u8)> = Vec::new();
    if lba48 {
        v.push((2, 0));
        v.push((3, b3));
        v.push((4, b4));
        v.push((5, b5));
        v.push((2, count));
        v.push((3, b0));
        v.push((4, b1));
        v.push((5, b2));
        v.push((6, 0x40 + sel));
        v.push((7, if write { CMD_WRITE_EXT } else { CMD_READ_EXT }));
    } else {
        v.push((2, count));
        v.push((3, b0));
        v.push((4, b1));
        v.push((5, b2));
        v.push((6, 0xE0 + sel + b3 % 16));
        v.push((7, if write { CMD_WRITE } else { CMD_READ }));
    }
    assert(v@ =~= task_file_spec(lba, count, slave, lba48, write));
    Ok(v)
}

/// The cache flush that ends a write.
pub fn flush_command(lba48: bool) -> (c: u8)
    ensures
        c == if lba48 { CMD_FLUSH_EXT } else { CMD_FLUSH },
{
    if lba48 { CMD_FLUSH_EXT } else { CMD_FLUSH }
}

} // verus!
