//! MBR and GPT partition tables: decoding the on-disk sectors into a list of
//! partitions.
use vstd::prelude::*;
use crate::util::{le16, le32, le64, read_le16, read_le32, read_le64, string_from_chars};

verus! {

/// Bytes per sector.
pub const SECTOR_SIZE: usize = 512;

/// A partition found on a disk.
#[derive(Debug, Clone)]
pub struct Pv {
    /// 1-based number of the partition in its table.
    pub number: u8,
    pub start_lba: u64,
    pub size_sectors: u64,
    pub partition_type: PartitionType,
    pub bootable: bool,
    /// GPT partition name (empty for MBR).
    pub name: String,
    /// GPT unique partition GUID.
    pub guid: Option<[u8; 16]>,
}

impl Pv {
    /// Size of the partition in bytes.
    pub fn size_bytes(&self) -> (r: u64)
        requires
            self.size_sectors * 512 <= u64::MAX,
        ensures
            r == self.size_sectors * 512,
    {
        self.size_sectors * 512
    }

    /// Last sector of the partition.
    pub fn end_lba(&self) -> (r: u64)
        requires
            self.start_lba + self.size_sectors >= 1,
            self.start_lba + self.size_sectors <= u64::MAX,
        ensures
            r == self.start_lba + self.size_sectors - 1,
    {
        self.start_lba + self.size_sectors - 1
    }
}

#[derive(Debug, Clone, Copy)]
pub enum PartitionType {
    Empty,
    Fat12,
    Fat16Small,
    Fat16,
    Extended,
    Fat32,
    Fat32Lba,
    Ntfs,
    LinuxSwap,
    LinuxFilesystem,
    LinuxLvm,
    EfiSystem,
    MicrosoftReserved,
    MicrosoftBasicData,
    LinuxFilesystemGpt,
    LinuxRoot,
    LinuxHome,
    GptProtective,
    Unknown(u8),
    UnknownGpt([u8; 16]),
}

/// The partition type that an MBR type byte denotes.
pub open spec fn spec_mbr_type(b: u8) -> PartitionType {
    if b == 0x00 {
        PartitionType::Empty
    } else if b == 0x01 {
        PartitionType::Fat12
    } else if b == 0x04 {
        PartitionType::Fat16Small
    } else if b == 0x05 || b == 0x0F {
        PartitionType::Extended
    } else if b == 0x06 || b == 0x0E {
        PartitionType::Fat16
    } else if b == 0x07 {
        PartitionType::Ntfs
    } else if b == 0x0B {
        PartitionType::Fat32
    } else if b == 0x0C {
        PartitionType::Fat32Lba
    } else if b == 0x82 {
        PartitionType::LinuxSwap
    } else if b == 0x83 {
        PartitionType::LinuxFilesystem
    } else if b == 0x8E {
        PartitionType::LinuxLvm
    } else if b == 0xEE {
        PartitionType::GptProtective
    } else if b == 0xEF {
        PartitionType::EfiSystem
    } else {
        PartitionType::Unknown(b)
    }
}

pub open spec fn efi_system_guid() -> Seq<u8> {
    seq![0x28u8, 0x73, 0x2A, 0xC1, 0x1F, 0xF8, 0xD2, 0x11, 0xBA, 0x4B, 0x00, 0xA0, 0xC9, 0x3E, 0xC9, 0x3B]
}

pub open spec fn ms_basic_data_guid() -> Seq<u8> {
    seq![0xA2u8, 0xA0, 0xD0, 0xEB, 0xE5, 0xB9, 0x33, 0x44, 0x87, 0xC0, 0x68, 0xB6, 0xB7, 0x26, 0x99, 0xC7]
}

pub open spec fn ms_reserved_guid() -> Seq<u8> {
    seq![0x16u8, 0xE3, 0xC9, 0xE3, 0x5C, 0x0B, 0xB8, 0x4D, 0x81, 0x7D, 0xF9, 0x2D, 0xF0, 0x02, 0x15, 0xAE]
}

pub open spec fn linux_fs_guid() -> Seq<u8> {
    seq![0xAFu8, 0x3D, 0xC6, 0x0F, 0x83, 0x84, 0x72, 0x47, 0x8E, 0x79, 0x3D, 0x69, 0xD8, 0x47, 0x7D, 0xE4]
}

pub open spec fn linux_swap_guid() -> Seq<u8> {
    seq![0x6Du8, 0xFD, 0x57, 0x06, 0xAB, 0xA4, 0xC4, 0x43, 0x84, 0xE5, 0x09, 0x33, 0xC8, 0x4B, 0x4F, 0x4F]
}

pub open spec fn linux_root_guid() -> Seq<u8> {
    seq![0xE3u8, 0xBC, 0x68, 0x4F, 0xCD, 0xE8, 0xB1, 0x4D, 0x96, 0xE7, 0xFB, 0xCA, 0xF9, 0x84, 0xB7, 0x09]
}

pub open spec fn linux_home_guid() -> Seq<u8> {
    seq![0xE1u8, 0xC7, 0x3A, 0x93, 0xB4, 0x2E, 0x13, 0x4F, 0xB8, 0x44, 0x0E, 0x14, 0xE2, 0xAE, 0xF9, 0x15]
}

pub open spec fn zero_guid() -> Seq<u8> {
    Seq::new(16, |i: int| 0u8)
}

/// Whether `t` is the partition type that the GPT type GUID `g` denotes.
pub open spec fn is_gpt_type(g: Seq<u8>, t: PartitionType) -> bool {
    if g == efi_system_guid() {
        t is EfiSystem
    } else if g == ms_basic_data_guid() {
        t is MicrosoftBasicData
    } else if g == ms_reserved_guid() {
        t is MicrosoftReserved
    } else if g == linux_fs_guid() {
        t is LinuxFilesystemGpt
    } else if g == linux_swap_guid() {
        t is LinuxSwap
    } else if g == linux_root_guid() {
        t is LinuxRoot
    } else if g == linux_home_guid() {
        t is LinuxHome
    } else if g == zero_guid() {
        t is Empty
    } else {
        t matches PartitionType::UnknownGpt(a) && a@ == g
    }
}

fn bytes_equal16(a: &[u8; 16], b: &[u8; 16]) -> (r: bool)
    ensures
        r == (a@ == b@),
{
    let mut i: usize = 0;
    while i < 16
        invariant
            i <= 16,
            a@.len() == 16,
            b@.len() == 16,
            forall|j: int| 0 <= j < i ==> a@[j] == b@[j],
        decreases 16 - i,
    {
        if a[i] != b[i] {
            return false;
        }
        i = i + 1;
    }
    assert(a@ =~= b@);
    true
}

/// Display name of a partition type.
pub open spec fn partition_type_label(t: PartitionType) -> Seq<char> {
    match t {
        PartitionType::Empty => "Empty"@,
        PartitionType::Fat12 => "FAT12"@,
        PartitionType::Fat16Small => "FAT16 (<32M)"@,
        PartitionType::Fat16 => "FAT16"@,
        PartitionType::Extended => "Extended"@,
        PartitionType::Fat32 => "FAT32"@,
        PartitionType::Fat32Lba => "FAT32 LBA"@,
        PartitionType::Ntfs => "NTFS/exFAT"@,
        PartitionType::LinuxSwap => "Linux swap"@,
        PartitionType::LinuxFilesystem => "Linux"@,
        PartitionType::LinuxLvm => "Linux LVM"@,
        PartitionType::EfiSystem => "EFI System"@,
        PartitionType::MicrosoftReserved => "MS Reserved"@,
        PartitionType::MicrosoftBasicData => "MS Basic Data"@,
        PartitionType::LinuxFilesystemGpt => "Linux"@,
        PartitionType::LinuxRoot => "Linux root"@,
        PartitionType::LinuxHome => "Linux home"@,
        PartitionType::GptProtective => "GPT Protective"@,
        PartitionType::Unknown(_) => "Unknown"@,
        PartitionType::UnknownGpt(_) => "Unknown GPT"@,
    }
}

impl PartitionType {
    /// Display name of the partition type.
    pub fn name(&self) -> (r: &'static str)
        ensures
            r@ == partition_type_label(*self),
    {
        match self {
            Self::Empty => "Empty",
            Self::Fat12 => "FAT12",
            Self::Fat16Small => "FAT16 (<32M)",
            Self::Fat16 => "FAT16",
            Self::Extended => "Extended",
            Self::Fat32 => "FAT32",
            Self::Fat32Lba => "FAT32 LBA",
            Self::Ntfs => "NTFS/exFAT",
            Self::LinuxSwap => "Linux swap",
            Self::LinuxFilesystem => "Linux",
            Self::LinuxLvm => "Linux LVM",
            Self::EfiSystem => "EFI System",
            Self::MicrosoftReserved => "MS Reserved",
            Self::MicrosoftBasicData => "MS Basic Data",
            Self::LinuxFilesystemGpt => "Linux",
            Self::LinuxRoot => "Linux root",
            Self::LinuxHome => "Linux home",
            Self::GptProtective => "GPT Protective",
            Self::Unknown(_) => "Unknown",
            Self::UnknownGpt(_) => "Unknown GPT",
        }
    }

    /// The type an MBR type byte decodes to.
    pub open spec fn lzl_spec(type_byte: u8) -> Self {
        spec_mbr_type(type_byte)
    }

    /// Type of an MBR partition, from its type byte.
    pub fn lzl(type_byte: u8) -> (r: Self)
        ensures
            r == spec_mbr_type(type_byte),
            r == Self::lzl_spec(type_byte),
    {
        match type_byte {
            0x00 => Self::Empty,
            0x01 => Self::Fat12,
            0x04 => Self::Fat16Small,
            0x05 | 0x0F => Self::Extended,
            0x06 | 0x0E => Self::Fat16,
            0x07 => Self::Ntfs,
            0x0B => Self::Fat32,
            0x0C => Self::Fat32Lba,
            0x82 => Self::LinuxSwap,
            0x83 => Self::LinuxFilesystem,
            0x8E => Self::LinuxLvm,
            0xEE => Self::GptProtective,
            0xEF => Self::EfiSystem,
            other => Self::Unknown(other),
        }
    }

    /// Type of a GPT partition, from its type GUID (mixed-endian byte order,
    /// as stored on disk).
    pub fn lzg(guid: &[u8; 16]) -> (r: Self)
        ensures
            is_gpt_type(guid@, r),
    {
        let efi: [u8; 16] = [0x28, 0x73, 0x2A, 0xC1, 0x1F, 0xF8, 0xD2, 0x11, 0xBA, 0x4B, 0x00, 0xA0, 0xC9, 0x3E, 0xC9, 0x3B];
        let basic: [u8; 16] = [0xA2, 0xA0, 0xD0, 0xEB, 0xE5, 0xB9, 0x33, 0x44, 0x87, 0xC0, 0x68, 0xB6, 0xB7, 0x26, 0x99, 0xC7];
        let reserved: [u8; 16] = [0x16, 0xE3, 0xC9, 0xE3, 0x5C, 0x0B, 0xB8, 0x4D, 0x81, 0x7D, 0xF9, 0x2D, 0xF0, 0x02, 0x15, 0xAE];
        let linux: [u8; 16] = [0xAF, 0x3D, 0xC6, 0x0F, 0x83, 0x84, 0x72, 0x47, 0x8E, 0x79, 0x3D, 0x69, 0xD8, 0x47, 0x7D, 0xE4];
        let swap: [u8; 16] = [0x6D, 0xFD, 0x57, 0x06, 0xAB, 0xA4, 0xC4, 0x43, 0x84, 0xE5, 0x09, 0x33, 0xC8, 0x4B, 0x4F, 0x4F];
        let root: [u8; 16] = [0xE3, 0xBC, 0x68, 0x4F, 0xCD, 0xE8, 0xB1, 0x4D, 0x96, 0xE7, 0xFB, 0xCA, 0xF9, 0x84, 0xB7, 0x09];
        let home: [u8; 16] = [0xE1, 0xC7, 0x3A, 0x93, 0xB4, 0x2E, 0x13, 0x4F, 0xB8, 0x44, 0x0E, 0x14, 0xE2, 0xAE, 0xF9, 0x15];
        let zero: [u8; 16] = [0u8; 16];
        assert(efi@ =~= efi_system_guid());
        assert(basic@ =~= ms_basic_data_guid());
        assert(reserved@ =~= ms_reserved_guid());
        assert(linux@ =~= linux_fs_guid());
        assert(swap@ =~= linux_swap_guid());
        assert(root@ =~= linux_root_guid());
        assert(home@ =~= linux_home_guid());
        assert(zero@ =~= zero_guid());
        if bytes_equal16(guid, &efi) {
            Self::EfiSystem
        } else if bytes_equal16(guid, &basic) {
            Self::MicrosoftBasicData
        } else if bytes_equal16(guid, &reserved) {
            Self::MicrosoftReserved
        } else if bytes_equal16(guid, &linux) {
            Self::LinuxFilesystemGpt
        } else if bytes_equal16(guid, &swap) {
            Self::LinuxSwap
        } else if bytes_equal16(guid, &root) {
            Self::LinuxRoot
        } else if bytes_equal16(guid, &home) {
            Self::LinuxHome
        } else if bytes_equal16(guid, &zero) {
            Self::Empty
        } else {
            Self::UnknownGpt(*guid)
        }
    }
}


/// Kind of partition table found on a disk.
#[derive(Debug, Clone, Copy, PartialEq, Eq, Structural)]
pub enum PartitionTableType {
    /// No partition table was found.
    Absent,
    Fu,
    Gpt,
}

/// The partition table of a disk.
#[derive(Debug, Clone)]
pub struct PartitionTable {
    pub table_type: PartitionTableType,
    pub partitions: Vec<Pv>,
    pub disk_guid: Option<[u8; 16]>,
    /// Size of the disk in sectors.
    pub zp: u64,
}

impl PartitionTable {
    /// A table that holds no partition.
    pub fn empty() -> (r: Self)
        ensures
            r.table_type == PartitionTableType::Absent,
            r.partitions@.len() == 0,
            r.disk_guid is None,
            r.zp == 0,
    {
        Self { table_type: PartitionTableType::Absent, partitions: Vec::new(), disk_guid: None, zp: 0 }
    }
}

// ---------------------------------------------------------------- MBR

/// Offset of the `i`-th of the four MBR partition entries.
pub open spec fn mbr_entry_off(i: int) -> int {
    446 + 16 * i
}

/// Whether the `i`-th MBR entry describes a partition (non-zero type and size).
pub open spec fn mbr_entry_used(s: Seq<u8>, i: int) -> bool {
    s[mbr_entry_off(i) + 4] != 0 && le32(s, mbr_entry_off(i) + 12) != 0
}

/// Indices, in order, of the used entries among the first `n` MBR entries.
pub open spec fn mbr_used_upto(s: Seq<u8>, n: nat) -> Seq<int>
    decreases n,
{
    if n == 0 {
        Seq::empty()
    } else {
        let prev = mbr_used_upto(s, (n - 1) as nat);
        if mbr_entry_used(s, n - 1) {
            prev.push(n - 1)
        } else {
            prev
        }
    }
}

/// Whether `p` is the partition that MBR entry `i` of sector `s` describes.
pub open spec fn is_mbr_partition(p: Pv, s: Seq<u8>, i: int) -> bool {
    let o = mbr_entry_off(i);
    &&& p.number == i + 1
    &&& p.start_lba == le32(s, o + 8)
    &&& p.size_sectors == le32(s, o + 12)
    &&& p.partition_type == spec_mbr_type(s[o + 4])
    &&& p.bootable == (s[o] == 0x80)
    &&& p.name@ == Seq::<char>::empty()
    &&& p.guid is None
}

/// Whether `t` is the MBR table that sector 0 `s` holds, on a disk of `zp` sectors.
pub open spec fn is_mbr_table(t: PartitionTable, s: Seq<u8>, zp: u64) -> bool {
    let used = mbr_used_upto(s, 4);
    &&& t.table_type == PartitionTableType::Fu
    &&& t.disk_guid is None
    &&& t.zp == zp
    &&& t.partitions@.len() == used.len()
    &&& forall|j: int| 0 <= j < used.len() ==> is_mbr_partition(#[trigger] t.partitions@[j], s, used[j])
}

/// Whether sector 0 carries the MBR boot signature 0xAA55.
pub open spec fn has_mbr_signature(s: Seq<u8>) -> bool {
    le16(s, 510) == 0xAA55
}

/// Whether one of the four MBR entries is a GPT protective entry.
pub open spec fn has_protective_entry(s: Seq<u8>) -> bool {
    exists|i: int| 0 <= i < 4 && #[trigger] s[mbr_entry_off(i) + 4] == 0xEE
}

proof fn lemma_mbr_used_bounds(s: Seq<u8>, n: nat)
    ensures
        mbr_used_upto(s, n).len() <= n,
        forall|j: int| 0 <= j < mbr_used_upto(s, n).len() ==> 0 <= #[trigger] mbr_used_upto(s, n)[j] < n,
    decreases n,
{
    if n > 0 {
        lemma_mbr_used_bounds(s, (n - 1) as nat);
    }
}

/// The partitions of an MBR partition table, from the 512 bytes of sector 0.
pub fn gmm(sector: &[u8], zp: u64) -> (t: PartitionTable)
    requires
        sector.len() >= 512,
    ensures
        is_mbr_table(t, sector@, zp),
{
    let mut partitions: Vec<Pv> = Vec::new();
    let mut i: usize = 0;
    while i < 4
        invariant
            i <= 4,
            sector.len() >= 512,
            partitions@.len() == mbr_used_upto(sector@, i as nat).len(),
            forall|j: int| 0 <= j < partitions@.len() ==> is_mbr_partition(#[trigger] partitions@[j], sector@, mbr_used_upto(sector@, i as nat)[j]),
        decreases 4 - i,
    {
        let o: usize = 446 + 16 * i;
        let ptype = sector[o + 4];
        let size = read_le32(sector, o + 12);
        if ptype != 0 && size != 0 {
            let start = read_le32(sector, o + 8);
            let p = Pv {
                number: (i + 1) as u8,
                start_lba: start as u64,
                size_sectors: size as u64,
                partition_type: PartitionType::lzl(ptype),
                bootable: sector[o] == 0x80,
                name: String::new(),
                guid: None,
            };
            partitions.push(p);
        }
        i = i + 1;
    }
    PartitionTable { table_type: PartitionTableType::Fu, partitions, disk_guid: None, zp }
}

/// What sector 0 tells about the disk's partitioning.
#[derive(Debug, Clone, Copy, PartialEq, Eq, Structural)]
pub enum MbrKind {
    /// No boot signature: no partition table.
    NoSignature,
    /// A GPT protective entry is present: the disk should carry a GPT.
    Protective,
    /// A plain MBR table.
    Plain,
}

/// Classifies sector 0 by its boot signature and its entries' types.
pub fn classify_mbr(sector: &[u8]) -> (k: MbrKind)
    requires
        sector.len() >= 512,
    ensures
        k == (if !has_mbr_signature(sector@) {
            MbrKind::NoSignature
        } else if has_protective_entry(sector@) {
            MbrKind::Protective
        } else {
            MbrKind::Plain
        }),
{
    let sig = read_le16(sector, 510);
    if sig != 0xAA55 {
        return MbrKind::NoSignature;
    }
    let mut i: usize = 0;
    while i < 4
        invariant
            i <= 4,
            sector.len() >= 512,
            forall|j: int| 0 <= j < i ==> sector@[mbr_entry_off(j) + 4] != 0xEE,
            has_mbr_signature(sector@),
        decreases 4 - i,
    {
        if sector[446 + 16 * i + 4] == 0xEE {
            assert(sector@[mbr_entry_off(i as int) + 4] == 0xEE);
            assert(has_protective_entry(sector@));
            return MbrKind::Protective;
        }
        i = i + 1;
    }
    assert(!has_protective_entry(sector@)) by {
        assert forall|j: int| 0 <= j < 4 implies sector@[mbr_entry_off(j) + 4] != 0xEE by {}
    }
    MbrKind::Plain
}

// ---------------------------------------------------------------- GPT

/// "EFI PART" read as a little-endian 64-bit number.
pub open spec fn gpt_signature() -> int {
    0x5452415020494645
}

/// The fields of a GPT header that locating the partition entries needs.
#[derive(Debug, Clone, Copy)]
pub struct GptHeader {
    pub partition_entry_lba: u64,
    pub num_partition_entries: u32,
    pub partition_entry_size: u32,
    pub disk_guid: [u8; 16],
}

/// Whether `h` holds the fields of the GPT header sector `s`.
pub open spec fn is_gpt_header(h: GptHeader, s: Seq<u8>) -> bool {
    &&& h.partition_entry_lba == le64(s, 72)
    &&& h.num_partition_entries == le32(s, 80)
    &&& h.partition_entry_size == le32(s, 84)
    &&& h.disk_guid@ == s.subrange(56, 72)
}

/// Decodes the GPT header in sector 1; fails when the signature is missing.
pub fn parse_gpt_header(sector: &[u8]) -> (r: Result<GptHeader, &'static str>)
    requires
        sector.len() >= 512,
    ensures
        r is Ok <==> le64(sector@, 0) == gpt_signature(),
        r matches Ok(h) ==> is_gpt_header(h, sector@),
        r matches Err(e) ==> e == "Invalid GPT signature",
{
    let sig = read_le64(sector, 0);
    if sig != 0x5452415020494645 {
        return Err("Invalid GPT signature");
    }
    let mut guid = [0u8; 16];
    let mut i: usize = 0;
    while i < 16
        invariant
            i <= 16,
            sector.len() >= 512,
            guid@.len() == 16,
            forall|j: int| 0 <= j < i ==> guid@[j] == sector@[56 + j],
        decreases 16 - i,
    {
        guid[i] = sector[56 + i];
        i = i + 1;
    }
    assert(guid@ =~= sector@.subrange(56, 72));
    Ok(GptHeader {
        partition_entry_lba: read_le64(sector, 72),
        num_partition_entries: read_le32(sector, 80),
        partition_entry_size: read_le32(sector, 84),
        disk_guid: guid,
    })
}

/// Whether a header's entry size lets the entries be located (the entry
/// arithmetic divides by the entry size and by the entries per sector).
pub open spec fn gpt_entry_size_ok(h: GptHeader) -> bool {
    0 < h.partition_entry_size <= 512
}

/// Number of partition entries that fit in one sector.
pub open spec fn entries_per_sector(h: GptHeader) -> int {
    512int / (h.partition_entry_size as int)
}

/// Number of sectors that hold the partition entry array.
pub open spec fn entry_sector_count(h: GptHeader) -> int {
    (h.num_partition_entries + entries_per_sector(h) - 1) / entries_per_sector(h)
}

/// Number of entries per sector and number of sectors of the entry array.
pub fn gpt_entry_layout(h: &GptHeader) -> (r: (usize, u64))
    requires
        gpt_entry_size_ok(*h),
    ensures
        r.0 == entries_per_sector(*h),
        r.1 == entry_sector_count(*h),
        1 <= r.0 <= 512,
{
    let per: usize = 512 / (h.partition_entry_size as usize);
    assert(1 <= per <= 512) by (nonlinear_arith)
        requires per == 512int / (h.partition_entry_size as int), 0 < h.partition_entry_size <= 512;
    let sectors: u64 = ((h.num_partition_entries as u64) + per as u64 - 1) / (per as u64);
    (per, sectors)
}

/// Number of the entry slots of one sector that are read: those that lie
/// within the sector, among the first `entries_per_sector`.
pub open spec fn slot_count(h: GptHeader) -> int
    decreases 0int,
{
    slot_count_from(h, 0)
}

pub open spec fn slot_count_from(h: GptHeader, k: int) -> int
    decreases entries_per_sector(h) - k,
{
    if k < 0 || k >= entries_per_sector(h) || k * h.partition_entry_size + 128 > 512 {
        0
    } else {
        1 + slot_count_from(h, k + 1)
    }
}

/// Offset of the `k`-th entry slot within a sector.
pub open spec fn slot_off(h: GptHeader, k: int) -> int {
    k * h.partition_entry_size
}

/// Whether the entry at `o` is in use (its type GUID is not all zero).
pub open spec fn gpt_entry_used(s: Seq<u8>, o: int) -> bool {
    s.subrange(o, o + 16) != zero_guid()
}

/// Name of a GPT entry: its UTF-16 code units up to the first zero, keeping
/// those below 128.
pub open spec fn gpt_name_from(s: Seq<u8>, o: int, k: int) -> Seq<char>
    decreases 36 - k,
{
    if k < 0 || k >= 36 {
        Seq::empty()
    } else {
        let c = le16(s, o + 56 + 2 * k);
        if c == 0 {
            Seq::empty()
        } else if c < 128 {
            seq![(c as u8) as char] + gpt_name_from(s, o, k + 1)
        } else {
            gpt_name_from(s, o, k + 1)
        }
    }
}

/// Whether `p` is the partition that the used GPT entry at `o` describes,
/// with number `number`.
#[verifier::opaque]
pub open spec fn is_gpt_partition(p: Pv, s: Seq<u8>, o: int, number: u8) -> bool {
    let start = le64(s, o + 32) as u64;
    let end = le64(s, o + 40) as u64;
    &&& p.number == number
    &&& p.start_lba == start
    &&& p.size_sectors == end.wrapping_sub(start).wrapping_add(1)
    &&& is_gpt_type(s.subrange(o, o + 16), p.partition_type)
    &&& p.bootable == (le64(s, o + 48) as u64 & 0x04 != 0)
    &&& p.name@ == gpt_name_from(s, o, 0)
    &&& p.guid matches Some(g) && g@ == s.subrange(o + 16, o + 32)
}

/// Slot indices, in order, of the used entries among the first `n` slots.
pub open spec fn gpt_used_upto(h: GptHeader, s: Seq<u8>, n: nat) -> Seq<int>
    decreases n,
{
    if n == 0 {
        Seq::empty()
    } else {
        let prev = gpt_used_upto(h, s, (n - 1) as nat);
        if gpt_entry_used(s, slot_off(h, n - 1)) {
            prev.push(n - 1)
        } else {
            prev
        }
    }
}

proof fn lemma_slot_count_from(h: GptHeader, k: int)
    requires
        gpt_entry_size_ok(h),
        0 <= k <= entries_per_sector(h),
    ensures
        0 <= slot_count_from(h, k),
        k + slot_count_from(h, k) <= entries_per_sector(h),
        forall|j: int| k <= j < k + slot_count_from(h, k) ==> slot_off(h, j) + 128 <= 512,
        k + slot_count_from(h, k) < entries_per_sector(h) ==> slot_off(h, k + slot_count_from(h, k)) + 128 > 512,
    decreases entries_per_sector(h) - k,
{
    if k < entries_per_sector(h) && k * h.partition_entry_size + 128 <= 512 {
        lemma_slot_count_from(h, k + 1);
    }
}

fn copy16(s: &[u8], off: usize) -> (g: [u8; 16])
    requires
        off + 16 <= s.len(),
    ensures
        g@ == s@.subrange(off as int, off as int + 16),
{
    let mut g = [0u8; 16];
    let mut i: usize = 0;
    while i < 16
        invariant
            i <= 16,
            off + 16 <= s.len(),
            g@.len() == 16,
            forall|j: int| 0 <= j < i ==> g@[j] == s@[off + j],
        decreases 16 - i,
    {
        g[i] = s[off + i];
        i = i + 1;
    }
    assert(g@ =~= s@.subrange(off as int, off as int + 16));
    g
}

fn all_zero16(g: &[u8; 16]) -> (r: bool)
    ensures
        r == (g@ == zero_guid()),
{
    let zero: [u8; 16] = [0u8; 16];
    assert(zero@ =~= zero_guid());
    bytes_equal16(g, &zero)
}

/// Name of the GPT entry at `o`.
fn gpt_entry_name(s: &[u8], o: usize) -> (name: String)
    requires
        o + 128 <= s.len(),
    ensures
        name@ == gpt_name_from(s@, o as int, 0),
{
    let mut chars: Vec<char> = Vec::new();
    let mut k: usize = 0;
    while k < 36
        invariant_except_break
            k <= 36,
            o + 128 <= s.len(),
            chars@ + gpt_name_from(s@, o as int, k as int) == gpt_name_from(s@, o as int, 0),
        ensures
            chars@ == gpt_name_from(s@, o as int, 0),
        decreases 36 - k,
    {
        let c = read_le16(s, o + 56 + 2 * k);
        if c == 0 {
            assert(chars@ + Seq::<char>::empty() =~= chars@);
            break;
        }
        if c < 128 {
            let ch = (c as u8) as char;
            chars.push(ch);
            assert(gpt_name_from(s@, o as int, k as int) == seq![ch] + gpt_name_from(s@, o as int, k + 1));
            assert(chars@ + gpt_name_from(s@, o as int, k + 1) =~= (chars@.drop_last() + seq![ch]) + gpt_name_from(s@, o as int, k + 1));
            assert((chars@.drop_last() + seq![ch]) + gpt_name_from(s@, o as int, k + 1) =~= chars@.drop_last() + (seq![ch] + gpt_name_from(s@, o as int, k + 1)));
        }
        k = k + 1;
    }
    proof {
        if k == 36 {
            assert(chars@ + Seq::<char>::empty() =~= chars@);
        }
    }
    string_from_chars(&chars)
}

/// Decodes one GPT entry that is in use.
fn gpt_entry_partition(s: &[u8], o: usize, number: u8) -> (p: Pv)
    requires
        o + 128 <= s.len(),
    ensures
        is_gpt_partition(p, s@, o as int, number),
{
    let type_guid = copy16(s, o);
    let part_guid = copy16(s, o + 16);
    let start = read_le64(s, o + 32);
    let end = read_le64(s, o + 40);
    let attributes = read_le64(s, o + 48);
    let name = gpt_entry_name(s, o);
    proof { reveal(is_gpt_partition); }
    Pv {
        number,
        start_lba: start,
        size_sectors: end.wrapping_sub(start).wrapping_add(1),
        partition_type: PartitionType::lzg(&type_guid),
        bootable: (attributes & 0x04) != 0,
        name,
        guid: Some(part_guid),
    }
}

/// Decodes the used entries of one sector of the GPT entry array, appending
/// them to `out`; partitions are numbered from `first_number` on (modulo 256).
/// Returns the number for the next partition.
pub fn parse_gpt_entry_sector(h: &GptHeader, sector: &[u8], first_number: u8, out: &mut Vec<Pv>) -> (next: u8)
    requires
        gpt_entry_size_ok(*h),
        sector.len() >= 512,
    ensures
        ({
            let used = gpt_used_upto(*h, sector@, slot_count(*h) as nat);
            &&& final(out)@.len() == old(out)@.len() + used.len()
            &&& final(out)@.subrange(0, old(out)@.len() as int) == old(out)@
            &&& forall|j: int| 0 <= j < used.len() ==> is_gpt_partition(
                #[trigger] final(out)@[old(out)@.len() + j], sector@, slot_off(*h, used[j]),
                ((first_number + j) % 256) as u8)
            &&& next == (first_number + used.len()) % 256
        }),
{
    let ghost old_out = out@;
    let (per, _sectors) = gpt_entry_layout(h);
    let esize: usize = h.partition_entry_size as usize;
    let mut number = first_number;
    let mut k: usize = 0;
    proof { lemma_slot_count_from(*h, 0); }
    while k < per
        invariant_except_break
            gpt_entry_size_ok(*h),
            sector.len() >= 512,
            per == entries_per_sector(*h),
            esize == h.partition_entry_size,
            0 <= k <= slot_count(*h),
            slot_count(*h) <= per,
            forall|j: int| 0 <= j < slot_count(*h) ==> slot_off(*h, j) + 128 <= 512,
            slot_count(*h) < per ==> slot_off(*h, slot_count(*h)) + 128 > 512,
            1 <= per <= 512,
            out@.len() == old_out.len() + gpt_used_upto(*h, sector@, k as nat).len(),
            out@.subrange(0, old_out.len() as int) == old_out,
            forall|j: int| 0 <= j < gpt_used_upto(*h, sector@, k as nat).len() ==> is_gpt_partition(
                #[trigger] out@[old_out.len() + j], sector@, slot_off(*h, gpt_used_upto(*h, sector@, k as nat)[j]),
                ((first_number + j) % 256) as u8),
            number == (first_number + gpt_used_upto(*h, sector@, k as nat).len()) % 256,
        ensures
            k == slot_count(*h),
            out@.len() == old_out.len() + gpt_used_upto(*h, sector@, k as nat).len(),
            out@.subrange(0, old_out.len() as int) == old_out,
            forall|j: int| 0 <= j < gpt_used_upto(*h, sector@, k as nat).len() ==> is_gpt_partition(
                #[trigger] out@[old_out.len() + j], sector@, slot_off(*h, gpt_used_upto(*h, sector@, k as nat)[j]),
                ((first_number + j) % 256) as u8),
            number == (first_number + gpt_used_upto(*h, sector@, k as nat).len()) % 256,
        decreases per - k,
    {
        assert(k * esize <= 512 * esize) by (nonlinear_arith)
            requires k <= 512;
        let offset: usize = k * esize;
        if offset + 128 > 512 {
            proof {
                if (k as int) < slot_count(*h) {
                    assert(slot_off(*h, k as int) + 128 <= 512);
                    assert(false);
                }
            }
            break;
        }
        proof {
            if k as int == slot_count(*h) {
                assert(slot_off(*h, k as int) + 128 > 512);
                assert(false);
            }
        }
        let ghost prev_used = gpt_used_upto(*h, sector@, k as nat);
        let type_guid = copy16(sector, offset);
        if !all_zero16(&type_guid) {
            let p = gpt_entry_partition(sector, offset, number);
            let ghost before = out@;
            out.push(p);
            number = number.wrapping_add(1);
            proof {
                let used = gpt_used_upto(*h, sector@, (k + 1) as nat);
                assert(used == prev_used.push(k as int));
                assert(out@.subrange(0, old_out.len() as int) =~= before.subrange(0, old_out.len() as int));
                assert forall|j: int| 0 <= j < used.len() implies is_gpt_partition(
                    #[trigger] out@[old_out.len() + j], sector@, slot_off(*h, used[j]),
                    ((first_number + j) % 256) as u8) by {
                    if j < prev_used.len() {
                        assert(out@[old_out.len() + j] == before[old_out.len() + j]);
                    }
                }
            }
        }
        k = k + 1;
    }
    number
}

// ---------------------------------------------------------------- GUID text

/// Upper-case hexadecimal digit of a nibble.
pub open spec fn hex_digit(n: int) -> char {
    if n < 10 {
        ((n + 48) as u8) as char
    } else {
        ((n + 55) as u8) as char
    }
}

/// Two upper-case hexadecimal digits of a byte.
pub open spec fn hex2(b: u8) -> Seq<char> {
    seq![hex_digit(b as int / 16), hex_digit(b as int % 16)]
}

/// Textual form of a GPT GUID: the first three groups are stored little-endian.
pub open spec fn guid_text(g: Seq<u8>) -> Seq<char> {
    hex2(g[3]) + hex2(g[2]) + hex2(g[1]) + hex2(g[0]) + seq!['-']
        + hex2(g[5]) + hex2(g[4]) + seq!['-']
        + hex2(g[7]) + hex2(g[6]) + seq!['-']
        + hex2(g[8]) + hex2(g[9]) + seq!['-']
        + hex2(g[10]) + hex2(g[11]) + hex2(g[12]) + hex2(g[13]) + hex2(g[14]) + hex2(g[15])
}

fn hex_digit_exec(n: u8) -> (c: char)
    requires
        n < 16,
    ensures
        c == hex_digit(n as int),
{
    if n < 10 {
        (n + 48) as char
    } else {
        (n + 55) as char
    }
}

fn push_hex2(v: &mut Vec<char>, b: u8)
    ensures
        final(v)@ == old(v)@ + hex2(b),
{
    let hi = hex_digit_exec(b / 16);
    let lo = hex_digit_exec(b % 16);
    v.push(hi);
    v.push(lo);
    assert(final(v)@ =~= old(v)@ + hex2(b));
}

/// Formats a GUID as text, e.g. `C12A7328-F81F-11D2-BA4B-00A0C93EC93B`.
pub fn lxl(guid: &[u8; 16]) -> (s: String)
    ensures
        s@ == guid_text(guid@),
{
    let mut v: Vec<char> = Vec::new();
    push_hex2(&mut v, guid[3]);
    push_hex2(&mut v, guid[2]);
    push_hex2(&mut v, guid[1]);
    push_hex2(&mut v, guid[0]);
    v.push('-');
    push_hex2(&mut v, guid[5]);
    push_hex2(&mut v, guid[4]);
    v.push('-');
    push_hex2(&mut v, guid[7]);
    push_hex2(&mut v, guid[6]);
    v.push('-');
    push_hex2(&mut v, guid[8]);
    push_hex2(&mut v, guid[9]);
    v.push('-');
    push_hex2(&mut v, guid[10]);
    push_hex2(&mut v, guid[11]);
    push_hex2(&mut v, guid[12]);
    push_hex2(&mut v, guid[13]);
    push_hex2(&mut v, guid[14]);
    push_hex2(&mut v, guid[15]);
    assert(v@ =~= guid_text(guid@));
    string_from_chars(&v)
}


// ---------------------------------------------------------------- whole disk

/// Whether reading sector `lba` can fail with `e`: the reader's own error,
/// or a sector shorter than 512 bytes.
pub open spec fn sector_read_fails<F: Fn(u64) -> Result<Vec<u8>, &'static str>>(read_sector: F, lba: u64, e: &'static str) -> bool {
    read_sector.ensures((lba,), Err::<Vec<u8>, &'static str>(e)) || (e == "Short sector read" && exists|s: Vec<u8>|
        #[trigger] read_sector.ensures((lba,), Ok::<Vec<u8>, &'static str>(s)) && s@.len() < 512)
}

/// Why reading the GPT can fail with `e`: sector 1 cannot be read; it has
/// no GPT signature; its header declares an entry size of 0 or above 512;
/// or a sector of the entry array cannot be read.
pub open spec fn gpt_read_fails<F: Fn(u64) -> Result<Vec<u8>, &'static str>>(read_sector: F, e: &'static str) -> bool {
    ||| sector_read_fails(read_sector, 1, e)
    ||| exists|s1: Vec<u8>| #[trigger] read_sector.ensures((1u64,), Ok::<Vec<u8>, &'static str>(s1)) && s1@.len() >= 512 && {
        ||| (le64(s1@, 0) != gpt_signature() && e == "Invalid GPT signature")
        ||| exists|h: GptHeader| #[trigger] is_gpt_header(h, s1@) && le64(s1@, 0) == gpt_signature() && {
            ||| (!gpt_entry_size_ok(h) && e == "Invalid GPT entry size")
            ||| (gpt_entry_size_ok(h) && exists|k: u64| k < entry_sector_count(h) && #[trigger] sector_read_fails(
                read_sector,
                h.partition_entry_lba.wrapping_add(k),
                e,
            ))
        }
    }
}

proof fn lemma_entry_read_fails<F: Fn(u64) -> Result<Vec<u8>, &'static str>>(
    read_sector: F,
    s1: Vec<u8>,
    h: GptHeader,
    k: u64,
    e: &'static str,
)
    requires
        read_sector.ensures((1u64,), Ok::<Vec<u8>, &'static str>(s1)),
        s1@.len() >= 512,
        le64(s1@, 0) == gpt_signature(),
        is_gpt_header(h, s1@),
        gpt_entry_size_ok(h),
        k < entry_sector_count(h),
        sector_read_fails(read_sector, h.partition_entry_lba.wrapping_add(k), e),
    ensures
        gpt_read_fails(read_sector, e),
{
}

/// Reads the GPT: the header from sector 1, then the partition entry array.
fn gmj<F>(read_sector: &F, zp: u64) -> (res: Result<PartitionTable, &'static str>)
    where
        F: Fn(u64) -> Result<Vec<u8>, &'static str>,
    requires
        forall|lba: u64| #[trigger] read_sector.requires((lba,)),
    ensures
        res matches Err(e) ==> gpt_read_fails(*read_sector, e),
        res matches Ok(t) ==> {
            &&& t.table_type == PartitionTableType::Gpt
            &&& t.zp == zp
            &&& exists|s1: Vec<u8>| #[trigger] read_sector.ensures((1u64,), Ok(s1)) && s1@.len() >= 512
                && le64(s1@, 0) == gpt_signature()
                && (t.disk_guid matches Some(g) && g@ == s1@.subrange(56, 72))
        },
{
    let s1 = match read_sector(1) {
        Ok(s) => s,
        Err(e) => {
            return Err(e);
        },
    };
    assert(read_sector.ensures((1u64,), Ok::<Vec<u8>, &'static str>(s1)));
    if s1.len() < 512 {
        return Err("Short sector read");
    }
    let header = match parse_gpt_header(s1.as_slice()) {
        Ok(h) => h,
        Err(e) => {
            return Err(e);
        },
    };
    if header.partition_entry_size == 0 || header.partition_entry_size > 512 {
        assert(is_gpt_header(header, s1@));
        return Err("Invalid GPT entry size");
    }
    let (_per, sectors) = gpt_entry_layout(&header);
    let mut partitions: Vec<Pv> = Vec::new();
    let mut number: u8 = 1;
    let mut avb: u64 = 0;
    while avb < sectors
        invariant
            forall|lba: u64| #[trigger] read_sector.requires((lba,)),
            gpt_entry_size_ok(header),
            sectors == entry_sector_count(header),
            is_gpt_header(header, s1@),
            le64(s1@, 0) == gpt_signature(),
            s1@.len() >= 512,
            read_sector.ensures((1u64,), Ok::<Vec<u8>, &'static str>(s1)),
        decreases sectors - avb,
    {
        let lba = header.partition_entry_lba.wrapping_add(avb);
        let sector = match read_sector(lba) {
            Ok(s) => s,
            Err(e) => {
                proof { lemma_entry_read_fails(*read_sector, s1, header, avb, e); }
                return Err(e);
            },
        };
        if sector.len() < 512 {
            assert(read_sector.ensures((lba,), Ok::<Vec<u8>, &'static str>(sector)));
            proof { lemma_entry_read_fails(*read_sector, s1, header, avb, "Short sector read"); }
            return Err("Short sector read");
        }
        number = parse_gpt_entry_sector(&header, sector.as_slice(), number, &mut partitions);
        avb = avb + 1;
    }
    assert(read_sector.ensures((1u64,), Ok(s1)));
    Ok(PartitionTable {
        table_type: PartitionTableType::Gpt,
        partitions,
        disk_guid: Some(header.disk_guid),
        zp,
    })
}

/// Reads the partition table of a disk of `zp` sectors through `read_sector`,
/// which returns the 512 bytes of the sector at a given LBA. Without a boot
/// signature the table is empty; a GPT protective entry makes it read the
/// GPT, and falls back to the MBR entries when the GPT cannot be read.
pub fn dwf<F>(read_sector: F, zp: u64) -> (res: Result<PartitionTable, &'static str>)
    where
        F: Fn(u64) -> Result<Vec<u8>, &'static str>,
    requires
        forall|lba: u64| #[trigger] read_sector.requires((lba,)),
    ensures
        res matches Ok(t) ==> exists|s0: Vec<u8>| #[trigger] read_sector.ensures((0u64,), Ok(s0))
            && s0@.len() >= 512 && {
                if !has_mbr_signature(s0@) {
                    t.table_type == PartitionTableType::Absent && t.partitions@.len() == 0 && t.zp == 0
                        && t.disk_guid is None
                } else if !has_protective_entry(s0@) {
                    is_mbr_table(t, s0@, zp)
                } else {
                    is_mbr_table(t, s0@, zp) || (t.table_type == PartitionTableType::Gpt && t.zp == zp
                        && exists|s1: Vec<u8>| #[trigger] read_sector.ensures((1u64,), Ok(s1))
                            && s1@.len() >= 512 && le64(s1@, 0) == gpt_signature()
                            && (t.disk_guid matches Some(g) && g@ == s1@.subrange(56, 72)))
                }
            },
        res matches Err(e) ==> read_sector.ensures((0u64,), Err::<Vec<u8>, &'static str>(e)) || (e
            == "Short sector read" && exists|s0: Vec<u8>| #[trigger] read_sector.ensures((0u64,), Ok(s0))
            && s0@.len() < 512),
{
    let s0 = match read_sector(0) {
        Ok(s) => s,
        Err(e) => {
            return Err(e);
        },
    };
    if s0.len() < 512 {
        assert(read_sector.ensures((0u64,), Ok(s0)));
        return Err("Short sector read");
    }
    assert(read_sector.ensures((0u64,), Ok(s0)));
    match classify_mbr(s0.as_slice()) {
        MbrKind::NoSignature => Ok(PartitionTable::empty()),
        MbrKind::Protective => {
            match gmj(&read_sector, zp) {
                Ok(t) => Ok(t),
                Err(_) => Ok(gmm(s0.as_slice(), zp)),
            }
        },
        MbrKind::Plain => Ok(gmm(s0.as_slice(), zp)),
    }
}

/// Reads the partition table of the AHCI disk on `port` through
/// `read_sector`: refused when AHCI is not set up or the port has no disk;
/// otherwise as `dwf` with the disk's size.
pub fn gqd<F>(ahci: &Option<crate::ahci::Wf>, port: u8, read_sector: F) -> (res: Result<PartitionTable, &'static str>)
    where
        F: Fn(u64) -> Result<Vec<u8>, &'static str>,
    requires
        forall|lba: u64| #[trigger] read_sector.requires((lba,)),
    ensures
        !crate::ahci::ahci_up(*ahci) ==> res == Err::<PartitionTable, &'static str>("AHCI not initialized"),
        crate::ahci::ahci_up(*ahci) && (forall|j: int|
            0 <= j < ahci->Some_0.ports@.len() ==> ahci->Some_0.ports@[j].port_num != port) ==> res == Err::<
            PartitionTable,
            &'static str,
        >("Port not found"),
        res matches Err(e) ==> e == "AHCI not initialized" || e == "Port not found" || read_sector.ensures(
            (0u64,),
            Err::<Vec<u8>, &'static str>(e),
        ) || e == "Short sector read",
{
    if !crate::ahci::is_initialized(ahci) {
        return Err("AHCI not initialized");
    }
    let dev = match crate::ahci::fyw(ahci, port) {
        Some(d) => d,
        None => {
            return Err("Port not found");
        },
    };
    dwf(read_sector, dev.sector_count)
}


/// Column header and rule of the partition listing.
pub const TABLE_HEADER: &'static str = "  #  Boot  Start LBA     End LBA       Size       Type";
pub const TABLE_RULE: &'static str = "  ─────────────────────────────────────────────────────────";
pub const NAME_PREFIX: &'static str = "                                              Name: ";

/// Listing line of a partition whose size is shown as `size`: number,
/// boot flag, first and last sector right-aligned in 12 columns, size in
/// 10, then the type's name.
pub open spec fn partition_line(p: Pv, size: Seq<char>) -> Seq<char> {
    "  "@ + crate::util::decimal(p.number as nat) + "  "@ + (if p.bootable { "*"@ } else { " "@ }) + "     "@
        + crate::util::pad_left(crate::util::decimal(p.start_lba as nat), 12) + "  "@ + crate::util::pad_left(
        crate::util::decimal((p.start_lba + p.size_sectors - 1) as nat),
        12,
    ) + "  "@ + crate::util::pad_left(size, 10) + "   "@ + partition_type_label(p.partition_type)
}

/// Listing lines of the first `n` partitions: each partition's line, then
/// its name on a line of its own when it has one.
pub open spec fn partition_lines(ps: Seq<Pv>, sizes: Seq<Seq<char>>, n: int) -> Seq<Seq<char>>
    decreases n,
{
    if n <= 0 {
        Seq::empty()
    } else {
        let prev = partition_lines(ps, sizes, n - 1);
        let with_line = prev.push(partition_line(ps[n - 1], sizes[n - 1]));
        if ps[n - 1].name@.len() > 0 {
            with_line.push(NAME_PREFIX@ + ps[n - 1].name@)
        } else {
            with_line
        }
    }
}

/// The listing of a partition table, the sizes shown as `sizes`.
pub open spec fn table_text(t: PartitionTable, sizes: Seq<Seq<char>>) -> Seq<Seq<char>> {
    if t.table_type == PartitionTableType::Absent {
        seq!["No partition table found"@]
    } else {
        let head = if t.table_type == PartitionTableType::Fu {
            seq!["Partition table: MBR"@]
        } else {
            seq!["Partition table: GPT"@] + match t.disk_guid {
                Some(g) => seq!["Disk GUID: "@ + guid_text(g@)],
                None => Seq::empty(),
            }
        };
        if t.partitions@.len() == 0 {
            head.push("No partitions found"@)
        } else {
            head + seq![Seq::<char>::empty(), TABLE_HEADER@, TABLE_RULE@] + partition_lines(
                t.partitions@,
                sizes,
                t.partitions@.len() as int,
            )
        }
    }
}

/// Whether every partition's last sector is a 64-bit sector number.
pub open spec fn ends_fit(ps: Seq<Pv>) -> bool {
    forall|i: int| 0 <= i < ps.len() ==> 1 <= #[trigger] ps[i].start_lba + ps[i].size_sectors <= u64::MAX
}

fn partition_line_chars(p: &Pv, size: &String) -> (out: Vec<char>)
    requires
        1 <= p.start_lba + p.size_sectors <= u64::MAX,
    ensures
        out@ == partition_line(*p, size@),
{
    let mut out: Vec<char> = Vec::new();
    crate::util::push_text(&mut out, "  ");
    crate::util::push_decimal(&mut out, p.number as u64);
    crate::util::push_text(&mut out, "  ");
    crate::util::push_text(&mut out, if p.bootable { "*" } else { " " });
    crate::util::push_text(&mut out, "     ");
    let mut start: Vec<char> = Vec::new();
    crate::util::push_decimal(&mut start, p.start_lba);
    crate::util::push_padded_left(&mut out, &start, 12);
    crate::util::push_text(&mut out, "  ");
    let mut end: Vec<char> = Vec::new();
    crate::util::push_decimal(&mut end, p.end_lba());
    crate::util::push_padded_left(&mut out, &end, 12);
    crate::util::push_text(&mut out, "  ");
    let sz = crate::util::string_chars(size.as_str());
    crate::util::push_padded_left(&mut out, &sz, 10);
    crate::util::push_text(&mut out, "   ");
    crate::util::push_text(&mut out, p.partition_type.name());
    assert(start@ =~= crate::util::decimal(p.start_lba as nat));
    assert(end@ =~= crate::util::decimal((p.start_lba + p.size_sectors - 1) as nat));
    out
}

/// The lines that list a partition table, the partitions' sizes shown as
/// `sizes` (one per partition, in order).
pub fn table_lines(t: &PartitionTable, sizes: &Vec<String>) -> (lines: Vec<String>)
    requires
        sizes@.len() == t.partitions@.len(),
        ends_fit(t.partitions@),
    ensures
        crate::util::views(lines@) == table_text(*t, crate::util::views(sizes@)),
{
    let mut lines: Vec<String> = Vec::new();
    if t.table_type == PartitionTableType::Absent {
        crate::util::push_line(&mut lines, crate::util::string_chars("No partition table found"));
        return lines;
    }
    if t.table_type == PartitionTableType::Fu {
        crate::util::push_line(&mut lines, crate::util::string_chars("Partition table: MBR"));
    } else {
        crate::util::push_line(&mut lines, crate::util::string_chars("Partition table: GPT"));
        match &t.disk_guid {
            Some(g) => {
                let mut out = crate::util::string_chars("Disk GUID: ");
                let gs = lxl(g);
                let gc = crate::util::string_chars(gs.as_str());
                crate::util::append_chars(&mut out, &gc);
                crate::util::push_line(&mut lines, out);
            },
            None => {},
        }
    }
    let ghost head = crate::util::views(lines@);
    if t.partitions.len() == 0 {
        crate::util::push_line(&mut lines, crate::util::string_chars("No partitions found"));
        return lines;
    }
    crate::util::push_line(&mut lines, Vec::new());
    crate::util::push_line(&mut lines, crate::util::string_chars(TABLE_HEADER));
    crate::util::push_line(&mut lines, crate::util::string_chars(TABLE_RULE));
    let ghost base = crate::util::views(lines@);
    let mut i: usize = 0;
    while i < t.partitions.len()
        invariant
            i <= t.partitions@.len(),
            sizes@.len() == t.partitions@.len(),
            ends_fit(t.partitions@),
            crate::util::views(lines@) == base + partition_lines(t.partitions@, crate::util::views(sizes@), i as int),
        decreases t.partitions@.len() - i,
    {
        let p = &t.partitions[i];
        assert(1 <= t.partitions@[i as int].start_lba + t.partitions@[i as int].size_sectors);
        let line = partition_line_chars(p, &sizes[i]);
        crate::util::push_line(&mut lines, line);
        if p.name.unicode_len() > 0 {
            let mut nl = crate::util::string_chars(NAME_PREFIX);
            let nm = crate::util::string_chars(p.name.as_str());
            crate::util::append_chars(&mut nl, &nm);
            crate::util::push_line(&mut lines, nl);
        }
        i = i + 1;
        proof {
            let vs = crate::util::views(sizes@);
            assert(vs[i - 1] == sizes@[i - 1]@);
            assert(crate::util::views(lines@) =~= base + partition_lines(t.partitions@, vs, i as int));
        }
    }
    lines
}

/// Whether `b` is one of the MBR type bytes the table names.
pub open spec fn is_named_mbr_byte(b: u8) -> bool {
    b == 0x00 || b == 0x01 || b == 0x04 || b == 0x05 || b == 0x06 || b == 0x07 || b == 0x0B || b == 0x0C
        || b == 0x0E || b == 0x0F || b == 0x82 || b == 0x83 || b == 0x8E || b == 0xEE || b == 0xEF
}

/// The documented alias pairs: 0x05 and 0x0F (extended, CHS and LBA),
/// 0x06 and 0x0E (FAT16, CHS and LBA).
pub open spec fn mbr_aliases(a: u8, b: u8) -> bool {
    (a == 0x05 && b == 0x0F) || (a == 0x0F && b == 0x05) || (a == 0x06 && b == 0x0E) || (a == 0x0E && b == 0x06)
}

/// MBR type law: each type byte decodes as the standard table has it
/// (0x00 empty, 0x01 FAT12, 0x04 small FAT16, 0x05 extended, 0x06 FAT16,
/// 0x07 NTFS, 0x0B FAT32, 0x0C FAT32 LBA, 0x82 Linux swap, 0x83 Linux,
/// 0x8E Linux LVM, 0xEE GPT protective, 0xEF EFI system); aliases decode
/// alike; any
/// two other distinct type bytes decode to distinct types; and a byte the
/// table does not name decodes to `Unknown` carrying that byte.
pub proof fn law_mbr_type_table(a: u8, b: u8)
    ensures
        PartitionType::lzl_spec(0x00) is Empty,
        PartitionType::lzl_spec(0x01) is Fat12,
        PartitionType::lzl_spec(0x04) is Fat16Small,
        PartitionType::lzl_spec(0x05) is Extended,
        PartitionType::lzl_spec(0x06) is Fat16,
        PartitionType::lzl_spec(0x0B) is Fat32,
        PartitionType::lzl_spec(0x0C) is Fat32Lba,
        PartitionType::lzl_spec(0x82) is LinuxSwap,
        PartitionType::lzl_spec(0x83) is LinuxFilesystem,
        PartitionType::lzl_spec(0x8E) is LinuxLvm,
        PartitionType::lzl_spec(0xEE) is GptProtective,
        PartitionType::lzl_spec(0xEF) is EfiSystem,
        PartitionType::lzl_spec(0x07) is Ntfs,
        partition_type_label(PartitionType::lzl_spec(0x83)) == "Linux"@,
        partition_type_label(PartitionType::lzl_spec(0x82)) == "Linux swap"@,
        mbr_aliases(a, b) ==> PartitionType::lzl_spec(a) == PartitionType::lzl_spec(b),
        a != b && !mbr_aliases(a, b) ==> PartitionType::lzl_spec(a) != PartitionType::lzl_spec(b),
        !is_named_mbr_byte(a) ==> PartitionType::lzl_spec(a) == PartitionType::Unknown(a),
        is_named_mbr_byte(a) ==> !(PartitionType::lzl_spec(a) is Unknown),
{
}

} // verus!
