use trustos_drivers::ahci::{AhciDeviceType, Oa, Wf};
use trustos_drivers::partition::{
    classify_mbr, dwf, gmm, gpt_entry_layout, gqd, lxl, parse_gpt_entry_sector, parse_gpt_header,
    MbrKind, PartitionTable, PartitionTableType, PartitionType, Pv,
};

const EFI_GUID: [u8; 16] =
    [0x28, 0x73, 0x2A, 0xC1, 0x1F, 0xF8, 0xD2, 0x11, 0xBA, 0x4B, 0x00, 0xA0, 0xC9, 0x3E, 0xC9, 0x3B];
const LINUX_GUID: [u8; 16] =
    [0xAF, 0x3D, 0xC6, 0x0F, 0x83, 0x84, 0x72, 0x47, 0x8E, 0x79, 0x3D, 0x69, 0xD8, 0x47, 0x7D, 0xE4];

fn mbr_entry(s: &mut [u8], i: usize, boot: u8, ty: u8, start: u32, size: u32) {
    let o = 446 + 16 * i;
    s[o] = boot;
    s[o + 4] = ty;
    s[o + 8..o + 12].copy_from_slice(&start.to_le_bytes());
    s[o + 12..o + 16].copy_from_slice(&size.to_le_bytes());
}

fn mbr_sector() -> Vec<u8> {
    let mut s = vec![0u8; 512];
    mbr_entry(&mut s, 0, 0x80, 0x0C, 2048, 1000);
    mbr_entry(&mut s, 2, 0x00, 0x83, 4096, 8192);
    mbr_entry(&mut s, 3, 0x00, 0x07, 99, 0); // size 0: unused
    s[510] = 0x55;
    s[511] = 0xAA;
    s
}

fn gpt_header(entries: u32, entry_size: u32) -> Vec<u8> {
    let mut s = vec![0u8; 512];
    s[0..8].copy_from_slice(b"EFI PART");
    for i in 0..16 {
        s[56 + i] = i as u8 + 1;
    }
    s[72..80].copy_from_slice(&2u64.to_le_bytes());
    s[80..84].copy_from_slice(&entries.to_le_bytes());
    s[84..88].copy_from_slice(&entry_size.to_le_bytes());
    s
}

fn gpt_entry(s: &mut [u8], o: usize, ty: [u8; 16], start: u64, end: u64, attrs: u64, name: &str) {
    s[o..o + 16].copy_from_slice(&ty);
    s[o + 16] = 0xAB;
    s[o + 32..o + 40].copy_from_slice(&start.to_le_bytes());
    s[o + 40..o + 48].copy_from_slice(&end.to_le_bytes());
    s[o + 48..o + 56].copy_from_slice(&attrs.to_le_bytes());
    for (k, c) in name.encode_utf16().enumerate() {
        s[o + 56 + 2 * k..o + 58 + 2 * k].copy_from_slice(&c.to_le_bytes());
    }
}

fn gpt_entries() -> Vec<u8> {
    let mut s = vec![0u8; 512];
    gpt_entry(&mut s, 0, EFI_GUID, 2048, 4095, 0x04, "EFI");
    gpt_entry(&mut s, 256, LINUX_GUID, 4096, 8191, 0, "root");
    s
}

#[test]
fn partition_sizes() {
    let p = Pv {
        number: 1,
        start_lba: 2048,
        size_sectors: 1000,
        partition_type: PartitionType::Fat32,
        bootable: false,
        name: String::new(),
        guid: None,
    };
    assert_eq!(p.size_bytes(), 512_000);
    assert_eq!(p.end_lba(), 3047);
}

#[test]
fn partition_type_codes_and_names() {
    assert!(matches!(PartitionType::lzl(0x0C), PartitionType::Fat32Lba));
    assert!(matches!(PartitionType::lzl(0x0F), PartitionType::Extended));
    assert!(matches!(PartitionType::lzl(0x0E), PartitionType::Fat16));
    assert!(matches!(PartitionType::lzl(0xEE), PartitionType::GptProtective));
    assert!(matches!(PartitionType::lzl(0x42), PartitionType::Unknown(0x42)));
    assert_eq!(PartitionType::lzl(0x07).name(), "NTFS/exFAT");
    assert_eq!(PartitionType::Fat16Small.name(), "FAT16 (<32M)");
    assert!(matches!(PartitionType::lzg(&EFI_GUID), PartitionType::EfiSystem));
    assert!(matches!(PartitionType::lzg(&LINUX_GUID), PartitionType::LinuxFilesystemGpt));
    assert!(matches!(PartitionType::lzg(&[0u8; 16]), PartitionType::Empty));
    assert!(matches!(PartitionType::lzg(&[7u8; 16]), PartitionType::UnknownGpt(g) if g == [7u8; 16]));
    assert_eq!(PartitionType::lzg(&[7u8; 16]).name(), "Unknown GPT");
}

#[test]
fn mbr_table_keeps_used_entries_in_order() {
    let s = mbr_sector();
    let t = gmm(&s, 123);
    assert_eq!(t.table_type, PartitionTableType::Fu);
    assert_eq!(t.zp, 123);
    assert_eq!(t.partitions.len(), 2);
    let a = &t.partitions[0];
    assert_eq!((a.number, a.start_lba, a.size_sectors, a.bootable), (1, 2048, 1000, true));
    assert!(matches!(a.partition_type, PartitionType::Fat32Lba));
    let b = &t.partitions[1];
    assert_eq!((b.number, b.start_lba, b.size_sectors, b.bootable), (3, 4096, 8192, false));
    assert!(b.guid.is_none() && b.name.is_empty());
}

#[test]
fn mbr_kinds() {
    let mut s = mbr_sector();
    assert_eq!(classify_mbr(&s), MbrKind::Plain);
    s[446 + 16 + 4] = 0xEE;
    assert_eq!(classify_mbr(&s), MbrKind::Protective);
    s[510] = 0;
    assert_eq!(classify_mbr(&s), MbrKind::NoSignature);
}

#[test]
fn gpt_header_and_layout() {
    assert_eq!(parse_gpt_header(&[0u8; 512]).unwrap_err(), "Invalid GPT signature");
    let h = parse_gpt_header(&gpt_header(128, 128)).unwrap();
    assert_eq!((h.partition_entry_lba, h.num_partition_entries, h.partition_entry_size), (2, 128, 128));
    assert_eq!(h.disk_guid[0], 1);
    assert_eq!(gpt_entry_layout(&h), (4, 32));
    let h = parse_gpt_header(&gpt_header(5, 256)).unwrap();
    assert_eq!(gpt_entry_layout(&h), (2, 3));
}

#[test]
fn gpt_entries_of_one_sector() {
    let h = parse_gpt_header(&gpt_header(4, 256)).unwrap();
    let mut out = Vec::new();
    let next = parse_gpt_entry_sector(&h, &gpt_entries(), 1, &mut out);
    assert_eq!(next, 3);
    assert_eq!(out.len(), 2);
    let e = &out[0];
    assert_eq!((e.number, e.start_lba, e.size_sectors, e.bootable), (1, 2048, 2048, true));
    assert_eq!(e.name, "EFI");
    assert!(matches!(e.partition_type, PartitionType::EfiSystem));
    assert_eq!(e.guid.unwrap()[0], 0xAB);
    let r = &out[1];
    assert_eq!((r.number, r.start_lba, r.size_sectors, r.bootable), (2, 4096, 4096, false));
    assert_eq!(r.name, "root");
}

#[test]
fn guid_text_form() {
    let g = [0x28, 0x73, 0x2A, 0xC1, 0x1F, 0xF8, 0xD2, 0x11, 0xBA, 0x4B, 0x00, 0xA0, 0xC9, 0x3E, 0xC9, 0x3B];
    assert_eq!(lxl(&g), "C12A7328-F81F-11D2-BA4B-00A0C93EC93B");
}

#[test]
fn disk_with_plain_mbr() {
    let s0 = mbr_sector();
    let t = dwf(|lba| if lba == 0 { Ok(s0.clone()) } else { Err("no") }, 77).unwrap();
    assert_eq!(t.table_type, PartitionTableType::Fu);
    assert_eq!(t.partitions.len(), 2);
}

#[test]
fn disk_without_signature_or_with_read_errors() {
    let t = dwf(|_| Ok(vec![0u8; 512]), 5).unwrap();
    assert_eq!(t.table_type, PartitionTableType::Absent);
    assert!(t.partitions.is_empty());
    assert_eq!(t.zp, 0);
    assert_eq!(dwf(|_| Err("read failed"), 5).unwrap_err(), "read failed");
    assert_eq!(dwf(|_| Ok(vec![0u8; 100]), 5).unwrap_err(), "Short sector read");
    let e = PartitionTable::empty();
    assert_eq!(e.table_type, PartitionTableType::Absent);
}

#[test]
fn disk_with_gpt() {
    let mut s0 = vec![0u8; 512];
    mbr_entry(&mut s0, 0, 0, 0xEE, 1, 0xFFFF_FFFF);
    s0[510] = 0x55;
    s0[511] = 0xAA;
    let s1 = gpt_header(4, 128);
    let mut s2 = vec![0u8; 512];
    gpt_entry(&mut s2, 128, LINUX_GUID, 100, 199, 0, "data");
    let t = dwf(
        |lba| match lba {
            0 => Ok(s0.clone()),
            1 => Ok(s1.clone()),
            2 => Ok(s2.clone()),
            _ => Err("out of range"),
        },
        9,
    )
    .unwrap();
    assert_eq!(t.table_type, PartitionTableType::Gpt);
    assert_eq!(t.zp, 9);
    assert_eq!(t.disk_guid.unwrap()[15], 16);
    assert_eq!(t.partitions.len(), 1);
    assert_eq!((t.partitions[0].number, t.partitions[0].size_sectors), (1, 100));
    assert_eq!(t.partitions[0].name, "data");
    // a broken GPT header falls back to the protective MBR
    let t = dwf(|lba| if lba == 0 { Ok(s0.clone()) } else { Ok(vec![0u8; 512]) }, 9).unwrap();
    assert_eq!(t.table_type, PartitionTableType::Fu);
    assert!(matches!(t.partitions[0].partition_type, PartitionType::GptProtective));
}

#[test]
fn partitions_of_an_ahci_port() {
    assert_eq!(gqd(&None, 0, |_| Ok(vec![0u8; 512])).unwrap_err(), "AHCI not initialized");
    let mut d = Oa::detected(1, AhciDeviceType::Sata);
    d.sector_count = 5000;
    let c = Some(Wf { base_addr: 0, virt_addr: 0, ports: vec![d], port_memory: Vec::new(), initialized: true });
    assert_eq!(gqd(&c, 0, |_| Ok(vec![0u8; 512])).unwrap_err(), "Port not found");
    let s0 = mbr_sector();
    let t = gqd(&c, 1, |_| Ok(s0.clone())).unwrap();
    assert_eq!(t.zp, 5000);
    assert_eq!(t.partitions.len(), 2);
}
