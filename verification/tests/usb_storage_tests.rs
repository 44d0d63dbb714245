use trustos_drivers::usb_storage::{
    add_device, adz, aqg, bulk_dcis, check_transfer, device_name, ibh, iib, inquiry_cdb, mpb, nkh,
    parse_capacity, parse_inquiry, parse_sense, read10_cdb, read_capacity_cdb, read_sectors,
    request_sense_cdb, sw, test_unit_ready_cdb, transfer_plan, write10_cdb, write_sectors, Cbw,
    Csw, StorageState, BOP_, BTA_,
};

fn ready_device(slot: u8, blocks: u64, block_size: u32) -> trustos_drivers::usb_storage::Gc {
    let mut g = mpb(slot, 0x81, 0x02, 512, 512);
    g.block_count = blocks;
    g.block_size = block_size;
    g.ready = true;
    g
}

#[test]
fn command_wrapper_bytes() {
    let cmd = read10_cdb(0x0102_0304, 8);
    let c = Cbw::new(7, 4096, 0x80, 0, &cmd);
    assert_eq!(c.signature, BOP_);
    assert_eq!(c.cb_length, 10);
    assert_eq!(&c.cb[..10], &cmd[..]);
    assert_eq!(&c.cb[10..], &[0u8; 6]);
    let b = c.as_bytes();
    assert_eq!(b.len(), 31);
    assert_eq!(&b[0..4], &[0x55, 0x53, 0x42, 0x43]);
    assert_eq!(&b[4..8], &7u32.to_le_bytes());
    assert_eq!(&b[8..12], &4096u32.to_le_bytes());
    assert_eq!((b[12], b[13], b[14]), (0x80, 0, 10));
    assert_eq!(&b[15..25], &cmd[..]);
    let long = [9u8; 20];
    let c = Cbw::new(1, 0, 0, 0, &long);
    assert_eq!(c.cb_length, 16);
    assert_eq!(c.cb, [9u8; 16]);
}

#[test]
fn status_wrapper_parsing() {
    let mut d = Vec::new();
    d.extend_from_slice(&BTA_.to_le_bytes());
    d.extend_from_slice(&5u32.to_le_bytes());
    d.extend_from_slice(&12u32.to_le_bytes());
    d.push(1);
    let s = Csw::bsv(&d).unwrap();
    assert_eq!((s.signature, s.tag, s.data_residue, s.status), (BTA_, 5, 12, 1));
    assert!(Csw::bsv(&d[..12]).is_none());
    let mut bad = d.clone();
    bad[0] = 0;
    assert!(Csw::bsv(&bad).is_none());
}

#[test]
fn scsi_command_blocks() {
    assert_eq!(read10_cdb(0x0A0B_0C0D, 0x0102), [0x28, 0, 0x0A, 0x0B, 0x0C, 0x0D, 0, 0x01, 0x02, 0]);
    assert_eq!(write10_cdb(1, 128), [0x2A, 0, 0, 0, 0, 1, 0, 0, 128, 0]);
    assert_eq!(inquiry_cdb(), [0x12, 0, 0, 0, 36, 0]);
    assert_eq!(test_unit_ready_cdb(), [0; 6]);
    assert_eq!(request_sense_cdb(), [0x03, 0, 0, 0, 18, 0]);
    assert_eq!(read_capacity_cdb(), [0x25, 0, 0, 0, 0, 0, 0, 0, 0, 0]);
}

#[test]
fn read10_command_gives_back_its_fields() {
    let cmd = read10_cdb(0x1234_5678, 300);
    let lba = u32::from_be_bytes([cmd[2], cmd[3], cmd[4], cmd[5]]);
    let count = u16::from_be_bytes([cmd[7], cmd[8]]);
    assert_eq!((lba, count), (0x1234_5678, 300));
}

#[test]
fn capacity_and_sense_answers() {
    let buf = [0, 0, 0x0F, 0xFF, 0, 0, 0x02, 0x00];
    assert_eq!(parse_capacity(&buf), (0x1000, 512));
    let mut sense = [0u8; 18];
    sense[2] = 0xF6;
    sense[12] = 0x28;
    sense[13] = 0x01;
    assert_eq!(parse_sense(&sense), (0x06, 0x28, 0x01));
}

#[test]
fn mass_storage_interface_and_endpoints() {
    assert!(iib(0x08, 0x06, 0x50));
    assert!(!iib(0x08, 0x06, 0x62));
    assert!(!iib(0x03, 0x06, 0x50));
    assert_eq!(bulk_dcis(0x81, 0x02), (3, 4));
    let g = mpb(4, 0x83, 0x04, 64, 64);
    assert_eq!((g.bulk_in_dci, g.bulk_out_dci, g.block_size, g.ready), (7, 8, 512, false));
}

#[test]
fn device_table_and_tags() {
    let mut st = StorageState::new();
    assert!(!sw(&st));
    assert_eq!(aqg(&st), 0);
    assert_eq!(nkh(&mut st), 1);
    assert_eq!(nkh(&mut st), 2);
    st.next_tag = u32::MAX;
    assert_eq!(nkh(&mut st), u32::MAX);
    assert_eq!(st.next_tag, 0);
    add_device(&mut st, ready_device(3, 100, 512));
    add_device(&mut st, mpb(5, 0x81, 0x02, 512, 512));
    assert!(sw(&st));
    assert_eq!(aqg(&st), 2);
    assert_eq!(ibh(&st, 0).unwrap().device_index, 0);
    assert!(ibh(&st, 1).is_none());
    assert!(ibh(&st, 2).is_none());
}

#[test]
fn inquiry_strings_and_names() {
    let mut buf = [0u8; 36];
    buf[8..16].copy_from_slice(b"Kingston");
    buf[16..32].copy_from_slice(b"DataTraveler    ");
    let (v, p) = parse_inquiry(&buf);
    assert_eq!((v.as_str(), p.as_str()), ("Kingston", "DataTraveler"));
    buf[8] = 0xFF;
    let (v, _) = parse_inquiry(&buf);
    assert_eq!(v, "Unknown");

    let mut g = ready_device(9, 10, 512);
    assert_eq!(device_name(&g), "USB Storage (slot 9)");
    g.vendor = String::from("Kingston");
    g.product = String::from("DT");
    assert_eq!(device_name(&g), "Kingston DT");
    let mut st = StorageState::new();
    add_device(&mut st, g);
    assert_eq!(adz(&st), vec![(String::from("Kingston DT"), 10, 512)]);
}

#[test]
fn transfer_checks() {
    let mut st = StorageState::new();
    add_device(&mut st, ready_device(1, 1000, 512));
    add_device(&mut st, mpb(2, 0x81, 0x02, 512, 512));
    assert_eq!(check_transfer(&st, 5, 1, 512), Err("Invalid device index"));
    assert_eq!(check_transfer(&st, 1, 1, 512), Err("Device not ready"));
    assert_eq!(check_transfer(&st, 0, 2, 1023), Err("Buffer too small"));
    assert_eq!(check_transfer(&st, 0, 2, 1024), Ok(512));
}

#[test]
fn transfers_are_split_into_runs_of_128_blocks() {
    assert_eq!(transfer_plan(10, 300, 512), vec![(10, 128, 0), (138, 128, 65536), (266, 44, 131072)]);
    assert!(transfer_plan(10, 0, 512).is_empty());
    let mut st = StorageState::new();
    add_device(&mut st, ready_device(1, 1000, 4096));
    let plan = read_sectors(&st, 0, 100, 129, 129 * 4096).unwrap();
    assert_eq!(plan, vec![(100, 128, 0), (228, 1, 128 * 4096)]);
    let total: u32 = plan.iter().map(|c| c.1 as u32).sum();
    assert_eq!(total, 129);
    assert_eq!(write_sectors(&st, 0, 0, 2, 4096), Err("Buffer too small"));
    assert_eq!(write_sectors(&st, 0, 0, 1, 4096), Ok(vec![(0, 1, 0)]));
}
