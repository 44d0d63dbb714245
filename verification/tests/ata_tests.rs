use trustos_drivers::ata::{
    drq_step, eta, htt, igt, is_atapi_signature, is_initialized, parse_identify, ready_step, Aac,
    DrivePosition, IdeChannel, Pd, PRIMARY_BASE, SECONDARY_BASE,
};

fn words() -> Vec<u16> {
    let mut ws = vec![0u16; 256];
    ws[10] = u16::from_be_bytes(*b"S1");
    ws[11] = u16::from_be_bytes(*b"23");
    ws[27] = u16::from_be_bytes(*b"QE");
    ws[28] = u16::from_be_bytes(*b"MU");
    ws[29] = u16::from_be_bytes(*b" H");
    ws[30] = u16::from_be_bytes(*b"DD");
    ws[31] = 0x2020;
    ws[60] = 0x0400;
    ws[61] = 0x0001;
    ws
}

#[test]
fn ready_wait_steps() {
    assert_eq!(ready_step(0xFF), Some(Err("No drive")));
    assert_eq!(ready_step(0x80), None);
    assert_eq!(ready_step(0x41), Some(Err("Drive error")));
    assert_eq!(ready_step(0x60), Some(Err("Drive fault")));
    assert_eq!(ready_step(0x40), Some(Ok(())));
}

#[test]
fn data_request_wait_steps() {
    assert_eq!(drq_step(0x09), Some(Err("Drive error")));
    assert_eq!(drq_step(0x58), Some(Ok(())));
    assert_eq!(drq_step(0x88), None);
    assert_eq!(drq_step(0x40), None);
}

#[test]
fn identify_words_become_a_drive() {
    let ws = words();
    let d = parse_identify(&ws, PRIMARY_BASE, true, false);
    assert_eq!(d.channel, IdeChannel::Primary);
    assert_eq!(d.position, DrivePosition::Slave);
    assert!(d.present && !d.atapi && !d.lba48);
    assert_eq!(d.sector_count, 0x1_0400);
    // space is not taken into the text; the end is trimmed
    assert_eq!(d.model, "QEMUHDD");
    assert_eq!(d.serial, "S123");
    let mut ws = words();
    ws[83] = 1 << 10;
    ws[100] = 7;
    let d = parse_identify(&ws, SECONDARY_BASE, false, true);
    assert_eq!(d.channel, IdeChannel::Secondary);
    assert_eq!(d.position, DrivePosition::Master);
    assert!(d.lba48 && d.atapi);
    assert_eq!(d.sector_count, 7);
}

#[test]
fn atapi_signature() {
    assert!(is_atapi_signature(0x14, 0xEB));
    assert!(!is_atapi_signature(0x00, 0x00));
    assert!(!is_atapi_signature(0xEB, 0x14));
}

#[test]
fn initialisation_keeps_found_drives_in_order() {
    let mut st: Option<Aac> = None;
    assert!(!is_initialized(&st));
    assert!(!igt(&mut st, vec![None, None]));
    assert!(!is_initialized(&st));
    assert!(eta(&st).is_empty());

    let ws = words();
    let a = parse_identify(&ws, PRIMARY_BASE, false, false);
    let mut ws48 = words();
    ws48[83] = 1 << 10;
    let b: Pd = parse_identify(&ws48, SECONDARY_BASE, true, false);
    assert!(igt(&mut st, vec![Some(a), None, Some(b), None]));
    assert!(is_initialized(&st));
    let ds = eta(&st);
    assert_eq!(ds.len(), 2);
    assert_eq!(ds[0].channel, IdeChannel::Primary);
    assert_eq!(ds[1].channel, IdeChannel::Secondary);
    assert!(!htt(&st, IdeChannel::Primary, false));
    assert!(htt(&st, IdeChannel::Secondary, true));
    assert!(!htt(&st, IdeChannel::Secondary, false));
    assert!(!htt(&None, IdeChannel::Primary, false));
}
