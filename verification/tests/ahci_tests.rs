use trustos_drivers::ahci::{
    command_poll, dma_in_reach, scan_ports, AhciCommand, CommandPoll,
    adz, check_transfer, classify_signature, command_header, emq, engine_stopped, flush_fis, fyw,
    ibt, identify_fis, identify_sector_count, identify_text, is_initialized, link_up, mnl, owc,
    oxm, parse_identify, port_device, prd_entry, qvc, qvd, qve, record_identify, rw_fis,
    AhciDeviceType, FisType, Mc, Oa, Pc, StorageError, Wf, ATA_CMD_READ_DMA_EX,
    ATA_CMD_WRITE_DMA_EX,
};

fn port(cmd: u32, sact: u32, ci: u32) -> Pc {
    Pc {
        clb: 0x1000,
        fb: 0x2000,
        is: 0,
        drt: 0,
        cmd,
        _reserved0: 0,
        tfd: 0,
        sig: 0,
        ssts: 0,
        sctl: 0,
        serr: 0,
        sact,
        ci,
        sntf: 0,
        fbs: 0,
        _reserved1: [0; 11],
        _vendor: [0; 4],
    }
}

fn controller(ports: Vec<Oa>) -> Option<Wf> {
    Some(Wf { base_addr: 0xFEB0_0000, virt_addr: 0, ports, port_memory: Vec::new(), initialized: true })
}

fn disk(port_num: u8, sectors: u64) -> Oa {
    let mut o = Oa::detected(port_num, AhciDeviceType::Sata);
    o.sector_count = sectors;
    o
}

#[test]
fn fis_type_codes() {
    assert_eq!(FisType::RegH2D.code(), 0x27);
    assert_eq!(FisType::RegD2H.code(), 0x34);
    assert_eq!(FisType::DmaSetup.code(), 0x41);
    assert_eq!(FisType::DevBits.code(), 0xA1);
    let f = Mc::new();
    assert_eq!(f.fis_type, 0x27);
    assert_eq!(f.command, 0);
}

#[test]
fn read_fis_spreads_lba_over_six_bytes() {
    let f = rw_fis(false, 0x0605_0403_0201, 0x0102);
    assert_eq!(f.command, ATA_CMD_READ_DMA_EX);
    assert_eq!(f.pmport_c, 0x80);
    assert_eq!(f.device, 0x40);
    assert_eq!([f.lba0, f.lba1, f.lba2, f.lba3, f.lba4, f.lba5], [1, 2, 3, 4, 5, 6]);
    assert_eq!((f.countl, f.counth), (0x02, 0x01));
    let w = rw_fis(true, 7, 1);
    assert_eq!(w.command, ATA_CMD_WRITE_DMA_EX);
    assert_eq!(w.lba0, 7);
}

#[test]
fn identify_and_flush_fis() {
    let i = identify_fis();
    assert_eq!((i.command, i.device, i.pmport_c), (0xEC, 0, 0x80));
    let f = flush_fis();
    assert_eq!((f.command, f.device), (0xEA, 0x40));
}

#[test]
fn command_header_and_prd_flags() {
    assert_eq!(command_header(false, 1, 0x4000).flags, 5);
    let h = command_header(true, 3, 0x8000);
    assert_eq!((h.flags, h.prdtl, h.ctba, h.prdbc), (0x45, 3, 0x8000, 0));
    let e = prd_entry(0x1234, 512);
    assert_eq!((e.dba, e.dbc_i), (0x1234, 511 | 0x8000_0000));
}

#[test]
fn engine_start_and_stop_bits() {
    let mut p = port(0x8011, 0, 0);
    oxm(&mut p);
    assert_eq!(p.cmd, 0x8000);
    owc(&mut p);
    assert_eq!(p.cmd, 0x8011);
    assert!(engine_stopped(0x0011));
    assert!(!engine_stopped(0x8000));
    assert!(!engine_stopped(0x4000));
}

#[test]
fn lowest_free_command_slot() {
    assert_eq!(emq(&port(0, 0, 0)), Some(0));
    assert_eq!(emq(&port(0, 0b0101, 0b0010)), Some(3));
    assert_eq!(emq(&port(0, u32::MAX, 0)), None);
    assert_eq!(emq(&port(0, 0x7FFF_FFFF, 0)), Some(31));
}

#[test]
fn signatures_and_link_state() {
    assert_eq!(classify_signature(0x0000_0101), AhciDeviceType::Sata);
    assert_eq!(classify_signature(0xEB14_0101), AhciDeviceType::Satapi);
    assert_eq!(classify_signature(0xC33C_0101), AhciDeviceType::Semb);
    assert_eq!(classify_signature(0x9669_0101), AhciDeviceType::Pm);
    assert_eq!(classify_signature(0xFFFF_FFFF), AhciDeviceType::Absent);
    assert!(link_up(0x123));
    assert!(!link_up(0x203));
    assert!(!link_up(0x121));
    assert_eq!(port_device(0x123, 0x101), AhciDeviceType::Sata);
    assert_eq!(port_device(0x0, 0x101), AhciDeviceType::Absent);
}

#[test]
fn controller_queries() {
    let none: Option<Wf> = None;
    assert_eq!(ibt(&none), 0);
    assert!(!is_initialized(&none));
    assert!(adz(&none).is_empty());
    assert!(mnl(&none).is_empty());
    assert!(fyw(&none, 0).is_none());
    let c = controller(vec![disk(0, 100), disk(2, 200)]);
    assert_eq!(ibt(&c), 2);
    assert!(is_initialized(&c));
    assert_eq!(mnl(&c), vec![0, 2]);
    let all = adz(&c);
    assert_eq!(all.len(), 2);
    assert_eq!(all[1].sector_count, 200);
    assert_eq!(fyw(&c, 2).unwrap().sector_count, 200);
    assert!(fyw(&c, 1).is_none());
    assert_eq!(fyw(&c, 0).unwrap().model, "Unknown");
}

fn identify_block() -> Vec<u8> {
    let mut b = vec![0u8; 512];
    let put = |b: &mut Vec<u8>, word: usize, v: u16| {
        b[2 * word] = (v & 0xFF) as u8;
        b[2 * word + 1] = (v >> 8) as u8;
    };
    // serial "AB12" then spaces, model "DISK X" then spaces
    put(&mut b, 10, u16::from_be_bytes(*b"AB"));
    put(&mut b, 11, u16::from_be_bytes(*b"12"));
    for w in 12..20 {
        put(&mut b, w, 0x2020);
    }
    put(&mut b, 27, u16::from_be_bytes(*b"DI"));
    put(&mut b, 28, u16::from_be_bytes(*b"SK"));
    put(&mut b, 29, u16::from_be_bytes(*b" X"));
    for w in 30..47 {
        put(&mut b, w, 0x2020);
    }
    put(&mut b, 60, 0x5678);
    put(&mut b, 61, 0x0012);
    put(&mut b, 83, 1 << 10);
    put(&mut b, 100, 0x0001);
    put(&mut b, 101, 0x0002);
    b
}

#[test]
fn identify_block_is_parsed() {
    let b = identify_block();
    let (sectors, model, serial) = parse_identify(&b);
    assert_eq!(sectors, 0x2_0001);
    assert_eq!(model, "DISK X");
    assert_eq!(serial, "AB12");
    let ws = [0u16; 256];
    assert_eq!(identify_sector_count(&ws), 0);
    let mut ws = [0u16; 256];
    ws[60] = 0x5678;
    ws[61] = 0x0012;
    assert_eq!(identify_sector_count(&ws), 0x12_5678);
    assert_eq!(identify_text(&ws, 0, 0), "");
}

#[test]
fn identify_result_is_recorded_on_first_matching_port() {
    let mut c = controller(vec![disk(1, 0), disk(1, 0), disk(3, 0)]).unwrap();
    record_identify(&mut c, 1, 999, String::from("M"), String::from("S"));
    assert_eq!(c.ports[0].sector_count, 999);
    assert_eq!(c.ports[0].model, "M");
    assert_eq!(c.ports[1].sector_count, 0);
    record_identify(&mut c, 7, 5, String::from("X"), String::from("Y"));
    assert_eq!(c.ports[2].sector_count, 0);
}

#[test]
fn transfer_arguments_are_checked() {
    assert_eq!(check_transfer(0, 4096), Err("Invalid sector count (1-128)"));
    assert_eq!(check_transfer(129, 1 << 20), Err("Invalid sector count (1-128)"));
    assert_eq!(check_transfer(2, 1023), Err("Buffer too small"));
    assert_eq!(check_transfer(2, 1024), Ok(1024));
    assert_eq!(check_transfer(128, 65536), Ok(65536));
}

#[test]
fn guarded_read_and_write() {
    let refused: Result<(), &str> = Err("denied");
    assert!(matches!(qvd(refused), (Err(StorageError::Security("denied")), None)));
    assert!(matches!(qvd(Ok::<(), &str>(())), (Ok(()), Some(true))));
    assert!(matches!(qve(Err::<(), u8>(3)), (Err(StorageError::Security(3)), Some(false))));
    assert!(matches!(qve(Ok::<(), u8>(())), (Ok(()), Some(true))));
}

#[test]
fn guarded_format_checks_before_any_write() {
    let c = controller(vec![disk(0, 4), disk(1, 0)]);
    assert!(matches!(qvc(&c, 0, Ok::<(), ()>(())), (Ok(4), None)));
    assert!(matches!(qvc(&c, 1, Ok::<(), ()>(())), (Err(StorageError::Io("Unknown disk size")), None)));
    assert!(matches!(qvc(&c, 5, Ok::<(), ()>(())), (Err(StorageError::Io("Port not found")), None)));
    assert!(matches!(qvc(&None, 0, Ok::<(), ()>(())), (Err(StorageError::Io("Port not found")), None)));
    assert!(matches!(qvc(&c, 0, Err::<(), i32>(-1)), (Err(StorageError::Security(-1)), Some(false))));
}

#[test]
fn port_scan_keeps_implemented_ports_with_devices() {
    let mut regs = vec![(0u32, 0u32); 32];
    regs[0] = (0x123, 0x0000_0101); // link up, SATA
    regs[1] = (0x123, 0xEB14_0101); // link up, ATAPI
    regs[2] = (0x623, 0x0000_0101); // link in another power state
    regs[3] = (0x123, 0xFFFF_FFFF); // no known signature
    regs[31] = (0x123, 0x9669_0101); // port multiplier
    regs[5] = (0x123, 0x0000_0101); // not implemented below
    let pi = 0x8000_000F;
    assert_eq!(
        scan_ports(pi, &regs),
        vec![(0, AhciDeviceType::Sata), (1, AhciDeviceType::Satapi), (31, AhciDeviceType::Pm)]
    );
    assert_eq!(scan_ports(0, &regs), vec![]);
    assert!(dma_in_reach(false, 0xFFFF_F000, 0x1000));
    assert!(!dma_in_reach(false, 0x1_0000_0000, 0x1000));
    assert!(!dma_in_reach(false, 0x1000, 0x1_0000_0000));
    assert!(dma_in_reach(true, 0x1_0000_0000, 0x1_0000_0000));
}

#[test]
fn command_polls_decide_completion_errors_and_timeouts() {
    let tfe = 1 << 30;
    assert_eq!(command_poll(AhciCommand::Identify, 1 << 3, 0, 3, 1), CommandPoll::Pending);
    assert_eq!(command_poll(AhciCommand::Identify, 0, 0, 3, 1), CommandPoll::Done);
    assert_eq!(command_poll(AhciCommand::Identify, 0, tfe, 3, 1), CommandPoll::Done);
    assert_eq!(command_poll(AhciCommand::Transfer, 0, tfe, 3, 1), CommandPoll::Failed("Task file error after completion"));
    assert_eq!(command_poll(AhciCommand::Identify, 1 << 3, tfe, 3, 1), CommandPoll::Failed("Task file error during IDENTIFY"));
    assert_eq!(command_poll(AhciCommand::Transfer, 1 << 3, tfe, 3, 1), CommandPoll::Failed("Task file error"));
    assert_eq!(command_poll(AhciCommand::Flush, 1 << 3, tfe, 3, 1), CommandPoll::Failed("Task file error during flush"));
    assert_eq!(command_poll(AhciCommand::Identify, 1 << 3, 0, 3, 10_000_000), CommandPoll::Pending);
    assert_eq!(command_poll(AhciCommand::Identify, 1 << 3, 0, 3, 10_000_001), CommandPoll::Failed("IDENTIFY command timeout"));
    assert_eq!(command_poll(AhciCommand::Transfer, 1 << 3, 0, 3, 10_000_001), CommandPoll::Failed("Command timeout"));
    assert_eq!(command_poll(AhciCommand::Flush, 1 << 3, 0, 3, 10_000_001), CommandPoll::Pending);
    assert_eq!(command_poll(AhciCommand::Flush, 1 << 3, 0, 3, 30_000_001), CommandPoll::Failed("Flush timeout"));
    // Another slot's issue bit does not keep this one pending.
    assert_eq!(command_poll(AhciCommand::Transfer, 1 << 4, 0, 3, 1), CommandPoll::Done);
}
