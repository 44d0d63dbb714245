use trustos_drivers::nvidia::{ccv as nvidia_find, mfv};
use trustos_drivers::partition::{table_lines, PartitionTable, PartitionTableType, PartitionType, Pv};
use trustos_drivers::thinkpad_ec::{
    cpu_command, dts_temperature, fan_command, fan_level_desc, heat, parse_u8, pstate_steps,
    voltage_string, CpuCommand, FanCommand, FanLevel, Heat,
};
use trustos_drivers::virtio_gpu::GpuSurface;
use trustos_drivers::xhci::{Jh, Trb};
use trustos_drivers::xhci_setup::{
    address_device_context, apply_device_descriptor, bulk_context, control_in_trbs,
    control_out_trbs, ep0_max_packet, interrupt_in_context, interrupt_interval,
    parse_config_descriptor,
};

fn trb(p: u64, s: u32, c: u32) -> (u64, u32, u32) {
    let _ = Trb { parameter: p, status: s, control: c };
    (p, s, c)
}

fn fields(t: &Trb) -> (u64, u32, u32) {
    (t.parameter, t.status, t.control)
}

#[test]
fn control_transfer_trbs() {
    let v = control_in_trbs(0x80, 6, 0x0100, 0, 18, 0x5000);
    assert_eq!(v.len(), 3);
    assert_eq!(fields(&v[0]), trb(0x0012_0000_0100_0680, 8, 0x30840));
    assert_eq!(fields(&v[1]), trb(0x5000, 18, 0x10C00));
    assert_eq!(fields(&v[2]), trb(0, 0, 0x1020));
    let v = control_in_trbs(0x80, 6, 0x0100, 0, 0, 0x5000);
    assert_eq!(v.len(), 2);
    let v = control_out_trbs(0x00, 9, 1, 0);
    assert_eq!(fields(&v[0]), trb(0x0001_0900, 8, 0x840));
    assert_eq!(fields(&v[1]), trb(0, 0, 0x11020));
    // the setup packet reads back as its fields
    let p = v[0].parameter;
    assert_eq!((p & 0xFF, (p >> 8) & 0xFF, (p >> 16) & 0xFFFF, (p >> 32) & 0xFFFF, p >> 48), (0, 9, 1, 0, 0));
}

#[test]
fn input_contexts() {
    assert_eq!(ep0_max_packet(1), 8);
    assert_eq!(ep0_max_packet(2), 8);
    assert_eq!(ep0_max_packet(3), 64);
    assert_eq!(ep0_max_packet(4), 512);
    assert_eq!(ep0_max_packet(9), 64);
    let c = address_device_context(4, 2, 0x9000);
    assert_eq!((c.add_flags, c.slot_dw0, c.slot_dw1), (3, (4 << 20) | (1 << 27), 2 << 16));
    assert_eq!(c.endpoints, vec![(1, 0, (3 << 1) | (4 << 3) | (512 << 16), 0x9001, 8)]);
    let c = interrupt_in_context(3, 1, 0x81, 8, 10, 0xA000);
    assert_eq!(c.add_flags, 1 | (1 << 3));
    assert_eq!(c.slot_dw0, (3 << 20) | (3 << 27));
    assert_eq!(c.endpoints, vec![(3, 10 << 16, (3 << 1) | (7 << 3) | (8 << 16), 0xA001, 8 | (8 << 16))]);
    let c = bulk_context(3, 1, 0x81, 0x02, 512, 512, 0xB000, 0xC000);
    assert_eq!(c.add_flags, 1 | (1 << 3) | (1 << 4));
    assert_eq!(c.slot_dw0, (3 << 20) | (4 << 27));
    assert_eq!(c.endpoints[0], (3, 0, (3 << 1) | (6 << 3) | (512 << 16), 0xB001, 512));
    assert_eq!(c.endpoints[1], (4, 0, (3 << 1) | (2 << 3) | (512 << 16), 0xC001, 512));
}

#[test]
fn interrupt_intervals() {
    assert_eq!(interrupt_interval(3, 8), 8);
    assert_eq!(interrupt_interval(4, 0), 1);
    // full speed: 10 frames = 80 micro-frames, 2^6 <= 80 < 2^7
    assert_eq!(interrupt_interval(1, 10), 7);
    assert_eq!(interrupt_interval(2, 1), 4);
    assert_eq!(interrupt_interval(2, 0), 4);
    assert_eq!(interrupt_interval(1, 255), 11);
}

#[test]
fn device_descriptor_fields() {
    let mut d = Jh {
        slot_id: 1,
        port: 2,
        speed: 3,
        vendor_id: 0,
        product_id: 0,
        class: 0,
        subclass: 0,
        protocol: 0,
        num_configs: 0,
        max_packet_size: 0,
        manufacturer: String::from("m"),
        product: String::from("p"),
    };
    let desc = [18u8, 1, 0x00, 0x02, 0, 0, 0, 64, 0x6D, 0x04, 0x77, 0xC0, 0, 1, 1, 2, 0, 1];
    apply_device_descriptor(&mut d, &desc);
    assert_eq!((d.vendor_id, d.product_id, d.max_packet_size, d.num_configs), (0x046D, 0xC077, 64, 1));
    assert_eq!((d.slot_id, d.port, d.speed), (1, 2, 3));
}

#[test]
fn configuration_descriptors() {
    // configuration, HID interface with an interrupt IN endpoint, then a
    // mass-storage interface with a bulk IN and a bulk OUT endpoint
    let mut d = vec![9u8, 2, 0, 0, 2, 7, 0, 0x80, 50];
    d.extend_from_slice(&[9, 4, 0, 0, 1, 3, 1, 2, 0]);
    d.extend_from_slice(&[7, 5, 0x81, 3, 8, 0, 10]);
    d.extend_from_slice(&[7, 5, 0x02, 3, 8, 0, 10]);
    d.extend_from_slice(&[9, 4, 1, 0, 2, 8, 6, 0x50, 0]);
    d.extend_from_slice(&[7, 5, 0x83, 2, 0x00, 0x02, 0]);
    d.extend_from_slice(&[7, 5, 0x04, 2, 0x00, 0x0A, 0]);
    let total = d.len();
    d.extend_from_slice(&[0u8; 8]);
    let (value, eps) = parse_config_descriptor(&d, total);
    assert_eq!(value, 7);
    assert_eq!(
        eps,
        vec![(3, 0, 1, 2, 0x81, 8, 10), (8, 1, 6, 0x50, 0x83, 512, 0), (8, 1, 6, 0x50, 0x04, 0x200, 0)]
    );
    // a zero length ends the walk
    let mut z = vec![9u8, 2, 0, 0, 1, 1, 0, 0, 0, 0, 4];
    let t = z.len();
    z.extend_from_slice(&[0u8; 8]);
    assert!(parse_config_descriptor(&z, t).1.is_empty());
}

#[test]
fn lines_and_rectangles() {
    let mut s = GpuSurface::new(8, 8);
    s.draw_line(0, 0, 7, 3, 1);
    let drawn: Vec<(u32, u32)> = (0..8u32)
        .flat_map(|y| (0..8u32).map(move |x| (x, y)))
        .filter(|&(x, y)| s.get_pixel(x, y) == 1)
        .collect();
    assert_eq!(drawn, vec![(0, 0), (1, 0), (2, 1), (3, 1), (4, 2), (5, 2), (6, 3), (7, 3)]);
    let mut s = GpuSurface::new(8, 8);
    s.draw_line(3, 3, 3, 3, 2);
    assert_eq!(s.get_pixel(3, 3), 2);
    assert_eq!(s.data.iter().filter(|p| **p == 2).count(), 1);
    // partly off the surface
    s.draw_line(-2, 5, 1, 5, 4);
    assert_eq!((s.get_pixel(0, 5), s.get_pixel(1, 5), s.get_pixel(2, 5)), (4, 4, 0));
    let mut r = GpuSurface::new(6, 6);
    r.draw_rect(1, 1, 4, 3, 9);
    let count = r.data.iter().filter(|p| **p == 9).count();
    assert_eq!(count, 10);
    assert_eq!(r.get_pixel(2, 2), 0);
    assert_eq!((r.get_pixel(1, 1), r.get_pixel(4, 3), r.get_pixel(4, 1)), (9, 9, 9));
}

fn part(number: u8, start: u64, size: u64, boot: bool, name: &str) -> Pv {
    Pv {
        number,
        start_lba: start,
        size_sectors: size,
        partition_type: PartitionType::LinuxFilesystem,
        bootable: boot,
        name: String::from(name),
        guid: None,
    }
}

#[test]
fn partition_listing() {
    let mut t = PartitionTable::empty();
    assert_eq!(table_lines(&t, &vec![]), vec![String::from("No partition table found")]);
    t.table_type = PartitionTableType::Fu;
    assert_eq!(table_lines(&t, &vec![]), vec![String::from("Partition table: MBR"), String::from("No partitions found")]);
    t.partitions = vec![part(1, 2048, 1000, true, ""), part(2, 4096, 10, false, "root")];
    let lines = table_lines(&t, &vec![String::from("500.0 KB"), String::from("5.0 KB")]);
    assert_eq!(lines.len(), 7);
    assert_eq!(lines[1], "");
    assert_eq!(lines[2], "  #  Boot  Start LBA     End LBA       Size       Type");
    assert_eq!(lines[4], format!("  1  *     {:>12}  {:>12}  {:>10}   Linux", 2048, 3047, "500.0 KB"));
    assert_eq!(lines[5], format!("  2        {:>12}  {:>12}  {:>10}   Linux", 4096, 4105, "5.0 KB"));
    assert_eq!(lines[6], format!("{:46}Name: root", ""));
    t.table_type = PartitionTableType::Gpt;
    t.disk_guid = Some([0u8; 16]);
    let lines = table_lines(&t, &vec![String::new(), String::new()]);
    assert_eq!(lines[1], "Disk GUID: 00000000-0000-0000-0000-000000000000");
}

#[test]
fn number_arguments() {
    assert_eq!(parse_u8("0"), Some(0));
    assert_eq!(parse_u8("+7"), Some(7));
    assert_eq!(parse_u8("255"), Some(255));
    assert_eq!(parse_u8("256"), None);
    assert_eq!(parse_u8("99999"), None);
    assert_eq!(parse_u8(""), None);
    assert_eq!(parse_u8("+"), None);
    assert_eq!(parse_u8("-1"), None);
    assert_eq!(parse_u8("1a"), None);
    for s in ["0", "12", "+3", "300", "x", " 1", "007"] {
        assert_eq!(parse_u8(s), s.parse::<u8>().ok(), "{}", s);
    }
}

#[test]
fn fan_and_cpu_commands() {
    assert_eq!(fan_command(None), FanCommand::Status);
    assert_eq!(fan_command(Some("status")), FanCommand::Status);
    assert_eq!(fan_command(Some("auto")), FanCommand::Apply(FanLevel::Auto));
    assert_eq!(fan_command(Some("full")), FanCommand::Apply(FanLevel::FullSpeed));
    assert_eq!(fan_command(Some("off")), FanCommand::Off);
    assert_eq!(fan_command(Some("0")), FanCommand::Off);
    assert_eq!(fan_command(Some("5")), FanCommand::Apply(FanLevel::Gp(5)));
    assert_eq!(fan_command(Some("8")), FanCommand::LevelOutOfRange);
    assert_eq!(fan_command(Some("fast")), FanCommand::Usage);
    assert_eq!(fan_level_desc(0x80), "auto (EC controlled)");
    assert_eq!(fan_level_desc(7), "7 (highest manual)");
    assert_eq!(fan_level_desc(9), "unknown");
    assert_eq!((heat(95), heat(70), heat(69)), (Heat::Hot, Heat::Warm, Heat::Normal));
    assert_eq!((dts_temperature(30), dts_temperature(120)), (70, 0));
    assert_eq!(cpu_command(&[]), CpuCommand::Status);
    assert_eq!(cpu_command(&["set", "12"]), CpuCommand::SetUsage);
    assert_eq!(cpu_command(&["set", "x", "3"]), CpuCommand::InvalidFid);
    assert_eq!(cpu_command(&["set", "12", "300"]), CpuCommand::InvalidVid);
    assert_eq!(cpu_command(&["set", "12", "37"]), CpuCommand::Request(12, 37));
    assert_eq!(cpu_command(&["powersave"]), CpuCommand::Min);
    assert_eq!(cpu_command(&["max"]), CpuCommand::Max);
    assert_eq!(cpu_command(&["turbo"]), CpuCommand::Usage);
    assert_eq!(pstate_steps(12, 6), vec![12, 10, 8, 6]);
    assert_eq!(pstate_steps(11, 6), vec![11, 9, 7, 6]);
    assert_eq!(pstate_steps(6, 6), vec![6]);
    assert_eq!(pstate_steps(5, 6), Vec::<u8>::new());
    assert_eq!(pstate_steps(3, 0), vec![3, 1]);
    assert_eq!(voltage_string(1156), "1.156 V");
    assert_eq!(voltage_string(712), "0.712 V");
    assert_eq!(voltage_string(1005), "1.005 V");
}

#[test]
fn nvidia_models() {
    assert_eq!(mfv(0x0193), "GeForce 8800");
    assert_eq!(mfv(0x0605), "GeForce 8800/9800");
    assert_eq!(mfv(0x0866), "GeForce 8100/8200");
    assert_eq!(mfv(0x1000), "NVIDIA (Unknown)");
    let f = |vendor_id: u16, device_id: u16| trustos_drivers::framework::PciFunction {
        vendor_id,
        device_id,
        bus: 0,
        device: 0,
        function: 0,
        revision: 0,
        class: 3,
        subclass: 0,
        prog_if: 0,
        interrupt_line: 0,
        bar: [0; 6],
    };
    assert!(nvidia_find(&vec![f(0x1002, 0x0193), f(0x10DE, 0x1000)]).is_none());
    assert_eq!(nvidia_find(&vec![f(0x10DE, 0x1000), f(0x10DE, 0x0402), f(0x10DE, 0x0193)]).unwrap().device_id, 0x0402);
}
