use trustos_drivers::framework::{
    controller_kind, gga, goi, gom, ied, init, pyh, qnp, register, usb_controller_name, Bb, Cw,
    ControllerKind, DriverCategory, DriverRegistry, DriverStatus, LoadOutcome, PciFunction,
    StorageAction,
};
use trustos_drivers::input::{idr, keyboard_type, mjr, mouse_type, qyh, InputDeviceType, InputState};
use trustos_drivers::net::{
    aoh, aqt, e1000_info, link_up, oei, poll, receive, rtl8139_info, rtl8169_info,
    rtl8169_is_initialized, send, stats, virtio_net_info, Dd, E1000Driver, NetRegistry, NetStats,
    Rtl8139Driver, Rtl8169Driver, RxDesc, TxDesc, VirtioNetDriver,
};
use trustos_drivers::usb::{is_initialized, kxn, lqv, mjm, qla, qlh, Afy, UsbDeviceClass, UsbState};

fn pci(class: u8, subclass: u8, prog_if: u8) -> PciFunction {
    PciFunction {
        vendor_id: 0x8086,
        device_id: 0x1234,
        bus: 0,
        device: 3,
        function: 0,
        revision: 1,
        class,
        subclass,
        prog_if,
        interrupt_line: 11,
        bar: [0xF000_0000, 0, 0, 0, 0, 0xFEB0_0000],
    }
}

fn info(name: &'static str, category: DriverCategory, ids: Vec<(u16, u16)>) -> Bb {
    Bb { name, version: "1.0", author: "me", category, vendor_ids: ids }
}

fn e1000_ready() -> E1000Driver {
    let mut d = E1000Driver::new();
    d.rx_descs = vec![RxDesc { buffer_addr: 0, length: 0, checksum: 0, status: 0, errors: 0, special: 0 }; 32];
    d.tx_descs = vec![TxDesc { buffer_addr: 0, length: 0, cso: 0, cmd: 0, status: 1, css: 0, special: 0 }; 8];
    d.rx_buffers = vec![vec![0u8; 2048]; 32];
    d.tx_buffers = vec![vec![0u8; 2048]; 8];
    d.tx_buffer_phys = (0..8).map(|i| 0x10_0000 + i * 2048).collect();
    d.mmio_base = 0xFEB0_0000;
    d.initialized = true;
    d
}

#[test]
fn declarations_are_copied() {
    let b = rtl8139_info();
    assert_eq!(b.name, "rtl8139");
    assert_eq!(b.vendor_ids, vec![(0x10EC, 0x8139)]);
    let c = b.copy();
    assert_eq!((c.name, c.version, c.category), (b.name, b.version, b.category));
    assert_eq!(c.vendor_ids, b.vendor_ids);
    assert_eq!(virtio_net_info().vendor_ids, vec![(0x1AF4, 0x1000), (0x1AF4, 0x1041)]);
    assert_eq!(rtl8169_info().vendor_ids.len(), 4);
    assert_eq!(e1000_info().category, DriverCategory::Network);
}

#[test]
fn driver_loading_goes_by_declared_ids() {
    let mut reg = DriverRegistry::new();
    register(&mut reg, info("net", DriverCategory::Network, vec![(0x8086, 0xFFFF)]));
    register(&mut reg, info("a", DriverCategory::Storage, vec![(0x1111, 1)]));
    register(&mut reg, info("b", DriverCategory::Storage, vec![(0x8086, 0xFFFF)]));
    register(&mut reg, info("c", DriverCategory::Display, vec![(0x8086, 0x1234)]));
    // no matching entry: nothing tried
    assert_eq!(goi(&mut reg, 0xDEAD, 1, |_| LoadOutcome::Started), None);
    // "b" refuses, "c" starts; the network entry is never tried
    let tried = std::cell::RefCell::new(Vec::new());
    let r = goi(&mut reg, 0x8086, 0x1234, |i| {
        tried.borrow_mut().push(i);
        if i == 3 { LoadOutcome::Started } else { LoadOutcome::ProbeFailed }
    });
    assert_eq!(r, Some(0));
    assert_eq!(*tried.borrow(), vec![2, 3]);
    assert_eq!(gga(&reg), 1);
    // a start failure ends the search
    assert_eq!(goi(&mut reg, 0x8086, 0x1234, |_| LoadOutcome::StartFailed), None);
    assert_eq!(gga(&reg), 1);
    assert_eq!(goi(&mut reg, 0x8086, 0x1234, |_| LoadOutcome::Started), Some(1));
    let all = qnp(&reg);
    assert_eq!(all.iter().map(|b| b.name).collect::<Vec<_>>(), vec!["net", "a", "b", "c"]);
}

#[test]
fn probing_counts_successes() {
    assert_eq!(pyh(5, |i| i % 2 == 0), 3);
    assert_eq!(pyh(0, |_| true), 0);
}

#[test]
fn storage_probe_plan() {
    assert_eq!(controller_kind(&pci(0x01, 0x06, 0x01)), ControllerKind::Ahci);
    assert_eq!(controller_kind(&pci(0x01, 0x06, 0x00)), ControllerKind::Other);
    assert_eq!(controller_kind(&pci(0x01, 0x01, 0x80)), ControllerKind::Ide);
    assert_eq!(controller_kind(&pci(0x01, 0x08, 0x02)), ControllerKind::Nvme);
    assert_eq!(controller_kind(&pci(0x0C, 0x03, 0x30)), ControllerKind::Xhci);
    assert_eq!(controller_kind(&pci(0x0C, 0x03, 0x20)), ControllerKind::Usb);
    assert_eq!(usb_controller_name(0x20), "EHCI (USB 2.0)");
    assert_eq!(usb_controller_name(0x40), "Unknown USB");
    let devs = vec![pci(0x03, 0, 0), pci(0x01, 0x06, 0x01), pci(0x0C, 0x03, 0x10), pci(0x0C, 0x03, 0x30), pci(0x01, 0x01, 0)];
    assert_eq!(
        gom(&devs),
        vec![
            StorageAction::InitAhci(0xFEB0_0000),
            StorageAction::ReportUsb(0x10),
            StorageAction::InitXhci(0xF000_0000),
            StorageAction::InitIde
        ]
    );
    assert!(ied(false, false, true));
    assert!(!ied(false, false, false));
}

#[test]
fn framework_init_registers_network_drivers_and_input() {
    let mut drivers = DriverRegistry::new();
    let mut net = NetRegistry::new();
    let mut input = InputState::new();
    init(&mut drivers, &mut net, &mut input, false);
    assert_eq!(drivers.entries.len(), 4);
    let names: Vec<&str> = net.entries.iter().map(|b| b.name).collect();
    assert_eq!(names, vec!["virtio-net", "e1000", "rtl8139", "rtl8169"]);
    assert!(idr(&input));
    assert!(!mjr(&input));
    assert_eq!(keyboard_type(&input), Some(InputDeviceType::PS2Keyboard));
    assert_eq!(mouse_type(&input), None);
    init(&mut drivers, &mut net, &mut input, true);
    assert!(mjr(&input));
    assert_eq!(mouse_type(&input), Some(InputDeviceType::PS2Mouse));
    let before = input;
    qyh(&mut input, true, true);
    assert_eq!(input, before);
}

#[test]
fn network_driver_selection() {
    let mut drivers = DriverRegistry::new();
    let mut net = NetRegistry::new();
    oei(&mut drivers, &mut net);
    assert!(!aoh(&net));
    assert!(!trustos_drivers::net::goi(&mut net, 0x10EC, 0x8139, |_| LoadOutcome::ProbeFailed));
    assert!(!aoh(&net));
    assert!(trustos_drivers::net::goi(&mut net, 0x10EC, 0x8168, |i| if i == 3 { LoadOutcome::Started } else { LoadOutcome::ProbeFailed }));
    assert!(aoh(&net));
    assert!(rtl8169_is_initialized(&net));
    let mut other = NetRegistry::new();
    oei(&mut drivers, &mut other);
    assert!(!trustos_drivers::net::goi(&mut other, 0x1234, 0x5678, |_| LoadOutcome::Started));
}

#[test]
fn active_driver_operations() {
    let mut none: Option<Rtl8139Driver> = None;
    assert_eq!(aqt(&none), None);
    assert!(!link_up(&none));
    assert_eq!(send(&mut none, &[0u8; 60]), Err("No network driver"));
    assert!(receive(&mut none).is_none());
    poll(&mut none);
    assert_eq!(stats(&none), NetStats::default());
    let mut some = Some(Rtl8139Driver::new());
    assert_eq!(aqt(&some), Some([0x52, 0x54, 0x00, 0x81, 0x39, 0x00]));
    assert_eq!(send(&mut some, &[0u8; 60]), Err("Not implemented"));
    let d = some.as_mut().unwrap();
    assert_eq!(d.probe(&pci(2, 0, 0)), Err("RTL8139 driver not implemented yet"));
    assert_eq!(d.start(), Ok(()));
    assert_eq!(d.status(), DriverStatus::Running);
    assert_eq!(d.stop(), Ok(()));
    assert_eq!(d.status(), DriverStatus::Suspended);
    assert_eq!(d.info().name, "rtl8139");
    assert_eq!(d.mac_address()[5], 0);
}

#[test]
fn e1000_transmit_and_receive() {
    let mut d = E1000Driver::new();
    assert_eq!(d.transmit(&[0u8; 60]), Err("Driver not initialized"));
    assert_eq!(d.link_speed(0x80), 0);
    let mut d = e1000_ready();
    assert_eq!(d.link_speed(0x00), 10);
    assert_eq!(d.link_speed(0x40), 100);
    assert_eq!(d.link_speed(0x80), 1000);
    assert_eq!(d.transmit(&[0u8; 13]), Err("Packet too small"));
    assert_eq!(d.transmit(&vec![0u8; 2049]), Err("Packet too large"));
    let frame: Vec<u8> = (0..64).collect();
    assert_eq!(d.transmit(&frame), Ok(1));
    assert_eq!(&d.tx_buffers[0][..64], &frame[..]);
    assert_eq!((d.tx_descs[0].length, d.tx_descs[0].cmd, d.tx_descs[0].status), (64, 0x0B, 0));
    assert_eq!(d.tx_descs[0].buffer_addr, 0x10_0000);
    assert_eq!((d.tx_packets, d.tx_bytes), (1, 64));
    d.tx_cur = 0;
    assert_eq!(d.transmit(&frame), Err("TX timeout"));
    assert_eq!(d.tx_errors, 1);

    assert!(d.take_received().is_none());
    d.rx_buffers[0][..4].copy_from_slice(&[1, 2, 3, 4]);
    d.rx_descs[0].status = 1;
    d.rx_descs[0].length = 4;
    assert_eq!(d.take_received(), Some((vec![1, 2, 3, 4], 0)));
    assert_eq!((d.rx_cur, d.rx_packets, d.rx_bytes), (1, 1, 4));
    d.rx_descs[1].status = 1;
    d.rx_descs[1].errors = 2;
    assert!(d.take_received().is_none());
    assert_eq!((d.rx_cur, d.rx_errors), (2, 1));
    let s = d.counters();
    assert_eq!((s.tx_packets, s.rx_packets, s.tx_errors, s.rx_errors), (1, 1, 1, 1));
}

#[test]
fn other_network_drivers_start_idle() {
    let v = VirtioNetDriver::new();
    assert_eq!(v.status, DriverStatus::Unloaded);
    let r = Rtl8169Driver::new();
    assert_eq!(r.mac, [0x52, 0x54, 0x00, 0x81, 0x69, 0x00]);
    assert!(!r.initialized);
}

#[test]
fn usb_controllers_and_devices() {
    let mut st = UsbState::new();
    assert!(!is_initialized(&st));
    assert!(!qla(&mut st, 0));
    assert!(!qlh(&mut st, 0xFFFF_FFFF));
    assert_eq!(kxn(&st), 0);
    assert!(!qla(&mut st, 0xFE00_0000));
    assert!(!qlh(&mut st, 0xFE10_0000));
    assert_eq!(kxn(&st), 2);
    assert!(!is_initialized(&st));
    assert!(!mjm(&st));
    st.controllers[1].devices.push(Afy {
        address: 1,
        class: UsbDeviceClass::HID,
        vendor_id: 0x046D,
        product_id: 0xC077,
        manufacturer: String::from("Logitech"),
        product: String::from("Mouse"),
    });
    st.controllers[1].initialized = true;
    assert!(is_initialized(&st));
    assert!(mjm(&st));
    let all = lqv(&st);
    assert_eq!(all.len(), 1);
    assert_eq!(all[0].product, "Mouse");
}

#[test]
fn e1000_counters_wrap_at_their_limit() {
    let mut d = e1000_ready();
    d.tx_packets = u64::MAX;
    d.tx_bytes = u64::MAX - 10;
    let frame = vec![0u8; 64];
    assert_eq!(d.transmit(&frame), Ok(1));
    assert_eq!((d.tx_packets, d.tx_bytes), (0, 53));
    d.rx_packets = u64::MAX;
    d.rx_bytes = u64::MAX;
    d.rx_descs[0].status = 1;
    d.rx_descs[0].length = 4;
    assert!(d.take_received().is_some());
    assert_eq!((d.rx_packets, d.rx_bytes), (0, 3));
}
