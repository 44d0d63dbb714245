use trustos_drivers::xhci::{
    adz, aqg, command_completion, eap, erdp_value, is_initialized, keyboard_report_chars, mli,
    next_event, parse_mouse_report, qhq, transfer_event, wk, An, Jh, MouseReport, Qw,
    TransferRing, Trb, Xh, TRB_LINK,
};

fn caps(hcsparams1: u32, hccparams1: u32) -> Qw {
    Qw {
        caplength: 0x20,
        _reserved: 0,
        hciversion: 0x100,
        hcsparams1,
        hcsparams2: 0,
        hcsparams3: 0,
        hccparams1,
        dboff: 0,
        rtsoff: 0,
        hccparams2: 0,
    }
}

fn device(slot_id: u8, vendor_id: u16) -> Jh {
    Jh {
        slot_id,
        port: 1,
        speed: 3,
        vendor_id,
        product_id: 0x1234,
        class: 3,
        subclass: 1,
        protocol: 1,
        num_configs: 1,
        max_packet_size: 64,
        manufacturer: String::from("ACME"),
        product: String::from("Keyboard"),
    }
}

fn controller(devices: Vec<Jh>) -> An {
    An {
        base_phys: 0,
        base_virt: 0,
        cap_regs: 0,
        glc: 0,
        doorbell_base: 0,
        runtime_base: 0,
        dcbaa: Vec::new(),
        fqt: 0,
        cmd_ring: Xh { trbs: vec![Trb::new(); 256] },
        cmd_ring_phys: 0x10_0000,
        cmd_enqueue: 0,
        cmd_cycle: true,
        event_ring: vec![Trb::new(); 256],
        event_ring_phys: 0x20_0000,
        fvf: Vec::new(),
        fvg: 0,
        event_dequeue: 0,
        event_cycle: true,
        device_contexts: Vec::new(),
        devices,
        max_slots: 32,
        max_ports: 4,
        context_size: 32,
        initialized: true,
    }
}

#[test]
fn capability_fields() {
    let c = caps(0x0400_0820, 0x4);
    assert_eq!(c.max_slots(), 0x20);
    assert_eq!(c.qov(), 8);
    assert_eq!(c.max_ports(), 4);
    assert_eq!(c.context_size(), 64);
    assert_eq!(caps(0, 0).context_size(), 32);
}

#[test]
fn trb_fields() {
    let l = Trb::link(0xABC000);
    assert_eq!((l.parameter, l.status, l.control), (0xABC000, 0, 0x1801));
    assert_eq!(l.cer() as u32, TRB_LINK);
    assert!(l.qce());
    assert!(!Trb::new().qce());
}

#[test]
fn ring_stamps_cycle_and_links_at_the_end() {
    let mut r = TransferRing::new(0x5000);
    assert_eq!((r.enqueue, r.cycle), (0, true));
    r.enqueue_trb(Trb { parameter: 7, status: 8, control: 0x400 });
    assert_eq!(r.trbs[0].control, 0x401);
    assert_eq!((r.trbs[0].parameter, r.trbs[0].status), (7, 8));
    assert_eq!(r.enqueue, 1);
    for _ in 1..255 {
        r.enqueue_trb(Trb { parameter: 1, status: 0, control: 0x400 });
    }
    // a full lap: back at the start with the cycle state toggled
    assert_eq!((r.enqueue, r.cycle), (0, false));
    assert_eq!((r.trbs[255].parameter, r.trbs[255].control), (0x5000, 0x1803));
    r.enqueue_trb(Trb { parameter: 2, status: 0, control: 0x401 });
    assert_eq!(r.trbs[0].control, 0x400);
    assert_eq!(r.enqueue, 1);
}

#[test]
fn command_ring_and_event_ring() {
    let mut a = controller(Vec::new());
    eap(&mut a, Trb { parameter: 0, status: 0, control: 9 << 10 });
    assert_eq!(a.cmd_ring.trbs[0].control, (9 << 10) | 1);
    assert_eq!(a.cmd_enqueue, 1);
    // the slot still carries the old cycle bit: nothing to take
    assert!(next_event(&mut a).is_none());
    a.event_ring[0] = Trb { parameter: 0x10_0000, status: 1 << 24, control: (33 << 10) | (5 << 24) | 1 };
    let e = next_event(&mut a).unwrap();
    assert_eq!(command_completion(&e), Some((1, 5, 0x10_0000)));
    assert_eq!(a.event_dequeue, 1);
    assert_eq!(erdp_value(&a), 0x20_0000 + 16 | 8);
    a.event_dequeue = 255;
    a.event_ring[255].control = 1;
    assert!(next_event(&mut a).is_some());
    assert_eq!((a.event_dequeue, a.event_cycle), (0, false));
}

#[test]
fn event_decoding() {
    let t = Trb { parameter: 0, status: (13 << 24) | 0x20, control: (32 << 10) | (3 << 16) | 1 };
    assert_eq!(transfer_event(&t), Some((13, 0x20, 3)));
    assert_eq!(command_completion(&t), None);
    let c = Trb { parameter: 0x40, status: 1 << 24, control: (33 << 10) | (2 << 24) };
    assert_eq!(transfer_event(&c), Some((1, 0, 2)));
    let other = Trb { parameter: 0, status: 0, control: 34 << 10 };
    assert_eq!(transfer_event(&other), None);
}

#[test]
fn direct_map_addresses() {
    assert_eq!(wk(0x1000, 0xFFFF_8000_0000_0000), 0xFFFF_8000_0000_1000);
    assert_eq!(wk(u64::MAX, 2), 1);
}

#[test]
fn device_table() {
    let none: Option<An> = None;
    assert!(!is_initialized(&none));
    assert_eq!(aqg(&none), 0);
    assert!(adz(&none).is_empty());
    assert!(qhq(&none, 1).is_none());
    let c = Some(controller(vec![device(1, 0x046D), device(2, 0x8086), device(2, 0x1111)]));
    assert!(is_initialized(&c));
    assert_eq!(aqg(&c), 3);
    assert_eq!(adz(&c)[1].vendor_id, 0x8086);
    assert_eq!(qhq(&c, 2).unwrap().vendor_id, 0x8086);
    assert_eq!(qhq(&c, 1).unwrap().product, "Keyboard");
    assert!(qhq(&c, 9).is_none());
}

#[test]
fn keyboard_usage_codes() {
    assert_eq!(mli(0x04, 0), b'a');
    assert_eq!(mli(0x04, 0x02), b'A');
    assert_eq!(mli(0x1D, 0x20), b'Z');
    assert_eq!(mli(0x1E, 0), b'1');
    assert_eq!(mli(0x1F, 0x02), b'@');
    assert_eq!(mli(0x27, 0), b'0');
    assert_eq!(mli(0x28, 0), 0x0D);
    assert_eq!(mli(0x2C, 0), b' ');
    assert_eq!(mli(0x38, 0x02), b'?');
    assert_eq!(mli(0x3A, 0), 0);
    assert_eq!(keyboard_report_chars(&[0x02, 0, 0x0B, 0x0C, 0, 0x3A, 0x1E, 0]), vec![b'H', b'I', b'!']);
    assert!(keyboard_report_chars(&[0, 0, 4]).is_empty());
}

#[test]
fn mouse_reports() {
    assert_eq!(parse_mouse_report(&[1, 2]), None);
    assert_eq!(
        parse_mouse_report(&[0b101, 0xFE, 3]),
        Some(MouseReport { dx: -2, dy: 3, left: true, right: false, middle: true, scroll: 0 })
    );
    assert_eq!(
        parse_mouse_report(&[0b010, 0x80, 0x7F, 0xFF]),
        Some(MouseReport { dx: -128, dy: 127, left: false, right: true, middle: false, scroll: -1 })
    );
}
