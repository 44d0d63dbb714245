use trustos_drivers::usb_storage::parse_inquiry;
use trustos_drivers::hda::VolumeState;
use trustos_drivers::hda::set_volume;
use trustos_drivers::hda_plan::CodecGraph;
use trustos_drivers::hda::trace_to_dac;
use trustos_drivers::iwl4965::Iwl4965;
use trustos_drivers::iwl_cmd::scan_notification_readable;
use trustos_drivers::xhci::{bios_released, controller_setup, forced_ownership, legacy_step, new_controller, scratchpad_count, LegacyAction};
use trustos_drivers::apple::{aic_event, aic_ipi, aic_route, aic_set_enabled, aic_setup, AicEvent};
use trustos_drivers::apple::{uart_divisors, uart_setup};
use trustos_drivers::xhci::{port_action, port_enabled, port_reset_done, PortAction};
use trustos_drivers::amdgpu::firmware::{record_load, ucode_words, FwState, FwStatus, Yx};
use trustos_drivers::iwl4965::{alive_check, boot_words, AliveCheck};
use trustos_drivers::amdgpu::sdma::{sdma_complete, sdma_submit, upload_plan, Aep, Kp, SdmaOp};
use trustos_drivers::amdgpu::compute::{dispatch_plan, verify_results, AgentKind, Oi};
use trustos_drivers::amdgpu::neural::{all_kernels, NeuralKernel};
use trustos_drivers::amdgpu::{decode_identity, vram_size, vram_type};
use trustos_drivers::hda::{Aw, Note, WidgetType, Wk};
use trustos_drivers::hda_plan::{output_stream_plan, widget_from_replies, widget_queries, HdaStep};
use trustos_drivers::net::E1000Driver;
use trustos_drivers::usb_storage::{add_device, mpb, read_sectors, StorageState};
use trustos_drivers::virtio_gpu::{Compositor, GpuSurface};

fn widget(nid: u16, kind: u32, pin_config: u32, connections: Vec<u16>) -> Aw {
    let caps = kind << 20;
    Aw { nid, widget_type: WidgetType::lzc(caps), caps, pin_config, connections, amp_in_caps: 0, amp_out_caps: 0 }
}

fn graph() -> (Vec<Aw>, Vec<Wk>) {
    let ws = vec![widget(2, 0, 0, vec![]), widget(3, 4, 0, vec![2])];
    let paths = vec![Wk { pin_nid: 3, dac_nid: 2, path: vec![3, 2], device_type: "Line Out" }];
    (ws, paths)
}

fn verb(nid: u16, verb: u32, data: u8) -> HdaStep {
    HdaStep::Verb { codec: 0, nid, verb, data }
}

fn verb16(nid: u16, verb: u32, payload: u16) -> HdaStep {
    HdaStep::Verb16 { codec: 0, nid, verb, payload }
}

#[test]
fn output_stream_plan_for_a_plain_codec() {
    let (ws, paths) = graph();
    let steps = output_stream_plan(0, 0x10EC_0269, &ws, &paths, 1, 0, 0).unwrap();
    let expected = vec![
        verb(3, 0x705, 0),
        verb(2, 0x705, 0),
        verb(3, 0x707, 0xC0),
        verb(3, 0x70C, 0x02),
        verb(2, 0x706, 0x10),
        verb16(2, 0x200, 0x0011),
        HdaStep::Delay { us: 5000 },
        verb16(2, 0x300, 0xB000),
        verb16(2, 0x300, 0x7000),
        verb16(3, 0x300, 0xB000),
        verb16(3, 0x300, 0x7000),
        verb(3, 0x705, 0),
        verb(2, 0x705, 0),
        verb16(3, 0x300, 0xB003),
        verb16(3, 0x300, 0x7003),
        verb(3, 0x707, 0xC0),
        verb(3, 0x70C, 0x02),
        verb(3, 0x701, 0),
    ];
    assert_eq!(steps, expected);
}

#[test]
fn output_stream_plan_quirks_and_refusal() {
    let (ws, paths) = graph();
    let conexant = output_stream_plan(0, 0x14F1_5069, &ws, &paths, 1, 0, 0).unwrap();
    assert_eq!(conexant.len(), 30);
    assert_eq!(conexant[2], verb(1, 0x705, 0));
    assert_eq!(conexant[3], HdaStep::Delay { us: 10_000 });
    let analog = output_stream_plan(0, 0x11D4_1984, &ws, &paths, 1, 0, 0).unwrap();
    assert_eq!(analog.len(), 31);
    assert!(analog.contains(&verb16(1, 0x400, 0x0008)));
    assert_eq!(output_stream_plan(0, 0, &ws, &vec![], 1, 0, 0), Err("HDA: no output paths to configure"));
}

#[test]
fn widget_discovery_from_replies() {
    let caps = (4 << 20) | 0x0C;
    let q = widget_queries(caps, 5);
    assert_eq!(q.conn_offsets, vec![0, 4]);
    assert!(q.pin_config && q.amp_out && !q.amp_in);
    assert!(widget_queries(caps, 0x85).conn_offsets.is_empty());
    let w = widget_from_replies(5, caps, 5, &vec![0x0403_0201, 0x0000_0005], 0x0101_4010, 0x8005_1F1F, 0, 0x11, 0x22);
    assert_eq!(w.nid, 5);
    assert_eq!(w.widget_type, WidgetType::PinComplex);
    assert_eq!(w.connections, vec![1, 2, 3, 4, 5]);
    assert_eq!(w.pin_config, 0x0101_4010);
    assert_eq!(w.amp_out_caps, 0x8005_1F1F);
    assert_eq!(w.amp_in_caps, 0);
    let dac = widget_from_replies(2, 0x04, 0, &vec![], 0x1234, 0, 0, 0x11, 0x22);
    assert_eq!(dac.widget_type, WidgetType::AudioOutput);
    assert_eq!(dac.pin_config, 0);
    assert_eq!(dac.amp_out_caps, 0x11);
}

fn engine(initialized: bool) -> Oi {
    Oi {
        initialized,
        mmio_base: 0x1000,
        ring_virt: 0,
        ring_phys: 0x3000_0000,
        data_virt: 0,
        data_phys: 0x1000_0000,
        code_virt: 0,
        code_phys: 0x2000_0000,
        wptr: 7,
        dispatch_count: 0,
    }
}

#[test]
fn dispatch_plan_refused_before_setup() {
    let mut st = engine(false);
    assert!(matches!(dispatch_plan(&mut st, AgentKind::Incr, 10, 0), Err("GPU compute engine not initialized")));
    assert_eq!(st.wptr, 7);
    assert_eq!(st.dispatch_count, 0);
}

#[test]
fn dispatch_plan_packets_and_data() {
    let mut st = engine(true);
    let p = dispatch_plan(&mut st, AgentKind::MemFill, 100, 7).unwrap();
    assert_eq!(p.elements, 100);
    assert_eq!(p.workgroups, 2);
    assert_eq!(p.data, vec![0u32; 100]);
    assert_eq!(p.packets.len(), 48);
    assert_eq!(&p.packets[0..4], &[0xC000_7602, 0x83, 0x0020_0000, 0]);
    assert_eq!(&p.packets[34..39], &[0xC000_1503, 2, 1, 1, 1]);
    assert_eq!(p.fence_addr, 0x1000_0000 + 65520);
    assert_eq!(p.fence_value, 0xDEAD_BEEF_CAFE_F00D);
    assert_eq!(st.wptr, 48);
    assert_eq!(st.dispatch_count, 1);
    let c = dispatch_plan(&mut st, AgentKind::MemCopy, 20000, 0).unwrap();
    assert_eq!(c.elements, 16368);
    assert_eq!(c.data[0], 0xA0A0_0000);
    assert_eq!(c.data[8183], 0xA0A0_0000 + 8183);
    assert_eq!(c.data[8184], 0);
    assert_eq!(c.packets.len(), 45);
    assert_eq!(st.dispatch_count, 2);
    let i = dispatch_plan(&mut st, AgentKind::Incr, 3, 0).unwrap();
    assert_eq!(i.data, vec![0, 1, 2]);
}

#[test]
fn gpu_identity_and_vram() {
    assert_eq!(decode_identity(0x000A_0100, 0xFFFF_0003, 0x0000_ABCD, 0x0000_1200), (143, 0x000A_0100, 38, 0xABCD, 0x12));
    assert_eq!(decode_identity(0x000A_0300, 0x0000_FFFF, 0xFFFF_FFFF, 0), (144, 0x000A_0300, 0, 0, 0));
    assert_eq!(decode_identity(0x0009_0100, 0, 0, 0).0, 0);
    assert_eq!(vram_size(0x0000_F400, 0x0000_F7FF, 0), 0x4000_0000);
    assert_eq!(vram_size(5, 5, 8192), 0x2_0000_0000);
    assert_eq!(vram_size(5, 5, 0), 0);
    assert_eq!(vram_type(0x6000_0000), "HBM");
    assert_eq!(vram_type(0x9000_0000), "GDDR6");
    assert_eq!(vram_type(0), "GDDR6 (assumed)");
}

#[test]
fn kernel_list_names_each_kernel_once() {
    let ks = all_kernels();
    assert_eq!(ks.len(), 5);
    assert_eq!(ks[0], NeuralKernel::GemmInt8);
    let names: Vec<&str> = ks.iter().map(|k| k.name()).collect();
    assert_eq!(names, vec!["gemm_int8", "gemm_fp32", "relu", "scale", "add"]);
    for k in &ks {
        let code = k.shader_code();
        assert!(code.len() > 5);
        assert_eq!(*code.last().unwrap(), 0xBF81_0000);
    }
}

#[test]
fn note_octaves_double() {
    assert_eq!(Note::new(69, 4, 100).freq_hz(), 440);
    assert_eq!(Note::new(81, 4, 100).freq_hz(), 880);
    assert_eq!(Note::new(93, 4, 100).freq_hz(), 1760);
    let mut last = 0;
    for n in 0..=255u8 {
        let f = Note::new(n, 1, 1).freq_hz();
        assert!(f >= last);
        last = f;
    }
}

#[test]
fn e1000_refusals_keep_counters() {
    let mut d = E1000Driver::new();
    d.tx_packets = 5;
    d.tx_bytes = 300;
    assert_eq!(d.transmit(&[0u8; 60]), Err("Driver not initialized"));
    assert_eq!((d.tx_packets, d.tx_bytes, d.tx_cur), (5, 300, 0));
    let rx: Vec<u64> = (0..32).map(|i| 0x10_0000 + 0x1000 * i).collect();
    let tx: Vec<u64> = (0..8).map(|i| 0x20_0000 + 0x1000 * i).collect();
    d.setup_rings(&rx, &tx);
    d.initialized = true;
    assert_eq!(d.transmit(&[0u8; 3000]), Err("Packet too large"));
    assert_eq!(d.transmit(&[0u8; 10]), Err("Packet too small"));
    assert_eq!((d.tx_packets, d.tx_bytes, d.tx_cur), (5, 300, 0));
    assert_eq!(d.transmit(&[0u8; 60]), Ok(1));
    assert_eq!((d.tx_packets, d.tx_bytes, d.tx_cur), (6, 360, 1));
}

#[test]
fn usb_read_refusals_with_any_block_address() {
    let mut st = StorageState::new();
    assert_eq!(read_sectors(&st, 0, 0xFFFF_FFFF, 10, 0), Err("Invalid device index"));
    add_device(&mut st, mpb(1, 0x81, 0x02, 512, 512));
    assert_eq!(read_sectors(&st, 0, 0xFFFF_FFFF, 10, 0), Err("Device not ready"));
}

#[test]
fn rounded_outline_matches_outline_and_any_layer_is_accepted() {
    let mut a = GpuSurface::new(10, 10);
    let mut b = GpuSurface::new(10, 10);
    a.draw_rect(1, 1, 4, 3, 0xFF00_FF00);
    b.draw_rounded_rect(1, 1, 4, 3, 2, 0xFF00_FF00);
    for y in 0..10 {
        for x in 0..10 {
            assert_eq!(a.get_pixel(x, y), b.get_pixel(x, y));
        }
    }
    assert_eq!(b.get_pixel(1, 1), 0xFF00_FF00);
    let mut c = Compositor::new(4, 4);
    assert_eq!(c.add_layer(GpuSurface::new(4, 4), i32::MAX, 0, 3), 0);
    assert_eq!(c.add_layer(GpuSurface::new(2, 2), 0, 0, 1), 1);
    assert_eq!(c.get_layer(0).unwrap().z_order, 1);
    assert_eq!(c.get_layer(1).unwrap().z_order, 3);
    c.get_layer_mut(1).unwrap().visible = false;
    assert!(!c.get_layer(1).unwrap().visible);
    assert!(c.get_layer_mut(2).is_none());
}

fn sdma_state() -> Aep {
    let eng = Kp {
        index: 0,
        mmio_base: 0x1000,
        reg_base: 0x4980,
        ring_virt: 0,
        ring_phys: 0x50_0000,
        wptr: 4090,
        fence_seq: u32::MAX,
        transfers: 0,
        bytes: 0,
    };
    Aep {
        initialized: true,
        mmio_base: 0x1000,
        engines: [Some(eng), None],
        status_virt: 0xFFFF_8000_0000_0000,
        status_phys: 0x60_0000,
        staging_virt: 0,
        staging_phys: 0x70_0000,
        total_bytes: 0,
        total_transfers: 0,
    }
}

#[test]
fn sdma_submission_and_fence_wrap() {
    let mut st = sdma_state();
    let sub = sdma_submit(&mut st, SdmaOp::Copy { src: 0x1_0000_1000, dst: 0x2000, bytes: 4096 }, 0).unwrap().unwrap();
    assert_eq!(sub.engine, 0);
    assert_eq!(sub.ring_pos, 4090);
    assert_eq!(sub.packets, vec![0x100, 4096, 0, 0x1000, 1, 0x2000, 0, 0x500, 0x60_0000, 0, u32::MAX]);
    assert_eq!(sub.fence_phys, 0x60_0000);
    assert_eq!(sub.fence_value, u32::MAX);
    let e = st.engines[0].unwrap();
    assert_eq!(e.fence_seq, 1);
    assert_eq!(e.wptr, 5);
    sdma_complete(&mut st, 0, 4096);
    assert_eq!(st.engines[0].unwrap().transfers, 1);
    assert_eq!(st.total_bytes, 4096);
    let fill = sdma_submit(&mut st, SdmaOp::Fill { dst: 0x3000, value: 7, bytes: 64 }, 0).unwrap().unwrap();
    assert_eq!(fill.packets[..5], [0xB00, 0x3000, 0, 7, 64]);
    assert_eq!(fill.fence_value, 1);
    assert_eq!(st.engines[0].unwrap().fence_seq, 2);
    assert!(matches!(sdma_submit(&mut st, SdmaOp::Fill { dst: 0, value: 0, bytes: 6 }, 0), Err("byte_count must be a multiple of 4")));
    assert!(matches!(sdma_submit(&mut st, SdmaOp::Copy { src: 0, dst: 0, bytes: 0x400_0001 }, 0), Err("Transfer too large (max 64MB per SDMA packet)")));
    assert!(matches!(sdma_submit(&mut st, SdmaOp::Copy { src: 0, dst: 0, bytes: 0 }, 0), Ok(None)));
    assert!(matches!(sdma_submit(&mut st, SdmaOp::Copy { src: 0, dst: 0, bytes: 4 }, 5), Err("SDMA engine not ready")));
    st.initialized = false;
    assert!(matches!(sdma_submit(&mut st, SdmaOp::Copy { src: 0, dst: 0, bytes: 4 }, 0), Err("SDMA not initialized")));
    let plan = upload_plan(300 * 1024 + 3, 0x10_0000);
    assert_eq!(plan, vec![(0, 256 * 1024, 256 * 1024, 0x10_0000), (256 * 1024, 44 * 1024 + 3, 44 * 1024 + 4, 0x10_0000 + 256 * 1024)]);
}

#[test]
fn iwl_boot_words_and_alive_polls() {
    assert_eq!(boot_words(&[1, 2, 3, 4, 5]), vec![0x0403_0201, 0x0000_0005]);
    assert!(boot_words(&[]).is_empty());
    assert_eq!(alive_check(0x1, 0, false), AliveCheck::Alive(1));
    assert_eq!(alive_check(0x2000_0000, 5, true), AliveCheck::HwError(0x2000_0000));
    assert_eq!(alive_check(0x0400_0000, 0, false), AliveCheck::Alive(0x0400_0000));
    assert_eq!(alive_check(0, 7, false), AliveCheck::Alive(0));
    assert_eq!(alive_check(0, 0xFFFF_FFFF, false), AliveCheck::Pending);
    assert_eq!(alive_check(0, 0, true), AliveCheck::Alive(0));
}

#[test]
fn gpu_firmware_words_and_load_record() {
    let mut f = vec![0u8; 24];
    f[4] = 6;
    f.extend_from_slice(&[0x78, 0x56, 0x34, 0x12, 0xEF, 0xBE, 0xAD, 0xDE, 0x01]);
    assert_eq!(ucode_words(&f), vec![0x1234_5678, 0xDEAD_BEEF]);
    let mut st = FwState {
        table: Yx {
            rlc: FwStatus::NotFound,
            pfp: FwStatus::NotFound,
            me: FwStatus::NotFound,
            ce: FwStatus::NotFound,
            mec1: FwStatus::NotFound,
            mec2: FwStatus::NotFound,
            sdma0: FwStatus::Running,
            sdma1: FwStatus::NotFound,
            mmio_base: 0,
        },
        loaded: false,
    };
    record_load(&mut st, 0x1000, [None; 8]);
    assert!(!st.loaded);
    assert_eq!(st.table.sdma0, FwStatus::Running);
    record_load(&mut st, 0x1000, [Some(0), Some(0), None, None, Some(4), None, Some(0), Some(9)]);
    assert_eq!(st.table.rlc, FwStatus::Failed);
    assert_eq!(st.table.pfp, FwStatus::Loaded);
    assert_eq!(st.table.me, FwStatus::NotFound);
    assert_eq!(st.table.mec1, FwStatus::Loaded);
    assert_eq!(st.table.sdma0, FwStatus::Failed);
    assert_eq!(st.table.sdma1, FwStatus::Loaded);
    assert_eq!(st.table.mmio_base, 0x1000);
    assert!(st.loaded);
}

#[test]
fn compute_results_checked_against_agent() {
    assert_eq!(verify_results(AgentKind::Incr, 3, 0, &vec![1, 2, 9]), (2, 1));
    assert_eq!(verify_results(AgentKind::MemFill, 5, 7, &vec![7, 7, 7]), (3, 0));
    assert_eq!(verify_results(AgentKind::MemCopy, 4, 0, &vec![0xA0A0_0000, 0xA0A0_0001, 0xA0A0_0000, 0xA0A0_0001]), (4, 0));
}

#[test]
fn xhci_port_scan_decisions() {
    assert_eq!(port_action(0), PortAction::Empty);
    assert_eq!(port_action(0x0000_1003), PortAction::Record { ack: 0x0022_1003, speed: 4 });
    assert_eq!(port_action(0x0000_0C01), PortAction::Reset { ack: 0x0022_0C01, reset: 0x0000_0C11, speed: 3 });
    assert!(port_reset_done(0x0020_0003));
    assert!(!port_reset_done(0x0020_0013));
    assert!(port_enabled(0x2));
}

#[test]
fn apple_uart_setup_and_divisors() {
    assert_eq!(uart_divisors(24_000_000, 115_200), (12, 0));
    assert_eq!(uart_divisors(24_000_000, 9_600), (155, 4));
    assert!(matches!(uart_setup(4, 0x1000, 24_000_000, 115_200), Err("UART index must be 0-3")));
    let u = uart_setup(1, 0x1000, 24_000_000, 115_200).unwrap();
    assert_eq!((u.index, u.base, u.tx_count, u.initialized), (1, 0x1000, 0, true));
}

#[test]
fn apple_aic_lines_routes_and_events() {
    assert!(matches!(aic_setup(0x1000, 0, 4), Err("AIC: invalid IRQ count from hardware")));
    assert!(matches!(aic_setup(0x1000, 2000, 4), Err("AIC: invalid IRQ count from hardware")));
    let a = aic_setup(0x1000, 0x1000_0040, 4).unwrap();
    assert_eq!((a.num_irqs, a.version, a.irqs.len()), (64, 1, 1024));
    let mut aic = Some(a);
    assert_eq!(aic_set_enabled(&mut aic, 33, true), Ok((0x4084, 2)));
    assert!(aic.as_ref().unwrap().irqs[33].enabled);
    assert_eq!(aic_set_enabled(&mut aic, 33, false), Ok((0x4004, 2)));
    assert_eq!(aic_set_enabled(&mut aic, 64, true), Err("IRQ number out of range"));
    assert_eq!(aic_route(&mut aic, 5, 2), Ok((0x3014, 4)));
    assert_eq!(aic.as_ref().unwrap().irqs[5].target_cpu, 2);
    assert_eq!(aic_route(&mut aic, 5, 4), Err("CPU number out of range"));
    assert_eq!(aic_ipi(&aic, 3), Ok((0x200C, 8)));
    assert_eq!(aic_ipi(&aic, 4), Err("Target CPU out of range"));
    assert_eq!(aic_event(&mut aic, 0), AicEvent::Nothing);
    assert_eq!(aic_event(&mut aic, 0x0001_0005), AicEvent::Irq { irq: 5, has_handler: false });
    assert_eq!(aic.as_ref().unwrap().irqs[5].count, 1);
    assert_eq!(aic.as_ref().unwrap().total_irqs, 1);
    assert_eq!(aic_event(&mut aic, 0x0004_0000), AicEvent::Ipi);
    assert_eq!(aic.as_ref().unwrap().total_ipis, 1);
    assert_eq!(aic_event(&mut aic, 0x0007_0000), AicEvent::Other);
    let mut none = None;
    assert_eq!(aic_set_enabled(&mut none, 1, true), Err("AIC not initialized"));
}

#[test]
fn inquiry_text_trims_unicode_white_space() {
    let mut buf = vec![0u8; 36];
    buf[8..16].copy_from_slice(&[b'A', b'C', b'M', b'E', 0xC2, 0xA0, b' ', b' ']);
    let mut product = vec![0xE3, 0x80, 0x80];
    product.extend_from_slice(b"Disk");
    product.extend_from_slice(&[b' '; 9]);
    buf[16..32].copy_from_slice(&product);
    let (v, p) = parse_inquiry(&buf);
    assert_eq!(v, "ACME");
    assert_eq!(p, "Disk");
}

#[test]
fn set_volume_cases() {
    let (ws, paths) = graph();
    let g = CodecGraph { codecs: vec![0], widgets: ws.clone(), paths: paths.clone() };
    let mut vol = VolumeState::new();
    let steps = set_volume(&mut vol, 50, Some(&g)).unwrap();
    assert_eq!(vol.level, 50);
    assert_eq!(steps, vec![verb16(3, 0x300, 0xB013), verb16(3, 0x300, 0x7013), verb16(2, 0x300, 0xB013), verb16(2, 0x300, 0x7013)]);
    let steps = set_volume(&mut vol, 150, Some(&g)).unwrap();
    assert_eq!(vol.level, 100);
    assert_eq!(steps[0], verb16(3, 0x300, 0xB027));
    assert_eq!(set_volume(&mut vol, 30, None), Err("HDA: not initialized"));
    assert_eq!(vol.level, 30);
    let empty = CodecGraph { codecs: vec![], widgets: ws, paths };
    assert_eq!(set_volume(&mut vol, 70, Some(&empty)), Ok(vec![]));
    assert_eq!(vol.level, 70);
}

#[test]
fn route_search_accepts_any_visited_list() {
    let ws = vec![widget(2, 0, 0, vec![]), widget(3, 2, 0, vec![2]), widget(4, 4, 0, vec![3])];
    let mut anc = vec![9, 9, 7, 7];
    assert_eq!(trace_to_dac(&ws, 4, &mut anc), Some(vec![4, 3, 2]));
    assert_eq!(anc, vec![9, 9, 7, 7, 4, 3, 2]);
    let mut seen = vec![3, 3];
    assert_eq!(trace_to_dac(&ws, 3, &mut seen), None);
    assert_eq!(seen, vec![3, 3]);
}

#[test]
fn scan_notification_with_truncated_vendor_element() {
    let mut d = vec![0u8; 12];
    d[8] = 1;
    d.extend_from_slice(&[1, 2, 3, 4, 5, 6, 6, 0xD0, 11, 0]);
    d.extend_from_slice(&[0, 6, b'n', b'e', b't', b'w', b'o', b'k', 221, 5, 0x11]);
    assert!(scan_notification_readable(&d));
    let mut dev = Iwl4965::new();
    dev.parse_scan_notification(&d);
    assert_eq!(dev.scan_results.len(), 1);
    assert_eq!(dev.scan_results[0].ssid, "netwok");
    assert_eq!(dev.scan_results[0].frequency_mhz, 2437);
    let mut bad = d.clone();
    let n = bad.len();
    bad[n - 1] = 0x00;
    assert!(!scan_notification_readable(&bad));
}

#[test]
fn xhci_bring_up_decisions() {
    assert_eq!(legacy_step(0x0001_0001), LegacyAction::Handoff { request: 0x0101_0001 });
    assert_eq!(legacy_step(0x0000_0001), LegacyAction::AlreadyOwned);
    assert_eq!(legacy_step(0x0000_0402), LegacyAction::Next { next: 4 });
    assert_eq!(legacy_step(0x0000_0002), LegacyAction::End);
    assert!(bios_released(0x0100_0001));
    assert!(!bios_released(0x0101_0001));
    assert_eq!(forced_ownership(0x0101_0001), 0x0100_0001);
    assert_eq!(scratchpad_count(0x1020_0000), 34);
    let s = controller_setup(32, 0x1000, 0x2000, 0x3000, 0x4000);
    assert_eq!((s.config, s.dcbaap, s.crcr, s.erstsz, s.erstba, s.erdp, s.usbcmd), (32, 0x1000, 0x2001, 1, 0x4000, 0x3000, 5));
    let c = new_controller(0xF000_0000, 0x10, 0x10, 0x30, 0x2000, 0x600, 0x1000, 0x2000, 0x3000, 0x4000, 32, 4, 64);
    assert_eq!(c.cmd_ring.trbs[255].parameter, 0x2000);
    assert_eq!(c.cmd_ring.trbs[255].control, 0x1801);
    assert_eq!(c.fvf[0].dxu, 256);
    assert_eq!(c.dcbaa.len(), 256);
    assert!(c.initialized && c.devices.is_empty());
}
