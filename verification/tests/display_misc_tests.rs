use std::cell::RefCell;
use trustos_drivers::apple::{
    is_initialized as aic_initialized, jis, qnn, qrv, qtl, status, write_str, Afu,
    IrqConfig, Wi, Wj,
};
use trustos_drivers::nvidia::{self, Abv, Pr};
use trustos_drivers::thinkpad_ec::{
    dmy, eja, eme, foy, fou, frx, fry, fwf, hoi, hvg, luh, pdr, pdu, probe, sw, EcState, FanLevel,
};
use trustos_drivers::virtio_gpu::{
    cap_plan, features_check, negotiate_features, create_surface, gcl, is_virtio_gpu, kcn, qca_command, qkt, qxt_command, rbz, Ac, Agc,
    BufferChoice, Compositor, GpuCtrlType, GpuFormat, GpuSurface, VirtioGpu,
};

fn gpu(initialized: bool, has_3d: bool, double: bool) -> VirtioGpu {
    let mut g = VirtioGpu::new();
    g.initialized = initialized;
    g.has_3d = has_3d;
    g.display_width = 1280;
    g.display_height = 800;
    g.double_buffer_enabled = double;
    g.scanout_resource_id = 1;
    g.back_resource_id = 2;
    g
}

#[test]
fn pixels_read_back_what_was_written() {
    let mut s = GpuSurface::new(4, 3);
    assert_eq!(s.get_pixel(1, 1), 0);
    s.set_pixel(1, 1, 0xFF00FF00);
    assert_eq!(s.get_pixel(1, 1), 0xFF00FF00);
    assert_eq!(s.get_pixel(2, 1), 0);
    s.set_pixel(9, 9, 5);
    assert_eq!(s.get_pixel(9, 9), 0);
    s.clear(7);
    assert!(s.data.iter().all(|p| *p == 7));
    let c = create_surface(2, 2);
    assert_eq!((c.width, c.height, c.data.len()), (2, 2, 4));
}

#[test]
fn rectangles_are_clipped() {
    let mut s = GpuSurface::new(4, 4);
    s.fill_rect(2, 2, 10, 10, 9);
    assert_eq!(s.get_pixel(3, 3), 9);
    assert_eq!(s.get_pixel(1, 3), 0);
    assert_eq!(s.data.iter().filter(|p| **p == 9).count(), 4);
    s.fill_rounded_rect(0, 0, 1, 1, 3, 8);
    assert_eq!(s.get_pixel(0, 0), 8);
}

#[test]
fn blits_skip_transparent_pixels() {
    let mut dst = GpuSurface::new(4, 4);
    let mut src = GpuSurface::new(2, 1);
    src.set_pixel(0, 0, 0xFF11_2233);
    src.set_pixel(1, 0, 0x7F44_5566);
    dst.blit(&src, 3, 0);
    assert_eq!(dst.get_pixel(3, 0), 0xFF11_2233);
    dst.blit(&src, -1, 2);
    assert_eq!(dst.get_pixel(0, 2), 0);
    let mut big = GpuSurface::new(4, 2);
    big.pyv(&src, 0, 0, 4, 2);
    assert_eq!(big.get_pixel(0, 1), 0xFF11_2233);
    assert_eq!(big.get_pixel(1, 0), 0xFF11_2233);
    assert_eq!(big.get_pixel(2, 0), 0x7F44_5566);
}

#[test]
fn circles() {
    let mut s = GpuSurface::new(9, 9);
    s.fill_circle(4, 4, 2, 1);
    assert_eq!(s.get_pixel(4, 2), 1);
    assert_eq!(s.get_pixel(6, 4), 1);
    assert_eq!(s.get_pixel(6, 6), 0);
    assert_eq!(s.data.iter().filter(|p| **p == 1).count(), 13);
    let mut o = GpuSurface::new(9, 9);
    o.draw_circle(4, 4, 3, 2);
    assert_eq!(o.get_pixel(7, 4), 2);
    assert_eq!(o.get_pixel(4, 1), 2);
    assert_eq!(o.get_pixel(4, 4), 0);
    s.fill_circle(4, 4, -1, 3);
    assert_eq!(s.data.iter().filter(|p| **p == 3).count(), 0);
}

#[test]
fn compositor_stacks_layers_by_z_order() {
    let mut c = Compositor::new(4, 4);
    let mut red = GpuSurface::new(2, 2);
    red.clear(0xFFFF_0000);
    let mut blue = GpuSurface::new(2, 2);
    blue.clear(0xFF00_00FF);
    assert_eq!(c.add_layer(red, 0, 0, 5), 0);
    assert_eq!(c.add_layer(blue, 1, 1, 1), 1);
    // blue (z 1) is below red (z 5)
    assert_eq!(c.get_layer(0).unwrap().z_order, 1);
    assert_eq!(c.get_layer(1).unwrap().z_order, 5);
    assert!(c.get_layer(2).is_none());
    c.compose();
    assert_eq!(c.output().get_pixel(1, 1), 0xFFFF_0000);
    assert_eq!(c.output().get_pixel(2, 2), 0xFF00_00FF);
    assert_eq!(c.output().get_pixel(3, 3), 0xFF1A_1A1A);
    c.oez(1);
    c.ooo(0xFF00_0000);
    c.compose();
    assert_eq!(c.output().get_pixel(1, 1), 0xFF00_00FF);
    assert_eq!(c.output().get_pixel(0, 0), 0xFF00_0000);
    c.oez(7);
    assert!(c.get_layer(0).is_some());
    assert_eq!(c.render(2, 1), vec![(0, 0, 0xFF00_0000), (1, 0, 0xFF00_0000)]);
}

#[test]
fn surfaces_are_copied_to_the_framebuffer_clipped() {
    let mut s = GpuSurface::new(3, 2);
    s.set_pixel(2, 1, 6);
    assert_eq!(kcn(&s, 5, 7, 7, 9), vec![(5, 7, 0), (6, 7, 0), (5, 8, 0), (6, 8, 0)]);
    // Entry r * cols + c puts pixel (c, r) at (x + c, y + r).
    let mut t = GpuSurface::new(3, 2);
    t.set_pixel(0, 0, 1);
    t.set_pixel(1, 0, 2);
    t.set_pixel(2, 0, 3);
    t.set_pixel(0, 1, 4);
    t.set_pixel(1, 1, 5);
    t.set_pixel(2, 1, 6);
    assert_eq!(kcn(&t, 1, 2, 10, 10), vec![(1, 2, 1), (2, 2, 2), (3, 2, 3), (1, 3, 4), (2, 3, 5), (3, 3, 6)]);
    assert_eq!(kcn(&t, 10, 0, 10, 10), vec![]);
    assert_eq!(kcn(&t, 0, 10, 10, 10), vec![]);
}

#[test]
fn buffers_and_swaps() {
    let g = VirtioGpu::new();
    assert!(!g.is_initialized());
    assert_eq!(g.swap_target(), None);
    assert_eq!(g.get_back_buffer(), BufferChoice::Backing);
    let mut g = gpu(true, false, true);
    assert_eq!(g.swap_target(), Some(2));
    assert_eq!(g.get_back_buffer(), BufferChoice::Back);
    assert_eq!(g.swap_gpu_buffers(Ok(())), Ok(()));
    assert!(!g.front_is_a);
    assert_eq!(g.swap_target(), Some(1));
    assert_eq!(g.swap_gpu_buffers(Err("scanout failed")), Err("scanout failed"));
    assert!(!g.front_is_a);
    assert_eq!(g.swap_gpu_buffers(Ok(())), Ok(()));
    assert!(g.front_is_a);
    assert_eq!(g.qhe(), BufferChoice::Backing);
    assert_eq!(g.kv(), (1280, 800));
    let first = g.alloc_resource_id();
    assert_eq!((first, g.alloc_resource_id()), (1, 2));
    assert!(is_virtio_gpu(0x1AF4, 0x1050));
    assert!(!is_virtio_gpu(0x1AF4, 0x1000));
}

#[test]
fn control_headers() {
    assert_eq!(GpuCtrlType::CmdGetDisplayInfo.code(), 0x100);
    assert_eq!(GpuCtrlType::CmdCtxCreate.code(), 0x200);
    assert_eq!(GpuCtrlType::CmdSubmit3d.code(), 0x207);
    assert_eq!(GpuCtrlType::RespOkNodata.code(), 0x1100);
    assert_eq!(GpuCtrlType::RespErrUnspec.code(), 0x1200);
    assert_eq!(GpuFormat::B8G8R8A8Unorm.code(), 1);
    let h = Ac::of_type(GpuCtrlType::CmdSetScanout, 3);
    let b = h.encode();
    assert_eq!(b.len(), 24);
    assert_eq!(&b[0..4], &[0x03, 0x01, 0, 0]);
    assert_eq!(&b[16..20], &[3, 0, 0, 0]);
    let c = qca_command(4, b"trustos");
    assert_eq!((c.kp.ctrl_type, c.kp.ctx_id, c.dbt), (0x200, 4, 7));
    assert_eq!(&c.debug_name[..8], b"trustos\0");
    let long = [b'x'; 80];
    assert_eq!(qca_command(1, &long).dbt, 63);
}

#[test]
fn three_d_submissions() {
    let idle = Agc { ctx_id: 1, active: false, capset_version: 0 };
    let live = Agc { ctx_id: 1, active: true, capset_version: 2 };
    assert_eq!(qxt_command(&idle, true, 10).err(), Some("No active 3D context"));
    assert_eq!(qxt_command(&live, false, 10).err(), Some("GPU not initialized"));
    assert_eq!(qxt_command(&live, true, 3801).err(), Some("Command buffer too large"));
    let z = qxt_command(&live, true, 3800).unwrap();
    assert_eq!((z.size, z.kp.ctx_id, z.kp.ctrl_type), (3800, 1, 0x207));
    assert_eq!(gcl(&gpu(true, true, false)), "VirtIO GPU: 1280x800 2D (3D=virgl)");
    assert_eq!(gcl(&gpu(false, true, false)), "VirtIO GPU: not available");
    assert_eq!(rbz(&gpu(true, true, false), &live), "VIRGL: active (ctx=1)");
    assert_eq!(rbz(&gpu(true, true, false), &idle), "VIRGL: ready (ctx=1)");
    assert_eq!(rbz(&gpu(true, false, false), &idle), "VIRGL: not available");
    assert!(qkt(&gpu(true, true, false)));
}

#[test]
fn nvidia_description() {
    let p = Pr {
        vendor_id: 0x10DE,
        device_id: 0x0611,
        revision: 0xA2,
        bus: 1,
        device: 0,
        function: 0,
        chipset_id: 0x92,
        stepping: 0xA2,
        gpu_name: "GeForce 8800 GT",
        vram_size: 512 << 20,
        mmio_base: 0xF600_0000,
        mmio_size: 0x100_0000,
        vram_base: 0xE000_0000,
        vram_aperture_size: 0x1000_0000,
        pcie_gen: 2,
        pcie_width: 16,
    };
    assert_eq!(p.chipset_name(), "G92");
    assert_eq!(p.summary_string(), "GeForce 8800 GT (G92) | 512 MB VRAM | PCIe Gen2 x16");
    let st = Abv { initialized: true, gpu_info: Some(p), accel_2d_ready: false };
    assert!(nvidia::aud(&st) && !nvidia::mrv(&st));
    assert_eq!(nvidia::rk(&st).unwrap().chipset_id, 0x92);
    assert_eq!(nvidia::summary(&st), "GeForce 8800 GT (G92) | 512 MB VRAM | PCIe Gen2 x16");
    let none = Abv { initialized: false, gpu_info: None, accel_2d_ready: false };
    assert_eq!(nvidia::summary(&none), "No NVIDIA GPU detected");
}

fn aic() -> Wi {
    let line = IrqConfig { has_handler: false, target_cpu: 0, enabled: false, count: 0, name: "" };
    let mut irqs = vec![line; 1024];
    irqs[3].enabled = true;
    irqs[3].count = 12;
    Wi { base: 0x2_3B10_0000, num_irqs: 896, version: 1, num_cpus: 8, irqs, total_irqs: 40, total_ipis: 2, initialized: true }
}

#[test]
fn interrupt_table() {
    let mut none: Option<Wi> = None;
    assert_eq!(qtl(&mut none, 1, "timer"), Err("AIC not initialized"));
    assert!(!aic_initialized(&none));
    assert_eq!(jis(&none), "AIC: not initialized");
    assert!(qnn(&none).is_empty());
    let mut a = Some(aic());
    assert!(aic_initialized(&a));
    assert_eq!(qtl(&mut a, 896, "x"), Err("IRQ number out of range"));
    assert_eq!(qtl(&mut a, 7, "uart"), Ok(()));
    assert_eq!(qnn(&a), vec![(3, "", true, 12), (7, "uart", false, 0)]);
    assert_eq!(jis(&a), "AIC v2 @ 0x23b100000: 896 IRQs (1 enabled), 40 total handled, 2 IPIs");
}

#[test]
fn serial_ports() {
    assert_eq!(write_str(b"a\nb\n"), b"a\r\nb\r\n".to_vec());
    assert_eq!(write_str(b"hi\n"), vec![b'h', b'i', b'\r', b'\n']);
    assert_eq!(write_str(b""), Vec::<u8>::new());
    let input = RefCell::new(vec![b'x', b'y']);
    let mut buf = [0u8; 4];
    let n = qrv(0, &mut buf, |_| {
        let mut v = input.borrow_mut();
        if v.is_empty() { None } else { Some(v.remove(0)) }
    });
    assert_eq!((n, buf), (2, [b'x', b'y', 0, 0]));
    let mut small = [0u8; 1];
    assert_eq!(qrv(0, &mut small, |_| Some(9)), 1);
    let ports = vec![
        None,
        Some(Wj { base: 0x2_3520_0000, index: 1, baud_rate: 115200, ref_clock: 24_000_000, tx_count: 5, rx_count: 0, initialized: true }),
    ];
    assert_eq!(status(&ports, 0), None);
    assert_eq!(status(&ports, 1).unwrap(), "UART1 @ 0x235200000: 115200baud, TX:5 RX:0, clock:24MHz");
    assert_eq!(Afu::new(3).index, 3);
}

#[test]
fn embedded_controller_registers() {
    let regs = |r: u8| -> Option<u8> {
        match r {
            0x78 => Some(55),
            0x79 => Some(0),
            0x7A => Some(200),
            0x2F => Some(0x80),
            0x84 => Some(0x0B),
            0x85 => Some(0xB8),
            _ => None,
        }
    };
    let mut st = EcState { detected: false, bus_mhz: 0 };
    assert!(probe(&mut st, regs));
    assert!(sw(&st));
    let mut cold = EcState { detected: false, bus_mhz: 0 };
    assert!(!probe(&mut cold, |_| Some(5)));
    assert!(!sw(&cold));
    assert_eq!(luh(regs), Some(0x80));
    assert_eq!(fwf(regs), Some(3000));
    assert_eq!(fwf(|r| if r == 0x84 { Some(1) } else { None }), None);
    assert_eq!(pdu(0, regs), Some(55));
    assert_eq!(pdu(1, regs), None);
    assert_eq!(pdu(2, regs), None);
    assert_eq!(pdu(8, regs), None);
    assert_eq!(pdr(0), "CPU");
    assert_eq!(pdr(4), "Battery");
    assert_eq!(pdr(9), "Unknown");
    assert_eq!(eme(FanLevel::Auto), Some((0x2F, 0x80)));
    assert_eq!(eme(FanLevel::Gp(3)), Some((0x2F, 3)));
    assert_eq!(eme(FanLevel::Gp(7)), Some((0x2F, 7)));
    assert_eq!(eme(FanLevel::Gp(8)), None);
    assert_eq!(eme(FanLevel::FullSpeed), Some((0x2F, 0x40)));
}

#[test]
fn cpu_power_state_registers() {
    let mut st = EcState { detected: false, bus_mhz: 0 };
    assert_eq!(dmy(&mut st, Some(0x1), 0, 0), 133);
    assert_eq!(dmy(&mut st, Some(0x5), 0, 0), 133);
    let mut st = EcState { detected: false, bus_mhz: 0 };
    assert_eq!(dmy(&mut st, None, 0x16, 0x0064), 100);
    let mut st = EcState { detected: false, bus_mhz: 0 };
    assert_eq!(dmy(&mut st, None, 0x15, 0x0085), 100);
    let mut st = EcState { detected: false, bus_mhz: 0 };
    assert_eq!(dmy(&mut st, None, 0x16, 0x0085), 0x85);
    let msr = |m: u32| -> Option<u64> {
        match m {
            0x198 => Some(0x0C25),
            0x199 => Some(0x1_0A1C),
            0x19C => Some(0x0035_0000),
            0x1A0 => Some(1 << 16),
            0xCE => Some(0x0000_1000_0000_1400),
            _ => None,
        }
    };
    assert_eq!(fou(msr, 133), Some((12 * 133, 712 + 0x25 * 12)));
    assert_eq!(fou(|_| Some(0x0C00), 100), Some((1200, 0)));
    assert_eq!(fou(|_| None, 100), None);
    assert_eq!(hoi(msr), Some(0x0A1C));
    assert_eq!(eja(0x0C, 0x25), (0x199, 0x0C25));
    assert_eq!(eja(0xFF, 0xFF), (0x199, 0xFFFF));
    assert!(hvg(msr).is_some());
    assert!(foy(msr).is_some());
    assert!(frx(msr).is_some());
    assert!(fry(msr).is_some());
    assert_eq!(hvg(|_| None), None);
}

#[test]
fn virtio_capabilities_and_features() {
    assert_eq!(cap_plan(&vec![]), Err("No VirtIO capabilities found"));
    let p = cap_plan(&vec![1, 5, 2, 3, 4, 9, 2]).unwrap();
    assert_eq!(p.map, vec![0, 2, 3, 4, 6]);
    assert_eq!((p.common, p.notify, p.isr, p.device), (Some(0), Some(6), Some(3), Some(4)));
    assert_eq!(p.required(), Ok(()));
    let q = cap_plan(&vec![2, 4]).unwrap();
    assert_eq!(q.required(), Err("Missing COMMON_CFG"));
    assert_eq!(cap_plan(&vec![1, 4]).unwrap().required(), Err("Missing NOTIFY_CFG"));
    assert_eq!(cap_plan(&vec![1, 2, 3]).unwrap().required(), Err("Missing DEVICE_CFG"));
    assert_eq!(cap_plan(&vec![5]).unwrap().map, Vec::<usize>::new());
    assert_eq!(negotiate_features(0), (false, 0x1_0000_0000));
    assert_eq!(negotiate_features(3), (true, 0x1_0000_0002));
    assert_eq!(negotiate_features(2), (false, 0x1_0000_0002));
    assert_eq!(features_check(0x0B), Ok(()));
    assert_eq!(features_check(0x03), Err((0x80, "Device rejected features")));
}
