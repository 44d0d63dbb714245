use trustos_drivers::amdgpu::compute::{
    self, aow, coh, dwq, ket, nvt, nvu, nvv, nvw, AgentKind, Oi,
};
use trustos_drivers::amdgpu::dcn::{self, hubp_surface, ovz, ConnectorType, SurfaceFormat, Xq};
use trustos_drivers::amdgpu::firmware::ccg;
use trustos_drivers::amdgpu::neural::{fyh, kyn, Abs};
use trustos_drivers::amdgpu::sdma::{self, ddz, jdt, omi, omj, quy, quz, qux, qxo, Aep};
use trustos_drivers::amdgpu::{
    aud, bar_is_64, bar_size, family_name, init, link_status, probe, rk, GpuState, Hz,
};
use trustos_drivers::framework::PciFunction;

fn pci(vendor_id: u16, device_id: u16) -> PciFunction {
    PciFunction {
        vendor_id,
        device_id,
        bus: 1,
        device: 0,
        function: 0,
        revision: 0xC1,
        class: 3,
        subclass: 0,
        prog_if: 0,
        interrupt_line: 0,
        bar: [0; 6],
    }
}

fn hz(device_id: u16, revision: u8, vram: u64, mmio: u64) -> Hz {
    Hz {
        vendor_id: 0x1002,
        device_id,
        bus: 1,
        device: 0,
        function: 0,
        revision,
        asic_family: 143,
        chip_external_rev: 0,
        family_name: "Navi 10 (RDNA 1)",
        vram_size: vram,
        vram_type: "GDDR6",
        mmio_base_phys: mmio,
        mmio_base_virt: 0,
        mmio_size: 0x80000,
        vram_aperture_phys: 0,
        vram_aperture_size: 0,
        pcie_link_speed: 3,
        pcie_link_width: 16,
        has_msi: true,
        has_msix: false,
        compute_units: 40,
        gpu_clock_mhz: 1905,
    }
}

#[test]
fn gpu_is_found_by_navi_id_order() {
    assert!(probe(&vec![pci(0x10DE, 0x731F), pci(0x8086, 1)]).is_none());
    let devs = vec![pci(0x1002, 0x731F), pci(0x1002, 0x7312), pci(0x1002, 0x9999)];
    // the id list is searched in order: 0x7312 comes before 0x731F
    assert_eq!(probe(&devs).unwrap().device_id, 0x7312);
    assert_eq!(probe(&vec![pci(0x1002, 0x9999), pci(0x1002, 0x734F)]).unwrap().device_id, 0x734F);
}

#[test]
fn adapter_names_and_sizes() {
    assert_eq!(hz(0x731F, 0xC1, 0, 1).gpu_name(), "AMD Radeon RX 5700 XT");
    assert_eq!(hz(0x731F, 0xC4, 0, 1).gpu_name(), "AMD Radeon RX 5700");
    assert_eq!(hz(0x731F, 0x00, 0, 1).gpu_name(), "AMD Radeon Navi 10");
    assert_eq!(hz(0x7340, 0, 0, 1).gpu_name(), "AMD Radeon RX 5500 XT");
    assert_eq!(hz(0x1234, 0, 0, 1).gpu_name(), "AMD Radeon (Unknown Navi)");
    assert_eq!(hz(0, 0, 8 << 30, 1).vram_string(), "8 GB");
    assert_eq!(hz(0, 0, 256 << 20, 1).vram_string(), "256 MB");
    assert_eq!(hz(0, 0, 4096, 1).vram_string(), "4 KB");
    assert_eq!(hz(0, 0, 0, 1).vram_string(), "Unknown");
    assert_eq!(hz(0, 0, 0, 1).pcie_link_string(), "PCIe x16 8.0 GT/s (Gen3)");
    assert_eq!(family_name(144), "Navi 14 (RDNA 1)");
    assert_eq!(family_name(1), "Unknown");
}

#[test]
fn bar_decoding() {
    assert!(bar_is_64(0xE000_000C, 0));
    assert!(!bar_is_64(0xE000_000C, 5));
    assert!(!bar_is_64(0xE000_0000, 0));
    assert!(!bar_is_64(0x0000_E001, 0));
    assert_eq!(bar_size(0xE000_0000, 0xF000_0000, None), 0x1000_0000);
    assert_eq!(bar_size(0xE000_000C, 0xF000_000C, Some(0xFFFF_FFFF)), 0x1000_0000);
    assert_eq!(bar_size(0xE000_000C, 0x0000_001C, Some(0xFFFF_FFF0)), 0xF_FFFF_FFF0);
    // the low half alone decides that a memory BAR is empty
    assert_eq!(bar_size(0xE000_000C, 0x0000_000C, Some(0xFFFF_FFF0)), 0);
    assert_eq!(bar_size(0xE001, 0xFFFF_FF01, None), 0x100);
    assert_eq!(bar_size(0xE000_0000, 0, None), 0);
    assert_eq!(link_status(0x1043), (3, 4));
}

#[test]
fn driver_state() {
    let mut st = GpuState { initialized: false, gpu_info: None };
    init(&mut st, None);
    assert!(!aud(&st));
    init(&mut st, Some(hz(0x731F, 0xC1, 0, 0)));
    assert!(!aud(&st));
    assert!(rk(&st).is_none());
    init(&mut st, Some(hz(0x731F, 0xC1, 0, 0xFCC0_0000)));
    assert!(aud(&st));
    assert_eq!(rk(&st).unwrap().mmio_base_phys, 0xFCC0_0000);
}

#[test]
fn pm4_packets() {
    assert_eq!(dwq(0x10, 1), 0xC000_1000);
    assert_eq!(dwq(0x76, 2), 0xC000_7601);
    assert_eq!(nvu(), [0xC000_1000, 0]);
    assert_eq!(coh(0x2E00, 7), [0xC000_7601, 0x80, 7]);
    assert_eq!(nvw(0x2C04, 1, 2), [0xC000_7602, 1, 1, 2]);
    assert_eq!(nvt(4, 2, 1), [0xC000_1503, 4, 2, 1, 1]);
    assert_eq!(
        nvv(0x1_2345_6789, 0x0000_0002_0000_0001),
        [0xC000_4905, 0x514, 0x4000_0000, 0x2345_6789, 1, 1, 2]
    );
    assert_eq!(ket(0x2_0000_1000, 64, 4), [0x1000, 0x4_0002, 64, 0x220FAC]);
}

#[test]
fn ring_writes_wrap() {
    let mut ring = vec![0u32; 1024];
    let mut wptr = 1022u32;
    assert_eq!(aow(&mut ring, &mut wptr, &[1, 2, 3, 4]), 4);
    assert_eq!(wptr, 2);
    assert_eq!((ring[1022], ring[1023], ring[0], ring[1], ring[2]), (1, 2, 3, 4, 0));
    assert_eq!(aow(&mut ring, &mut wptr, &[]), 0);
    assert_eq!(wptr, 2);
}

#[test]
fn agents() {
    assert_eq!(AgentKind::Incr.name(), "incr");
    assert_eq!(AgentKind::MemCopy.shader_code().len(), 8);
    assert_eq!(AgentKind::MemFill.shader_code()[0], 0x26020082);
    assert_eq!(AgentKind::MemCopy.sgpr_count(), 8);
    assert_eq!(AgentKind::Incr.vgpr_count(), 3);
}

#[test]
fn compute_engine_report() {
    let mut st = Oi {
        initialized: false,
        mmio_base: 0,
        ring_virt: 0,
        ring_phys: 0,
        data_virt: 0,
        data_phys: 0,
        code_virt: 0,
        code_phys: 0,
        wptr: 0,
        dispatch_count: 0,
    };
    assert_eq!(compute::summary(&st), "GPU Compute: not initialized");
    assert_eq!(compute::info_lines(&st).len(), 2);
    st.initialized = true;
    st.ring_phys = 0x1F000;
    st.dispatch_count = 5;
    assert!(compute::is_ready(&st));
    assert_eq!(compute::dispatch_count(&st), 5);
    assert_eq!(compute::summary(&st), "GPU Compute: 3 agents, 5 dispatches, ring@0x1F000");
    let lines = compute::info_lines(&st);
    assert_eq!(lines.len(), 14);
    assert_eq!(lines[3], "║ Ring Buffer:  0x1F000 (1024 dwords)          ║");
    assert!(lines[10].starts_with("║  incr       — Increment"));
}

#[test]
fn sdma_packets_and_report() {
    assert_eq!(ddz(1, 0), 0x100);
    assert_eq!(ddz(2, 1), 0x400_0200);
    assert_eq!(qux(), 0);
    assert_eq!(omj(0x1_0000_0010, 0x2_0000_0020, 4096), [0x100, 4096, 0, 0x10, 1, 0x20, 2]);
    assert_eq!(omi(0x3_0000_0000, 0xAA, 64), [0xB00, 0, 3, 0xAA, 64]);
    assert_eq!(jdt(0x40, 9), [0x500, 0x40, 0, 9]);
    assert_eq!(quy(0x50), [0xD00, 0x50, 0]);
    assert_eq!(quz(0x60, 0), [0x200, 0x60, 0, 0]);
    assert_eq!(quz(0x60, 8), [0x200, 0x60, 0, 7]);
    assert_eq!(qxo(), 256 * 1024);
    let mut st = Aep {
        initialized: false,
        mmio_base: 0,
        engines: [None, None],
        status_virt: 0,
        status_phys: 0,
        staging_virt: 0,
        staging_phys: 0x8000,
        total_bytes: 0,
        total_transfers: 0,
    };
    assert_eq!(sdma::staging_phys(&st), None);
    assert_eq!(sdma::summary(&st), "SDMA: not initialized");
    st.initialized = true;
    st.total_bytes = 10 * 1024 + 5;
    st.total_transfers = 3;
    assert_eq!(sdma::staging_phys(&st), Some(0x8000));
    assert_eq!((sdma::total_bytes(&st), sdma::jnz(&st)), (10 * 1024 + 5, 3));
    assert_eq!(sdma::summary(&st), "SDMA: 2 engines, 3 transfers, 10 KB moved");
}

#[test]
fn integer_matrix_products() {
    // a: 2x3, b (transposed): 2x3
    let a = [1i8, 2, 3, -1, 0, 4];
    let b = [1i8, 0, 1, 2, -2, 127];
    let mut c = [9i32; 5];
    kyn(&a, &b, &mut c, 2, 2, 3);
    assert_eq!(c, [4, 379, 3, 506, 9]);
    let mut st = Abs { gemm_count: 0, activation_count: 0, total_macs: 0 };
    let c = fyh(&mut st, &a, &b, 2, 2, 3);
    assert_eq!(c, vec![4, 379, 3, 506]);
    assert_eq!((st.gemm_count, st.total_macs), (1, 12));
    let extremes = [-128i8; 4];
    let mut c = [0i32; 1];
    kyn(&extremes, &extremes, &mut c, 1, 1, 4);
    assert_eq!(c[0], 4 * 16384);
}

#[test]
fn firmware_ucode_offset() {
    assert_eq!(ccg(&[0u8; 15]), 0);
    let mut d = vec![0u8; 64];
    d[4] = 8;
    assert_eq!(ccg(&d), 32);
    d[20] = 40;
    assert_eq!(ccg(&d), 40);
    d[20] = 200;
    assert_eq!(ccg(&d), 32);
    d[4] = 2;
    assert_eq!(ccg(&d), 0);
}

#[test]
fn display_timings_and_surfaces() {
    let modes = ovz();
    assert_eq!(modes.len(), 5);
    let m = modes[2];
    assert_eq!((m.h_total(), m.v_total()), (2200, 1125));
    assert_eq!((m.h_sync_start(), m.h_sync_end()), (2008, 2052));
    assert_eq!((m.v_sync_start(), m.v_sync_end()), (1084, 1089));
    assert_eq!(m.modeline(), "1920x1080@60Hz pclk=148500kHz htotal=2200 vtotal=1125");
    assert_eq!(modes[0].modeline(), "640x480@60Hz pclk=25175kHz htotal=800 vtotal=525");
    assert_eq!(ConnectorType::Absent.name(), "None");
    assert_eq!(ConnectorType::HDMI.name(), "HDMI");
    assert_eq!(SurfaceFormat::Rgb565.bpp(), 2);
    assert_eq!(SurfaceFormat::Argb8888.dcn_format_code(), 0x0A);
    let s = hubp_surface(0x1, 0x2000, 0, 1920, (1080 << 16) | 1920).unwrap();
    assert_eq!((s.fb_phys_addr, s.width, s.height, s.pitch), (0x1_0000_2000, 1920, 1080, 7680));
    assert_eq!(s.format, SurfaceFormat::Xrgb8888);
    assert!(hubp_surface(0, 0, 0, 1920, (1080 << 16) | 1920).is_none());
    assert!(hubp_surface(0, 0x1000, 0xFFFF_FFFF, 1920, (1080 << 16) | 1920).is_none());
    assert!(hubp_surface(0, 0x1000, 0, 1920, 1920).is_none());
    assert!(hubp_surface(0, 0x1000, 0, 1920, (1080 << 16) | 16384).is_none());
}

#[test]
fn display_engine_queries() {
    let st = Xq {
        initialized: true,
        connectors: vec![],
        active_displays: 1,
        dcn_version: (2, 0),
        max_pipes: 6,
        scanouts: [None; 6],
    };
    assert!(dcn::is_ready(&st));
    assert_eq!(dcn::pxq(&st), 1);
    assert_eq!(dcn::dcn_version(&st), (2, 0));
    assert!(dcn::qhi(&st).is_empty());
    assert!(!dcn::summary(&st).is_empty());
    assert!(!dcn::info_lines(&st).is_empty());
}

#[test]
fn sdma_self_test_checks() {
    assert_eq!(sdma::first_mismatch(&[7, 7, 7], 7), None);
    assert_eq!(sdma::first_mismatch(&[7, 8, 9], 7), Some(1));
    assert_eq!(sdma::first_mismatch(&[], 7), None);
    let ramp: Vec<u8> = (0..=255u8).collect();
    assert_eq!(sdma::ramp_mismatch(&ramp), None);
    let mut bad = ramp.clone();
    bad[200] = 0;
    assert_eq!(sdma::ramp_mismatch(&bad), Some(200));
    assert_eq!(sdma::tally(&[true, false, true, true, false]), (3, 2));
    assert_eq!(sdma::tally(&[]), (0, 0));
    assert_eq!(sdma::bench_bytes(4), 4096);
    assert_eq!(sdma::bench_bytes(1024), 256 * 1024);
    assert_eq!(sdma::bench_bytes(0), 0);
    assert_eq!(sdma::bench_rate(16 * 4096, 0), 16 * 4096 * 1000 / 1024);
    assert_eq!(sdma::bench_rate(16 * 4096, 8), 8000);
    let plan = sdma::download_plan(300 * 1024, 0x1000);
    assert_eq!(plan, vec![(0, 256 * 1024, 256 * 1024, 0x1000), (256 * 1024, 44 * 1024, 44 * 1024, 0x1000 + 256 * 1024)]);
    assert_eq!(sdma::download_plan(5, 0x10), vec![(0, 5, 8, 0x10)]);
}

#[test]
fn display_engine_readback() {
    // 1920x1080: totals 2200 x 1125, active 1920 x 1080, sync 2008..2052 and 1084..1089.
    let m = dcn::ocn(1, 2200, 1920, (2008 << 16) | 2052, 1125, 1080, (1084 << 16) | 1089, 14850).unwrap();
    assert_eq!((m.h_active, m.h_front_porch, m.h_sync_width, m.h_back_porch), (1920, 88, 44, 148));
    assert_eq!((m.v_active, m.v_front_porch, m.v_sync_width, m.v_back_porch), (1080, 4, 5, 36));
    assert_eq!((m.pixel_clock_khz, m.refresh_hz), (148500, 60));
    assert!(dcn::ocn(0, 2200, 1920, 0, 1125, 1080, 0, 0).is_none());
    assert!(dcn::ocn(1, 0, 1920, 0, 1125, 1080, 0, 0).is_none());
    assert!(dcn::ocn(1, 9000, 1920, 0, 1125, 1080, 0, 0).is_none());
    assert!(dcn::ocn(1, 2200, 0, 0, 1125, 1080, 0, 0).is_none());
    // No pixel clock register: estimated from the totals at 60 Hz.
    let e = dcn::ocn(1, 800, 640, 0, 525, 480, 0, 0xFFFF_FFFF).unwrap();
    assert_eq!((e.pixel_clock_khz, e.refresh_hz), (800 * 525 * 60 / 1000, 60));
    assert_eq!(e.h_back_porch, 800);
    let c = dcn::connector_from_regs(2, 1, 0, 1 << 16);
    assert_eq!((c.index, c.connector_type, c.status), (2, ConnectorType::HDMI, dcn::ConnectorStatus::Connected));
    // An all-ones status has the sense bit set, so it reads as connected.
    let c = dcn::connector_from_regs(0, 0xFFFF_FFFF, 5, 7 << 16);
    assert_eq!((c.connector_type, c.status), (ConnectorType::DisplayPort, dcn::ConnectorStatus::Connected));
    let c = dcn::connector_from_regs(0, 2, 0xFFFF_FFFF, 7 << 16);
    assert_eq!((c.connector_type, c.status), (ConnectorType::Unknown, dcn::ConnectorStatus::Disconnected));
    let c = dcn::connector_from_regs(0, 0, 0, 7 << 16);
    assert_eq!((c.connector_type, c.status), (ConnectorType::Unknown, dcn::ConnectorStatus::Disconnected));
    let cs: Vec<_> = (0..6u8).map(|i| dcn::connector_from_regs(i, 0, 0, 0)).collect();
    let modes = vec![None, Some(m), None, None, Some(e), None];
    let st = dcn::probe_state(0x0201, cs, &modes, [None; 6]);
    assert!(st.initialized);
    assert_eq!((st.dcn_version, st.active_displays, st.max_pipes), ((2, 1), 2, 6));
    assert_eq!(st.connectors[1].current_mode.unwrap().h_active, 1920);
    assert!(st.connectors[0].current_mode.is_none());
}
