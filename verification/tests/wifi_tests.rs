use trustos_drivers::framework::{Bb, Cw, DriverCategory, DriverStatus, PciFunction};
use trustos_drivers::iwl4965::{
    channel_freq, copy_range, eou, fqy, prph_read_select, prph_write_ops, is_supported, lce, lcf, nqi, oox, parse_ies, probe,
    FirmwareStore, Iwl4965,
};
use trustos_drivers::net::{Dd, NetStats};
use trustos_drivers::wifi::{
    ccv, ckk, connected_ssid, cys, czx, disconnect, eaj, eyl, is_wireless, oot, oov, poll, qkk,
    signal_strength, state, Fg, Nx, WifiManager, WifiSecurity, WifiState,
};

/// A scripted adapter.
struct FakeWifi {
    state: WifiState,
    results: Vec<Fg>,
    connect_ok: bool,
    connected: Option<String>,
    scans: u32,
}

impl Cw for FakeWifi {
    fn info(&self) -> Bb {
        Bb { name: "fake", version: "0", author: "t", category: DriverCategory::Network, vendor_ids: vec![] }
    }
    fn probe(&mut self, _: &PciFunction) -> Result<(), &'static str> {
        Ok(())
    }
    fn start(&mut self) -> Result<(), &'static str> {
        Ok(())
    }
    fn stop(&mut self) -> Result<(), &'static str> {
        Ok(())
    }
    fn status(&self) -> DriverStatus {
        DriverStatus::Running
    }
}

impl Dd for FakeWifi {
    fn mac_address(&self) -> [u8; 6] {
        [2, 0, 0, 0, 0, 1]
    }
    fn link_up(&self) -> bool {
        self.connected.is_some()
    }
    fn send(&mut self, _: &[u8]) -> Result<(), &'static str> {
        Ok(())
    }
    fn receive(&mut self) -> Option<Vec<u8>> {
        None
    }
    fn poll(&mut self) {}
    fn stats(&self) -> NetStats {
        NetStats::default()
    }
}

impl Nx for FakeWifi {
    fn wifi_state(&self) -> WifiState {
        self.state
    }
    fn scan(&mut self) -> Result<(), &'static str> {
        self.scans += 1;
        self.state = WifiState::Disconnected;
        Ok(())
    }
    fn scan_results(&self) -> Vec<Fg> {
        self.results.iter().map(|f| f.copy()).collect()
    }
    fn connect(&mut self, ssid: &str, _: &str) -> Result<(), &'static str> {
        if self.connect_ok {
            self.connected = Some(ssid.to_string());
            Ok(())
        } else {
            Err("refused")
        }
    }
    fn disconnect(&mut self) -> Result<(), &'static str> {
        self.connected = None;
        Ok(())
    }
    fn connected_ssid(&self) -> Option<String> {
        self.connected.clone()
    }
    fn current_channel(&self) -> Option<u8> {
        Some(6)
    }
    fn signal_strength(&self) -> Option<i8> {
        Some(-55)
    }
}

fn fake(connect_ok: bool) -> FakeWifi {
    FakeWifi { state: WifiState::Disconnected, results: vec![network("home", -40)], connect_ok, connected: None, scans: 0 }
}

fn network(ssid: &str, dbm: i8) -> Fg {
    Fg {
        ssid: ssid.to_string(),
        bssid: [1, 2, 3, 4, 5, 6],
        channel: 6,
        signal_dbm: dbm,
        security: WifiSecurity::WPA2,
        frequency_mhz: 2437,
    }
}

fn pci(vendor_id: u16, device_id: u16, class: u8, subclass: u8) -> PciFunction {
    PciFunction {
        vendor_id,
        device_id,
        bus: 3,
        device: 0,
        function: 0,
        revision: 0,
        class,
        subclass,
        prog_if: 0,
        interrupt_line: 0,
        bar: [0; 6],
    }
}

#[test]
fn security_names() {
    assert_eq!(WifiSecurity::Open.as_str(), "Open");
    assert_eq!(WifiSecurity::WPA2.as_str(), "WPA2");
    assert_eq!(WifiSecurity::Unknown.as_str(), "???");
}

#[test]
fn signal_quality_and_bars() {
    assert_eq!(network("a", -20).signal_quality(), 100);
    assert_eq!(network("a", -30).signal_quality(), 100);
    assert_eq!(network("a", -60).signal_quality(), 50);
    assert_eq!(network("a", -89).signal_quality(), 1);
    assert_eq!(network("a", -90).signal_quality(), 0);
    assert_eq!(network("a", -40).signal_bars(), 4);
    assert_eq!(network("a", -50).signal_bars(), 3);
    assert_eq!(network("a", -60).signal_bars(), 2);
    assert_eq!(network("a", -75).signal_bars(), 1);
    assert_eq!(network("a", -85).signal_bars(), 0);
    // stronger never shows less
    let mut last = 0;
    for dbm in -128i16..=127 {
        let q = network("a", dbm as i8).signal_quality();
        assert!(q >= last);
        last = q;
    }
}

#[test]
fn manager_without_driver() {
    let mut m = WifiManager::new();
    assert!(!ckk(&m));
    oot(&mut m, 3, 0, 0);
    assert!(ckk(&m));
    assert!(!qkk(&m));
    assert_eq!(state(&m), WifiState::NoHardware);
    let mut none: Option<FakeWifi> = None;
    assert_eq!(eaj(&mut m, &mut none, Ok(())), Err("No WiFi driver"));
    assert_eq!(eaj(&mut m, &mut none, Err("start failed")), Err("start failed"));
    assert_eq!(disconnect(&mut m, &mut none), Err("No WiFi driver"));
    assert_eq!(signal_strength(&none), None);
    poll(&mut m, &mut none);
    assert_eq!(state(&m), WifiState::NoHardware);
}

#[test]
fn scan_connect_and_disconnect() {
    let mut m = WifiManager::new();
    let mut slot: Option<FakeWifi> = None;
    oov(&mut m, &mut slot, fake(true));
    assert!(qkk(&m));
    assert_eq!(state(&m), WifiState::Disconnected);
    assert_eq!(eaj(&mut m, &mut slot, Ok(())), Ok(()));
    assert_eq!(state(&m), WifiState::Scanning);
    poll(&mut m, &mut slot);
    assert_eq!(state(&m), WifiState::Disconnected);
    let nets = cys(&m);
    assert_eq!(nets.len(), 1);
    assert_eq!(nets[0].ssid, "home");
    eyl(&mut m, "home", "secret", Ok(()));
    assert_eq!(m.pending.as_ref().map(|p| p.0.as_str()), Some("home"));
    poll(&mut m, &mut slot);
    assert_eq!(state(&m), WifiState::Connecting);
    assert!(m.pending.is_none());
    poll(&mut m, &mut slot);
    assert_eq!(connected_ssid(&m), Some(String::from("home")));
    assert_eq!(signal_strength(&slot), Some(-55));
    assert_eq!(disconnect(&mut m, &mut slot), Ok(()));
    assert_eq!(state(&m), WifiState::Disconnected);
    assert!(!czx(&m));
    assert_eq!(connected_ssid(&m), None);
}

#[test]
fn refused_connection_fails() {
    let mut m = WifiManager::new();
    let mut slot: Option<FakeWifi> = None;
    oov(&mut m, &mut slot, fake(false));
    eyl(&mut m, "home", "x", Err("not started"));
    assert!(m.pending.is_none());
    eyl(&mut m, "home", "x", Ok(()));
    poll(&mut m, &mut slot);
    assert_eq!(state(&m), WifiState::Failed);
}

#[test]
fn wireless_detection_and_probe() {
    assert!(is_wireless(&pci(0x168C, 1, 0x0D, 0)));
    assert!(is_wireless(&pci(0x168C, 1, 0x02, 0x80)));
    assert!(is_wireless(&pci(0x8086, 0x4229, 0x02, 0x00)));
    assert!(!is_wireless(&pci(0x8086, 0x100E, 0x02, 0x00)));
    let mut m = WifiManager::new();
    let mut slot: Option<FakeWifi> = None;
    assert!(!ccv(&mut m, &mut slot, &pci(0x168C, 1, 0x0D, 0), || Some(fake(true))));
    assert!(slot.is_none());
    assert!(!ccv(&mut m, &mut slot, &pci(0x8086, 0x4229, 0x0D, 0), || None));
    assert!(ccv(&mut m, &mut slot, &pci(0x8086, 0x4229, 0x0D, 0), || Some(fake(true))));
    assert!(slot.is_some() && qkk(&m));
}

#[test]
fn supported_intel_devices() {
    assert!(is_supported(0x4229));
    assert!(is_supported(0x7A70));
    assert!(!is_supported(0x1234));
    assert!(probe(&pci(0x8086, 0x4230, 0x02, 0x80)));
    assert!(!probe(&pci(0x10EC, 0x4230, 0x02, 0x80)));
    let d = Iwl4965::new();
    assert_eq!(d.wifi_state, WifiState::Disabled);
    assert!(!d.initialized);
}

#[test]
fn firmware_store_and_sections() {
    let mut s = FirmwareStore { data: None };
    assert!(!eou(&s));
    oox(&mut s, &[1, 2, 3]);
    assert!(eou(&s));
    assert_eq!(s.data, Some(vec![1, 2, 3]));

    let mut f = Vec::new();
    f.extend_from_slice(&7u32.to_le_bytes());
    for size in [2u32, 1, 0, 3, 1] {
        f.extend_from_slice(&size.to_le_bytes());
    }
    f.extend_from_slice(&[10, 11, 20, 40, 41, 42, 50]);
    let img = nqi(&f).unwrap();
    assert_eq!(img.version, 7);
    assert_eq!(img.inst, vec![10, 11]);
    assert_eq!(img.data, vec![20]);
    assert!(img.init_inst.is_empty());
    assert_eq!(img.init_data, vec![40, 41, 42]);
    assert_eq!(img.boot, vec![50]);
    assert_eq!(nqi(&f[..23]).err(), Some("Firmware too small for header"));
    assert_eq!(nqi(&f[..30]).err(), Some("Firmware file truncated"));
    assert_eq!(copy_range(&f, 24, 26), vec![10, 11]);
}

#[test]
fn register_writes_as_values() {
    assert_eq!(lce(Some(0x1000), 0x2000, 1), None);
    assert_eq!(lce(None, 0x10, 1), None);
    assert_eq!(lce(Some(0x1000), 0x10, 5), Some((0x1000, 0x10, 5)));
    assert_eq!(lce(Some(0x1000), 0x1FFF, 7), Some((0x1000, 0x1FFF, 7)));
    assert_eq!(lcf(Some(0x1000), 0x12_3456, 9), Some([(0x444, 0x302_3456), (0x44C, 9)]));
    assert_eq!(lcf(None, 0, 9), None);
    assert_eq!(fqy(Some(0x1000), 0x3400), Some((0x448, 0x300_3400)));
    assert_eq!(fqy(None, 0x3400), None);
    assert_eq!(prph_write_ops(0xA0_3400, 1), [(0x444, 0x300_3400), (0x44C, 1)]);
    assert_eq!(prph_read_select(0xFFFF_FFFF), (0x448, 0x30F_FFFF));
}

#[test]
fn channels_and_information_elements() {
    assert_eq!(channel_freq(1), 2412);
    assert_eq!(channel_freq(14), 2477);
    assert_eq!(channel_freq(36), 5180);
    let ies = [0u8, 4, b'h', b'o', b'm', b'e', 48, 2, 1, 0];
    assert_eq!(parse_ies(&ies), (String::from("home"), WifiSecurity::WPA2));
    let wpa = [221u8, 4, 0x00, 0x50, 0xF2, 0x01, 0, 2, b'a', b'b'];
    assert_eq!(parse_ies(&wpa), (String::from("ab"), WifiSecurity::WPA));
    let bad = [0u8, 2, 0xFF, 0xFE];
    assert_eq!(parse_ies(&bad), (String::new(), WifiSecurity::Open));
    assert_eq!(parse_ies(&[]), (String::new(), WifiSecurity::Open));
}

#[test]
fn scan_notifications_add_new_networks() {
    let mut d = Iwl4965::new();
    let mut n = vec![0u8; 12];
    n[8] = 3;
    let entry = |bssid: u8, ch: u8, sig: u8, ssid: &[u8]| {
        let mut e = vec![bssid, 0, 0, 0, 0, 0, ch, sig];
        let ies_len = (2 + ssid.len()) as u16;
        e.extend_from_slice(&ies_len.to_le_bytes());
        e.push(0);
        e.push(ssid.len() as u8);
        e.extend_from_slice(ssid);
        e
    };
    let a = entry(1, 6, 0xC4, b"cafe");
    let b = entry(1, 6, 0xC0, b"dupl");
    let c = entry(2, 36, 0xB0, b"lab5");
    n.extend_from_slice(&a);
    n.extend_from_slice(&b);
    n.extend_from_slice(&c);
    // an entry is only read when 20 bytes remain from its start
    n.extend_from_slice(&[0u8; 4]);
    d.parse_scan_notification(&n);
    assert_eq!(d.scan_results.len(), 2);
    assert_eq!(d.scan_results[0].ssid, "cafe");
    assert_eq!((d.scan_results[0].channel, d.scan_results[0].signal_dbm, d.scan_results[0].frequency_mhz), (6, -60, 2437));
    assert_eq!(d.scan_results[1].ssid, "lab5");
    assert_eq!(d.scan_results[1].frequency_mhz, 5180);
    d.parse_scan_notification(&[0u8; 5]);
    assert_eq!(d.scan_results.len(), 2);
}
