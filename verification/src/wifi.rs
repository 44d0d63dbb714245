//! Wi-Fi: security kinds, scan results and signal quality, the Wi-Fi
//! driver interface, and the manager that tracks the driver's state, scan
//! results, connection and pending connect request.
use vstd::prelude::*;
use crate::framework::PciFunction;
use crate::net::Dd;

verus! {

/// Security of a network.
#[derive(Clone, Copy, Debug, PartialEq, Eq, Structural)]
pub enum WifiSecurity {
    Open,
    WEP,
    WPA,
    WPA2,
    WPA3,
    Unknown,
}

pub open spec fn security_name(s: WifiSecurity) -> &'static str {
    match s {
        WifiSecurity::Open => "Open",
        WifiSecurity::WEP => "WEP",
        WifiSecurity::WPA => "WPA",
        WifiSecurity::WPA2 => "WPA2",
        WifiSecurity::WPA3 => "WPA3",
        WifiSecurity::Unknown => "???",
    }
}

impl WifiSecurity {
    pub fn as_str(&self) -> (s: &'static str)
        ensures
            s == security_name(*self),
    {
        match self {
            WifiSecurity::Open => "Open",
            WifiSecurity::WEP => "WEP",
            WifiSecurity::WPA => "WPA",
            WifiSecurity::WPA2 => "WPA2",
            WifiSecurity::WPA3 => "WPA3",
            WifiSecurity::Unknown => "???",
        }
    }
}

/// A network found by a scan.
#[derive(Debug)]
pub struct Fg {
    pub ssid: String,
    pub bssid: [u8; 6],
    pub channel: u8,
    pub signal_dbm: i8,
    pub security: WifiSecurity,
    pub frequency_mhz: u16,
}

/// The same network record, names compared by content.
pub open spec fn same_network(a: Fg, b: Fg) -> bool {
    a.ssid@ == b.ssid@ && a.bssid == b.bssid && a.channel == b.channel && a.signal_dbm == b.signal_dbm
        && a.security == b.security && a.frequency_mhz == b.frequency_mhz
}

/// Signal quality in percent: 100 at -30 dBm and above, 0 at -90 dBm and
/// below, linear (rounded toward zero) in between.
pub open spec fn quality(dbm: i8) -> u8 {
    if dbm >= -30 {
        100
    } else if dbm <= -90 {
        0
    } else {
        ((dbm + 90) * 100 / 60) as u8
    }
}

/// Bars shown for a quality: 4 from 80, 3 from 60, 2 from 40, 1 from 20.
pub open spec fn bars(q: u8) -> u8 {
    if 80 <= q <= 100 {
        4
    } else if 60 <= q <= 79 {
        3
    } else if 40 <= q <= 59 {
        2
    } else if 20 <= q <= 39 {
        1
    } else {
        0
    }
}

/// Signal law: a stronger signal never shows a lower quality or fewer
/// bars.
pub proof fn law_quality_monotone(a: i8, b: i8)
    requires
        a <= b,
    ensures
        quality(a) <= quality(b),
        bars(quality(a)) <= bars(quality(b)),
        quality(a) <= 100,
{
    if -90 < a < -30 && -90 < b < -30 {
        assert((a + 90) * 100 / 60 <= (b + 90) * 100 / 60) by (nonlinear_arith)
            requires
                a <= b,
                -90 < a,
        ;
    }
    if -90 < a < -30 {
        assert(0 <= (a + 90) * 100 / 60 <= 100) by (nonlinear_arith)
            requires
                a < -30,
                -90 < a,
        ;
    }
    if -90 < b < -30 {
        assert(0 <= (b + 90) * 100 / 60 <= 100) by (nonlinear_arith)
            requires
                b < -30,
                -90 < b,
        ;
    }
}

impl Fg {
    pub fn copy(&self) -> (n: Fg)
        ensures
            same_network(n, *self),
    {
        Fg {
            ssid: self.ssid.clone(),
            bssid: self.bssid,
            channel: self.channel,
            signal_dbm: self.signal_dbm,
            security: self.security,
            frequency_mhz: self.frequency_mhz,
        }
    }

    pub fn signal_quality(&self) -> (q: u8)
        ensures
            q == quality(self.signal_dbm),
    {
        if self.signal_dbm >= -30 {
            return 100;
        }
        if self.signal_dbm <= -90 {
            return 0;
        }
        ((self.signal_dbm as i16 + 90) * 100 / 60) as u8
    }

    pub fn signal_bars(&self) -> (b: u8)
        ensures
            b == bars(quality(self.signal_dbm)),
    {
        let q = self.signal_quality();
        if 80 <= q && q <= 100 {
            4
        } else if 60 <= q && q <= 79 {
            3
        } else if 40 <= q && q <= 59 {
            2
        } else if 20 <= q && q <= 39 {
            1
        } else {
            0
        }
    }
}

/// States of the Wi-Fi link.
#[derive(Clone, Copy, Debug, PartialEq, Eq, Structural)]
pub enum WifiState {
    NoHardware,
    Disabled,
    Disconnected,
    Scanning,
    Connecting,
    Authenticating,
    Connected,
    Failed,
}

/// Interface of a Wi-Fi driver.
pub trait Nx: Dd {
    fn wifi_state(&self) -> WifiState;

    fn scan(&mut self) -> Result<(), &'static str>;

    fn scan_results(&self) -> Vec<Fg>;

    fn connect(&mut self, ssid: &str, password: &str) -> Result<(), &'static str>;

    fn disconnect(&mut self) -> Result<(), &'static str>;

    fn connected_ssid(&self) -> Option<String>;

    fn current_channel(&self) -> Option<u8>;

    fn signal_strength(&self) -> Option<i8>;
}

/// What the manager tracks: whether a driver is active, a device whose
/// probe was deferred, the last scan's networks, the link state, the
/// connected network and a connect request waiting for the next poll.
pub struct WifiManager {
    pub active: bool,
    pub deferred: Option<(u8, u8, u8)>,
    pub scan_results: Vec<Fg>,
    pub state: WifiState,
    pub connected: Option<String>,
    pub pending: Option<(String, String)>,
}

impl WifiManager {
    /// No hardware yet.
    pub fn new() -> (m: Self)
        ensures
            !m.active,
            m.deferred is None,
            m.scan_results@.len() == 0,
            m.state == WifiState::NoHardware,
            m.connected is None,
            m.pending is None,
    {
        WifiManager {
            active: false,
            deferred: None,
            scan_results: Vec::new(),
            state: WifiState::NoHardware,
            connected: None,
            pending: None,
        }
    }
}

/// Remembers a Wi-Fi device found at boot to probe later.
pub fn oot(mgr: &mut WifiManager, bus: u8, device: u8, function: u8)
    ensures
        final(mgr).deferred == Some((bus, device, function)),
        final(mgr).active == old(mgr).active,
        final(mgr).state == old(mgr).state,
{
    mgr.deferred = Some((bus, device, function));
}

/// Whether Wi-Fi hardware is known: a driver is active or a probe is
/// deferred.
pub fn ckk(mgr: &WifiManager) -> (b: bool)
    ensures
        b == (mgr.active || mgr.deferred is Some),
{
    mgr.active || mgr.deferred.is_some()
}

/// Whether a Wi-Fi driver is active.
pub fn qkk(mgr: &WifiManager) -> (b: bool)
    ensures
        b == mgr.active,
{
    mgr.active
}

/// The link state.
pub fn state(mgr: &WifiManager) -> (s: WifiState)
    ensures
        s == mgr.state,
{
    mgr.state
}

/// Whether connected.
pub fn czx(mgr: &WifiManager) -> (b: bool)
    ensures
        b == (mgr.state == WifiState::Connected),
{
    mgr.state == WifiState::Connected
}

/// Name of the connected network.
pub fn connected_ssid(mgr: &WifiManager) -> (r: Option<String>)
    ensures
        match mgr.connected {
            Some(s) => r is Some && r->Some_0@ == s@,
            None => r is None,
        },
{
    match &mgr.connected {
        Some(s) => Some(s.clone()),
        None => None,
    }
}

/// Signal strength reported by the driver, if there is one.
pub fn signal_strength<D: Nx>(drv: &Option<D>) -> (r: Option<i8>)
    ensures
        drv is None ==> r is None,
{
    match drv {
        Some(d) => d.signal_strength(),
        None => None,
    }
}

/// Starts a scan once the driver is started (`started`): the state
/// becomes Scanning and the driver's answer is returned.
pub fn eaj<D: Nx>(mgr: &mut WifiManager, drv: &mut Option<D>, started: Result<(), &'static str>) -> (r: Result<
    (),
    &'static str,
>)
    ensures
        started is Err ==> r == started && final(mgr).state == old(mgr).state,
        started is Ok && (*old(drv)) is None ==> r == Err::<(), &'static str>("No WiFi driver") && final(mgr).state
            == old(mgr).state,
        started is Ok && (*old(drv)) is Some ==> final(mgr).state == WifiState::Scanning,
        (*old(drv)) is None <==> (*final(drv)) is None,
{
    match started {
        Err(e) => {
            return Err(e);
        },
        Ok(()) => {},
    }
    match drv {
        None => Err("No WiFi driver"),
        Some(d) => {
            mgr.state = WifiState::Scanning;
            d.scan()
        },
    }
}

/// Copies of the last scan's networks.
pub fn cys(mgr: &WifiManager) -> (v: Vec<Fg>)
    ensures
        v@.len() == mgr.scan_results@.len(),
        forall|i: int| 0 <= i < v@.len() ==> same_network(#[trigger] v@[i], mgr.scan_results@[i]),
{
    let mut v: Vec<Fg> = Vec::new();
    let mut i: usize = 0;
    while i < mgr.scan_results.len()
        invariant
            i <= mgr.scan_results@.len(),
            v@.len() == i,
            forall|k: int| 0 <= k < i ==> same_network(#[trigger] v@[k], mgr.scan_results@[k]),
        decreases mgr.scan_results@.len() - i,
    {
        v.push(mgr.scan_results[i].copy());
        i = i + 1;
    }
    v
}

/// Services the driver and follows it: its link state becomes the
/// manager's; when a scan has just ended its networks replace the last
/// scan's; its connected network is recorded; and a waiting connect
/// request is handed to it, the state becoming Connecting when accepted
/// and Failed when refused.
pub fn poll<D: Nx>(mgr: &mut WifiManager, drv: &mut Option<D>)
    ensures
        (*old(drv)) is None ==> final(mgr).state == old(mgr).state && final(mgr).pending == old(mgr).pending
            && final(mgr).scan_results@ == old(mgr).scan_results@,
        (*old(drv)) is None <==> (*final(drv)) is None,
        (*old(drv)) is Some ==> final(mgr).pending is None,
        (*old(drv)) is Some && old(mgr).pending is Some ==> final(mgr).state == WifiState::Connecting || final(mgr).state == WifiState::Failed,
        old(mgr).state != WifiState::Scanning ==> final(mgr).scan_results@ == old(mgr).scan_results@,
        final(mgr).active == old(mgr).active,
{
    match drv {
        None => {},
        Some(d) => {
            d.poll();
            let now = d.wifi_state();
            let before = mgr.state;
            if now != before {
                mgr.state = now;
            }
            if before == WifiState::Scanning && now != WifiState::Scanning {
                mgr.scan_results = d.scan_results();
            }
            mgr.connected = d.connected_ssid();
            let request = mgr.pending.take();
            match request {
                Some((ssid, password)) => {
                    match d.connect(ssid.as_str(), password.as_str()) {
                        Ok(()) => {
                            mgr.state = WifiState::Connecting;
                        },
                        Err(_) => {
                            mgr.state = WifiState::Failed;
                        },
                    }
                },
                None => {},
            }
        },
    }
}

/// Asks to connect to a network at the next poll, once the driver is
/// started (`started`); nothing happens when it could not start.
pub fn eyl(mgr: &mut WifiManager, ssid: &str, password: &str, started: Result<(), &'static str>)
    ensures
        started is Err ==> final(mgr).pending == old(mgr).pending,
        started is Ok ==> final(mgr).pending is Some && final(mgr).pending->Some_0.0@ == ssid@ && final(mgr).pending->Some_0.1@ == password@,
        final(mgr).state == old(mgr).state,
        final(mgr).active == old(mgr).active,
{
    match started {
        Err(_) => {},
        Ok(()) => {
            mgr.pending = Some((ssid.to_string(), password.to_string()));
        },
    }
}

/// Disconnects: the driver's refusal is returned; otherwise the state
/// becomes Disconnected and no network is connected.
pub fn disconnect<D: Nx>(mgr: &mut WifiManager, drv: &mut Option<D>) -> (r: Result<(), &'static str>)
    ensures
        (*old(drv)) is None ==> r == Err::<(), &'static str>("No WiFi driver") && final(mgr).state == old(mgr).state,
        r is Ok ==> final(mgr).state == WifiState::Disconnected && final(mgr).connected is None,
        r is Err ==> final(mgr).state == old(mgr).state,
        (*old(drv)) is None <==> (*final(drv)) is None,
{
    match drv {
        None => Err("No WiFi driver"),
        Some(d) => {
            match d.disconnect() {
                Err(e) => Err(e),
                Ok(()) => {
                    mgr.state = WifiState::Disconnected;
                    mgr.connected = None;
                    Ok(())
                },
            }
        },
    }
}

/// Makes `driver` the active Wi-Fi driver; the link starts disconnected.
pub fn oov<D: Nx>(mgr: &mut WifiManager, slot: &mut Option<D>, driver: D)
    ensures
        *final(slot) == Some(driver),
        final(mgr).active,
        final(mgr).state == WifiState::Disconnected,
{
    *slot = Some(driver);
    mgr.active = true;
    mgr.state = WifiState::Disconnected;
}

/// PCI classes: network controller, wireless controller.
pub const PCI_CLASS_NETWORK: u8 = 0x02;
pub const PCI_CLASS_WIRELESS: u8 = 0x0D;

/// Whether a function is a wireless adapter: wireless class, "other"
/// network controller, or an Intel device of the 4965 family.
pub open spec fn is_wireless_spec(f: PciFunction) -> bool {
    f.class == PCI_CLASS_WIRELESS || (f.class == PCI_CLASS_NETWORK && f.subclass == 0x80) || (f.vendor_id == 0x8086
        && (f.device_id == 0x4229 || f.device_id == 0x4230))
}

pub fn is_wireless(f: &PciFunction) -> (b: bool)
    ensures
        b == is_wireless_spec(*f),
{
    f.class == PCI_CLASS_WIRELESS || (f.class == PCI_CLASS_NETWORK && f.subclass == 0x80) || (f.vendor_id == 0x8086
        && (f.device_id == 0x4229 || f.device_id == 0x4230))
}

/// Probes a PCI function for Wi-Fi: a wireless Intel adapter is handed to
/// the Intel driver's probe (`probe`), and the driver it yields becomes
/// active.
pub fn ccv<D: Nx, P: FnOnce() -> Option<D>>(mgr: &mut WifiManager, slot: &mut Option<D>, f: &PciFunction, probe: P) -> (ok: bool)
    requires
        call_requires(probe, ()),
    ensures
        !is_wireless_spec(*f) || f.vendor_id != 0x8086 ==> !ok && final(mgr).active == old(mgr).active
            && final(mgr).state == old(mgr).state,
        ok ==> final(mgr).active && final(mgr).state == WifiState::Disconnected && (*final(slot)) is Some,
        !ok ==> final(mgr).active == old(mgr).active && final(mgr).state == old(mgr).state && *final(mgr) == *old(mgr)
            && *final(slot) == *old(slot),
        is_wireless_spec(*f) && f.vendor_id == 0x8086 ==> (ok ==> exists|d: D| call_ensures(probe, (), Some(d))
            && *final(slot) == Some(d)) && (!ok ==> call_ensures(probe, (), None::<D>)),
{
    if !is_wireless(f) {
        return false;
    }
    if f.vendor_id == 0x8086 {
        match probe() {
            Some(d) => {
                oov(mgr, slot, d);
                return true;
            },
            None => {},
        }
    }
    false
}


/// Index of the first function at (`bus`, `device`, `function`).
pub open spec fn first_at(devs: Seq<PciFunction>, loc: (u8, u8, u8), i: int) -> bool {
    0 <= i < devs.len() && (devs[i].bus, devs[i].device, devs[i].function) == loc && forall|j: int|
        0 <= j < i ==> (devs[j].bus, devs[j].device, devs[j].function) != loc
}

/// Probes the Wi-Fi device remembered at boot, among the enumerated
/// functions `devices`: nothing to do when a driver is active; an error
/// when none was remembered or it is not among them (it is then
/// forgotten); otherwise it is probed as `ccv` does, and remembered again
/// when that fails.
pub fn mxj<D: Nx, P: FnOnce(PciFunction) -> Option<D>>(
    mgr: &mut WifiManager,
    slot: &mut Option<D>,
    devices: &Vec<PciFunction>,
    probe: P,
) -> (r: Result<(), &'static str>)
    requires
        forall|f: PciFunction| call_requires(probe, (f,)),
    ensures
        old(mgr).active ==> r is Ok && *final(mgr) == *old(mgr),
        !old(mgr).active && old(mgr).deferred is None ==> r == Err::<(), &'static str>(
            "No WiFi hardware detected during boot",
        ) && final(mgr).active == old(mgr).active,
        !old(mgr).active && old(mgr).deferred is Some && (forall|j: int|
            0 <= j < devices@.len() ==> (devices@[j].bus, devices@[j].device, devices@[j].function)
                != old(mgr).deferred->Some_0) ==> r == Err::<(), &'static str>("WiFi PCI device not found")
            && final(mgr).deferred is None && final(mgr).active == old(mgr).active,
        !old(mgr).active && old(mgr).deferred is Some && (exists|i: int| first_at(devices@, old(mgr).deferred->Some_0, i))
            ==> {
            let i = choose|i: int| first_at(devices@, old(mgr).deferred->Some_0, i);
            &&& !is_wireless_spec(devices@[i]) || devices@[i].vendor_id != 0x8086 ==> r == Err::<(), &'static str>(
                "WiFi hardware probe failed",
            )
            &&& r is Ok ==> final(mgr).active && final(mgr).state == WifiState::Disconnected && (*final(slot)) is Some
            &&& r is Err ==> r == Err::<(), &'static str>("WiFi hardware probe failed") && final(mgr).deferred
                == old(mgr).deferred && final(mgr).active == old(mgr).active
        },
        r is Err || old(mgr).active ==> *final(slot) == *old(slot),
        !old(mgr).active && r is Ok ==> (*final(slot)) is Some && final(mgr).active,
{
    if mgr.active {
        return Ok(());
    }
    let loc = match mgr.deferred.take() {
        Some(l) => l,
        None => {
            return Err("No WiFi hardware detected during boot");
        },
    };
    let mut i: usize = 0;
    while i < devices.len()
        invariant
            i <= devices@.len(),
            forall|j: int| 0 <= j < i ==> (devices@[j].bus, devices@[j].device, devices@[j].function) != loc,
        ensures
            i <= devices@.len(),
            forall|j: int| 0 <= j < i ==> (devices@[j].bus, devices@[j].device, devices@[j].function) != loc,
            i < devices@.len() ==> (devices@[i as int].bus, devices@[i as int].device, devices@[i as int].function)
                == loc,
        decreases devices@.len() - i,
    {
        let d = &devices[i];
        if d.bus == loc.0 && d.device == loc.1 && d.function == loc.2 {
            break;
        }
        i = i + 1;
    }
    if i == devices.len() {
        return Err("WiFi PCI device not found");
    }
    let f = devices[i];
    proof {
        assert(first_at(devices@, loc, i as int));
        let k = choose|k: int| first_at(devices@, loc, k);
        assert(k == i as int) by {
            if k < i as int {
                assert((devices@[k].bus, devices@[k].device, devices@[k].function) != loc);
            } else if k > i as int {
                assert((devices@[i as int].bus, devices@[i as int].device, devices@[i as int].function) != loc);
            }
        }
    }
    let ok = ccv(mgr, slot, &f, move || -> (d: Option<D>)
        requires
            call_requires(probe, (f,)),
        { probe(f) });
    if ok {
        Ok(())
    } else {
        mgr.deferred = Some(loc);
        Err("WiFi hardware probe failed")
    }
}

/// Makes sure the Wi-Fi driver runs: a deferred probe is done first (its
/// error returned); without a driver an error; a running driver is left
/// alone; otherwise the driver is started and its answer returned.
pub fn fux<D: Nx, P: FnOnce(PciFunction) -> Option<D>>(
    mgr: &mut WifiManager,
    slot: &mut Option<D>,
    devices: &Vec<PciFunction>,
    probe: P,
) -> (r: Result<(), &'static str>)
    requires
        forall|f: PciFunction| call_requires(probe, (f,)),
    ensures
        old(mgr).active && (*old(slot)) is None ==> r == Err::<(), &'static str>("No WiFi driver"),
        !old(mgr).active && old(mgr).deferred is None ==> r == Err::<(), &'static str>(
            "No WiFi hardware detected during boot",
        ),
        (*old(slot)) is Some ==> (*final(slot)) is Some,
{
    if !mgr.active {
        match mxj(mgr, slot, devices, probe) {
            Ok(()) => {},
            Err(e) => {
                return Err(e);
            },
        }
    }
    match slot {
        None => Err("No WiFi driver"),
        Some(d) => {
            if d.status() == crate::framework::DriverStatus::Running {
                Ok(())
            } else {
                d.start()
            }
        },
    }
}

} // verus!
