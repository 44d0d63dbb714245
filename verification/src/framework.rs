//! The driver framework: what a driver declares about itself, the driver
//! interface, the registry of known drivers and how a PCI function is
//! matched to them, and the storage probe decisions.
use vstd::prelude::*;

verus! {

/// Kinds of driver.
#[derive(Clone, Copy, Debug, PartialEq, Eq, Structural)]
pub enum DriverCategory {
    Network,
    Storage,
    Display,
    Input,
    Audio,
    Qs,
    Other,
}

/// What a driver declares: name, version, author, kind and the
/// (vendor, device) ids it supports, device 0xFFFF meaning any device of
/// that vendor.
#[derive(Debug)]
pub struct Bb {
    pub name: &'static str,
    pub version: &'static str,
    pub author: &'static str,
    pub category: DriverCategory,
    pub vendor_ids: Vec<(u16, u16)>,
}

/// The same declaration, ids compared by content.
pub open spec fn same_info(a: Bb, b: Bb) -> bool {
    a.name == b.name && a.version == b.version && a.author == b.author && a.category == b.category
        && a.vendor_ids@ == b.vendor_ids@
}

impl Bb {
    pub fn copy(&self) -> (b: Bb)
        ensures
            same_info(b, *self),
    {
        let mut ids: Vec<(u16, u16)> = Vec::new();
        let mut i: usize = 0;
        while i < self.vendor_ids.len()
            invariant
                i <= self.vendor_ids@.len(),
                ids@ == self.vendor_ids@.subrange(0, i as int),
            decreases self.vendor_ids@.len() - i,
        {
            ids.push(self.vendor_ids[i]);
            i = i + 1;
            assert(ids@ =~= self.vendor_ids@.subrange(0, i as int));
        }
        assert(ids@ =~= self.vendor_ids@);
        Bb { name: self.name, version: self.version, author: self.author, category: self.category, vendor_ids: ids }
    }
}

/// Life-cycle state of a driver.
#[derive(Clone, Copy, Debug, PartialEq, Eq, Structural)]
pub enum DriverStatus {
    Unloaded,
    Loading,
    Running,
    Error,
    Suspended,
}

/// A PCI function as enumerated.
#[derive(Clone, Copy, Debug)]
pub struct PciFunction {
    pub vendor_id: u16,
    pub device_id: u16,
    pub bus: u8,
    pub device: u8,
    pub function: u8,
    pub revision: u8,
    pub class: u8,
    pub subclass: u8,
    pub prog_if: u8,
    pub interrupt_line: u8,
    pub bar: [u32; 6],
}

/// The interface every driver offers.
pub trait Cw {
    /// The driver's declaration.
    fn info(&self) -> Bb;

    /// Takes charge of a PCI function, or refuses it.
    fn probe(&mut self, pci_device: &PciFunction) -> Result<(), &'static str>;

    /// Starts the device.
    fn start(&mut self) -> Result<(), &'static str>;

    /// Stops the device.
    fn stop(&mut self) -> Result<(), &'static str>;

    /// Current life-cycle state.
    fn status(&self) -> DriverStatus;

    /// Services the device; nothing by default.
    fn btc(&mut self) {
    }
}

/// Whether a declared (vendor, device) pair covers a function.
pub open spec fn id_matches(pair: (u16, u16), vendor: u16, device: u16) -> bool {
    vendor == pair.0 && (pair.1 == 0xFFFF || device == pair.1)
}

/// Whether a declaration covers a function.
pub open spec fn info_matches(b: Bb, vendor: u16, device: u16) -> bool {
    exists|k: int| 0 <= k < b.vendor_ids@.len() && id_matches(#[trigger] b.vendor_ids@[k], vendor, device)
}

/// What became of one attempt to load a driver for a function.
#[derive(Clone, Copy, Debug, PartialEq, Eq, Structural)]
pub enum LoadOutcome {
    /// The driver refused the function.
    ProbeFailed,
    /// The driver took the function but did not start.
    StartFailed,
    /// The driver runs.
    Started,
}

/// The known drivers (their declarations, in registration order) and the
/// number of drivers loaded.
pub struct DriverRegistry {
    pub entries: Vec<Bb>,
    pub loaded: usize,
}

impl DriverRegistry {
    pub fn new() -> (r: Self)
        ensures
            r.entries@.len() == 0,
            r.loaded == 0,
    {
        DriverRegistry { entries: Vec::new(), loaded: 0 }
    }
}

/// Adds a driver to the registry.
pub fn register(reg: &mut DriverRegistry, info: Bb)
    ensures
        final(reg).entries@ == old(reg).entries@.push(info),
        final(reg).loaded == old(reg).loaded,
{
    reg.entries.push(info);
}

/// Whether `try_load` can have reported `o` for entry `i`.
pub open spec fn load_result<F: Fn(usize) -> LoadOutcome>(try_load: F, i: usize, o: LoadOutcome) -> bool {
    call_ensures(try_load, (i,), o)
}

/// Whether an entry is tried for a function by the general loader: it is
/// not a network driver and declares an id covering the function.
pub open spec fn candidate(b: Bb, vendor: u16, device: u16) -> bool {
    b.category != DriverCategory::Network && info_matches(b, vendor, device)
}

/// Loads a driver for a PCI function: each non-network entry, in order,
/// is tried once per declared id covering the function (`try_load` makes
/// the driver, probes and starts it).  The first driver that starts is
/// counted as loaded and its position among the loaded drivers returned;
/// a driver that probes but fails to start ends the search with none.
pub fn goi<F: Fn(usize) -> LoadOutcome>(reg: &mut DriverRegistry, vendor: u16, device: u16, try_load: F) -> (r: Option<usize>)
    requires
        forall|i: usize| call_requires(try_load, (i,)),
        old(reg).loaded < usize::MAX,
    ensures
        final(reg).entries@ == old(reg).entries@,
        match r {
            Some(idx) => idx == old(reg).loaded && final(reg).loaded == old(reg).loaded + 1 && exists|i: usize|
                i < old(reg).entries@.len() && old(reg).entries@[i as int].category != DriverCategory::Network
                    && info_matches(old(reg).entries@[i as int], vendor, device) && #[trigger] load_result(
                    try_load,
                    i,
                    LoadOutcome::Started,
                ) && forall|j: usize| j < i && candidate(old(reg).entries@[j as int], vendor, device) ==> #[trigger] load_result(
                    try_load,
                    j,
                    LoadOutcome::ProbeFailed,
                ),
            None => final(reg).loaded == old(reg).loaded,
        },
        (forall|i: int|
            0 <= i < old(reg).entries@.len() ==> old(reg).entries@[i].category == DriverCategory::Network
                || !info_matches(old(reg).entries@[i], vendor, device)) ==> r is None,
        r is None ==> (forall|i: usize| i < old(reg).entries@.len() && candidate(old(reg).entries@[i as int], vendor, device)
            ==> #[trigger] load_result(try_load, i, LoadOutcome::ProbeFailed)) || (exists|i: usize|
            i < old(reg).entries@.len() && candidate(old(reg).entries@[i as int], vendor, device)
                && #[trigger] load_result(try_load, i, LoadOutcome::StartFailed) && forall|j: usize|
                j < i && candidate(old(reg).entries@[j as int], vendor, device) ==> #[trigger] load_result(
                try_load,
                j,
                LoadOutcome::ProbeFailed,
            )),
{
    let mut i: usize = 0;
    while i < reg.entries.len()
        invariant
            i <= reg.entries@.len(),
            reg.entries@ == old(reg).entries@,
            reg.loaded == old(reg).loaded,
            forall|q: usize| call_requires(try_load, (q,)),
            old(reg).loaded < usize::MAX,
            forall|j: usize| j < i && candidate(old(reg).entries@[j as int], vendor, device) ==> #[trigger] load_result(
                try_load,
                j,
                LoadOutcome::ProbeFailed,
            ),
        decreases reg.entries@.len() - i,
    {
        if reg.entries[i].category != DriverCategory::Network {
            let mut k: usize = 0;
            while k < reg.entries[i].vendor_ids.len()
                invariant
                    i < reg.entries@.len(),
                    k <= reg.entries@[i as int].vendor_ids@.len(),
                    reg.entries@ == old(reg).entries@,
                    reg.loaded == old(reg).loaded,
                    reg.entries@[i as int].category != DriverCategory::Network,
                    forall|q: usize| call_requires(try_load, (q,)),
                    old(reg).loaded < usize::MAX,
                    forall|j: usize| j < i && candidate(old(reg).entries@[j as int], vendor, device) ==> #[trigger] load_result(
                        try_load,
                        j,
                        LoadOutcome::ProbeFailed,
                    ),
                    (exists|q: int| 0 <= q < k && id_matches(#[trigger] reg.entries@[i as int].vendor_ids@[q], vendor, device))
                        ==> load_result(try_load, i, LoadOutcome::ProbeFailed),
                decreases reg.entries@[i as int].vendor_ids@.len() - k,
            {
                let (v, d) = reg.entries[i].vendor_ids[k];
                if vendor == v && (d == 0xFFFF || device == d) {
                    assert(id_matches(reg.entries@[i as int].vendor_ids@[k as int], vendor, device));
                    let o = try_load(i);
                    match o {
                        LoadOutcome::Started => {
                            let idx = reg.loaded;
                            reg.loaded = reg.loaded + 1;
                            assert(load_result(try_load, i, LoadOutcome::Started));
                            return Some(idx);
                        },
                        LoadOutcome::StartFailed => {
                            assert(load_result(try_load, i, LoadOutcome::StartFailed));
                            assert(candidate(old(reg).entries@[i as int], vendor, device));
                            return None;
                        },
                        LoadOutcome::ProbeFailed => {
                            assert(load_result(try_load, i, LoadOutcome::ProbeFailed));
                        },
                    }
                }
                k = k + 1;
            }
            assert(candidate(old(reg).entries@[i as int], vendor, device) ==> load_result(try_load, i, LoadOutcome::ProbeFailed));
        }
        i = i + 1;
    }
    None
}

/// Number of drivers loaded.
pub fn gga(reg: &DriverRegistry) -> (n: usize)
    ensures
        n == reg.loaded,
{
    reg.loaded
}

/// Copies of all declarations, in registration order.
pub fn qnp(reg: &DriverRegistry) -> (v: Vec<Bb>)
    ensures
        v@.len() == reg.entries@.len(),
        forall|i: int| 0 <= i < v@.len() ==> same_info(#[trigger] v@[i], reg.entries@[i]),
{
    let mut v: Vec<Bb> = Vec::new();
    let mut i: usize = 0;
    while i < reg.entries.len()
        invariant
            i <= reg.entries@.len(),
            v@.len() == i,
            forall|k: int| 0 <= k < i ==> same_info(#[trigger] v@[k], reg.entries@[k]),
        decreases reg.entries@.len() - i,
    {
        v.push(reg.entries[i].copy());
        i = i + 1;
    }
    v
}

/// Whether any persistent storage is available (AHCI, IDE or NVMe).
pub fn ied(ahci: bool, ata: bool, nvme: bool) -> (b: bool)
    ensures
        b == (ahci || ata || nvme),
{
    ahci || ata || nvme
}

/// Storage and USB controller kinds recognised by class, subclass and
/// programming interface.
#[derive(Clone, Copy, Debug, PartialEq, Eq, Structural)]
pub enum ControllerKind {
    Ahci,
    Ide,
    Nvme,
    Usb,
    Xhci,
    Other,
}

pub open spec fn controller_kind_spec(f: PciFunction) -> ControllerKind {
    if f.class == 0x01 && f.subclass == 0x06 && f.prog_if == 0x01 {
        ControllerKind::Ahci
    } else if f.class == 0x01 && f.subclass == 0x01 {
        ControllerKind::Ide
    } else if f.class == 0x01 && f.subclass == 0x08 {
        ControllerKind::Nvme
    } else if f.class == 0x0C && f.subclass == 0x03 {
        if f.prog_if == 0x30 { ControllerKind::Xhci } else { ControllerKind::Usb }
    } else {
        ControllerKind::Other
    }
}

/// What kind of controller a function is, for the storage probe.
pub fn controller_kind(f: &PciFunction) -> (k: ControllerKind)
    ensures
        k == controller_kind_spec(*f),
{
    if f.class == 0x01 && f.subclass == 0x06 && f.prog_if == 0x01 {
        ControllerKind::Ahci
    } else if f.class == 0x01 && f.subclass == 0x01 {
        ControllerKind::Ide
    } else if f.class == 0x01 && f.subclass == 0x08 {
        ControllerKind::Nvme
    } else if f.class == 0x0C && f.subclass == 0x03 {
        if f.prog_if == 0x30 { ControllerKind::Xhci } else { ControllerKind::Usb }
    } else {
        ControllerKind::Other
    }
}

pub open spec fn usb_kind_name(prog_if: u8) -> &'static str {
    if prog_if == 0x00 {
        "UHCI (USB 1.0)"
    } else if prog_if == 0x10 {
        "OHCI (USB 1.1)"
    } else if prog_if == 0x20 {
        "EHCI (USB 2.0)"
    } else if prog_if == 0x30 {
        "xHCI (USB 3.0)"
    } else {
        "Unknown USB"
    }
}

/// Name of a USB host controller interface.
pub fn usb_controller_name(prog_if: u8) -> (s: &'static str)
    ensures
        s == usb_kind_name(prog_if),
{
    match prog_if {
        0x00 => "UHCI (USB 1.0)",
        0x10 => "OHCI (USB 1.1)",
        0x20 => "EHCI (USB 2.0)",
        0x30 => "xHCI (USB 3.0)",
        _ => "Unknown USB",
    }
}

/// Number of `true` answers in `s`.
pub open spec fn count_true(s: Seq<bool>) -> nat
    decreases s.len(),
{
    if s.len() == 0 {
        0
    } else {
        count_true(s.drop_last()) + if s.last() { 1nat } else { 0nat }
    }
}

/// Number of functions for which `try_probe` loaded a driver: each of the
/// functions `0..count` is tried once, in order, and the successes are
/// counted.
pub fn pyh<F: Fn(usize) -> bool>(count: usize, try_probe: F) -> (n: usize)
    requires
        forall|i: usize| call_requires(try_probe, (i,)),
    ensures
        exists|outs: Seq<bool>|
            outs.len() == count && (forall|i: int| 0 <= i < count ==> call_ensures(try_probe, (i as usize,), #[trigger] outs[i]))
                && n == count_true(outs),
{
    let mut n: usize = 0;
    let mut i: usize = 0;
    let ghost mut outs: Seq<bool> = Seq::empty();
    while i < count
        invariant
            i <= count,
            n <= i,
            outs.len() == i,
            forall|k: int| 0 <= k < i ==> call_ensures(try_probe, (k as usize,), #[trigger] outs[k]),
            n == count_true(outs),
            forall|q: usize| call_requires(try_probe, (q,)),
        decreases count - i,
    {
        let ok = try_probe(i);
        proof {
            let prev = outs;
            outs = outs.push(ok);
            assert(outs.drop_last() =~= prev);
        }
        if ok {
            n = n + 1;
        }
        i = i + 1;
    }
    n
}

/// Sets up the framework: registers the built-in network drivers and
/// the input devices (the mouse when its driver came up).
pub fn init(
    drivers: &mut DriverRegistry,
    net: &mut crate::net::NetRegistry,
    input: &mut crate::input::InputState,
    mouse_initialized: bool,
)
    ensures
        final(drivers).entries@.len() == old(drivers).entries@.len() + 4,
        final(net).entries@.len() == old(net).entries@.len() + 4,
        final(input).keyboard_available,
        mouse_initialized ==> final(input).mouse_available,
{
    crate::net::oei(drivers, net);
    crate::input::init(input, mouse_initialized);
}

/// What the storage probe does for one PCI function.
#[derive(Clone, Copy, Debug, PartialEq, Eq, Structural)]
pub enum StorageAction {
    /// Bring up an AHCI controller at this BAR5 address, then identify its
    /// disks.
    InitAhci(u64),
    /// Bring up the legacy IDE channels.
    InitIde,
    /// Report an NVMe controller.
    ReportNvme,
    /// Report a USB controller of this kind.
    ReportUsb(u8),
    /// Bring up an xHCI controller at this BAR0 address.
    InitXhci(u64),
}

pub open spec fn storage_action_spec(f: PciFunction) -> Option<StorageAction> {
    match controller_kind_spec(f) {
        ControllerKind::Ahci => Some(StorageAction::InitAhci(f.bar[5] as u64)),
        ControllerKind::Ide => Some(StorageAction::InitIde),
        ControllerKind::Nvme => Some(StorageAction::ReportNvme),
        ControllerKind::Usb => Some(StorageAction::ReportUsb(f.prog_if)),
        ControllerKind::Xhci => Some(StorageAction::InitXhci(f.bar[0] as u64)),
        ControllerKind::Other => None,
    }
}

/// The storage probe's plan: for each function in order, what to do with
/// it (functions that are no storage or USB controller are skipped).
pub open spec fn storage_plan(devs: Seq<PciFunction>, n: int) -> Seq<StorageAction>
    decreases n,
{
    if n <= 0 {
        Seq::<StorageAction>::empty()
    } else {
        let prev = storage_plan(devs, n - 1);
        match storage_action_spec(devs[n - 1]) {
            Some(a) => prev.push(a),
            None => prev,
        }
    }
}

/// Plans the storage probe over the enumerated functions.
pub fn gom(devs: &Vec<PciFunction>) -> (plan: Vec<StorageAction>)
    ensures
        plan@ == storage_plan(devs@, devs@.len() as int),
{
    let mut plan: Vec<StorageAction> = Vec::new();
    let mut i: usize = 0;
    while i < devs.len()
        invariant
            i <= devs@.len(),
            plan@ == storage_plan(devs@, i as int),
        decreases devs@.len() - i,
    {
        let f = &devs[i];
        match controller_kind(f) {
            ControllerKind::Ahci => plan.push(StorageAction::InitAhci(f.bar[5] as u64)),
            ControllerKind::Ide => plan.push(StorageAction::InitIde),
            ControllerKind::Nvme => plan.push(StorageAction::ReportNvme),
            ControllerKind::Usb => plan.push(StorageAction::ReportUsb(f.prog_if)),
            ControllerKind::Xhci => plan.push(StorageAction::InitXhci(f.bar[0] as u64)),
            ControllerKind::Other => {},
        }
        i = i + 1;
    }
    plan
}

} // verus!
