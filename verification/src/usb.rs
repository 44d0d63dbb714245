//! Generic USB host controller bookkeeping: controllers registered and
//! the devices found on them.
use vstd::prelude::*;

verus! {

/// Host controller interfaces.
#[derive(Clone, Copy, Debug, PartialEq, Eq, Structural)]
pub enum UsbControllerType {
    Afp,
    Abw,
    Rv,
    Wa,
}

/// Device classes.
#[derive(Clone, Copy, Debug, PartialEq, Eq, Structural)]
pub enum UsbDeviceClass {
    Hub,
    HID,
    MassStorage,
    Audio,
    Video,
    Printer,
    Other(u8),
}

/// A USB device.
#[derive(Debug)]
pub struct Afy {
    pub address: u8,
    pub class: UsbDeviceClass,
    pub vendor_id: u16,
    pub product_id: u16,
    pub manufacturer: String,
    pub product: String,
}

pub open spec fn same_dev(a: Afy, b: Afy) -> bool {
    a.address == b.address && a.class == b.class && a.vendor_id == b.vendor_id && a.product_id == b.product_id
        && a.manufacturer@ == b.manufacturer@ && a.product@ == b.product@
}

impl Afy {
    pub fn copy(&self) -> (d: Afy)
        ensures
            same_dev(d, *self),
    {
        Afy {
            address: self.address,
            class: self.class,
            vendor_id: self.vendor_id,
            product_id: self.product_id,
            manufacturer: self.manufacturer.clone(),
            product: self.product.clone(),
        }
    }
}

/// A host controller and its devices.
pub struct Vr {
    pub controller_type: UsbControllerType,
    pub base_addr: u64,
    pub devices: Vec<Afy>,
    pub initialized: bool,
}

/// All registered controllers.
pub struct UsbState {
    pub controllers: Vec<Vr>,
}

impl UsbState {
    pub fn new() -> (s: Self)
        ensures
            s.controllers@.len() == 0,
    {
        UsbState { controllers: Vec::new() }
    }
}

/// Whether any controller is up.
pub fn is_initialized(st: &UsbState) -> (b: bool)
    ensures
        b == exists|i: int| 0 <= i < st.controllers@.len() && (#[trigger] st.controllers@[i]).initialized,
{
    let mut i: usize = 0;
    while i < st.controllers.len()
        invariant
            i <= st.controllers@.len(),
            forall|k: int| 0 <= k < i ==> !(#[trigger] st.controllers@[k]).initialized,
        decreases st.controllers@.len() - i,
    {
        if st.controllers[i].initialized {
            return true;
        }
        i = i + 1;
    }
    false
}

/// Registers a controller of the given kind at `base` (not brought up:
/// the result is false); an address of 0 or all ones is refused.
fn add_controller(st: &mut UsbState, kind: UsbControllerType, base: u64) -> (ok: bool)
    ensures
        !ok,
        (base == 0 || base == 0xFFFF_FFFF) ==> final(st).controllers@.len() == old(st).controllers@.len(),
        !(base == 0 || base == 0xFFFF_FFFF) ==> final(st).controllers@.len() == old(st).controllers@.len() + 1
            && final(st).controllers@.last().controller_type == kind && final(st).controllers@.last().base_addr == base
            && final(st).controllers@.last().devices@.len() == 0 && !final(st).controllers@.last().initialized,
        forall|i: int| 0 <= i < old(st).controllers@.len() ==> #[trigger] final(st).controllers@[i] == old(st).controllers@[i],
{
    if base == 0 || base == 0xFFFF_FFFF {
        return false;
    }
    st.controllers.push(Vr { controller_type: kind, base_addr: base, devices: Vec::new(), initialized: false });
    false
}

/// Registers an EHCI controller.
pub fn qla(st: &mut UsbState, base: u64) -> (ok: bool)
    ensures
        !ok,
        (base == 0 || base == 0xFFFF_FFFF) ==> final(st).controllers@.len() == old(st).controllers@.len(),
        !(base == 0 || base == 0xFFFF_FFFF) ==> final(st).controllers@.len() == old(st).controllers@.len() + 1
            && final(st).controllers@.last().controller_type == UsbControllerType::Rv
            && final(st).controllers@.last().base_addr == base
            && final(st).controllers@.last().devices@.len() == 0 && !final(st).controllers@.last().initialized,
        forall|i: int| 0 <= i < old(st).controllers@.len() ==> #[trigger] final(st).controllers@[i] == old(st).controllers@[i],
{
    add_controller(st, UsbControllerType::Rv, base)
}

/// Registers an xHCI controller.
pub fn qlh(st: &mut UsbState, base: u64) -> (ok: bool)
    ensures
        !ok,
        (base == 0 || base == 0xFFFF_FFFF) ==> final(st).controllers@.len() == old(st).controllers@.len(),
        !(base == 0 || base == 0xFFFF_FFFF) ==> final(st).controllers@.len() == old(st).controllers@.len() + 1
            && final(st).controllers@.last().controller_type == UsbControllerType::Wa
            && final(st).controllers@.last().base_addr == base
            && final(st).controllers@.last().devices@.len() == 0 && !final(st).controllers@.last().initialized,
        forall|i: int| 0 <= i < old(st).controllers@.len() ==> #[trigger] final(st).controllers@[i] == old(st).controllers@[i],
{
    add_controller(st, UsbControllerType::Wa, base)
}

/// All devices of all controllers, controller by controller.
pub open spec fn all_devices(cs: Seq<Vr>) -> Seq<Afy>
    decreases cs.len(),
{
    if cs.len() == 0 {
        Seq::<Afy>::empty()
    } else {
        all_devices(cs.drop_last()) + cs.last().devices@
    }
}

/// Copies of all devices.
pub fn lqv(st: &UsbState) -> (v: Vec<Afy>)
    ensures
        v@.len() == all_devices(st.controllers@).len(),
        forall|i: int| 0 <= i < v@.len() ==> same_dev(#[trigger] v@[i], all_devices(st.controllers@)[i]),
{
    let mut v: Vec<Afy> = Vec::new();
    let mut c: usize = 0;
    while c < st.controllers.len()
        invariant
            c <= st.controllers@.len(),
            v@.len() == all_devices(st.controllers@.subrange(0, c as int)).len(),
            forall|i: int|
                0 <= i < v@.len() ==> same_dev(#[trigger] v@[i], all_devices(st.controllers@.subrange(0, c as int))[i]),
        decreases st.controllers@.len() - c,
    {
        let ghost prev = all_devices(st.controllers@.subrange(0, c as int));
        assert(st.controllers@.subrange(0, c + 1).drop_last() =~= st.controllers@.subrange(0, c as int));
        let devs = &st.controllers[c].devices;
        let mut k: usize = 0;
        while k < devs.len()
            invariant
                k <= devs@.len(),
                v@.len() == prev.len() + k,
                forall|i: int| 0 <= i < prev.len() ==> same_dev(#[trigger] v@[i], prev[i]),
                forall|i: int| 0 <= i < k ==> same_dev(#[trigger] v@[prev.len() + i], devs@[i]),
            decreases devs@.len() - k,
        {
            v.push(devs[k].copy());
            k = k + 1;
        }
        c = c + 1;
        let ghost now = all_devices(st.controllers@.subrange(0, c as int));
        assert(now =~= prev + devs@);
        assert forall|i: int| 0 <= i < v@.len() implies same_dev(#[trigger] v@[i], now[i]) by {
            if i < prev.len() {
            } else {
                assert(same_dev(v@[prev.len() + (i - prev.len())], devs@[i - prev.len()]));
            }
        }
    }
    assert(st.controllers@.subrange(0, st.controllers@.len() as int) =~= st.controllers@);
    v
}

/// Number of controllers registered.
pub fn kxn(st: &UsbState) -> (n: usize)
    ensures
        n == st.controllers@.len(),
{
    st.controllers.len()
}

/// Whether a human interface device is attached anywhere.
pub fn mjm(st: &UsbState) -> (b: bool)
    ensures
        b == exists|c: int, k: int|
            0 <= c < st.controllers@.len() && 0 <= k < st.controllers@[c].devices@.len()
                && (#[trigger] st.controllers@[c].devices@[k]).class == UsbDeviceClass::HID,
{
    let mut c: usize = 0;
    while c < st.controllers.len()
        invariant
            c <= st.controllers@.len(),
            forall|c2: int, k: int|
                0 <= c2 < c && 0 <= k < st.controllers@[c2].devices@.len() ==> (#[trigger] st.controllers@[c2].devices@[k]).class
                    != UsbDeviceClass::HID,
        decreases st.controllers@.len() - c,
    {
        let mut k: usize = 0;
        while k < st.controllers[c].devices.len()
            invariant
                c < st.controllers@.len(),
                k <= st.controllers@[c as int].devices@.len(),
                forall|k2: int| 0 <= k2 < k ==> (#[trigger] st.controllers@[c as int].devices@[k2]).class != UsbDeviceClass::HID,
            decreases st.controllers@[c as int].devices@.len() - k,
        {
            if st.controllers[c].devices[k].class == UsbDeviceClass::HID {
                return true;
            }
            k = k + 1;
        }
        c = c + 1;
    }
    false
}

} // verus!
