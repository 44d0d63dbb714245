//! Input devices: which keyboard and mouse are available.
use vstd::prelude::*;

verus! {

/// Kinds of input device.
#[derive(Clone, Copy, Debug, PartialEq, Eq, Structural)]
pub enum InputDeviceType {
    PS2Keyboard,
    PS2Mouse,
    USBKeyboard,
    USBMouse,
    USBGamepad,
}

/// An input device and whether it can be used.
#[derive(Clone, Copy, Debug)]
pub struct Axz {
    pub device_type: InputDeviceType,
    pub name: &'static str,
    pub available: bool,
}

/// Which keyboard and mouse are available.
#[derive(Clone, Copy, Debug, PartialEq, Eq, Structural)]
pub struct InputState {
    pub keyboard_available: bool,
    pub mouse_available: bool,
    pub keyboard_type: Option<InputDeviceType>,
    pub mouse_type: Option<InputDeviceType>,
}

impl InputState {
    /// Nothing available.
    pub fn new() -> (s: Self)
        ensures
            !s.keyboard_available,
            !s.mouse_available,
            s.keyboard_type is None,
            s.mouse_type is None,
    {
        InputState { keyboard_available: false, mouse_available: false, keyboard_type: None, mouse_type: None }
    }
}

/// Sets up input: the PS/2 keyboard is always there; the PS/2 mouse when
/// its driver came up.
pub fn init(st: &mut InputState, mouse_initialized: bool)
    ensures
        final(st).keyboard_available,
        final(st).keyboard_type == Some(InputDeviceType::PS2Keyboard),
        mouse_initialized ==> final(st).mouse_available && final(st).mouse_type == Some(InputDeviceType::PS2Mouse),
        !mouse_initialized ==> final(st).mouse_available == old(st).mouse_available && final(st).mouse_type
            == old(st).mouse_type,
{
    st.keyboard_available = true;
    st.keyboard_type = Some(InputDeviceType::PS2Keyboard);
    if mouse_initialized {
        st.mouse_available = true;
        st.mouse_type = Some(InputDeviceType::PS2Mouse);
    }
}

/// Whether a keyboard is available.
pub fn idr(st: &InputState) -> (b: bool)
    ensures
        b == st.keyboard_available,
{
    st.keyboard_available
}

/// Whether a mouse is available.
pub fn mjr(st: &InputState) -> (b: bool)
    ensures
        b == st.mouse_available,
{
    st.mouse_available
}

pub fn keyboard_type(st: &InputState) -> (t: Option<InputDeviceType>)
    ensures
        t == st.keyboard_type,
{
    st.keyboard_type
}

pub fn mouse_type(st: &InputState) -> (t: Option<InputDeviceType>)
    ensures
        t == st.mouse_type,
{
    st.mouse_type
}

/// Notes USB keyboard or mouse presence: the state is left as it is.
pub fn qyh(st: &mut InputState, keyboard: bool, mouse: bool)
    ensures
        *final(st) == *old(st),
{
}

} // verus!
