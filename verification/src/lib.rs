use vstd::prelude::*;

pub mod util;
pub mod partition;
pub mod virtio_gpu;
pub mod audio_sync;
pub mod hda;
pub mod hda_stream;
pub mod hda_plan;
pub mod hda_dump;
pub mod usb_storage;
pub mod ahci;
pub mod xhci;
pub mod xhci_setup;
pub mod thinkpad_ec;
pub mod amdgpu;
pub mod framework;
pub mod input;
pub mod net;
pub mod nic;
pub mod wifi;
pub mod iwl4965;
pub mod iwl_cmd;
pub mod usb;
pub mod ata;
pub mod nvidia;
pub mod apple;

verus! {
} // verus!
