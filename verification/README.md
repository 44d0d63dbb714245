# trustos_drivers

Device-driver logic of a small x86-64 kernel, written in Verus and proved
against its contracts: what each driver decides, encodes and parses, for
storage (AHCI, ATA, USB mass storage, partition tables), audio (Intel HD
Audio, WAV files, melodies, tap calibration), display (virtio-gpu surfaces
and compositor, NVIDIA and Apple helpers), networking (e1000, RTL8169,
virtio-net selection, Intel 4965 and the Wi-Fi manager), USB (xHCI rings
and setup packets), the AMD GPU (identity, firmware images, display,
DMA and compute packets, integer neural kernels), ThinkPad embedded
controller and input.

## Layout

- `src/` — the verified library.  Each module holds a driver's model
  (spec functions and well-formedness predicates), its executable
  functions with `requires`/`ensures`, and the laws that span several
  functions as public proof functions (`law_*`).
- `tests/` — ordinary Rust tests of the library on concrete values.
- `app/` — the kernel side: port and memory-mapped I/O through a
  `Platform` trait that the kernel implements, global driver state, wait
  loops, floating-point kernels.  It hands the library plain values and
  carries out the steps the library returns (codec verbs, compute
  packets, ATA commands, register and framebuffer writes).  USB mass
  storage stops at the library's command blocks and parsers: no USB
  transfer is made from app/, and xHCI bring-up stops at the port scan
  (devices are not enumerated).

Verify with Verus on `src/lib.rs`; run the tests with cargo.
