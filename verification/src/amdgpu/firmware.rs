//! GPU firmware: microcode header handling and the load status of each
//! engine's firmware as reported.
use vstd::prelude::*;
use crate::util::{decimal, push_decimal, push_text, chars_to_string, views, push_line, le32, read_le32};

verus! {

/// Load status of one firmware image.
#[derive(Clone, Copy, Debug, PartialEq, Eq, Structural)]
pub enum FwStatus {
    NotFound,
    Loaded,
    Running,
    Failed,
}

/// Status of each engine's firmware.
pub struct Yx {
    pub rlc: FwStatus,
    pub pfp: FwStatus,
    pub me: FwStatus,
    pub ce: FwStatus,
    pub mec1: FwStatus,
    pub mec2: FwStatus,
    pub sdma0: FwStatus,
    pub sdma1: FwStatus,
    pub mmio_base: u64,
}

/// The status table and whether loading completed.
pub struct FwState {
    pub table: Yx,
    pub loaded: bool,
}

/// Where the microcode starts in a firmware file: after the header when
/// one is recognised (header size in dwords at byte 4, between 4 and 1024
/// and shorter than the file), at the explicit offset at byte 20 when that
/// is inside the file, else right after the header; at 0 otherwise.
pub open spec fn ucode_start(d: Seq<u8>) -> int {
    if d.len() < 16 {
        0
    } else {
        let hdr = le32(d, 4);
        if 4 <= hdr <= 1024 && hdr * 4 < d.len() {
            if d.len() >= 24 && 0 < le32(d, 20) < d.len() {
                le32(d, 20)
            } else {
                hdr * 4
            }
        } else {
            0
        }
    }
}

pub fn ccg(data: &[u8]) -> (start: usize)
    ensures
        start == ucode_start(data@),
        start <= data@.len(),
{
    if data.len() < 16 {
        return 0;
    }
    let hdr = read_le32(data, 4);
    if hdr >= 4 && hdr <= 1024 && (hdr as usize) * 4 < data.len() {
        if data.len() >= 24 {
            let off = read_le32(data, 20) as usize;
            if off > 0 && off < data.len() {
                return off;
            }
        }
        return (hdr as usize) * 4;
    }
    0
}

/// Number of microcode dwords in a firmware file: the whole dwords after
/// its header.
pub open spec fn ucode_len(d: Seq<u8>) -> int {
    (d.len() - ucode_start(d)) / 4
}

/// The microcode of a firmware file as the little-endian dwords written to
/// an engine's microcode data register, trailing bytes dropped.
pub fn ucode_words(data: &[u8]) -> (v: Vec<u32>)
    ensures
        v@.len() == ucode_len(data@),
        forall|i: int| 0 <= i < v@.len() ==> v@[i] as int == le32(data@, ucode_start(data@) + 4 * i),
{
    let start = ccg(data);
    let n = (data.len() - start) / 4;
    let mut v: Vec<u32> = Vec::new();
    let mut i: usize = 0;
    while i < n
        invariant
            start == ucode_start(data@),
            start <= data@.len(),
            n == (data@.len() - start) / 4,
            i <= n,
            v@.len() == i,
            forall|j: int| 0 <= j < i ==> v@[j] as int == le32(data@, start + 4 * j),
        decreases n - i,
    {
        let len = data.len();
        assert(start + 4 * i + 4 <= len) by (nonlinear_arith)
            requires i < n, n == (len - start) / 4, start <= len;
        v.push(read_le32(data, start + 4 * i));
        i = i + 1;
    }
    v
}

/// Status of an image whose loader refuses an empty one: not found when
/// absent (`absent`), failed when empty, else loaded.
pub open spec fn checked_status(words: Option<usize>, absent: FwStatus) -> FwStatus {
    match words {
        None => absent,
        Some(n) => if n == 0 { FwStatus::Failed } else { FwStatus::Loaded },
    }
}

/// Status of an image whose loader takes any image: loaded when present.
pub open spec fn plain_status(words: Option<usize>, before: FwStatus) -> FwStatus {
    if words is Some { FwStatus::Loaded } else { before }
}

pub open spec fn is_loaded(s: FwStatus) -> nat {
    if s == FwStatus::Loaded { 1 } else { 0 }
}

/// Number of images that this load marked loaded.
pub open spec fn newly_loaded(t: Yx) -> nat {
    is_loaded(t.rlc) + is_loaded(t.pfp) + is_loaded(t.me) + is_loaded(t.ce) + is_loaded(t.mec1) + is_loaded(t.mec2)
        + is_loaded(t.sdma0) + is_loaded(t.sdma1)
}

/// The table after a load, from the microcode length of each image found
/// (RLC, PFP, ME, CE, MEC1, MEC2, SDMA0, SDMA1): the RLC and SDMA loaders
/// refuse an empty image, the others take any; a missing RLC image is
/// marked not found, other missing images keep their status.
pub open spec fn table_after_load(t: Yx, mmio: u64, found: [Option<usize>; 8]) -> Yx {
    Yx {
        rlc: checked_status(found[0], FwStatus::NotFound),
        pfp: plain_status(found[1], t.pfp),
        me: plain_status(found[2], t.me),
        ce: plain_status(found[3], t.ce),
        mec1: plain_status(found[4], t.mec1),
        mec2: plain_status(found[5], t.mec2),
        sdma0: checked_status(found[6], t.sdma0),
        sdma1: checked_status(found[7], t.sdma1),
        mmio_base: mmio,
    }
}

fn checked(words: Option<usize>, absent: FwStatus) -> (s: FwStatus)
    ensures
        s == checked_status(words, absent),
{
    match words {
        None => absent,
        Some(n) => if n == 0 { FwStatus::Failed } else { FwStatus::Loaded },
    }
}

fn plain(words: Option<usize>, before: FwStatus) -> (s: FwStatus)
    ensures
        s == plain_status(words, before),
{
    if words.is_some() { FwStatus::Loaded } else { before }
}

fn one_if_loaded(s: FwStatus) -> (n: u32)
    ensures
        n == is_loaded(s),
{
    if s == FwStatus::Loaded { 1 } else { 0 }
}

/// Records a firmware load on the registers at `mmio`: each engine's
/// status as `table_after_load` says, and loading marked complete once
/// any image of this load is loaded.
pub fn record_load(st: &mut FwState, mmio: u64, found: [Option<usize>; 8])
    ensures
        final(st).table == table_after_load(old(st).table, mmio, found),
        final(st).loaded == (old(st).loaded || newly_loaded(table_after_load(old(st).table, mmio, found)) > 0),
{
    let t = Yx {
        rlc: checked(found[0], FwStatus::NotFound),
        pfp: plain(found[1], st.table.pfp),
        me: plain(found[2], st.table.me),
        ce: plain(found[3], st.table.ce),
        mec1: plain(found[4], st.table.mec1),
        mec2: plain(found[5], st.table.mec2),
        sdma0: checked(found[6], st.table.sdma0),
        sdma1: checked(found[7], st.table.sdma1),
        mmio_base: mmio,
    };
    let n = one_if_loaded(t.rlc) + one_if_loaded(t.pfp) + one_if_loaded(t.me) + one_if_loaded(t.ce)
        + one_if_loaded(t.mec1) + one_if_loaded(t.mec2) + one_if_loaded(t.sdma0) + one_if_loaded(t.sdma1);
    if n > 0 {
        st.loaded = true;
    }
    st.table = t;
}

/// Whether firmware loading completed.
pub fn msz(st: &FwState) -> (b: bool)
    ensures
        b == st.loaded,
{
    st.loaded
}

pub open spec fn is_up(s: FwStatus) -> nat {
    if s == FwStatus::Loaded || s == FwStatus::Running { 1 } else { 0 }
}

/// Number of images loaded or running.
pub open spec fn loaded_count(t: Yx) -> nat {
    is_up(t.rlc) + is_up(t.pfp) + is_up(t.me) + is_up(t.ce) + is_up(t.mec1) + is_up(t.mec2) + is_up(t.sdma0)
        + is_up(t.sdma1)
}

fn up(s: FwStatus) -> (n: u64)
    ensures
        n == is_up(s),
{
    if s == FwStatus::Loaded || s == FwStatus::Running { 1 } else { 0 }
}

fn count_loaded(t: &Yx) -> (n: u64)
    ensures
        n == loaded_count(*t),
{
    up(t.rlc) + up(t.pfp) + up(t.me) + up(t.ce) + up(t.mec1) + up(t.mec2) + up(t.sdma0) + up(t.sdma1)
}

pub open spec fn status_label(s: FwStatus) -> Seq<char> {
    match s {
        FwStatus::NotFound => "NotFound"@,
        FwStatus::Loaded => "Loaded"@,
        FwStatus::Running => "Running"@,
        FwStatus::Failed => "Failed"@,
    }
}

fn status_chars(s: FwStatus) -> (out: Vec<char>)
    ensures
        out@ == status_label(s),
{
    let mut out: Vec<char> = Vec::new();
    match s {
        FwStatus::NotFound => push_text(&mut out, "NotFound"),
        FwStatus::Loaded => push_text(&mut out, "Loaded"),
        FwStatus::Running => push_text(&mut out, "Running"),
        FwStatus::Failed => push_text(&mut out, "Failed"),
    }
    out
}

pub open spec fn summary_spec(st: FwState) -> Seq<char> {
    "GPU Firmware: "@ + decimal((loaded_count(st.table)) as nat) + "/8 loaded (RLC:"@ + (status_label(st.table.rlc)) + " MEC:"@ + (status_label(st.table.mec1)) + " SDMA:"@ + (status_label(st.table.sdma0)) + ")"@
}

/// One-line firmware status.
pub fn summary(st: &FwState) -> (s: String)
    ensures
        s@ == summary_spec(*st),
{
    let mut out: Vec<char> = Vec::new();
    push_text(&mut out, "GPU Firmware: ");
    push_decimal(&mut out, (count_loaded(&st.table)) as u64);
    push_text(&mut out, "/8 loaded (RLC:");
    crate::util::append_chars(&mut out, &status_chars(st.table.rlc));
    push_text(&mut out, " MEC:");
    crate::util::append_chars(&mut out, &status_chars(st.table.mec1));
    push_text(&mut out, " SDMA:");
    crate::util::append_chars(&mut out, &status_chars(st.table.sdma0));
    push_text(&mut out, ")");
    chars_to_string(out)
}

pub open spec fn owz_spec(st: FwState) -> Seq<Seq<char>> {
    seq!["RLC  (Run List Controller):  "@ + (status_label(st.table.rlc)), "PFP  (Pre-Fetch Parser):     "@ + (status_label(st.table.pfp)), "ME   (Micro Engine):         "@ + (status_label(st.table.me)), "CE   (Constant Engine):      "@ + (status_label(st.table.ce)), "MEC1 (Compute Engine 1):     "@ + (status_label(st.table.mec1)), "MEC2 (Compute Engine 2):     "@ + (status_label(st.table.mec2)), "SDMA0 (DMA Engine 0):        "@ + (status_label(st.table.sdma0)), "SDMA1 (DMA Engine 1):        "@ + (status_label(st.table.sdma1))]
}

/// Status of each engine's firmware, one line each.
pub fn owz(st: &FwState) -> (lines: Vec<String>)
    ensures
        views(lines@) == owz_spec(*st),
{
    let mut lines: Vec<String> = Vec::new();
    let mut out: Vec<char> = Vec::new();
    push_text(&mut out, "RLC  (Run List Controller):  ");
    crate::util::append_chars(&mut out, &status_chars(st.table.rlc));
    push_line(&mut lines, out);
    let mut out: Vec<char> = Vec::new();
    push_text(&mut out, "PFP  (Pre-Fetch Parser):     ");
    crate::util::append_chars(&mut out, &status_chars(st.table.pfp));
    push_line(&mut lines, out);
    let mut out: Vec<char> = Vec::new();
    push_text(&mut out, "ME   (Micro Engine):         ");
    crate::util::append_chars(&mut out, &status_chars(st.table.me));
    push_line(&mut lines, out);
    let mut out: Vec<char> = Vec::new();
    push_text(&mut out, "CE   (Constant Engine):      ");
    crate::util::append_chars(&mut out, &status_chars(st.table.ce));
    push_line(&mut lines, out);
    let mut out: Vec<char> = Vec::new();
    push_text(&mut out, "MEC1 (Compute Engine 1):     ");
    crate::util::append_chars(&mut out, &status_chars(st.table.mec1));
    push_line(&mut lines, out);
    let mut out: Vec<char> = Vec::new();
    push_text(&mut out, "MEC2 (Compute Engine 2):     ");
    crate::util::append_chars(&mut out, &status_chars(st.table.mec2));
    push_line(&mut lines, out);
    let mut out: Vec<char> = Vec::new();
    push_text(&mut out, "SDMA0 (DMA Engine 0):        ");
    crate::util::append_chars(&mut out, &status_chars(st.table.sdma0));
    push_line(&mut lines, out);
    let mut out: Vec<char> = Vec::new();
    push_text(&mut out, "SDMA1 (DMA Engine 1):        ");
    crate::util::append_chars(&mut out, &status_chars(st.table.sdma1));
    push_line(&mut lines, out);
    assert(views(lines@) =~= owz_spec(*st));
    lines
}

/// Whether an image of `words` words is there and not empty.
pub open spec fn has_words(words: Option<usize>) -> bool {
    words matches Some(n) && n > 0
}

/// Which engines a firmware load programs, from the images found (their
/// lengths in words, in the order RLC, PFP, ME, CE, MEC1, MEC2, SDMA0,
/// SDMA1).
#[derive(Debug, Clone, Copy, PartialEq, Eq)]
pub struct FwPlan {
    /// The RLC is stopped, loaded and started again.
    pub rlc: bool,
    /// The graphics command processor is halted around its uploads.
    pub cp: bool,
    /// The compute micro-engine is halted around its uploads.
    pub mec: bool,
    /// Each SDMA engine is halted, loaded and released.
    pub sdma0: bool,
    pub sdma1: bool,
}

fn nonempty_image(w: Option<usize>) -> (b: bool)
    ensures
        b == has_words(w),
{
    match w {
        Some(n) => n > 0,
        None => false,
    }
}

/// The engines a load programs: the RLC and each SDMA engine only for a
/// non-empty image; the command processor when any of its three images was
/// found, the compute engine when either of its two was.
pub fn firmware_plan(found: [Option<usize>; 8]) -> (p: FwPlan)
    ensures
        p.rlc == has_words(found[0]),
        p.cp == (found[1] is Some || found[2] is Some || found[3] is Some),
        p.mec == (found[4] is Some || found[5] is Some),
        p.sdma0 == has_words(found[6]),
        p.sdma1 == has_words(found[7]),
{
    FwPlan {
        rlc: nonempty_image(found[0]),
        cp: found[1].is_some() || found[2].is_some() || found[3].is_some(),
        mec: found[4].is_some() || found[5].is_some(),
        sdma0: nonempty_image(found[6]),
        sdma1: nonempty_image(found[7]),
    }
}

} // verus!
