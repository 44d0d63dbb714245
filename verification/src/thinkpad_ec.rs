//! ThinkPad embedded controller and CPU power-state registers: which
//! registers are read or written and how their values are decoded.  The
//! port and MSR accesses themselves are handed in by the caller.
use vstd::prelude::*;

verus! {

/// EC register holding the fan level.
pub const EC_FAN_LEVEL: u8 = 0x2F;
/// EC registers holding the fan speed (high and low byte).
pub const EC_FAN_RPM_HI: u8 = 0x84;
pub const EC_FAN_RPM_LO: u8 = 0x85;
/// First of the eight EC temperature registers.
pub const EC_TEMP_BASE: u8 = 0x78;
/// Number of temperature sensors.
pub const EC_TEMP_SENSORS: usize = 8;

/// MSRs read here.
pub const MSR_PERF_STATUS: u32 = 0x198;
pub const MSR_PERF_CTL: u32 = 0x199;
pub const MSR_MISC_ENABLE: u32 = 0x1A0;
pub const MSR_THERM_STATUS: u32 = 0x19C;
pub const MSR_FSB_FREQ: u32 = 0xCD;
pub const MSR_PLATFORM_INFO: u32 = 0xCE;

/// What the driver remembers: whether an EC answered, and the bus clock
/// once measured (0 until then).
pub struct EcState {
    pub detected: bool,
    pub bus_mhz: u32,
}

/// Whether `read` can have answered `v` for register `reg`.
pub open spec fn ec_read<R: Fn(u8) -> Option<u8>>(read: R, reg: u8, v: Option<u8>) -> bool {
    call_ensures(read, (reg,), v)
}

/// Looks for the EC: it is present when the CPU temperature register reads
/// a plausible 10 to 120 degrees.  A positive answer is remembered.
pub fn probe<R: Fn(u8) -> Option<u8>>(st: &mut EcState, read: R) -> (b: bool)
    requires
        call_requires(read, (EC_TEMP_BASE,)),
    ensures
        exists|v: Option<u8>|
            ec_read(read, EC_TEMP_BASE, v) && b == (v is Some && 10 <= v->Some_0 <= 120),
        final(st).detected == (old(st).detected || b),
        final(st).bus_mhz == old(st).bus_mhz,
{
    let v = read(EC_TEMP_BASE);
    let b = match v {
        Some(ts) => ts >= 10 && ts <= 120,
        None => false,
    };
    if b {
        st.detected = true;
    }
    assert(ec_read(read, EC_TEMP_BASE, v));
    b
}

/// Whether an EC was detected.
pub fn sw(st: &EcState) -> (b: bool)
    ensures
        b == st.detected,
{
    st.detected
}

/// Fan control settings: a fixed level 0..7, automatic, or full speed.
#[derive(Clone, Copy, Debug, PartialEq, Eq, Structural)]
pub enum FanLevel {
    Gp(u8),
    Auto,
    FullSpeed,
}

/// Byte written to the fan register for a setting; `None` for a level
/// above 7.
pub open spec fn fan_code(level: FanLevel) -> Option<u8> {
    match level {
        FanLevel::Gp(l) => if l > 7 { None } else { Some(l) },
        FanLevel::Auto => Some(0x80u8),
        FanLevel::FullSpeed => Some(0x40u8),
    }
}

/// Current fan register.
pub fn luh<R: Fn(u8) -> Option<u8>>(read: R) -> (r: Option<u8>)
    requires
        call_requires(read, (EC_FAN_LEVEL,)),
    ensures
        ec_read(read, EC_FAN_LEVEL, r),
{
    read(EC_FAN_LEVEL)
}

/// The EC write that sets the fan: its level register and the setting's
/// code; `None` (refused, nothing written) for an invalid level. The
/// result reported is that of the write.
pub fn eme(level: FanLevel) -> (w: Option<(u8, u8)>)
    ensures
        w == (match fan_code(level) {
            Some(code) => Some((EC_FAN_LEVEL, code)),
            None => None,
        }),
{
    let val: u8 = match level {
        FanLevel::Gp(l) => {
            if l > 7 {
                return None;
            }
            l
        },
        FanLevel::Auto => 0x80,
        FanLevel::FullSpeed => 0x40,
    };
    Some((EC_FAN_LEVEL, val))
}

/// Fan speed in RPM from the two speed registers (high byte first); `None`
/// when either read fails.
pub fn fwf<R: Fn(u8) -> Option<u8>>(read: R) -> (r: Option<u16>)
    requires
        call_requires(read, (EC_FAN_RPM_HI,)),
        call_requires(read, (EC_FAN_RPM_LO,)),
    ensures
        exists|hi: Option<u8>|
            ec_read(read, EC_FAN_RPM_HI, hi) && (hi is None ==> r is None) && (hi is Some ==> exists|
                lo: Option<u8>|
                ec_read(read, EC_FAN_RPM_LO, lo) && (lo is None ==> r is None) && (lo is Some ==> r
                    == Some((hi->Some_0 as int * 256 + lo->Some_0 as int) as u16))),
{
    let hi = read(EC_FAN_RPM_HI);
    assert(ec_read(read, EC_FAN_RPM_HI, hi));
    match hi {
        None => None,
        Some(h) => {
            let lo = read(EC_FAN_RPM_LO);
            assert(ec_read(read, EC_FAN_RPM_LO, lo));
            match lo {
                None => None,
                Some(l) => Some((h as u16) * 256 + l as u16),
            }
        },
    }
}

/// Temperature of sensor `sensor` in degrees; `None` for an unknown sensor,
/// a failed read, or a reading of 0 or of 128 and above (no sensor).
pub fn pdu<R: Fn(u8) -> Option<u8>>(sensor: usize, read: R) -> (r: Option<u8>)
    requires
        forall|k: u8| call_requires(read, (k,)),
    ensures
        sensor >= EC_TEMP_SENSORS ==> r is None,
        sensor < EC_TEMP_SENSORS ==> exists|v: Option<u8>|
            #[trigger] ec_read(read, (EC_TEMP_BASE + sensor) as u8, v) && r == match v {
                Some(t) => if t == 0 || t >= 128 { None } else { Some(t) },
                None => None,
            },
{
    if sensor >= EC_TEMP_SENSORS {
        return None;
    }
    let v = read(EC_TEMP_BASE + sensor as u8);
    assert(ec_read(read, (EC_TEMP_BASE + sensor) as u8, v));
    match v {
        Some(t) => if t == 0 || t >= 128 {
            None
        } else {
            Some(t)
        },
        None => None,
    }
}

pub open spec fn sensor_name(sensor: int) -> &'static str {
    if sensor == 0 {
        "CPU"
    } else if sensor == 1 {
        "miniPCI"
    } else if sensor == 2 {
        "HDD"
    } else if sensor == 3 {
        "GPU"
    } else if sensor == 4 {
        "Battery"
    } else if sensor == 5 {
        "Sensor 5"
    } else if sensor == 6 {
        "Sensor 6"
    } else if sensor == 7 {
        "Sensor 7"
    } else {
        "Unknown"
    }
}

/// Name of a temperature sensor.
pub fn pdr(sensor: usize) -> (s: &'static str)
    ensures
        s == sensor_name(sensor as int),
{
    match sensor {
        0 => "CPU",
        1 => "miniPCI",
        2 => "HDD",
        3 => "GPU",
        4 => "Battery",
        5 => "Sensor 5",
        6 => "Sensor 6",
        7 => "Sensor 7",
        _ => "Unknown",
    }
}

/// Bus clock in MHz encoded in the low three bits of the FSB frequency MSR.
pub open spec fn fsb_mhz(v: u64) -> u32 {
    let code = v % 8;
    if code == 5 {
        100
    } else if code == 1 {
        133
    } else if code == 3 {
        167
    } else if code == 2 {
        200
    } else if code == 0 {
        267
    } else if code == 4 {
        333
    } else {
        200
    }
}

/// Bus clock: from the FSB MSR when it can be read; else from CPUID leaf
/// 0x16 (ECX bits 0..16) when the CPU has that leaf and it is non-zero;
/// else 100 MHz.
pub open spec fn bus_clock(fsb: Option<u64>, max_leaf: u32, leaf16_ecx: u32) -> u32 {
    match fsb {
        Some(v) => fsb_mhz(v),
        None => if max_leaf >= 0x16 && leaf16_ecx % 0x10000 > 0 {
            (leaf16_ecx % 0x10000) as u32
        } else {
            100
        },
    }
}

/// Bus clock in MHz, measured once and remembered.
pub fn dmy(st: &mut EcState, fsb: Option<u64>, max_leaf: u32, leaf16_ecx: u32) -> (mhz: u32)
    ensures
        old(st).bus_mhz != 0 ==> mhz == old(st).bus_mhz,
        old(st).bus_mhz == 0 ==> mhz == bus_clock(fsb, max_leaf, leaf16_ecx),
        final(st).bus_mhz == mhz,
        final(st).detected == old(st).detected,
        mhz <= 0xFFFF || mhz == old(st).bus_mhz,
{
    if st.bus_mhz != 0 {
        return st.bus_mhz;
    }
    let mhz: u32 = match fsb {
        Some(v) => {
            let code = v % 8;
            if code == 5 {
                100
            } else if code == 1 {
                133
            } else if code == 3 {
                167
            } else if code == 2 {
                200
            } else if code == 0 {
                267
            } else if code == 4 {
                333
            } else {
                200
            }
        },
        None => {
            if max_leaf >= 0x16 && leaf16_ecx % 0x10000 > 0 {
                leaf16_ecx % 0x10000
            } else {
                100
            }
        },
    };
    st.bus_mhz = mhz;
    mhz
}

/// Whether `rdmsr` can have answered `v` for MSR `msr`.
pub open spec fn msr_read<R: Fn(u32) -> Option<u64>>(rdmsr: R, msr: u32, v: Option<u64>) -> bool {
    call_ensures(rdmsr, (msr,), v)
}

/// Current frequency (ratio times `bus_mhz`) and voltage (712 + 12 per
/// VID step in mV, 0 for VID 0) from PERF_STATUS; `None` when it cannot be
/// read.
pub fn fou<R: Fn(u32) -> Option<u64>>(rdmsr: R, bus_mhz: u32) -> (r: Option<(u32, u32)>)
    requires
        call_requires(rdmsr, (MSR_PERF_STATUS,)),
        bus_mhz <= 0xFFFF,
    ensures
        exists|v: Option<u64>|
            msr_read(rdmsr, MSR_PERF_STATUS, v) && r == match v {
                None => None,
                Some(x) => {
                    let fid = (x / 0x100) % 0x100;
                    let vid = x % 0x100;
                    Some(((fid * bus_mhz) as u32, if vid > 0 { (712 + vid * 12) as u32 } else { 0u32 }))
                },
            },
{
    let v = rdmsr(MSR_PERF_STATUS);
    assert(msr_read(rdmsr, MSR_PERF_STATUS, v));
    match v {
        None => None,
        Some(x) => {
            let fid = ((x / 0x100) % 0x100) as u32;
            let vid = (x % 0x100) as u32;
            assert(fid * bus_mhz <= 0xFF * 0xFFFF) by (nonlinear_arith)
                requires
                    fid <= 0xFF,
                    bus_mhz <= 0xFFFF,
            ;
            let freq = fid * bus_mhz;
            let mv = if vid > 0 { 712 + vid * 12 } else { 0 };
            Some((freq, mv))
        },
    }
}

/// Requested performance state (PERF_CTL bits 0..16).
pub fn hoi<R: Fn(u32) -> Option<u64>>(rdmsr: R) -> (r: Option<u16>)
    requires
        call_requires(rdmsr, (MSR_PERF_CTL,)),
    ensures
        exists|v: Option<u64>|
            msr_read(rdmsr, MSR_PERF_CTL, v) && r == match v {
                None => None,
                Some(x) => Some((x % 0x10000) as u16),
            },
{
    let v = rdmsr(MSR_PERF_CTL);
    assert(msr_read(rdmsr, MSR_PERF_CTL, v));
    match v {
        None => None,
        Some(x) => Some((x % 0x10000) as u16),
    }
}

/// The MSR write that requests ratio `fid` at voltage step `vid`:
/// `fid << 8 | vid` to PERF_CTL (the request is then reported made).
pub fn eja(fid: u8, vid: u8) -> (w: (u32, u64))
    ensures
        w == (MSR_PERF_CTL, (fid as u64 * 256 + vid as u64) as u64),
{
    (MSR_PERF_CTL, (fid as u64) * 256 + vid as u64)
}

/// Whether SpeedStep is enabled (MISC_ENABLE bit 16).
pub fn hvg<R: Fn(u32) -> Option<u64>>(rdmsr: R) -> (r: Option<bool>)
    requires
        call_requires(rdmsr, (MSR_MISC_ENABLE,)),
    ensures
        exists|v: Option<u64>|
            msr_read(rdmsr, MSR_MISC_ENABLE, v) && r == match v {
                None => None,
                Some(x) => Some((x / 0x1_0000) % 2 == 1),
            },
{
    let v = rdmsr(MSR_MISC_ENABLE);
    assert(msr_read(rdmsr, MSR_MISC_ENABLE, v));
    match v {
        None => None,
        Some(x) => Some((x / 0x1_0000) % 2 == 1),
    }
}

/// Thermal status: whether the reading is valid (bit 31) and the distance
/// to the throttle temperature in degrees (bits 16..23).
pub fn foy<R: Fn(u32) -> Option<u64>>(rdmsr: R) -> (r: Option<(bool, u8)>)
    requires
        call_requires(rdmsr, (MSR_THERM_STATUS,)),
    ensures
        exists|v: Option<u64>|
            msr_read(rdmsr, MSR_THERM_STATUS, v) && r == match v {
                None => None,
                Some(x) => Some(((x / 0x8000_0000) % 2 == 1, ((x / 0x1_0000) % 0x80) as u8)),
            },
{
    let v = rdmsr(MSR_THERM_STATUS);
    assert(msr_read(rdmsr, MSR_THERM_STATUS, v));
    match v {
        None => None,
        Some(x) => Some(((x / 0x8000_0000) % 2 == 1, ((x / 0x1_0000) % 0x80) as u8)),
    }
}

/// Highest ratio: PERF_STATUS bits 40..45 when non-zero, else the maximum
/// non-turbo ratio of PLATFORM_INFO (bits 8..16) when it reads and is
/// non-zero, else the current ratio (PERF_STATUS bits 8..16) when
/// non-zero; `None` when PERF_STATUS cannot be read or all are zero.
pub fn frx<R: Fn(u32) -> Option<u64>>(rdmsr: R) -> (r: Option<u8>)
    requires
        call_requires(rdmsr, (MSR_PERF_STATUS,)),
        call_requires(rdmsr, (MSR_PLATFORM_INFO,)),
    ensures
        exists|v: Option<u64>|
            msr_read(rdmsr, MSR_PERF_STATUS, v) && (v is None ==> r is None) && (v is Some ==> {
                let x = v->Some_0;
                let top = (x / 0x100_0000_0000) % 0x20;
                let cur = (x / 0x100) % 0x100;
                if top > 0 {
                    r == Some(top as u8)
                } else {
                    exists|p: Option<u64>|
                        msr_read(rdmsr, MSR_PLATFORM_INFO, p) && r == if p is Some && (p->Some_0
                            / 0x100) % 0x100 > 0 {
                            Some(((p->Some_0 / 0x100) % 0x100) as u8)
                        } else if cur > 0 {
                            Some(cur as u8)
                        } else {
                            None
                        }
                }
            }),
{
    let v = rdmsr(MSR_PERF_STATUS);
    assert(msr_read(rdmsr, MSR_PERF_STATUS, v));
    let x = match v {
        None => {
            return None;
        },
        Some(x) => x,
    };
    let top = ((x / 0x100_0000_0000) % 0x20) as u8;
    if top > 0 {
        return Some(top);
    }
    let p = rdmsr(MSR_PLATFORM_INFO);
    assert(msr_read(rdmsr, MSR_PLATFORM_INFO, p));
    match p {
        Some(plat) => {
            let nt = ((plat / 0x100) % 0x100) as u8;
            if nt > 0 {
                return Some(nt);
            }
        },
        None => {},
    }
    let cur = ((x / 0x100) % 0x100) as u8;
    if cur > 0 {
        Some(cur)
    } else {
        None
    }
}

/// Lowest ratio: PLATFORM_INFO bits 40..48 when it reads and is non-zero,
/// else 6.
pub fn fry<R: Fn(u32) -> Option<u64>>(rdmsr: R) -> (r: Option<u8>)
    requires
        call_requires(rdmsr, (MSR_PLATFORM_INFO,)),
    ensures
        exists|p: Option<u64>|
            msr_read(rdmsr, MSR_PLATFORM_INFO, p) && r == if p is Some && (p->Some_0 / 0x100_0000_0000)
                % 0x100 > 0 {
                Some(((p->Some_0 / 0x100_0000_0000) % 0x100) as u8)
            } else {
                Some(6u8)
            },
{
    let p = rdmsr(MSR_PLATFORM_INFO);
    assert(msr_read(rdmsr, MSR_PLATFORM_INFO, p));
    match p {
        Some(plat) => {
            let lo = ((plat / 0x100_0000_0000) % 0x100) as u8;
            if lo > 0 {
                return Some(lo);
            }
        },
        None => {},
    }
    Some(6)
}


/// Whether `s` is `w`, character by character.
fn is_word(s: &str, w: &str) -> (b: bool)
    ensures
        b == (s@ == w@),
{
    let n = s.unicode_len();
    let m = w.unicode_len();
    if n != m {
        return false;
    }
    let mut i: usize = 0;
    while i < n
        invariant
            i <= n,
            n == s@.len(),
            m == w@.len(),
            n == m,
            forall|k: int| 0 <= k < i ==> s@[k] == w@[k],
        decreases n - i,
    {
        if s.get_char(i) != w.get_char(i) {
            return false;
        }
        i = i + 1;
    }
    assert(s@ =~= w@);
    true
}

/// Whether every character of `t` is an ASCII digit.
pub open spec fn all_digits(t: Seq<char>) -> bool {
    forall|i: int| 0 <= i < t.len() ==> '0' <= #[trigger] t[i] <= '9'
}

/// Value of a string of decimal digits.
pub open spec fn digits_value(t: Seq<char>) -> int
    decreases t.len(),
{
    if t.len() == 0 {
        0
    } else {
        digits_value(t.drop_last()) * 10 + (t.last() as int - '0' as int)
    }
}

/// What `str::parse::<u8>` gives for `s`: an optional `+`, then one or
/// more decimal digits whose value is at most 255.
pub open spec fn parse_u8_spec(s: Seq<char>) -> Option<u8> {
    let t = if s.len() > 0 && s[0] == '+' { s.drop_first() } else { s };
    if t.len() > 0 && all_digits(t) && digits_value(t) <= 255 {
        Some(digits_value(t) as u8)
    } else {
        None
    }
}

proof fn lemma_digits_grow(t: Seq<char>, k: int)
    requires
        0 <= k <= t.len(),
        all_digits(t),
    ensures
        digits_value(t.subrange(0, k)) <= digits_value(t),
        0 <= digits_value(t.subrange(0, k)),
    decreases t.len() - k,
{
    if k < t.len() {
        lemma_digits_grow(t, k + 1);
        assert(t.subrange(0, k + 1).drop_last() =~= t.subrange(0, k));
        assert(t.subrange(0, k + 1).last() == t[k]);
    } else {
        assert(t.subrange(0, k) =~= t);
    }
    lemma_digits_nonneg(t.subrange(0, k));
}

proof fn lemma_digits_nonneg(t: Seq<char>)
    requires
        all_digits(t),
    ensures
        0 <= digits_value(t),
    decreases t.len(),
{
    if t.len() > 0 {
        assert(all_digits(t.drop_last())) by {
            assert forall|i: int| 0 <= i < t.drop_last().len() implies '0' <= #[trigger] t.drop_last()[i] <= '9' by {
                assert(t.drop_last()[i] == t[i]);
            }
        }
        lemma_digits_nonneg(t.drop_last());
        assert('0' <= t[t.len() - 1] <= '9');
    }
}

/// A decimal number of at most 255, as `str::parse::<u8>` reads it.
pub fn parse_u8(s: &str) -> (r: Option<u8>)
    ensures
        r == parse_u8_spec(s@),
{
    let n = s.unicode_len();
    let start: usize = if n > 0 && s.get_char(0) == '+' { 1 } else { 0 };
    let ghost t = if s@.len() > 0 && s@[0] == '+' { s@.drop_first() } else { s@ };
    if start == n {
        return None;
    }
    let mut v: u32 = 0;
    let mut i: usize = start;
    while i < n
        invariant
            start <= i <= n,
            n == s@.len(),
            start <= 1,
            t == s@.subrange(start as int, n as int),
            t == (if s@.len() > 0 && s@[0] == '+' { s@.drop_first() } else { s@ }),
            all_digits(s@.subrange(start as int, i as int)),
            v == digits_value(s@.subrange(start as int, i as int)),
            v <= 255,
        decreases n - i,
    {
        let c = s.get_char(i);
        if c < '0' || c > '9' {
            proof {
                assert(t[i - start] == c);
                assert(!all_digits(t));
            }
            return None;
        }
        let ghost prefix = s@.subrange(start as int, i as int);
        let d = (c as u32) - 48;
        v = v * 10 + d;
        i = i + 1;
        proof {
            let now = s@.subrange(start as int, i as int);
            assert(now.drop_last() =~= prefix);
            assert(now.last() == c);
            assert(all_digits(now)) by {
                assert forall|k: int| 0 <= k < now.len() implies '0' <= #[trigger] now[k] <= '9' by {
                    if k < prefix.len() {
                        assert(now[k] == prefix[k]);
                    }
                }
            }
        }
        if v > 255 {
            proof {
                if all_digits(t) {
                    assert(s@.subrange(start as int, i as int) =~= t.subrange(0, (i - start) as int));
                    lemma_digits_grow(t, (i - start) as int);
                }
            }
            return None;
        }
    }
    assert(s@.subrange(start as int, n as int) =~= t);
    Some(v as u8)
}

/// What the `fan` command does with its first argument.
#[derive(Clone, Copy, Debug, PartialEq, Eq, Structural)]
pub enum FanCommand {
    /// Show the fan level and speed.
    Status,
    /// Set the fan.
    Apply(FanLevel),
    /// Turn the fan off, with a warning.
    Off,
    /// A number above 7.
    LevelOutOfRange,
    /// Show how to use the command.
    Usage,
}

pub open spec fn fan_command_spec(arg: Option<Seq<char>>) -> FanCommand {
    match arg {
        None => FanCommand::Status,
        Some(a) => if a == "status"@ {
            FanCommand::Status
        } else if a == "auto"@ {
            FanCommand::Apply(FanLevel::Auto)
        } else if a == "max"@ || a == "full"@ {
            FanCommand::Apply(FanLevel::FullSpeed)
        } else if a == "off"@ || a == "0"@ {
            FanCommand::Off
        } else {
            match parse_u8_spec(a) {
                Some(l) => if l <= 7 { FanCommand::Apply(FanLevel::Gp(l)) } else { FanCommand::LevelOutOfRange },
                None => FanCommand::Usage,
            }
        },
    }
}

/// Reads the `fan` command's argument.
pub fn fan_command(arg: Option<&str>) -> (c: FanCommand)
    ensures
        c == fan_command_spec(match arg { Some(a) => Some(a@), None => None }),
{
    match arg {
        None => FanCommand::Status,
        Some(a) => {
            if is_word(a, "status") {
                FanCommand::Status
            } else if is_word(a, "auto") {
                FanCommand::Apply(FanLevel::Auto)
            } else if is_word(a, "max") || is_word(a, "full") {
                FanCommand::Apply(FanLevel::FullSpeed)
            } else if is_word(a, "off") || is_word(a, "0") {
                FanCommand::Off
            } else {
                match parse_u8(a) {
                    Some(l) => if l <= 7 { FanCommand::Apply(FanLevel::Gp(l)) } else { FanCommand::LevelOutOfRange },
                    None => FanCommand::Usage,
                }
            }
        },
    }
}

pub open spec fn fan_level_text(level: u8) -> &'static str {
    if level == 0x80 {
        "auto (EC controlled)"
    } else if level == 0x40 {
        "DISENGAGED (full speed)"
    } else if level == 0 {
        "0 (off)"
    } else if level == 1 {
        "1 (lowest)"
    } else if level == 2 {
        "2"
    } else if level == 3 {
        "3"
    } else if level == 4 {
        "4"
    } else if level == 5 {
        "5"
    } else if level == 6 {
        "6"
    } else if level == 7 {
        "7 (highest manual)"
    } else {
        "unknown"
    }
}

/// How the fan register's value reads.
pub fn fan_level_desc(level: u8) -> (s: &'static str)
    ensures
        s == fan_level_text(level),
{
    match level {
        0x80 => "auto (EC controlled)",
        0x40 => "DISENGAGED (full speed)",
        0 => "0 (off)",
        1 => "1 (lowest)",
        2 => "2",
        3 => "3",
        4 => "4",
        5 => "5",
        6 => "6",
        7 => "7 (highest manual)",
        _ => "unknown",
    }
}

/// How hot a reading is: 90 degrees and above hot, 70 and above warm.
#[derive(Clone, Copy, Debug, PartialEq, Eq, Structural)]
pub enum Heat {
    Normal,
    Warm,
    Hot,
}

pub fn heat(t: u8) -> (h: Heat)
    ensures
        h == (if t >= 90 { Heat::Hot } else if t >= 70 { Heat::Warm } else { Heat::Normal }),
{
    if t >= 90 {
        Heat::Hot
    } else if t >= 70 {
        Heat::Warm
    } else {
        Heat::Normal
    }
}

/// CPU temperature from the thermal margin, for a maximum of 100 degrees
/// (0 when the margin is larger).
pub fn dts_temperature(margin: u8) -> (t: u8)
    ensures
        t == (if margin <= 100 { 100 - margin } else { 0 }),
{
    100u8.saturating_sub(margin)
}

/// Ratios listed between the highest and the lowest: from the highest down
/// by two, the last step clamped to the lowest; nothing when the highest is
/// 0 or below the lowest.
pub open spec fn pstate_seq(fid: int, min: int) -> Seq<u8>
    decreases fid,
{
    if fid < min || fid <= 0 {
        Seq::empty()
    } else if fid <= min {
        seq![fid as u8]
    } else {
        let n = if fid - 2 < 0 { 0 } else { fid - 2 };
        let n2 = if n < min { min } else { n };
        seq![fid as u8] + pstate_seq(n2, min)
    }
}

pub fn pstate_steps(max_fid: u8, min_fid: u8) -> (v: Vec<u8>)
    ensures
        v@ == pstate_seq(max_fid as int, min_fid as int),
{
    let mut v: Vec<u8> = Vec::new();
    let mut fid = max_fid;
    while fid >= min_fid && fid > 0
        invariant_except_break
            v@ + pstate_seq(fid as int, min_fid as int) == pstate_seq(max_fid as int, min_fid as int),
        ensures
            v@ == pstate_seq(max_fid as int, min_fid as int),
        decreases fid,
    {
        let ghost before = v@;
        v.push(fid);
        if fid <= min_fid {
            assert(v@ =~= before + pstate_seq(fid as int, min_fid as int));
            break;
        }
        let ghost old_fid = fid;
        fid = fid.saturating_sub(2);
        if fid < min_fid {
            fid = min_fid;
        }
        assert(v@ + pstate_seq(fid as int, min_fid as int) =~= before + pstate_seq(old_fid as int, min_fid as int));
    }
    assert(v@ + Seq::<u8>::empty() =~= v@);
    v
}

/// What the `cpufreq` command does with its arguments.
#[derive(Clone, Copy, Debug, PartialEq, Eq, Structural)]
pub enum CpuCommand {
    Status,
    /// Request ratio and voltage step.
    Request(u8, u8),
    /// `set` without both numbers.
    SetUsage,
    InvalidFid,
    InvalidVid,
    Max,
    Min,
    Usage,
}

pub open spec fn cpu_command_spec(args: Seq<Seq<char>>) -> CpuCommand {
    if args.len() == 0 || args[0] == "status"@ {
        CpuCommand::Status
    } else if args[0] == "set"@ {
        if args.len() < 3 {
            CpuCommand::SetUsage
        } else {
            match parse_u8_spec(args[1]) {
                None => CpuCommand::InvalidFid,
                Some(f) => match parse_u8_spec(args[2]) {
                    None => CpuCommand::InvalidVid,
                    Some(v) => CpuCommand::Request(f, v),
                },
            }
        }
    } else if args[0] == "max"@ {
        CpuCommand::Max
    } else if args[0] == "min"@ || args[0] == "powersave"@ {
        CpuCommand::Min
    } else {
        CpuCommand::Usage
    }
}

pub open spec fn str_views(args: Seq<&str>) -> Seq<Seq<char>> {
    args.map_values(|a: &str| a@)
}

/// Reads the `cpufreq` command's arguments.
pub fn cpu_command(args: &[&str]) -> (c: CpuCommand)
    ensures
        c == cpu_command_spec(str_views(args@)),
{
    let n = args.len();
    let ghost vs = str_views(args@);
    if n == 0 || is_word(args[0], "status") {
        return CpuCommand::Status;
    }
    if is_word(args[0], "set") {
        if n < 3 {
            return CpuCommand::SetUsage;
        }
        let f = match parse_u8(args[1]) {
            Some(f) => f,
            None => {
                return CpuCommand::InvalidFid;
            },
        };
        return match parse_u8(args[2]) {
            Some(v) => CpuCommand::Request(f, v),
            None => CpuCommand::InvalidVid,
        };
    }
    if is_word(args[0], "max") {
        return CpuCommand::Max;
    }
    if is_word(args[0], "min") || is_word(args[0], "powersave") {
        return CpuCommand::Min;
    }
    CpuCommand::Usage
}

/// A voltage in millivolts as volts with three decimals ("1.156 V").
pub open spec fn voltage_text(mv: u32) -> Seq<char> {
    let f = mv % 1000;
    crate::util::decimal((mv / 1000) as nat) + "."@ + seq![
        ((f / 100 + 48) as u8) as char,
        (((f / 10) % 10 + 48) as u8) as char,
        ((f % 10 + 48) as u8) as char,
    ] + " V"@
}

pub fn voltage_string(mv: u32) -> (s: String)
    ensures
        s@ == voltage_text(mv),
{
    let mut out: Vec<char> = Vec::new();
    crate::util::push_decimal(&mut out, (mv / 1000) as u64);
    crate::util::push_text(&mut out, ".");
    let f = mv % 1000;
    out.push(((f / 100) as u8 + 48) as char);
    out.push((((f / 10) % 10) as u8 + 48) as char);
    out.push(((f % 10) as u8 + 48) as char);
    crate::util::push_text(&mut out, " V");
    crate::util::chars_to_string(out)
}

/// Fan command law: "max" and "full" are the same command, setting full
/// speed, whose EC code is the disengaged 0x40; "auto" hands the fan to
/// the EC (0x80); "status" and no argument show the state; "off" and "0"
/// turn it off; each single digit 1 to 7 sets that level, 8 and 9 are out
/// of range; none of these documented arguments falls through to the usage
/// text.
pub proof fn law_fan_command_keywords(d: u8)
    ensures
        fan_command_spec(Some("max"@)) == fan_command_spec(Some("full"@)),
        fan_command_spec(Some("max"@)) == FanCommand::Apply(FanLevel::FullSpeed),
        fan_code(FanLevel::FullSpeed) == Some(0x40u8),
        fan_command_spec(Some("auto"@)) == FanCommand::Apply(FanLevel::Auto),
        fan_code(FanLevel::Auto) == Some(0x80u8),
        fan_command_spec(Some("status"@)) == fan_command_spec(None),
        fan_command_spec(None) == FanCommand::Status,
        fan_command_spec(Some("off"@)) == fan_command_spec(Some("0"@)),
        fan_command_spec(Some("off"@)) == FanCommand::Off,
        1 <= d <= 7 ==> fan_command_spec(Some(seq![(0x30 + d) as char])) == FanCommand::Apply(FanLevel::Gp(d)),
        1 <= d <= 7 ==> fan_code(FanLevel::Gp(d)) == Some(d),
        8 <= d <= 9 ==> fan_command_spec(Some(seq![(0x30 + d) as char])) == FanCommand::LevelOutOfRange,
{
    reveal_strlit("max");
    reveal_strlit("full");
    reveal_strlit("auto");
    reveal_strlit("status");
    reveal_strlit("off");
    reveal_strlit("0");
    if 1 <= d <= 9 {
        let t = seq![(0x30 + d) as char];
        assert(t != "status"@ && t != "auto"@ && t != "max"@ && t != "full"@ && t != "off"@);
        assert(t[0] != '0');
        assert(t != "0"@);
        assert(all_digits(t));
        assert(t.drop_last() =~= Seq::<char>::empty());
        assert(digits_value(t.drop_last()) == 0);
        assert(t.last() as int == 0x30 + d);
        assert('0' as int == 0x30);
        assert(digits_value(t) == d as int);
        assert(parse_u8_spec(t) == Some(d));
    }
}

} // verus!
