//! Apple silicon peripherals: the interrupt controller's IRQ table and the
//! serial ports' bookkeeping, byte streams and status.
use vstd::prelude::*;
use crate::util::{decimal, push_decimal, push_text, chars_to_string};

verus! {

/// Configuration of one interrupt line (the handler itself is kept by the
/// dispatcher; here only whether one is registered).
#[derive(Clone, Copy, Debug)]
pub struct IrqConfig {
    pub has_handler: bool,
    pub target_cpu: u8,
    pub enabled: bool,
    pub count: u64,
    pub name: &'static str,
}

/// Interrupt lines in the table.
pub const AIC_MAX_IRQS: usize = 1024;

/// Interrupt controller state.
pub struct Wi {
    pub base: u64,
    pub num_irqs: u32,
    pub version: u32,
    pub num_cpus: u32,
    pub irqs: Vec<IrqConfig>,
    pub total_irqs: u64,
    pub total_ipis: u64,
    pub initialized: bool,
}

impl Wi {
    /// The table has its 1024 lines and the controller reports no more.
    pub open spec fn wf(&self) -> bool {
        self.irqs@.len() == AIC_MAX_IRQS && self.num_irqs <= AIC_MAX_IRQS
    }
}

/// Registers a handler name for an interrupt line.
pub fn qtl(aic: &mut Option<Wi>, irq: u32, name: &'static str) -> (r: Result<(), &'static str>)
    requires
        (*old(aic)) is Some ==> old(aic)->Some_0.wf(),
    ensures
        (*old(aic)) is None ==> r == Err::<(), &'static str>("AIC not initialized") && (*final(aic)) is None,
        (*old(aic)) is Some ==> {
            let a = old(aic)->Some_0;
            let b = final(aic)->Some_0;
            &&& (*final(aic)) is Some && b.wf()
            &&& irq >= a.num_irqs ==> r == Err::<(), &'static str>("IRQ number out of range") && b.irqs@ == a.irqs@
            &&& irq < a.num_irqs ==> r is Ok && b.irqs@ == a.irqs@.update(
                irq as int,
                IrqConfig { has_handler: true, name: name, ..a.irqs@[irq as int] },
            )
            &&& b.num_irqs == a.num_irqs
        },
{
    match aic {
        None => Err("AIC not initialized"),
        Some(a) => {
            if irq >= a.num_irqs {
                return Err("IRQ number out of range");
            }
            let mut c = a.irqs[irq as usize];
            c.has_handler = true;
            c.name = name;
            a.irqs.set(irq as usize, c);
            Ok(())
        },
    }
}

/// Whether the controller is up.
pub fn is_initialized(aic: &Option<Wi>) -> (b: bool)
    ensures
        b == match aic {
            Some(a) => a.initialized,
            None => false,
        },
{
    match aic {
        Some(a) => a.initialized,
        None => false,
    }
}

/// Number of enabled lines among the first `n`.
pub open spec fn enabled_count(irqs: Seq<IrqConfig>, n: int) -> nat
    decreases n,
{
    if n <= 0 {
        0
    } else {
        enabled_count(irqs, n - 1) + if irqs[n - 1].enabled { 1nat } else { 0nat }
    }
}

fn count_enabled(irqs: &Vec<IrqConfig>, n: u32) -> (c: u64)
    requires
        n <= irqs@.len(),
    ensures
        c == enabled_count(irqs@, n as int),
{
    let mut c: u64 = 0;
    let mut i: u32 = 0;
    while i < n
        invariant
            i <= n <= irqs@.len(),
            c == enabled_count(irqs@, i as int),
            c <= i,
        decreases n - i,
    {
        if irqs[i as usize].enabled {
            c = c + 1;
        }
        i = i + 1;
    }
    c
}

pub open spec fn jis_spec(aic: Option<Wi>) -> Seq<char> {
    match aic {
        None => "AIC: not initialized"@,
        Some(aic) => "AIC v"@ + decimal((aic.version as int + 1) as nat) + " @ "@ + "0x"@ + crate::util::hex_lower((aic.base) as nat) + ": "@ + decimal((aic.num_irqs) as nat) + " IRQs ("@ + decimal((enabled_count(aic.irqs@, aic.num_irqs as int)) as nat) + " enabled), "@ + decimal((aic.total_irqs) as nat) + " total handled, "@ + decimal((aic.total_ipis) as nat) + " IPIs"@,
    }
}

/// One-line state of the interrupt controller.
pub fn jis(aic_state: &Option<Wi>) -> (s: String)
    requires
        (*aic_state) is Some ==> aic_state->Some_0.wf(),
    ensures
        s@ == jis_spec(*aic_state),
{
    match aic_state {
        None => String::from_str("AIC: not initialized"),
        Some(aic) => {
            let mut out: Vec<char> = Vec::new();
            push_text(&mut out, "AIC v");
            push_decimal(&mut out, (aic.version as u64 + 1) as u64);
            push_text(&mut out, " @ ");
            push_text(&mut out, "0x");
            crate::util::push_hex_lower(&mut out, (aic.base) as u64);
            push_text(&mut out, ": ");
            push_decimal(&mut out, (aic.num_irqs) as u64);
            push_text(&mut out, " IRQs (");
            push_decimal(&mut out, (count_enabled(&aic.irqs, aic.num_irqs)) as u64);
            push_text(&mut out, " enabled), ");
            push_decimal(&mut out, (aic.total_irqs) as u64);
            push_text(&mut out, " total handled, ");
            push_decimal(&mut out, (aic.total_ipis) as u64);
            push_text(&mut out, " IPIs");
            chars_to_string(out)
        },
    }
}

/// Lines with a handler or enabled, up to `n`: (line, name, enabled, count).
pub open spec fn active_lines(irqs: Seq<IrqConfig>, n: int) -> Seq<(u32, &'static str, bool, u64)>
    decreases n,
{
    if n <= 0 {
        Seq::empty()
    } else {
        let prev = active_lines(irqs, n - 1);
        let c = irqs[n - 1];
        if c.has_handler || c.enabled {
            prev.push(((n - 1) as u32, c.name, c.enabled, c.count))
        } else {
            prev
        }
    }
}

/// The lines in use.
pub fn qnn(aic_state: &Option<Wi>) -> (v: Vec<(u32, &'static str, bool, u64)>)
    requires
        (*aic_state) is Some ==> aic_state->Some_0.wf(),
    ensures
        match aic_state {
            None => v@.len() == 0,
            Some(a) => v@ == active_lines(a.irqs@, a.num_irqs as int),
        },
{
    let mut v: Vec<(u32, &'static str, bool, u64)> = Vec::new();
    match aic_state {
        None => v,
        Some(aic) => {
            let mut i: u32 = 0;
            while i < aic.num_irqs
                invariant
                    i <= aic.num_irqs <= aic.irqs@.len(),
                    v@ == active_lines(aic.irqs@, i as int),
                decreases aic.num_irqs - i,
            {
                let c = aic.irqs[i as usize];
                if c.has_handler || c.enabled {
                    v.push((i, c.name, c.enabled, c.count));
                }
                i = i + 1;
            }
            v
        },
    }
}

/// A serial port.
#[derive(Clone, Copy, Debug)]
pub struct Wj {
    pub base: u64,
    pub index: u8,
    pub baud_rate: u32,
    pub ref_clock: u32,
    pub tx_count: u64,
    pub rx_count: u64,
    pub initialized: bool,
}

/// Bytes sent for a string: each line feed preceded by a carriage return.
pub open spec fn crlf(s: Seq<u8>) -> Seq<u8>
    decreases s.len(),
{
    if s.len() == 0 {
        Seq::<u8>::empty()
    } else {
        crlf(s.drop_last()) + if s.last() == 0x0Au8 { seq![0x0Du8, 0x0Au8] } else { seq![s.last()] }
    }
}

/// The bytes that writing `s` to a UART sends, in order: the bytes of
/// `s`, each line feed preceded by a carriage return.
pub fn write_str(s: &[u8]) -> (v: Vec<u8>)
    ensures
        v@ == crlf(s@),
{
    let mut v: Vec<u8> = Vec::new();
    let mut i: usize = 0;
    while i < s.len()
        invariant
            i <= s@.len(),
            v@ == crlf(s@.subrange(0, i as int)),
        decreases s@.len() - i,
    {
        assert(s@.subrange(0, i + 1).drop_last() =~= s@.subrange(0, i as int));
        let ghost before = v@;
        if s[i] == 0x0A {
            v.push(0x0D);
        }
        v.push(s[i]);
        assert(v@ =~= before + if s@[i as int] == 0x0Au8 { seq![0x0Du8, 0x0Au8] } else { seq![s@[i as int]] });
        i = i + 1;
    }
    assert(s@.subrange(0, s@.len() as int) =~= s@);
    v
}

/// Reads into `buf` from port `index` until it is full or `read_byte`
/// has nothing; returns the number of bytes read.
pub fn qrv<R: Fn(u8) -> Option<u8>>(index: u8, buf: &mut [u8], read_byte: R) -> (n: usize)
    requires
        call_requires(read_byte, (index,)),
    ensures
        n <= old(buf)@.len(),
        final(buf)@.len() == old(buf)@.len(),
        forall|i: int| n <= i < old(buf)@.len() ==> #[trigger] final(buf)@[i] == old(buf)@[i],
        forall|i: int| 0 <= i < n ==> call_ensures(read_byte, (index,), Some(#[trigger] final(buf)@[i])),
        n < old(buf)@.len() ==> call_ensures(read_byte, (index,), None::<u8>),
{
    let mut count: usize = 0;
    let len = buf.len();
    while count < len
        invariant
            count <= len == old(buf)@.len(),
            buf@.len() == len,
            call_requires(read_byte, (index,)),
            forall|i: int| count <= i < len ==> #[trigger] buf@[i] == old(buf)@[i],
            forall|i: int| 0 <= i < count ==> call_ensures(read_byte, (index,), Some(#[trigger] buf@[i])),
        ensures
            count <= len == old(buf)@.len(),
            buf@.len() == len,
            forall|i: int| count <= i < len ==> #[trigger] buf@[i] == old(buf)@[i],
            forall|i: int| 0 <= i < count ==> call_ensures(read_byte, (index,), Some(#[trigger] buf@[i])),
            count < len ==> call_ensures(read_byte, (index,), None::<u8>),
        decreases len - count,
    {
        let r = read_byte(index);
        match r {
            Some(b) => {
                buf[count] = b;
                count = count + 1;
            },
            None => {
                break;
            },
        }
    }
    count
}

pub open spec fn uart_status_spec(u: Wj) -> Seq<char> {
    "UART"@ + decimal((u.index) as nat) + " @ "@ + "0x"@ + crate::util::hex_lower((u.base) as nat) + ": "@ + decimal((u.baud_rate) as nat) + "baud, TX:"@ + decimal((u.tx_count) as nat) + " RX:"@ + decimal((u.rx_count) as nat) + ", clock:"@ + decimal((u.ref_clock / 1_000_000u32) as nat) + "MHz"@
}

/// State of serial port `index`, if it was set up.
pub fn status(ports: &Vec<Option<Wj>>, index: u8) -> (r: Option<String>)
    requires
        index < ports@.len(),
    ensures
        match ports@[index as int] {
            None => r is None,
            Some(u) => r is Some && r->Some_0@ == uart_status_spec(u),
        },
{
    match &ports[index as usize] {
        None => None,
        Some(u) => {
            let mut out: Vec<char> = Vec::new();
            push_text(&mut out, "UART");
            push_decimal(&mut out, (u.index) as u64);
            push_text(&mut out, " @ ");
            push_text(&mut out, "0x");
            crate::util::push_hex_lower(&mut out, (u.base) as u64);
            push_text(&mut out, ": ");
            push_decimal(&mut out, (u.baud_rate) as u64);
            push_text(&mut out, "baud, TX:");
            push_decimal(&mut out, (u.tx_count) as u64);
            push_text(&mut out, " RX:");
            push_decimal(&mut out, (u.rx_count) as u64);
            push_text(&mut out, ", clock:");
            push_decimal(&mut out, (u.ref_clock / 1_000_000) as u64);
            push_text(&mut out, "MHz");
            Some(chars_to_string(out))
        },
    }
}

/// A writer to serial port `index`.
pub struct Afu {
    pub index: u8,
}

impl Afu {
    pub fn new(index: u8) -> (w: Self)
        ensures
            w.index == index,
    {
        Afu { index }
    }
}

/// Baud divisor and fraction for a reference clock: the clock divided by
/// the baud rate gives sixteenths of a bit; the divisor register holds the
/// whole bits less one and the fraction register the sixteenths left.
pub fn uart_divisors(ref_clock: u32, baud: u32) -> (r: (u32, u32))
    requires
        baud > 0,
        ref_clock / baud >= 16,
    ensures
        r.0 == ref_clock / baud / 16 - 1,
        r.1 == ref_clock / baud - (r.0 + 1) * 16,
        r.1 < 16,
{
    let ticks = ref_clock / baud;
    let div = ticks / 16 - 1;
    (div, ticks - (div + 1) * 16)
}

/// A serial port just set up at `base` on `index` (0 to 3) with its
/// counters at zero; refused for an index above 3.
pub fn uart_setup(index: u8, base: u64, ref_clock: u32, baud: u32) -> (r: Result<Wj, &'static str>)
    ensures
        index >= 4 <==> r == Err::<Wj, &'static str>("UART index must be 0-3"),
        r matches Ok(u) ==> u == (Wj { base, index, baud_rate: baud, ref_clock, tx_count: 0, rx_count: 0, initialized: true }),
{
    if index >= 4 {
        return Err("UART index must be 0-3");
    }
    Ok(Wj { base, index, baud_rate: baud, ref_clock, tx_count: 0, rx_count: 0, initialized: true })
}

/// A line as the controller starts: no handler, CPU 0, masked, never taken.
pub open spec fn default_irq() -> IrqConfig {
    IrqConfig { has_handler: false, target_cpu: 0, enabled: false, count: 0, name: "unknown" }
}

/// The controller described by its info register (line count in bits
/// 0..16, version in bits 28..32), with every line at its default;
/// refused when the line count is 0 or above 1024.
pub fn aic_setup(base: u64, info: u32, num_cpus: u32) -> (r: Result<Wi, &'static str>)
    ensures
        (info % 0x10000 == 0 || info % 0x10000 > AIC_MAX_IRQS) <==> r == Err::<Wi, &'static str>(
            "AIC: invalid IRQ count from hardware",
        ),
        r matches Ok(a) ==> {
            &&& a.wf()
            &&& a.base == base && a.num_irqs == info % 0x10000 && a.version == (info / 0x1000_0000) % 16
            &&& a.num_cpus == num_cpus && a.total_irqs == 0 && a.total_ipis == 0 && a.initialized
            &&& forall|i: int| 0 <= i < AIC_MAX_IRQS ==> #[trigger] a.irqs@[i] == default_irq()
        },
{
    let num_irqs = info % 0x10000;
    if num_irqs == 0 || num_irqs as usize > AIC_MAX_IRQS {
        return Err("AIC: invalid IRQ count from hardware");
    }
    let mut irqs: Vec<IrqConfig> = Vec::new();
    let mut i: usize = 0;
    while i < AIC_MAX_IRQS
        invariant
            i <= AIC_MAX_IRQS,
            irqs@.len() == i,
            forall|j: int| 0 <= j < i ==> #[trigger] irqs@[j] == default_irq(),
        decreases AIC_MAX_IRQS - i,
    {
        irqs.push(IrqConfig { has_handler: false, target_cpu: 0, enabled: false, count: 0, name: "unknown" });
        i = i + 1;
    }
    Ok(Wi {
        base,
        num_irqs,
        version: (info / 0x1000_0000) % 16,
        num_cpus,
        irqs,
        total_irqs: 0,
        total_ipis: 0,
        initialized: true,
    })
}

/// Register offset of the mask-set (`false`) or mask-clear (`true`) word
/// for a line.
pub open spec fn mask_reg(irq: u32, enable: bool) -> u64 {
    ((if enable { 0x4080int } else { 0x4000int }) + (irq / 32) * 4) as u64
}

/// Unmasks (`enable`) or masks a line: the register write to make
/// (offset, value) and the line's flag updated; refused before setup or
/// for a line the controller does not have.
pub fn aic_set_enabled(aic: &mut Option<Wi>, irq: u32, enable: bool) -> (r: Result<(u64, u32), &'static str>)
    requires
        (*old(aic)) is Some ==> old(aic)->Some_0.wf(),
    ensures
        (*old(aic)) is None ==> r == Err::<(u64, u32), &'static str>("AIC not initialized") && *final(aic) == *old(aic),
        (*old(aic)) is Some ==> {
            let a = old(aic)->Some_0;
            &&& irq >= a.num_irqs ==> r == Err::<(u64, u32), &'static str>("IRQ number out of range")
                && *final(aic) == *old(aic)
            &&& irq < a.num_irqs ==> {
                let b = final(aic)->Some_0;
                &&& r == Ok::<(u64, u32), &'static str>((mask_reg(irq, enable), (1u32 << (irq % 32))))
                &&& (*final(aic)) is Some
                &&& b.irqs@ == a.irqs@.update(irq as int, IrqConfig { enabled: enable, ..a.irqs@[irq as int] })
                &&& b == (Wi { irqs: b.irqs, ..a })
            }
        },
{
    match aic {
        None => Err("AIC not initialized"),
        Some(a) => {
            if irq >= a.num_irqs {
                return Err("IRQ number out of range");
            }
            let mut c = a.irqs[irq as usize];
            c.enabled = enable;
            a.irqs.set(irq as usize, c);
            let base: u64 = if enable { 0x4080 } else { 0x4000 };
            Ok((base + (irq / 32) as u64 * 4, 1u32 << (irq % 32)))
        },
    }
}

/// Routes a line to one CPU: the register write to make (offset, value)
/// and the line's target updated; refused before setup, for a line the
/// controller does not have, or for a CPU it does not serve.
pub fn aic_route(aic: &mut Option<Wi>, irq: u32, cpu: u32) -> (r: Result<(u64, u32), &'static str>)
    requires
        (*old(aic)) is Some ==> old(aic)->Some_0.wf(),
        (*old(aic)) is Some && irq < old(aic)->Some_0.num_irqs && cpu < old(aic)->Some_0.num_cpus ==> cpu < 32,
    ensures
        (*old(aic)) is None ==> r == Err::<(u64, u32), &'static str>("AIC not initialized") && *final(aic) == *old(aic),
        (*old(aic)) is Some ==> {
            let a = old(aic)->Some_0;
            let b = final(aic)->Some_0;
            &&& irq >= a.num_irqs ==> r == Err::<(u64, u32), &'static str>("IRQ number out of range")
                && *final(aic) == *old(aic)
            &&& irq < a.num_irqs && cpu >= a.num_cpus ==> r == Err::<(u64, u32), &'static str>("CPU number out of range")
                && *final(aic) == *old(aic)
            &&& irq < a.num_irqs && cpu < a.num_cpus ==> {
                &&& r == Ok::<(u64, u32), &'static str>(((0x3000 + irq * 4) as u64, (1u32 << cpu)))
                &&& (*final(aic)) is Some
                &&& b.irqs@ == a.irqs@.update(irq as int, IrqConfig { target_cpu: cpu as u8, ..a.irqs@[irq as int] })
                &&& b == (Wi { irqs: b.irqs, ..a })
            }
        },
{
    match aic {
        None => Err("AIC not initialized"),
        Some(a) => {
            if irq >= a.num_irqs {
                return Err("IRQ number out of range");
            }
            if cpu >= a.num_cpus {
                return Err("CPU number out of range");
            }
            let mut c = a.irqs[irq as usize];
            c.target_cpu = cpu as u8;
            a.irqs.set(irq as usize, c);
            Ok((0x3000 + irq as u64 * 4, 1u32 << cpu))
        },
    }
}

/// The register write that sends an inter-processor interrupt to a CPU;
/// refused before setup or for a CPU the controller does not serve.
pub fn aic_ipi(aic: &Option<Wi>, cpu: u32) -> (r: Result<(u64, u32), &'static str>)
    requires
        (*aic) is Some && cpu < aic->Some_0.num_cpus ==> cpu < 32,
    ensures
        (*aic) is None ==> r == Err::<(u64, u32), &'static str>("AIC not initialized"),
        (*aic) is Some && cpu >= aic->Some_0.num_cpus ==> r == Err::<(u64, u32), &'static str>("Target CPU out of range"),
        (*aic) is Some && cpu < aic->Some_0.num_cpus ==> r == Ok::<(u64, u32), &'static str>((0x200C, (1u32 << cpu))),
{
    match aic {
        None => Err("AIC not initialized"),
        Some(a) => {
            if cpu >= a.num_cpus {
                return Err("Target CPU out of range");
            }
            Ok((0x200C, 1u32 << cpu))
        },
    }
}

/// What an interrupt event word names.
#[derive(Clone, Copy, Debug, PartialEq, Eq, Structural)]
pub enum AicEvent {
    /// No event pending.
    Nothing,
    /// A hardware line; whether a handler is registered for it.
    Irq { irq: u32, has_handler: bool },
    /// An inter-processor interrupt: its flags are to be read and cleared.
    Ipi,
    /// Another event type, taken as handled.
    Other,
}

/// Takes an event word (type in bits 16..32, line in bits 0..16): a line
/// event counts one interrupt and one for the line (when the line is in
/// the table), an IPI counts one IPI; nothing happens before setup.
pub fn aic_event(aic: &mut Option<Wi>, event: u32) -> (r: AicEvent)
    requires
        (*old(aic)) is Some ==> old(aic)->Some_0.wf(),
        (*old(aic)) is Some ==> old(aic)->Some_0.total_irqs < u64::MAX && old(aic)->Some_0.total_ipis < u64::MAX,
        (*old(aic)) is Some && event % 0x10000 < AIC_MAX_IRQS ==> old(aic)->Some_0.irqs@[(event % 0x10000) as int].count
            < u64::MAX,
    ensures
        ((*old(aic)) is None || !old(aic)->Some_0.initialized) ==> r == AicEvent::Nothing && *final(aic) == *old(aic),
        (*old(aic)) is Some && old(aic)->Some_0.initialized ==> {
            let a = old(aic)->Some_0;
            let b = final(aic)->Some_0;
            let kind = event / 0x10000;
            let line = event % 0x10000;
            &&& (*final(aic)) is Some
            &&& kind == 0 ==> r == AicEvent::Nothing && b == a
            &&& kind == 1 && line < AIC_MAX_IRQS ==> r == AicEvent::Irq { irq: line, has_handler: a.irqs@[line as int].has_handler }
                && b.irqs@ == a.irqs@.update(line as int, IrqConfig { count: (a.irqs@[line as int].count + 1) as u64, ..a.irqs@[line as int] })
                && b == (Wi { irqs: b.irqs, total_irqs: (a.total_irqs + 1) as u64, ..a })
            &&& kind == 1 && line >= AIC_MAX_IRQS ==> r == AicEvent::Irq { irq: line, has_handler: false }
                && b == (Wi { total_irqs: (a.total_irqs + 1) as u64, ..a })
            &&& kind == 4 ==> r == AicEvent::Ipi && b == (Wi { total_ipis: (a.total_ipis + 1) as u64, ..a })
            &&& kind != 0 && kind != 1 && kind != 4 ==> r == AicEvent::Other && b == a
        },
{
    match aic {
        None => AicEvent::Nothing,
        Some(a) => {
            if !a.initialized {
                return AicEvent::Nothing;
            }
            let kind = event / 0x10000;
            let line = event % 0x10000;
            if kind == 0 {
                AicEvent::Nothing
            } else if kind == 1 {
                a.total_irqs = a.total_irqs + 1;
                if (line as usize) < AIC_MAX_IRQS {
                    let mut c = a.irqs[line as usize];
                    c.count = c.count + 1;
                    let h = c.has_handler;
                    a.irqs.set(line as usize, c);
                    AicEvent::Irq { irq: line, has_handler: h }
                } else {
                    AicEvent::Irq { irq: line, has_handler: false }
                }
            } else if kind == 4 {
                a.total_ipis = a.total_ipis + 1;
                AicEvent::Ipi
            } else {
                AicEvent::Other
            }
        },
    }
}

} // verus!
