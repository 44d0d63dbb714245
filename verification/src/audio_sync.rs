//! Audio/video latency calibration with a metronome: the user taps along
//! with clicks, and the median distance of the taps to the nearest beat gives
//! the offset to apply.
use vstd::prelude::*;

verus! {

/// Metronome tempo in beats per minute.
pub const BCO_: u32 = 120;
/// Number of taps that complete a calibration.
pub const QT_: usize = 8;
/// Click frequency in Hz.
pub const APZ_: u32 = 1000;
/// Click length in ms.
pub const APY_: u32 = 30;
/// Output sample rate.
pub const BT_: u32 = 48_000;
/// Largest offset, in ms, that a calibration may report.
pub const BBW_: i32 = 500;
/// Reaction time subtracted from the taps, in µs.
pub const REACTION_US: i64 = 80_000;

/// Length of one beat in µs.
pub open spec fn beat_interval() -> int {
    60_000_000int / (BCO_ as int)
}

/// Length of one beat in µs.
pub fn hhc() -> (r: u64)
    ensures
        r == beat_interval(),
        r == 500_000,
{
    assert(60_000_000int / 120int == 500_000) by (nonlinear_arith);
    60_000_000 / BCO_ as u64
}

/// Division rounding toward zero, as Rust's integer division does.
pub open spec fn tdiv(a: int, b: int) -> int {
    if a >= 0 {
        a / b
    } else {
        -((-a) / b)
    }
}

fn tdiv_exec(a: i64, b: i64) -> (r: i64)
    requires
        b > 0,
        a > i64::MIN,
    ensures
        r == tdiv(a as int, b as int),
{
    if a >= 0 {
        a / b
    } else {
        -((-a) / b)
    }
}

/// Largest `r` with `r * r <= n`.
pub open spec fn is_isqrt(n: int, r: int) -> bool {
    0 <= r && r * r <= n < (r + 1) * (r + 1)
}

proof fn lemma_newton_step_not_below(n: int, x: int, s: int)
    requires
        x > 0,
        s >= 0,
        s * s <= n,
    ensures
        (x + n / x) / 2 >= s,
{
    let t = n / x;
    assert(n < x * (t + 1)) by (nonlinear_arith)
        requires x > 0, t == n / x;
    if (x + t) / 2 < s {
        assert(t + 1 <= 2 * s - x);
        assert(x * (t + 1) <= x * (2 * s - x)) by (nonlinear_arith)
            requires x > 0, t + 1 <= 2 * s - x;
        assert(x * (2 * s - x) <= s * s) by (nonlinear_arith);
        assert(false);
    }
}

proof fn lemma_isqrt_exists(n: int, k: int) -> (s: int)
    requires
        0 <= k,
        k * k <= n,
    ensures
        is_isqrt(n, s),
    decreases n - k,
{
    if (k + 1) * (k + 1) <= n {
        assert(k + 1 <= (k + 1) * (k + 1)) by (nonlinear_arith)
            requires k >= 0;
        lemma_isqrt_exists(n, k + 1)
    } else {
        k
    }
}

/// Integer square root by Newton's iteration; 0 for non-positive input.
pub fn muk(ae: i64) -> (r: i64)
    requires
        ae < i64::MAX,
    ensures
        ae <= 0 ==> r == 0,
        ae > 0 ==> is_isqrt(ae as int, r as int),
{
    if ae <= 0 {
        return 0;
    }
    let ghost n = ae as int;
    let ghost s = lemma_isqrt_exists(n, 0);
    let mut x: i64 = ae;
    let mut y: i64 = (x + 1) / 2;
    proof {
        assert(n / n == 1) by (nonlinear_arith) requires n > 0;
        assert(x as int >= s) by (nonlinear_arith)
            requires s * s <= n, s >= 0, x == n, n >= 1;
    }
    while y < x
        invariant
            0 < x <= n,
            n == ae,
            ae < i64::MAX,
            is_isqrt(n, s),
            x >= s,
            y == (x + n / (x as int)) / 2,
        decreases x,
    {
        proof { lemma_newton_step_not_below(n, x as int, s); }
        x = y;
        assert(x > 0) by (nonlinear_arith)
            requires x >= s, s >= 0, (s + 1) * (s + 1) > n, n > 0;
        assert(0 <= ae / x <= ae) by (nonlinear_arith)
            requires x > 0, ae > 0;
        let q = ae / x;
        assert(x + q <= ae + 1) by (nonlinear_arith)
            requires 0 < x <= ae, q == ae / x;
        y = (x + q) / 2;
    }
    proof {
        if x as int > s {
            // x >= s + 1, so x * x > n and n / x < x, which would make y < x.
            assert(x * x > n) by (nonlinear_arith)
                requires x >= s + 1, (s + 1) * (s + 1) > n, s >= 0;
            assert(n / (x as int) < x) by (nonlinear_arith)
                requires x * x > n, x > 0, n > 0;
            assert(false);
        }
    }
    x
}


/// State of the calibration.
pub struct SyncState {
    /// A calibration is running.
    pub active: bool,
    /// Taps recorded so far.
    pub taps: u32,
    /// Index of the next beat to click.
    pub next_beat: u32,
    /// Time of the last click, in µs.
    pub last_click_us: u64,
    /// Time of beat 0, in µs.
    pub start_us: u64,
    /// Resulting offset, in ms.
    pub offset_ms: i32,
    /// A calibration has completed.
    pub calibrated: bool,
    /// Measured latency of the audio DMA pipeline, in µs.
    pub dma_latency_us: u64,
    /// Distance of each tap to the nearest beat, in µs.
    pub deltas: Vec<i64>,
}

/// Time stamps are far from overflowing.
pub open spec fn time_ok(t: u64) -> bool {
    t <= 0x4000_0000_0000_0000
}

/// Whether a tap delta lies within half a beat.
pub open spec fn delta_ok(d: i64) -> bool {
    -250_000 <= d <= 250_000
}

impl SyncState {
    /// At most eight taps, each within half a beat of a beat.
    pub open spec fn wf(&self) -> bool {
        &&& self.deltas@.len() == self.taps
        &&& self.taps <= QT_
        &&& self.active ==> self.taps < QT_
        &&& time_ok(self.start_us)
        &&& forall|i: int| 0 <= i < self.deltas@.len() ==> delta_ok(#[trigger] self.deltas@[i])
        &&& -BBW_ <= self.offset_ms <= BBW_
    }

    /// The idle state, before any calibration.
    pub fn new() -> (st: Self)
        ensures
            st.wf(),
            !st.active,
            !st.calibrated,
            st.taps == 0,
            st.offset_ms == 0,
            st.dma_latency_us == 0,
            st.next_beat == 0,
            st.last_click_us == 0,
            st.start_us == 0,
            st.deltas@.len() == 0,
    {
        SyncState {
            active: false,
            taps: 0,
            next_beat: 0,
            last_click_us: 0,
            start_us: 0,
            offset_ms: 0,
            calibrated: false,
            dma_latency_us: 0,
            deltas: Vec::new(),
        }
    }
}

/// Starts a calibration at time `now_us`; the first click (beat 0) sounds now.
pub fn qxq(st: &mut SyncState, now_us: u64)
    requires
        time_ok(now_us),
    ensures
        final(st).wf(),
        final(st).active,
        final(st).taps == 0,
        final(st).deltas@.len() == 0,
        !final(st).calibrated,
        final(st).offset_ms == 0,
        final(st).start_us == now_us,
        final(st).last_click_us == now_us,
        final(st).next_beat == 1,
        final(st).dma_latency_us == old(st).dma_latency_us,
{
    st.active = true;
    st.taps = 0;
    st.next_beat = 0;
    st.calibrated = false;
    st.offset_ms = 0;
    st.deltas.clear();
    st.start_us = now_us;
    st.last_click_us = 0;
    st.last_click_us = now_us;
    st.next_beat = 1;
}

/// Cancels a running calibration.
pub fn pzf(st: &mut SyncState)
    ensures
        *final(st) == (SyncState { active: false, ..*old(st) }),
{
    st.active = false;
}

/// What the caller does after a tick.
#[derive(Debug, Clone, Copy, PartialEq, Eq, Structural)]
pub struct TickOutcome {
    /// The calibration is still running.
    pub active: bool,
    /// A click should sound now.
    pub click: bool,
}

/// Time of beat `k` of a calibration started at `start`.
pub open spec fn beat_time(start: u64, k: u32) -> int {
    start + k * beat_interval()
}

/// Advances the metronome to time `now_us`: clicks when the next beat is
/// due, and completes the calibration once all taps are in.
pub fn tick(st: &mut SyncState, now_us: u64) -> (out: TickOutcome)
    requires
        old(st).wf(),
        old(st).next_beat < u32::MAX,
    ensures
        final(st).wf(),
        !old(st).active ==> out == (TickOutcome { active: false, click: false }) && *final(st) == *old(st),
        old(st).active && old(st).taps >= QT_ ==> !out.active && !out.click
            && is_finished(*old(st), *final(st)),
        old(st).active && old(st).taps < QT_ ==> {
            &&& out.active
            &&& out.click == (now_us >= beat_time(old(st).start_us, old(st).next_beat))
            &&& out.click ==> *final(st) == (SyncState {
                last_click_us: beat_time(old(st).start_us, old(st).next_beat) as u64,
                next_beat: (old(st).next_beat + 1) as u32,
                ..*old(st)
            })
            &&& !out.click ==> *final(st) == *old(st)
        },
{
    if !st.active {
        return TickOutcome { active: false, click: false };
    }
    if st.taps as usize >= QT_ {
        hza(st);
        return TickOutcome { active: false, click: false };
    }
    let beat = hhc();
    let due = st.start_us + st.next_beat as u64 * beat;
    if now_us >= due {
        st.last_click_us = due;
        st.next_beat = st.next_beat + 1;
        return TickOutcome { active: true, click: true };
    }
    TickOutcome { active: true, click: false }
}

/// Distance of a tap at `tap` to the nearest beat of a calibration started at `start`.
pub open spec fn tap_delta(start: int, tap: int) -> int {
    let b = beat_interval();
    let n = (tap - start + b / 2) / b;
    tap - (start + n * b)
}

/// What one tap at `tap` does to the calibration state: ignored while no
/// calibration runs or before its start; otherwise its distance to the
/// nearest beat is recorded and counted, and the eighth tap ends the
/// calibration with the offset its deltas give.
pub open spec fn tap_step(before: SyncState, tap: u64, after: SyncState) -> bool {
    &&& (!before.active || tap <= before.start_us) ==> after == before
    &&& before.active && tap > before.start_us ==> {
        let deltas = before.deltas@.push(tap_delta(before.start_us as int, tap as int) as i64);
        &&& after.deltas@ == deltas
        &&& after.taps == before.taps + 1
        &&& after.start_us == before.start_us
        &&& after.next_beat == before.next_beat
        &&& after.last_click_us == before.last_click_us
        &&& after.dma_latency_us == before.dma_latency_us
        &&& before.taps + 1 < QT_ ==> after.active && after.offset_ms == before.offset_ms && after.calibrated
            == before.calibrated
        &&& before.taps + 1 >= QT_ ==> !after.active && after.calibrated && after.offset_ms == calibrated_offset(
            deltas,
        )
    }
}

/// Records a tap at time `tap_us`; the eighth tap completes the calibration.
/// Taps before the start, or while no calibration runs, are ignored.
pub fn qtf(st: &mut SyncState, tap_us: u64)
    requires
        old(st).wf(),
        time_ok(tap_us),
    ensures
        final(st).wf(),
        tap_step(*old(st), tap_us, *final(st)),
{
    if !st.active {
        return;
    }
    let dze = st.start_us;
    let axr = hhc();
    if tap_us <= dze {
        return;
    }
    let bb = tap_us - dze;
    let nhw = (bb + axr / 2) / axr;
    proof {
        assert(nhw * axr <= bb + 250_000 < nhw * axr + 500_000) by (nonlinear_arith)
            requires nhw == (bb + 250_000) / 500_000, axr == 500_000;
    }
    let nhx = dze + nhw * axr;
    let frk: i64 = tap_us as i64 - nhx as i64;
    assert(delta_ok(frk));
    assert(frk == tap_delta(dze as int, tap_us as int));
    let ghost before = st.deltas@;
    st.deltas.push(frk);
    proof {
        assert forall|i: int| 0 <= i < st.deltas@.len() implies delta_ok(#[trigger] st.deltas@[i]) by {
            if i < before.len() {
                assert(st.deltas@[i] == before[i]);
            }
        }
    }
    st.taps = st.taps + 1;
    if st.taps as usize >= QT_ {
        st.active = false;
        let ghost mid = *st;
        hza(st);
        proof {
            assert(mid.deltas@.len() > 0);
        }
    }
}

/// Whether `s` holds sorted values.
pub open spec fn sorted_i64(s: Seq<i64>) -> bool {
    forall|i: int, j: int| 0 <= i <= j < s.len() ==> s[i] <= s[j]
}

/// Median of sorted values: the middle one, or the truncated mean of the two
/// middle ones.
pub open spec fn median_sorted(s: Seq<i64>) -> int {
    let n = s.len() as int;
    if n % 2 == 0 {
        tdiv(s[n / 2 - 1] + s[n / 2], 2)
    } else {
        s[n / 2] as int
    }
}

/// Offset in ms for a median tap delta in µs: the reaction time removed,
/// rounded toward zero and clamped to ±500 ms.
pub open spec fn offset_for_median(m: int) -> int {
    let v = tdiv(m - REACTION_US, 1000);
    if v < -(BBW_ as int) {
        -(BBW_ as int)
    } else if v > BBW_ as int {
        BBW_ as int
    } else {
        v
    }
}

/// Offset that a non-empty set of tap deltas gives.
pub open spec fn calibrated_offset(deltas: Seq<i64>) -> i32 {
    let s = choose|s: Seq<i64>| sorted_i64(s) && s.to_multiset() == deltas.to_multiset();
    offset_for_median(median_sorted(s)) as i32
}

/// Tap law: while a calibration runs, a tap after its start counts one more
/// tap and records its distance to the nearest beat,
/// `t - (t0 + round((t - t0) / 500 ms) * 500 ms)`, which lies within half a
/// beat; the eighth such tap ends the calibration, marks it done and leaves
/// an offset within ±500 ms. A tap at or before the start, or while no
/// calibration runs, changes nothing.
pub proof fn law_calibration_tap(before: SyncState, tap: u64, after: SyncState)
    requires
        before.wf(),
        tap_step(before, tap, after),
    ensures
        (!before.active || tap <= before.start_us) ==> after == before,
        before.active && tap > before.start_us ==> {
            let d = after.deltas@.last() as int;
            &&& after.taps == before.taps + 1
            &&& d == tap - (before.start_us + ((tap - before.start_us + 250_000) / 500_000) * 500_000)
            &&& -250_000 <= d < 250_000
        },
        before.active && tap > before.start_us && before.taps + 1 == QT_ ==> {
            &&& !after.active
            &&& after.calibrated
            &&& -BBW_ <= after.offset_ms <= BBW_
        },
{
    if before.active && tap > before.start_us {
        let start = before.start_us as int;
        let t = tap as int;
        assert(beat_interval() == 500_000) by (nonlinear_arith);
        let n = (t - start + 250_000) / 500_000;
        assert(n * 500_000 <= t - start + 250_000 < n * 500_000 + 500_000) by (nonlinear_arith)
            requires n == (t - start + 250_000) / 500_000;
        let deltas = before.deltas@.push(tap_delta(start, t) as i64);
        assert(after.deltas@.last() == deltas.last());
        law_calibrated_offset_bounded(deltas);
    }
}

/// Calibration law: whatever the taps, the offset a calibration reports
/// lies within ±500 ms.
pub proof fn law_calibrated_offset_bounded(deltas: Seq<i64>)
    ensures
        -BBW_ <= calibrated_offset(deltas) <= BBW_,
{
}

/// Whether `after` is `before` once the calibration has ended.
pub open spec fn is_finished(before: SyncState, after: SyncState) -> bool {
    if before.deltas@.len() == 0 {
        after == (SyncState { active: false, ..before })
    } else {
        after == (SyncState { active: false, calibrated: true, offset_ms: calibrated_offset(before.deltas@), ..before })
    }
}

/// Sorts tap deltas in ascending order.
pub fn sort_deltas(v: &Vec<i64>) -> (r: Vec<i64>)
    ensures
        sorted_i64(r@),
        r@.to_multiset() == v@.to_multiset(),
        r@.len() == v@.len(),
{
    broadcast use vstd::seq_lib::group_to_multiset_ensures;
    let mut r: Vec<i64> = Vec::new();
    let mut i: usize = 0;
    assert(v@.subrange(0, 0) =~= Seq::<i64>::empty());
    assert(r@ =~= Seq::<i64>::empty());
    while i < v.len()
        invariant
            i <= v@.len(),
            sorted_i64(r@),
            r@.to_multiset() == v@.subrange(0, i as int).to_multiset(),
            r@.len() == i,
        decreases v@.len() - i,
    {
        let x = v[i];
        let mut k: usize = 0;
        while k < r.len() && r[k] <= x
            invariant
                k <= r@.len(),
                forall|j: int| 0 <= j < k ==> r@[j] <= x,
            decreases r@.len() - k,
        {
            k = k + 1;
        }
        let ghost before = r@;
        r.insert(k, x);
        proof {
            assert(v@.subrange(0, i + 1) =~= v@.subrange(0, i as int).push(x));
            vstd::seq_lib::lemma_multiset_commutative(v@.subrange(0, i as int), seq![x]);
            assert(v@.subrange(0, i as int).push(x) =~= v@.subrange(0, i as int) + seq![x]);
            vstd::seq_lib::to_multiset_insert(before, k as int, x);
            assert(seq![x].to_multiset() =~= vstd::multiset::Multiset::empty().insert(x)) by {
                broadcast use vstd::seq_lib::group_to_multiset_ensures;
                assert(seq![x] =~= Seq::<i64>::empty().push(x));
            }
            assert(v@.subrange(0, i + 1).to_multiset() =~= v@.subrange(0, i as int).to_multiset().add(seq![x].to_multiset()));
            assert forall|a: int, b: int| 0 <= a <= b < r@.len() implies r@[a] <= r@[b] by {
                if a < k && b > k {
                    assert(r@[b] == before[b - 1]);
                    if k < before.len() {
                        assert(before[k as int] > x);
                        assert(before[k as int] <= before[b - 1]);
                    }
                } else if a == k && b > k {
                    assert(r@[b] == before[b - 1]);
                    assert(before[k as int] > x);
                    assert(before[k as int] <= before[b - 1]);
                } else if a > k {
                    assert(r@[a] == before[a - 1]);
                    assert(r@[b] == before[b - 1]);
                }
            }
        }
        i = i + 1;
    }
    assert(v@.subrange(0, v@.len() as int) =~= v@);
    r
}

proof fn lemma_sorted_unique_i64(a: Seq<i64>, b: Seq<i64>)
    requires
        sorted_i64(a),
        sorted_i64(b),
        a.to_multiset() == b.to_multiset(),
    ensures
        a == b,
{
    vstd::seq_lib::lemma_sorted_unique(a, b, |x: i64, y: i64| x <= y);
}

/// Median of the tap deltas.
pub fn median_delta(deltas: &Vec<i64>) -> (m: i64)
    requires
        deltas@.len() > 0,
        forall|i: int| 0 <= i < deltas@.len() ==> delta_ok(#[trigger] deltas@[i]),
    ensures
        forall|s: Seq<i64>| sorted_i64(s) && s.to_multiset() == deltas@.to_multiset() ==> m == median_sorted(s),
        exists|s: Seq<i64>| sorted_i64(s) && s.to_multiset() == deltas@.to_multiset(),
        delta_ok(m),
{
    let acq = sort_deltas(deltas);
    proof {
        assert forall|j: int| 0 <= j < acq@.len() implies delta_ok(#[trigger] acq@[j]) by {
            broadcast use vstd::seq_lib::to_multiset_contains;
            assert(acq@.to_multiset().count(acq@[j]) > 0);
            assert(deltas@.contains(acq@[j]));
        }
    }
    let n = acq.len();
    let m = if n % 2 == 0 {
        tdiv_exec(acq[n / 2 - 1] + acq[n / 2], 2)
    } else {
        acq[n / 2]
    };
    proof {
        assert forall|s: Seq<i64>| sorted_i64(s) && s.to_multiset() == deltas@.to_multiset() implies m == median_sorted(s) by {
            lemma_sorted_unique_i64(s, acq@);
        }
    }
    m
}

/// Ends the calibration: the median tap delta, less the reaction time, gives
/// the offset in ms, clamped to ±500 ms.
fn hza(st: &mut SyncState)
    requires
        old(st).wf(),
    ensures
        final(st).wf(),
        is_finished(*old(st), *final(st)),
{
    st.active = false;
    if st.deltas.len() == 0 {
        return;
    }
    let inf = median_delta(&st.deltas);
    let jyf = inf - REACTION_US;
    let v = tdiv_exec(jyf, 1000);
    let isa: i32 = if v < -(BBW_ as i64) {
        -BBW_
    } else if v > BBW_ as i64 {
        BBW_
    } else {
        v as i32
    };
    proof {
        let s = choose|s: Seq<i64>| sorted_i64(s) && s.to_multiset() == st.deltas@.to_multiset();
        assert(sorted_i64(s) && s.to_multiset() == st.deltas@.to_multiset());
        assert(inf == median_sorted(s));
    }
    st.offset_ms = isa;
    st.calibrated = true;
}


/// Whether a calibration is running.
pub fn is_active(st: &SyncState) -> (r: bool)
    ensures
        r == st.active,
{
    st.active
}

/// Offset found by the last calibration, in ms.
pub fn qia(st: &SyncState) -> (r: i32)
    ensures
        r == st.offset_ms,
{
    st.offset_ms
}

/// Whether a calibration has completed.
pub fn qkr(st: &SyncState) -> (r: bool)
    ensures
        r == st.calibrated,
{
    st.calibrated
}

/// Number of taps recorded.
pub fn qyu(st: &SyncState) -> (r: u32)
    ensures
        r == st.taps,
{
    st.taps
}

/// Number of taps that a calibration needs.
pub fn qyv() -> (r: u32)
    ensures
        r == QT_,
{
    QT_ as u32
}

/// Measured audio DMA latency, in µs.
pub fn qdd(st: &SyncState) -> (r: u64)
    ensures
        r == st.dma_latency_us,
{
    st.dma_latency_us
}

/// Records the measured audio DMA latency.
pub fn set_dma_latency(st: &mut SyncState, us: u64)
    ensures
        *final(st) == (SyncState { dma_latency_us: us, ..*old(st) }),
{
    st.dma_latency_us = us;
}

/// Sum of the values.
pub open spec fn sum_i64(s: Seq<i64>) -> int
    decreases s.len(),
{
    if s.len() == 0 { 0 } else { sum_i64(s.drop_last()) + s.last() }
}

/// Sum of the squared distances of the values to `mean`.
pub open spec fn sum_sq_dev(s: Seq<i64>, mean: int) -> int
    decreases s.len(),
{
    if s.len() == 0 { 0 } else { sum_sq_dev(s.drop_last(), mean) + (s.last() - mean) * (s.last() - mean) }
}

/// Mean and standard deviation of the tap deltas, in µs, as the calibration
/// report shows them (each rounded toward zero).
pub fn calibration_stats(deltas: &Vec<i64>) -> (r: (i64, i64))
    requires
        0 < deltas@.len() <= QT_,
        forall|i: int| 0 <= i < deltas@.len() ==> delta_ok(#[trigger] deltas@[i]),
    ensures
        r.0 == tdiv(sum_i64(deltas@), deltas@.len() as int),
        is_isqrt(tdiv(sum_sq_dev(deltas@, r.0 as int), deltas@.len() as int), r.1 as int),
{
    let n = deltas.len();
    let mut sum: i64 = 0;
    let mut i: usize = 0;
    while i < n
        invariant
            i <= n,
            n == deltas@.len(),
            n <= QT_,
            forall|j: int| 0 <= j < deltas@.len() ==> delta_ok(#[trigger] deltas@[j]),
            sum == sum_i64(deltas@.subrange(0, i as int)),
            -250_000 * i <= sum <= 250_000 * i,
        decreases n - i,
    {
        assert(deltas@.subrange(0, i + 1).drop_last() =~= deltas@.subrange(0, i as int));
        sum = sum + deltas[i];
        i = i + 1;
    }
    assert(deltas@.subrange(0, n as int) =~= deltas@);
    let mean = tdiv_exec(sum, n as i64);
    assert(-250_000 <= mean <= 250_000) by (nonlinear_arith)
        requires mean == tdiv(sum as int, n as int), 1 <= n <= 8, -250_000 * n <= sum <= 250_000 * n;
    let mut sq: i64 = 0;
    let mut k: usize = 0;
    while k < n
        invariant
            k <= n,
            n == deltas@.len(),
            n <= QT_,
            -250_000 <= mean <= 250_000,
            forall|j: int| 0 <= j < deltas@.len() ==> delta_ok(#[trigger] deltas@[j]),
            sq == sum_sq_dev(deltas@.subrange(0, k as int), mean as int),
            0 <= sq <= 250_000_000_000 * k,
        decreases n - k,
    {
        assert(deltas@.subrange(0, k + 1).drop_last() =~= deltas@.subrange(0, k as int));
        let jr = deltas[k] - mean;
        assert(0 <= jr * jr <= 250_000_000_000) by (nonlinear_arith)
            requires -500_000 <= jr <= 500_000;
        sq = sq + jr * jr;
        k = k + 1;
    }
    assert(deltas@.subrange(0, n as int) =~= deltas@);
    let var = tdiv_exec(sq, n as i64);
    assert(0 <= var <= sq) by (nonlinear_arith)
        requires var == tdiv(sq as int, n as int), n >= 1, sq >= 0;
    let sd = muk(var);
    (mean, sd)
}

} // verus!
