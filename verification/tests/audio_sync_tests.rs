use trustos_drivers::audio_sync::{
    calibration_stats, hhc, is_active, median_delta, muk, pzf, qdd, qia, qkr, qtf, qxq, qyu, qyv,
    set_dma_latency, sort_deltas, tick, SyncState, TickOutcome,
};

#[test]
fn beat_length_and_tap_count() {
    assert_eq!(hhc(), 500_000);
    assert_eq!(qyv(), 8);
}

#[test]
fn integer_square_root() {
    assert_eq!(muk(0), 0);
    assert_eq!(muk(-5), 0);
    assert_eq!(muk(1), 1);
    assert_eq!(muk(15), 3);
    assert_eq!(muk(16), 4);
    assert_eq!(muk(1_000_000_000_000), 1_000_000);
    assert_eq!(muk(i64::MAX - 1), 3_037_000_499);
}

#[test]
fn sorting_and_median() {
    assert_eq!(sort_deltas(&vec![3, -1, 2, -1]), vec![-1, -1, 2, 3]);
    assert_eq!(median_delta(&vec![5, 1, 3]), 3);
    assert_eq!(median_delta(&vec![4, 1, 3, 2]), 2);
    assert_eq!(median_delta(&vec![-3, -4]), -3);
}

#[test]
fn mean_and_deviation() {
    assert_eq!(calibration_stats(&vec![100, 100, 100]), (100, 0));
    assert_eq!(calibration_stats(&vec![0, 10]), (5, 5));
    assert_eq!(calibration_stats(&vec![-7, 0]), (-3, 3));
}

#[test]
fn metronome_clicks_on_each_beat() {
    let mut st = SyncState::new();
    assert_eq!(tick(&mut st, 0), TickOutcome { active: false, click: false });
    qxq(&mut st, 1_000_000);
    assert!(is_active(&st));
    assert_eq!(tick(&mut st, 1_400_000), TickOutcome { active: true, click: false });
    assert_eq!(tick(&mut st, 1_500_000), TickOutcome { active: true, click: true });
    assert_eq!(st.last_click_us, 1_500_000);
    assert_eq!(st.next_beat, 2);
    assert_eq!(tick(&mut st, 1_600_000), TickOutcome { active: true, click: false });
    pzf(&mut st);
    assert!(!is_active(&st));
    assert_eq!(tick(&mut st, 9_000_000), TickOutcome { active: false, click: false });
}

#[test]
fn eight_late_taps_give_the_offset() {
    let mut st = SyncState::new();
    qxq(&mut st, 1_000_000);
    qtf(&mut st, 1_000_000); // not after the start: ignored
    assert_eq!(qyu(&st), 0);
    for k in 1..=8u64 {
        qtf(&mut st, 1_000_000 + k * 500_000 + 100_000);
    }
    assert_eq!(qyu(&st), 8);
    assert!(!is_active(&st));
    assert!(qkr(&st));
    // median 100 ms late, less 80 ms reaction time
    assert_eq!(qia(&st), 20);
    assert_eq!(st.deltas, vec![100_000; 8]);
}

#[test]
fn early_taps_and_clamping() {
    let mut st = SyncState::new();
    qxq(&mut st, 0);
    for k in 1..=8u64 {
        qtf(&mut st, k * 500_000 - 200_000);
    }
    // median 200 ms early: (-200000 - 80000) / 1000
    assert_eq!(qia(&st), -280);
    qxq(&mut st, 0);
    assert!(!qkr(&st));
    assert_eq!(qia(&st), 0);
    for _ in 0..8 {
        qtf(&mut st, 250_000);
    }
    // exactly half a beat rounds to the next beat
    assert_eq!(st.deltas[0], -250_000);
    assert_eq!(qia(&st), -330);
}

#[test]
fn taps_while_idle_are_ignored() {
    let mut st = SyncState::new();
    qtf(&mut st, 123);
    assert_eq!(qyu(&st), 0);
    assert!(!qkr(&st));
}

#[test]
fn dma_latency_is_kept() {
    let mut st = SyncState::new();
    assert_eq!(qdd(&st), 0);
    set_dma_latency(&mut st, 4200);
    assert_eq!(qdd(&st), 4200);
    qxq(&mut st, 10);
    assert_eq!(qdd(&st), 4200);
}
