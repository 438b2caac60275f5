use nailgun::Pacer;

const SECOND: u64 = 1_000_000_000;

#[test]
fn full_bucket_bursts_then_refuses() {
    let mut pacer = Pacer::new(5, 0);
    let mut admitted = 0;
    for _ in 0..20 {
        if pacer.try_admit(0) {
            admitted += 1;
        }
    }
    // the bucket starts full: exactly the burst is admitted at one instant
    assert_eq!(admitted, 5);
}

#[test]
fn refill_restores_one_token_per_period() {
    let mut pacer = Pacer::new(2, 0);
    assert!(pacer.try_admit(0));
    assert!(pacer.try_admit(0));
    assert!(!pacer.try_admit(0));
    // half a second refills one token at rate 2
    assert!(pacer.try_admit(SECOND / 2));
    assert!(!pacer.try_admit(SECOND / 2));
}

#[test]
fn admissions_stay_under_ceiling_times_duration_plus_burst() {
    let rate = 50u32;
    let seconds = 4u64;
    let mut pacer = Pacer::new(rate, 0);
    let mut admitted: u64 = 0;
    // unlimited demand: ask again every millisecond for the whole window
    let mut now: u64 = 0;
    while now <= seconds * SECOND {
        while pacer.try_admit(now) {
            admitted += 1;
        }
        now += SECOND / 1000;
    }
    assert!(admitted <= (rate as u64) * seconds + rate as u64);
    // demand was unlimited, so the pacer was kept saturated
    assert!(admitted >= (rate as u64) * seconds);
}
