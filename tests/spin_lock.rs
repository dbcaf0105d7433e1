use os_sync::spin_lock::{using_lock, LockPc, LockState};

fn next(seed: &mut u64) -> u64 {
    *seed = seed.wrapping_mul(6364136223846793005).wrapping_add(1442695040888963407);
    *seed >> 33
}

#[test]
fn both_workers_pass_a_clear_flag() {
    let s = using_lock(2, 1, &vec![0, 1, 0, 1]);
    assert_eq!(s.pcs[0], LockPc::Load);
    assert_eq!(s.pcs[1], LockPc::Load);
    assert!(s.lock);
}

#[test]
fn racing_through_the_flag_loses_an_update() {
    let s = using_lock(2, 1, &vec![0, 1, 0, 1, 0, 1, 0, 1, 0, 1]);
    assert!(s.is_finished());
    assert_eq!(s.counter, 1);
    assert_eq!(s.entries, 2);
    assert!(!s.lock);
}

#[test]
fn flag_holds_back_a_later_reader() {
    let s = using_lock(2, 1, &vec![0, 0, 1, 1, 1]);
    assert_eq!(s.pcs[0], LockPc::Load);
    assert_eq!(s.pcs[1], LockPc::Spin);
}

#[test]
fn sequential_lock_holders_lose_nothing() {
    let mut schedule = Vec::new();
    for id in 0..10usize {
        for _ in 0..5 * 1000 {
            schedule.push(id);
        }
    }
    let s = using_lock(10, 1000, &schedule);
    assert!(s.is_finished());
    assert_eq!(s.counter, 10_000);
}

#[test]
fn round_robin_breaks_exclusion() {
    let mut schedule = Vec::new();
    for _ in 0..5 * 1000 {
        for id in 0..10usize {
            schedule.push(id);
        }
    }
    let s = using_lock(10, 1000, &schedule);
    assert!(s.is_finished());
    assert!(s.counter < 10_000);
}

#[test]
fn random_runs_stay_bounded() {
    for mut seed in 1..=10u64 {
        let mut s = LockState::new(10, 1000);
        while !s.is_finished() {
            let id = (next(&mut seed) % 10) as usize;
            s.step(id);
        }
        assert!(s.counter <= 10_000);
        assert_eq!(s.entries, 10_000);
    }
}
