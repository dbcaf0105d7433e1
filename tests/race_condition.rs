use os_sync::race_condition;
use os_sync::race_condition::{RacePc, RaceState, ITERATIONS, WORKERS};

fn next(seed: &mut u64) -> u64 {
    *seed = seed.wrapping_mul(6364136223846793005).wrapping_add(1442695040888963407);
    *seed >> 33
}

fn run_random(workers: usize, iterations: u64, mut seed: u64) -> RaceState {
    let mut s = RaceState::new(workers, iterations);
    while !s.is_finished() {
        let id = (next(&mut seed) % workers as u64) as usize;
        s.step(id);
    }
    s
}

#[test]
fn sequential_workers_lose_nothing() {
    let mut schedule = Vec::new();
    for id in 0..WORKERS {
        for _ in 0..2 * ITERATIONS {
            schedule.push(id);
        }
    }
    let s = race_condition::test(WORKERS, ITERATIONS, &schedule);
    assert!(s.is_finished());
    assert_eq!(s.counter, 10_000);
    assert_eq!(s.entries, 10_000);
}

#[test]
fn interleaved_loads_lose_an_update() {
    let s = race_condition::test(2, 1, &vec![0, 1, 0, 1]);
    assert!(s.is_finished());
    assert_eq!(s.counter, 1);
    assert_eq!(s.entries, 2);
}

#[test]
fn round_robin_loses_most_updates() {
    let mut schedule = Vec::new();
    for _ in 0..2 * ITERATIONS {
        for id in 0..WORKERS {
            schedule.push(id);
        }
    }
    let s = race_condition::test(WORKERS, ITERATIONS, &schedule);
    assert!(s.is_finished());
    assert_eq!(s.counter, 1000);
}

#[test]
fn random_runs_stay_bounded_and_some_lose() {
    let mut lossy = 0;
    for seed in 1..=20u64 {
        let s = run_random(WORKERS, ITERATIONS, seed);
        assert!(s.counter <= 10_000);
        assert_eq!(s.entries, 10_000);
        if s.counter < 10_000 {
            lossy += 1;
        }
    }
    assert!(lossy >= 1);
}

#[test]
fn unknown_or_finished_worker_does_nothing() {
    let mut s = RaceState::new(1, 1);
    s.step(5);
    assert_eq!(s.pcs[0], RacePc::Load);
    s.step(0);
    s.step(0);
    assert!(s.is_finished());
    s.step(0);
    assert_eq!(s.counter, 1);
    assert_eq!(s.pcs[0], RacePc::Load);
}

#[test]
fn no_workers_is_finished_at_once() {
    let s = race_condition::test(0, ITERATIONS, &vec![0, 1, 2]);
    assert!(s.is_finished());
    assert_eq!(s.counter, 0);
}
