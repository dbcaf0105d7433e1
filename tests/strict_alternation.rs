use os_sync::strict_alternation::{using_turn, TurnPc, TurnState};

fn next(seed: &mut u64) -> u64 {
    *seed = seed.wrapping_mul(6364136223846793005).wrapping_add(1442695040888963407);
    *seed >> 33
}

fn check_alternation(s: &TurnState) {
    for (n, id) in s.order.iter().enumerate() {
        assert_eq!(*id, n % 2);
    }
}

#[test]
fn turn_round_robin_counts_exactly() {
    let mut schedule = Vec::new();
    for _ in 0..10_000 {
        schedule.push(0);
        schedule.push(1);
    }
    let s = using_turn(1000, &schedule);
    assert!(s.is_finished());
    assert_eq!(s.counter, 2000);
    assert_eq!(s.order.len(), 2000);
    check_alternation(&s);
}

#[test]
fn random_runs_count_exactly_and_alternate() {
    for mut seed in 1..=10u64 {
        let mut s = TurnState::new(1000);
        while !s.is_finished() {
            let id = (next(&mut seed) % 2) as usize;
            s.step(id);
            assert!(!(s.pcs[0] == TurnPc::Load && s.pcs[1] == TurnPc::Load));
        }
        assert_eq!(s.counter, 2000);
        check_alternation(&s);
    }
}

#[test]
fn worker_one_waits_for_its_turn() {
    let s = using_turn(1000, &vec![1, 1, 1, 1]);
    assert_eq!(s.pcs[1], TurnPc::Wait);
    assert_eq!(s.counter, 0);
}

#[test]
fn absent_partner_stalls_the_other() {
    let schedule = vec![0usize; 10_000];
    let s = using_turn(1000, &schedule);
    assert_eq!(s.counter, 1);
    assert_eq!(s.order, vec![0]);
    assert_eq!(s.turn, 1);
    assert_eq!(s.pcs[0], TurnPc::Wait);
    assert!(!s.is_finished());
}
