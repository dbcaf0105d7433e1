use os_sync::peterson::{peterson_solution, PetersonPc, PetersonState};

fn next(seed: &mut u64) -> u64 {
    *seed = seed.wrapping_mul(6364136223846793005).wrapping_add(1442695040888963407);
    *seed >> 33
}

fn critical(pc: PetersonPc) -> bool {
    pc == PetersonPc::Load || pc == PetersonPc::Store
}

fn waiting(pc: PetersonPc) -> bool {
    pc == PetersonPc::WaitFlag || pc == PetersonPc::WaitTurn
}

#[test]
fn peterson_round_robin_counts_exactly() {
    let mut schedule = Vec::new();
    for _ in 0..50_000 {
        schedule.push(0);
        schedule.push(1);
    }
    let s = peterson_solution(1000, &schedule);
    assert!(s.is_finished());
    assert_eq!(s.counter, 2000);
    assert_eq!(s.order.len(), 2000);
}

#[test]
fn random_runs_keep_exclusion_and_bounded_waiting() {
    for mut seed in 1..=10u64 {
        let mut s = PetersonState::new(1000);
        let mut waits: [usize; 2] = [0, 0];
        while !s.is_finished() {
            let id = (next(&mut seed) % 2) as usize;
            let before = s.order.len();
            s.step(id);
            assert!(!(critical(s.pcs[0]) && critical(s.pcs[1])));
            assert!(s.passed_over[0] <= 1 && s.passed_over[1] <= 1);
            if s.order.len() > before {
                let other = 1 - id;
                if waiting(s.pcs[other]) {
                    waits[other] += 1;
                }
            }
        }
        assert_eq!(s.counter, 2000);
        assert!(waits[0] + waits[1] > 0);
    }
}

#[test]
fn lone_worker_is_not_held_back() {
    let schedule = vec![0usize; 6 * 1000];
    let s = peterson_solution(1000, &schedule);
    assert_eq!(s.counter, 1000);
    assert_eq!(s.remaining[0], 0);
    assert_eq!(s.pcs[1], PetersonPc::Raise);
}

#[test]
fn waiting_worker_is_passed_over_once() {
    // Worker 0 waits behind worker 1, which enters, leaves and returns; its
    // second attempt waits until worker 0 has entered.
    let s = peterson_solution(2, &vec![1, 1, 0, 0, 1, 1, 0, 0, 1, 1, 1, 1, 1, 1, 1]);
    assert_eq!(s.order, vec![1]);
    assert_eq!(s.pcs[0], PetersonPc::WaitFlag);
    assert_eq!(s.pcs[1], PetersonPc::WaitFlag);
    assert_eq!(s.passed_over[0], 1);
    assert_eq!(s.turn, 0);
    let mut t = s;
    t.step(1);
    t.step(1);
    assert_eq!(t.pcs[1], PetersonPc::WaitFlag);
    t.step(0);
    assert_eq!(t.pcs[0], PetersonPc::WaitTurn);
    t.step(0);
    assert_eq!(t.pcs[0], PetersonPc::Load);
    assert_eq!(t.passed_over[0], 0);
    assert_eq!(t.passed_over[1], 1);
}

#[test]
fn waiting_worker_enters_once_partner_lowers_its_flag() {
    // Worker 1 raises its flag and yields; worker 0 finds it waiting and
    // holding back, then worker 1 enters, finishes and lowers its flag.
    let s = peterson_solution(1, &vec![1, 1, 0, 0, 0, 0, 1, 1, 1, 1, 1]);
    assert_eq!(s.pcs[1], PetersonPc::Raise);
    assert!(waiting(s.pcs[0]));
    let mut t = s;
    t.step(0);
    if !critical(t.pcs[0]) {
        t.step(0);
    }
    assert!(critical(t.pcs[0]));
}
