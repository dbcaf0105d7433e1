//! Workers guarded by a plain boolean flag: each spins while the flag is set,
//! then sets it, increments the counter and clears it. Reading the flag and
//! setting it are two separate accesses, so two workers can both find it
//! clear and enter together.

use vstd::prelude::*;
use crate::tally::{filled, lemma_sum_constant, lemma_sum_nonneg, lemma_sum_update, lemma_sum_zero, sum};

verus! {

/// Where a worker stands within one guarded increment.
#[derive(Clone, Copy, PartialEq, Eq, Structural, Debug)]
pub enum LockPc {
    /// Reading the flag; moves on only when it reads `false`.
    Spin,
    /// About to set the flag.
    Claim,
    /// About to read the counter into its register.
    Load,
    /// About to write its register plus one back.
    Store,
    /// About to clear the flag.
    Release,
}

/// The shared counter and flag, and each worker's private state.
pub struct LockState {
    pub counter: u64,
    pub lock: bool,
    /// Stores completed so far, by all workers together.
    pub entries: u64,
    /// Number of increments that the run performs in all.
    pub total: u64,
    pub pcs: Vec<LockPc>,
    pub locals: Vec<u64>,
    /// Increments each worker has still to complete.
    pub remaining: Vec<u64>,
}

pub struct LockModel {
    pub counter: u64,
    pub lock: bool,
    pub entries: u64,
    pub total: u64,
    pub pcs: Seq<LockPc>,
    pub locals: Seq<u64>,
    pub remaining: Seq<u64>,
}

impl View for LockState {
    type V = LockModel;

    open spec fn view(&self) -> LockModel {
        LockModel {
            counter: self.counter,
            lock: self.lock,
            entries: self.entries,
            total: self.total,
            pcs: self.pcs@,
            locals: self.locals@,
            remaining: self.remaining@,
        }
    }
}

/// Between claiming the flag and releasing it: the region the flag is meant
/// to protect.
pub open spec fn in_critical(pc: LockPc) -> bool {
    pc == LockPc::Load || pc == LockPc::Store
}

impl LockModel {
    /// A fresh run of `w` workers, each with `k` increments to perform.
    pub open spec fn init(w: nat, k: u64) -> LockModel {
        LockModel {
            counter: 0,
            lock: false,
            entries: 0,
            total: (w * k) as u64,
            pcs: Seq::new(w, |_i: int| LockPc::Spin),
            locals: Seq::new(w, |_i: int| 0u64),
            remaining: Seq::new(w, |_i: int| k),
        }
    }

    pub open spec fn workers(self) -> nat {
        self.pcs.len()
    }

    /// Whether worker `id` exists and has an access left to perform.
    pub open spec fn active(self, id: int) -> bool {
        0 <= id < self.workers() && (self.remaining[id] > 0 || self.pcs[id] != LockPc::Spin)
    }

    /// Worker `id` performs its next memory access; an unknown or finished
    /// worker leaves the state as it is.
    pub open spec fn step(self, id: int) -> LockModel {
        if self.active(id) {
            match self.pcs[id] {
                LockPc::Spin => if self.lock {
                    self
                } else {
                    LockModel { pcs: self.pcs.update(id, LockPc::Claim), ..self }
                },
                LockPc::Claim => LockModel {
                    lock: true,
                    pcs: self.pcs.update(id, LockPc::Load),
                    ..self
                },
                LockPc::Load => LockModel {
                    pcs: self.pcs.update(id, LockPc::Store),
                    locals: self.locals.update(id, self.counter),
                    ..self
                },
                LockPc::Store => LockModel {
                    counter: (self.locals[id] + 1) as u64,
                    entries: (self.entries + 1) as u64,
                    pcs: self.pcs.update(id, LockPc::Release),
                    remaining: self.remaining.update(id, (self.remaining[id] - 1) as u64),
                    ..self
                },
                LockPc::Release => LockModel {
                    lock: false,
                    pcs: self.pcs.update(id, LockPc::Spin),
                    ..self
                },
            }
        } else {
            self
        }
    }

    /// The state after the steps of `schedule`, in order.
    pub open spec fn run(self, schedule: Seq<usize>) -> LockModel
        decreases schedule.len(),
    {
        if schedule.len() == 0 {
            self
        } else {
            self.run(schedule.drop_last()).step(schedule.last() as int)
        }
    }

    pub open spec fn finished(self) -> bool {
        forall|i: int| 0 <= i < self.workers() ==> !self.active(i)
    }

    pub open spec fn inv(self) -> bool {
        &&& self.locals.len() == self.workers()
        &&& self.remaining.len() == self.workers()
        &&& self.entries + sum(self.remaining) == self.total
        &&& self.counter <= self.entries
        &&& forall|i: int| 0 <= i < self.workers() ==> self.locals[i] <= self.entries
        &&& forall|i: int|
            0 <= i < self.workers() && (self.pcs[i] == LockPc::Claim || in_critical(self.pcs[i]))
                ==> self.remaining[i] > 0
    }
}

pub proof fn lemma_init_inv(w: nat, k: u64)
    requires
        w * k <= u64::MAX,
    ensures
        LockModel::init(w, k).inv(),
{
    lemma_sum_constant(w, k);
}

pub proof fn lemma_step_inv(s: LockModel, id: int)
    requires
        s.inv(),
    ensures
        s.step(id).inv(),
        s.step(id).workers() == s.workers(),
        s.step(id).total == s.total,
{
    if s.active(id) && s.pcs[id] == LockPc::Store {
        lemma_sum_update(s.remaining, id, (s.remaining[id] - 1) as u64);
    }
}

pub proof fn lemma_run_inv(s: LockModel, schedule: Seq<usize>)
    requires
        s.inv(),
    ensures
        s.run(schedule).inv(),
        s.run(schedule).workers() == s.workers(),
        s.run(schedule).total == s.total,
    decreases schedule.len(),
{
    if schedule.len() > 0 {
        lemma_run_inv(s, schedule.drop_last());
        lemma_step_inv(s.run(schedule.drop_last()), schedule.last() as int);
    }
}

/// Whatever the interleaving, the counter never exceeds the number of
/// increments performed, and so never exceeds `w * k`; once every worker is
/// done, exactly `w * k` increments have been performed.
pub proof fn lemma_counter_bounded(w: nat, k: u64, schedule: Seq<usize>)
    requires
        w * k <= u64::MAX,
    ensures
        LockModel::init(w, k).run(schedule).counter <= w * k,
        LockModel::init(w, k).run(schedule).counter <= LockModel::init(w, k).run(schedule).entries,
        LockModel::init(w, k).run(schedule).finished() ==> LockModel::init(w, k).run(schedule).entries == w * k,
{
    lemma_init_inv(w, k);
    lemma_run_inv(LockModel::init(w, k), schedule);
    let t = LockModel::init(w, k).run(schedule);
    lemma_sum_nonneg(t.remaining);
    if t.finished() {
        assert forall|i: int| 0 <= i < t.workers() implies t.remaining[i] == 0 by {
            assert(!t.active(i));
        }
        lemma_sum_zero(t.remaining);
    }
}

/// The flag does not give mutual exclusion: with two or more workers that
/// each have an increment to do, the first two can both read the flag as
/// clear and then both claim it, so that both stand in the critical region.
pub proof fn lemma_exclusion_can_fail(w: nat, k: u64)
    requires
        w >= 2,
        k >= 1,
    ensures
        in_critical(LockModel::init(w, k).run(seq![0usize, 1, 0, 1]).pcs[0]),
        in_critical(LockModel::init(w, k).run(seq![0usize, 1, 0, 1]).pcs[1]),
{
    let s0 = LockModel::init(w, k);
    let e = Seq::<usize>::empty();
    assert(seq![0usize, 1, 0, 1] =~= e.push(0).push(1).push(0).push(1));
    lemma_run_push(s0, e, 0);
    lemma_run_push(s0, e.push(0), 1);
    lemma_run_push(s0, e.push(0).push(1), 0);
    lemma_run_push(s0, e.push(0).push(1).push(0), 1);
}

pub proof fn lemma_run_push(s: LockModel, schedule: Seq<usize>, id: usize)
    ensures
        s.run(schedule.push(id)) == s.run(schedule).step(id as int),
{
    assert(schedule.push(id).drop_last() =~= schedule);
}

impl LockState {
    /// A fresh run of `workers` workers, each with `iterations` increments.
    pub fn new(workers: usize, iterations: u64) -> (r: LockState)
        requires
            workers * iterations <= u64::MAX,
        ensures
            r@ == LockModel::init(workers as nat, iterations),
            r@.inv(),
    {
        proof {
            lemma_init_inv(workers as nat, iterations);
        }
        LockState {
            counter: 0,
            lock: false,
            entries: 0,
            total: workers as u64 * iterations,
            pcs: filled(workers, LockPc::Spin),
            locals: filled(workers, 0u64),
            remaining: filled(workers, iterations),
        }
    }

    /// Whether worker `id` exists and has an access left to perform.
    pub fn is_active(&self, id: usize) -> (r: bool)
        requires
            self@.inv(),
        ensures
            r == self@.active(id as int),
    {
        id < self.pcs.len() && (self.remaining[id] > 0 || self.pcs[id] != LockPc::Spin)
    }

    /// Worker `id` performs its next memory access.
    pub fn step(&mut self, id: usize)
        requires
            old(self)@.inv(),
        ensures
            final(self)@ == old(self)@.step(id as int),
            final(self)@.inv(),
    {
        proof {
            lemma_step_inv(self@, id as int);
        }
        if self.is_active(id) {
            match self.pcs[id] {
                LockPc::Spin => {
                    if !self.lock {
                        self.pcs.set(id, LockPc::Claim);
                    }
                },
                LockPc::Claim => {
                    self.lock = true;
                    self.pcs.set(id, LockPc::Load);
                },
                LockPc::Load => {
                    let c = self.counter;
                    self.locals.set(id, c);
                    self.pcs.set(id, LockPc::Store);
                },
                LockPc::Store => {
                    proof {
                        lemma_sum_update(self.remaining@, id as int, 0);
                    }
                    let r = self.remaining[id] - 1;
                    self.counter = self.locals[id] + 1;
                    self.entries = self.entries + 1;
                    self.remaining.set(id, r);
                    self.pcs.set(id, LockPc::Release);
                },
                LockPc::Release => {
                    self.lock = false;
                    self.pcs.set(id, LockPc::Spin);
                },
            }
        }
    }

    /// Performs the steps of `schedule`, in order.
    pub fn run(&mut self, schedule: &Vec<usize>)
        requires
            old(self)@.inv(),
        ensures
            final(self)@ == old(self)@.run(schedule@),
            final(self)@.inv(),
    {
        let ghost start = self@;
        let mut n: usize = 0;
        while n < schedule.len()
            invariant
                n <= schedule@.len(),
                self@ == start.run(schedule@.take(n as int)),
                self@.inv(),
            decreases schedule@.len() - n,
        {
            proof {
                assert(schedule@.take(n + 1).drop_last() =~= schedule@.take(n as int));
            }
            self.step(schedule[n]);
            n += 1;
        }
        proof {
            assert(schedule@.take(n as int) =~= schedule@);
        }
    }

    /// Whether every worker has performed all its accesses.
    pub fn is_finished(&self) -> (r: bool)
        requires
            self@.inv(),
        ensures
            r == self@.finished(),
    {
        let mut i: usize = 0;
        while i < self.pcs.len()
            invariant
                self@.inv(),
                i <= self@.workers(),
                forall|j: int| 0 <= j < i ==> !self@.active(j),
            decreases self@.workers() - i,
        {
            if self.is_active(i) {
                return false;
            }
            i += 1;
        }
        true
    }
}

/// Runs `workers` flag-guarded workers of `iterations` increments each
/// through the interleaving `schedule`, from a fresh counter and flag.
pub fn using_lock(workers: usize, iterations: u64, schedule: &Vec<usize>) -> (r: LockState)
    requires
        workers * iterations <= u64::MAX,
    ensures
        r@ == LockModel::init(workers as nat, iterations).run(schedule@),
        r@.inv(),
{
    let mut s = LockState::new(workers, iterations);
    s.run(schedule);
    s
}

} // verus!
