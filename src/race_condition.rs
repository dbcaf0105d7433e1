//! Workers that increment a shared counter with no coordination at all. An
//! increment is a load into a private register followed by a store of that
//! value plus one, so an interleaving can lose updates.

use vstd::prelude::*;
use crate::tally::{filled, lemma_sum_constant, lemma_sum_nonneg, lemma_sum_update, lemma_sum_zero, sum};

verus! {

/// Default number of workers.
pub const WORKERS: usize = 10;

/// Default number of increments per worker.
pub const ITERATIONS: u64 = 1000;

/// Where a worker stands within one increment.
#[derive(Clone, Copy, PartialEq, Eq, Structural, Debug)]
pub enum RacePc {
    /// About to read the counter into its register.
    Load,
    /// About to write its register plus one back.
    Store,
}

/// The shared counter and each worker's private state.
pub struct RaceState {
    pub counter: u64,
    /// Stores completed so far, by all workers together.
    pub entries: u64,
    /// Number of increments that the run performs in all.
    pub total: u64,
    pub pcs: Vec<RacePc>,
    pub locals: Vec<u64>,
    /// Increments each worker has still to perform.
    pub remaining: Vec<u64>,
}

pub struct RaceModel {
    pub counter: u64,
    pub entries: u64,
    pub total: u64,
    pub pcs: Seq<RacePc>,
    pub locals: Seq<u64>,
    pub remaining: Seq<u64>,
}

impl View for RaceState {
    type V = RaceModel;

    open spec fn view(&self) -> RaceModel {
        RaceModel {
            counter: self.counter,
            entries: self.entries,
            total: self.total,
            pcs: self.pcs@,
            locals: self.locals@,
            remaining: self.remaining@,
        }
    }
}

impl RaceModel {
    /// A fresh run of `w` workers, each with `k` increments to perform.
    pub open spec fn init(w: nat, k: u64) -> RaceModel {
        RaceModel {
            counter: 0,
            entries: 0,
            total: (w * k) as u64,
            pcs: Seq::new(w, |_i: int| RacePc::Load),
            locals: Seq::new(w, |_i: int| 0u64),
            remaining: Seq::new(w, |_i: int| k),
        }
    }

    pub open spec fn workers(self) -> nat {
        self.pcs.len()
    }

    /// Worker `id` performs its next memory access; an unknown or finished
    /// worker leaves the state as it is.
    pub open spec fn step(self, id: int) -> RaceModel {
        if 0 <= id < self.workers() && self.remaining[id] > 0 {
            if self.pcs[id] == RacePc::Load {
                RaceModel {
                    pcs: self.pcs.update(id, RacePc::Store),
                    locals: self.locals.update(id, self.counter),
                    ..self
                }
            } else {
                RaceModel {
                    counter: (self.locals[id] + 1) as u64,
                    entries: (self.entries + 1) as u64,
                    pcs: self.pcs.update(id, RacePc::Load),
                    remaining: self.remaining.update(id, (self.remaining[id] - 1) as u64),
                    ..self
                }
            }
        } else {
            self
        }
    }

    /// The state after the steps of `schedule`, in order.
    pub open spec fn run(self, schedule: Seq<usize>) -> RaceModel
        decreases schedule.len(),
    {
        if schedule.len() == 0 {
            self
        } else {
            self.run(schedule.drop_last()).step(schedule.last() as int)
        }
    }

    pub open spec fn finished(self) -> bool {
        forall|i: int| 0 <= i < self.workers() ==> self.remaining[i] == 0
    }

    pub open spec fn inv(self) -> bool {
        &&& self.locals.len() == self.workers()
        &&& self.remaining.len() == self.workers()
        &&& self.entries + sum(self.remaining) == self.total
        &&& self.counter <= self.entries
        &&& forall|i: int| 0 <= i < self.workers() ==> self.locals[i] <= self.entries
    }
}

pub proof fn lemma_init_inv(w: nat, k: u64)
    requires
        w * k <= u64::MAX,
    ensures
        RaceModel::init(w, k).inv(),
{
    lemma_sum_constant(w, k);
}

pub proof fn lemma_step_inv(s: RaceModel, id: int)
    requires
        s.inv(),
    ensures
        s.step(id).inv(),
        s.step(id).workers() == s.workers(),
        s.step(id).total == s.total,
{
    if 0 <= id < s.workers() && s.remaining[id] > 0 {
        lemma_sum_update(s.remaining, id, (s.remaining[id] - 1) as u64);
    }
}

pub proof fn lemma_run_inv(s: RaceModel, schedule: Seq<usize>)
    requires
        s.inv(),
    ensures
        s.run(schedule).inv(),
        s.run(schedule).workers() == s.workers(),
        s.run(schedule).total == s.total,
    decreases schedule.len(),
{
    if schedule.len() > 0 {
        lemma_run_inv(s, schedule.drop_last());
        lemma_step_inv(s.run(schedule.drop_last()), schedule.last() as int);
    }
}

/// Whatever the interleaving, the counter never exceeds the number of
/// increments performed, and so never exceeds `w * k`; once every worker is
/// done, exactly `w * k` increments have been performed.
pub proof fn lemma_counter_bounded(w: nat, k: u64, schedule: Seq<usize>)
    requires
        w * k <= u64::MAX,
    ensures
        RaceModel::init(w, k).run(schedule).counter <= w * k,
        RaceModel::init(w, k).run(schedule).counter <= RaceModel::init(w, k).run(schedule).entries,
        RaceModel::init(w, k).run(schedule).finished() ==> RaceModel::init(w, k).run(schedule).entries == w * k,
{
    lemma_init_inv(w, k);
    lemma_run_inv(RaceModel::init(w, k), schedule);
    let t = RaceModel::init(w, k).run(schedule);
    lemma_sum_nonneg(t.remaining);
    if t.finished() {
        lemma_sum_zero(t.remaining);
    }
}

pub proof fn lemma_run_push(s: RaceModel, schedule: Seq<usize>, id: usize)
    ensures
        s.run(schedule.push(id)) == s.run(schedule).step(id as int),
{
    assert(schedule.push(id).drop_last() =~= schedule);
}

pub proof fn lemma_run_append(s: RaceModel, a: Seq<usize>, b: Seq<usize>)
    ensures
        s.run(a + b) == s.run(a).run(b),
    decreases b.len(),
{
    if b.len() == 0 {
        assert(a + b =~= a);
    } else {
        assert((a + b).drop_last() =~= a + b.drop_last());
        lemma_run_append(s, a, b.drop_last());
    }
}

/// `r` whole increments by worker `id` alone.
pub open spec fn solo(id: usize, r: nat) -> Seq<usize> {
    Seq::new(2 * r, |_i: int| id)
}

/// Each of the first `n` workers in turn performs its `rem` increments alone.
pub open spec fn flush(rem: Seq<u64>, n: nat) -> Seq<usize>
    decreases n,
{
    if n == 0 {
        Seq::empty()
    } else {
        flush(rem, (n - 1) as nat) + solo((n - 1) as usize, rem[n - 1] as nat)
    }
}

/// Two workers read the counter before either writes, and then every worker
/// runs its remaining increments alone.
pub open spec fn lossy_schedule(w: nat, k: u64) -> Seq<usize> {
    let prefix = seq![0usize, 1, 0, 1];
    prefix + flush(RaceModel::init(w, k).run(prefix).remaining, w)
}

proof fn lemma_solo(s: RaceModel, id: usize, r: nat)
    requires
        s.inv(),
        id < s.workers(),
        s.pcs[id as int] == RacePc::Load,
        r <= s.remaining[id as int],
    ensures
        s.run(solo(id, r)).inv(),
        s.run(solo(id, r)).counter == s.counter + r,
        s.run(solo(id, r)).entries == s.entries + r,
        s.run(solo(id, r)).pcs == s.pcs,
        s.run(solo(id, r)).remaining == s.remaining.update(
            id as int,
            (s.remaining[id as int] - r) as u64,
        ),
    decreases r,
{
    if r == 0 {
        assert(solo(id, r) =~= Seq::<usize>::empty());
        assert(s.remaining.update(id as int, s.remaining[id as int]) =~= s.remaining);
    } else {
        let p = solo(id, (r - 1) as nat);
        lemma_solo(s, id, (r - 1) as nat);
        assert(solo(id, r) =~= p.push(id).push(id));
        lemma_run_push(s, p, id);
        lemma_run_push(s, p.push(id), id);
        let m = s.run(p);
        lemma_sum_update(m.remaining, id as int, 0);
        lemma_step_inv(m, id as int);
        lemma_step_inv(m.step(id as int), id as int);
        let t = m.step(id as int).step(id as int);
        assert(t.pcs =~= s.pcs);
        assert(t.remaining =~= s.remaining.update(id as int, (s.remaining[id as int] - r) as u64));
    }
}

proof fn lemma_flush(s: RaceModel, n: nat)
    requires
        s.inv(),
        n <= s.workers(),
        s.workers() <= usize::MAX,
        forall|i: int| 0 <= i < s.workers() ==> s.pcs[i] == RacePc::Load,
    ensures
        s.run(flush(s.remaining, n)).inv(),
        s.run(flush(s.remaining, n)).pcs == s.pcs,
        s.run(flush(s.remaining, n)).entries - s.run(flush(s.remaining, n)).counter == s.entries
            - s.counter,
        forall|i: int| 0 <= i < n ==> s.run(flush(s.remaining, n)).remaining[i] == 0,
        forall|i: int|
            n <= i < s.workers() ==> s.run(flush(s.remaining, n)).remaining[i] == s.remaining[i],
    decreases n,
{
    if n == 0 {
        assert(flush(s.remaining, n) =~= Seq::<usize>::empty());
    } else {
        let m1 = (n - 1) as nat;
        lemma_flush(s, m1);
        let p = flush(s.remaining, m1);
        let m = s.run(p);
        let id = (n - 1) as usize;
        lemma_run_append(s, p, solo(id, s.remaining[n - 1] as nat));
        lemma_solo(m, id, s.remaining[n - 1] as nat);
    }
}

/// Updates can be lost for good: with at least two workers and one
/// increment each, some interleaving runs every worker to completion and
/// leaves the counter below `w * k`.
pub proof fn lemma_lost_update(w: nat, k: u64)
    requires
        w >= 2,
        k >= 1,
        w <= usize::MAX,
        w * k <= u64::MAX,
    ensures
        RaceModel::init(w, k).run(lossy_schedule(w, k)).finished(),
        RaceModel::init(w, k).run(lossy_schedule(w, k)).counter < w * k,
{
    let s0 = RaceModel::init(w, k);
    let e = Seq::<usize>::empty();
    let prefix = seq![0usize, 1, 0, 1];
    assert(prefix =~= e.push(0).push(1).push(0).push(1));
    lemma_run_push(s0, e, 0);
    lemma_run_push(s0, e.push(0), 1);
    lemma_run_push(s0, e.push(0).push(1), 0);
    lemma_run_push(s0, e.push(0).push(1).push(0), 1);
    let s4 = s0.run(prefix);
    assert(s4.counter == 1 && s4.entries == 2);
    assert(s4.pcs =~= s0.pcs);
    lemma_init_inv(w, k);
    lemma_run_inv(s0, prefix);
    lemma_flush(s4, w);
    lemma_run_append(s0, prefix, flush(s4.remaining, w));
    lemma_counter_bounded(w, k, lossy_schedule(w, k));
}

impl RaceState {
    /// A fresh run of `workers` workers, each with `iterations` increments.
    pub fn new(workers: usize, iterations: u64) -> (r: RaceState)
        requires
            workers * iterations <= u64::MAX,
        ensures
            r@ == RaceModel::init(workers as nat, iterations),
            r@.inv(),
    {
        proof {
            lemma_init_inv(workers as nat, iterations);
        }
        RaceState {
            counter: 0,
            entries: 0,
            total: workers as u64 * iterations,
            pcs: filled(workers, RacePc::Load),
            locals: filled(workers, 0u64),
            remaining: filled(workers, iterations),
        }
    }

    /// Worker `id` performs its next memory access.
    pub fn step(&mut self, id: usize)
        requires
            old(self)@.inv(),
        ensures
            final(self)@ == old(self)@.step(id as int),
            final(self)@.inv(),
    {
        proof {
            lemma_step_inv(self@, id as int);
        }
        if id < self.pcs.len() && self.remaining[id] > 0 {
            if self.pcs[id] == RacePc::Load {
                let c = self.counter;
                self.locals.set(id, c);
                self.pcs.set(id, RacePc::Store);
            } else {
                proof {
                    lemma_sum_update(self.remaining@, id as int, 0);
                }
                let r = self.remaining[id] - 1;
                self.counter = self.locals[id] + 1;
                self.entries = self.entries + 1;
                self.remaining.set(id, r);
                self.pcs.set(id, RacePc::Load);
            }
        }
    }

    /// Performs the steps of `schedule`, in order.
    pub fn run(&mut self, schedule: &Vec<usize>)
        requires
            old(self)@.inv(),
        ensures
            final(self)@ == old(self)@.run(schedule@),
            final(self)@.inv(),
    {
        let ghost start = self@;
        let mut n: usize = 0;
        while n < schedule.len()
            invariant
                n <= schedule@.len(),
                self@ == start.run(schedule@.take(n as int)),
                self@.inv(),
            decreases schedule@.len() - n,
        {
            proof {
                assert(schedule@.take(n + 1).drop_last() =~= schedule@.take(n as int));
            }
            self.step(schedule[n]);
            n += 1;
        }
        proof {
            assert(schedule@.take(n as int) =~= schedule@);
        }
    }

    /// Whether every worker has performed all its increments.
    pub fn is_finished(&self) -> (r: bool)
        requires
            self@.inv(),
        ensures
            r == self@.finished(),
    {
        let mut i: usize = 0;
        while i < self.remaining.len()
            invariant
                self@.inv(),
                i <= self.remaining@.len(),
                forall|j: int| 0 <= j < i ==> self.remaining@[j] == 0,
            decreases self.remaining@.len() - i,
        {
            if self.remaining[i] != 0 {
                return false;
            }
            i += 1;
        }
        true
    }
}

/// Runs `workers` unsynchronized workers of `iterations` increments each
/// through the interleaving `schedule`, from a fresh counter.
pub fn test(workers: usize, iterations: u64, schedule: &Vec<usize>) -> (r: RaceState)
    requires
        workers * iterations <= u64::MAX,
    ensures
        r@ == RaceModel::init(workers as nat, iterations).run(schedule@),
        r@.inv(),
{
    let mut s = RaceState::new(workers, iterations);
    s.run(schedule);
    s
}

} // verus!
