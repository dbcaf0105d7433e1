//! Two workers that take turns: worker `id` spins until the shared turn
//! equals `id`, increments the counter, and hands the turn to the other.

use vstd::prelude::*;
use crate::tally::filled;

verus! {

/// Where a worker stands within one turn.
#[derive(Clone, Copy, PartialEq, Eq, Structural, Debug)]
pub enum TurnPc {
    /// Reading the turn; moves on only when it names this worker.
    Wait,
    /// About to read the counter into its register.
    Load,
    /// About to write its register plus one back.
    Store,
    /// About to hand the turn to the other worker.
    Advance,
}

/// The shared counter and turn, and each of the two workers' private state.
pub struct TurnState {
    pub counter: u64,
    pub turn: usize,
    /// Stores completed so far, by both workers together.
    pub entries: u64,
    /// Number of increments that the run performs in all.
    pub total: u64,
    /// The id of the worker behind each store, in order.
    pub order: Vec<usize>,
    pub pcs: Vec<TurnPc>,
    pub locals: Vec<u64>,
    /// Increments each worker has still to complete.
    pub remaining: Vec<u64>,
}

pub struct TurnModel {
    pub counter: u64,
    pub turn: usize,
    pub entries: u64,
    pub total: u64,
    pub order: Seq<usize>,
    pub pcs: Seq<TurnPc>,
    pub locals: Seq<u64>,
    pub remaining: Seq<u64>,
}

impl View for TurnState {
    type V = TurnModel;

    open spec fn view(&self) -> TurnModel {
        TurnModel {
            counter: self.counter,
            turn: self.turn,
            entries: self.entries,
            total: self.total,
            order: self.order@,
            pcs: self.pcs@,
            locals: self.locals@,
            remaining: self.remaining@,
        }
    }
}

/// Past the wait: the region the turn is meant to protect.
pub open spec fn in_critical(pc: TurnPc) -> bool {
    pc == TurnPc::Load || pc == TurnPc::Store
}

/// Holding the turn: in the critical region or about to hand the turn on.
pub open spec fn holds_turn(pc: TurnPc) -> bool {
    in_critical(pc) || pc == TurnPc::Advance
}

impl TurnModel {
    /// A fresh run of two workers, each with `k` increments to perform.
    pub open spec fn init(k: u64) -> TurnModel {
        TurnModel {
            counter: 0,
            turn: 0,
            entries: 0,
            total: (2 * k) as u64,
            order: Seq::empty(),
            pcs: Seq::new(2, |_i: int| TurnPc::Wait),
            locals: Seq::new(2, |_i: int| 0u64),
            remaining: Seq::new(2, |_i: int| k),
        }
    }

    /// Whether worker `id` exists and has an access left to perform.
    pub open spec fn active(self, id: int) -> bool {
        0 <= id < 2 && (self.remaining[id] > 0 || self.pcs[id] != TurnPc::Wait)
    }

    /// Worker `id` performs its next memory access; an unknown or finished
    /// worker leaves the state as it is.
    pub open spec fn step(self, id: int) -> TurnModel {
        if self.active(id) {
            match self.pcs[id] {
                TurnPc::Wait => if self.turn == id {
                    TurnModel { pcs: self.pcs.update(id, TurnPc::Load), ..self }
                } else {
                    self
                },
                TurnPc::Load => TurnModel {
                    pcs: self.pcs.update(id, TurnPc::Store),
                    locals: self.locals.update(id, self.counter),
                    ..self
                },
                TurnPc::Store => TurnModel {
                    counter: (self.locals[id] + 1) as u64,
                    entries: (self.entries + 1) as u64,
                    order: self.order.push(id as usize),
                    pcs: self.pcs.update(id, TurnPc::Advance),
                    remaining: self.remaining.update(id, (self.remaining[id] - 1) as u64),
                    ..self
                },
                TurnPc::Advance => TurnModel {
                    turn: ((self.turn + 1) % 2) as usize,
                    pcs: self.pcs.update(id, TurnPc::Wait),
                    ..self
                },
            }
        } else {
            self
        }
    }

    /// The state after the steps of `schedule`, in order.
    pub open spec fn run(self, schedule: Seq<usize>) -> TurnModel
        decreases schedule.len(),
    {
        if schedule.len() == 0 {
            self
        } else {
            self.run(schedule.drop_last()).step(schedule.last() as int)
        }
    }

    pub open spec fn finished(self) -> bool {
        !self.active(0) && !self.active(1)
    }

    pub open spec fn inv(self) -> bool {
        &&& self.pcs.len() == 2
        &&& self.locals.len() == 2
        &&& self.remaining.len() == 2
        &&& self.turn < 2
        &&& self.entries + self.remaining[0] + self.remaining[1] == self.total
        &&& self.counter == self.entries
        &&& self.order.len() == self.entries
        &&& forall|n: int| 0 <= n < self.order.len() ==> self.order[n] == n % 2
        &&& forall|i: int| 0 <= i < 2 && holds_turn(self.pcs[i]) ==> self.turn == i
        &&& forall|i: int| 0 <= i < 2 && in_critical(self.pcs[i]) ==> self.remaining[i] > 0
        &&& forall|i: int| 0 <= i < 2 && self.pcs[i] == TurnPc::Store ==> self.locals[i] == self.counter
        &&& self.order.len() % 2 == if self.pcs[self.turn as int] == TurnPc::Advance {
            1 - self.turn
        } else {
            self.turn as int
        }
    }
}

pub proof fn lemma_step_inv(s: TurnModel, id: int)
    requires
        s.inv(),
    ensures
        s.step(id).inv(),
        s.step(id).total == s.total,
{
    let t = s.step(id);
    if s.active(id) && s.pcs[id] == TurnPc::Store {
        assert forall|n: int| 0 <= n < t.order.len() implies t.order[n] == n % 2 by {
            if n < s.order.len() {
                assert(t.order[n] == s.order[n]);
            }
        }
    }
}

pub proof fn lemma_run_inv(s: TurnModel, schedule: Seq<usize>)
    requires
        s.inv(),
    ensures
        s.run(schedule).inv(),
        s.run(schedule).total == s.total,
    decreases schedule.len(),
{
    if schedule.len() > 0 {
        lemma_run_inv(s, schedule.drop_last());
        lemma_step_inv(s.run(schedule.drop_last()), schedule.last() as int);
    }
}

/// Under every interleaving: the two workers are never in the critical
/// region together, no increment is lost, the stores come from workers
/// `0, 1, 0, 1, ...` in strict alternation, and once both are done the
/// counter is exactly `2 * k`.
pub proof fn lemma_alternation(k: u64, schedule: Seq<usize>)
    requires
        2 * k <= u64::MAX,
    ensures
        !(in_critical(TurnModel::init(k).run(schedule).pcs[0]) && in_critical(
            TurnModel::init(k).run(schedule).pcs[1],
        )),
        TurnModel::init(k).run(schedule).counter == TurnModel::init(k).run(schedule).order.len(),
        forall|n: int|
            0 <= n < TurnModel::init(k).run(schedule).order.len()
                ==> TurnModel::init(k).run(schedule).order[n] == n % 2,
        TurnModel::init(k).run(schedule).finished() ==> TurnModel::init(k).run(schedule).counter
            == 2 * k,
{
    lemma_run_inv(TurnModel::init(k), schedule);
}

/// If worker 1 never runs, worker 0 stalls after its first turn: under every
/// schedule made of worker 0 alone the counter stays at most 1, and with
/// `k >= 1` the run never finishes.
pub proof fn lemma_absent_partner_blocks(k: u64, schedule: Seq<usize>)
    requires
        2 * k <= u64::MAX,
        forall|n: int| 0 <= n < schedule.len() ==> schedule[n] == 0,
    ensures
        TurnModel::init(k).run(schedule).counter <= 1,
        TurnModel::init(k).run(schedule).pcs[1] == TurnPc::Wait,
        TurnModel::init(k).run(schedule).remaining[1] == k,
        k >= 1 ==> !TurnModel::init(k).run(schedule).finished(),
    decreases schedule.len(),
{
    lemma_run_inv(TurnModel::init(k), schedule);
    if schedule.len() > 0 {
        let p = schedule.drop_last();
        lemma_absent_partner_blocks(k, p);
        lemma_run_inv(TurnModel::init(k), p);
    }
}

/// The outcome does not depend on the interleaving: any two schedules that
/// run both workers to completion leave the same counter.
pub proof fn lemma_same_outcome(k: u64, a: Seq<usize>, b: Seq<usize>)
    requires
        2 * k <= u64::MAX,
        TurnModel::init(k).run(a).finished(),
        TurnModel::init(k).run(b).finished(),
    ensures
        TurnModel::init(k).run(a).counter == TurnModel::init(k).run(b).counter,
{
    lemma_alternation(k, a);
    lemma_alternation(k, b);
}

pub proof fn lemma_run_push(s: TurnModel, schedule: Seq<usize>, id: usize)
    ensures
        s.run(schedule.push(id)) == s.run(schedule).step(id as int),
{
    assert(schedule.push(id).drop_last() =~= schedule);
}

impl TurnState {
    /// A fresh run of two workers, each with `iterations` increments.
    pub fn new(iterations: u64) -> (r: TurnState)
        requires
            2 * iterations <= u64::MAX,
        ensures
            r@ == TurnModel::init(iterations),
            r@.inv(),
    {
        let r = TurnState {
            counter: 0,
            turn: 0,
            entries: 0,
            total: 2 * iterations,
            order: Vec::new(),
            pcs: filled(2, TurnPc::Wait),
            locals: filled(2, 0u64),
            remaining: filled(2, iterations),
        };
        assert(r@.order =~= Seq::<usize>::empty());
        r
    }

    /// Whether worker `id` exists and has an access left to perform.
    pub fn is_active(&self, id: usize) -> (r: bool)
        requires
            self@.inv(),
        ensures
            r == self@.active(id as int),
    {
        id < 2 && (self.remaining[id] > 0 || self.pcs[id] != TurnPc::Wait)
    }

    /// Worker `id` performs its next memory access.
    pub fn step(&mut self, id: usize)
        requires
            old(self)@.inv(),
        ensures
            final(self)@ == old(self)@.step(id as int),
            final(self)@.inv(),
    {
        proof {
            lemma_step_inv(self@, id as int);
        }
        if self.is_active(id) {
            match self.pcs[id] {
                TurnPc::Wait => {
                    if self.turn == id {
                        self.pcs.set(id, TurnPc::Load);
                    }
                },
                TurnPc::Load => {
                    let c = self.counter;
                    self.locals.set(id, c);
                    self.pcs.set(id, TurnPc::Store);
                },
                TurnPc::Store => {
                    let r = self.remaining[id] - 1;
                    self.counter = self.locals[id] + 1;
                    self.entries = self.entries + 1;
                    self.order.push(id);
                    self.remaining.set(id, r);
                    self.pcs.set(id, TurnPc::Advance);
                },
                TurnPc::Advance => {
                    self.turn = (self.turn + 1) % 2;
                    self.pcs.set(id, TurnPc::Wait);
                },
            }
        }
    }

    /// Performs the steps of `schedule`, in order.
    pub fn run(&mut self, schedule: &Vec<usize>)
        requires
            old(self)@.inv(),
        ensures
            final(self)@ == old(self)@.run(schedule@),
            final(self)@.inv(),
    {
        let ghost start = self@;
        let mut n: usize = 0;
        while n < schedule.len()
            invariant
                n <= schedule@.len(),
                self@ == start.run(schedule@.take(n as int)),
                self@.inv(),
            decreases schedule@.len() - n,
        {
            proof {
                lemma_run_push(start, schedule@.take(n as int), schedule@[n as int]);
                assert(schedule@.take(n + 1) =~= schedule@.take(n as int).push(schedule@[n as int]));
            }
            self.step(schedule[n]);
            n += 1;
        }
        proof {
            assert(schedule@.take(n as int) =~= schedule@);
        }
    }

    /// Whether both workers have performed all their accesses.
    pub fn is_finished(&self) -> (r: bool)
        requires
            self@.inv(),
        ensures
            r == self@.finished(),
    {
        !self.is_active(0) && !self.is_active(1)
    }
}

/// Runs two alternating workers of `iterations` increments each through the
/// interleaving `schedule`, from a fresh counter with the turn at worker 0.
pub fn using_turn(iterations: u64, schedule: &Vec<usize>) -> (r: TurnState)
    requires
        2 * iterations <= u64::MAX,
    ensures
        r@ == TurnModel::init(iterations).run(schedule@),
        r@.inv(),
{
    let mut s = TurnState::new(iterations);
    s.run(schedule);
    s
}

} // verus!
