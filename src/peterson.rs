//! Peterson's algorithm for two workers. Worker `id` raises its flag, yields
//! the turn to the other, and waits while the other's flag is raised and the
//! turn is the other's; after its increment it lowers its flag. The wait
//! reads the other's flag and then the turn, as two accesses; the machine is
//! sequentially consistent.

use vstd::prelude::*;
use crate::tally::filled;

verus! {

/// Where a worker stands within one entry.
#[derive(Clone, Copy, PartialEq, Eq, Structural, Debug)]
pub enum PetersonPc {
    /// About to raise its flag.
    Raise,
    /// About to give the turn to the other worker.
    Yield,
    /// Reading the other's flag: enters if it is lowered, else goes on to
    /// read the turn.
    WaitFlag,
    /// Reading the turn: enters if it is not the other's, else reads the
    /// other's flag again.
    WaitTurn,
    /// About to read the counter into its register.
    Load,
    /// About to write its register plus one back.
    Store,
    /// About to lower its flag.
    Lower,
}

/// The shared counter, flags and turn, and each worker's private state.
pub struct PetersonState {
    pub counter: u64,
    pub flags: Vec<bool>,
    pub turn: usize,
    /// Stores completed so far, by both workers together.
    pub entries: u64,
    /// Number of increments that the run performs in all.
    pub total: u64,
    /// The id of the worker behind each store, in order.
    pub order: Vec<usize>,
    /// How often the other worker entered while this one waited, counted
    /// since this one began to wait.
    pub passed_over: Vec<u64>,
    pub pcs: Vec<PetersonPc>,
    pub locals: Vec<u64>,
    /// Increments each worker has still to complete.
    pub remaining: Vec<u64>,
}

pub struct PetersonModel {
    pub counter: u64,
    pub flags: Seq<bool>,
    pub turn: usize,
    pub entries: u64,
    pub total: u64,
    pub order: Seq<usize>,
    pub passed_over: Seq<u64>,
    pub pcs: Seq<PetersonPc>,
    pub locals: Seq<u64>,
    pub remaining: Seq<u64>,
}

impl View for PetersonState {
    type V = PetersonModel;

    open spec fn view(&self) -> PetersonModel {
        PetersonModel {
            counter: self.counter,
            flags: self.flags@,
            turn: self.turn,
            entries: self.entries,
            total: self.total,
            order: self.order@,
            passed_over: self.passed_over@,
            pcs: self.pcs@,
            locals: self.locals@,
            remaining: self.remaining@,
        }
    }
}

/// Past the wait: the region the protocol protects.
pub open spec fn in_critical(pc: PetersonPc) -> bool {
    pc == PetersonPc::Load || pc == PetersonPc::Store
}

/// Between raising the flag and completing the increment.
pub open spec fn interested(pc: PetersonPc) -> bool {
    pc == PetersonPc::Yield || waiting(pc) || in_critical(pc)
}

/// Within the wait loop.
pub open spec fn waiting(pc: PetersonPc) -> bool {
    pc == PetersonPc::WaitFlag || pc == PetersonPc::WaitTurn
}

/// Between raising the flag and lowering it.
pub open spec fn flag_raised(pc: PetersonPc) -> bool {
    interested(pc) || pc == PetersonPc::Lower
}

pub open spec fn other(id: int) -> int {
    1 - id
}

impl PetersonModel {
    /// A fresh run of two workers, each with `k` increments to perform.
    pub open spec fn init(k: u64) -> PetersonModel {
        PetersonModel {
            counter: 0,
            flags: Seq::new(2, |_i: int| false),
            turn: 0,
            entries: 0,
            total: (2 * k) as u64,
            order: Seq::empty(),
            passed_over: Seq::new(2, |_i: int| 0u64),
            pcs: Seq::new(2, |_i: int| PetersonPc::Raise),
            locals: Seq::new(2, |_i: int| 0u64),
            remaining: Seq::new(2, |_i: int| k),
        }
    }

    /// Whether worker `id` exists and has an access left to perform.
    pub open spec fn active(self, id: int) -> bool {
        0 <= id < 2 && (self.remaining[id] > 0 || self.pcs[id] != PetersonPc::Raise)
    }

    /// Worker `id` leaves the wait loop for the critical region; if the
    /// other worker is waiting, it has been passed over once more.
    pub open spec fn enter(self, id: int) -> PetersonModel {
        PetersonModel {
            pcs: self.pcs.update(id, PetersonPc::Load),
            passed_over: if waiting(self.pcs[other(id)]) {
                self.passed_over.update(id, 0).update(
                    other(id),
                    (self.passed_over[other(id)] + 1) as u64,
                )
            } else {
                self.passed_over.update(id, 0)
            },
            ..self
        }
    }

    /// Worker `id` performs its next memory access; an unknown or finished
    /// worker leaves the state as it is.
    pub open spec fn step(self, id: int) -> PetersonModel {
        if self.active(id) {
            match self.pcs[id] {
                PetersonPc::Raise => PetersonModel {
                    flags: self.flags.update(id, true),
                    pcs: self.pcs.update(id, PetersonPc::Yield),
                    ..self
                },
                PetersonPc::Yield => PetersonModel {
                    turn: other(id) as usize,
                    pcs: self.pcs.update(id, PetersonPc::WaitFlag),
                    ..self
                },
                PetersonPc::WaitFlag => if self.flags[other(id)] {
                    PetersonModel { pcs: self.pcs.update(id, PetersonPc::WaitTurn), ..self }
                } else {
                    self.enter(id)
                },
                PetersonPc::WaitTurn => if self.turn == other(id) {
                    PetersonModel { pcs: self.pcs.update(id, PetersonPc::WaitFlag), ..self }
                } else {
                    self.enter(id)
                },
                PetersonPc::Load => PetersonModel {
                    pcs: self.pcs.update(id, PetersonPc::Store),
                    locals: self.locals.update(id, self.counter),
                    ..self
                },
                PetersonPc::Store => PetersonModel {
                    counter: (self.locals[id] + 1) as u64,
                    entries: (self.entries + 1) as u64,
                    order: self.order.push(id as usize),
                    pcs: self.pcs.update(id, PetersonPc::Lower),
                    remaining: self.remaining.update(id, (self.remaining[id] - 1) as u64),
                    ..self
                },
                PetersonPc::Lower => PetersonModel {
                    flags: self.flags.update(id, false),
                    pcs: self.pcs.update(id, PetersonPc::Raise),
                    ..self
                },
            }
        } else {
            self
        }
    }

    /// The state after the steps of `schedule`, in order.
    pub open spec fn run(self, schedule: Seq<usize>) -> PetersonModel
        decreases schedule.len(),
    {
        if schedule.len() == 0 {
            self
        } else {
            self.run(schedule.drop_last()).step(schedule.last() as int)
        }
    }

    pub open spec fn finished(self) -> bool {
        !self.active(0) && !self.active(1)
    }

    /// What holds of worker `i` in every reachable state.
    pub open spec fn worker_inv(self, i: int) -> bool {
        let j = other(i);
        &&& self.flags[i] == flag_raised(self.pcs[i])
        &&& interested(self.pcs[i]) ==> self.remaining[i] > 0
        &&& self.pcs[i] == PetersonPc::Store ==> self.locals[i] == self.counter
        &&& in_critical(self.pcs[i]) && (waiting(self.pcs[j]) || in_critical(self.pcs[j]))
            ==> self.turn == i
        &&& self.passed_over[i] <= 1
        &&& !waiting(self.pcs[i]) ==> self.passed_over[i] == 0
        &&& waiting(self.pcs[i]) && self.passed_over[i] == 1 && waiting(self.pcs[j])
            ==> self.turn == i
    }

    pub open spec fn inv(self) -> bool {
        &&& self.flags.len() == 2
        &&& self.passed_over.len() == 2
        &&& self.pcs.len() == 2
        &&& self.locals.len() == 2
        &&& self.remaining.len() == 2
        &&& self.turn < 2
        &&& self.entries + self.remaining[0] + self.remaining[1] == self.total
        &&& self.counter == self.entries
        &&& self.order.len() == self.entries
        &&& self.worker_inv(0)
        &&& self.worker_inv(1)
    }
}

pub proof fn lemma_step_inv(s: PetersonModel, id: int)
    requires
        s.inv(),
    ensures
        s.step(id).inv(),
        s.step(id).total == s.total,
{
    if s.active(id) && s.pcs[id] == PetersonPc::Store {
        assert(s.worker_inv(id) && s.worker_inv(other(id)));
        assert(!in_critical(s.pcs[other(id)]));
    }
}

pub proof fn lemma_run_inv(s: PetersonModel, schedule: Seq<usize>)
    requires
        s.inv(),
    ensures
        s.run(schedule).inv(),
        s.run(schedule).total == s.total,
    decreases schedule.len(),
{
    if schedule.len() > 0 {
        lemma_run_inv(s, schedule.drop_last());
        lemma_step_inv(s.run(schedule.drop_last()), schedule.last() as int);
    }
}

/// Progress: in any state that a run reaches, a waiting worker whose
/// partner has not raised its flag enters the critical region within two of
/// its own steps.
pub proof fn lemma_progress(k: u64, schedule: Seq<usize>, id: int)
    requires
        2 * k <= u64::MAX,
        0 <= id < 2,
        waiting(PetersonModel::init(k).run(schedule).pcs[id]),
        PetersonModel::init(k).run(schedule).pcs[other(id)] == PetersonPc::Raise,
    ensures
        in_critical(PetersonModel::init(k).run(schedule).step(id).pcs[id]) || in_critical(
            PetersonModel::init(k).run(schedule).step(id).step(id).pcs[id],
        ),
{
    lemma_run_inv(PetersonModel::init(k), schedule);
    let s = PetersonModel::init(k).run(schedule);
    assert(s.worker_inv(id) && s.worker_inv(other(id)));
    assert(!s.flags[other(id)]);
}

/// The outcome does not depend on the interleaving: any two schedules that
/// run both workers to completion leave the same counter.
pub proof fn lemma_same_outcome(k: u64, a: Seq<usize>, b: Seq<usize>)
    requires
        2 * k <= u64::MAX,
        PetersonModel::init(k).run(a).finished(),
        PetersonModel::init(k).run(b).finished(),
    ensures
        PetersonModel::init(k).run(a).counter == PetersonModel::init(k).run(b).counter,
{
    lemma_peterson(k, a);
    lemma_peterson(k, b);
}

pub proof fn lemma_run_push(s: PetersonModel, schedule: Seq<usize>, id: usize)
    ensures
        s.run(schedule.push(id)) == s.run(schedule).step(id as int),
{
    assert(schedule.push(id).drop_last() =~= schedule);
}

/// Under every interleaving: the two workers are never in the critical
/// region together, no increment is lost, neither worker is passed over more
/// than once while it waits, and once both are done the counter is exactly
/// `2 * k`.
pub proof fn lemma_peterson(k: u64, schedule: Seq<usize>)
    requires
        2 * k <= u64::MAX,
    ensures
        !(in_critical(PetersonModel::init(k).run(schedule).pcs[0]) && in_critical(
            PetersonModel::init(k).run(schedule).pcs[1],
        )),
        PetersonModel::init(k).run(schedule).counter == PetersonModel::init(k).run(
            schedule,
        ).order.len(),
        PetersonModel::init(k).run(schedule).passed_over[0] <= 1,
        PetersonModel::init(k).run(schedule).passed_over[1] <= 1,
        PetersonModel::init(k).run(schedule).finished() ==> PetersonModel::init(k).run(
            schedule,
        ).counter == 2 * k,
{
    lemma_run_inv(PetersonModel::init(k), schedule);
    let t = PetersonModel::init(k).run(schedule);
    assert(t.worker_inv(0) && t.worker_inv(1));
}

impl PetersonState {
    /// A fresh run of two workers, each with `iterations` increments.
    pub fn new(iterations: u64) -> (r: PetersonState)
        requires
            2 * iterations <= u64::MAX,
        ensures
            r@ == PetersonModel::init(iterations),
            r@.inv(),
    {
        let r = PetersonState {
            counter: 0,
            flags: filled(2, false),
            turn: 0,
            entries: 0,
            total: 2 * iterations,
            order: Vec::new(),
            passed_over: filled(2, 0u64),
            pcs: filled(2, PetersonPc::Raise),
            locals: filled(2, 0u64),
            remaining: filled(2, iterations),
        };
        assert(r@.order =~= Seq::<usize>::empty());
        r
    }

    /// Whether worker `id` exists and has an access left to perform.
    pub fn is_active(&self, id: usize) -> (r: bool)
        requires
            self@.inv(),
        ensures
            r == self@.active(id as int),
    {
        id < 2 && (self.remaining[id] > 0 || self.pcs[id] != PetersonPc::Raise)
    }

    /// Worker `id` performs its next memory access.
    pub fn step(&mut self, id: usize)
        requires
            old(self)@.inv(),
        ensures
            final(self)@ == old(self)@.step(id as int),
            final(self)@.inv(),
    {
        proof {
            lemma_step_inv(self@, id as int);
        }
        if self.is_active(id) {
            let j: usize = 1 - id;
            match self.pcs[id] {
                PetersonPc::Raise => {
                    self.flags.set(id, true);
                    self.pcs.set(id, PetersonPc::Yield);
                },
                PetersonPc::Yield => {
                    self.turn = j;
                    self.pcs.set(id, PetersonPc::WaitFlag);
                },
                PetersonPc::WaitFlag => {
                    if self.flags[j] {
                        self.pcs.set(id, PetersonPc::WaitTurn);
                    } else {
                        self.enter(id);
                    }
                },
                PetersonPc::WaitTurn => {
                    if self.turn == j {
                        self.pcs.set(id, PetersonPc::WaitFlag);
                    } else {
                        self.enter(id);
                    }
                },
                PetersonPc::Load => {
                    let c = self.counter;
                    self.locals.set(id, c);
                    self.pcs.set(id, PetersonPc::Store);
                },
                PetersonPc::Store => {
                    let r = self.remaining[id] - 1;
                    self.counter = self.locals[id] + 1;
                    self.entries = self.entries + 1;
                    self.order.push(id);
                    self.remaining.set(id, r);
                    self.pcs.set(id, PetersonPc::Lower);
                },
                PetersonPc::Lower => {
                    self.flags.set(id, false);
                    self.pcs.set(id, PetersonPc::Raise);
                },
            }
        }
    }

    /// Worker `id` leaves the wait loop for the critical region.
    fn enter(&mut self, id: usize)
        requires
            old(self)@.inv(),
            id < 2,
            waiting(old(self)@.pcs[id as int]),
        ensures
            final(self)@ == old(self)@.enter(id as int),
    {
        let j: usize = 1 - id;
        self.pcs.set(id, PetersonPc::Load);
        self.passed_over.set(id, 0);
        let w = self.pcs[j];
        if w == PetersonPc::WaitFlag || w == PetersonPc::WaitTurn {
            let p = self.passed_over[j] + 1;
            self.passed_over.set(j, p);
        }
    }

    /// Performs the steps of `schedule`, in order.
    pub fn run(&mut self, schedule: &Vec<usize>)
        requires
            old(self)@.inv(),
        ensures
            final(self)@ == old(self)@.run(schedule@),
            final(self)@.inv(),
    {
        let ghost start = self@;
        let mut n: usize = 0;
        while n < schedule.len()
            invariant
                n <= schedule@.len(),
                self@ == start.run(schedule@.take(n as int)),
                self@.inv(),
            decreases schedule@.len() - n,
        {
            proof {
                lemma_run_push(start, schedule@.take(n as int), schedule@[n as int]);
                assert(schedule@.take(n + 1) =~= schedule@.take(n as int).push(schedule@[n as int]));
            }
            self.step(schedule[n]);
            n += 1;
        }
        proof {
            assert(schedule@.take(n as int) =~= schedule@);
        }
    }

    /// Whether both workers have performed all their accesses.
    pub fn is_finished(&self) -> (r: bool)
        requires
            self@.inv(),
        ensures
            r == self@.finished(),
    {
        !self.is_active(0) && !self.is_active(1)
    }
}

/// Runs two workers under Peterson's protocol, `iterations` increments
/// each, through the interleaving `schedule`, from fresh shared state.
pub fn peterson_solution(iterations: u64, schedule: &Vec<usize>) -> (r: PetersonState)
    requires
        2 * iterations <= u64::MAX,
    ensures
        r@ == PetersonModel::init(iterations).run(schedule@),
        r@.inv(),
{
    let mut s = PetersonState::new(iterations);
    s.run(schedule);
    s
}

} // verus!
