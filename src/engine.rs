//! The fuzzer's per-worker state and the decision taken after each run:
//! persist the input as a finding, admit it to the corpus, or drop it.
use vstd::prelude::*;
use crate::config::SchedulerType;
use crate::coverage::MAP_SIZE;
use crate::feedback::{
    dominated, exceeds, gain, is_objective, join, lemma_absorbed_not_interesting, spec_is_objective,
    strictly_grown, Envelope,
};
use crate::findings::{lemma_finding_names_unique, spec_finding_name};
use crate::harness::ExitKind;
use crate::scheduler::{
    prefix_sum, queue_cursor_after, queue_pick, spec_fast_bound, spec_weight, total_weight, QueueScheduler,
    WeightedScheduler, MAX_ENTRIES,
};

verus! {

/// What the driver does with an input after running it. The coverage
/// feedback and the objective decide independently: a crashing input that
/// raised the envelope is both admitted and persisted.
#[derive(Debug)]
pub struct Verdict {
    /// The identifier under which the input joined the in-memory corpus,
    /// when its coverage map raised the envelope.
    pub admitted: Option<usize>,
    /// On a crash or a timeout: the exact input bytes to write to the
    /// findings directory, and this worker's sequence number for them.
    pub finding: Option<(Vec<u8>, u64)>,
}

/// What the driver does next.
#[derive(Debug, PartialEq, Eq)]
pub enum Step {
    /// The corpus is empty, so there is no parent: run a fresh random input
    /// of `GENERATED_SIZE` bytes at most.
    Generate,
    /// Mutate the corpus entry with this identifier into a child and run it.
    Mutate(usize),
}

/// The largest size of a fresh random input, the largest seed size.
pub const GENERATED_SIZE: usize = 128;

/// The scheduler in use.
pub enum Scheduler {
    Queue(QueueScheduler),
    Weighted(WeightedScheduler),
}

/// One worker's fuzzing state: the in-memory corpus with the run duration
/// of each entry, the coverage envelope, the scheduler and the number of
/// findings.
pub struct FuzzerState {
    corpus: Vec<Vec<u8>>,
    durations: Vec<u64>,
    envelope: Envelope,
    scheduler: Scheduler,
    findings: u64,
}

/// One execution as the state sees it: `before` becomes `after` once
/// `input` ran, left the coverage map `map`, ended as `exit` and took
/// `exec_us` microseconds. The input joins the corpus, with its duration and
/// weight, exactly when its map raises the envelope, whatever the exit; the
/// envelope then absorbs the map. A crash or a timeout counts one finding.
pub open spec fn run_step(
    before: FuzzerState,
    input: Seq<u8>,
    map: Seq<u8>,
    exit: ExitKind,
    exec_us: u64,
    after: FuzzerState,
) -> bool {
    &&& after.wf()
    &&& after.scheduler_type() == before.scheduler_type()
    &&& after.queue_position() == before.queue_position()
    &&& after.findings() == before.findings() + if spec_is_objective(exit) { 1int } else { 0int }
    &&& if exceeds(map, before.envelope()) {
        &&& after.corpus() == before.corpus().push(input)
        &&& after.durations() == before.durations().push(exec_us)
        &&& after.envelope() == join(before.envelope(), map)
        &&& after.weights() == if before.scheduler_type() == SchedulerType::Weighted {
            before.weights().push(spec_weight(exec_us, gain(map, before.envelope()) as usize) as u64)
        } else {
            before.weights()
        }
    } else {
        &&& after.corpus() == before.corpus()
        &&& after.durations() == before.durations()
        &&& after.envelope() == before.envelope()
        &&& after.weights() == before.weights()
    }
}

fn copy_bytes(v: &Vec<u8>) -> (r: Vec<u8>)
    ensures
        r@ == v@,
{
    let mut r: Vec<u8> = Vec::new();
    let mut i: usize = 0;
    while i < v.len()
        invariant
            i <= v@.len(),
            r@ == v@.subrange(0, i as int),
        decreases v@.len() - i,
    {
        r.push(v[i]);
        i = i + 1;
        assert(r@ =~= v@.subrange(0, i as int));
    }
    assert(v@.subrange(0, v@.len() as int) =~= v@);
    r
}

impl FuzzerState {
    /// The admitted inputs, in order of admission.
    pub closed spec fn corpus(&self) -> Seq<Seq<u8>> {
        self.corpus@.map_values(|e: Vec<u8>| e@)
    }

    /// The run duration, in microseconds, recorded with each admitted input.
    pub closed spec fn durations(&self) -> Seq<u64> {
        self.durations@
    }

    /// The cell-wise maximum of every admitted coverage map.
    pub closed spec fn envelope(&self) -> Seq<u8> {
        self.envelope@
    }

    /// The number of findings so far.
    pub closed spec fn findings(&self) -> u64 {
        self.findings
    }

    /// The scheduler kind in use.
    pub closed spec fn scheduler_type(&self) -> SchedulerType {
        match self.scheduler {
            Scheduler::Queue(_) => SchedulerType::Queue,
            Scheduler::Weighted(_) => SchedulerType::Weighted,
        }
    }

    /// The queue cursor, when the queue scheduler is in use.
    pub closed spec fn queue_position(&self) -> usize {
        match self.scheduler {
            Scheduler::Queue(q) => q.position(),
            Scheduler::Weighted(_) => 0,
        }
    }

    /// The weights of the corpus entries, when the weighted scheduler is in
    /// use.
    pub closed spec fn weights(&self) -> Seq<u64> {
        match self.scheduler {
            Scheduler::Queue(_) => Seq::empty(),
            Scheduler::Weighted(w) => w@,
        }
    }

    /// The state's internal consistency.
    pub closed spec fn wf(&self) -> bool {
        &&& self.envelope@.len() == MAP_SIZE
        &&& self.corpus@.len() <= MAX_ENTRIES
        &&& self.durations@.len() == self.corpus@.len()
        &&& match self.scheduler {
            Scheduler::Queue(_) => true,
            Scheduler::Weighted(w) => w.wf() && w@.len() == self.corpus@.len(),
        }
    }

    /// A fresh state: empty corpus, all-zero envelope, no findings.
    pub fn new(scheduler_type: SchedulerType) -> (r: FuzzerState)
        ensures
            r.wf(),
            r.corpus().len() == 0,
            r.durations().len() == 0,
            r.envelope() == Seq::new(MAP_SIZE as nat, |i: int| 0u8),
            r.findings() == 0,
            r.scheduler_type() == scheduler_type,
            r.queue_position() == 0,
    {
        let envelope = Envelope::new(MAP_SIZE);
        assert(envelope@ =~= Seq::new(MAP_SIZE as nat, |i: int| 0u8));
        let scheduler = match scheduler_type {
            SchedulerType::Queue => Scheduler::Queue(QueueScheduler::new()),
            SchedulerType::Weighted => Scheduler::Weighted(WeightedScheduler::new()),
        };
        let r = FuzzerState { corpus: Vec::new(), durations: Vec::new(), envelope, scheduler, findings: 0 };
        assert(r.corpus() =~= Seq::<Seq<u8>>::empty());
        r
    }

    /// Number of admitted inputs.
    pub fn corpus_len(&self) -> (r: usize)
        ensures
            r == self.corpus().len(),
    {
        self.corpus.len()
    }

    /// The admitted input with identifier `id`.
    pub fn entry(&self, id: usize) -> (r: &Vec<u8>)
        requires
            id < self.corpus().len(),
        ensures
            r@ == self.corpus()[id as int],
    {
        &self.corpus[id]
    }

    /// Cell `i` of the coverage envelope.
    pub fn envelope_cell(&self, i: usize) -> (r: u8)
        requires
            self.wf(),
            i < MAP_SIZE,
        ensures
            r == self.envelope()[i as int],
    {
        self.envelope.cell(i)
    }

    /// The run duration recorded with the admitted input `id`.
    pub fn duration(&self, id: usize) -> (r: u64)
        requires
            self.wf(),
            id < self.corpus().len(),
        ensures
            r == self.durations()[id as int],
    {
        self.durations[id]
    }

    /// The number of findings so far.
    pub fn findings_count(&self) -> (r: u64)
        ensures
            r == self.findings(),
    {
        self.findings
    }

    /// Picks the identifier of the next parent. `rand` is a raw random draw,
    /// used by the weighted scheduler only.
    pub fn next_parent(&mut self, rand: u64) -> (r: usize)
        requires
            old(self).wf(),
            old(self).corpus().len() > 0,
        ensures
            final(self).wf(),
            r < old(self).corpus().len(),
            final(self).corpus() == old(self).corpus(),
            final(self).durations() == old(self).durations(),
            final(self).envelope() == old(self).envelope(),
            final(self).findings() == old(self).findings(),
            final(self).scheduler_type() == old(self).scheduler_type(),
            old(self).scheduler_type() == SchedulerType::Queue ==> r == queue_pick(
                old(self).queue_position(),
                old(self).corpus().len() as usize,
            ) && final(self).queue_position() == r + 1,
            old(self).scheduler_type() == SchedulerType::Queue ==> forall|k: nat|
                old(self).queue_position() == #[trigger] queue_cursor_after(
                    k,
                    old(self).corpus().len() as usize,
                ) ==> r == k % (old(self).corpus().len() as nat) && final(self).queue_position()
                    == queue_cursor_after(k + 1, old(self).corpus().len() as usize),
            old(self).scheduler_type() == SchedulerType::Weighted ==> prefix_sum(
                old(self).weights(),
                r as int,
            ) <= spec_fast_bound(rand, total_weight(old(self).weights()) as u64) < prefix_sum(
                old(self).weights(),
                r + 1,
            ) && final(self).weights() == old(self).weights(),
    {
        let n = self.corpus.len();
        match &mut self.scheduler {
            Scheduler::Queue(q) => q.next(n),
            Scheduler::Weighted(w) => w.next(rand),
        }
    }

    /// The driver's next step: a fresh input while the corpus is empty,
    /// otherwise a child of the parent that the scheduler picks.
    pub fn next_step(&mut self, rand: u64) -> (r: Step)
        requires
            old(self).wf(),
        ensures
            final(self).wf(),
            old(self).corpus().len() == 0 ==> r == Step::Generate && *final(self) == *old(self),
            old(self).corpus().len() > 0 ==> (r matches Step::Mutate(p) && p < old(
                self,
            ).corpus().len()),
            final(self).corpus() == old(self).corpus(),
            final(self).envelope() == old(self).envelope(),
            final(self).findings() == old(self).findings(),
            old(self).scheduler_type() == SchedulerType::Queue && old(self).corpus().len() > 0
                ==> (r matches Step::Mutate(p) && p == queue_pick(
                old(self).queue_position(),
                old(self).corpus().len() as usize,
            )),
    {
        if self.corpus.len() == 0 {
            Step::Generate
        } else {
            Step::Mutate(self.next_parent(rand))
        }
    }

    /// Decides what becomes of `input` after a run that left the coverage
    /// map `map`, ended as `exit` and took `exec_us` microseconds.
    ///
    /// The feedback sees every run: the input is admitted exactly when its
    /// map raises the envelope in some cell, is recorded with its run
    /// duration, and the envelope absorbs the map. Independently, a crash or
    /// a timeout is a finding: the input bytes are handed back to be
    /// persisted as they are, numbered by the findings before them.
    pub fn evaluate(&mut self, input: Vec<u8>, map: &[u8], exit: ExitKind, exec_us: u64) -> (r:
        Verdict)
        requires
            old(self).wf(),
            old(self).corpus().len() < MAX_ENTRIES,
            old(self).findings() < u64::MAX,
            map@.len() == MAP_SIZE,
        ensures
            run_step(*old(self), input@, map@, exit, exec_us, *final(self)),
            r.admitted == (if exceeds(map@, old(self).envelope()) {
                Some(old(self).corpus().len() as usize)
            } else {
                None::<usize>
            }),
            spec_is_objective(exit) ==> (r.finding matches Some(f) && f.0@ == input@ && f.1
                == old(self).findings()),
            !spec_is_objective(exit) ==> r.finding is None,
            r.admitted is Some ==> strictly_grown(old(self).envelope(), final(self).envelope()),
    {
        let finding = if is_objective(exit) {
            let seq = self.findings;
            self.findings = self.findings + 1;
            Some((copy_bytes(&input), seq))
        } else {
            None
        };
        if !self.envelope.is_interesting(map) {
            return Verdict { admitted: None, finding };
        }
        proof {
            crate::feedback::lemma_join_strictly_grows(self.envelope@, map@);
        }
        let g = self.envelope.gain(map);
        self.envelope.update(map);
        match &mut self.scheduler {
            Scheduler::Queue(_) => {},
            Scheduler::Weighted(w) => w.add(exec_us, g),
        }
        let id = self.corpus.len();
        self.durations.push(exec_us);
        self.corpus.push(input);
        proof {
            assert(self.corpus() =~= old(self).corpus().push(self.corpus@[id as int]@));
        }
        Verdict { admitted: Some(id), finding }
    }
}

/// The number of inputs admitted when runs that returned normally leave the
/// maps `ms`, in order, starting from the envelope `env`.
pub open spec fn admissions(env: Seq<u8>, ms: Seq<Seq<u8>>) -> nat
    decreases ms.len(),
{
    if ms.len() == 0 {
        0
    } else if exceeds(ms[0], env) {
        1 + admissions(join(env, ms[0]), ms.drop_first())
    } else {
        admissions(env, ms.drop_first())
    }
}

/// The map of a target with one instrumented edge, whose guard marks `cell`,
/// after a run that reached the edge.
pub open spec fn edge_map(cell: int) -> Seq<u8> {
    Seq::new(MAP_SIZE as nat, |i: int| if i == cell { 1u8 } else { 0u8 })
}

/// A map with every one of the `MAP_SIZE` cells zero.
pub open spec fn zero_map() -> Seq<u8> {
    Seq::new(MAP_SIZE as nat, |i: int| 0u8)
}

proof fn lemma_absorbed_edge_admits_none(env: Seq<u8>, cell: int, ms: Seq<Seq<u8>>)
    requires
        0 <= cell < MAP_SIZE,
        env.len() == MAP_SIZE,
        env[cell] >= 1,
        forall|k: int| 0 <= k < ms.len() ==> ms[k] == zero_map() || ms[k] == edge_map(cell),
    ensures
        admissions(env, ms) == 0,
    decreases ms.len(),
{
    if ms.len() > 0 {
        assert(dominated(ms[0], edge_map(cell)));
        lemma_absorbed_not_interesting(env, edge_map(cell), ms[0]);
        assert(join(env, edge_map(cell)) =~= env);
        lemma_absorbed_edge_admits_none(env, cell, ms.drop_first());
    }
}

/// A target that always returns normally and has one instrumented edge gets
/// exactly one input admitted, the first run that reaches the edge (none if
/// no run reaches it), and no findings, since a normal return is never an
/// objective.
pub proof fn lemma_single_edge_admitted_once(cell: int, ms: Seq<Seq<u8>>)
    requires
        0 <= cell < MAP_SIZE,
        forall|k: int| 0 <= k < ms.len() ==> ms[k] == zero_map() || ms[k] == edge_map(cell),
    ensures
        admissions(zero_map(), ms) == (if ms.contains(edge_map(cell)) { 1nat } else { 0nat }),
        !spec_is_objective(ExitKind::Returned),
    decreases ms.len(),
{
    if ms.len() > 0 {
        let rest = ms.drop_first();
        assert(forall|k: int| 0 <= k < rest.len() ==> rest[k] == ms[k + 1]);
        if ms[0] == edge_map(cell) {
            assert(edge_map(cell)[cell] > zero_map()[cell]);
            assert(exceeds(ms[0], zero_map()));
            assert(join(zero_map(), ms[0]) =~= edge_map(cell));
            lemma_absorbed_edge_admits_none(edge_map(cell), cell, rest);
            assert(ms.contains(edge_map(cell))) by {
                assert(ms[0] == edge_map(cell));
            }
        } else {
            assert(ms[0] == zero_map());
            assert(!exceeds(ms[0], zero_map()));
            lemma_single_edge_admitted_once(cell, rest);
            assert(ms.contains(edge_map(cell)) == rest.contains(edge_map(cell))) by {
                if ms.contains(edge_map(cell)) {
                    let k = choose|k: int| 0 <= k < ms.len() && ms[k] == edge_map(cell);
                    assert(k != 0);
                    assert(rest[k - 1] == edge_map(cell));
                }
                if rest.contains(edge_map(cell)) {
                    let k = choose|k: int| 0 <= k < rest.len() && rest[k] == edge_map(cell);
                    assert(ms[k + 1] == edge_map(cell));
                }
            }
        }
    }
}

/// How many of `exits` are crashes or timeouts.
pub open spec fn objective_count(exits: Seq<ExitKind>) -> nat
    decreases exits.len(),
{
    if exits.len() == 0 {
        0
    } else {
        (if spec_is_objective(exits[0]) { 1nat } else { 0nat }) + objective_count(exits.drop_first())
    }
}

/// `states` is a run of one worker: execution `i` ran `inputs[i]`, left the
/// map `maps[i]`, ended as `exits[i]`, took `durations[i]` microseconds and
/// took `states[i]` to `states[i + 1]`, as `evaluate` states.
pub open spec fn is_run(
    states: Seq<FuzzerState>,
    inputs: Seq<Seq<u8>>,
    maps: Seq<Seq<u8>>,
    exits: Seq<ExitKind>,
    durations: Seq<u64>,
) -> bool {
    &&& states.len() == maps.len() + 1
    &&& inputs.len() == maps.len()
    &&& exits.len() == maps.len()
    &&& durations.len() == maps.len()
    &&& forall|i: int|
        #![trigger maps[i]]
        0 <= i < maps.len() ==> run_step(
            states[i],
            inputs[i],
            maps[i],
            exits[i],
            durations[i],
            states[i + 1],
        )
}

/// Over the rest of a run from execution `i`, the corpus grows by the
/// admissions of its maps and the findings by its crashes and timeouts.
pub proof fn lemma_run_totals(
    states: Seq<FuzzerState>,
    inputs: Seq<Seq<u8>>,
    maps: Seq<Seq<u8>>,
    exits: Seq<ExitKind>,
    durations: Seq<u64>,
    i: int,
)
    requires
        is_run(states, inputs, maps, exits, durations),
        0 <= i <= maps.len(),
    ensures
        states.last().corpus().len() == states[i].corpus().len() + admissions(
            states[i].envelope(),
            maps.subrange(i, maps.len() as int),
        ),
        states.last().findings() == states[i].findings() + objective_count(
            exits.subrange(i, exits.len() as int),
        ),
    decreases maps.len() - i,
{
    let n = maps.len() as int;
    if i < n {
        assert(run_step(states[i], inputs[i], maps[i], exits[i], durations[i], states[i + 1]));
        lemma_run_totals(states, inputs, maps, exits, durations, i + 1);
        assert(maps.subrange(i, n).drop_first() =~= maps.subrange(i + 1, n));
        assert(exits.subrange(i, n).drop_first() =~= exits.subrange(i + 1, n));
        assert(maps.subrange(i, n)[0] == maps[i]);
        assert(exits.subrange(i, n)[0] == exits[i]);
    } else {
        assert(maps.subrange(i, n) =~= Seq::<Seq<u8>>::empty());
        assert(exits.subrange(i, n) =~= Seq::<ExitKind>::empty());
    }
}

proof fn lemma_objective_count_uniform(exits: Seq<ExitKind>, e: ExitKind)
    requires
        forall|k: int| 0 <= k < exits.len() ==> exits[k] == e,
    ensures
        objective_count(exits) == if spec_is_objective(e) { exits.len() } else { 0 },
    decreases exits.len(),
{
    if exits.len() > 0 {
        let rest = exits.drop_first();
        assert(forall|k: int| 0 <= k < rest.len() ==> rest[k] == exits[k + 1]);
        lemma_objective_count_uniform(rest, e);
    }
}

/// A worker fuzzing a target that always returns normally and has one
/// instrumented edge, whose guard marks `cell`, starting from an empty corpus
/// and an all-zero envelope, ends with exactly one corpus entry if some run
/// reached the edge (none otherwise) and with no new findings.
pub proof fn lemma_single_edge_target_run(
    states: Seq<FuzzerState>,
    inputs: Seq<Seq<u8>>,
    maps: Seq<Seq<u8>>,
    exits: Seq<ExitKind>,
    durations: Seq<u64>,
    cell: int,
)
    requires
        is_run(states, inputs, maps, exits, durations),
        states[0].corpus().len() == 0,
        states[0].envelope() == zero_map(),
        0 <= cell < MAP_SIZE,
        forall|k: int| 0 <= k < maps.len() ==> maps[k] == zero_map() || maps[k] == edge_map(cell),
        forall|k: int| 0 <= k < exits.len() ==> exits[k] == ExitKind::Returned,
    ensures
        states.last().corpus().len() == (if maps.contains(edge_map(cell)) { 1nat } else { 0nat }),
        states.last().findings() == states[0].findings(),
{
    lemma_run_totals(states, inputs, maps, exits, durations, 0);
    assert(maps.subrange(0, maps.len() as int) =~= maps);
    assert(exits.subrange(0, exits.len() as int) =~= exits);
    lemma_single_edge_admitted_once(cell, maps);
    lemma_objective_count_uniform(exits, ExitKind::Returned);
}

/// A worker whose every run times out gets one finding per run.
pub proof fn lemma_every_timeout_is_a_finding(
    states: Seq<FuzzerState>,
    inputs: Seq<Seq<u8>>,
    maps: Seq<Seq<u8>>,
    exits: Seq<ExitKind>,
    durations: Seq<u64>,
)
    requires
        is_run(states, inputs, maps, exits, durations),
        forall|k: int| 0 <= k < exits.len() ==> exits[k] == ExitKind::Timeout,
    ensures
        states.last().findings() == states[0].findings() + maps.len(),
{
    lemma_run_totals(states, inputs, maps, exits, durations, 0);
    assert(exits.subrange(0, exits.len() as int) =~= exits);
    lemma_objective_count_uniform(exits, ExitKind::Timeout);
}

proof fn lemma_findings_monotone(
    states: Seq<FuzzerState>,
    inputs: Seq<Seq<u8>>,
    maps: Seq<Seq<u8>>,
    exits: Seq<ExitKind>,
    durations: Seq<u64>,
    i: int,
    j: int,
)
    requires
        is_run(states, inputs, maps, exits, durations),
        0 <= i <= j <= maps.len(),
    ensures
        states[i].findings() <= states[j].findings(),
    decreases j - i,
{
    if i < j {
        assert(run_step(states[j - 1], inputs[j - 1], maps[j - 1], exits[j - 1], durations[j - 1], states[j]));
        lemma_findings_monotone(states, inputs, maps, exits, durations, i, j - 1);
    }
}

/// Within one worker's run, two crashes or timeouts get different sequence
/// numbers (the findings count before each), so with the worker's own prefix
/// their file names differ from each other and from every other worker's.
pub proof fn lemma_worker_findings_distinct(
    states: Seq<FuzzerState>,
    inputs: Seq<Seq<u8>>,
    maps: Seq<Seq<u8>>,
    exits: Seq<ExitKind>,
    durations: Seq<u64>,
    i: int,
    j: int,
    worker: u32,
    other: u32,
)
    requires
        is_run(states, inputs, maps, exits, durations),
        0 <= i < j < maps.len(),
        spec_is_objective(exits[i]),
    ensures
        states[i].findings() < states[j].findings(),
        spec_finding_name(worker, states[i].findings()) != spec_finding_name(
            worker,
            states[j].findings(),
        ),
        worker != other ==> spec_finding_name(worker, states[i].findings()) != spec_finding_name(
            other,
            states[j].findings(),
        ),
{
    assert(run_step(states[i], inputs[i], maps[i], exits[i], durations[i], states[i + 1]));
    lemma_findings_monotone(states, inputs, maps, exits, durations, i + 1, j);
    lemma_finding_names_unique(worker, states[i].findings(), worker, states[j].findings());
    if worker != other {
        lemma_finding_names_unique(worker, states[i].findings(), other, states[j].findings());
    }
}

} // verus!
