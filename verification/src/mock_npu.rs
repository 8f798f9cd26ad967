//! A simulated NPU for testing without hardware: jobs are checked, run at
//! once with an estimated cycle count, and kept by id until polled.
use vstd::prelude::*;
use crate::harness::{NpuJob, NpuJobStatus, NpuError, NpuBackendConfig};
use std::collections::{HashMap, VecDeque};

verus! {

broadcast use vstd::std_specs::hash::group_hash_axioms;

/// What became of an NPU job.
#[derive(Debug, Clone, Copy, PartialEq, Eq, Structural)]
pub struct NpuCompletion {
    pub job_id: u32,
    pub status: NpuJobStatus,
    pub cycles_used: u64,
    pub completion_time_us: u64,
    /// How many output values the job produced (the simulation writes 0.5 to each).
    pub output_len: usize,
    pub error_code: Option<u32>,
}

/// The counting part of the NPU statistics.
#[derive(Debug, Clone, Copy, PartialEq, Eq, Structural)]
pub struct NpuCounters {
    pub total_jobs: u64,
    pub completed_jobs: u64,
    pub failed_jobs: u64,
    pub total_cycles: u64,
    pub queue_depth: usize,
}

/// All counters zero.
pub open spec fn zero_counters() -> NpuCounters {
    NpuCounters { total_jobs: 0, completed_jobs: 0, failed_jobs: 0, total_cycles: 0, queue_depth: 0 }
}

/// The simulated cycle count of a job: 1000, one cycle per 4 input bytes and
/// one per 8 output bytes, scaled by the model's complexity (its id modulo
/// 4): 1, 1.5 (rounded down), 2 or 3 times.
pub open spec fn job_cycles(job: NpuJob) -> nat {
    let t: nat = (1000 + job.input_size / 4 + job.output_size / 8) as nat;
    if job.model_id % 4 == 0 {
        t
    } else if job.model_id % 4 == 1 {
        (t * 3 / 2) as nat
    } else if job.model_id % 4 == 2 {
        t * 2
    } else {
        t * 3
    }
}

/// The error code of a simulated failure.
pub const SIMULATED_FAILURE_CODE: u32 = 0xE001;

/// The abstract state of the simulated NPU.
pub struct MockNpuView {
    pub initialized: bool,
    pub queue_len: nat,
    /// Completed jobs not yet polled, by id.
    pub results: Map<u32, NpuCompletion>,
    pub next_job_id: u32,
    pub counters: NpuCounters,
    pub config: NpuBackendConfig,
    pub simulate_failure: bool,
    pub simulate_queue_full: bool,
}

/// The map from ids to results of a list of results with distinct ids.
pub open spec fn results_map(s: Seq<NpuCompletion>) -> Map<u32, NpuCompletion> {
    Map::new(
        |k: u32| exists|i: int| 0 <= i < s.len() && s[i].job_id == k,
        |k: u32| s[choose|i: int| 0 <= i < s.len() && s[i].job_id == k],
    )
}

/// Whether the results of `s` have distinct ids.
pub open spec fn distinct_ids(s: Seq<NpuCompletion>) -> bool {
    forall|i: int, j: int|
        0 <= i < s.len() && 0 <= j < s.len() && i != j ==> #[trigger] s[i].job_id != #[trigger] s[j].job_id
}

/// Whether a state is one the simulation can reach: every job counted once,
/// and every completed result waiting to be polled has an id below the next
/// one handed out.
pub open spec fn npu_valid(v: MockNpuView) -> bool {
    &&& v.counters.completed_jobs + v.counters.failed_jobs == v.counters.total_jobs
    &&& forall|k: u32|
        #[trigger] v.results.contains_key(k) && v.results[k].status == NpuJobStatus::Completed ==> k
            < v.next_job_id
}

/// Whether `submit_job` takes the job: the device is up, not feigning a full
/// queue, the buffers are non-empty and non-null, and the queue has room.
pub open spec fn takes_job(v: MockNpuView, job: NpuJob) -> bool {
    &&& v.initialized
    &&& !v.simulate_queue_full
    &&& job.input_size != 0 && job.output_size != 0
    &&& job.model_addr != 0 && job.input_addr != 0 && job.output_addr != 0
    &&& v.queue_len < v.config.max_queue_depth
}

/// The result of running `job`: a failure under the job's own id when
/// failures are simulated; otherwise a completion under the next id, with the
/// estimated cycles, their microseconds at 1 GHz (rounded down) and one
/// output value per 4 output bytes.
pub open spec fn completion_for(v: MockNpuView, job: NpuJob) -> NpuCompletion {
    if v.simulate_failure {
        NpuCompletion {
            job_id: job.job_id,
            status: NpuJobStatus::Failed,
            cycles_used: 0,
            completion_time_us: 0,
            output_len: 0,
            error_code: Some(SIMULATED_FAILURE_CODE),
        }
    } else {
        NpuCompletion {
            job_id: v.next_job_id,
            status: NpuJobStatus::Completed,
            cycles_used: job_cycles(job) as u64,
            completion_time_us: (job_cycles(job) / 1000) as u64,
            output_len: (job.output_size / 4) as usize,
            error_code: None,
        }
    }
}

/// Whether taking `job` keeps every counter and the next id within range.
pub open spec fn submit_fits(v: MockNpuView, job: NpuJob) -> bool {
    takes_job(v, job) ==> {
        &&& v.counters.total_jobs < u64::MAX
        &&& !v.simulate_failure ==> v.next_job_id < u32::MAX && v.counters.total_cycles
            + job_cycles(job) <= u64::MAX
    }
}

/// The simulated NPU.
pub struct MockNpuBackend {
    initialized: bool,
    /// Jobs waiting to run; the simulation runs every job at once.
    job_queue: VecDeque<NpuJob>,
    /// Completed results not yet polled, by id.
    completed: HashMap<u32, NpuCompletion>,
    next_job_id: u32,
    counters: NpuCounters,
    config: NpuBackendConfig,
    simulate_failure: bool,
    simulate_queue_full: bool,
}

impl View for MockNpuBackend {
    type V = MockNpuView;

    closed spec fn view(&self) -> MockNpuView {
        MockNpuView {
            initialized: self.initialized,
            queue_len: self.job_queue@.len(),
            results: self.completed@,
            next_job_id: self.next_job_id,
            counters: self.counters,
            config: self.config,
            simulate_failure: self.simulate_failure,
            simulate_queue_full: self.simulate_queue_full,
        }
    }
}

/// The cycles `job` takes, as `job_cycles` states.
fn estimate_cycles(job: &NpuJob) -> (c: u64)
    ensures
        c == job_cycles(*job),
{
    let t: u64 = 1000 + (job.input_size as u64) / 4 + (job.output_size as u64) / 8;
    match job.model_id % 4 {
        0 => t,
        1 => t * 3 / 2,
        2 => t * 2,
        _ => t * 3,
    }
}

/// Whether every result in `m` is kept under its own id.
pub open spec fn keyed_by_id(m: Map<u32, NpuCompletion>) -> bool {
    forall|k: u32| #[trigger] m.contains_key(k) ==> m[k].job_id == k
}

/// A list holding each value of a map keyed by id once (as many entries as
/// keys, the same set of values) has distinct ids and gives the map back.
proof fn lemma_values_listed(m: Map<u32, NpuCompletion>, out: Seq<NpuCompletion>)
    requires
        keyed_by_id(m),
        m.dom().finite(),
        out.to_set() == m.values(),
        out.len() == m.dom().len(),
    ensures
        distinct_ids(out),
        results_map(out) == m,
{
    let f = |k: u32| m[k];
    assert(m.dom().map(f) =~= m.values());
    assert(vstd::relations::injective_on(f, m.dom())) by {
        assert forall|a: u32, b: u32| m.dom().contains(a) && m.dom().contains(b) && #[trigger] f(a) == #[trigger] f(b) implies a == b by {
            assert(m[a].job_id == a && m[b].job_id == b);
        }
    }
    vstd::set_lib::lemma_map_size(m.dom(), m.values(), f);
    out.lemma_no_dup_set_cardinality();
    assert forall|i: int| 0 <= i < out.len() implies #[trigger] m.contains_key(out[i].job_id) && m[out[i].job_id] == out[i] by {
        assert(out.to_set().contains(out[i]));
        assert(m.values().contains(out[i]));
        let k = choose|k: u32| #[trigger] m.contains_key(k) && m[k] == out[i];
        assert(m[k].job_id == k);
    }
    assert forall|i: int, j: int| 0 <= i < out.len() && 0 <= j < out.len() && i != j implies #[trigger] out[i].job_id != #[trigger] out[j].job_id by {
        if out[i].job_id == out[j].job_id {
            assert(m.contains_key(out[i].job_id));
            assert(m.contains_key(out[j].job_id));
            assert(out[i] == m[out[i].job_id]);
            assert(out[j] == m[out[j].job_id]);
            assert(out.no_duplicates());
        }
    }
    assert forall|k: u32| #[trigger] results_map(out).contains_key(k) == m.contains_key(k) by {
        if m.contains_key(k) {
            assert(m.values().contains(m[k]));
            assert(out.to_set().contains(m[k]));
            let i = choose|i: int| 0 <= i < out.len() && out[i] == m[k];
            assert(out[i].job_id == k);
        }
        if results_map(out).contains_key(k) {
            let i = choose|i: int| 0 <= i < out.len() && out[i].job_id == k;
            assert(m.contains_key(out[i].job_id));
        }
    }
    assert forall|k: u32| #[trigger] results_map(out).contains_key(k) implies results_map(out)[k] == m[k] by {
        let i = choose|i: int| 0 <= i < out.len() && out[i].job_id == k;
        assert(m.contains_key(out[i].job_id));
        assert(m[out[i].job_id] == out[i]);
    }
    assert(results_map(out) =~= m);
}

/// A job that completes gets an id that no completed result waiting to be
/// polled carries: between resets, completed jobs never share an id.
pub proof fn lemma_completed_ids_fresh(v: MockNpuView, job: NpuJob)
    requires
        npu_valid(v),
        !v.simulate_failure,
    ensures
        !(v.results.contains_key(completion_for(v, job).job_id) && v.results[completion_for(
            v,
            job,
        ).job_id].status == NpuJobStatus::Completed),
{
}

impl MockNpuBackend {
    #[verifier::type_invariant]
    spec fn inv(&self) -> bool {
        &&& keyed_by_id(self.completed@)
        &&& npu_valid(self@)
    }

    /// A device that is not yet initialized, with nothing queued or completed,
    /// next id 1, zero counters and no simulated faults.
    pub fn new(config: NpuBackendConfig) -> (b: Self)
        ensures
            !b@.initialized,
            b@.queue_len == 0,
            b@.results == Map::<u32, NpuCompletion>::empty(),
            b@.next_job_id == 1,
            b@.counters == zero_counters(),
            b@.config == config,
            !b@.simulate_failure,
            !b@.simulate_queue_full,
            npu_valid(b@),
    {
        let b = MockNpuBackend {
            initialized: false,
            job_queue: VecDeque::new(),
            completed: HashMap::new(),
            next_job_id: 1,
            counters: NpuCounters {
                total_jobs: 0,
                completed_jobs: 0,
                failed_jobs: 0,
                total_cycles: 0,
                queue_depth: 0,
            },
            config,
            simulate_failure: false,
            simulate_queue_full: false,
        };
        assert(b@.results =~= Map::<u32, NpuCompletion>::empty());
        b
    }

    /// Turn simulated failures on or off: initialization then fails and jobs
    /// fail.
    pub fn set_simulate_failure(&mut self, enable: bool)
        ensures
            final(self)@ == (MockNpuView { simulate_failure: enable, ..old(self)@ }),
            npu_valid(final(self)@),
    {
        proof {
            use_type_invariant(&*self);
        }
        self.simulate_failure = enable;
        proof {
            use_type_invariant(&*self);
        }
    }

    /// Turn a simulated full queue on or off.
    pub fn set_simulate_queue_full(&mut self, enable: bool)
        ensures
            final(self)@ == (MockNpuView { simulate_queue_full: enable, ..old(self)@ }),
            npu_valid(final(self)@),
    {
        proof {
            use_type_invariant(&*self);
        }
        self.simulate_queue_full = enable;
        proof {
            use_type_invariant(&*self);
        }
    }

    /// Bring the device up; fails with a hardware error while failures are
    /// simulated.
    pub fn initialize(&mut self) -> (r: Result<(), NpuError>)
        ensures
            old(self)@.simulate_failure ==> (r matches Err(NpuError::HardwareError(m)) && m@
                == "Simulated initialization failure"@) && final(self)@ == old(self)@,
            !old(self)@.simulate_failure ==> r is Ok && final(self)@ == (MockNpuView {
                initialized: true,
                ..old(self)@
            }),
            npu_valid(final(self)@),
    {
        proof {
            use_type_invariant(&*self);
        }
        if self.simulate_failure {
            return Err(NpuError::HardwareError("Simulated initialization failure".to_string()));
        }
        self.initialized = true;
        proof {
            use_type_invariant(&*self);
        }
        Ok(())
    }

    /// Whether the device is up and not failing.
    pub fn is_alive(&self) -> (b: bool)
        ensures
            b == (self@.initialized && !self@.simulate_failure),
    {
        self.initialized && !self.simulate_failure
    }

    /// Whether submitting `job` keeps the counters and ids within range.
    pub fn can_submit(&self, job: &NpuJob) -> (b: bool)
        ensures
            b == submit_fits(self@, *job),
    {
        if !(self.initialized && !self.simulate_queue_full && job.input_size != 0 && job.output_size
            != 0 && job.model_addr != 0 && job.input_addr != 0 && job.output_addr != 0
            && self.job_queue.len() < self.config.max_queue_depth) {
            return true;
        }
        if self.counters.total_jobs == u64::MAX {
            return false;
        }
        if self.simulate_failure {
            return true;
        }
        let c = estimate_cycles(job);
        self.next_job_id < u32::MAX && self.counters.total_cycles <= u64::MAX - c
    }

    /// Submit a job. It is refused when the device is not initialized
    /// (`NotInitialized`), feigns a full queue (`QueueFull`), a buffer is empty
    /// ("Zero size buffer") or at address 0 ("Null address"), or the queue is
    /// full (`QueueFull`), in that order. Otherwise it runs at once: its
    /// result is kept under its id (replacing one with the same id), the
    /// counters record it, and the id is returned.
    pub fn submit_job(&mut self, job: NpuJob) -> (r: Result<u32, NpuError>)
        requires
            submit_fits(old(self)@, job),
        ensures
            !old(self)@.initialized ==> r matches Err(NpuError::NotInitialized),
            old(self)@.initialized && old(self)@.simulate_queue_full ==> r matches Err(
                NpuError::QueueFull,
            ),
            old(self)@.initialized && !old(self)@.simulate_queue_full && (job.input_size == 0
                || job.output_size == 0) ==> (r matches Err(NpuError::InvalidJob(m)) && m@
                == "Zero size buffer"@),
            old(self)@.initialized && !old(self)@.simulate_queue_full && job.input_size != 0
                && job.output_size != 0 && (job.model_addr == 0 || job.input_addr == 0
                || job.output_addr == 0) ==> (r matches Err(NpuError::InvalidJob(m)) && m@
                == "Null address"@),
            old(self)@.initialized && !old(self)@.simulate_queue_full && job.input_size != 0
                && job.output_size != 0 && job.model_addr != 0 && job.input_addr != 0
                && job.output_addr != 0 && old(self)@.queue_len >= old(self)@.config.max_queue_depth
                ==> r matches Err(NpuError::QueueFull),
            !takes_job(old(self)@, job) ==> final(self)@ == old(self)@,
            takes_job(old(self)@, job) ==> {
                let v = old(self)@;
                let c = completion_for(v, job);
                &&& r == Ok::<u32, NpuError>(c.job_id)
                &&& final(self)@ == (MockNpuView {
                    results: v.results.insert(c.job_id, c),
                    next_job_id: if v.simulate_failure {
                        v.next_job_id
                    } else {
                        (v.next_job_id + 1) as u32
                    },
                    counters: NpuCounters {
                        total_jobs: (v.counters.total_jobs + 1) as u64,
                        completed_jobs: if v.simulate_failure {
                            v.counters.completed_jobs
                        } else {
                            (v.counters.completed_jobs + 1) as u64
                        },
                        failed_jobs: if v.simulate_failure {
                            (v.counters.failed_jobs + 1) as u64
                        } else {
                            v.counters.failed_jobs
                        },
                        total_cycles: (v.counters.total_cycles + c.cycles_used) as u64,
                        queue_depth: v.queue_len as usize,
                    },
                    ..v
                })
            },
            npu_valid(final(self)@),
    {
        proof {
            use_type_invariant(&*self);
        }
        if !self.initialized {
            return Err(NpuError::NotInitialized);
        }
        if self.simulate_queue_full {
            return Err(NpuError::QueueFull);
        }
        if job.input_size == 0 || job.output_size == 0 {
            return Err(NpuError::InvalidJob("Zero size buffer".to_string()));
        }
        if job.model_addr == 0 || job.input_addr == 0 || job.output_addr == 0 {
            return Err(NpuError::InvalidJob("Null address".to_string()));
        }
        if self.job_queue.len() >= self.config.max_queue_depth {
            return Err(NpuError::QueueFull);
        }
        let ghost v = self@;
        let c = if self.simulate_failure {
            NpuCompletion {
                job_id: job.job_id,
                status: NpuJobStatus::Failed,
                cycles_used: 0,
                completion_time_us: 0,
                output_len: 0,
                error_code: Some(SIMULATED_FAILURE_CODE),
            }
        } else {
            let cycles = estimate_cycles(&job);
            let id = self.next_job_id;
            self.next_job_id = id + 1;
            NpuCompletion {
                job_id: id,
                status: NpuJobStatus::Completed,
                cycles_used: cycles,
                completion_time_us: cycles / 1000,
                output_len: (job.output_size / 4) as usize,
                error_code: None,
            }
        };
        assert(c == completion_for(v, job));
        let mut results: HashMap<u32, NpuCompletion> = HashMap::new();
        std::mem::swap(&mut results, &mut self.completed);
        results.insert(c.job_id, c);
        let new_counters = NpuCounters {
            total_jobs: self.counters.total_jobs + 1,
            completed_jobs: if self.simulate_failure {
                self.counters.completed_jobs
            } else {
                self.counters.completed_jobs + 1
            },
            failed_jobs: if self.simulate_failure {
                self.counters.failed_jobs + 1
            } else {
                self.counters.failed_jobs
            },
            total_cycles: self.counters.total_cycles + c.cycles_used,
            queue_depth: self.job_queue.len(),
        };
        self.completed = results;
        self.counters = new_counters;
        proof {
            use_type_invariant(&*self);
        }
        Ok(c.job_id)
    }

    /// Every result not yet polled, once each, in no particular order; they
    /// are then forgotten. `NotInitialized` when the device is down.
    pub fn poll_completed(&mut self) -> (r: Result<Vec<NpuCompletion>, NpuError>)
        ensures
            !old(self)@.initialized ==> (r matches Err(NpuError::NotInitialized) && final(self)@
                == old(self)@),
            old(self)@.initialized ==> (r matches Ok(v) && distinct_ids(v@) && results_map(v@)
                == old(self)@.results && final(self)@ == (MockNpuView {
                results: Map::empty(),
                ..old(self)@
            })),
            npu_valid(final(self)@),
    {
        proof {
            use_type_invariant(&*self);
        }
        if !self.initialized {
            return Err(NpuError::NotInitialized);
        }
        let taken = values_of(&self.completed);
        proof {
            lemma_values_listed(self.completed@, taken@);
        }
        self.completed = HashMap::new();
        proof {
            use_type_invariant(&*self);
        }
        Ok(taken)
    }

    /// The result kept under `job_id`, if any (what waiting for a job
    /// looks for). `NotInitialized` when the device is down.
    pub fn completed_result(&self, job_id: u32) -> (r: Result<Option<NpuCompletion>, NpuError>)
        ensures
            !self@.initialized ==> r matches Err(NpuError::NotInitialized),
            self@.initialized ==> (r matches Ok(o) && (match o {
                Some(c) => self@.results.contains_key(job_id) && self@.results[job_id] == c,
                None => !self@.results.contains_key(job_id),
            })),
    {
        if !self.initialized {
            return Err(NpuError::NotInitialized);
        }
        match self.completed.get(&job_id) {
            Some(c) => Ok(Some(*c)),
            None => Ok(None),
        }
    }

    /// The counters. `NotInitialized` when the device is down.
    pub fn counters(&self) -> (r: Result<NpuCounters, NpuError>)
        ensures
            !self@.initialized ==> r matches Err(NpuError::NotInitialized),
            self@.initialized ==> r == Ok::<NpuCounters, NpuError>(self@.counters),
    {
        if !self.initialized {
            return Err(NpuError::NotInitialized);
        }
        Ok(self.counters)
    }

    /// The configuration.
    pub fn config(&self) -> (c: NpuBackendConfig)
        ensures
            c == self@.config,
    {
        self.config
    }

    /// Empty the queue and the results, zero the counters and restart ids
    /// at 1. `NotInitialized` when the device is down.
    pub fn reset(&mut self) -> (r: Result<(), NpuError>)
        ensures
            !old(self)@.initialized ==> (r matches Err(NpuError::NotInitialized) && final(self)@
                == old(self)@),
            old(self)@.initialized ==> r is Ok && final(self)@ == (MockNpuView {
                queue_len: 0,
                results: Map::empty(),
                next_job_id: 1,
                counters: zero_counters(),
                ..old(self)@
            }),
            npu_valid(final(self)@),
    {
        proof {
            use_type_invariant(&*self);
        }
        if !self.initialized {
            return Err(NpuError::NotInitialized);
        }
        self.job_queue = VecDeque::new();
        self.completed = HashMap::new();
        self.counters = NpuCounters {
            total_jobs: 0,
            completed_jobs: 0,
            failed_jobs: 0,
            total_cycles: 0,
            queue_depth: 0,
        };
        self.next_job_id = 1;
        proof {
            use_type_invariant(&*self);
        }
        Ok(())
    }

    /// Take the device down. The reset that follows then finds it down, so
    /// this always answers `NotInitialized` and keeps the queue, results and
    /// counters.
    pub fn shutdown(&mut self) -> (r: Result<(), NpuError>)
        ensures
            r matches Err(NpuError::NotInitialized),
            final(self)@ == (MockNpuView { initialized: false, ..old(self)@ }),
            npu_valid(final(self)@),
    {
        proof {
            use_type_invariant(&*self);
        }
        self.initialized = false;
        self.reset()
    }

    /// The backend's name.
    pub fn name(&self) -> (s: &'static str)
        ensures
            s@ == "MockNpuBackend"@,
    {
        "MockNpuBackend"
    }
}


/// The values of `m`, each once, in the map's order.
fn values_of(m: &HashMap<u32, NpuCompletion>) -> (out: Vec<NpuCompletion>)
    ensures
        out@.to_set() == m@.values(),
        out@.len() == m@.dom().len(),
{
    let ghost rem = vstd::std_specs::iter::IteratorSpec::remaining(&vstd::std_specs::hash::spec_values_iter(m));
    let mut out: Vec<NpuCompletion> = Vec::new();
    for c in it: m.values()
        invariant
            it.seq() == rem,
            out@.len() == it.index(),
            forall|i: int| 0 <= i < out@.len() ==> out@[i] == *rem[i],
            rem.unref().to_set() == m@.values(),
            rem.len() == m@.dom().len(),
    {
        out.push(*c);
    }
    assert(out@ =~= rem.unref());
    out
}

} // verus!
