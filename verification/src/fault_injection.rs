//! Fault injection into a simulated cluster: the scenarios tried, the faults
//! injected so far, and how many faults of each kind the cluster tolerates.
use vstd::prelude::*;

verus! {

/// The kinds of fault that can be injected.
#[derive(Debug, Clone, Copy, PartialEq, Eq, Structural)]
pub enum FaultType {
    CrashStop,
    Byzantine,
    MessageOmission,
    MessageDelay,
    MessageCorruption,
    NetworkPartition,
    TimingAnomaly,
}

/// The message-loss rates tried, in percent, in increasing order.
pub open spec fn omission_rates() -> Seq<u32> {
    seq![10u32, 20, 30, 40, 50]
}

/// The delays tried, in milliseconds, in increasing order.
pub open spec fn timing_delays() -> Seq<u32> {
    seq![10u32, 50, 100, 200, 500]
}

/// The most tolerated message-loss rate, in percent.
pub const MAX_OMISSION_RATE: u32 = 30;

/// The most tolerated delay, in milliseconds.
pub const MAX_TIMING_DELAY_MS: u32 = 200;

/// Trying `vals` from position `i` on, having last tolerated `acc`: the
/// last value tolerated before the first one above `bound`.
pub open spec fn scan_from(vals: Seq<u32>, bound: u32, i: int, acc: u32) -> u32
    decreases vals.len() - i,
{
    if i < 0 || i >= vals.len() || vals[i] > bound {
        acc
    } else {
        scan_from(vals, bound, i + 1, vals[i])
    }
}

/// The last value of `vals` tolerated (not above `bound`) before the first
/// one that is not, or 0 if the first is not.
pub open spec fn last_tolerated(vals: Seq<u32>, bound: u32) -> u32 {
    scan_from(vals, bound, 0, 0)
}

/// A fault to inject: its kind, the nodes it hits, when (ms from the start)
/// and for how long, and how likely it is, in hundredths.
pub struct FaultScenario {
    pub fault_type: FaultType,
    pub target_nodes: Vec<u32>,
    pub injection_time_ms: u64,
    pub duration_ms: Option<u64>,
    pub probability_pct: u32,
}

/// A fault scenario as values.
pub struct FaultScenarioView {
    pub fault_type: FaultType,
    pub target_nodes: Seq<u32>,
    pub injection_time_ms: u64,
    pub duration_ms: Option<u64>,
    pub probability_pct: u32,
}

impl View for FaultScenario {
    type V = FaultScenarioView;

    open spec fn view(&self) -> FaultScenarioView {
        FaultScenarioView {
            fault_type: self.fault_type,
            target_nodes: self.target_nodes@,
            injection_time_ms: self.injection_time_ms,
            duration_ms: self.duration_ms,
            probability_pct: self.probability_pct,
        }
    }
}

impl FaultScenario {
    /// A copy of the scenario.
    pub fn copy(&self) -> (s: Self)
        ensures
            s@ == self@,
    {
        FaultScenario {
            fault_type: self.fault_type,
            target_nodes: self.target_nodes.clone(),
            injection_time_ms: self.injection_time_ms,
            duration_ms: self.duration_ms,
            probability_pct: self.probability_pct,
        }
    }
}

/// The node ids `0..n`.
pub open spec fn node_ids(n: u32) -> Seq<u32> {
    Seq::new(n as nat, |i: int| i as u32)
}

/// The scenarios tried on a cluster of `n` nodes: a crash of node 0 at 1 s
/// (10%), nodes 1 and 2 turning Byzantine at 2 s for 5 s (5%), and message
/// loss on every node at 0.5 s for 2 s (20%).
pub open spec fn scenarios_for(n: usize) -> Seq<FaultScenarioView> {
    seq![
        FaultScenarioView {
            fault_type: FaultType::CrashStop,
            target_nodes: seq![0u32],
            injection_time_ms: 1000,
            duration_ms: None,
            probability_pct: 10,
        },
        FaultScenarioView {
            fault_type: FaultType::Byzantine,
            target_nodes: seq![1u32, 2],
            injection_time_ms: 2000,
            duration_ms: Some(5000),
            probability_pct: 5,
        },
        FaultScenarioView {
            fault_type: FaultType::MessageOmission,
            target_nodes: node_ids(n as u32),
            injection_time_ms: 500,
            duration_ms: Some(2000),
            probability_pct: 20,
        },
    ]
}

/// The scenario views of a list of scenarios.
pub open spec fn scenario_views(s: Seq<FaultScenario>) -> Seq<FaultScenarioView> {
    s.map_values(|f: FaultScenario| f@)
}

/// The scenarios tried on a cluster of `node_count` nodes.
pub fn generate_fault_scenarios(node_count: usize) -> (v: Vec<FaultScenario>)
    ensures
        scenario_views(v@) == scenarios_for(node_count),
{
    let n: u32 = #[verifier::truncate] (node_count as u32);
    let mut all: Vec<u32> = Vec::new();
    let mut i: u32 = 0;
    while i < n
        invariant
            i <= n,
            all@ == node_ids(i),
        decreases n - i,
    {
        all.push(i);
        i = i + 1;
        assert(all@ =~= node_ids(i));
    }
    let mut first: Vec<u32> = Vec::new();
    first.push(0);
    let mut second: Vec<u32> = Vec::new();
    second.push(1);
    second.push(2);
    assert(first@ =~= seq![0u32]);
    assert(second@ =~= seq![1u32, 2]);
    let mut v: Vec<FaultScenario> = Vec::new();
    v.push(
        FaultScenario {
            fault_type: FaultType::CrashStop,
            target_nodes: first,
            injection_time_ms: 1000,
            duration_ms: None,
            probability_pct: 10,
        },
    );
    v.push(
        FaultScenario {
            fault_type: FaultType::Byzantine,
            target_nodes: second,
            injection_time_ms: 2000,
            duration_ms: Some(5000),
            probability_pct: 5,
        },
    );
    v.push(
        FaultScenario {
            fault_type: FaultType::MessageOmission,
            target_nodes: all,
            injection_time_ms: 500,
            duration_ms: Some(2000),
            probability_pct: 20,
        },
    );
    assert(scenario_views(v@) =~= scenarios_for(node_count));
    v
}

/// Injects faults into a cluster of `node_count` nodes and decides which
/// faults it tolerates.
pub struct FaultInjector {
    node_count: usize,
    fault_scenarios: Vec<FaultScenario>,
    active_faults: Vec<FaultScenario>,
    total_injected: u32,
}

impl FaultInjector {
    /// The number of nodes.
    pub closed spec fn nodes(&self) -> usize {
        self.node_count
    }

    /// The scenarios tried.
    pub closed spec fn scenarios(&self) -> Seq<FaultScenarioView> {
        scenario_views(self.fault_scenarios@)
    }

    /// The faults injected so far, in order.
    pub closed spec fn active(&self) -> Seq<FaultScenarioView> {
        scenario_views(self.active_faults@)
    }

    /// How many faults were injected.
    pub closed spec fn injected(&self) -> u32 {
        self.total_injected
    }

    /// An injector for a cluster of `node_count` nodes, with its scenarios
    /// and nothing injected yet.
    pub fn new(node_count: usize) -> (f: Self)
        ensures
            f.nodes() == node_count,
            f.scenarios() == scenarios_for(node_count),
            f.active() == Seq::<FaultScenarioView>::empty(),
            f.injected() == 0,
    {
        let f = FaultInjector {
            node_count,
            fault_scenarios: generate_fault_scenarios(node_count),
            active_faults: Vec::new(),
            total_injected: 0,
        };
        assert(f.active() =~= Seq::<FaultScenarioView>::empty());
        f
    }

    /// How many faults were injected.
    pub fn injected_count(&self) -> (n: u32)
        ensures
            n == self.injected(),
    {
        self.total_injected
    }

    /// How many scenarios are tried.
    pub fn scenario_count(&self) -> (n: usize)
        ensures
            n == self.scenarios().len(),
    {
        self.fault_scenarios.len()
    }

    /// Activate a fault scenario.
    pub fn inject_scenario(&mut self, scenario: FaultScenario)
        requires
            old(self).injected() < u32::MAX,
        ensures
            final(self).active() == old(self).active().push(scenario@),
            final(self).injected() == old(self).injected() + 1,
            final(self).nodes() == old(self).nodes(),
            final(self).scenarios() == old(self).scenarios(),
    {
        let ghost before = self.active_faults@;
        self.active_faults.push(scenario);
        self.total_injected = self.total_injected + 1;
        assert(scenario_views(self.active_faults@) =~= scenario_views(before).push(scenario@));
    }

    /// Inject a fault of kind `fault_type` on `targets` at once, for 1 s,
    /// certainly.
    pub fn inject_fault(&mut self, fault_type: FaultType, targets: Vec<u32>)
        requires
            old(self).injected() < u32::MAX,
        ensures
            final(self).active() == old(self).active().push(
                FaultScenarioView {
                    fault_type,
                    target_nodes: targets@,
                    injection_time_ms: 0,
                    duration_ms: Some(1000),
                    probability_pct: 100,
                },
            ),
            final(self).injected() == old(self).injected() + 1,
            final(self).nodes() == old(self).nodes(),
            final(self).scenarios() == old(self).scenarios(),
    {
        let scenario = FaultScenario {
            fault_type,
            target_nodes: targets,
            injection_time_ms: 0,
            duration_ms: Some(1000),
            probability_pct: 100,
        };
        self.inject_scenario(scenario);
    }

    /// Inject every scenario, in order, and check that the cluster's state
    /// stayed consistent, which the simulation always finds.
    pub fn verify_state_consistency(&mut self) -> (r: bool)
        requires
            old(self).injected() + old(self).scenarios().len() <= u32::MAX,
        ensures
            r,
            final(self).active() == old(self).active() + old(self).scenarios(),
            final(self).injected() == old(self).injected() + old(self).scenarios().len(),
            final(self).nodes() == old(self).nodes(),
            final(self).scenarios() == old(self).scenarios(),
    {
        let ghost start = self.active();
        let n = self.fault_scenarios.len();
        let mut i: usize = 0;
        while i < n
            invariant
                n == self.fault_scenarios@.len(),
                i <= n,
                self.scenarios() == old(self).scenarios(),
                self.nodes() == old(self).nodes(),
                self.active() == start + old(self).scenarios().subrange(0, i as int),
                self.injected() == old(self).injected() + i,
                old(self).injected() + n <= u32::MAX,
                start == old(self).active(),
            decreases n - i,
        {
            let s = self.fault_scenarios[i].copy();
            proof {
                assert(s@ == self.scenarios()[i as int]);
            }
            self.inject_scenario(s);
            proof {
                assert(old(self).scenarios().subrange(0, i + 1) =~= old(self).scenarios().subrange(
                    0,
                    i as int,
                ).push(s@));
                assert(start + old(self).scenarios().subrange(0, i + 1) =~= (start + old(
                    self,
                ).scenarios().subrange(0, i as int)).push(s@));
            }
            i = i + 1;
        }
        proof {
            assert(old(self).scenarios().subrange(0, n as int) =~= old(self).scenarios());
        }
        true
    }

    /// The most crash faults tolerated: each count from 1 to `n / 3` is
    /// tried until one is not tolerated.
    pub fn test_crash_faults(&self) -> (r: u32)
        requires
            self.nodes() <= u32::MAX,
        ensures
            r == if self.nodes() == 0 {
                0
            } else {
                (self.nodes() - 1) / 3
            },
    {
        let mut tolerated_faults: u32 = 0;
        let max_nodes = self.node_count;
        let mut crash_count: usize = 1;
        while crash_count <= max_nodes / 3
            invariant_except_break
                1 <= crash_count <= max_nodes / 3 + 1,
                tolerated_faults == crash_count - 1,
                max_nodes >= 1 ==> crash_count - 1 <= (max_nodes - 1) / 3,
            invariant
                max_nodes == self.nodes() <= u32::MAX,
            ensures
                tolerated_faults == if max_nodes == 0 {
                    0
                } else {
                    (max_nodes - 1) / 3
                },
            decreases max_nodes / 3 + 1 - crash_count,
        {
            if self.can_tolerate_crashes(crash_count) {
                tolerated_faults = crash_count as u32;
            } else {
                break;
            }
            crash_count = crash_count + 1;
        }
        tolerated_faults
    }

    /// The most Byzantine faults tolerated: each count from 1 to
    /// `(n - 1) / 3` is tried until one is not tolerated.
    pub fn test_byzantine_faults(&self) -> (r: u32)
        requires
            1 <= self.nodes() <= u32::MAX,
        ensures
            r == (self.nodes() - 1) / 3,
    {
        let mut tolerated_faults: u32 = 0;
        let max_byzantine = (self.node_count - 1) / 3;
        let mut byzantine_count: usize = 1;
        while byzantine_count <= max_byzantine
            invariant_except_break
                1 <= byzantine_count <= max_byzantine + 1,
                tolerated_faults == byzantine_count - 1,
            invariant
                1 <= self.nodes() <= u32::MAX,
                max_byzantine == (self.nodes() - 1) / 3,
            ensures
                tolerated_faults == max_byzantine,
            decreases max_byzantine + 1 - byzantine_count,
        {
            if self.can_tolerate_byzantine(byzantine_count) {
                tolerated_faults = byzantine_count as u32;
            } else {
                break;
            }
            byzantine_count = byzantine_count + 1;
        }
        tolerated_faults
    }

    /// The highest message-loss rate tolerated among 10, 20, 30, 40 and 50
    /// percent, trying them in order until one is not tolerated.
    pub fn test_omission_faults(&self) -> (r: u32)
        ensures
            r == last_tolerated(omission_rates(), MAX_OMISSION_RATE),
            r == 30,
    {
        let rates: [u32; 5] = [10, 20, 30, 40, 50];
        let r = first_failure_scan(&rates, MAX_OMISSION_RATE);
        proof {
            assert(rates@ =~= omission_rates());
            reveal_with_fuel(scan_from, 6);
        }
        r
    }

    /// The longest delay tolerated among 10, 50, 100, 200 and 500 ms,
    /// trying them in order until one is not tolerated.
    pub fn test_timing_faults(&self) -> (r: u32)
        ensures
            r == last_tolerated(timing_delays(), MAX_TIMING_DELAY_MS),
            r == 200,
    {
        let delays: [u32; 5] = [10, 50, 100, 200, 500];
        let r = first_failure_scan(&delays, MAX_TIMING_DELAY_MS);
        proof {
            assert(delays@ =~= timing_delays());
            reveal_with_fuel(scan_from, 6);
        }
        r
    }

    /// Whether `count` crash faults are tolerated: at most `(n - 1) / 3`.
    pub fn can_tolerate_crashes(&self, count: usize) -> (r: bool)
        requires
            self.nodes() >= 1,
        ensures
            r == (count <= (self.nodes() - 1) / 3),
    {
        let max_tolerable = (self.node_count - 1) / 3;
        count <= max_tolerable
    }

    /// Whether `count` Byzantine faults are tolerated: at most `(n - 1) / 3`.
    pub fn can_tolerate_byzantine(&self, count: usize) -> (r: bool)
        requires
            self.nodes() >= 1,
        ensures
            r == (count <= (self.nodes() - 1) / 3),
    {
        let max_tolerable = (self.node_count - 1) / 3;
        count <= max_tolerable
    }

    /// Whether a message-loss rate (percent) is tolerated: at most 30.
    pub fn can_tolerate_omission_rate(&self, rate: u32) -> (r: bool)
        ensures
            r == (rate <= MAX_OMISSION_RATE),
    {
        rate <= MAX_OMISSION_RATE
    }

    /// Whether a delay (ms) is tolerated: at most 200.
    pub fn can_tolerate_timing_delay(&self, delay_ms: u32) -> (r: bool)
        ensures
            r == (delay_ms <= MAX_TIMING_DELAY_MS),
    {
        delay_ms <= MAX_TIMING_DELAY_MS
    }
}

/// Scan `vals` in order and answer the last one not above `bound` before the
/// first one above it (0 if the first is above).
fn first_failure_scan(vals: &[u32; 5], bound: u32) -> (r: u32)
    ensures
        r == last_tolerated(vals@, bound),
{
    let mut tolerated: u32 = 0;
    let mut i: usize = 0;
    while i < 5
        invariant_except_break
            i <= 5,
            vals@.len() == 5,
            scan_from(vals@, bound, i as int, tolerated) == last_tolerated(vals@, bound),
        ensures
            tolerated == last_tolerated(vals@, bound),
        decreases 5 - i,
    {
        if vals[i] <= bound {
            tolerated = vals[i];
        } else {
            break;
        }
        i = i + 1;
    }
    tolerated
}

} // verus!
