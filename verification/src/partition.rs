//! Network partitions of a simulated cluster, and the checks that a
//! partition leaves at most one side able to make progress.
use vstd::prelude::*;
use std::collections::HashSet;

verus! {

broadcast use vstd::std_specs::hash::group_hash_axioms;

/// How the two sides of a partition can still talk.
#[derive(Debug, Clone, Copy, PartialEq, Eq, Structural)]
pub enum PartitionType {
    /// No communication between the sides.
    Complete,
    /// One-way communication only.
    Asymmetric,
    /// Periodic loss of connectivity.
    Intermittent,
    /// High latency between the sides.
    SlowLink,
}

/// A split of the cluster into two groups of node ids.
pub struct Partition {
    pub group_a: HashSet<u32>,
    pub group_b: HashSet<u32>,
    pub duration_ms: u64,
    pub partition_type: PartitionType,
}

/// A partition as a value: the two groups as sets.
pub struct PartitionView {
    pub group_a: Set<u32>,
    pub group_b: Set<u32>,
    pub duration_ms: u64,
    pub partition_type: PartitionType,
}

impl View for Partition {
    type V = PartitionView;

    open spec fn view(&self) -> PartitionView {
        PartitionView {
            group_a: self.group_a@,
            group_b: self.group_b@,
            duration_ms: self.duration_ms,
            partition_type: self.partition_type,
        }
    }
}

/// The ids `lo..hi`.
pub open spec fn id_range(lo: u32, hi: u32) -> Set<u32> {
    Set::new(|x: u32| lo <= x < hi)
}

/// The partition that splits ids `0..n` at `at`.
pub open spec fn split_at(n: u32, at: u32, duration_ms: u64, t: PartitionType) -> PartitionView {
    PartitionView {
        group_a: id_range(0, at),
        group_b: id_range(at, n),
        duration_ms,
        partition_type: t,
    }
}

/// The scenarios tried on `n` nodes: an even split, node 0 isolated, and a
/// one-way split after the first third.
pub open spec fn partition_scenarios(n: u32) -> Seq<PartitionView> {
    seq![
        split_at(n, n / 2, 5000, PartitionType::Complete),
        PartitionView {
            group_a: set![0u32],
            group_b: id_range(1, n),
            duration_ms: 3000,
            partition_type: PartitionType::Complete,
        },
        split_at(n, n / 3, 4000, PartitionType::Asymmetric),
    ]
}

/// Whether a group of `size` nodes is a strict majority of `n`.
pub open spec fn majority(size: int, n: int) -> bool {
    size > n / 2
}

/// A partition can make progress when one side is a strict majority.
pub open spec fn tolerates(p: PartitionView, n: int) -> bool {
    majority(p.group_a.len() as int, n) || majority(p.group_b.len() as int, n)
}

/// A split brain: neither side has a strict majority.
pub open spec fn split_brain(p: PartitionView, n: int) -> bool {
    !majority(p.group_a.len() as int, n) && !majority(p.group_b.len() as int, n)
}

/// Quorum is maintained when the two sides do not both reach `n / 2 + 1`.
pub open spec fn quorum_maintained(p: PartitionView, n: int) -> bool {
    !(p.group_a.len() >= n / 2 + 1 && p.group_b.len() >= n / 2 + 1)
}

/// The set of ids `lo..hi`.
pub fn id_set(lo: u32, hi: u32) -> (s: HashSet<u32>)
    ensures
        s@ == id_range(lo, hi),
        s@.finite(),
        s@.len() == if lo <= hi {
            hi - lo
        } else {
            0
        },
{
    let mut s: HashSet<u32> = HashSet::new();
    let mut i: u32 = lo;
    while i < hi
        invariant
            lo <= i,
            i <= hi || i == lo,
            s@ == id_range(lo, i),
            s@.finite(),
            s@.len() == i - lo,
        decreases hi - i,
    {
        proof {
            assert(!s@.contains(i));
        }
        s.insert(i);
        proof {
            assert(s@ =~= id_range(lo, (i + 1) as u32));
        }
        i = i + 1;
    }
    proof {
        if hi < lo {
            assert(s@ =~= id_range(lo, hi));
        }
    }
    s
}

/// The partition of ids `0..n` split at `at`.
fn split_partition(n: u32, at: u32, duration_ms: u64, t: PartitionType) -> (p: Partition)
    ensures
        p@ == split_at(n, at, duration_ms, t),
        p@.group_a.finite(),
        p@.group_b.finite(),
        p@.group_a.len() == at,
        p@.group_b.len() == if at <= n {
            n - at
        } else {
            0
        },
{
    Partition {
        group_a: id_set(0, at),
        group_b: id_set(at, n),
        duration_ms,
        partition_type: t,
    }
}

/// Checks partition tolerance, split-brain prevention and quorum
/// maintenance on a cluster of `node_count` nodes.
pub struct NetworkPartitionSimulator {
    node_count: u32,
    partitions: Vec<Partition>,
}

impl NetworkPartitionSimulator {
    /// The number of nodes.
    pub closed spec fn nodes(&self) -> u32 {
        self.node_count
    }

    /// The partition scenarios.
    pub closed spec fn scenarios(&self) -> Seq<PartitionView> {
        self.partitions@.map_values(|p: Partition| p@)
    }

    /// A simulator for `node_count` nodes with the standard scenarios.
    pub fn new(node_count: u32) -> (s: Self)
        ensures
            s.nodes() == node_count,
            s.scenarios() == partition_scenarios(node_count),
    {
        let partitions = Self::generate_partition_scenarios(node_count);
        NetworkPartitionSimulator { node_count, partitions }
    }

    /// The scenarios on `node_count` nodes: an even split, node 0 isolated,
    /// and a one-way split after the first third.
    pub fn generate_partition_scenarios(node_count: u32) -> (v: Vec<Partition>)
        ensures
            v@.map_values(|p: Partition| p@) == partition_scenarios(node_count),
    {
        let mut scenarios: Vec<Partition> = Vec::new();
        let mid = node_count / 2;
        scenarios.push(split_partition(node_count, mid, 5000, PartitionType::Complete));
        let mut isolated: HashSet<u32> = HashSet::new();
        isolated.insert(0);
        scenarios.push(
            Partition {
                group_a: isolated,
                group_b: id_set(1, node_count),
                duration_ms: 3000,
                partition_type: PartitionType::Complete,
            },
        );
        let third = node_count / 3;
        scenarios.push(split_partition(node_count, third, 4000, PartitionType::Asymmetric));
        proof {
            assert(scenarios@[1]@.group_a =~= set![0u32]);
            assert(scenarios@.map_values(|p: Partition| p@) =~= partition_scenarios(node_count));
        }
        scenarios
    }

    /// Whether every scenario leaves one side with a strict majority.
    pub fn test_partition_tolerance(&self) -> (r: bool)
        ensures
            r == forall|i: int|
                0 <= i < self.scenarios().len() ==> tolerates(
                    #[trigger] self.scenarios()[i],
                    self.nodes() as int,
                ),
    {
        let mut i: usize = 0;
        while i < self.partitions.len()
            invariant
                i <= self.partitions@.len(),
                forall|k: int|
                    0 <= k < i ==> tolerates(#[trigger] self.scenarios()[k], self.nodes() as int),
            decreases self.partitions@.len() - i,
        {
            if !self.can_tolerate_partition(&self.partitions[i]) {
                assert(!tolerates(self.scenarios()[i as int], self.nodes() as int));
                return false;
            }
            i = i + 1;
        }
        true
    }

    /// Whether an even split avoids a split brain.
    pub fn test_split_brain_prevention(&self) -> (r: bool)
        ensures
            r == !split_brain(split_at(self.nodes(), self.nodes() / 2, 5000, PartitionType::Complete), self.nodes() as int),
    {
        let partition = self.create_even_split_partition();
        let has_split_brain = self.detect_split_brain(&partition);
        !has_split_brain
    }

    /// Whether no scenario leaves both sides with a quorum.
    pub fn test_quorum_maintenance(&self) -> (r: bool)
        ensures
            r == forall|i: int|
                0 <= i < self.scenarios().len() ==> quorum_maintained(
                    #[trigger] self.scenarios()[i],
                    self.nodes() as int,
                ),
    {
        let mut i: usize = 0;
        while i < self.partitions.len()
            invariant
                i <= self.partitions@.len(),
                forall|k: int|
                    0 <= k < i ==> quorum_maintained(
                        #[trigger] self.scenarios()[k],
                        self.nodes() as int,
                    ),
            decreases self.partitions@.len() - i,
        {
            if !self.check_quorum_maintenance(&self.partitions[i]) {
                assert(!quorum_maintained(self.scenarios()[i as int], self.nodes() as int));
                return false;
            }
            i = i + 1;
        }
        true
    }

    /// Whether one side of `partition` has a strict majority.
    pub fn can_tolerate_partition(&self, partition: &Partition) -> (r: bool)
        ensures
            r == tolerates(partition@, self.nodes() as int),
            r == (partition@.group_a.len() > self.nodes() / 2 || partition@.group_b.len() > self.nodes()
                / 2),
    {
        let group_a_size = partition.group_a.len();
        let group_b_size = partition.group_b.len();
        let half = (self.node_count / 2) as usize;
        group_a_size > half || group_b_size > half
    }

    /// The partition splitting the nodes in two halves.
    pub fn create_even_split_partition(&self) -> (p: Partition)
        ensures
            p@ == split_at(self.nodes(), self.nodes() / 2, 5000, PartitionType::Complete),
            p@.group_a.finite(),
            p@.group_b.finite(),
    {
        let mid = self.node_count / 2;
        split_partition(self.node_count, mid, 5000, PartitionType::Complete)
    }

    /// Whether neither side of `partition` has a strict majority.
    pub fn detect_split_brain(&self, partition: &Partition) -> (r: bool)
        ensures
            r == split_brain(partition@, self.nodes() as int),
            r == (partition@.group_a.len() <= self.nodes() / 2 && partition@.group_b.len()
                <= self.nodes() / 2),
    {
        let half = (self.node_count / 2) as usize;
        let group_a_has_quorum = partition.group_a.len() > half;
        let group_b_has_quorum = partition.group_b.len() > half;
        !group_a_has_quorum && !group_b_has_quorum
    }

    /// Whether at most one side of `partition` reaches `n / 2 + 1` nodes.
    pub fn check_quorum_maintenance(&self, partition: &Partition) -> (r: bool)
        ensures
            r == quorum_maintained(partition@, self.nodes() as int),
    {
        let majority = (self.node_count / 2) as usize + 1;
        let group_a_has_quorum = partition.group_a.len() >= majority;
        let group_b_has_quorum = partition.group_b.len() >= majority;
        (group_a_has_quorum ^ group_b_has_quorum) || (!group_a_has_quorum && !group_b_has_quorum)
    }
}

/// Whether a partition can make progress does not depend on which side is
/// called `a`: it can exactly when either side holds more than half of the
/// `n` nodes, and a split brain is exactly the case where it cannot.
pub proof fn lemma_tolerance_symmetric(p: PartitionView, n: int)
    ensures
        tolerates(PartitionView { group_a: p.group_b, group_b: p.group_a, ..p }, n) == tolerates(p, n),
        p.group_a.len() > n / 2 ==> tolerates(p, n),
        p.group_b.len() > n / 2 ==> tolerates(p, n),
        tolerates(p, n) ==> p.group_a.len() > n / 2 || p.group_b.len() > n / 2,
        split_brain(p, n) == !tolerates(p, n),
        split_brain(PartitionView { group_a: p.group_b, group_b: p.group_a, ..p }, n) == split_brain(p, n),
{
}

/// Two disjoint groups of the nodes `0..n` never both reach a quorum of
/// `n / 2 + 1`: a partition cannot leave two sides able to commit.
pub proof fn lemma_disjoint_groups_one_quorum(a: Set<u32>, b: Set<u32>, n: u32)
    requires
        a.subset_of(id_range(0, n)),
        b.subset_of(id_range(0, n)),
        a.disjoint(b),
    ensures
        quorum_maintained(PartitionView { group_a: a, group_b: b, duration_ms: 0, partition_type: PartitionType::Complete }, n as int),
{
    let all = id_range(0, n);
    assert(all == Set::<u32>::range(0, n));
    vstd::set_lib::range_set_properties::<u32>(0, n);
    vstd::set_lib::lemma_len_subset(a, all);
    vstd::set_lib::lemma_len_subset(b, all);
    vstd::set_lib::lemma_set_disjoint_lens(a, b);
    vstd::set_lib::lemma_len_subset(a + b, all);
}

/// The standard scenarios never leave both sides with a quorum.
pub proof fn lemma_scenarios_keep_quorum(n: u32)
    ensures
        forall|i: int|
            0 <= i < partition_scenarios(n).len() ==> quorum_maintained(
                #[trigger] partition_scenarios(n)[i],
                n as int,
            ),
{
    let sc = partition_scenarios(n);
    assert forall|i: int| 0 <= i < sc.len() implies quorum_maintained(#[trigger] sc[i], n as int) by {
        let p = sc[i];
        if i == 1 && n == 0 {
            assert(p.group_b =~= Set::<u32>::empty());
        } else {
            assert(p.group_a.disjoint(p.group_b));
            assert(p.group_a.subset_of(id_range(0, n)));
            assert(p.group_b.subset_of(id_range(0, n)));
            lemma_disjoint_groups_one_quorum(p.group_a, p.group_b, n);
        }
    }
}

} // verus!
