use sis_kernel::consensus::{ByzantineNode, ConsensusTester, FaultType, MessageType, NodeState, Proposal};
use sis_kernel::fault_injection::{generate_fault_scenarios, FaultInjector};
use sis_kernel::partition::NetworkPartitionSimulator;
use sis_kernel::replication::{PBFTProtocol, RaftConsensus};

#[test]
fn byzantine_node_corrupts_first_byte_and_signs() {
    let mut node = ByzantineNode::new(7);
    assert!(!node.is_byzantine);
    assert_eq!(node.state, NodeState::Active);
    let m = node.send_message_at(3, MessageType::Vote, vec![0x0F, 2, 3], 1234);
    assert_eq!(m.payload, vec![0x0F, 2, 3]);
    assert_eq!(m.signature, vec![7u8; 32]);
    assert_eq!(m.timestamp, 1234);
    node.make_byzantine(FaultType::Byzantine);
    assert_eq!(node.state, NodeState::Byzantine);
    let m2 = node.send_message_at(3, MessageType::Commit, vec![0x0F, 2, 3], 99);
    assert_eq!(m2.payload, vec![0xF0, 2, 3]);
    assert_eq!(node.message_log.len(), 2);
    let empty = node.corrupt_message(Vec::new());
    assert!(empty.is_empty());
    let mut crashed = ByzantineNode::new(1);
    crashed.make_byzantine(FaultType::Crash);
    assert_eq!(crashed.state, NodeState::Crashed);
    let mut omit = ByzantineNode::new(2);
    omit.make_byzantine(FaultType::Omission);
    assert_eq!(omit.state, NodeState::Active);
}

#[test]
fn consensus_round_counts_messages() {
    let t = ConsensusTester::new(4);
    let r = t.run_consensus_round(5, 0);
    assert_eq!(r.round_number, 5);
    // 3 proposal messages, 4 prepare votes, 4 commit votes
    assert_eq!(r.messages_sent, 11);
    assert_eq!(r.messages_received, 8);
    assert_eq!(r.byzantine_messages_detected, 0);
    assert!(r.consensus_reached);
}

#[test]
fn proposal_value_and_hash() {
    let t = ConsensusTester::new(4);
    let p: Proposal = t.create_proposal_at(6, 42);
    assert_eq!(p.proposer, 2);
    assert_eq!(p.value, b"proposal_6".to_vec());
    let h = t.hash_proposal(&p);
    assert_eq!(h.len(), 32);
    assert_eq!(h[0], 2);
    assert_eq!(h[1], 0);
    assert_eq!(h[2], b'p');
    assert!(h[3..].iter().all(|b| *b == 0));
}

#[test]
fn byzantine_threshold_is_a_third() {
    let t = ConsensusTester::new(10);
    assert!(t.test_with_byzantine_nodes(3));
    assert!(!t.test_with_byzantine_nodes(4));
    assert_eq!(t.determine_max_byzantine_nodes(), 3);
    let t7 = ConsensusTester::new(7);
    assert_eq!(t7.determine_max_byzantine_nodes(), 2);
    let t1 = ConsensusTester::new(1);
    assert_eq!(t1.determine_max_byzantine_nodes(), 0);
}

#[test]
fn quorum_and_duplicate_detection() {
    let t = ConsensusTester::new(4);
    let p = t.create_proposal_at(0, 0);
    let mut votes = t.collect_prepare_votes(&p);
    assert_eq!(votes.len(), 4);
    assert!(t.has_quorum(&votes[..3]));
    assert!(!t.has_quorum(&votes[..2]));
    assert_eq!(t.detect_byzantine_messages(&votes), 0);
    let dup = t.collect_commit_votes(&p).remove(1);
    votes.push(dup);
    votes[0].signature = vec![9u8; 32];
    // one repeated voter, one bad signature
    assert_eq!(t.detect_byzantine_messages(&votes), 2);
}

#[test]
fn consensus_summary_over_rounds() {
    let t = ConsensusTester::new(4);
    let s = t.test_consensus_protocols(100, 0);
    assert_eq!(s.agreement_count, 100);
    assert!(s.consensus_achieved);
    assert_eq!(s.rounds_to_consensus, 49);
    assert_eq!(s.message_rounds.len(), 100);
}

#[test]
fn pbft_checkpoint_keeps_last_fifty() {
    let mut p = PBFTProtocol::new();
    for i in 0..99u32 {
        let r = p.process_request(vec![(i % 256) as u8]).ok().unwrap();
        assert_eq!(r, vec![1u8; 32]);
    }
    assert_eq!(p.log_len(), 99);
    p.process_request(vec![7]).ok().unwrap();
    assert_eq!(p.log_len(), 50);
    assert_eq!(p.first_logged(), Some(51));
    p.initiate_view_change(3);
    p.process_request(vec![1]).ok().unwrap();
    assert_eq!(p.log_len(), 51);
}

#[test]
fn raft_commit_applies_and_never_goes_back() {
    let mut r = RaftConsensus::new();
    assert!(r.start_election(4));
    r.become_leader();
    assert_eq!(r.append_entry(vec![1]), 1);
    assert_eq!(r.append_entry(vec![2]), 2);
    assert_eq!(r.append_entry(vec![3]), 3);
    r.commit_entry(2);
    assert_eq!(r.commit_index(), 2);
    assert_eq!(r.last_applied(), 2);
    r.commit_entry(1);
    assert_eq!(r.commit_index(), 2);
    r.commit_entry(9);
    assert_eq!(r.commit_index(), 2);
    r.commit_entry(3);
    assert_eq!(r.last_applied(), 3);
}

#[test]
fn fault_tolerance_counts() {
    let f = FaultInjector::new(10);
    assert_eq!(f.test_crash_faults(), 3);
    assert_eq!(f.test_byzantine_faults(), 3);
    assert_eq!(f.test_omission_faults(), 30);
    assert_eq!(f.test_timing_faults(), 200);
    assert!(f.can_tolerate_byzantine(3));
    assert!(!f.can_tolerate_crashes(4));
    let f3 = FaultInjector::new(3);
    assert_eq!(f3.test_crash_faults(), 0);
    let f0 = FaultInjector::new(0);
    assert_eq!(f0.test_crash_faults(), 0);
}

#[test]
fn partitions_on_even_and_odd_clusters() {
    let s = NetworkPartitionSimulator::new(10);
    // the 5/5 split leaves no majority
    assert!(!s.test_partition_tolerance());
    assert!(!s.test_split_brain_prevention());
    assert!(s.test_quorum_maintenance());
    let s7 = NetworkPartitionSimulator::new(7);
    assert!(s7.test_partition_tolerance());
    assert!(s7.test_split_brain_prevention());
    assert!(s7.test_quorum_maintenance());
    let p = s7.create_even_split_partition();
    assert_eq!(p.group_a.len(), 3);
    assert_eq!(p.group_b.len(), 4);
    assert!(p.group_b.contains(&6));
}

#[test]
fn fault_scenarios_cover_every_node() {
    let s = generate_fault_scenarios(4);
    assert_eq!(s.len(), 3);
    assert_eq!(s[0].fault_type, sis_kernel::fault_injection::FaultType::CrashStop);
    assert_eq!(s[0].target_nodes, vec![0]);
    assert_eq!(s[0].duration_ms, None);
    assert_eq!(s[1].target_nodes, vec![1, 2]);
    assert_eq!(s[1].duration_ms, Some(5000));
    assert_eq!(s[2].fault_type, sis_kernel::fault_injection::FaultType::MessageOmission);
    assert_eq!(s[2].target_nodes, vec![0, 1, 2, 3]);
    assert_eq!((s[2].injection_time_ms, s[2].probability_pct), (500, 20));
}

#[test]
fn injected_faults_are_recorded() {
    let mut f = FaultInjector::new(4);
    assert_eq!(f.injected_count(), 0);
    f.inject_fault(sis_kernel::fault_injection::FaultType::CrashStop, vec![0]);
    assert_eq!(f.injected_count(), 1);
    assert_eq!(f.scenario_count(), 3);
    assert!(f.verify_state_consistency());
    assert_eq!(f.injected_count(), 4);
}

#[test]
fn pbft_log_never_exceeds_149_requests() {
    let mut p = PBFTProtocol::new();
    let mut longest = 0;
    for i in 0..450u32 {
        assert!(p.process_request(vec![i as u8]).is_ok());
        longest = longest.max(p.log_len());
        if (i + 1) % 100 == 0 {
            assert_eq!(p.log_len(), 50);
            assert_eq!(p.first_logged(), Some(i as u64 + 1 - 49));
        }
    }
    assert_eq!(longest, 149);
}
