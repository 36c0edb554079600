use synapsed::consensus::config::{ConsensusConfig, ConsensusStats};
use synapsed::consensus::error::ConsensusError;
use synapsed::consensus::hotstuff::{HotStuffMessage, HotStuffPhase, HotStuffState, VoteAggregator};
use synapsed::consensus::leader::{
    HashBasedLeaderElection, LeaderElection, RoundRobinLeaderElection, WeightedLeaderElection,
};
use synapsed::consensus::protocol::{HotStuffConsensus, VoteIntent};
use synapsed::consensus::types::{Block, NodeId, QuorumCertificate, ViewNumber, Vote, VoteType};
use synapsed::consensus::voting::{
    BlsAggregation, ThresholdAggregation, VoteAggregationStrategy, VoteCollector, VoteValidator,
};

fn create_test_validators() -> Vec<NodeId> {
    (0..4).map(|_| NodeId::new()).collect()
}

fn create_test_vote(voter: NodeId, view: ViewNumber, vote_type: VoteType, block_id: u128) -> Vote {
    Vote {
        vote_type,
        view,
        block_id,
        voter,
        signature: vec![1, 2, 3, 4],
        timestamp: synapsed_now(),
    }
}

fn synapsed_now() -> i64 {
    std::time::SystemTime::now()
        .duration_since(std::time::UNIX_EPOCH)
        .unwrap()
        .as_millis() as i64
}

fn fresh_id() -> u128 {
    NodeId::new().as_uuid()
}

#[test]
fn test_round_robin_leader_election() {
    let election = RoundRobinLeaderElection::new();
    let validators = create_test_validators();

    let leader1 = election.get_leader(ViewNumber::new(0), &validators);
    let leader2 = election.get_leader(ViewNumber::new(1), &validators);
    let leader3 = election.get_leader(ViewNumber::new(4), &validators);

    assert_eq!(leader1, validators[0]);
    assert_eq!(leader2, validators[1]);
    assert_eq!(leader3, validators[0]);
}

#[test]
fn test_hash_based_leader_election() {
    let election = HashBasedLeaderElection::new("test-network".to_string());
    let validators = create_test_validators();

    let leader1a = election.get_leader(ViewNumber::new(1), &validators);
    let leader1b = election.get_leader(ViewNumber::new(1), &validators);
    assert_eq!(leader1a, leader1b);

    let leader1 = election.get_leader(ViewNumber::new(1), &validators);
    let leader2 = election.get_leader(ViewNumber::new(2), &validators);
    assert!(validators.contains(&leader1));
    assert!(validators.contains(&leader2));
}

#[test]
fn test_weighted_leader_election() {
    let validators = create_test_validators();
    let weights = vec![
        (validators[0], 100u64),
        (validators[1], 200u64),
        (validators[2], 300u64),
        (validators[3], 400u64),
    ];

    let election = WeightedLeaderElection::new(weights);

    let mut selection_count: std::collections::HashMap<NodeId, u32> = std::collections::HashMap::new();
    for view in 0..1000 {
        let leader = election.get_leader(ViewNumber::new(view), &validators);
        *selection_count.entry(leader).or_insert(0) += 1;
    }

    let max_selections = selection_count.values().max().unwrap();
    let most_selected = selection_count
        .iter()
        .find(|(_, &count)| count == *max_selections)
        .unwrap()
        .0;

    assert_eq!(*most_selected, validators[3]);
}

#[test]
fn test_is_leader() {
    let election = RoundRobinLeaderElection::new();
    let validators = create_test_validators();

    assert!(election.is_leader(&validators[0], ViewNumber::new(0), &validators));
    assert!(!election.is_leader(&validators[1], ViewNumber::new(0), &validators));
    assert!(election.is_leader(&validators[1], ViewNumber::new(1), &validators));
}

#[test]
fn test_vote_collector() {
    let mut collector = VoteCollector::new(3);
    let block_id = fresh_id();
    let view = ViewNumber::new(1);

    let vote1 = create_test_vote(NodeId::new(), view, VoteType::Prepare, block_id);
    let vote2 = create_test_vote(NodeId::new(), view, VoteType::Prepare, block_id);
    let vote3 = create_test_vote(NodeId::new(), view, VoteType::Prepare, block_id);

    assert!(collector.add_vote(vote1).unwrap().is_none());
    assert!(collector.add_vote(vote2).unwrap().is_none());

    let qc = collector.add_vote(vote3).unwrap();
    assert!(qc.is_some());
    assert_eq!(qc.unwrap().vote_count(), 3);
}

#[test]
fn test_vote_validator() {
    let validators = vec![NodeId::new(), NodeId::new(), NodeId::new()];
    let validator = VoteValidator::new(validators.clone(), 1);

    let block_id = fresh_id();
    let view = ViewNumber::new(1);

    let valid_vote = create_test_vote(validators[0], view, VoteType::Prepare, block_id);
    assert!(validator.validate_vote(&valid_vote).is_ok());

    let invalid_vote = create_test_vote(NodeId::new(), view, VoteType::Prepare, block_id);
    assert!(validator.validate_vote(&invalid_vote).is_err());
}

#[test]
fn test_duplicate_vote_handling() {
    let mut collector = VoteCollector::new(2);
    let block_id = fresh_id();
    let view = ViewNumber::new(1);
    let voter = NodeId::new();

    let vote1 = create_test_vote(voter, view, VoteType::Prepare, block_id);
    let vote2 = create_test_vote(voter, view, VoteType::Prepare, block_id);

    assert!(collector.add_vote(vote1).unwrap().is_none());
    assert!(collector.add_vote(vote2).unwrap().is_none());

    let stats = collector.get_vote_stats();
    assert_eq!(stats.total_votes, 1);
}

#[test]
fn test_qc_validation() {
    let validators = vec![NodeId::new(), NodeId::new(), NodeId::new()];
    let validator = VoteValidator::new(validators.clone(), 1);

    let block_id = fresh_id();
    let view = ViewNumber::new(1);

    let votes = vec![
        create_test_vote(validators[0], view, VoteType::Prepare, block_id),
        create_test_vote(validators[1], view, VoteType::Prepare, block_id),
        create_test_vote(validators[2], view, VoteType::Prepare, block_id),
    ];

    let qc = QuorumCertificate::new(votes);
    assert!(validator.validate_qc(&qc).is_ok());
}

#[test]
fn test_threshold_aggregation() {
    let strategy = ThresholdAggregation;
    let votes = vec![
        create_test_vote(NodeId::new(), ViewNumber::new(1), VoteType::Prepare, fresh_id()),
        create_test_vote(NodeId::new(), ViewNumber::new(1), VoteType::Prepare, fresh_id()),
        create_test_vote(NodeId::new(), ViewNumber::new(1), VoteType::Prepare, fresh_id()),
    ];

    assert!(strategy.should_aggregate(&votes, 3));
    assert!(!strategy.should_aggregate(&votes, 4));
}

#[test]
fn qc_validation_rejects_unknown_voter_and_mixed_votes() {
    let validators = vec![NodeId::new(), NodeId::new(), NodeId::new()];
    let validator = VoteValidator::new(validators.clone(), 1);
    let block_id = fresh_id();
    let view = ViewNumber::new(1);
    let votes = vec![
        create_test_vote(validators[0], view, VoteType::Prepare, block_id),
        create_test_vote(validators[1], view, VoteType::Prepare, block_id),
        create_test_vote(NodeId::new(), view, VoteType::Prepare, block_id),
    ];
    assert!(validator.validate_qc(&QuorumCertificate::new(votes)).is_err());
    let too_few = vec![create_test_vote(validators[0], view, VoteType::Prepare, block_id)];
    assert!(matches!(
        validator.validate_qc(&QuorumCertificate::new(too_few)),
        Err(ConsensusError::InsufficientVotes { .. })
    ));
    let dup = vec![
        create_test_vote(validators[0], view, VoteType::Prepare, block_id),
        create_test_vote(validators[0], view, VoteType::Prepare, block_id),
        create_test_vote(validators[1], view, VoteType::Prepare, block_id),
    ];
    assert!(validator.validate_qc(&QuorumCertificate::new(dup)).is_err());
}

#[test]
fn bls_aggregation_concatenates_signatures() {
    let strategy = BlsAggregation::new();
    let mut a = create_test_vote(NodeId::new(), ViewNumber::new(1), VoteType::Commit, fresh_id());
    let mut b = create_test_vote(NodeId::new(), ViewNumber::new(1), VoteType::Commit, fresh_id());
    a.signature = vec![1, 2];
    b.signature = vec![3];
    let votes = vec![a, b];
    assert!(strategy.should_aggregate(&votes, 1));
    assert_eq!(strategy.aggregate_signatures(&votes), Some(vec![1, 2, 3]));
    assert!(strategy.aggregate_signatures(&[]).is_none());
}

#[test]
fn round_robin_rotation_scenario() {
    let validators = create_test_validators();
    let election = RoundRobinLeaderElection::with_seed(2);
    assert_eq!(election.get_leader(ViewNumber::new(0), &validators), validators[2]);
    assert_eq!(election.get_leader(ViewNumber::new(1), &validators), validators[3]);
    assert_eq!(election.get_leader(ViewNumber::new(2), &validators), validators[0]);
    assert_eq!(
        election.get_leader(ViewNumber::new(7), &validators),
        election.get_leader(ViewNumber::new(3), &validators)
    );
}

#[test]
fn config_quorum_and_validity() {
    let validators = create_test_validators();
    let config = ConsensusConfig::new(validators[0], validators.clone());
    assert_eq!(config.byzantine_threshold, 1);
    assert_eq!(config.quorum_size(), 3);
    assert!(config.is_valid());
    let single = ConsensusConfig::single_node(validators[0]);
    assert_eq!(single.quorum_size(), 1);
    assert!(single.is_valid());
    let seven: Vec<NodeId> = (0..7).map(|_| NodeId::new()).collect();
    assert_eq!(ConsensusConfig::new(seven[0], seven.clone()).byzantine_threshold, 2);
}

#[test]
fn state_view_never_moves_back() {
    let mut state = HotStuffState::new(ViewNumber::new(5));
    state.advance_to_view(ViewNumber::new(3));
    assert_eq!(state.view, ViewNumber::new(5));
    state.advance_to_view(ViewNumber::new(8));
    assert_eq!(state.view, ViewNumber::new(8));
    assert_eq!(state.phase, HotStuffPhase::Prepare);
}

#[test]
fn high_qc_keeps_the_latest_view() {
    let v = NodeId::new();
    let mut state = HotStuffState::new(ViewNumber::new(0));
    let q5 = QuorumCertificate::new(vec![create_test_vote(v, ViewNumber::new(5), VoteType::Prepare, 1)]);
    let q3 = QuorumCertificate::new(vec![create_test_vote(v, ViewNumber::new(3), VoteType::Prepare, 2)]);
    state.update_high_qc(q5);
    state.update_high_qc(q3);
    assert_eq!(state.high_qc.as_ref().unwrap().view, ViewNumber::new(5));
    assert!(state.check_commit_condition().is_none());
}

#[test]
fn aggregator_replaces_a_voters_earlier_vote() {
    let mut agg = VoteAggregator::new(2);
    let a = NodeId::new();
    let b = NodeId::new();
    assert!(agg.add_vote(create_test_vote(a, ViewNumber::new(1), VoteType::Prepare, 7)).is_none());
    assert!(agg.add_vote(create_test_vote(a, ViewNumber::new(1), VoteType::Prepare, 8)).is_none());
    let qc = agg.add_vote(create_test_vote(b, ViewNumber::new(1), VoteType::Prepare, 8)).unwrap();
    assert_eq!(qc.vote_count(), 2);
    assert_eq!(qc.block_id, 8);
}

fn four_node_replica(me: usize) -> (HotStuffConsensus, Vec<NodeId>) {
    let validators = create_test_validators();
    let config = ConsensusConfig::new(validators[me], validators.clone());
    (HotStuffConsensus::new(config).unwrap(), validators)
}

#[test]
fn replica_start_stop_and_leadership() {
    let (mut node, validators) = four_node_replica(0);
    assert!(node.is_leader());
    assert_eq!(node.current_leader(), Some(validators[0]));
    assert!(node.start().is_ok());
    assert!(matches!(node.start(), Err(ConsensusError::AlreadyRunning)));
    assert!(node.stop().is_ok());
    assert!(node.start().is_ok());
    let (other, _) = four_node_replica(1);
    assert!(!other.is_leader());
    assert!(matches!(other.propose_block(vec![]), Err(ConsensusError::NotLeader)));
}

#[test]
fn replica_refuses_proposals_from_non_leaders_and_ignores_old_views() {
    let (mut node, validators) = four_node_replica(1);
    let block = Block::new(vec![], 1, vec![], validators[2]);
    assert!(matches!(
        node.handle_proposal(validators[2], block, ViewNumber::new(1), None),
        Err(ConsensusError::InvalidLeader)
    ));
    let block = Block::new(vec![], 1, vec![], validators[1]);
    let accepted = node.handle_proposal(validators[1], block, ViewNumber::new(1), None).unwrap();
    assert!(accepted.is_some());
    assert_eq!(node.current_view(), ViewNumber::new(1));
    let old = Block::new(vec![], 1, vec![], validators[0]);
    assert!(node.handle_proposal(validators[0], old, ViewNumber::new(0), None).unwrap().is_none());
    assert_eq!(node.current_view(), ViewNumber::new(1));
}

#[test]
fn replica_votes_only_for_valid_blocks() {
    let (node, _) = four_node_replica(0);
    assert_eq!(
        node.vote_for_validated(ViewNumber::new(3), 9, true).unwrap(),
        VoteIntent { vote_type: VoteType::Prepare, view: ViewNumber::new(3), block_id: 9 }
    );
    assert!(matches!(node.vote_for_validated(ViewNumber::new(3), 9, false), Err(ConsensusError::InvalidBlock)));
}

#[test]
fn replica_forms_certificates_and_proposes_next() {
    let (mut node, validators) = four_node_replica(2);
    assert!(matches!(
        node.handle_vote_message(create_test_vote(validators[0], ViewNumber::new(1), VoteType::Prepare, 5), false),
        Err(ConsensusError::InvalidSignature)
    ));
    let mut qc = None;
    for v in 0..3 {
        qc = node
            .handle_vote_message(create_test_vote(validators[v], ViewNumber::new(1), VoteType::Prepare, 5), true)
            .unwrap();
    }
    let qc = qc.unwrap();
    assert_eq!(qc.vote_count(), 3);
    let outcome = node.handle_quorum_certificate(qc);
    assert!(outcome.commit.is_none());
    assert_eq!(outcome.propose_in, Some(ViewNumber::new(2)));
    let block = node.build_next_block(vec![]);
    assert_eq!(block.height, 1);
    assert!(block.parent_hash.is_empty());
    node.on_proposal_sent(ViewNumber::new(2), block);
    assert_eq!(node.current_view(), ViewNumber::new(2));
    assert_eq!(node.get_stats().messages_sent, 4);
}

#[test]
fn replica_commits_and_builds_on_committed_block() {
    let (mut node, validators) = four_node_replica(0);
    let committed = Block::new(vec![], 4, vec![], validators[0]);
    let h = committed.hash();
    node.on_block_committed(committed);
    let stats = node.get_stats();
    assert_eq!(stats.blocks_committed, 1);
    assert_eq!(stats.transactions_processed, 0);
    let next = node.build_next_block(vec![]);
    assert_eq!(next.height, 5);
    assert_eq!(next.parent_hash, h);
    let (block, message) = node.propose_block(vec![]).unwrap();
    assert_eq!(block.height, 5);
    assert!(matches!(message, HotStuffMessage::Proposal { view, .. } if view == ViewNumber::new(0)));
}

#[test]
fn replica_view_changes() {
    let (mut node, _) = four_node_replica(0);
    node.handle_new_view(ViewNumber::new(4));
    assert_eq!(node.current_view(), ViewNumber::new(4));
    node.handle_new_view(ViewNumber::new(2));
    assert_eq!(node.current_view(), ViewNumber::new(4));
    node.handle_timeout(ViewNumber::new(4));
    assert_eq!(node.current_view(), ViewNumber::new(5));
    node.handle_timeout(ViewNumber::new(1));
    assert_eq!(node.current_view(), ViewNumber::new(5));
    let stats: ConsensusStats = node.get_stats();
    assert_eq!(stats.view_changes, 2);
    assert_eq!(stats.current_view, 5);
}

#[test]
fn test_leader_election() {
    let (consensus, validators) = four_node_replica(0);
    let election = RoundRobinLeaderElection::new();

    // Test leader election for different views
    let leader_view_0 = consensus.get_current_leader();
    let leader_view_1 = election.get_leader(ViewNumber::new(1), &validators);

    // Leaders should be deterministic and valid validators
    assert!(validators.contains(&leader_view_0));
    assert!(validators.contains(&leader_view_1));

    // Check is_leader function
    let current_view = consensus.current_view();
    let current_leader = consensus.get_current_leader();
    assert!(election.is_leader(&current_leader, current_view, &validators));
}

#[test]
fn test_vote_aggregation() {
    let validators = create_test_validators();
    let config = ConsensusConfig::new(validators[0], validators.clone());
    let mut vote_aggregator = VoteCollector::new(config.quorum_size());

    let block_id = fresh_id();
    let view = ViewNumber::new(1);

    // Create votes from different validators
    let votes: Vec<Vote> = validators
        .iter()
        .enumerate()
        .map(|(i, v)| Vote {
            vote_type: VoteType::Prepare,
            view,
            block_id,
            voter: *v,
            signature: vec![i as u8; 4],
            timestamp: synapsed_now(),
        })
        .collect();

    // First two votes shouldn't form QC (need 3 for quorum)
    assert!(vote_aggregator.add_vote(votes[0].clone()).unwrap().is_none());
    assert!(vote_aggregator.add_vote(votes[1].clone()).unwrap().is_none());

    // Third vote should form QC
    let qc = vote_aggregator.add_vote(votes[2].clone()).unwrap();
    assert!(qc.is_some());

    let qc = qc.unwrap();
    assert_eq!(qc.vote_count(), 3);
    assert_eq!(qc.view, view);
    assert_eq!(qc.block_id, block_id);
}

#[test]
fn test_view_change() {
    let (mut consensus, _) = four_node_replica(0);
    consensus.start().unwrap();

    let initial_view = consensus.current_view();
    assert_eq!(initial_view, ViewNumber::new(0));

    // Simulate timeout
    consensus.handle_timeout(initial_view);

    // View should advance
    let new_view = consensus.current_view();
    assert!(new_view.as_u64() > initial_view.as_u64());
}

#[test]
fn test_byzantine_fault_tolerance() {
    let validators = create_test_validators(); // f=1, can tolerate 1 Byzantine node
    let config = ConsensusConfig::new(validators[0], validators.clone());

    // With 4 nodes and f=1, we need 3 votes for quorum
    assert_eq!(config.byzantine_threshold, 1);
    assert_eq!(config.quorum_size(), 3);
}

#[test]
fn test_liveness_properties() {
    for me in 0..4 {
        let (mut consensus, validators) = four_node_replica(me);
        consensus.start().unwrap();

        // Verify that a leader is always elected
        let leader = consensus.current_leader();
        assert!(leader.is_some());
        assert!(validators.contains(&leader.unwrap()));
    }
}

#[test]
fn test_consensus_stats() {
    let (mut consensus, _) = four_node_replica(0);
    consensus.start().unwrap();

    let stats = consensus.get_stats();

    // Initial stats should be reasonable
    assert_eq!(stats.current_view, 0);
    assert_eq!(stats.blocks_committed, 0);
    assert_eq!(stats.transactions_processed, 0);
}
