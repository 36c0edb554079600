//! The HotStuff replica as a state machine. Each step takes an event (a
//! proposal, a vote, a certificate, a view change, a timeout) and the
//! results of the outside work that came before it (a block's validation,
//! a signature check, the application of a committed block), updates the
//! replica's state and says what is to be done next: vote for a block,
//! apply a block, propose in a view. Sending, signing and applying are done
//! by the caller.

use vstd::prelude::*;
use crate::consensus::types::{
    NodeId, ViewNumber, Vote, VoteType, Block, QuorumCertificate, Transaction, block_hash, txs_view,
};
use crate::consensus::error::ConsensusError;
use crate::consensus::config::{ConsensusConfig, ConsensusStats};
use crate::consensus::leader::{LeaderElection, RoundRobinLeaderElection};
use crate::consensus::voting::{VoteCollector, qc_sound, has_voter};
use crate::consensus::hotstuff::{HotStuffState, HotStuffPhase, HotStuffMessage, three_chain, index_of_id};

verus! {

/// What follows a certificate: the block to apply, if the commit rule
/// commits one, and the view to propose in, if this node leads the next
/// view.
pub struct CertificateOutcome {
    pub commit: Option<Block>,
    pub propose_in: Option<ViewNumber>,
}

/// The vote a replica casts for a validated proposal; the caller signs and
/// broadcasts it.
#[derive(Debug, Clone, Copy, PartialEq, Eq, Structural)]
pub struct VoteIntent {
    pub vote_type: VoteType,
    pub view: ViewNumber,
    pub block_id: u128,
}

/// HotStuff consensus replica.
pub struct HotStuffConsensus {
    /// Node identifier
    node_id: NodeId,
    /// Configuration
    config: ConsensusConfig,
    /// Current consensus state
    state: HotStuffState,
    /// Leader election strategy
    leader_election: RoundRobinLeaderElection,
    /// Vote aggregator
    vote_aggregator: VoteCollector,
    /// Running state
    is_running: bool,
    /// Statistics
    stats: ConsensusStats,
}

/// The parent hash and height of the block built on `last` (a genesis block
/// when nothing has been committed).
pub open spec fn next_parent(last: Option<Block>) -> (Seq<u8>, int) {
    match last {
        Some(b) => (block_hash(b@), b.height + 1),
        None => (Seq::empty(), 1),
    }
}

/// Whether two optional certificates are the same certificate.
pub open spec fn opt_qc_eq(a: Option<QuorumCertificate>, b: Option<QuorumCertificate>) -> bool {
    match (a, b) {
        (None, None) => true,
        (Some(x), Some(y)) => x@ == y@,
        _ => false,
    }
}

impl HotStuffConsensus {
    pub closed spec fn node(&self) -> NodeId {
        self.node_id
    }

    pub closed spec fn validators(&self) -> Seq<NodeId> {
        self.config.validators@
    }

    pub closed spec fn threshold(&self) -> usize {
        self.config.byzantine_threshold
    }

    pub closed spec fn st(&self) -> HotStuffState {
        self.state
    }

    pub closed spec fn election(&self) -> RoundRobinLeaderElection {
        self.leader_election
    }

    pub closed spec fn aggregator(&self) -> VoteCollector {
        self.vote_aggregator
    }

    pub closed spec fn running(&self) -> bool {
        self.is_running
    }

    pub closed spec fn stats_spec(&self) -> ConsensusStats {
        self.stats
    }

    /// The current view.
    pub open spec fn view(&self) -> u64 {
        self.st().view.0
    }

    /// Whether a leader can be chosen for `view`.
    pub open spec fn can_lead(&self, view: u64) -> bool {
        self.election().can_elect(view, self.validators())
    }

    /// The leader of `view`.
    pub open spec fn leader_of(&self, view: u64) -> NodeId {
        self.election().elected(view, self.validators())
    }

    /// The replica's invariant: its aggregator is well formed and counts
    /// to the configured quorum `2f + 1`.
    pub open spec fn wf(&self) -> bool {
        &&& self.aggregator().wf()
        &&& self.aggregator().quorum() == 2 * self.threshold() + 1
    }

    /// A stopped replica in view 0 for `config`, rotating leadership round
    /// robin among the validators and forming certificates at `2f + 1`
    /// votes.
    pub fn new(config: ConsensusConfig) -> (r: Result<Self, ConsensusError>)
        requires
            2 * config.byzantine_threshold + 1 <= usize::MAX,
        ensures
            r matches Ok(c) && {
                &&& c.wf()
                &&& c.node() == config.node_id
                &&& c.validators() == config.validators@
                &&& c.threshold() == config.byzantine_threshold
                &&& c.view() == 0
                &&& c.st().high_qc is None
                &&& c.st().last_committed_block is None
                &&& c.st().pending_block is None
                &&& c.st().phase == HotStuffPhase::Prepare
                &&& c.election().seed_value() == 0
                &&& c.aggregator().entries().len() == 0
                &&& !c.running()
                &&& c.stats_spec() == ConsensusStats::zero_spec()
            },
    {
        let node_id = config.node_id;
        let quorum = config.quorum_size();
        Ok(HotStuffConsensus {
            node_id,
            state: HotStuffState::new(ViewNumber::new(0)),
            leader_election: RoundRobinLeaderElection::new(),
            vote_aggregator: VoteCollector::new(quorum),
            is_running: false,
            stats: ConsensusStats::zero(),
            config,
        })
    }

    /// Whether this node leads the current view.
    pub fn is_current_leader(&self) -> (r: bool)
        requires
            self.can_lead(self.view()),
        ensures
            r == (self.leader_of(self.view()) == self.node()),
    {
        self.leader_election.is_leader(&self.node_id, self.state.view, self.config.validators.as_slice())
    }

    /// The leader of the current view.
    pub fn get_current_leader(&self) -> (r: NodeId)
        requires
            self.can_lead(self.view()),
        ensures
            r == self.leader_of(self.view()),
    {
        self.leader_election.get_leader(self.state.view, self.config.validators.as_slice())
    }

    /// A proposal of `block` for `view` from `from`. A sender that does not
    /// lead `view` is refused; a proposal for an earlier view is ignored
    /// (`Ok(None)`); otherwise the replica moves to `view`, keeps the block
    /// as pending, takes `justify` as its highest certificate if it is
    /// newer, and hands the block back to be validated (`Ok(Some(block))`).
    pub fn handle_proposal(&mut self, from: NodeId, block: Block, view: ViewNumber, justify: Option<QuorumCertificate>) -> (r:
        Result<Option<Block>, ConsensusError>)
        requires
            old(self).can_lead(view.0),
        ensures
            final(self).node() == old(self).node(),
            final(self).validators() == old(self).validators(),
            final(self).threshold() == old(self).threshold(),
            final(self).election() == old(self).election(),
            final(self).aggregator() == old(self).aggregator(),
            final(self).running() == old(self).running(),
            final(self).stats_spec() == old(self).stats_spec(),
            final(self).view() >= old(self).view(),
            from != old(self).leader_of(view.0) ==> r == Err::<Option<Block>, ConsensusError>(
                ConsensusError::InvalidLeader,
            ) && final(self).st() == old(self).st(),
            from == old(self).leader_of(view.0) && view.0 < old(self).view() ==> r == Ok::<
                Option<Block>,
                ConsensusError,
            >(None) && final(self).st() == old(self).st(),
            from == old(self).leader_of(view.0) && view.0 >= old(self).view() ==> {
                &&& r matches Ok(Some(b)) && b@ == block@
                &&& final(self).view() == view.0
                &&& final(self).st().pending_block matches Some(p) && p@ == block@
                &&& match justify {
                    Some(q) => (old(self).st().high_qc is None || q.view.0 > old(self).st().high_qc->0.view.0)
                        ==> final(self).st().high_qc == Some(q),
                    None => true,
                }
                &&& old(self).st().high_qc is Some ==> final(self).st().high_qc is Some
                    && final(self).st().high_qc->0.view.0 >= old(self).st().high_qc->0.view.0
                &&& final(self).st().last_committed_block == old(self).st().last_committed_block
            },
            r is Ok ==> from == old(self).leader_of(view.0),
    {
        let expected_leader = self.leader_election.get_leader(view, self.config.validators.as_slice());
        if from != expected_leader {
            return Err(ConsensusError::InvalidLeader);
        }
        if view.0 < self.state.view.0 {
            return Ok(None);
        }
        if view.0 > self.state.view.0 {
            self.state.advance_to_view(view);
        }
        let kept = block.copied();
        self.state.pending_block = Some(kept);
        match justify {
            Some(qc) => self.state.update_high_qc(qc),
            None => {},
        }
        Ok(Some(block))
    }

    /// The vote for a proposed block once the state machine has judged it:
    /// a prepare vote for the block in `view`, or `InvalidBlock`.
    pub fn vote_for_validated(&self, view: ViewNumber, block_id: u128, is_valid: bool) -> (r: Result<VoteIntent, ConsensusError>)
        ensures
            is_valid ==> r == Ok::<VoteIntent, ConsensusError>(
                VoteIntent { vote_type: VoteType::Prepare, view, block_id },
            ),
            !is_valid ==> r == Err::<VoteIntent, ConsensusError>(ConsensusError::InvalidBlock),
    {
        if !is_valid {
            return Err(ConsensusError::InvalidBlock);
        }
        Ok(VoteIntent { vote_type: VoteType::Prepare, view, block_id })
    }

    /// Counts a handled message.
    pub fn record_message_received(&mut self)
        requires
            old(self).stats_spec().messages_received < u64::MAX,
        ensures
            final(self).stats_spec() == (ConsensusStats {
                messages_received: (old(self).stats_spec().messages_received + 1) as u64,
                ..old(self).stats_spec()
            }),
            final(self).st() == old(self).st(),
            final(self).node() == old(self).node(),
            final(self).validators() == old(self).validators(),
            final(self).threshold() == old(self).threshold(),
            final(self).election() == old(self).election(),
            final(self).aggregator() == old(self).aggregator(),
            final(self).running() == old(self).running(),
    {
        self.stats.messages_received = self.stats.messages_received + 1;
    }

    /// A vote from another replica, whose signature check gave
    /// `signature_valid`. A vote with a bad signature is refused; otherwise
    /// it is added to the aggregator, and a certificate is returned when
    /// its collection reaches the quorum.
    pub fn handle_vote_message(&mut self, vote: Vote, signature_valid: bool) -> (r: Result<Option<QuorumCertificate>, ConsensusError>)
        requires
            old(self).wf(),
        ensures
            final(self).wf(),
            final(self).st() == old(self).st(),
            final(self).node() == old(self).node(),
            final(self).validators() == old(self).validators(),
            final(self).threshold() == old(self).threshold(),
            final(self).election() == old(self).election(),
            final(self).running() == old(self).running(),
            final(self).stats_spec() == old(self).stats_spec(),
            !signature_valid ==> r == Err::<Option<QuorumCertificate>, ConsensusError>(
                ConsensusError::InvalidSignature,
            ) && final(self).aggregator() == old(self).aggregator(),
            signature_valid ==> r is Ok,
            signature_valid && has_voter(old(self).aggregator().votes_for(crate::consensus::types::vote_key(vote@)), vote.voter)
                ==> r == Ok::<Option<QuorumCertificate>, ConsensusError>(None),
            signature_valid && !has_voter(old(self).aggregator().votes_for(crate::consensus::types::vote_key(vote@)), vote.voter)
                ==> final(self).aggregator().votes_for(crate::consensus::types::vote_key(vote@)) == old(
                self,
            ).aggregator().votes_for(crate::consensus::types::vote_key(vote@)).push(vote@),
            r matches Ok(Some(qc)) ==> qc_sound(qc@, (2 * old(self).threshold() + 1) as nat),
    {
        if !signature_valid {
            return Err(ConsensusError::InvalidSignature);
        }
        self.vote_aggregator.add_vote(vote)
    }

    /// A newly formed certificate: it becomes the highest certificate if it
    /// is newer; the commit rule may commit the block of the highest
    /// certificate; and when this node leads the view after the
    /// certificate's, that view is the one to propose in.
    pub fn handle_quorum_certificate(&mut self, qc: QuorumCertificate) -> (r: CertificateOutcome)
        requires
            qc.view.0 < u64::MAX,
            old(self).can_lead((qc.view.0 + 1) as u64),
        ensures
            final(self).node() == old(self).node(),
            final(self).validators() == old(self).validators(),
            final(self).threshold() == old(self).threshold(),
            final(self).election() == old(self).election(),
            final(self).aggregator() == old(self).aggregator(),
            final(self).running() == old(self).running(),
            final(self).stats_spec() == old(self).stats_spec(),
            final(self).view() == old(self).view(),
            final(self).st().pending_block == old(self).st().pending_block,
            final(self).st().last_committed_block == old(self).st().last_committed_block,
            final(self).st().block_tree == old(self).st().block_tree,
            (old(self).st().high_qc is None || qc.view.0 > old(self).st().high_qc->0.view.0) ==> final(self).st().high_qc
                == Some(qc),
            old(self).st().high_qc is Some ==> final(self).st().high_qc->0.view.0 >= old(self).st().high_qc->0.view.0,
            ({
                let bs = final(self).st().block_tree.blocks_view();
                match final(self).st().high_qc {
                    None => r.commit is None,
                    Some(h) => match index_of_id(bs, h.block_id) {
                        None => r.commit is None,
                        Some(i) => if three_chain(bs, bs[i].id) {
                            r.commit matches Some(b) && b@ == bs[i]
                        } else {
                            r.commit is None
                        },
                    },
                }
            }),
            r.commit matches Some(b) ==> three_chain(final(self).st().block_tree.blocks_view(), b.id),
            r.propose_in is Some <==> old(self).leader_of((qc.view.0 + 1) as u64) == old(self).node(),
            r.propose_in matches Some(v) ==> v.0 == qc.view.0 + 1,
    {
        let next_view = qc.view.next();
        self.state.update_high_qc(qc);
        let commit = self.state.check_commit_condition();
        let propose_in = if self.leader_election.is_leader(&self.node_id, next_view, self.config.validators.as_slice()) {
            Some(next_view)
        } else {
            None
        };
        CertificateOutcome { commit, propose_in }
    }

    /// Records that `block` has been applied: it becomes the last committed
    /// block, and its transactions are counted.
    pub fn on_block_committed(&mut self, block: Block)
        requires
            old(self).stats_spec().blocks_committed < u64::MAX,
            old(self).stats_spec().transactions_processed + block.transactions@.len() <= u64::MAX,
        ensures
            final(self).st().last_committed_block matches Some(b) && b@ == block@,
            final(self).view() == old(self).view(),
            final(self).st().high_qc == old(self).st().high_qc,
            final(self).st().pending_block == old(self).st().pending_block,
            final(self).stats_spec() == (ConsensusStats {
                blocks_committed: (old(self).stats_spec().blocks_committed + 1) as u64,
                transactions_processed: (old(self).stats_spec().transactions_processed
                    + block.transactions@.len()) as u64,
                ..old(self).stats_spec()
            }),
            final(self).node() == old(self).node(),
            final(self).validators() == old(self).validators(),
            final(self).threshold() == old(self).threshold(),
            final(self).election() == old(self).election(),
            final(self).aggregator() == old(self).aggregator(),
            final(self).running() == old(self).running(),
    {
        let n = block.transactions.len() as u64;
        self.state.last_committed_block = Some(block);
        self.stats.blocks_committed = self.stats.blocks_committed + 1;
        self.stats.transactions_processed = self.stats.transactions_processed + n;
    }

    /// The parent hash and height of the next block: those following the
    /// last committed block, or an empty hash and height 1.
    fn next_block_position(&self) -> (r: (Vec<u8>, u64))
        requires
            self.st().last_committed_block matches Some(b) ==> b.height < u64::MAX,
        ensures
            r.0@ == next_parent(self.st().last_committed_block).0,
            r.1 == next_parent(self.st().last_committed_block).1,
    {
        match &self.state.last_committed_block {
            Some(b) => (b.hash(), b.height + 1),
            None => (Vec::new(), 1),
        }
    }

    /// The block this node proposes with `transactions`, built on the last
    /// committed block.
    pub fn build_next_block(&self, transactions: Vec<Transaction>) -> (r: Block)
        requires
            self.st().last_committed_block matches Some(b) ==> b.height < u64::MAX,
        ensures
            r@.parent_hash == next_parent(self.st().last_committed_block).0,
            r@.height == next_parent(self.st().last_committed_block).1,
            r@.transactions == txs_view(transactions@),
            r@.proposer == self.node(),
            r@.metadata.len() == 0,
    {
        let (parent_hash, height) = self.next_block_position();
        Block::new(parent_hash, height, transactions, self.node_id)
    }

    /// Records that this node has broadcast its proposal of `block` for
    /// `view` to every validator: it moves to `view` and keeps the block as
    /// pending.
    pub fn on_proposal_sent(&mut self, view: ViewNumber, block: Block)
        requires
            old(self).stats_spec().messages_sent + old(self).validators().len() <= u64::MAX,
        ensures
            final(self).view() == if view.0 > old(self).view() { view.0 } else { old(self).view() },
            final(self).st().pending_block matches Some(p) && p@ == block@,
            final(self).st().high_qc == old(self).st().high_qc,
            final(self).st().last_committed_block == old(self).st().last_committed_block,
            final(self).stats_spec() == (ConsensusStats {
                messages_sent: (old(self).stats_spec().messages_sent + old(self).validators().len()) as u64,
                ..old(self).stats_spec()
            }),
            final(self).node() == old(self).node(),
            final(self).validators() == old(self).validators(),
            final(self).threshold() == old(self).threshold(),
            final(self).election() == old(self).election(),
            final(self).aggregator() == old(self).aggregator(),
            final(self).running() == old(self).running(),
    {
        self.state.advance_to_view(view);
        self.state.pending_block = Some(block);
        let n = self.config.validators.len() as u64;
        self.stats.messages_sent = self.stats.messages_sent + n;
    }

    /// A new-view message: the replica moves to `view` if it is later.
    pub fn handle_new_view(&mut self, view: ViewNumber)
        ensures
            final(self).view() == if view.0 > old(self).view() { view.0 } else { old(self).view() },
            final(self).st().high_qc == old(self).st().high_qc,
            final(self).st().last_committed_block == old(self).st().last_committed_block,
            final(self).stats_spec() == old(self).stats_spec(),
            final(self).node() == old(self).node(),
            final(self).validators() == old(self).validators(),
            final(self).threshold() == old(self).threshold(),
            final(self).election() == old(self).election(),
            final(self).aggregator() == old(self).aggregator(),
            final(self).running() == old(self).running(),
    {
        if view.0 > self.state.view.0 {
            self.state.advance_to_view(view);
        }
    }

    /// A timeout of `view`: the replica moves to the view after it if that
    /// is later, and the view change is counted.
    pub fn handle_timeout(&mut self, view: ViewNumber)
        requires
            view.0 < u64::MAX,
            old(self).stats_spec().view_changes < u64::MAX,
        ensures
            final(self).view() == if view.0 + 1 > old(self).view() { (view.0 + 1) as u64 } else { old(self).view() },
            final(self).st().high_qc == old(self).st().high_qc,
            final(self).st().last_committed_block == old(self).st().last_committed_block,
            final(self).stats_spec() == (ConsensusStats {
                view_changes: (old(self).stats_spec().view_changes + 1) as u64,
                ..old(self).stats_spec()
            }),
            final(self).node() == old(self).node(),
            final(self).validators() == old(self).validators(),
            final(self).threshold() == old(self).threshold(),
            final(self).election() == old(self).election(),
            final(self).aggregator() == old(self).aggregator(),
            final(self).running() == old(self).running(),
    {
        let new_view = view.next();
        if new_view.0 > self.state.view.0 {
            self.state.advance_to_view(new_view);
        }
        self.stats.view_changes = self.stats.view_changes + 1;
    }

    /// Starts the replica in the prepare phase; a running replica refuses.
    pub fn start(&mut self) -> (r: Result<(), ConsensusError>)
        ensures
            old(self).running() ==> r == Err::<(), ConsensusError>(ConsensusError::AlreadyRunning) && final(self).st()
                == old(self).st(),
            !old(self).running() ==> r is Ok && final(self).st() == (HotStuffState {
                phase: HotStuffPhase::Prepare,
                ..old(self).st()
            }),
            final(self).running(),
            final(self).stats_spec() == old(self).stats_spec(),
            final(self).node() == old(self).node(),
            final(self).validators() == old(self).validators(),
            final(self).threshold() == old(self).threshold(),
            final(self).election() == old(self).election(),
            final(self).aggregator() == old(self).aggregator(),
    {
        if self.is_running {
            return Err(ConsensusError::AlreadyRunning);
        }
        self.is_running = true;
        self.state.phase = HotStuffPhase::Prepare;
        Ok(())
    }

    /// Stops the replica.
    pub fn stop(&mut self) -> (r: Result<(), ConsensusError>)
        ensures
            r is Ok,
            !final(self).running(),
            final(self).st() == old(self).st(),
            final(self).stats_spec() == old(self).stats_spec(),
            final(self).node() == old(self).node(),
            final(self).validators() == old(self).validators(),
            final(self).threshold() == old(self).threshold(),
            final(self).election() == old(self).election(),
            final(self).aggregator() == old(self).aggregator(),
    {
        self.is_running = false;
        Ok(())
    }

    /// This node's proposal of `transactions` in the current view, with its
    /// highest certificate as justification; only the leader of the current
    /// view proposes. The caller broadcasts the returned message.
    pub fn propose_block(&self, transactions: Vec<Transaction>) -> (r: Result<(Block, HotStuffMessage), ConsensusError>)
        requires
            self.can_lead(self.view()),
            self.st().last_committed_block matches Some(b) ==> b.height < u64::MAX,
        ensures
            self.leader_of(self.view()) != self.node() ==> r == Err::<(Block, HotStuffMessage), ConsensusError>(
                ConsensusError::NotLeader,
            ),
            self.leader_of(self.view()) == self.node() ==> (r matches Ok((b, m)) && {
                &&& b@.parent_hash == next_parent(self.st().last_committed_block).0
                &&& b@.height == next_parent(self.st().last_committed_block).1
                &&& b@.transactions == txs_view(transactions@)
                &&& b@.proposer == self.node()
                &&& m matches HotStuffMessage::Proposal { block, view, justify } && block@ == b@ && view.0
                    == self.view() && opt_qc_eq(justify, self.st().high_qc)
            }),
    {
        if !self.is_current_leader() {
            return Err(ConsensusError::NotLeader);
        }
        let block = self.build_next_block(transactions);
        let justify = match &self.state.high_qc {
            Some(q) => Some(q.copied()),
            None => None,
        };
        let message = HotStuffMessage::Proposal { block: block.copied(), view: self.state.view, justify };
        Ok((block, message))
    }

    /// A proposal of `block` by this replica to itself, in its current view
    /// and without justification.
    pub fn handle_own_proposal(&mut self, block: Block) -> (r: Result<Option<Block>, ConsensusError>)
        requires
            old(self).can_lead(old(self).view()),
        ensures
            final(self).view() == old(self).view(),
            old(self).leader_of(old(self).view()) != old(self).node() ==> r == Err::<Option<Block>, ConsensusError>(
                ConsensusError::InvalidLeader,
            ),
            old(self).leader_of(old(self).view()) == old(self).node() ==> (r matches Ok(Some(b)) && b@ == block@),
    {
        let view = self.state.view;
        let me = self.node_id;
        self.handle_proposal(me, block, view, None)
    }

    /// The current view.
    pub fn current_view(&self) -> (r: ViewNumber)
        ensures
            r.0 == self.view(),
    {
        self.state.view
    }

    /// Whether this node leads the current view.
    pub fn is_leader(&self) -> (r: bool)
        requires
            self.can_lead(self.view()),
        ensures
            r == (self.leader_of(self.view()) == self.node()),
    {
        self.is_current_leader()
    }

    /// The leader of the current view.
    pub fn current_leader(&self) -> (r: Option<NodeId>)
        requires
            self.can_lead(self.view()),
        ensures
            r == Some(self.leader_of(self.view())),
    {
        Some(self.get_current_leader())
    }

    /// The statistics, with the current view.
    pub fn get_stats(&self) -> (r: ConsensusStats)
        ensures
            r == (ConsensusStats { current_view: self.view(), ..self.stats_spec() }),
    {
        ConsensusStats { current_view: self.state.view.0, ..self.stats }
    }
}

} // verus!
