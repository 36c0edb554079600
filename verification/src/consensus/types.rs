//! Core consensus types: node identities, views, transactions, blocks,
//! votes, quorum certificates and the generic consensus state.

use vstd::prelude::*;
use vstd::bytes::{spec_u128_to_le_bytes, spec_u64_to_le_bytes, u128_to_le_bytes, u64_to_le_bytes};
use vstd::utf8::encode_utf8;
use crate::platform::{fresh_uuid_value, now_millis, sha256, sha256_digest};

verus! {

/// Unique identifier of a node: the 128-bit value of its UUID.
#[derive(Debug, Clone, Copy, PartialEq, Eq, Structural, Hash)]
pub struct NodeId(pub u128);

impl NodeId {
    /// A fresh node identifier drawn from a random (version 4) UUID.
    pub fn new() -> (r: Self) {
        NodeId(fresh_uuid_value())
    }

    /// The node identifier of the UUID whose 128-bit value is `id`.
    pub fn from_uuid(id: u128) -> (r: Self)
        ensures
            r.0 == id,
    {
        NodeId(id)
    }

    /// The 128-bit value of the node's UUID.
    pub fn as_uuid(&self) -> (r: u128)
        ensures
            r == self.0,
    {
        self.0
    }
}

/// View number for consensus rounds.
#[derive(Debug, Clone, Copy, PartialEq, Eq, Structural, PartialOrd, Ord, Hash)]
pub struct ViewNumber(pub u64);

impl ViewNumber {
    pub fn new(view: u64) -> (r: Self)
        ensures
            r.0 == view,
    {
        ViewNumber(view)
    }

    /// The view that follows this one.
    pub fn next(&self) -> (r: Self)
        requires
            self.0 < u64::MAX,
        ensures
            r.0 == self.0 + 1,
    {
        ViewNumber(self.0 + 1)
    }

    pub fn as_u64(&self) -> (r: u64)
        ensures
            r == self.0,
    {
        self.0
    }
}

/// Copies a byte vector, keeping its contents.
pub fn copy_bytes(v: &Vec<u8>) -> (r: Vec<u8>)
    ensures
        r@ == v@,
{
    let r = v.clone();
    assert(r@ =~= v@);
    r
}

/// A transaction within a block.
#[derive(Debug, Clone)]
pub struct Transaction {
    /// Transaction id (128-bit UUID value).
    pub id: u128,
    /// Transaction payload.
    pub data: Vec<u8>,
    /// Creation time, milliseconds since the Unix epoch.
    pub timestamp: i64,
    /// Digital signature.
    pub signature: Vec<u8>,
}

/// The value of a transaction.
pub struct TransactionView {
    pub id: u128,
    pub data: Seq<u8>,
    pub timestamp: i64,
    pub signature: Seq<u8>,
}

impl View for Transaction {
    type V = TransactionView;

    open spec fn view(&self) -> TransactionView {
        TransactionView { id: self.id, data: self.data@, timestamp: self.timestamp, signature: self.signature@ }
    }
}

/// The values of a sequence of transactions.
pub open spec fn txs_view(ts: Seq<Transaction>) -> Seq<TransactionView> {
    ts.map_values(|t: Transaction| t@)
}

impl Transaction {
    /// A transaction with a fresh random id, stamped with the current time.
    pub fn new(data: Vec<u8>, signature: Vec<u8>) -> (r: Self)
        ensures
            r.data@ == data@,
            r.signature@ == signature@,
    {
        Transaction { id: fresh_uuid_value(), data, timestamp: now_millis(), signature }
    }

    /// A copy with the same field values.
    pub fn copied(&self) -> (r: Self)
        ensures
            r@ == self@,
    {
        Transaction {
            id: self.id,
            data: copy_bytes(&self.data),
            timestamp: self.timestamp,
            signature: copy_bytes(&self.signature),
        }
    }
}

/// A block of transactions in the consensus protocol.
#[derive(Debug, Clone)]
pub struct Block {
    /// Unique block identifier (128-bit UUID value).
    pub id: u128,
    /// Hash of the previous block (empty for a genesis block).
    pub parent_hash: Vec<u8>,
    /// Block height in the chain.
    pub height: u64,
    /// Creation time, milliseconds since the Unix epoch.
    pub timestamp: i64,
    /// Transactions in the block.
    pub transactions: Vec<Transaction>,
    /// Node that proposed this block.
    pub proposer: NodeId,
    /// Additional metadata as key/value pairs.
    pub metadata: Vec<(String, String)>,
}

/// The value of a block.
pub struct BlockView {
    pub id: u128,
    pub parent_hash: Seq<u8>,
    pub height: u64,
    pub timestamp: i64,
    pub transactions: Seq<TransactionView>,
    pub proposer: NodeId,
    pub metadata: Seq<(Seq<char>, Seq<char>)>,
}

impl View for Block {
    type V = BlockView;

    open spec fn view(&self) -> BlockView {
        BlockView {
            id: self.id,
            parent_hash: self.parent_hash@,
            height: self.height,
            timestamp: self.timestamp,
            transactions: txs_view(self.transactions@),
            proposer: self.proposer,
            metadata: self.metadata@.map_values(|kv: (String, String)| (kv.0@, kv.1@)),
        }
    }
}

/// A byte sequence preceded by its length (8 bytes, little endian).
pub open spec fn len_prefixed(s: Seq<u8>) -> Seq<u8> {
    spec_u64_to_le_bytes(s.len() as u64) + s
}

/// The canonical byte encoding of a transaction.
pub open spec fn tx_bytes(t: TransactionView) -> Seq<u8> {
    spec_u128_to_le_bytes(t.id) + len_prefixed(t.data) + spec_u64_to_le_bytes(t.timestamp as u64)
        + len_prefixed(t.signature)
}

/// The canonical byte encoding of a sequence of transactions.
pub open spec fn txs_bytes(ts: Seq<TransactionView>) -> Seq<u8>
    decreases ts.len(),
{
    if ts.len() == 0 {
        Seq::empty()
    } else {
        txs_bytes(ts.drop_last()) + tx_bytes(ts.last())
    }
}

/// The canonical byte encoding of metadata: UTF-8 keys and values, each
/// preceded by its length.
pub open spec fn meta_bytes(ms: Seq<(Seq<char>, Seq<char>)>) -> Seq<u8>
    decreases ms.len(),
{
    if ms.len() == 0 {
        Seq::empty()
    } else {
        meta_bytes(ms.drop_last()) + len_prefixed(encode_utf8(ms.last().0)) + len_prefixed(
            encode_utf8(ms.last().1),
        )
    }
}

/// The canonical byte encoding of a block, over which its hash is taken.
pub open spec fn block_bytes(b: BlockView) -> Seq<u8> {
    spec_u128_to_le_bytes(b.id) + spec_u64_to_le_bytes(b.height) + spec_u64_to_le_bytes(
        b.timestamp as u64,
    ) + len_prefixed(b.parent_hash) + spec_u128_to_le_bytes(b.proposer.0) + spec_u64_to_le_bytes(
        b.transactions.len() as u64,
    ) + txs_bytes(b.transactions) + spec_u64_to_le_bytes(b.metadata.len() as u64) + meta_bytes(
        b.metadata,
    )
}

/// The hash of a block: the SHA-256 digest of its canonical encoding.
pub open spec fn block_hash(b: BlockView) -> Seq<u8> {
    sha256_digest(block_bytes(b))
}

/// Appends `bytes` to `out`.
fn push_all(out: &mut Vec<u8>, bytes: &[u8])
    ensures
        final(out)@ == old(out)@ + bytes@,
{
    let n = bytes.len();
    let mut i: usize = 0;
    while i < n
        invariant
            n == bytes@.len(),
            i <= n,
            out@ == old(out)@ + bytes@.subrange(0, i as int),
        decreases n - i,
    {
        out.push(bytes[i]);
        i = i + 1;
        assert(out@ =~= old(out)@ + bytes@.subrange(0, i as int));
    }
    assert(bytes@.subrange(0, n as int) =~= bytes@);
}

/// Appends the length of `bytes` and then `bytes` to `out`.
fn push_len_prefixed(out: &mut Vec<u8>, bytes: &[u8])
    ensures
        final(out)@ == old(out)@ + len_prefixed(bytes@),
{
    let len = u64_to_le_bytes(bytes.len() as u64);
    push_all(out, len.as_slice());
    push_all(out, bytes);
    assert(final(out)@ =~= old(out)@ + len_prefixed(bytes@));
}

impl Block {
    /// A block with a fresh random id, stamped with the current time and with
    /// no metadata.
    pub fn new(parent_hash: Vec<u8>, height: u64, transactions: Vec<Transaction>, proposer: NodeId) -> (r: Self)
        ensures
            r@.parent_hash == parent_hash@,
            r@.height == height,
            r@.transactions == txs_view(transactions@),
            r@.proposer == proposer,
            r@.metadata.len() == 0,
    {
        Block {
            id: fresh_uuid_value(),
            parent_hash,
            height,
            timestamp: now_millis(),
            transactions,
            proposer,
            metadata: Vec::new(),
        }
    }

    /// The canonical byte encoding of this block.
    pub fn encode(&self) -> (r: Vec<u8>)
        ensures
            r@ == block_bytes(self@),
    {
        let mut out: Vec<u8> = Vec::new();
        push_all(&mut out, u128_to_le_bytes(self.id).as_slice());
        push_all(&mut out, u64_to_le_bytes(self.height).as_slice());
        push_all(&mut out, u64_to_le_bytes(self.timestamp as u64).as_slice());
        push_len_prefixed(&mut out, self.parent_hash.as_slice());
        push_all(&mut out, u128_to_le_bytes(self.proposer.0).as_slice());
        push_all(&mut out, u64_to_le_bytes(self.transactions.len() as u64).as_slice());
        let ghost head = out@;
        let ghost tv = self@.transactions;
        let n = self.transactions.len();
        let mut i: usize = 0;
        while i < n
            invariant
                n == self.transactions@.len(),
                tv == txs_view(self.transactions@),
                i <= n,
                out@ == head + txs_bytes(tv.subrange(0, i as int)),
            decreases n - i,
        {
            let t = &self.transactions[i];
            let ghost before = out@;
            push_all(&mut out, u128_to_le_bytes(t.id).as_slice());
            push_len_prefixed(&mut out, t.data.as_slice());
            push_all(&mut out, u64_to_le_bytes(t.timestamp as u64).as_slice());
            push_len_prefixed(&mut out, t.signature.as_slice());
            proof {
                let s = tv.subrange(0, i + 1);
                assert(s.drop_last() =~= tv.subrange(0, i as int));
                assert(s.last() == t@);
                assert(out@ =~= before + tx_bytes(t@));
            }
            i = i + 1;
        }
        assert(tv.subrange(0, n as int) =~= tv);
        push_all(&mut out, u64_to_le_bytes(self.metadata.len() as u64).as_slice());
        let ghost head2 = out@;
        let ghost mv = self@.metadata;
        let m = self.metadata.len();
        let mut j: usize = 0;
        while j < m
            invariant
                m == self.metadata@.len(),
                mv == self.metadata@.map_values(|kv: (String, String)| (kv.0@, kv.1@)),
                j <= m,
                out@ == head2 + meta_bytes(mv.subrange(0, j as int)),
            decreases m - j,
        {
            let kv = &self.metadata[j];
            let ghost before = out@;
            push_len_prefixed(&mut out, kv.0.as_str().as_bytes());
            push_len_prefixed(&mut out, kv.1.as_str().as_bytes());
            proof {
                let s = mv.subrange(0, j + 1);
                assert(s.drop_last() =~= mv.subrange(0, j as int));
                assert(s.last() == (kv.0@, kv.1@));
            }
            j = j + 1;
        }
        assert(mv.subrange(0, m as int) =~= mv);
        assert(out@ =~= block_bytes(self@));
        out
    }

    /// The hash of this block: SHA-256 over its canonical encoding.
    pub fn hash(&self) -> (r: Vec<u8>)
        ensures
            r@ == block_hash(self@),
            r@.len() == 32,
    {
        let bytes = self.encode();
        sha256(bytes.as_slice())
    }

    /// Whether the block is valid at time `now` (milliseconds since the
    /// Unix epoch): it holds transactions, its height is positive and it was
    /// not created after `now`.
    pub fn is_valid_at(&self, now: i64) -> (r: bool)
        ensures
            r == self.valid_at(now),
    {
        self.transactions.len() > 0 && self.height > 0 && self.timestamp <= now
    }

    /// A block is valid at `now` when it has transactions, a positive
    /// height and a timestamp not after `now`.
    pub open spec fn valid_at(&self, now: i64) -> bool {
        self@.transactions.len() > 0 && self.height > 0 && self.timestamp <= now
    }

    /// Whether the block is valid now, by the clock (see `is_valid_at`).
    pub fn is_valid(&self) -> (r: bool)
        ensures
            exists|now: i64| r == #[trigger] self.valid_at(now),
    {
        self.is_valid_at(now_millis())
    }

    /// A copy with the same value.
    pub fn copied(&self) -> (r: Self)
        ensures
            r@ == self@,
    {
        let mut txs: Vec<Transaction> = Vec::new();
        let n = self.transactions.len();
        let mut i: usize = 0;
        while i < n
            invariant
                n == self.transactions@.len(),
                i <= n,
                txs@.len() == i,
                forall|k: int| 0 <= k < i ==> txs@[k]@ == self.transactions@[k]@,
            decreases n - i,
        {
            let t = self.transactions[i].copied();
            txs.push(t);
            i = i + 1;
        }
        let mut meta: Vec<(String, String)> = Vec::new();
        let m = self.metadata.len();
        let mut j: usize = 0;
        while j < m
            invariant
                m == self.metadata@.len(),
                j <= m,
                meta@.len() == j,
                forall|k: int| 0 <= k < j ==> meta@[k].0@ == self.metadata@[k].0@ && meta@[k].1@ == self.metadata@[k].1@,
            decreases m - j,
        {
            let k = self.metadata[j].0.clone();
            let v = self.metadata[j].1.clone();
            meta.push((k, v));
            j = j + 1;
        }
        let r = Block {
            id: self.id,
            parent_hash: copy_bytes(&self.parent_hash),
            height: self.height,
            timestamp: self.timestamp,
            transactions: txs,
            proposer: self.proposer,
            metadata: meta,
        };
        assert(r@.transactions =~= self@.transactions);
        assert(r@.metadata =~= self@.metadata);
        r
    }
}

/// Vote types for consensus protocols.
#[derive(Debug, Clone, Copy, PartialEq, Eq, Structural, Hash)]
pub enum VoteType {
    /// Prepare phase vote.
    Prepare,
    /// Pre-commit phase vote.
    PreCommit,
    /// Commit phase vote.
    Commit,
    /// View change vote.
    ViewChange,
}

/// A vote cast by a validator.
#[derive(Debug, Clone)]
pub struct Vote {
    /// Vote type.
    pub vote_type: VoteType,
    /// View number this vote applies to.
    pub view: ViewNumber,
    /// Block being voted on (128-bit UUID value).
    pub block_id: u128,
    /// Node casting the vote.
    pub voter: NodeId,
    /// Digital signature of the vote.
    pub signature: Vec<u8>,
    /// Time of the vote, milliseconds since the Unix epoch.
    pub timestamp: i64,
}

/// The value of a vote.
pub struct VoteView {
    pub vote_type: VoteType,
    pub view: u64,
    pub block_id: u128,
    pub voter: NodeId,
    pub signature: Seq<u8>,
    pub timestamp: i64,
}

impl View for Vote {
    type V = VoteView;

    open spec fn view(&self) -> VoteView {
        VoteView {
            vote_type: self.vote_type,
            view: self.view.0,
            block_id: self.block_id,
            voter: self.voter,
            signature: self.signature@,
            timestamp: self.timestamp,
        }
    }
}

/// The values of a sequence of votes.
pub open spec fn votes_view(vs: Seq<Vote>) -> Seq<VoteView> {
    vs.map_values(|v: Vote| v@)
}

/// What a vote is about: its view, type and block.
pub open spec fn vote_key(v: VoteView) -> (u64, VoteType, u128) {
    (v.view, v.vote_type, v.block_id)
}

impl Vote {
    /// A vote stamped with the current time.
    pub fn new(vote_type: VoteType, view: ViewNumber, block_id: u128, voter: NodeId, signature: Vec<u8>) -> (r: Self)
        ensures
            r.vote_type == vote_type,
            r.view == view,
            r.block_id == block_id,
            r.voter == voter,
            r.signature@ == signature@,
    {
        Vote { vote_type, view, block_id, voter, signature, timestamp: now_millis() }
    }

    /// A copy with the same value.
    pub fn copied(&self) -> (r: Self)
        ensures
            r@ == self@,
    {
        Vote {
            vote_type: self.vote_type,
            view: self.view,
            block_id: self.block_id,
            voter: self.voter,
            signature: copy_bytes(&self.signature),
            timestamp: self.timestamp,
        }
    }
}

/// Copies a sequence of votes.
pub fn copy_votes(votes: &Vec<Vote>) -> (r: Vec<Vote>)
    ensures
        votes_view(r@) == votes_view(votes@),
{
    let mut r: Vec<Vote> = Vec::new();
    let n = votes.len();
    let mut i: usize = 0;
    while i < n
        invariant
            n == votes@.len(),
            i <= n,
            r@.len() == i,
            forall|k: int| 0 <= k < i ==> r@[k]@ == votes@[k]@,
        decreases n - i,
    {
        r.push(votes[i].copied());
        i = i + 1;
    }
    assert(votes_view(r@) =~= votes_view(votes@));
    r
}

/// Quorum certificate aggregating multiple votes.
#[derive(Debug, Clone)]
pub struct QuorumCertificate {
    /// View number.
    pub view: ViewNumber,
    /// Block this certificate applies to (128-bit UUID value).
    pub block_id: u128,
    /// Votes comprising this certificate.
    pub votes: Vec<Vote>,
    /// Aggregated signature, where one was made.
    pub aggregate_signature: Option<Vec<u8>>,
}

/// The value of a quorum certificate.
pub struct QcView {
    pub view: u64,
    pub block_id: u128,
    pub votes: Seq<VoteView>,
    pub aggregate_signature: Option<Seq<u8>>,
}

impl View for QuorumCertificate {
    type V = QcView;

    open spec fn view(&self) -> QcView {
        QcView {
            view: self.view.0,
            block_id: self.block_id,
            votes: votes_view(self.votes@),
            aggregate_signature: match self.aggregate_signature {
                Some(s) => Some(s@),
                None => None,
            },
        }
    }
}

impl QuorumCertificate {
    /// A certificate over `votes`; its view and block are those of the first
    /// vote (view 0 and the nil block id when there is no vote).
    pub fn new(votes: Vec<Vote>) -> (r: Self)
        ensures
            r.votes@ == votes@,
            r.view == (if votes@.len() > 0 { votes@[0].view } else { ViewNumber(0) }),
            r.block_id == (if votes@.len() > 0 { votes@[0].block_id } else { 0 }),
            r.aggregate_signature is None,
    {
        let view = if votes.len() > 0 { votes[0].view } else { ViewNumber(0) };
        let block_id = if votes.len() > 0 { votes[0].block_id } else { 0 };
        QuorumCertificate { view, block_id, votes, aggregate_signature: None }
    }

    /// Whether this certificate has at least `threshold` votes.
    pub fn has_quorum(&self, threshold: usize) -> (r: bool)
        ensures
            r == (self.votes@.len() >= threshold),
    {
        self.votes.len() >= threshold
    }

    /// The number of votes in this certificate.
    pub fn vote_count(&self) -> (r: usize)
        ensures
            r == self.votes@.len(),
    {
        self.votes.len()
    }

    /// A copy with the same value.
    pub fn copied(&self) -> (r: Self)
        ensures
            r@ == self@,
    {
        let sig = match &self.aggregate_signature {
            Some(s) => Some(copy_bytes(s)),
            None => None,
        };
        QuorumCertificate {
            view: self.view,
            block_id: self.block_id,
            votes: copy_votes(&self.votes),
            aggregate_signature: sig,
        }
    }
}

/// Consensus protocol phases.
#[derive(Debug, Clone, Copy, PartialEq, Eq, Structural)]
pub enum ConsensusPhase {
    /// Preparing to propose.
    Prepare,
    /// Pre-commit phase.
    PreCommit,
    /// Commit phase.
    Commit,
    /// View change in progress.
    ViewChange,
    /// Consensus decided.
    Decided,
}

/// The votes of a given type that a sequence of (type, votes) buckets holds:
/// those of the first bucket of that type, none when there is no such bucket.
pub open spec fn bucket_votes(buckets: Seq<(VoteType, Vec<Vote>)>, t: VoteType) -> Seq<Vote>
    decreases buckets.len(),
{
    if buckets.len() == 0 {
        Seq::empty()
    } else if buckets[0].0 == t {
        buckets[0].1@
    } else {
        bucket_votes(buckets.drop_first(), t)
    }
}

/// Consensus protocol state.
#[derive(Debug, Clone)]
pub struct ConsensusState {
    /// Current view number.
    pub view: ViewNumber,
    /// Current consensus phase.
    pub phase: ConsensusPhase,
    /// Current leader.
    pub leader: Option<NodeId>,
    /// Last committed block.
    pub last_committed_block: Option<Block>,
    /// Pending block being decided.
    pub pending_block: Option<Block>,
    /// Collected votes for the current view, by vote type.
    pub votes: Vec<(VoteType, Vec<Vote>)>,
    /// Quorum certificates, by view.
    pub qcs: Vec<(ViewNumber, QuorumCertificate)>,
}

impl ConsensusState {
    /// The votes of type `t` collected so far.
    pub open spec fn votes_of(&self, t: VoteType) -> Seq<Vote> {
        bucket_votes(self.votes@, t)
    }

    pub fn new(initial_view: ViewNumber) -> (r: Self)
        ensures
            r.view == initial_view,
            r.phase == ConsensusPhase::Prepare,
            r.leader is None,
            r.last_committed_block is None,
            r.pending_block is None,
            forall|t: VoteType| r.votes_of(t).len() == 0,
            r.qcs@.len() == 0,
    {
        let r = ConsensusState {
            view: initial_view,
            phase: ConsensusPhase::Prepare,
            leader: None,
            last_committed_block: None,
            pending_block: None,
            votes: Vec::new(),
            qcs: Vec::new(),
        };
        assert forall|t: VoteType| r.votes_of(t).len() == 0 by {
            assert(r.votes@.len() == 0);
        }
        r
    }

    /// Moves to the next view: phase back to prepare, votes and the pending
    /// block dropped.
    pub fn advance_view(&mut self)
        requires
            old(self).view.0 < u64::MAX,
        ensures
            final(self).view.0 == old(self).view.0 + 1,
            final(self).phase == ConsensusPhase::Prepare,
            forall|t: VoteType| final(self).votes_of(t).len() == 0,
            final(self).pending_block is None,
            final(self).leader == old(self).leader,
            final(self).last_committed_block == old(self).last_committed_block,
            final(self).qcs == old(self).qcs,
    {
        self.view = self.view.next();
        self.phase = ConsensusPhase::Prepare;
        self.votes.clear();
        self.pending_block = None;
        assert forall|t: VoteType| self.votes_of(t).len() == 0 by {
            assert(self.votes@.len() == 0);
        }
    }

    /// Adds a vote to the votes of its type.
    pub fn add_vote(&mut self, vote: Vote)
        ensures
            final(self).votes_of(vote.vote_type) == old(self).votes_of(vote.vote_type).push(vote),
            forall|t: VoteType| t != vote.vote_type ==> final(self).votes_of(t) == old(self).votes_of(t),
            final(self).view == old(self).view,
            final(self).phase == old(self).phase,
            final(self).leader == old(self).leader,
            final(self).last_committed_block == old(self).last_committed_block,
            final(self).pending_block == old(self).pending_block,
            final(self).qcs == old(self).qcs,
    {
        let t = vote.vote_type;
        let n = self.votes.len();
        let found = find_bucket(&self.votes, t);
        match found {
            Some(i) => {
                proof {
                    lemma_bucket_votes_prefix(self.votes@, i as int, t);
                    lemma_bucket_votes_nonempty_entry(self, i as int);
                }
                let ghost prev = self.votes@;
                let mut bucket = self.votes.remove(i);
                bucket.1.push(vote);
                self.votes.insert(i, bucket);
                proof {
                    let nl = self.votes@[i as int].1;
                    assert(nl@ == prev[i as int].1@.push(vote));
                    assert(self.votes@ =~= prev.update(i as int, (t, nl)));
                    lemma_bucket_votes_update(prev, i as int, t, nl, vote);
                }
            },
            None => {
                let ghost prev = self.votes@;
                let mut fresh: Vec<Vote> = Vec::new();
                fresh.push(vote);
                self.votes.push((t, fresh));
                proof {
                    lemma_bucket_votes_append(prev, t, self.votes@.last().1);
                    assert(self.votes@ =~= prev.push((t, self.votes@.last().1)));
                }
            },
        }
    }

    /// Whether at least `threshold` votes of type `vote_type` were collected.
    pub fn has_quorum(&self, vote_type: &VoteType, threshold: usize) -> (r: bool)
        ensures
            r == ((exists|k: int| 0 <= k < self.votes@.len() && #[trigger] self.votes@[k].0 == *vote_type)
                && self.votes_of(*vote_type).len() >= threshold),
    {
        match find_bucket(&self.votes, *vote_type) {
            Some(i) => {
                proof {
                    lemma_bucket_votes_prefix(self.votes@, i as int, *vote_type);
                    lemma_bucket_votes_nonempty_entry(self, i as int);
                }
                self.votes[i].1.len() >= threshold
            },
            None => {
                proof {
                    lemma_bucket_votes_prefix(self.votes@, self.votes@.len() as int, *vote_type);
                }
                false
            },
        }
    }
}

/// The position of the first bucket of type `t`, if any.
fn find_bucket(buckets: &Vec<(VoteType, Vec<Vote>)>, t: VoteType) -> (r: Option<usize>)
    ensures
        match r {
            Some(i) => i < buckets@.len() && buckets@[i as int].0 == t && forall|k: int|
                0 <= k < i ==> buckets@[k].0 != t,
            None => forall|k: int| 0 <= k < buckets@.len() ==> buckets@[k].0 != t,
        },
{
    let n = buckets.len();
    let mut i: usize = 0;
    while i < n
        invariant
            n == buckets@.len(),
            i <= n,
            forall|k: int| 0 <= k < i ==> buckets@[k].0 != t,
        decreases n - i,
    {
        if buckets[i].0 == t {
            return Some(i);
        }
        i = i + 1;
    }
    None
}

/// Where the first `i` buckets are not of type `t`, the votes of type `t` are
/// those of the buckets from `i` on.
proof fn lemma_bucket_votes_prefix(buckets: Seq<(VoteType, Vec<Vote>)>, i: int, t: VoteType)
    requires
        0 <= i <= buckets.len(),
        forall|k: int| 0 <= k < i ==> buckets[k].0 != t,
    ensures
        bucket_votes(buckets, t) == bucket_votes(buckets.subrange(i, buckets.len() as int), t),
    decreases i,
{
    if i > 0 {
        assert(buckets.drop_first().subrange(i - 1, buckets.drop_first().len() as int) =~= buckets.subrange(
            i,
            buckets.len() as int,
        ));
        lemma_bucket_votes_prefix(buckets.drop_first(), i - 1, t);
    } else {
        assert(buckets.subrange(0, buckets.len() as int) =~= buckets);
    }
}

/// The votes of the type of the bucket at `i`, read from `i` on, are that
/// bucket's votes.
proof fn lemma_bucket_votes_nonempty_entry(s: &ConsensusState, i: int)
    requires
        0 <= i < s.votes@.len(),
    ensures
        bucket_votes(s.votes@.subrange(i, s.votes@.len() as int), s.votes@[i].0) == s.votes@[i].1@,
{
    let sub = s.votes@.subrange(i, s.votes@.len() as int);
    assert(sub[0] == s.votes@[i]);
}

/// Replacing the first bucket of type `t` (at `i`) by its votes with `v`
/// appended changes the votes of type `t` only.
proof fn lemma_bucket_votes_update(
    buckets: Seq<(VoteType, Vec<Vote>)>,
    i: int,
    t: VoteType,
    nl: Vec<Vote>,
    v: Vote,
)
    requires
        0 <= i < buckets.len(),
        buckets[i].0 == t,
        nl@ == buckets[i].1@.push(v),
        forall|k: int| 0 <= k < i ==> buckets[k].0 != t,
    ensures
        bucket_votes(buckets.update(i, (t, nl)), t) == bucket_votes(buckets, t).push(v),
        forall|u: VoteType|
            u != t ==> #[trigger] bucket_votes(buckets.update(i, (t, nl)), u) == bucket_votes(buckets, u),
    decreases i,
{
    let nb = buckets.update(i, (t, nl));
    if i == 0 {
        assert(nb.drop_first() =~= buckets.drop_first());
        assert forall|u: VoteType| u != t implies #[trigger] bucket_votes(nb, u) == bucket_votes(buckets, u) by {
        }
    } else {
        lemma_bucket_votes_update(buckets.drop_first(), i - 1, t, nl, v);
        assert(nb.drop_first() =~= buckets.drop_first().update(i - 1, (t, nl)));
        assert(nb[0] == buckets[0]);
        assert forall|u: VoteType| u != t implies #[trigger] bucket_votes(nb, u) == bucket_votes(buckets, u) by {
            assert(bucket_votes(buckets.drop_first().update(i - 1, (t, nl)), u) == bucket_votes(buckets.drop_first(), u));
        }
    }
}

/// Appending a bucket `(t, fresh)` where no bucket of type `t` exists.
proof fn lemma_bucket_votes_append(buckets: Seq<(VoteType, Vec<Vote>)>, t: VoteType, fresh: Vec<Vote>)
    requires
        forall|k: int| 0 <= k < buckets.len() ==> buckets[k].0 != t,
    ensures
        bucket_votes(buckets.push((t, fresh)), t) == fresh@,
        bucket_votes(buckets, t) == Seq::<Vote>::empty(),
        forall|u: VoteType|
            u != t ==> #[trigger] bucket_votes(buckets.push((t, fresh)), u) == bucket_votes(buckets, u),
    decreases buckets.len(),
{
    let nb = buckets.push((t, fresh));
    if buckets.len() == 0 {
        assert(nb.drop_first().len() == 0);
        assert forall|u: VoteType| u != t implies #[trigger] bucket_votes(nb, u) == bucket_votes(buckets, u) by {
            assert(bucket_votes(nb.drop_first(), u) == Seq::<Vote>::empty());
        }
    } else {
        lemma_bucket_votes_append(buckets.drop_first(), t, fresh);
        assert(nb.drop_first() =~= buckets.drop_first().push((t, fresh)));
        assert(nb[0] == buckets[0]);
        assert forall|u: VoteType| u != t implies #[trigger] bucket_votes(nb, u) == bucket_votes(buckets, u) by {
            assert(bucket_votes(buckets.drop_first().push((t, fresh)), u) == bucket_votes(buckets.drop_first(), u));
        }
    }
}

} // verus!
